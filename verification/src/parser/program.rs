//! Programs: the root of the abstract syntax tree, and the program
//! parser.

use vstd::prelude::*;
use crate::parser::function::{spec_parse_function, FunModel, Function};
use crate::parser::{ParseError, Parser};

verus! {

/// A program, a.k.a. the root of the abstract syntax tree.
///
/// # Grammar
/// * Function... + EOF
#[derive(Debug, PartialEq)]
pub struct Program {
    /// The list of functions in the program.
    pub functions: Vec<Function>,
}

impl View for Program {
    type V = Seq<FunModel>;

    /// The models of the program's functions, in order.
    open spec fn view(&self) -> Seq<FunModel> {
        self.functions.deep_view()
    }
}

/// The mathematical program parser: functions until the tokens are
/// exhausted.
pub open spec fn spec_parse_program(s: Seq<crate::lexer::tokens::TokenModel>) -> Option<
    Seq<FunModel>,
>
    decreases s.len(),
{
    if s.len() == 0 {
        Option::Some(Seq::empty())
    } else {
        match spec_parse_function(s) {
            Option::None => Option::None,
            Option::Some((f, rest)) => {
                if rest.len() < s.len() {
                    match spec_parse_program(rest) {
                        Option::None => Option::None,
                        Option::Some(fs) => Option::Some(seq![f] + fs),
                    }
                } else {
                    // Never reached: parsing a function consumes tokens.
                    Option::None
                }
            },
        }
    }
}

/// Whether a parsed program holds a regular function named `main`.
pub open spec fn spec_has_main(fs: Seq<FunModel>) -> bool {
    exists|i: int|
        0 <= i < fs.len() && (#[trigger] fs[i] matches FunModel::Regular(name, _args, _body)
            && name == "main"@)
}

impl Parser {
    /// Parse a whole program: functions until the tokens run out.
    ///
    /// A program without a `main` function still parses; callers may test
    /// [`Program::has_main`] and warn.
    pub fn parse_program(&mut self) -> (r: Result<Program, ParseError>)
        requires
            old(self).wf(),
        ensures
            final(self).wf(),
            match spec_parse_program(old(self)@) {
                Option::Some(fs) => {
                    &&& (r matches Ok(prog) && prog@ == fs)
                    &&& final(self)@.len() == 0
                },
                Option::None => r is Err,
            },
    {
        let ghost s0 = old(self)@;
        let mut functions: Vec<Function> = Vec::new();
        proof {
            match spec_parse_program(s0) {
                Option::Some(fs) => {
                    assert(functions.deep_view() + fs =~= fs);
                },
                Option::None => {},
            }
        }
        loop
            invariant
                self.wf(),
                s0 == old(self)@,
                ({
                    match spec_parse_program(self@) {
                        Option::Some(fs) => spec_parse_program(s0) == Option::Some(
                            (functions.deep_view() + fs),
                        ),
                        Option::None => spec_parse_program(s0) is None,
                    }
                }),
            decreases self@.len(),
        {
            let ghost pre = self@;
            let ghost funs0 = functions.deep_view();
            if self.is_empty() {
                proof {
                    assert(spec_parse_program(pre) == Option::Some(Seq::<FunModel>::empty()));
                    assert(funs0 + Seq::<FunModel>::empty() =~= funs0);
                }
                return Ok(Program { functions });
            }
            let f = match self.parse_function() {
                Ok(f) => f,
                Err(err) => return Err(err),
            };
            let ghost fm = f@;
            let ghost s2 = self@;
            functions.push(f);
            proof {
                assert(spec_parse_function(pre) is Some);
                assert(functions.deep_view() =~= funs0 + seq![fm]);
                assert(spec_parse_program(pre) == (
                match spec_parse_program(s2) {
                    Option::Some(fs) => Option::Some(seq![fm] + fs),
                    Option::None => Option::None,
                }));
                match spec_parse_program(s2) {
                    Option::Some(fs) => {
                        assert(funs0 + (seq![fm] + fs) =~= functions.deep_view() + fs);
                    },
                    Option::None => {},
                }
            }
        }
    }
}

impl Program {
    /// Whether the program holds a regular function named `main`.
    ///
    /// Its absence is a warning, not an error: the program still parses
    /// and lowers.
    pub fn has_main(&self) -> (b: bool)
        ensures
            b == spec_has_main(self@),
    {
        let n = self.functions.len();
        let mut i: usize = 0;
        while i < n
            invariant
                i <= n,
                n == self.functions@.len(),
                forall|k: int|
                    0 <= k < i ==> !(#[trigger] self@[k] matches FunModel::Regular(name, _a, _b)
                        && name == "main"@),
            decreases n - i,
        {
            let found = match &self.functions[i] {
                Function::RegularFunction { name, args: _, statement: _ } => crate::str_eq(
                    name.as_str(),
                    "main",
                ),
                Function::ExternalFunction { .. } => false,
            };
            proof {
                assert(self@[i as int] == self.functions@[i as int].deep_view());
            }
            if found {
                return true;
            }
            i = i + 1;
        }
        false
    }
}

} // verus!
