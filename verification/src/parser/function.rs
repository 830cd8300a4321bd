//! Functions: their syntax tree, their mathematical model, and the
//! function parser.

use vstd::prelude::*;
use vstd::string::StringExecFns;
use crate::lexer::tokens::TokenModel;
use crate::parser::statement::{spec_parse_statement, stmt_view, Statement, StmtModel};
use crate::parser::{sym1, sym2, ParseError, Parser};

verus! {

/// A function of the language, either with a body or external.
#[derive(Debug, PartialEq)]
pub enum Function {
    /// A regular function with a body.
    ///
    /// # Grammar
    /// * "@" + Identifier + "[" + (Identifier + ",")... + "]" + Statement
    RegularFunction { name: String, args: Vec<String>, statement: Box<Statement> },

    /// An external function.
    ///
    /// # Grammar
    /// * "@!" + Identifier + "[" + (Identifier + ",")... + "]" + ";"
    ExternalFunction { name: String, args: Vec<String> },
}

/// Mathematical model of a [`Function`].
pub ghost enum FunModel {
    Regular(Seq<char>, Seq<Seq<char>>, Box<StmtModel>),
    External(Seq<char>, Seq<Seq<char>>),
}

/// The model of a function.
pub open spec fn fun_view(f: Function) -> FunModel {
    match f {
        Function::RegularFunction { name, args, statement } => FunModel::Regular(
            name@,
            args.deep_view(),
            Box::new(stmt_view(*statement)),
        ),
        Function::ExternalFunction { name, args } => FunModel::External(name@, args.deep_view()),
    }
}

impl View for Function {
    type V = FunModel;

    open spec fn view(&self) -> FunModel {
        fun_view(*self)
    }
}

impl DeepView for Function {
    type V = FunModel;

    open spec fn deep_view(&self) -> FunModel {
        fun_view(*self)
    }
}

/// The mathematical parser for a parameter list, after the opening `[`:
/// empty if `]` follows at once, else comma-separated identifiers up to
/// `]`.
pub open spec fn spec_parse_params(u: Seq<TokenModel>) -> Option<(Seq<Seq<char>>, Seq<TokenModel>)>
    decreases u.len(), 1int,
{
    if u.len() > 0 && u[0] == sym1(']') {
        Option::Some((Seq::empty(), u.skip(1)))
    } else {
        spec_parse_params_rest(u)
    }
}

/// The mathematical parser for a non-empty parameter list: an identifier,
/// then `]` to finish or `,` to continue.
pub open spec fn spec_parse_params_rest(
    u: Seq<TokenModel>,
) -> Option<(Seq<Seq<char>>, Seq<TokenModel>)>
    decreases u.len(), 0int,
{
    if u.len() >= 2 && u[0] is Identifier {
        let name = u[0]->Identifier_0;
        if u[1] == sym1(']') {
            Option::Some((seq![name], u.skip(2)))
        } else if u[1] == sym1(',') {
            match spec_parse_params_rest(u.skip(2)) {
                Option::None => Option::None,
                Option::Some((names, rest)) => Option::Some((seq![name] + names, rest)),
            }
        } else {
            Option::None
        }
    } else {
        Option::None
    }
}

/// The mathematical function parser: `@` (regular) or `@!` (external),
/// the name, the bracketed parameter list, then one statement as the body
/// (regular) or a terminating `;` (external).
pub open spec fn spec_parse_function(s: Seq<TokenModel>) -> Option<(FunModel, Seq<TokenModel>)> {
    if s.len() >= 3 && (s[0] == sym1('@') || s[0] == sym2('@', '!')) && s[1] is Identifier && s[2]
        == sym1('[') {
        let name = s[1]->Identifier_0;
        match spec_parse_params(s.skip(3)) {
            Option::None => Option::None,
            Option::Some((params, rest)) => {
                if s[0] == sym1('@') {
                    match spec_parse_statement(rest) {
                        Option::None => Option::None,
                        Option::Some((body, r2)) => Option::Some(
                            (FunModel::Regular(name, params, Box::new(body)), r2),
                        ),
                    }
                } else {
                    if rest.len() > 0 && rest[0] == sym1(';') {
                        Option::Some((FunModel::External(name, params), rest.skip(1)))
                    } else {
                        Option::None
                    }
                }
            },
        }
    } else {
        Option::None
    }
}

impl Parser {
    /// Parse one top-level function, regular or external.
    pub fn parse_function(&mut self) -> (r: Result<Function, ParseError>)
        requires
            old(self).wf(),
        ensures
            final(self).wf(),
            match spec_parse_function(old(self)@) {
                Option::Some((f, rest)) => {
                    &&& (r matches Ok(fun) && fun@ == f)
                    &&& final(self)@ == rest
                    &&& final(self)@.len() < old(self)@.len()
                },
                Option::None => r is Err,
            },
    {
        let ghost s = old(self)@;
        let sym = match self.peek_symbol() {
            Some(sym) => sym,
            None => {
                return Err(ParseError::from_msg(
                    "Expected `@` or `@!`. (Only top level functions allowed)",
                ));
            },
        };
        proof {
            assert(s[0] == TokenModel::Symbol(sym@));
        }
        let regular = crate::str_is_char(sym.as_str(), '@');
        let external = crate::str_eq(sym.as_str(), "@!");
        proof {
            reveal_strlit("@!");
            assert("@!"@ =~= seq!['@', '!']);
            assert(sym1('@') != sym2('@', '!')) by {
                assert(seq!['@'].len() == 1);
                assert(seq!['@', '!'].len() == 2);
            }
        }
        if !(regular || external) {
            return Err(ParseError::from_msg(
                "Expected `@` or `@!`. (Only top level functions allowed)",
            ));
        }
        self.bump();
        proof {
            if s.len() >= 2 {
                assert(s.skip(1)[0] == s[1]);
            }
        }
        let name = match self.peek_identifier() {
            Some(name) => name,
            None => return Err(ParseError::from_msg("Expected a function name")),
        };
        self.bump();
        proof {
            assert(self@ =~= s.skip(2));
            if s.len() >= 3 {
                assert(s.skip(2)[0] == s[2]);
            }
        }
        let opened = self.next_symbol_is("[");
        proof {
            reveal_strlit("[");
            assert("["@ =~= seq!['[']);
        }
        if !opened {
            let mut msg = String::from_str("Expected `[` after function `");
            msg.append(name.as_str());
            msg.append("`");
            return Err(ParseError { message: msg });
        }
        proof {
            assert(self@ =~= s.skip(3));
        }
        let args = match self.parse_params(&name) {
            Ok(args) => args,
            Err(err) => return Err(err),
        };
        if regular {
            let statement = match self.parse_statement() {
                Ok(st) => st,
                Err(err) => return Err(err),
            };
            return Ok(Function::RegularFunction { name, args, statement: Box::new(statement) });
        }
        let ended = self.next_symbol_is(";");
        proof {
            reveal_strlit(";");
            assert(";"@ =~= seq![';']);
        }
        if !ended {
            let mut msg = String::from_str("Expected `;` after external function `");
            msg.append(name.as_str());
            msg.append("`");
            return Err(ParseError { message: msg });
        }
        Ok(Function::ExternalFunction { name, args })
    }

    /// Parse a parameter list, the opening `[` already consumed.
    fn parse_params(&mut self, fun_name: &String) -> (r: Result<Vec<String>, ParseError>)
        requires
            old(self).wf(),
        ensures
            final(self).wf(),
            match spec_parse_params(old(self)@) {
                Option::Some((params, rest)) => {
                    &&& (r matches Ok(names) && names.deep_view() == params)
                    &&& final(self)@ == rest
                    &&& final(self)@.len() < old(self)@.len()
                },
                Option::None => r is Err,
            },
    {
        let ghost s0 = old(self)@;
        proof {
            reveal_strlit("]");
            reveal_strlit(",");
            assert("]"@ =~= seq![']']);
            assert(","@ =~= seq![',']);
        }
        let mut args: Vec<String> = Vec::new();
        if self.next_symbol_is("]") {
            proof {
                assert(args.deep_view() =~= Seq::<Seq<char>>::empty());
            }
            return Ok(args);
        }
        proof {
            match spec_parse_params_rest(self@) {
                Option::Some((names, rest)) => {
                    assert(args.deep_view() + names =~= names);
                },
                Option::None => {},
            }
        }
        loop
            invariant
                self.wf(),
                self@.len() <= s0.len(),
                s0 == old(self)@,
                ({
                    match spec_parse_params_rest(self@) {
                        Option::Some((names, rest)) => spec_parse_params(s0) == Option::Some(
                            (args.deep_view() + names, rest),
                        ),
                        Option::None => spec_parse_params(s0) is None,
                    }
                }),
            decreases self@.len(),
        {
            proof {
                reveal_strlit("]");
                reveal_strlit(",");
                assert("]"@ =~= seq![']']);
                assert(","@ =~= seq![',']);
                assert(sym1(']') != sym1(',')) by {
                    assert(seq![']'][0] == ']');
                    assert(seq![','][0] == ',');
                }
            }
            let ghost pre = self@;
            let ghost args0 = args.deep_view();
            let pname = match self.peek_identifier() {
                Some(n) => n,
                None => {
                    let mut msg = String::from_str("Expected `]` or `,` after function `");
                    msg.append(fun_name.as_str());
                    msg.append("`");
                    return Err(ParseError { message: msg });
                },
            };
            proof {
                assert(pre[0] == TokenModel::Identifier(pname@));
                if pre.len() >= 2 {
                    assert(pre.skip(1)[0] == pre[1]);
                }
            }
            self.bump();
            let ghost nm = pname@;
            args.push(pname);
            proof {
                assert(args.deep_view() =~= args0 + seq![nm]);
            }
            if self.next_symbol_is("]") {
                proof {
                    assert(spec_parse_params_rest(pre) == Option::Some((seq![nm], pre.skip(2))));
                    assert(args0 + seq![nm] =~= args.deep_view());
                    assert(self@ =~= pre.skip(2));
                }
                return Ok(args);
            }
            if self.next_symbol_is(",") {
                proof {
                    assert(pre.len() >= 2 && pre[1] == sym1(','));
                    assert(pre[1] != sym1(']'));
                    assert(self@ =~= pre.skip(2));
                    assert(spec_parse_params_rest(pre) == (
                    match spec_parse_params_rest(pre.skip(2)) {
                        Option::Some((names, rest)) => Option::Some((seq![nm] + names, rest)),
                        Option::None => Option::None,
                    }));
                    match spec_parse_params_rest(pre.skip(2)) {
                        Option::Some((names, rest)) => {
                            assert(args0 + (seq![nm] + names) =~= args.deep_view() + names);
                        },
                        Option::None => {},
                    }
                }
                continue;
            }
            let mut msg = String::from_str("Expected `]` or `,` after function `");
            msg.append(fun_name.as_str());
            msg.append("`");
            return Err(ParseError { message: msg });
        }
    }
}

} // verus!
