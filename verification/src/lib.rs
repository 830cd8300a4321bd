//! A compiler front end for a small statement/expression language: a
//! maximal-munch tokenizer, a precedence-climbing parser, and a scope-aware
//! lowering engine that turns the syntax tree into an ordered sequence of
//! instruction-construction operations for an external code-generation
//! back end.

pub mod generator;
pub mod lexer;
pub mod parser;

use vstd::prelude::*;
use vstd::string::{StrSliceExecFns, StringExecFns};

verus! {

/// Whether two string slices hold the same characters.
pub(crate) fn str_eq(a: &str, b: &str) -> (r: bool)
    ensures
        r == (a@ == b@),
{
    let n = a.unicode_len();
    let m = b.unicode_len();
    if n != m {
        proof {
            if a@ == b@ {
                assert(a@.len() == b@.len());
            }
        }
        return false;
    }
    let mut i: usize = 0;
    while i < n
        invariant
            i <= n,
            n == a@.len(),
            n == b@.len(),
            forall|k: int| 0 <= k < i ==> a@[k] == b@[k],
        decreases n - i,
    {
        if a.get_char(i) != b.get_char(i) {
            proof {
                if a@ == b@ {
                    assert(a@[i as int] == b@[i as int]);
                }
            }
            return false;
        }
        i = i + 1;
    }
    proof {
        assert(a@ =~= b@);
    }
    true
}

/// Whether `s` consists of the one character `c`.
pub(crate) fn str_is_char(s: &str, c: char) -> (r: bool)
    ensures
        r == (s@ == seq![c]),
{
    let n = s.unicode_len();
    if n == 1 && s.get_char(0) == c {
        proof {
            assert(s@ =~= seq![c]);
        }
        true
    } else {
        proof {
            if s@ == seq![c] {
                assert(s@.len() == 1);
                assert(s@[0] == c);
            }
        }
        false
    }
}

/// Output file format.
#[derive(Debug, Clone, Copy, PartialEq, Eq, Structural)]
pub enum OutputFormat {
    /// Textual intermediate representation.
    LLVM,
    /// Unlinked object file.
    ObjectFile,
    /// Object file linked into an executable.
    Executable,
}

/// CLI input configuration and parameters.
#[derive(Debug)]
pub struct CLIInput {
    /// Path to the input file.
    pub input_path: String,
    /// `input_path` file name without file extension.
    pub input_name: String,
    /// Path to output file.
    pub output_path: String,
    /// Format of output file.
    pub output_format: OutputFormat,
    /// Optimization level (0-3).
    pub optimization: u32,
    /// Whether or not raw tokens should be printed.
    pub print_tokens: bool,
    /// Whether or not the raw abstract syntax tree should be printed.
    pub print_ast: bool,
    /// Verbosity of logging.
    pub verbose: u32,
}

/// The file extension that belongs to an output format.
pub open spec fn spec_extension(format: OutputFormat) -> Seq<char> {
    match format {
        OutputFormat::LLVM => "ll"@,
        OutputFormat::ObjectFile => "o"@,
        OutputFormat::Executable => "out"@,
    }
}

impl OutputFormat {
    /// The file extension of files of this format.
    pub fn extension(&self) -> (s: &'static str)
        ensures
            s@ == spec_extension(*self),
    {
        match self {
            OutputFormat::LLVM => "ll",
            OutputFormat::ObjectFile => "o",
            OutputFormat::Executable => "out",
        }
    }
}

/// The output path used when none is given: the input's file stem with the
/// extension of the chosen format.
pub fn default_output_path(input_name: &str, format: OutputFormat) -> (r: String)
    ensures
        r@ == input_name@ + "."@ + spec_extension(format),
{
    let mut s = input_name.to_owned();
    s.append(".");
    s.append(format.extension());
    proof {
        assert(s@ =~= input_name@ + "."@ + spec_extension(format));
    }
    s
}

} // verus!
