//! Token types produced by the lexer, together with their mathematical
//! models and the symbol and precedence tables of the language.

use vstd::prelude::*;
use vstd::string::StrSliceExecFns;

verus! {

/// A literal value token, either a signed 32-bit integer or a string.
#[derive(Debug, PartialEq)]
pub enum Literal {
    /// A literal signed 32-bit integer.
    Integer(i32),
    /// A literal string.
    Str(String),
}

/// A token produced by the lexer.
#[derive(Debug, PartialEq)]
pub enum Token {
    /// An identifier of a variable or function with its name.
    Identifier(String),
    /// A literal value.
    Literal(Literal),
    /// A known symbol.
    Symbol(String),
}

/// Mathematical model of a [`Literal`]: the integer as an unbounded
/// integer, the string as its character sequence.
pub ghost enum LiteralModel {
    Integer(int),
    Str(Seq<char>),
}

/// Mathematical model of a [`Token`].
pub ghost enum TokenModel {
    Identifier(Seq<char>),
    Literal(LiteralModel),
    Symbol(Seq<char>),
}

impl View for Literal {
    type V = LiteralModel;

    open spec fn view(&self) -> LiteralModel {
        match self {
            Literal::Integer(i) => LiteralModel::Integer(*i as int),
            Literal::Str(s) => LiteralModel::Str(s@),
        }
    }
}

impl DeepView for Literal {
    type V = LiteralModel;

    open spec fn deep_view(&self) -> LiteralModel {
        self.view()
    }
}

impl View for Token {
    type V = TokenModel;

    open spec fn view(&self) -> TokenModel {
        match self {
            Token::Identifier(name) => TokenModel::Identifier(name@),
            Token::Literal(lit) => TokenModel::Literal(lit@),
            Token::Symbol(sym) => TokenModel::Symbol(sym@),
        }
    }
}

impl DeepView for Token {
    type V = TokenModel;

    open spec fn deep_view(&self) -> TokenModel {
        self.view()
    }
}

/// Whether `c` alone is a symbol of the language.
pub open spec fn is_single_symbol(c: char) -> bool {
    ||| c == '=' ||| c == '+' ||| c == '-' ||| c == '*' ||| c == '/'
    ||| c == '<' ||| c == '>' ||| c == '?' ||| c == ':' ||| c == '@'
    ||| c == ';' ||| c == ',' ||| c == '{' ||| c == '}' ||| c == '['
    ||| c == ']' ||| c == '(' ||| c == ')'
}

/// Whether the two characters `a` followed by `b` form a symbol of the
/// language (`==`, `!=`, `<=`, `>=`, `@!`, `->` or the comment opener `//`).
pub open spec fn is_symbol_pair(a: char, b: char) -> bool {
    ||| (a == '=' && b == '=') ||| (a == '!' && b == '=')
    ||| (a == '<' && b == '=') ||| (a == '>' && b == '=')
    ||| (a == '@' && b == '!') ||| (a == '-' && b == '>')
    ||| (a == '/' && b == '/')
}

/// Precedence of a binary operator given as a character sequence:
/// `=` binds loosest at 0, comparisons at 10, additive operators at 20,
/// multiplicative operators at 30; anything else is not a binary operator
/// and maps to -1.
pub open spec fn spec_binary_op_precedence(op: Seq<char>) -> int {
    if op.len() == 1 {
        if op[0] == '=' {
            0
        } else if op[0] == '<' || op[0] == '>' {
            10
        } else if op[0] == '+' || op[0] == '-' {
            20
        } else if op[0] == '*' || op[0] == '/' {
            30
        } else {
            -1
        }
    } else if op.len() == 2 && op[1] == '=' {
        if op[0] == '=' || op[0] == '!' || op[0] == '<' || op[0] == '>' {
            10
        } else {
            -1
        }
    } else {
        -1
    }
}

/// Gets the precedence of a binary operation.
///
/// Higher number meaning higher precedence. If the operation is not a
/// binary operator, -1 is returned.
pub fn binary_op_precedence(op: &str) -> (p: i32)
    ensures
        p as int == spec_binary_op_precedence(op@),
{
    let n = op.unicode_len();
    if n == 1 {
        let c = op.get_char(0);
        if c == '=' {
            0
        } else if c == '<' || c == '>' {
            10
        } else if c == '+' || c == '-' {
            20
        } else if c == '*' || c == '/' {
            30
        } else {
            -1
        }
    } else if n == 2 {
        let a = op.get_char(0);
        let b = op.get_char(1);
        if b == '=' && (a == '=' || a == '!' || a == '<' || a == '>') {
            10
        } else {
            -1
        }
    } else {
        -1
    }
}

} // verus!
