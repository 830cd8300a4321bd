//! A recursive-descent, precedence-climbing parser from tokens to the
//! abstract syntax tree.
//!
//! Each parsing function is specified against a mathematical parser over
//! the remaining token sequence; see `spec_parse_expression` and its
//! companions in the submodules.

pub mod expression;
pub mod function;
pub mod program;
pub mod statement;

use vstd::prelude::*;
use vstd::string::StringExecFns;
use crate::lexer::tokens::{Literal, Token, TokenModel};

verus! {

/// An error from the parser, naming the construct that was expected.
#[derive(Debug)]
pub struct ParseError {
    /// What the parser expected and did not find.
    pub message: String,
}

impl ParseError {
    /// An error with the given message.
    pub(crate) fn from_msg(m: &str) -> (r: ParseError)
        ensures
            r.message@ == m@,
    {
        ParseError { message: m.to_owned() }
    }
}

/// The model of a one-character symbol token.
pub open spec fn sym1(c: char) -> TokenModel {
    TokenModel::Symbol(seq![c])
}

/// The model of a two-character symbol token.
pub open spec fn sym2(a: char, b: char) -> TokenModel {
    TokenModel::Symbol(seq![a, b])
}

/// The symbol at the head of `s`, or the sentinel `0` (which no symbol
/// table entry matches) when the head is missing or not a symbol.
pub open spec fn peek_op(s: Seq<TokenModel>) -> Seq<char> {
    if s.len() > 0 && s[0] is Symbol {
        s[0]->Symbol_0
    } else {
        seq!['0']
    }
}

/// A parser over a token sequence with one token of lookahead.
pub struct Parser {
    /// The tokens being consumed.
    tokens: Vec<Token>,
    /// Index of the next token to read.
    pos: usize,
}

impl View for Parser {
    type V = Seq<TokenModel>;

    /// The models of the tokens not yet consumed.
    closed spec fn view(&self) -> Seq<TokenModel> {
        self.tokens.deep_view().skip(self.pos as int)
    }
}

impl Parser {
    /// The reading position never passes the end of the tokens.
    pub closed spec fn wf(&self) -> bool {
        self.pos as int <= self.tokens@.len()
    }

    /// Create a parser over the given tokens.
    pub fn new(tokens: Vec<Token>) -> (p: Parser)
        ensures
            p.wf(),
            p@ == tokens.deep_view(),
    {
        let p = Parser { tokens, pos: 0 };
        proof {
            assert(p@ =~= p.tokens.deep_view());
        }
        p
    }

    /// Reference to the next token, if any.
    fn peek(&self) -> (r: Option<&Token>)
        requires
            self.wf(),
        ensures
            match r {
                Some(t) => self@.len() > 0 && t@ == self@[0],
                None => self@.len() == 0,
            },
    {
        if self.pos < self.tokens.len() {
            let t = &self.tokens[self.pos];
            proof {
                assert(self@[0] == self.tokens.deep_view()[self.pos as int]);
            }
            Some(t)
        } else {
            None
        }
    }

    /// Whether all tokens have been consumed.
    fn is_empty(&self) -> (b: bool)
        requires
            self.wf(),
        ensures
            b == (self@.len() == 0),
    {
        self.pos >= self.tokens.len()
    }

    /// Consume one token.
    fn bump(&mut self)
        requires
            old(self).wf(),
            old(self)@.len() > 0,
        ensures
            final(self).wf(),
            final(self)@ == old(self)@.skip(1),
    {
        let n = self.tokens.len();
        proof {
            let d = self.tokens.deep_view();
            assert(d.len() == self.tokens@.len());
            assert(old(self)@.len() == d.len() - self.pos);
            assert(self.pos < n);
        }
        self.pos = self.pos + 1;
        proof {
            assert(self@ =~= old(self)@.skip(1));
        }
    }

    /// If the next token is the symbol `symbol`, consume it and return
    /// true; otherwise leave the tokens alone and return false.
    fn next_symbol_is(&mut self, symbol: &str) -> (b: bool)
        requires
            old(self).wf(),
        ensures
            final(self).wf(),
            b == (old(self)@.len() > 0 && old(self)@[0] == TokenModel::Symbol(symbol@)),
            b ==> final(self)@ == old(self)@.skip(1),
            !b ==> *final(self) == *old(self),
    {
        let matched = match self.peek() {
            Some(t) => match t {
                Token::Symbol(s) => crate::str_eq(s.as_str(), symbol),
                _ => false,
            },
            None => false,
        };
        if matched {
            self.bump();
        }
        matched
    }

    /// The symbol at the head of the tokens, or `0` when the head is
    /// missing or not a symbol.
    fn peek_symbol_or_zero(&self) -> (op: String)
        requires
            self.wf(),
        ensures
            op@ == peek_op(self@),
    {
        match self.peek() {
            Some(t) => match t {
                Token::Symbol(s) => s.clone(),
                _ => Self::zero_symbol(),
            },
            None => Self::zero_symbol(),
        }
    }

    /// The sentinel symbol `0`.
    fn zero_symbol() -> (r: String)
        ensures
            r@ == seq!['0'],
    {
        let r = String::from_str("0");
        proof {
            reveal_strlit("0");
            assert(r@ =~= seq!['0']);
        }
        r
    }

    /// Whether the next token is a literal.
    fn peek_is_literal(&self) -> (b: bool)
        requires
            self.wf(),
        ensures
            b == (self@.len() > 0 && self@[0] is Literal),
    {
        match self.peek() {
            Some(t) => matches!(t, Token::Literal(_)),
            None => false,
        }
    }

    /// The name of the next token when it is an identifier.
    fn peek_identifier(&self) -> (r: Option<String>)
        requires
            self.wf(),
        ensures
            match r {
                Some(name) => self@.len() > 0 && self@[0] == TokenModel::Identifier(name@),
                None => !(self@.len() > 0 && self@[0] is Identifier),
            },
    {
        match self.peek() {
            Some(t) => match t {
                Token::Identifier(name) => Some(name.clone()),
                _ => None,
            },
            None => None,
        }
    }

    /// The symbol of the next token when it is a symbol.
    fn peek_symbol(&self) -> (r: Option<String>)
        requires
            self.wf(),
        ensures
            match r {
                Some(s) => self@.len() > 0 && self@[0] == TokenModel::Symbol(s@),
                None => !(self@.len() > 0 && self@[0] is Symbol),
            },
    {
        match self.peek() {
            Some(t) => match t {
                Token::Symbol(s) => Some(s.clone()),
                _ => None,
            },
            None => None,
        }
    }

    /// The value of the next token when it is a literal.
    fn peek_literal(&self) -> (r: Option<Literal>)
        requires
            self.wf(),
        ensures
            match r {
                Some(lit) => self@.len() > 0 && self@[0] == TokenModel::Literal(lit@),
                None => !(self@.len() > 0 && self@[0] is Literal),
            },
    {
        match self.peek() {
            Some(t) => match t {
                Token::Literal(lit) => Some(Self::clone_literal(lit)),
                _ => None,
            },
            None => None,
        }
    }

    /// A copy of a literal.
    fn clone_literal(lit: &Literal) -> (r: Literal)
        ensures
            r@ == lit@,
    {
        match lit {
            Literal::Integer(i) => Literal::Integer(*i),
            Literal::Str(s) => Literal::Str(s.clone()),
        }
    }
}

} // verus!
