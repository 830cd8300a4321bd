//! A lexical analyzer that splits the program text into [`Token`]s.
//!
//! The behaviour is specified by [`next_token_spec`], a mathematical
//! description of one step of maximal-munch tokenization over the remaining
//! character sequence, and [`spec_tokens`], its closure over a whole input.

pub mod tokens;

use vstd::prelude::*;
use vstd::string::{StrSliceExecFns, StringExecFns};
use crate::lexer::tokens::{Literal, LiteralModel, Token, TokenModel};

verus! {

/// An error from the lexer: an integer literal out of the signed 32-bit
/// range, or a character sequence that matches no symbol of the language.
#[derive(Debug, PartialEq)]
pub enum LexError {
    /// The digit run whose value does not fit a signed 32-bit integer.
    InvalidInteger(String),
    /// The character sequence that matches no symbol.
    UnknownToken(String),
}

/// Mathematical model of a [`LexError`].
pub ghost enum LexErrorModel {
    InvalidInteger(Seq<char>),
    UnknownToken(Seq<char>),
}

impl View for LexError {
    type V = LexErrorModel;

    open spec fn view(&self) -> LexErrorModel {
        match self {
            LexError::InvalidInteger(s) => LexErrorModel::InvalidInteger(s@),
            LexError::UnknownToken(s) => LexErrorModel::UnknownToken(s@),
        }
    }
}

/// Whether `c` is a whitespace character (the Unicode `White_Space` set,
/// as `char::is_whitespace` recognizes it).
pub open spec fn is_space_char(c: char) -> bool {
    let u = c as u32;
    ||| u == 9 ||| u == 10 ||| u == 11 ||| u == 12 ||| u == 13 ||| u == 32
    ||| u == 0x85 ||| u == 0xA0 ||| u == 0x1680
    ||| (0x2000 <= u && u <= 0x200A)
    ||| u == 0x2028 ||| u == 0x2029 ||| u == 0x202F ||| u == 0x205F ||| u == 0x3000
}

/// Whether `c` may continue an identifier: ASCII alphanumeric or `_`.
pub open spec fn is_identifier_char(c: char) -> bool {
    let u = c as u32;
    ||| (48 <= u && u <= 57)  // 0-9
    ||| (65 <= u && u <= 90)  // A-Z
    ||| (97 <= u && u <= 122)  // a-z
    ||| u == 95  // _
}

/// Whether `c` is a decimal digit.
pub open spec fn is_digit_char(c: char) -> bool {
    48 <= c as u32 && c as u32 <= 57
}

/// Whether `c` may start an identifier: an identifier character that is
/// not a digit.
pub open spec fn is_identifier_start(c: char) -> bool {
    is_identifier_char(c) && !is_digit_char(c)
}

/// Length of the identifier run at the head of `s`.
pub open spec fn identifier_run_len(s: Seq<char>) -> nat
    decreases s.len(),
{
    if s.len() > 0 && is_identifier_char(s[0]) {
        1 + identifier_run_len(s.skip(1))
    } else {
        0
    }
}

/// Length of the digit run at the head of `s`.
pub open spec fn digit_run_len(s: Seq<char>) -> nat
    decreases s.len(),
{
    if s.len() > 0 && is_digit_char(s[0]) {
        1 + digit_run_len(s.skip(1))
    } else {
        0
    }
}

/// Length of the head of `s` up to (not including) the next `"`.
pub open spec fn str_body_len(s: Seq<char>) -> nat
    decreases s.len(),
{
    if s.len() > 0 && s[0] != '"' {
        1 + str_body_len(s.skip(1))
    } else {
        0
    }
}

/// Length of the head of `s` up to (not including) the next newline.
pub open spec fn line_run_len(s: Seq<char>) -> nat
    decreases s.len(),
{
    if s.len() > 0 && s[0] != '\n' {
        1 + line_run_len(s.skip(1))
    } else {
        0
    }
}

/// Value of a run of decimal digits read left to right.
pub open spec fn digits_val(s: Seq<char>) -> int
    decreases s.len(),
{
    if s.len() == 0 {
        0
    } else {
        digits_val(s.take(s.len() - 1)) * 10 + (s.last() as u32 - 48)
    }
}

/// `s` without its leading whitespace.
pub open spec fn skip_spaces(s: Seq<char>) -> Seq<char>
    decreases s.len(),
{
    if s.len() > 0 && is_space_char(s[0]) {
        skip_spaces(s.skip(1))
    } else {
        s
    }
}

/// One step of tokenization: the end of the input, one token together with
/// the characters that follow it, or a lexer error.
pub ghost enum LexStep {
    End,
    Tok(TokenModel, Seq<char>),
    Fail(LexErrorModel),
}

/// The first token of `s`, by one-character lookahead and maximal munch:
/// skip whitespace; an identifier character that is not a digit starts an
/// identifier run; a digit starts a digit run read as a signed 32-bit
/// integer; `"` starts a string literal running to the next `"` (or the end
/// of the input); otherwise the longest symbol match wins, `//` discarding
/// the rest of the line, and a match against no symbol failing.
pub open spec fn next_token_spec(s: Seq<char>) -> LexStep
    decreases s.len(),
{
    let t = skip_spaces(s);
    if t.len() == 0 {
        LexStep::End
    } else {
        let c = t[0];
        if is_identifier_start(c) {
            let n = identifier_run_len(t);
            LexStep::Tok(TokenModel::Identifier(t.take(n as int)), t.skip(n as int))
        } else if is_digit_char(c) {
            let n = digit_run_len(t);
            let v = digits_val(t.take(n as int));
            if v <= 0x7FFF_FFFF {
                LexStep::Tok(TokenModel::Literal(LiteralModel::Integer(v)), t.skip(n as int))
            } else {
                LexStep::Fail(LexErrorModel::InvalidInteger(t.take(n as int)))
            }
        } else if c == '"' {
            let n = str_body_len(t.skip(1));
            let body = t.skip(1).take(n as int);
            if 1 + n < t.len() {
                // A closing quote follows the body and is consumed.
                LexStep::Tok(TokenModel::Literal(LiteralModel::Str(body)), t.skip(n as int + 2))
            } else {
                // The input ended inside the literal.
                LexStep::Tok(TokenModel::Literal(LiteralModel::Str(body)), t.skip(t.len() as int))
            }
        } else if t.len() >= 2 && tokens::is_symbol_pair(t[0], t[1]) {
            if t[0] == '/' && t[1] == '/' {
                // A comment: discard through the end of the line, then lex on.
                let k = line_run_len(t.skip(2));
                let rest = t.skip(2).skip(k as int);
                if rest.len() < s.len() {
                    next_token_spec(rest)
                } else {
                    // Never reached: the comment opener alone shortens the input.
                    LexStep::End
                }
            } else {
                LexStep::Tok(TokenModel::Symbol(t.take(2)), t.skip(2))
            }
        } else if tokens::is_single_symbol(c) {
            LexStep::Tok(TokenModel::Symbol(t.take(1)), t.skip(1))
        } else {
            LexStep::Fail(LexErrorModel::UnknownToken(t.take(1)))
        }
    }
}

/// The tokenization of a whole input: its token sequence, or the first
/// lexer error.
pub ghost enum LexResult {
    Tokens(Seq<TokenModel>),
    Fail(LexErrorModel),
}

/// All tokens of `s` in order, or the first lexer error.
pub open spec fn spec_tokens(s: Seq<char>) -> LexResult
    decreases s.len(),
{
    match next_token_spec(s) {
        LexStep::End => LexResult::Tokens(Seq::empty()),
        LexStep::Fail(e) => LexResult::Fail(e),
        LexStep::Tok(t, rest) => {
            if rest.len() < s.len() {
                match spec_tokens(rest) {
                    LexResult::Tokens(ts) => LexResult::Tokens(seq![t] + ts),
                    LexResult::Fail(e) => LexResult::Fail(e),
                }
            } else {
                // Never reached: producing a token consumes at least one character.
                LexResult::Fail(LexErrorModel::UnknownToken(Seq::empty()))
            }
        },
    }
}

/// The identifier run is `m` exactly when the first `m` characters are
/// identifier characters and the next one, if any, is not.
proof fn lemma_identifier_run_len(s: Seq<char>, m: nat)
    requires
        m <= s.len(),
        forall|k: int| 0 <= k < m ==> is_identifier_char(s[k]),
        m < s.len() ==> !is_identifier_char(s[m as int]),
    ensures
        identifier_run_len(s) == m,
    decreases m,
{
    if m == 0 {
    } else {
        assert(is_identifier_char(s[0]));
        assert forall|k: int| 0 <= k < m - 1 implies is_identifier_char(s.skip(1)[k]) by {
            assert(s.skip(1)[k] == s[k + 1]);
        }
        if m < s.len() {
            assert(s.skip(1)[m - 1] == s[m as int]);
        }
        lemma_identifier_run_len(s.skip(1), (m - 1) as nat);
    }
}

/// The digit run is `m` exactly when the first `m` characters are digits
/// and the next one, if any, is not.
proof fn lemma_digit_run_len(s: Seq<char>, m: nat)
    requires
        m <= s.len(),
        forall|k: int| 0 <= k < m ==> is_digit_char(s[k]),
        m < s.len() ==> !is_digit_char(s[m as int]),
    ensures
        digit_run_len(s) == m,
    decreases m,
{
    if m == 0 {
    } else {
        assert(is_digit_char(s[0]));
        assert forall|k: int| 0 <= k < m - 1 implies is_digit_char(s.skip(1)[k]) by {
            assert(s.skip(1)[k] == s[k + 1]);
        }
        if m < s.len() {
            assert(s.skip(1)[m - 1] == s[m as int]);
        }
        lemma_digit_run_len(s.skip(1), (m - 1) as nat);
    }
}

/// The string body length is `m` exactly when the first `m` characters are
/// not quotes and the next one, if any, is.
proof fn lemma_str_body_len(s: Seq<char>, m: nat)
    requires
        m <= s.len(),
        forall|k: int| 0 <= k < m ==> s[k] != '"',
        m < s.len() ==> s[m as int] == '"',
    ensures
        str_body_len(s) == m,
    decreases m,
{
    if m == 0 {
    } else {
        assert(s[0] != '"');
        assert forall|k: int| 0 <= k < m - 1 implies s.skip(1)[k] != '"' by {
            assert(s.skip(1)[k] == s[k + 1]);
        }
        if m < s.len() {
            assert(s.skip(1)[m - 1] == s[m as int]);
        }
        lemma_str_body_len(s.skip(1), (m - 1) as nat);
    }
}

/// The line run is `m` exactly when the first `m` characters are not
/// newlines and the next one, if any, is.
proof fn lemma_line_run_len(s: Seq<char>, m: nat)
    requires
        m <= s.len(),
        forall|k: int| 0 <= k < m ==> s[k] != '\n',
        m < s.len() ==> s[m as int] == '\n',
    ensures
        line_run_len(s) == m,
    decreases m,
{
    if m == 0 {
    } else {
        assert(s[0] != '\n');
        assert forall|k: int| 0 <= k < m - 1 implies s.skip(1)[k] != '\n' by {
            assert(s.skip(1)[k] == s[k + 1]);
        }
        if m < s.len() {
            assert(s.skip(1)[m - 1] == s[m as int]);
        }
        lemma_line_run_len(s.skip(1), (m - 1) as nat);
    }
}

impl LexError {
    /// The error's message.
    pub fn message(&self) -> (r: String)
        ensures
            match self {
                LexError::InvalidInteger(s) => r@ == "Integer literal "@ + s@ + " is invalid"@,
                LexError::UnknownToken(s) => r@ == "Unknown token: "@ + s@,
            },
    {
        match self {
            LexError::InvalidInteger(s) => {
                let mut r = String::from_str("Integer literal ");
                r.append(s.as_str());
                r.append(" is invalid");
                proof {
                    assert(r@ =~= "Integer literal "@ + s@ + " is invalid"@);
                }
                r
            },
            LexError::UnknownToken(s) => {
                let mut r = String::from_str("Unknown token: ");
                r.append(s.as_str());
                r
            },
        }
    }
}

/// All whitespace skips to nothing.
proof fn lemma_skip_spaces_all(s: Seq<char>)
    requires
        forall|i: int| 0 <= i < s.len() ==> is_space_char(#[trigger] s[i]),
    ensures
        skip_spaces(s) == Seq::<char>::empty(),
    decreases s.len(),
{
    if s.len() == 0 {
        assert(s =~= Seq::<char>::empty());
    } else {
        assert forall|i: int| 0 <= i < s.skip(1).len() implies is_space_char(
            #[trigger] s.skip(1)[i],
        ) by {
            assert(s.skip(1)[i] == s[i + 1]);
        }
        lemma_skip_spaces_all(s.skip(1));
    }
}

/// Whitespace-only input tokenizes to an empty sequence.
pub proof fn lemma_whitespace_only_lexes_empty(s: Seq<char>)
    requires
        forall|i: int| 0 <= i < s.len() ==> is_space_char(#[trigger] s[i]),
    ensures
        spec_tokens(s) == LexResult::Tokens(Seq::<TokenModel>::empty()),
{
    lemma_skip_spaces_all(s);
}

/// Maximal munch: an input starting `<=` lexes it as the one
/// two-character symbol, never as `<` followed by `=`.
pub proof fn lemma_le_is_one_token(s: Seq<char>)
    requires
        s.len() >= 2,
        s[0] == '<',
        s[1] == '=',
    ensures
        next_token_spec(s) == LexStep::Tok(TokenModel::Symbol(s.take(2)), s.skip(2)),
{
    assert(!is_space_char('<'));
    assert(skip_spaces(s) == s);
}

/// A digit run whose value does not fit a signed 32-bit integer fails to
/// tokenize as an integer literal.
pub proof fn lemma_integer_overflow_fails(s: Seq<char>)
    requires
        s.len() > 0,
        forall|i: int| 0 <= i < s.len() ==> is_digit_char(#[trigger] s[i]),
        digits_val(s) > 0x7FFF_FFFF,
    ensures
        next_token_spec(s) == LexStep::Fail(LexErrorModel::InvalidInteger(s)),
{
    assert(!is_space_char(s[0]));
    assert(skip_spaces(s) == s);
    lemma_digit_run_len(s, s.len());
    assert(s.take(s.len() as int) =~= s);
}

/// A lexical analyzer that splits the program into [`Token`]s.
pub struct Lexer {
    /// The raw program text.
    text: String,
    /// Index of the next character to read.
    pos: usize,
}

impl View for Lexer {
    type V = Seq<char>;

    /// The characters not yet consumed.
    closed spec fn view(&self) -> Seq<char> {
        self.text@.skip(self.pos as int)
    }
}

impl Lexer {
    /// The reading position never passes the end of the text.
    pub closed spec fn wf(&self) -> bool {
        self.pos as int <= self.text@.len()
    }

    /// Create a lexer given the program data as plain text.
    pub fn from_text(text: &str) -> (l: Lexer)
        ensures
            l.wf(),
            l@ == text@,
    {
        let l = Lexer { text: text.to_owned(), pos: 0 };
        proof {
            assert(l@ =~= text@);
        }
        l
    }

    /// Check if a character is a part of an identifier.
    ///
    /// Identifiers must start with an alphabetic character or underscore,
    /// but can then include alphanumeric characters and underscores after.
    pub fn is_identifier(c: char) -> (r: bool)
        ensures
            r == is_identifier_char(c),
    {
        let u = c as u32;
        (48 <= u && u <= 57) || (65 <= u && u <= 90) || (97 <= u && u <= 122) || u == 95
    }

    /// Check if a character is whitespace.
    fn is_space(c: char) -> (r: bool)
        ensures
            r == is_space_char(c),
    {
        let u = c as u32;
        u == 9 || u == 10 || u == 11 || u == 12 || u == 13 || u == 32
            || u == 0x85 || u == 0xA0 || u == 0x1680
            || (0x2000 <= u && u <= 0x200A)
            || u == 0x2028 || u == 0x2029 || u == 0x202F || u == 0x205F || u == 0x3000
    }

    /// Check if a character is a decimal digit.
    fn is_digit(c: char) -> (r: bool)
        ensures
            r == is_digit_char(c),
    {
        let u = c as u32;
        48 <= u && u <= 57
    }

    /// Check if two characters form a two-character symbol.
    fn is_pair_symbol(a: char, b: char) -> (r: bool)
        ensures
            r == tokens::is_symbol_pair(a, b),
    {
        (a == '=' && b == '=') || (a == '!' && b == '=')
            || (a == '<' && b == '=') || (a == '>' && b == '=')
            || (a == '@' && b == '!') || (a == '-' && b == '>')
            || (a == '/' && b == '/')
    }

    /// Check if a character is a one-character symbol.
    fn is_one_symbol(c: char) -> (r: bool)
        ensures
            r == tokens::is_single_symbol(c),
    {
        c == '=' || c == '+' || c == '-' || c == '*' || c == '/'
            || c == '<' || c == '>' || c == '?' || c == ':' || c == '@'
            || c == ';' || c == ',' || c == '{' || c == '}' || c == '['
            || c == ']' || c == '(' || c == ')'
    }

    /// The character at position `i` of the text.
    fn getc(&self, i: usize) -> (c: char)
        requires
            i < self.text@.len(),
        ensures
            c == self.text@[i as int],
    {
        self.text.as_str().get_char(i)
    }

    /// The characters at positions `from..to` of the text, as a `String`.
    fn snippet(&self, from: usize, to: usize) -> (r: String)
        requires
            from <= to <= self.text@.len(),
        ensures
            r@ == self.text@.subrange(from as int, to as int),
    {
        self.text.as_str().substring_char(from, to).to_owned()
    }

    /// Identifies the next token: `None` once the end of the program has
    /// been reached, the token of [`next_token_spec`] otherwise.
    pub fn next_token(&mut self) -> (r: Option<Result<Token, LexError>>)
        requires
            old(self).wf(),
        ensures
            final(self).wf(),
            match next_token_spec(old(self)@) {
                LexStep::End => r is None && final(self)@.len() == 0,
                LexStep::Tok(t, rest) => {
                    &&& (r matches Some(res) && res matches Ok(tok) && tok@ == t)
                    &&& final(self)@ == rest
                    &&& final(self)@.len() < old(self)@.len()
                },
                LexStep::Fail(e) => r matches Some(res) && res matches Err(err) && err@ == e,
            },
    {
        loop
            invariant
                self.wf(),
                next_token_spec(old(self)@) == next_token_spec(self@),
                self@.len() <= old(self)@.len(),
            decreases self@.len(),
        {
            let ghost s = self@;
            let n = self.text.unicode_len();
            let mut i = self.pos;
            // Find the first non-whitespace character.
            while i < n && Self::is_space(self.getc(i))
                invariant
                    self.wf(),
                    n == self.text@.len(),
                    self.pos <= i <= n,
                    skip_spaces(s) == skip_spaces(self.text@.skip(i as int)),
                    s == self.text@.skip(self.pos as int),
                decreases n - i,
            {
                proof {
                    assert(self.text@.skip(i as int).skip(1) =~= self.text@.skip(i as int + 1));
                }
                i = i + 1;
            }
            let ghost t = self.text@.skip(i as int);
            proof {
                assert(t == skip_spaces(s));
            }
            if i == n {
                self.pos = i;
                proof {
                    assert(self@ =~= Seq::<char>::empty());
                }
                return None;
            }
            let c = self.getc(i);
            proof {
                assert(c == t[0]);
            }
            if Self::is_identifier(c) && !Self::is_digit(c) {
                // An identifier run.
                let mut end = i;
                while end < n && Self::is_identifier(self.getc(end))
                    invariant
                        n == self.text@.len(),
                        i <= end <= n,
                        forall|k: int| i <= k < end ==> is_identifier_char(self.text@[k]),
                    decreases n - end,
                {
                    end = end + 1;
                }
                proof {
                    assert forall|k: int| 0 <= k < end - i implies is_identifier_char(t[k]) by {
                        assert(t[k] == self.text@[i + k]);
                    }
                    if end < n {
                        assert(t[end - i] == self.text@[end as int]);
                    }
                    lemma_identifier_run_len(t, (end - i) as nat);
                }
                let name = self.snippet(i, end);
                self.pos = end;
                proof {
                    assert(name@ =~= t.take(end - i));
                    assert(self@ =~= t.skip(end - i));
                }
                return Some(Ok(Token::Identifier(name)));
            } else if Self::is_digit(c) {
                // An integer literal.
                let mut end = i;
                while end < n && Self::is_digit(self.getc(end))
                    invariant
                        n == self.text@.len(),
                        i <= end <= n,
                        forall|k: int| i <= k < end ==> is_digit_char(self.text@[k]),
                    decreases n - end,
                {
                    end = end + 1;
                }
                proof {
                    assert forall|k: int| 0 <= k < end - i implies is_digit_char(t[k]) by {
                        assert(t[k] == self.text@[i + k]);
                    }
                    if end < n {
                        assert(t[end - i] == self.text@[end as int]);
                    }
                    lemma_digit_run_len(t, (end - i) as nat);
                }
                // Read the run as a signed 32-bit integer, watching for
                // overflow.
                let mut acc: u64 = 0;
                let mut over = false;
                let mut j = i;
                while j < end
                    invariant
                        n == self.text@.len(),
                        i <= j <= end <= n,
                        forall|k: int| i <= k < end ==> is_digit_char(self.text@[k]),
                        t == self.text@.skip(i as int),
                        !over ==> acc as int == digits_val(t.take(j - i)) && acc <= 0x7FFF_FFFF,
                        over ==> digits_val(t.take(j - i)) > 0x7FFF_FFFF,
                    decreases end - j,
                {
                    let cj = self.getc(j);
                    proof {
                        assert(t[j - i] == cj);
                        assert(is_digit_char(cj));
                        let u = t.take(j - i);
                        let u2 = t.take(j - i + 1);
                        assert(u2.take(u2.len() - 1) =~= u);
                        assert(u2.last() == cj);
                        assert(digits_val(u2) == digits_val(u) * 10 + (cj as u32 - 48));
                    }
                    let d = cj as u32 - 48;
                    if !over {
                        acc = acc * 10 + d as u64;
                        if acc > 0x7FFF_FFFF {
                            over = true;
                        }
                    }
                    j = j + 1;
                }
                let value = self.snippet(i, end);
                self.pos = end;
                proof {
                    assert(value@ =~= t.take(end - i));
                    assert(self@ =~= t.skip(end - i));
                }
                if over {
                    return Some(Err(LexError::InvalidInteger(value)));
                }
                return Some(Ok(Token::Literal(Literal::Integer(acc as i32))));
            } else if c == '"' {
                // A string literal: everything up to the next quote.
                let mut end = i + 1;
                while end < n && self.getc(end) != '"'
                    invariant
                        n == self.text@.len(),
                        i + 1 <= end <= n,
                        forall|k: int| i + 1 <= k < end ==> self.text@[k] != '"',
                    decreases n - end,
                {
                    end = end + 1;
                }
                proof {
                    assert forall|k: int| 0 <= k < end - i - 1 implies t.skip(1)[k] != '"' by {
                        assert(t.skip(1)[k] == self.text@[i + 1 + k]);
                    }
                    if end < n {
                        assert(t.skip(1)[end - i - 1] == self.text@[end as int]);
                    }
                    lemma_str_body_len(t.skip(1), (end - i - 1) as nat);
                }
                let value = self.snippet(i + 1, end);
                proof {
                    assert(value@ =~= t.skip(1).take(end - i - 1));
                }
                if end < n {
                    // Eat the closing quote.
                    self.pos = end + 1;
                    proof {
                        assert(self@ =~= t.skip(end - i + 1));
                    }
                } else {
                    self.pos = end;
                    proof {
                        assert(self@ =~= t.skip(t.len() as int));
                    }
                }
                return Some(Ok(Token::Literal(Literal::Str(value))));
            } else if i + 1 < n && Self::is_pair_symbol(c, self.getc(i + 1)) {
                let c2 = self.getc(i + 1);
                proof {
                    assert(c2 == t[1]);
                }
                if c == '/' && c2 == '/' {
                    // A comment: ignore everything until the newline and
                    // try again from there.
                    let mut j = i + 2;
                    while j < n && self.getc(j) != '\n'
                        invariant
                            n == self.text@.len(),
                            i + 2 <= j <= n,
                            forall|k: int| i + 2 <= k < j ==> self.text@[k] != '\n',
                        decreases n - j,
                    {
                        j = j + 1;
                    }
                    proof {
                        assert forall|k: int| 0 <= k < j - i - 2 implies t.skip(2)[k] != '\n' by {
                            assert(t.skip(2)[k] == self.text@[i + 2 + k]);
                        }
                        if j < n {
                            assert(t.skip(2)[j - i - 2] == self.text@[j as int]);
                        }
                        lemma_line_run_len(t.skip(2), (j - i - 2) as nat);
                    }
                    self.pos = j;
                    proof {
                        assert(self@ =~= t.skip(2).skip(j - i - 2));
                    }
                    continue;
                }
                let sym = self.snippet(i, i + 2);
                self.pos = i + 2;
                proof {
                    assert(sym@ =~= t.take(2));
                    assert(self@ =~= t.skip(2));
                }
                return Some(Ok(Token::Symbol(sym)));
            } else if Self::is_one_symbol(c) {
                let sym = self.snippet(i, i + 1);
                self.pos = i + 1;
                proof {
                    assert(sym@ =~= t.take(1));
                    assert(self@ =~= t.skip(1));
                }
                return Some(Ok(Token::Symbol(sym)));
            } else {
                let raw = self.snippet(i, i + 1);
                self.pos = i + 1;
                proof {
                    assert(raw@ =~= t.take(1));
                }
                return Some(Err(LexError::UnknownToken(raw)));
            }
        }
    }

    /// Splits the whole program into tokens, or returns the first lexer
    /// error.
    pub fn tokenize(&mut self) -> (r: Result<Vec<Token>, LexError>)
        requires
            old(self).wf(),
        ensures
            match spec_tokens(old(self)@) {
                LexResult::Tokens(ts) => {
                    &&& (r matches Ok(v) && v.deep_view() == ts)
                },
                LexResult::Fail(e) => r matches Err(err) && err@ == e,
            },
    {
        let mut toks: Vec<Token> = Vec::new();
        loop
            invariant
                self.wf(),
                spec_tokens(old(self)@) == match spec_tokens(self@) {
                    LexResult::Tokens(ts) => LexResult::Tokens(toks.deep_view() + ts),
                    LexResult::Fail(e) => LexResult::Fail(e),
                },
            decreases self@.len(),
        {
            let ghost pre = self@;
            match self.next_token() {
                None => {
                    proof {
                        assert(toks.deep_view() + Seq::<TokenModel>::empty() =~= toks.deep_view());
                    }
                    return Ok(toks);
                },
                Some(Ok(tok)) => {
                    let ghost t = tok@;
                    let ghost toks0 = toks.deep_view();
                    toks.push(tok);
                    proof {
                        let step = next_token_spec(pre);
                        let rest = step->Tok_1;
                        assert(spec_tokens(pre) == match spec_tokens(rest) {
                            LexResult::Tokens(ts) => LexResult::Tokens(seq![t] + ts),
                            LexResult::Fail(e) => LexResult::Fail(e),
                        });
                        assert(toks.deep_view() =~= toks0 + seq![t]);
                        match spec_tokens(rest) {
                            LexResult::Tokens(ts) => {
                                assert(toks0 + (seq![t] + ts) =~= toks.deep_view() + ts);
                            },
                            LexResult::Fail(_) => {},
                        }
                    }
                },
                Some(Err(e)) => {
                    return Err(e);
                },
            }
        }
    }
}

} // verus!
