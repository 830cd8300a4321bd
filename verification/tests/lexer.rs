use yotc::lexer::tokens::{binary_op_precedence, Literal, Token};
use yotc::lexer::{LexError, Lexer};

fn tokens_of(text: &str) -> Result<Vec<Token>, LexError> {
    let mut lexer = Lexer::from_text(text);
    lexer.tokenize()
}

fn sym(s: &str) -> Token {
    Token::Symbol(s.to_string())
}

fn ident(s: &str) -> Token {
    Token::Identifier(s.to_string())
}

fn intlit(i: i32) -> Token {
    Token::Literal(Literal::Integer(i))
}

fn strlit(s: &str) -> Token {
    Token::Literal(Literal::Str(s.to_string()))
}

#[test]
fn is_identifier() {
    for &i in &['a', 'z', '_', '0', '9'] {
        assert!(Lexer::is_identifier(i));
    }

    for &s in &['+', '*', '@', ';'] {
        assert!(!Lexer::is_identifier(s));
    }
}

#[test]
fn whitespace_only_is_empty() {
    assert_eq!(tokens_of("").unwrap(), vec![]);
    assert_eq!(tokens_of("   \t \n \r  ").unwrap(), vec![]);
    assert_eq!(tokens_of("\u{a0}\u{2003}").unwrap(), vec![]);
}

#[test]
fn comment_then_function_header() {
    assert_eq!(
        tokens_of("// c\n@m[]{}").unwrap(),
        vec![sym("@"), ident("m"), sym("["), sym("]"), sym("{"), sym("}")]
    );
}

#[test]
fn comment_runs_to_end_of_line() {
    assert_eq!(tokens_of("//x").unwrap(), vec![]);
    assert_eq!(tokens_of("a//b c d\nc").unwrap(), vec![ident("a"), ident("c")]);
}

#[test]
fn less_equal_is_one_token() {
    assert_eq!(tokens_of("<=").unwrap(), vec![sym("<=")]);
    assert_eq!(tokens_of("a<=b").unwrap(), vec![ident("a"), sym("<="), ident("b")]);
    // With a space in between, two tokens come out instead.
    assert_eq!(tokens_of("< =").unwrap(), vec![sym("<"), sym("=")]);
}

#[test]
fn maximal_munch_on_equals() {
    assert_eq!(tokens_of("== = =").unwrap(), vec![sym("=="), sym("="), sym("=")]);
    assert_eq!(tokens_of("===").unwrap(), vec![sym("=="), sym("=")]);
}

#[test]
fn integer_overflow_is_rejected() {
    assert_eq!(
        tokens_of("2147483648"),
        Err(LexError::InvalidInteger("2147483648".to_string()))
    );
    assert_eq!(tokens_of("2147483647").unwrap(), vec![intlit(2147483647)]);
    assert_eq!(
        tokens_of("99999999999999999999"),
        Err(LexError::InvalidInteger("99999999999999999999".to_string()))
    );
}

#[test]
fn leading_zeros_are_fine() {
    assert_eq!(tokens_of("007").unwrap(), vec![intlit(7)]);
    assert_eq!(tokens_of("0").unwrap(), vec![intlit(0)]);
}

#[test]
fn identifiers_and_numbers() {
    assert_eq!(
        tokens_of("a1_b 42 _x").unwrap(),
        vec![ident("a1_b"), intlit(42), ident("_x")]
    );
}

#[test]
fn string_literals() {
    assert_eq!(tokens_of("\"hi\"").unwrap(), vec![strlit("hi")]);
    assert_eq!(tokens_of("\"\"").unwrap(), vec![strlit("")]);
    // An unterminated literal runs to the end of the input.
    assert_eq!(tokens_of("\"ab").unwrap(), vec![strlit("ab")]);
    assert_eq!(
        tokens_of("put(\"x y\")").unwrap(),
        vec![ident("put"), sym("("), strlit("x y"), sym(")")]
    );
}

#[test]
fn unknown_tokens_are_rejected() {
    assert_eq!(tokens_of("#"), Err(LexError::UnknownToken("#".to_string())));
    // `!` is only valid as part of `!=` or `@!`.
    assert_eq!(tokens_of("!a"), Err(LexError::UnknownToken("!".to_string())));
    assert_eq!(tokens_of("a != b").unwrap(), vec![ident("a"), sym("!="), ident("b")]);
    assert_eq!(tokens_of("@!x").unwrap(), vec![sym("@!"), ident("x")]);
}

#[test]
fn next_token_steps_through_input() {
    let mut lexer = Lexer::from_text(" @x ");
    assert_eq!(lexer.next_token(), Some(Ok(sym("@"))));
    assert_eq!(lexer.next_token(), Some(Ok(ident("x"))));
    assert_eq!(lexer.next_token(), None);
    assert_eq!(lexer.next_token(), None);
}

#[test]
fn lex_error_messages() {
    assert_eq!(
        LexError::InvalidInteger("2147483648".to_string()).message(),
        "Integer literal 2147483648 is invalid"
    );
    assert_eq!(
        LexError::UnknownToken("#".to_string()).message(),
        "Unknown token: #"
    );
}

#[test]
fn operator_precedence_table() {
    assert_eq!(binary_op_precedence("="), 0);
    for op in ["==", "!=", "<", ">", "<=", ">="] {
        assert_eq!(binary_op_precedence(op), 10);
    }
    assert_eq!(binary_op_precedence("+"), 20);
    assert_eq!(binary_op_precedence("-"), 20);
    assert_eq!(binary_op_precedence("*"), 30);
    assert_eq!(binary_op_precedence("/"), 30);
    assert_eq!(binary_op_precedence("@"), -1);
    assert_eq!(binary_op_precedence("0"), -1);
    assert_eq!(binary_op_precedence("foo"), -1);
}
