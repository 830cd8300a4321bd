use yotc::lexer::tokens::Literal;
use yotc::lexer::Lexer;
use yotc::parser::expression::Expression;
use yotc::parser::function::Function;
use yotc::parser::statement::Statement;
use yotc::parser::Parser;

fn parser_for(text: &str) -> Parser {
    let mut lexer = Lexer::from_text(text);
    Parser::new(lexer.tokenize().expect("lexing failed"))
}

fn lit(i: i32) -> Expression {
    Expression::LiteralExpression { value: Literal::Integer(i) }
}

fn var(name: &str) -> Expression {
    Expression::VariableReferenceExpression { name: name.to_string() }
}

fn bin(op: &str, l: Expression, r: Expression) -> Expression {
    Expression::BinaryExpression {
        op: op.to_string(),
        l_expression: Box::new(l),
        r_expression: Box::new(r),
    }
}

#[test]
fn multiplication_binds_tighter_to_the_right() {
    let mut p = parser_for("1+2*3");
    let e = p.parse_expression().unwrap();
    assert_eq!(e, bin("+", lit(1), bin("*", lit(2), lit(3))));
}

#[test]
fn multiplication_binds_tighter_to_the_left() {
    let mut p = parser_for("1*2+3");
    let e = p.parse_expression().unwrap();
    assert_eq!(e, bin("+", bin("*", lit(1), lit(2)), lit(3)));
}

#[test]
fn subtraction_is_left_associative() {
    let mut p = parser_for("1-2-3");
    let e = p.parse_expression().unwrap();
    assert_eq!(e, bin("-", bin("-", lit(1), lit(2)), lit(3)));
}

#[test]
fn assignment_is_right_associative() {
    let mut p = parser_for("a=b=1");
    let e = p.parse_expression().unwrap();
    assert_eq!(e, bin("=", var("a"), bin("=", var("b"), lit(1))));
}

#[test]
fn assignment_to_literal_still_parses() {
    // `1=a` parses as an assignment node; the lowering engine rejects it,
    // because `1` is not a variable reference.
    let mut p = parser_for("1=a");
    let e = p.parse_expression().unwrap();
    assert_eq!(e, bin("=", lit(1), var("a")));
}

#[test]
fn comparisons_bind_looser_than_arithmetic() {
    let mut p = parser_for("a+1<=b*2");
    let e = p.parse_expression().unwrap();
    assert_eq!(
        e,
        bin("<=", bin("+", var("a"), lit(1)), bin("*", var("b"), lit(2)))
    );
}

#[test]
fn parenthesized_expressions() {
    let mut p = parser_for("(1+2)*3");
    let e = p.parse_expression().unwrap();
    assert_eq!(
        e,
        bin(
            "*",
            Expression::ParenExpression {
                expression: Box::new(bin("+", lit(1), lit(2))),
            },
            lit(3)
        )
    );
}

#[test]
fn unary_minus() {
    let mut p = parser_for("-x+1");
    let e = p.parse_expression().unwrap();
    assert_eq!(
        e,
        bin(
            "+",
            Expression::UnaryExpression {
                op: "-".to_string(),
                expression: Box::new(var("x")),
            },
            lit(1)
        )
    );
}

#[test]
fn function_calls_with_arguments() {
    let mut p = parser_for("f(1,x+2)");
    let e = p.parse_expression().unwrap();
    assert_eq!(
        e,
        Expression::FunctionCallExpression {
            name: "f".to_string(),
            args: vec![lit(1), bin("+", var("x"), lit(2))],
        }
    );
    let mut p = parser_for("g()");
    let e = p.parse_expression().unwrap();
    assert_eq!(
        e,
        Expression::FunctionCallExpression { name: "g".to_string(), args: vec![] }
    );
}

#[test]
fn expression_errors() {
    assert!(parser_for("").parse_expression().is_err());
    assert!(parser_for("1+").parse_expression().is_err());
    assert!(parser_for("(1").parse_expression().is_err());
    assert!(parser_for("f(1;").parse_expression().is_err());
}

#[test]
fn statement_dispatch() {
    let mut p = parser_for("->1+2;");
    assert_eq!(
        p.parse_statement().unwrap(),
        Statement::ReturnStatement { value: Box::new(bin("+", lit(1), lit(2))) }
    );

    let mut p = parser_for("@x=5;");
    assert_eq!(
        p.parse_statement().unwrap(),
        Statement::VariableDeclarationStatement {
            name: "x".to_string(),
            value: Some(Box::new(lit(5))),
        }
    );

    let mut p = parser_for("@x;");
    assert_eq!(
        p.parse_statement().unwrap(),
        Statement::VariableDeclarationStatement { name: "x".to_string(), value: None }
    );

    let mut p = parser_for(";");
    assert_eq!(p.parse_statement().unwrap(), Statement::NoOpStatement);

    let mut p = parser_for("x;");
    assert_eq!(
        p.parse_statement().unwrap(),
        Statement::ExpressionStatement { expression: Box::new(var("x")) }
    );

    let mut p = parser_for("{;x;}");
    assert_eq!(
        p.parse_statement().unwrap(),
        Statement::CompoundStatement {
            statements: vec![
                Statement::NoOpStatement,
                Statement::ExpressionStatement { expression: Box::new(var("x")) },
            ],
        }
    );
}

#[test]
fn if_statements_with_and_without_else() {
    let mut p = parser_for("?[x] ; : ->1;");
    assert_eq!(
        p.parse_statement().unwrap(),
        Statement::IfStatement {
            condition: Box::new(var("x")),
            then_statement: Box::new(Statement::NoOpStatement),
            else_statement: Some(Box::new(Statement::ReturnStatement {
                value: Box::new(lit(1)),
            })),
        }
    );

    let mut p = parser_for("?[x] ;");
    assert_eq!(
        p.parse_statement().unwrap(),
        Statement::IfStatement {
            condition: Box::new(var("x")),
            then_statement: Box::new(Statement::NoOpStatement),
            else_statement: None,
        }
    );
}

#[test]
fn statement_errors() {
    assert!(parser_for("->1").parse_statement().is_err());
    assert!(parser_for("@1;").parse_statement().is_err());
    assert!(parser_for("?x];").parse_statement().is_err());
    assert!(parser_for("{;").parse_statement().is_err());
    assert!(parser_for("x").parse_statement().is_err());
}

#[test]
fn functions_regular_and_external() {
    let mut p = parser_for("@f[a,b]->a;");
    assert_eq!(
        p.parse_function().unwrap(),
        Function::RegularFunction {
            name: "f".to_string(),
            args: vec!["a".to_string(), "b".to_string()],
            statement: Box::new(Statement::ReturnStatement { value: Box::new(var("a")) }),
        }
    );

    let mut p = parser_for("@!put[c];");
    assert_eq!(
        p.parse_function().unwrap(),
        Function::ExternalFunction { name: "put".to_string(), args: vec!["c".to_string()] }
    );

    let mut p = parser_for("@f[]{}");
    assert_eq!(
        p.parse_function().unwrap(),
        Function::RegularFunction {
            name: "f".to_string(),
            args: vec![],
            statement: Box::new(Statement::CompoundStatement { statements: vec![] }),
        }
    );
}

#[test]
fn function_errors() {
    assert!(parser_for("f[]{}").parse_function().is_err());
    assert!(parser_for("@f(){}").parse_function().is_err());
    assert!(parser_for("@f[a b]{}").parse_function().is_err());
    assert!(parser_for("@!put[];;").parse_function().is_ok());
    assert!(parser_for("@!put[]").parse_function().is_err());
}

#[test]
fn programs_parse_to_their_functions() {
    let mut p = parser_for("@main[]{->0;} @!put[c];");
    let program = p.parse_program().unwrap();
    assert_eq!(program.functions.len(), 2);
    assert!(program.has_main());

    let mut p = parser_for("@helper[]{->0;}");
    let program = p.parse_program().unwrap();
    assert!(!program.has_main());

    let mut p = parser_for("");
    assert_eq!(p.parse_program().unwrap().functions.len(), 0);

    // Anything but a function at top level is an error.
    let mut p = parser_for("@main[]{->0;} x;");
    assert!(p.parse_program().is_err());
}
