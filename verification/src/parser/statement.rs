//! Statements: their syntax tree, their mathematical model, and the
//! statement parser.

use vstd::prelude::*;
use crate::lexer::tokens::TokenModel;
use crate::parser::expression::{
    expr_view, spec_parse_expression, ExprModel, Expression,
};
use crate::parser::{sym1, sym2, ParseError, Parser};

verus! {

/// A statement of the language.
#[derive(Debug, PartialEq)]
pub enum Statement {
    /// Multiple statements enclosed in braces.
    ///
    /// # Grammar
    /// * "{" + Statement... + "}"
    CompoundStatement { statements: Vec<Statement> },

    /// An if/else statement.
    ///
    /// # Grammar
    /// * "?" + "[" + Expression + "]" + Statement
    /// * "?" + "[" + Expression + "]" + Statement + ":" + Statement
    IfStatement {
        condition: Box<Expression>,
        then_statement: Box<Statement>,
        else_statement: Option<Box<Statement>>,
    },

    /// A return statement.
    ///
    /// # Grammar
    /// * "->" + Expression + ";"
    ReturnStatement { value: Box<Expression> },

    /// A variable declaration with an optional value.
    ///
    /// # Grammar
    /// * "@" + Identifier + ";"
    /// * "@" + Identifier + "=" + Expression + ";"
    VariableDeclarationStatement { name: String, value: Option<Box<Expression>> },

    /// An expression ending with a semicolon.
    ///
    /// # Grammar
    /// * Expression + ";"
    ExpressionStatement { expression: Box<Expression> },

    /// A no-op ending (just a semicolon).
    ///
    /// # Grammar
    /// * ;
    NoOpStatement,
}

/// Mathematical model of a [`Statement`].
pub ghost enum StmtModel {
    Compound(Seq<StmtModel>),
    If(Box<ExprModel>, Box<StmtModel>, Option<Box<StmtModel>>),
    Return(Box<ExprModel>),
    VariableDeclaration(Seq<char>, Option<Box<ExprModel>>),
    Expression(Box<ExprModel>),
    NoOp,
}

/// The model of a statement tree.
pub open spec fn stmt_view(st: Statement) -> StmtModel
    decreases st,
    via stmt_view_decreases
{
    match st {
        Statement::CompoundStatement { statements } => StmtModel::Compound(
            stmts_view(statements@),
        ),
        Statement::IfStatement { condition, then_statement, else_statement } => StmtModel::If(
            Box::new(expr_view(*condition)),
            Box::new(stmt_view(*then_statement)),
            match else_statement {
                Option::Some(e) => Option::Some(Box::new(stmt_view(*e))),
                Option::None => Option::None,
            },
        ),
        Statement::ReturnStatement { value } => StmtModel::Return(Box::new(expr_view(*value))),
        Statement::VariableDeclarationStatement { name, value } => StmtModel::VariableDeclaration(
            name@,
            match value {
                Option::Some(v) => Option::Some(Box::new(expr_view(*v))),
                Option::None => Option::None,
            },
        ),
        Statement::ExpressionStatement { expression } => StmtModel::Expression(
            Box::new(expr_view(*expression)),
        ),
        Statement::NoOpStatement => StmtModel::NoOp,
    }
}

#[via_fn]
proof fn stmt_view_decreases(st: Statement) {
    match st {
        Statement::CompoundStatement { statements } => {
            assert(decreases_to!(st => statements));
            assert(decreases_to!(statements => statements@));
        },
        _ => {},
    }
}

/// The models of a sequence of statement trees, elementwise.
pub open spec fn stmts_view(sts: Seq<Statement>) -> Seq<StmtModel>
    decreases sts,
{
    Seq::new(
        sts.len(),
        |i: int|
            if 0 <= i < sts.len() {
                stmt_view(sts[i])
            } else {
                StmtModel::NoOp
            },
    )
}

impl View for Statement {
    type V = StmtModel;

    open spec fn view(&self) -> StmtModel {
        stmt_view(*self)
    }
}

impl DeepView for Statement {
    type V = StmtModel;

    open spec fn deep_view(&self) -> StmtModel {
        stmt_view(*self)
    }
}

/// The mathematical statement parser, dispatching on the pending symbol:
/// `{` a compound statement, `?` an if statement, `->` a return statement,
/// `@` a variable declaration, a lone `;` a no-op, and anything else an
/// expression statement.
pub open spec fn spec_parse_statement(s: Seq<TokenModel>) -> Option<(StmtModel, Seq<TokenModel>)>
    decreases s.len(), 1int,
{
    if s.len() > 0 && s[0] == sym1('{') {
        match spec_parse_statement_list(s.skip(1)) {
            Option::None => Option::None,
            Option::Some((sts, rest)) => Option::Some((StmtModel::Compound(sts), rest)),
        }
    } else if s.len() > 0 && s[0] == sym1('?') {
        spec_parse_if_tail(s)
    } else if s.len() > 0 && s[0] == sym2('-', '>') {
        match spec_parse_expression(s.skip(1)) {
            Option::None => Option::None,
            Option::Some((v, s2)) => {
                if s2.len() > 0 && s2[0] == sym1(';') {
                    Option::Some((StmtModel::Return(Box::new(v)), s2.skip(1)))
                } else {
                    Option::None
                }
            },
        }
    } else if s.len() > 0 && s[0] == sym1('@') {
        spec_parse_variable_declaration_tail(s)
    } else if s.len() > 0 && s[0] == sym1(';') {
        Option::Some((StmtModel::NoOp, s.skip(1)))
    } else {
        match spec_parse_expression(s) {
            Option::None => Option::None,
            Option::Some((e, s2)) => {
                if s2.len() > 0 && s2[0] == sym1(';') {
                    Option::Some((StmtModel::Expression(Box::new(e)), s2.skip(1)))
                } else {
                    Option::None
                }
            },
        }
    }
}

/// The mathematical parser for an if statement, from its `?`: the
/// bracketed condition, the then-statement, and an optional `:` with an
/// else-statement.
pub open spec fn spec_parse_if_tail(s: Seq<TokenModel>) -> Option<(StmtModel, Seq<TokenModel>)>
    decreases s.len(), 0int,
{
    if s.len() >= 2 && s[1] == sym1('[') {
        match spec_parse_expression(s.skip(2)) {
            Option::None => Option::None,
            Option::Some((cond, s2)) => {
                if s2.len() > 0 && s2[0] == sym1(']') {
                    if s2.skip(1).len() < s.len() {
                        match spec_parse_statement(s2.skip(1)) {
                            Option::None => Option::None,
                            Option::Some((th, s3)) => {
                                if s3.len() > 0 && s3[0] == sym1(':') {
                                    if s3.skip(1).len() < s.len() {
                                        match spec_parse_statement(s3.skip(1)) {
                                            Option::None => Option::None,
                                            Option::Some((el, s4)) => Option::Some(
                                                (
                                                    StmtModel::If(
                                                        Box::new(cond),
                                                        Box::new(th),
                                                        Option::Some(Box::new(el)),
                                                    ),
                                                    s4,
                                                ),
                                            ),
                                        }
                                    } else {
                                        // Never reached: tokens were consumed.
                                        Option::None
                                    }
                                } else {
                                    Option::Some(
                                        (StmtModel::If(Box::new(cond), Box::new(th), Option::None), s3),
                                    )
                                }
                            },
                        }
                    } else {
                        // Never reached: tokens were consumed.
                        Option::None
                    }
                } else {
                    Option::None
                }
            },
        }
    } else {
        Option::None
    }
}

/// The mathematical parser for a variable declaration, from its `@`: the
/// name, an optional `=` with an initializer, and the closing `;`.
pub open spec fn spec_parse_variable_declaration_tail(
    s: Seq<TokenModel>,
) -> Option<(StmtModel, Seq<TokenModel>)> {
    if s.len() >= 2 && s[1] is Identifier {
        let name = s[1]->Identifier_0;
        let u = s.skip(2);
        if u.len() > 0 && u[0] == sym1('=') {
            match spec_parse_expression(u.skip(1)) {
                Option::None => Option::None,
                Option::Some((v, s2)) => {
                    if s2.len() > 0 && s2[0] == sym1(';') {
                        Option::Some(
                            (
                                StmtModel::VariableDeclaration(
                                    name,
                                    Option::Some(Box::new(v)),
                                ),
                                s2.skip(1),
                            ),
                        )
                    } else {
                        Option::None
                    }
                },
            }
        } else if u.len() > 0 && u[0] == sym1(';') {
            Option::Some((StmtModel::VariableDeclaration(name, Option::None), u.skip(1)))
        } else {
            Option::None
        }
    } else {
        Option::None
    }
}

/// The mathematical parser for the inside of a compound statement:
/// statements until the closing `}`.
pub open spec fn spec_parse_statement_list(
    s: Seq<TokenModel>,
) -> Option<(Seq<StmtModel>, Seq<TokenModel>)>
    decreases s.len(), 2int,
{
    if s.len() > 0 && s[0] == sym1('}') {
        Option::Some((Seq::empty(), s.skip(1)))
    } else {
        match spec_parse_statement(s) {
            Option::None => Option::None,
            Option::Some((st, s2)) => {
                if s2.len() < s.len() {
                    match spec_parse_statement_list(s2) {
                        Option::None => Option::None,
                        Option::Some((sts, s3)) => Option::Some((seq![st] + sts, s3)),
                    }
                } else {
                    // Never reached: parsing a statement consumes tokens.
                    Option::None
                }
            },
        }
    }
}

impl Parser {
    /// Parse one statement, dispatching on the pending symbol.
    pub fn parse_statement(&mut self) -> (r: Result<Statement, ParseError>)
        requires
            old(self).wf(),
        ensures
            final(self).wf(),
            match spec_parse_statement(old(self)@) {
                Option::Some((st, rest)) => {
                    &&& (r matches Ok(stmt) && stmt@ == st)
                    &&& final(self)@ == rest
                    &&& final(self)@.len() < old(self)@.len()
                },
                Option::None => r is Err,
            },
        decreases old(self)@.len(), 1int,
    {
        let ghost s = old(self)@;
        if let Some(sym) = self.peek_symbol() {
            proof {
                assert(s[0] == TokenModel::Symbol(sym@));
            }
            if crate::str_is_char(sym.as_str(), '{') {
                return self.parse_compound_statement();
            }
            if crate::str_is_char(sym.as_str(), '?') {
                return self.parse_if_statement();
            }
            if crate::str_eq(sym.as_str(), "->") {
                proof {
                    reveal_strlit("->");
                    assert("->"@ =~= seq!['-', '>']);
                }
                return self.parse_return_statement();
            }
            proof {
                reveal_strlit("->");
                assert("->"@ =~= seq!['-', '>']);
            }
            if crate::str_is_char(sym.as_str(), '@') {
                return self.parse_variable_declaration_statement();
            }
            if crate::str_is_char(sym.as_str(), ';') {
                return self.parse_no_op_statement();
            }
            return self.parse_expression_statement();
        }
        self.parse_expression_statement()
    }

    /// Parse a compound statement: statements between braces.
    fn parse_compound_statement(&mut self) -> (r: Result<Statement, ParseError>)
        requires
            old(self).wf(),
            old(self)@.len() > 0,
            old(self)@[0] == sym1('{'),
        ensures
            final(self).wf(),
            match spec_parse_statement_list(old(self)@.skip(1)) {
                Option::Some((sts, rest)) => {
                    &&& (r matches Ok(stmt) && stmt@ == StmtModel::Compound(sts))
                    &&& final(self)@ == rest
                    &&& final(self)@.len() < old(self)@.len()
                },
                Option::None => r is Err,
            },
        decreases old(self)@.len(), 0int,
    {
        self.bump();  // Eat {
        let ghost s0 = self@;
        let mut statements: Vec<Statement> = Vec::new();
        proof {
            match spec_parse_statement_list(s0) {
                Option::Some((sts, rest)) => {
                    assert(stmts_view(statements@) + sts =~= sts);
                },
                Option::None => {},
            }
        }
        loop
            invariant
                self.wf(),
                self@.len() <= s0.len(),
                self@.len() < old(self)@.len(),
                s0 == old(self)@.skip(1),
                ({
                    match spec_parse_statement_list(self@) {
                        Option::Some((sts, rest)) => spec_parse_statement_list(s0)
                            == Option::Some((stmts_view(statements@) + sts, rest)),
                        Option::None => spec_parse_statement_list(s0) is None,
                    }
                }),
            decreases self@.len(),
        {
            proof {
                reveal_strlit("}");
                assert("}"@ =~= seq!['}']);
            }
            let ghost pre = self@;
            let ghost sts0 = stmts_view(statements@);
            if self.next_symbol_is("}") {
                proof {
                    assert(spec_parse_statement_list(pre) == Option::Some(
                        (Seq::<StmtModel>::empty(), pre.skip(1)),
                    ));
                    assert(sts0 + Seq::<StmtModel>::empty() =~= sts0);
                }
                return Ok(Statement::CompoundStatement { statements });
            }
            let st = match self.parse_statement() {
                Ok(st) => st,
                Err(err) => return Err(err),
            };
            let ghost stm = st@;
            let ghost s2 = self@;
            statements.push(st);
            proof {
                assert(spec_parse_statement(pre) is Some);
                assert(stmts_view(statements@) =~= sts0 + seq![stm]);
                assert(spec_parse_statement_list(pre) == (
                match spec_parse_statement_list(s2) {
                    Option::Some((sts, s3)) => Option::Some((seq![stm] + sts, s3)),
                    Option::None => Option::None,
                }));
                match spec_parse_statement_list(s2) {
                    Option::Some((sts, s3)) => {
                        assert(sts0 + (seq![stm] + sts) =~= stmts_view(statements@) + sts);
                    },
                    Option::None => {},
                }
            }
        }
    }

    /// Parse an if statement: `?`, a bracketed condition, a
    /// then-statement, and an optional else-statement after `:`.
    fn parse_if_statement(&mut self) -> (r: Result<Statement, ParseError>)
        requires
            old(self).wf(),
            old(self)@.len() > 0,
            old(self)@[0] == sym1('?'),
        ensures
            final(self).wf(),
            match spec_parse_if_tail(old(self)@) {
                Option::Some((st, rest)) => {
                    &&& (r matches Ok(stmt) && stmt@ == st)
                    &&& final(self)@ == rest
                    &&& final(self)@.len() < old(self)@.len()
                },
                Option::None => r is Err,
            },
        decreases old(self)@.len(), 0int,
    {
        let ghost s = old(self)@;
        self.bump();  // Eat ?
        let opened = self.next_symbol_is("[");
        proof {
            reveal_strlit("[");
            assert("["@ =~= seq!['[']);
            if s.len() >= 2 {
                assert(s.skip(1)[0] == s[1]);
            }
        }
        if !opened {
            return Err(ParseError::from_msg("Expected `[` after `?` in if statement"));
        }
        proof {
            assert(self@ =~= s.skip(2));
        }
        let condition = match self.parse_expression() {
            Ok(e) => e,
            Err(err) => return Err(err),
        };
        let closed = self.next_symbol_is("]");
        proof {
            reveal_strlit("]");
            assert("]"@ =~= seq![']']);
        }
        if !closed {
            return Err(ParseError::from_msg("Expected `]` after condition in if statement"));
        }
        let then_statement = match self.parse_statement() {
            Ok(st) => st,
            Err(err) => return Err(err),
        };
        let has_else = self.next_symbol_is(":");
        proof {
            reveal_strlit(":");
            assert(":"@ =~= seq![':']);
        }
        let else_statement = if has_else {
            match self.parse_statement() {
                Ok(st) => Some(Box::new(st)),
                Err(err) => return Err(err),
            }
        } else {
            None
        };
        Ok(Statement::IfStatement {
            condition: Box::new(condition),
            then_statement: Box::new(then_statement),
            else_statement,
        })
    }

    /// Parse a return statement: `->`, the value, and `;`.
    fn parse_return_statement(&mut self) -> (r: Result<Statement, ParseError>)
        requires
            old(self).wf(),
            old(self)@.len() > 0,
            old(self)@[0] == sym2('-', '>'),
        ensures
            final(self).wf(),
            match spec_parse_statement(old(self)@) {
                Option::Some((st, rest)) => {
                    &&& (r matches Ok(stmt) && stmt@ == st)
                    &&& final(self)@ == rest
                    &&& final(self)@.len() < old(self)@.len()
                },
                Option::None => r is Err,
            },
        decreases old(self)@.len(), 0int,
    {
        proof {
            assert(sym2('-', '>') != sym1('{')) by {
                assert(seq!['-', '>'].len() == 2);
                assert(seq!['{'].len() == 1);
            }
            assert(sym2('-', '>') != sym1('?')) by {
                assert(seq!['-', '>'].len() == 2);
                assert(seq!['?'].len() == 1);
            }
        }
        self.bump();  // Eat ->
        let value = match self.parse_expression() {
            Ok(e) => e,
            Err(err) => return Err(err),
        };
        let ended = self.next_symbol_is(";");
        proof {
            reveal_strlit(";");
            assert(";"@ =~= seq![';']);
        }
        if !ended {
            return Err(ParseError::from_msg("Expected `;` after return statement"));
        }
        Ok(Statement::ReturnStatement { value: Box::new(value) })
    }

    /// Parse a variable declaration: `@`, the name, an optional `=` with
    /// an initializer, and `;`.
    fn parse_variable_declaration_statement(&mut self) -> (r: Result<Statement, ParseError>)
        requires
            old(self).wf(),
            old(self)@.len() > 0,
            old(self)@[0] == sym1('@'),
        ensures
            final(self).wf(),
            match spec_parse_variable_declaration_tail(old(self)@) {
                Option::Some((st, rest)) => {
                    &&& (r matches Ok(stmt) && stmt@ == st)
                    &&& final(self)@ == rest
                    &&& final(self)@.len() < old(self)@.len()
                },
                Option::None => r is Err,
            },
        decreases old(self)@.len(), 0int,
    {
        let ghost s = old(self)@;
        self.bump();  // Eat @
        proof {
            if s.len() >= 2 {
                assert(s.skip(1)[0] == s[1]);
            }
        }
        let name = match self.peek_identifier() {
            Some(name) => name,
            None => return Err(ParseError::from_msg("Expected identifier after `@`")),
        };
        self.bump();
        proof {
            assert(self@ =~= s.skip(2));
        }
        let has_init = self.next_symbol_is("=");
        proof {
            reveal_strlit("=");
            assert("="@ =~= seq!['=']);
        }
        let value = if has_init {
            match self.parse_expression() {
                Ok(e) => Some(Box::new(e)),
                Err(err) => return Err(err),
            }
        } else {
            None
        };
        let ended = self.next_symbol_is(";");
        proof {
            reveal_strlit(";");
            assert(";"@ =~= seq![';']);
            reveal_strlit("=");
        }
        if !ended {
            return Err(ParseError::from_msg(
                "Expected `;` after variable declaration statement",
            ));
        }
        Ok(Statement::VariableDeclarationStatement { name, value })
    }

    /// Parse an expression statement: an expression ending with `;`.
    fn parse_expression_statement(&mut self) -> (r: Result<Statement, ParseError>)
        requires
            old(self).wf(),
        ensures
            final(self).wf(),
            match spec_parse_expression(old(self)@) {
                Option::Some((e, s2)) => {
                    if s2.len() > 0 && s2[0] == sym1(';') {
                        &&& (r matches Ok(stmt) && stmt@ == StmtModel::Expression(Box::new(e)))
                        &&& final(self)@ == s2.skip(1)
                        &&& final(self)@.len() < old(self)@.len()
                    } else {
                        r is Err
                    }
                },
                Option::None => r is Err,
            },
        decreases old(self)@.len(), 0int,
    {
        let expression = match self.parse_expression() {
            Ok(e) => e,
            Err(err) => return Err(err),
        };
        let ended = self.next_symbol_is(";");
        proof {
            reveal_strlit(";");
            assert(";"@ =~= seq![';']);
        }
        if !ended {
            return Err(ParseError::from_msg("Expected `;` after expression statement"));
        }
        Ok(Statement::ExpressionStatement { expression: Box::new(expression) })
    }

    /// Parse a no-op statement: a lone `;`.
    fn parse_no_op_statement(&mut self) -> (r: Result<Statement, ParseError>)
        requires
            old(self).wf(),
            old(self)@.len() > 0,
            old(self)@[0] == sym1(';'),
        ensures
            final(self).wf(),
            r matches Ok(stmt) && stmt@ == StmtModel::NoOp,
            final(self)@ == old(self)@.skip(1),
    {
        self.bump();
        Ok(Statement::NoOpStatement)
    }
}

} // verus!
