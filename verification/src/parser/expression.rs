//! Expressions: their syntax tree, their mathematical model, and the
//! precedence-climbing expression parser.

use vstd::prelude::*;
use vstd::string::StringExecFns;
use crate::lexer::tokens;
use crate::lexer::tokens::{Literal, LiteralModel, TokenModel};
use crate::parser::{peek_op, sym1, ParseError, Parser};

verus! {

/// An expression of the language.
#[derive(Debug, PartialEq)]
pub enum Expression {
    /// A literal value.
    ///
    /// # Grammar
    /// * IntegerLiteral
    /// * StrLiteral
    LiteralExpression { value: Literal },

    /// An expression enclosed in parentheses.
    ///
    /// # Grammar
    /// * "(" + Expression + ")"
    ParenExpression { expression: Box<Expression> },

    /// A reference to a variable.
    ///
    /// # Grammar
    /// * Identifier
    VariableReferenceExpression { name: String },

    /// A call to a function with arguments.
    ///
    /// # Grammar
    /// * Identifier + "(" + (Expression + ",")... + ")"
    FunctionCallExpression { name: String, args: Vec<Expression> },

    /// A link between two expressions with a binary operator.
    ///
    /// Possible operators:
    /// "=", "+", "-", "*", "/", "==", "!=", "<", ">", "<=", ">="
    ///
    /// # Grammar
    /// * Expression + op + Expression
    BinaryExpression {
        op: String,
        l_expression: Box<Expression>,
        r_expression: Box<Expression>,
    },

    /// A prefix operator to an expression.
    ///
    /// Possible operators:
    /// "-"
    ///
    /// # Grammar
    /// * op + Expression
    UnaryExpression { op: String, expression: Box<Expression> },
}

/// Mathematical model of an [`Expression`].
pub ghost enum ExprModel {
    Literal(LiteralModel),
    Paren(Box<ExprModel>),
    VariableReference(Seq<char>),
    FunctionCall(Seq<char>, Seq<ExprModel>),
    Binary(Seq<char>, Box<ExprModel>, Box<ExprModel>),
    Unary(Seq<char>, Box<ExprModel>),
}

/// The model of an expression tree.
pub open spec fn expr_view(e: Expression) -> ExprModel
    decreases e,
    via expr_view_decreases
{
    match e {
        Expression::LiteralExpression { value } => ExprModel::Literal(value@),
        Expression::ParenExpression { expression } => ExprModel::Paren(
            Box::new(expr_view(*expression)),
        ),
        Expression::VariableReferenceExpression { name } => ExprModel::VariableReference(name@),
        Expression::FunctionCallExpression { name, args } => ExprModel::FunctionCall(
            name@,
            exprs_view(args@),
        ),
        Expression::BinaryExpression { op, l_expression, r_expression } => ExprModel::Binary(
            op@,
            Box::new(expr_view(*l_expression)),
            Box::new(expr_view(*r_expression)),
        ),
        Expression::UnaryExpression { op, expression } => ExprModel::Unary(
            op@,
            Box::new(expr_view(*expression)),
        ),
    }
}

#[via_fn]
proof fn expr_view_decreases(e: Expression) {
    match e {
        Expression::FunctionCallExpression { name, args } => {
            assert(decreases_to!(e => args));
            assert(decreases_to!(args => args@));
        },
        _ => {},
    }
}

/// The models of a sequence of expression trees, elementwise.
pub open spec fn exprs_view(args: Seq<Expression>) -> Seq<ExprModel>
    decreases args,
{
    Seq::new(
        args.len(),
        |i: int|
            if 0 <= i < args.len() {
                expr_view(args[i])
            } else {
                ExprModel::Literal(LiteralModel::Integer(0))
            },
    )
}

impl View for Expression {
    type V = ExprModel;

    open spec fn view(&self) -> ExprModel {
        expr_view(*self)
    }
}

impl DeepView for Expression {
    type V = ExprModel;

    open spec fn deep_view(&self) -> ExprModel {
        expr_view(*self)
    }
}

/// Whether `sym` is a unary prefix operator (only `-`).
pub open spec fn is_unary_symbol(sym: Seq<char>) -> bool {
    sym == seq!['-']
}

/// The mathematical expression parser: parse one non-binary expression,
/// then absorb binary operators from precedence 0 up.
pub open spec fn spec_parse_expression(s: Seq<TokenModel>) -> Option<(ExprModel, Seq<TokenModel>)>
    decreases s.len(), 1int,
{
    match spec_parse_expression_no_binary(s) {
        Option::None => Option::None,
        Option::Some((l, r1)) => {
            if r1.len() < s.len() {
                spec_parse_binary_r(0, l, r1)
            } else {
                // Never reached: parsing an expression consumes tokens.
                Option::None
            }
        },
    }
}

/// The mathematical parser for expressions without top-level binary
/// operators: a literal; an identifier alone (a variable reference) or
/// followed by `(` (a function call); a parenthesized expression; or a
/// unary `-`.
pub open spec fn spec_parse_expression_no_binary(
    s: Seq<TokenModel>,
) -> Option<(ExprModel, Seq<TokenModel>)>
    decreases s.len(), 0int,
{
    if s.len() == 0 {
        Option::None
    } else {
        match s[0] {
            TokenModel::Literal(lit) => Option::Some(
                (ExprModel::Literal(lit), s.skip(1)),
            ),
            TokenModel::Identifier(name) => {
                if s.len() >= 2 && s[1] == sym1('(') {
                    match spec_parse_call_args(s.skip(2)) {
                        Option::None => Option::None,
                        Option::Some((args, rest)) => Option::Some(
                            (ExprModel::FunctionCall(name, args), rest),
                        ),
                    }
                } else {
                    Option::Some((ExprModel::VariableReference(name), s.skip(1)))
                }
            },
            TokenModel::Symbol(sym) => {
                if sym == seq!['('] {
                    match spec_parse_expression(s.skip(1)) {
                        Option::None => Option::None,
                        Option::Some((inner, s2)) => {
                            if s2.len() > 0 && s2[0] == sym1(')') {
                                Option::Some(
                                    (ExprModel::Paren(Box::new(inner)), s2.skip(1)),
                                )
                            } else {
                                Option::None
                            }
                        },
                    }
                } else if is_unary_symbol(sym) {
                    match spec_parse_expression_no_binary(s.skip(1)) {
                        Option::None => Option::None,
                        Option::Some((inner, s2)) => Option::Some(
                            (ExprModel::Unary(sym, Box::new(inner)), s2),
                        ),
                    }
                } else {
                    Option::None
                }
            },
        }
    }
}

/// The mathematical parser for a function call's argument list, after the
/// opening parenthesis: empty if `)` follows at once, else comma-separated
/// expressions up to `)`.
pub open spec fn spec_parse_call_args(
    s: Seq<TokenModel>,
) -> Option<(Seq<ExprModel>, Seq<TokenModel>)>
    decreases s.len(), 4int,
{
    if s.len() > 0 && s[0] == sym1(')') {
        Option::Some((Seq::empty(), s.skip(1)))
    } else {
        spec_parse_call_args_rest(s)
    }
}

/// The mathematical parser for a non-empty argument list: an expression,
/// then `)` to finish or `,` to continue.
pub open spec fn spec_parse_call_args_rest(
    s: Seq<TokenModel>,
) -> Option<(Seq<ExprModel>, Seq<TokenModel>)>
    decreases s.len(), 3int,
{
    match spec_parse_expression(s) {
        Option::None => Option::None,
        Option::Some((e, s2)) => {
            if s2.len() > 0 && s2[0] == sym1(')') {
                Option::Some((seq![e], s2.skip(1)))
            } else if s2.len() > 0 && s2[0] == sym1(',') {
                if s2.skip(1).len() < s.len() {
                    match spec_parse_call_args_rest(s2.skip(1)) {
                        Option::None => Option::None,
                        Option::Some((es, s3)) => Option::Some((seq![e] + es, s3)),
                    }
                } else {
                    // Never reached: parsing an expression consumes tokens.
                    Option::None
                }
            } else {
                Option::None
            }
        },
    }
}

/// The mathematical precedence climber: while the pending operator binds
/// at least as tightly as `min_prec`, consume it, parse the right operand,
/// let operators that bind tighter than this one absorb further terms to
/// the right, and fold the result left-associatively.
pub open spec fn spec_parse_binary_r(
    min_prec: int,
    l: ExprModel,
    s: Seq<TokenModel>,
) -> Option<(ExprModel, Seq<TokenModel>)>
    decreases s.len(), 2int,
{
    let op = peek_op(s);
    let cp = tokens::spec_binary_op_precedence(op);
    if cp < min_prec {
        Option::Some((l, s))
    } else if s.len() == 0 {
        Option::None
    } else {
        match spec_parse_expression_no_binary(s.skip(1)) {
            Option::None => Option::None,
            Option::Some((r0, s2)) => {
                let np = tokens::spec_binary_op_precedence(peek_op(s2));
                // A tighter operator climbs; an equal-precedence assignment
                // (the one right-associative operator) climbs too, at its
                // own precedence.
                if cp < np || (cp == np && cp == 0) {
                    let inner_min = if cp < np {
                        cp + 1
                    } else {
                        cp
                    };
                    if s2.len() < s.len() {
                        match spec_parse_binary_r(inner_min, r0, s2) {
                            Option::None => Option::None,
                            Option::Some((r2, s3)) => {
                                if s3.len() < s.len() {
                                    spec_parse_binary_r(
                                        min_prec,
                                        ExprModel::Binary(op, Box::new(l), Box::new(r2)),
                                        s3,
                                    )
                                } else {
                                    // Never reached: the operator was consumed.
                                    Option::None
                                }
                            },
                        }
                    } else {
                        // Never reached: the operator was consumed.
                        Option::None
                    }
                } else {
                    if s2.len() < s.len() {
                        spec_parse_binary_r(
                            min_prec,
                            ExprModel::Binary(op, Box::new(l), Box::new(r0)),
                            s2,
                        )
                    } else {
                        // Never reached: the operator was consumed.
                        Option::None
                    }
                }
            },
        }
    }
}

impl Parser {
    /// Parse one expression: a non-binary expression, then any binary
    /// operators that follow it.
    pub fn parse_expression(&mut self) -> (r: Result<Expression, ParseError>)
        requires
            old(self).wf(),
        ensures
            final(self).wf(),
            match spec_parse_expression(old(self)@) {
                Option::Some((e, rest)) => {
                    &&& (r matches Ok(expr) && expr@ == e)
                    &&& final(self)@ == rest
                    &&& final(self)@.len() < old(self)@.len()
                },
                Option::None => r is Err,
            },
        decreases old(self)@.len(), 2int,
    {
        let l_expression = match self.parse_expression_no_binary() {
            Ok(e) => e,
            Err(err) => return Err(err),
        };
        self.parse_binary_r_expression(0, l_expression)
    }

    /// Parse an expression that is not a binary expression at top level.
    fn parse_expression_no_binary(&mut self) -> (r: Result<Expression, ParseError>)
        requires
            old(self).wf(),
        ensures
            final(self).wf(),
            match spec_parse_expression_no_binary(old(self)@) {
                Option::Some((e, rest)) => {
                    &&& (r matches Ok(expr) && expr@ == e)
                    &&& final(self)@ == rest
                    &&& final(self)@.len() < old(self)@.len()
                },
                Option::None => r is Err,
            },
        decreases old(self)@.len(), 1int,
    {
        let ghost s = old(self)@;
        if self.peek_is_literal() {
            return self.parse_literal_expression();
        }
        if let Some(name) = self.peek_identifier() {
            proof {
                assert(s[0] == TokenModel::Identifier(name@));
            }
            self.bump();
            let has_paren = self.next_symbol_is("(");
            proof {
                reveal_strlit("(");
                assert("("@ =~= seq!['(']);
                if s.len() >= 2 {
                    assert(s.skip(1)[0] == s[1]);
                }
            }
            if has_paren {
                proof {
                    assert(s.len() >= 2 && s[1] == sym1('('));
                    assert(self@ =~= s.skip(2));
                }
                return self.parse_function_call_expression(name);
            }
            proof {
                assert(!(s.len() >= 2 && s[1] == sym1('(')));
            }
            return self.parse_variable_reference_expression(name);
        }
        if let Some(sym) = self.peek_symbol() {
            proof {
                assert(s[0] == TokenModel::Symbol(sym@));
            }
            if crate::str_is_char(sym.as_str(), '(') {
                return self.parse_paren_expression();
            }
            if crate::str_is_char(sym.as_str(), '-') {
                return self.parse_unary_expression();
            }
        }
        Err(ParseError::from_msg("Unable to parse expression"))
    }

    /// Parse a literal expression from the pending literal token.
    fn parse_literal_expression(&mut self) -> (r: Result<Expression, ParseError>)
        requires
            old(self).wf(),
        ensures
            final(self).wf(),
            old(self)@.len() > 0 && old(self)@[0] is Literal ==> {
                &&& (r matches Ok(e) && e@ == ExprModel::Literal(old(self)@[0]->Literal_0))
                &&& final(self)@ == old(self)@.skip(1)
            },
            !(old(self)@.len() > 0 && old(self)@[0] is Literal) ==> r is Err && *final(self) == *old(self),
    {
        match self.peek_literal() {
            Some(lit) => {
                self.bump();
                Ok(Expression::LiteralExpression { value: lit })
            },
            None => Err(ParseError::from_msg("Expected literal expression")),
        }
    }

    /// Parse a parenthesized expression, opening parenthesis included.
    fn parse_paren_expression(&mut self) -> (r: Result<Expression, ParseError>)
        requires
            old(self).wf(),
        ensures
            final(self).wf(),
            old(self)@.len() > 0 && old(self)@[0] == sym1('(') ==> match spec_parse_expression(
                old(self)@.skip(1),
            ) {
                Option::Some((inner, s2)) => {
                    if s2.len() > 0 && s2[0] == sym1(')') {
                        &&& (r matches Ok(e) && e@ == ExprModel::Paren(Box::new(inner)))
                        &&& final(self)@ == s2.skip(1)
                        &&& final(self)@.len() < old(self)@.len()
                    } else {
                        r is Err
                    }
                },
                Option::None => r is Err,
            },
            !(old(self)@.len() > 0 && old(self)@[0] == sym1('(')) ==> r is Err,
        decreases old(self)@.len(), 0int,
    {
        proof {
            reveal_strlit("(");
            reveal_strlit(")");
            assert("("@ =~= seq!['(']);
            assert(")"@ =~= seq![')']);
        }
        if !self.next_symbol_is("(") {
            return Err(ParseError::from_msg("Misidentified paren expression"));
        }
        let inner = match self.parse_expression() {
            Ok(e) => e,
            Err(err) => return Err(err),
        };
        if !self.next_symbol_is(")") {
            return Err(ParseError::from_msg("Expected `)` after expression"));
        }
        Ok(Expression::ParenExpression { expression: Box::new(inner) })
    }

    /// Parse a variable reference expression from an already-consumed
    /// identifier.
    fn parse_variable_reference_expression(&mut self, name: String) -> (r: Result<
        Expression,
        ParseError,
    >)
        ensures
            *final(self) == *old(self),
            r matches Ok(e) && e@ == ExprModel::VariableReference(name@),
    {
        Ok(Expression::VariableReferenceExpression { name })
    }

    /// Parse a function call's argument list, the name and the opening
    /// parenthesis already consumed.
    fn parse_function_call_expression(&mut self, name: String) -> (r: Result<
        Expression,
        ParseError,
    >)
        requires
            old(self).wf(),
        ensures
            final(self).wf(),
            match spec_parse_call_args(old(self)@) {
                Option::Some((args, rest)) => {
                    &&& (r matches Ok(e) && e@ == ExprModel::FunctionCall(name@, args))
                    &&& final(self)@ == rest
                    &&& final(self)@.len() < old(self)@.len()
                },
                Option::None => r is Err,
            },
        decreases old(self)@.len(), 3int,
    {
        let ghost s0 = old(self)@;
        proof {
            reveal_strlit(")");
            reveal_strlit(",");
            assert(")"@ =~= seq![')']);
            assert(","@ =~= seq![',']);
            assert(sym1(')') != sym1(',')) by {
                assert(seq![')'][0] == ')');
                assert(seq![','][0] == ',');
            }
        }
        let mut args: Vec<Expression> = Vec::new();
        if self.next_symbol_is(")") {
            proof {
                assert(exprs_view(args@) =~= Seq::<ExprModel>::empty());
            }
            return Ok(Expression::FunctionCallExpression { name, args });
        }
        proof {
            match spec_parse_call_args_rest(self@) {
                Option::Some((es, rest)) => {
                    assert(exprs_view(args@) + es =~= es);
                },
                Option::None => {},
            }
        }
        loop
            invariant
                self.wf(),
                self@.len() <= s0.len(),
                s0 == old(self)@,
                ({
                    match spec_parse_call_args_rest(self@) {
                        Option::Some((es, rest)) => spec_parse_call_args(s0)
                            == Option::Some((exprs_view(args@) + es, rest)),
                        Option::None => spec_parse_call_args(s0) is None,
                    }
                }),
            decreases self@.len(),
        {
            proof {
                reveal_strlit(")");
                reveal_strlit(",");
                assert(")"@ =~= seq![')']);
                assert(","@ =~= seq![',']);
                assert(sym1(')') != sym1(',')) by {
                    assert(seq![')'][0] == ')');
                    assert(seq![','][0] == ',');
                }
            }
            let ghost pre = self@;
            let ghost args0 = exprs_view(args@);
            let e = match self.parse_expression() {
                Ok(e) => e,
                Err(err) => return Err(err),
            };
            let ghost em = e@;
            let ghost s2 = self@;
            args.push(e);
            proof {
                assert(spec_parse_expression(pre) is Some);
                assert(exprs_view(args@) =~= args0 + seq![em]);
            }
            if self.next_symbol_is(")") {
                proof {
                    assert(s2.len() > 0 && s2[0] == sym1(')'));
                    assert(spec_parse_call_args_rest(pre) == Option::Some(
                        (seq![em], s2.skip(1)),
                    ));
                    assert(spec_parse_call_args(s0) is Some);
                    assert(spec_parse_call_args(s0) == Option::Some(
                        (args0 + seq![em], s2.skip(1)),
                    ));
                }
                return Ok(Expression::FunctionCallExpression { name, args });
            }
            if self.next_symbol_is(",") {
                proof {
                    assert(s2.len() > 0 && s2[0] == sym1(','));
                    assert(s2[0] != sym1(')'));
                    assert(s2.skip(1).len() < pre.len());
                    assert(spec_parse_call_args_rest(pre) == (
                    match spec_parse_call_args_rest(s2.skip(1)) {
                        Option::Some((es2, r2)) => Option::Some((seq![em] + es2, r2)),
                        Option::None => Option::None,
                    }));
                    match spec_parse_call_args_rest(s2.skip(1)) {
                        Option::Some((es2, r2)) => {
                            assert(args0 + (seq![em] + es2) =~= exprs_view(args@) + es2);
                        },
                        Option::None => {},
                    }
                }
                continue;
            }
            let mut msg = String::from_str("Expected `)` or `,` after function call `");
            msg.append(name.as_str());
            msg.append("`");
            return Err(ParseError { message: msg });
        }
    }

    /// Absorb binary operators of precedence at least `precedence` onto
    /// `l_expression`.
    fn parse_binary_r_expression(&mut self, precedence: i32, l_expression: Expression) -> (r:
        Result<Expression, ParseError>)
        requires
            old(self).wf(),
        ensures
            final(self).wf(),
            match spec_parse_binary_r(precedence as int, l_expression@, old(self)@) {
                Option::Some((e, rest)) => {
                    &&& (r matches Ok(expr) && expr@ == e)
                    &&& final(self)@ == rest
                    &&& final(self)@.len() <= old(self)@.len()
                },
                Option::None => r is Err,
            },
        decreases old(self)@.len(), 0int,
    {
        let op = self.peek_symbol_or_zero();
        let current_precedence = tokens::binary_op_precedence(op.as_str());
        if current_precedence < precedence {
            return Ok(l_expression);
        }
        if self.is_empty() {
            return Err(ParseError::from_msg("Unable to parse expression"));
        }
        self.bump();
        let r0 = match self.parse_expression_no_binary() {
            Ok(e) => e,
            Err(err) => return Err(err),
        };
        let next_op = self.peek_symbol_or_zero();
        let next_precedence = tokens::binary_op_precedence(next_op.as_str());
        let mut r_expression = r0;
        if current_precedence < next_precedence || (current_precedence == next_precedence
            && current_precedence == 0) {
            proof {
                assert(current_precedence <= 30);
            }
            let inner_min = if current_precedence < next_precedence {
                current_precedence + 1
            } else {
                current_precedence
            };
            r_expression = match self.parse_binary_r_expression(inner_min, r_expression) {
                Ok(e) => e,
                Err(err) => return Err(err),
            };
        }
        let combined = Expression::BinaryExpression {
            op,
            l_expression: Box::new(l_expression),
            r_expression: Box::new(r_expression),
        };
        self.parse_binary_r_expression(precedence, combined)
    }

    /// Parse a unary expression: a prefix operator and its operand.
    fn parse_unary_expression(&mut self) -> (r: Result<Expression, ParseError>)
        requires
            old(self).wf(),
        ensures
            final(self).wf(),
            (old(self)@.len() > 0 && old(self)@[0] is Symbol) ==> match spec_parse_expression_no_binary(
                old(self)@.skip(1),
            ) {
                Option::Some((inner, s2)) => {
                    &&& (r matches Ok(e) && e@ == ExprModel::Unary(
                        old(self)@[0]->Symbol_0,
                        Box::new(inner),
                    ))
                    &&& final(self)@ == s2
                    &&& final(self)@.len() < old(self)@.len()
                },
                Option::None => r is Err,
            },
            !(old(self)@.len() > 0 && old(self)@[0] is Symbol) ==> r is Err && *final(self) == *old(self),
        decreases old(self)@.len(), 0int,
    {
        let op = match self.peek_symbol() {
            Some(s) => s,
            None => return Err(ParseError::from_msg("Expected unary operator")),
        };
        self.bump();
        let inner = match self.parse_expression_no_binary() {
            Ok(e) => e,
            Err(err) => return Err(err),
        };
        Ok(Expression::UnaryExpression { op, expression: Box::new(inner) })
    }
}

} // verus!
