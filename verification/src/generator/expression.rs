//! Lowering of expressions to instruction-construction operations.

use vstd::prelude::*;
use crate::generator::{
    emit_model, fun_names, lookup_var, spec_find_function, CmpPred, Generator, Inst, InstModel,
    LowerError, LowerErrorModel, LowerSt, Val, ValModel,
};
use crate::lexer::tokens::{Literal, LiteralModel};
use crate::parser::expression::{ExprModel, Expression};
use vstd::string::StrSliceExecFns;

verus! {

/// What a binary operator symbol means to the lowering engine.
pub enum BinOpKind {
    /// `=`: store into the left-hand variable's slot.
    Assign,
    /// `+`
    Add,
    /// `-`
    Sub,
    /// `*`
    Mul,
    /// `/`, signed.
    Div,
    /// A signed comparison, widened back to the scalar width.
    Cmp(CmpPred),
    /// Not a binary operator of the language.
    Other,
}

/// The meaning of a binary operator symbol.
pub open spec fn spec_classify_binop(op: Seq<char>) -> BinOpKind {
    if op.len() == 1 {
        if op[0] == '=' {
            BinOpKind::Assign
        } else if op[0] == '+' {
            BinOpKind::Add
        } else if op[0] == '-' {
            BinOpKind::Sub
        } else if op[0] == '*' {
            BinOpKind::Mul
        } else if op[0] == '/' {
            BinOpKind::Div
        } else if op[0] == '<' {
            BinOpKind::Cmp(CmpPred::Slt)
        } else if op[0] == '>' {
            BinOpKind::Cmp(CmpPred::Sgt)
        } else {
            BinOpKind::Other
        }
    } else if op.len() == 2 && op[1] == '=' {
        if op[0] == '=' {
            BinOpKind::Cmp(CmpPred::Eq)
        } else if op[0] == '!' {
            BinOpKind::Cmp(CmpPred::Ne)
        } else if op[0] == '<' {
            BinOpKind::Cmp(CmpPred::Sle)
        } else if op[0] == '>' {
            BinOpKind::Cmp(CmpPred::Sge)
        } else {
            BinOpKind::Other
        }
    } else {
        BinOpKind::Other
    }
}

/// The meaning of a binary operator symbol.
pub fn classify_binop(op: &str) -> (k: BinOpKind)
    ensures
        k == spec_classify_binop(op@),
{
    let n = op.unicode_len();
    if n == 1 {
        let c = op.get_char(0);
        if c == '=' {
            BinOpKind::Assign
        } else if c == '+' {
            BinOpKind::Add
        } else if c == '-' {
            BinOpKind::Sub
        } else if c == '*' {
            BinOpKind::Mul
        } else if c == '/' {
            BinOpKind::Div
        } else if c == '<' {
            BinOpKind::Cmp(CmpPred::Slt)
        } else if c == '>' {
            BinOpKind::Cmp(CmpPred::Sgt)
        } else {
            BinOpKind::Other
        }
    } else if n == 2 {
        let a = op.get_char(0);
        let b = op.get_char(1);
        if b == '=' {
            if a == '=' {
                BinOpKind::Cmp(CmpPred::Eq)
            } else if a == '!' {
                BinOpKind::Cmp(CmpPred::Ne)
            } else if a == '<' {
                BinOpKind::Cmp(CmpPred::Sle)
            } else if a == '>' {
                BinOpKind::Cmp(CmpPred::Sge)
            } else {
                BinOpKind::Other
            }
        } else {
            BinOpKind::Other
        }
    } else {
        BinOpKind::Other
    }
}

/// The mathematical lowering of one expression: the state with the
/// emitted instructions appended, and the value the expression denotes.
/// Operands lower left before right; an assignment lowers its right-hand
/// side, stores it into the target's slot, and denotes the stored value.
pub open spec fn spec_lower_expression(
    st: LowerSt,
    e: ExprModel,
    funcs: Seq<Seq<char>>,
) -> Result<(LowerSt, ValModel), LowerErrorModel>
    decreases e,
{
    match e {
        ExprModel::Literal(lit) => match lit {
            LiteralModel::Integer(i) => Result::Ok((st, ValModel::IntConst(i))),
            LiteralModel::Str(s) => Result::Ok((st, ValModel::StrConst(s))),
        },
        ExprModel::Paren(inner) => spec_lower_expression(st, *inner, funcs),
        ExprModel::VariableReference(name) => match lookup_var(st.vars, name) {
            Option::None => Result::Err(LowerErrorModel::UnresolvedVariable(name)),
            Option::Some(slot) => Result::Ok(
                (emit_model(st, InstModel::Load(slot)), ValModel::Reg(st.insts.len() as int)),
            ),
        },
        ExprModel::FunctionCall(name, args) => match spec_lower_args(st, args, funcs) {
            Result::Err(e) => Result::Err(e),
            Result::Ok((st1, vals)) => match spec_find_function(funcs, name) {
                Option::None => Result::Err(LowerErrorModel::UndeclaredFunction(name)),
                Option::Some(idx) => Result::Ok(
                    (
                        emit_model(st1, InstModel::Call(idx, vals)),
                        ValModel::Reg(st1.insts.len() as int),
                    ),
                ),
            },
        },
        ExprModel::Binary(op, l, r) => match spec_classify_binop(op) {
            BinOpKind::Assign => match *l {
                ExprModel::VariableReference(name) => match spec_lower_expression(
                    st,
                    *r,
                    funcs,
                ) {
                    Result::Err(e) => Result::Err(e),
                    Result::Ok((st1, rv)) => match lookup_var(st1.vars, name) {
                        Option::None => Result::Err(LowerErrorModel::AssignToUndeclared(name)),
                        Option::Some(slot) => Result::Ok(
                            (emit_model(st1, InstModel::Store(rv, slot)), rv),
                        ),
                    },
                },
                _ => Result::Err(LowerErrorModel::InvalidAssignmentTarget),
            },
            BinOpKind::Other => Result::Err(LowerErrorModel::UnsupportedConstruct),
            kind => match spec_lower_expression(st, *l, funcs) {
                Result::Err(e) => Result::Err(e),
                Result::Ok((st1, lv)) => match spec_lower_expression(st1, *r, funcs) {
                    Result::Err(e) => Result::Err(e),
                    Result::Ok((st2, rv)) => {
                        let reg = ValModel::Reg(st2.insts.len() as int);
                        match kind {
                            BinOpKind::Add => Result::Ok(
                                (emit_model(st2, InstModel::Add(lv, rv)), reg),
                            ),
                            BinOpKind::Sub => Result::Ok(
                                (emit_model(st2, InstModel::Sub(lv, rv)), reg),
                            ),
                            BinOpKind::Mul => Result::Ok(
                                (emit_model(st2, InstModel::Mul(lv, rv)), reg),
                            ),
                            BinOpKind::Div => Result::Ok(
                                (emit_model(st2, InstModel::SDiv(lv, rv)), reg),
                            ),
                            BinOpKind::Cmp(p) => {
                                let st3 = emit_model(st2, InstModel::ICmp(p, lv, rv));
                                Result::Ok(
                                    (
                                        emit_model(st3, InstModel::ZExt(reg)),
                                        ValModel::Reg(st3.insts.len() as int),
                                    ),
                                )
                            },
                            _ => Result::Err(LowerErrorModel::UnsupportedConstruct),
                        }
                    },
                },
            },
        },
        ExprModel::Unary(op, inner) => {
            if op == seq!['-'] {
                match spec_lower_expression(st, *inner, funcs) {
                    Result::Err(e) => Result::Err(e),
                    Result::Ok((st1, v)) => Result::Ok(
                        (
                            emit_model(st1, InstModel::Neg(v)),
                            ValModel::Reg(st1.insts.len() as int),
                        ),
                    ),
                }
            } else {
                Result::Err(LowerErrorModel::UnsupportedConstruct)
            }
        },
    }
}

/// The mathematical lowering of a call's arguments, left to right.
pub open spec fn spec_lower_args(
    st: LowerSt,
    args: Seq<ExprModel>,
    funcs: Seq<Seq<char>>,
) -> Result<(LowerSt, Seq<ValModel>), LowerErrorModel>
    decreases args,
{
    if args.len() == 0 {
        Result::Ok((st, Seq::empty()))
    } else {
        match spec_lower_expression(st, args[0], funcs) {
            Result::Err(e) => Result::Err(e),
            Result::Ok((st1, v)) => match spec_lower_args(
                st1,
                args.subrange(1, args.len() as int),
                funcs,
            ) {
                Result::Err(e) => Result::Err(e),
                Result::Ok((st2, vs)) => Result::Ok((st2, seq![v] + vs)),
            },
        }
    }
}

/// A copy of a value.
fn clone_val(v: &Val) -> (r: Val)
    ensures
        r@ == v@,
{
    match v {
        Val::Reg(i) => Val::Reg(*i),
        Val::IntConst(i) => Val::IntConst(*i),
        Val::StrConst(s) => Val::StrConst(s.clone()),
        Val::Arg(i) => Val::Arg(*i),
    }
}

impl Generator {
    /// Lower one expression, emitting its instructions and returning the
    /// value it denotes.
    pub fn gen_expression(&mut self, expression: &Expression) -> (r: Result<Val, LowerError>)
        ensures
            match spec_lower_expression(
                old(self).st(),
                expression@,
                fun_names(old(self).module.functions.deep_view()),
            ) {
                Result::Ok((st1, v)) => {
                    &&& (r matches Ok(val) && val@ == v)
                    &&& final(self).st() == st1
                },
                Result::Err(e) => r matches Err(err) && err@ == e,
            },
            final(self).module == old(self).module,
            final(self).program == old(self).program,
            final(self).local_vars == old(self).local_vars,
            final(self).scope_frames == old(self).scope_frames,
        decreases expression,
    {
        let ghost st0 = self.st();
        let ghost funcs0 = fun_names(self.module.functions.deep_view());
        match expression {
            Expression::LiteralExpression { value } => match value {
                Literal::Integer(i) => Ok(Val::IntConst(*i)),
                Literal::Str(s) => Ok(Val::StrConst(s.clone())),
            },
            Expression::ParenExpression { expression: inner } => {
                proof {
                    assert(expression@ == ExprModel::Paren(Box::new((**inner)@)));
                }
                self.gen_expression(inner)
            },
            Expression::VariableReferenceExpression { name } => match self.lookup_local(name) {
                Some(slot) => {
                    let idx = self.emit(Inst::Load { slot });
                    Ok(Val::Reg(idx))
                },
                None => Err(LowerError::UnresolvedVariable(name.clone())),
            },
            Expression::FunctionCallExpression { name, args } => {
                let ghost argms = crate::parser::expression::exprs_view(args@);
                proof {
                    assert(expression@ == ExprModel::FunctionCall(name@, argms));
                    assert(decreases_to!(*expression => *args));
                    assert(decreases_to!(*args => args@));
                }
                let mut vals: Vec<Val> = Vec::new();
                let n = args.len();
                let mut i: usize = 0;
                proof {
                    assert(argms.subrange(0, argms.len() as int) =~= argms);
                    match spec_lower_args(self.st(), argms, funcs0) {
                        Result::Ok((st2, vs)) => {
                            assert(vals.deep_view() + vs =~= vs);
                        },
                        Result::Err(_) => {},
                    }
                }
                while i < n
                    invariant
                        i <= n,
                        n == args@.len(),
                        argms == crate::parser::expression::exprs_view(args@),
                        expression@ == ExprModel::FunctionCall(name@, argms),
                        decreases_to!(*expression => args@),
                        st0 == old(self).st(),
                        funcs0 == fun_names(old(self).module.functions.deep_view()),
                        self.module == old(self).module,
                        self.program == old(self).program,
                        self.local_vars == old(self).local_vars,
                        self.scope_frames == old(self).scope_frames,
                        ({
                            match spec_lower_args(
                                self.st(),
                                argms.subrange(i as int, argms.len() as int),
                                funcs0,
                            ) {
                                Result::Ok((st2, vs)) => spec_lower_args(st0, argms, funcs0)
                                    == Result::Ok::<_, LowerErrorModel>(
                                    (st2, vals.deep_view() + vs),
                                ),
                                Result::Err(e) => spec_lower_args(st0, argms, funcs0)
                                    == Result::Err::<(LowerSt, Seq<ValModel>), _>(e),
                            }
                        }),
                    decreases n - i,
                {
                    let ghost pre = self.st();
                    let ghost vals0 = vals.deep_view();
                    let ghost tail = argms.subrange(i as int, argms.len() as int);
                    proof {
                        assert(tail[0] == argms[i as int]);
                        assert(argms[i as int] == args@[i as int]@);
                        assert(decreases_to!(args@ => args@[i as int]));
                    }
                    let v = match self.gen_expression(&args[i]) {
                        Ok(v) => v,
                        Err(err) => {
                            return Err(err);
                        },
                    };
                    let ghost vm = v@;
                    vals.push(v);
                    proof {
                        assert(vals.deep_view() =~= vals0 + seq![vm]);
                        assert(tail.subrange(1, tail.len() as int) =~= argms.subrange(
                            i + 1,
                            argms.len() as int,
                        ));
                        match spec_lower_args(
                            self.st(),
                            argms.subrange(i + 1, argms.len() as int),
                            funcs0,
                        ) {
                            Result::Ok((st2, vs)) => {
                                assert(vals0 + (seq![vm] + vs) =~= vals.deep_view() + vs);
                            },
                            Result::Err(_) => {},
                        }
                    }
                    i = i + 1;
                }
                proof {
                    assert(argms.subrange(n as int, argms.len() as int) =~= Seq::<
                        ExprModel,
                    >::empty());
                    match spec_lower_args(self.st(), Seq::<ExprModel>::empty(), funcs0) {
                        Result::Ok((st2, vs)) => {
                            assert(vals.deep_view() + vs =~= vals.deep_view());
                        },
                        Result::Err(_) => {},
                    }
                }
                match self.find_function(name) {
                    None => Err(LowerError::UndeclaredFunction(name.clone())),
                    Some(idx) => {
                        let reg = self.emit(Inst::Call { callee: idx, args: vals });
                        proof {
                            assert(final(self).st().insts.last() == InstModel::Call(
                                idx as int,
                                vals.deep_view(),
                            ));
                        }
                        Ok(Val::Reg(reg))
                    },
                }
            },
            Expression::BinaryExpression { op, l_expression, r_expression } => {
                proof {
                    assert(expression@ == ExprModel::Binary(
                        op@,
                        Box::new((**l_expression)@),
                        Box::new((**r_expression)@),
                    ));
                }
                let kind = classify_binop(op.as_str());
                match kind {
                    BinOpKind::Assign => match &**l_expression {
                        Expression::VariableReferenceExpression { name } => {
                            let rv = match self.gen_expression(r_expression) {
                                Ok(v) => v,
                                Err(err) => return Err(err),
                            };
                            match self.lookup_local(name) {
                                None => Err(LowerError::AssignToUndeclared(name.clone())),
                                Some(slot) => {
                                    self.emit(Inst::Store { value: clone_val(&rv), slot });
                                    Ok(rv)
                                },
                            }
                        },
                        _ => Err(LowerError::InvalidAssignmentTarget),
                    },
                    BinOpKind::Other => Err(LowerError::UnsupportedConstruct),
                    _ => {
                        let lv = match self.gen_expression(l_expression) {
                            Ok(v) => v,
                            Err(err) => return Err(err),
                        };
                        let rv = match self.gen_expression(r_expression) {
                            Ok(v) => v,
                            Err(err) => return Err(err),
                        };
                        match kind {
                            BinOpKind::Add => {
                                let idx = self.emit(Inst::Add { l: lv, r: rv });
                                Ok(Val::Reg(idx))
                            },
                            BinOpKind::Sub => {
                                let idx = self.emit(Inst::Sub { l: lv, r: rv });
                                Ok(Val::Reg(idx))
                            },
                            BinOpKind::Mul => {
                                let idx = self.emit(Inst::Mul { l: lv, r: rv });
                                Ok(Val::Reg(idx))
                            },
                            BinOpKind::Div => {
                                let idx = self.emit(Inst::SDiv { l: lv, r: rv });
                                Ok(Val::Reg(idx))
                            },
                            BinOpKind::Cmp(p) => {
                                let c = self.emit(Inst::ICmp { pred: p, l: lv, r: rv });
                                let z = self.emit(Inst::ZExt { value: Val::Reg(c) });
                                Ok(Val::Reg(z))
                            },
                            _ => {
                                proof {
                                    assert(false);
                                }
                                Err(LowerError::UnsupportedConstruct)
                            },
                        }
                    },
                }
            },
            Expression::UnaryExpression { op, expression: inner } => {
                proof {
                    assert(expression@ == ExprModel::Unary(op@, Box::new((**inner)@)));
                }
                if crate::str_is_char(op.as_str(), '-') {
                    let v = match self.gen_expression(inner) {
                        Ok(v) => v,
                        Err(err) => return Err(err),
                    };
                    let idx = self.emit(Inst::Neg { value: v });
                    Ok(Val::Reg(idx))
                } else {
                    Err(LowerError::UnsupportedConstruct)
                }
            },
        }
    }
}

} // verus!
