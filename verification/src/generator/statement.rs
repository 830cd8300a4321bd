//! Lowering of statements: scope frames, declarations, returns, and
//! expression statements.

use vstd::prelude::*;
use crate::generator::{
    cur_frame_base, declared_since, emit_model, fun_names, lookup_var, Generator, Inst,
    InstModel, LowerError, LowerErrorModel, LowerSt,
};
use crate::generator::expression::{spec_lower_args, spec_lower_expression};
use crate::parser::expression::ExprModel;
use crate::parser::statement::{stmts_view, Statement, StmtModel};

verus! {

/// The mathematical lowering of one statement. A compound statement opens
/// a frame, lowers its children, and closes the frame, dropping exactly
/// the bindings made inside it. A declaration fails on a name already
/// declared directly in the current frame, allocates a slot, registers it
/// (unless the name is the discard name `_`), and stores the initializer
/// if one is present. The if statement's branching lowering is
/// deliberately absent and fails as unsupported.
pub open spec fn spec_lower_statement(
    st: LowerSt,
    stmt: StmtModel,
    funcs: Seq<Seq<char>>,
) -> Result<LowerSt, LowerErrorModel>
    decreases stmt,
{
    match stmt {
        StmtModel::Compound(stmts) => {
            let base = st.vars.len() as int;
            let st1 = LowerSt { frames: st.frames.push(base), ..st };
            match spec_lower_statements(st1, stmts, funcs) {
                Result::Err(e) => Result::Err(e),
                Result::Ok(st2) => Result::Ok(
                    LowerSt {
                        insts: st2.insts,
                        vars: st2.vars.take(base),
                        frames: st2.frames.drop_last(),
                    },
                ),
            }
        },
        StmtModel::If(_cond, _then, _els) => Result::Err(LowerErrorModel::UnsupportedConstruct),
        StmtModel::Return(v) => match spec_lower_expression(st, *v, funcs) {
            Result::Err(e) => Result::Err(e),
            Result::Ok((st1, val)) => Result::Ok(emit_model(st1, InstModel::Ret(val))),
        },
        StmtModel::VariableDeclaration(name, init) => {
            if declared_since(st.vars, cur_frame_base(st), name) {
                Result::Err(LowerErrorModel::DuplicateDeclaration(name))
            } else {
                let slot = st.insts.len() as int;
                let st1 = emit_model(st, InstModel::Alloca);
                let st2 = if name == seq!['_'] {
                    st1
                } else {
                    LowerSt { vars: st1.vars.push((name, slot)), ..st1 }
                };
                match init {
                    Option::None => Result::Ok(st2),
                    Option::Some(v) => match spec_lower_expression(st2, *v, funcs) {
                        Result::Err(e) => Result::Err(e),
                        Result::Ok((st3, val)) => Result::Ok(
                            emit_model(st3, InstModel::Store(val, slot)),
                        ),
                    },
                }
            }
        },
        StmtModel::Expression(e) => match spec_lower_expression(st, *e, funcs) {
            Result::Err(err) => Result::Err(err),
            Result::Ok((st1, _val)) => Result::Ok(st1),
        },
        StmtModel::NoOp => Result::Ok(st),
    }
}

/// The mathematical lowering of a statement sequence, in order.
pub open spec fn spec_lower_statements(
    st: LowerSt,
    stmts: Seq<StmtModel>,
    funcs: Seq<Seq<char>>,
) -> Result<LowerSt, LowerErrorModel>
    decreases stmts,
{
    if stmts.len() == 0 {
        Result::Ok(st)
    } else {
        match spec_lower_statement(st, stmts[0], funcs) {
            Result::Err(e) => Result::Err(e),
            Result::Ok(st1) => spec_lower_statements(
                st1,
                stmts.subrange(1, stmts.len() as int),
                funcs,
            ),
        }
    }
}

/// Lowering an expression emits instructions but touches no binding: the
/// binding list and the frame stack come out unchanged.
pub proof fn lemma_lower_expression_scopes(st: LowerSt, e: ExprModel, funcs: Seq<Seq<char>>)
    requires
        spec_lower_expression(st, e, funcs) is Ok,
    ensures
        spec_lower_expression(st, e, funcs)->Ok_0.0.vars == st.vars,
        spec_lower_expression(st, e, funcs)->Ok_0.0.frames == st.frames,
    decreases e,
{
    match e {
        ExprModel::Literal(_) => {},
        ExprModel::Paren(inner) => {
            lemma_lower_expression_scopes(st, *inner, funcs);
        },
        ExprModel::VariableReference(_) => {},
        ExprModel::FunctionCall(_name, args) => {
            lemma_lower_args_scopes(st, args, funcs);
        },
        ExprModel::Binary(op, l, r) => {
            match crate::generator::expression::spec_classify_binop(op) {
                crate::generator::expression::BinOpKind::Assign => {
                    match *l {
                        ExprModel::VariableReference(_) => {
                            lemma_lower_expression_scopes(st, *r, funcs);
                        },
                        _ => {},
                    }
                },
                crate::generator::expression::BinOpKind::Other => {},
                _ => {
                    lemma_lower_expression_scopes(st, *l, funcs);
                    let st1 = spec_lower_expression(st, *l, funcs)->Ok_0.0;
                    lemma_lower_expression_scopes(st1, *r, funcs);
                },
            }
        },
        ExprModel::Unary(op, inner) => {
            if op == seq!['-'] {
                lemma_lower_expression_scopes(st, *inner, funcs);
            }
        },
    }
}

/// Lowering call arguments touches no binding either.
pub proof fn lemma_lower_args_scopes(st: LowerSt, args: Seq<ExprModel>, funcs: Seq<Seq<char>>)
    requires
        spec_lower_args(st, args, funcs) is Ok,
    ensures
        spec_lower_args(st, args, funcs)->Ok_0.0.vars == st.vars,
        spec_lower_args(st, args, funcs)->Ok_0.0.frames == st.frames,
    decreases args,
{
    if args.len() > 0 {
        lemma_lower_expression_scopes(st, args[0], funcs);
        let st1 = spec_lower_expression(st, args[0], funcs)->Ok_0.0;
        lemma_lower_args_scopes(st1, args.subrange(1, args.len() as int), funcs);
    }
}

/// Lowering a statement leaves the frame stack as it was, and only ever
/// extends the binding list: every binding visible before is still there,
/// in place, afterwards.
pub proof fn lemma_lower_statement_scopes(st: LowerSt, stmt: StmtModel, funcs: Seq<Seq<char>>)
    requires
        spec_lower_statement(st, stmt, funcs) is Ok,
    ensures
        ({
            let st1 = spec_lower_statement(st, stmt, funcs)->Ok_0;
            &&& st1.frames == st.frames
            &&& st1.vars.len() >= st.vars.len()
            &&& st1.vars.take(st.vars.len() as int) == st.vars
        }),
    decreases stmt,
{
    match stmt {
        StmtModel::Compound(stmts) => {
            let base = st.vars.len() as int;
            let stin = LowerSt { frames: st.frames.push(base), ..st };
            lemma_lower_statements_scopes(stin, stmts, funcs);
            let st2 = spec_lower_statements(stin, stmts, funcs)->Ok_0;
            assert(st2.frames.drop_last() =~= st.frames);
            assert(st2.vars.take(base) == stin.vars);
            assert(st.vars.take(base) =~= st.vars);
        },
        StmtModel::If(_c, _t, _e) => {},
        StmtModel::Return(v) => {
            lemma_lower_expression_scopes(st, *v, funcs);
            assert(st.vars.take(st.vars.len() as int) =~= st.vars);
        },
        StmtModel::VariableDeclaration(name, init) => {
            if !declared_since(st.vars, cur_frame_base(st), name) {
                let slot = st.insts.len() as int;
                let st1 = emit_model(st, InstModel::Alloca);
                let st2 = if name == seq!['_'] {
                    st1
                } else {
                    LowerSt { vars: st1.vars.push((name, slot)), ..st1 }
                };
                assert(st2.vars.take(st.vars.len() as int) =~= st.vars);
                match init {
                    Option::None => {},
                    Option::Some(v) => {
                        lemma_lower_expression_scopes(st2, *v, funcs);
                    },
                }
            }
        },
        StmtModel::Expression(e) => {
            lemma_lower_expression_scopes(st, *e, funcs);
            assert(st.vars.take(st.vars.len() as int) =~= st.vars);
        },
        StmtModel::NoOp => {
            assert(st.vars.take(st.vars.len() as int) =~= st.vars);
        },
    }
}

/// Lowering a statement sequence leaves the frame stack as it was and
/// only ever extends the binding list.
pub proof fn lemma_lower_statements_scopes(st: LowerSt, stmts: Seq<StmtModel>, funcs: Seq<Seq<char>>)
    requires
        spec_lower_statements(st, stmts, funcs) is Ok,
    ensures
        ({
            let st1 = spec_lower_statements(st, stmts, funcs)->Ok_0;
            &&& st1.frames == st.frames
            &&& st1.vars.len() >= st.vars.len()
            &&& st1.vars.take(st.vars.len() as int) == st.vars
        }),
    decreases stmts,
{
    if stmts.len() == 0 {
        assert(st.vars.take(st.vars.len() as int) =~= st.vars);
    } else {
        lemma_lower_statement_scopes(st, stmts[0], funcs);
        let st1 = spec_lower_statement(st, stmts[0], funcs)->Ok_0;
        lemma_lower_statements_scopes(st1, stmts.subrange(1, stmts.len() as int), funcs);
        let st2 = spec_lower_statements(st1, stmts.subrange(1, stmts.len() as int), funcs)->Ok_0;
        assert(st2.vars.take(st.vars.len() as int) =~= st2.vars.take(st1.vars.len() as int).take(
            st.vars.len() as int,
        ));
    }
}

/// Whether no entry of the binding list binds `name`.
pub open spec fn no_binding_of(vars: Seq<(Seq<char>, int)>, name: Seq<char>) -> bool {
    forall|i: int| 0 <= i < vars.len() ==> #[trigger] vars[i].0 != name
}

/// A name resolves to no binding exactly when no entry binds it.
pub proof fn lemma_lookup_none_iff(vars: Seq<(Seq<char>, int)>, name: Seq<char>)
    ensures
        lookup_var(vars, name) is None <==> no_binding_of(vars, name),
    decreases vars.len(),
{
    if vars.len() > 0 {
        lemma_lookup_none_iff(vars.drop_last(), name);
        assert forall|i: int| 0 <= i < vars.len() - 1 implies #[trigger] vars.drop_last()[i]
            == vars[i] by {}
        if no_binding_of(vars.drop_last(), name) && vars.last().0 != name {
            assert forall|i: int| 0 <= i < vars.len() implies #[trigger] vars[i].0 != name by {
                if i < vars.len() - 1 {
                    assert(vars[i] == vars.drop_last()[i]);
                }
            }
        }
    }
}

/// Lowering a statement never binds the discard name `_`.
proof fn lemma_stmt_keeps_no_discard(st: LowerSt, stmt: StmtModel, funcs: Seq<Seq<char>>)
    requires
        spec_lower_statement(st, stmt, funcs) is Ok,
        no_binding_of(st.vars, seq!['_']),
    ensures
        no_binding_of(spec_lower_statement(st, stmt, funcs)->Ok_0.vars, seq!['_']),
    decreases stmt,
{
    match stmt {
        StmtModel::Compound(stmts) => {
            let base = st.vars.len() as int;
            let stin = LowerSt { frames: st.frames.push(base), ..st };
            lemma_stmts_keep_no_discard(stin, stmts, funcs);
            lemma_lower_statements_scopes(stin, stmts, funcs);
            let st2 = spec_lower_statements(stin, stmts, funcs)->Ok_0;
            assert forall|i: int| 0 <= i < st2.vars.take(base).len() implies #[trigger] st2
                .vars
                .take(base)[i].0 != seq!['_'] by {
                assert(st2.vars.take(base)[i] == st2.vars[i]);
            }
        },
        StmtModel::If(_c, _t, _e) => {},
        StmtModel::Return(v) => {
            lemma_lower_expression_scopes(st, *v, funcs);
        },
        StmtModel::VariableDeclaration(name, init) => {
            if !declared_since(st.vars, cur_frame_base(st), name) {
                let slot = st.insts.len() as int;
                let st1 = emit_model(st, InstModel::Alloca);
                let st2 = if name == seq!['_'] {
                    st1
                } else {
                    LowerSt { vars: st1.vars.push((name, slot)), ..st1 }
                };
                assert(no_binding_of(st2.vars, seq!['_']));
                match init {
                    Option::None => {},
                    Option::Some(v) => {
                        lemma_lower_expression_scopes(st2, *v, funcs);
                    },
                }
            }
        },
        StmtModel::Expression(e) => {
            lemma_lower_expression_scopes(st, *e, funcs);
        },
        StmtModel::NoOp => {},
    }
}

/// Lowering a statement sequence never binds the discard name `_`.
proof fn lemma_stmts_keep_no_discard(st: LowerSt, stmts: Seq<StmtModel>, funcs: Seq<Seq<char>>)
    requires
        spec_lower_statements(st, stmts, funcs) is Ok,
        no_binding_of(st.vars, seq!['_']),
    ensures
        no_binding_of(spec_lower_statements(st, stmts, funcs)->Ok_0.vars, seq!['_']),
    decreases stmts,
{
    if stmts.len() > 0 {
        lemma_stmt_keeps_no_discard(st, stmts[0], funcs);
        let st1 = spec_lower_statement(st, stmts[0], funcs)->Ok_0;
        lemma_stmts_keep_no_discard(st1, stmts.subrange(1, stmts.len() as int), funcs);
    }
}

/// The discard name `_` is never registered as a lookable variable: where
/// it resolved to nothing before a statement lowered, it still resolves
/// to nothing afterwards, whatever the statement declared.
pub proof fn lemma_discard_never_resolvable(st: LowerSt, stmt: StmtModel, funcs: Seq<Seq<char>>)
    requires
        spec_lower_statement(st, stmt, funcs) is Ok,
        lookup_var(st.vars, seq!['_']) is None,
    ensures
        lookup_var(spec_lower_statement(st, stmt, funcs)->Ok_0.vars, seq!['_']) is None,
{
    lemma_lookup_none_iff(st.vars, seq!['_']);
    lemma_stmt_keeps_no_discard(st, stmt, funcs);
    lemma_lookup_none_iff(spec_lower_statement(st, stmt, funcs)->Ok_0.vars, seq!['_']);
}

/// Lowering a whole compound statement restores the scope exactly: the
/// bindings after the block are the bindings before it, so a name
/// declared inside the block is no longer visible once it ends, and an
/// outer binding it shadowed is visible again; the frame stack too is as
/// it was.
pub proof fn lemma_compound_restores_scope(
    st: LowerSt,
    stmts: Seq<StmtModel>,
    funcs: Seq<Seq<char>>,
)
    requires
        spec_lower_statement(st, StmtModel::Compound(stmts), funcs) is Ok,
    ensures
        ({
            let st1 = spec_lower_statement(st, StmtModel::Compound(stmts), funcs)->Ok_0;
            &&& st1.vars == st.vars
            &&& st1.frames == st.frames
        }),
{
    let base = st.vars.len() as int;
    let stin = LowerSt { frames: st.frames.push(base), ..st };
    lemma_lower_statements_scopes(stin, stmts, funcs);
    let st2 = spec_lower_statements(stin, stmts, funcs)->Ok_0;
    assert(st2.frames.drop_last() =~= st.frames);
}

impl Generator {
    /// Open a lexical frame.
    pub(crate) fn push_frame(&mut self)
        requires
            old(self).scopes_ok(),
        ensures
            final(self).st() == (LowerSt {
                frames: old(self).st().frames.push(old(self).st().vars.len() as int),
                ..old(self).st()
            }),
            final(self).scopes_ok(),
            final(self).module == old(self).module,
            final(self).program == old(self).program,
            final(self).local_vars == old(self).local_vars,
            final(self).cur_insts == old(self).cur_insts,
    {
        let base = self.local_vars.len();
        self.scope_frames.push(base);
        proof {
            assert(final(self).st().frames =~= old(self).st().frames.push(
                old(self).st().vars.len() as int,
            ));
            assert(final(self).st().vars =~= old(self).st().vars);
        }
    }

    /// Close the innermost frame, dropping exactly the bindings made
    /// since it opened.
    pub(crate) fn pop_frame(&mut self)
        requires
            old(self).scopes_ok(),
            old(self).st().frames.len() > 0,
        ensures
            final(self).st() == (LowerSt {
                insts: old(self).st().insts,
                vars: old(self).st().vars.take(old(self).st().frames.last()),
                frames: old(self).st().frames.drop_last(),
            }),
            final(self).scopes_ok(),
            final(self).module == old(self).module,
            final(self).program == old(self).program,
            final(self).cur_insts == old(self).cur_insts,
    {
        let base = match self.scope_frames.pop() {
            Some(b) => b,
            None => 0,
        };
        proof {
            assert(base == old(self).scope_frames@.last());
            assert(base as int == old(self).st().frames.last());
            assert(base <= self.local_vars@.len());
        }
        self.local_vars.truncate(base);
        proof {
            assert(final(self).st().vars =~= old(self).st().vars.take(
                old(self).st().frames.last(),
            ));
            assert(final(self).st().frames =~= old(self).st().frames.drop_last());
        }
    }

    /// Register a binding from a name to its slot.
    pub(crate) fn bind_local(&mut self, name: String, slot: usize)
        requires
            old(self).scopes_ok(),
        ensures
            final(self).st() == (LowerSt {
                vars: old(self).st().vars.push((name@, slot as int)),
                ..old(self).st()
            }),
            final(self).scopes_ok(),
            final(self).module == old(self).module,
            final(self).program == old(self).program,
            final(self).cur_insts == old(self).cur_insts,
            final(self).scope_frames == old(self).scope_frames,
    {
        self.local_vars.push((name, slot));
        proof {
            assert(final(self).st().vars =~= old(self).st().vars.push((name@, slot as int)));
            assert(final(self).st().frames =~= old(self).st().frames);
        }
    }

    /// Lower one statement.
    pub fn gen_statement(&mut self, statement: &Statement) -> (r: Result<(), LowerError>)
        requires
            old(self).scopes_ok(),
        ensures
            final(self).scopes_ok(),
            match spec_lower_statement(
                old(self).st(),
                statement@,
                fun_names(old(self).module.functions.deep_view()),
            ) {
                Result::Ok(st1) => r is Ok && final(self).st() == st1,
                Result::Err(e) => r matches Err(err) && err@ == e,
            },
            final(self).module == old(self).module,
            final(self).program == old(self).program,
        decreases statement,
    {
        let ghost st0 = self.st();
        let ghost funcs0 = fun_names(self.module.functions.deep_view());
        match statement {
            Statement::CompoundStatement { statements } => {
                let ghost stms = stmts_view(statements@);
                proof {
                    assert(statement@ == StmtModel::Compound(stms));
                    assert(decreases_to!(*statement => *statements));
                    assert(decreases_to!(*statements => statements@));
                }
                self.push_frame();
                let ghost stin = self.st();
                let n = statements.len();
                let mut i: usize = 0;
                proof {
                    assert(stms.subrange(0, stms.len() as int) =~= stms);
                }
                while i < n
                    invariant
                        i <= n,
                        n == statements@.len(),
                        stms == stmts_view(statements@),
                        statement@ == StmtModel::Compound(stms),
                        decreases_to!(*statement => statements@),
                        st0 == old(self).st(),
                        stin == (LowerSt {
                            frames: st0.frames.push(st0.vars.len() as int),
                            ..st0
                        }),
                        funcs0 == fun_names(old(self).module.functions.deep_view()),
                        self.module == old(self).module,
                        self.program == old(self).program,
                        self.scopes_ok(),
                        ({
                            match spec_lower_statements(
                                self.st(),
                                stms.subrange(i as int, stms.len() as int),
                                funcs0,
                            ) {
                                Result::Ok(st2) => spec_lower_statements(stin, stms, funcs0)
                                    == Result::Ok::<LowerSt, LowerErrorModel>(st2),
                                Result::Err(e) => spec_lower_statements(stin, stms, funcs0)
                                    == Result::Err::<LowerSt, LowerErrorModel>(e),
                            }
                        }),
                    decreases n - i, 2int,
                {
                    let ghost pre = self.st();
                    let ghost tail = stms.subrange(i as int, stms.len() as int);
                    proof {
                        assert(tail[0] == stms[i as int]);
                        assert(stms[i as int] == statements@[i as int]@);
                        assert(decreases_to!(statements@ => statements@[i as int]));
                    }
                    match self.gen_statement(&statements[i]) {
                        Ok(_) => {},
                        Err(err) => {
                            return Err(err);
                        },
                    }
                    proof {
                        assert(tail.subrange(1, tail.len() as int) =~= stms.subrange(
                            i + 1,
                            stms.len() as int,
                        ));
                    }
                    i = i + 1;
                }
                proof {
                    assert(stms.subrange(n as int, stms.len() as int) =~= Seq::<
                        StmtModel,
                    >::empty());
                    assert(spec_lower_statements(stin, stms, funcs0) == Result::Ok::<
                        LowerSt,
                        LowerErrorModel,
                    >(self.st()));
                    lemma_lower_statements_scopes(stin, stms, funcs0);
                }
                self.pop_frame();
                Ok(())
            },
            Statement::IfStatement { condition: _, then_statement: _, else_statement: _ } => {
                // The three-block branching lowering is deliberately
                // absent from this engine.
                Err(LowerError::UnsupportedConstruct)
            },
            Statement::ReturnStatement { value } => {
                proof {
                    assert(statement@ == StmtModel::Return(Box::new((**value)@)));
                }
                let v = match self.gen_expression(value) {
                    Ok(v) => v,
                    Err(err) => return Err(err),
                };
                self.emit(Inst::Ret { value: v });
                Ok(())
            },
            Statement::VariableDeclarationStatement { name, value } => {
                proof {
                    assert(statement@ == StmtModel::VariableDeclaration(
                        name@,
                        match value {
                            Option::Some(v) => Option::Some(Box::new((**v)@)),
                            Option::None => Option::None::<Box<ExprModel>>,
                        },
                    ));
                }
                if self.declared_in_current_frame(name) {
                    return Err(LowerError::DuplicateDeclaration(name.clone()));
                }
                let slot = self.emit(Inst::Alloca);
                if !crate::str_is_char(name.as_str(), '_') {
                    self.bind_local(name.clone(), slot);
                }
                match value {
                    None => Ok(()),
                    Some(v) => {
                        let val = match self.gen_expression(v) {
                            Ok(val) => val,
                            Err(err) => return Err(err),
                        };
                        self.emit(Inst::Store { value: val, slot });
                        Ok(())
                    },
                }
            },
            Statement::ExpressionStatement { expression } => {
                proof {
                    assert(statement@ == StmtModel::Expression(Box::new((**expression)@)));
                }
                match self.gen_expression(expression) {
                    Ok(_) => Ok(()),
                    Err(err) => Err(err),
                }
            },
            Statement::NoOpStatement => Ok(()),
        }
    }
}

} // verus!
