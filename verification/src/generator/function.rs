//! Lowering of functions: parameter binding and body lowering.

use vstd::prelude::*;
use crate::generator::statement::spec_lower_statement;
use crate::generator::{
    emit_model, Generator, Inst, InstModel, IrFunction, IrFunctionModel, LowerError,
    LowerErrorModel, LowerSt, Val, ValModel,
};
use crate::parser::function::{FunModel, Function};

verus! {

/// The name of a function's model.
pub open spec fn fun_model_name(f: FunModel) -> Seq<char> {
    match f {
        FunModel::Regular(name, _params, _body) => name,
        FunModel::External(name, _params) => name,
    }
}

/// Bind one incoming parameter: allocate a stack slot, store the
/// parameter into it, and register the name (unless it is the discard
/// name `_`).
pub open spec fn bind_param(st: LowerSt, name: Seq<char>, i: int) -> LowerSt {
    let slot = st.insts.len() as int;
    let st1 = emit_model(
        emit_model(st, InstModel::Alloca),
        InstModel::Store(ValModel::Arg(i), slot),
    );
    if name == seq!['_'] {
        st1
    } else {
        LowerSt { vars: st1.vars.push((name, slot)), ..st1 }
    }
}

/// The state after binding all parameters, left to right, starting from
/// an empty per-function state.
pub open spec fn params_state(params: Seq<Seq<char>>) -> LowerSt
    decreases params.len(),
{
    if params.len() == 0 {
        LowerSt { insts: Seq::empty(), vars: Seq::empty(), frames: Seq::empty() }
    } else {
        bind_param(params_state(params.drop_last()), params.last(), params.len() - 1)
    }
}

/// The mathematical lowering of one function against the module's
/// resolvable names `funcs` (which include the function's own name, since
/// a function is declared before its body lowers and may call itself).
/// An external function contributes its declared signature only; a
/// regular function binds its parameters, opens the function-level frame,
/// and lowers its body statement.
pub open spec fn spec_lower_function(f: FunModel, funcs: Seq<Seq<char>>) -> Result<
    IrFunctionModel,
    LowerErrorModel,
> {
    match f {
        FunModel::External(name, params) => Result::Ok(
            IrFunctionModel { name, params, is_external: true, insts: Seq::empty() },
        ),
        FunModel::Regular(name, params, body) => {
            let st0 = params_state(params);
            let st1 = LowerSt { frames: seq![st0.vars.len() as int], ..st0 };
            match spec_lower_statement(st1, *body, funcs) {
                Result::Err(e) => Result::Err(e),
                Result::Ok(st2) => Result::Ok(
                    IrFunctionModel { name, params, is_external: false, insts: st2.insts },
                ),
            }
        },
    }
}

/// Parameter binding never registers the discard name `_` as a lookable
/// variable.
pub proof fn lemma_params_never_bind_discard(params: Seq<Seq<char>>)
    ensures
        crate::generator::lookup_var(params_state(params).vars, seq!['_']) is None,
{
    lemma_params_no_discard(params);
    crate::generator::statement::lemma_lookup_none_iff(params_state(params).vars, seq!['_']);
}

/// No parameter binding is of the discard name.
proof fn lemma_params_no_discard(params: Seq<Seq<char>>)
    ensures
        crate::generator::statement::no_binding_of(params_state(params).vars, seq!['_']),
    decreases params.len(),
{
    if params.len() > 0 {
        lemma_params_no_discard(params.drop_last());
    }
}

/// A copy of a list of names.
fn clone_names(v: &Vec<String>) -> (r: Vec<String>)
    ensures
        r.deep_view() == v.deep_view(),
{
    let mut r: Vec<String> = Vec::new();
    let n = v.len();
    let mut i: usize = 0;
    while i < n
        invariant
            i <= n,
            n == v@.len(),
            r@.len() == i,
            r.deep_view() == v.deep_view().take(i as int),
        decreases n - i,
    {
        let ghost r0 = r.deep_view();
        r.push(v[i].clone());
        proof {
            assert(r.deep_view() =~= r0.push(v.deep_view()[i as int]));
            assert(r0.push(v.deep_view()[i as int]) =~= v.deep_view().take(i + 1));
        }
        i = i + 1;
    }
    proof {
        assert(v.deep_view().take(n as int) =~= v.deep_view());
    }
    r
}

/// Binding parameters opens no frame.
proof fn lemma_params_state_frames(params: Seq<Seq<char>>)
    ensures
        params_state(params).frames == Seq::<int>::empty(),
    decreases params.len(),
{
    if params.len() > 0 {
        lemma_params_state_frames(params.drop_last());
    }
}

impl Generator {
    /// Lower one function: declare it in the module, and for a regular
    /// function bind its parameters and lower its body. The per-function
    /// state is reset first; no locals leak between functions.
    pub fn gen_function(&mut self, function: &Function) -> (r: Result<(), LowerError>)
        ensures
            final(self).scopes_ok(),
            final(self).program == old(self).program,
            final(self).module.name == old(self).module.name,
            match spec_lower_function(
                function@,
                crate::generator::fun_names(old(self).module.functions.deep_view()).push(
                    fun_model_name(function@),
                ),
            ) {
                Result::Ok(irf) => r is Ok && final(self).module.functions.deep_view() == old(
                    self,
                ).module.functions.deep_view().push(irf),
                Result::Err(e) => r matches Err(err) && err@ == e,
            },
    {
        let ghost fm = function@;
        let ghost names0 = crate::generator::fun_names(old(self).module.functions.deep_view());
        let ghost funcs0 = names0.push(fun_model_name(fm));
        // Reset the per-function state: no locals leak between functions.
        self.cur_insts = Vec::new();
        self.local_vars = Vec::new();
        self.scope_frames = Vec::new();
        proof {
            assert(self.st().insts =~= Seq::<InstModel>::empty());
            assert(self.st().vars =~= Seq::<(Seq<char>, int)>::empty());
            assert(self.st().frames =~= Seq::<int>::empty());
        }
        let (name, params, external) = match function {
            Function::RegularFunction { name, args, statement: _ } => (
                name.clone(),
                clone_names(args),
                false,
            ),
            Function::ExternalFunction { name, args } => (name.clone(), clone_names(args), true),
        };
        let ghost nm = name@;
        let ghost pm = params.deep_view();
        proof {
            assert(nm == fun_model_name(fm));
            match function {
                Function::RegularFunction { name: n2, args: a2, statement: st2 } => {
                    assert(fm == FunModel::Regular(n2@, a2.deep_view(), Box::new((**st2)@)));
                    assert(pm == a2.deep_view());
                },
                Function::ExternalFunction { name: n2, args: a2 } => {
                    assert(fm == FunModel::External(n2@, a2.deep_view()));
                },
            }
        }
        let ghost declared = IrFunctionModel {
            name: nm,
            params: pm,
            is_external: external,
            insts: Seq::empty(),
        };
        // Declare the function in the module before its body lowers, so
        // that calls (its own recursive ones included) resolve.
        self.module.functions.push(
            IrFunction { name, params, is_external: external, insts: Vec::new() },
        );
        proof {
            assert(self.module.functions.deep_view() =~= old(
                self,
            ).module.functions.deep_view().push(declared));
            assert(crate::generator::fun_names(self.module.functions.deep_view()) =~= funcs0);
        }
        if let Function::RegularFunction { name: _, args, statement } = function {
            // Bind each parameter to a fresh stack slot.
            let n = args.len();
            let mut i: usize = 0;
            proof {
                assert(pm.subrange(0, 0) =~= Seq::<Seq<char>>::empty());
                assert(self.st() == params_state(pm.subrange(0, 0)));
            }
            while i < n
                invariant
                    i <= n,
                    n == args@.len(),
                    pm == args.deep_view(),
                    self.st() == params_state(pm.subrange(0, i as int)),
                    self.scopes_ok(),
                    self.program == old(self).program,
                    self.module.name == old(self).module.name,
                    self.module.functions.deep_view() == old(
                        self,
                    ).module.functions.deep_view().push(declared),
                decreases n - i,
            {
                let slot = self.emit(Inst::Alloca);
                self.emit(Inst::Store { value: Val::Arg(i), slot });
                if !crate::str_is_char(args[i].as_str(), '_') {
                    self.bind_local(args[i].clone(), slot);
                }
                proof {
                    let pre = pm.subrange(0, i as int);
                    let post = pm.subrange(0, i + 1);
                    assert(post.drop_last() =~= pre);
                    assert(post.last() == pm[i as int]);
                    assert(pm[i as int] == args.deep_view()[i as int]);
                    assert(self.st() == bind_param(params_state(pre), pm[i as int], i as int));
                }
                i = i + 1;
            }
            proof {
                assert(pm.subrange(0, n as int) =~= pm);
            }
            // Open the function-level frame and lower the body.
            self.push_frame();
            proof {
                let st0 = params_state(pm);
                lemma_params_state_frames(pm);
                assert(self.st().frames =~= seq![st0.vars.len() as int]);
                assert(self.st() == (LowerSt { frames: seq![st0.vars.len() as int], ..st0 }));
                assert(crate::generator::fun_names(self.module.functions.deep_view()) =~= funcs0);
            }
            match self.gen_statement(statement) {
                Ok(_) => {},
                Err(err) => {
                    return Err(err);
                },
            }
            // Move the emitted instructions into the declared function.
            let mut insts: Vec<Inst> = Vec::new();
            core::mem::swap(&mut insts, &mut self.cur_insts);
            let ghost pre_funcs = self.module.functions.deep_view();
            let f = match self.module.functions.pop() {
                Some(f) => f,
                None => {
                    proof {
                        assert(false);
                    }
                    return Err(LowerError::UnsupportedConstruct);
                },
            };
            self.module.functions.push(
                IrFunction { name: f.name, params: f.params, is_external: f.is_external, insts },
            );
            proof {
                let irf = spec_lower_function(fm, funcs0)->Ok_0;
                assert(pre_funcs == old(self).module.functions.deep_view().push(declared));
                assert(f@ == pre_funcs.last());
                assert(f@.name == nm);
                assert(f@.params == pm);
                assert(!f@.is_external);
                assert(insts.deep_view() == irf.insts);
                assert(self.module.functions.deep_view() =~= pre_funcs.drop_last().push(
                    IrFunctionModel { name: nm, params: pm, is_external: false, insts: irf.insts },
                ));
                assert(pre_funcs.drop_last() =~= old(self).module.functions.deep_view());
                assert(IrFunctionModel {
                    name: nm,
                    params: pm,
                    is_external: false,
                    insts: irf.insts,
                } == irf);
            }
            Ok(())
        } else {
            proof {
                let irf = spec_lower_function(fm, funcs0)->Ok_0;
                assert(declared == irf);
                assert(self.module.functions.deep_view() =~= old(
                    self,
                ).module.functions.deep_view().push(irf));
            }
            Ok(())
        }
    }
}

} // verus!
