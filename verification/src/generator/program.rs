//! Lowering of whole programs: every function, in source order.

use vstd::prelude::*;
use crate::generator::function::{fun_model_name, spec_lower_function};
use crate::generator::{fun_names, Generator, IrFunctionModel, LowerError, LowerErrorModel};
use crate::parser::function::FunModel;
use crate::parser::program::Program;

verus! {

/// The mathematical lowering of a program against the names already
/// declared in the module: each function is declared (its own name
/// resolvable from its body on) and lowered, in source order.
pub open spec fn spec_lower_program(funs: Seq<FunModel>, names: Seq<Seq<char>>) -> Result<
    Seq<IrFunctionModel>,
    LowerErrorModel,
>
    decreases funs.len(),
{
    if funs.len() == 0 {
        Result::Ok(Seq::empty())
    } else {
        match spec_lower_function(funs[0], names.push(fun_model_name(funs[0]))) {
            Result::Err(e) => Result::Err(e),
            Result::Ok(irf) => match spec_lower_program(
                funs.subrange(1, funs.len() as int),
                names.push(irf.name),
            ) {
                Result::Err(e) => Result::Err(e),
                Result::Ok(rest) => Result::Ok(seq![irf] + rest),
            },
        }
    }
}

impl Generator {
    /// Lower every function of `program` into the module, in source
    /// order. The per-function state is reset before each function: no
    /// locals leak between functions.
    pub fn gen_program(&mut self, program: &Program) -> (r: Result<(), LowerError>)
        requires
            old(self).scopes_ok(),
        ensures
            final(self).scopes_ok(),
            final(self).program == old(self).program,
            final(self).module.name == old(self).module.name,
            match spec_lower_program(
                program@,
                fun_names(old(self).module.functions.deep_view()),
            ) {
                Result::Ok(irs) => r is Ok && final(self).module.functions.deep_view() == old(
                    self,
                ).module.functions.deep_view() + irs,
                Result::Err(e) => r matches Err(err) && err@ == e,
            },
    {
        let ghost progm = program@;
        let ghost funcs_start = self.module.functions.deep_view();
        let n = program.functions.len();
        let mut i: usize = 0;
        proof {
            assert(progm.subrange(0, progm.len() as int) =~= progm);
            match spec_lower_program(progm, fun_names(funcs_start)) {
                Result::Ok(irs) => {
                    assert(funcs_start + Seq::<IrFunctionModel>::empty() =~= funcs_start);
                },
                Result::Err(_) => {},
            }
        }
        while i < n
            invariant
                i <= n,
                n == program.functions@.len(),
                progm == program@,
                funcs_start == old(self).module.functions.deep_view(),
                self.program == old(self).program,
                self.module.name == old(self).module.name,
                self.scopes_ok(),
                funcs_start.len() <= self.module.functions.deep_view().len(),
                self.module.functions.deep_view().take(funcs_start.len() as int) == funcs_start,
                ({
                    match spec_lower_program(
                        progm.subrange(i as int, progm.len() as int),
                        fun_names(self.module.functions.deep_view()),
                    ) {
                        Result::Ok(irs) => spec_lower_program(progm, fun_names(funcs_start))
                            == Result::Ok::<Seq<IrFunctionModel>, LowerErrorModel>(
                            self.module.functions.deep_view().skip(funcs_start.len() as int) + irs,
                        ),
                        Result::Err(e) => spec_lower_program(progm, fun_names(funcs_start))
                            == Result::Err::<Seq<IrFunctionModel>, LowerErrorModel>(e),
                    }
                }),
            decreases n - i,
        {
            let ghost tail = progm.subrange(i as int, progm.len() as int);
            let ghost done = self.module.functions.deep_view().skip(funcs_start.len() as int);
            let ghost cur_funcs = self.module.functions.deep_view();
            proof {
                assert(tail[0] == progm[i as int]);
                assert(progm[i as int] == program.functions@[i as int].deep_view());
            }
            match self.gen_function(&program.functions[i]) {
                Ok(_) => {},
                Err(err) => {
                    return Err(err);
                },
            }
            proof {
                let irf = spec_lower_function(
                    tail[0],
                    fun_names(cur_funcs).push(fun_model_name(tail[0])),
                )->Ok_0;
                assert(self.module.functions.deep_view() == cur_funcs.push(irf));
                assert(fun_names(cur_funcs.push(irf)) =~= fun_names(cur_funcs).push(irf.name));
                assert(tail.subrange(1, tail.len() as int) =~= progm.subrange(
                    i + 1,
                    progm.len() as int,
                ));
                assert(self.module.functions.deep_view().take(funcs_start.len() as int)
                    =~= cur_funcs.take(funcs_start.len() as int));
                assert(self.module.functions.deep_view().skip(funcs_start.len() as int) =~= done
                    + seq![irf]);
                match spec_lower_program(
                    progm.subrange(i + 1, progm.len() as int),
                    fun_names(self.module.functions.deep_view()),
                ) {
                    Result::Ok(irs) => {
                        assert(done + (seq![irf] + irs) =~= (done + seq![irf]) + irs);
                    },
                    Result::Err(_) => {},
                }
            }
            i = i + 1;
        }
        proof {
            assert(progm.subrange(n as int, progm.len() as int) =~= Seq::<FunModel>::empty());
            assert(self.module.functions.deep_view().take(funcs_start.len() as int) + self
                .module
                .functions
                .deep_view()
                .skip(funcs_start.len() as int) =~= self.module.functions.deep_view());
            match spec_lower_program(progm, fun_names(funcs_start)) {
                Result::Ok(irs) => {
                    assert(funcs_start + irs =~= self.module.functions.deep_view());
                },
                Result::Err(_) => {},
            }
        }
        Ok(())
    }

    /// Lower the whole program held by the generator into its module.
    pub fn generate(&mut self) -> (r: Result<(), LowerError>)
        requires
            old(self).scopes_ok(),
        ensures
            final(self).scopes_ok(),
            final(self).program == old(self).program,
            final(self).module.name == old(self).module.name,
            match spec_lower_program(
                old(self).program@,
                fun_names(old(self).module.functions.deep_view()),
            ) {
                Result::Ok(irs) => r is Ok && final(self).module.functions.deep_view() == old(
                    self,
                ).module.functions.deep_view() + irs,
                Result::Err(e) => r matches Err(err) && err@ == e,
            },
    {
        let mut prog = Program { functions: Vec::new() };
        core::mem::swap(&mut prog, &mut self.program);
        let r = self.gen_program(&prog);
        core::mem::swap(&mut prog, &mut self.program);
        match r {
            Ok(_) => Ok(()),
            Err(err) => Err(err),
        }
    }
}

} // verus!
