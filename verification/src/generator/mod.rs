//! The scope-aware lowering engine: walks the abstract syntax tree once
//! and emits, per function, an ordered sequence of instruction-construction
//! operations for an external code-generation back end.
//!
//! The engine owns a scope tracker: a stack of lexical frames over one flat
//! binding list, covering only the function currently being lowered.

pub mod expression;
pub mod function;
pub mod program;
pub mod statement;

use vstd::prelude::*;
use vstd::string::StringExecFns;
use crate::parser::program::Program;

verus! {

/// A value in the emitted instruction stream: the result of an earlier
/// instruction, an integer constant, a string constant, or an incoming
/// function parameter.
#[derive(Debug, PartialEq)]
pub enum Val {
    /// The result of the instruction at this index of the function.
    Reg(usize),
    /// A scalar integer constant.
    IntConst(i32),
    /// A constant byte sequence.
    StrConst(String),
    /// The incoming parameter at this position.
    Arg(usize),
}

/// Mathematical model of a [`Val`].
pub ghost enum ValModel {
    Reg(int),
    IntConst(int),
    StrConst(Seq<char>),
    Arg(int),
}

impl View for Val {
    type V = ValModel;

    open spec fn view(&self) -> ValModel {
        match self {
            Val::Reg(i) => ValModel::Reg(*i as int),
            Val::IntConst(i) => ValModel::IntConst(*i as int),
            Val::StrConst(s) => ValModel::StrConst(s@),
            Val::Arg(i) => ValModel::Arg(*i as int),
        }
    }
}

impl DeepView for Val {
    type V = ValModel;

    open spec fn deep_view(&self) -> ValModel {
        self.view()
    }
}

/// A signed comparison predicate.
#[derive(Debug, Clone, Copy, PartialEq, Eq, Structural)]
pub enum CmpPred {
    /// Equal.
    Eq,
    /// Not equal.
    Ne,
    /// Signed less-than.
    Slt,
    /// Signed greater-than.
    Sgt,
    /// Signed less-or-equal.
    Sle,
    /// Signed greater-or-equal.
    Sge,
}

/// One instruction-construction operation. The result of the instruction
/// at index `i` of a function is [`Val::Reg`]`(i)`; instructions that
/// produce no value still occupy their index.
#[derive(Debug, PartialEq)]
pub enum Inst {
    /// Allocate a stack slot; the result is its address.
    Alloca,
    /// Store `value` into the slot allocated at `slot`.
    Store { value: Val, slot: usize },
    /// Load from the slot allocated at `slot`.
    Load { slot: usize },
    /// Integer addition.
    Add { l: Val, r: Val },
    /// Integer subtraction.
    Sub { l: Val, r: Val },
    /// Integer multiplication.
    Mul { l: Val, r: Val },
    /// Signed integer division.
    SDiv { l: Val, r: Val },
    /// Signed integer comparison; the result is one bit wide.
    ICmp { pred: CmpPred, l: Val, r: Val },
    /// Widen a one-bit value back to the scalar width.
    ZExt { value: Val },
    /// Call the module function at index `callee` with `args`, in order.
    Call { callee: usize, args: Vec<Val> },
    /// Return `value` from the function.
    Ret { value: Val },
    /// Arithmetic negation.
    Neg { value: Val },
}

/// Mathematical model of an [`Inst`].
pub ghost enum InstModel {
    Alloca,
    Store(ValModel, int),
    Load(int),
    Add(ValModel, ValModel),
    Sub(ValModel, ValModel),
    Mul(ValModel, ValModel),
    SDiv(ValModel, ValModel),
    ICmp(CmpPred, ValModel, ValModel),
    ZExt(ValModel),
    Call(int, Seq<ValModel>),
    Ret(ValModel),
    Neg(ValModel),
}

impl View for Inst {
    type V = InstModel;

    open spec fn view(&self) -> InstModel {
        match self {
            Inst::Alloca => InstModel::Alloca,
            Inst::Store { value, slot } => InstModel::Store(value@, *slot as int),
            Inst::Load { slot } => InstModel::Load(*slot as int),
            Inst::Add { l, r } => InstModel::Add(l@, r@),
            Inst::Sub { l, r } => InstModel::Sub(l@, r@),
            Inst::Mul { l, r } => InstModel::Mul(l@, r@),
            Inst::SDiv { l, r } => InstModel::SDiv(l@, r@),
            Inst::ICmp { pred, l, r } => InstModel::ICmp(*pred, l@, r@),
            Inst::ZExt { value } => InstModel::ZExt(value@),
            Inst::Call { callee, args } => InstModel::Call(*callee as int, args.deep_view()),
            Inst::Ret { value } => InstModel::Ret(value@),
            Inst::Neg { value } => InstModel::Neg(value@),
        }
    }
}

impl DeepView for Inst {
    type V = InstModel;

    open spec fn deep_view(&self) -> InstModel {
        self.view()
    }
}

/// One function of the module under construction.
#[derive(Debug, PartialEq)]
pub struct IrFunction {
    /// The function's name.
    pub name: String,
    /// The declared parameter names, in order.
    pub params: Vec<String>,
    /// Whether the function is external: a declared signature with no body.
    pub is_external: bool,
    /// The body's instruction-construction operations, in order.
    pub insts: Vec<Inst>,
}

/// Mathematical model of an [`IrFunction`].
pub ghost struct IrFunctionModel {
    pub name: Seq<char>,
    pub params: Seq<Seq<char>>,
    pub is_external: bool,
    pub insts: Seq<InstModel>,
}

impl View for IrFunction {
    type V = IrFunctionModel;

    open spec fn view(&self) -> IrFunctionModel {
        IrFunctionModel {
            name: self.name@,
            params: self.params.deep_view(),
            is_external: self.is_external,
            insts: self.insts.deep_view(),
        }
    }
}

impl DeepView for IrFunction {
    type V = IrFunctionModel;

    open spec fn deep_view(&self) -> IrFunctionModel {
        self.view()
    }
}

/// The module under construction: a name and the functions lowered so far.
#[derive(Debug, PartialEq)]
pub struct IrModule {
    /// The module's name.
    pub name: String,
    /// The functions of the module, in source order.
    pub functions: Vec<IrFunction>,
}

/// The names of a module's functions, in order.
pub open spec fn fun_names(fs: Seq<IrFunctionModel>) -> Seq<Seq<char>> {
    Seq::new(fs.len(), |i: int| fs[i].name)
}

/// An error from the lowering engine.
#[derive(Debug, PartialEq)]
pub enum LowerError {
    /// The name was already declared directly in the current frame.
    DuplicateDeclaration(String),
    /// The variable reference resolves to no visible binding.
    UnresolvedVariable(String),
    /// The assignment target resolves to no visible binding.
    AssignToUndeclared(String),
    /// The assignment target is not a variable reference.
    InvalidAssignmentTarget,
    /// The call names a function not yet declared in the module.
    UndeclaredFunction(String),
    /// The construct has no lowering.
    UnsupportedConstruct,
}

/// Mathematical model of a [`LowerError`].
pub ghost enum LowerErrorModel {
    DuplicateDeclaration(Seq<char>),
    UnresolvedVariable(Seq<char>),
    AssignToUndeclared(Seq<char>),
    InvalidAssignmentTarget,
    UndeclaredFunction(Seq<char>),
    UnsupportedConstruct,
}

impl View for LowerError {
    type V = LowerErrorModel;

    open spec fn view(&self) -> LowerErrorModel {
        match self {
            LowerError::DuplicateDeclaration(s) => LowerErrorModel::DuplicateDeclaration(s@),
            LowerError::UnresolvedVariable(s) => LowerErrorModel::UnresolvedVariable(s@),
            LowerError::AssignToUndeclared(s) => LowerErrorModel::AssignToUndeclared(s@),
            LowerError::InvalidAssignmentTarget => LowerErrorModel::InvalidAssignmentTarget,
            LowerError::UndeclaredFunction(s) => LowerErrorModel::UndeclaredFunction(s@),
            LowerError::UnsupportedConstruct => LowerErrorModel::UnsupportedConstruct,
        }
    }
}

impl LowerError {
    /// The error's message.
    pub fn message(&self) -> (r: String)
        ensures
            match self {
                LowerError::DuplicateDeclaration(s) => r@ == "Variable `"@ + s@
                    + "` already exists"@,
                LowerError::UnresolvedVariable(s) => r@ == "Unresolved variable reference `"@ + s@
                    + "`"@,
                LowerError::AssignToUndeclared(s) => r@ == "Tried to assign to undefined variable `"@
                    + s@ + "`"@,
                LowerError::InvalidAssignmentTarget => r@
                    == "Expected variable reference on assignment"@,
                LowerError::UndeclaredFunction(s) => r@ == "Function `"@ + s@ + "` doesn't exist"@,
                LowerError::UnsupportedConstruct => r@ == "Unsupported construct"@,
            },
    {
        match self {
            LowerError::DuplicateDeclaration(s) => {
                let mut r = String::from_str("Variable `");
                r.append(s.as_str());
                r.append("` already exists");
                proof {
                    assert(r@ =~= "Variable `"@ + s@ + "` already exists"@);
                }
                r
            },
            LowerError::UnresolvedVariable(s) => {
                let mut r = String::from_str("Unresolved variable reference `");
                r.append(s.as_str());
                r.append("`");
                proof {
                    assert(r@ =~= "Unresolved variable reference `"@ + s@ + "`"@);
                }
                r
            },
            LowerError::AssignToUndeclared(s) => {
                let mut r = String::from_str("Tried to assign to undefined variable `");
                r.append(s.as_str());
                r.append("`");
                proof {
                    assert(r@ =~= "Tried to assign to undefined variable `"@ + s@ + "`"@);
                }
                r
            },
            LowerError::InvalidAssignmentTarget => String::from_str(
                "Expected variable reference on assignment",
            ),
            LowerError::UndeclaredFunction(s) => {
                let mut r = String::from_str("Function `");
                r.append(s.as_str());
                r.append("` doesn't exist");
                proof {
                    assert(r@ =~= "Function `"@ + s@ + "` doesn't exist"@);
                }
                r
            },
            LowerError::UnsupportedConstruct => String::from_str("Unsupported construct"),
        }
    }
}

/// The lowering engine's per-function state: the instructions emitted so
/// far, the flat binding list (newest binding last), and the stack of
/// open lexical frames, each recorded as the binding count at its entry.
pub ghost struct LowerSt {
    pub insts: Seq<InstModel>,
    pub vars: Seq<(Seq<char>, int)>,
    pub frames: Seq<int>,
}

/// `st` with one more instruction emitted.
pub open spec fn emit_model(st: LowerSt, inst: InstModel) -> LowerSt {
    LowerSt { insts: st.insts.push(inst), ..st }
}

/// The binding count at entry of the innermost open frame; the start of
/// the binding list when no frame is open.
pub open spec fn cur_frame_base(st: LowerSt) -> int {
    if st.frames.len() > 0 {
        st.frames.last()
    } else {
        0
    }
}

/// The slot bound to `name`, innermost binding first.
pub open spec fn lookup_var(vars: Seq<(Seq<char>, int)>, name: Seq<char>) -> Option<int>
    decreases vars.len(),
{
    if vars.len() == 0 {
        Option::None
    } else if vars.last().0 == name {
        Option::Some(vars.last().1)
    } else {
        lookup_var(vars.drop_last(), name)
    }
}

/// Whether `name` was bound at or after position `base` of the binding
/// list: that is, within the current frame.
pub open spec fn declared_since(vars: Seq<(Seq<char>, int)>, base: int, name: Seq<char>) -> bool {
    exists|i: int| base <= i < vars.len() && #[trigger] vars[i].0 == name
}

/// The index of the first module function named `name`.
pub open spec fn spec_find_function(names: Seq<Seq<char>>, name: Seq<char>) -> Option<int>
    decreases names.len(),
{
    if names.len() == 0 {
        Option::None
    } else if names[0] == name {
        Option::Some(0)
    } else {
        match spec_find_function(names.skip(1), name) {
            Option::None => Option::None,
            Option::Some(i) => Option::Some(i + 1),
        }
    }
}

/// If the first `i` names miss and `names[i]` hits, the first match is `i`.
pub proof fn lemma_find_function_hit(names: Seq<Seq<char>>, name: Seq<char>, i: int)
    requires
        0 <= i < names.len(),
        forall|k: int| 0 <= k < i ==> #[trigger] names[k] != name,
        names[i] == name,
    ensures
        spec_find_function(names, name) == Option::Some(i),
    decreases i,
{
    if i == 0 {
    } else {
        assert forall|k: int| 0 <= k < i - 1 implies #[trigger] names.skip(1)[k] != name by {
            assert(names.skip(1)[k] == names[k + 1]);
        }
        assert(names.skip(1)[i - 1] == names[i]);
        lemma_find_function_hit(names.skip(1), name, i - 1);
    }
}

/// If no name matches, there is no first match.
pub proof fn lemma_find_function_miss(names: Seq<Seq<char>>, name: Seq<char>)
    requires
        forall|k: int| 0 <= k < names.len() ==> #[trigger] names[k] != name,
    ensures
        spec_find_function(names, name) is None,
    decreases names.len(),
{
    if names.len() == 0 {
    } else {
        assert forall|k: int| 0 <= k < names.len() - 1 implies #[trigger] names.skip(1)[k]
            != name by {
            assert(names.skip(1)[k] == names[k + 1]);
        }
        lemma_find_function_miss(names.skip(1), name);
    }
}

/// The model of the executable binding list.
pub open spec fn vars_view(v: Seq<(String, usize)>) -> Seq<(Seq<char>, int)> {
    Seq::new(v.len(), |i: int| (v[i].0@, v[i].1 as int))
}

/// The model of the executable frame stack.
pub open spec fn frames_view(v: Seq<usize>) -> Seq<int> {
    Seq::new(v.len(), |i: int| v[i] as int)
}

/// The optimization level that object emission actually uses: a level in
/// 0..=3 is kept; anything else coerces to 2, and the second component
/// says that a warning is owed.
pub fn optimization_level_or_default(optimization: u32) -> (r: (u32, bool))
    ensures
        optimization <= 3 ==> r == (optimization, false),
        optimization > 3 ==> r == (2u32, true),
{
    if optimization <= 3 {
        (optimization, false)
    } else {
        (2, true)
    }
}

/// Generates the instruction stream of the module from the AST.
pub struct Generator {
    /// The root of the AST.
    pub program: Program,
    /// The module under construction.
    pub module: IrModule,
    /// The instructions of the function being lowered.
    pub cur_insts: Vec<Inst>,
    /// The flat binding list, newest binding last.
    pub local_vars: Vec<(String, usize)>,
    /// The open lexical frames: the binding count at each frame's entry.
    pub scope_frames: Vec<usize>,
}

impl Generator {
    /// The model of the per-function lowering state.
    pub open spec fn st(&self) -> LowerSt {
        LowerSt {
            insts: self.cur_insts.deep_view(),
            vars: vars_view(self.local_vars@),
            frames: frames_view(self.scope_frames@),
        }
    }

    /// The names the module resolves calls against.
    pub open spec fn spec_fun_names(&self) -> Seq<Seq<char>> {
        fun_names(self.module.functions.deep_view())
    }

    /// Create a new generator from a [`Program`].
    pub fn new(program: Program, name: &str) -> (g: Generator)
        ensures
            g.program == program,
            g.module.name@ == name@,
            g.module.functions.deep_view() == Seq::<IrFunctionModel>::empty(),
            g.st().insts == Seq::<InstModel>::empty(),
            g.st().vars == Seq::<(Seq<char>, int)>::empty(),
            g.st().frames == Seq::<int>::empty(),
            g.scopes_ok(),
    {
        let g = Generator {
            program,
            module: IrModule { name: name.to_owned(), functions: Vec::new() },
            cur_insts: Vec::new(),
            local_vars: Vec::new(),
            scope_frames: Vec::new(),
        };
        proof {
            assert(g.module.functions.deep_view() =~= Seq::<IrFunctionModel>::empty());
            assert(g.st().insts =~= Seq::<InstModel>::empty());
            assert(g.st().vars =~= Seq::<(Seq<char>, int)>::empty());
            assert(g.st().frames =~= Seq::<int>::empty());
        }
        g
    }

    /// Emit one instruction; its index is the result register.
    fn emit(&mut self, inst: Inst) -> (idx: usize)
        ensures
            final(self).st() == emit_model(old(self).st(), inst@),
            idx as int == old(self).st().insts.len(),
            final(self).module == old(self).module,
            final(self).program == old(self).program,
            final(self).local_vars == old(self).local_vars,
            final(self).scope_frames == old(self).scope_frames,
    {
        let idx = self.cur_insts.len();
        self.cur_insts.push(inst);
        proof {
            assert(final(self).st().insts =~= emit_model(old(self).st(), inst@).insts);
        }
        idx
    }

    /// The slot bound to `name`, innermost binding first.
    fn lookup_local(&self, name: &String) -> (r: Option<usize>)
        ensures
            match r {
                Some(slot) => lookup_var(self.st().vars, name@) == Option::Some(slot as int),
                None => lookup_var(self.st().vars, name@) is None,
            },
    {
        let n = self.local_vars.len();
        proof {
            assert(vars_view(self.local_vars@).take(n as int) =~= vars_view(self.local_vars@));
        }
        let mut i: usize = n;
        while i > 0
            invariant
                i <= n,
                n == self.local_vars@.len(),
                lookup_var(self.st().vars, name@) == lookup_var(
                    vars_view(self.local_vars@).take(i as int),
                    name@,
                ),
            decreases i,
        {
            i = i - 1;
            let hit = self.local_vars[i].0 == *name;
            proof {
                let vv = vars_view(self.local_vars@);
                assert(vv.take(i + 1).last() == vv[i as int]);
                assert(vv.take(i + 1).drop_last() =~= vv.take(i as int));
            }
            if hit {
                return Some(self.local_vars[i].1);
            }
        }
        proof {
            assert(vars_view(self.local_vars@).take(0) =~= Seq::<(Seq<char>, int)>::empty());
        }
        None
    }

    /// Whether `name` is already declared directly in the current frame.
    fn declared_in_current_frame(&self, name: &String) -> (b: bool)
        requires
            self.scopes_ok(),
        ensures
            b == declared_since(self.st().vars, cur_frame_base(self.st()), name@),
    {
        let base = if self.scope_frames.len() > 0 {
            self.scope_frames[self.scope_frames.len() - 1]
        } else {
            0
        };
        proof {
            assert(frames_view(self.scope_frames@).len() == self.scope_frames@.len());
            if self.scope_frames.len() > 0 {
                assert(frames_view(self.scope_frames@).last() == self.scope_frames@[
                    self.scope_frames@.len() - 1] as int);
            }
            assert(base as int == cur_frame_base(self.st()));
        }
        let n = self.local_vars.len();
        let mut i: usize = base;
        while i < n
            invariant
                base <= i <= n,
                n == self.local_vars@.len(),
                base as int == cur_frame_base(self.st()),
                forall|k: int| base <= k < i ==> #[trigger] vars_view(self.local_vars@)[k].0
                    != name@,
            decreases n - i,
        {
            if self.local_vars[i].0 == *name {
                proof {
                    assert(vars_view(self.local_vars@)[i as int].0 == name@);
                }
                return true;
            }
            i = i + 1;
        }
        false
    }

    /// Whether the frame base is within the binding list.
    pub open spec fn scopes_ok(&self) -> bool {
        &&& forall|i: int| 0 <= i < self.scope_frames@.len() ==> #[trigger] self.scope_frames@[i]
            <= self.local_vars@.len()
        &&& forall|i: int, j: int| 0 <= i <= j < self.scope_frames@.len()
            ==> #[trigger] self.scope_frames@[i] <= #[trigger] self.scope_frames@[j]
    }

    /// The index of the first module function named `name`.
    fn find_function(&self, name: &String) -> (r: Option<usize>)
        ensures
            match r {
                Some(i) => spec_find_function(self.spec_fun_names(), name@) == Option::Some(
                    i as int,
                ),
                None => spec_find_function(self.spec_fun_names(), name@) is None,
            },
    {
        let n = self.module.functions.len();
        let mut i: usize = 0;
        while i < n
            invariant
                i <= n,
                n == self.module.functions@.len(),
                forall|k: int| 0 <= k < i ==> #[trigger] self.spec_fun_names()[k] != name@,
            decreases n - i,
        {
            if self.module.functions[i].name == *name {
                proof {
                    assert(self.spec_fun_names()[i as int] == name@);
                    lemma_find_function_hit(self.spec_fun_names(), name@, i as int);
                }
                return Some(i);
            }
            proof {
                assert(self.spec_fun_names()[i as int] == self.module.functions@[i as int]@.name);
            }
            i = i + 1;
        }
        proof {
            lemma_find_function_miss(self.spec_fun_names(), name@);
        }
        None
    }
}

} // verus!
