use yotc::generator::{
    optimization_level_or_default, CmpPred, Generator, Inst, IrModule, LowerError, Val,
};
use yotc::lexer::Lexer;
use yotc::parser::Parser;
use yotc::{default_output_path, OutputFormat};

fn lower(text: &str) -> Result<IrModule, LowerError> {
    let mut lexer = Lexer::from_text(text);
    let tokens = lexer.tokenize().expect("lexing failed");
    let mut parser = Parser::new(tokens);
    let program = parser.parse_program().expect("parsing failed");
    let mut generator = Generator::new(program, "test");
    generator.generate()?;
    Ok(generator.module)
}

/// Evaluate a value in a function invocation.
fn value_of(regs: &[i32], args: &[i32], v: &Val) -> i32 {
    match v {
        Val::Reg(i) => regs[*i],
        Val::IntConst(i) => *i,
        Val::Arg(i) => args[*i],
        Val::StrConst(_) => panic!("string value in scalar context"),
    }
}

/// Run the instruction stream of function `idx` until its return.
fn eval_function(module: &IrModule, idx: usize, args: &[i32]) -> Option<i32> {
    let f = &module.functions[idx];
    let mut regs = vec![0i32; f.insts.len()];
    let mut slots = vec![0i32; f.insts.len()];
    for (i, inst) in f.insts.iter().enumerate() {
        match inst {
            Inst::Alloca => {}
            Inst::Store { value, slot } => slots[*slot] = value_of(&regs, args, value),
            Inst::Load { slot } => regs[i] = slots[*slot],
            Inst::Add { l, r } => {
                regs[i] = value_of(&regs, args, l).wrapping_add(value_of(&regs, args, r))
            }
            Inst::Sub { l, r } => {
                regs[i] = value_of(&regs, args, l).wrapping_sub(value_of(&regs, args, r))
            }
            Inst::Mul { l, r } => {
                regs[i] = value_of(&regs, args, l).wrapping_mul(value_of(&regs, args, r))
            }
            Inst::SDiv { l, r } => {
                regs[i] = value_of(&regs, args, l) / value_of(&regs, args, r)
            }
            Inst::ICmp { pred, l, r } => {
                let a = value_of(&regs, args, l);
                let b = value_of(&regs, args, r);
                let c = match pred {
                    CmpPred::Eq => a == b,
                    CmpPred::Ne => a != b,
                    CmpPred::Slt => a < b,
                    CmpPred::Sgt => a > b,
                    CmpPred::Sle => a <= b,
                    CmpPred::Sge => a >= b,
                };
                regs[i] = if c { 1 } else { 0 };
            }
            Inst::ZExt { value } => regs[i] = value_of(&regs, args, value),
            Inst::Call { callee, args: call_args } => {
                let vals: Vec<i32> =
                    call_args.iter().map(|a| value_of(&regs, args, a)).collect();
                regs[i] = eval_function(module, *callee, &vals)?;
            }
            Inst::Ret { value } => return Some(value_of(&regs, args, value)),
            Inst::Neg { value } => regs[i] = value_of(&regs, args, value).wrapping_neg(),
        }
    }
    None
}

fn eval_main(module: &IrModule) -> Option<i32> {
    let idx = module
        .functions
        .iter()
        .position(|f| f.name == "main")
        .expect("no main in module");
    eval_function(module, idx, &[])
}

#[test]
fn main_with_locals_evaluates_to_eight() {
    let module = lower("@main[]{@x=2; @y=3; ->x+y*2;}").unwrap();
    assert_eq!(eval_main(&module), Some(8));
}

#[test]
fn assignment_to_non_variable_is_rejected() {
    assert_eq!(
        lower("@main[]{1=a;}"),
        Err(LowerError::InvalidAssignmentTarget)
    );
}

#[test]
fn assignment_to_undeclared_variable_is_rejected() {
    assert_eq!(
        lower("@main[]{a=1;}"),
        Err(LowerError::AssignToUndeclared("a".to_string()))
    );
}

#[test]
fn variable_is_unresolved_after_its_block_ends() {
    assert_eq!(
        lower("@main[]{{@x=1;} x;}"),
        Err(LowerError::UnresolvedVariable("x".to_string()))
    );
}

#[test]
fn duplicate_declaration_in_one_block_is_rejected() {
    assert_eq!(
        lower("@main[]{@x=1; @x=2;}"),
        Err(LowerError::DuplicateDeclaration("x".to_string()))
    );
}

#[test]
fn shadowing_in_a_nested_block_is_accepted() {
    // The inner `x` shadows the outer one; once the inner block ends the
    // outer `x`, still holding 1, is visible again.
    let module = lower("@main[]{@x=1; {@x=2;} ->x;}").unwrap();
    assert_eq!(eval_main(&module), Some(1));
}

#[test]
fn inner_shadowing_binding_is_the_one_assigned() {
    let module = lower("@main[]{@x=1; {@x=2; x=5;} ->x;}").unwrap();
    assert_eq!(eval_main(&module), Some(1));
    let module = lower("@main[]{@x=1; {@x=2; x=5; ->x;}}").unwrap();
    assert_eq!(eval_main(&module), Some(5));
}

#[test]
fn program_without_main_lowers_with_a_warning_owed() {
    let mut lexer = Lexer::from_text("@helper[]{->4;}");
    let tokens = lexer.tokenize().unwrap();
    let mut parser = Parser::new(tokens);
    let program = parser.parse_program().unwrap();
    // The missing `main` is only worth a warning...
    assert!(!program.has_main());
    // ... and the program still lowers successfully.
    let mut generator = Generator::new(program, "test");
    assert!(generator.generate().is_ok());
    assert_eq!(generator.module.functions.len(), 1);
}

#[test]
fn call_of_an_undeclared_function_is_rejected() {
    assert_eq!(
        lower("@main[]{->g();}"),
        Err(LowerError::UndeclaredFunction("g".to_string()))
    );
}

#[test]
fn calls_resolve_against_earlier_functions() {
    let module = lower("@f[a,b]{->a-b;} @main[]{->f(10,4);}").unwrap();
    assert_eq!(eval_main(&module), Some(6));
}

#[test]
fn a_function_may_call_itself() {
    assert!(lower("@main[]{->main();}").is_ok());
}

#[test]
fn external_functions_declare_signatures_only() {
    let module = lower("@!put[c]; @main[]{->0;}").unwrap();
    assert_eq!(module.functions.len(), 2);
    assert!(module.functions[0].is_external);
    assert_eq!(module.functions[0].name, "put");
    assert_eq!(module.functions[0].params, vec!["c".to_string()]);
    assert!(module.functions[0].insts.is_empty());
    assert!(!module.functions[1].is_external);
}

#[test]
fn if_statements_are_unsupported() {
    assert_eq!(
        lower("@main[]{?[1] ;}"),
        Err(LowerError::UnsupportedConstruct)
    );
}

#[test]
fn discard_name_can_be_declared_twice() {
    let module = lower("@main[]{@_=1; @_=2; ->5;}").unwrap();
    assert_eq!(eval_main(&module), Some(5));
}

#[test]
fn assignment_is_an_expression_with_the_stored_value() {
    let module = lower("@main[]{@x=1; ->x=7;}").unwrap();
    assert_eq!(eval_main(&module), Some(7));
}

#[test]
fn comparisons_widen_to_scalar_zero_or_one() {
    assert_eq!(eval_main(&lower("@main[]{->2<=3;}").unwrap()), Some(1));
    assert_eq!(eval_main(&lower("@main[]{->3<2;}").unwrap()), Some(0));
    assert_eq!(eval_main(&lower("@main[]{->2==2;}").unwrap()), Some(1));
    assert_eq!(eval_main(&lower("@main[]{->2!=2;}").unwrap()), Some(0));
}

#[test]
fn division_and_negation() {
    assert_eq!(eval_main(&lower("@main[]{->7/2;}").unwrap()), Some(3));
    assert_eq!(eval_main(&lower("@main[]{->-5+6;}").unwrap()), Some(1));
}

#[test]
fn parameters_are_materialized_into_slots() {
    let module = lower("@main[a]{->a;}").unwrap();
    assert_eq!(
        module.functions[0].insts,
        vec![
            Inst::Alloca,
            Inst::Store { value: Val::Arg(0), slot: 0 },
            Inst::Load { slot: 0 },
            Inst::Ret { value: Val::Reg(2) },
        ]
    );
}

#[test]
fn a_body_declaration_may_shadow_a_parameter() {
    let module = lower("@f[x]{@x=9; ->x;} @main[]{->f(1);}").unwrap();
    assert_eq!(eval_main(&module), Some(9));
}

#[test]
fn return_of_a_constant_emits_one_instruction() {
    let module = lower("@main[]{->1;}").unwrap();
    assert_eq!(module.name, "test");
    assert_eq!(
        module.functions[0].insts,
        vec![Inst::Ret { value: Val::IntConst(1) }]
    );
}

#[test]
fn operands_lower_left_before_right() {
    let module = lower("@main[]{@x=1; @y=2; ->x+y;}").unwrap();
    let insts = &module.functions[0].insts;
    // The loads of x and y come in source order, then the addition.
    assert_eq!(insts[4], Inst::Load { slot: 0 });
    assert_eq!(insts[5], Inst::Load { slot: 2 });
    assert_eq!(
        insts[6],
        Inst::Add { l: Val::Reg(4), r: Val::Reg(5) }
    );
}

#[test]
fn lower_error_messages() {
    assert_eq!(
        LowerError::UnresolvedVariable("x".to_string()).message(),
        "Unresolved variable reference `x`"
    );
    assert_eq!(
        LowerError::DuplicateDeclaration("x".to_string()).message(),
        "Variable `x` already exists"
    );
    assert_eq!(
        LowerError::UndeclaredFunction("g".to_string()).message(),
        "Function `g` doesn't exist"
    );
    assert_eq!(
        LowerError::InvalidAssignmentTarget.message(),
        "Expected variable reference on assignment"
    );
}

#[test]
fn optimization_levels_coerce_out_of_range_to_default() {
    assert_eq!(optimization_level_or_default(0), (0, false));
    assert_eq!(optimization_level_or_default(3), (3, false));
    assert_eq!(optimization_level_or_default(4), (2, true));
    assert_eq!(optimization_level_or_default(99), (2, true));
}

#[test]
fn output_paths_follow_the_format_extension() {
    assert_eq!(OutputFormat::LLVM.extension(), "ll");
    assert_eq!(OutputFormat::ObjectFile.extension(), "o");
    assert_eq!(OutputFormat::Executable.extension(), "out");
    assert_eq!(default_output_path("prog", OutputFormat::Executable), "prog.out");
    assert_eq!(default_output_path("prog", OutputFormat::LLVM), "prog.ll");
}
