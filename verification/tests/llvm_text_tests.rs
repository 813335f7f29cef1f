use tungsten_core::llvm_text::{emit_llvm_ir, ExternDecl, LlvmTextEmitter};
use tungsten_core::relational::BinOp;
use tungsten_core::tir::{BlockId, Instruction, Operand, RValue, Terminator, TirBlock, TirConstant, TirFunction, TirModule, Var};
use tungsten_core::types::Type;

fn module_with(names: &[&str]) -> TirModule {
    TirModule {
        functions: names
            .iter()
            .map(|n| TirFunction {
                name: n.to_string(),
                params: Vec::new(),
                return_type: Type::Unit,
                blocks: Vec::new(),
                entry_block: BlockId(0),
            })
            .collect(),
    }
}

fn text(chars: Vec<char>) -> String {
    chars.into_iter().collect()
}

fn var(n: &str, ty: Type) -> Operand {
    Operand::Var(Var::Named(n.to_string()), ty)
}

#[test]
fn constants_are_written_in_place_and_literals_interned_once() {
    let m = module_with(&["main"]);
    let mut e = LlvmTextEmitter::new(&m, vec![]);
    assert_eq!(text(e.emit_operand(&Operand::Constant(TirConstant::Int(-5)))), "-5");
    assert_eq!(text(e.emit_operand(&Operand::Constant(TirConstant::Bool(true)))), "1");
    assert_eq!(text(e.emit_operand(&Operand::Constant(TirConstant::Unit))), "0");
    let hi = Operand::Constant(TirConstant::Str("hi".to_string()));
    let yo = Operand::Constant(TirConstant::Str("yo".to_string()));
    assert_eq!(text(e.emit_operand(&hi)), "@str_0");
    assert_eq!(text(e.emit_operand(&yo)), "@str_1");
    assert_eq!(text(e.emit_operand(&hi)), "@str_0");
    assert_eq!(e.interned(), vec!["hi".to_string(), "yo".to_string()]);
    assert_eq!(e.text(), "");
}

#[test]
fn variables_are_loaded_and_functions_named() {
    let m = module_with(&["helper"]);
    let mut e = LlvmTextEmitter::new(&m, vec!["puts".to_string()]);
    assert_eq!(text(e.emit_operand(&var("_helper", Type::I64))), "@helper");
    assert_eq!(text(e.emit_operand(&var("puts", Type::I64))), "@puts");
    assert_eq!(text(e.emit_operand(&var("x", Type::Bool))), "%t0");
    assert_eq!(e.text(), "    %t0 = load i8, ptr %slot_x\n");
    e.set_var_types(vec![(Var::Named("x".to_string()), "i64".to_string())]);
    assert_eq!(text(e.emit_operand(&var("x", Type::Bool))), "%t1");
    assert_eq!(e.text(), "    %t0 = load i8, ptr %slot_x\n    %t1 = load i64, ptr %slot_x\n");
}

#[test]
fn values_are_cast_between_llvm_types() {
    let m = module_with(&[]);
    let mut e = LlvmTextEmitter::new(&m, vec![]);
    let v: Vec<char> = "%v".chars().collect();
    let i64s: Vec<char> = "i64".chars().collect();
    let i32s: Vec<char> = "i32".chars().collect();
    let ptr: Vec<char> = "ptr".chars().collect();
    assert_eq!(text(e.coerce_val(&v, &i64s, &i64s)), "%v");
    assert_eq!(text(e.coerce_val(&v, &i64s, &i32s)), "%t0");
    assert_eq!(text(e.coerce_val(&v, &i32s, &i64s)), "%t1");
    assert_eq!(text(e.coerce_val(&v, &ptr, &i64s)), "%t2");
    assert_eq!(text(e.coerce_val(&v, &i64s, &ptr)), "%t3");
    assert_eq!(
        e.text(),
        "    %t0 = trunc i64 %v to i32\n    %t1 = zext i32 %v to i64\n    %t2 = ptrtoint ptr %v to i64\n    %t3 = inttoptr i64 %v to ptr\n"
    );
}

#[test]
fn comparisons_are_widened_to_i64() {
    let m = module_with(&[]);
    let mut e = LlvmTextEmitter::new(&m, vec![]);
    let r = e.emit_binary_op(BinOp::Lt, &var("a", Type::U8), &Operand::Constant(TirConstant::Int(3)));
    assert_eq!(text(r), "%t2");
    assert_eq!(
        e.text(),
        "    %t0 = load i8, ptr %slot_a\n    %t1 = zext i8 %t0 to i64\n    %t3 = icmp slt i64 %t1, 3\n    %t2 = zext i1 %t3 to i64\n"
    );
    let s = e.emit_binary_op(BinOp::Add, &Operand::Constant(TirConstant::Int(1)), &Operand::Constant(TirConstant::Int(2)));
    assert_eq!(text(s), "%t4");
    assert!(e.text().ends_with("    %t4 = add i64 1, 2\n"));
}

#[test]
fn terminators_become_branches_and_returns() {
    let m = module_with(&[]);
    let mut e = LlvmTextEmitter::new(&m, vec![]);
    e.emit_terminator(&Terminator::Branch(BlockId(3)), false, &Type::Unit);
    e.emit_terminator(&Terminator::Return(None), true, &Type::Unit);
    e.emit_terminator(&Terminator::Return(Some(Operand::Constant(TirConstant::Int(7)))), false, &Type::U32);
    e.emit_terminator(
        &Terminator::BranchCond { cond: var("c", Type::Bool), then_block: BlockId(1), else_block: BlockId(2) },
        false,
        &Type::Unit,
    );
    e.emit_terminator(&Terminator::Unreachable, false, &Type::Unit);
    assert_eq!(
        e.text(),
        "    br label %bb3\n    ret i32 0\n    %t0 = trunc i64 7 to i32\n    ret i32 %t0\n    %t1 = load i8, ptr %slot_c\n    %t2 = icmp ne i8 %t1, 0\n    br i1 %t2, label %bb1, label %bb2\n    unreachable\n"
    );
}

#[test]
fn refinement_checks_branch_to_a_panic_block() {
    let m = module_with(&[]);
    let mut e = LlvmTextEmitter::new(&m, vec![]);
    e.emit_assert_refinement(&Operand::Constant(TirConstant::Int(5)), 0, 10);
    assert_eq!(
        e.text(),
        "    %t0 = icmp slt i64 5, 0\n    %t1 = icmp sgt i64 5, 10\n    %t2 = or i1 %t0, %t1\n    br i1 %t2, label %panic_3, label %cont_3\npanic_3:\n    call void @tungsten_refinement_panic(i64 5, i64 0, i64 10)\n    unreachable\ncont_3:\n"
    );
}

#[test]
fn whole_module_is_emitted() {
    let main = TirFunction {
        name: "main".to_string(),
        params: Vec::new(),
        return_type: Type::I64,
        blocks: vec![TirBlock {
            id: BlockId(0),
            instructions: vec![
                Instruction::Assign {
                    dest: Var::Named("x".to_string()),
                    rvalue: RValue::BinaryOp(
                        BinOp::Add,
                        Operand::Constant(TirConstant::Int(1)),
                        Operand::Constant(TirConstant::Int(2)),
                    ),
                    ty: Type::I64,
                },
                Instruction::Call {
                    dest: None,
                    func: "@println".to_string(),
                    args: vec![Operand::Constant(TirConstant::Str("hi".to_string()))],
                    ty: Type::Unit,
                },
            ],
            terminator: Some(Terminator::Return(Some(var("x", Type::I64)))),
        }],
        entry_block: BlockId(0),
    };
    let m = TirModule { functions: vec![main] };
    let decls = vec![
        ExternDecl { name: "puts".to_string(), ret: "i32".to_string(), params: vec!["ptr".to_string()] },
        ExternDecl { name: "printf".to_string(), ret: "i32".to_string(), params: vec!["ptr".to_string()] },
    ];
    let ir = emit_llvm_ir(&m, &vec![], &decls);
    assert!(ir.starts_with("; ==========================================================\n; Tungsten Native LLVM Textual IR\n"));
    assert!(ir.contains("declare void @ReleaseMutex") == false);
    assert!(ir.contains("declare i32 @ReleaseMutex(ptr)\n\ndeclare i32 @puts(ptr)\n\n; Global Format Strings\n"));
    assert_eq!(ir.matches("declare i32 @printf(").count(), 1);
    assert!(ir.contains("; User String Literals\n@str_0 = internal constant [3 x i8] c\"hi\\00\"\n\n"));
    assert!(ir.ends_with(
        "define i32 @main() !dbg !5 {\nentry:\n    %slot_x = alloca i64, !dbg !6\n    store i64 0, ptr %slot_x, !dbg !6\n    br label %bb0, !dbg !6\n\nbb0:\n    %t0 = add i64 1, 2, !dbg !6\n    store i64 %t0, ptr %slot_x, !dbg !6\n    call void @tungsten_println_str(ptr @str_0, i64 2), !dbg !6\n    %t1 = load i64, ptr %slot_x, !dbg !6\n    %t2 = trunc i64 %t1 to i32, !dbg !6\n    ret i32 %t2, !dbg !6\n\n}\n\n\n!llvm.module.flags = !{!0, !1}\n!llvm.dbg.cu = !{!2}\n\n!0 = !{i32 2, !\"Dwarf Version\", i32 4}\n!1 = !{i32 2, !\"Debug Info Version\", i32 3}\n!2 = distinct !DICompileUnit(language: DW_LANG_C, file: !3, producer: \"Tungsten Compiler\", isOptimized: false, runtimeVersion: 0, emissionKind: FullDebug)\n!3 = !DIFile(filename: \"main.tg\", directory: \".\")\n!4 = !DISubroutineType(types: !{})\n!5 = distinct !DISubprogram(name: \"main\", scope: !3, file: !3, line: 0, type: !4, scopeLine: 0, spFlags: DISPFlagDefinition, unit: !2)\n!6 = !DILocation(line: 0, column: 0, scope: !5)\n"
    ));
}

fn int_op(n: i64) -> Operand {
    Operand::Constant(TirConstant::Int(n))
}

fn named(n: &str) -> Var {
    Var::Named(n.to_string())
}

/// `fn NAME(a: i64, b: i64) -> i64 { a OP b }` with `a` and `b` as named
/// parameters.
fn binary_function(name: &str, op: BinOp) -> TirFunction {
    TirFunction {
        name: name.to_string(),
        params: vec![(named("a"), Type::I64), (named("b"), Type::I64)],
        return_type: Type::I64,
        blocks: vec![TirBlock {
            id: BlockId(0),
            instructions: vec![Instruction::Assign {
                dest: Var::Temp(0),
                rvalue: RValue::BinaryOp(op, var("a", Type::I64), var("b", Type::I64)),
                ty: Type::I64,
            }],
            terminator: Some(Terminator::Return(Some(Operand::Var(Var::Temp(0), Type::I64)))),
        }],
        entry_block: BlockId(0),
    }
}

/// `fn main() { let res = CALLEE(x, y); println!("Result: {}", res); }`
fn main_calling(callee: &str, args: Vec<Operand>) -> TirFunction {
    TirFunction {
        name: "main".to_string(),
        params: Vec::new(),
        return_type: Type::Unit,
        blocks: vec![TirBlock {
            id: BlockId(0),
            instructions: vec![
                Instruction::Call { dest: Some(named("res")), func: callee.to_string(), args, ty: Type::I64 },
                Instruction::Call {
                    dest: None,
                    func: "@println".to_string(),
                    args: vec![Operand::Constant(TirConstant::Str("Result: {}".to_string())), var("res", Type::I64)],
                    ty: Type::Unit,
                },
            ],
            terminator: Some(Terminator::Return(None)),
        }],
        entry_block: BlockId(0),
    }
}

#[test]
fn test_llvm_text_emission() {
    let m = TirModule { functions: vec![binary_function("add", BinOp::Add), main_calling("add", vec![int_op(10), int_op(20)])] };
    let ir = emit_llvm_ir(&m, &vec![], &vec![]);
    assert!(ir.contains("define i64 @add("));
    assert!(ir.contains("define i32 @main("));
    assert!(ir.contains("target triple = \"x86_64-pc-windows-gnu\""));
}

#[test]
fn test_llvm_text_debug_info() {
    let compute = TirFunction {
        name: "compute".to_string(),
        params: vec![(named("a"), Type::I64)],
        return_type: Type::I64,
        blocks: vec![TirBlock {
            id: BlockId(0),
            instructions: vec![
                Instruction::Assign {
                    dest: named("b"),
                    rvalue: RValue::BinaryOp(BinOp::Mul, var("a", Type::I64), int_op(2)),
                    ty: Type::I64,
                },
                Instruction::Assign {
                    dest: Var::Temp(0),
                    rvalue: RValue::BinaryOp(BinOp::Add, var("b", Type::I64), int_op(1)),
                    ty: Type::I64,
                },
            ],
            terminator: Some(Terminator::Return(Some(Operand::Var(Var::Temp(0), Type::I64)))),
        }],
        entry_block: BlockId(0),
    };
    let m = TirModule { functions: vec![compute, main_calling("compute", vec![int_op(21)])] };
    let ir = emit_llvm_ir(&m, &vec![], &vec![]);

    assert!(ir.contains("!llvm.module.flags = !{!0, !1}"));
    assert!(ir.contains("!llvm.dbg.cu = !{!2}"));
    assert!(ir.contains("!DICompileUnit("));
    assert!(ir.contains("!DIFile("));
    assert!(ir.contains("!DISubprogram(name: \"compute\""));
    assert!(ir.contains("!DISubprogram(name: \"main\""));
    assert!(ir.contains("!DILocation("));
    assert!(ir.contains(", !dbg !"));
}

#[test]
fn each_function_carries_its_own_subprogram_and_location() {
    let m = TirModule { functions: vec![binary_function("add", BinOp::Add), main_calling("add", vec![int_op(1), int_op(2)])] };
    let ir = emit_llvm_ir(&m, &vec![], &vec![]);
    assert!(ir.contains("define i64 @add(i64 %arg_a, i64 %arg_b) !dbg !5 {\n"));
    assert!(ir.contains("define i32 @main() !dbg !7 {\n"));
    assert!(ir.contains("!5 = distinct !DISubprogram(name: \"add\""));
    assert!(ir.contains("!7 = distinct !DISubprogram(name: \"main\""));
    assert!(ir.contains("!8 = !DILocation(line: 0, column: 0, scope: !7)\n"));
    // Every indented line of a function body carries that function's location,
    // and labels, headers and closing braces carry none.
    let body_start = ir.find("define i64 @add(").unwrap();
    let meta_start = ir.find("\n!llvm.module.flags").unwrap();
    let mut current = "";
    for line in ir[body_start..meta_start].lines() {
        if line.starts_with("define i64 @add(") {
            current = ", !dbg !6";
        } else if line.starts_with("define i32 @main(") {
            current = ", !dbg !8";
        }
        if line.starts_with(' ') {
            assert!(line.ends_with(current), "line without its location: {}", line);
        } else {
            assert!(!line.contains(", !dbg !"), "label or header with a location: {}", line);
        }
    }
}
