use tungsten_core::const_fold::run_const_fold;
use tungsten_core::relational::BinOp;
use tungsten_core::tir::{
    BlockId, HandlerArm, Instruction, Operand, RValue, Terminator, TirBlock, TirConstant, TirFunction, TirModule, Var,
};
use tungsten_core::tir_verify::{verify_function, verify_module};
use tungsten_core::types::Type;

fn block(id: u32, instructions: Vec<Instruction>, terminator: Option<Terminator>) -> TirBlock {
    TirBlock { id: BlockId(id), instructions, terminator }
}

fn func(name: &str, blocks: Vec<TirBlock>, entry: u32) -> TirFunction {
    TirFunction { name: name.to_string(), params: Vec::new(), return_type: Type::I64, blocks, entry_block: BlockId(entry) }
}

fn c(v: i64) -> Operand {
    Operand::Constant(TirConstant::Int(v))
}

#[test]
fn well_formed_function_verifies() {
    let f = func(
        "main",
        vec![
            block(0, vec![], Some(Terminator::Branch(BlockId(1)))),
            block(1, vec![], Some(Terminator::Return(None))),
        ],
        0,
    );
    assert!(verify_function(&f).is_ok());
}

#[test]
fn errors_are_reported_in_order() {
    let f = func(
        "broken",
        vec![
            block(0, vec![], None),
            block(1, vec![], Some(Terminator::Branch(BlockId(9)))),
            block(
                2,
                vec![],
                Some(Terminator::HandleEffect {
                    body_entry: BlockId(0),
                    handlers: vec![HandlerArm { effect: "IO".to_string(), op: "print".to_string(), handler_entry: BlockId(7) }],
                    exit_block: BlockId(8),
                }),
            ),
        ],
        5,
    );
    let errs = verify_function(&f).unwrap_err();
    let shown: Vec<String> = errs.iter().map(|e| e.to_display_string()).collect();
    assert_eq!(
        shown,
        vec![
            "[TIR Error in fn 'broken' at bb5]: Entry block bb5 does not exist in function".to_string(),
            "[TIR Error in fn 'broken' at bb0]: Block bb0 is missing a terminator".to_string(),
            "[TIR Error in fn 'broken' at bb1]: Branch target bb9 does not exist".to_string(),
            "[TIR Error in fn 'broken' at bb2]: HandleEffect exit block bb8 does not exist".to_string(),
            "[TIR Error in fn 'broken' at bb2]: Handler entry bb7 for IO::print does not exist".to_string(),
        ]
    );
}

#[test]
fn module_collects_errors_of_all_functions() {
    let good = func("good", vec![block(0, vec![], Some(Terminator::Unreachable))], 0);
    let bad = func(
        "bad",
        vec![block(
            0,
            vec![],
            Some(Terminator::BranchCond { cond: Operand::Constant(TirConstant::Bool(true)), then_block: BlockId(1), else_block: BlockId(2) }),
        )],
        0,
    );
    let m = TirModule { functions: vec![good, bad] };
    let errs = verify_module(&m).unwrap_err();
    assert_eq!(errs.len(), 2);
    assert_eq!(errs[0].message, "BranchCond then target bb1 does not exist");
    assert_eq!(errs[1].message, "BranchCond else target bb2 does not exist");
    assert_eq!(errs[1].function_name, "bad");
    assert_eq!(errs[1].block_id, Some(BlockId(0)));
    let ok = TirModule { functions: vec![func("only", vec![block(0, vec![], Some(Terminator::Return(None)))], 0)] };
    assert!(verify_module(&ok).is_ok());
}

#[test]
fn constants_fold_and_propagate() {
    let t0 = Var::Temp(0);
    let t1 = Var::Temp(1);
    let t2 = Var::Temp(2);
    let insts = vec![
        Instruction::Assign { dest: t0, rvalue: RValue::BinaryOp(BinOp::Add, c(10), c(20)), ty: Type::I64 },
        Instruction::Assign {
            dest: t1,
            rvalue: RValue::BinaryOp(BinOp::Mul, Operand::Var(Var::Temp(0), Type::I64), c(2)),
            ty: Type::I64,
        },
        Instruction::Assign {
            dest: t2,
            rvalue: RValue::BinaryOp(BinOp::Lt, Operand::Var(Var::Temp(1), Type::I64), c(100)),
            ty: Type::Bool,
        },
    ];
    let mut f = func(
        "main",
        vec![
            block(
                0,
                insts,
                Some(Terminator::BranchCond { cond: Operand::Var(Var::Temp(2), Type::Bool), then_block: BlockId(1), else_block: BlockId(2) }),
            ),
            block(1, vec![], Some(Terminator::Return(None))),
            block(2, vec![], Some(Terminator::Return(None))),
        ],
        0,
    );
    assert_eq!(run_const_fold(&mut f), 4);
    match &f.blocks[0].instructions[1] {
        Instruction::Assign { rvalue: RValue::Use(Operand::Constant(TirConstant::Int(v))), .. } => assert_eq!(*v, 60),
        other => panic!("unexpected {:?}", other),
    }
    match &f.blocks[0].instructions[2] {
        Instruction::Assign { rvalue: RValue::Use(Operand::Constant(TirConstant::Bool(b))), .. } => assert!(*b),
        other => panic!("unexpected {:?}", other),
    }
    assert!(matches!(f.blocks[0].terminator, Some(Terminator::Branch(BlockId(1)))));
}

#[test]
fn division_by_zero_is_not_folded() {
    let mut f = func(
        "div",
        vec![block(
            0,
            vec![Instruction::Assign { dest: Var::Temp(0), rvalue: RValue::BinaryOp(BinOp::Div, c(7), c(0)), ty: Type::I64 }],
            Some(Terminator::Return(None)),
        )],
        0,
    );
    assert_eq!(run_const_fold(&mut f), 0);
    let mut g = func(
        "div2",
        vec![block(
            0,
            vec![Instruction::Assign { dest: Var::Temp(0), rvalue: RValue::BinaryOp(BinOp::Div, c(-7), c(2)), ty: Type::I64 }],
            Some(Terminator::Return(None)),
        )],
        0,
    );
    assert_eq!(run_const_fold(&mut g), 1);
    match &g.blocks[0].instructions[0] {
        Instruction::Assign { rvalue: RValue::Use(Operand::Constant(TirConstant::Int(v))), .. } => assert_eq!(*v, -3),
        other => panic!("unexpected {:?}", other),
    }
}

#[test]
fn second_fold_changes_nothing() {
    let mut f = func(
        "twice",
        vec![block(
            0,
            vec![
                Instruction::Assign { dest: Var::Named("a".to_string()), rvalue: RValue::BinaryOp(BinOp::Sub, c(9), c(4)), ty: Type::I64 },
                Instruction::Assign {
                    dest: Var::Named("b".to_string()),
                    rvalue: RValue::BinaryOp(BinOp::Eq, Operand::Var(Var::Named("a".to_string()), Type::I64), c(5)),
                    ty: Type::Bool,
                },
                Instruction::Assign { dest: Var::Temp(3), rvalue: RValue::BinaryOp(BinOp::Div, c(1), c(0)), ty: Type::I64 },
            ],
            Some(Terminator::BranchCond { cond: Operand::Var(Var::Named("b".to_string()), Type::Bool), then_block: BlockId(0), else_block: BlockId(0) }),
        )],
        0,
    );
    assert_eq!(run_const_fold(&mut f), 3);
    assert_eq!(run_const_fold(&mut f), 0);
}

#[test]
fn folded_values_are_what_the_machine_computes() {
    let insts = vec![
        Instruction::Assign { dest: Var::Temp(0), rvalue: RValue::BinaryOp(BinOp::Add, c(i64::MAX), c(1)), ty: Type::I64 },
        Instruction::Assign { dest: Var::Temp(1), rvalue: RValue::BinaryOp(BinOp::Div, c(-7), c(2)), ty: Type::I64 },
        Instruction::Assign {
            dest: Var::Temp(2),
            rvalue: RValue::BinaryOp(BinOp::Sub, Operand::Var(Var::Temp(1), Type::I64), Operand::Var(Var::Named("p".to_string()), Type::I64)),
            ty: Type::I64,
        },
    ];
    let mut f = func("main", vec![block(0, insts, Some(Terminator::Return(None)))], 0);
    assert_eq!(run_const_fold(&mut f), 2);
    let folded: Vec<Option<i64>> = f.blocks[0]
        .instructions
        .iter()
        .map(|i| match i {
            Instruction::Assign { rvalue: RValue::Use(Operand::Constant(TirConstant::Int(v))), .. } => Some(*v),
            _ => None,
        })
        .collect();
    assert_eq!(folded, vec![Some(i64::MIN), Some(-3), None]);
    // The unknown parameter keeps the subtraction, on the propagated constant.
    match &f.blocks[0].instructions[2] {
        Instruction::Assign { rvalue: RValue::BinaryOp(BinOp::Sub, Operand::Constant(TirConstant::Int(-3)), Operand::Var(_, _)), .. } => {}
        other => panic!("unexpected {:?}", other),
    }
}
