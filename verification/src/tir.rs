use vstd::prelude::*;
use crate::relational::BinOp;
use crate::types::Type;

verus! {

/// A basic block label.
#[derive(Debug, Clone, Copy, PartialEq, Eq, Structural)]
pub struct BlockId(pub u32);

/// A TIR variable: a source name or a compiler temporary.
#[derive(Debug)]
pub enum Var {
    Named(String),
    Temp(usize),
}

/// Whether two variables are the same variable.
pub open spec fn same_var(a: Var, b: Var) -> bool {
    match (a, b) {
        (Var::Named(x), Var::Named(y)) => x@ == y@,
        (Var::Temp(x), Var::Temp(y)) => x == y,
        _ => false,
    }
}

#[derive(Debug)]
pub enum TirConstant {
    Int(i64),
    Bool(bool),
    Str(String),
    Unit,
}

#[derive(Debug)]
pub enum Operand {
    Constant(TirConstant),
    Var(Var, Type),
}

#[derive(Debug)]
pub enum RValue {
    Use(Operand),
    BinaryOp(BinOp, Operand, Operand),
    FieldAccess { target: Operand, field: String },
    MethodCall { target: Operand, method: String, args: Vec<Operand> },
    StructInit { name: String, fields: Vec<(String, Operand)>, arena: Option<Var> },
    Ref { operand: Operand, is_mut: bool },
    Cast { operand: Operand, target_ty: Type },
    EnumInit { tag: i64, payload: Vec<Operand>, arena: Option<Var> },
    EnumTag(Operand),
    EnumPayload { target: Operand, index: usize },
    ArrayInit { elements: Vec<Operand>, elem_stride: usize, arena: Option<Var> },
    ArrayIndex { target: Operand, index: Operand, stride: usize },
    Deref(Operand),
    AddrOf(Operand),
}

#[derive(Debug)]
pub enum Instruction {
    Assign { dest: Var, rvalue: RValue, ty: Type },
    Call { dest: Option<Var>, func: String, args: Vec<Operand>, ty: Type },
    ExternCall { dest: Option<Var>, func: String, args: Vec<Operand>, ty: Type },
    PerformEffect { dest: Option<Var>, effect: String, op: String, args: Vec<Operand>, ty: Type },
    AssertRefinement { operand: Operand, min: i64, max: i64 },
    SetField { base: Operand, field: String, val: Operand },
    Store { ptr: Operand, value: Operand },
    RegionEnter { dest: Var },
    RegionExit { arena: Var },
    NurseryEnter { dest: Var },
    NurseryExit { nursery: Var },
}

/// A handler arm of an effect-handling terminator.
#[derive(Debug)]
pub struct HandlerArm {
    pub effect: String,
    pub op: String,
    pub handler_entry: BlockId,
}

#[derive(Debug)]
pub enum Terminator {
    Branch(BlockId),
    BranchCond { cond: Operand, then_block: BlockId, else_block: BlockId },
    HandleEffect { body_entry: BlockId, handlers: Vec<HandlerArm>, exit_block: BlockId },
    Resume { continuation_block: BlockId, value: Option<Operand> },
    Return(Option<Operand>),
    Unreachable,
}

#[derive(Debug)]
pub struct TirBlock {
    pub id: BlockId,
    pub instructions: Vec<Instruction>,
    pub terminator: Option<Terminator>,
}

#[derive(Debug)]
pub struct TirFunction {
    pub name: String,
    pub params: Vec<(Var, Type)>,
    pub return_type: Type,
    pub blocks: Vec<TirBlock>,
    pub entry_block: BlockId,
}

#[derive(Debug)]
pub struct TirModule {
    pub functions: Vec<TirFunction>,
}

} // verus!
