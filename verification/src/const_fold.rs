use vstd::prelude::*;
use crate::relational::BinOp;
use crate::tir::{same_var, BlockId, Instruction, Operand, RValue, Terminator, TirBlock, TirConstant, TirFunction, Var};
use crate::effects::str_eq;

verus! {

// ---------------------------------------------------------------------------
// Constant arithmetic
// ---------------------------------------------------------------------------

pub open spec fn abs_int(x: int) -> int {
    if x < 0 {
        -x
    } else {
        x
    }
}

/// Integer division rounding toward zero, as Rust's `/` does.
pub open spec fn trunc_div(l: int, r: int) -> int {
    if (l >= 0) == (r >= 0) {
        abs_int(l) / abs_int(r)
    } else {
        -(abs_int(l) / abs_int(r))
    }
}

/// `l / r` on `i64` (rounding toward zero); `r != 0` and `i64::MIN / -1` is excluded,
/// as Rust's `/` panics on both.
pub fn div_trunc(l: i64, r: i64) -> (q: i64)
    requires
        r != 0,
        !(l == i64::MIN && r == -1),
    ensures
        q == trunc_div(l as int, r as int),
{
    let ua: u64 = if l < 0 {
        if l == i64::MIN {
            0x8000_0000_0000_0000u64
        } else {
            (-l) as u64
        }
    } else {
        l as u64
    };
    let ub: u64 = if r < 0 {
        if r == i64::MIN {
            0x8000_0000_0000_0000u64
        } else {
            (-r) as u64
        }
    } else {
        r as u64
    };
    let uq = ua / ub;
    assert(ua == abs_int(l as int) && ub == abs_int(r as int));
    assert(uq <= ua) by (nonlinear_arith)
        requires
            ub >= 1,
            uq == ua / ub,
    ;
    if (l >= 0) == (r >= 0) {
        assert(uq < 0x8000_0000_0000_0000u64) by (nonlinear_arith)
            requires
                ua <= 0x8000_0000_0000_0000u64,
                ub >= 1,
                uq == ua / ub,
                ua == 0x8000_0000_0000_0000u64 ==> ub >= 2,
        ;
        uq as i64
    } else if uq == 0x8000_0000_0000_0000u64 {
        i64::MIN
    } else {
        -(uq as i64)
    }
}

/// The constant a binary operation on two constants folds to, if it folds.
pub open spec fn fold_binop(op: BinOp, left: TirConstant, right: TirConstant) -> Option<TirConstant> {
    match (left, right) {
        (TirConstant::Int(l), TirConstant::Int(r)) => match op {
            BinOp::Add => Some(TirConstant::Int(l.wrapping_add(r))),
            BinOp::Sub => Some(TirConstant::Int(l.wrapping_sub(r))),
            BinOp::Mul => Some(TirConstant::Int(l.wrapping_mul(r))),
            BinOp::Div => if r != 0 {
                Some(TirConstant::Int(trunc_div(l as int, r as int) as i64))
            } else {
                None
            },
            BinOp::Eq => Some(TirConstant::Bool(l == r)),
            BinOp::NotEq => Some(TirConstant::Bool(l != r)),
            BinOp::Lt => Some(TirConstant::Bool(l < r)),
            BinOp::LtEq => Some(TirConstant::Bool(l <= r)),
            BinOp::Gt => Some(TirConstant::Bool(l > r)),
            BinOp::GtEq => Some(TirConstant::Bool(l >= r)),
            _ => None,
        },
        (TirConstant::Bool(l), TirConstant::Bool(r)) => match op {
            BinOp::And => Some(TirConstant::Bool(l && r)),
            BinOp::Or => Some(TirConstant::Bool(l || r)),
            BinOp::Eq => Some(TirConstant::Bool(l == r)),
            BinOp::NotEq => Some(TirConstant::Bool(l != r)),
            _ => None,
        },
        _ => None,
    }
}

/// Folding overflows only on `i64::MIN / -1`, which has no `i64` quotient.
pub open spec fn fold_overflows(op: BinOp, left: TirConstant, right: TirConstant) -> bool {
    op == BinOp::Div && left == TirConstant::Int(i64::MIN) && right == TirConstant::Int(-1i64)
}

impl TirConstant {
    /// A copy of the constant.
    pub fn duplicate(&self) -> (r: Self)
        ensures
            r == *self,
    {
        match self {
            TirConstant::Int(i) => TirConstant::Int(*i),
            TirConstant::Bool(b) => TirConstant::Bool(*b),
            TirConstant::Str(s) => TirConstant::Str(s.clone()),
            TirConstant::Unit => TirConstant::Unit,
        }
    }
}

impl Var {
    /// A copy of the variable.
    pub fn duplicate(&self) -> (r: Self)
        ensures
            r == *self,
    {
        match self {
            Var::Named(s) => Var::Named(s.clone()),
            Var::Temp(t) => Var::Temp(*t),
        }
    }
}

fn same_var_exec(a: &Var, b: &Var) -> (r: bool)
    ensures
        r == same_var(*a, *b),
{
    match (a, b) {
        (Var::Named(x), Var::Named(y)) => str_eq(x.as_str(), y.as_str()),
        (Var::Temp(x), Var::Temp(y)) => *x == *y,
        _ => false,
    }
}

fn fold_binop_exec(op: BinOp, left: &TirConstant, right: &TirConstant) -> (r: Option<TirConstant>)
    requires
        !fold_overflows(op, *left, *right),
    ensures
        r == fold_binop(op, *left, *right),
{
    match (left, right) {
        (TirConstant::Int(l), TirConstant::Int(r)) => {
            let l = *l;
            let r = *r;
            match op {
                BinOp::Add => Some(TirConstant::Int(l.wrapping_add(r))),
                BinOp::Sub => Some(TirConstant::Int(l.wrapping_sub(r))),
                BinOp::Mul => Some(TirConstant::Int(l.wrapping_mul(r))),
                BinOp::Div => {
                    if r != 0 {
                        Some(TirConstant::Int(div_trunc(l, r)))
                    } else {
                        None
                    }
                },
                BinOp::Eq => Some(TirConstant::Bool(l == r)),
                BinOp::NotEq => Some(TirConstant::Bool(l != r)),
                BinOp::Lt => Some(TirConstant::Bool(l < r)),
                BinOp::LtEq => Some(TirConstant::Bool(l <= r)),
                BinOp::Gt => Some(TirConstant::Bool(l > r)),
                BinOp::GtEq => Some(TirConstant::Bool(l >= r)),
                _ => None,
            }
        },
        (TirConstant::Bool(l), TirConstant::Bool(r)) => {
            let l = *l;
            let r = *r;
            match op {
                BinOp::And => Some(TirConstant::Bool(l && r)),
                BinOp::Or => Some(TirConstant::Bool(l || r)),
                BinOp::Eq => Some(TirConstant::Bool(l == r)),
                BinOp::NotEq => Some(TirConstant::Bool(l != r)),
                _ => None,
            }
        },
        _ => None,
    }
}

// ---------------------------------------------------------------------------
// Known constants and operand substitution
// ---------------------------------------------------------------------------

/// Constants known for variables, in the order they became known; a later entry for a
/// variable replaces an earlier one.
pub type ConstMap = Seq<(Var, TirConstant)>;

pub open spec fn lookup(m: ConstMap, v: Var) -> Option<TirConstant>
    decreases m.len(),
{
    if m.len() == 0 {
        None
    } else if same_var(m.last().0, v) {
        Some(m.last().1)
    } else {
        lookup(m.drop_last(), v)
    }
}

/// A variable operand with a known constant becomes that constant.
pub open spec fn subst_operand(op: Operand, m: ConstMap) -> Operand {
    match op {
        Operand::Var(v, _) => match lookup(m, v) {
            Some(c) => Operand::Constant(c),
            None => op,
        },
        _ => op,
    }
}

pub open spec fn substituted_all(old: Seq<Operand>, new: Seq<Operand>, m: ConstMap) -> bool {
    new.len() == old.len() && forall|i: int| 0 <= i < old.len() ==> new[i] == subst_operand(old[i], m)
}

/// `new` is `old` with every operand substituted and everything else kept.
pub open spec fn rvalue_substituted(old: RValue, new: RValue, m: ConstMap) -> bool {
    match old {
        RValue::Use(o) => new == RValue::Use(subst_operand(o, m)),
        RValue::BinaryOp(op, l, r) => new == RValue::BinaryOp(op, subst_operand(l, m), subst_operand(r, m)),
        RValue::FieldAccess { target, field } => new == RValue::FieldAccess { target: subst_operand(target, m), field },
        RValue::MethodCall { target, method, args } => new matches RValue::MethodCall { target: t2, method: m2, args: a2 }
            && t2 == subst_operand(target, m) && m2 == method && substituted_all(args@, a2@, m),
        RValue::StructInit { name, fields, arena } => new matches RValue::StructInit { name: n2, fields: f2, arena: r2 }
            && n2 == name && r2 == arena && f2@.len() == fields@.len() && forall|i: int|
            0 <= i < fields@.len() ==> f2@[i].0 == fields@[i].0 && f2@[i].1 == subst_operand(fields@[i].1, m),
        RValue::Ref { operand, is_mut } => new == RValue::Ref { operand: subst_operand(operand, m), is_mut },
        RValue::Cast { operand, target_ty } => new == RValue::Cast { operand: subst_operand(operand, m), target_ty },
        RValue::EnumInit { tag, payload, arena } => new matches RValue::EnumInit { tag: t2, payload: p2, arena: r2 }
            && t2 == tag && r2 == arena && substituted_all(payload@, p2@, m),
        RValue::EnumTag(o) => new == RValue::EnumTag(subst_operand(o, m)),
        RValue::EnumPayload { target, index } => new == RValue::EnumPayload { target: subst_operand(target, m), index },
        RValue::ArrayInit { elements, elem_stride, arena } => new matches RValue::ArrayInit { elements: e2, elem_stride: s2, arena: r2 }
            && s2 == elem_stride && r2 == arena && substituted_all(elements@, e2@, m),
        RValue::ArrayIndex { target, index, stride } => new == RValue::ArrayIndex {
            target: subst_operand(target, m),
            index: subst_operand(index, m),
            stride,
        },
        RValue::Deref(o) => new == RValue::Deref(subst_operand(o, m)),
        RValue::AddrOf(o) => new == RValue::AddrOf(subst_operand(o, m)),
    }
}

fn lookup_exec(map: &Vec<(Var, TirConstant)>, v: &Var) -> (r: Option<TirConstant>)
    ensures
        r == lookup(map@, *v),
{
    let mut k = map.len();
    assert(map@.subrange(0, k as int) =~= map@);
    while k > 0
        invariant
            k <= map@.len(),
            lookup(map@.subrange(0, k as int), *v) == lookup(map@, *v),
        decreases k,
    {
        assert(map@.subrange(0, k as int).drop_last() =~= map@.subrange(0, k - 1));
        if same_var_exec(&map[k - 1].0, v) {
            return Some(map[k - 1].1.duplicate());
        }
        k = k - 1;
    }
    None
}

fn substitute_operand(op: &mut Operand, map: &Vec<(Var, TirConstant)>)
    ensures
        *final(op) == subst_operand(*old(op), map@),
{
    let found = match op {
        Operand::Var(v, _) => lookup_exec(map, v),
        _ => None,
    };
    if let Some(c) = found {
        *op = Operand::Constant(c);
    }
}

fn substitute_all(ops: &mut Vec<Operand>, map: &Vec<(Var, TirConstant)>)
    ensures
        substituted_all(old(ops)@, final(ops)@, map@),
{
    let ghost orig = ops@;
    let mut i: usize = 0;
    while i < ops.len()
        invariant
            i <= ops@.len(),
            ops@.len() == orig.len(),
            forall|j: int| 0 <= j < i ==> ops@[j] == subst_operand(orig[j], map@),
            forall|j: int| i <= j < ops@.len() ==> ops@[j] == orig[j],
        decreases ops@.len() - i,
    {
        substitute_operand(&mut ops[i], map);
        i = i + 1;
    }
}

fn substitute_rvalue_operands(rv: &mut RValue, map: &Vec<(Var, TirConstant)>)
    ensures
        rvalue_substituted(*old(rv), *final(rv), map@),
{
    match rv {
        RValue::Use(op) => substitute_operand(op, map),
        RValue::BinaryOp(_, l, r) => {
            substitute_operand(l, map);
            substitute_operand(r, map);
        },
        RValue::FieldAccess { target, .. } => substitute_operand(target, map),
        RValue::MethodCall { target, args, .. } => {
            substitute_operand(target, map);
            substitute_all(args, map);
        },
        RValue::StructInit { fields, .. } => {
            let ghost orig = fields@;
            let mut i: usize = 0;
            while i < fields.len()
                invariant
                    i <= fields@.len(),
                    fields@.len() == orig.len(),
                    forall|j: int| 0 <= j < i ==> fields@[j].0 == orig[j].0 && fields@[j].1 == subst_operand(orig[j].1, map@),
                    forall|j: int| i <= j < fields@.len() ==> fields@[j] == orig[j],
                decreases fields@.len() - i,
            {
                substitute_operand(&mut fields[i].1, map);
                i = i + 1;
            }
        },
        RValue::Ref { operand, .. } => substitute_operand(operand, map),
        RValue::Cast { operand, .. } => substitute_operand(operand, map),
        RValue::EnumInit { payload, .. } => substitute_all(payload, map),
        RValue::EnumTag(op) => substitute_operand(op, map),
        RValue::EnumPayload { target, .. } => substitute_operand(target, map),
        RValue::ArrayInit { elements, .. } => substitute_all(elements, map),
        RValue::ArrayIndex { target, index, .. } => {
            substitute_operand(target, map);
            substitute_operand(index, map);
        },
        RValue::Deref(op) => substitute_operand(op, map),
        RValue::AddrOf(op) => substitute_operand(op, map),
    }
}

} // verus!

verus! {

// ---------------------------------------------------------------------------
// Instructions, blocks and functions
// ---------------------------------------------------------------------------

/// The constant an assignment's right-hand side folds to, after substitution.
pub open spec fn rvalue_fold(rv: RValue, m: ConstMap) -> Option<TirConstant> {
    match rv {
        RValue::BinaryOp(op, l, r) => match (subst_operand(l, m), subst_operand(r, m)) {
            (Operand::Constant(a), Operand::Constant(b)) => fold_binop(op, a, b),
            _ => None,
        },
        _ => None,
    }
}

/// Whether folding the right-hand side would overflow.
pub open spec fn rvalue_overflows(rv: RValue, m: ConstMap) -> bool {
    match rv {
        RValue::BinaryOp(op, l, r) => match (subst_operand(l, m), subst_operand(r, m)) {
            (Operand::Constant(a), Operand::Constant(b)) => fold_overflows(op, a, b),
            _ => false,
        },
        _ => false,
    }
}

/// The constant a plain use of a (substituted) constant assigns.
pub open spec fn rvalue_use(rv: RValue, m: ConstMap) -> Option<TirConstant> {
    match rv {
        RValue::Use(o) => match subst_operand(o, m) {
            Operand::Constant(c) => Some(c),
            _ => None,
        },
        _ => None,
    }
}

/// The known constants after an instruction, and whether it was folded.
pub open spec fn inst_step(inst: Instruction, m: ConstMap) -> (ConstMap, nat) {
    match inst {
        Instruction::Assign { dest, rvalue, .. } => match rvalue_fold(rvalue, m) {
            Some(f) => (m.push((dest, f)), 1),
            None => match rvalue_use(rvalue, m) {
                Some(c) => (m.push((dest, c)), 0),
                None => (m, 0),
            },
        },
        _ => (m, 0),
    }
}

/// The known constants after a prefix of a block, and how many folds it made.
pub open spec fn insts_state(insts: Seq<Instruction>) -> (ConstMap, nat)
    decreases insts.len(),
{
    if insts.len() == 0 {
        (seq![], 0)
    } else {
        let (m, n) = insts_state(insts.drop_last());
        let (m2, k) = inst_step(insts.last(), m);
        (m2, n + k)
    }
}

/// The rewritten instruction: an assignment gets its operands substituted, and a foldable
/// binary operation becomes a use of the folded constant; other instructions stay.
#[verifier::opaque]
pub open spec fn inst_folded(old: Instruction, new: Instruction, m: ConstMap) -> bool {
    match old {
        Instruction::Assign { dest, rvalue, ty } => new matches Instruction::Assign { dest: d2, rvalue: r2, ty: t2 }
            && d2 == dest && t2 == ty && match rvalue_fold(rvalue, m) {
            Some(f) => r2 == RValue::Use(Operand::Constant(f)),
            None => rvalue_substituted(rvalue, r2, m),
        },
        _ => new == old,
    }
}

pub open spec fn inst_overflows(inst: Instruction, m: ConstMap) -> bool {
    match inst {
        Instruction::Assign { rvalue, .. } => rvalue_overflows(rvalue, m),
        _ => false,
    }
}

/// The value a branch condition is known to have.
pub open spec fn cond_value(cond: Operand, m: ConstMap) -> Option<TirConstant> {
    match cond {
        Operand::Constant(c) => Some(c),
        Operand::Var(v, _) => lookup(m, v),
    }
}

/// A conditional branch on a known boolean becomes an unconditional branch.
pub open spec fn term_fold(t: Option<Terminator>, m: ConstMap) -> (Option<Terminator>, nat) {
    match t {
        Some(Terminator::BranchCond { cond, then_block, else_block }) => match cond_value(cond, m) {
            Some(TirConstant::Bool(b)) => (Some(Terminator::Branch(if b { then_block } else { else_block })), 1),
            _ => (t, 0),
        },
        _ => (t, 0),
    }
}

/// Folding the instruction at `j` does not overflow.
pub open spec fn overflow_free_at(s: Seq<Instruction>, j: int) -> bool {
    !inst_overflows(s[j], insts_state(s.subrange(0, j)).0)
}

/// Folding a block never overflows.
pub open spec fn block_foldable(b: TirBlock) -> bool {
    forall|i: int| 0 <= i < b.instructions@.len() ==> #[trigger] overflow_free_at(b.instructions@, i)
}

/// `new` is `old` after constant folding and propagation within the block.
pub open spec fn block_folded(old: TirBlock, new: TirBlock) -> bool {
    let insts = old.instructions@;
    &&& new.id == old.id
    &&& new.instructions@.len() == insts.len()
    &&& forall|i: int| 0 <= i < insts.len() ==> inst_folded(
        #[trigger] insts[i],
        new.instructions@[i],
        insts_state(insts.subrange(0, i)).0,
    )
    &&& new.terminator == term_fold(old.terminator, insts_state(insts).0).0
}

/// How many folds constant folding makes in a block.
pub open spec fn block_changes(b: TirBlock) -> nat {
    let st = insts_state(b.instructions@);
    st.1 + term_fold(b.terminator, st.0).1
}

pub open spec fn total_changes(bs: Seq<TirBlock>) -> nat
    decreases bs.len(),
{
    if bs.len() == 0 {
        0
    } else {
        total_changes(bs.drop_last()) + block_changes(bs.last())
    }
}

fn fold_instruction(inst: &mut Instruction, map: &mut Vec<(Var, TirConstant)>) -> (r: usize)
    requires
        !inst_overflows(*old(inst), old(map)@),
    ensures
        inst_folded(*old(inst), *final(inst), old(map)@),
        (final(map)@, r as nat) == inst_step(*old(inst), old(map)@),
{
    let ghost m0 = map@;
    reveal(inst_folded);
    match inst {
        Instruction::Assign { dest, rvalue, .. } => {
            let ghost rv0 = *rvalue;
            // 1. Substitute operands from the known constants.
            substitute_rvalue_operands(rvalue, map);
            // 2. Fold binary operations on constants.
            let folded = match &*rvalue {
                RValue::BinaryOp(op, Operand::Constant(l), Operand::Constant(r)) => fold_binop_exec(*op, l, r),
                _ => None,
            };
            if let Some(f) = folded {
                let f2 = f.duplicate();
                *rvalue = RValue::Use(Operand::Constant(f));
                map.push((dest.duplicate(), f2));
                return 1;
            }
            // 3. Track direct constant uses.
            let used = match &*rvalue {
                RValue::Use(Operand::Constant(c)) => Some(c.duplicate()),
                _ => None,
            };
            if let Some(c) = used {
                map.push((dest.duplicate(), c));
            }
            0
        },
        _ => 0,
    }
}

fn fold_instructions(insts: &mut Vec<Instruction>) -> (r: (usize, Vec<(Var, TirConstant)>))
    requires
        forall|j: int| 0 <= j < old(insts)@.len() ==> #[trigger] overflow_free_at(old(insts)@, j),
        insts_state(old(insts)@).1 <= usize::MAX,
    ensures
        final(insts)@.len() == old(insts)@.len(),
        forall|j: int| 0 <= j < old(insts)@.len() ==> inst_folded(
            #[trigger] old(insts)@[j],
            final(insts)@[j],
            insts_state(old(insts)@.subrange(0, j)).0,
        ),
        (r.1@, r.0 as nat) == insts_state(old(insts)@),
{
    let ghost orig = insts@;
    let mut map: Vec<(Var, TirConstant)> = Vec::new();
    let mut changes: usize = 0;
    let mut i: usize = 0;
    while i < insts.len()
        invariant
            i <= insts@.len(),
            insts@.len() == orig.len(),
            forall|j: int| 0 <= j < i ==> inst_folded(
                orig[j],
                #[trigger] insts@[j],
                insts_state(orig.subrange(0, j)).0,
            ),
            forall|j: int| i <= j < orig.len() ==> #[trigger] insts@[j] == orig[j],
            (map@, changes as nat) == insts_state(orig.subrange(0, i as int)),
            forall|j: int| 0 <= j < orig.len() ==> #[trigger] overflow_free_at(orig, j),
            insts_state(orig).1 <= usize::MAX,
        decreases orig.len() - i,
    {
        proof {
            assert(orig.subrange(0, i + 1).drop_last() =~= orig.subrange(0, i as int));
            assert(orig.subrange(0, i + 1).last() == orig[i as int]);
        }
        assert(overflow_free_at(orig, i as int));
        let c = fold_instruction(&mut insts[i], &mut map);
        proof {
            lemma_state_prefix(orig, i + 1);
        }
        changes = changes + c;
        i = i + 1;
    }
    assert(orig.subrange(0, orig.len() as int) =~= orig);
    (changes, map)
}

fn fold_block(block: &mut TirBlock) -> (r: usize)
    requires
        block_foldable(*old(block)),
        block_changes(*old(block)) <= usize::MAX,
    ensures
        block_folded(*old(block), *final(block)),
        r as nat == block_changes(*old(block)),
{
    let (mut changes, map) = fold_instructions(&mut block.instructions);
    // Fold conditional branches on known constants.
    let mut new_term: Option<Terminator> = None;
    let mut term_changed = false;
    if let Some(Terminator::BranchCond { cond, then_block, else_block }) = &block.terminator {
        let actual = match cond {
            Operand::Constant(c) => Some(c.duplicate()),
            Operand::Var(v, _) => lookup_exec(&map, v),
        };
        if let Some(TirConstant::Bool(b)) = actual {
            if b {
                new_term = Some(Terminator::Branch(*then_block));
            } else {
                new_term = Some(Terminator::Branch(*else_block));
            }
            term_changed = true;
        }
    }
    assert(term_changed ==> term_fold(block.terminator, map@) == (new_term, 1nat));
    assert(!term_changed ==> term_fold(block.terminator, map@).1 == 0);
    if term_changed {
        block.terminator = new_term;
        changes = changes + 1;
    }
    changes
}

proof fn lemma_state_prefix(s: Seq<Instruction>, k: int)
    requires
        0 <= k <= s.len(),
    ensures
        insts_state(s.subrange(0, k)).1 <= insts_state(s).1,
    decreases s.len() - k,
{
    if k == s.len() {
        assert(s.subrange(0, k) =~= s);
    } else {
        lemma_state_prefix(s, k + 1);
        assert(s.subrange(0, k + 1).drop_last() =~= s.subrange(0, k));
    }
}

/// Folding never overflows anywhere in the function.
pub open spec fn function_foldable(f: TirFunction) -> bool {
    forall|i: int| 0 <= i < f.blocks@.len() ==> block_foldable(#[trigger] f.blocks@[i])
}

/// Constant folding and propagation, block by block: operands of assignments take the
/// constants known for their variables, binary operations on constants are folded, and
/// conditional branches on known booleans become unconditional. Returns the number of
/// folds made.
pub fn run_const_fold(func: &mut TirFunction) -> (r: usize)
    requires
        function_foldable(*old(func)),
        total_changes(old(func).blocks@) <= usize::MAX,
    ensures
        final(func).name == old(func).name,
        final(func).params == old(func).params,
        final(func).return_type == old(func).return_type,
        final(func).entry_block == old(func).entry_block,
        final(func).blocks@.len() == old(func).blocks@.len(),
        forall|i: int| 0 <= i < old(func).blocks@.len() ==> block_folded(
            #[trigger] old(func).blocks@[i],
            final(func).blocks@[i],
        ),
        r as nat == total_changes(old(func).blocks@),
{
    let ghost orig = func.blocks@;
    let mut changes: usize = 0;
    let mut i: usize = 0;
    while i < func.blocks.len()
        invariant
            i <= func.blocks@.len(),
            func.blocks@.len() == orig.len(),
            func.name == old(func).name,
            func.params == old(func).params,
            func.return_type == old(func).return_type,
            func.entry_block == old(func).entry_block,
            orig == old(func).blocks@,
            forall|j: int| 0 <= j < i ==> block_folded(#[trigger] orig[j], func.blocks@[j]),
            forall|j: int| i <= j < orig.len() ==> func.blocks@[j] == orig[j],
            changes as nat == total_changes(orig.subrange(0, i as int)),
            forall|j: int| 0 <= j < orig.len() ==> block_foldable(#[trigger] orig[j]),
            total_changes(orig) <= usize::MAX,
        decreases orig.len() - i,
    {
        proof {
            assert(orig.subrange(0, i + 1).drop_last() =~= orig.subrange(0, i as int));
            assert(orig.subrange(0, i + 1).last() == orig[i as int]);
            lemma_total_prefix(orig, i + 1);
        }
        let c = fold_block(&mut func.blocks[i]);
        changes = changes + c;
        i = i + 1;
    }
    assert(orig.subrange(0, orig.len() as int) =~= orig);
    changes
}

proof fn lemma_total_prefix(s: Seq<TirBlock>, k: int)
    requires
        0 <= k <= s.len(),
    ensures
        total_changes(s.subrange(0, k)) <= total_changes(s),
    decreases s.len() - k,
{
    if k == s.len() {
        assert(s.subrange(0, k) =~= s);
    } else {
        lemma_total_prefix(s, k + 1);
        assert(s.subrange(0, k + 1).drop_last() =~= s.subrange(0, k));
    }
}

} // verus!

verus! {

// ---------------------------------------------------------------------------
// Folding reaches its fixed point in one run
// ---------------------------------------------------------------------------

proof fn lemma_subst_operand_idem(o: Operand, m: ConstMap)
    ensures
        subst_operand(subst_operand(o, m), m) == subst_operand(o, m),
{
}

/// A folded instruction, under the constants known before it, changes the
/// known constants as the unfolded one did, folds nothing and cannot overflow.
proof fn lemma_folded_step(old: Instruction, new: Instruction, m: ConstMap)
    requires
        inst_folded(old, new, m),
    ensures
        inst_step(new, m) == (inst_step(old, m).0, 0nat),
        !inst_overflows(new, m),
{
    reveal(inst_folded);
    match old {
        Instruction::Assign { dest, rvalue, ty } => {
            match rvalue_fold(rvalue, m) {
                Some(f) => {},
                None => {
                    match rvalue {
                        RValue::BinaryOp(op, l, r) => {
                            lemma_subst_operand_idem(l, m);
                            lemma_subst_operand_idem(r, m);
                        },
                        RValue::Use(o) => {
                            lemma_subst_operand_idem(o, m);
                        },
                        _ => {},
                    }
                },
            }
        },
        _ => {},
    }
}

proof fn lemma_folded_prefix(old: Seq<Instruction>, new: Seq<Instruction>, k: int)
    requires
        0 <= k <= old.len(),
        new.len() == old.len(),
        forall|i: int| 0 <= i < old.len() ==> inst_folded(
            #[trigger] old[i],
            new[i],
            insts_state(old.subrange(0, i)).0,
        ),
    ensures
        insts_state(new.subrange(0, k)).0 == insts_state(old.subrange(0, k)).0,
        insts_state(new.subrange(0, k)).1 == 0,
        forall|j: int| 0 <= j < k ==> #[trigger] overflow_free_at(new, j),
    decreases k,
{
    if k > 0 {
        lemma_folded_prefix(old, new, k - 1);
        let m = insts_state(old.subrange(0, k - 1)).0;
        assert(inst_folded(old[k - 1], new[k - 1], m));
        lemma_folded_step(old[k - 1], new[k - 1], m);
        assert(new.subrange(0, k).drop_last() =~= new.subrange(0, k - 1));
        assert(old.subrange(0, k).drop_last() =~= old.subrange(0, k - 1));
        assert(new.subrange(0, k).last() == new[k - 1]);
        assert(old.subrange(0, k).last() == old[k - 1]);
        assert(overflow_free_at(new, k - 1));
    }
}

/// A folded block folds no further and folds without overflow.
pub proof fn lemma_block_fixed_point(old: TirBlock, new: TirBlock)
    requires
        block_folded(old, new),
    ensures
        block_changes(new) == 0,
        block_foldable(new),
{
    let n = old.instructions@.len() as int;
    lemma_folded_prefix(old.instructions@, new.instructions@, n);
    assert(old.instructions@.subrange(0, n) =~= old.instructions@);
    assert(new.instructions@.subrange(0, n) =~= new.instructions@);
}

proof fn lemma_total_zero(bs: Seq<TirBlock>)
    requires
        forall|i: int| 0 <= i < bs.len() ==> block_changes(#[trigger] bs[i]) == 0,
    ensures
        total_changes(bs) == 0,
    decreases bs.len(),
{
    if bs.len() > 0 {
        assert(bs.last() == bs[bs.len() - 1]);
        lemma_total_zero(bs.drop_last());
    }
}

/// Constant folding reaches its fixed point in one run: folding the folded
/// function again is possible and makes no change.
pub proof fn law_const_fold_fixed_point(f: TirFunction, g: TirFunction)
    requires
        g.blocks@.len() == f.blocks@.len(),
        forall|i: int| 0 <= i < f.blocks@.len() ==> block_folded(#[trigger] f.blocks@[i], g.blocks@[i]),
    ensures
        function_foldable(g),
        total_changes(g.blocks@) == 0,
{
    assert forall|i: int| 0 <= i < g.blocks@.len() implies block_foldable(#[trigger] g.blocks@[i])
        && block_changes(g.blocks@[i]) == 0 by {
        assert(block_folded(f.blocks@[i], g.blocks@[i]));
        lemma_block_fixed_point(f.blocks@[i], g.blocks@[i]);
    }
    lemma_total_zero(g.blocks@);
}

} // verus!

verus! {

/// Two right-hand sides are the same, vectors compared by their elements.
pub open spec fn same_rvalue(a: RValue, b: RValue) -> bool {
    match a {
        RValue::MethodCall { target, method, args } => b matches RValue::MethodCall { target: t2, method: m2, args: a2 }
            && t2 == target && m2 == method && a2@ == args@,
        RValue::StructInit { name, fields, arena } => b matches RValue::StructInit { name: n2, fields: f2, arena: r2 }
            && n2 == name && r2 == arena && f2@ == fields@,
        RValue::EnumInit { tag, payload, arena } => b matches RValue::EnumInit { tag: t2, payload: p2, arena: r2 }
            && t2 == tag && r2 == arena && p2@ == payload@,
        RValue::ArrayInit { elements, elem_stride, arena } => b matches RValue::ArrayInit { elements: e2, elem_stride: s2, arena: r2 }
            && s2 == elem_stride && r2 == arena && e2@ == elements@,
        _ => b == a,
    }
}

/// Two instructions are the same, vectors compared by their elements.
pub open spec fn same_inst(a: Instruction, b: Instruction) -> bool {
    match a {
        Instruction::Assign { dest, rvalue, ty } => b matches Instruction::Assign { dest: d2, rvalue: r2, ty: t2 }
            && d2 == dest && t2 == ty && same_rvalue(rvalue, r2),
        _ => b == a,
    }
}

/// Two blocks are the same, vectors compared by their elements.
pub open spec fn same_block(a: TirBlock, b: TirBlock) -> bool {
    &&& b.id == a.id
    &&& b.terminator == a.terminator
    &&& b.instructions@.len() == a.instructions@.len()
    &&& forall|i: int| 0 <= i < a.instructions@.len() ==> same_inst(#[trigger] a.instructions@[i], b.instructions@[i])
}

proof fn lemma_subst_all_idem(f: Seq<Operand>, g: Seq<Operand>, h: Seq<Operand>, m: ConstMap)
    requires
        substituted_all(f, g, m),
        substituted_all(g, h, m),
    ensures
        h == g,
{
    assert forall|i: int| 0 <= i < g.len() implies h[i] == g[i] by {
        lemma_subst_operand_idem(f[i], m);
    }
    assert(h =~= g);
}

#[verifier::rlimit(40)]
proof fn lemma_inst_refold(f: Instruction, g: Instruction, h: Instruction, m: ConstMap)
    requires
        inst_folded(f, g, m),
        inst_folded(g, h, m),
    ensures
        same_inst(g, h),
{
    reveal(inst_folded);
    match f {
        Instruction::Assign { dest, rvalue, ty } => {
            match rvalue_fold(rvalue, m) {
                Some(c) => {},
                None => {
                    let g_rv = g->Assign_rvalue;
                    let h_rv = h->Assign_rvalue;
                    match rvalue {
                        RValue::Use(o) => { lemma_subst_operand_idem(o, m); },
                        RValue::BinaryOp(op, l, r) => {
                            lemma_subst_operand_idem(l, m);
                            lemma_subst_operand_idem(r, m);
                        },
                        RValue::FieldAccess { target, .. } => { lemma_subst_operand_idem(target, m); },
                        RValue::MethodCall { target, args, .. } => {
                            lemma_subst_operand_idem(target, m);
                            lemma_subst_all_idem(args@, g_rv->MethodCall_args@, h_rv->MethodCall_args@, m);
                        },
                        RValue::StructInit { fields, .. } => {
                            let f2 = g_rv->StructInit_fields@;
                            let f3 = h_rv->StructInit_fields@;
                            assert forall|i: int| 0 <= i < f2.len() implies f3[i] == f2[i] by {
                                lemma_subst_operand_idem(fields@[i].1, m);
                            }
                            assert(f3 =~= f2);
                        },
                        RValue::Ref { operand, .. } => { lemma_subst_operand_idem(operand, m); },
                        RValue::Cast { operand, .. } => { lemma_subst_operand_idem(operand, m); },
                        RValue::EnumInit { payload, .. } => {
                            lemma_subst_all_idem(payload@, g_rv->EnumInit_payload@, h_rv->EnumInit_payload@, m);
                        },
                        RValue::EnumTag(o) => { lemma_subst_operand_idem(o, m); },
                        RValue::EnumPayload { target, .. } => { lemma_subst_operand_idem(target, m); },
                        RValue::ArrayInit { elements, .. } => {
                            lemma_subst_all_idem(elements@, g_rv->ArrayInit_elements@, h_rv->ArrayInit_elements@, m);
                        },
                        RValue::ArrayIndex { target, index, .. } => {
                            lemma_subst_operand_idem(target, m);
                            lemma_subst_operand_idem(index, m);
                        },
                        RValue::Deref(o) => { lemma_subst_operand_idem(o, m); },
                        RValue::AddrOf(o) => { lemma_subst_operand_idem(o, m); },
                    }
                },
            }
        },
        _ => {},
    }
}

/// A second run of constant folding leaves the function as the first run
/// left it (vectors compared by their elements).
pub proof fn law_const_fold_second_run_unchanged(f: TirFunction, g: TirFunction, h: TirFunction)
    requires
        g.blocks@.len() == f.blocks@.len(),
        forall|i: int| 0 <= i < f.blocks@.len() ==> block_folded(#[trigger] f.blocks@[i], g.blocks@[i]),
        h.blocks@.len() == g.blocks@.len(),
        forall|i: int| 0 <= i < g.blocks@.len() ==> block_folded(#[trigger] g.blocks@[i], h.blocks@[i]),
    ensures
        forall|i: int| 0 <= i < g.blocks@.len() ==> same_block(#[trigger] g.blocks@[i], h.blocks@[i]),
{
    assert forall|i: int| 0 <= i < g.blocks@.len() implies same_block(#[trigger] g.blocks@[i], h.blocks@[i]) by {
        let fb = f.blocks@[i];
        let gb = g.blocks@[i];
        let hb = h.blocks@[i];
        assert(block_folded(fb, gb));
        assert(block_folded(gb, hb));
        let fi = fb.instructions@;
        let gi = gb.instructions@;
        let hi = hb.instructions@;
        assert forall|k: int| 0 <= k < gi.len() implies same_inst(#[trigger] gi[k], hi[k]) by {
            lemma_folded_prefix(fi, gi, k);
            assert(inst_folded(fi[k], gi[k], insts_state(fi.subrange(0, k)).0));
            assert(inst_folded(gi[k], hi[k], insts_state(gi.subrange(0, k)).0));
            lemma_inst_refold(fi[k], gi[k], hi[k], insts_state(fi.subrange(0, k)).0);
        }
        let n = fi.len() as int;
        lemma_folded_prefix(fi, gi, n);
        assert(fi.subrange(0, n) =~= fi);
        assert(gi.subrange(0, n) =~= gi);
        let mm = insts_state(fi).0;
        assert(insts_state(gi).0 == mm);
    }
}

// ---------------------------------------------------------------------------
// What a block computes
// ---------------------------------------------------------------------------

/// The values variables hold after a run: the last write to each; `None`
/// for a value this model does not compute (a call's result, a field, ...).
pub type ValEnv = Seq<(Var, Option<TirConstant>)>;

pub open spec fn env_lookup(env: ValEnv, v: Var) -> Option<Option<TirConstant>>
    decreases env.len(),
{
    if env.len() == 0 {
        None
    } else if same_var(env.last().0, v) {
        Some(env.last().1)
    } else {
        env_lookup(env.drop_last(), v)
    }
}

/// The value of an operand.
pub open spec fn eval_operand(o: Operand, env: ValEnv) -> Option<TirConstant> {
    match o {
        Operand::Constant(c) => Some(c),
        Operand::Var(v, _) => match env_lookup(env, v) {
            Some(x) => x,
            None => None,
        },
    }
}

/// The value of a right-hand side: a use gives its operand's value, a
/// binary operation what the machine computes on its operands' values
/// (wrapping `i64` arithmetic, truncating division); the other forms are not
/// modeled.
pub open spec fn eval_rvalue(rv: RValue, env: ValEnv) -> Option<TirConstant> {
    match rv {
        RValue::Use(o) => eval_operand(o, env),
        RValue::BinaryOp(op, l, r) => match (eval_operand(l, env), eval_operand(r, env)) {
            (Some(a), Some(b)) => fold_binop(op, a, b),
            _ => None,
        },
        _ => None,
    }
}

/// The variable an instruction writes, if any.
pub open spec fn inst_dest(inst: Instruction) -> Option<Var> {
    match inst {
        Instruction::Assign { dest, .. } => Some(dest),
        Instruction::Call { dest, .. } => dest,
        Instruction::ExternCall { dest, .. } => dest,
        Instruction::PerformEffect { dest, .. } => dest,
        Instruction::RegionEnter { dest } => Some(dest),
        Instruction::NurseryEnter { dest } => Some(dest),
        _ => None,
    }
}

/// Running instructions from `env`: each write records the value written.
pub open spec fn run_insts(insts: Seq<Instruction>, env: ValEnv) -> ValEnv
    decreases insts.len(),
{
    if insts.len() == 0 {
        env
    } else {
        let e = run_insts(insts.drop_last(), env);
        match insts.last() {
            Instruction::Assign { dest, rvalue, .. } => e.push((dest, eval_rvalue(rvalue, e))),
            other => match inst_dest(other) {
                Some(d) => e.push((d, None)),
                None => e,
            },
        }
    }
}

/// Whether one of the instructions writes `v`.
pub open spec fn writes(insts: Seq<Instruction>, v: Var) -> bool
    decreases insts.len(),
{
    insts.len() > 0 && (writes(insts.drop_last(), v) || (inst_dest(insts.last()) matches Some(d) && same_var(
        d,
        v,
    )))
}

/// No instruction writes a variable that an earlier one wrote.
pub open spec fn single_assignment(insts: Seq<Instruction>) -> bool {
    forall|k: int| #![trigger insts[k]]
        0 <= k < insts.len() ==> (inst_dest(insts[k]) matches Some(d) ==> !writes(insts.subrange(0, k), d))
}

/// Every constant known for a variable is the value the run gave it.
pub open spec fn agrees(m: ConstMap, env: ValEnv) -> bool {
    forall|v: Var| (#[trigger] lookup(m, v)) is Some ==> env_lookup(env, v) == Some(lookup(m, v))
}

proof fn lemma_lookup_same(m: ConstMap, a: Var, b: Var)
    requires
        same_var(a, b),
    ensures
        lookup(m, a) == lookup(m, b),
    decreases m.len(),
{
    if m.len() > 0 {
        lemma_lookup_same(m.drop_last(), a, b);
    }
}

proof fn lemma_known_are_written(s: Seq<Instruction>, v: Var)
    requires
        lookup(insts_state(s).0, v) is Some,
    ensures
        writes(s, v),
    decreases s.len(),
{
    if s.len() > 0 {
        let m = insts_state(s.drop_last()).0;
        let m2 = insts_state(s).0;
        if lookup(m, v) is Some {
            lemma_known_are_written(s.drop_last(), v);
        } else {
            match s.last() {
                Instruction::Assign { dest, rvalue, .. } => {
                    if m2 != m {
                        assert(m2.drop_last() =~= m);
                    }
                },
                _ => {},
            }
        }
    }
}

proof fn lemma_subst_eval(o: Operand, m: ConstMap, env: ValEnv)
    requires
        agrees(m, env),
    ensures
        eval_operand(subst_operand(o, m), env) == eval_operand(o, env),
{
    match o {
        Operand::Var(v, _) => {
            if lookup(m, v) is Some {
                assert(env_lookup(env, v) == Some(lookup(m, v)));
            }
        },
        _ => {},
    }
}

/// Under constants that agree with the run, a folded instruction writes what
/// the unfolded one writes.
proof fn lemma_folded_eval(rv: RValue, r2: RValue, m: ConstMap, env: ValEnv)
    requires
        agrees(m, env),
        match rvalue_fold(rv, m) {
            Some(f) => r2 == RValue::Use(Operand::Constant(f)),
            None => rvalue_substituted(rv, r2, m),
        },
    ensures
        eval_rvalue(r2, env) == eval_rvalue(rv, env),
        rvalue_fold(rv, m) matches Some(f) ==> eval_rvalue(rv, env) == Some(f),
        rvalue_use(rv, m) matches Some(c) ==> eval_rvalue(rv, env) == Some(c),
{
    match rv {
        RValue::BinaryOp(op, l, r) => {
            lemma_subst_eval(l, m, env);
            lemma_subst_eval(r, m, env);
        },
        RValue::Use(o) => {
            lemma_subst_eval(o, m, env);
        },
        _ => {},
    }
}

proof fn lemma_run_prefix(old: Seq<Instruction>, new: Seq<Instruction>, env: ValEnv, k: int)
    requires
        0 <= k <= old.len(),
        new.len() == old.len(),
        single_assignment(old),
        forall|i: int| 0 <= i < old.len() ==> inst_folded(
            #[trigger] old[i],
            new[i],
            insts_state(old.subrange(0, i)).0,
        ),
    ensures
        run_insts(new.subrange(0, k), env) == run_insts(old.subrange(0, k), env),
        agrees(insts_state(old.subrange(0, k)).0, run_insts(old.subrange(0, k), env)),
    decreases k,
{
    if k > 0 {
        lemma_run_prefix(old, new, env, k - 1);
        let so = old.subrange(0, k);
        let sn = new.subrange(0, k);
        assert(so.drop_last() =~= old.subrange(0, k - 1));
        assert(sn.drop_last() =~= new.subrange(0, k - 1));
        assert(so.last() == old[k - 1]);
        assert(sn.last() == new[k - 1]);
        let m = insts_state(old.subrange(0, k - 1)).0;
        let e = run_insts(old.subrange(0, k - 1), env);
        assert(inst_folded(old[k - 1], new[k - 1], m));
        reveal(inst_folded);
        let m2 = insts_state(so).0;
        let e2 = run_insts(so, env);
        match old[k - 1] {
            Instruction::Assign { dest, rvalue, ty } => {
                let r2 = new[k - 1]->Assign_rvalue;
                lemma_folded_eval(rvalue, r2, m, e);
                assert(!writes(old.subrange(0, k - 1), dest));
                if lookup(m, dest) is Some {
                    lemma_known_are_written(old.subrange(0, k - 1), dest);
                }
                let val = eval_rvalue(rvalue, e);
                assert(e2 == e.push((dest, val)));
                assert(e2.drop_last() =~= e);
                assert forall|v: Var| (#[trigger] lookup(m2, v)) is Some implies env_lookup(e2, v) == Some(
                    lookup(m2, v),
                ) by {
                    match rvalue_fold(rvalue, m) {
                        Some(f) => {
                            assert(m2 == m.push((dest, f)));
                            assert(m2.drop_last() =~= m);
                        },
                        None => match rvalue_use(rvalue, m) {
                            Some(c) => {
                                assert(m2 == m.push((dest, c)));
                                assert(m2.drop_last() =~= m);
                            },
                            None => {
                                assert(m2 == m);
                            },
                        },
                    }
                    if same_var(dest, v) {
                        lemma_lookup_same(m, dest, v);
                    } else {
                        assert(lookup(m, v) is Some ==> env_lookup(e, v) == Some(lookup(m, v)));
                    }
                }
            },
            other => {
                assert(new[k - 1] == other);
                match inst_dest(other) {
                    Some(d) => {
                        assert(!writes(old.subrange(0, k - 1), d));
                        if lookup(m, d) is Some {
                            lemma_known_are_written(old.subrange(0, k - 1), d);
                        }
                        assert(e2 == e.push((d, None::<TirConstant>)));
                        assert(e2.drop_last() =~= e);
                        assert(m2 == m);
                        assert forall|v: Var| (#[trigger] lookup(m2, v)) is Some implies env_lookup(e2, v) == Some(
                            lookup(m2, v),
                        ) by {
                            if same_var(d, v) {
                                lemma_lookup_same(m, d, v);
                            } else {
                                assert(lookup(m, v) is Some ==> env_lookup(e, v) == Some(lookup(m, v)));
                            }
                        }
                    },
                    None => {},
                }
            },
        }
    }
}

/// Where a terminator leads after a run that ends in `e`: the same place as
/// before folding, or, for a conditional branch made unconditional, the
/// target the condition's value picks.
pub open spec fn same_exit(old: Option<Terminator>, new: Option<Terminator>, e: ValEnv) -> bool {
    match (old, new) {
        (Some(Terminator::BranchCond { cond, then_block, else_block }), Some(Terminator::Branch(t))) => eval_operand(
            cond,
            e,
        ) matches Some(TirConstant::Bool(b)) && t == (if b { then_block } else { else_block }),
        _ => new == old,
    }
}

/// Running the blocks `path` names, one after another, from `env`.
pub open spec fn run_path(bs: Seq<TirBlock>, path: Seq<int>, env: ValEnv) -> ValEnv
    decreases path.len(),
{
    if path.len() == 0 {
        env
    } else {
        run_insts(bs[path.last()].instructions@, run_path(bs, path.drop_last(), env))
    }
}

/// Folding keeps what a block computes: where no instruction writes a
/// variable an earlier one wrote, the folded block writes the same values as
/// the original from any starting values, and a conditional branch it made
/// unconditional goes where the original goes on those values.
pub proof fn law_const_fold_keeps_meaning(old: TirBlock, new: TirBlock, env: ValEnv)
    requires
        block_folded(old, new),
        single_assignment(old.instructions@),
    ensures
        run_insts(new.instructions@, env) == run_insts(old.instructions@, env),
        forall|i: int| 0 <= i <= old.instructions@.len() ==> #[trigger] run_insts(new.instructions@.take(i), env)
            == run_insts(old.instructions@.take(i), env),
        forall|i: int| 0 <= i < old.instructions@.len() && !(old.instructions@[i] is Assign) ==> #[trigger] new.instructions@[i]
            == old.instructions@[i],
        same_exit(old.terminator, new.terminator, run_insts(old.instructions@, env)),
{
    let n = old.instructions@.len() as int;
    assert forall|i: int| 0 <= i <= n implies #[trigger] run_insts(new.instructions@.take(i), env) == run_insts(
        old.instructions@.take(i),
        env,
    ) by {
        lemma_run_prefix(old.instructions@, new.instructions@, env, i);
        assert(old.instructions@.take(i) =~= old.instructions@.subrange(0, i));
        assert(new.instructions@.take(i) =~= new.instructions@.subrange(0, i));
    }
    assert forall|i: int| 0 <= i < n && !(old.instructions@[i] is Assign) implies #[trigger] new.instructions@[i]
        == old.instructions@[i] by {
        assert(inst_folded(old.instructions@[i], new.instructions@[i], insts_state(old.instructions@.subrange(0, i)).0));
        reveal(inst_folded);
    }
    lemma_run_prefix(old.instructions@, new.instructions@, env, n);
    assert(old.instructions@.subrange(0, n) =~= old.instructions@);
    assert(new.instructions@.subrange(0, n) =~= new.instructions@);
    let m = insts_state(old.instructions@).0;
    let e = run_insts(old.instructions@, env);
    match old.terminator {
        Some(Terminator::BranchCond { cond, then_block, else_block }) => {
            match cond {
                Operand::Var(v, _) => {
                    assert(lookup(m, v) is Some ==> env_lookup(e, v) == Some(lookup(m, v)));
                },
                _ => {},
            }
        },
        _ => {},
    }
}

/// Folding keeps what a function computes: along any sequence of its
/// blocks, where no block writes a variable twice, the folded function
/// writes the same values from any starting values, runs the same calls,
/// effects and stores on them, and each block leaves for the same place.
pub proof fn law_const_fold_function_keeps_meaning(f: TirFunction, g: TirFunction, path: Seq<int>, env: ValEnv)
    requires
        g.blocks@.len() == f.blocks@.len(),
        forall|i: int| 0 <= i < f.blocks@.len() ==> block_folded(#[trigger] f.blocks@[i], g.blocks@[i]),
        forall|i: int| 0 <= i < f.blocks@.len() ==> single_assignment(#[trigger] f.blocks@[i].instructions@),
        forall|k: int| 0 <= k < path.len() ==> 0 <= #[trigger] path[k] < f.blocks@.len(),
    ensures
        run_path(g.blocks@, path, env) == run_path(f.blocks@, path, env),
        forall|k: int| 0 <= k < path.len() ==> #[trigger] same_exit(
            f.blocks@[path[k]].terminator,
            g.blocks@[path[k]].terminator,
            run_path(f.blocks@, path.take(k + 1), env),
        ),
    decreases path.len(),
{
    if path.len() > 0 {
        let p = path.drop_last();
        law_const_fold_function_keeps_meaning(f, g, p, env);
        let j = path.last();
        let e = run_path(f.blocks@, p, env);
        assert(block_folded(f.blocks@[j], g.blocks@[j]));
        assert(single_assignment(f.blocks@[j].instructions@));
        law_const_fold_keeps_meaning(f.blocks@[j], g.blocks@[j], e);
        assert forall|k: int| 0 <= k < path.len() implies #[trigger] same_exit(
            f.blocks@[path[k]].terminator,
            g.blocks@[path[k]].terminator,
            run_path(f.blocks@, path.take(k + 1), env),
        ) by {
            if k < path.len() - 1 {
                assert(path.take(k + 1) =~= p.take(k + 1));
                assert(path[k] == p[k]);
                assert(same_exit(
                    f.blocks@[p[k]].terminator,
                    g.blocks@[p[k]].terminator,
                    run_path(f.blocks@, p.take(k + 1), env),
                ));
            } else {
                assert(path.take(k + 1) =~= path);
            }
        }
    }
}

/// Folding two integers computes what the operator means on them: each
/// comparison its relation between the two values, `+` and `-` the sum and
/// difference wrapped into `i64` (off by 2^64 at most), and `*` the product
/// up to a multiple of 2^64.
pub proof fn law_fold_int_operators(op: BinOp, l: i64, r: i64)
    ensures
        op is Eq ==> fold_binop(op, TirConstant::Int(l), TirConstant::Int(r)) == Some(TirConstant::Bool(l == r)),
        op is NotEq ==> fold_binop(op, TirConstant::Int(l), TirConstant::Int(r)) == Some(TirConstant::Bool(l != r)),
        op is Lt ==> fold_binop(op, TirConstant::Int(l), TirConstant::Int(r)) == Some(TirConstant::Bool(l < r)),
        op is LtEq ==> fold_binop(op, TirConstant::Int(l), TirConstant::Int(r)) == Some(TirConstant::Bool(l <= r)),
        op is Gt ==> fold_binop(op, TirConstant::Int(l), TirConstant::Int(r)) == Some(TirConstant::Bool(l > r)),
        op is GtEq ==> fold_binop(op, TirConstant::Int(l), TirConstant::Int(r)) == Some(TirConstant::Bool(l >= r)),
        op is Add ==> (fold_binop(op, TirConstant::Int(l), TirConstant::Int(r)) matches Some(TirConstant::Int(v)) && (
        v == l + r || v == l + r - 0x1_0000_0000_0000_0000 || v == l + r + 0x1_0000_0000_0000_0000)),
        op is Sub ==> (fold_binop(op, TirConstant::Int(l), TirConstant::Int(r)) matches Some(TirConstant::Int(v)) && (
        v == l - r || v == l - r - 0x1_0000_0000_0000_0000 || v == l - r + 0x1_0000_0000_0000_0000)),
        op is Mul ==> (fold_binop(op, TirConstant::Int(l), TirConstant::Int(r)) matches Some(TirConstant::Int(v)) && (v
            - l * r) % 0x1_0000_0000_0000_0000 == 0),
        op is And || op is Or ==> fold_binop(op, TirConstant::Int(l), TirConstant::Int(r)) is None,
{
    if op is Mul {
        let x = l * r;
        let m = x % 0x1_0000_0000_0000_0000;
        vstd::arithmetic::div_mod::lemma_fundamental_div_mod(x, 0x1_0000_0000_0000_0000);
        let v = l.wrapping_mul(r);
        if m > i64::MAX {
            assert(v == m - 0x1_0000_0000_0000_0000);
            vstd::arithmetic::div_mod::lemma_mod_multiples_vanish(
                -(x / 0x1_0000_0000_0000_0000) - 1,
                0,
                0x1_0000_0000_0000_0000,
            );
        } else {
            assert(v == m);
            vstd::arithmetic::div_mod::lemma_mod_multiples_vanish(-(x / 0x1_0000_0000_0000_0000), 0, 0x1_0000_0000_0000_0000);
        }
        assert((v - l * r) % 0x1_0000_0000_0000_0000 == 0) by (nonlinear_arith)
            requires
                x == l * r,
                x == 0x1_0000_0000_0000_0000 * (x / 0x1_0000_0000_0000_0000) + m,
                v == m || v == m - 0x1_0000_0000_0000_0000,
        {
            vstd::arithmetic::div_mod::lemma_mod_multiples_vanish(-(x / 0x1_0000_0000_0000_0000), 0, 0x1_0000_0000_0000_0000);
            vstd::arithmetic::div_mod::lemma_mod_multiples_vanish(-(x / 0x1_0000_0000_0000_0000) - 1, 0, 0x1_0000_0000_0000_0000);
        }
    }
}

/// Folding two booleans computes what the operator means on them.
pub proof fn law_fold_bool_operators(op: BinOp, l: bool, r: bool)
    ensures
        op is And ==> fold_binop(op, TirConstant::Bool(l), TirConstant::Bool(r)) == Some(TirConstant::Bool(l && r)),
        op is Or ==> fold_binop(op, TirConstant::Bool(l), TirConstant::Bool(r)) == Some(TirConstant::Bool(l || r)),
        op is Eq ==> fold_binop(op, TirConstant::Bool(l), TirConstant::Bool(r)) == Some(TirConstant::Bool(l == r)),
        op is NotEq ==> fold_binop(op, TirConstant::Bool(l), TirConstant::Bool(r)) == Some(TirConstant::Bool(l != r)),
{
}

/// Folding a division of two integers gives the quotient rounded toward
/// zero: the remainder it leaves is smaller than the divisor and has the
/// dividend's sign; division by zero does not fold.
pub proof fn law_fold_division(l: i64, r: i64)
    requires
        !(l == i64::MIN && r == -1),
    ensures
        r == 0 ==> fold_binop(BinOp::Div, TirConstant::Int(l), TirConstant::Int(r)) is None,
        r != 0 ==> (fold_binop(BinOp::Div, TirConstant::Int(l), TirConstant::Int(r)) matches Some(TirConstant::Int(q))
            && ({
            let rem = l - q * r;
            &&& abs_int(rem) < abs_int(r as int)
            &&& (rem == 0 || (rem > 0) == (l > 0))
        })),
{
    if r != 0 {
        let al = abs_int(l as int);
        let ar = abs_int(r as int);
        let d = al / ar;
        let m = al % ar;
        vstd::arithmetic::div_mod::lemma_fundamental_div_mod(al, ar);
        assert(0 <= m < ar) by {
            vstd::arithmetic::div_mod::lemma_mod_bound(al, ar);
        }
        assert(0 <= d) by {
            vstd::arithmetic::div_mod::lemma_div_pos_is_pos(al, ar);
        }
        assert(d <= al) by {
            vstd::arithmetic::div_mod::lemma_div_is_ordered_by_denominator(al, 1, ar);
        }
        let t = trunc_div(l as int, r as int);
        if (l >= 0) == (r >= 0) {
            assert(t == d);
            assert(l - t * r == (if l >= 0 { m } else { -m })) by (nonlinear_arith)
                requires
                    al == ar * d + m,
                    t == d,
                    (l >= 0) == (r >= 0),
                    al == (if l < 0 { -l } else { l as int }),
                    ar == (if r < 0 { -r } else { r as int }),
            ;
        } else {
            assert(t == -d);
            assert(l - t * r == (if l >= 0 { m } else { -m })) by (nonlinear_arith)
                requires
                    al == ar * d + m,
                    t == -d,
                    (l >= 0) != (r >= 0),
                    al == (if l < 0 { -l } else { l as int }),
                    ar == (if r < 0 { -r } else { r as int }),
            ;
        }
        if al == 0x8000_0000_0000_0000 && (l >= 0) == (r >= 0) {
            assert(ar >= 2);
            vstd::arithmetic::div_mod::lemma_div_is_ordered_by_denominator(al, 2, ar);
            assert(d <= 0x4000_0000_0000_0000);
        }
        assert(i64::MIN <= t <= i64::MAX);
    }
}

} // verus!
