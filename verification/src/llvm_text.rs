use vstd::prelude::*;
use crate::llvm::{escape_llvm_string, llvm_escaped, llvm_type, slot_name, type_to_llvm, utf8_bytes, var_to_slot_name};
use crate::relational::BinOp;
use crate::text::{
    dv, join, join_exec, chars_eq, extend_chars, extend_lit, i64_decimal, int_decimal, nat_decimal, str_chars,
    strip_lead_char, strip_lead_char_exec, u64_decimal,
};
use crate::tir::{same_var, Instruction, Operand, RValue, Terminator, TirBlock, TirConstant, TirFunction, TirModule, Var};
use crate::types::Type;

verus! {

/// What the emitter has produced so far: the interned string literals, in
/// the order they were first met, the number of temporaries handed out,
/// and the text written.
pub type EmitState = (Seq<Seq<char>>, nat, Seq<char>);

/// The index of `s` among the interned literals, interning it at the end
/// when it is new.
pub open spec fn intern_spec(strings: Seq<Seq<char>>, s: Seq<char>) -> (Seq<Seq<char>>, nat) {
    if exists|i: int| 0 <= i < strings.len() && strings[i] == s {
        (strings, first_index(strings, s) as nat)
    } else {
        (strings.push(s), strings.len())
    }
}

/// The first position of `s` in `strings`, where it occurs.
pub open spec fn first_index(strings: Seq<Seq<char>>, s: Seq<char>) -> int {
    choose|i: int|
        0 <= i < strings.len() && strings[i] == s && forall|k: int| 0 <= k < i ==> strings[k] != s
}

/// The name of the `n`th temporary: `%t` and its number.
pub open spec fn temp_name(n: nat) -> Seq<char> {
    "%t"@ + nat_decimal(n)
}

/// Whether a variable name refers to a function of the module or to one
/// declared in an extern block (leading `_`s ignored).
pub open spec fn refers_to_fn(fns: Seq<Seq<char>>, externs: Seq<Seq<char>>, name: Seq<char>) -> bool {
    fns.contains(strip_lead_char(name, '_')) || externs.contains(strip_lead_char(name, '_'))
}

/// The LLVM type recorded for a variable of the function being emitted, or
/// the type of its Tungsten type when none is recorded.
pub open spec fn lookup_var_ty(vt: Seq<(Var, Seq<char>)>, v: Var, ty: Type) -> Seq<char>
    decreases vt.len(),
{
    if vt.len() == 0 {
        llvm_type(ty)
    } else if same_var(vt[0].0, v) {
        vt[0].1
    } else {
        lookup_var_ty(vt.drop_first(), v, ty)
    }
}

/// The LLVM type of an operand.
pub open spec fn operand_ty(
    fns: Seq<Seq<char>>,
    externs: Seq<Seq<char>>,
    vt: Seq<(Var, Seq<char>)>,
    op: Operand,
) -> Seq<char> {
    match op {
        Operand::Var(v, ty) => match v {
            Var::Named(n) => if refers_to_fn(fns, externs, n@) {
                "ptr"@
            } else {
                lookup_var_ty(vt, v, ty)
            },
            Var::Temp(_) => lookup_var_ty(vt, v, ty),
        },
        Operand::Constant(TirConstant::Str(_)) => "ptr"@,
        _ => "i64"@,
    }
}

/// The line loading a variable's slot into temporary `t`.
pub open spec fn load_line(t: Seq<char>, ty: Seq<char>, v: Var) -> Seq<char> {
    "    "@ + t + " = load "@ + ty + ", ptr "@ + slot_name(v) + "\n"@
}

/// Emitting an operand: constants are written in place (a string literal
/// as its interned global), a function is named as a global, and any other
/// variable is loaded from its slot into a fresh temporary.
#[verifier::opaque]
pub open spec fn operand_emit(
    fns: Seq<Seq<char>>,
    externs: Seq<Seq<char>>,
    vt: Seq<(Var, Seq<char>)>,
    st: EmitState,
    op: Operand,
) -> (EmitState, Seq<char>) {
    match op {
        Operand::Constant(TirConstant::Int(n)) => (st, int_decimal(n as int)),
        Operand::Constant(TirConstant::Bool(b)) => (st, if b { "1"@ } else { "0"@ }),
        Operand::Constant(TirConstant::Unit) => (st, "0"@),
        Operand::Constant(TirConstant::Str(s)) => {
            let (strs, i) = intern_spec(st.0, s@);
            ((strs, st.1, st.2), "@str_"@ + nat_decimal(i))
        },
        Operand::Var(v, ty) => {
            if v is Named && refers_to_fn(fns, externs, v->Named_0@) {
                (st, "@"@ + strip_lead_char(v->Named_0@, '_'))
            } else {
                let t = temp_name(st.1);
                ((st.0, st.1 + 1, st.2 + load_line(t, lookup_var_ty(vt, v, ty), v)), t)
            }
        },
    }
}

/// Whether an LLVM type is one of the narrow integer types.
pub open spec fn is_narrow(t: Seq<char>) -> bool {
    t == "i8"@ || t == "i16"@ || t == "i32"@
}

/// Converting a value from one LLVM type to another: truncation, zero
/// extension, or a pointer-integer cast into a fresh temporary; the value
/// itself where the types agree or no cast applies.
#[verifier::opaque]
pub open spec fn coerce_emit(st: EmitState, val: Seq<char>, from: Seq<char>, to: Seq<char>) -> (EmitState, Seq<char>) {
    let t = temp_name(st.1);
    if from == to {
        (st, val)
    } else if from == "i64"@ && is_narrow(to) {
        ((st.0, st.1 + 1, st.2 + "    "@ + t + " = trunc i64 "@ + val + " to "@ + to + "\n"@), t)
    } else if is_narrow(from) && to == "i64"@ {
        ((st.0, st.1 + 1, st.2 + "    "@ + t + " = zext "@ + from + " "@ + val + " to i64\n"@), t)
    } else if from == "ptr"@ && to == "i64"@ {
        ((st.0, st.1 + 1, st.2 + "    "@ + t + " = ptrtoint ptr "@ + val + " to i64\n"@), t)
    } else if from == "i64"@ && to == "ptr"@ {
        ((st.0, st.1 + 1, st.2 + "    "@ + t + " = inttoptr i64 "@ + val + " to ptr\n"@), t)
    } else {
        (st, val)
    }
}

/// The LLVM instruction of a binary operator on `i64`s.
pub open spec fn binop_text(op: BinOp) -> Seq<char> {
    match op {
        BinOp::Add => "add i64"@,
        BinOp::Sub => "sub i64"@,
        BinOp::Mul => "mul i64"@,
        BinOp::Div => "sdiv i64"@,
        BinOp::Eq => "icmp eq i64"@,
        BinOp::NotEq => "icmp ne i64"@,
        BinOp::Lt => "icmp slt i64"@,
        BinOp::LtEq => "icmp sle i64"@,
        BinOp::Gt => "icmp sgt i64"@,
        BinOp::GtEq => "icmp sge i64"@,
        BinOp::And => "and i64"@,
        BinOp::Or => "or i64"@,
    }
}

/// What an LLVM `icmp` predicate computes on two `i64` values: `eq`, `ne`,
/// the signed `slt`, `sle`, `sgt`, `sge` and the unsigned `ult`, `ule`,
/// `ugt`, `uge` (which compare the values modulo 2^64).
pub open spec fn predicate_holds(pred: Seq<char>, a: int, b: int) -> Option<bool> {
    let ua = if a < 0 { a + 0x1_0000_0000_0000_0000 } else { a };
    let ub = if b < 0 { b + 0x1_0000_0000_0000_0000 } else { b };
    if pred == "eq"@ {
        Some(a == b)
    } else if pred == "ne"@ {
        Some(a != b)
    } else if pred == "slt"@ {
        Some(a < b)
    } else if pred == "sle"@ {
        Some(a <= b)
    } else if pred == "sgt"@ {
        Some(a > b)
    } else if pred == "sge"@ {
        Some(a >= b)
    } else if pred == "ult"@ {
        Some(ua < ub)
    } else if pred == "ule"@ {
        Some(ua <= ub)
    } else if pred == "ugt"@ {
        Some(ua > ub)
    } else if pred == "uge"@ {
        Some(ua >= ub)
    } else {
        None
    }
}

/// A comparison emitted for a source operator computes that operator: its
/// instruction is `icmp <pred> i64`, and `<pred>` holds of two `i64` values
/// exactly when the operator's relation does.
pub proof fn law_comparison_predicate(op: BinOp, a: i64, b: i64)
    requires
        op is Eq || op is NotEq || op is Lt || op is LtEq || op is Gt || op is GtEq,
    ensures
        binop_text(op).len() > 9,
        binop_text(op).subrange(0, 5) == "icmp "@,
        binop_text(op).subrange(binop_text(op).len() - 4, binop_text(op).len() as int) == " i64"@,
        predicate_holds(binop_text(op).subrange(5, binop_text(op).len() - 4), a as int, b as int) == Some(
            match op {
                BinOp::Eq => a == b,
                BinOp::NotEq => a != b,
                BinOp::Lt => a < b,
                BinOp::LtEq => a <= b,
                BinOp::Gt => a > b,
                _ => a >= b,
            },
        ),
{
    reveal_strlit("icmp ");
    reveal_strlit(" i64");
    reveal_strlit("eq");
    reveal_strlit("ne");
    reveal_strlit("slt");
    reveal_strlit("sle");
    reveal_strlit("sgt");
    reveal_strlit("sge");
    reveal_strlit("ult");
    reveal_strlit("ule");
    reveal_strlit("ugt");
    reveal_strlit("uge");
    reveal_strlit("icmp eq i64");
    reveal_strlit("icmp ne i64");
    reveal_strlit("icmp slt i64");
    reveal_strlit("icmp sle i64");
    reveal_strlit("icmp sgt i64");
    reveal_strlit("icmp sge i64");
    assert("icmp "@ =~= seq!['i', 'c', 'm', 'p', ' ']);
    assert(" i64"@ =~= seq![' ', 'i', '6', '4']);
    match op {
        BinOp::Eq => {
            assert(binop_text(op) =~= seq!['i', 'c', 'm', 'p', ' ', 'e', 'q', ' ', 'i', '6', '4']);
            assert(binop_text(op).subrange(5, binop_text(op).len() - 4) =~= seq!['e', 'q']);
            assert("eq"@ =~= seq!['e', 'q']);
        },
        BinOp::NotEq => {
            assert(binop_text(op) =~= seq!['i', 'c', 'm', 'p', ' ', 'n', 'e', ' ', 'i', '6', '4']);
            assert(binop_text(op).subrange(5, binop_text(op).len() - 4) =~= seq!['n', 'e']);
            assert("ne"@ =~= seq!['n', 'e']);
        },
        BinOp::Lt => {
            assert(binop_text(op) =~= seq!['i', 'c', 'm', 'p', ' ', 's', 'l', 't', ' ', 'i', '6', '4']);
            assert(binop_text(op).subrange(5, binop_text(op).len() - 4) =~= seq!['s', 'l', 't']);
            assert("slt"@ =~= seq!['s', 'l', 't']);
        },
        BinOp::LtEq => {
            assert(binop_text(op) =~= seq!['i', 'c', 'm', 'p', ' ', 's', 'l', 'e', ' ', 'i', '6', '4']);
            assert(binop_text(op).subrange(5, binop_text(op).len() - 4) =~= seq!['s', 'l', 'e']);
            assert("sle"@ =~= seq!['s', 'l', 'e']);
        },
        BinOp::Gt => {
            assert(binop_text(op) =~= seq!['i', 'c', 'm', 'p', ' ', 's', 'g', 't', ' ', 'i', '6', '4']);
            assert(binop_text(op).subrange(5, binop_text(op).len() - 4) =~= seq!['s', 'g', 't']);
            assert("sgt"@ =~= seq!['s', 'g', 't']);
        },
        BinOp::GtEq => {
            assert(binop_text(op) =~= seq!['i', 'c', 'm', 'p', ' ', 's', 'g', 'e', ' ', 'i', '6', '4']);
            assert(binop_text(op).subrange(5, binop_text(op).len() - 4) =~= seq!['s', 'g', 'e']);
            assert("sge"@ =~= seq!['s', 'g', 'e']);
        },
        _ => {},
    }
}

/// Whether a binary operator is a comparison.
pub open spec fn is_comparison(op: BinOp) -> bool {
    match op {
        BinOp::Eq | BinOp::NotEq | BinOp::Lt | BinOp::LtEq | BinOp::Gt | BinOp::GtEq => true,
        _ => false,
    }
}

/// Emitting a binary operation: both operands are emitted and widened to
/// `i64`, the operation is written into a fresh temporary, and a comparison
/// is widened from `i1` into a second one.
pub open spec fn binop_emit(
    fns: Seq<Seq<char>>,
    externs: Seq<Seq<char>>,
    vt: Seq<(Var, Seq<char>)>,
    st: EmitState,
    op: BinOp,
    l: Operand,
    r: Operand,
) -> (EmitState, Seq<char>) {
    let (s1, lv) = operand_emit(fns, externs, vt, st, l);
    let (s2, lw) = coerce_emit(s1, lv, operand_ty(fns, externs, vt, l), "i64"@);
    let (s3, rv) = operand_emit(fns, externs, vt, s2, r);
    let (s4, rw) = coerce_emit(s3, rv, operand_ty(fns, externs, vt, r), "i64"@);
    let t = temp_name(s4.1);
    if is_comparison(op) {
        let c = temp_name(s4.1 + 1);
        (
            (
                s4.0,
                s4.1 + 2,
                s4.2 + "    "@ + c + " = "@ + binop_text(op) + " "@ + lw + ", "@ + rw + "\n"@ + "    "@ + t
                    + " = zext i1 "@ + c + " to i64\n"@,
            ),
            t,
        )
    } else {
        ((s4.0, s4.1 + 1, s4.2 + "    "@ + t + " = "@ + binop_text(op) + " "@ + lw + ", "@ + rw + "\n"@), t)
    }
}

/// The label of a block.
pub open spec fn block_label(id: u32) -> Seq<char> {
    "%bb"@ + nat_decimal(id as nat)
}

/// Emitting a terminator of a block of a function returning `ret_ty`
/// (`main` returns `i32`).
#[verifier::opaque]
pub open spec fn terminator_emit(
    fns: Seq<Seq<char>>,
    externs: Seq<Seq<char>>,
    vt: Seq<(Var, Seq<char>)>,
    st: EmitState,
    term: Terminator,
    is_main: bool,
    ret_ty: Type,
) -> EmitState {
    match term {
        Terminator::Return(Some(op)) => {
            let (s1, v) = operand_emit(fns, externs, vt, st, op);
            let from = operand_ty(fns, externs, vt, op);
            if is_main {
                let (s2, c) = coerce_emit(s1, v, from, "i32"@);
                (s2.0, s2.1, s2.2 + "    ret i32 "@ + c + "\n"@)
            } else if ret_ty is Unit {
                (s1.0, s1.1, s1.2 + "    ret void\n"@)
            } else {
                let (s2, c) = coerce_emit(s1, v, from, llvm_type(ret_ty));
                (s2.0, s2.1, s2.2 + "    ret "@ + llvm_type(ret_ty) + " "@ + c + "\n"@)
            }
        },
        Terminator::Return(None) => (st.0, st.1, st.2 + if is_main { "    ret i32 0\n"@ } else { "    ret void\n"@ }),
        Terminator::Branch(target) => (st.0, st.1, st.2 + "    br label "@ + block_label(target.0) + "\n"@),
        Terminator::BranchCond { cond, then_block, else_block } => {
            let (s1, v) = operand_emit(fns, externs, vt, st, cond);
            let cty = operand_ty(fns, externs, vt, cond);
            let (s2, c) = if cty == "i1"@ {
                (s1, v)
            } else {
                let t = temp_name(s1.1);
                ((s1.0, s1.1 + 1, s1.2 + "    "@ + t + " = icmp ne "@ + cty + " "@ + v + ", 0\n"@), t)
            };
            (
                s2.0,
                s2.1,
                s2.2 + "    br i1 "@ + c + ", label "@ + block_label(then_block.0) + ", label "@
                    + block_label(else_block.0) + "\n"@,
            )
        },
        Terminator::HandleEffect { body_entry, .. } => (st.0, st.1, st.2 + "    br label "@ + block_label(body_entry.0) + "\n"@),
        Terminator::Resume { continuation_block, .. } => (
            st.0,
            st.1,
            st.2 + "    br label "@ + block_label(continuation_block.0) + "\n"@,
        ),
        Terminator::Unreachable => (st.0, st.1, st.2 + "    unreachable\n"@),
    }
}

/// Emitting a refinement check: the operand, widened to `i64`, is compared
/// against both bounds, and a value outside them branches to a block that
/// reports it and stops; the code after continues in a fresh block.
#[verifier::opaque]
pub open spec fn assert_refinement_emit(
    fns: Seq<Seq<char>>,
    externs: Seq<Seq<char>>,
    vt: Seq<(Var, Seq<char>)>,
    st: EmitState,
    operand: Operand,
    min: i64,
    max: i64,
) -> EmitState {
    let (s1, v) = operand_emit(fns, externs, vt, st, operand);
    let ty = operand_ty(fns, externs, vt, operand);
    let (s2, w) = if ty == "i64"@ {
        (s1, v)
    } else {
        let t = temp_name(s1.1);
        ((s1.0, s1.1 + 1, s1.2 + "    "@ + t + " = zext "@ + ty + " "@ + v + " to i64\n"@), t)
    };
    (s2.0, s2.1 + 3, s2.2 + refinement_check_text(
        temp_name(s2.1),
        temp_name(s2.1 + 1),
        temp_name(s2.1 + 2),
        nat_decimal(s2.1 + 3),
        w,
        int_decimal(min as int),
        int_decimal(max as int),
    ))
}

/// The lines of a refinement check on `w`, with temporaries `lo`, `hi` and
/// `err` and blocks numbered `id`.
pub open spec fn refinement_check_text(
    lo: Seq<char>,
    hi: Seq<char>,
    err: Seq<char>,
    id: Seq<char>,
    w: Seq<char>,
    lo_s: Seq<char>,
    hi_s: Seq<char>,
) -> Seq<char> {
    "    "@ + lo + " = icmp slt i64 "@ + w + ", "@ + lo_s + "\n"@ + "    "@ + hi + " = icmp sgt i64 "@ + w
        + ", "@ + hi_s + "\n"@ + "    "@ + err + " = or i1 "@ + lo + ", "@ + hi + "\n"@ + "    br i1 "@ + err
        + ", label %panic_"@ + id + ", label %cont_"@ + id + "\n"@ + "panic_"@ + id + ":\n"@
        + "    call void @tungsten_refinement_panic(i64 "@ + w + ", i64 "@ + lo_s + ", i64 "@ + hi_s + ")\n"@
        + "    unreachable\n"@ + "cont_"@ + id + ":\n"@
}


/// Emitting a cast of an operand to a Tungsten type: the operand converted
/// to the LLVM type of `target`, and that type.
#[verifier::opaque]
pub open spec fn cast_emit(
    fns: Seq<Seq<char>>,
    externs: Seq<Seq<char>>,
    vt: Seq<(Var, Seq<char>)>,
    st: EmitState,
    operand: Operand,
    target: Type,
) -> (EmitState, Seq<char>, Seq<char>) {
    let (s1, v) = operand_emit(fns, externs, vt, st, operand);
    let (s2, c) = coerce_emit(s1, v, operand_ty(fns, externs, vt, operand), llvm_type(target));
    (s2, c, llvm_type(target))
}

/// Emitting a load through a pointer operand, of a value of Tungsten type
/// `ty`: the loaded temporary and its LLVM type.
#[verifier::opaque]
pub open spec fn deref_emit(
    fns: Seq<Seq<char>>,
    externs: Seq<Seq<char>>,
    vt: Seq<(Var, Seq<char>)>,
    st: EmitState,
    operand: Operand,
    ty: Type,
) -> (EmitState, Seq<char>, Seq<char>) {
    let (s1, v) = operand_emit(fns, externs, vt, st, operand);
    let (s2, p) = coerce_emit(s1, v, operand_ty(fns, externs, vt, operand), "ptr"@);
    let t = temp_name(s2.1);
    ((s2.0, s2.1 + 1, s2.2 + ("    "@ + t + " = load "@ + llvm_type(ty) + ", ptr "@ + p + "\n"@)), t, llvm_type(ty))
}

/// Emitting a load of an `i64` at byte `offset` past a pointer operand
/// (`None`: at the pointer itself, with no address computation).
#[verifier::opaque]
pub open spec fn load_at_emit(
    fns: Seq<Seq<char>>,
    externs: Seq<Seq<char>>,
    vt: Seq<(Var, Seq<char>)>,
    st: EmitState,
    target: Operand,
    offset: Option<nat>,
) -> (EmitState, Seq<char>) {
    let (s1, v) = operand_emit(fns, externs, vt, st, target);
    let (s2, p) = coerce_emit(s1, v, operand_ty(fns, externs, vt, target), "ptr"@);
    match offset {
        None => {
            let t = temp_name(s2.1);
            ((s2.0, s2.1 + 1, s2.2 + ("    "@ + t + " = load i64, ptr "@ + p + "\n"@)), t)
        },
        Some(off) => {
            let g = temp_name(s2.1);
            let t = temp_name(s2.1 + 1);
            (
                (
                    s2.0,
                    s2.1 + 2,
                    s2.2 + ("    "@ + g + " = getelementptr inbounds i8, ptr "@ + p + ", i64 "@ + nat_decimal(off)
                        + "\n"@ + "    "@ + t + " = load i64, ptr "@ + g + "\n"@),
                ),
                t,
            )
        },
    }
}

/// Emitting the address of an operand: a variable's slot, a literal's
/// global, or a fresh stack slot holding any other constant.
#[verifier::opaque]
pub open spec fn address_emit(
    fns: Seq<Seq<char>>,
    externs: Seq<Seq<char>>,
    vt: Seq<(Var, Seq<char>)>,
    st: EmitState,
    operand: Operand,
) -> (EmitState, Seq<char>) {
    match operand {
        Operand::Var(v, _) => (st, slot_name(v)),
        Operand::Constant(TirConstant::Str(s)) => {
            let (strs, i) = intern_spec(st.0, s@);
            ((strs, st.1, st.2), "@str_"@ + nat_decimal(i))
        },
        _ => {
            let (s1, v) = operand_emit(fns, externs, vt, st, operand);
            let ty = operand_ty(fns, externs, vt, operand);
            let t = temp_name(s1.1);
            (
                (
                    s1.0,
                    s1.1 + 1,
                    s1.2 + "    "@ + t + " = alloca "@ + ty + "\n"@ + "    store "@ + ty + " "@ + v + ", ptr "@ + t
                        + "\n"@,
                ),
                t,
            )
        },
    }
}


/// The LLVM type of an array element of `stride` bytes.
pub open spec fn elem_type(stride: nat) -> Seq<char> {
    if stride == 1 {
        "i8"@
    } else if stride == 2 {
        "i16"@
    } else if stride == 4 {
        "i32"@
    } else {
        "i64"@
    }
}

/// Emitting an element read `target[index]` of an array with `stride`-byte
/// elements (at least one byte): the address is computed, the element
/// loaded and widened to `i64`.
#[verifier::opaque]
pub open spec fn array_index_emit(
    fns: Seq<Seq<char>>,
    externs: Seq<Seq<char>>,
    vt: Seq<(Var, Seq<char>)>,
    st: EmitState,
    target: Operand,
    index: Operand,
    stride: nat,
) -> (EmitState, Seq<char>) {
    let (s1, tv) = operand_emit(fns, externs, vt, st, target);
    let (s2, tp) = coerce_emit(s1, tv, operand_ty(fns, externs, vt, target), "ptr"@);
    let (s3, iv) = operand_emit(fns, externs, vt, s2, index);
    let (s4, iw) = coerce_emit(s3, iv, operand_ty(fns, externs, vt, index), "i64"@);
    array_elem_emit(s4, tp, iw, if stride == 0 { 1nat } else { stride })
}

/// Emitting the read of the element at index value `iw` of the array at
/// `tp`, with elements `sz` bytes apart.
#[verifier::opaque]
pub open spec fn array_elem_emit(s4: EmitState, tp: Seq<char>, iw: Seq<char>, sz: nat) -> (EmitState, Seq<char>) {
    let (s5, off) = if sz == 1 {
        (s4, iw)
    } else {
        let m = temp_name(s4.1);
        ((s4.0, s4.1 + 1, s4.2 + ("    "@ + m + " = mul i64 "@ + iw + ", "@ + nat_decimal(sz) + "\n"@)), m)
    };
    let g = temp_name(s5.1);
    let l = temp_name(s5.1 + 1);
    let et = elem_type(sz);
    let s6 = (
        s5.0,
        s5.1 + 2,
        s5.2 + ("    "@ + g + " = getelementptr inbounds i8, ptr "@ + tp + ", i64 "@ + off + "\n"@ + "    "@ + l
            + " = load "@ + et + ", ptr "@ + g + "\n"@),
    );
    if sz < 8 {
        let x = temp_name(s6.1);
        ((s6.0, s6.1 + 1, s6.2 + ("    "@ + x + " = zext "@ + et + " "@ + l + " to i64\n"@)), x)
    } else {
        (s6, l)
    }
}


/// An optional argument emitted, or a default text when it is absent, with
/// its LLVM type (`i64` when absent).
#[verifier::opaque]
pub open spec fn opt_arg_emit(
    fns: Seq<Seq<char>>,
    externs: Seq<Seq<char>>,
    vt: Seq<(Var, Seq<char>)>,
    st: EmitState,
    args: Seq<Operand>,
    i: int,
    default: Seq<char>,
) -> (EmitState, Seq<char>, Seq<char>) {
    if i < args.len() {
        let (s1, v) = operand_emit(fns, externs, vt, st, args[i]);
        (s1, v, operand_ty(fns, externs, vt, args[i]))
    } else {
        (st, default, "i64"@)
    }
}

/// Emitting `nursery.spawn(f, a1, a2)`: the nursery pointer, the function
/// and two `i64` arguments (absent ones `null` and `0`) are handed to the
/// runtime's spawn routine.
#[verifier::opaque]
pub open spec fn spawn_emit(
    fns: Seq<Seq<char>>,
    externs: Seq<Seq<char>>,
    vt: Seq<(Var, Seq<char>)>,
    s2: EmitState,
    tv: Seq<char>,
    tt: Seq<char>,
    args: Seq<Operand>,
) -> (EmitState, Seq<char>) {
    let (s3, np) = if tt == "ptr"@ {
        (s2, tv)
    } else {
        let t = temp_name(s2.1);
        ((s2.0, s2.1 + 1, s2.2 + ("    "@ + t + " = inttoptr "@ + tt + " "@ + tv + " to ptr\n"@)), t)
    };
    let (s4, fa, _ft) = opt_arg_emit(fns, externs, vt, s3, args, 0, "null"@);
    let (s5, a1v, a1t) = opt_arg_emit(fns, externs, vt, s4, args, 1, "0"@);
    let (s6, a1) = coerce_emit(s5, a1v, a1t, "i64"@);
    let (s7, a2v, a2t) = opt_arg_emit(fns, externs, vt, s6, args, 2, "0"@);
    let (s8, a2) = coerce_emit(s7, a2v, a2t, "i64"@);
    let r = temp_name(s8.1);
    (
        (
            s8.0,
            s8.1 + 1,
            s8.2 + ("    "@ + r + " = call i64 @tungsten_nursery_spawn(ptr "@ + np + ", ptr "@ + fa + ", i64 "@ + a1
                + ", i64 "@ + a2 + ")\n"@),
        ),
        r,
    )
}

/// Emitting `x.saturating_add(d)` on `i64` value `ti`: the sum, capped at 100.
#[verifier::opaque]
pub open spec fn saturating_add_emit(
    fns: Seq<Seq<char>>,
    externs: Seq<Seq<char>>,
    vt: Seq<(Var, Seq<char>)>,
    s2: EmitState,
    ti: Seq<char>,
    delta: Operand,
) -> (EmitState, Seq<char>) {
    let (s3, dv) = operand_emit(fns, externs, vt, s2, delta);
    let (s4, di) = coerce_emit(s3, dv, operand_ty(fns, externs, vt, delta), "i64"@);
    let sum = temp_name(s4.1);
    let c = temp_name(s4.1 + 1);
    let sel = temp_name(s4.1 + 2);
    (
        (
            s4.0,
            s4.1 + 3,
            s4.2 + ("    "@ + sum + " = add i64 "@ + ti + ", "@ + di + "\n"@ + "    "@ + c + " = icmp sgt i64 "@ + sum
                + ", 100\n"@ + "    "@ + sel + " = select i1 "@ + c + ", i64 100, i64 "@ + sum + "\n"@),
        ),
        sel,
    )
}

/// Emitting a method call: `spawn` on a nursery and `saturating_add` with
/// one argument are lowered; any other method gives its receiver as an
/// `i64`.
#[verifier::opaque]
pub open spec fn method_call_emit(
    fns: Seq<Seq<char>>,
    externs: Seq<Seq<char>>,
    vt: Seq<(Var, Seq<char>)>,
    st: EmitState,
    target: Operand,
    method: Seq<char>,
    args: Seq<Operand>,
) -> (EmitState, Seq<char>) {
    let (s1, tv) = operand_emit(fns, externs, vt, st, target);
    let tt = operand_ty(fns, externs, vt, target);
    let (s2, ti) = coerce_emit(s1, tv, tt, "i64"@);
    if method == "spawn"@ {
        spawn_emit(fns, externs, vt, s2, tv, tt, args)
    } else if method == "saturating_add"@ && args.len() == 1 {
        saturating_add_emit(fns, externs, vt, s2, ti, args[0])
    } else {
        (s2, ti)
    }
}


/// The operand through which an arena variable is read: the variable, taken
/// as a pointer.
pub open spec fn arena_operand(a: Var) -> Operand {
    Operand::Var(a, Type::String)
}

/// Emitting a heap allocation of `size` bytes into temporary `p`: from the
/// arena when one is given, else from the general allocator.
#[verifier::opaque]
pub open spec fn alloc_emit(
    fns: Seq<Seq<char>>,
    externs: Seq<Seq<char>>,
    vt: Seq<(Var, Seq<char>)>,
    st: EmitState,
    p: Seq<char>,
    size: nat,
    arena: Option<Var>,
) -> EmitState {
    match arena {
        Some(a) => {
            let op = arena_operand(a);
            let (s1, av) = operand_emit(fns, externs, vt, st, op);
            let at = operand_ty(fns, externs, vt, op);
            let (s2, ap) = if at == "ptr"@ {
                (s1, av)
            } else {
                let t = temp_name(s1.1);
                ((s1.0, s1.1 + 1, s1.2 + ("    "@ + t + " = inttoptr "@ + at + " "@ + av + " to ptr\n"@)), t)
            };
            (s2.0, s2.1, s2.2 + ("    "@ + p + " = call ptr @tungsten_region_alloc(ptr "@ + ap + ", i64 "@
                + nat_decimal(size) + ", i64 8)\n"@))
        },
        None => (st.0, st.1, st.2 + ("    "@ + p + " = call ptr @tungsten_alloc(i64 "@ + nat_decimal(size)
            + ", i64 8)\n"@)),
    }
}

/// Emitting the store of one value, converted to `ety`, at byte `off` past `p`.
#[verifier::opaque]
pub open spec fn store_at_emit(
    fns: Seq<Seq<char>>,
    externs: Seq<Seq<char>>,
    vt: Seq<(Var, Seq<char>)>,
    st: EmitState,
    p: Seq<char>,
    op: Operand,
    off: nat,
    ety: Seq<char>,
) -> EmitState {
    let (s1, v) = operand_emit(fns, externs, vt, st, op);
    let (s2, w) = coerce_emit(s1, v, operand_ty(fns, externs, vt, op), ety);
    let g = temp_name(s2.1);
    (s2.0, s2.1 + 1, s2.2 + ("    "@ + g + " = getelementptr inbounds i8, ptr "@ + p + ", i64 "@ + nat_decimal(off)
        + "\n"@ + "    store "@ + ety + " "@ + w + ", ptr "@ + g + "\n"@))
}

/// Emitting the stores of the first `k` values of `ops`, the `i`th at byte
/// `base + i * stride` past `p`.
pub open spec fn stores_emit(
    fns: Seq<Seq<char>>,
    externs: Seq<Seq<char>>,
    vt: Seq<(Var, Seq<char>)>,
    st: EmitState,
    p: Seq<char>,
    ops: Seq<Operand>,
    k: nat,
    base: nat,
    stride: nat,
    ety: Seq<char>,
) -> EmitState
    decreases k,
{
    if k == 0 {
        st
    } else {
        let prev = stores_emit(fns, externs, vt, st, p, ops, (k - 1) as nat, base, stride, ety);
        store_at_emit(fns, externs, vt, prev, p, ops[k - 1], (base + (k - 1) * stride) as nat, ety)
    }
}

/// The operands of a struct's field initialisers.
pub open spec fn field_ops(fields: Seq<(String, Operand)>) -> Seq<Operand> {
    Seq::new(fields.len(), |i: int| fields[i].1)
}

/// Emitting a struct value: `8 * n` bytes (at least 8) allocated, field `i`
/// stored at byte `8 * i`.
pub open spec fn struct_init_emit(
    fns: Seq<Seq<char>>,
    externs: Seq<Seq<char>>,
    vt: Seq<(Var, Seq<char>)>,
    st: EmitState,
    fields: Seq<(String, Operand)>,
    arena: Option<Var>,
) -> (EmitState, Seq<char>) {
    let p = temp_name(st.1);
    let size = if fields.len() * 8 > 8 { fields.len() * 8 } else { 8 };
    let s1 = alloc_emit(fns, externs, vt, (st.0, st.1 + 1, st.2), p, size, arena);
    (stores_emit(fns, externs, vt, s1, p, field_ops(fields), fields.len(), 0, 8, "i64"@), p)
}

/// Emitting an enum value: `8 + 8 * n` bytes allocated, the tag stored at
/// byte 0 and payload value `i` at byte `8 + 8 * i`.
pub open spec fn enum_init_emit(
    fns: Seq<Seq<char>>,
    externs: Seq<Seq<char>>,
    vt: Seq<(Var, Seq<char>)>,
    st: EmitState,
    tag: i64,
    payload: Seq<Operand>,
    arena: Option<Var>,
) -> (EmitState, Seq<char>) {
    let p = temp_name(st.1);
    let s1 = alloc_emit(fns, externs, vt, (st.0, st.1 + 1, st.2), p, 8 + payload.len() * 8, arena);
    let g = temp_name(s1.1);
    let s2 = (s1.0, s1.1 + 1, s1.2 + ("    "@ + g + " = getelementptr inbounds i8, ptr "@ + p + ", i64 0\n"@
        + "    store i64 "@ + int_decimal(tag as int) + ", ptr "@ + g + "\n"@));
    (stores_emit(fns, externs, vt, s2, p, payload, payload.len(), 8, 8, "i64"@), p)
}

/// Emitting an array value: `n * stride` bytes (at least 8; the stride at
/// least 1) allocated, element `i` stored at byte `i * stride` as an
/// integer of the stride's width.
pub open spec fn array_init_emit(
    fns: Seq<Seq<char>>,
    externs: Seq<Seq<char>>,
    vt: Seq<(Var, Seq<char>)>,
    st: EmitState,
    elements: Seq<Operand>,
    elem_stride: nat,
    arena: Option<Var>,
) -> (EmitState, Seq<char>) {
    let sz = if elem_stride == 0 { 1nat } else { elem_stride };
    let p = temp_name(st.1);
    let size = if elements.len() * sz > 8 { elements.len() * sz } else { 8 };
    let s1 = alloc_emit(fns, externs, vt, (st.0, st.1 + 1, st.2), p, size, arena);
    (stores_emit(fns, externs, vt, s1, p, elements, elements.len(), 0, sz, elem_type(sz)), p)
}


/// The byte offset of a field: eight bytes per field before it in the first
/// struct that has a field of that name; without one, 0 for `value` and
/// `name` and 8 for any other field.
pub open spec fn field_offset(structs: Seq<Seq<Seq<char>>>, field: Seq<char>) -> nat
    decreases structs.len(),
{
    if structs.len() == 0 {
        if field == "value"@ || field == "name"@ {
            0
        } else {
            8
        }
    } else if structs[0].contains(field) {
        (first_index(structs[0], field) * 8) as nat
    } else {
        field_offset(structs.drop_first(), field)
    }
}


/// How many values an rvalue stores or passes: what bounds the temporaries
/// it can take.
pub open spec fn rvalue_width(rv: RValue) -> nat {
    match rv {
        RValue::StructInit { fields, .. } => fields@.len(),
        RValue::EnumInit { payload, .. } => payload@.len(),
        RValue::ArrayInit { elements, .. } => elements@.len(),
        _ => 0,
    }
}

/// The sizes and offsets an rvalue computes fit in a `usize`.
pub open spec fn rvalue_fits(rv: RValue) -> bool {
    match rv {
        RValue::StructInit { fields, .. } => fields@.len() * 8 <= usize::MAX,
        RValue::EnumInit { payload, .. } => 8 + payload@.len() * 8 <= usize::MAX,
        RValue::ArrayInit { elements, elem_stride, .. } => elements@.len() * (if elem_stride == 0 {
            1nat
        } else {
            elem_stride as nat
        }) <= usize::MAX,
        RValue::EnumPayload { index, .. } => 8 + index * 8 <= usize::MAX,
        _ => true,
    }
}

/// Emitting the right-hand side of an assignment of type `ty`: the value
/// and its LLVM type.
#[verifier::opaque]
pub open spec fn rvalue_emit(
    fns: Seq<Seq<char>>,
    externs: Seq<Seq<char>>,
    vt: Seq<(Var, Seq<char>)>,
    structs: Seq<Seq<Seq<char>>>,
    st: EmitState,
    rv: RValue,
    ty: Type,
) -> (EmitState, Seq<char>, Seq<char>) {
    match rv {
        RValue::Use(op) => {
            let (s1, v) = operand_emit(fns, externs, vt, st, op);
            (s1, v, operand_ty(fns, externs, vt, op))
        },
        RValue::BinaryOp(op, l, r) => {
            let (s1, v) = binop_emit(fns, externs, vt, st, op, l, r);
            (s1, v, "i64"@)
        },
        RValue::MethodCall { target, method, args } => {
            let (s1, v) = method_call_emit(fns, externs, vt, st, target, method@, args@);
            (s1, v, "i64"@)
        },
        RValue::StructInit { fields, arena, .. } => {
            let (s1, v) = struct_init_emit(fns, externs, vt, st, fields@, arena);
            (s1, v, "ptr"@)
        },
        RValue::FieldAccess { target, field } => {
            let (s1, v) = load_at_emit(fns, externs, vt, st, target, Some(field_offset(structs, field@)));
            (s1, v, "i64"@)
        },
        RValue::Cast { operand, target_ty } => cast_emit(fns, externs, vt, st, operand, target_ty),
        RValue::Ref { operand, .. } => {
            let (s1, v) = address_emit(fns, externs, vt, st, operand);
            (s1, v, "ptr"@)
        },
        RValue::EnumInit { tag, payload, arena } => {
            let (s1, v) = enum_init_emit(fns, externs, vt, st, tag, payload@, arena);
            (s1, v, "ptr"@)
        },
        RValue::EnumTag(target) => {
            let (s1, v) = load_at_emit(fns, externs, vt, st, target, None);
            (s1, v, "i64"@)
        },
        RValue::EnumPayload { target, index } => {
            let (s1, v) = load_at_emit(fns, externs, vt, st, target, Some((8 + index * 8) as nat));
            (s1, v, "i64"@)
        },
        RValue::ArrayInit { elements, elem_stride, arena } => {
            let (s1, v) = array_init_emit(fns, externs, vt, st, elements@, elem_stride as nat, arena);
            (s1, v, "ptr"@)
        },
        RValue::ArrayIndex { target, index, stride } => {
            let (s1, v) = array_index_emit(fns, externs, vt, st, target, index, stride as nat);
            (s1, v, "i64"@)
        },
        RValue::Deref(op) => deref_emit(fns, externs, vt, st, op, ty),
        RValue::AddrOf(op) => {
            let (s1, v) = address_emit(fns, externs, vt, st, op);
            (s1, v, "ptr"@)
        },
    }
}

/// Emitting an assignment: the right-hand side, converted to the type of
/// the destination's slot, stored into that slot.
#[verifier::opaque]
pub open spec fn assign_emit(
    fns: Seq<Seq<char>>,
    externs: Seq<Seq<char>>,
    vt: Seq<(Var, Seq<char>)>,
    structs: Seq<Seq<Seq<char>>>,
    st: EmitState,
    dest: Var,
    rv: RValue,
    ty: Type,
) -> EmitState {
    let (s1, v, vty) = rvalue_emit(fns, externs, vt, structs, st, rv, ty);
    let target_ty = lookup_var_ty(vt, dest, ty);
    let (s2, c) = coerce_emit(s1, v, vty, target_ty);
    (s2.0, s2.1, s2.2 + ("    store "@ + target_ty + " "@ + c + ", ptr "@ + slot_name(dest) + "\n"@))
}


/// Emitting the first `k` arguments of an extern call, each written as its
/// LLVM type and value.
pub open spec fn extern_args_emit(
    fns: Seq<Seq<char>>,
    externs: Seq<Seq<char>>,
    vt: Seq<(Var, Seq<char>)>,
    st: EmitState,
    args: Seq<Operand>,
    k: nat,
) -> (EmitState, Seq<Seq<char>>)
    decreases k,
{
    if k == 0 {
        (st, seq![])
    } else {
        let (s1, parts) = extern_args_emit(fns, externs, vt, st, args, (k - 1) as nat);
        let (s2, v) = operand_emit(fns, externs, vt, s1, args[k - 1]);
        (s2, parts.push(operand_ty(fns, externs, vt, args[k - 1]) + " "@ + v))
    }
}

/// Emitting a call of an extern function returning `ty`: a `void` call, or
/// a call into a fresh temporary whose value, converted to the
/// destination's slot type, is stored into that slot.
#[verifier::opaque]
pub open spec fn extern_call_emit(
    fns: Seq<Seq<char>>,
    externs: Seq<Seq<char>>,
    vt: Seq<(Var, Seq<char>)>,
    st: EmitState,
    dest: Option<Var>,
    func: Seq<char>,
    args: Seq<Operand>,
    ty: Type,
) -> EmitState {
    let (s1, parts) = extern_args_emit(fns, externs, vt, st, args, args.len());
    let joined = join(parts, ", "@);
    if ty is Unit {
        (s1.0, s1.1, s1.2 + ("    call void @"@ + func + "("@ + joined + ")\n"@))
    } else {
        let t = temp_name(s1.1);
        let rt = llvm_type(ty);
        let s2 = (s1.0, s1.1 + 1, s1.2 + ("    "@ + t + " = call "@ + rt + " @"@ + func + "("@ + joined + ")\n"@));
        match dest {
            Some(d) => {
                let tt = lookup_var_ty(vt, d, ty);
                let (s3, c) = coerce_emit(s2, t, rt, tt);
                (s3.0, s3.1, s3.2 + ("    store "@ + tt + " "@ + c + ", ptr "@ + slot_name(d) + "\n"@))
            },
            None => s2,
        }
    }
}

/// Emitting a store of `value` through the pointer `ptr`.
#[verifier::opaque]
pub open spec fn store_emit(
    fns: Seq<Seq<char>>,
    externs: Seq<Seq<char>>,
    vt: Seq<(Var, Seq<char>)>,
    st: EmitState,
    ptr: Operand,
    value: Operand,
) -> EmitState {
    let (s1, pv) = operand_emit(fns, externs, vt, st, ptr);
    let (s2, pc) = coerce_emit(s1, pv, operand_ty(fns, externs, vt, ptr), "ptr"@);
    let (s3, v) = operand_emit(fns, externs, vt, s2, value);
    (s3.0, s3.1, s3.2 + ("    store "@ + operand_ty(fns, externs, vt, value) + " "@ + v + ", ptr "@ + pc + "\n"@))
}

/// Emitting the entry of a region or nursery: the runtime routine `enter`
/// called, and its pointer stored into the destination's slot.
#[verifier::opaque]
pub open spec fn enter_emit(st: EmitState, enter: Seq<char>, dest: Var) -> EmitState {
    let t = temp_name(st.1);
    (st.0, st.1 + 1, st.2 + ("    "@ + t + " = call ptr @"@ + enter + "()\n"@ + "    store ptr "@ + t + ", ptr "@
        + slot_name(dest) + "\n"@))
}

/// Emitting the exit of a region or nursery held in `v`: its pointer is
/// handed to the runtime routine `exit`.
#[verifier::opaque]
pub open spec fn exit_emit(
    fns: Seq<Seq<char>>,
    externs: Seq<Seq<char>>,
    vt: Seq<(Var, Seq<char>)>,
    st: EmitState,
    exit: Seq<char>,
    v: Var,
) -> EmitState {
    let op = arena_operand(v);
    let (s1, av) = operand_emit(fns, externs, vt, st, op);
    let at = operand_ty(fns, externs, vt, op);
    let (s2, ap) = if at == "ptr"@ {
        (s1, av)
    } else {
        let t = temp_name(s1.1);
        ((s1.0, s1.1 + 1, s1.2 + ("    "@ + t + " = inttoptr "@ + at + " "@ + av + " to ptr\n"@)), t)
    };
    (s2.0, s2.1, s2.2 + ("    call void @"@ + exit + "(ptr "@ + ap + ")\n"@))
}


/// The parameter types of the module function a call names, when there is one
/// (the first of that name).
pub open spec fn target_params(fns: Seq<Seq<char>>, params: Seq<Seq<Seq<char>>>, clean: Seq<char>) -> Option<Seq<Seq<char>>> {
    if fns.contains(clean) {
        Some(params[first_index(fns, clean)])
    } else {
        None
    }
}

/// Emitting the first `k` arguments of a call: each value converted to the
/// callee's parameter type where the callee is known and has that
/// parameter, written with that type.
pub open spec fn call_args_emit(
    fns: Seq<Seq<char>>,
    externs: Seq<Seq<char>>,
    vt: Seq<(Var, Seq<char>)>,
    st: EmitState,
    args: Seq<Operand>,
    params: Option<Seq<Seq<char>>>,
    k: nat,
) -> (EmitState, Seq<Seq<char>>)
    decreases k,
{
    if k == 0 {
        (st, seq![])
    } else {
        let (s1, parts) = call_args_emit(fns, externs, vt, st, args, params, (k - 1) as nat);
        let (s2, v) = operand_emit(fns, externs, vt, s1, args[k - 1]);
        let from = operand_ty(fns, externs, vt, args[k - 1]);
        let expected = match params {
            Some(ps) => if k - 1 < ps.len() { ps[k - 1] } else { from },
            None => from,
        };
        let (s3, c) = coerce_emit(s2, v, from, expected);
        (s3, parts.push(expected + " "@ + c))
    }
}

/// Emitting a call of the function named `func` (leading `_`s dropped)
/// returning `ty`: a `void` call, or a call into a fresh temporary whose
/// value, converted to the destination's slot type, is stored there.
#[verifier::opaque]
pub open spec fn call_emit(
    fns: Seq<Seq<char>>,
    externs: Seq<Seq<char>>,
    vt: Seq<(Var, Seq<char>)>,
    params: Seq<Seq<Seq<char>>>,
    st: EmitState,
    dest: Option<Var>,
    func: Seq<char>,
    args: Seq<Operand>,
    ty: Type,
) -> EmitState {
    let clean = strip_lead_char(func, '_');
    let (s1, parts) = call_args_emit(fns, externs, vt, st, args, target_params(fns, params, clean), args.len());
    let joined = join(parts, ", "@);
    if ty is Unit {
        (s1.0, s1.1, s1.2 + ("    call void @"@ + clean + "("@ + joined + ")\n"@))
    } else {
        let t = temp_name(s1.1);
        let rt = llvm_type(ty);
        let s2 = (s1.0, s1.1 + 1, s1.2 + ("    "@ + t + " = call "@ + rt + " @"@ + clean + "("@ + joined + ")\n"@));
        match dest {
            Some(d) => {
                let tt = lookup_var_ty(vt, d, ty);
                let (s3, c) = coerce_emit(s2, t, rt, tt);
                (s3.0, s3.1, s3.2 + ("    store "@ + tt + " "@ + c + ", ptr "@ + slot_name(d) + "\n"@))
            },
            None => s2,
        }
    }
}


/// How an argument of a runtime call is converted.
#[derive(Debug, Clone, Copy, PartialEq, Eq, Structural)]
pub enum ArgConv {
    /// Passed as emitted.
    Keep,
    /// Converted to `i64`.
    ToI64,
    /// Converted to a pointer.
    ToPtr,
    /// Taken as a pointer, cast from whatever integer type it has.
    IntToPtr,
}

/// One argument of a runtime call: the effect argument at `index` (or the
/// `default` text of type `default_ty` when there is none), converted, and
/// passed with the LLVM type `call_ty`.
pub struct RtArg {
    pub index: usize,
    pub default: Vec<char>,
    pub default_ty: Vec<char>,
    pub conv: ArgConv,
    pub call_ty: Vec<char>,
}

pub type RtArgV = (nat, Seq<char>, Seq<char>, ArgConv, Seq<char>);

/// How the result of a runtime call reaches the destination.
#[derive(Debug, Clone, Copy, PartialEq, Eq, Structural)]
pub enum StoreKind {
    /// Stored with the given call result type.
    AsIs,
    /// Converted from `i64` to the destination's slot type first.
    Converted,
}

/// A call of a runtime routine that performs an effect: the routine, its
/// result type (`None` for `void`), its arguments, and how the result is
/// stored.
pub struct RtCall {
    pub routine: Vec<char>,
    pub ret: Option<Vec<char>>,
    pub args: Vec<RtArg>,
    pub store: StoreKind,
}

pub type RtCallV = (Seq<char>, Option<Seq<char>>, Seq<RtArgV>, StoreKind);

pub open spec fn rt_arg_view(a: RtArg) -> RtArgV {
    (a.index as nat, a.default@, a.default_ty@, a.conv, a.call_ty@)
}

pub open spec fn rt_call_view(c: RtCall) -> RtCallV {
    (
        c.routine@,
        match c.ret { Some(r) => Some(r@), None => None },
        Seq::new(c.args@.len(), |i: int| rt_arg_view(c.args@[i])),
        c.store,
    )
}

pub open spec fn ra(index: nat, default: Seq<char>, default_ty: Seq<char>, conv: ArgConv, call_ty: Seq<char>) -> RtArgV {
    (index, default, default_ty, conv, call_ty)
}

/// The runtime call that performs `effect.op` with `n` arguments, where one
/// does.
pub open spec fn effect_call_plan(effect: Seq<char>, op: Seq<char>, n: nat) -> Option<RtCallV> {
    if effect == "IO"@ && op == "print"@ {
        io_plan(n)
    } else if effect == "Async"@ {
        async_plan(op)
    } else if effect == "Channel"@ {
        channel_plan(op, n)
    } else if effect == "Nursery"@ {
        nursery_plan(op, n)
    } else if effect == "Net"@ {
        net_plan(op)
    } else if (effect == "Foreign"@ || effect == "ForeignCall"@) && (op == "call"@ || op == "blocking"@) {
        Some(foreign_plan())
    } else {
        None
    }
}

/// Printing through the IO effect.
pub open spec fn io_plan(n: nat) -> Option<RtCallV> {
    if n > 0 {
        Some(("tungsten_io_print"@, None, seq![ra(0, ""@, "i64"@, ArgConv::Keep, "ptr"@), ra(usize::MAX as nat, "0"@, "i64"@, ArgConv::Keep, "i64"@)], StoreKind::AsIs))
    } else {
        None
    }
}

/// The operations of the Async effect.
pub open spec fn async_plan(op: Seq<char>) -> Option<RtCallV> {
    if op == "spawn"@ {
        Some(("tungsten_fiber_spawn"@, Some("i64"@), seq![ra(0, "null"@, "i64"@, ArgConv::Keep, "ptr"@), ra(1, "0"@, "i64"@, ArgConv::ToI64, "i64"@), ra(2, "0"@, "i64"@, ArgConv::ToI64, "i64"@)], StoreKind::AsIs))
    } else if op == "yield_now"@ {
        Some(("tungsten_fiber_yield"@, None, seq![], StoreKind::AsIs))
    } else if op == "sleep"@ {
        Some(("tungsten_fiber_sleep"@, None, seq![ra(0, "0"@, "i64"@, ArgConv::ToI64, "i64"@)], StoreKind::AsIs))
    } else {
        None
    }
}

/// The operations of the Channel effect.
pub open spec fn channel_plan(op: Seq<char>, n: nat) -> Option<RtCallV> {
    if op == "new"@ {
        Some(("tungsten_channel_new"@, Some("i64"@), seq![], StoreKind::AsIs))
    } else if op == "bounded"@ && n > 0 {
        Some(("tungsten_channel_bounded"@, Some("i64"@), seq![ra(0, ""@, "i64"@, ArgConv::ToI64, "i64"@)], StoreKind::AsIs))
    } else if op == "send"@ && n >= 2 {
        Some(("tungsten_channel_send"@, None, seq![ra(0, ""@, "i64"@, ArgConv::ToI64, "i64"@), ra(1, ""@, "i64"@, ArgConv::ToI64, "i64"@)], StoreKind::AsIs))
    } else if op == "recv"@ && n > 0 {
        Some(("tungsten_channel_recv"@, Some("i64"@), seq![ra(0, ""@, "i64"@, ArgConv::ToI64, "i64"@)], StoreKind::AsIs))
    } else {
        None
    }
}

/// Spawning into a nursery through the Nursery effect.
pub open spec fn nursery_plan(op: Seq<char>, n: nat) -> Option<RtCallV> {
    if op == "spawn"@ && n > 0 {
        Some(("tungsten_nursery_spawn"@, Some("i64"@), seq![ra(0, ""@, "i64"@, ArgConv::IntToPtr, "ptr"@), ra(1, "null"@, "i64"@, ArgConv::Keep, "ptr"@), ra(2, "0"@, "i64"@, ArgConv::ToI64, "i64"@), ra(3, "0"@, "i64"@, ArgConv::ToI64, "i64"@)], StoreKind::AsIs))
    } else {
        None
    }
}

/// The operations of the Net effect.
pub open spec fn net_plan(op: Seq<char>) -> Option<RtCallV> {
    if op == "listen"@ {
        Some(("tungsten_net_listen"@, Some("i64"@), seq![ra(0, "8080"@, "i64"@, ArgConv::ToI64, "i64"@)], StoreKind::AsIs))
    } else if op == "accept"@ {
        Some(("tungsten_net_accept"@, Some("i64"@), seq![ra(0, "0"@, "i64"@, ArgConv::ToI64, "i64"@)], StoreKind::AsIs))
    } else if op == "connect"@ {
        Some(("tungsten_net_connect"@, Some("i64"@), seq![ra(0, "null"@, "ptr"@, ArgConv::ToPtr, "ptr"@), ra(1, "8080"@, "i64"@, ArgConv::ToI64, "i64"@)], StoreKind::AsIs))
    } else if op == "read"@ {
        Some(("tungsten_net_read"@, Some("ptr"@), seq![ra(0, "0"@, "i64"@, ArgConv::ToI64, "i64"@), ra(1, "4096"@, "i64"@, ArgConv::ToI64, "i64"@)], StoreKind::AsIs))
    } else if op == "write"@ {
        Some(("tungsten_net_write"@, Some("i64"@), seq![ra(0, "0"@, "i64"@, ArgConv::ToI64, "i64"@), ra(1, "null"@, "ptr"@, ArgConv::ToPtr, "ptr"@), ra(usize::MAX as nat, "4096"@, "i64"@, ArgConv::Keep, "i64"@)], StoreKind::AsIs))
    } else if op == "close"@ {
        Some(("tungsten_net_close"@, None, seq![ra(0, "0"@, "i64"@, ArgConv::ToI64, "i64"@)], StoreKind::AsIs))
    } else {
        None
    }
}

/// Offloading a blocking foreign call.
pub open spec fn foreign_plan() -> RtCallV {
    ("tungsten_foreign_call_offload"@, Some("i64"@), seq![ra(0, "null"@, "i64"@, ArgConv::Keep, "ptr"@), ra(1, "0"@, "i64"@, ArgConv::ToI64, "i64"@)], StoreKind::Converted)
}

/// Emitting one argument of a runtime call: its value, converted.
#[verifier::opaque]
pub open spec fn rt_arg_emit(
    fns: Seq<Seq<char>>,
    externs: Seq<Seq<char>>,
    vt: Seq<(Var, Seq<char>)>,
    st: EmitState,
    args: Seq<Operand>,
    a: RtArgV,
) -> (EmitState, Seq<char>) {
    let (s1, v, t) = if a.0 < args.len() {
        let (s, v) = operand_emit(fns, externs, vt, st, args[a.0 as int]);
        (s, v, operand_ty(fns, externs, vt, args[a.0 as int]))
    } else {
        (st, a.1, a.2)
    };
    match a.3 {
        ArgConv::Keep => (s1, v),
        ArgConv::ToI64 => coerce_emit(s1, v, t, "i64"@),
        ArgConv::ToPtr => coerce_emit(s1, v, t, "ptr"@),
        ArgConv::IntToPtr => if t == "ptr"@ {
            (s1, v)
        } else {
            let x = temp_name(s1.1);
            ((s1.0, s1.1 + 1, s1.2 + ("    "@ + x + " = inttoptr "@ + t + " "@ + v + " to ptr\n"@)), x)
        },
    }
}

/// Emitting the first `k` arguments of a runtime call, each written with its
/// call type.
pub open spec fn rt_args_emit(
    fns: Seq<Seq<char>>,
    externs: Seq<Seq<char>>,
    vt: Seq<(Var, Seq<char>)>,
    st: EmitState,
    args: Seq<Operand>,
    plan: Seq<RtArgV>,
    k: nat,
) -> (EmitState, Seq<Seq<char>>)
    decreases k,
{
    if k == 0 {
        (st, seq![])
    } else {
        let (s1, parts) = rt_args_emit(fns, externs, vt, st, args, plan, (k - 1) as nat);
        let (s2, v) = rt_arg_emit(fns, externs, vt, s1, args, plan[k - 1]);
        (s2, parts.push(plan[k - 1].4 + " "@ + v))
    }
}

/// Emitting a runtime call that performs an effect, and the store of its
/// result into the destination.
#[verifier::opaque]
pub open spec fn rt_call_emit(
    fns: Seq<Seq<char>>,
    externs: Seq<Seq<char>>,
    vt: Seq<(Var, Seq<char>)>,
    st: EmitState,
    args: Seq<Operand>,
    c: RtCallV,
    dest: Option<Var>,
    ty: Type,
) -> EmitState {
    let (s1, parts) = rt_args_emit(fns, externs, vt, st, args, c.2, c.2.len());
    let joined = join(parts, ", "@);
    match c.1 {
        None => (s1.0, s1.1, s1.2 + ("    call void @"@ + c.0 + "("@ + joined + ")\n"@)),
        Some(rt) => {
            let t = temp_name(s1.1);
            let s2 = (s1.0, s1.1 + 1, s1.2 + ("    "@ + t + " = call "@ + rt + " @"@ + c.0 + "("@ + joined + ")\n"@));
            match dest {
                None => s2,
                Some(d) => match c.3 {
                    StoreKind::AsIs => (s2.0, s2.1, s2.2 + ("    store "@ + rt + " "@ + t + ", ptr "@ + slot_name(d) + "\n"@)),
                    StoreKind::Converted => {
                        let tt = lookup_var_ty(vt, d, ty);
                        let (s3, cv) = coerce_emit(s2, t, "i64"@, tt);
                        (s3.0, s3.1, s3.2 + ("    store "@ + tt + " "@ + cv + ", ptr "@ + slot_name(d) + "\n"@))
                    },
                },
            }
        },
    }
}


/// Emitting a database query effect: a three-word record holding a name,
/// a score and the query's key (its second argument, else its first, else
/// 42) is allocated, and stored into the destination.
#[verifier::opaque]
pub open spec fn db_query_emit(
    fns: Seq<Seq<char>>,
    externs: Seq<Seq<char>>,
    vt: Seq<(Var, Seq<char>)>,
    st: EmitState,
    args: Seq<Operand>,
    dest: Option<Var>,
) -> EmitState {
    let p = temp_name(st.1);
    let s1 = (st.0, st.1 + 1, st.2 + ("    "@ + p + " = call ptr @tungsten_alloc(i64 24, i64 8)\n"@));
    let (strs, idx) = intern_spec(s1.0, "PlayerOne"@);
    let g1 = temp_name(s1.1);
    let s2 = (strs, s1.1 + 1, s1.2 + ("    "@ + g1 + " = getelementptr inbounds i8, ptr "@ + p + ", i64 0\n"@
        + "    store ptr @str_"@ + nat_decimal(idx) + ", ptr "@ + g1 + "\n"@));
    let g2 = temp_name(s2.1);
    let s3 = (s2.0, s2.1 + 1, s2.2 + ("    "@ + g2 + " = getelementptr inbounds i8, ptr "@ + p + ", i64 8\n"@
        + "    store i64 80, ptr "@ + g2 + "\n"@));
    let (s4, id) = if args.len() > 1 {
        operand_emit(fns, externs, vt, s3, args[1])
    } else if args.len() > 0 {
        operand_emit(fns, externs, vt, s3, args[0])
    } else {
        (s3, "42"@)
    };
    let g3 = temp_name(s4.1);
    let s5 = (s4.0, s4.1 + 1, s4.2 + ("    "@ + g3 + " = getelementptr inbounds i8, ptr "@ + p + ", i64 16\n"@
        + "    store i64 "@ + id + ", ptr "@ + g3 + "\n"@));
    match dest {
        Some(d) => (s5.0, s5.1, s5.2 + ("    store ptr "@ + p + ", ptr "@ + slot_name(d) + "\n"@)),
        None => s5,
    }
}

/// Emitting an effect operation: the database query, a runtime call where
/// the effect has one, and nothing otherwise.
#[verifier::opaque]
pub open spec fn perform_effect_emit(
    fns: Seq<Seq<char>>,
    externs: Seq<Seq<char>>,
    vt: Seq<(Var, Seq<char>)>,
    st: EmitState,
    dest: Option<Var>,
    effect: Seq<char>,
    op: Seq<char>,
    args: Seq<Operand>,
    ty: Type,
) -> EmitState {
    if (effect == "Db"@ && op == "query"@) || (effect == "PostgresPool"@ && op == "execute"@) {
        db_query_emit(fns, externs, vt, st, args, dest)
    } else {
        match effect_call_plan(effect, op, args.len()) {
            Some(c) => rt_call_emit(fns, externs, vt, st, args, c, dest, ty),
            None => st,
        }
    }
}


/// The number of bytes of the UTF-8 encoding of `s`.
pub open spec fn utf8_len(s: Seq<char>) -> nat
    decreases s.len(),
{
    if s.len() == 0 {
        0
    } else {
        utf8_len(s.drop_last()) + utf8_bytes(s.last()).len()
    }
}

/// Whether `{}` starts at index `i` of `s`.
pub open spec fn brace_at(s: Seq<char>, i: int) -> bool {
    0 <= i && i + 1 < s.len() && s[i] == '{' && s[i + 1] == '}'
}

/// The first index where `{}` starts in `s`, where there is one.
pub open spec fn first_brace(s: Seq<char>) -> int {
    choose|i: int| brace_at(s, i) && forall|j: int| 0 <= j < i ==> !#[trigger] brace_at(s, j)
}

/// The pieces of `s` between the occurrences of `{}`, found from the left.
#[verifier::opaque]
pub open spec fn split_braces(s: Seq<char>) -> Seq<Seq<char>>
    decreases s.len(),
{
    if exists|i: int| #[trigger] brace_at(s, i) {
        let i = first_brace(s);
        if brace_at(s, i) {
            seq![s.subrange(0, i)] + split_braces(s.subrange(i + 2, s.len() as int))
        } else {
            seq![s]
        }
    } else {
        seq![s]
    }
}

/// Whether an operand holds a string.
pub open spec fn is_string_operand(op: Operand) -> bool {
    match op {
        Operand::Var(_, ty) => ty is String,
        Operand::Constant(TirConstant::Str(_)) => true,
        _ => false,
    }
}

/// Emitting the printing of one value: a string through the string routine
/// `str_routine`, anything else widened to `i64` through `int_routine`.
#[verifier::opaque]
pub open spec fn print_value_emit(
    fns: Seq<Seq<char>>,
    externs: Seq<Seq<char>>,
    vt: Seq<(Var, Seq<char>)>,
    st: EmitState,
    op: Operand,
    str_routine: Seq<char>,
    int_routine: Seq<char>,
) -> EmitState {
    let (s1, v) = operand_emit(fns, externs, vt, st, op);
    let t = operand_ty(fns, externs, vt, op);
    if is_string_operand(op) {
        let (s2, p) = coerce_emit(s1, v, t, "ptr"@);
        (s2.0, s2.1, s2.2 + ("    call void @"@ + str_routine + "(ptr "@ + p + ", i64 0)\n"@))
    } else {
        let (s2, x) = if t == "i64"@ {
            (s1, v)
        } else {
            let z = temp_name(s1.1);
            ((s1.0, s1.1 + 1, s1.2 + ("    "@ + z + " = zext "@ + t + " "@ + v + " to i64\n"@)), z)
        };
        (s2.0, s2.1, s2.2 + ("    call void @"@ + int_routine + "(i64 "@ + x + ")\n"@))
    }
}

/// Emitting the printing of a literal piece of text as an interned string.
#[verifier::opaque]
pub open spec fn print_piece_emit(st: EmitState, piece: Seq<char>, routine: Seq<char>) -> EmitState {
    let (strs, idx) = intern_spec(st.0, piece);
    (strs, st.1, st.2 + ("    call void @"@ + routine + "(ptr @str_"@ + nat_decimal(idx) + ", i64 "@ + nat_decimal(
        utf8_len(piece),
    ) + ")\n"@))
}

/// Emitting the first `k` pieces of a format string and the arguments that
/// follow them: piece `i`, when not empty, then argument `i + 1`, when there
/// is one and a piece follows.
pub open spec fn format_pieces_emit(
    fns: Seq<Seq<char>>,
    externs: Seq<Seq<char>>,
    vt: Seq<(Var, Seq<char>)>,
    st: EmitState,
    pieces: Seq<Seq<char>>,
    args: Seq<Operand>,
    k: nat,
) -> EmitState
    decreases k,
{
    if k == 0 {
        st
    } else {
        let i = k - 1;
        let s1 = format_pieces_emit(fns, externs, vt, st, pieces, args, i as nat);
        let s2 = if pieces[i].len() > 0 { print_piece_emit(s1, pieces[i], "tungsten_print_str"@) } else { s1 };
        if i < pieces.len() - 1 && i + 1 < args.len() {
            print_value_emit(fns, externs, vt, s2, args[i + 1], "tungsten_print_str"@, "tungsten_print_i64"@)
        } else {
            s2
        }
    }
}

/// Emitting the first `k` values printed each on a line of its own.
pub open spec fn println_values_emit(
    fns: Seq<Seq<char>>,
    externs: Seq<Seq<char>>,
    vt: Seq<(Var, Seq<char>)>,
    st: EmitState,
    args: Seq<Operand>,
    k: nat,
) -> EmitState
    decreases k,
{
    if k == 0 {
        st
    } else {
        let s1 = println_values_emit(fns, externs, vt, st, args, (k - 1) as nat);
        print_value_emit(fns, externs, vt, s1, args[k - 1], "tungsten_println_str"@, "tungsten_println_i64"@)
    }
}

/// Emitting `println`: an empty line; a literal line; a format string whose
/// `{}`s take the following arguments; or each value on a line of its own.
#[verifier::opaque]
pub open spec fn println_emit(
    fns: Seq<Seq<char>>,
    externs: Seq<Seq<char>>,
    vt: Seq<(Var, Seq<char>)>,
    st: EmitState,
    args: Seq<Operand>,
) -> EmitState {
    if args.len() == 0 {
        (st.0, st.1, st.2 + "    call i32 @putchar(i32 10)\n"@)
    } else {
        match args[0] {
            Operand::Constant(TirConstant::Str(fmt)) => if args.len() == 1 {
                print_piece_emit(st, fmt@, "tungsten_println_str"@)
            } else {
                let pieces = split_braces(fmt@);
                let s1 = format_pieces_emit(fns, externs, vt, st, pieces, args, pieces.len());
                (s1.0, s1.1, s1.2 + "    call i32 @putchar(i32 10)\n"@)
            },
            _ => println_values_emit(fns, externs, vt, st, args, args.len()),
        }
    }
}


/// The texts `println` measures fit a `usize` byte count.
pub open spec fn println_fits(args: Seq<Operand>) -> bool {
    args.len() > 0 ==> match args[0] {
        Operand::Constant(TirConstant::Str(fmt)) => 4 * fmt@.len() <= usize::MAX,
        _ => true,
    }
}


/// The LLVM type recorded for a variable, or `default` when none is.
pub open spec fn lookup_var_ty_or(vt: Seq<(Var, Seq<char>)>, v: Var, default: Seq<char>) -> Seq<char>
    decreases vt.len(),
{
    if vt.len() == 0 {
        default
    } else if same_var(vt[0].0, v) {
        vt[0].1
    } else {
        lookup_var_ty_or(vt.drop_first(), v, default)
    }
}

/// Emitting a field store `base.field = val`: the base's pointer (a
/// variable's slot loaded, a constant as its value), the field's address,
/// and the value stored there as an `i64`.
#[verifier::opaque]
pub open spec fn set_field_emit(
    fns: Seq<Seq<char>>,
    externs: Seq<Seq<char>>,
    vt: Seq<(Var, Seq<char>)>,
    structs: Seq<Seq<Seq<char>>>,
    st: EmitState,
    base: Operand,
    field: Seq<char>,
    val: Operand,
) -> EmitState {
    let (s1, bv, bt) = match base {
        Operand::Var(v, _) => {
            let t = temp_name(st.1);
            let bt = lookup_var_ty_or(vt, v, "ptr"@);
            ((st.0, st.1 + 1, st.2 + ("    "@ + t + " = load "@ + bt + ", ptr "@ + slot_name(v) + "\n"@)), t, bt)
        },
        _ => {
            let (s, v) = operand_emit(fns, externs, vt, st, base);
            (s, v, operand_ty(fns, externs, vt, base))
        },
    };
    let (s2, bp) = coerce_emit(s1, bv, bt, "ptr"@);
    let g = temp_name(s2.1);
    let s3 = (s2.0, s2.1 + 1, s2.2 + ("    "@ + g + " = getelementptr inbounds i8, ptr "@ + bp + ", i64 "@ + nat_decimal(
        field_offset(structs, field),
    ) + "\n"@));
    let (s4, v) = operand_emit(fns, externs, vt, s3, val);
    let (s5, vi) = coerce_emit(s4, v, operand_ty(fns, externs, vt, val), "i64"@);
    (s5.0, s5.1, s5.2 + ("    store i64 "@ + vi + ", ptr "@ + g + "\n"@))
}

/// The temporaries an instruction can take, besides a fixed few.
pub open spec fn inst_width(inst: Instruction) -> nat {
    match inst {
        Instruction::Assign { rvalue, .. } => 3 * rvalue_width(rvalue),
        Instruction::Call { args, .. } => 2 * args@.len(),
        Instruction::ExternCall { args, .. } => args@.len(),
        _ => 0,
    }
}

/// The sizes an instruction computes fit a `usize`.
pub open spec fn inst_fits(inst: Instruction) -> bool {
    match inst {
        Instruction::Assign { rvalue, .. } => rvalue_fits(rvalue),
        Instruction::Call { args, .. } => println_fits(args@),
        _ => true,
    }
}

/// Emitting one instruction.
#[verifier::opaque]
pub open spec fn inst_emit(
    fns: Seq<Seq<char>>,
    externs: Seq<Seq<char>>,
    vt: Seq<(Var, Seq<char>)>,
    structs: Seq<Seq<Seq<char>>>,
    params: Seq<Seq<Seq<char>>>,
    st: EmitState,
    inst: Instruction,
) -> EmitState {
    match inst {
        Instruction::Assign { dest, rvalue, ty } => assign_emit(fns, externs, vt, structs, st, dest, rvalue, ty),
        Instruction::Call { dest, func, args, ty } => if func@ == "@println"@ {
            println_emit(fns, externs, vt, st, args@)
        } else {
            call_emit(fns, externs, vt, params, st, dest, func@, args@, ty)
        },
        Instruction::ExternCall { dest, func, args, ty } => extern_call_emit(fns, externs, vt, st, dest, func@, args@, ty),
        Instruction::PerformEffect { dest, effect, op, args, ty } => perform_effect_emit(
            fns,
            externs,
            vt,
            st,
            dest,
            effect@,
            op@,
            args@,
            ty,
        ),
        Instruction::AssertRefinement { operand, min, max } => assert_refinement_emit(fns, externs, vt, st, operand, min, max),
        Instruction::SetField { base, field, val } => set_field_emit(fns, externs, vt, structs, st, base, field@, val),
        Instruction::Store { ptr, value } => store_emit(fns, externs, vt, st, ptr, value),
        Instruction::RegionEnter { dest } => enter_emit(st, "tungsten_region_enter"@, dest),
        Instruction::RegionExit { arena } => exit_emit(fns, externs, vt, st, "tungsten_region_exit"@, arena),
        Instruction::NurseryEnter { dest } => enter_emit(st, "tungsten_nursery_enter"@, dest),
        Instruction::NurseryExit { nursery } => exit_emit(fns, externs, vt, st, "tungsten_nursery_wait_all"@, nursery),
    }
}


/// A record of a variable's LLVM type: `true` to replace an earlier record,
/// `false` to keep it.
pub type VarEvent = (Var, Seq<char>, bool);

/// The position of the first record of `v`.
pub open spec fn var_index(m: Seq<(Var, Seq<char>)>, v: Var) -> int {
    choose|i: int| 0 <= i < m.len() && same_var(m[i].0, v) && forall|j: int| 0 <= j < i ==> !same_var(#[trigger] m[j].0, v)
}

/// Applying one record to the variable table: a new variable is added at the
/// end; a known one has its type replaced or kept.
pub open spec fn apply_event(m: Seq<(Var, Seq<char>)>, e: VarEvent) -> Seq<(Var, Seq<char>)> {
    if exists|i: int| 0 <= i < m.len() && same_var(#[trigger] m[i].0, e.0) {
        if e.2 {
            let i = var_index(m, e.0);
            m.update(i, (m[i].0, e.1))
        } else {
            m
        }
    } else {
        m.push((e.0, e.1))
    }
}

/// Applying records in order.
pub open spec fn apply_events(m: Seq<(Var, Seq<char>)>, es: Seq<VarEvent>) -> Seq<(Var, Seq<char>)>
    decreases es.len(),
{
    if es.len() == 0 {
        m
    } else {
        apply_event(apply_events(m, es.drop_last()), es.last())
    }
}

/// Whether a variable name stands for a global: a runtime name or a function
/// of the module.
pub open spec fn names_global(fns: Seq<Seq<char>>, n: Seq<char>) -> bool {
    (n.len() > 0 && n[0] == '@') || fns.contains(strip_lead_char(n, '_'))
}

/// The record an operand makes: a variable that is not a global, with its
/// type kept once known.
pub open spec fn op_events(fns: Seq<Seq<char>>, op: Operand) -> Seq<VarEvent> {
    match op {
        Operand::Var(v, ty) => if v is Named && names_global(fns, v->Named_0@) {
            seq![]
        } else {
            seq![(v, llvm_type(ty), false)]
        },
        _ => seq![],
    }
}

pub open spec fn ops_events(fns: Seq<Seq<char>>, ops: Seq<Operand>) -> Seq<VarEvent>
    decreases ops.len(),
{
    if ops.len() == 0 {
        seq![]
    } else {
        ops_events(fns, ops.drop_last()) + op_events(fns, ops.last())
    }
}

pub open spec fn arena_events(fns: Seq<Seq<char>>, arena: Option<Var>) -> Seq<VarEvent> {
    match arena {
        Some(a) => op_events(fns, arena_operand(a)),
        None => seq![],
    }
}

/// The records of the variables an rvalue reads.
pub open spec fn rvalue_events(fns: Seq<Seq<char>>, rv: RValue) -> Seq<VarEvent> {
    match rv {
        RValue::Use(op) => op_events(fns, op),
        RValue::Cast { operand, .. } => op_events(fns, operand),
        RValue::Ref { operand, .. } => op_events(fns, operand),
        RValue::Deref(op) => op_events(fns, op),
        RValue::AddrOf(op) => op_events(fns, op),
        RValue::BinaryOp(_, l, r) => op_events(fns, l) + op_events(fns, r),
        RValue::FieldAccess { target, .. } => op_events(fns, target),
        RValue::MethodCall { target, args, .. } => op_events(fns, target) + ops_events(fns, args@),
        RValue::StructInit { fields, arena, .. } => ops_events(fns, field_ops(fields@)) + arena_events(fns, arena),
        RValue::EnumInit { payload, arena, .. } => ops_events(fns, payload@) + arena_events(fns, arena),
        RValue::EnumTag(t) => op_events(fns, t),
        RValue::EnumPayload { target, .. } => op_events(fns, target),
        RValue::ArrayInit { elements, arena, .. } => ops_events(fns, elements@) + arena_events(fns, arena),
        RValue::ArrayIndex { target, index, .. } => op_events(fns, target) + op_events(fns, index),
    }
}

/// The record of a field store's base: a variable held as a pointer.
pub open spec fn base_events(base: Operand) -> Seq<VarEvent> {
    match base {
        Operand::Var(v, _) => seq![(v, "ptr"@, false)],
        _ => seq![],
    }
}

pub open spec fn dest_events(dest: Option<Var>, ty: Type) -> Seq<VarEvent> {
    match dest {
        Some(d) => seq![(d, llvm_type(ty), true)],
        None => seq![],
    }
}

/// The records an instruction makes: its destination's type replaces an
/// earlier one, the variables it reads keep theirs.
pub open spec fn inst_events(fns: Seq<Seq<char>>, inst: Instruction) -> Seq<VarEvent> {
    match inst {
        Instruction::Assign { dest, rvalue, ty } => seq![(dest, llvm_type(ty), true)] + rvalue_events(fns, rvalue),
        Instruction::AssertRefinement { operand, .. } => op_events(fns, operand),
        Instruction::Call { dest, args, ty, .. } => dest_events(dest, ty) + ops_events(fns, args@),
        Instruction::PerformEffect { dest, args, ty, .. } => dest_events(dest, ty) + ops_events(fns, args@),
        Instruction::SetField { base, val, .. } => base_events(base) + op_events(fns, val),
        Instruction::RegionEnter { dest } => seq![(dest, "ptr"@, true)],
        Instruction::RegionExit { arena } => op_events(fns, arena_operand(arena)),
        Instruction::NurseryEnter { dest } => seq![(dest, "ptr"@, true)],
        Instruction::NurseryExit { nursery } => op_events(fns, arena_operand(nursery)),
        Instruction::ExternCall { dest, args, ty, .. } => dest_events(dest, ty) + ops_events(fns, args@),
        Instruction::Store { ptr, value } => op_events(fns, ptr) + op_events(fns, value),
    }
}

pub open spec fn term_events(fns: Seq<Seq<char>>, t: Option<Terminator>) -> Seq<VarEvent> {
    match t {
        Some(Terminator::Return(Some(op))) => op_events(fns, op),
        Some(Terminator::BranchCond { cond, .. }) => op_events(fns, cond),
        _ => seq![],
    }
}

pub open spec fn insts_events(fns: Seq<Seq<char>>, insts: Seq<Instruction>) -> Seq<VarEvent>
    decreases insts.len(),
{
    if insts.len() == 0 {
        seq![]
    } else {
        insts_events(fns, insts.drop_last()) + inst_events(fns, insts.last())
    }
}

pub open spec fn blocks_events(fns: Seq<Seq<char>>, bs: Seq<TirBlock>) -> Seq<VarEvent>
    decreases bs.len(),
{
    if bs.len() == 0 {
        seq![]
    } else {
        blocks_events(fns, bs.drop_last()) + insts_events(fns, bs.last().instructions@) + term_events(
            fns,
            bs.last().terminator,
        )
    }
}

pub open spec fn param_events(ps: Seq<(Var, Type)>) -> Seq<VarEvent>
    decreases ps.len(),
{
    if ps.len() == 0 {
        seq![]
    } else {
        param_events(ps.drop_last()).push((ps.last().0, llvm_type(ps.last().1), true))
    }
}

/// The variables of a function with their LLVM types, in the order they are
/// first met: parameters, then what each block's instructions and
/// terminator write and read.
pub open spec fn function_vars(fns: Seq<Seq<char>>, f: TirFunction) -> Seq<(Var, Seq<char>)> {
    apply_events(seq![], param_events(f.params@) + blocks_events(fns, f.blocks@))
}


proof fn lemma_blocks_budget_prefix(bs: Seq<TirBlock>, k: int)
    requires
        0 <= k <= bs.len(),
    ensures
        blocks_budget(bs.subrange(0, k)) <= blocks_budget(bs),
    decreases bs.len() - k,
{
    if k < bs.len() {
        lemma_blocks_budget_prefix(bs, k + 1);
        assert(bs.subrange(0, k + 1).drop_last() =~= bs.subrange(0, k));
    } else {
        assert(bs.subrange(0, k) =~= bs);
    }
}

proof fn lemma_insts_budget_prefix(is: Seq<Instruction>, k: int)
    requires
        0 <= k <= is.len(),
    ensures
        insts_budget(is.subrange(0, k)) <= insts_budget(is),
    decreases is.len() - k,
{
    if k < is.len() {
        lemma_insts_budget_prefix(is, k + 1);
        assert(is.subrange(0, k + 1).drop_last() =~= is.subrange(0, k));
    } else {
        assert(is.subrange(0, k) =~= is);
    }
}

proof fn lemma_apply_one(m: Seq<(Var, Seq<char>)>, e: VarEvent)
    ensures
        apply_events(m, seq![e]) == apply_event(m, e),
{
    let es = seq![e];
    assert(es.drop_last() =~= Seq::<VarEvent>::empty());
    assert(apply_events(m, es.drop_last()) == m);
    assert(es.last() == e);
}

proof fn lemma_apply_events_concat(m: Seq<(Var, Seq<char>)>, a: Seq<VarEvent>, b: Seq<VarEvent>)
    ensures
        apply_events(m, a + b) == apply_events(apply_events(m, a), b),
    decreases b.len(),
{
    if b.len() == 0 {
        assert(a + b =~= a);
    } else {
        lemma_apply_events_concat(m, a, b.drop_last());
        assert((a + b).drop_last() =~= a + b.drop_last());
        assert((a + b).last() == b.last());
    }
}


/// How a parameter is named in a function signature.
pub open spec fn var_text(v: Var) -> Seq<char> {
    match v {
        Var::Named(n) => n@,
        Var::Temp(i) => nat_decimal(i as nat),
    }
}

pub open spec fn param_sigs(ps: Seq<(Var, Type)>) -> Seq<Seq<char>> {
    Seq::new(ps.len(), |i: int| llvm_type(ps[i].1) + " %arg_"@ + var_text(ps[i].0))
}

/// The stack slot of each variable, zero-initialised, in table order.
pub open spec fn allocas_text(vars: Seq<(Var, Seq<char>)>) -> Seq<char>
    decreases vars.len(),
{
    if vars.len() == 0 {
        seq![]
    } else {
        let (v, t) = vars.last();
        allocas_text(vars.drop_last()) + ("    "@ + slot_name(v) + " = alloca "@ + t + "\n"@ + if t == "ptr"@ {
            "    store ptr null, ptr "@ + slot_name(v) + "\n"@
        } else {
            "    store "@ + t + " 0, ptr "@ + slot_name(v) + "\n"@
        })
    }
}

/// Each parameter stored into its slot.
pub open spec fn param_stores_text(ps: Seq<(Var, Type)>) -> Seq<char>
    decreases ps.len(),
{
    if ps.len() == 0 {
        seq![]
    } else {
        param_stores_text(ps.drop_last()) + ("    store "@ + llvm_type(ps.last().1) + " %arg_"@ + var_text(ps.last().0)
            + ", ptr "@ + slot_name(ps.last().0) + "\n"@)
    }
}

/// The LLVM return type of a function: `i32` for `main`.
pub open spec fn fn_ret_text(f: TirFunction) -> Seq<char> {
    if f.name@ == "main"@ {
        "i32"@
    } else if f.return_type is Unit {
        "void"@
    } else {
        llvm_type(f.return_type)
    }
}

/// The metadata number of the debug subprogram of the module's `idx`th
/// function.
pub open spec fn subprogram_id(idx: nat) -> nat {
    5 + 2 * idx
}

/// The metadata number of the debug location that the instructions of the
/// module's `idx`th function carry.
pub open spec fn location_id(idx: nat) -> nat {
    6 + 2 * idx
}

/// The start of the definition of the module's `idx`th function: its
/// signature with its debug subprogram, its entry block allocating and
/// initialising every variable's slot, and the jump to the first block.
pub open spec fn function_head(f: TirFunction, vars: Seq<(Var, Seq<char>)>, idx: nat) -> Seq<char> {
    "define "@ + fn_ret_text(f) + " @"@ + f.name@ + "("@ + join(param_sigs(f.params@), ", "@) + ") !dbg !"@
        + nat_decimal(subprogram_id(idx)) + " {\n"@ + "entry:\n"@ + allocas_text(vars) + param_stores_text(f.params@)
        + "    br label "@ + block_label(f.entry_block.0) + "\n\n"@
}

/// Where a text leaves off after `s`: at the start of a line (0), inside a
/// line that began with a space (1), or inside another line (2).
pub open spec fn line_state(s: Seq<char>) -> nat
    decreases s.len(),
{
    if s.len() == 0 {
        0
    } else {
        let p = line_state(s.drop_last());
        let c = s.last();
        if c == '\n' {
            0
        } else if p == 0 {
            if c == ' ' {
                1
            } else {
                2
            }
        } else {
            p
        }
    }
}

/// The text `s` with `sfx` written before the line break of each line that
/// begins with a space, that is of each instruction.
pub open spec fn dbg_lines(s: Seq<char>, sfx: Seq<char>) -> Seq<char>
    decreases s.len(),
{
    if s.len() == 0 {
        seq![]
    } else {
        let p = dbg_lines(s.drop_last(), sfx);
        if s.last() == '\n' && line_state(s.drop_last()) == 1 {
            p + sfx + seq!['\n']
        } else {
            p.push(s.last())
        }
    }
}

/// The attachment of the debug location of the module's `idx`th function.
pub open spec fn dbg_suffix(idx: nat) -> Seq<char> {
    ", !dbg !"@ + nat_decimal(location_id(idx))
}

/// Emitting the first `k` instructions of a block.
pub open spec fn insts_emit(
    fns: Seq<Seq<char>>,
    externs: Seq<Seq<char>>,
    vt: Seq<(Var, Seq<char>)>,
    structs: Seq<Seq<Seq<char>>>,
    params: Seq<Seq<Seq<char>>>,
    st: EmitState,
    insts: Seq<Instruction>,
    k: nat,
) -> EmitState
    decreases k,
{
    if k == 0 {
        st
    } else {
        inst_emit(fns, externs, vt, structs, params, insts_emit(fns, externs, vt, structs, params, st, insts, (k - 1) as nat), insts[k - 1])
    }
}

/// Emitting one block of function `f`: its label, its instructions, and its
/// terminator, or a return of zero where it has none.
pub open spec fn block_emit(
    fns: Seq<Seq<char>>,
    externs: Seq<Seq<char>>,
    vt: Seq<(Var, Seq<char>)>,
    structs: Seq<Seq<Seq<char>>>,
    params: Seq<Seq<Seq<char>>>,
    st: EmitState,
    f: TirFunction,
    b: TirBlock,
) -> EmitState {
    let s1 = (st.0, st.1, st.2 + ("bb"@ + nat_decimal(b.id.0 as nat) + ":\n"@));
    let s2 = insts_emit(fns, externs, vt, structs, params, s1, b.instructions@, b.instructions@.len());
    let s3 = match b.terminator {
        Some(t) => terminator_emit(fns, externs, vt, s2, t, f.name@ == "main"@, f.return_type),
        None => (s2.0, s2.1, s2.2 + if f.name@ == "main"@ {
            "    ret i32 0\n"@
        } else if fn_ret_text(f) == "void"@ {
            "    ret void\n"@
        } else {
            "    ret "@ + fn_ret_text(f) + " 0\n"@
        }),
    };
    (s3.0, s3.1, s3.2 + "\n"@)
}

pub open spec fn blocks_emit(
    fns: Seq<Seq<char>>,
    externs: Seq<Seq<char>>,
    vt: Seq<(Var, Seq<char>)>,
    structs: Seq<Seq<Seq<char>>>,
    params: Seq<Seq<Seq<char>>>,
    st: EmitState,
    f: TirFunction,
    k: nat,
) -> EmitState
    decreases k,
{
    if k == 0 {
        st
    } else {
        block_emit(fns, externs, vt, structs, params, blocks_emit(fns, externs, vt, structs, params, st, f, (k - 1) as nat), f, f.blocks@[k - 1])
    }
}

/// Emitting the definition of the module's `idx`th function, its variables
/// typed as `function_vars` finds them, each of its instructions carrying
/// the function's debug location.
pub open spec fn function_emit(
    fns: Seq<Seq<char>>,
    externs: Seq<Seq<char>>,
    structs: Seq<Seq<Seq<char>>>,
    params: Seq<Seq<Seq<char>>>,
    st: EmitState,
    f: TirFunction,
    idx: nat,
) -> EmitState {
    let vt = function_vars(fns, f);
    let s0 = (st.0, st.1, function_head(f, vt, idx));
    let s1 = blocks_emit(fns, externs, vt, structs, params, s0, f, f.blocks@.len());
    (s1.0, s1.1, st.2 + dbg_lines(s1.2 + "}\n\n"@, dbg_suffix(idx)))
}

/// The temporaries a block's instructions and terminator can take.
pub open spec fn block_budget(b: TirBlock) -> nat {
    insts_budget(b.instructions@) + 16
}

pub open spec fn insts_budget(insts: Seq<Instruction>) -> nat
    decreases insts.len(),
{
    if insts.len() == 0 {
        0
    } else {
        insts_budget(insts.drop_last()) + inst_width(insts.last()) + 80
    }
}

pub open spec fn blocks_budget(bs: Seq<TirBlock>) -> nat
    decreases bs.len(),
{
    if bs.len() == 0 {
        0
    } else {
        blocks_budget(bs.drop_last()) + block_budget(bs.last())
    }
}

/// Every instruction of the function computes sizes that fit a `usize`.
pub open spec fn function_fits(f: TirFunction) -> bool {
    forall|i: int, j: int| 0 <= i < f.blocks@.len() && 0 <= j < f.blocks@[i].instructions@.len()
        ==> inst_fits(#[trigger] f.blocks@[i].instructions@[j])
}


/// Interning texts in order.
pub open spec fn intern_all(strs: Seq<Seq<char>>, es: Seq<Seq<char>>) -> Seq<Seq<char>>
    decreases es.len(),
{
    if es.len() == 0 {
        strs
    } else {
        intern_spec(intern_all(strs, es.drop_last()), es.last()).0
    }
}

pub open spec fn op_strs(op: Operand) -> Seq<Seq<char>> {
    match op {
        Operand::Constant(TirConstant::Str(s)) => seq![s@],
        _ => seq![],
    }
}

pub open spec fn ops_strs(ops: Seq<Operand>) -> Seq<Seq<char>>
    decreases ops.len(),
{
    if ops.len() == 0 {
        seq![]
    } else {
        ops_strs(ops.drop_last()) + op_strs(ops.last())
    }
}

/// The string literals an rvalue holds, in order.
pub open spec fn rvalue_strs(rv: RValue) -> Seq<Seq<char>> {
    match rv {
        RValue::Use(op) => op_strs(op),
        RValue::Cast { operand, .. } => op_strs(operand),
        RValue::Ref { operand, .. } => op_strs(operand),
        RValue::Deref(op) => op_strs(op),
        RValue::AddrOf(op) => op_strs(op),
        RValue::BinaryOp(_, l, r) => op_strs(l) + op_strs(r),
        RValue::FieldAccess { target, .. } => op_strs(target),
        RValue::MethodCall { target, args, .. } => op_strs(target) + ops_strs(args@),
        RValue::StructInit { fields, .. } => ops_strs(field_ops(fields@)),
        RValue::EnumInit { payload, .. } => ops_strs(payload@),
        RValue::EnumTag(t) => op_strs(t),
        RValue::EnumPayload { target, .. } => op_strs(target),
        RValue::ArrayInit { elements, .. } => ops_strs(elements@),
        RValue::ArrayIndex { target, index, .. } => op_strs(target) + op_strs(index),
    }
}

/// The non-empty pieces of a format string.
pub open spec fn nonempty(ps: Seq<Seq<char>>) -> Seq<Seq<char>>
    decreases ps.len(),
{
    if ps.len() == 0 {
        seq![]
    } else {
        nonempty(ps.drop_last()) + if ps.last().len() > 0 { seq![ps.last()] } else { seq![] }
    }
}

/// The texts `println` prints literally: its format string and its pieces.
pub open spec fn println_strs(args: Seq<Operand>) -> Seq<Seq<char>> {
    if args.len() > 0 {
        match args[0] {
            Operand::Constant(TirConstant::Str(fmt)) => seq![fmt@] + nonempty(split_braces(fmt@)),
            _ => seq![],
        }
    } else {
        seq![]
    }
}

/// The texts an instruction needs as string constants, in order.
pub open spec fn inst_strs(inst: Instruction) -> Seq<Seq<char>> {
    match inst {
        Instruction::Assign { rvalue, .. } => rvalue_strs(rvalue),
        Instruction::PerformEffect { effect, op, args, .. } => seq![effect@, op@, "PlayerOne"@] + ops_strs(args@),
        Instruction::Call { func, args, .. } => (if func@ == "@println"@ { println_strs(args@) } else { seq![] })
            + ops_strs(args@),
        Instruction::SetField { val, .. } => op_strs(val),
        Instruction::ExternCall { args, .. } => ops_strs(args@),
        Instruction::Store { ptr, value } => op_strs(ptr) + op_strs(value),
        _ => seq![],
    }
}

pub open spec fn insts_strs(insts: Seq<Instruction>) -> Seq<Seq<char>>
    decreases insts.len(),
{
    if insts.len() == 0 {
        seq![]
    } else {
        insts_strs(insts.drop_last()) + inst_strs(insts.last())
    }
}

pub open spec fn blocks_strs(bs: Seq<TirBlock>) -> Seq<Seq<char>>
    decreases bs.len(),
{
    if bs.len() == 0 {
        seq![]
    } else {
        blocks_strs(bs.drop_last()) + insts_strs(bs.last().instructions@)
    }
}

/// The texts of all the module's instructions, function by function.
pub open spec fn module_strs(fs: Seq<TirFunction>) -> Seq<Seq<char>>
    decreases fs.len(),
{
    if fs.len() == 0 {
        seq![]
    } else {
        module_strs(fs.drop_last()) + blocks_strs(fs.last().blocks@)
    }
}

proof fn lemma_intern_all_concat(m: Seq<Seq<char>>, a: Seq<Seq<char>>, b: Seq<Seq<char>>)
    ensures
        intern_all(m, a + b) == intern_all(intern_all(m, a), b),
    decreases b.len(),
{
    if b.len() == 0 {
        assert(a + b =~= a);
    } else {
        lemma_intern_all_concat(m, a, b.drop_last());
        assert((a + b).drop_last() =~= a + b.drop_last());
        assert((a + b).last() == b.last());
    }
}

proof fn lemma_intern_all_one(m: Seq<Seq<char>>, x: Seq<char>)
    ensures
        intern_all(m, seq![x]) == intern_spec(m, x).0,
{
    assert(seq![x].drop_last() =~= Seq::<Seq<char>>::empty());
    assert(intern_all(m, seq![x].drop_last()) == m);
}


/// The opening of the module text: the banner, the target, and the C
/// library routines the runtime calls.
pub open spec fn module_opening() -> Seq<char> {
    "; ==========================================================\n; Tungsten Native LLVM Textual IR\n; Zero-cost compilation target with auto-SIMD and LTO support\n; ==========================================================\n\ntarget datalayout = \"e-m:w-p270:32:32-p271:32:32-p272:64:64-i64:64-i128:128-f80:128-n8:16:32:64-S128\"\ntarget triple = \"x86_64-pc-windows-gnu\"\n\n; C Library Runtime Declarations\ndeclare i32 @printf(ptr, ...)\ndeclare i32 @putchar(i32)\ndeclare void @exit(i32)\ndeclare ptr @malloc(i64)\ndeclare ptr @realloc(ptr, i64)\ndeclare void @free(ptr)\ndeclare void @Sleep(i32)\ndeclare i32 @WSAStartup(i16, ptr)\ndeclare i64 @socket(i32, i32, i32)\ndeclare i32 @bind(i64, ptr, i32)\ndeclare i32 @listen(i64, i32)\ndeclare i64 @accept(i64, ptr, ptr)\ndeclare i32 @recv(i64, ptr, i32, i32)\ndeclare i32 @send(i64, ptr, i32, i32)\ndeclare i32 @closesocket(i64)\ndeclare i32 @setsockopt(i64, i32, i32, ptr, i32)\ndeclare i64 @strlen(ptr)\ndeclare ptr @CreateThread(ptr, i64, ptr, ptr, i32, ptr)\ndeclare i32 @CloseHandle(ptr)\ndeclare ptr @CreateSemaphoreA(ptr, i32, i32, ptr)\ndeclare ptr @CreateMutexA(ptr, i32, ptr)\ndeclare i32 @WaitForSingleObject(ptr, i32)\ndeclare i32 @ReleaseSemaphore(ptr, i32, ptr)\ndeclare i32 @ReleaseMutex(ptr)\n\n"@
}

/// The format strings and the runtime routines, written in LLVM IR.
pub open spec fn module_runtime() -> Seq<char> {
    "\n; Global Format Strings\n@fmt_i64 = internal constant [6 x i8] c\"%lld\\0A\\00\"\n@fmt_i64_raw = internal constant [5 x i8] c\"%lld\\00\"\n@fmt_str = internal constant [4 x i8] c\"%s\\0A\\00\"\n@fmt_str_raw = internal constant [3 x i8] c\"%s\\00\"\n@fmt_io_str = internal constant [9 x i8] c\"[IO] %s\\0A\\00\"\n@fmt_io_empty = internal constant [6 x i8] c\"[IO]\\0A\\00\"\n@panic_fmt = internal constant [57 x i8] c\"\\0A[Tungsten Refinement Panic]: %lld outside [%lld, %lld]\\0A\\00\"\n\n; Tungsten Native Runtime Functions\ndefine void @tungsten_print_i64(i64 %v) {\n    call i32 (ptr, ...) @printf(ptr @fmt_i64_raw, i64 %v)\n    ret void\n}\n\ndefine void @tungsten_println_i64(i64 %v) {\n    call i32 (ptr, ...) @printf(ptr @fmt_i64, i64 %v)\n    ret void\n}\n\ndefine void @tungsten_print_str(ptr %s, i64 %len) {\n    %null_check = icmp eq ptr %s, null\n    br i1 %null_check, label %ret_blk, label %print_blk\nprint_blk:\n    call i32 (ptr, ...) @printf(ptr @fmt_str_raw, ptr %s)\n    br label %ret_blk\nret_blk:\n    ret void\n}\n\ndefine void @tungsten_println_str(ptr %s, i64 %len) {\n    %null_check = icmp eq ptr %s, null\n    br i1 %null_check, label %empty_blk, label %print_blk\nprint_blk:\n    call i32 (ptr, ...) @printf(ptr @fmt_str, ptr %s)\n    ret void\nempty_blk:\n    call i32 @putchar(i32 10)\n    ret void\n}\n\ndefine void @tungsten_io_print(ptr %s, i64 %len) {\n    %null_check = icmp eq ptr %s, null\n    br i1 %null_check, label %empty_blk, label %print_blk\nprint_blk:\n    call i32 (ptr, ...) @printf(ptr @fmt_io_str, ptr %s)\n    ret void\nempty_blk:\n    call i32 (ptr, ...) @printf(ptr @fmt_io_empty)\n    ret void\n}\n\ndefine void @tungsten_refinement_panic(i64 %val, i64 %min_v, i64 %max_v) {\n    call i32 (ptr, ...) @printf(ptr @panic_fmt, i64 %val, i64 %min_v, i64 %max_v)\n    call void @exit(i32 101)\n    unreachable\n}\n\ndefine ptr @tungsten_alloc(i64 %size, i64 %align) {\n    %is_zero = icmp eq i64 %size, 0\n    %alloc_sz = select i1 %is_zero, i64 8, i64 %size\n    %p = call ptr @malloc(i64 %alloc_sz)\n    ret ptr %p\n}\n\ndefine ptr @tungsten_region_enter() {\n    %arena = call ptr @malloc(i64 24)\n    %buf = call ptr @malloc(i64 8192)\n    store ptr %buf, ptr %arena\n    %offset_ptr = getelementptr inbounds i8, ptr %arena, i64 8\n    store i64 0, ptr %offset_ptr\n    %cap_ptr = getelementptr inbounds i8, ptr %arena, i64 16\n    store i64 8192, ptr %cap_ptr\n    ret ptr %arena\n}\n\ndefine ptr @tungsten_region_alloc(ptr %arena, i64 %size, i64 %align) {\n    %offset_ptr = getelementptr inbounds i8, ptr %arena, i64 8\n    %offset = load i64, ptr %offset_ptr\n    %buf_ptr = load ptr, ptr %arena\n    %ptr = getelementptr inbounds i8, ptr %buf_ptr, i64 %offset\n    %new_offset = add i64 %offset, %size\n    store i64 %new_offset, ptr %offset_ptr\n    ret ptr %ptr\n}\n\ndefine void @tungsten_region_exit(ptr %arena) {\n    %is_null = icmp eq ptr %arena, null\n    br i1 %is_null, label %done, label %free_blk\nfree_blk:\n    %buf = load ptr, ptr %arena\n    call void @free(ptr %buf)\n    call void @free(ptr %arena)\n    br label %done\ndone:\n    ret void\n}\n\ndefine void @tungsten_trace_effect(ptr %eff, i64 %elen, ptr %op, i64 %olen) {\n    ret void\n}\n\ndefine i32 @tungsten_thread_thunk(ptr %param) {\n    %fn_slot = getelementptr inbounds i8, ptr %param, i64 0\n    %fn_ptr = load ptr, ptr %fn_slot\n    %a1_slot = getelementptr inbounds i8, ptr %param, i64 8\n    %a1 = load i64, ptr %a1_slot\n    %a2_slot = getelementptr inbounds i8, ptr %param, i64 16\n    %a2 = load i64, ptr %a2_slot\n    call void %fn_ptr(i64 %a1, i64 %a2)\n    call void @free(ptr %param)\n    ret i32 0\n}\n\ndefine i64 @tungsten_fiber_spawn(ptr %fn_ptr, i64 %a1, i64 %a2) {\n    %ctx = call ptr @malloc(i64 24)\n    %fn_slot = getelementptr inbounds i8, ptr %ctx, i64 0\n    store ptr %fn_ptr, ptr %fn_slot\n    %a1_slot = getelementptr inbounds i8, ptr %ctx, i64 8\n    store i64 %a1, ptr %a1_slot\n    %a2_slot = getelementptr inbounds i8, ptr %ctx, i64 16\n    store i64 %a2, ptr %a2_slot\n    %th = call ptr @CreateThread(ptr null, i64 0, ptr @tungsten_thread_thunk, ptr %ctx, i32 0, ptr null)\n    %is_null = icmp eq ptr %th, null\n    br i1 %is_null, label %spawn_done, label %close_th\nclose_th:\n    call i32 @CloseHandle(ptr %th)\n    br label %spawn_done\nspawn_done:\n    ret i64 1\n}\n\ndefine void @tungsten_fiber_yield() {\n    call void @Sleep(i32 0)\n    ret void\n}\n\ndefine void @tungsten_fiber_sleep(i64 %ms) {\n    %trunc = trunc i64 %ms to i32\n    call void @Sleep(i32 %trunc)\n    ret void\n}\n\ndefine ptr @tungsten_nursery_enter() {\n    %nur = call ptr @malloc(i64 16)\n    store i64 0, ptr %nur\n    ret ptr %nur\n}\n\ndefine i32 @tungsten_nursery_thread_thunk(ptr %param) {\n    %fn_slot = getelementptr inbounds i8, ptr %param, i64 0\n    %fn_ptr = load ptr, ptr %fn_slot\n    %a1_slot = getelementptr inbounds i8, ptr %param, i64 8\n    %a1 = load i64, ptr %a1_slot\n    %a2_slot = getelementptr inbounds i8, ptr %param, i64 16\n    %a2 = load i64, ptr %a2_slot\n    %nur_slot = getelementptr inbounds i8, ptr %param, i64 24\n    %nursery = load ptr, ptr %nur_slot\n    call void %fn_ptr(i64 %a1, i64 %a2)\n    %old = atomicrmw sub ptr %nursery, i64 1 seq_cst, align 8\n    call void @free(ptr %param)\n    ret i32 0\n}\n\ndefine i64 @tungsten_nursery_spawn(ptr %nursery, ptr %fn_ptr, i64 %a1, i64 %a2) {\n    %old = atomicrmw add ptr %nursery, i64 1 seq_cst, align 8\n    %ctx = call ptr @malloc(i64 32)\n    %fn_slot = getelementptr inbounds i8, ptr %ctx, i64 0\n    store ptr %fn_ptr, ptr %fn_slot\n    %a1_slot = getelementptr inbounds i8, ptr %ctx, i64 8\n    store i64 %a1, ptr %a1_slot\n    %a2_slot = getelementptr inbounds i8, ptr %ctx, i64 16\n    store i64 %a2, ptr %a2_slot\n    %nur_slot = getelementptr inbounds i8, ptr %ctx, i64 24\n    store ptr %nursery, ptr %nur_slot\n    %th = call ptr @CreateThread(ptr null, i64 0, ptr @tungsten_nursery_thread_thunk, ptr %ctx, i32 0, ptr null)\n    %is_null = icmp eq ptr %th, null\n    br i1 %is_null, label %spawn_done, label %close_th\nclose_th:\n    call i32 @CloseHandle(ptr %th)\n    br label %spawn_done\nspawn_done:\n    ret i64 1\n}\n\ndefine void @tungsten_nursery_wait_all(ptr %nursery) {\nentry:\n    %is_null = icmp eq ptr %nursery, null\n    br i1 %is_null, label %done, label %poll_loop\npoll_loop:\n    %cnt = load atomic i64, ptr %nursery acquire, align 8\n    %is_zero = icmp eq i64 %cnt, 0\n    br i1 %is_zero, label %free_nur, label %yield_sleep\nyield_sleep:\n    call void @Sleep(i32 0)\n    br label %poll_loop\nfree_nur:\n    call void @free(ptr %nursery)\n    br label %done\ndone:\n    ret void\n}\n\ndefine i64 @tungsten_channel_bounded(i64 %cap) {\n    %ch = call ptr @malloc(i64 64)\n    %buf_sz = mul i64 %cap, 8\n    %buf = call ptr @malloc(i64 %buf_sz)\n    store ptr %buf, ptr %ch\n    %head_ptr = getelementptr inbounds i8, ptr %ch, i64 8\n    store i64 0, ptr %head_ptr\n    %tail_ptr = getelementptr inbounds i8, ptr %ch, i64 16\n    store i64 0, ptr %tail_ptr\n    %cnt_ptr = getelementptr inbounds i8, ptr %ch, i64 24\n    store i64 0, ptr %cnt_ptr\n    %cap_ptr = getelementptr inbounds i8, ptr %ch, i64 32\n    store i64 %cap, ptr %cap_ptr\n    %cap32 = trunc i64 %cap to i32\n    %sem_items = call ptr @CreateSemaphoreA(ptr null, i32 0, i32 %cap32, ptr null)\n    %items_ptr = getelementptr inbounds i8, ptr %ch, i64 40\n    store ptr %sem_items, ptr %items_ptr\n    %sem_slots = call ptr @CreateSemaphoreA(ptr null, i32 %cap32, i32 %cap32, ptr null)\n    %slots_ptr = getelementptr inbounds i8, ptr %ch, i64 48\n    store ptr %sem_slots, ptr %slots_ptr\n    %mtx = call ptr @CreateMutexA(ptr null, i32 0, ptr null)\n    %mtx_ptr = getelementptr inbounds i8, ptr %ch, i64 56\n    store ptr %mtx, ptr %mtx_ptr\n    %res = ptrtoint ptr %ch to i64\n    ret i64 %res\n}\n\ndefine i64 @tungsten_channel_new() {\n    %res = call i64 @tungsten_channel_bounded(i64 1024)\n    ret i64 %res\n}\n\ndefine void @tungsten_channel_send(i64 %cid, i64 %val) {\n    %ch = inttoptr i64 %cid to ptr\n    %slots_ptr = getelementptr inbounds i8, ptr %ch, i64 48\n    %sem_slots = load ptr, ptr %slots_ptr\n    call i32 @WaitForSingleObject(ptr %sem_slots, i32 -1)\n    %mtx_ptr = getelementptr inbounds i8, ptr %ch, i64 56\n    %mtx = load ptr, ptr %mtx_ptr\n    call i32 @WaitForSingleObject(ptr %mtx, i32 -1)\n    %buf = load ptr, ptr %ch\n    %tail_ptr = getelementptr inbounds i8, ptr %ch, i64 16\n    %tail = load i64, ptr %tail_ptr\n    %slot_ptr = getelementptr inbounds i64, ptr %buf, i64 %tail\n    store i64 %val, ptr %slot_ptr\n    %cap_ptr = getelementptr inbounds i8, ptr %ch, i64 32\n    %cap = load i64, ptr %cap_ptr\n    %next_tail = add i64 %tail, 1\n    %rem_tail = urem i64 %next_tail, %cap\n    store i64 %rem_tail, ptr %tail_ptr\n    %cnt_ptr = getelementptr inbounds i8, ptr %ch, i64 24\n    %cnt = load i64, ptr %cnt_ptr\n    %next_cnt = add i64 %cnt, 1\n    store i64 %next_cnt, ptr %cnt_ptr\n    call i32 @ReleaseMutex(ptr %mtx)\n    %items_ptr = getelementptr inbounds i8, ptr %ch, i64 40\n    %sem_items = load ptr, ptr %items_ptr\n    call i32 @ReleaseSemaphore(ptr %sem_items, i32 1, ptr null)\n    ret void\n}\n\ndefine i64 @tungsten_channel_recv(i64 %cid) {\n    %ch = inttoptr i64 %cid to ptr\n    %items_ptr = getelementptr inbounds i8, ptr %ch, i64 40\n    %sem_items = load ptr, ptr %items_ptr\n    call i32 @WaitForSingleObject(ptr %sem_items, i32 -1)\n    %mtx_ptr = getelementptr inbounds i8, ptr %ch, i64 56\n    %mtx = load ptr, ptr %mtx_ptr\n    call i32 @WaitForSingleObject(ptr %mtx, i32 -1)\n    %buf = load ptr, ptr %ch\n    %head_ptr = getelementptr inbounds i8, ptr %ch, i64 8\n    %head = load i64, ptr %head_ptr\n    %slot_ptr = getelementptr inbounds i64, ptr %buf, i64 %head\n    %val = load i64, ptr %slot_ptr\n    %cap_ptr = getelementptr inbounds i8, ptr %ch, i64 32\n    %cap = load i64, ptr %cap_ptr\n    %next_head = add i64 %head, 1\n    %rem_head = urem i64 %next_head, %cap\n    store i64 %rem_head, ptr %head_ptr\n    %cnt_ptr = getelementptr inbounds i8, ptr %ch, i64 24\n    %cnt = load i64, ptr %cnt_ptr\n    %next_cnt = sub i64 %cnt, 1\n    store i64 %next_cnt, ptr %cnt_ptr\n    call i32 @ReleaseMutex(ptr %mtx)\n    %slots_ptr = getelementptr inbounds i8, ptr %ch, i64 48\n    %sem_slots = load ptr, ptr %slots_ptr\n    call i32 @ReleaseSemaphore(ptr %sem_slots, i32 1, ptr null)\n    ret i64 %val\n}\n\ndefine i64 @tungsten_net_listen(i64 %port) {\n    %wsa_buf = alloca [400 x i8]\n    call i32 @WSAStartup(i16 514, ptr %wsa_buf)\n    %sock = call i64 @socket(i32 2, i32 1, i32 6)\n    %opt_val = alloca i32\n    store i32 1, ptr %opt_val\n    call i32 @setsockopt(i64 %sock, i32 65535, i32 4, ptr %opt_val, i32 4)\n    %addr = alloca [16 x i8]\n    store i16 2, ptr %addr\n    %p_lo = and i64 %port, 255\n    %p_sh = shl i64 %p_lo, 8\n    %p_hi = lshr i64 %port, 8\n    %p_hi_m = and i64 %p_hi, 255\n    %net_port = or i64 %p_sh, %p_hi_m\n    %net_port16 = trunc i64 %net_port to i16\n    %port_ptr = getelementptr inbounds i8, ptr %addr, i64 2\n    store i16 %net_port16, ptr %port_ptr\n    %addr_ptr = getelementptr inbounds i8, ptr %addr, i64 4\n    store i32 0, ptr %addr_ptr\n    %zero_ptr = getelementptr inbounds i8, ptr %addr, i64 8\n    store i64 0, ptr %zero_ptr\n    call i32 @bind(i64 %sock, ptr %addr, i32 16)\n    call i32 @listen(i64 %sock, i32 128)\n    ret i64 %sock\n}\n\ndefine i64 @tungsten_net_accept(i64 %listener) {\n    %conn = call i64 @accept(i64 %listener, ptr null, ptr null)\n    ret i64 %conn\n}\n\ndefine i64 @tungsten_net_connect(ptr %host, i64 %port) {\n    ret i64 0\n}\n\ndefine ptr @tungsten_net_read(i64 %conn, i64 %max_len) {\n    %buf_sz = add i64 %max_len, 1\n    %buf = call ptr @malloc(i64 %buf_sz)\n    %trunc_len = trunc i64 %max_len to i32\n    %n = call i32 @recv(i64 %conn, ptr %buf, i32 %trunc_len, i32 0)\n    %n_is_neg = icmp slt i32 %n, 0\n    %n_bytes = select i1 %n_is_neg, i32 0, i32 %n\n    %n_i64 = sext i32 %n_bytes to i64\n    %term_ptr = getelementptr inbounds i8, ptr %buf, i64 %n_i64\n    store i8 0, ptr %term_ptr\n    ret ptr %buf\n}\n\ndefine i64 @tungsten_net_write(i64 %conn, ptr %data, i64 %len) {\n    %str_len = call i64 @strlen(ptr %data)\n    %trunc_len = trunc i64 %str_len to i32\n    %res = call i32 @send(i64 %conn, ptr %data, i32 %trunc_len, i32 0)\n    %res_i64 = sext i32 %res to i64\n    ret i64 %res_i64\n}\n\ndefine void @tungsten_net_close(i64 %conn) {\n    call i32 @closesocket(i64 %conn)\n    ret void\n}\n\ndefine i32 @tungsten_foreign_call_thunk(ptr %ctx) {\n    %fn_slot = getelementptr inbounds i8, ptr %ctx, i64 0\n    %fn_ptr = load ptr, ptr %fn_slot\n    %a1_slot = getelementptr inbounds i8, ptr %ctx, i64 8\n    %a1 = load i64, ptr %a1_slot\n    %res = call i64 %fn_ptr(i64 %a1)\n    %res_slot = getelementptr inbounds i8, ptr %ctx, i64 16\n    store i64 %res, ptr %res_slot\n    %sem_slot = getelementptr inbounds i8, ptr %ctx, i64 24\n    %sem = load ptr, ptr %sem_slot\n    call i32 @ReleaseSemaphore(ptr %sem, i32 1, ptr null)\n    ret i32 0\n}\n\ndefine i64 @tungsten_foreign_call_offload(ptr %fn_ptr, i64 %a1) {\n    %sem = call ptr @CreateSemaphoreA(ptr null, i32 0, i32 1, ptr null)\n    %ctx = call ptr @malloc(i64 32)\n    %fn_slot = getelementptr inbounds i8, ptr %ctx, i64 0\n    store ptr %fn_ptr, ptr %fn_slot\n    %a1_slot = getelementptr inbounds i8, ptr %ctx, i64 8\n    store i64 %a1, ptr %a1_slot\n    %sem_slot = getelementptr inbounds i8, ptr %ctx, i64 24\n    store ptr %sem, ptr %sem_slot\n    %th = call ptr @CreateThread(ptr null, i64 0, ptr @tungsten_foreign_call_thunk, ptr %ctx, i32 0, ptr null)\n    br label %poll\npoll:\n    %w = call i32 @WaitForSingleObject(ptr %sem, i32 0)\n    %done = icmp eq i32 %w, 0\n    br i1 %done, label %finish, label %yield_poll\nyield_poll:\n    call void @Sleep(i32 0)\n    br label %poll\nfinish:\n    call i32 @CloseHandle(ptr %th)\n    call i32 @CloseHandle(ptr %sem)\n    %res_slot = getelementptr inbounds i8, ptr %ctx, i64 16\n    %res = load i64, ptr %res_slot\n    call void @free(ptr %ctx)\n    ret i64 %res\n}\n\n"@
}

/// The C routines the opening already declares.
pub open spec fn builtin_c_names() -> Seq<Seq<char>> {
    seq!["printf"@, "putchar"@, "exit"@, "malloc"@, "realloc"@, "free"@, "Sleep"@, "WSAStartup"@, "socket"@, "bind"@, "listen"@, "accept"@, "recv"@, "send"@, "closesocket"@, "setsockopt"@, "strlen"@, "CreateThread"@, "CloseHandle"@, "CreateSemaphoreA"@, "CreateMutexA"@, "WaitForSingleObject"@, "ReleaseSemaphore"@, "ReleaseMutex"@]
}

/// The signature of a function declared in an extern block: its name, its
/// LLVM return type and its LLVM parameter types.
pub type ExternDeclV = (Seq<char>, Seq<char>, Seq<Seq<char>>);

/// The declarations of the extern functions not declared before, each once,
/// in order; with the names declared so far.
pub open spec fn extern_decls_text(declared: Seq<Seq<char>>, ds: Seq<ExternDeclV>) -> (Seq<Seq<char>>, Seq<char>)
    decreases ds.len(),
{
    if ds.len() == 0 {
        (declared, seq![])
    } else {
        let (dn, text) = extern_decls_text(declared, ds.drop_last());
        let d = ds.last();
        if dn.contains(d.0) {
            (dn, text)
        } else {
            (dn.push(d.0), text + ("declare "@ + d.1 + " @"@ + d.0 + "("@ + join(d.2, ", "@) + ")\n"@))
        }
    }
}

/// The global constants of the interned literals, the `i`th as `@str_i`.
pub open spec fn string_globals(strs: Seq<Seq<char>>) -> Seq<char>
    decreases strs.len(),
{
    if strs.len() == 0 {
        seq![]
    } else {
        let i = (strs.len() - 1) as nat;
        let x = strs.last();
        string_globals(strs.drop_last()) + ("@str_"@ + nat_decimal(i) + " = internal constant ["@ + nat_decimal(
            utf8_len(x) + 1,
        ) + " x i8] c\""@ + llvm_escaped(x) + "\\00\"\n"@)
    }
}

/// Emitting the first `k` functions of the module.
pub open spec fn functions_emit(
    fns: Seq<Seq<char>>,
    externs: Seq<Seq<char>>,
    structs: Seq<Seq<Seq<char>>>,
    params: Seq<Seq<Seq<char>>>,
    st: EmitState,
    fs: Seq<TirFunction>,
    k: nat,
) -> EmitState
    decreases k,
{
    if k == 0 {
        st
    } else {
        function_emit(
            fns,
            externs,
            structs,
            params,
            functions_emit(fns, externs, structs, params, st, fs, (k - 1) as nat),
            fs[k - 1],
            (k - 1) as nat,
        )
    }
}

pub open spec fn module_budget(fs: Seq<TirFunction>) -> nat
    decreases fs.len(),
{
    if fs.len() == 0 {
        0
    } else {
        module_budget(fs.drop_last()) + blocks_budget(fs.last().blocks@)
    }
}

/// The module's debug metadata: the module flags, the compile unit and its
/// file, the subroutine type, then the subprograms of its functions.
pub open spec fn debug_header() -> Seq<char> {
    "\n!llvm.module.flags = !{!0, !1}\n!llvm.dbg.cu = !{!2}\n\n!0 = !{i32 2, !\"Dwarf Version\", i32 4}\n!1 = !{i32 2, !\"Debug Info Version\", i32 3}\n!2 = distinct !DICompileUnit(language: DW_LANG_C, file: !3, producer: \"Tungsten Compiler\", isOptimized: false, runtimeVersion: 0, emissionKind: FullDebug)\n!3 = !DIFile(filename: \"main.tg\", directory: \".\")\n!4 = !DISubroutineType(types: !{})\n"@
}

/// The debug subprogram of the module's `idx`th function, named `name`, and
/// the location its instructions carry.
pub open spec fn subprogram_text(idx: nat, name: Seq<char>) -> Seq<char> {
    "!"@ + nat_decimal(subprogram_id(idx)) + " = distinct !DISubprogram(name: \""@ + name
        + "\", scope: !3, file: !3, line: 0, type: !4, scopeLine: 0, spFlags: DISPFlagDefinition, unit: !2)\n!"@
        + nat_decimal(location_id(idx)) + " = !DILocation(line: 0, column: 0, scope: !"@ + nat_decimal(subprogram_id(idx))
        + ")\n"@
}

/// The subprograms of the first `k` functions.
pub open spec fn subprograms_text(fs: Seq<TirFunction>, k: nat) -> Seq<char>
    decreases k,
{
    if k == 0 {
        seq![]
    } else {
        subprograms_text(fs, (k - 1) as nat) + subprogram_text((k - 1) as nat, fs[k - 1].name@)
    }
}

/// The whole LLVM text of a module: the opening, the extern declarations,
/// the runtime, the string constants of the literals its instructions hold,
/// its functions, then its debug metadata.
pub open spec fn module_text(
    fns: Seq<Seq<char>>,
    externs: Seq<Seq<char>>,
    structs: Seq<Seq<Seq<char>>>,
    params: Seq<Seq<Seq<char>>>,
    st: EmitState,
    fs: Seq<TirFunction>,
    decls: Seq<ExternDeclV>,
) -> Seq<char> {
    let strs = intern_all(st.0, module_strs(fs));
    let header = module_opening() + extern_decls_text(builtin_c_names(), decls).1 + module_runtime()
        + "; User String Literals\n"@ + string_globals(strs) + "\n"@;
    header + functions_emit(fns, externs, structs, params, (strs, st.1, st.2), fs, fs.len()).2 + debug_header()
        + subprograms_text(fs, fs.len())
}


/// A function declared in an extern block: its name and the LLVM types of
/// its result and parameters.
pub struct ExternDecl {
    pub name: String,
    pub ret: String,
    pub params: Vec<String>,
}

pub open spec fn decl_view(d: ExternDecl) -> ExternDeclV {
    (d.name@, d.ret@, Seq::new(d.params@.len(), |i: int| d.params@[i]@))
}

/// Every text short enough that its UTF-8 length and one more byte fit a
/// `usize`.
pub open spec fn texts_fit(ts: Seq<Seq<char>>) -> bool {
    forall|i: int| 0 <= i < ts.len() ==> 4 * (#[trigger] ts[i]).len() + 8 <= usize::MAX
}

proof fn lemma_intern_all_fits(m: Seq<Seq<char>>, es: Seq<Seq<char>>)
    requires
        texts_fit(m),
        texts_fit(es),
    ensures
        texts_fit(intern_all(m, es)),
    decreases es.len(),
{
    if es.len() > 0 {
        assert(texts_fit(es.drop_last())) by {
            assert forall|i: int| 0 <= i < es.drop_last().len() implies 4 * (#[trigger] es.drop_last()[i]).len() + 8 <= usize::MAX by {
                assert(es.drop_last()[i] == es[i]);
            }
        }
        lemma_intern_all_fits(m, es.drop_last());
        assert(es.last() == es[es.len() - 1]);
    }
}

/// The state of the LLVM text emitter: the names of the module's functions
/// and of those declared in its extern blocks, the LLVM types of the
/// variables of the function being emitted, the interned string literals,
/// the temporary counter, the number of functions emitted and the text
/// written.
pub struct LlvmTextEmitter {
    fn_params: Vec<Vec<Vec<char>>>,
    structs: Vec<Vec<Vec<char>>>,
    fns: Vec<Vec<char>>,
    externs: Vec<Vec<char>>,
    var_types: Vec<(Var, Vec<char>)>,
    strings: Vec<Vec<char>>,
    temp_counter: usize,
    fn_index: usize,
    out: Vec<char>,
}

/// The LLVM types of a function's parameters.
pub open spec fn param_tys(params: Seq<(Var, Type)>) -> Seq<Seq<char>> {
    Seq::new(params.len(), |j: int| llvm_type(params[j].1))
}

pub open spec fn dseq(v: Seq<Vec<char>>) -> Seq<Seq<char>> {
    Seq::new(v.len(), |i: int| v[i]@)
}

pub open spec fn dvt(v: Seq<(Var, Vec<char>)>) -> Seq<(Var, Seq<char>)> {
    Seq::new(v.len(), |i: int| (v[i].0, v[i].1@))
}

/// Whether `name` is among `names`.
fn contains_name(names: &Vec<Vec<char>>, name: &[char]) -> (r: bool)
    ensures
        r == dseq(names@).contains(name@),
{
    let mut k: usize = 0;
    while k < names.len()
        invariant
            k <= names@.len(),
            forall|m: int| 0 <= m < k ==> names@[m]@ != name@,
        decreases names@.len() - k,
    {
        if chars_eq(names[k].as_slice(), name) {
            assert(dseq(names@)[k as int] == name@);
            return true;
        }
        k = k + 1;
    }
    proof {
        if dseq(names@).contains(name@) {
            let i = choose|i: int| 0 <= i < dseq(names@).len() && dseq(names@)[i] == name@;
            assert(names@[i]@ == name@);
        }
    }
    false
}

fn copy_chars(v: &[char]) -> (r: Vec<char>)
    ensures
        r@ == v@,
{
    let mut r: Vec<char> = Vec::new();
    extend_chars(&mut r, v);
    r
}


fn build_refinement_check(
    lo: &Vec<char>,
    hi: &Vec<char>,
    err: &Vec<char>,
    id: &Vec<char>,
    w: &Vec<char>,
    lo_s: &Vec<char>,
    hi_s: &Vec<char>,
) -> (text: Vec<char>)
    ensures
        text@ == refinement_check_text(lo@, hi@, err@, id@, w@, lo_s@, hi_s@),
{
        let mut text = str_chars("    ");
        extend_chars(&mut text, lo.as_slice());
        extend_lit(&mut text, " = icmp slt i64 ");
        extend_chars(&mut text, w.as_slice());
        extend_lit(&mut text, ", ");
        extend_chars(&mut text, lo_s.as_slice());
        extend_lit(&mut text, "\n");
        extend_lit(&mut text, "    ");
        extend_chars(&mut text, hi.as_slice());
        extend_lit(&mut text, " = icmp sgt i64 ");
        extend_chars(&mut text, w.as_slice());
        extend_lit(&mut text, ", ");
        extend_chars(&mut text, hi_s.as_slice());
        extend_lit(&mut text, "\n");
        extend_lit(&mut text, "    ");
        extend_chars(&mut text, err.as_slice());
        extend_lit(&mut text, " = or i1 ");
        extend_chars(&mut text, lo.as_slice());
        extend_lit(&mut text, ", ");
        extend_chars(&mut text, hi.as_slice());
        extend_lit(&mut text, "\n");
        extend_lit(&mut text, "    br i1 ");
        extend_chars(&mut text, err.as_slice());
        extend_lit(&mut text, ", label %panic_");
        extend_chars(&mut text, id.as_slice());
        extend_lit(&mut text, ", label %cont_");
        extend_chars(&mut text, id.as_slice());
        extend_lit(&mut text, "\n");
        extend_lit(&mut text, "panic_");
        extend_chars(&mut text, id.as_slice());
        extend_lit(&mut text, ":\n");
        extend_lit(&mut text, "    call void @tungsten_refinement_panic(i64 ");
        extend_chars(&mut text, w.as_slice());
        extend_lit(&mut text, ", i64 ");
        extend_chars(&mut text, lo_s.as_slice());
        extend_lit(&mut text, ", i64 ");
        extend_chars(&mut text, hi_s.as_slice());
        extend_lit(&mut text, ")\n");
        extend_lit(&mut text, "    unreachable\n");
        extend_lit(&mut text, "cont_");
        extend_chars(&mut text, id.as_slice());
        extend_lit(&mut text, ":\n");
        assert(text@ =~= refinement_check_text(lo@, hi@, err@, id@, w@, lo_s@, hi_s@));
        text
}


fn elem_type_exec(sz: usize) -> (r: Vec<char>)
    ensures
        r@ == elem_type(sz as nat),
{
    if sz == 1 {
        str_chars("i8")
    } else if sz == 2 {
        str_chars("i16")
    } else if sz == 4 {
        str_chars("i32")
    } else {
        str_chars("i64")
    }
}

fn build_mul_line(m: &Vec<char>, iw: &[char], d: &Vec<char>) -> (line: Vec<char>)
    ensures
        line@ == "    "@ + m@ + " = mul i64 "@ + iw@ + ", "@ + d@ + "\n"@,
{
    let mut line = str_chars("    ");
    extend_chars(&mut line, m.as_slice());
    extend_lit(&mut line, " = mul i64 ");
    extend_chars(&mut line, iw);
    extend_lit(&mut line, ", ");
    extend_chars(&mut line, d.as_slice());
    extend_lit(&mut line, "\n");
    assert(line@ =~= "    "@ + m@ + " = mul i64 "@ + iw@ + ", "@ + d@ + "\n"@);
    line
}

fn build_gep_load(g: &Vec<char>, tp: &[char], off: &Vec<char>, l: &Vec<char>, et: &Vec<char>) -> (line: Vec<char>)
    ensures
        line@ == "    "@ + g@ + " = getelementptr inbounds i8, ptr "@ + tp@ + ", i64 "@ + off@ + "\n"@ + "    "@ + l@
            + " = load "@ + et@ + ", ptr "@ + g@ + "\n"@,
{
    let mut line = str_chars("    ");
    extend_chars(&mut line, g.as_slice());
    extend_lit(&mut line, " = getelementptr inbounds i8, ptr ");
    extend_chars(&mut line, tp);
    extend_lit(&mut line, ", i64 ");
    extend_chars(&mut line, off.as_slice());
    extend_lit(&mut line, "\n");
    extend_lit(&mut line, "    ");
    extend_chars(&mut line, l.as_slice());
    extend_lit(&mut line, " = load ");
    extend_chars(&mut line, et.as_slice());
    extend_lit(&mut line, ", ptr ");
    extend_chars(&mut line, g.as_slice());
    extend_lit(&mut line, "\n");
    assert(line@ =~= "    "@ + g@ + " = getelementptr inbounds i8, ptr "@ + tp@ + ", i64 "@ + off@ + "\n"@ + "    "@
        + l@ + " = load "@ + et@ + ", ptr "@ + g@ + "\n"@);
    line
}

fn build_zext_line(x: &Vec<char>, et: &Vec<char>, l: &Vec<char>) -> (line: Vec<char>)
    ensures
        line@ == "    "@ + x@ + " = zext "@ + et@ + " "@ + l@ + " to i64\n"@,
{
    let mut line = str_chars("    ");
    extend_chars(&mut line, x.as_slice());
    extend_lit(&mut line, " = zext ");
    extend_chars(&mut line, et.as_slice());
    extend_lit(&mut line, " ");
    extend_chars(&mut line, l.as_slice());
    extend_lit(&mut line, " to i64\n");
    assert(line@ =~= "    "@ + x@ + " = zext "@ + et@ + " "@ + l@ + " to i64\n"@);
    line
}

fn eq_lit_str(a: &Vec<char>, lit: &str) -> (r: bool)
    ensures
        r == (a@ == lit@),
{
    crate::text::eq_lit(a.as_slice(), lit)
}


fn rt_arg(index: usize, default: &str, default_ty: &str, conv: ArgConv, call_ty: &str) -> (r: RtArg)
    ensures
        rt_arg_view(r) == ra(index as nat, default@, default_ty@, conv, call_ty@),
{
    RtArg {
        index,
        default: str_chars(default),
        default_ty: str_chars(default_ty),
        conv,
        call_ty: str_chars(call_ty),
    }
}

fn rt_call(routine: &str, ret: Option<&str>, args: Vec<RtArg>, store: StoreKind) -> (r: RtCall)
    ensures
        rt_call_view(r).0 == routine@,
        rt_call_view(r).1 == (match ret { Some(x) => Some(x@), None => None::<Seq<char>> }),
        rt_call_view(r).2 == Seq::new(args@.len(), |i: int| rt_arg_view(args@[i])),
        rt_call_view(r).3 == store,
{
    let ret_chars = match ret {
        Some(x) => Some(str_chars(x)),
        None => None,
    };
    RtCall { routine: str_chars(routine), ret: ret_chars, args, store }
}

fn plan_io(n: usize) -> (r: Option<RtCall>)
    ensures
        match r {
            Some(c) => io_plan(n as nat) == Some(rt_call_view(c)),
            None => io_plan(n as nat) is None,
        },
{
    proof {
        reveal_strlit("IO");
        reveal_strlit("Async");
        reveal_strlit("Channel");
        reveal_strlit("Nursery");
        reveal_strlit("Net");
        reveal_strlit("Foreign");
        reveal_strlit("ForeignCall");
    }
    if n > 0 {
        let a = rt_arg(0, "", "i64", ArgConv::Keep, "ptr");
        let b = rt_arg(usize::MAX, "0", "i64", ArgConv::Keep, "i64");
        let c = rt_call("tungsten_io_print", None, vec![a, b], StoreKind::AsIs);
        assert(rt_call_view(c).2 =~= seq![ra(0, ""@, "i64"@, ArgConv::Keep, "ptr"@), ra(usize::MAX as nat, "0"@, "i64"@, ArgConv::Keep, "i64"@)]);
        assert(rt_call_view(c).0 == "tungsten_io_print"@);
        assert(rt_call_view(c).1 == None::<Seq<char>>);
        assert(rt_call_view(c).3 == StoreKind::AsIs);
        assert(io_plan(n as nat) == Some(rt_call_view(c)));
        Some(c)
    } else {
        None
    }
}

fn plan_async(op: &[char], n: usize) -> (r: Option<RtCall>)
    ensures
        match r {
            Some(c) => async_plan(op@) == Some(rt_call_view(c)),
            None => async_plan(op@) is None,
        },
{
    proof {
        reveal_strlit("IO");
        reveal_strlit("Async");
    }
    if crate::text::eq_lit(op, "spawn") {
        let a = rt_arg(0, "null", "i64", ArgConv::Keep, "ptr");
        let b = rt_arg(1, "0", "i64", ArgConv::ToI64, "i64");
        let d = rt_arg(2, "0", "i64", ArgConv::ToI64, "i64");
        let c = rt_call("tungsten_fiber_spawn", Some("i64"), vec![a, b, d], StoreKind::AsIs);
        assert(rt_call_view(c).2 =~= seq![ra(0, "null"@, "i64"@, ArgConv::Keep, "ptr"@), ra(1, "0"@, "i64"@, ArgConv::ToI64, "i64"@), ra(2, "0"@, "i64"@, ArgConv::ToI64, "i64"@)]);
        assert(rt_call_view(c).0 == "tungsten_fiber_spawn"@);
        assert(rt_call_view(c).1 == Some("i64"@));
        assert(rt_call_view(c).3 == StoreKind::AsIs);
        assert(op@ == "spawn"@);
        assert(async_plan(op@) == Some(rt_call_view(c)));
        Some(c)
    } else if crate::text::eq_lit(op, "yield_now") {
        let c = rt_call("tungsten_fiber_yield", None, vec![], StoreKind::AsIs);
        assert(rt_call_view(c).2 =~= Seq::<RtArgV>::empty());
        assert(rt_call_view(c).0 == "tungsten_fiber_yield"@);
        assert(rt_call_view(c).1 == None::<Seq<char>>);
        assert(rt_call_view(c).3 == StoreKind::AsIs);
        assert(op@ == "yield_now"@);
        assert(async_plan(op@) == Some(rt_call_view(c)));
        Some(c)
    } else if crate::text::eq_lit(op, "sleep") {
        let a = rt_arg(0, "0", "i64", ArgConv::ToI64, "i64");
        let c = rt_call("tungsten_fiber_sleep", None, vec![a], StoreKind::AsIs);
        assert(rt_call_view(c).2 =~= seq![ra(0, "0"@, "i64"@, ArgConv::ToI64, "i64"@)]);
        assert(rt_call_view(c).0 == "tungsten_fiber_sleep"@);
        assert(rt_call_view(c).1 == None::<Seq<char>>);
        assert(rt_call_view(c).3 == StoreKind::AsIs);
        assert(op@ == "sleep"@);
        assert(async_plan(op@) == Some(rt_call_view(c)));
        Some(c)
    } else {
        None
    }
}

fn plan_channel(op: &[char], n: usize) -> (r: Option<RtCall>)
    ensures
        match r {
            Some(c) => channel_plan(op@, n as nat) == Some(rt_call_view(c)),
            None => channel_plan(op@, n as nat) is None,
        },
{
    proof {
        reveal_strlit("IO");
        reveal_strlit("Async");
        reveal_strlit("Channel");
    }
    if crate::text::eq_lit(op, "new") {
        let c = rt_call("tungsten_channel_new", Some("i64"), vec![], StoreKind::AsIs);
        assert(rt_call_view(c).2 =~= Seq::<RtArgV>::empty());
        assert(rt_call_view(c).0 == "tungsten_channel_new"@);
        assert(rt_call_view(c).1 == Some("i64"@));
        assert(rt_call_view(c).3 == StoreKind::AsIs);
        assert(op@ == "new"@);
        assert(channel_plan(op@, n as nat) == Some(rt_call_view(c)));
        Some(c)
    } else if crate::text::eq_lit(op, "bounded") && n > 0 {
        let a = rt_arg(0, "", "i64", ArgConv::ToI64, "i64");
        let c = rt_call("tungsten_channel_bounded", Some("i64"), vec![a], StoreKind::AsIs);
        assert(rt_call_view(c).2 =~= seq![ra(0, ""@, "i64"@, ArgConv::ToI64, "i64"@)]);
        assert(rt_call_view(c).0 == "tungsten_channel_bounded"@);
        assert(rt_call_view(c).1 == Some("i64"@));
        assert(rt_call_view(c).3 == StoreKind::AsIs);
        assert(op@ == "bounded"@);
        assert(channel_plan(op@, n as nat) == Some(rt_call_view(c)));
        Some(c)
    } else if crate::text::eq_lit(op, "send") && n >= 2 {
        let a = rt_arg(0, "", "i64", ArgConv::ToI64, "i64");
        let b = rt_arg(1, "", "i64", ArgConv::ToI64, "i64");
        let c = rt_call("tungsten_channel_send", None, vec![a, b], StoreKind::AsIs);
        assert(rt_call_view(c).2 =~= seq![ra(0, ""@, "i64"@, ArgConv::ToI64, "i64"@), ra(1, ""@, "i64"@, ArgConv::ToI64, "i64"@)]);
        assert(rt_call_view(c).0 == "tungsten_channel_send"@);
        assert(rt_call_view(c).1 == None::<Seq<char>>);
        assert(rt_call_view(c).3 == StoreKind::AsIs);
        assert(op@ == "send"@);
        assert(channel_plan(op@, n as nat) == Some(rt_call_view(c)));
        Some(c)
    } else if crate::text::eq_lit(op, "recv") && n > 0 {
        let a = rt_arg(0, "", "i64", ArgConv::ToI64, "i64");
        let c = rt_call("tungsten_channel_recv", Some("i64"), vec![a], StoreKind::AsIs);
        assert(rt_call_view(c).2 =~= seq![ra(0, ""@, "i64"@, ArgConv::ToI64, "i64"@)]);
        assert(rt_call_view(c).0 == "tungsten_channel_recv"@);
        assert(rt_call_view(c).1 == Some("i64"@));
        assert(rt_call_view(c).3 == StoreKind::AsIs);
        assert(op@ == "recv"@);
        assert(channel_plan(op@, n as nat) == Some(rt_call_view(c)));
        Some(c)
    } else {
        None
    }
}

fn plan_nursery(op: &[char], n: usize) -> (r: Option<RtCall>)
    ensures
        match r {
            Some(c) => nursery_plan(op@, n as nat) == Some(rt_call_view(c)),
            None => nursery_plan(op@, n as nat) is None,
        },
{
    proof {
        reveal_strlit("IO");
        reveal_strlit("Async");
        reveal_strlit("Channel");
        reveal_strlit("Nursery");
    }
    if crate::text::eq_lit(op, "spawn") && n > 0 {
        let a = rt_arg(0, "", "i64", ArgConv::IntToPtr, "ptr");
        let b = rt_arg(1, "null", "i64", ArgConv::Keep, "ptr");
        let d = rt_arg(2, "0", "i64", ArgConv::ToI64, "i64");
        let e = rt_arg(3, "0", "i64", ArgConv::ToI64, "i64");
        let c = rt_call("tungsten_nursery_spawn", Some("i64"), vec![a, b, d, e], StoreKind::AsIs);
        assert(rt_call_view(c).2 =~= seq![ra(0, ""@, "i64"@, ArgConv::IntToPtr, "ptr"@), ra(1, "null"@, "i64"@, ArgConv::Keep, "ptr"@), ra(2, "0"@, "i64"@, ArgConv::ToI64, "i64"@), ra(3, "0"@, "i64"@, ArgConv::ToI64, "i64"@)]);
        assert(rt_call_view(c).0 == "tungsten_nursery_spawn"@);
        assert(rt_call_view(c).1 == Some("i64"@));
        assert(rt_call_view(c).3 == StoreKind::AsIs);
        assert(op@ == "spawn"@);
        assert(nursery_plan(op@, n as nat) == Some(rt_call_view(c)));
        Some(c)
    } else {
        None
    }
}

fn plan_net(op: &[char], n: usize) -> (r: Option<RtCall>)
    ensures
        match r {
            Some(c) => net_plan(op@) == Some(rt_call_view(c)),
            None => net_plan(op@) is None,
        },
{
    proof {
        reveal_strlit("IO");
        reveal_strlit("Async");
        reveal_strlit("Channel");
        reveal_strlit("Nursery");
        reveal_strlit("Net");
    }
    if crate::text::eq_lit(op, "listen") {
        let a = rt_arg(0, "8080", "i64", ArgConv::ToI64, "i64");
        let c = rt_call("tungsten_net_listen", Some("i64"), vec![a], StoreKind::AsIs);
        assert(rt_call_view(c).2 =~= seq![ra(0, "8080"@, "i64"@, ArgConv::ToI64, "i64"@)]);
        assert(rt_call_view(c).0 == "tungsten_net_listen"@);
        assert(rt_call_view(c).1 == Some("i64"@));
        assert(rt_call_view(c).3 == StoreKind::AsIs);
        assert(op@ == "listen"@);
        assert(net_plan(op@) == Some(rt_call_view(c)));
        Some(c)
    } else if crate::text::eq_lit(op, "accept") {
        let a = rt_arg(0, "0", "i64", ArgConv::ToI64, "i64");
        let c = rt_call("tungsten_net_accept", Some("i64"), vec![a], StoreKind::AsIs);
        assert(rt_call_view(c).2 =~= seq![ra(0, "0"@, "i64"@, ArgConv::ToI64, "i64"@)]);
        assert(rt_call_view(c).0 == "tungsten_net_accept"@);
        assert(rt_call_view(c).1 == Some("i64"@));
        assert(rt_call_view(c).3 == StoreKind::AsIs);
        assert(op@ == "accept"@);
        assert(net_plan(op@) == Some(rt_call_view(c)));
        Some(c)
    } else if crate::text::eq_lit(op, "connect") {
        let a = rt_arg(0, "null", "ptr", ArgConv::ToPtr, "ptr");
        let b = rt_arg(1, "8080", "i64", ArgConv::ToI64, "i64");
        let c = rt_call("tungsten_net_connect", Some("i64"), vec![a, b], StoreKind::AsIs);
        assert(rt_call_view(c).2 =~= seq![ra(0, "null"@, "ptr"@, ArgConv::ToPtr, "ptr"@), ra(1, "8080"@, "i64"@, ArgConv::ToI64, "i64"@)]);
        assert(rt_call_view(c).0 == "tungsten_net_connect"@);
        assert(rt_call_view(c).1 == Some("i64"@));
        assert(rt_call_view(c).3 == StoreKind::AsIs);
        assert(op@ == "connect"@);
        assert(net_plan(op@) == Some(rt_call_view(c)));
        Some(c)
    } else if crate::text::eq_lit(op, "read") {
        let a = rt_arg(0, "0", "i64", ArgConv::ToI64, "i64");
        let b = rt_arg(1, "4096", "i64", ArgConv::ToI64, "i64");
        let c = rt_call("tungsten_net_read", Some("ptr"), vec![a, b], StoreKind::AsIs);
        assert(rt_call_view(c).2 =~= seq![ra(0, "0"@, "i64"@, ArgConv::ToI64, "i64"@), ra(1, "4096"@, "i64"@, ArgConv::ToI64, "i64"@)]);
        assert(rt_call_view(c).0 == "tungsten_net_read"@);
        assert(rt_call_view(c).1 == Some("ptr"@));
        assert(rt_call_view(c).3 == StoreKind::AsIs);
        assert(op@ == "read"@);
        assert(net_plan(op@) == Some(rt_call_view(c)));
        Some(c)
    } else if crate::text::eq_lit(op, "write") {
        let a = rt_arg(0, "0", "i64", ArgConv::ToI64, "i64");
        let b = rt_arg(1, "null", "ptr", ArgConv::ToPtr, "ptr");
        let d = rt_arg(usize::MAX, "4096", "i64", ArgConv::Keep, "i64");
        let c = rt_call("tungsten_net_write", Some("i64"), vec![a, b, d], StoreKind::AsIs);
        assert(rt_call_view(c).2 =~= seq![ra(0, "0"@, "i64"@, ArgConv::ToI64, "i64"@), ra(1, "null"@, "ptr"@, ArgConv::ToPtr, "ptr"@), ra(usize::MAX as nat, "4096"@, "i64"@, ArgConv::Keep, "i64"@)]);
        assert(rt_call_view(c).0 == "tungsten_net_write"@);
        assert(rt_call_view(c).1 == Some("i64"@));
        assert(rt_call_view(c).3 == StoreKind::AsIs);
        assert(op@ == "write"@);
        assert(net_plan(op@) == Some(rt_call_view(c)));
        Some(c)
    } else if crate::text::eq_lit(op, "close") {
        let a = rt_arg(0, "0", "i64", ArgConv::ToI64, "i64");
        let c = rt_call("tungsten_net_close", None, vec![a], StoreKind::AsIs);
        assert(rt_call_view(c).2 =~= seq![ra(0, "0"@, "i64"@, ArgConv::ToI64, "i64"@)]);
        assert(rt_call_view(c).0 == "tungsten_net_close"@);
        assert(rt_call_view(c).1 == None::<Seq<char>>);
        assert(rt_call_view(c).3 == StoreKind::AsIs);
        assert(op@ == "close"@);
        assert(net_plan(op@) == Some(rt_call_view(c)));
        Some(c)
    } else {
        None
    }
}

fn plan_foreign() -> (r: RtCall)
    ensures
        rt_call_view(r) == foreign_plan(),
{
    let a = rt_arg(0, "null", "i64", ArgConv::Keep, "ptr");
    let b = rt_arg(1, "0", "i64", ArgConv::ToI64, "i64");
    let c = rt_call("tungsten_foreign_call_offload", Some("i64"), vec![a, b], StoreKind::Converted);
    assert(rt_call_view(c).2 =~= seq![ra(0, "null"@, "i64"@, ArgConv::Keep, "ptr"@), ra(1, "0"@, "i64"@, ArgConv::ToI64, "i64"@)]);
    assert(rt_call_view(c).0 == "tungsten_foreign_call_offload"@);
    assert(rt_call_view(c).1 == Some("i64"@));
    assert(rt_call_view(c).3 == StoreKind::Converted);
    assert(rt_call_view(c) == foreign_plan());
    c
}

/// The runtime call that performs `effect.op` with `n` arguments, where one does.
pub fn effect_plan(effect: &[char], op: &[char], n: usize) -> (r: Option<RtCall>)
    ensures
        match r {
            Some(c) => effect_call_plan(effect@, op@, n as nat) == Some(rt_call_view(c)),
            None => effect_call_plan(effect@, op@, n as nat) is None,
        },
{
    if crate::text::eq_lit(effect, "IO") && crate::text::eq_lit(op, "print") {
        plan_io(n)
    } else if crate::text::eq_lit(effect, "Async") {
        proof {
            reveal_strlit("IO");
            reveal_strlit("Async");
            reveal_strlit("print");
        }
        plan_async(op, n)
    } else if crate::text::eq_lit(effect, "Channel") {
        proof {
            reveal_strlit("IO");
            reveal_strlit("Async");
            reveal_strlit("Channel");
        }
        plan_channel(op, n)
    } else if crate::text::eq_lit(effect, "Nursery") {
        proof {
            reveal_strlit("IO");
            reveal_strlit("Async");
            reveal_strlit("Channel");
            reveal_strlit("Nursery");
        }
        plan_nursery(op, n)
    } else if crate::text::eq_lit(effect, "Net") {
        proof {
            reveal_strlit("IO");
            reveal_strlit("Async");
            reveal_strlit("Channel");
            reveal_strlit("Nursery");
            reveal_strlit("Net");
        }
        plan_net(op, n)
    } else if (crate::text::eq_lit(effect, "Foreign") || crate::text::eq_lit(effect, "ForeignCall"))
        && (crate::text::eq_lit(op, "call") || crate::text::eq_lit(op, "blocking")) {
        proof {
            reveal_strlit("IO");
            reveal_strlit("Async");
            reveal_strlit("Channel");
            reveal_strlit("Nursery");
            reveal_strlit("Net");
            reveal_strlit("Foreign");
            reveal_strlit("ForeignCall");
        }
        Some(plan_foreign())
    } else {
        proof {
            reveal_strlit("IO");
            reveal_strlit("Async");
            reveal_strlit("Channel");
            reveal_strlit("Nursery");
            reveal_strlit("Net");
            reveal_strlit("Foreign");
            reveal_strlit("ForeignCall");
        }
        None
    }
}


pub(crate) fn char_utf8_len(c: char) -> (r: usize)
    ensures
        r as nat == utf8_bytes(c).len(),
        r <= 4,
{
    let v = c as u32;
    if v < 0x80 {
        1
    } else if v < 0x800 {
        2
    } else if v < 0x10000 {
        3
    } else {
        4
    }
}

/// The UTF-8 length in bytes of a text held as characters.
fn utf8_len_exec(cs: &[char]) -> (r: usize)
    requires
        4 * cs@.len() <= usize::MAX,
    ensures
        r as nat == utf8_len(cs@),
        r <= 4 * cs@.len(),
{
    let mut n: usize = 0;
    let mut k: usize = 0;
    while k < cs.len()
        invariant
            k <= cs@.len(),
            4 * cs@.len() <= usize::MAX,
            n as nat == utf8_len(cs@.subrange(0, k as int)),
            n <= 4 * k,
        decreases cs@.len() - k,
    {
        assert(cs@.subrange(0, k + 1).drop_last() =~= cs@.subrange(0, k as int));
        n = n + char_utf8_len(cs[k]);
        k = k + 1;
    }
    assert(cs@.subrange(0, cs@.len() as int) =~= cs@);
    n
}


proof fn lemma_split_first(rest: Seq<char>, k: int)
    requires
        brace_at(rest, k),
        forall|j: int| 0 <= j < k ==> !#[trigger] brace_at(rest, j),
    ensures
        split_braces(rest) == seq![rest.subrange(0, k)] + split_braces(rest.subrange(k + 2, rest.len() as int)),
{
    reveal(split_braces);
    let f = first_brace(rest);
    assert(brace_at(rest, f) && forall|j: int| 0 <= j < f ==> !#[trigger] brace_at(rest, j));
    if f < k {
        assert(!brace_at(rest, f));
    }
    if k < f {
        assert(!brace_at(rest, k));
    }
}

proof fn lemma_split_none(rest: Seq<char>)
    requires
        forall|j: int| !#[trigger] brace_at(rest, j),
    ensures
        split_braces(rest) == seq![rest],
{
    reveal(split_braces);
}

/// The pieces of `s` between the occurrences of `{}`.
fn split_braces_exec(s: &[char]) -> (r: Vec<Vec<char>>)
    ensures
        dv(r@) == split_braces(s@),
        forall|j: int| 0 <= j < r@.len() ==> (#[trigger] r@[j])@.len() <= s@.len(),
{
    let mut out: Vec<Vec<char>> = Vec::new();
    let mut start: usize = 0;
    let mut i: usize = 0;
    assert(s@.subrange(0, s@.len() as int) =~= s@);
    assert(dv(out@) + split_braces(s@) =~= split_braces(s@));
    while s.len() > 0 && i < s.len() - 1
        invariant
            start <= i,
            i <= s@.len(),
            dv(out@) + split_braces(s@.subrange(start as int, s@.len() as int)) == split_braces(s@),
            forall|j: int| start <= j < i ==> !#[trigger] brace_at(s@, j),
            forall|j: int| 0 <= j < out@.len() ==> (#[trigger] out@[j])@.len() <= s@.len(),
        decreases s@.len() - i,
    {
        if s[i] == '{' && s[i + 1] == '}' {
            let ghost rest = s@.subrange(start as int, s@.len() as int);
            let ghost k = (i - start) as int;
            let ghost piece = s@.subrange(start as int, i as int);
            let ghost rest2 = s@.subrange(i + 2, s@.len() as int);
            proof {
                assert(brace_at(rest, k));
                assert forall|j: int| 0 <= j < k implies !#[trigger] brace_at(rest, j) by {
                    assert(!brace_at(s@, start + j));
                }
                lemma_split_first(rest, k);
                assert(rest.subrange(0, k) =~= piece);
                assert(rest.subrange(k + 2, rest.len() as int) =~= rest2);
            }
            let p = crate::text::sub_vec(s, start, i);
            let ghost before = dv(out@);
            out.push(p);
            proof {
                assert(dv(out@) =~= before.push(piece));
                assert(dv(out@) + split_braces(rest2) =~= before + (seq![piece] + split_braces(rest2)));
            }
            start = i + 2;
            i = i + 2;
        } else {
            proof {
                assert(!brace_at(s@, i as int));
            }
            i = i + 1;
        }
    }
    let ghost rest = s@.subrange(start as int, s@.len() as int);
    proof {
        assert forall|j: int| !#[trigger] brace_at(rest, j) by {
            if brace_at(rest, j) {
                assert(brace_at(s@, start + j));
            }
        }
        lemma_split_none(rest);
    }
    let last = crate::text::sub_vec(s, start, s.len());
    let ghost before = dv(out@);
    out.push(last);
    assert(dv(out@) =~= before + seq![rest]);
    out
}


fn apply_event_exec(vars: &mut Vec<(Var, Vec<char>)>, v: &Var, ty: Vec<char>, overwrite: bool)
    ensures
        dvt(final(vars)@) == apply_event(dvt(old(vars)@), (*v, ty@, overwrite)),
{
    let ghost m = dvt(vars@);
    let mut k: usize = 0;
    while k < vars.len()
        invariant
            k <= vars@.len(),
            m == dvt(vars@),
            vars@ == old(vars)@,
            forall|j: int| 0 <= j < k ==> !same_var(#[trigger] m[j].0, *v),
        decreases vars@.len() - k,
    {
        if same_var_exec(&vars[k].0, v) {
            proof {
                assert(same_var(m[k as int].0, *v));
                let f = var_index(m, *v);
                assert(0 <= f < m.len() && same_var(m[f].0, *v) && forall|j: int| 0 <= j < f ==> !same_var(#[trigger] m[j].0, *v));
                if f < k {
                    assert(!same_var(m[f].0, *v));
                }
                if (k as int) < f {
                    assert(!same_var(m[k as int].0, *v));
                }
            }
            if overwrite {
                let key = vars[k].0.duplicate();
                vars.set(k, (key, ty));
                assert(dvt(vars@) =~= m.update(k as int, (m[k as int].0, ty@)));
            }
            return;
        }
        k = k + 1;
    }
    proof {
        assert(!(exists|i: int| 0 <= i < m.len() && same_var(#[trigger] m[i].0, *v)));
    }
    vars.push((v.duplicate(), ty));
    assert(dvt(vars@) =~= m.push((*v, ty@)));
}


fn var_text_exec(v: &Var) -> (r: Vec<char>)
    ensures
        r@ == var_text(*v),
{
    match v {
        Var::Named(n) => str_chars(n.as_str()),
        Var::Temp(i) => u64_decimal(*i as u64),
    }
}

fn param_sigs_exec(ps: &Vec<(Var, Type)>) -> (r: Vec<char>)
    ensures
        r@ == join(param_sigs(ps@), ", "@),
{
    let mut parts: Vec<Vec<char>> = Vec::new();
    let mut k: usize = 0;
    while k < ps.len()
        invariant
            k <= ps@.len(),
            parts@.len() == k,
            forall|i: int| 0 <= i < k ==> (#[trigger] parts@[i])@ == param_sigs(ps@)[i],
        decreases ps@.len() - k,
    {
        let t = type_to_llvm(&ps[k].1);
        let mut part = str_chars(t.as_str());
        extend_lit(&mut part, " %arg_");
        let n = var_text_exec(&ps[k].0);
        extend_chars(&mut part, n.as_slice());
        parts.push(part);
        k = k + 1;
    }
    assert(dv(parts@) =~= param_sigs(ps@));
    let sep = str_chars(", ");
    join_exec(parts.as_slice(), sep.as_slice())
}

fn allocas_exec(vars: &Vec<(Var, Vec<char>)>) -> (r: Vec<char>)
    ensures
        r@ == allocas_text(dvt(vars@)),
{
    let ghost all = dvt(vars@);
    let mut out: Vec<char> = Vec::new();
    let mut k: usize = 0;
    assert(all.subrange(0, 0) =~= Seq::<(Var, Seq<char>)>::empty());
    while k < vars.len()
        invariant
            k <= vars@.len(),
            all == dvt(vars@),
            out@ == allocas_text(all.subrange(0, k as int)),
        decreases vars@.len() - k,
    {
        let slot = var_to_slot_name(&vars[k].0);
        let sc = str_chars(slot.as_str());
        let t = &vars[k].1;
        let mut line = str_chars("    ");
        extend_chars(&mut line, sc.as_slice());
        extend_lit(&mut line, " = alloca ");
        extend_chars(&mut line, t.as_slice());
        extend_lit(&mut line, "\n");
        if crate::text::eq_lit(t.as_slice(), "ptr") {
            extend_lit(&mut line, "    store ptr null, ptr ");
            extend_chars(&mut line, sc.as_slice());
            extend_lit(&mut line, "\n");
        } else {
            extend_lit(&mut line, "    store ");
            extend_chars(&mut line, t.as_slice());
            extend_lit(&mut line, " 0, ptr ");
            extend_chars(&mut line, sc.as_slice());
            extend_lit(&mut line, "\n");
        }
        proof {
            let sub = all.subrange(0, k + 1);
            assert(sub.drop_last() =~= all.subrange(0, k as int));
            assert(sub.last() == (vars@[k as int].0, t@));
            let (v, tt) = sub.last();
            assert(line@ =~= "    "@ + slot_name(v) + " = alloca "@ + tt + "\n"@ + if tt == "ptr"@ {
                "    store ptr null, ptr "@ + slot_name(v) + "\n"@
            } else {
                "    store "@ + tt + " 0, ptr "@ + slot_name(v) + "\n"@
            });
        }
        extend_chars(&mut out, line.as_slice());
        k = k + 1;
    }
    assert(all.subrange(0, vars@.len() as int) =~= all);
    out
}

fn param_stores_exec(ps: &Vec<(Var, Type)>) -> (r: Vec<char>)
    ensures
        r@ == param_stores_text(ps@),
{
    let mut out: Vec<char> = Vec::new();
    let mut k: usize = 0;
    assert(ps@.subrange(0, 0) =~= Seq::<(Var, Type)>::empty());
    while k < ps.len()
        invariant
            k <= ps@.len(),
            out@ == param_stores_text(ps@.subrange(0, k as int)),
        decreases ps@.len() - k,
    {
        let t = type_to_llvm(&ps[k].1);
        let tc = str_chars(t.as_str());
        let n = var_text_exec(&ps[k].0);
        let slot = var_to_slot_name(&ps[k].0);
        let sc = str_chars(slot.as_str());
        let mut line = str_chars("    store ");
        extend_chars(&mut line, tc.as_slice());
        extend_lit(&mut line, " %arg_");
        extend_chars(&mut line, n.as_slice());
        extend_lit(&mut line, ", ptr ");
        extend_chars(&mut line, sc.as_slice());
        extend_lit(&mut line, "\n");
        proof {
            let sub = ps@.subrange(0, k + 1);
            assert(sub.drop_last() =~= ps@.subrange(0, k as int));
            assert(sub.last() == ps@[k as int]);
            assert(line@ =~= "    store "@ + llvm_type(sub.last().1) + " %arg_"@ + var_text(sub.last().0) + ", ptr "@
                + slot_name(sub.last().0) + "\n"@);
        }
        extend_chars(&mut out, line.as_slice());
        k = k + 1;
    }
    assert(ps@.subrange(0, ps@.len() as int) =~= ps@);
    out
}


fn module_opening_exec() -> (r: Vec<char>)
    ensures
        r@ == module_opening(),
{
    str_chars("; ==========================================================\n; Tungsten Native LLVM Textual IR\n; Zero-cost compilation target with auto-SIMD and LTO support\n; ==========================================================\n\ntarget datalayout = \"e-m:w-p270:32:32-p271:32:32-p272:64:64-i64:64-i128:128-f80:128-n8:16:32:64-S128\"\ntarget triple = \"x86_64-pc-windows-gnu\"\n\n; C Library Runtime Declarations\ndeclare i32 @printf(ptr, ...)\ndeclare i32 @putchar(i32)\ndeclare void @exit(i32)\ndeclare ptr @malloc(i64)\ndeclare ptr @realloc(ptr, i64)\ndeclare void @free(ptr)\ndeclare void @Sleep(i32)\ndeclare i32 @WSAStartup(i16, ptr)\ndeclare i64 @socket(i32, i32, i32)\ndeclare i32 @bind(i64, ptr, i32)\ndeclare i32 @listen(i64, i32)\ndeclare i64 @accept(i64, ptr, ptr)\ndeclare i32 @recv(i64, ptr, i32, i32)\ndeclare i32 @send(i64, ptr, i32, i32)\ndeclare i32 @closesocket(i64)\ndeclare i32 @setsockopt(i64, i32, i32, ptr, i32)\ndeclare i64 @strlen(ptr)\ndeclare ptr @CreateThread(ptr, i64, ptr, ptr, i32, ptr)\ndeclare i32 @CloseHandle(ptr)\ndeclare ptr @CreateSemaphoreA(ptr, i32, i32, ptr)\ndeclare ptr @CreateMutexA(ptr, i32, ptr)\ndeclare i32 @WaitForSingleObject(ptr, i32)\ndeclare i32 @ReleaseSemaphore(ptr, i32, ptr)\ndeclare i32 @ReleaseMutex(ptr)\n\n")
}

/// Writes `sfx` before the line break of each line of `text` that begins
/// with a space.
fn dbg_lines_exec(text: &Vec<char>, sfx: &[char]) -> (r: Vec<char>)
    ensures
        r@ == dbg_lines(text@, sfx@),
{
    let mut r: Vec<char> = Vec::new();
    let mut st: u8 = 0;
    let mut i: usize = 0;
    while i < text.len()
        invariant
            i <= text@.len(),
            r@ == dbg_lines(text@.take(i as int), sfx@),
            st as nat == line_state(text@.take(i as int)),
        decreases text@.len() - i,
    {
        let c = text[i];
        proof {
            assert(text@.take(i + 1).drop_last() =~= text@.take(i as int));
            assert(text@.take(i + 1).last() == c);
        }
        if c == '\n' {
            if st == 1 {
                extend_chars(&mut r, sfx);
            }
            r.push('\n');
            st = 0;
        } else {
            r.push(c);
            if st == 0 {
                st = if c == ' ' { 1 } else { 2 };
            }
        }
        i = i + 1;
    }
    assert(text@.take(text@.len() as int) =~= text@);
    r
}

/// The debug subprogram and location of the module's `idx`th function.
fn subprogram_exec(idx: u64, name: &[char]) -> (r: Vec<char>)
    requires
        idx < 0x1000_0000_0000_0000,
    ensures
        r@ == subprogram_text(idx as nat, name@),
{
    let a = u64_decimal(5 + 2 * idx);
    let b = u64_decimal(6 + 2 * idx);
    let mut r = str_chars("!");
    extend_chars(&mut r, a.as_slice());
    extend_lit(&mut r, " = distinct !DISubprogram(name: \"");
    extend_chars(&mut r, name);
    extend_lit(
        &mut r,
        "\", scope: !3, file: !3, line: 0, type: !4, scopeLine: 0, spFlags: DISPFlagDefinition, unit: !2)\n!",
    );
    extend_chars(&mut r, b.as_slice());
    extend_lit(&mut r, " = !DILocation(line: 0, column: 0, scope: !");
    extend_chars(&mut r, a.as_slice());
    extend_lit(&mut r, ")\n");
    assert(r@ =~= subprogram_text(idx as nat, name@));
    r
}

/// The module's debug metadata.
fn debug_metadata_exec(fs: &Vec<TirFunction>) -> (r: Vec<char>)
    requires
        fs@.len() < 0x1000_0000_0000_0000,
    ensures
        r@ == debug_header() + subprograms_text(fs@, fs@.len()),
{
    let mut r = str_chars("\n!llvm.module.flags = !{!0, !1}\n!llvm.dbg.cu = !{!2}\n\n!0 = !{i32 2, !\"Dwarf Version\", i32 4}\n!1 = !{i32 2, !\"Debug Info Version\", i32 3}\n!2 = distinct !DICompileUnit(language: DW_LANG_C, file: !3, producer: \"Tungsten Compiler\", isOptimized: false, runtimeVersion: 0, emissionKind: FullDebug)\n!3 = !DIFile(filename: \"main.tg\", directory: \".\")\n!4 = !DISubroutineType(types: !{})\n");
    let mut k: usize = 0;
    while k < fs.len()
        invariant
            k <= fs@.len(),
            fs@.len() < 0x1000_0000_0000_0000,
            r@ == debug_header() + subprograms_text(fs@, k as nat),
        decreases fs@.len() - k,
    {
        let name = str_chars(fs[k].name.as_str());
        let t = subprogram_exec(k as u64, name.as_slice());
        extend_chars(&mut r, t.as_slice());
        k = k + 1;
        assert(r@ =~= debug_header() + subprograms_text(fs@, k as nat));
    }
    r
}

fn module_runtime_exec() -> (r: Vec<char>)
    ensures
        r@ == module_runtime(),
{
    str_chars("\n; Global Format Strings\n@fmt_i64 = internal constant [6 x i8] c\"%lld\\0A\\00\"\n@fmt_i64_raw = internal constant [5 x i8] c\"%lld\\00\"\n@fmt_str = internal constant [4 x i8] c\"%s\\0A\\00\"\n@fmt_str_raw = internal constant [3 x i8] c\"%s\\00\"\n@fmt_io_str = internal constant [9 x i8] c\"[IO] %s\\0A\\00\"\n@fmt_io_empty = internal constant [6 x i8] c\"[IO]\\0A\\00\"\n@panic_fmt = internal constant [57 x i8] c\"\\0A[Tungsten Refinement Panic]: %lld outside [%lld, %lld]\\0A\\00\"\n\n; Tungsten Native Runtime Functions\ndefine void @tungsten_print_i64(i64 %v) {\n    call i32 (ptr, ...) @printf(ptr @fmt_i64_raw, i64 %v)\n    ret void\n}\n\ndefine void @tungsten_println_i64(i64 %v) {\n    call i32 (ptr, ...) @printf(ptr @fmt_i64, i64 %v)\n    ret void\n}\n\ndefine void @tungsten_print_str(ptr %s, i64 %len) {\n    %null_check = icmp eq ptr %s, null\n    br i1 %null_check, label %ret_blk, label %print_blk\nprint_blk:\n    call i32 (ptr, ...) @printf(ptr @fmt_str_raw, ptr %s)\n    br label %ret_blk\nret_blk:\n    ret void\n}\n\ndefine void @tungsten_println_str(ptr %s, i64 %len) {\n    %null_check = icmp eq ptr %s, null\n    br i1 %null_check, label %empty_blk, label %print_blk\nprint_blk:\n    call i32 (ptr, ...) @printf(ptr @fmt_str, ptr %s)\n    ret void\nempty_blk:\n    call i32 @putchar(i32 10)\n    ret void\n}\n\ndefine void @tungsten_io_print(ptr %s, i64 %len) {\n    %null_check = icmp eq ptr %s, null\n    br i1 %null_check, label %empty_blk, label %print_blk\nprint_blk:\n    call i32 (ptr, ...) @printf(ptr @fmt_io_str, ptr %s)\n    ret void\nempty_blk:\n    call i32 (ptr, ...) @printf(ptr @fmt_io_empty)\n    ret void\n}\n\ndefine void @tungsten_refinement_panic(i64 %val, i64 %min_v, i64 %max_v) {\n    call i32 (ptr, ...) @printf(ptr @panic_fmt, i64 %val, i64 %min_v, i64 %max_v)\n    call void @exit(i32 101)\n    unreachable\n}\n\ndefine ptr @tungsten_alloc(i64 %size, i64 %align) {\n    %is_zero = icmp eq i64 %size, 0\n    %alloc_sz = select i1 %is_zero, i64 8, i64 %size\n    %p = call ptr @malloc(i64 %alloc_sz)\n    ret ptr %p\n}\n\ndefine ptr @tungsten_region_enter() {\n    %arena = call ptr @malloc(i64 24)\n    %buf = call ptr @malloc(i64 8192)\n    store ptr %buf, ptr %arena\n    %offset_ptr = getelementptr inbounds i8, ptr %arena, i64 8\n    store i64 0, ptr %offset_ptr\n    %cap_ptr = getelementptr inbounds i8, ptr %arena, i64 16\n    store i64 8192, ptr %cap_ptr\n    ret ptr %arena\n}\n\ndefine ptr @tungsten_region_alloc(ptr %arena, i64 %size, i64 %align) {\n    %offset_ptr = getelementptr inbounds i8, ptr %arena, i64 8\n    %offset = load i64, ptr %offset_ptr\n    %buf_ptr = load ptr, ptr %arena\n    %ptr = getelementptr inbounds i8, ptr %buf_ptr, i64 %offset\n    %new_offset = add i64 %offset, %size\n    store i64 %new_offset, ptr %offset_ptr\n    ret ptr %ptr\n}\n\ndefine void @tungsten_region_exit(ptr %arena) {\n    %is_null = icmp eq ptr %arena, null\n    br i1 %is_null, label %done, label %free_blk\nfree_blk:\n    %buf = load ptr, ptr %arena\n    call void @free(ptr %buf)\n    call void @free(ptr %arena)\n    br label %done\ndone:\n    ret void\n}\n\ndefine void @tungsten_trace_effect(ptr %eff, i64 %elen, ptr %op, i64 %olen) {\n    ret void\n}\n\ndefine i32 @tungsten_thread_thunk(ptr %param) {\n    %fn_slot = getelementptr inbounds i8, ptr %param, i64 0\n    %fn_ptr = load ptr, ptr %fn_slot\n    %a1_slot = getelementptr inbounds i8, ptr %param, i64 8\n    %a1 = load i64, ptr %a1_slot\n    %a2_slot = getelementptr inbounds i8, ptr %param, i64 16\n    %a2 = load i64, ptr %a2_slot\n    call void %fn_ptr(i64 %a1, i64 %a2)\n    call void @free(ptr %param)\n    ret i32 0\n}\n\ndefine i64 @tungsten_fiber_spawn(ptr %fn_ptr, i64 %a1, i64 %a2) {\n    %ctx = call ptr @malloc(i64 24)\n    %fn_slot = getelementptr inbounds i8, ptr %ctx, i64 0\n    store ptr %fn_ptr, ptr %fn_slot\n    %a1_slot = getelementptr inbounds i8, ptr %ctx, i64 8\n    store i64 %a1, ptr %a1_slot\n    %a2_slot = getelementptr inbounds i8, ptr %ctx, i64 16\n    store i64 %a2, ptr %a2_slot\n    %th = call ptr @CreateThread(ptr null, i64 0, ptr @tungsten_thread_thunk, ptr %ctx, i32 0, ptr null)\n    %is_null = icmp eq ptr %th, null\n    br i1 %is_null, label %spawn_done, label %close_th\nclose_th:\n    call i32 @CloseHandle(ptr %th)\n    br label %spawn_done\nspawn_done:\n    ret i64 1\n}\n\ndefine void @tungsten_fiber_yield() {\n    call void @Sleep(i32 0)\n    ret void\n}\n\ndefine void @tungsten_fiber_sleep(i64 %ms) {\n    %trunc = trunc i64 %ms to i32\n    call void @Sleep(i32 %trunc)\n    ret void\n}\n\ndefine ptr @tungsten_nursery_enter() {\n    %nur = call ptr @malloc(i64 16)\n    store i64 0, ptr %nur\n    ret ptr %nur\n}\n\ndefine i32 @tungsten_nursery_thread_thunk(ptr %param) {\n    %fn_slot = getelementptr inbounds i8, ptr %param, i64 0\n    %fn_ptr = load ptr, ptr %fn_slot\n    %a1_slot = getelementptr inbounds i8, ptr %param, i64 8\n    %a1 = load i64, ptr %a1_slot\n    %a2_slot = getelementptr inbounds i8, ptr %param, i64 16\n    %a2 = load i64, ptr %a2_slot\n    %nur_slot = getelementptr inbounds i8, ptr %param, i64 24\n    %nursery = load ptr, ptr %nur_slot\n    call void %fn_ptr(i64 %a1, i64 %a2)\n    %old = atomicrmw sub ptr %nursery, i64 1 seq_cst, align 8\n    call void @free(ptr %param)\n    ret i32 0\n}\n\ndefine i64 @tungsten_nursery_spawn(ptr %nursery, ptr %fn_ptr, i64 %a1, i64 %a2) {\n    %old = atomicrmw add ptr %nursery, i64 1 seq_cst, align 8\n    %ctx = call ptr @malloc(i64 32)\n    %fn_slot = getelementptr inbounds i8, ptr %ctx, i64 0\n    store ptr %fn_ptr, ptr %fn_slot\n    %a1_slot = getelementptr inbounds i8, ptr %ctx, i64 8\n    store i64 %a1, ptr %a1_slot\n    %a2_slot = getelementptr inbounds i8, ptr %ctx, i64 16\n    store i64 %a2, ptr %a2_slot\n    %nur_slot = getelementptr inbounds i8, ptr %ctx, i64 24\n    store ptr %nursery, ptr %nur_slot\n    %th = call ptr @CreateThread(ptr null, i64 0, ptr @tungsten_nursery_thread_thunk, ptr %ctx, i32 0, ptr null)\n    %is_null = icmp eq ptr %th, null\n    br i1 %is_null, label %spawn_done, label %close_th\nclose_th:\n    call i32 @CloseHandle(ptr %th)\n    br label %spawn_done\nspawn_done:\n    ret i64 1\n}\n\ndefine void @tungsten_nursery_wait_all(ptr %nursery) {\nentry:\n    %is_null = icmp eq ptr %nursery, null\n    br i1 %is_null, label %done, label %poll_loop\npoll_loop:\n    %cnt = load atomic i64, ptr %nursery acquire, align 8\n    %is_zero = icmp eq i64 %cnt, 0\n    br i1 %is_zero, label %free_nur, label %yield_sleep\nyield_sleep:\n    call void @Sleep(i32 0)\n    br label %poll_loop\nfree_nur:\n    call void @free(ptr %nursery)\n    br label %done\ndone:\n    ret void\n}\n\ndefine i64 @tungsten_channel_bounded(i64 %cap) {\n    %ch = call ptr @malloc(i64 64)\n    %buf_sz = mul i64 %cap, 8\n    %buf = call ptr @malloc(i64 %buf_sz)\n    store ptr %buf, ptr %ch\n    %head_ptr = getelementptr inbounds i8, ptr %ch, i64 8\n    store i64 0, ptr %head_ptr\n    %tail_ptr = getelementptr inbounds i8, ptr %ch, i64 16\n    store i64 0, ptr %tail_ptr\n    %cnt_ptr = getelementptr inbounds i8, ptr %ch, i64 24\n    store i64 0, ptr %cnt_ptr\n    %cap_ptr = getelementptr inbounds i8, ptr %ch, i64 32\n    store i64 %cap, ptr %cap_ptr\n    %cap32 = trunc i64 %cap to i32\n    %sem_items = call ptr @CreateSemaphoreA(ptr null, i32 0, i32 %cap32, ptr null)\n    %items_ptr = getelementptr inbounds i8, ptr %ch, i64 40\n    store ptr %sem_items, ptr %items_ptr\n    %sem_slots = call ptr @CreateSemaphoreA(ptr null, i32 %cap32, i32 %cap32, ptr null)\n    %slots_ptr = getelementptr inbounds i8, ptr %ch, i64 48\n    store ptr %sem_slots, ptr %slots_ptr\n    %mtx = call ptr @CreateMutexA(ptr null, i32 0, ptr null)\n    %mtx_ptr = getelementptr inbounds i8, ptr %ch, i64 56\n    store ptr %mtx, ptr %mtx_ptr\n    %res = ptrtoint ptr %ch to i64\n    ret i64 %res\n}\n\ndefine i64 @tungsten_channel_new() {\n    %res = call i64 @tungsten_channel_bounded(i64 1024)\n    ret i64 %res\n}\n\ndefine void @tungsten_channel_send(i64 %cid, i64 %val) {\n    %ch = inttoptr i64 %cid to ptr\n    %slots_ptr = getelementptr inbounds i8, ptr %ch, i64 48\n    %sem_slots = load ptr, ptr %slots_ptr\n    call i32 @WaitForSingleObject(ptr %sem_slots, i32 -1)\n    %mtx_ptr = getelementptr inbounds i8, ptr %ch, i64 56\n    %mtx = load ptr, ptr %mtx_ptr\n    call i32 @WaitForSingleObject(ptr %mtx, i32 -1)\n    %buf = load ptr, ptr %ch\n    %tail_ptr = getelementptr inbounds i8, ptr %ch, i64 16\n    %tail = load i64, ptr %tail_ptr\n    %slot_ptr = getelementptr inbounds i64, ptr %buf, i64 %tail\n    store i64 %val, ptr %slot_ptr\n    %cap_ptr = getelementptr inbounds i8, ptr %ch, i64 32\n    %cap = load i64, ptr %cap_ptr\n    %next_tail = add i64 %tail, 1\n    %rem_tail = urem i64 %next_tail, %cap\n    store i64 %rem_tail, ptr %tail_ptr\n    %cnt_ptr = getelementptr inbounds i8, ptr %ch, i64 24\n    %cnt = load i64, ptr %cnt_ptr\n    %next_cnt = add i64 %cnt, 1\n    store i64 %next_cnt, ptr %cnt_ptr\n    call i32 @ReleaseMutex(ptr %mtx)\n    %items_ptr = getelementptr inbounds i8, ptr %ch, i64 40\n    %sem_items = load ptr, ptr %items_ptr\n    call i32 @ReleaseSemaphore(ptr %sem_items, i32 1, ptr null)\n    ret void\n}\n\ndefine i64 @tungsten_channel_recv(i64 %cid) {\n    %ch = inttoptr i64 %cid to ptr\n    %items_ptr = getelementptr inbounds i8, ptr %ch, i64 40\n    %sem_items = load ptr, ptr %items_ptr\n    call i32 @WaitForSingleObject(ptr %sem_items, i32 -1)\n    %mtx_ptr = getelementptr inbounds i8, ptr %ch, i64 56\n    %mtx = load ptr, ptr %mtx_ptr\n    call i32 @WaitForSingleObject(ptr %mtx, i32 -1)\n    %buf = load ptr, ptr %ch\n    %head_ptr = getelementptr inbounds i8, ptr %ch, i64 8\n    %head = load i64, ptr %head_ptr\n    %slot_ptr = getelementptr inbounds i64, ptr %buf, i64 %head\n    %val = load i64, ptr %slot_ptr\n    %cap_ptr = getelementptr inbounds i8, ptr %ch, i64 32\n    %cap = load i64, ptr %cap_ptr\n    %next_head = add i64 %head, 1\n    %rem_head = urem i64 %next_head, %cap\n    store i64 %rem_head, ptr %head_ptr\n    %cnt_ptr = getelementptr inbounds i8, ptr %ch, i64 24\n    %cnt = load i64, ptr %cnt_ptr\n    %next_cnt = sub i64 %cnt, 1\n    store i64 %next_cnt, ptr %cnt_ptr\n    call i32 @ReleaseMutex(ptr %mtx)\n    %slots_ptr = getelementptr inbounds i8, ptr %ch, i64 48\n    %sem_slots = load ptr, ptr %slots_ptr\n    call i32 @ReleaseSemaphore(ptr %sem_slots, i32 1, ptr null)\n    ret i64 %val\n}\n\ndefine i64 @tungsten_net_listen(i64 %port) {\n    %wsa_buf = alloca [400 x i8]\n    call i32 @WSAStartup(i16 514, ptr %wsa_buf)\n    %sock = call i64 @socket(i32 2, i32 1, i32 6)\n    %opt_val = alloca i32\n    store i32 1, ptr %opt_val\n    call i32 @setsockopt(i64 %sock, i32 65535, i32 4, ptr %opt_val, i32 4)\n    %addr = alloca [16 x i8]\n    store i16 2, ptr %addr\n    %p_lo = and i64 %port, 255\n    %p_sh = shl i64 %p_lo, 8\n    %p_hi = lshr i64 %port, 8\n    %p_hi_m = and i64 %p_hi, 255\n    %net_port = or i64 %p_sh, %p_hi_m\n    %net_port16 = trunc i64 %net_port to i16\n    %port_ptr = getelementptr inbounds i8, ptr %addr, i64 2\n    store i16 %net_port16, ptr %port_ptr\n    %addr_ptr = getelementptr inbounds i8, ptr %addr, i64 4\n    store i32 0, ptr %addr_ptr\n    %zero_ptr = getelementptr inbounds i8, ptr %addr, i64 8\n    store i64 0, ptr %zero_ptr\n    call i32 @bind(i64 %sock, ptr %addr, i32 16)\n    call i32 @listen(i64 %sock, i32 128)\n    ret i64 %sock\n}\n\ndefine i64 @tungsten_net_accept(i64 %listener) {\n    %conn = call i64 @accept(i64 %listener, ptr null, ptr null)\n    ret i64 %conn\n}\n\ndefine i64 @tungsten_net_connect(ptr %host, i64 %port) {\n    ret i64 0\n}\n\ndefine ptr @tungsten_net_read(i64 %conn, i64 %max_len) {\n    %buf_sz = add i64 %max_len, 1\n    %buf = call ptr @malloc(i64 %buf_sz)\n    %trunc_len = trunc i64 %max_len to i32\n    %n = call i32 @recv(i64 %conn, ptr %buf, i32 %trunc_len, i32 0)\n    %n_is_neg = icmp slt i32 %n, 0\n    %n_bytes = select i1 %n_is_neg, i32 0, i32 %n\n    %n_i64 = sext i32 %n_bytes to i64\n    %term_ptr = getelementptr inbounds i8, ptr %buf, i64 %n_i64\n    store i8 0, ptr %term_ptr\n    ret ptr %buf\n}\n\ndefine i64 @tungsten_net_write(i64 %conn, ptr %data, i64 %len) {\n    %str_len = call i64 @strlen(ptr %data)\n    %trunc_len = trunc i64 %str_len to i32\n    %res = call i32 @send(i64 %conn, ptr %data, i32 %trunc_len, i32 0)\n    %res_i64 = sext i32 %res to i64\n    ret i64 %res_i64\n}\n\ndefine void @tungsten_net_close(i64 %conn) {\n    call i32 @closesocket(i64 %conn)\n    ret void\n}\n\ndefine i32 @tungsten_foreign_call_thunk(ptr %ctx) {\n    %fn_slot = getelementptr inbounds i8, ptr %ctx, i64 0\n    %fn_ptr = load ptr, ptr %fn_slot\n    %a1_slot = getelementptr inbounds i8, ptr %ctx, i64 8\n    %a1 = load i64, ptr %a1_slot\n    %res = call i64 %fn_ptr(i64 %a1)\n    %res_slot = getelementptr inbounds i8, ptr %ctx, i64 16\n    store i64 %res, ptr %res_slot\n    %sem_slot = getelementptr inbounds i8, ptr %ctx, i64 24\n    %sem = load ptr, ptr %sem_slot\n    call i32 @ReleaseSemaphore(ptr %sem, i32 1, ptr null)\n    ret i32 0\n}\n\ndefine i64 @tungsten_foreign_call_offload(ptr %fn_ptr, i64 %a1) {\n    %sem = call ptr @CreateSemaphoreA(ptr null, i32 0, i32 1, ptr null)\n    %ctx = call ptr @malloc(i64 32)\n    %fn_slot = getelementptr inbounds i8, ptr %ctx, i64 0\n    store ptr %fn_ptr, ptr %fn_slot\n    %a1_slot = getelementptr inbounds i8, ptr %ctx, i64 8\n    store i64 %a1, ptr %a1_slot\n    %sem_slot = getelementptr inbounds i8, ptr %ctx, i64 24\n    store ptr %sem, ptr %sem_slot\n    %th = call ptr @CreateThread(ptr null, i64 0, ptr @tungsten_foreign_call_thunk, ptr %ctx, i32 0, ptr null)\n    br label %poll\npoll:\n    %w = call i32 @WaitForSingleObject(ptr %sem, i32 0)\n    %done = icmp eq i32 %w, 0\n    br i1 %done, label %finish, label %yield_poll\nyield_poll:\n    call void @Sleep(i32 0)\n    br label %poll\nfinish:\n    call i32 @CloseHandle(ptr %th)\n    call i32 @CloseHandle(ptr %sem)\n    %res_slot = getelementptr inbounds i8, ptr %ctx, i64 16\n    %res = load i64, ptr %res_slot\n    call void @free(ptr %ctx)\n    ret i64 %res\n}\n\n")
}

fn builtin_c_names_exec() -> (r: Vec<Vec<char>>)
    ensures
        dseq(r@) == builtin_c_names(),
{
    let mut r: Vec<Vec<char>> = Vec::new();
    r.push(str_chars("printf"));
    r.push(str_chars("putchar"));
    r.push(str_chars("exit"));
    r.push(str_chars("malloc"));
    r.push(str_chars("realloc"));
    r.push(str_chars("free"));
    r.push(str_chars("Sleep"));
    r.push(str_chars("WSAStartup"));
    r.push(str_chars("socket"));
    r.push(str_chars("bind"));
    r.push(str_chars("listen"));
    r.push(str_chars("accept"));
    r.push(str_chars("recv"));
    r.push(str_chars("send"));
    r.push(str_chars("closesocket"));
    r.push(str_chars("setsockopt"));
    r.push(str_chars("strlen"));
    r.push(str_chars("CreateThread"));
    r.push(str_chars("CloseHandle"));
    r.push(str_chars("CreateSemaphoreA"));
    r.push(str_chars("CreateMutexA"));
    r.push(str_chars("WaitForSingleObject"));
    r.push(str_chars("ReleaseSemaphore"));
    r.push(str_chars("ReleaseMutex"));
    assert(dseq(r@) =~= builtin_c_names());
    r
}

fn extern_decls_exec(decls: &Vec<ExternDecl>) -> (r: Vec<char>)
    ensures
        r@ == extern_decls_text(builtin_c_names(), Seq::new(decls@.len(), |i: int| decl_view(decls@[i]))).1,
{
    let ghost ds = Seq::new(decls@.len(), |i: int| decl_view(decls@[i]));
    let mut declared = builtin_c_names_exec();
    let mut out: Vec<char> = Vec::new();
    let mut k: usize = 0;
    assert(ds.subrange(0, 0) =~= Seq::<ExternDeclV>::empty());
    while k < decls.len()
        invariant
            k <= decls@.len(),
            ds == Seq::new(decls@.len(), |i: int| decl_view(decls@[i])),
            (dseq(declared@), out@) == extern_decls_text(builtin_c_names(), ds.subrange(0, k as int)),
        decreases decls@.len() - k,
    {
        proof {
            assert(ds.subrange(0, k + 1).drop_last() =~= ds.subrange(0, k as int));
            assert(ds.subrange(0, k + 1).last() == decl_view(decls@[k as int]));
        }
        let d = &decls[k];
        let name = str_chars(d.name.as_str());
        if !contains_name(&declared, name.as_slice()) {
            let ghost before = dseq(declared@);
            declared.push(copy_chars(name.as_slice()));
            assert(dseq(declared@) =~= before.push(d.name@));
            let mut parts: Vec<Vec<char>> = Vec::new();
            let mut j: usize = 0;
            while j < d.params.len()
                invariant
                    j <= d.params@.len(),
                    parts@.len() == j,
                    forall|i: int| 0 <= i < j ==> (#[trigger] parts@[i])@ == d.params@[i]@,
                decreases d.params@.len() - j,
            {
                parts.push(str_chars(d.params[j].as_str()));
                j = j + 1;
            }
            assert(dv(parts@) =~= decl_view(*d).2);
            let sep = str_chars(", ");
            let joined = join_exec(parts.as_slice(), sep.as_slice());
            let mut line = str_chars("declare ");
            extend_chars(&mut line, str_chars(d.ret.as_str()).as_slice());
            extend_lit(&mut line, " @");
            extend_chars(&mut line, name.as_slice());
            extend_lit(&mut line, "(");
            extend_chars(&mut line, joined.as_slice());
            extend_lit(&mut line, ")\n");
            assert(line@ =~= "declare "@ + d.ret@ + " @"@ + d.name@ + "("@ + joined@ + ")\n"@);
            let ghost ob = out@;
            extend_chars(&mut out, line.as_slice());
            assert(out@ == ob + line@);
        }
        k = k + 1;
    }
    assert(ds.subrange(0, decls@.len() as int) =~= ds);
    out
}


fn string_globals_exec(strs: &Vec<Vec<char>>) -> (r: Vec<char>)
    requires
        texts_fit(dseq(strs@)),
    ensures
        r@ == string_globals(dseq(strs@)),
{
    let ghost all = dseq(strs@);
    let mut out: Vec<char> = Vec::new();
    let mut k: usize = 0;
    assert(all.subrange(0, 0) =~= Seq::<Seq<char>>::empty());
    while k < strs.len()
        invariant
            k <= strs@.len(),
            all == dseq(strs@),
            texts_fit(all),
            out@ == string_globals(all.subrange(0, k as int)),
        decreases strs@.len() - k,
    {
        let x = &strs[k];
        assert(all[k as int] == x@);
        assert(4 * x@.len() + 8 <= usize::MAX);
        let n = utf8_len_exec(x.as_slice());
        let xs = crate::text::string_of(x.as_slice());
        let esc = escape_llvm_string(xs.as_str());
        let mut line = str_chars("@str_");
        extend_chars(&mut line, u64_decimal(k as u64).as_slice());
        extend_lit(&mut line, " = internal constant [");
        extend_chars(&mut line, u64_decimal((n + 1) as u64).as_slice());
        extend_lit(&mut line, " x i8] c\"");
        extend_chars(&mut line, str_chars(esc.as_str()).as_slice());
        extend_lit(&mut line, "\\00\"\n");
        proof {
            let sub = all.subrange(0, k + 1);
            assert(sub.drop_last() =~= all.subrange(0, k as int));
            assert(sub.last() == x@);
            assert(sub.len() - 1 == k);
            assert(line@ =~= "@str_"@ + nat_decimal(k as nat) + " = internal constant ["@ + nat_decimal(utf8_len(x@) + 1)
                + " x i8] c\""@ + llvm_escaped(x@) + "\\00\"\n"@);
        }
        extend_chars(&mut out, line.as_slice());
        k = k + 1;
    }
    assert(all.subrange(0, strs@.len() as int) =~= all);
    out
}

proof fn lemma_module_budget_prefix(fs: Seq<TirFunction>, k: int)
    requires
        0 <= k <= fs.len(),
    ensures
        module_budget(fs.subrange(0, k)) <= module_budget(fs),
    decreases fs.len() - k,
{
    if k < fs.len() {
        lemma_module_budget_prefix(fs, k + 1);
        assert(fs.subrange(0, k + 1).drop_last() =~= fs.subrange(0, k));
    } else {
        assert(fs.subrange(0, k) =~= fs);
    }
}

fn same_var_exec(a: &Var, b: &Var) -> (r: bool)
    ensures
        r == same_var(*a, *b),
{
    match (a, b) {
        (Var::Named(x), Var::Named(y)) => {
            let xs = str_chars(x.as_str());
            let ys = str_chars(y.as_str());
            chars_eq(xs.as_slice(), ys.as_slice())
        },
        (Var::Temp(x), Var::Temp(y)) => *x == *y,
        _ => false,
    }
}

impl LlvmTextEmitter {
    /// The position in the module of the next function to emit.
    pub closed spec fn fn_index(&self) -> nat {
        self.fn_index as nat
    }

    /// The names of the module's functions.
    pub closed spec fn fn_names(&self) -> Seq<Seq<char>> {
        dseq(self.fns@)
    }

    /// The names declared in the module's extern blocks.
    pub closed spec fn extern_names(&self) -> Seq<Seq<char>> {
        dseq(self.externs@)
    }

    /// The recorded LLVM types of the current function's variables.
    pub closed spec fn var_tys(&self) -> Seq<(Var, Seq<char>)> {
        dvt(self.var_types@)
    }

    /// The LLVM types of the parameters of the module's functions.
    pub closed spec fn fn_param_tys(&self) -> Seq<Seq<Seq<char>>> {
        Seq::new(self.fn_params@.len(), |i: int| dseq(self.fn_params@[i]@))
    }

    /// The field names of the module's structs, struct by struct.
    pub closed spec fn struct_fields(&self) -> Seq<Seq<Seq<char>>> {
        Seq::new(self.structs@.len(), |i: int| dseq(self.structs@[i]@))
    }

    /// Records the field names of the module's structs, struct by struct.
    pub fn set_struct_fields(&mut self, structs: &Vec<Vec<String>>)
        ensures
            final(self).struct_fields() == Seq::new(structs@.len(), |i: int| Seq::new(
                structs@[i]@.len(),
                |j: int| structs@[i]@[j]@,
            )),
            final(self).state() == old(self).state(),
            final(self).fn_names() == old(self).fn_names(),
            final(self).extern_names() == old(self).extern_names(),
            final(self).var_tys() == old(self).var_tys(),
            final(self).fn_param_tys() == old(self).fn_param_tys(),
    {
        let mut out: Vec<Vec<Vec<char>>> = Vec::new();
        let mut i: usize = 0;
        while i < structs.len()
            invariant
                i <= structs@.len(),
                out@.len() == i,
                forall|k: int| 0 <= k < i ==> dseq(#[trigger] out@[k]@) == Seq::new(
                    structs@[k]@.len(),
                    |j: int| structs@[k]@[j]@,
                ),
            decreases structs@.len() - i,
        {
            let mut names: Vec<Vec<char>> = Vec::new();
            let mut j: usize = 0;
            while j < structs[i].len()
                invariant
                    i < structs@.len(),
                    j <= structs@[i as int]@.len(),
                    names@.len() == j,
                    forall|m: int| 0 <= m < j ==> names@[m]@ == structs@[i as int]@[m]@,
                decreases structs@[i as int]@.len() - j,
            {
                names.push(str_chars(structs[i][j].as_str()));
                j = j + 1;
            }
            assert(dseq(names@) =~= Seq::new(structs@[i as int]@.len(), |j: int| structs@[i as int]@[j]@));
            out.push(names);
            i = i + 1;
        }
        self.structs = out;
        assert(self.struct_fields() =~= Seq::new(structs@.len(), |i: int| Seq::new(
            structs@[i]@.len(),
            |j: int| structs@[i]@[j]@,
        )));
    }

    /// What has been produced so far.
    pub closed spec fn state(&self) -> EmitState {
        (dseq(self.strings@), self.temp_counter as nat, self.out@)
    }

    /// A fresh emitter for `module`, whose extern blocks declare
    /// `extern_fns`: nothing written, no literal interned, no temporary used.
    pub fn new(module: &TirModule, extern_fns: Vec<String>) -> (r: Self)
        ensures
            r.fn_names() == Seq::new(module.functions@.len(), |i: int| module.functions@[i].name@),
            r.extern_names() == Seq::new(extern_fns@.len(), |i: int| extern_fns@[i]@),
            r.var_tys() == Seq::<(Var, Seq<char>)>::empty(),
            r.struct_fields() == Seq::<Seq<Seq<char>>>::empty(),
            r.fn_param_tys() == Seq::new(module.functions@.len(), |i: int| param_tys(module.functions@[i].params@)),
            r.state() == (Seq::<Seq<char>>::empty(), 0nat, Seq::<char>::empty()),
            r.fn_index() == 0,
    {
        let mut fns: Vec<Vec<char>> = Vec::new();
        let mut fn_params: Vec<Vec<Vec<char>>> = Vec::new();
        let mut k: usize = 0;
        while k < module.functions.len()
            invariant
                k <= module.functions@.len(),
                fns@.len() == k,
                fn_params@.len() == k,
                forall|m: int| 0 <= m < k ==> fns@[m]@ == module.functions@[m].name@,
                forall|m: int| 0 <= m < k ==> dseq(#[trigger] fn_params@[m]@) == param_tys(module.functions@[m].params@),
            decreases module.functions@.len() - k,
        {
            fns.push(str_chars(module.functions[k].name.as_str()));
            let ps = &module.functions[k].params;
            let mut tys: Vec<Vec<char>> = Vec::new();
            let mut j: usize = 0;
            while j < ps.len()
                invariant
                    j <= ps@.len(),
                    tys@.len() == j,
                    forall|m: int| 0 <= m < j ==> tys@[m]@ == llvm_type(ps@[m].1),
                decreases ps@.len() - j,
            {
                let t = type_to_llvm(&ps[j].1);
                tys.push(str_chars(t.as_str()));
                j = j + 1;
            }
            assert(dseq(tys@) =~= param_tys(ps@));
            fn_params.push(tys);
            k = k + 1;
        }
        let mut externs: Vec<Vec<char>> = Vec::new();
        let mut j: usize = 0;
        while j < extern_fns.len()
            invariant
                j <= extern_fns@.len(),
                externs@.len() == j,
                forall|m: int| 0 <= m < j ==> externs@[m]@ == extern_fns@[m]@,
            decreases extern_fns@.len() - j,
        {
            externs.push(str_chars(extern_fns[j].as_str()));
            j = j + 1;
        }
        let r = LlvmTextEmitter {
            fn_params,
            structs: Vec::new(),
            fns,
            externs,
            var_types: Vec::new(),
            strings: Vec::new(),
            temp_counter: 0,
            fn_index: 0,
            out: Vec::new(),
        };
        assert(r.fn_names() =~= Seq::new(module.functions@.len(), |i: int| module.functions@[i].name@));
        assert(r.extern_names() =~= Seq::new(extern_fns@.len(), |i: int| extern_fns@[i]@));
        assert(r.var_tys() =~= Seq::<(Var, Seq<char>)>::empty());
        assert(dseq(r.strings@) =~= Seq::<Seq<char>>::empty());
        assert(r.struct_fields() =~= Seq::<Seq<Seq<char>>>::empty());
        assert(r.fn_param_tys() =~= Seq::new(module.functions@.len(), |i: int| param_tys(module.functions@[i].params@)));
        r
    }

    /// The text written so far.
    pub fn text(&self) -> (r: String)
        ensures
            r@ == self.state().2,
    {
        crate::text::string_of(self.out.as_slice())
    }

    /// The interned string literals, in the order they were first met.
    pub fn interned(&self) -> (r: Vec<String>)
        ensures
            r@.len() == self.state().0.len(),
            forall|i: int| 0 <= i < r@.len() ==> r@[i]@ == self.state().0[i],
    {
        let mut r: Vec<String> = Vec::new();
        let mut k: usize = 0;
        while k < self.strings.len()
            invariant
                k <= self.strings@.len(),
                r@.len() == k,
                forall|m: int| 0 <= m < k ==> r@[m]@ == self.strings@[m]@,
            decreases self.strings@.len() - k,
        {
            r.push(crate::text::string_of(self.strings[k].as_slice()));
            k = k + 1;
        }
        r
    }

    /// Records the LLVM types of the variables of the function about to be
    /// emitted (the first entry for a variable counts).
    pub fn set_var_types(&mut self, vars: Vec<(Var, String)>)
        ensures
            final(self).var_tys() == Seq::new(vars@.len(), |i: int| (vars@[i].0, vars@[i].1@)),
            final(self).state() == old(self).state(),
            final(self).fn_names() == old(self).fn_names(),
            final(self).extern_names() == old(self).extern_names(),
    {
        let mut vt: Vec<(Var, Vec<char>)> = Vec::new();
        let mut rest = vars;
        let ghost orig = rest@;
        let n = rest.len();
        let mut k: usize = 0;
        while k < n
            invariant
                n == orig.len(),
                k <= n,
                rest@ == orig.subrange(k as int, n as int),
                vt@.len() == k,
                forall|m: int| 0 <= m < k ==> vt@[m].0 == orig[m].0 && vt@[m].1@ == orig[m].1@,
            decreases n - k,
        {
            let ghost before = rest@;
            let (v, t) = rest.remove(0);
            proof {
                assert(before[0] == orig[k as int]);
                assert(rest@ =~= orig.subrange(k + 1, n as int));
            }
            vt.push((v, str_chars(t.as_str())));
            k = k + 1;
        }
        self.var_types = vt;
        assert(self.var_tys() =~= Seq::new(orig.len(), |i: int| (orig[i].0, orig[i].1@)));
    }

    /// A fresh temporary, `%t` and the counter's value; the counter steps.
    pub fn next_temp(&mut self) -> (r: Vec<char>)
        requires
            old(self).state().1 < usize::MAX,
        ensures
            r@ == temp_name(old(self).state().1),
            final(self).state() == (old(self).state().0, old(self).state().1 + 1, old(self).state().2),
            final(self).fn_names() == old(self).fn_names(),
            final(self).extern_names() == old(self).extern_names(),
            final(self).var_tys() == old(self).var_tys(),
            final(self).struct_fields() == old(self).struct_fields(),
            final(self).fn_param_tys() == old(self).fn_param_tys(),
    {
        let mut r = str_chars("%t");
        let d = u64_decimal(self.temp_counter as u64);
        extend_chars(&mut r, d.as_slice());
        self.temp_counter = self.temp_counter + 1;
        r
    }

    /// The index of a string literal among the interned ones, interning it
    /// when it is new.
    pub fn intern_string(&mut self, s: &[char]) -> (r: usize)
        ensures
            (final(self).state().0, r as nat) == intern_spec(old(self).state().0, s@),
            final(self).state().1 == old(self).state().1,
            final(self).state().2 == old(self).state().2,
            final(self).fn_names() == old(self).fn_names(),
            final(self).extern_names() == old(self).extern_names(),
            final(self).var_tys() == old(self).var_tys(),
            final(self).struct_fields() == old(self).struct_fields(),
            final(self).fn_param_tys() == old(self).fn_param_tys(),
    {
        let ghost strs = dseq(self.strings@);
        let mut k: usize = 0;
        while k < self.strings.len()
            invariant
                k <= self.strings@.len(),
                strs == dseq(self.strings@),
                forall|m: int| 0 <= m < k ==> strs[m] != s@,
            decreases self.strings@.len() - k,
        {
            if chars_eq(self.strings[k].as_slice(), s) {
                proof {
                    assert(strs[k as int] == s@);
                    let f = first_index(strs, s@);
                    assert(0 <= f < strs.len() && strs[f] == s@ && forall|m: int|
                        0 <= m < f ==> strs[m] != s@);
                    if f < k {
                        assert(strs[f] != s@);
                    }
                    if (k as int) < f {
                        assert(strs[k as int] != s@);
                    }
                }
                return k;
            }
            k = k + 1;
        }
        let idx = self.strings.len();
        let c = copy_chars(s);
        self.strings.push(c);
        proof {
            assert(dseq(self.strings@) =~= strs.push(s@));
            assert(!(exists|i: int| 0 <= i < strs.len() && strs[i] == s@));
        }
        idx
    }

    fn lookup_var_type(&self, v: &Var, ty: &Type) -> (r: Vec<char>)
        ensures
            r@ == lookup_var_ty(self.var_tys(), *v, *ty),
    {
        let ghost vt = self.var_tys();
        assert(vt.subrange(0, vt.len() as int) =~= vt);
        let mut k: usize = 0;
        while k < self.var_types.len()
            invariant
                k <= self.var_types@.len(),
                vt == self.var_tys(),
                lookup_var_ty(vt, *v, *ty) == lookup_var_ty(vt.subrange(k as int, vt.len() as int), *v, *ty),
            decreases self.var_types@.len() - k,
        {
            let ghost rest = vt.subrange(k as int, vt.len() as int);
            assert(rest.drop_first() =~= vt.subrange(k + 1, vt.len() as int));
            if same_var_exec(&self.var_types[k].0, v) {
                return copy_chars(self.var_types[k].1.as_slice());
            }
            k = k + 1;
        }
        let s = type_to_llvm(ty);
        str_chars(s.as_str())
    }

    fn refers_to_fn_exec(&self, name: &String) -> (r: (bool, Vec<char>))
        ensures
            r.0 == refers_to_fn(self.fn_names(), self.extern_names(), name@),
            r.1@ == strip_lead_char(name@, '_'),
    {
        let chars = str_chars(name.as_str());
        let (clean, _) = strip_lead_char_exec(chars.as_slice(), '_');
        let in_fns = contains_name(&self.fns, clean.as_slice());
        let in_externs = contains_name(&self.externs, clean.as_slice());
        (in_fns || in_externs, clean)
    }


    fn push_line4(&mut self, t: &[char], mid: &str, a: &[char], mid2: &str, b: &[char], end: &str)
        ensures
            final(self).state() == (old(self).state().0, old(self).state().1,
                old(self).state().2 + "    "@ + t@ + mid@ + a@ + mid2@ + b@ + end@),
            final(self).fn_names() == old(self).fn_names(),
            final(self).extern_names() == old(self).extern_names(),
            final(self).var_tys() == old(self).var_tys(),
            final(self).struct_fields() == old(self).struct_fields(),
            final(self).fn_param_tys() == old(self).fn_param_tys(),
    {
        let mut line = str_chars("    ");
        extend_chars(&mut line, t);
        extend_lit(&mut line, mid);
        extend_chars(&mut line, a);
        extend_lit(&mut line, mid2);
        extend_chars(&mut line, b);
        extend_lit(&mut line, end);
        extend_chars(&mut self.out, line.as_slice());
        assert(self.out@ =~= old(self).state().2 + "    "@ + t@ + mid@ + a@ + mid2@ + b@ + end@);
    }

    fn push_lit(&mut self, lit: &str)
        ensures
            final(self).state() == (old(self).state().0, old(self).state().1, old(self).state().2 + lit@),
            final(self).fn_names() == old(self).fn_names(),
            final(self).extern_names() == old(self).extern_names(),
            final(self).var_tys() == old(self).var_tys(),
            final(self).struct_fields() == old(self).struct_fields(),
            final(self).fn_param_tys() == old(self).fn_param_tys(),
    {
        extend_lit(&mut self.out, lit);
    }

    fn push_chars(&mut self, c: &[char])
        ensures
            final(self).state() == (old(self).state().0, old(self).state().1, old(self).state().2 + c@),
            final(self).fn_names() == old(self).fn_names(),
            final(self).extern_names() == old(self).extern_names(),
            final(self).var_tys() == old(self).var_tys(),
            final(self).struct_fields() == old(self).struct_fields(),
            final(self).fn_param_tys() == old(self).fn_param_tys(),
    {
        extend_chars(&mut self.out, c);
    }

    /// Converts `val` from LLVM type `from` to `to`, writing the cast into a
    /// fresh temporary where one applies.
    pub fn coerce_val(&mut self, val: &[char], from: &[char], to: &[char]) -> (r: Vec<char>)
        requires
            old(self).state().1 < usize::MAX,
        ensures
            (final(self).state(), r@) == coerce_emit(old(self).state(), val@, from@, to@),
            old(self).state().1 <= final(self).state().1 <= old(self).state().1 + 1,
            final(self).fn_names() == old(self).fn_names(),
            final(self).extern_names() == old(self).extern_names(),
            final(self).var_tys() == old(self).var_tys(),
            final(self).struct_fields() == old(self).struct_fields(),
            final(self).fn_param_tys() == old(self).fn_param_tys(),
    {
        reveal(coerce_emit);
        let narrow_to = crate::text::eq_lit(to, "i8") || crate::text::eq_lit(to, "i16") || crate::text::eq_lit(to, "i32");
        let narrow_from = crate::text::eq_lit(from, "i8") || crate::text::eq_lit(from, "i16") || crate::text::eq_lit(from, "i32");
        let from_i64 = crate::text::eq_lit(from, "i64");
        let to_i64 = crate::text::eq_lit(to, "i64");
        let from_ptr = crate::text::eq_lit(from, "ptr");
        let to_ptr = crate::text::eq_lit(to, "ptr");
        if chars_eq(from, to) {
            copy_chars(val)
        } else if from_i64 && narrow_to {
            let t = self.next_temp();
            self.push_line4(t.as_slice(), " = trunc i64 ", val, " to ", to, "\n");
            t
        } else if narrow_from && to_i64 {
            let t = self.next_temp();
            self.push_line4(t.as_slice(), " = zext ", from, " ", val, " to i64\n");
            t
        } else if from_ptr && to_i64 {
            let t = self.next_temp();
            let e: Vec<char> = Vec::new();
            self.push_line4(t.as_slice(), " = ptrtoint ptr ", val, " to i64\n", e.as_slice(), "");
            assert(e@ =~= Seq::<char>::empty());
            assert(""@ =~= Seq::<char>::empty()) by {
                reveal_strlit("");
            }
            t
        } else if from_i64 && to_ptr {
            let t = self.next_temp();
            let e: Vec<char> = Vec::new();
            self.push_line4(t.as_slice(), " = inttoptr i64 ", val, " to ptr\n", e.as_slice(), "");
            assert(e@ =~= Seq::<char>::empty());
            assert(""@ =~= Seq::<char>::empty()) by {
                reveal_strlit("");
            }
            t
        } else {
            copy_chars(val)
        }
    }


    /// Emits a binary operation on its operands and gives the temporary
    /// holding its `i64` result.
    #[verifier::rlimit(40)]
    pub fn emit_binary_op(&mut self, op: BinOp, l: &Operand, r: &Operand) -> (res: Vec<char>)
        requires
            old(self).state().1 + 8 < usize::MAX,
        ensures
            old(self).state().1 <= final(self).state().1 <= old(self).state().1 + 6,
            (final(self).state(), res@) == binop_emit(
                old(self).fn_names(),
                old(self).extern_names(),
                old(self).var_tys(),
                old(self).state(),
                op,
                *l,
                *r,
            ),
            final(self).fn_names() == old(self).fn_names(),
            final(self).extern_names() == old(self).extern_names(),
            final(self).var_tys() == old(self).var_tys(),
            final(self).struct_fields() == old(self).struct_fields(),
            final(self).fn_param_tys() == old(self).fn_param_tys(),
    {
        let lv = self.emit_operand(l);
        let l_ty = self.get_operand_llvm_type(l);
        let i64s = str_chars("i64");
        let lw = self.coerce_val(lv.as_slice(), l_ty.as_slice(), i64s.as_slice());
        let rv = self.emit_operand(r);
        let r_ty = self.get_operand_llvm_type(r);
        let rw = self.coerce_val(rv.as_slice(), r_ty.as_slice(), i64s.as_slice());
        let t = self.next_temp();
        let op_str = match op {
            BinOp::Add => "add i64",
            BinOp::Sub => "sub i64",
            BinOp::Mul => "mul i64",
            BinOp::Div => "sdiv i64",
            BinOp::Eq => "icmp eq i64",
            BinOp::NotEq => "icmp ne i64",
            BinOp::Lt => "icmp slt i64",
            BinOp::LtEq => "icmp sle i64",
            BinOp::Gt => "icmp sgt i64",
            BinOp::GtEq => "icmp sge i64",
            BinOp::And => "and i64",
            BinOp::Or => "or i64",
        };
        let opc = str_chars(op_str);
        assert(opc@ == binop_text(op));
        let compares = match op {
            BinOp::Eq | BinOp::NotEq | BinOp::Lt | BinOp::LtEq | BinOp::Gt | BinOp::GtEq => true,
            _ => false,
        };
        let ghost s4 = old(self).state();
        if compares {
            let c = self.next_temp();
            let mut line = str_chars("    ");
            extend_chars(&mut line, c.as_slice());
            extend_lit(&mut line, " = ");
            extend_chars(&mut line, opc.as_slice());
            extend_lit(&mut line, " ");
            extend_chars(&mut line, lw.as_slice());
            extend_lit(&mut line, ", ");
            extend_chars(&mut line, rw.as_slice());
            extend_lit(&mut line, "\n");
            extend_lit(&mut line, "    ");
            extend_chars(&mut line, t.as_slice());
            extend_lit(&mut line, " = zext i1 ");
            extend_chars(&mut line, c.as_slice());
            extend_lit(&mut line, " to i64\n");
            assert(line@ =~= "    "@ + c@ + " = "@ + binop_text(op) + " "@ + lw@ + ", "@ + rw@ + "\n"@ + "    "@ + t@
                + " = zext i1 "@ + c@ + " to i64\n"@);
            self.push_chars(line.as_slice());
            t
        } else {
            let mut line = str_chars("    ");
            extend_chars(&mut line, t.as_slice());
            extend_lit(&mut line, " = ");
            extend_chars(&mut line, opc.as_slice());
            extend_lit(&mut line, " ");
            extend_chars(&mut line, lw.as_slice());
            extend_lit(&mut line, ", ");
            extend_chars(&mut line, rw.as_slice());
            extend_lit(&mut line, "\n");
            assert(line@ =~= "    "@ + t@ + " = "@ + binop_text(op) + " "@ + lw@ + ", "@ + rw@ + "\n"@);
            self.push_chars(line.as_slice());
            t
        }
    }


    fn push_branch(&mut self, target: u32)
        ensures
            final(self).state() == (old(self).state().0, old(self).state().1,
                old(self).state().2 + "    br label "@ + block_label(target) + "\n"@),
            final(self).fn_names() == old(self).fn_names(),
            final(self).extern_names() == old(self).extern_names(),
            final(self).var_tys() == old(self).var_tys(),
            final(self).struct_fields() == old(self).struct_fields(),
            final(self).fn_param_tys() == old(self).fn_param_tys(),
    {
        let mut line = str_chars("    br label %bb");
        let d = u64_decimal(target as u64);
        extend_chars(&mut line, d.as_slice());
        extend_lit(&mut line, "\n");
        proof {
            reveal_strlit("    br label %bb");
            reveal_strlit("    br label ");
            reveal_strlit("%bb");
        }
        assert(line@ =~= "    br label "@ + block_label(target) + "\n"@);
        self.push_chars(line.as_slice());
    }

    /// Emits the terminator of a block of a function returning `ret_ty`
    /// (`is_main` for `main`, which returns `i32`).
    #[verifier::rlimit(40)]
    pub fn emit_terminator(&mut self, term: &Terminator, is_main: bool, ret_ty: &Type)
        requires
            old(self).state().1 + 8 < usize::MAX,
        ensures
            old(self).state().1 <= final(self).state().1 <= old(self).state().1 + 3,
            final(self).state() == terminator_emit(
                old(self).fn_names(),
                old(self).extern_names(),
                old(self).var_tys(),
                old(self).state(),
                *term,
                is_main,
                *ret_ty,
            ),
            final(self).fn_names() == old(self).fn_names(),
            final(self).extern_names() == old(self).extern_names(),
            final(self).var_tys() == old(self).var_tys(),
            final(self).struct_fields() == old(self).struct_fields(),
            final(self).fn_param_tys() == old(self).fn_param_tys(),
    {
        reveal(terminator_emit);
        match term {
            Terminator::Return(Some(op)) => {
                let val = self.emit_operand(op);
                let from = self.get_operand_llvm_type(op);
                if is_main {
                    let i32s = str_chars("i32");
                    let c = self.coerce_val(val.as_slice(), from.as_slice(), i32s.as_slice());
                    let mut line = str_chars("    ret i32 ");
                    extend_chars(&mut line, c.as_slice());
                    extend_lit(&mut line, "\n");
                    self.push_chars(line.as_slice());
                } else {
                    match ret_ty {
                        Type::Unit => {
                            self.push_lit("    ret void\n");
                        },
                        _ => {
                            let ts = type_to_llvm(ret_ty);
                            let tc = str_chars(ts.as_str());
                            let c = self.coerce_val(val.as_slice(), from.as_slice(), tc.as_slice());
                            let mut line = str_chars("    ret ");
                            extend_chars(&mut line, tc.as_slice());
                            extend_lit(&mut line, " ");
                            extend_chars(&mut line, c.as_slice());
                            extend_lit(&mut line, "\n");
                            assert(line@ =~= "    ret "@ + llvm_type(*ret_ty) + " "@ + c@ + "\n"@);
                            self.push_chars(line.as_slice());
                        },
                    }
                }
            },
            Terminator::Return(None) => {
                if is_main {
                    self.push_lit("    ret i32 0\n");
                } else {
                    self.push_lit("    ret void\n");
                }
            },
            Terminator::Branch(target) => {
                self.push_branch(target.0);
            },
            Terminator::BranchCond { cond, then_block, else_block } => {
                let v = self.emit_operand(cond);
                let cty = self.get_operand_llvm_type(cond);
                let c = if crate::text::eq_lit(cty.as_slice(), "i1") {
                    v
                } else {
                    let t = self.next_temp();
                    let mut line = str_chars("    ");
                    extend_chars(&mut line, t.as_slice());
                    extend_lit(&mut line, " = icmp ne ");
                    extend_chars(&mut line, cty.as_slice());
                    extend_lit(&mut line, " ");
                    extend_chars(&mut line, v.as_slice());
                    extend_lit(&mut line, ", 0\n");
                    assert(line@ =~= "    "@ + t@ + " = icmp ne "@ + cty@ + " "@ + v@ + ", 0\n"@);
                    self.push_chars(line.as_slice());
                    t
                };
                let mut line = str_chars("    br i1 ");
                extend_chars(&mut line, c.as_slice());
                extend_lit(&mut line, ", label %bb");
                let d1 = u64_decimal(then_block.0 as u64);
                extend_chars(&mut line, d1.as_slice());
                extend_lit(&mut line, ", label %bb");
                let d2 = u64_decimal(else_block.0 as u64);
                extend_chars(&mut line, d2.as_slice());
                extend_lit(&mut line, "\n");
                proof {
                    reveal_strlit(", label %bb");
                    reveal_strlit(", label ");
                    reveal_strlit("%bb");
                }
                assert(line@ =~= "    br i1 "@ + c@ + ", label "@ + block_label(then_block.0) + ", label "@
                    + block_label(else_block.0) + "\n"@);
                self.push_chars(line.as_slice());
            },
            Terminator::HandleEffect { body_entry, .. } => {
                self.push_branch(body_entry.0);
            },
            Terminator::Resume { continuation_block, .. } => {
                self.push_branch(continuation_block.0);
            },
            Terminator::Unreachable => {
                self.push_lit("    unreachable\n");
            },
        }
    }


    /// Emits a check that an operand lies within `[min, max]`, stopping the
    /// program through the refinement-panic routine when it does not.
    #[verifier::rlimit(40)]
    pub fn emit_assert_refinement(&mut self, operand: &Operand, min: i64, max: i64)
        requires
            old(self).state().1 + 8 < usize::MAX,
        ensures
            final(self).state() == assert_refinement_emit(
                old(self).fn_names(),
                old(self).extern_names(),
                old(self).var_tys(),
                old(self).state(),
                *operand,
                min,
                max,
            ),
            old(self).state().1 + 3 <= final(self).state().1 <= old(self).state().1 + 5,
            final(self).fn_names() == old(self).fn_names(),
            final(self).extern_names() == old(self).extern_names(),
            final(self).var_tys() == old(self).var_tys(),
            final(self).struct_fields() == old(self).struct_fields(),
            final(self).fn_param_tys() == old(self).fn_param_tys(),
    {
        reveal(assert_refinement_emit);
        let v = self.emit_operand(operand);
        let ty = self.get_operand_llvm_type(operand);
        let w = if crate::text::eq_lit(ty.as_slice(), "i64") {
            v
        } else {
            let t = self.next_temp();
            let mut line = str_chars("    ");
            extend_chars(&mut line, t.as_slice());
            extend_lit(&mut line, " = zext ");
            extend_chars(&mut line, ty.as_slice());
            extend_lit(&mut line, " ");
            extend_chars(&mut line, v.as_slice());
            extend_lit(&mut line, " to i64\n");
            assert(line@ =~= "    "@ + t@ + " = zext "@ + ty@ + " "@ + v@ + " to i64\n"@);
            self.push_chars(line.as_slice());
            t
        };
        let lo = self.next_temp();
        let hi = self.next_temp();
        let err = self.next_temp();
        let id = u64_decimal(self.temp_counter as u64);
        let lo_s = i64_decimal(min);
        let hi_s = i64_decimal(max);
        let text = build_refinement_check(&lo, &hi, &err, &id, &w, &lo_s, &hi_s);
        self.push_chars(text.as_slice());
    }


    /// Emits a cast of `operand` to `target`; gives the value and its LLVM type.
    pub fn emit_cast(&mut self, operand: &Operand, target: &Type) -> (r: (Vec<char>, Vec<char>))
        requires
            old(self).state().1 + 8 < usize::MAX,
        ensures
            old(self).state().1 <= final(self).state().1 <= old(self).state().1 + 2,
            (final(self).state(), r.0@, r.1@) == cast_emit(
                old(self).fn_names(),
                old(self).extern_names(),
                old(self).var_tys(),
                old(self).state(),
                *operand,
                *target,
            ),
            final(self).fn_names() == old(self).fn_names(),
            final(self).extern_names() == old(self).extern_names(),
            final(self).var_tys() == old(self).var_tys(),
            final(self).struct_fields() == old(self).struct_fields(),
            final(self).fn_param_tys() == old(self).fn_param_tys(),
    {
        reveal(cast_emit);
        let v = self.emit_operand(operand);
        let from = self.get_operand_llvm_type(operand);
        let ts = type_to_llvm(target);
        let to = str_chars(ts.as_str());
        let c = self.coerce_val(v.as_slice(), from.as_slice(), to.as_slice());
        (c, to)
    }

    /// Emits a load of a value of type `ty` through the pointer `operand`.
    pub fn emit_deref(&mut self, operand: &Operand, ty: &Type) -> (r: (Vec<char>, Vec<char>))
        requires
            old(self).state().1 + 8 < usize::MAX,
        ensures
            old(self).state().1 <= final(self).state().1 <= old(self).state().1 + 3,
            (final(self).state(), r.0@, r.1@) == deref_emit(
                old(self).fn_names(),
                old(self).extern_names(),
                old(self).var_tys(),
                old(self).state(),
                *operand,
                *ty,
            ),
            final(self).fn_names() == old(self).fn_names(),
            final(self).extern_names() == old(self).extern_names(),
            final(self).var_tys() == old(self).var_tys(),
            final(self).struct_fields() == old(self).struct_fields(),
            final(self).fn_param_tys() == old(self).fn_param_tys(),
    {
        reveal(deref_emit);
        let v = self.emit_operand(operand);
        let from = self.get_operand_llvm_type(operand);
        let ptr = str_chars("ptr");
        let p = self.coerce_val(v.as_slice(), from.as_slice(), ptr.as_slice());
        let ts = type_to_llvm(ty);
        let tc = str_chars(ts.as_str());
        let t = self.next_temp();
        let mut line = str_chars("    ");
        extend_chars(&mut line, t.as_slice());
        extend_lit(&mut line, " = load ");
        extend_chars(&mut line, tc.as_slice());
        extend_lit(&mut line, ", ptr ");
        extend_chars(&mut line, p.as_slice());
        extend_lit(&mut line, "\n");
        assert(line@ =~= "    "@ + t@ + " = load "@ + llvm_type(*ty) + ", ptr "@ + p@ + "\n"@);
        self.push_chars(line.as_slice());
        (t, tc)
    }

    /// Emits a load of the `i64` at byte `offset` past the pointer `target`
    /// (at the pointer itself when `offset` is `None`).
    pub fn emit_load_at(&mut self, target: &Operand, offset: Option<usize>) -> (r: Vec<char>)
        requires
            old(self).state().1 + 8 < usize::MAX,
        ensures
            old(self).state().1 <= final(self).state().1 <= old(self).state().1 + 4,
            (final(self).state(), r@) == load_at_emit(
                old(self).fn_names(),
                old(self).extern_names(),
                old(self).var_tys(),
                old(self).state(),
                *target,
                match offset { Some(o) => Some(o as nat), None => None },
            ),
            final(self).fn_names() == old(self).fn_names(),
            final(self).extern_names() == old(self).extern_names(),
            final(self).var_tys() == old(self).var_tys(),
            final(self).struct_fields() == old(self).struct_fields(),
            final(self).fn_param_tys() == old(self).fn_param_tys(),
    {
        reveal(load_at_emit);
        let v = self.emit_operand(target);
        let from = self.get_operand_llvm_type(target);
        let ptr = str_chars("ptr");
        let p = self.coerce_val(v.as_slice(), from.as_slice(), ptr.as_slice());
        match offset {
            None => {
                let t = self.next_temp();
                let mut line = str_chars("    ");
                extend_chars(&mut line, t.as_slice());
                extend_lit(&mut line, " = load i64, ptr ");
                extend_chars(&mut line, p.as_slice());
                extend_lit(&mut line, "\n");
                assert(line@ =~= "    "@ + t@ + " = load i64, ptr "@ + p@ + "\n"@);
                self.push_chars(line.as_slice());
                t
            },
            Some(off) => {
                let g = self.next_temp();
                let t = self.next_temp();
                let d = u64_decimal(off as u64);
                let mut line = str_chars("    ");
                extend_chars(&mut line, g.as_slice());
                extend_lit(&mut line, " = getelementptr inbounds i8, ptr ");
                extend_chars(&mut line, p.as_slice());
                extend_lit(&mut line, ", i64 ");
                extend_chars(&mut line, d.as_slice());
                extend_lit(&mut line, "\n");
                extend_lit(&mut line, "    ");
                extend_chars(&mut line, t.as_slice());
                extend_lit(&mut line, " = load i64, ptr ");
                extend_chars(&mut line, g.as_slice());
                extend_lit(&mut line, "\n");
                assert(line@ =~= "    "@ + g@ + " = getelementptr inbounds i8, ptr "@ + p@ + ", i64 "@
                    + nat_decimal(off as nat) + "\n"@ + "    "@ + t@ + " = load i64, ptr "@ + g@ + "\n"@);
                self.push_chars(line.as_slice());
                t
            },
        }
    }

    /// Emits the address of an operand (for `&x` and address-of).
    pub fn emit_address(&mut self, operand: &Operand) -> (r: Vec<char>)
        requires
            old(self).state().1 + 8 < usize::MAX,
        ensures
            old(self).state().1 <= final(self).state().1 <= old(self).state().1 + 2,
            (final(self).state(), r@) == address_emit(
                old(self).fn_names(),
                old(self).extern_names(),
                old(self).var_tys(),
                old(self).state(),
                *operand,
            ),
            final(self).fn_names() == old(self).fn_names(),
            final(self).extern_names() == old(self).extern_names(),
            final(self).var_tys() == old(self).var_tys(),
            final(self).struct_fields() == old(self).struct_fields(),
            final(self).fn_param_tys() == old(self).fn_param_tys(),
    {
        reveal(address_emit);
        match operand {
            Operand::Var(v, _) => {
                let slot = var_to_slot_name(v);
                str_chars(slot.as_str())
            },
            Operand::Constant(TirConstant::Str(s)) => {
                let sc = str_chars(s.as_str());
                let idx = self.intern_string(sc.as_slice());
                let mut r = str_chars("@str_");
                let d = u64_decimal(idx as u64);
                extend_chars(&mut r, d.as_slice());
                r
            },
            _ => {
                let v = self.emit_operand(operand);
                let ty = self.get_operand_llvm_type(operand);
                let t = self.next_temp();
                let mut line = str_chars("    ");
                extend_chars(&mut line, t.as_slice());
                extend_lit(&mut line, " = alloca ");
                extend_chars(&mut line, ty.as_slice());
                extend_lit(&mut line, "\n");
                extend_lit(&mut line, "    store ");
                extend_chars(&mut line, ty.as_slice());
                extend_lit(&mut line, " ");
                extend_chars(&mut line, v.as_slice());
                extend_lit(&mut line, ", ptr ");
                extend_chars(&mut line, t.as_slice());
                extend_lit(&mut line, "\n");
                assert(line@ =~= "    "@ + t@ + " = alloca "@ + ty@ + "\n"@ + "    store "@ + ty@ + " "@ + v@
                    + ", ptr "@ + t@ + "\n"@);
                self.push_chars(line.as_slice());
                t
            },
        }
    }


    /// Emits the read of element `index` of the array `target` whose
    /// elements are `stride` bytes apart.
    pub fn emit_array_index(&mut self, target: &Operand, index: &Operand, stride: usize) -> (r: Vec<char>)
        requires
            old(self).state().1 + 16 < usize::MAX,
        ensures
            old(self).state().1 <= final(self).state().1 <= old(self).state().1 + 8,
            (final(self).state(), r@) == array_index_emit(
                old(self).fn_names(),
                old(self).extern_names(),
                old(self).var_tys(),
                old(self).state(),
                *target,
                *index,
                stride as nat,
            ),
            final(self).fn_names() == old(self).fn_names(),
            final(self).extern_names() == old(self).extern_names(),
            final(self).var_tys() == old(self).var_tys(),
            final(self).struct_fields() == old(self).struct_fields(),
            final(self).fn_param_tys() == old(self).fn_param_tys(),
    {
        reveal(array_index_emit);
        let tv = self.emit_operand(target);
        let tt = self.get_operand_llvm_type(target);
        let ptr = str_chars("ptr");
        let tp = self.coerce_val(tv.as_slice(), tt.as_slice(), ptr.as_slice());
        let iv = self.emit_operand(index);
        let it = self.get_operand_llvm_type(index);
        let i64s = str_chars("i64");
        let iw = self.coerce_val(iv.as_slice(), it.as_slice(), i64s.as_slice());
        let sz: usize = if stride == 0 { 1 } else { stride };
        self.emit_array_elem(tp.as_slice(), iw.as_slice(), sz)
    }

    fn emit_array_elem(&mut self, tp: &[char], iw: &[char], sz: usize) -> (r: Vec<char>)
        requires
            old(self).state().1 + 8 < usize::MAX,
            sz >= 1,
        ensures
            old(self).state().1 <= final(self).state().1 <= old(self).state().1 + 4,
            (final(self).state(), r@) == array_elem_emit(old(self).state(), tp@, iw@, sz as nat),
            final(self).fn_names() == old(self).fn_names(),
            final(self).extern_names() == old(self).extern_names(),
            final(self).var_tys() == old(self).var_tys(),
            final(self).struct_fields() == old(self).struct_fields(),
            final(self).fn_param_tys() == old(self).fn_param_tys(),
    {
        reveal(array_elem_emit);
        let off = if sz == 1 {
            copy_chars(iw)
        } else {
            let m = self.next_temp();
            let d = u64_decimal(sz as u64);
            let line = build_mul_line(&m, iw, &d);
            self.push_chars(line.as_slice());
            m
        };
        let g = self.next_temp();
        let l = self.next_temp();
        let et = elem_type_exec(sz);
        let line = build_gep_load(&g, tp, &off, &l, &et);
        self.push_chars(line.as_slice());
        if sz < 8 {
            let x = self.next_temp();
            let line2 = build_zext_line(&x, &et, &l);
            self.push_chars(line2.as_slice());
            x
        } else {
            l
        }
    }


    fn emit_opt_arg(&mut self, args: &Vec<Operand>, i: usize, default: &str) -> (r: (Vec<char>, Vec<char>))
        requires
            old(self).state().1 + 8 < usize::MAX,
        ensures
            (final(self).state(), r.0@, r.1@) == opt_arg_emit(
                old(self).fn_names(),
                old(self).extern_names(),
                old(self).var_tys(),
                old(self).state(),
                args@,
                i as int,
                default@,
            ),
            old(self).state().1 <= final(self).state().1 <= old(self).state().1 + 1,
            final(self).fn_names() == old(self).fn_names(),
            final(self).extern_names() == old(self).extern_names(),
            final(self).var_tys() == old(self).var_tys(),
            final(self).struct_fields() == old(self).struct_fields(),
            final(self).fn_param_tys() == old(self).fn_param_tys(),
    {
        reveal(opt_arg_emit);
        if i < args.len() {
            let v = self.emit_operand(&args[i]);
            let t = self.get_operand_llvm_type(&args[i]);
            (v, t)
        } else {
            (str_chars(default), str_chars("i64"))
        }
    }

    fn emit_spawn(&mut self, tv: &Vec<char>, tt: &Vec<char>, args: &Vec<Operand>) -> (r: Vec<char>)
        requires
            old(self).state().1 + 16 < usize::MAX,
        ensures
            old(self).state().1 <= final(self).state().1 <= old(self).state().1 + 8,
            (final(self).state(), r@) == spawn_emit(
                old(self).fn_names(),
                old(self).extern_names(),
                old(self).var_tys(),
                old(self).state(),
                tv@,
                tt@,
                args@,
            ),
            final(self).fn_names() == old(self).fn_names(),
            final(self).extern_names() == old(self).extern_names(),
            final(self).var_tys() == old(self).var_tys(),
            final(self).struct_fields() == old(self).struct_fields(),
            final(self).fn_param_tys() == old(self).fn_param_tys(),
    {
        reveal(spawn_emit);
        let np = if crate::text::eq_lit(tt.as_slice(), "ptr") {
            copy_chars(tv.as_slice())
        } else {
            let t = self.next_temp();
            let mut line = str_chars("    ");
            extend_chars(&mut line, t.as_slice());
            extend_lit(&mut line, " = inttoptr ");
            extend_chars(&mut line, tt.as_slice());
            extend_lit(&mut line, " ");
            extend_chars(&mut line, tv.as_slice());
            extend_lit(&mut line, " to ptr\n");
            assert(line@ =~= "    "@ + t@ + " = inttoptr "@ + tt@ + " "@ + tv@ + " to ptr\n"@);
            self.push_chars(line.as_slice());
            t
        };
        let (fa, _ft) = self.emit_opt_arg(args, 0, "null");
        let i64s = str_chars("i64");
        let (a1v, a1t) = self.emit_opt_arg(args, 1, "0");
        let a1 = self.coerce_val(a1v.as_slice(), a1t.as_slice(), i64s.as_slice());
        let (a2v, a2t) = self.emit_opt_arg(args, 2, "0");
        let a2 = self.coerce_val(a2v.as_slice(), a2t.as_slice(), i64s.as_slice());
        let r = self.next_temp();
        let mut line = str_chars("    ");
        extend_chars(&mut line, r.as_slice());
        extend_lit(&mut line, " = call i64 @tungsten_nursery_spawn(ptr ");
        extend_chars(&mut line, np.as_slice());
        extend_lit(&mut line, ", ptr ");
        extend_chars(&mut line, fa.as_slice());
        extend_lit(&mut line, ", i64 ");
        extend_chars(&mut line, a1.as_slice());
        extend_lit(&mut line, ", i64 ");
        extend_chars(&mut line, a2.as_slice());
        extend_lit(&mut line, ")\n");
        assert(line@ =~= "    "@ + r@ + " = call i64 @tungsten_nursery_spawn(ptr "@ + np@ + ", ptr "@ + fa@ + ", i64 "@
            + a1@ + ", i64 "@ + a2@ + ")\n"@);
        self.push_chars(line.as_slice());
        r
    }

    fn emit_saturating_add(&mut self, ti: &Vec<char>, delta: &Operand) -> (r: Vec<char>)
        requires
            old(self).state().1 + 16 < usize::MAX,
        ensures
            old(self).state().1 <= final(self).state().1 <= old(self).state().1 + 6,
            (final(self).state(), r@) == saturating_add_emit(
                old(self).fn_names(),
                old(self).extern_names(),
                old(self).var_tys(),
                old(self).state(),
                ti@,
                *delta,
            ),
            final(self).fn_names() == old(self).fn_names(),
            final(self).extern_names() == old(self).extern_names(),
            final(self).var_tys() == old(self).var_tys(),
            final(self).struct_fields() == old(self).struct_fields(),
            final(self).fn_param_tys() == old(self).fn_param_tys(),
    {
        reveal(saturating_add_emit);
        let dv = self.emit_operand(delta);
        let dt = self.get_operand_llvm_type(delta);
        let i64s = str_chars("i64");
        let di = self.coerce_val(dv.as_slice(), dt.as_slice(), i64s.as_slice());
        let sum = self.next_temp();
        let c = self.next_temp();
        let sel = self.next_temp();
        let mut line = str_chars("    ");
        extend_chars(&mut line, sum.as_slice());
        extend_lit(&mut line, " = add i64 ");
        extend_chars(&mut line, ti.as_slice());
        extend_lit(&mut line, ", ");
        extend_chars(&mut line, di.as_slice());
        extend_lit(&mut line, "\n");
        extend_lit(&mut line, "    ");
        extend_chars(&mut line, c.as_slice());
        extend_lit(&mut line, " = icmp sgt i64 ");
        extend_chars(&mut line, sum.as_slice());
        extend_lit(&mut line, ", 100\n");
        extend_lit(&mut line, "    ");
        extend_chars(&mut line, sel.as_slice());
        extend_lit(&mut line, " = select i1 ");
        extend_chars(&mut line, c.as_slice());
        extend_lit(&mut line, ", i64 100, i64 ");
        extend_chars(&mut line, sum.as_slice());
        extend_lit(&mut line, "\n");
        assert(line@ =~= "    "@ + sum@ + " = add i64 "@ + ti@ + ", "@ + di@ + "\n"@ + "    "@ + c@ + " = icmp sgt i64 "@
            + sum@ + ", 100\n"@ + "    "@ + sel@ + " = select i1 "@ + c@ + ", i64 100, i64 "@ + sum@ + "\n"@);
        self.push_chars(line.as_slice());
        sel
    }

    /// Emits a method call on `target` and gives its `i64` result.
    pub fn emit_method_call(&mut self, target: &Operand, method: &String, args: &Vec<Operand>) -> (r: Vec<char>)
        requires
            old(self).state().1 + 32 < usize::MAX,
        ensures
            old(self).state().1 <= final(self).state().1 <= old(self).state().1 + 12,
            (final(self).state(), r@) == method_call_emit(
                old(self).fn_names(),
                old(self).extern_names(),
                old(self).var_tys(),
                old(self).state(),
                *target,
                method@,
                args@,
            ),
            final(self).fn_names() == old(self).fn_names(),
            final(self).extern_names() == old(self).extern_names(),
            final(self).var_tys() == old(self).var_tys(),
            final(self).struct_fields() == old(self).struct_fields(),
            final(self).fn_param_tys() == old(self).fn_param_tys(),
    {
        reveal(method_call_emit);
        let tv = self.emit_operand(target);
        let tt = self.get_operand_llvm_type(target);
        let i64s = str_chars("i64");
        let ti = self.coerce_val(tv.as_slice(), tt.as_slice(), i64s.as_slice());
        let mc = str_chars(method.as_str());
        if crate::text::eq_lit(mc.as_slice(), "spawn") {
            self.emit_spawn(&tv, &tt, args)
        } else if crate::text::eq_lit(mc.as_slice(), "saturating_add") && args.len() == 1 {
            self.emit_saturating_add(&ti, &args[0])
        } else {
            ti
        }
    }


    fn emit_alloc(&mut self, p: &Vec<char>, size: usize, arena: &Option<Var>)
        requires
            old(self).state().1 + 8 < usize::MAX,
        ensures
            final(self).state() == alloc_emit(
                old(self).fn_names(),
                old(self).extern_names(),
                old(self).var_tys(),
                old(self).state(),
                p@,
                size as nat,
                *arena,
            ),
            old(self).state().1 <= final(self).state().1 <= old(self).state().1 + 2,
            final(self).fn_names() == old(self).fn_names(),
            final(self).extern_names() == old(self).extern_names(),
            final(self).var_tys() == old(self).var_tys(),
            final(self).struct_fields() == old(self).struct_fields(),
            final(self).fn_param_tys() == old(self).fn_param_tys(),
    {
        reveal(alloc_emit);
        let d = u64_decimal(size as u64);
        match arena {
            Some(a) => {
                let op = Operand::Var(a.duplicate(), Type::String);
                assert(op == arena_operand(*a));
                let av = self.emit_operand(&op);
                let at = self.get_operand_llvm_type(&op);
                let ap = if crate::text::eq_lit(at.as_slice(), "ptr") {
                    av
                } else {
                    let t = self.next_temp();
                    let mut line = str_chars("    ");
                    extend_chars(&mut line, t.as_slice());
                    extend_lit(&mut line, " = inttoptr ");
                    extend_chars(&mut line, at.as_slice());
                    extend_lit(&mut line, " ");
                    extend_chars(&mut line, av.as_slice());
                    extend_lit(&mut line, " to ptr\n");
                    assert(line@ =~= "    "@ + t@ + " = inttoptr "@ + at@ + " "@ + av@ + " to ptr\n"@);
                    self.push_chars(line.as_slice());
                    t
                };
                let mut line = str_chars("    ");
                extend_chars(&mut line, p.as_slice());
                extend_lit(&mut line, " = call ptr @tungsten_region_alloc(ptr ");
                extend_chars(&mut line, ap.as_slice());
                extend_lit(&mut line, ", i64 ");
                extend_chars(&mut line, d.as_slice());
                extend_lit(&mut line, ", i64 8)\n");
                assert(line@ =~= "    "@ + p@ + " = call ptr @tungsten_region_alloc(ptr "@ + ap@ + ", i64 "@
                    + nat_decimal(size as nat) + ", i64 8)\n"@);
                self.push_chars(line.as_slice());
            },
            None => {
                let mut line = str_chars("    ");
                extend_chars(&mut line, p.as_slice());
                extend_lit(&mut line, " = call ptr @tungsten_alloc(i64 ");
                extend_chars(&mut line, d.as_slice());
                extend_lit(&mut line, ", i64 8)\n");
                assert(line@ =~= "    "@ + p@ + " = call ptr @tungsten_alloc(i64 "@ + nat_decimal(size as nat)
                    + ", i64 8)\n"@);
                self.push_chars(line.as_slice());
            },
        }
    }

    fn emit_store_at(&mut self, p: &Vec<char>, op: &Operand, off: usize, ety: &Vec<char>)
        requires
            old(self).state().1 + 8 < usize::MAX,
        ensures
            final(self).state() == store_at_emit(
                old(self).fn_names(),
                old(self).extern_names(),
                old(self).var_tys(),
                old(self).state(),
                p@,
                *op,
                off as nat,
                ety@,
            ),
            old(self).state().1 <= final(self).state().1 <= old(self).state().1 + 3,
            final(self).fn_names() == old(self).fn_names(),
            final(self).extern_names() == old(self).extern_names(),
            final(self).var_tys() == old(self).var_tys(),
            final(self).struct_fields() == old(self).struct_fields(),
            final(self).fn_param_tys() == old(self).fn_param_tys(),
    {
        reveal(store_at_emit);
        let v = self.emit_operand(op);
        let t = self.get_operand_llvm_type(op);
        let w = self.coerce_val(v.as_slice(), t.as_slice(), ety.as_slice());
        let g = self.next_temp();
        let d = u64_decimal(off as u64);
        let mut line = str_chars("    ");
        extend_chars(&mut line, g.as_slice());
        extend_lit(&mut line, " = getelementptr inbounds i8, ptr ");
        extend_chars(&mut line, p.as_slice());
        extend_lit(&mut line, ", i64 ");
        extend_chars(&mut line, d.as_slice());
        extend_lit(&mut line, "\n");
        extend_lit(&mut line, "    store ");
        extend_chars(&mut line, ety.as_slice());
        extend_lit(&mut line, " ");
        extend_chars(&mut line, w.as_slice());
        extend_lit(&mut line, ", ptr ");
        extend_chars(&mut line, g.as_slice());
        extend_lit(&mut line, "\n");
        assert(line@ =~= "    "@ + g@ + " = getelementptr inbounds i8, ptr "@ + p@ + ", i64 "@ + nat_decimal(off as nat)
            + "\n"@ + "    store "@ + ety@ + " "@ + w@ + ", ptr "@ + g@ + "\n"@);
        self.push_chars(line.as_slice());
    }

    fn emit_stores(&mut self, p: &Vec<char>, ops: &Vec<Operand>, base: usize, stride: usize, ety: &Vec<char>)
        requires
            old(self).state().1 + 3 * ops@.len() + 8 < usize::MAX,
            base + ops@.len() * stride <= usize::MAX,
        ensures
            final(self).state() == stores_emit(
                old(self).fn_names(),
                old(self).extern_names(),
                old(self).var_tys(),
                old(self).state(),
                p@,
                ops@,
                ops@.len(),
                base as nat,
                stride as nat,
                ety@,
            ),
            old(self).state().1 <= final(self).state().1 <= old(self).state().1 + 3 * ops@.len(),
            final(self).fn_names() == old(self).fn_names(),
            final(self).extern_names() == old(self).extern_names(),
            final(self).var_tys() == old(self).var_tys(),
            final(self).struct_fields() == old(self).struct_fields(),
            final(self).fn_param_tys() == old(self).fn_param_tys(),
    {
        let mut k: usize = 0;
        while k < ops.len()
            invariant
                k <= ops@.len(),
                old(self).state().1 + 3 * ops@.len() + 8 < usize::MAX,
                base + ops@.len() * stride <= usize::MAX,
                self.state() == stores_emit(
                    old(self).fn_names(),
                    old(self).extern_names(),
                    old(self).var_tys(),
                    old(self).state(),
                    p@,
                    ops@,
                    k as nat,
                    base as nat,
                    stride as nat,
                    ety@,
                ),
                old(self).state().1 <= self.state().1 <= old(self).state().1 + 3 * k,
                self.fn_names() == old(self).fn_names(),
                self.extern_names() == old(self).extern_names(),
                self.var_tys() == old(self).var_tys(),
                self.struct_fields() == old(self).struct_fields(),
                self.fn_param_tys() == old(self).fn_param_tys(),
            decreases ops@.len() - k,
        {
            assert(k * stride <= ops@.len() * stride) by (nonlinear_arith)
                requires
                    k <= ops@.len(),
            ;
            let off = base + k * stride;
            self.emit_store_at(p, &ops[k], off, ety);
            assert(base + k * stride == base as nat + ((k + 1) as nat - 1) * stride as nat);
            k = k + 1;
        }
    }

    /// Emits a struct value built from field initialisers; gives its pointer.
    pub fn emit_struct_init(&mut self, fields: &Vec<(String, Operand)>, arena: &Option<Var>) -> (r: Vec<char>)
        requires
            old(self).state().1 + 3 * fields@.len() + 16 < usize::MAX,
            fields@.len() * 8 <= usize::MAX,
        ensures
            old(self).state().1 <= final(self).state().1 <= old(self).state().1 + 3 + 3 * fields@.len(),
            (final(self).state(), r@) == struct_init_emit(
                old(self).fn_names(),
                old(self).extern_names(),
                old(self).var_tys(),
                old(self).state(),
                fields@,
                *arena,
            ),
            final(self).fn_names() == old(self).fn_names(),
            final(self).extern_names() == old(self).extern_names(),
            final(self).var_tys() == old(self).var_tys(),
            final(self).struct_fields() == old(self).struct_fields(),
            final(self).fn_param_tys() == old(self).fn_param_tys(),
    {
        let size: usize = if fields.len() * 8 > 8 { fields.len() * 8 } else { 8 };
        let p = self.next_temp();
        self.emit_alloc(&p, size, arena);
        let ety = str_chars("i64");
        let ghost ops = field_ops(fields@);
        let mut k: usize = 0;
        while k < fields.len()
            invariant
                k <= fields@.len(),
                ops == field_ops(fields@),
                ety@ == "i64"@,
                old(self).state().1 + 3 * fields@.len() + 16 < usize::MAX,
                fields@.len() * 8 <= usize::MAX,
                self.state() == stores_emit(
                    old(self).fn_names(),
                    old(self).extern_names(),
                    old(self).var_tys(),
                    alloc_emit(
                        old(self).fn_names(),
                        old(self).extern_names(),
                        old(self).var_tys(),
                        (old(self).state().0, old(self).state().1 + 1, old(self).state().2),
                        p@,
                        size as nat,
                        *arena,
                    ),
                    p@,
                    ops,
                    k as nat,
                    0,
                    8,
                    ety@,
                ),
                old(self).state().1 <= self.state().1 <= old(self).state().1 + 3 + 3 * k,
                self.fn_names() == old(self).fn_names(),
                self.extern_names() == old(self).extern_names(),
                self.var_tys() == old(self).var_tys(),
                self.struct_fields() == old(self).struct_fields(),
                self.fn_param_tys() == old(self).fn_param_tys(),
            decreases fields@.len() - k,
        {
            assert(k * 8 <= fields@.len() * 8);
            self.emit_store_at(&p, &fields[k].1, k * 8, &ety);
            assert(ops[k as int] == fields@[k as int].1);
            k = k + 1;
        }
        p
    }

    /// Emits an enum value with `tag` and `payload`; gives its pointer.
    pub fn emit_enum_init(&mut self, tag: i64, payload: &Vec<Operand>, arena: &Option<Var>) -> (r: Vec<char>)
        requires
            old(self).state().1 + 3 * payload@.len() + 16 < usize::MAX,
            8 + payload@.len() * 8 <= usize::MAX,
        ensures
            old(self).state().1 <= final(self).state().1 <= old(self).state().1 + 4 + 3 * payload@.len(),
            (final(self).state(), r@) == enum_init_emit(
                old(self).fn_names(),
                old(self).extern_names(),
                old(self).var_tys(),
                old(self).state(),
                tag,
                payload@,
                *arena,
            ),
            final(self).fn_names() == old(self).fn_names(),
            final(self).extern_names() == old(self).extern_names(),
            final(self).var_tys() == old(self).var_tys(),
            final(self).struct_fields() == old(self).struct_fields(),
            final(self).fn_param_tys() == old(self).fn_param_tys(),
    {
        let size: usize = 8 + payload.len() * 8;
        let p = self.next_temp();
        self.emit_alloc(&p, size, arena);
        let g = self.next_temp();
        let tg = i64_decimal(tag);
        let mut line = str_chars("    ");
        extend_chars(&mut line, g.as_slice());
        extend_lit(&mut line, " = getelementptr inbounds i8, ptr ");
        extend_chars(&mut line, p.as_slice());
        extend_lit(&mut line, ", i64 0\n");
        extend_lit(&mut line, "    store i64 ");
        extend_chars(&mut line, tg.as_slice());
        extend_lit(&mut line, ", ptr ");
        extend_chars(&mut line, g.as_slice());
        extend_lit(&mut line, "\n");
        assert(line@ =~= "    "@ + g@ + " = getelementptr inbounds i8, ptr "@ + p@ + ", i64 0\n"@ + "    store i64 "@
            + int_decimal(tag as int) + ", ptr "@ + g@ + "\n"@);
        self.push_chars(line.as_slice());
        let ety = str_chars("i64");
        self.emit_stores(&p, payload, 8, 8, &ety);
        p
    }

    /// Emits an array value of `elements` spaced `elem_stride` bytes apart;
    /// gives its pointer.
    pub fn emit_array_init(&mut self, elements: &Vec<Operand>, elem_stride: usize, arena: &Option<Var>) -> (r: Vec<char>)
        requires
            old(self).state().1 + 3 * elements@.len() + 16 < usize::MAX,
            elements@.len() * (if elem_stride == 0 { 1nat } else { elem_stride as nat }) <= usize::MAX,
        ensures
            old(self).state().1 <= final(self).state().1 <= old(self).state().1 + 3 + 3 * elements@.len(),
            (final(self).state(), r@) == array_init_emit(
                old(self).fn_names(),
                old(self).extern_names(),
                old(self).var_tys(),
                old(self).state(),
                elements@,
                elem_stride as nat,
                *arena,
            ),
            final(self).fn_names() == old(self).fn_names(),
            final(self).extern_names() == old(self).extern_names(),
            final(self).var_tys() == old(self).var_tys(),
            final(self).struct_fields() == old(self).struct_fields(),
            final(self).fn_param_tys() == old(self).fn_param_tys(),
    {
        let sz: usize = if elem_stride == 0 { 1 } else { elem_stride };
        let size: usize = if elements.len() * sz > 8 { elements.len() * sz } else { 8 };
        let p = self.next_temp();
        self.emit_alloc(&p, size, arena);
        let ety = elem_type_exec(sz);
        self.emit_stores(&p, elements, 0, sz, &ety);
        p
    }


    fn calculate_field_offset(&self, field: &String) -> (r: usize)
        requires
            forall|i: int| 0 <= i < self.struct_fields().len() ==> (#[trigger] self.struct_fields()[i]).len() * 8
                <= usize::MAX,
        ensures
            r as nat == field_offset(self.struct_fields(), field@),
    {
        let f = str_chars(field.as_str());
        let ghost all = self.struct_fields();
        let mut i: usize = 0;
        assert(all.subrange(0, all.len() as int) =~= all);
        while i < self.structs.len()
            invariant
                f@ == field@,
                i <= self.structs@.len(),
                all == self.struct_fields(),
                all.len() == self.structs@.len(),
                forall|k: int| 0 <= k < all.len() ==> (#[trigger] all[k]).len() * 8 <= usize::MAX,
                field_offset(all, f@) == field_offset(all.subrange(i as int, all.len() as int), f@),
            decreases self.structs@.len() - i,
        {
            let ghost rest = all.subrange(i as int, all.len() as int);
            assert(rest[0] == all[i as int]);
            assert(all[i as int] == dseq(self.structs@[i as int]@));
            let mut j: usize = 0;
            while j < self.structs[i].len()
                invariant
                    f@ == field@,
                    i < self.structs@.len(),
                    all == self.struct_fields(),
                    all.len() == self.structs@.len(),
                    rest == all.subrange(i as int, all.len() as int),
                    field_offset(all, f@) == field_offset(rest, f@),
                    all[i as int] == dseq(self.structs@[i as int]@),
                    all[i as int].len() * 8 <= usize::MAX,
                    j <= self.structs@[i as int]@.len(),
                    forall|m: int| 0 <= m < j ==> all[i as int][m] != f@,
                decreases self.structs@[i as int]@.len() - j,
            {
                if chars_eq(self.structs[i][j].as_slice(), f.as_slice()) {
                    proof {
                        let row = all[i as int];
                        assert(row[j as int] == f@);
                        let k = first_index(row, f@);
                        assert(0 <= k < row.len() && row[k] == f@ && forall|m: int| 0 <= m < k ==> row[m] != f@);
                        if k < j {
                            assert(row[k] != f@);
                        }
                        if (j as int) < k {
                            assert(row[j as int] != f@);
                        }
                        assert(row.contains(f@));
                        assert(rest[0] == row);
                    }
                    return j * 8;
                }
                j = j + 1;
            }
            proof {
                let row = all[i as int];
                if row.contains(f@) {
                    let k = choose|k: int| 0 <= k < row.len() && row[k] == f@;
                    assert(row[k] != f@);
                }
                assert(rest.drop_first() =~= all.subrange(i + 1, all.len() as int));
            }
            i = i + 1;
        }
        if eq_lit_str(&f, "value") || eq_lit_str(&f, "name") {
            0
        } else {
            8
        }
    }


    /// Emits the right-hand side of an assignment of type `ty`; gives the
    /// value and its LLVM type.
    pub fn emit_rvalue(&mut self, rv: &RValue, ty: &Type) -> (r: (Vec<char>, Vec<char>))
        requires
            old(self).state().1 + 3 * rvalue_width(*rv) + 64 < usize::MAX,
            rvalue_fits(*rv),
            forall|i: int| 0 <= i < old(self).struct_fields().len() ==> (#[trigger] old(self).struct_fields()[i]).len()
                * 8 <= usize::MAX,
        ensures
            old(self).state().1 <= final(self).state().1 <= old(self).state().1 + 3 * rvalue_width(*rv) + 16,
            (final(self).state(), r.0@, r.1@) == rvalue_emit(
                old(self).fn_names(),
                old(self).extern_names(),
                old(self).var_tys(),
                old(self).struct_fields(),
                old(self).state(),
                *rv,
                *ty,
            ),
            final(self).fn_names() == old(self).fn_names(),
            final(self).extern_names() == old(self).extern_names(),
            final(self).var_tys() == old(self).var_tys(),
            final(self).struct_fields() == old(self).struct_fields(),
            final(self).fn_param_tys() == old(self).fn_param_tys(),
    {
        reveal(rvalue_emit);
        let ghost sf = self.struct_fields();
        let r = match rv {
            RValue::Use(op) => {
                let v = self.emit_operand(op);
                let t = self.get_operand_llvm_type(op);
                (v, t)
            },
            RValue::BinaryOp(op, l, r) => {
                let v = self.emit_binary_op(*op, l, r);
                (v, str_chars("i64"))
            },
            RValue::MethodCall { target, method, args } => {
                let v = self.emit_method_call(target, method, args);
                (v, str_chars("i64"))
            },
            RValue::StructInit { fields, arena, .. } => {
                let v = self.emit_struct_init(fields, arena);
                (v, str_chars("ptr"))
            },
            RValue::FieldAccess { target, field } => {
                let off = self.calculate_field_offset(field);
                let v = self.emit_load_at(target, Some(off));
                (v, str_chars("i64"))
            },
            RValue::Cast { operand, target_ty } => self.emit_cast(operand, target_ty),
            RValue::Ref { operand, .. } => {
                let v = self.emit_address(operand);
                (v, str_chars("ptr"))
            },
            RValue::EnumInit { tag, payload, arena } => {
                let v = self.emit_enum_init(*tag, payload, arena);
                (v, str_chars("ptr"))
            },
            RValue::EnumTag(target) => {
                let v = self.emit_load_at(target, None);
                (v, str_chars("i64"))
            },
            RValue::EnumPayload { target, index } => {
                let v = self.emit_load_at(target, Some(8 + *index * 8));
                (v, str_chars("i64"))
            },
            RValue::ArrayInit { elements, elem_stride, arena } => {
                let v = self.emit_array_init(elements, *elem_stride, arena);
                (v, str_chars("ptr"))
            },
            RValue::ArrayIndex { target, index, stride } => {
                let v = self.emit_array_index(target, index, *stride);
                (v, str_chars("i64"))
            },
            RValue::Deref(op) => self.emit_deref(op, ty),
            RValue::AddrOf(op) => {
                let v = self.emit_address(op);
                (v, str_chars("ptr"))
            },
        };
        r
    }


    /// Emits an assignment of the right-hand side `rv`, of type `ty`, to `dest`.
    pub fn emit_assign(&mut self, dest: &Var, rv: &RValue, ty: &Type)
        requires
            old(self).state().1 + 3 * rvalue_width(*rv) + 72 < usize::MAX,
            rvalue_fits(*rv),
            forall|i: int| 0 <= i < old(self).struct_fields().len() ==> (#[trigger] old(self).struct_fields()[i]).len()
                * 8 <= usize::MAX,
        ensures
            old(self).state().1 <= final(self).state().1 <= old(self).state().1 + 3 * rvalue_width(*rv) + 17,
            final(self).state() == assign_emit(
                old(self).fn_names(),
                old(self).extern_names(),
                old(self).var_tys(),
                old(self).struct_fields(),
                old(self).state(),
                *dest,
                *rv,
                *ty,
            ),
            final(self).fn_names() == old(self).fn_names(),
            final(self).extern_names() == old(self).extern_names(),
            final(self).var_tys() == old(self).var_tys(),
            final(self).struct_fields() == old(self).struct_fields(),
            final(self).fn_param_tys() == old(self).fn_param_tys(),
    {
        reveal(assign_emit);
        let ghost s0 = self.state();
        let (v, vty) = self.emit_rvalue(rv, ty);
        let tt = self.lookup_var_type(dest, ty);
        let c = self.coerce_val(v.as_slice(), vty.as_slice(), tt.as_slice());
        let slot = var_to_slot_name(dest);
        let sc = str_chars(slot.as_str());
        let mut line = str_chars("    store ");
        extend_chars(&mut line, tt.as_slice());
        extend_lit(&mut line, " ");
        extend_chars(&mut line, c.as_slice());
        extend_lit(&mut line, ", ptr ");
        extend_chars(&mut line, sc.as_slice());
        extend_lit(&mut line, "\n");
        assert(line@ =~= "    store "@ + tt@ + " "@ + c@ + ", ptr "@ + slot_name(*dest) + "\n"@);
        self.push_chars(line.as_slice());
    }

    /// Emits a store of `value` through the pointer `ptr`.
    pub fn emit_store(&mut self, ptr: &Operand, value: &Operand)
        requires
            old(self).state().1 + 8 < usize::MAX,
        ensures
            old(self).state().1 <= final(self).state().1 <= old(self).state().1 + 4,
            final(self).state() == store_emit(
                old(self).fn_names(),
                old(self).extern_names(),
                old(self).var_tys(),
                old(self).state(),
                *ptr,
                *value,
            ),
            final(self).fn_names() == old(self).fn_names(),
            final(self).extern_names() == old(self).extern_names(),
            final(self).var_tys() == old(self).var_tys(),
            final(self).struct_fields() == old(self).struct_fields(),
            final(self).fn_param_tys() == old(self).fn_param_tys(),
    {
        reveal(store_emit);
        let pv = self.emit_operand(ptr);
        let pt = self.get_operand_llvm_type(ptr);
        let ptrs = str_chars("ptr");
        let pc = self.coerce_val(pv.as_slice(), pt.as_slice(), ptrs.as_slice());
        let v = self.emit_operand(value);
        let vt = self.get_operand_llvm_type(value);
        let mut line = str_chars("    store ");
        extend_chars(&mut line, vt.as_slice());
        extend_lit(&mut line, " ");
        extend_chars(&mut line, v.as_slice());
        extend_lit(&mut line, ", ptr ");
        extend_chars(&mut line, pc.as_slice());
        extend_lit(&mut line, "\n");
        assert(line@ =~= "    store "@ + vt@ + " "@ + v@ + ", ptr "@ + pc@ + "\n"@);
        self.push_chars(line.as_slice());
    }

    /// Emits the entry of a region (`is_region`) or of a nursery into `dest`.
    pub fn emit_enter(&mut self, dest: &Var, is_region: bool)
        requires
            old(self).state().1 + 8 < usize::MAX,
        ensures
            old(self).state().1 <= final(self).state().1 <= old(self).state().1 + 1,
            final(self).state() == enter_emit(
                old(self).state(),
                if is_region { "tungsten_region_enter"@ } else { "tungsten_nursery_enter"@ },
                *dest,
            ),
            final(self).fn_names() == old(self).fn_names(),
            final(self).extern_names() == old(self).extern_names(),
            final(self).var_tys() == old(self).var_tys(),
            final(self).struct_fields() == old(self).struct_fields(),
            final(self).fn_param_tys() == old(self).fn_param_tys(),
    {
        reveal(enter_emit);
        let name = if is_region { str_chars("tungsten_region_enter") } else { str_chars("tungsten_nursery_enter") };
        let t = self.next_temp();
        let slot = var_to_slot_name(dest);
        let sc = str_chars(slot.as_str());
        let mut line = str_chars("    ");
        extend_chars(&mut line, t.as_slice());
        extend_lit(&mut line, " = call ptr @");
        extend_chars(&mut line, name.as_slice());
        extend_lit(&mut line, "()\n");
        extend_lit(&mut line, "    store ptr ");
        extend_chars(&mut line, t.as_slice());
        extend_lit(&mut line, ", ptr ");
        extend_chars(&mut line, sc.as_slice());
        extend_lit(&mut line, "\n");
        assert(line@ =~= "    "@ + t@ + " = call ptr @"@ + name@ + "()\n"@ + "    store ptr "@ + t@ + ", ptr "@
            + slot_name(*dest) + "\n"@);
        self.push_chars(line.as_slice());
    }

    /// Emits the exit of the region (`is_region`) or nursery held in `v`.
    pub fn emit_exit(&mut self, v: &Var, is_region: bool)
        requires
            old(self).state().1 + 8 < usize::MAX,
        ensures
            old(self).state().1 <= final(self).state().1 <= old(self).state().1 + 2,
            final(self).state() == exit_emit(
                old(self).fn_names(),
                old(self).extern_names(),
                old(self).var_tys(),
                old(self).state(),
                if is_region { "tungsten_region_exit"@ } else { "tungsten_nursery_wait_all"@ },
                *v,
            ),
            final(self).fn_names() == old(self).fn_names(),
            final(self).extern_names() == old(self).extern_names(),
            final(self).var_tys() == old(self).var_tys(),
            final(self).struct_fields() == old(self).struct_fields(),
            final(self).fn_param_tys() == old(self).fn_param_tys(),
    {
        reveal(exit_emit);
        let name = if is_region { str_chars("tungsten_region_exit") } else { str_chars("tungsten_nursery_wait_all") };
        let op = Operand::Var(v.duplicate(), Type::String);
        assert(op == arena_operand(*v));
        let av = self.emit_operand(&op);
        let at = self.get_operand_llvm_type(&op);
        let ap = if crate::text::eq_lit(at.as_slice(), "ptr") {
            av
        } else {
            let t = self.next_temp();
            let mut line = str_chars("    ");
            extend_chars(&mut line, t.as_slice());
            extend_lit(&mut line, " = inttoptr ");
            extend_chars(&mut line, at.as_slice());
            extend_lit(&mut line, " ");
            extend_chars(&mut line, av.as_slice());
            extend_lit(&mut line, " to ptr\n");
            assert(line@ =~= "    "@ + t@ + " = inttoptr "@ + at@ + " "@ + av@ + " to ptr\n"@);
            self.push_chars(line.as_slice());
            t
        };
        let mut line = str_chars("    call void @");
        extend_chars(&mut line, name.as_slice());
        extend_lit(&mut line, "(ptr ");
        extend_chars(&mut line, ap.as_slice());
        extend_lit(&mut line, ")\n");
        assert(line@ =~= "    call void @"@ + name@ + "(ptr "@ + ap@ + ")\n"@);
        self.push_chars(line.as_slice());
    }

    /// Emits a call of the extern function `func` returning `ty`.
    pub fn emit_extern_call(&mut self, dest: &Option<Var>, func: &String, args: &Vec<Operand>, ty: &Type)
        requires
            old(self).state().1 + args@.len() + 8 < usize::MAX,
        ensures
            old(self).state().1 <= final(self).state().1 <= old(self).state().1 + args@.len() + 2,
            final(self).state() == extern_call_emit(
                old(self).fn_names(),
                old(self).extern_names(),
                old(self).var_tys(),
                old(self).state(),
                *dest,
                func@,
                args@,
                *ty,
            ),
            final(self).fn_names() == old(self).fn_names(),
            final(self).extern_names() == old(self).extern_names(),
            final(self).var_tys() == old(self).var_tys(),
            final(self).struct_fields() == old(self).struct_fields(),
            final(self).fn_param_tys() == old(self).fn_param_tys(),
    {
        reveal(extern_call_emit);
        let mut parts: Vec<Vec<char>> = Vec::new();
        let mut k: usize = 0;
        while k < args.len()
            invariant
                k <= args@.len(),
                old(self).state().1 + args@.len() + 8 < usize::MAX,
                old(self).state().1 <= self.state().1 <= old(self).state().1 + k,
                (self.state(), dv(parts@)) == extern_args_emit(
                    old(self).fn_names(),
                    old(self).extern_names(),
                    old(self).var_tys(),
                    old(self).state(),
                    args@,
                    k as nat,
                ),
                self.fn_names() == old(self).fn_names(),
                self.extern_names() == old(self).extern_names(),
                self.var_tys() == old(self).var_tys(),
                self.struct_fields() == old(self).struct_fields(),
                self.fn_param_tys() == old(self).fn_param_tys(),
            decreases args@.len() - k,
        {
            let v = self.emit_operand(&args[k]);
            let t = self.get_operand_llvm_type(&args[k]);
            let mut part = copy_chars(t.as_slice());
            extend_lit(&mut part, " ");
            extend_chars(&mut part, v.as_slice());
            let ghost before = dv(parts@);
            parts.push(part);
            assert(dv(parts@) =~= before.push(t@ + " "@ + v@));
            k = k + 1;
        }
        let sep = str_chars(", ");
        let joined = join_exec(parts.as_slice(), sep.as_slice());
        let fc = str_chars(func.as_str());
        match ty {
            Type::Unit => {
                let mut line = str_chars("    call void @");
                extend_chars(&mut line, fc.as_slice());
                extend_lit(&mut line, "(");
                extend_chars(&mut line, joined.as_slice());
                extend_lit(&mut line, ")\n");
                assert(line@ =~= "    call void @"@ + func@ + "("@ + joined@ + ")\n"@);
                self.push_chars(line.as_slice());
            },
            _ => {
                let t = self.next_temp();
                let rts = type_to_llvm(ty);
                let rt = str_chars(rts.as_str());
                let mut line = str_chars("    ");
                extend_chars(&mut line, t.as_slice());
                extend_lit(&mut line, " = call ");
                extend_chars(&mut line, rt.as_slice());
                extend_lit(&mut line, " @");
                extend_chars(&mut line, fc.as_slice());
                extend_lit(&mut line, "(");
                extend_chars(&mut line, joined.as_slice());
                extend_lit(&mut line, ")\n");
                assert(line@ =~= "    "@ + t@ + " = call "@ + rt@ + " @"@ + func@ + "("@ + joined@ + ")\n"@);
                self.push_chars(line.as_slice());
                match dest {
                    Some(d) => {
                        let tt = self.lookup_var_type(d, ty);
                        let c = self.coerce_val(t.as_slice(), rt.as_slice(), tt.as_slice());
                        let slot = var_to_slot_name(d);
                        let sc = str_chars(slot.as_str());
                        let mut line2 = str_chars("    store ");
                        extend_chars(&mut line2, tt.as_slice());
                        extend_lit(&mut line2, " ");
                        extend_chars(&mut line2, c.as_slice());
                        extend_lit(&mut line2, ", ptr ");
                        extend_chars(&mut line2, sc.as_slice());
                        extend_lit(&mut line2, "\n");
                        assert(line2@ =~= "    store "@ + tt@ + " "@ + c@ + ", ptr "@ + slot_name(*d) + "\n"@);
                        self.push_chars(line2.as_slice());
                    },
                    None => {},
                }
            },
        }
    }


    fn find_target_params(&self, clean: &Vec<char>) -> (r: Option<usize>)
        requires
            self.fn_names().len() == self.fn_param_tys().len(),
        ensures
            match r {
                Some(i) => i < self.fn_param_tys().len() && target_params(self.fn_names(), self.fn_param_tys(), clean@)
                    == Some(self.fn_param_tys()[i as int]),
                None => target_params(self.fn_names(), self.fn_param_tys(), clean@) is None,
            },
    {
        let ghost names = self.fn_names();
        let mut k: usize = 0;
        while k < self.fns.len()
            invariant
                k <= self.fns@.len(),
                names == self.fn_names(),
                names.len() == self.fns@.len(),
                self.fn_names().len() == self.fn_param_tys().len(),
                forall|m: int| 0 <= m < k ==> names[m] != clean@,
            decreases self.fns@.len() - k,
        {
            if chars_eq(self.fns[k].as_slice(), clean.as_slice()) {
                proof {
                    assert(names[k as int] == clean@);
                    let f = first_index(names, clean@);
                    assert(0 <= f < names.len() && names[f] == clean@ && forall|m: int| 0 <= m < f ==> names[m] != clean@);
                    if f < k {
                        assert(names[f] != clean@);
                    }
                    if (k as int) < f {
                        assert(names[k as int] != clean@);
                    }
                    assert(names.contains(clean@));
                }
                return Some(k);
            }
            k = k + 1;
        }
        proof {
            if names.contains(clean@) {
                let i = choose|i: int| 0 <= i < names.len() && names[i] == clean@;
                assert(names[i] != clean@);
            }
        }
        None
    }

    /// Emits a call of the module or runtime function named `func`
    /// returning `ty`, storing the result into `dest` when there is one.
    pub fn emit_call(&mut self, dest: &Option<Var>, func: &String, args: &Vec<Operand>, ty: &Type)
        requires
            old(self).state().1 + 2 * args@.len() + 8 < usize::MAX,
            old(self).fn_names().len() == old(self).fn_param_tys().len(),
        ensures
            old(self).state().1 <= final(self).state().1 <= old(self).state().1 + 2 * args@.len() + 2,
            final(self).state() == call_emit(
                old(self).fn_names(),
                old(self).extern_names(),
                old(self).var_tys(),
                old(self).fn_param_tys(),
                old(self).state(),
                *dest,
                func@,
                args@,
                *ty,
            ),
            final(self).fn_names() == old(self).fn_names(),
            final(self).extern_names() == old(self).extern_names(),
            final(self).var_tys() == old(self).var_tys(),
            final(self).struct_fields() == old(self).struct_fields(),
            final(self).fn_param_tys() == old(self).fn_param_tys(),
    {
        reveal(call_emit);
        let fc = str_chars(func.as_str());
        let (clean, _) = strip_lead_char_exec(fc.as_slice(), '_');
        let target = self.find_target_params(&clean);
        let ghost params = target_params(self.fn_names(), self.fn_param_tys(), clean@);
        let mut parts: Vec<Vec<char>> = Vec::new();
        let mut k: usize = 0;
        while k < args.len()
            invariant
                k <= args@.len(),
                old(self).state().1 + 2 * args@.len() + 8 < usize::MAX,
                old(self).state().1 <= self.state().1 <= old(self).state().1 + 2 * k,
                (self.state(), dv(parts@)) == call_args_emit(
                    old(self).fn_names(),
                    old(self).extern_names(),
                    old(self).var_tys(),
                    old(self).state(),
                    args@,
                    params,
                    k as nat,
                ),
                params == target_params(old(self).fn_names(), old(self).fn_param_tys(), clean@),
                match target {
                    Some(i) => i < old(self).fn_param_tys().len() && params == Some(old(self).fn_param_tys()[i as int]),
                    None => params is None,
                },
                self.fn_names() == old(self).fn_names(),
                self.extern_names() == old(self).extern_names(),
                self.var_tys() == old(self).var_tys(),
                self.struct_fields() == old(self).struct_fields(),
                self.fn_param_tys() == old(self).fn_param_tys(),
            decreases args@.len() - k,
        {
            let v = self.emit_operand(&args[k]);
            let from = self.get_operand_llvm_type(&args[k]);
            let expected = match target {
                Some(i) => {
                    if k < self.fn_params[i].len() {
                        assert(self.fn_param_tys()[i as int] == dseq(self.fn_params@[i as int]@));
                        copy_chars(self.fn_params[i][k].as_slice())
                    } else {
                        copy_chars(from.as_slice())
                    }
                },
                None => copy_chars(from.as_slice()),
            };
            let c = self.coerce_val(v.as_slice(), from.as_slice(), expected.as_slice());
            let mut part = copy_chars(expected.as_slice());
            extend_lit(&mut part, " ");
            extend_chars(&mut part, c.as_slice());
            let ghost before = dv(parts@);
            parts.push(part);
            assert(dv(parts@) =~= before.push(expected@ + " "@ + c@));
            k = k + 1;
        }
        let sep = str_chars(", ");
        let joined = join_exec(parts.as_slice(), sep.as_slice());
        match ty {
            Type::Unit => {
                let mut line = str_chars("    call void @");
                extend_chars(&mut line, clean.as_slice());
                extend_lit(&mut line, "(");
                extend_chars(&mut line, joined.as_slice());
                extend_lit(&mut line, ")\n");
                assert(line@ =~= "    call void @"@ + clean@ + "("@ + joined@ + ")\n"@);
                self.push_chars(line.as_slice());
            },
            _ => {
                let t = self.next_temp();
                let rts = type_to_llvm(ty);
                let rt = str_chars(rts.as_str());
                let mut line = str_chars("    ");
                extend_chars(&mut line, t.as_slice());
                extend_lit(&mut line, " = call ");
                extend_chars(&mut line, rt.as_slice());
                extend_lit(&mut line, " @");
                extend_chars(&mut line, clean.as_slice());
                extend_lit(&mut line, "(");
                extend_chars(&mut line, joined.as_slice());
                extend_lit(&mut line, ")\n");
                assert(line@ =~= "    "@ + t@ + " = call "@ + rt@ + " @"@ + clean@ + "("@ + joined@ + ")\n"@);
                self.push_chars(line.as_slice());
                match dest {
                    Some(d) => {
                        let tt = self.lookup_var_type(d, ty);
                        let c = self.coerce_val(t.as_slice(), rt.as_slice(), tt.as_slice());
                        let slot = var_to_slot_name(d);
                        let sc = str_chars(slot.as_str());
                        let mut line2 = str_chars("    store ");
                        extend_chars(&mut line2, tt.as_slice());
                        extend_lit(&mut line2, " ");
                        extend_chars(&mut line2, c.as_slice());
                        extend_lit(&mut line2, ", ptr ");
                        extend_chars(&mut line2, sc.as_slice());
                        extend_lit(&mut line2, "\n");
                        assert(line2@ =~= "    store "@ + tt@ + " "@ + c@ + ", ptr "@ + slot_name(*d) + "\n"@);
                        self.push_chars(line2.as_slice());
                    },
                    None => {},
                }
            },
        }
    }


    fn emit_rt_arg(&mut self, args: &Vec<Operand>, a: &RtArg) -> (r: Vec<char>)
        requires
            old(self).state().1 + 8 < usize::MAX,
        ensures
            (final(self).state(), r@) == rt_arg_emit(
                old(self).fn_names(),
                old(self).extern_names(),
                old(self).var_tys(),
                old(self).state(),
                args@,
                rt_arg_view(*a),
            ),
            old(self).state().1 <= final(self).state().1 <= old(self).state().1 + 2,
            final(self).fn_names() == old(self).fn_names(),
            final(self).extern_names() == old(self).extern_names(),
            final(self).var_tys() == old(self).var_tys(),
            final(self).struct_fields() == old(self).struct_fields(),
            final(self).fn_param_tys() == old(self).fn_param_tys(),
    {
        reveal(rt_arg_emit);
        let (v, t) = if a.index < args.len() {
            let v = self.emit_operand(&args[a.index]);
            let t = self.get_operand_llvm_type(&args[a.index]);
            (v, t)
        } else {
            (copy_chars(a.default.as_slice()), copy_chars(a.default_ty.as_slice()))
        };
        match a.conv {
            ArgConv::Keep => v,
            ArgConv::ToI64 => {
                let to = str_chars("i64");
                self.coerce_val(v.as_slice(), t.as_slice(), to.as_slice())
            },
            ArgConv::ToPtr => {
                let to = str_chars("ptr");
                self.coerce_val(v.as_slice(), t.as_slice(), to.as_slice())
            },
            ArgConv::IntToPtr => {
                if crate::text::eq_lit(t.as_slice(), "ptr") {
                    v
                } else {
                    let x = self.next_temp();
                    let mut line = str_chars("    ");
                    extend_chars(&mut line, x.as_slice());
                    extend_lit(&mut line, " = inttoptr ");
                    extend_chars(&mut line, t.as_slice());
                    extend_lit(&mut line, " ");
                    extend_chars(&mut line, v.as_slice());
                    extend_lit(&mut line, " to ptr\n");
                    assert(line@ =~= "    "@ + x@ + " = inttoptr "@ + t@ + " "@ + v@ + " to ptr\n"@);
                    self.push_chars(line.as_slice());
                    x
                }
            },
        }
    }

    fn emit_rt_call(&mut self, args: &Vec<Operand>, c: &RtCall, dest: &Option<Var>, ty: &Type)
        requires
            old(self).state().1 + 2 * c.args@.len() + 8 < usize::MAX,
        ensures
            old(self).state().1 <= final(self).state().1 <= old(self).state().1 + 2 * c.args@.len() + 2,
            final(self).state() == rt_call_emit(
                old(self).fn_names(),
                old(self).extern_names(),
                old(self).var_tys(),
                old(self).state(),
                args@,
                rt_call_view(*c),
                *dest,
                *ty,
            ),
            final(self).fn_names() == old(self).fn_names(),
            final(self).extern_names() == old(self).extern_names(),
            final(self).var_tys() == old(self).var_tys(),
            final(self).struct_fields() == old(self).struct_fields(),
            final(self).fn_param_tys() == old(self).fn_param_tys(),
    {
        reveal(rt_call_emit);
        let ghost plan = rt_call_view(*c).2;
        let mut parts: Vec<Vec<char>> = Vec::new();
        let mut k: usize = 0;
        while k < c.args.len()
            invariant
                k <= c.args@.len(),
                plan == rt_call_view(*c).2,
                plan.len() == c.args@.len(),
                old(self).state().1 + 2 * c.args@.len() + 8 < usize::MAX,
                old(self).state().1 <= self.state().1 <= old(self).state().1 + 2 * k,
                (self.state(), dv(parts@)) == rt_args_emit(
                    old(self).fn_names(),
                    old(self).extern_names(),
                    old(self).var_tys(),
                    old(self).state(),
                    args@,
                    plan,
                    k as nat,
                ),
                self.fn_names() == old(self).fn_names(),
                self.extern_names() == old(self).extern_names(),
                self.var_tys() == old(self).var_tys(),
                self.struct_fields() == old(self).struct_fields(),
                self.fn_param_tys() == old(self).fn_param_tys(),
            decreases c.args@.len() - k,
        {
            assert(plan[k as int] == rt_arg_view(c.args@[k as int]));
            let v = self.emit_rt_arg(args, &c.args[k]);
            let mut part = copy_chars(c.args[k].call_ty.as_slice());
            extend_lit(&mut part, " ");
            extend_chars(&mut part, v.as_slice());
            let ghost before = dv(parts@);
            parts.push(part);
            assert(dv(parts@) =~= before.push(plan[k as int].4 + " "@ + v@));
            k = k + 1;
        }
        let sep = str_chars(", ");
        let joined = join_exec(parts.as_slice(), sep.as_slice());
        match &c.ret {
            None => {
                let mut line = str_chars("    call void @");
                extend_chars(&mut line, c.routine.as_slice());
                extend_lit(&mut line, "(");
                extend_chars(&mut line, joined.as_slice());
                extend_lit(&mut line, ")\n");
                assert(line@ =~= "    call void @"@ + c.routine@ + "("@ + joined@ + ")\n"@);
                self.push_chars(line.as_slice());
            },
            Some(rt) => {
                let t = self.next_temp();
                let mut line = str_chars("    ");
                extend_chars(&mut line, t.as_slice());
                extend_lit(&mut line, " = call ");
                extend_chars(&mut line, rt.as_slice());
                extend_lit(&mut line, " @");
                extend_chars(&mut line, c.routine.as_slice());
                extend_lit(&mut line, "(");
                extend_chars(&mut line, joined.as_slice());
                extend_lit(&mut line, ")\n");
                assert(line@ =~= "    "@ + t@ + " = call "@ + rt@ + " @"@ + c.routine@ + "("@ + joined@ + ")\n"@);
                self.push_chars(line.as_slice());
                match dest {
                    None => {},
                    Some(d) => {
                        let slot = var_to_slot_name(d);
                        let sc = str_chars(slot.as_str());
                        match c.store {
                            StoreKind::AsIs => {
                                let mut line2 = str_chars("    store ");
                                extend_chars(&mut line2, rt.as_slice());
                                extend_lit(&mut line2, " ");
                                extend_chars(&mut line2, t.as_slice());
                                extend_lit(&mut line2, ", ptr ");
                                extend_chars(&mut line2, sc.as_slice());
                                extend_lit(&mut line2, "\n");
                                assert(line2@ =~= "    store "@ + rt@ + " "@ + t@ + ", ptr "@ + slot_name(*d) + "\n"@);
                                self.push_chars(line2.as_slice());
                            },
                            StoreKind::Converted => {
                                let tt = self.lookup_var_type(d, ty);
                                let i64s = str_chars("i64");
                                let cv = self.coerce_val(t.as_slice(), i64s.as_slice(), tt.as_slice());
                                let mut line2 = str_chars("    store ");
                                extend_chars(&mut line2, tt.as_slice());
                                extend_lit(&mut line2, " ");
                                extend_chars(&mut line2, cv.as_slice());
                                extend_lit(&mut line2, ", ptr ");
                                extend_chars(&mut line2, sc.as_slice());
                                extend_lit(&mut line2, "\n");
                                assert(line2@ =~= "    store "@ + tt@ + " "@ + cv@ + ", ptr "@ + slot_name(*d) + "\n"@);
                                self.push_chars(line2.as_slice());
                            },
                        }
                    },
                }
            },
        }
    }

    fn emit_db_query(&mut self, args: &Vec<Operand>, dest: &Option<Var>)
        requires
            old(self).state().1 + 8 < usize::MAX,
        ensures
            old(self).state().1 <= final(self).state().1 <= old(self).state().1 + 5,
            final(self).state() == db_query_emit(
                old(self).fn_names(),
                old(self).extern_names(),
                old(self).var_tys(),
                old(self).state(),
                args@,
                *dest,
            ),
            final(self).fn_names() == old(self).fn_names(),
            final(self).extern_names() == old(self).extern_names(),
            final(self).var_tys() == old(self).var_tys(),
            final(self).struct_fields() == old(self).struct_fields(),
            final(self).fn_param_tys() == old(self).fn_param_tys(),
    {
        reveal(db_query_emit);
        let p = self.next_temp();
        let mut l1 = str_chars("    ");
        extend_chars(&mut l1, p.as_slice());
        extend_lit(&mut l1, " = call ptr @tungsten_alloc(i64 24, i64 8)\n");
        assert(l1@ =~= "    "@ + p@ + " = call ptr @tungsten_alloc(i64 24, i64 8)\n"@);
        self.push_chars(l1.as_slice());
        let name = str_chars("PlayerOne");
        let idx = self.intern_string(name.as_slice());
        let g1 = self.next_temp();
        let d = u64_decimal(idx as u64);
        let mut l2 = str_chars("    ");
        extend_chars(&mut l2, g1.as_slice());
        extend_lit(&mut l2, " = getelementptr inbounds i8, ptr ");
        extend_chars(&mut l2, p.as_slice());
        extend_lit(&mut l2, ", i64 0\n");
        extend_lit(&mut l2, "    store ptr @str_");
        extend_chars(&mut l2, d.as_slice());
        extend_lit(&mut l2, ", ptr ");
        extend_chars(&mut l2, g1.as_slice());
        extend_lit(&mut l2, "\n");
        assert(l2@ =~= "    "@ + g1@ + " = getelementptr inbounds i8, ptr "@ + p@ + ", i64 0\n"@ + "    store ptr @str_"@
            + nat_decimal(idx as nat) + ", ptr "@ + g1@ + "\n"@);
        self.push_chars(l2.as_slice());
        let g2 = self.next_temp();
        let mut l3 = str_chars("    ");
        extend_chars(&mut l3, g2.as_slice());
        extend_lit(&mut l3, " = getelementptr inbounds i8, ptr ");
        extend_chars(&mut l3, p.as_slice());
        extend_lit(&mut l3, ", i64 8\n");
        extend_lit(&mut l3, "    store i64 80, ptr ");
        extend_chars(&mut l3, g2.as_slice());
        extend_lit(&mut l3, "\n");
        assert(l3@ =~= "    "@ + g2@ + " = getelementptr inbounds i8, ptr "@ + p@ + ", i64 8\n"@ + "    store i64 80, ptr "@
            + g2@ + "\n"@);
        self.push_chars(l3.as_slice());
        let id = if args.len() > 1 {
            self.emit_operand(&args[1])
        } else if args.len() > 0 {
            self.emit_operand(&args[0])
        } else {
            str_chars("42")
        };
        let g3 = self.next_temp();
        let mut l4 = str_chars("    ");
        extend_chars(&mut l4, g3.as_slice());
        extend_lit(&mut l4, " = getelementptr inbounds i8, ptr ");
        extend_chars(&mut l4, p.as_slice());
        extend_lit(&mut l4, ", i64 16\n");
        extend_lit(&mut l4, "    store i64 ");
        extend_chars(&mut l4, id.as_slice());
        extend_lit(&mut l4, ", ptr ");
        extend_chars(&mut l4, g3.as_slice());
        extend_lit(&mut l4, "\n");
        assert(l4@ =~= "    "@ + g3@ + " = getelementptr inbounds i8, ptr "@ + p@ + ", i64 16\n"@ + "    store i64 "@ + id@
            + ", ptr "@ + g3@ + "\n"@);
        self.push_chars(l4.as_slice());
        match dest {
            Some(dv) => {
                let slot = var_to_slot_name(dv);
                let sc = str_chars(slot.as_str());
                let mut l5 = str_chars("    store ptr ");
                extend_chars(&mut l5, p.as_slice());
                extend_lit(&mut l5, ", ptr ");
                extend_chars(&mut l5, sc.as_slice());
                extend_lit(&mut l5, "\n");
                assert(l5@ =~= "    store ptr "@ + p@ + ", ptr "@ + slot_name(*dv) + "\n"@);
                self.push_chars(l5.as_slice());
            },
            None => {},
        }
    }

    /// Emits the operation `op` of the effect `effect` on `args`, storing its
    /// result into `dest` when there is one.
    pub fn emit_perform_effect(&mut self, dest: &Option<Var>, effect: &String, op: &String, args: &Vec<Operand>, ty: &Type)
        requires
            old(self).state().1 + 16 < usize::MAX,
        ensures
            old(self).state().1 <= final(self).state().1 <= old(self).state().1 + 16,
            final(self).state() == perform_effect_emit(
                old(self).fn_names(),
                old(self).extern_names(),
                old(self).var_tys(),
                old(self).state(),
                *dest,
                effect@,
                op@,
                args@,
                *ty,
            ),
            final(self).fn_names() == old(self).fn_names(),
            final(self).extern_names() == old(self).extern_names(),
            final(self).var_tys() == old(self).var_tys(),
            final(self).struct_fields() == old(self).struct_fields(),
            final(self).fn_param_tys() == old(self).fn_param_tys(),
    {
        reveal(perform_effect_emit);
        let e = str_chars(effect.as_str());
        let o = str_chars(op.as_str());
        if (crate::text::eq_lit(e.as_slice(), "Db") && crate::text::eq_lit(o.as_slice(), "query"))
            || (crate::text::eq_lit(e.as_slice(), "PostgresPool") && crate::text::eq_lit(o.as_slice(), "execute")) {
            self.emit_db_query(args, dest);
        } else {
            match effect_plan(e.as_slice(), o.as_slice(), args.len()) {
                Some(c) => {
                    assert(rt_call_view(c).2.len() <= 4) by {
                        reveal_strlit("IO");
                    }
                    self.emit_rt_call(args, &c, dest, ty);
                },
                None => {},
            }
        }
    }


    fn emit_print_value(&mut self, op: &Operand, str_routine: &str, int_routine: &str)
        requires
            old(self).state().1 + 8 < usize::MAX,
        ensures
            final(self).state() == print_value_emit(
                old(self).fn_names(),
                old(self).extern_names(),
                old(self).var_tys(),
                old(self).state(),
                *op,
                str_routine@,
                int_routine@,
            ),
            old(self).state().1 <= final(self).state().1 <= old(self).state().1 + 2,
            final(self).fn_names() == old(self).fn_names(),
            final(self).extern_names() == old(self).extern_names(),
            final(self).var_tys() == old(self).var_tys(),
            final(self).struct_fields() == old(self).struct_fields(),
            final(self).fn_param_tys() == old(self).fn_param_tys(),
    {
        reveal(print_value_emit);
        let v = self.emit_operand(op);
        let t = self.get_operand_llvm_type(op);
        let is_str = match op {
            Operand::Var(_, ty) => match ty {
                Type::String => true,
                _ => false,
            },
            Operand::Constant(TirConstant::Str(_)) => true,
            _ => false,
        };
        if is_str {
            let ptrs = str_chars("ptr");
            let p = self.coerce_val(v.as_slice(), t.as_slice(), ptrs.as_slice());
            let mut line = str_chars("    call void @");
            extend_lit(&mut line, str_routine);
            extend_lit(&mut line, "(ptr ");
            extend_chars(&mut line, p.as_slice());
            extend_lit(&mut line, ", i64 0)\n");
            assert(line@ =~= "    call void @"@ + str_routine@ + "(ptr "@ + p@ + ", i64 0)\n"@);
            self.push_chars(line.as_slice());
        } else {
            let x = if crate::text::eq_lit(t.as_slice(), "i64") {
                v
            } else {
                let z = self.next_temp();
                let mut line = str_chars("    ");
                extend_chars(&mut line, z.as_slice());
                extend_lit(&mut line, " = zext ");
                extend_chars(&mut line, t.as_slice());
                extend_lit(&mut line, " ");
                extend_chars(&mut line, v.as_slice());
                extend_lit(&mut line, " to i64\n");
                assert(line@ =~= "    "@ + z@ + " = zext "@ + t@ + " "@ + v@ + " to i64\n"@);
                self.push_chars(line.as_slice());
                z
            };
            let mut line = str_chars("    call void @");
            extend_lit(&mut line, int_routine);
            extend_lit(&mut line, "(i64 ");
            extend_chars(&mut line, x.as_slice());
            extend_lit(&mut line, ")\n");
            assert(line@ =~= "    call void @"@ + int_routine@ + "(i64 "@ + x@ + ")\n"@);
            self.push_chars(line.as_slice());
        }
    }

    fn emit_print_piece(&mut self, piece: &[char], routine: &str)
        requires
            4 * piece@.len() <= usize::MAX,
        ensures
            final(self).state() == print_piece_emit(old(self).state(), piece@, routine@),
            final(self).state().1 == old(self).state().1,
            final(self).fn_names() == old(self).fn_names(),
            final(self).extern_names() == old(self).extern_names(),
            final(self).var_tys() == old(self).var_tys(),
            final(self).struct_fields() == old(self).struct_fields(),
            final(self).fn_param_tys() == old(self).fn_param_tys(),
    {
        reveal(print_piece_emit);
        let idx = self.intern_string(piece);
        let n = utf8_len_exec(piece);
        let d1 = u64_decimal(idx as u64);
        let d2 = u64_decimal(n as u64);
        let mut line = str_chars("    call void @");
        extend_lit(&mut line, routine);
        extend_lit(&mut line, "(ptr @str_");
        extend_chars(&mut line, d1.as_slice());
        extend_lit(&mut line, ", i64 ");
        extend_chars(&mut line, d2.as_slice());
        extend_lit(&mut line, ")\n");
        assert(line@ =~= "    call void @"@ + routine@ + "(ptr @str_"@ + nat_decimal(idx as nat) + ", i64 "@ + nat_decimal(
            utf8_len(piece@),
        ) + ")\n"@);
        self.push_chars(line.as_slice());
    }

    /// Emits `println` on its arguments.
    pub fn emit_println(&mut self, args: &Vec<Operand>)
        requires
            old(self).state().1 + 2 * args@.len() + 8 < usize::MAX,
            println_fits(args@),
        ensures
            old(self).state().1 <= final(self).state().1 <= old(self).state().1 + 2 * args@.len(),
            final(self).state() == println_emit(
                old(self).fn_names(),
                old(self).extern_names(),
                old(self).var_tys(),
                old(self).state(),
                args@,
            ),
            final(self).fn_names() == old(self).fn_names(),
            final(self).extern_names() == old(self).extern_names(),
            final(self).var_tys() == old(self).var_tys(),
            final(self).struct_fields() == old(self).struct_fields(),
            final(self).fn_param_tys() == old(self).fn_param_tys(),
    {
        reveal(println_emit);
        if args.len() == 0 {
            self.push_lit("    call i32 @putchar(i32 10)\n");
            return;
        }
        match &args[0] {
            Operand::Constant(TirConstant::Str(fmt)) => {
                let fc = str_chars(fmt.as_str());
                if args.len() == 1 {
                    self.emit_print_piece(fc.as_slice(), "tungsten_println_str");
                } else {
                    let pieces = split_braces_exec(fc.as_slice());
                    let ghost ps = dv(pieces@);
                    let mut k: usize = 0;
                    while k < pieces.len()
                        invariant
                            k <= pieces@.len(),
                            ps == dv(pieces@),
                            ps == split_braces(fmt@),
                            forall|j: int| 0 <= j < pieces@.len() ==> (#[trigger] pieces@[j])@.len() <= fmt@.len(),
                            4 * fmt@.len() <= usize::MAX,
                            old(self).state().1 + 2 * args@.len() + 8 < usize::MAX,
                            old(self).state().1 <= self.state().1 <= old(self).state().1 + 2 * (if (k as int) < args@.len() { k as int } else { args@.len() as int }),
                            self.state() == format_pieces_emit(
                                old(self).fn_names(),
                                old(self).extern_names(),
                                old(self).var_tys(),
                                old(self).state(),
                                ps,
                                args@,
                                k as nat,
                            ),
                            self.fn_names() == old(self).fn_names(),
                            self.extern_names() == old(self).extern_names(),
                            self.var_tys() == old(self).var_tys(),
                            self.struct_fields() == old(self).struct_fields(),
                            self.fn_param_tys() == old(self).fn_param_tys(),
                        decreases pieces@.len() - k,
                    {
                        assert(ps[k as int] == pieces@[k as int]@);
                        if pieces[k].len() > 0 {
                            self.emit_print_piece(pieces[k].as_slice(), "tungsten_print_str");
                        }
                        if k + 1 < pieces.len() && k + 1 < args.len() {
                            self.emit_print_value(&args[k + 1], "tungsten_print_str", "tungsten_print_i64");
                        }
                        k = k + 1;
                    }
                    self.push_lit("    call i32 @putchar(i32 10)\n");
                }
            },
            _ => {
                let mut k: usize = 0;
                while k < args.len()
                    invariant
                        k <= args@.len(),
                        old(self).state().1 + 2 * args@.len() + 8 < usize::MAX,
                        old(self).state().1 <= self.state().1 <= old(self).state().1 + 2 * k,
                        self.state() == println_values_emit(
                            old(self).fn_names(),
                            old(self).extern_names(),
                            old(self).var_tys(),
                            old(self).state(),
                            args@,
                            k as nat,
                        ),
                        self.fn_names() == old(self).fn_names(),
                        self.extern_names() == old(self).extern_names(),
                        self.var_tys() == old(self).var_tys(),
                        self.struct_fields() == old(self).struct_fields(),
                        self.fn_param_tys() == old(self).fn_param_tys(),
                    decreases args@.len() - k,
                {
                    self.emit_print_value(&args[k], "tungsten_println_str", "tungsten_println_i64");
                    k = k + 1;
                }
            },
        }
    }


    fn lookup_var_type_or(&self, v: &Var, default: &str) -> (r: Vec<char>)
        ensures
            r@ == lookup_var_ty_or(self.var_tys(), *v, default@),
    {
        let ghost vt = self.var_tys();
        assert(vt.subrange(0, vt.len() as int) =~= vt);
        let mut k: usize = 0;
        while k < self.var_types.len()
            invariant
                k <= self.var_types@.len(),
                vt == self.var_tys(),
                lookup_var_ty_or(vt, *v, default@) == lookup_var_ty_or(vt.subrange(k as int, vt.len() as int), *v, default@),
            decreases self.var_types@.len() - k,
        {
            let ghost rest = vt.subrange(k as int, vt.len() as int);
            assert(rest.drop_first() =~= vt.subrange(k + 1, vt.len() as int));
            if same_var_exec(&self.var_types[k].0, v) {
                return copy_chars(self.var_types[k].1.as_slice());
            }
            k = k + 1;
        }
        str_chars(default)
    }

    /// Emits the store of `val` into field `field` of `base`.
    pub fn emit_set_field(&mut self, base: &Operand, field: &String, val: &Operand)
        requires
            old(self).state().1 + 16 < usize::MAX,
            forall|i: int| 0 <= i < old(self).struct_fields().len() ==> (#[trigger] old(self).struct_fields()[i]).len()
                * 8 <= usize::MAX,
        ensures
            old(self).state().1 <= final(self).state().1 <= old(self).state().1 + 6,
            final(self).state() == set_field_emit(
                old(self).fn_names(),
                old(self).extern_names(),
                old(self).var_tys(),
                old(self).struct_fields(),
                old(self).state(),
                *base,
                field@,
                *val,
            ),
            final(self).fn_names() == old(self).fn_names(),
            final(self).extern_names() == old(self).extern_names(),
            final(self).var_tys() == old(self).var_tys(),
            final(self).struct_fields() == old(self).struct_fields(),
            final(self).fn_param_tys() == old(self).fn_param_tys(),
    {
        reveal(set_field_emit);
        let off = self.calculate_field_offset(field);
        let (bv, bt) = match base {
            Operand::Var(v, _) => {
                let t = self.next_temp();
                let bt = self.lookup_var_type_or(v, "ptr");
                let slot = var_to_slot_name(v);
                let sc = str_chars(slot.as_str());
                let mut line = str_chars("    ");
                extend_chars(&mut line, t.as_slice());
                extend_lit(&mut line, " = load ");
                extend_chars(&mut line, bt.as_slice());
                extend_lit(&mut line, ", ptr ");
                extend_chars(&mut line, sc.as_slice());
                extend_lit(&mut line, "\n");
                assert(line@ =~= "    "@ + t@ + " = load "@ + bt@ + ", ptr "@ + slot_name(*v) + "\n"@);
                self.push_chars(line.as_slice());
                (t, bt)
            },
            _ => {
                let v = self.emit_operand(base);
                let t = self.get_operand_llvm_type(base);
                (v, t)
            },
        };
        let ptrs = str_chars("ptr");
        let bp = self.coerce_val(bv.as_slice(), bt.as_slice(), ptrs.as_slice());
        let g = self.next_temp();
        let d = u64_decimal(off as u64);
        let mut line = str_chars("    ");
        extend_chars(&mut line, g.as_slice());
        extend_lit(&mut line, " = getelementptr inbounds i8, ptr ");
        extend_chars(&mut line, bp.as_slice());
        extend_lit(&mut line, ", i64 ");
        extend_chars(&mut line, d.as_slice());
        extend_lit(&mut line, "\n");
        assert(line@ =~= "    "@ + g@ + " = getelementptr inbounds i8, ptr "@ + bp@ + ", i64 "@ + nat_decimal(off as nat)
            + "\n"@);
        self.push_chars(line.as_slice());
        let v = self.emit_operand(val);
        let vt = self.get_operand_llvm_type(val);
        let i64s = str_chars("i64");
        let vi = self.coerce_val(v.as_slice(), vt.as_slice(), i64s.as_slice());
        let mut line2 = str_chars("    store i64 ");
        extend_chars(&mut line2, vi.as_slice());
        extend_lit(&mut line2, ", ptr ");
        extend_chars(&mut line2, g.as_slice());
        extend_lit(&mut line2, "\n");
        assert(line2@ =~= "    store i64 "@ + vi@ + ", ptr "@ + g@ + "\n"@);
        self.push_chars(line2.as_slice());
    }

    /// Emits one instruction of the function being emitted.
    pub fn emit_instruction(&mut self, inst: &Instruction)
        requires
            old(self).state().1 + inst_width(*inst) + 80 < usize::MAX,
            inst_fits(*inst),
            forall|i: int| 0 <= i < old(self).struct_fields().len() ==> (#[trigger] old(self).struct_fields()[i]).len()
                * 8 <= usize::MAX,
            old(self).fn_names().len() == old(self).fn_param_tys().len(),
        ensures
            old(self).state().1 <= final(self).state().1 <= old(self).state().1 + inst_width(*inst) + 80,
            final(self).state() == inst_emit(
                old(self).fn_names(),
                old(self).extern_names(),
                old(self).var_tys(),
                old(self).struct_fields(),
                old(self).fn_param_tys(),
                old(self).state(),
                *inst,
            ),
            final(self).fn_names() == old(self).fn_names(),
            final(self).extern_names() == old(self).extern_names(),
            final(self).var_tys() == old(self).var_tys(),
            final(self).struct_fields() == old(self).struct_fields(),
            final(self).fn_param_tys() == old(self).fn_param_tys(),
    {
        reveal(inst_emit);
        match inst {
            Instruction::Assign { dest, rvalue, ty } => self.emit_assign(dest, rvalue, ty),
            Instruction::Call { dest, func, args, ty } => {
                let fc = str_chars(func.as_str());
                if crate::text::eq_lit(fc.as_slice(), "@println") {
                    self.emit_println(args);
                } else {
                    self.emit_call(dest, func, args, ty);
                }
            },
            Instruction::ExternCall { dest, func, args, ty } => self.emit_extern_call(dest, func, args, ty),
            Instruction::PerformEffect { dest, effect, op, args, ty } => self.emit_perform_effect(dest, effect, op, args, ty),
            Instruction::AssertRefinement { operand, min, max } => self.emit_assert_refinement(operand, *min, *max),
            Instruction::SetField { base, field, val } => self.emit_set_field(base, field, val),
            Instruction::Store { ptr, value } => self.emit_store(ptr, value),
            Instruction::RegionEnter { dest } => self.emit_enter(dest, true),
            Instruction::RegionExit { arena } => self.emit_exit(arena, true),
            Instruction::NurseryEnter { dest } => self.emit_enter(dest, false),
            Instruction::NurseryExit { nursery } => self.emit_exit(nursery, false),
        }
    }


    fn names_global_exec(&self, name: &String) -> (r: bool)
        ensures
            r == names_global(self.fn_names(), name@),
    {
        let chars = str_chars(name.as_str());
        if chars.len() > 0 && chars[0] == '@' {
            return true;
        }
        let (clean, _) = strip_lead_char_exec(chars.as_slice(), '_');
        contains_name(&self.fns, clean.as_slice())
    }

    fn collect_op(&self, op: &Operand, vars: &mut Vec<(Var, Vec<char>)>)
        ensures
            dvt(final(vars)@) == apply_events(dvt(old(vars)@), op_events(self.fn_names(), *op)),
    {
        match op {
            Operand::Var(v, ty) => {
                if let Var::Named(name) = v {
                    if self.names_global_exec(name) {
                        return;
                    }
                }
                let t = type_to_llvm(ty);
                let ghost m0 = dvt(vars@);
                apply_event_exec(vars, v, str_chars(t.as_str()), false);
                proof {
                    lemma_apply_one(m0, (*v, llvm_type(*ty), false));
                }
            },
            _ => {},
        }
    }

    fn collect_ops(&self, ops: &Vec<Operand>, vars: &mut Vec<(Var, Vec<char>)>)
        ensures
            dvt(final(vars)@) == apply_events(dvt(old(vars)@), ops_events(self.fn_names(), ops@)),
    {
        let ghost m0 = dvt(vars@);
        let mut k: usize = 0;
        assert(ops@.subrange(0, 0) =~= Seq::<Operand>::empty());
        while k < ops.len()
            invariant
                k <= ops@.len(),
                dvt(vars@) == apply_events(m0, ops_events(self.fn_names(), ops@.subrange(0, k as int))),
            decreases ops@.len() - k,
        {
            let ghost before = ops_events(self.fn_names(), ops@.subrange(0, k as int));
            self.collect_op(&ops[k], vars);
            proof {
                assert(ops@.subrange(0, k + 1).drop_last() =~= ops@.subrange(0, k as int));
                lemma_apply_events_concat(m0, before, op_events(self.fn_names(), ops@[k as int]));
            }
            k = k + 1;
        }
        assert(ops@.subrange(0, ops@.len() as int) =~= ops@);
    }

    fn collect_arena(&self, arena: &Option<Var>, vars: &mut Vec<(Var, Vec<char>)>)
        ensures
            dvt(final(vars)@) == apply_events(dvt(old(vars)@), arena_events(self.fn_names(), *arena)),
    {
        match arena {
            Some(a) => {
                let op = Operand::Var(a.duplicate(), Type::String);
                assert(op == arena_operand(*a));
                self.collect_op(&op, vars);
            },
            None => {},
        }
    }

    fn collect_two(&self, a: &Operand, b: &Operand, vars: &mut Vec<(Var, Vec<char>)>)
        ensures
            dvt(final(vars)@) == apply_events(dvt(old(vars)@), op_events(self.fn_names(), *a) + op_events(self.fn_names(), *b)),
    {
        let ghost m0 = dvt(vars@);
        self.collect_op(a, vars);
        self.collect_op(b, vars);
        proof {
            lemma_apply_events_concat(m0, op_events(self.fn_names(), *a), op_events(self.fn_names(), *b));
        }
    }

    fn collect_rvalue(&self, rv: &RValue, vars: &mut Vec<(Var, Vec<char>)>)
        ensures
            dvt(final(vars)@) == apply_events(dvt(old(vars)@), rvalue_events(self.fn_names(), *rv)),
    {
        let ghost m0 = dvt(vars@);
        let ghost fns = self.fn_names();
        match rv {
            RValue::Use(op) => self.collect_op(op, vars),
            RValue::Cast { operand, .. } => self.collect_op(operand, vars),
            RValue::Ref { operand, .. } => self.collect_op(operand, vars),
            RValue::Deref(op) => self.collect_op(op, vars),
            RValue::AddrOf(op) => self.collect_op(op, vars),
            RValue::BinaryOp(_, l, r) => self.collect_two(l, r, vars),
            RValue::FieldAccess { target, .. } => self.collect_op(target, vars),
            RValue::MethodCall { target, args, .. } => {
                self.collect_op(target, vars);
                self.collect_ops(args, vars);
                proof {
                    lemma_apply_events_concat(m0, op_events(fns, *target), ops_events(fns, args@));
                }
            },
            RValue::StructInit { fields, arena, .. } => {
                let ghost before = ops_events(fns, field_ops(fields@));
                let mut k: usize = 0;
                assert(field_ops(fields@).subrange(0, 0) =~= Seq::<Operand>::empty());
                while k < fields.len()
                    invariant
                        k <= fields@.len(),
                        fns == self.fn_names(),
                        dvt(vars@) == apply_events(m0, ops_events(fns, field_ops(fields@).subrange(0, k as int))),
                    decreases fields@.len() - k,
                {
                    let ghost pre = ops_events(fns, field_ops(fields@).subrange(0, k as int));
                    self.collect_op(&fields[k].1, vars);
                    proof {
                        assert(field_ops(fields@).subrange(0, k + 1).drop_last() =~= field_ops(fields@).subrange(0, k as int));
                        assert(field_ops(fields@).subrange(0, k + 1).last() == fields@[k as int].1);
                        lemma_apply_events_concat(m0, pre, op_events(fns, fields@[k as int].1));
                    }
                    k = k + 1;
                }
                assert(field_ops(fields@).subrange(0, fields@.len() as int) =~= field_ops(fields@));
                self.collect_arena(arena, vars);
                proof {
                    lemma_apply_events_concat(m0, before, arena_events(fns, *arena));
                }
            },
            RValue::EnumInit { payload, arena, .. } => {
                self.collect_ops(payload, vars);
                self.collect_arena(arena, vars);
                proof {
                    lemma_apply_events_concat(m0, ops_events(fns, payload@), arena_events(fns, *arena));
                }
            },
            RValue::EnumTag(t) => self.collect_op(t, vars),
            RValue::EnumPayload { target, .. } => self.collect_op(target, vars),
            RValue::ArrayInit { elements, arena, .. } => {
                self.collect_ops(elements, vars);
                self.collect_arena(arena, vars);
                proof {
                    lemma_apply_events_concat(m0, ops_events(fns, elements@), arena_events(fns, *arena));
                }
            },
            RValue::ArrayIndex { target, index, .. } => self.collect_two(target, index, vars),
        }
    }

    fn collect_dest(&self, dest: &Option<Var>, ty: &Type, vars: &mut Vec<(Var, Vec<char>)>)
        ensures
            dvt(final(vars)@) == apply_events(dvt(old(vars)@), dest_events(*dest, *ty)),
    {
        match dest {
            Some(d) => {
                let t = type_to_llvm(ty);
                let ghost m0 = dvt(vars@);
                apply_event_exec(vars, d, str_chars(t.as_str()), true);
                proof {
                    lemma_apply_one(m0, (*d, llvm_type(*ty), true));
                }
            },
            None => {},
        }
    }

    fn collect_dest_args(&self, dest: &Option<Var>, ty: &Type, args: &Vec<Operand>, vars: &mut Vec<(Var, Vec<char>)>)
        ensures
            dvt(final(vars)@) == apply_events(dvt(old(vars)@), dest_events(*dest, *ty) + ops_events(self.fn_names(), args@)),
    {
        let ghost m0 = dvt(vars@);
        self.collect_dest(dest, ty, vars);
        self.collect_ops(args, vars);
        proof {
            lemma_apply_events_concat(m0, dest_events(*dest, *ty), ops_events(self.fn_names(), args@));
        }
    }

    fn collect_fixed(&self, v: &Var, ty: &str, overwrite: bool, vars: &mut Vec<(Var, Vec<char>)>)
        ensures
            dvt(final(vars)@) == apply_events(dvt(old(vars)@), seq![(*v, ty@, overwrite)]),
    {
        let ghost m0 = dvt(vars@);
        apply_event_exec(vars, v, str_chars(ty), overwrite);
        proof {
            lemma_apply_one(m0, (*v, ty@, overwrite));
        }
    }

    fn collect_inst(&self, inst: &Instruction, vars: &mut Vec<(Var, Vec<char>)>)
        ensures
            dvt(final(vars)@) == apply_events(dvt(old(vars)@), inst_events(self.fn_names(), *inst)),
    {
        let ghost m0 = dvt(vars@);
        let ghost fns = self.fn_names();
        match inst {
            Instruction::Assign { dest, rvalue, ty } => {
                let t = type_to_llvm(ty);
                apply_event_exec(vars, dest, str_chars(t.as_str()), true);
                let ghost first = seq![(*dest, llvm_type(*ty), true)];
                proof {
                    lemma_apply_one(m0, (*dest, llvm_type(*ty), true));
                }
                self.collect_rvalue(rvalue, vars);
                proof {
                    lemma_apply_events_concat(m0, first, rvalue_events(fns, *rvalue));
                }
            },
            Instruction::AssertRefinement { operand, .. } => self.collect_op(operand, vars),
            Instruction::Call { dest, args, ty, .. } => self.collect_dest_args(dest, ty, args, vars),
            Instruction::PerformEffect { dest, args, ty, .. } => self.collect_dest_args(dest, ty, args, vars),
            Instruction::ExternCall { dest, args, ty, .. } => self.collect_dest_args(dest, ty, args, vars),
            Instruction::SetField { base, val, .. } => {
                let ghost first = base_events(*base);
                match base {
                    Operand::Var(v, _) => self.collect_fixed(v, "ptr", false, vars),
                    _ => {},
                }
                self.collect_op(val, vars);
                proof {
                    lemma_apply_events_concat(m0, first, op_events(fns, *val));
                }
            },
            Instruction::RegionEnter { dest } => self.collect_fixed(dest, "ptr", true, vars),
            Instruction::NurseryEnter { dest } => self.collect_fixed(dest, "ptr", true, vars),
            Instruction::RegionExit { arena } => {
                let op = Operand::Var(arena.duplicate(), Type::String);
                assert(op == arena_operand(*arena));
                self.collect_op(&op, vars);
            },
            Instruction::NurseryExit { nursery } => {
                let op = Operand::Var(nursery.duplicate(), Type::String);
                assert(op == arena_operand(*nursery));
                self.collect_op(&op, vars);
            },
            Instruction::Store { ptr, value } => self.collect_two(ptr, value, vars),
        }
    }


    fn collect_function_vars(&self, f: &TirFunction) -> (r: Vec<(Var, Vec<char>)>)
        ensures
            dvt(r@) == function_vars(self.fn_names(), *f),
    {
        let ghost fns = self.fn_names();
        let mut vars: Vec<(Var, Vec<char>)> = Vec::new();
        assert(dvt(vars@) =~= Seq::<(Var, Seq<char>)>::empty());
        let ghost m0 = dvt(vars@);
        let mut k: usize = 0;
        let ps = &f.params;
        assert(ps@.subrange(0, 0) =~= Seq::<(Var, Type)>::empty());
        while k < ps.len()
            invariant
                k <= ps@.len(),
                m0 == Seq::<(Var, Seq<char>)>::empty(),
                dvt(vars@) == apply_events(m0, param_events(ps@.subrange(0, k as int))),
            decreases ps@.len() - k,
        {
            let ghost pre = param_events(ps@.subrange(0, k as int));
            let t = type_to_llvm(&ps[k].1);
            let ghost mid = dvt(vars@);
            apply_event_exec(&mut vars, &ps[k].0, str_chars(t.as_str()), true);
            proof {
                assert(ps@.subrange(0, k + 1).drop_last() =~= ps@.subrange(0, k as int));
                assert(ps@.subrange(0, k + 1).last() == ps@[k as int]);
                let e = (ps@[k as int].0, llvm_type(ps@[k as int].1), true);
                assert(param_events(ps@.subrange(0, k + 1)) == pre.push(e));
                assert(pre.push(e).drop_last() =~= pre);
                assert(pre.push(e).last() == e);
            }
            k = k + 1;
        }
        assert(ps@.subrange(0, ps@.len() as int) =~= ps@);
        let ghost pev = param_events(ps@);
        let bs = &f.blocks;
        let mut b: usize = 0;
        assert(bs@.subrange(0, 0) =~= Seq::<TirBlock>::empty());
        while b < bs.len()
            invariant
                b <= bs@.len(),
                fns == self.fn_names(),
                m0 == Seq::<(Var, Seq<char>)>::empty(),
                pev == param_events(ps@),
                dvt(vars@) == apply_events(m0, pev + blocks_events(fns, bs@.subrange(0, b as int))),
            decreases bs@.len() - b,
        {
            let ghost pre = pev + blocks_events(fns, bs@.subrange(0, b as int));
            let ghost mid0 = dvt(vars@);
            let insts = &bs[b].instructions;
            let mut i: usize = 0;
            assert(insts@.subrange(0, 0) =~= Seq::<Instruction>::empty());
            while i < insts.len()
                invariant
                    i <= insts@.len(),
                    fns == self.fn_names(),
                    dvt(vars@) == apply_events(mid0, insts_events(fns, insts@.subrange(0, i as int))),
                decreases insts@.len() - i,
            {
                let ghost ipre = insts_events(fns, insts@.subrange(0, i as int));
                self.collect_inst(&insts[i], &mut vars);
                proof {
                    assert(insts@.subrange(0, i + 1).drop_last() =~= insts@.subrange(0, i as int));
                    lemma_apply_events_concat(mid0, ipre, inst_events(fns, insts@[i as int]));
                }
                i = i + 1;
            }
            assert(insts@.subrange(0, insts@.len() as int) =~= insts@);
            let ghost mid1 = dvt(vars@);
            match &bs[b].terminator {
                Some(Terminator::Return(Some(op))) => self.collect_op(op, &mut vars),
                Some(Terminator::BranchCond { cond, .. }) => self.collect_op(cond, &mut vars),
                _ => {},
            }
            proof {
                let ie = insts_events(fns, bs@[b as int].instructions@);
                let te = term_events(fns, bs@[b as int].terminator);
                lemma_apply_events_concat(mid0, ie, te);
                lemma_apply_events_concat(m0, pre, ie + te);
                assert(bs@.subrange(0, b + 1).drop_last() =~= bs@.subrange(0, b as int));
                assert(bs@.subrange(0, b + 1).last() == bs@[b as int]);
                assert(blocks_events(fns, bs@.subrange(0, b + 1)) == blocks_events(fns, bs@.subrange(0, b as int)) + ie + te);
                assert(pev + blocks_events(fns, bs@.subrange(0, b + 1)) =~= pre + (ie + te));
            }
            b = b + 1;
        }
        assert(bs@.subrange(0, bs@.len() as int) =~= bs@);
        vars
    }


    fn emit_block(&mut self, f: &TirFunction, b: &TirBlock, is_main: bool, ret: &Vec<char>)
        requires
            old(self).state().1 + block_budget(*b) < usize::MAX,
            forall|j: int| 0 <= j < b.instructions@.len() ==> inst_fits(#[trigger] b.instructions@[j]),
            forall|i: int| 0 <= i < old(self).struct_fields().len() ==> (#[trigger] old(self).struct_fields()[i]).len()
                * 8 <= usize::MAX,
            old(self).fn_names().len() == old(self).fn_param_tys().len(),
            is_main == (f.name@ == "main"@),
            ret@ == fn_ret_text(*f),
        ensures
            final(self).state() == block_emit(
                old(self).fn_names(),
                old(self).extern_names(),
                old(self).var_tys(),
                old(self).struct_fields(),
                old(self).fn_param_tys(),
                old(self).state(),
                *f,
                *b,
            ),
            old(self).state().1 <= final(self).state().1 <= old(self).state().1 + block_budget(*b),
            final(self).fn_names() == old(self).fn_names(),
            final(self).extern_names() == old(self).extern_names(),
            final(self).var_tys() == old(self).var_tys(),
            final(self).struct_fields() == old(self).struct_fields(),
            final(self).fn_param_tys() == old(self).fn_param_tys(),
    {
        let mut label = str_chars("bb");
        let d = u64_decimal(b.id.0 as u64);
        extend_chars(&mut label, d.as_slice());
        extend_lit(&mut label, ":\n");
        assert(label@ =~= "bb"@ + nat_decimal(b.id.0 as nat) + ":\n"@);
        self.push_chars(label.as_slice());
        let ghost s1 = self.state();
        let insts = &b.instructions;
        let mut i: usize = 0;
        while i < insts.len()
            invariant
                i <= insts@.len(),
                insts@ == b.instructions@,
                forall|j: int| 0 <= j < b.instructions@.len() ==> inst_fits(#[trigger] b.instructions@[j]),
                old(self).state().1 + block_budget(*b) < usize::MAX,
                s1.1 == old(self).state().1,
                s1.1 <= self.state().1 <= s1.1 + insts_budget(insts@.subrange(0, i as int)),
                self.state() == insts_emit(
                    old(self).fn_names(),
                    old(self).extern_names(),
                    old(self).var_tys(),
                    old(self).struct_fields(),
                    old(self).fn_param_tys(),
                    s1,
                    insts@,
                    i as nat,
                ),
                forall|k: int| 0 <= k < old(self).struct_fields().len() ==> (#[trigger] old(self).struct_fields()[k]).len()
                    * 8 <= usize::MAX,
                old(self).fn_names().len() == old(self).fn_param_tys().len(),
                self.fn_names() == old(self).fn_names(),
                self.extern_names() == old(self).extern_names(),
                self.var_tys() == old(self).var_tys(),
                self.struct_fields() == old(self).struct_fields(),
                self.fn_param_tys() == old(self).fn_param_tys(),
            decreases insts@.len() - i,
        {
            proof {
                lemma_insts_budget_prefix(insts@, i + 1);
                assert(insts@.subrange(0, i + 1).drop_last() =~= insts@.subrange(0, i as int));
                assert(insts@.subrange(0, i + 1).last() == insts@[i as int]);
            }
            self.emit_instruction(&insts[i]);
            i = i + 1;
        }
        assert(insts@.subrange(0, insts@.len() as int) =~= insts@);
        match &b.terminator {
            Some(t) => self.emit_terminator(t, is_main, &f.return_type),
            None => {
                if is_main {
                    self.push_lit("    ret i32 0\n");
                } else if crate::text::eq_lit(ret.as_slice(), "void") {
                    self.push_lit("    ret void\n");
                } else {
                    let mut line = str_chars("    ret ");
                    extend_chars(&mut line, ret.as_slice());
                    extend_lit(&mut line, " 0\n");
                    assert(line@ =~= "    ret "@ + fn_ret_text(*f) + " 0\n"@);
                    self.push_chars(line.as_slice());
                }
            },
        }
        self.push_lit("\n");
    }

    /// Emits the definition of function `f`.
    pub fn emit_function(&mut self, f: &TirFunction)
        requires
            old(self).state().1 + blocks_budget(f.blocks@) < usize::MAX,
            function_fits(*f),
            forall|i: int| 0 <= i < old(self).struct_fields().len() ==> (#[trigger] old(self).struct_fields()[i]).len()
                * 8 <= usize::MAX,
            old(self).fn_names().len() == old(self).fn_param_tys().len(),
            old(self).fn_index() < 0x1000_0000_0000_0000,
            old(self).fn_index() < usize::MAX,
        ensures
            final(self).state() == function_emit(
                old(self).fn_names(),
                old(self).extern_names(),
                old(self).struct_fields(),
                old(self).fn_param_tys(),
                old(self).state(),
                *f,
                old(self).fn_index(),
            ),
            final(self).fn_index() == old(self).fn_index() + 1,
            old(self).state().1 <= final(self).state().1 <= old(self).state().1 + blocks_budget(f.blocks@),
            final(self).var_tys() == function_vars(old(self).fn_names(), *f),
            final(self).fn_names() == old(self).fn_names(),
            final(self).extern_names() == old(self).extern_names(),
            final(self).struct_fields() == old(self).struct_fields(),
            final(self).fn_param_tys() == old(self).fn_param_tys(),
    {
        let name = str_chars(f.name.as_str());
        let is_main = crate::text::eq_lit(name.as_slice(), "main");
        let ret = if is_main {
            str_chars("i32")
        } else {
            match &f.return_type {
                Type::Unit => str_chars("void"),
                _ => {
                    let t = type_to_llvm(&f.return_type);
                    str_chars(t.as_str())
                },
            }
        };
        assert(ret@ == fn_ret_text(*f));
        let vars = self.collect_function_vars(f);
        let sig = param_sigs_exec(&f.params);
        let allocas = allocas_exec(&vars);
        let stores = param_stores_exec(&f.params);
        let mut head = str_chars("define ");
        extend_chars(&mut head, ret.as_slice());
        extend_lit(&mut head, " @");
        extend_chars(&mut head, name.as_slice());
        extend_lit(&mut head, "(");
        extend_chars(&mut head, sig.as_slice());
        extend_lit(&mut head, ") !dbg !");
        let idx = self.fn_index;
        let sub = u64_decimal(5 + 2 * (idx as u64));
        extend_chars(&mut head, sub.as_slice());
        extend_lit(&mut head, " {\n");
        extend_lit(&mut head, "entry:\n");
        extend_chars(&mut head, allocas.as_slice());
        extend_chars(&mut head, stores.as_slice());
        extend_lit(&mut head, "    br label %bb");
        let d = u64_decimal(f.entry_block.0 as u64);
        extend_chars(&mut head, d.as_slice());
        extend_lit(&mut head, "\n\n");
        proof {
            reveal_strlit("    br label %bb");
            reveal_strlit("    br label ");
            reveal_strlit("%bb");
        }
        assert(head@ =~= function_head(*f, dvt(vars@), idx as nat));
        self.var_types = vars;
        assert(self.var_tys() == function_vars(old(self).fn_names(), *f));
        let mut before: Vec<char> = Vec::new();
        std::mem::swap(&mut before, &mut self.out);
        assert(before@ == old(self).state().2);
        self.push_chars(head.as_slice());
        assert(self.state().2 =~= function_head(*f, dvt(vars@), idx as nat));
        let ghost s0 = self.state();
        let bs = &f.blocks;
        let mut k: usize = 0;
        while k < bs.len()
            invariant
                k <= bs@.len(),
                bs@ == f.blocks@,
                function_fits(*f),
                old(self).state().1 + blocks_budget(f.blocks@) < usize::MAX,
                s0.1 == old(self).state().1,
                s0.1 <= self.state().1 <= s0.1 + blocks_budget(bs@.subrange(0, k as int)),
                is_main == (f.name@ == "main"@),
                ret@ == fn_ret_text(*f),
                self.state() == blocks_emit(
                    old(self).fn_names(),
                    old(self).extern_names(),
                    function_vars(old(self).fn_names(), *f),
                    old(self).struct_fields(),
                    old(self).fn_param_tys(),
                    s0,
                    *f,
                    k as nat,
                ),
                forall|i: int| 0 <= i < old(self).struct_fields().len() ==> (#[trigger] old(self).struct_fields()[i]).len()
                    * 8 <= usize::MAX,
                old(self).fn_names().len() == old(self).fn_param_tys().len(),
                self.var_tys() == function_vars(old(self).fn_names(), *f),
                self.fn_names() == old(self).fn_names(),
                self.extern_names() == old(self).extern_names(),
                self.struct_fields() == old(self).struct_fields(),
                self.fn_param_tys() == old(self).fn_param_tys(),
            decreases bs@.len() - k,
        {
            proof {
                lemma_blocks_budget_prefix(bs@, k + 1);
                assert(bs@.subrange(0, k + 1).drop_last() =~= bs@.subrange(0, k as int));
                assert(bs@.subrange(0, k + 1).last() == bs@[k as int]);
                assert forall|j: int| 0 <= j < bs@[k as int].instructions@.len() implies inst_fits(
                    #[trigger] bs@[k as int].instructions@[j],
                ) by {
                    assert(inst_fits(f.blocks@[k as int].instructions@[j]));
                }
            }
            self.emit_block(f, &bs[k], is_main, &ret);
            k = k + 1;
        }
        assert(bs@.subrange(0, bs@.len() as int) =~= bs@);
        self.push_lit("}\n\n");
        let mut body: Vec<char> = Vec::new();
        std::mem::swap(&mut body, &mut self.out);
        self.out = before;
        let mut sfx = str_chars(", !dbg !");
        let loc = u64_decimal(6 + 2 * (idx as u64));
        extend_chars(&mut sfx, loc.as_slice());
        assert(sfx@ =~= dbg_suffix(idx as nat));
        let tagged = dbg_lines_exec(&body, sfx.as_slice());
        self.push_chars(tagged.as_slice());
        self.fn_index = idx + 1;
    }


    fn intern_text(&mut self, x: &[char])
        ensures
            final(self).state() == (intern_all(old(self).state().0, seq![x@]), old(self).state().1, old(self).state().2),
            final(self).fn_names() == old(self).fn_names(),
            final(self).extern_names() == old(self).extern_names(),
            final(self).var_tys() == old(self).var_tys(),
            final(self).struct_fields() == old(self).struct_fields(),
            final(self).fn_param_tys() == old(self).fn_param_tys(),
    {
        let ghost m = old(self).state().0;
        let _ = self.intern_string(x);
        proof {
            lemma_intern_all_one(m, x@);
        }
    }

    fn intern_op(&mut self, op: &Operand)
        ensures
            final(self).state() == (intern_all(old(self).state().0, op_strs(*op)), old(self).state().1, old(self).state().2),
            final(self).fn_names() == old(self).fn_names(),
            final(self).extern_names() == old(self).extern_names(),
            final(self).var_tys() == old(self).var_tys(),
            final(self).struct_fields() == old(self).struct_fields(),
            final(self).fn_param_tys() == old(self).fn_param_tys(),
    {
        match op {
            Operand::Constant(TirConstant::Str(x)) => {
                let c = str_chars(x.as_str());
                self.intern_text(c.as_slice());
            },
            _ => {
                assert(op_strs(*op) =~= Seq::<Seq<char>>::empty());
            },
        }
    }

    fn intern_two(&mut self, a: &Operand, b: &Operand)
        ensures
            final(self).state() == (intern_all(old(self).state().0, op_strs(*a) + op_strs(*b)), old(self).state().1, old(self).state().2),
            final(self).fn_names() == old(self).fn_names(),
            final(self).extern_names() == old(self).extern_names(),
            final(self).var_tys() == old(self).var_tys(),
            final(self).struct_fields() == old(self).struct_fields(),
            final(self).fn_param_tys() == old(self).fn_param_tys(),
    {
        let ghost m = old(self).state().0;
        self.intern_op(a);
        self.intern_op(b);
        proof {
            lemma_intern_all_concat(m, op_strs(*a), op_strs(*b));
        }
    }

    fn intern_ops(&mut self, ops: &Vec<Operand>)
        ensures
            final(self).state() == (intern_all(old(self).state().0, ops_strs(ops@)), old(self).state().1, old(self).state().2),
            final(self).fn_names() == old(self).fn_names(),
            final(self).extern_names() == old(self).extern_names(),
            final(self).var_tys() == old(self).var_tys(),
            final(self).struct_fields() == old(self).struct_fields(),
            final(self).fn_param_tys() == old(self).fn_param_tys(),
    {
        let ghost m = old(self).state().0;
        let mut k: usize = 0;
        assert(ops@.subrange(0, 0) =~= Seq::<Operand>::empty());
        while k < ops.len()
            invariant
                k <= ops@.len(),
                self.state() == (intern_all(m, ops_strs(ops@.subrange(0, k as int))), old(self).state().1, old(self).state().2),
                m == old(self).state().0,
                self.fn_names() == old(self).fn_names(),
                self.extern_names() == old(self).extern_names(),
                self.var_tys() == old(self).var_tys(),
                self.struct_fields() == old(self).struct_fields(),
                self.fn_param_tys() == old(self).fn_param_tys(),
            decreases ops@.len() - k,
        {
            let ghost pre = ops_strs(ops@.subrange(0, k as int));
            self.intern_op(&ops[k]);
            proof {
                assert(ops@.subrange(0, k + 1).drop_last() =~= ops@.subrange(0, k as int));
                lemma_intern_all_concat(m, pre, op_strs(ops@[k as int]));
            }
            k = k + 1;
        }
        assert(ops@.subrange(0, ops@.len() as int) =~= ops@);
    }


    fn intern_rvalue(&mut self, rv: &RValue)
        ensures
            final(self).state() == (intern_all(old(self).state().0, rvalue_strs(*rv)), old(self).state().1, old(self).state().2),
            final(self).fn_names() == old(self).fn_names(),
            final(self).extern_names() == old(self).extern_names(),
            final(self).var_tys() == old(self).var_tys(),
            final(self).struct_fields() == old(self).struct_fields(),
            final(self).fn_param_tys() == old(self).fn_param_tys(),
    {
        let ghost m = old(self).state().0;
        match rv {
            RValue::Use(op) => self.intern_op(op),
            RValue::Cast { operand, .. } => self.intern_op(operand),
            RValue::Ref { operand, .. } => self.intern_op(operand),
            RValue::Deref(op) => self.intern_op(op),
            RValue::AddrOf(op) => self.intern_op(op),
            RValue::BinaryOp(_, l, r) => self.intern_two(l, r),
            RValue::FieldAccess { target, .. } => self.intern_op(target),
            RValue::MethodCall { target, args, .. } => {
                self.intern_op(target);
                self.intern_ops(args);
                proof {
                    lemma_intern_all_concat(m, op_strs(*target), ops_strs(args@));
                }
            },
            RValue::StructInit { fields, .. } => {
                let ghost ops = field_ops(fields@);
                let mut k: usize = 0;
                assert(ops.subrange(0, 0) =~= Seq::<Operand>::empty());
                while k < fields.len()
                    invariant
                        k <= fields@.len(),
                        ops == field_ops(fields@),
                        self.state() == (intern_all(m, ops_strs(ops.subrange(0, k as int))), old(self).state().1, old(self).state().2),
                        m == old(self).state().0,
                        self.fn_names() == old(self).fn_names(),
                        self.extern_names() == old(self).extern_names(),
                        self.var_tys() == old(self).var_tys(),
                        self.struct_fields() == old(self).struct_fields(),
                        self.fn_param_tys() == old(self).fn_param_tys(),
                    decreases fields@.len() - k,
                {
                    let ghost pre = ops_strs(ops.subrange(0, k as int));
                    self.intern_op(&fields[k].1);
                    proof {
                        assert(ops.subrange(0, k + 1).drop_last() =~= ops.subrange(0, k as int));
                        assert(ops.subrange(0, k + 1).last() == fields@[k as int].1);
                        lemma_intern_all_concat(m, pre, op_strs(fields@[k as int].1));
                    }
                    k = k + 1;
                }
                assert(ops.subrange(0, ops.len() as int) =~= ops);
            },
            RValue::EnumInit { payload, .. } => self.intern_ops(payload),
            RValue::EnumTag(t) => self.intern_op(t),
            RValue::EnumPayload { target, .. } => self.intern_op(target),
            RValue::ArrayInit { elements, .. } => self.intern_ops(elements),
            RValue::ArrayIndex { target, index, .. } => self.intern_two(target, index),
        }
    }

    fn intern_println(&mut self, args: &Vec<Operand>)
        ensures
            final(self).state() == (intern_all(old(self).state().0, println_strs(args@)), old(self).state().1, old(self).state().2),
            final(self).fn_names() == old(self).fn_names(),
            final(self).extern_names() == old(self).extern_names(),
            final(self).var_tys() == old(self).var_tys(),
            final(self).struct_fields() == old(self).struct_fields(),
            final(self).fn_param_tys() == old(self).fn_param_tys(),
    {
        let ghost m = old(self).state().0;
        if args.len() == 0 {
            assert(println_strs(args@) =~= Seq::<Seq<char>>::empty());
            return;
        }
        match &args[0] {
            Operand::Constant(TirConstant::Str(fmt)) => {
                let fc = str_chars(fmt.as_str());
                self.intern_text(fc.as_slice());
                let ghost m1 = self.state().0;
                let pieces = split_braces_exec(fc.as_slice());
                let ghost ps = dv(pieces@);
                let mut k: usize = 0;
                assert(ps.subrange(0, 0) =~= Seq::<Seq<char>>::empty());
                while k < pieces.len()
                    invariant
                        k <= pieces@.len(),
                        ps == dv(pieces@),
                        self.state() == (intern_all(m1, nonempty(ps.subrange(0, k as int))), old(self).state().1, old(self).state().2),
                        self.fn_names() == old(self).fn_names(),
                        self.extern_names() == old(self).extern_names(),
                        self.var_tys() == old(self).var_tys(),
                        self.struct_fields() == old(self).struct_fields(),
                        self.fn_param_tys() == old(self).fn_param_tys(),
                    decreases pieces@.len() - k,
                {
                    let ghost pre = nonempty(ps.subrange(0, k as int));
                    proof {
                        assert(ps.subrange(0, k + 1).drop_last() =~= ps.subrange(0, k as int));
                        assert(ps.subrange(0, k + 1).last() == pieces@[k as int]@);
                    }
                    if pieces[k].len() > 0 {
                        self.intern_text(pieces[k].as_slice());
                        proof {
                            lemma_intern_all_concat(m1, pre, seq![pieces@[k as int]@]);
                        }
                    } else {
                        assert(nonempty(ps.subrange(0, k + 1)) =~= pre);
                    }
                    k = k + 1;
                }
                assert(ps.subrange(0, ps.len() as int) =~= ps);
                proof {
                    lemma_intern_all_concat(m, seq![fmt@], nonempty(split_braces(fmt@)));
                }
            },
            _ => {
                assert(println_strs(args@) =~= Seq::<Seq<char>>::empty());
            },
        }
    }

    fn intern_inst(&mut self, inst: &Instruction)
        ensures
            final(self).state() == (intern_all(old(self).state().0, inst_strs(*inst)), old(self).state().1, old(self).state().2),
            final(self).fn_names() == old(self).fn_names(),
            final(self).extern_names() == old(self).extern_names(),
            final(self).var_tys() == old(self).var_tys(),
            final(self).struct_fields() == old(self).struct_fields(),
            final(self).fn_param_tys() == old(self).fn_param_tys(),
    {
        let ghost m = old(self).state().0;
        match inst {
            Instruction::Assign { rvalue, .. } => self.intern_rvalue(rvalue),
            Instruction::PerformEffect { effect, op, args, .. } => {
                let e = str_chars(effect.as_str());
                let o = str_chars(op.as_str());
                let pl = str_chars("PlayerOne");
                self.intern_text(e.as_slice());
                let ghost m1 = self.state().0;
                self.intern_text(o.as_slice());
                let ghost m2 = self.state().0;
                self.intern_text(pl.as_slice());
                let ghost m3 = self.state().0;
                self.intern_ops(args);
                proof {
                    lemma_intern_all_concat(m, seq![effect@], seq![op@]);
                    assert(seq![effect@] + seq![op@] =~= seq![effect@, op@]);
                    lemma_intern_all_concat(m, seq![effect@, op@], seq!["PlayerOne"@]);
                    assert(seq![effect@, op@] + seq!["PlayerOne"@] =~= seq![effect@, op@, "PlayerOne"@]);
                    lemma_intern_all_concat(m, seq![effect@, op@, "PlayerOne"@], ops_strs(args@));
                }
            },
            Instruction::Call { func, args, .. } => {
                let fc = str_chars(func.as_str());
                let ghost first = if func@ == "@println"@ { println_strs(args@) } else { Seq::<Seq<char>>::empty() };
                if crate::text::eq_lit(fc.as_slice(), "@println") {
                    self.intern_println(args);
                }
                self.intern_ops(args);
                proof {
                    lemma_intern_all_concat(m, first, ops_strs(args@));
                    if func@ != "@println"@ {
                        assert(first + ops_strs(args@) =~= ops_strs(args@));
                    }
                }
            },
            Instruction::SetField { val, .. } => self.intern_op(val),
            Instruction::ExternCall { args, .. } => self.intern_ops(args),
            Instruction::Store { ptr, value } => self.intern_two(ptr, value),
            _ => {
                assert(inst_strs(*inst) =~= Seq::<Seq<char>>::empty());
            },
        }
    }

    fn intern_module(&mut self, module: &TirModule)
        ensures
            final(self).state() == (intern_all(old(self).state().0, module_strs(module.functions@)), old(self).state().1, old(self).state().2),
            final(self).fn_names() == old(self).fn_names(),
            final(self).extern_names() == old(self).extern_names(),
            final(self).var_tys() == old(self).var_tys(),
            final(self).struct_fields() == old(self).struct_fields(),
            final(self).fn_param_tys() == old(self).fn_param_tys(),
    {
        let ghost m = old(self).state().0;
        let fs = &module.functions;
        let mut f: usize = 0;
        assert(fs@.subrange(0, 0) =~= Seq::<TirFunction>::empty());
        while f < fs.len()
            invariant
                f <= fs@.len(),
                m == old(self).state().0,
                self.state() == (intern_all(m, module_strs(fs@.subrange(0, f as int))), old(self).state().1, old(self).state().2),
                self.fn_names() == old(self).fn_names(),
                self.extern_names() == old(self).extern_names(),
                self.var_tys() == old(self).var_tys(),
                self.struct_fields() == old(self).struct_fields(),
                self.fn_param_tys() == old(self).fn_param_tys(),
            decreases fs@.len() - f,
        {
            let ghost fpre = module_strs(fs@.subrange(0, f as int));
            let ghost mf = self.state().0;
            let bs = &fs[f].blocks;
            let mut b: usize = 0;
            assert(bs@.subrange(0, 0) =~= Seq::<TirBlock>::empty());
            while b < bs.len()
                invariant
                    b <= bs@.len(),
                    self.state() == (intern_all(mf, blocks_strs(bs@.subrange(0, b as int))), old(self).state().1, old(self).state().2),
                    self.fn_names() == old(self).fn_names(),
                    self.extern_names() == old(self).extern_names(),
                    self.var_tys() == old(self).var_tys(),
                    self.struct_fields() == old(self).struct_fields(),
                    self.fn_param_tys() == old(self).fn_param_tys(),
                decreases bs@.len() - b,
            {
                let ghost bpre = blocks_strs(bs@.subrange(0, b as int));
                let ghost mb = self.state().0;
                let insts = &bs[b].instructions;
                let mut i: usize = 0;
                assert(insts@.subrange(0, 0) =~= Seq::<Instruction>::empty());
                while i < insts.len()
                    invariant
                        i <= insts@.len(),
                        self.state() == (intern_all(mb, insts_strs(insts@.subrange(0, i as int))), old(self).state().1, old(self).state().2),
                        self.fn_names() == old(self).fn_names(),
                        self.extern_names() == old(self).extern_names(),
                        self.var_tys() == old(self).var_tys(),
                        self.struct_fields() == old(self).struct_fields(),
                        self.fn_param_tys() == old(self).fn_param_tys(),
                    decreases insts@.len() - i,
                {
                    let ghost ipre = insts_strs(insts@.subrange(0, i as int));
                    self.intern_inst(&insts[i]);
                    proof {
                        assert(insts@.subrange(0, i + 1).drop_last() =~= insts@.subrange(0, i as int));
                        lemma_intern_all_concat(mb, ipre, inst_strs(insts@[i as int]));
                    }
                    i = i + 1;
                }
                proof {
                    assert(insts@.subrange(0, insts@.len() as int) =~= insts@);
                    assert(bs@.subrange(0, b + 1).drop_last() =~= bs@.subrange(0, b as int));
                    assert(bs@.subrange(0, b + 1).last() == bs@[b as int]);
                    lemma_intern_all_concat(mf, bpre, insts_strs(bs@[b as int].instructions@));
                }
                b = b + 1;
            }
            proof {
                assert(bs@.subrange(0, bs@.len() as int) =~= bs@);
                assert(fs@.subrange(0, f + 1).drop_last() =~= fs@.subrange(0, f as int));
                assert(fs@.subrange(0, f + 1).last() == fs@[f as int]);
                lemma_intern_all_concat(m, fpre, blocks_strs(fs@[f as int].blocks@));
            }
            f = f + 1;
        }
        assert(fs@.subrange(0, fs@.len() as int) =~= fs@);
    }


    /// Emits the whole module: its opening, the declarations of the extern
    /// functions `decls` that the opening does not declare, the runtime, the
    /// string constants of its literals, and its functions.
    pub fn emit(&mut self, module: &TirModule, decls: &Vec<ExternDecl>) -> (r: String)
        requires
            old(self).state().1 + module_budget(module.functions@) < usize::MAX,
            forall|i: int| 0 <= i < module.functions@.len() ==> function_fits(#[trigger] module.functions@[i]),
            forall|i: int| 0 <= i < old(self).struct_fields().len() ==> (#[trigger] old(self).struct_fields()[i]).len()
                * 8 <= usize::MAX,
            old(self).fn_names().len() == old(self).fn_param_tys().len(),
            texts_fit(old(self).state().0),
            texts_fit(module_strs(module.functions@)),
            module.functions@.len() < 0x1000_0000_0000_0000,
        ensures
            r@ == module_text(
                old(self).fn_names(),
                old(self).extern_names(),
                old(self).struct_fields(),
                old(self).fn_param_tys(),
                old(self).state(),
                module.functions@,
                Seq::new(decls@.len(), |i: int| decl_view(decls@[i])),
            ),
    {
        let ghost st0 = self.state();
        self.intern_module(module);
        proof {
            lemma_intern_all_fits(st0.0, module_strs(module.functions@));
        }
        let mut header = module_opening_exec();
        let d = extern_decls_exec(decls);
        extend_chars(&mut header, d.as_slice());
        let rt = module_runtime_exec();
        extend_chars(&mut header, rt.as_slice());
        extend_lit(&mut header, "; User String Literals\n");
        let g = string_globals_exec(&self.strings);
        extend_chars(&mut header, g.as_slice());
        extend_lit(&mut header, "\n");
        let ghost s1 = self.state();
        let fs = &module.functions;
        self.fn_index = 0;
        let mut k: usize = 0;
        while k < fs.len()
            invariant
                k <= fs@.len(),
                fs@ == module.functions@,
                fs@.len() < 0x1000_0000_0000_0000,
                self.fn_index() == k,
                forall|i: int| 0 <= i < module.functions@.len() ==> function_fits(#[trigger] module.functions@[i]),
                st0.1 + module_budget(fs@) < usize::MAX,
                s1.1 == st0.1,
                s1.1 <= self.state().1 <= s1.1 + module_budget(fs@.subrange(0, k as int)),
                self.state() == functions_emit(
                    old(self).fn_names(),
                    old(self).extern_names(),
                    old(self).struct_fields(),
                    old(self).fn_param_tys(),
                    s1,
                    fs@,
                    k as nat,
                ),
                forall|i: int| 0 <= i < old(self).struct_fields().len() ==> (#[trigger] old(self).struct_fields()[i]).len()
                    * 8 <= usize::MAX,
                old(self).fn_names().len() == old(self).fn_param_tys().len(),
                self.fn_names() == old(self).fn_names(),
                self.extern_names() == old(self).extern_names(),
                self.struct_fields() == old(self).struct_fields(),
                self.fn_param_tys() == old(self).fn_param_tys(),
            decreases fs@.len() - k,
        {
            proof {
                lemma_module_budget_prefix(fs@, k + 1);
                assert(fs@.subrange(0, k + 1).drop_last() =~= fs@.subrange(0, k as int));
                assert(fs@.subrange(0, k + 1).last() == fs@[k as int]);
            }
            self.emit_function(&fs[k]);
            k = k + 1;
        }
        extend_chars(&mut header, self.out.as_slice());
        let dm = debug_metadata_exec(fs);
        extend_chars(&mut header, dm.as_slice());
        crate::text::string_of(header.as_slice())
    }

    /// The LLVM type of an operand.
    pub fn get_operand_llvm_type(&self, op: &Operand) -> (r: Vec<char>)
        ensures
            r@ == operand_ty(self.fn_names(), self.extern_names(), self.var_tys(), *op),
    {
        match op {
            Operand::Var(v, ty) => {
                if let Var::Named(name) = v {
                    let (is_fn, _) = self.refers_to_fn_exec(name);
                    if is_fn {
                        return str_chars("ptr");
                    }
                }
                self.lookup_var_type(v, ty)
            },
            Operand::Constant(TirConstant::Str(_)) => str_chars("ptr"),
            _ => str_chars("i64"),
        }
    }

    /// Emits an operand and gives the text that names its value.
    pub fn emit_operand(&mut self, op: &Operand) -> (r: Vec<char>)
        requires
            old(self).state().1 < usize::MAX,
        ensures
            (final(self).state(), r@) == operand_emit(
                old(self).fn_names(),
                old(self).extern_names(),
                old(self).var_tys(),
                old(self).state(),
                *op,
            ),
            old(self).state().1 <= final(self).state().1 <= old(self).state().1 + 1,
            final(self).fn_names() == old(self).fn_names(),
            final(self).extern_names() == old(self).extern_names(),
            final(self).var_tys() == old(self).var_tys(),
            final(self).struct_fields() == old(self).struct_fields(),
            final(self).fn_param_tys() == old(self).fn_param_tys(),
    {
        reveal(operand_emit);
        match op {
            Operand::Constant(TirConstant::Int(n)) => i64_decimal(*n),
            Operand::Constant(TirConstant::Bool(b)) => if *b {
                str_chars("1")
            } else {
                str_chars("0")
            },
            Operand::Constant(TirConstant::Unit) => str_chars("0"),
            Operand::Constant(TirConstant::Str(s)) => {
                let sc = str_chars(s.as_str());
                let idx = self.intern_string(sc.as_slice());
                let mut r = str_chars("@str_");
                let d = u64_decimal(idx as u64);
                extend_chars(&mut r, d.as_slice());
                r
            },
            Operand::Var(v, ty) => {
                if let Var::Named(name) = v {
                    let (is_fn, clean) = self.refers_to_fn_exec(name);
                    if is_fn {
                        let mut r = str_chars("@");
                        extend_chars(&mut r, clean.as_slice());
                        return r;
                    }
                }
                let slot = var_to_slot_name(v);
                let t = self.next_temp();
                let ty_str = self.lookup_var_type(v, ty);
                let mut line = str_chars("    ");
                extend_chars(&mut line, t.as_slice());
                extend_lit(&mut line, " = load ");
                extend_chars(&mut line, ty_str.as_slice());
                extend_lit(&mut line, ", ptr ");
                let sc = str_chars(slot.as_str());
                extend_chars(&mut line, sc.as_slice());
                extend_lit(&mut line, "\n");
                extend_chars(&mut self.out, line.as_slice());
                proof {
                    assert(line@ =~= load_line(t@, ty_str@, *v));
                }
                t
            },
        }
    }
}


/// The names of the functions the module defines.
pub open spec fn module_fn_names(m: TirModule) -> Seq<Seq<char>> {
    Seq::new(m.functions@.len(), |i: int| m.functions@[i].name@)
}

/// The LLVM textual IR of `module`, whose structs have the field names
/// `structs` and whose extern blocks declare `externs`: `module_text` from a
/// fresh emitter.
pub fn emit_llvm_ir(module: &TirModule, structs: &Vec<Vec<String>>, externs: &Vec<ExternDecl>) -> (r: String)
    requires
        module_budget(module.functions@) < usize::MAX,
        forall|i: int| 0 <= i < module.functions@.len() ==> function_fits(#[trigger] module.functions@[i]),
        forall|i: int| 0 <= i < structs@.len() ==> (#[trigger] structs@[i])@.len() * 8 <= usize::MAX,
        texts_fit(module_strs(module.functions@)),
        module.functions@.len() < 0x1000_0000_0000_0000,
    ensures
        r@ == module_text(
            module_fn_names(*module),
            Seq::new(externs@.len(), |i: int| externs@[i].name@),
            Seq::new(structs@.len(), |i: int| Seq::new(structs@[i]@.len(), |j: int| structs@[i]@[j]@)),
            Seq::new(module.functions@.len(), |i: int| param_tys(module.functions@[i].params@)),
            (Seq::<Seq<char>>::empty(), 0nat, Seq::<char>::empty()),
            module.functions@,
            Seq::new(externs@.len(), |i: int| decl_view(externs@[i])),
        ),
{
    let mut names: Vec<String> = Vec::new();
    let mut k: usize = 0;
    while k < externs.len()
        invariant
            k <= externs@.len(),
            names@.len() == k,
            forall|i: int| 0 <= i < k ==> (#[trigger] names@[i])@ == externs@[i].name@,
        decreases externs@.len() - k,
    {
        names.push(crate::text::string_of(str_chars(externs[k].name.as_str()).as_slice()));
        k = k + 1;
    }
    let ghost en = Seq::new(externs@.len(), |i: int| externs@[i].name@);
    let mut e = LlvmTextEmitter::new(module, names);
    assert(e.extern_names() =~= en);
    assert(e.fn_names() =~= module_fn_names(*module));
    e.set_struct_fields(structs);
    assert(texts_fit(e.state().0));
    e.emit(module, externs)
}

} // verus!
