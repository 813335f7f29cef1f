use vstd::prelude::*;
use crate::text::{nat_decimal, u64_decimal, string_of};

verus! {

/// Why a differential fuzzing case failed: a stage that rejected the
/// program, or the interpreter and the compiled code disagreeing.
#[derive(Debug)]
pub enum FuzzError {
    Parse(String),
    Typeck(String),
    VmRuntime(String),
    JitRuntime(String),
    Divergence { vm_val: i64, jit_val: i64, source: String, tir: String },
    TraceDivergence { vm_trace: Vec<String>, jit_trace: Vec<String>, source: String },
}

/// The first `i` digits of `d` with a `,` before each digit that has a
/// multiple of three digits after it (and is not the first).
pub open spec fn grouped(d: Seq<char>, i: nat) -> Seq<char>
    decreases i,
{
    if i == 0 {
        seq![]
    } else {
        let k = (i - 1) as nat;
        let sep: Seq<char> = if k > 0 && (d.len() - k) % 3 == 0 { seq![','] } else { seq![] };
        grouped(d, k) + sep + seq![d[k as int]]
    }
}

/// `n` in decimal with thousands separated by commas.
pub open spec fn with_thousands(n: nat) -> Seq<char> {
    grouped(nat_decimal(n), nat_decimal(n).len())
}

/// A count in decimal with thousands separated by commas (`12,345`).
pub fn format_number(n: usize) -> (r: String)
    ensures
        r@ == with_thousands(n as nat),
{
    let d = u64_decimal(n as u64);
    let len = d.len();
    let mut out: Vec<char> = Vec::new();
    for i in 0..len
        invariant
            len == d@.len(),
            d@ == nat_decimal(n as nat),
            out@ == grouped(d@, i as nat),
    {
        if i > 0 && (len - i) % 3 == 0 {
            out.push(',');
        }
        out.push(d[i]);
        assert(out@ =~= grouped(d@, (i + 1) as nat));
    }
    string_of(out.as_slice())
}

} // verus!
