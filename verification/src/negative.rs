use vstd::prelude::*;
use crate::rng::{Rng, State};
use crate::generator::{draw_i64, draw_range};
use crate::text::{extend_lit, extend_chars, u64_decimal, i64_decimal, nat_decimal, int_decimal, string_of};

verus! {

// Programs that let a reference escape its region, which the type checker
// must reject. Each is fixed text around the case number and values drawn
// from `[1, 100]`.

/// The text of case `id`: a function that returns a reference to one of its locals.
pub open spec fn return_escape_text(id: usize, val_x: int, val_y: int) -> Seq<char> {
    "\n        struct StructNeg"@ + nat_decimal(id as nat) + " {\n            x: i64,\n            y: i64,\n        }\n\n        fn illegal_escape_fn() -> &StructNeg"@ + nat_decimal(id as nat) + " {\n            let s = StructNeg"@ + nat_decimal(id as nat) + " { x: "@ + int_decimal(val_x) + ", y: "@ + int_decimal(val_y) + " };\n            &s\n        }\n\n        fn main() {\n            let _ = illegal_escape_fn();\n        }\n        "@
}

/// The text of case `id`: a reference to a region-local struct assigned to a variable outside the region.
pub open spec fn assignment_escape_text(id: usize, val: int) -> Seq<char> {
    "\n        struct ObjNeg"@ + nat_decimal(id as nat) + " {\n            v: i64,\n        }\n\n        fn main() {\n            let global_holder = ObjNeg"@ + nat_decimal(id as nat) + " { v: 0 };\n            let mut escape_sink = &global_holder;\n            region r_inner"@ + nat_decimal(id as nat) + " {\n                let secret = ObjNeg"@ + nat_decimal(id as nat) + " { v: "@ + int_decimal(val) + " };\n                // Illegal escape: assigning inner region reference to outer variable\n                escape_sink = &secret;\n            };\n        }\n        "@
}

/// The text of case `id`: a region whose value is a reference to one of its locals.
pub open spec fn trailing_block_escape_text(id: usize, val: int) -> Seq<char> {
    "\n        struct LeakNeg"@ + nat_decimal(id as nat) + " {\n            data: i64,\n        }\n\n        fn main() {\n            let _leaked = region r_leak"@ + nat_decimal(id as nat) + " {\n                let local_obj = LeakNeg"@ + nat_decimal(id as nat) + " { data: "@ + int_decimal(val) + " };\n                // Illegal escape: yielding reference to region-local object out of the region\n                &local_obj\n            };\n        }\n        "@
}

/// The text of case `id`: a region-local reference captured across an effect handler.
pub open spec fn effect_continuation_escape_text(id: usize, val: int) -> Seq<char> {
    "\n        struct Secret"@ + nat_decimal(id as nat) + " {\n            key: i64,\n        }\n\n        fn attack_handler() {\n            let mut captured_ref = &Secret"@ + nat_decimal(id as nat) + " { key: 0 };\n            handle {\n                region r_suspended"@ + nat_decimal(id as nat) + " {\n                    let inner_sec = Secret"@ + nat_decimal(id as nat) + " { key: "@ + int_decimal(val) + " };\n                    // Illegal escape across effect continuation boundary\n                    captured_ref = &inner_sec;\n                    IO::print(\"suspending inside region\");\n                };\n            } with IO {\n                print(msg) => 0\n            };\n        }\n\n        fn main() {\n            attack_handler();\n        }\n        "@
}

/// A function that returns a reference to one of its locals.
pub fn generate_return_escape(rng: &mut Rng, id: usize) -> (r: String)
    ensures
        ({
            let (x, s1) = draw_i64(old(rng)@, 1, 100);
            let (y, s2) = draw_i64(s1, 1, 100);
            r@ == return_escape_text(id, x, y) && final(rng)@ == s2
        }),
{
    let val_x = rng.gen_i64(1, 100);
    let val_y = rng.gen_i64(1, 100);
    let n = u64_decimal(id as u64);
    let mut out: Vec<char> = Vec::new();
    extend_lit(&mut out, "\n        struct StructNeg");
    extend_chars(&mut out, n.as_slice());
    extend_lit(&mut out, " {\n            x: i64,\n            y: i64,\n        }\n\n        fn illegal_escape_fn() -> &StructNeg");
    extend_chars(&mut out, n.as_slice());
    extend_lit(&mut out, " {\n            let s = StructNeg");
    extend_chars(&mut out, n.as_slice());
    extend_lit(&mut out, " { x: ");
    extend_chars(&mut out, i64_decimal(val_x).as_slice());
    extend_lit(&mut out, ", y: ");
    extend_chars(&mut out, i64_decimal(val_y).as_slice());
    extend_lit(&mut out, " };\n            &s\n        }\n\n        fn main() {\n            let _ = illegal_escape_fn();\n        }\n        ");
    string_of(out.as_slice())
}

/// A reference to a region-local struct assigned to a variable outside the region.
pub fn generate_assignment_escape(rng: &mut Rng, id: usize) -> (r: String)
    ensures
        ({
            let (v, s1) = draw_i64(old(rng)@, 1, 100);
            r@ == assignment_escape_text(id, v) && final(rng)@ == s1
        }),
{
    let val = rng.gen_i64(1, 100);
    let n = u64_decimal(id as u64);
    let mut out: Vec<char> = Vec::new();
    extend_lit(&mut out, "\n        struct ObjNeg");
    extend_chars(&mut out, n.as_slice());
    extend_lit(&mut out, " {\n            v: i64,\n        }\n\n        fn main() {\n            let global_holder = ObjNeg");
    extend_chars(&mut out, n.as_slice());
    extend_lit(&mut out, " { v: 0 };\n            let mut escape_sink = &global_holder;\n            region r_inner");
    extend_chars(&mut out, n.as_slice());
    extend_lit(&mut out, " {\n                let secret = ObjNeg");
    extend_chars(&mut out, n.as_slice());
    extend_lit(&mut out, " { v: ");
    extend_chars(&mut out, i64_decimal(val).as_slice());
    extend_lit(&mut out, " };\n                // Illegal escape: assigning inner region reference to outer variable\n                escape_sink = &secret;\n            };\n        }\n        ");
    string_of(out.as_slice())
}

/// A region whose value is a reference to one of its locals.
pub fn generate_trailing_block_escape(rng: &mut Rng, id: usize) -> (r: String)
    ensures
        ({
            let (v, s1) = draw_i64(old(rng)@, 1, 100);
            r@ == trailing_block_escape_text(id, v) && final(rng)@ == s1
        }),
{
    let val = rng.gen_i64(1, 100);
    let n = u64_decimal(id as u64);
    let mut out: Vec<char> = Vec::new();
    extend_lit(&mut out, "\n        struct LeakNeg");
    extend_chars(&mut out, n.as_slice());
    extend_lit(&mut out, " {\n            data: i64,\n        }\n\n        fn main() {\n            let _leaked = region r_leak");
    extend_chars(&mut out, n.as_slice());
    extend_lit(&mut out, " {\n                let local_obj = LeakNeg");
    extend_chars(&mut out, n.as_slice());
    extend_lit(&mut out, " { data: ");
    extend_chars(&mut out, i64_decimal(val).as_slice());
    extend_lit(&mut out, " };\n                // Illegal escape: yielding reference to region-local object out of the region\n                &local_obj\n            };\n        }\n        ");
    string_of(out.as_slice())
}

/// A region-local reference captured across an effect handler.
pub fn generate_effect_continuation_escape(rng: &mut Rng, id: usize) -> (r: String)
    ensures
        ({
            let (v, s1) = draw_i64(old(rng)@, 1, 100);
            r@ == effect_continuation_escape_text(id, v) && final(rng)@ == s1
        }),
{
    let val = rng.gen_i64(1, 100);
    let n = u64_decimal(id as u64);
    let mut out: Vec<char> = Vec::new();
    extend_lit(&mut out, "\n        struct Secret");
    extend_chars(&mut out, n.as_slice());
    extend_lit(&mut out, " {\n            key: i64,\n        }\n\n        fn attack_handler() {\n            let mut captured_ref = &Secret");
    extend_chars(&mut out, n.as_slice());
    extend_lit(&mut out, " { key: 0 };\n            handle {\n                region r_suspended");
    extend_chars(&mut out, n.as_slice());
    extend_lit(&mut out, " {\n                    let inner_sec = Secret");
    extend_chars(&mut out, n.as_slice());
    extend_lit(&mut out, " { key: ");
    extend_chars(&mut out, i64_decimal(val).as_slice());
    extend_lit(&mut out, " };\n                    // Illegal escape across effect continuation boundary\n                    captured_ref = &inner_sec;\n                    IO::print(\"suspending inside region\");\n                };\n            } with IO {\n                print(msg) => 0\n            };\n        }\n\n        fn main() {\n            attack_handler();\n        }\n        ");
    string_of(out.as_slice())
}

/// Case `id` of the negative fuzzer: a mode drawn from `[0, 4]` picks the
/// kind of escape (3 and 4 both pick the effect handler).
pub open spec fn negative_case(s: State, id: usize) -> (Seq<char>, State) {
    let (mode, s1) = draw_range(s, 0, 4);
    if mode == 0 {
        let (x, s2) = draw_i64(s1, 1, 100);
        let (y, s3) = draw_i64(s2, 1, 100);
        (return_escape_text(id, x, y), s3)
    } else {
        let (v, s2) = draw_i64(s1, 1, 100);
        if mode == 1 {
            (assignment_escape_text(id, v), s2)
        } else if mode == 2 {
            (trailing_block_escape_text(id, v), s2)
        } else {
            (effect_continuation_escape_text(id, v), s2)
        }
    }
}

/// The program of case `id` of the negative fuzzer.
pub fn generate_negative_case(rng: &mut Rng, id: usize) -> (r: String)
    ensures
        (r@, final(rng)@) == negative_case(old(rng)@, id),
{
    let mode = rng.gen_range(0, 4);
    if mode == 0 {
        generate_return_escape(rng, id)
    } else if mode == 1 {
        generate_assignment_escape(rng, id)
    } else if mode == 2 {
        generate_trailing_block_escape(rng, id)
    } else {
        generate_effect_continuation_escape(rng, id)
    }
}

} // verus!
