use vstd::prelude::*;
use crate::text::{str_chars, lines, lines_exec, trim, trim_exec, eq_lit, starts_with, starts_with_exec, dv};
use crate::effects::str_eq;

verus! {

/// A line of the header of a source file: blank, a `//` comment or a `#!`
/// attribute.
pub open spec fn is_header_line(t: Seq<char>) -> bool {
    t.len() == 0 || starts_with(t, "//"@) || starts_with(t, "#!"@)
}

/// Whether the trimmed line is the `no_std` pragma.
pub open spec fn is_no_std(t: Seq<char>) -> bool {
    t == "#![no_std]"@ || t == "//! [no_std]"@
}

/// Scanning lines from `i`: the pragma is found before the first line that
/// is not part of the header.
pub open spec fn no_std_from(ls: Seq<Seq<char>>, i: int) -> bool
    decreases ls.len() - i,
{
    if i < 0 || i >= ls.len() {
        false
    } else if is_no_std(trim(ls[i])) {
        true
    } else if !is_header_line(trim(ls[i])) {
        false
    } else {
        no_std_from(ls, i + 1)
    }
}

/// Whether a source file opts out of the standard library: a `#![no_std]`
/// (or `//! [no_std]`) line among its leading blank, comment and attribute
/// lines.
pub fn has_no_std_pragma(source: &str) -> (r: bool)
    ensures
        r == no_std_from(lines(source@), 0),
{
    let chars = str_chars(source);
    let ls = lines_exec(chars.as_slice());
    let mut i: usize = 0;
    while i < ls.len()
        invariant
            dv(ls@) == lines(source@),
            i <= ls@.len(),
            no_std_from(lines(source@), 0) == no_std_from(lines(source@), i as int),
        decreases ls@.len() - i,
    {
        let t = trim_exec(ls[i].as_slice());
        assert(ls@[i as int]@ == lines(source@)[i as int]);
        if eq_lit(t.as_slice(), "#![no_std]") || eq_lit(t.as_slice(), "//! [no_std]") {
            return true;
        }
        let slash = str_chars("//");
        let bang = str_chars("#!");
        if !(t.len() == 0 || starts_with_exec(t.as_slice(), slash.as_slice()) || starts_with_exec(t.as_slice(), bang.as_slice())) {
            return false;
        }
        i = i + 1;
    }
    false
}

/// The type names that need no import.
pub open spec fn primitive_type_names() -> Seq<Seq<char>> {
    seq![
        "u8"@, "u16"@, "u32"@, "u64"@, "i8"@, "i16"@, "i32"@, "i64"@, "f32"@, "f64"@, "bool"@, "String"@,
        "usize"@, "isize"@, "Percentage"@, "Port"@, "NonZeroU32"@, "Byte"@,
    ]
}

/// Whether a type name is built in (and never taken from a module).
pub fn is_primitive_type(name: &str) -> (r: bool)
    ensures
        r == primitive_type_names().contains(name@),
{
    let names = ["u8", "u16", "u32", "u64", "i8", "i16", "i32", "i64", "f32", "f64", "bool", "String", "usize",
        "isize", "Percentage", "Port", "NonZeroU32", "Byte"];
    let ghost spec_names = primitive_type_names();
    assert(names@.map_values(|s: &str| s@) =~= spec_names);
    for i in 0..names.len()
        invariant
            names@.map_values(|s: &str| s@) == spec_names,
            spec_names == primitive_type_names(),
            forall|k: int| 0 <= k < i ==> spec_names[k] != name@,
    {
        if str_eq(names[i], name) {
            assert(spec_names[i as int] == name@);
            assert(spec_names.contains(name@));
            return true;
        }
    }
    false
}

/// The function names that need no import.
pub open spec fn builtin_function_names() -> Seq<Seq<char>> {
    seq!["println"@, "print"@, "resume"@, "assert"@, "panic"@]
}

/// Whether a function name is a built-in of the language.
pub fn is_builtin_function(name: &str) -> (r: bool)
    ensures
        r == builtin_function_names().contains(name@),
{
    let names = ["println", "print", "resume", "assert", "panic"];
    let ghost spec_names = builtin_function_names();
    assert(names@.map_values(|s: &str| s@) =~= spec_names);
    for i in 0..names.len()
        invariant
            names@.map_values(|s: &str| s@) == spec_names,
            spec_names == builtin_function_names(),
            forall|k: int| 0 <= k < i ==> spec_names[k] != name@,
    {
        if str_eq(names[i], name) {
            assert(spec_names[i as int] == name@);
            assert(spec_names.contains(name@));
            return true;
        }
    }
    false
}

} // verus!
