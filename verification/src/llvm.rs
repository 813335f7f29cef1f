use vstd::prelude::*;
use crate::types::Type;
use crate::tir::Var;
use crate::text::{str_chars, string_of, extend_chars, u64_decimal, nat_decimal, strip_lead_char, strip_lead_char_exec};

verus! {

/// The LLVM type a value of a Tungsten type is held in.
pub open spec fn llvm_type(t: Type) -> Seq<char>
    decreases t,
{
    match t {
        Type::Unit => "i64"@,
        Type::Bool | Type::U8 => "i8"@,
        Type::U16 => "i16"@,
        Type::U32 => "i32"@,
        Type::I64 | Type::U64 | Type::Usize => "i64"@,
        Type::String | Type::Ref { .. } | Type::Ptr { .. } | Type::Struct(_) | Type::Instantiated { .. }
        | Type::Fn { .. } | Type::Enum(_) | Type::Array { .. } => "ptr"@,
        Type::Refined { base, .. } => llvm_type(*base),
        Type::Relational { base } => llvm_type(*base),
        _ => "i64"@,
    }
}

/// The LLVM type of a value of `ty`.
pub fn type_to_llvm(ty: &Type) -> (r: String)
    ensures
        r@ == llvm_type(*ty),
    decreases ty,
{
    match ty {
        Type::Unit => "i64".to_string(),
        Type::Bool | Type::U8 => "i8".to_string(),
        Type::U16 => "i16".to_string(),
        Type::U32 => "i32".to_string(),
        Type::I64 | Type::U64 | Type::Usize => "i64".to_string(),
        Type::String | Type::Ref { .. } | Type::Ptr { .. } | Type::Struct(_) | Type::Instantiated { .. }
        | Type::Fn { .. } | Type::Enum(_) | Type::Array { .. } => "ptr".to_string(),
        Type::Refined { base, .. } => type_to_llvm(base),
        Type::Relational { base } => type_to_llvm(base),
        _ => "i64".to_string(),
    }
}

/// The LLVM return type of a function returning `ty`: `void` for unit.
pub fn type_to_llvm_ret(ty: &Type) -> (r: String)
    ensures
        r@ == (if *ty is Unit { "void"@ } else { llvm_type(*ty) }),
{
    match ty {
        Type::Unit => "void".to_string(),
        _ => type_to_llvm(ty),
    }
}

/// The stack slot of a variable: `%slot_` and the name without its leading
/// `@`s and then `_`s, or `%slot_tmp_` and the temporary's number.
pub open spec fn slot_name(v: Var) -> Seq<char> {
    match v {
        Var::Named(n) => "%slot_"@ + strip_lead_char(strip_lead_char(n@, '@'), '_'),
        Var::Temp(id) => "%slot_tmp_"@ + nat_decimal(id as nat),
    }
}

/// The name of the stack slot that holds a variable.
pub fn var_to_slot_name(v: &Var) -> (r: String)
    ensures
        r@ == slot_name(*v),
{
    match v {
        Var::Named(name) => {
            let chars = str_chars(name.as_str());
            let (a, _) = strip_lead_char_exec(chars.as_slice(), '@');
            let (b, _) = strip_lead_char_exec(a.as_slice(), '_');
            let mut out = str_chars("%slot_");
            extend_chars(&mut out, b.as_slice());
            string_of(out.as_slice())
        },
        Var::Temp(id) => {
            let mut out = str_chars("%slot_tmp_");
            let d = u64_decimal(*id as u64);
            extend_chars(&mut out, d.as_slice());
            string_of(out.as_slice())
        },
    }
}

/// The UTF-8 encoding of a character.
pub open spec fn utf8_bytes(c: char) -> Seq<u8> {
    let v = c as u32;
    if v < 0x80 {
        seq![v as u8]
    } else if v < 0x800 {
        seq![(0xC0u32 | (v >> 6u32)) as u8, (0x80u32 | (v & 0x3Fu32)) as u8]
    } else if v < 0x10000 {
        seq![
            (0xE0u32 | (v >> 12u32)) as u8,
            (0x80u32 | ((v >> 6u32) & 0x3Fu32)) as u8,
            (0x80u32 | (v & 0x3Fu32)) as u8,
        ]
    } else {
        seq![
            (0xF0u32 | (v >> 18u32)) as u8,
            (0x80u32 | ((v >> 12u32) & 0x3Fu32)) as u8,
            (0x80u32 | ((v >> 6u32) & 0x3Fu32)) as u8,
            (0x80u32 | (v & 0x3Fu32)) as u8,
        ]
    }
}

/// An upper-case hexadecimal digit.
pub open spec fn hex_digit(d: u8) -> char {
    if d < 10 {
        ((48 + d) as u8) as char
    } else {
        ((55 + d) as u8) as char
    }
}

/// How a byte is written in an LLVM string constant: printable ASCII other
/// than `\` and `"` as itself, anything else as `\` and two hex digits.
pub open spec fn escape_byte(b: u8) -> Seq<char> {
    if 32 <= b <= 126 && b != 92 && b != 34 {
        seq![b as char]
    } else {
        seq!['\\', hex_digit(b / 16), hex_digit(b % 16)]
    }
}

/// The escapes of a sequence of bytes.
pub open spec fn escape_bytes(bs: Seq<u8>) -> Seq<char>
    decreases bs.len(),
{
    if bs.len() == 0 {
        seq![]
    } else {
        escape_bytes(bs.drop_last()) + escape_byte(bs.last())
    }
}

/// The body of an LLVM string constant holding the UTF-8 bytes of `s`.
pub open spec fn llvm_escaped(s: Seq<char>) -> Seq<char>
    decreases s.len(),
{
    if s.len() == 0 {
        seq![]
    } else {
        llvm_escaped(s.drop_last()) + escape_bytes(utf8_bytes(s.last()))
    }
}

fn hex_digit_exec(d: u8) -> (r: char)
    requires
        d < 16,
    ensures
        r == hex_digit(d),
{
    if d < 10 {
        (48 + d) as char
    } else {
        (55 + d) as char
    }
}

fn utf8_exec(c: char) -> (r: Vec<u8>)
    ensures
        r@ == utf8_bytes(c),
{
    let v = c as u32;
    let mut r: Vec<u8> = Vec::new();
    if v < 0x80 {
        r.push(v as u8);
    } else if v < 0x800 {
        r.push((0xC0u32 | (v >> 6u32)) as u8);
        r.push((0x80u32 | (v & 0x3Fu32)) as u8);
    } else if v < 0x10000 {
        r.push((0xE0u32 | (v >> 12u32)) as u8);
        r.push((0x80u32 | ((v >> 6u32) & 0x3Fu32)) as u8);
        r.push((0x80u32 | (v & 0x3Fu32)) as u8);
    } else {
        r.push((0xF0u32 | (v >> 18u32)) as u8);
        r.push((0x80u32 | ((v >> 12u32) & 0x3Fu32)) as u8);
        r.push((0x80u32 | ((v >> 6u32) & 0x3Fu32)) as u8);
        r.push((0x80u32 | (v & 0x3Fu32)) as u8);
    }
    assert(r@ =~= utf8_bytes(c));
    r
}

/// The text of an LLVM `c"..."` string constant for `s`: each UTF-8 byte
/// printable as itself when it is printable ASCII other than `\` and `"`,
/// otherwise as `\XX` in upper-case hex.
pub fn escape_llvm_string(s: &str) -> (r: String)
    ensures
        r@ == llvm_escaped(s@),
{
    let cs = str_chars(s);
    let mut out: Vec<char> = Vec::new();
    for i in 0..cs.len()
        invariant
            cs@ == s@,
            out@ == llvm_escaped(s@.take(i as int)),
    {
        assert(s@.take(i + 1).drop_last() =~= s@.take(i as int));
        let bytes = utf8_exec(cs[i]);
        let ghost base = out@;
        for j in 0..bytes.len()
            invariant
                out@ == base + escape_bytes(bytes@.take(j as int)),
        {
            assert(bytes@.take(j + 1).drop_last() =~= bytes@.take(j as int));
            let b = bytes[j];
            if 32 <= b && b <= 126 && b != 92 && b != 34 {
                out.push(b as char);
            } else {
                out.push('\\');
                out.push(hex_digit_exec(b / 16));
                out.push(hex_digit_exec(b % 16));
            }
            assert(out@ =~= base + escape_bytes(bytes@.take(j + 1)));
        }
        assert(bytes@.take(bytes@.len() as int) =~= bytes@);
    }
    assert(s@.take(s@.len() as int) =~= s@);
    string_of(out.as_slice())
}

} // verus!
