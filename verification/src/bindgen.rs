use vstd::prelude::*;
use crate::text::{str_chars, string_of, is_ws, is_ws_char, skip_ws, skip_word, back_ws, trim, lemma_skip_ws_bounds, lemma_skip_word_bounds, lemma_back_ws_bounds, skip_ws_exec, skip_word_exec, back_ws_exec, sub_vec, trim_exec, find_from, lemma_find_from_bounds, find_from_exec, split_from, split_char, dv, split_char_exec, words_from, words, words_exec, strip_cr, lines_from, lines, lines_exec, starts_with, ends_with, matches_at, starts_with_exec, ends_with_exec, chars_eq, eq_lit, contains_char, extend_chars, extend_lit, replace_all, replace_exec, replace_lit, trim_end_char, trim_end_char_exec, strip_lead_char, count_lead_char, strip_lead_char_exec, join, join_exec, is_digit, digits_value, all_digits, int_body, parses_as_i64, lemma_digits_value_monotone, lemma_digits_value_nonneg, parses_as_i64_exec, nat_decimal, digit_char, int_decimal, u64_decimal, i64_decimal};

verus! {

broadcast use vstd::string::group_string_axioms;

// ---------------------------------------------------------------------------
// Comment stripping
// ---------------------------------------------------------------------------

/// Index of the first `*/` at or after `j` (or of the last character when there is none).
pub open spec fn block_comment_end(cs: Seq<char>, j: int) -> int
    decreases cs.len() - j,
{
    if 0 <= j && j + 1 < cs.len() && !(cs[j] == '*' && cs[j + 1] == '/') {
        block_comment_end(cs, j + 1)
    } else {
        j
    }
}

pub proof fn lemma_block_comment_end(cs: Seq<char>, j: int)
    requires
        0 <= j,
    ensures
        block_comment_end(cs, j) >= j,
    decreases cs.len() - j,
{
    if j + 1 < cs.len() && !(cs[j] == '*' && cs[j + 1] == '/') {
        lemma_block_comment_end(cs, j + 1);
    }
}

/// The text from index `i` on with `/* ... */` and `// ...` comments removed.
pub open spec fn strip_from(cs: Seq<char>, i: int) -> Seq<char>
    decreases cs.len() - i,
{
    if i < 0 || i >= cs.len() {
        seq![]
    } else if i + 1 < cs.len() && cs[i] == '/' && cs[i + 1] == '*' {
        proof {
            lemma_block_comment_end(cs, i + 2);
        }
        let e = block_comment_end(cs, i + 2);
        strip_from(cs, if e + 1 < cs.len() { e + 2 } else { cs.len() as int })
    } else if i + 1 < cs.len() && cs[i] == '/' && cs[i + 1] == '/' {
        proof {
            lemma_find_from_bounds(cs, '\n', i + 2);
        }
        strip_from(cs, find_from(cs, '\n', i + 2))
    } else {
        seq![cs[i]] + strip_from(cs, i + 1)
    }
}

/// C source without its comments.
pub open spec fn strip_comments_spec(cs: Seq<char>) -> Seq<char> {
    strip_from(cs, 0)
}

fn strip_comments_chars(chars: &[char]) -> (out: Vec<char>)
    ensures
        out@ == strip_comments_spec(chars@),
{
    let mut out: Vec<char> = Vec::new();
    let mut i: usize = 0;
    while i < chars.len()
        invariant
            out@ + strip_from(chars@, i as int) == strip_comments_spec(chars@),
        decreases chars@.len() - i,
    {
        if i + 1 < chars.len() && chars[i] == '/' && chars[i + 1] == '*' {
            let ghost start = i + 2;
            i = i + 2;
            while i < chars.len() && i + 1 < chars.len() && !(chars[i] == '*' && chars[i + 1] == '/')
                invariant
                    start <= i <= chars@.len(),
                    block_comment_end(chars@, i as int) == block_comment_end(chars@, start),
                decreases chars@.len() - i,
            {
                i = i + 1;
            }
            if i >= chars.len() || i + 1 >= chars.len() {
                i = chars.len();
            } else {
                i = i + 2;
            }
        } else if i + 1 < chars.len() && chars[i] == '/' && chars[i + 1] == '/' {
            i = i + 2;
            i = find_from_exec(chars, '\n', i);
        } else {
            let ghost old_out = out@;
            out.push(chars[i]);
            assert(out@ + strip_from(chars@, i + 1) =~= old_out + strip_from(chars@, i as int));
            i = i + 1;
        }
    }
    assert(strip_from(chars@, i as int) == Seq::<char>::empty());
    assert(out@ + Seq::<char>::empty() =~= out@);
    out
}

/// Strips C comments (`/* ... */` and `// ...`); a `//` comment ends before its newline.
pub fn strip_comments(input: &str) -> (r: String)
    ensures
        r@ == strip_comments_spec(input@),
{
    let chars = str_chars(input);
    let out = strip_comments_chars(chars.as_slice());
    string_of(out.as_slice())
}

/// Whether `s` holds the start of a comment, `/*` or `//`.
pub open spec fn has_comment_marker(s: Seq<char>) -> bool {
    exists|i: int| 0 <= i && i + 1 < s.len() && #[trigger] s[i] == '/' && (s[i + 1] == '*' || s[i + 1] == '/')
}

proof fn lemma_strip_from_no_marker(cs: Seq<char>, i: int)
    ensures
        !has_comment_marker(strip_from(cs, i)),
    decreases cs.len() - i,
{
    if i < 0 || i >= cs.len() {
    } else if i + 1 < cs.len() && cs[i] == '/' && cs[i + 1] == '*' {
        lemma_block_comment_end(cs, i + 2);
        let e = block_comment_end(cs, i + 2);
        lemma_strip_from_no_marker(cs, if e + 1 < cs.len() { e + 2 } else { cs.len() as int });
    } else if i + 1 < cs.len() && cs[i] == '/' && cs[i + 1] == '/' {
        lemma_find_from_bounds(cs, '\n', i + 2);
        lemma_strip_from_no_marker(cs, find_from(cs, '\n', i + 2));
    } else {
        lemma_strip_from_no_marker(cs, i + 1);
        let rest = strip_from(cs, i + 1);
        let out = strip_from(cs, i);
        assert(out == seq![cs[i]] + rest);
        if rest.len() > 0 && cs[i] == '/' {
            assert(i + 1 < cs.len());
            assert(cs[i + 1] != '/' && cs[i + 1] != '*');
            assert(rest == seq![cs[i + 1]] + strip_from(cs, i + 2));
        }
        assert forall|k: int| 0 <= k && k + 1 < out.len() && #[trigger] out[k] == '/' implies !(out[k + 1] == '*'
            || out[k + 1] == '/') by {
            if k > 0 {
                assert(out[k] == rest[k - 1] && out[k + 1] == rest[k]);
            }
        }
    }
}

proof fn lemma_strip_from_plain(s: Seq<char>, i: int)
    requires
        !has_comment_marker(s),
        0 <= i <= s.len(),
    ensures
        strip_from(s, i) == s.subrange(i, s.len() as int),
    decreases s.len() - i,
{
    if i < s.len() {
        if i + 1 < s.len() && s[i] == '/' {
            assert(!(s[i + 1] == '*' || s[i + 1] == '/'));
        }
        lemma_strip_from_plain(s, i + 1);
        assert(s.subrange(i, s.len() as int) =~= seq![s[i]] + s.subrange(i + 1, s.len() as int));
    } else {
        assert(s.subrange(i, s.len() as int) =~= Seq::<char>::empty());
    }
}

/// Stripping comments leaves no comment marker, so stripping again changes
/// nothing.
pub proof fn law_strip_comments_clean(cs: Seq<char>)
    ensures
        !has_comment_marker(strip_comments_spec(cs)),
        strip_comments_spec(strip_comments_spec(cs)) == strip_comments_spec(cs),
{
    lemma_strip_from_no_marker(cs, 0);
    let r = strip_comments_spec(cs);
    lemma_strip_from_plain(r, 0);
    assert(r.subrange(0, r.len() as int) =~= r);
}

} // verus!

verus! {

// ---------------------------------------------------------------------------
// C type mapping
// ---------------------------------------------------------------------------

/// Number of `*` characters in `s`.
pub open spec fn stars(s: Seq<char>) -> nat
    decreases s.len(),
{
    if s.len() == 0 {
        0
    } else {
        (if s[0] == '*' { 1nat } else { 0nat }) + stars(s.drop_first())
    }
}

pub proof fn lemma_stars_concat(a: Seq<char>, b: Seq<char>)
    ensures
        stars(a + b) == stars(a) + stars(b),
    decreases a.len(),
{
    if a.len() > 0 {
        assert((a + b).drop_first() =~= a.drop_first() + b);
        lemma_stars_concat(a.drop_first(), b);
    } else {
        assert(a + b =~= b);
    }
}

pub proof fn lemma_stars_subrange(s: Seq<char>, a: int, b: int)
    requires
        0 <= a <= b <= s.len(),
    ensures
        stars(s.subrange(a, b)) <= stars(s),
{
    let x = s.subrange(0, a);
    let y = s.subrange(a, b);
    let z = s.subrange(b, s.len() as int);
    assert(s =~= x + y + z);
    lemma_stars_concat(x + y, z);
    lemma_stars_concat(x, y);
}

pub proof fn lemma_stars_replace(s: Seq<char>, pat: Seq<char>, rep: Seq<char>)
    requires
        stars(pat) == 0,
        stars(rep) == 0,
    ensures
        stars(replace_all(s, pat, rep)) == stars(s),
    decreases s.len(),
{
    if pat.len() == 0 || s.len() == 0 {
    } else if starts_with(s, pat) {
        let rest = s.subrange(pat.len() as int, s.len() as int);
        lemma_stars_replace(rest, pat, rep);
        lemma_stars_concat(rep, replace_all(rest, pat, rep));
        assert(s =~= s.subrange(0, pat.len() as int) + rest);
        lemma_stars_concat(s.subrange(0, pat.len() as int), rest);
    } else {
        lemma_stars_replace(s.drop_first(), pat, rep);
        lemma_stars_concat(seq![s[0]], replace_all(s.drop_first(), pat, rep));
        assert(s =~= seq![s[0]] + s.drop_first());
        lemma_stars_concat(seq![s[0]], s.drop_first());
    }
}

pub proof fn lemma_stars_trim_end(s: Seq<char>)
    requires
        s.len() > 0,
        s.last() == '*',
    ensures
        stars(trim_end_char(s, '*')) < stars(s),
    decreases s.len(),
{
    assert(s =~= s.drop_last() + seq![s.last()]);
    lemma_stars_concat(s.drop_last(), seq![s.last()]);
    assert(stars(seq!['*']) == 1) by {
        assert(seq!['*'].drop_first() =~= Seq::<char>::empty());
        reveal_with_fuel(stars, 2);
    }
    let t = s.drop_last();
    assert(trim_end_char(s, '*') == trim_end_char(t, '*'));
    if t.len() > 0 && t.last() == '*' {
        lemma_stars_trim_end(t);
    }
}

pub proof fn lemma_stars_trim(s: Seq<char>)
    ensures
        stars(trim(s)) <= stars(s),
{
    let a = skip_ws(s, 0);
    lemma_skip_ws_bounds(s, 0);
    lemma_back_ws_bounds(s, a, s.len() as int);
    lemma_stars_subrange(s, a, back_ws(s, a, s.len() as int));
}

/// The C type text with the qualifier words removed (`unsigned` becomes `unsigned_`).
pub open spec fn clean_c_type(s: Seq<char>) -> Seq<char> {
    trim(
        replace_all(
            replace_all(replace_all(replace_all(s, "const"@, ""@), "struct"@, ""@), "enum"@, ""@),
            "unsigned"@,
            "unsigned_"@,
        ),
    )
}

pub proof fn lemma_literal_stars()
    ensures
        stars("const"@) == 0,
        stars(""@) == 0,
        stars("struct"@) == 0,
        stars("enum"@) == 0,
        stars("unsigned"@) == 0,
        stars("unsigned_"@) == 0,
{
    reveal_strlit("const");
    reveal_strlit("");
    reveal_strlit("struct");
    reveal_strlit("enum");
    reveal_strlit("unsigned");
    reveal_strlit("unsigned_");
    assert(stars("const"@) == 0) by { reveal_with_fuel(stars, 6); }
    assert(stars("struct"@) == 0) by { reveal_with_fuel(stars, 7); }
    assert(stars("enum"@) == 0) by { reveal_with_fuel(stars, 5); }
    assert(stars("unsigned"@) == 0) by { reveal_with_fuel(stars, 9); }
    assert(stars("unsigned_"@) == 0) by { reveal_with_fuel(stars, 10); }
}

pub proof fn lemma_clean_stars(s: Seq<char>)
    ensures
        stars(clean_c_type(s)) <= stars(s),
{
    lemma_literal_stars();
    let a = replace_all(s, "const"@, ""@);
    let b = replace_all(a, "struct"@, ""@);
    let c = replace_all(b, "enum"@, ""@);
    let d = replace_all(c, "unsigned"@, "unsigned_"@);
    lemma_stars_replace(s, "const"@, ""@);
    lemma_stars_replace(a, "struct"@, ""@);
    lemma_stars_replace(b, "enum"@, ""@);
    lemma_stars_replace(c, "unsigned"@, "unsigned_"@);
    lemma_stars_trim(d);
}

/// The pointee of a cleaned pointer type text.
pub open spec fn pointee_text(clean: Seq<char>) -> Seq<char> {
    trim(trim_end_char(clean, '*'))
}

pub proof fn lemma_pointee_stars(c: Seq<char>)
    requires
        ends_with(clean_c_type(trim(c)), seq!['*']),
    ensures
        stars(pointee_text(clean_c_type(trim(c)))) < stars(c),
{
    let clean = clean_c_type(trim(c));
    assert(clean.last() == '*') by {
        assert(clean.subrange(clean.len() - 1, clean.len() as int)[0] == seq!['*'][0]);
    }
    lemma_stars_trim_end(clean);
    lemma_stars_trim(trim_end_char(clean, '*'));
    lemma_clean_stars(trim(c));
    lemma_stars_trim(c);
}

/// The Tungsten spelling of a (cleaned, non-pointer) C scalar type.
pub open spec fn scalar_type(clean: Seq<char>) -> Seq<char> {
    if clean == "void"@ {
        "()"@
    } else if clean == "char"@ || clean == "int8_t"@ || clean == "unsigned_ char"@ || clean
        == "uint8_t"@ || clean == "unsigned_char"@ {
        "u8"@
    } else if clean == "short"@ || clean == "int16_t"@ || clean == "short int"@ {
        "i16"@
    } else if clean == "unsigned_ short"@ || clean == "uint16_t"@ || clean == "unsigned_short"@ {
        "u16"@
    } else if clean == "int"@ || clean == "int32_t"@ {
        "i32"@
    } else if clean == "unsigned_ int"@ || clean == "uint32_t"@ || clean == "unsigned_"@ || clean
        == "unsigned_int"@ {
        "u32"@
    } else if clean == "long"@ || clean == "long int"@ || clean == "long long"@ || clean
        == "int64_t"@ {
        "i64"@
    } else if clean == "unsigned_ long"@ || clean == "unsigned_ long long"@ || clean == "uint64_t"@
        || clean == "size_t"@ || clean == "uintptr_t"@ || clean == "unsigned_long"@ {
        "usize"@
    } else if clean == "bool"@ || clean == "_Bool"@ {
        "bool"@
    } else if clean.len() == 0 {
        "u8"@
    } else {
        clean
    }
}

/// `map_c_type`: the Tungsten type for a C type. Pointers become `*const T` when the
/// trimmed C type begins with `const ` or ends with ` const`, and `*mut T` otherwise; a
/// pointer to `void` (or to nothing) points to `u8`.
pub open spec fn map_c_type_spec(c: Seq<char>) -> Seq<char>
    decreases stars(c),
{
    let s = trim(c);
    let is_const = starts_with(s, "const "@) || ends_with(s, " const"@);
    let clean = clean_c_type(s);
    if ends_with(clean, seq!['*']) {
        let base = pointee_text(clean);
        let inner = if base.len() == 0 || base == "void"@ {
            "u8"@
        } else {
            proof {
                lemma_pointee_stars(c);
            }
            map_c_type_spec(base)
        };
        if is_const {
            "*const "@ + inner
        } else {
            "*mut "@ + inner
        }
    } else {
        scalar_type(clean)
    }
}

fn is_any(s: &[char], a: &str, b: &str, c: &str, d: &str, e: &str, f: &str) -> (r: bool)
    ensures
        r == (s@ == a@ || s@ == b@ || s@ == c@ || s@ == d@ || s@ == e@ || s@ == f@),
{
    eq_lit(s, a) || eq_lit(s, b) || eq_lit(s, c) || eq_lit(s, d) || eq_lit(s, e) || eq_lit(s, f)
}

fn scalar_type_exec(clean: &[char]) -> (r: Vec<char>)
    ensures
        r@ == scalar_type(clean@),
{
    let mut r: Vec<char> = Vec::new();
    if eq_lit(clean, "void") {
        extend_lit(&mut r, "()");
    } else if is_any(clean, "char", "int8_t", "unsigned_ char", "uint8_t", "unsigned_char", "char") {
        extend_lit(&mut r, "u8");
    } else if is_any(clean, "short", "int16_t", "short int", "short", "short", "short") {
        extend_lit(&mut r, "i16");
    } else if is_any(clean, "unsigned_ short", "uint16_t", "unsigned_short", "uint16_t", "uint16_t", "uint16_t") {
        extend_lit(&mut r, "u16");
    } else if is_any(clean, "int", "int32_t", "int", "int", "int", "int") {
        extend_lit(&mut r, "i32");
    } else if is_any(clean, "unsigned_ int", "uint32_t", "unsigned_", "unsigned_int", "uint32_t", "uint32_t") {
        extend_lit(&mut r, "u32");
    } else if is_any(clean, "long", "long int", "long long", "int64_t", "long", "long") {
        extend_lit(&mut r, "i64");
    } else if is_any(clean, "unsigned_ long", "unsigned_ long long", "uint64_t", "size_t", "uintptr_t", "unsigned_long") {
        extend_lit(&mut r, "usize");
    } else if is_any(clean, "bool", "_Bool", "bool", "bool", "bool", "bool") {
        extend_lit(&mut r, "bool");
    } else if clean.len() == 0 {
        extend_lit(&mut r, "u8");
    } else {
        extend_chars(&mut r, clean);
    }
    r
}

fn clean_c_type_exec(s: &[char]) -> (r: Vec<char>)
    ensures
        r@ == clean_c_type(s@),
{
    proof {
        reveal_strlit("const");
        reveal_strlit("struct");
        reveal_strlit("enum");
        reveal_strlit("unsigned");
    }
    let a = replace_lit(s, "const", "");
    let b = replace_lit(a.as_slice(), "struct", "");
    let c = replace_lit(b.as_slice(), "enum", "");
    let d = replace_lit(c.as_slice(), "unsigned", "unsigned_");
    trim_exec(d.as_slice())
}

fn map_c_type_chars(c: &[char]) -> (r: Vec<char>)
    ensures
        r@ == map_c_type_spec(c@),
    decreases stars(c@),
{
    let s = trim_exec(c);
    let sw = str_chars("const ");
    let ew = str_chars(" const");
    let is_const = starts_with_exec(s.as_slice(), sw.as_slice()) || ends_with_exec(
        s.as_slice(),
        ew.as_slice(),
    );
    let clean = clean_c_type_exec(s.as_slice());
    let mut star: Vec<char> = Vec::new();
    star.push('*');
    if ends_with_exec(clean.as_slice(), star.as_slice()) {
        assert(star@ =~= seq!['*']);
        let stripped = trim_end_char_exec(clean.as_slice(), '*');
        let base = trim_exec(stripped.as_slice());
        let inner = if base.len() == 0 || eq_lit(base.as_slice(), "void") {
            let mut u: Vec<char> = Vec::new();
            extend_lit(&mut u, "u8");
            u
        } else {
            proof {
                lemma_pointee_stars(c@);
            }
            map_c_type_chars(base.as_slice())
        };
        let mut r: Vec<char> = Vec::new();
        if is_const {
            extend_lit(&mut r, "*const ");
        } else {
            extend_lit(&mut r, "*mut ");
        }
        extend_chars(&mut r, inner.as_slice());
        r
    } else {
        assert(star@ =~= seq!['*']);
        scalar_type_exec(clean.as_slice())
    }
}

/// Maps a C type string to a Tungsten type string.
pub fn map_c_type(c_ty: &str) -> (r: String)
    ensures
        r@ == map_c_type_spec(c_ty@),
{
    let c = str_chars(c_ty);
    let r = map_c_type_chars(c.as_slice());
    string_of(r.as_slice())
}

} // verus!

verus! {

// ---------------------------------------------------------------------------
// Parsed declarations
// ---------------------------------------------------------------------------

/// Information about a parsed C struct.
#[derive(Debug, PartialEq)]
pub struct CStruct {
    pub name: String,
    pub fields: Vec<(String, String)>,
}

/// Information about a parsed C function declaration.
#[derive(Debug, PartialEq)]
pub struct CFn {
    pub name: String,
    pub params: Vec<(String, String)>,
    pub ret_ty: String,
}

/// Information about a parsed `#define` constant.
#[derive(Debug, PartialEq)]
pub struct CDefine {
    pub name: String,
    pub value: String,
    pub is_str: bool,
}

/// A name and a type, as text.
pub type PairV = (Seq<char>, Seq<char>);

pub open spec fn pairs_view(v: Seq<(String, String)>) -> Seq<PairV> {
    v.map_values(|p: (String, String)| (p.0@, p.1@))
}

impl View for CStruct {
    type V = (Seq<char>, Seq<PairV>);

    open spec fn view(&self) -> Self::V {
        (self.name@, pairs_view(self.fields@))
    }
}

impl View for CFn {
    type V = (Seq<char>, Seq<PairV>, Seq<char>);

    open spec fn view(&self) -> Self::V {
        (self.name@, pairs_view(self.params@), self.ret_ty@)
    }
}

impl View for CDefine {
    type V = (Seq<char>, Seq<char>, bool);

    open spec fn view(&self) -> Self::V {
        (self.name@, self.value@, self.is_str)
    }
}

pub open spec fn structs_view(v: Seq<CStruct>) -> Seq<(Seq<char>, Seq<PairV>)> {
    v.map_values(|s: CStruct| s@)
}

pub open spec fn fns_view(v: Seq<CFn>) -> Seq<(Seq<char>, Seq<PairV>, Seq<char>)> {
    v.map_values(|f: CFn| f@)
}

pub open spec fn defines_view(v: Seq<CDefine>) -> Seq<(Seq<char>, Seq<char>, bool)> {
    v.map_values(|d: CDefine| d@)
}

// ---------------------------------------------------------------------------
// #define constants
// ---------------------------------------------------------------------------

/// The constant a `#define NAME VALUE...` line declares: a quoted string, or an integer
/// that `i64` can hold. Other lines declare nothing.
pub open spec fn define_of_line(line: Seq<char>) -> Option<(Seq<char>, Seq<char>, bool)> {
    let t = trim(line);
    if !starts_with(t, "#define"@) {
        None
    } else {
        let parts = words(t);
        if parts.len() < 3 {
            None
        } else {
            let val = join(parts.subrange(2, parts.len() as int), " "@);
            if starts_with(val, seq!['"']) && ends_with(val, seq!['"']) {
                Some((parts[1], val, true))
            } else if parses_as_i64(val) {
                Some((parts[1], val, false))
            } else {
                None
            }
        }
    }
}

/// The constants declared by a sequence of lines, in order.
pub open spec fn defines_of(ls: Seq<Seq<char>>) -> Seq<(Seq<char>, Seq<char>, bool)>
    decreases ls.len(),
{
    if ls.len() == 0 {
        seq![]
    } else {
        defines_of(ls.drop_last()) + match define_of_line(ls.last()) {
            Some(d) => seq![d],
            None => seq![],
        }
    }
}

fn dq() -> (r: Vec<char>)
    ensures
        r@ == seq!['"'],
{
    let mut r: Vec<char> = Vec::new();
    r.push('"');
    r
}

fn define_of_line_exec(line: &[char]) -> (r: Option<CDefine>)
    ensures
        match r {
            Some(d) => define_of_line(line@) == Some(d@),
            None => define_of_line(line@) is None,
        },
{
    let t = trim_exec(line);
    let kw = str_chars("#define");
    if !starts_with_exec(t.as_slice(), kw.as_slice()) {
        return None;
    }
    let parts = words_exec(t.as_slice());
    if parts.len() < 3 {
        return None;
    }
    let mut rest: Vec<Vec<char>> = Vec::new();
    let mut k: usize = 2;
    while k < parts.len()
        invariant
            2 <= k <= parts@.len(),
            dv(rest@) == dv(parts@).subrange(2, k as int),
        decreases parts@.len() - k,
    {
        let ghost before = rest@;
        rest.push(parts[k].clone());
        assert(dv(rest@) =~= dv(before) + seq![parts@[k as int]@]);
        assert(dv(parts@).subrange(2, k + 1) =~= dv(parts@).subrange(2, k as int) + seq![parts@[k as int]@]);
        k = k + 1;
    }
    let sp = str_chars(" ");
    let val = join_exec(rest.as_slice(), sp.as_slice());
    let q = dq();
    let name = string_of(parts[1].as_slice());
    assert(dv(parts@)[1] == parts@[1]@);
    if starts_with_exec(val.as_slice(), q.as_slice()) && ends_with_exec(val.as_slice(), q.as_slice()) {
        Some(CDefine { name, value: string_of(val.as_slice()), is_str: true })
    } else if parses_as_i64_exec(val.as_slice()) {
        Some(CDefine { name, value: string_of(val.as_slice()), is_str: false })
    } else {
        None
    }
}

fn collect_defines(ls: &Vec<Vec<char>>) -> (r: Vec<CDefine>)
    ensures
        defines_view(r@) == defines_of(dv(ls@)),
{
    let mut r: Vec<CDefine> = Vec::new();
    let mut k: usize = 0;
    while k < ls.len()
        invariant
            k <= ls@.len(),
            defines_view(r@) == defines_of(dv(ls@).subrange(0, k as int)),
        decreases ls@.len() - k,
    {
        let ghost before = r@;
        let d = define_of_line_exec(ls[k].as_slice());
        proof {
            assert(dv(ls@).subrange(0, k + 1).drop_last() =~= dv(ls@).subrange(0, k as int));
            assert(dv(ls@).subrange(0, k + 1).last() == ls@[k as int]@);
        }
        match d {
            Some(d) => {
                r.push(d);
                assert(defines_view(r@) =~= defines_view(before) + seq![d@]);
            },
            None => {
                assert(defines_view(r@) =~= defines_view(before) + Seq::<(Seq<char>, Seq<char>, bool)>::empty());
            },
        }
        k = k + 1;
    }
    assert(dv(ls@).subrange(0, ls@.len() as int) =~= dv(ls@));
    r
}

} // verus!

verus! {

// ---------------------------------------------------------------------------
// Struct declarations
// ---------------------------------------------------------------------------

/// Index of the first occurrence of `sub` at or after `i`, or `-1`.
pub open spec fn find_sub_from(cs: Seq<char>, i: int, sub: Seq<char>) -> int
    decreases cs.len() + 1 - i,
{
    if i < 0 || i + sub.len() > cs.len() {
        -1
    } else if cs.subrange(i, i + sub.len()) == sub {
        i
    } else {
        find_sub_from(cs, i + 1, sub)
    }
}

pub proof fn lemma_find_sub_from(cs: Seq<char>, i: int, sub: Seq<char>)
    requires
        0 <= i,
    ensures
        find_sub_from(cs, i, sub) == -1 || (i <= find_sub_from(cs, i, sub) && find_sub_from(cs, i, sub) + sub.len() <= cs.len()),
    decreases cs.len() + 1 - i,
{
    if i + sub.len() <= cs.len() && cs.subrange(i, i + sub.len()) != sub {
        lemma_find_sub_from(cs, i + 1, sub);
    }
}

fn find_sub_exec(cs: &[char], start: usize, sub: &[char]) -> (r: Option<usize>)
    requires
        sub@.len() > 0,
    ensures
        match r {
            Some(p) => p as int == find_sub_from(cs@, start as int, sub@),
            None => find_sub_from(cs@, start as int, sub@) == -1,
        },
{
    if sub.len() > cs.len() {
        return None;
    }
    let mut i = start;
    while i <= cs.len() - sub.len()
        invariant
            start <= i,
            sub@.len() > 0,
            sub@.len() <= cs@.len(),
            find_sub_from(cs@, i as int, sub@) == find_sub_from(cs@, start as int, sub@),
        decreases cs@.len() - i,
    {
        if matches_at(cs, i, sub) {
            assert(cs@.subrange(i as int, cs@.len() as int).subrange(0, sub@.len() as int) =~= cs@.subrange(
                i as int,
                i + sub@.len(),
            ));
            return Some(i);
        }
        assert(cs@.subrange(i as int, cs@.len() as int).subrange(0, sub@.len() as int) =~= cs@.subrange(
            i as int,
            i + sub@.len(),
        ));
        i = i + 1;
    }
    None
}

/// `n` copies of the text `"*"`.
pub open spec fn star_words(n: nat) -> Seq<Seq<char>> {
    Seq::new(n, |i: int| seq!['*'])
}

/// A declarator split into its name and its type words: leading `*`s of the last word move
/// to the type.
pub open spec fn name_and_type(parts: Seq<Seq<char>>) -> (Seq<char>, Seq<char>) {
    let raw = parts.last();
    let type_words = parts.drop_last() + star_words(count_lead_char(raw, '*'));
    (strip_lead_char(raw, '*'), join(type_words, " "@))
}

/// The field a struct member statement declares (`type name`), mapped to Tungsten.
pub open spec fn field_of_stmt(stmt: Seq<char>) -> Option<PairV> {
    let f = trim(stmt);
    let parts = words(f);
    if f.len() == 0 || parts.len() < 2 {
        None
    } else {
        let nt = name_and_type(parts);
        Some((nt.0, map_c_type_spec(nt.1)))
    }
}

pub open spec fn fields_upto(stmts: Seq<Seq<char>>) -> Seq<PairV>
    decreases stmts.len(),
{
    if stmts.len() == 0 {
        seq![]
    } else {
        fields_upto(stmts.drop_last()) + match field_of_stmt(stmts.last()) {
            Some(f) => seq![f],
            None => seq![],
        }
    }
}

/// The fields of a struct body: its `;`-separated member statements.
pub open spec fn fields_of(body: Seq<char>) -> Seq<PairV> {
    fields_upto(split_char(body, ';'))
}

fn name_and_type_exec(parts: &Vec<Vec<char>>) -> (r: (Vec<char>, Vec<char>))
    requires
        parts@.len() >= 1,
    ensures
        (r.0@, r.1@) == name_and_type(dv(parts@)),
{
    let last = parts.len() - 1;
    let (name, n) = strip_lead_char_exec(parts[last].as_slice(), '*');
    let mut tw: Vec<Vec<char>> = Vec::new();
    let mut k: usize = 0;
    while k < last
        invariant
            k <= last,
            last == parts@.len() - 1,
            dv(tw@) == dv(parts@).subrange(0, k as int),
        decreases last - k,
    {
        let ghost before = tw@;
        tw.push(parts[k].clone());
        assert(dv(tw@) =~= dv(before) + seq![parts@[k as int]@]);
        assert(dv(parts@).subrange(0, k + 1) =~= dv(parts@).subrange(0, k as int) + seq![parts@[k as int]@]);
        k = k + 1;
    }
    let mut j: usize = 0;
    while j < n
        invariant
            j <= n,
            dv(tw@) == dv(parts@).drop_last() + star_words(j as nat),
        decreases n - j,
    {
        let ghost before = tw@;
        let mut st: Vec<char> = Vec::new();
        st.push('*');
        tw.push(st);
        assert(dv(tw@) =~= dv(before) + seq![seq!['*']]);
        assert(star_words((j + 1) as nat) =~= star_words(j as nat) + seq![seq!['*']]);
        j = j + 1;
    }
    let sp = str_chars(" ");
    let ty = join_exec(tw.as_slice(), sp.as_slice());
    assert(dv(parts@).last() == parts@[last as int]@);
    (name, ty)
}

fn field_of_stmt_exec(stmt: &[char]) -> (r: Option<(String, String)>)
    ensures
        match r {
            Some(p) => field_of_stmt(stmt@) == Some((p.0@, p.1@)),
            None => field_of_stmt(stmt@) is None,
        },
{
    let f = trim_exec(stmt);
    let parts = words_exec(f.as_slice());
    if f.len() == 0 || parts.len() < 2 {
        return None;
    }
    let (name, ty) = name_and_type_exec(&parts);
    let mapped = map_c_type_chars(ty.as_slice());
    Some((string_of(name.as_slice()), string_of(mapped.as_slice())))
}

fn fields_of_exec(body: &[char]) -> (r: Vec<(String, String)>)
    ensures
        pairs_view(r@) == fields_of(body@),
{
    let stmts = split_char_exec(body, ';');
    let mut r: Vec<(String, String)> = Vec::new();
    let mut k: usize = 0;
    while k < stmts.len()
        invariant
            k <= stmts@.len(),
            pairs_view(r@) == fields_upto(dv(stmts@).subrange(0, k as int)),
        decreases stmts@.len() - k,
    {
        let ghost before = r@;
        let f = field_of_stmt_exec(stmts[k].as_slice());
        proof {
            assert(dv(stmts@).subrange(0, k + 1).drop_last() =~= dv(stmts@).subrange(0, k as int));
            assert(dv(stmts@).subrange(0, k + 1).last() == stmts@[k as int]@);
        }
        match f {
            Some(p) => {
                r.push(p);
                assert(pairs_view(r@) =~= pairs_view(before) + seq![(p.0@, p.1@)]);
            },
            None => {
                assert(pairs_view(r@) =~= pairs_view(before) + Seq::<PairV>::empty());
            },
        }
        k = k + 1;
    }
    assert(dv(stmts@).subrange(0, stmts@.len() as int) =~= dv(stmts@));
    r
}

} // verus!

verus! {

pub type StructV = (Seq<char>, Seq<PairV>);

/// The structs declared from `cursor` on, read as `struct Name { ... };` or
/// `typedef struct { ... } Name;`; a forward declaration `struct Name;` is passed over.
/// `None` when a struct body closes without a `;` after it: the name after the body
/// cannot be cut out then, and no bindings are made.
pub open spec fn struct_scan(cs: Seq<char>, cursor: int) -> Option<Seq<StructV>>
    decreases cs.len() - cursor,
{
    if cursor < 0 || cursor >= cs.len() {
        Some(seq![])
    } else {
        let pos = find_sub_from(cs, cursor, "struct "@);
        if pos < 0 {
            Some(seq![])
        } else {
            let start = pos + 7;
            let brace = find_from(cs, '{', start);
            let semi = find_from(cs, ';', start);
            proof {
                reveal_strlit("struct ");
                lemma_find_sub_from(cs, cursor, "struct "@);
                lemma_find_from_bounds(cs, ';', start);
                lemma_find_from_bounds(cs, '{', start);
            }
            if brace >= cs.len() {
                Some(seq![])
            } else if semi < cs.len() && semi < brace {
                struct_scan(cs, semi + 1)
            } else {
                let name = trim(cs.subrange(start, brace));
                let close = find_from(cs, '}', brace + 1);
                if close >= cs.len() {
                    Some(seq![])
                } else {
                    let end = find_from(cs, ';', close);
                    proof {
                        lemma_find_from_bounds(cs, '}', brace + 1);
                        lemma_find_from_bounds(cs, ';', close);
                    }
                    if end >= cs.len() {
                        None
                    } else {
                        let body = cs.subrange(brace + 1, close);
                        let after = trim(cs.subrange(close + 1, end));
                        let final_name = if name.len() > 0 {
                            name
                        } else {
                            after
                        };
                        let entry: Seq<StructV> = if final_name.len() > 0 {
                            seq![(final_name, fields_of(body))]
                        } else {
                            seq![]
                        };
                        match struct_scan(cs, end + 1) {
                            Some(rest) => Some(entry + rest),
                            None => None,
                        }
                    }
                }
            }
        }
    }
}

/// The structs of comment-free C source (as `struct_scan` from the start), or `None` when
/// the source cannot be scanned: text of 1 to 6 characters (shorter than the search for
/// `struct ` reads), or a struct body with no `;` after it.
pub open spec fn structs_of(cs: Seq<char>) -> Option<Seq<StructV>> {
    if 0 < cs.len() < 7 {
        None
    } else {
        struct_scan(cs, 0)
    }
}

fn struct_scan_exec(cs: &[char]) -> (r: Option<Vec<CStruct>>)
    ensures
        match r {
            Some(v) => structs_of(cs@) == Some(structs_view(v@)),
            None => structs_of(cs@) is None,
        },
{
    if cs.len() > 0 && cs.len() < 7 {
        return None;
    }
    let kw = str_chars("struct ");
    proof {
        reveal_strlit("struct ");
    }
    assert(kw@.len() == 7);
    let mut out: Vec<CStruct> = Vec::new();
    let mut cursor: usize = 0;
    while cursor < cs.len()
        invariant
            cursor <= cs@.len(),
            kw@ == "struct "@,
            kw@.len() == 7,
            !(0 < cs@.len() < 7),
            ({
                let full = struct_scan(cs@, 0);
                match struct_scan(cs@, cursor as int) {
                    Some(rest) => full == Some(structs_view(out@) + rest),
                    None => full is None,
                }
            }),
        decreases cs@.len() - cursor,
    {
        let pos = match find_sub_exec(cs, cursor, kw.as_slice()) {
            Some(p) => p,
            None => {
                assert(structs_view(out@) + Seq::<StructV>::empty() =~= structs_view(out@));
                return Some(out);
            },
        };
        proof {
            lemma_find_sub_from(cs@, cursor as int, kw@);
        }
        let start = pos + 7;
        let brace = find_from_exec(cs, '{', start);
        if brace >= cs.len() {
            assert(structs_view(out@) + Seq::<StructV>::empty() =~= structs_view(out@));
            return Some(out);
        }
        let semi = find_from_exec(cs, ';', start);
        if semi < cs.len() && semi < brace {
            cursor = semi + 1;
            continue;
        }
        let name = trim_exec(sub_vec(cs, start, brace).as_slice());
        let close = find_from_exec(cs, '}', brace + 1);
        if close >= cs.len() {
            assert(structs_view(out@) + Seq::<StructV>::empty() =~= structs_view(out@));
            return Some(out);
        }
        let end = find_from_exec(cs, ';', close);
        proof {
            lemma_find_from_bounds(cs@, '}', brace + 1);
            lemma_find_from_bounds(cs@, ';', close as int);
            assert(cs@[close as int] == '}');
            assert(end > close);
        }
        if end >= cs.len() {
            return None;
        }
        let after = trim_exec(sub_vec(cs, close + 1, end).as_slice());
        let final_name = if name.len() > 0 {
            name
        } else {
            after
        };
        if final_name.len() > 0 {
            let body = sub_vec(cs, brace + 1, close);
            let fields = fields_of_exec(body.as_slice());
            let ghost before = out@;
            out.push(CStruct { name: string_of(final_name.as_slice()), fields });
            assert(structs_view(out@) =~= structs_view(before) + seq![(final_name@, fields_of(body@))]);
        }
        proof {
            let e: Seq<StructV> = if final_name@.len() > 0 {
                seq![(final_name@, fields_of(cs@.subrange(brace + 1, close as int)))]
            } else {
                seq![]
            };
            match struct_scan(cs@, end + 1) {
                Some(rest) => {
                    assert(struct_scan(cs@, cursor as int) == Some(e + rest));
                },
                None => {},
            }
        }
        cursor = end + 1;
    }
    assert(struct_scan(cs@, cursor as int) == Some(Seq::<StructV>::empty()));
    assert(structs_view(out@) + Seq::<StructV>::empty() =~= structs_view(out@));
    Some(out)
}

} // verus!

verus! {

// ---------------------------------------------------------------------------
// Function declarations
// ---------------------------------------------------------------------------

pub type FnV = (Seq<char>, Seq<PairV>, Seq<char>);

/// The lines of a declaration chunk that are not preprocessor directives.
pub open spec fn code_lines(ls: Seq<Seq<char>>) -> Seq<Seq<char>>
    decreases ls.len(),
{
    if ls.len() == 0 {
        seq![]
    } else {
        code_lines(ls.drop_last()) + if starts_with(trim(ls.last()), "#"@) {
            Seq::<Seq<char>>::empty()
        } else {
            seq![ls.last()]
        }
    }
}

/// A `;`-separated chunk with its preprocessor lines removed.
pub open spec fn without_directives(chunk: Seq<char>) -> Seq<char> {
    join(code_lines(split_char(chunk, '\n')), "\n"@)
}

/// Index of the last `c` in `s[..n]`, or `-1`.
pub open spec fn rfind_upto(s: Seq<char>, c: char, n: int) -> int
    decreases n,
{
    if n <= 0 || n > s.len() {
        -1
    } else if s[n - 1] == c {
        n - 1
    } else {
        rfind_upto(s, c, n - 1)
    }
}

/// Calling-convention and linkage words that a declaration's prefix may carry.
pub open spec fn is_decl_keyword(w: Seq<char>) -> bool {
    w == "extern"@ || w == "__cdecl"@ || w == "__stdcall"@ || w == "WINAPI"@ || w == "APIENTRY"@
}

pub open spec fn drop_keywords(ws: Seq<Seq<char>>) -> Seq<Seq<char>>
    decreases ws.len(),
{
    if ws.len() == 0 {
        seq![]
    } else {
        drop_keywords(ws.drop_last()) + if is_decl_keyword(ws.last()) {
            Seq::<Seq<char>>::empty()
        } else {
            seq![ws.last()]
        }
    }
}

/// The parameter a C parameter text declares, at position `idx`; an unnamed parameter is
/// called `arg{idx}`; `void`, `...` and empty texts declare none.
pub open spec fn param_of(p: Seq<char>, idx: nat) -> Option<PairV> {
    let t = trim(p);
    let parts = words(t);
    if t.len() == 0 || t == "void"@ || t == "..."@ || parts.len() == 0 {
        None
    } else if parts.len() == 1 {
        Some(("arg"@ + nat_decimal(idx), map_c_type_spec(parts[0])))
    } else {
        let nt = name_and_type(parts);
        Some((nt.0, map_c_type_spec(nt.1)))
    }
}

pub open spec fn params_upto(ps: Seq<Seq<char>>, n: int) -> Seq<PairV>
    decreases n,
{
    if n <= 0 || n > ps.len() {
        seq![]
    } else {
        params_upto(ps, n - 1) + match param_of(ps[n - 1], (n - 1) as nat) {
            Some(p) => seq![p],
            None => seq![],
        }
    }
}

/// The parameters of a parameter list text.
pub open spec fn params_of(params: Seq<char>) -> Seq<PairV> {
    if params.len() == 0 || params == "void"@ {
        seq![]
    } else {
        let ps = split_char(params, ',');
        params_upto(ps, ps.len() as int)
    }
}

/// The function a `;`-separated chunk declares: `[modifiers] ret name(params)`.
/// Preprocessor lines inside the chunk are dropped first, so that the first
/// declaration after a run of `#define` lines (which end with no `;`) is
/// still bound.
pub open spec fn fn_of_chunk(chunk: Seq<char>) -> Option<FnV> {
    let d = trim(without_directives(chunk));
    if d.len() == 0 || starts_with(d, "#"@) || d.contains('{') || d.contains('}') {
        None
    } else {
        let open = find_from(d, '(', 0);
        let close = rfind_upto(d, ')', d.len() as int);
        if open >= d.len() || close < 0 || close <= open {
            None
        } else {
            let pre = trim(d.subrange(0, open));
            let params = trim(d.subrange(open + 1, close));
            let pre_parts = drop_keywords(words(pre));
            if pre_parts.len() == 0 {
                None
            } else {
                let nt = name_and_type(pre_parts);
                if nt.0.len() == 0 {
                    None
                } else {
                    Some((nt.0, params_of(params), map_c_type_spec(nt.1)))
                }
            }
        }
    }
}

pub open spec fn fns_upto(chunks: Seq<Seq<char>>) -> Seq<FnV>
    decreases chunks.len(),
{
    if chunks.len() == 0 {
        seq![]
    } else {
        fns_upto(chunks.drop_last()) + match fn_of_chunk(chunks.last()) {
            Some(f) => seq![f],
            None => seq![],
        }
    }
}

/// The functions declared in comment-free C source: its `;`-separated declarations.
pub open spec fn fns_of(cs: Seq<char>) -> Seq<FnV> {
    fns_upto(split_char(cs, ';'))
}

fn without_directives_exec(chunk: &[char]) -> (r: Vec<char>)
    ensures
        r@ == without_directives(chunk@),
{
    let ls = split_char_exec(chunk, '\n');
    let hash = str_chars("#");
    let mut keep: Vec<Vec<char>> = Vec::new();
    let mut k: usize = 0;
    while k < ls.len()
        invariant
            k <= ls@.len(),
            hash@ == "#"@,
            dv(keep@) == code_lines(dv(ls@).subrange(0, k as int)),
        decreases ls@.len() - k,
    {
        let ghost before = keep@;
        proof {
            assert(dv(ls@).subrange(0, k + 1).drop_last() =~= dv(ls@).subrange(0, k as int));
            assert(dv(ls@).subrange(0, k + 1).last() == ls@[k as int]@);
        }
        let t = trim_exec(ls[k].as_slice());
        if !starts_with_exec(t.as_slice(), hash.as_slice()) {
            keep.push(ls[k].clone());
            assert(dv(keep@) =~= dv(before) + seq![ls@[k as int]@]);
        } else {
            assert(dv(keep@) =~= dv(before) + Seq::<Seq<char>>::empty());
        }
        k = k + 1;
    }
    assert(dv(ls@).subrange(0, ls@.len() as int) =~= dv(ls@));
    let nl = str_chars("\n");
    join_exec(keep.as_slice(), nl.as_slice())
}

fn rfind_exec(s: &[char], c: char) -> (r: Option<usize>)
    ensures
        match r {
            Some(i) => i as int == rfind_upto(s@, c, s@.len() as int) && i < s@.len(),
            None => rfind_upto(s@, c, s@.len() as int) == -1,
        },
{
    let mut n = s.len();
    while n > 0
        invariant
            n <= s@.len(),
            rfind_upto(s@, c, n as int) == rfind_upto(s@, c, s@.len() as int),
        decreases n,
    {
        if s[n - 1] == c {
            return Some(n - 1);
        }
        n = n - 1;
    }
    None
}

fn drop_keywords_exec(ws: &Vec<Vec<char>>) -> (r: Vec<Vec<char>>)
    ensures
        dv(r@) == drop_keywords(dv(ws@)),
{
    let mut r: Vec<Vec<char>> = Vec::new();
    let mut k: usize = 0;
    while k < ws.len()
        invariant
            k <= ws@.len(),
            dv(r@) == drop_keywords(dv(ws@).subrange(0, k as int)),
        decreases ws@.len() - k,
    {
        let ghost before = r@;
        proof {
            assert(dv(ws@).subrange(0, k + 1).drop_last() =~= dv(ws@).subrange(0, k as int));
            assert(dv(ws@).subrange(0, k + 1).last() == ws@[k as int]@);
        }
        let w = ws[k].as_slice();
        let kw = eq_lit(w, "extern") || eq_lit(w, "__cdecl") || eq_lit(w, "__stdcall") || eq_lit(
            w,
            "WINAPI",
        ) || eq_lit(w, "APIENTRY");
        if !kw {
            r.push(ws[k].clone());
            assert(dv(r@) =~= dv(before) + seq![ws@[k as int]@]);
        } else {
            assert(dv(r@) =~= dv(before) + Seq::<Seq<char>>::empty());
        }
        k = k + 1;
    }
    assert(dv(ws@).subrange(0, ws@.len() as int) =~= dv(ws@));
    r
}

fn param_of_exec(p: &[char], idx: usize) -> (r: Option<(String, String)>)
    ensures
        match r {
            Some(q) => param_of(p@, idx as nat) == Some((q.0@, q.1@)),
            None => param_of(p@, idx as nat) is None,
        },
{
    let t = trim_exec(p);
    let parts = words_exec(t.as_slice());
    if t.len() == 0 || eq_lit(t.as_slice(), "void") || eq_lit(t.as_slice(), "...") || parts.len() == 0 {
        return None;
    }
    if parts.len() == 1 {
        let mut name: Vec<char> = Vec::new();
        extend_lit(&mut name, "arg");
        let d = u64_decimal(idx as u64);
        extend_chars(&mut name, d.as_slice());
        let ty = map_c_type_chars(parts[0].as_slice());
        assert(dv(parts@)[0] == parts@[0]@);
        return Some((string_of(name.as_slice()), string_of(ty.as_slice())));
    }
    let (name, ty) = name_and_type_exec(&parts);
    let mapped = map_c_type_chars(ty.as_slice());
    Some((string_of(name.as_slice()), string_of(mapped.as_slice())))
}

fn params_of_exec(params: &[char]) -> (r: Vec<(String, String)>)
    ensures
        pairs_view(r@) == params_of(params@),
{
    let mut r: Vec<(String, String)> = Vec::new();
    if params.len() == 0 || eq_lit(params, "void") {
        return r;
    }
    let ps = split_char_exec(params, ',');
    let mut k: usize = 0;
    while k < ps.len()
        invariant
            k <= ps@.len(),
            pairs_view(r@) == params_upto(dv(ps@), k as int),
        decreases ps@.len() - k,
    {
        let ghost before = r@;
        let q = param_of_exec(ps[k].as_slice(), k);
        assert(dv(ps@)[k as int] == ps@[k as int]@);
        match q {
            Some(q) => {
                r.push(q);
                assert(pairs_view(r@) =~= pairs_view(before) + seq![(q.0@, q.1@)]);
            },
            None => {
                assert(pairs_view(r@) =~= pairs_view(before) + Seq::<PairV>::empty());
            },
        }
        k = k + 1;
    }
    r
}

fn fn_of_chunk_exec(chunk: &[char]) -> (r: Option<CFn>)
    ensures
        match r {
            Some(f) => fn_of_chunk(chunk@) == Some(f@),
            None => fn_of_chunk(chunk@) is None,
        },
{
    let wd = without_directives_exec(chunk);
    let d = trim_exec(wd.as_slice());
    let hash = str_chars("#");
    if d.len() == 0 || starts_with_exec(d.as_slice(), hash.as_slice()) || contains_char(d.as_slice(), '{')
        || contains_char(d.as_slice(), '}') {
        return None;
    }
    let open = find_from_exec(d.as_slice(), '(', 0);
    let close = match rfind_exec(d.as_slice(), ')') {
        Some(c) => c,
        None => {
            return None;
        },
    };
    if open >= d.len() || close <= open {
        return None;
    }
    let pre = trim_exec(sub_vec(d.as_slice(), 0, open).as_slice());
    let params = trim_exec(sub_vec(d.as_slice(), open + 1, close).as_slice());
    let all_parts = words_exec(pre.as_slice());
    let pre_parts = drop_keywords_exec(&all_parts);
    if pre_parts.len() == 0 {
        return None;
    }
    let (name, ret) = name_and_type_exec(&pre_parts);
    if name.len() == 0 {
        return None;
    }
    let ret_ty = map_c_type_chars(ret.as_slice());
    let ps = params_of_exec(params.as_slice());
    Some(CFn { name: string_of(name.as_slice()), params: ps, ret_ty: string_of(ret_ty.as_slice()) })
}

fn collect_fns(cs: &[char]) -> (r: Vec<CFn>)
    ensures
        fns_view(r@) == fns_of(cs@),
{
    let chunks = split_char_exec(cs, ';');
    let mut r: Vec<CFn> = Vec::new();
    let mut k: usize = 0;
    while k < chunks.len()
        invariant
            k <= chunks@.len(),
            fns_view(r@) == fns_upto(dv(chunks@).subrange(0, k as int)),
        decreases chunks@.len() - k,
    {
        let ghost before = r@;
        proof {
            assert(dv(chunks@).subrange(0, k + 1).drop_last() =~= dv(chunks@).subrange(0, k as int));
            assert(dv(chunks@).subrange(0, k + 1).last() == chunks@[k as int]@);
        }
        match fn_of_chunk_exec(chunks[k].as_slice()) {
            Some(f) => {
                let ghost fv = f@;
                r.push(f);
                assert(fns_view(r@) =~= fns_view(before) + seq![fv]);
            },
            None => {
                assert(fns_view(r@) =~= fns_view(before) + Seq::<FnV>::empty());
            },
        }
        k = k + 1;
    }
    assert(dv(chunks@).subrange(0, chunks@.len() as int) =~= dv(chunks@));
    r
}

} // verus!

verus! {

// ---------------------------------------------------------------------------
// Output
// ---------------------------------------------------------------------------

pub open spec fn define_line(d: (Seq<char>, Seq<char>, bool)) -> Seq<char> {
    if d.2 {
        "// const "@ + d.0 + ": String = "@ + d.1 + ";\n"@
    } else {
        "// const "@ + d.0 + ": i64 = "@ + d.1 + ";\n"@
    }
}

pub open spec fn define_lines(ds: Seq<(Seq<char>, Seq<char>, bool)>) -> Seq<char>
    decreases ds.len(),
{
    if ds.len() == 0 {
        seq![]
    } else {
        define_lines(ds.drop_last()) + define_line(ds.last())
    }
}

pub open spec fn field_line(f: PairV) -> Seq<char> {
    "    "@ + f.0 + ": "@ + f.1 + ",\n"@
}

pub open spec fn field_lines(fs: Seq<PairV>) -> Seq<char>
    decreases fs.len(),
{
    if fs.len() == 0 {
        seq![]
    } else {
        field_lines(fs.drop_last()) + field_line(fs.last())
    }
}

pub open spec fn struct_block(s: StructV) -> Seq<char> {
    "#[repr(C)]\n"@ + "struct "@ + s.0 + " {\n"@ + field_lines(s.1) + "}\n\n"@
}

pub open spec fn struct_blocks(ss: Seq<StructV>) -> Seq<char>
    decreases ss.len(),
{
    if ss.len() == 0 {
        seq![]
    } else {
        struct_blocks(ss.drop_last()) + struct_block(ss.last())
    }
}

pub open spec fn param_text(p: PairV) -> Seq<char> {
    p.0 + ": "@ + p.1
}

pub open spec fn fn_line(f: FnV) -> Seq<char> {
    let ps = join(f.1.map_values(|p: PairV| param_text(p)), ", "@);
    if f.2 == "()"@ {
        "    fn "@ + f.0 + "("@ + ps + ");\n"@
    } else {
        "    fn "@ + f.0 + "("@ + ps + ") -> "@ + f.2 + ";\n"@
    }
}

pub open spec fn fn_lines(fs: Seq<FnV>) -> Seq<char>
    decreases fs.len(),
{
    if fs.len() == 0 {
        seq![]
    } else {
        fn_lines(fs.drop_last()) + fn_line(fs.last())
    }
}

pub open spec fn banner() -> Seq<char> {
    "// ==========================================================\n"@
        + "// Generated by forge bindgen — Tungsten C-ABI Stable Bridge\n"@
        + "// ==========================================================\n\n"@
}

/// The Tungsten text for the parsed constants, structs and functions.
pub open spec fn render(ds: Seq<(Seq<char>, Seq<char>, bool)>, ss: Seq<StructV>, fs: Seq<FnV>) -> Seq<char> {
    banner() + (if ds.len() == 0 {
        Seq::<char>::empty()
    } else {
        "// Constants (from C #define)\n"@ + define_lines(ds) + "\n"@
    }) + (if ss.len() == 0 {
        Seq::<char>::empty()
    } else {
        "// C-Compatible Struct Layouts\n"@ + struct_blocks(ss)
    }) + (if fs.len() == 0 {
        Seq::<char>::empty()
    } else {
        "// Foreign Function Interface Declarations\n"@ + "extern \"C\" {\n"@ + fn_lines(fs) + "}\n"@
    })
}

/// Whether bindings can be generated for a header: its comment-free text can be scanned
/// for structs.
pub open spec fn bindings_ok(header: Seq<char>) -> bool {
    structs_of(strip_comments_spec(header)) is Some
}

/// The bindings generated for a header: `#define` constants read line by line, structs,
/// and function declarations, all from the header without its comments.
pub open spec fn bindings_text(header: Seq<char>) -> Seq<char> {
    let s = strip_comments_spec(header);
    render(defines_of(lines(s)), structs_of(s).unwrap(), fns_of(s))
}

fn string_chars(s: &String) -> (r: Vec<char>)
    ensures
        r@ == s@,
{
    str_chars(s.as_str())
}

fn emit_define(out: &mut Vec<char>, d: &CDefine)
    ensures
        final(out)@ == old(out)@ + define_line(d@),
{
    extend_lit(out, "// const ");
    extend_chars(out, string_chars(&d.name).as_slice());
    if d.is_str {
        extend_lit(out, ": String = ");
    } else {
        extend_lit(out, ": i64 = ");
    }
    extend_chars(out, string_chars(&d.value).as_slice());
    extend_lit(out, ";\n");
    assert(final(out)@ =~= old(out)@ + define_line(d@));
}

fn emit_pair(out: &mut Vec<char>, p: &(String, String), lead: &str, mid: &str, tail: &str)
    ensures
        final(out)@ == old(out)@ + lead@ + p.0@ + mid@ + p.1@ + tail@,
{
    extend_lit(out, lead);
    extend_chars(out, string_chars(&p.0).as_slice());
    extend_lit(out, mid);
    extend_chars(out, string_chars(&p.1).as_slice());
    extend_lit(out, tail);
    assert(final(out)@ =~= old(out)@ + lead@ + p.0@ + mid@ + p.1@ + tail@);
}

fn emit_struct(out: &mut Vec<char>, s: &CStruct)
    ensures
        final(out)@ == old(out)@ + struct_block(s@),
{
    let ghost start = out@;
    extend_lit(out, "#[repr(C)]\n");
    extend_lit(out, "struct ");
    extend_chars(out, string_chars(&s.name).as_slice());
    extend_lit(out, " {\n");
    let ghost mid = out@;
    let mut k: usize = 0;
    while k < s.fields.len()
        invariant
            k <= s.fields@.len(),
            out@ == mid + field_lines(pairs_view(s.fields@).subrange(0, k as int)),
        decreases s.fields@.len() - k,
    {
        proof {
            let pv = pairs_view(s.fields@);
            assert(pv.subrange(0, k + 1).drop_last() =~= pv.subrange(0, k as int));
        }
        emit_pair(out, &s.fields[k], "    ", ": ", ",\n");
        proof {
            let pv = pairs_view(s.fields@);
            let p = s.fields@[k as int];
            assert(pv.subrange(0, k + 1).last() == (p.0@, p.1@));
            assert(out@ =~= mid + field_lines(pv.subrange(0, k + 1)));
        }
        k = k + 1;
    }
    assert(pairs_view(s.fields@).subrange(0, s.fields@.len() as int) =~= pairs_view(s.fields@));
    extend_lit(out, "}\n\n");
    assert(out@ =~= start + struct_block(s@));
}

fn emit_fn(out: &mut Vec<char>, f: &CFn)
    ensures
        final(out)@ == old(out)@ + fn_line(f@),
{
    let ghost start = out@;
    let ghost texts = pairs_view(f.params@).map_values(|p: PairV| param_text(p));
    let mut ps: Vec<char> = Vec::new();
    let mut k: usize = 0;
    while k < f.params.len()
        invariant
            k <= f.params@.len(),
            texts == pairs_view(f.params@).map_values(|p: PairV| param_text(p)),
            ps@ == join(texts.subrange(0, k as int), ", "@),
        decreases f.params@.len() - k,
    {
        let ghost before = ps@;
        if k > 0 {
            extend_lit(&mut ps, ", ");
        }
        let p = &f.params[k];
        extend_chars(&mut ps, string_chars(&p.0).as_slice());
        extend_lit(&mut ps, ": ");
        extend_chars(&mut ps, string_chars(&p.1).as_slice());
        proof {
            let sub = texts.subrange(0, k + 1);
            assert(sub.drop_last() =~= texts.subrange(0, k as int));
            assert(sub.last() == p.0@ + ": "@ + p.1@);
            if k > 0 {
                assert(ps@ =~= before + ", "@ + (p.0@ + ": "@ + p.1@));
            } else {
                assert(ps@ =~= p.0@ + ": "@ + p.1@);
            }
        }
        k = k + 1;
    }
    assert(texts.subrange(0, f.params@.len() as int) =~= texts);
    extend_lit(out, "    fn ");
    extend_chars(out, string_chars(&f.name).as_slice());
    extend_lit(out, "(");
    extend_chars(out, ps.as_slice());
    let ret = string_chars(&f.ret_ty);
    if eq_lit(ret.as_slice(), "()") {
        extend_lit(out, ");\n");
    } else {
        extend_lit(out, ") -> ");
        extend_chars(out, ret.as_slice());
        extend_lit(out, ";\n");
    }
    assert(out@ =~= start + fn_line(f@));
}

fn render_exec(ds: &Vec<CDefine>, ss: &Vec<CStruct>, fs: &Vec<CFn>) -> (r: Vec<char>)
    ensures
        r@ == render(defines_view(ds@), structs_view(ss@), fns_view(fs@)),
{
    let mut out: Vec<char> = Vec::new();
    extend_lit(&mut out, "// ==========================================================\n");
    extend_lit(&mut out, "// Generated by forge bindgen — Tungsten C-ABI Stable Bridge\n");
    extend_lit(&mut out, "// ==========================================================\n\n");
    let ghost p0 = out@;
    assert(p0 =~= banner());
    if ds.len() > 0 {
        extend_lit(&mut out, "// Constants (from C #define)\n");
        let ghost base = out@;
        let mut k: usize = 0;
        while k < ds.len()
            invariant
                k <= ds@.len(),
                out@ == base + define_lines(defines_view(ds@).subrange(0, k as int)),
            decreases ds@.len() - k,
        {
            proof {
                let v = defines_view(ds@);
                assert(v.subrange(0, k + 1).drop_last() =~= v.subrange(0, k as int));
                assert(v.subrange(0, k + 1).last() == ds@[k as int]@);
            }
            emit_define(&mut out, &ds[k]);
            proof {
                assert(out@ =~= base + define_lines(defines_view(ds@).subrange(0, k + 1)));
            }
            k = k + 1;
        }
        assert(defines_view(ds@).subrange(0, ds@.len() as int) =~= defines_view(ds@));
        extend_lit(&mut out, "\n");
    }
    let ghost p1 = out@;
    assert(p1 =~= p0 + (if ds@.len() == 0 {
        Seq::<char>::empty()
    } else {
        "// Constants (from C #define)\n"@ + define_lines(defines_view(ds@)) + "\n"@
    }));
    if ss.len() > 0 {
        extend_lit(&mut out, "// C-Compatible Struct Layouts\n");
        let ghost base = out@;
        let mut k: usize = 0;
        while k < ss.len()
            invariant
                k <= ss@.len(),
                out@ == base + struct_blocks(structs_view(ss@).subrange(0, k as int)),
            decreases ss@.len() - k,
        {
            proof {
                let v = structs_view(ss@);
                assert(v.subrange(0, k + 1).drop_last() =~= v.subrange(0, k as int));
                assert(v.subrange(0, k + 1).last() == ss@[k as int]@);
            }
            emit_struct(&mut out, &ss[k]);
            proof {
                assert(out@ =~= base + struct_blocks(structs_view(ss@).subrange(0, k + 1)));
            }
            k = k + 1;
        }
        assert(structs_view(ss@).subrange(0, ss@.len() as int) =~= structs_view(ss@));
    }
    let ghost p2 = out@;
    assert(p2 =~= p1 + (if ss@.len() == 0 {
        Seq::<char>::empty()
    } else {
        "// C-Compatible Struct Layouts\n"@ + struct_blocks(structs_view(ss@))
    }));
    if fs.len() > 0 {
        extend_lit(&mut out, "// Foreign Function Interface Declarations\n");
        extend_lit(&mut out, "extern \"C\" {\n");
        let ghost base = out@;
        let mut k: usize = 0;
        while k < fs.len()
            invariant
                k <= fs@.len(),
                out@ == base + fn_lines(fns_view(fs@).subrange(0, k as int)),
            decreases fs@.len() - k,
        {
            proof {
                let v = fns_view(fs@);
                assert(v.subrange(0, k + 1).drop_last() =~= v.subrange(0, k as int));
                assert(v.subrange(0, k + 1).last() == fs@[k as int]@);
            }
            emit_fn(&mut out, &fs[k]);
            proof {
                assert(out@ =~= base + fn_lines(fns_view(fs@).subrange(0, k + 1)));
            }
            k = k + 1;
        }
        assert(fns_view(fs@).subrange(0, fs@.len() as int) =~= fns_view(fs@));
        extend_lit(&mut out, "}\n");
    }
    assert(out@ =~= p2 + (if fs@.len() == 0 {
        Seq::<char>::empty()
    } else {
        "// Foreign Function Interface Declarations\n"@ + "extern \"C\" {\n"@ + fn_lines(fns_view(fs@)) + "}\n"@
    }));
    out
}

/// Whether `generate_bindings` accepts the header (see `bindings_ok`).
pub fn bindings_input_ok(header_content: &str) -> (r: bool)
    ensures
        r == bindings_ok(header_content@),
{
    let chars = str_chars(header_content);
    let stripped = strip_comments_chars(chars.as_slice());
    struct_scan_exec(stripped.as_slice()).is_some()
}

/// Parses C header source and generates Tungsten bindings: `#define` constants as
/// commented-out `const` lines, structs as `#[repr(C)]` layouts, and function
/// declarations inside an `extern "C"` block.
pub fn generate_bindings(header_content: &str) -> (r: Result<String, String>)
    requires
        bindings_ok(header_content@),
    ensures
        r matches Ok(out) && out@ == bindings_text(header_content@),
{
    let chars = str_chars(header_content);
    let stripped = strip_comments_chars(chars.as_slice());
    let ls = lines_exec(stripped.as_slice());
    let defines = collect_defines(&ls);
    let structs = match struct_scan_exec(stripped.as_slice()) {
        Some(v) => v,
        None => {
            return Err(String::new());
        },
    };
    let functions = collect_fns(stripped.as_slice());
    let out = render_exec(&defines, &structs, &functions);
    Ok(string_of(out.as_slice()))
}

/// The width in bits and the signedness of a C integer type on x86-64, by
/// the spelling the mapping sees (`unsigned` written `unsigned_`). The
/// spellings whose layout the platform decides (`char`, `long`) are left
/// out.
pub open spec fn c_int_layout(c: Seq<char>) -> Option<(nat, bool)> {
    if c == "short"@ || c == "short int"@ || c == "int16_t"@ {
        Some((16, true))
    } else if c == "unsigned_ short"@ || c == "unsigned_short"@ || c == "uint16_t"@ {
        Some((16, false))
    } else if c == "int"@ || c == "int32_t"@ {
        Some((32, true))
    } else if c == "unsigned_ int"@ || c == "unsigned_int"@ || c == "unsigned_"@ || c == "uint32_t"@ {
        Some((32, false))
    } else if c == "long long"@ || c == "int64_t"@ {
        Some((64, true))
    } else if c == "unsigned_ long long"@ || c == "uint64_t"@ || c == "size_t"@ || c == "uintptr_t"@ {
        Some((64, false))
    } else if c == "unsigned_ char"@ || c == "unsigned_char"@ || c == "uint8_t"@ {
        Some((8, false))
    } else {
        None
    }
}

/// The width in bits and the signedness of a Tungsten integer type
/// (`usize` and `isize` on a 64-bit target).
pub open spec fn tg_int_layout(t: Seq<char>) -> Option<(nat, bool)> {
    if t == "i8"@ {
        Some((8, true))
    } else if t == "u8"@ {
        Some((8, false))
    } else if t == "i16"@ {
        Some((16, true))
    } else if t == "u16"@ {
        Some((16, false))
    } else if t == "i32"@ {
        Some((32, true))
    } else if t == "u32"@ {
        Some((32, false))
    } else if t == "i64"@ || t == "isize"@ {
        Some((64, true))
    } else if t == "u64"@ || t == "usize"@ {
        Some((64, false))
    } else {
        None
    }
}

/// A C integer type maps to the Tungsten integer type of the same width and
/// signedness.
pub proof fn law_scalar_type_keeps_layout(c: Seq<char>)
    requires
        c_int_layout(c) is Some,
    ensures
        tg_int_layout(scalar_type(c)) == c_int_layout(c),
{
    reveal_strlit("void");
    reveal_strlit("()");
    reveal_strlit("char");
    reveal_strlit("int8_t");
    reveal_strlit("unsigned_ char");
    reveal_strlit("uint8_t");
    reveal_strlit("unsigned_char");
    reveal_strlit("u8");
    reveal_strlit("short");
    reveal_strlit("int16_t");
    reveal_strlit("short int");
    reveal_strlit("i16");
    reveal_strlit("unsigned_ short");
    reveal_strlit("uint16_t");
    reveal_strlit("unsigned_short");
    reveal_strlit("u16");
    reveal_strlit("int");
    reveal_strlit("int32_t");
    reveal_strlit("i32");
    reveal_strlit("unsigned_ int");
    reveal_strlit("uint32_t");
    reveal_strlit("unsigned_");
    reveal_strlit("unsigned_int");
    reveal_strlit("u32");
    reveal_strlit("long");
    reveal_strlit("long int");
    reveal_strlit("long long");
    reveal_strlit("int64_t");
    reveal_strlit("i64");
    reveal_strlit("unsigned_ long");
    reveal_strlit("unsigned_ long long");
    reveal_strlit("uint64_t");
    reveal_strlit("size_t");
    reveal_strlit("uintptr_t");
    reveal_strlit("unsigned_long");
    reveal_strlit("usize");
    reveal_strlit("bool");
    reveal_strlit("_Bool");
    reveal_strlit("i8");
    reveal_strlit("u64");
    reveal_strlit("isize");
    if c == "short"@ {
        assert(c =~= seq!['s', 'h', 'o', 'r', 't']);
        assert(scalar_type(c) == "i16"@);
        assert("i16"@ =~= seq!['i', '1', '6']);
        assert(tg_int_layout("i16"@) == Some((16nat, true)));
        assert(c_int_layout(c) == Some((16nat, true)));
    }
    if c == "short int"@ {
        assert(c =~= seq!['s', 'h', 'o', 'r', 't', ' ', 'i', 'n', 't']);
        assert(scalar_type(c) == "i16"@);
        assert("i16"@ =~= seq!['i', '1', '6']);
        assert(tg_int_layout("i16"@) == Some((16nat, true)));
        assert(c_int_layout(c) == Some((16nat, true)));
    }
    if c == "int16_t"@ {
        assert(c =~= seq!['i', 'n', 't', '1', '6', '_', 't']);
        assert(scalar_type(c) == "i16"@);
        assert("i16"@ =~= seq!['i', '1', '6']);
        assert(tg_int_layout("i16"@) == Some((16nat, true)));
        assert(c_int_layout(c) == Some((16nat, true)));
    }
    if c == "unsigned_ short"@ {
        assert(c =~= seq!['u', 'n', 's', 'i', 'g', 'n', 'e', 'd', '_', ' ', 's', 'h', 'o', 'r', 't']);
        assert(scalar_type(c) == "u16"@);
        assert("u16"@ =~= seq!['u', '1', '6']);
        assert(tg_int_layout("u16"@) == Some((16nat, false)));
        assert(c_int_layout(c) == Some((16nat, false)));
    }
    if c == "unsigned_short"@ {
        assert(c =~= seq!['u', 'n', 's', 'i', 'g', 'n', 'e', 'd', '_', 's', 'h', 'o', 'r', 't']);
        assert(scalar_type(c) == "u16"@);
        assert("u16"@ =~= seq!['u', '1', '6']);
        assert(tg_int_layout("u16"@) == Some((16nat, false)));
        assert(c_int_layout(c) == Some((16nat, false)));
    }
    if c == "uint16_t"@ {
        assert(c =~= seq!['u', 'i', 'n', 't', '1', '6', '_', 't']);
        assert(scalar_type(c) == "u16"@);
        assert("u16"@ =~= seq!['u', '1', '6']);
        assert(tg_int_layout("u16"@) == Some((16nat, false)));
        assert(c_int_layout(c) == Some((16nat, false)));
    }
    if c == "int"@ {
        assert(c =~= seq!['i', 'n', 't']);
        assert(scalar_type(c) == "i32"@);
        assert("i32"@ =~= seq!['i', '3', '2']);
        assert(tg_int_layout("i32"@) == Some((32nat, true)));
        assert(c_int_layout(c) == Some((32nat, true)));
    }
    if c == "int32_t"@ {
        assert(c =~= seq!['i', 'n', 't', '3', '2', '_', 't']);
        assert(scalar_type(c) == "i32"@);
        assert("i32"@ =~= seq!['i', '3', '2']);
        assert(tg_int_layout("i32"@) == Some((32nat, true)));
        assert(c_int_layout(c) == Some((32nat, true)));
    }
    if c == "unsigned_ int"@ {
        assert(c =~= seq!['u', 'n', 's', 'i', 'g', 'n', 'e', 'd', '_', ' ', 'i', 'n', 't']);
        assert(scalar_type(c) == "u32"@);
        assert("u32"@ =~= seq!['u', '3', '2']);
        assert(tg_int_layout("u32"@) == Some((32nat, false)));
        assert(c_int_layout(c) == Some((32nat, false)));
    }
    if c == "unsigned_int"@ {
        assert(c =~= seq!['u', 'n', 's', 'i', 'g', 'n', 'e', 'd', '_', 'i', 'n', 't']);
        assert(scalar_type(c) == "u32"@);
        assert("u32"@ =~= seq!['u', '3', '2']);
        assert(tg_int_layout("u32"@) == Some((32nat, false)));
        assert(c_int_layout(c) == Some((32nat, false)));
    }
    if c == "unsigned_"@ {
        assert(c =~= seq!['u', 'n', 's', 'i', 'g', 'n', 'e', 'd', '_']);
        assert(scalar_type(c) == "u32"@);
        assert("u32"@ =~= seq!['u', '3', '2']);
        assert(tg_int_layout("u32"@) == Some((32nat, false)));
        assert(c_int_layout(c) == Some((32nat, false)));
    }
    if c == "uint32_t"@ {
        assert(c =~= seq!['u', 'i', 'n', 't', '3', '2', '_', 't']);
        assert(scalar_type(c) == "u32"@);
        assert("u32"@ =~= seq!['u', '3', '2']);
        assert(tg_int_layout("u32"@) == Some((32nat, false)));
        assert(c_int_layout(c) == Some((32nat, false)));
    }
    if c == "long long"@ {
        assert(c =~= seq!['l', 'o', 'n', 'g', ' ', 'l', 'o', 'n', 'g']);
        assert(scalar_type(c) == "i64"@);
        assert("i64"@ =~= seq!['i', '6', '4']);
        assert(tg_int_layout("i64"@) == Some((64nat, true)));
        assert(c_int_layout(c) == Some((64nat, true)));
    }
    if c == "int64_t"@ {
        assert(c =~= seq!['i', 'n', 't', '6', '4', '_', 't']);
        assert(scalar_type(c) == "i64"@);
        assert("i64"@ =~= seq!['i', '6', '4']);
        assert(tg_int_layout("i64"@) == Some((64nat, true)));
        assert(c_int_layout(c) == Some((64nat, true)));
    }
    if c == "unsigned_ long long"@ {
        assert(c =~= seq!['u', 'n', 's', 'i', 'g', 'n', 'e', 'd', '_', ' ', 'l', 'o', 'n', 'g', ' ', 'l', 'o', 'n', 'g']);
        assert(scalar_type(c) == "usize"@);
        assert("usize"@ =~= seq!['u', 's', 'i', 'z', 'e']);
        assert(tg_int_layout("usize"@) == Some((64nat, false)));
        assert(c_int_layout(c) == Some((64nat, false)));
    }
    if c == "uint64_t"@ {
        assert(c =~= seq!['u', 'i', 'n', 't', '6', '4', '_', 't']);
        assert(scalar_type(c) == "usize"@);
        assert("usize"@ =~= seq!['u', 's', 'i', 'z', 'e']);
        assert(tg_int_layout("usize"@) == Some((64nat, false)));
        assert(c_int_layout(c) == Some((64nat, false)));
    }
    if c == "size_t"@ {
        assert(c =~= seq!['s', 'i', 'z', 'e', '_', 't']);
        assert(scalar_type(c) == "usize"@);
        assert("usize"@ =~= seq!['u', 's', 'i', 'z', 'e']);
        assert(tg_int_layout("usize"@) == Some((64nat, false)));
        assert(c_int_layout(c) == Some((64nat, false)));
    }
    if c == "uintptr_t"@ {
        assert(c =~= seq!['u', 'i', 'n', 't', 'p', 't', 'r', '_', 't']);
        assert(scalar_type(c) == "usize"@);
        assert("usize"@ =~= seq!['u', 's', 'i', 'z', 'e']);
        assert(tg_int_layout("usize"@) == Some((64nat, false)));
        assert(c_int_layout(c) == Some((64nat, false)));
    }
    if c == "unsigned_ char"@ {
        assert(c =~= seq!['u', 'n', 's', 'i', 'g', 'n', 'e', 'd', '_', ' ', 'c', 'h', 'a', 'r']);
        assert(scalar_type(c) == "u8"@);
        assert("u8"@ =~= seq!['u', '8']);
        assert(tg_int_layout("u8"@) == Some((8nat, false)));
        assert(c_int_layout(c) == Some((8nat, false)));
    }
    if c == "unsigned_char"@ {
        assert(c =~= seq!['u', 'n', 's', 'i', 'g', 'n', 'e', 'd', '_', 'c', 'h', 'a', 'r']);
        assert(scalar_type(c) == "u8"@);
        assert("u8"@ =~= seq!['u', '8']);
        assert(tg_int_layout("u8"@) == Some((8nat, false)));
        assert(c_int_layout(c) == Some((8nat, false)));
    }
    if c == "uint8_t"@ {
        assert(c =~= seq!['u', 'i', 'n', 't', '8', '_', 't']);
        assert(scalar_type(c) == "u8"@);
        assert("u8"@ =~= seq!['u', '8']);
        assert(tg_int_layout("u8"@) == Some((8nat, false)));
        assert(c_int_layout(c) == Some((8nat, false)));
    }
}

} // verus!
