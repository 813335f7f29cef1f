use vstd::prelude::*;
use crate::text::{eq_lit, extend_chars, extend_lit, is_ws, is_ws_char, skip_ws, str_chars, string_of, sub_vec};
use crate::effects::str_eq;

verus! {

broadcast use vstd::string::group_string_axioms;

/// A cursor over the characters of a JSON text.
#[derive(Debug)]
pub struct JsonParser {
    chars: Vec<char>,
    cursor: usize,
}

/// The character an escape sequence `\c` stands for.
pub open spec fn unescape(c: char) -> char {
    if c == 'b' {
        '\x08'
    } else if c == 'f' {
        '\x0c'
    } else if c == 'n' {
        '\n'
    } else if c == 'r' {
        '\r'
    } else if c == 't' {
        '\t'
    } else {
        c
    }
}

/// Reading the rest of a string literal from `i` (after its opening quote) with `acc`
/// read so far: the string and the position after the closing quote, or an error and
/// the position where reading stopped.
pub open spec fn scan_string(cs: Seq<char>, i: int, acc: Seq<char>) -> (Result<Seq<char>, Seq<char>>, int)
    decreases cs.len() - i,
{
    if i < 0 || i >= cs.len() {
        (Err("Unterminated string literal"@), i)
    } else if cs[i] == '"' {
        (Ok(acc), i + 1)
    } else if cs[i] == '\\' {
        if i + 1 >= cs.len() {
            (Err("Unterminated escape sequence"@), i + 1)
        } else {
            scan_string(cs, i + 2, acc.push(unescape(cs[i + 1])))
        }
    } else {
        scan_string(cs, i + 1, acc.push(cs[i]))
    }
}

/// Reading a string literal at `i`: it must open with `"`.
pub open spec fn read_string(cs: Seq<char>, i: int) -> (Result<Seq<char>, Seq<char>>, int) {
    if i >= cs.len() {
        (Err("Expected '\"'"@), i)
    } else if cs[i] != '"' {
        (Err("Expected '\"'"@), i + 1)
    } else {
        scan_string(cs, i + 1, seq![])
    }
}

pub open spec fn res_view(r: Result<String, String>) -> Result<Seq<char>, Seq<char>> {
    match r {
        Ok(s) => Ok(s@),
        Err(e) => Err(e@),
    }
}

fn unescape_exec(c: char) -> (r: char)
    ensures
        r == unescape(c),
{
    if c == 'b' {
        '\x08'
    } else if c == 'f' {
        '\x0c'
    } else if c == 'n' {
        '\n'
    } else if c == 'r' {
        '\r'
    } else if c == 't' {
        '\t'
    } else {
        c
    }
}

/// An ASCII letter.
pub open spec fn is_word_char(c: char) -> bool {
    ('a' <= c && c <= 'z') || ('A' <= c && c <= 'Z')
}

/// A character that can be part of the text of a number.
pub open spec fn is_number_char(c: char) -> bool {
    ('0' <= c && c <= '9') || c == '-' || c == '+' || c == '.' || c == 'e' || c == 'E'
}

fn is_word_char_exec(c: char) -> (r: bool)
    ensures
        r == is_word_char(c),
{
    ('a' <= c && c <= 'z') || ('A' <= c && c <= 'Z')
}

fn is_number_char_exec(c: char) -> (r: bool)
    ensures
        r == is_number_char(c),
{
    ('0' <= c && c <= '9') || c == '-' || c == '+' || c == '.' || c == 'e' || c == 'E'
}

fn run_char(c: char, number: bool) -> (r: bool)
    ensures
        r == (if number { is_number_char(c) } else { is_word_char(c) }),
{
    if number {
        is_number_char_exec(c)
    } else {
        is_word_char_exec(c)
    }
}

/// Where the run of word characters (or number characters) starting at `i` ends.
pub open spec fn run_end(cs: Seq<char>, i: int, number: bool) -> int
    decreases cs.len() - i,
{
    if i < 0 || i >= cs.len() || !(if number { is_number_char(cs[i]) } else { is_word_char(cs[i]) }) {
        i
    } else {
        run_end(cs, i + 1, number)
    }
}

/// How a character is written inside a JSON string literal.
pub open spec fn escape_char(c: char) -> Seq<char> {
    if c == '\\' {
        seq!['\\', '\\']
    } else if c == '"' {
        seq!['\\', '"']
    } else if c == '\n' {
        seq!['\\', 'n']
    } else if c == '\r' {
        seq!['\\', 'r']
    } else if c == '\t' {
        seq!['\\', 't']
    } else {
        seq![c]
    }
}

/// A text with backslashes, quotes, newlines, carriage returns and tabs escaped.
pub open spec fn escape_text(s: Seq<char>) -> Seq<char>
    decreases s.len(),
{
    if s.len() == 0 {
        seq![]
    } else {
        escape_text(s.drop_last()) + escape_char(s.last())
    }
}

/// The body of a JSON string literal for `s`.
pub fn escape_json_string(s: &str) -> (r: String)
    ensures
        r@ == escape_text(s@),
{
    let cs = str_chars(s);
    let mut out: Vec<char> = Vec::new();
    for i in 0..cs.len()
        invariant
            cs@ == s@,
            out@ == escape_text(s@.take(i as int)),
    {
        assert(s@.take(i + 1).drop_last() =~= s@.take(i as int));
        let c = cs[i];
        if c == '\\' {
            out.push('\\');
            out.push('\\');
        } else if c == '"' {
            out.push('\\');
            out.push('"');
        } else if c == '\n' {
            out.push('\\');
            out.push('n');
        } else if c == '\r' {
            out.push('\\');
            out.push('r');
        } else if c == '\t' {
            out.push('\\');
            out.push('t');
        } else {
            out.push(c);
        }
        assert(out@ =~= escape_text(s@.take(i + 1)));
    }
    assert(s@.take(s@.len() as int) =~= s@);
    string_of(out.as_slice())
}

/// A JSON value; a number is kept as the text it was written with.
#[derive(Debug)]
pub enum JsonValue {
    Null,
    Bool(bool),
    Number(String),
    Str(String),
    Array(Vec<JsonValue>),
    /// The members in the order written; a later member with the same key
    /// stands for the earlier one.
    Object(Vec<(String, JsonValue)>),
}

/// Why a JSON text could not be read.
#[derive(Debug)]
pub enum JsonError {
    /// A value cannot start with this character, at this offset.
    UnexpectedChar(char, usize),
    /// The text ended where a value was expected.
    UnexpectedEnd,
    /// A string literal could not be read; the reason.
    BadString(String),
    /// An object key is not followed by `:`; the offset after the character
    /// read in its place.
    ExpectedColon(usize),
    /// An object member is followed by this in place of `,` or `}`.
    ObjectSeparator(Option<char>),
    /// An array element is followed by this in place of `,` or `]`.
    ArraySeparator(Option<char>),
    /// A word that is none of `true`, `false` and `null`.
    UnknownLiteral(String),
    /// The text of a number that is not a decimal floating-point literal.
    InvalidNumber(String),
}

/// The mathematical form of a JSON value.
pub enum JsonV {
    Null,
    Bool(bool),
    Number(Seq<char>),
    Str(Seq<char>),
    Array(Seq<JsonV>),
    Object(Seq<(Seq<char>, JsonV)>),
}

/// The mathematical form of a reading error.
pub enum JsonErrorV {
    UnexpectedChar(char, int),
    UnexpectedEnd,
    BadString(Seq<char>),
    ExpectedColon(int),
    ObjectSeparator(Option<char>),
    ArraySeparator(Option<char>),
    UnknownLiteral(Seq<char>),
    InvalidNumber(Seq<char>),
}

pub open spec fn json_v(v: JsonValue) -> JsonV
    decreases v,
{
    match v {
        JsonValue::Null => JsonV::Null,
        JsonValue::Bool(b) => JsonV::Bool(b),
        JsonValue::Number(n) => JsonV::Number(n@),
        JsonValue::Str(s) => JsonV::Str(s@),
        JsonValue::Array(a) => JsonV::Array(jsons_v(a@)),
        JsonValue::Object(m) => JsonV::Object(members_v(m@)),
    }
}

pub open spec fn jsons_v(s: Seq<JsonValue>) -> Seq<JsonV>
    decreases s,
{
    if s.len() == 0 {
        Seq::empty()
    } else {
        jsons_v(s.drop_last()).push(json_v(s.last()))
    }
}

pub open spec fn members_v(s: Seq<(String, JsonValue)>) -> Seq<(Seq<char>, JsonV)>
    decreases s,
{
    if s.len() == 0 {
        Seq::empty()
    } else {
        members_v(s.drop_last()).push((s.last().0@, json_v(s.last().1)))
    }
}

pub open spec fn json_error_v(e: JsonError) -> JsonErrorV {
    match e {
        JsonError::UnexpectedChar(c, i) => JsonErrorV::UnexpectedChar(c, i as int),
        JsonError::UnexpectedEnd => JsonErrorV::UnexpectedEnd,
        JsonError::BadString(m) => JsonErrorV::BadString(m@),
        JsonError::ExpectedColon(i) => JsonErrorV::ExpectedColon(i as int),
        JsonError::ObjectSeparator(c) => JsonErrorV::ObjectSeparator(c),
        JsonError::ArraySeparator(c) => JsonErrorV::ArraySeparator(c),
        JsonError::UnknownLiteral(w) => JsonErrorV::UnknownLiteral(w@),
        JsonError::InvalidNumber(w) => JsonErrorV::InvalidNumber(w@),
    }
}

pub open spec fn read_view(r: Result<JsonValue, JsonError>) -> Result<JsonV, JsonErrorV> {
    match r {
        Ok(v) => Ok(json_v(v)),
        Err(e) => Err(json_error_v(e)),
    }
}

/// The character at `i`, if there is one.
pub open spec fn char_at(cs: Seq<char>, i: int) -> Option<char> {
    if 0 <= i < cs.len() {
        Some(cs[i])
    } else {
        None
    }
}

/// Skipping whitespace stays within the text.
pub proof fn lemma_skip_ws_bounds(cs: Seq<char>, i: int)
    requires
        0 <= i <= cs.len(),
    ensures
        i <= skip_ws(cs, i) <= cs.len(),
    decreases cs.len() - i,
{
    if i < cs.len() && is_ws(cs[i]) {
        lemma_skip_ws_bounds(cs, i + 1);
    }
}

/// Reading a string literal never moves backwards.
pub proof fn lemma_scan_string_bounds(cs: Seq<char>, i: int, acc: Seq<char>)
    requires
        0 <= i,
    ensures
        scan_string(cs, i, acc).1 >= i,
    decreases cs.len() - i,
{
    if 0 <= i < cs.len() && cs[i] != '"' {
        if cs[i] == '\\' {
            if i + 1 < cs.len() {
                lemma_scan_string_bounds(cs, i + 2, acc.push(unescape(cs[i + 1])));
            }
        } else {
            lemma_scan_string_bounds(cs, i + 1, acc.push(cs[i]));
        }
    }
}

pub open spec fn is_digit(c: char) -> bool {
    '0' <= c && c <= '9'
}

/// Where the run of decimal digits starting at `i` ends.
pub open spec fn digits_end(t: Seq<char>, i: int) -> int
    decreases t.len() - i,
{
    if 0 <= i < t.len() && is_digit(t[i]) {
        digits_end(t, i + 1)
    } else {
        i
    }
}

/// Whether `t` is a decimal floating-point literal: an optional sign, digits
/// with at most one `.` and at least one digit, then optionally `e` or `E`,
/// an optional sign and at least one digit.
pub open spec fn number_syntax_ok(t: Seq<char>) -> bool {
    let a: int = if t.len() > 0 && (t[0] == '+' || t[0] == '-') { 1 } else { 0 };
    let d1 = digits_end(t, a);
    let dot = d1 < t.len() && t[d1] == '.';
    let d2 = if dot { digits_end(t, d1 + 1) } else { d1 };
    let mantissa = d1 > a || d2 > d1 + 1;
    if !mantissa {
        false
    } else if d2 == t.len() {
        true
    } else if t[d2] == 'e' || t[d2] == 'E' {
        let s: int = if d2 + 1 < t.len() && (t[d2 + 1] == '+' || t[d2 + 1] == '-') { d2 + 2 } else { d2 + 1 };
        let d3 = digits_end(t, s);
        d3 > s && d3 == t.len()
    } else {
        false
    }
}

/// A literal word: `true`, `false`, `null`, or an error naming it.
pub open spec fn word_value(w: Seq<char>) -> Result<JsonV, JsonErrorV> {
    if w == "true"@ {
        Ok(JsonV::Bool(true))
    } else if w == "false"@ {
        Ok(JsonV::Bool(false))
    } else if w == "null"@ {
        Ok(JsonV::Null)
    } else {
        Err(JsonErrorV::UnknownLiteral(w))
    }
}

/// Reading a value at `i`, after any whitespace: the value, or the error,
/// with the position where reading stopped.
pub open spec fn value_at(cs: Seq<char>, i: int) -> (Result<JsonV, JsonErrorV>, int)
    decreases cs.len() - i, 1int,
{
    if i < 0 || i > cs.len() {
        (Err(JsonErrorV::UnexpectedEnd), i)
    } else {
        let j = skip_ws(cs, i);
        proof {
            lemma_skip_ws_bounds(cs, i);
        }
        if j >= cs.len() {
            (Err(JsonErrorV::UnexpectedEnd), j)
        } else {
            let c = cs[j];
            if c == '{' {
                object_at(cs, j + 1)
            } else if c == '[' {
                array_at(cs, j + 1)
            } else if c == '"' {
                let (r, k) = read_string(cs, j);
                (
                    match r {
                        Ok(s) => Ok(JsonV::Str(s)),
                        Err(e) => Err(JsonErrorV::BadString(e)),
                    },
                    k,
                )
            } else if c == 't' || c == 'f' || c == 'n' {
                let k = run_end(cs, j, false);
                (word_value(cs.subrange(j, k)), k)
            } else if ('0' <= c && c <= '9') || c == '-' {
                let k = run_end(cs, j, true);
                let w = cs.subrange(j, k);
                (if number_syntax_ok(w) { Ok(JsonV::Number(w)) } else { Err(JsonErrorV::InvalidNumber(w)) }, k)
            } else {
                (Err(JsonErrorV::UnexpectedChar(c, j)), j)
            }
        }
    }
}

/// Reading the rest of an array at `i`, after its `[`.
pub open spec fn array_at(cs: Seq<char>, i: int) -> (Result<JsonV, JsonErrorV>, int)
    decreases cs.len() - i, 3int,
{
    if i < 0 || i > cs.len() {
        (Err(JsonErrorV::UnexpectedEnd), i)
    } else {
        let j = skip_ws(cs, i);
        proof {
            lemma_skip_ws_bounds(cs, i);
        }
        if j < cs.len() && cs[j] == ']' {
            (Ok(JsonV::Array(seq![])), j + 1)
        } else {
            elements_at(cs, j, seq![])
        }
    }
}

/// Reading the elements of an array from `i`, with `acc` read before.
pub open spec fn elements_at(cs: Seq<char>, i: int, acc: Seq<JsonV>) -> (Result<JsonV, JsonErrorV>, int)
    decreases cs.len() - i, 2int,
{
    if i < 0 || i > cs.len() {
        (Err(JsonErrorV::UnexpectedEnd), i)
    } else {
        let (r, k) = value_at(cs, i);
        match r {
            Err(e) => (Err(e), k),
            Ok(v) => {
                let m = skip_ws(cs, k);
                if m < 0 || m >= cs.len() {
                    (Err(JsonErrorV::ArraySeparator(None)), m)
                } else if cs[m] == ',' {
                    if m + 1 > i {
                        elements_at(cs, m + 1, acc.push(v))
                    } else {
                        (Err(JsonErrorV::ArraySeparator(Some(','))), m + 1)
                    }
                } else if cs[m] == ']' {
                    (Ok(JsonV::Array(acc.push(v))), m + 1)
                } else {
                    (Err(JsonErrorV::ArraySeparator(Some(cs[m]))), m + 1)
                }
            },
        }
    }
}

/// Reading the rest of an object at `i`, after its `{`.
pub open spec fn object_at(cs: Seq<char>, i: int) -> (Result<JsonV, JsonErrorV>, int)
    decreases cs.len() - i, 3int,
{
    if i < 0 || i > cs.len() {
        (Err(JsonErrorV::UnexpectedEnd), i)
    } else {
        let j = skip_ws(cs, i);
        proof {
            lemma_skip_ws_bounds(cs, i);
        }
        if j < cs.len() && cs[j] == '}' {
            (Ok(JsonV::Object(seq![])), j + 1)
        } else {
            members_at(cs, j, seq![])
        }
    }
}

/// Reading the members of an object from `i`, with `acc` read before.
pub open spec fn members_at(cs: Seq<char>, i: int, acc: Seq<(Seq<char>, JsonV)>) -> (Result<JsonV, JsonErrorV>, int)
    decreases cs.len() - i, 2int,
{
    if i < 0 || i > cs.len() {
        (Err(JsonErrorV::UnexpectedEnd), i)
    } else {
        let j = skip_ws(cs, i);
        proof {
            lemma_skip_ws_bounds(cs, i);
        }
        let (kr, k) = read_string(cs, j);
        match kr {
            Err(e) => (Err(JsonErrorV::BadString(e)), k),
            Ok(key) => {
                proof {
                    lemma_scan_string_bounds(cs, j + 1, seq![]);
                }
                let m = skip_ws(cs, k);
                if m < 0 || m >= cs.len() {
                    (Err(JsonErrorV::ExpectedColon(m)), m)
                } else if cs[m] != ':' {
                    (Err(JsonErrorV::ExpectedColon(m + 1)), m + 1)
                } else if m + 1 <= i {
                    (Err(JsonErrorV::ExpectedColon(m + 1)), m + 1)
                } else {
                    let (vr, q) = value_at(cs, m + 1);
                    match vr {
                        Err(e) => (Err(e), q),
                        Ok(v) => {
                            let t = skip_ws(cs, q);
                            if t < 0 || t >= cs.len() {
                                (Err(JsonErrorV::ObjectSeparator(None)), t)
                            } else if cs[t] == ',' {
                                if t + 1 > i {
                                    members_at(cs, t + 1, acc.push((key, v)))
                                } else {
                                    (Err(JsonErrorV::ObjectSeparator(Some(','))), t + 1)
                                }
                            } else if cs[t] == '}' {
                                (Ok(JsonV::Object(acc.push((key, v)))), t + 1)
                            } else {
                                (Err(JsonErrorV::ObjectSeparator(Some(cs[t]))), t + 1)
                            }
                        },
                    }
                }
            },
        }
    }
}

fn skip_ws_at(cs: &Vec<char>, i: usize) -> (r: usize)
    requires
        i <= cs@.len(),
    ensures
        r == skip_ws(cs@, i as int),
        i <= r <= cs@.len(),
{
    let mut k = i;
    while k < cs.len() && is_ws_char(cs[k])
        invariant
            i <= k <= cs@.len(),
            skip_ws(cs@, k as int) == skip_ws(cs@, i as int),
        decreases cs@.len() - k,
    {
        k = k + 1;
    }
    k
}

fn run_end_at(cs: &Vec<char>, i: usize, number: bool) -> (r: usize)
    requires
        i <= cs@.len(),
    ensures
        r == run_end(cs@, i as int, number),
        i <= r <= cs@.len(),
{
    let mut k = i;
    while k < cs.len() && run_char(cs[k], number)
        invariant
            i <= k <= cs@.len(),
            run_end(cs@, k as int, number) == run_end(cs@, i as int, number),
        decreases cs@.len() - k,
    {
        k = k + 1;
    }
    k
}

/// Reads a string literal at `i`.
fn read_string_at(cs: &Vec<char>, i: usize) -> (r: (Result<String, String>, usize))
    requires
        i <= cs@.len(),
    ensures
        (res_view(r.0), r.1 as int) == read_string(cs@, i as int),
        r.1 <= cs@.len(),
{
    if i >= cs.len() {
        return (Err(string_of(str_chars("Expected '\"'").as_slice())), i);
    }
    if cs[i] != '"' {
        return (Err(string_of(str_chars("Expected '\"'").as_slice())), i + 1);
    }
    let mut k = i + 1;
    let mut acc: Vec<char> = Vec::new();
    loop
        invariant
            i < k <= cs@.len(),
            i < cs@.len(),
            cs@[i as int] == '"',
            scan_string(cs@, k as int, acc@) == scan_string(cs@, i + 1, seq![]),
        decreases cs@.len() - k,
    {
        if k >= cs.len() {
            return (Err(string_of(str_chars("Unterminated string literal").as_slice())), k);
        }
        let ch = cs[k];
        if ch == '"' {
            return (Ok(string_of(acc.as_slice())), k + 1);
        } else if ch == '\\' {
            if k + 1 >= cs.len() {
                return (Err(string_of(str_chars("Unterminated escape sequence").as_slice())), k + 1);
            }
            acc.push(unescape_exec(cs[k + 1]));
            k = k + 2;
        } else {
            acc.push(ch);
            k = k + 1;
        }
    }
}

proof fn lemma_jsons_push(s: Seq<JsonValue>, v: JsonValue)
    ensures
        jsons_v(s.push(v)) == jsons_v(s).push(json_v(v)),
{
    assert(s.push(v).drop_last() =~= s);
}

proof fn lemma_members_push(s: Seq<(String, JsonValue)>, m: (String, JsonValue))
    ensures
        members_v(s.push(m)) == members_v(s).push((m.0@, json_v(m.1))),
{
    assert(s.push(m).drop_last() =~= s);
}

fn digits_end_exec(t: &Vec<char>, i: usize) -> (r: usize)
    requires
        i <= t@.len(),
    ensures
        r == digits_end(t@, i as int),
        i <= r <= t@.len(),
{
    let mut k = i;
    while k < t.len() && '0' <= t[k] && t[k] <= '9'
        invariant
            i <= k <= t@.len(),
            digits_end(t@, k as int) == digits_end(t@, i as int),
        decreases t@.len() - k,
    {
        k = k + 1;
    }
    k
}

/// Whether `t` is a decimal floating-point literal.
fn number_syntax_ok_exec(t: &Vec<char>) -> (r: bool)
    ensures
        r == number_syntax_ok(t@),
{
    let a: usize = if t.len() > 0 && (t[0] == '+' || t[0] == '-') { 1 } else { 0 };
    let d1 = digits_end_exec(t, a);
    let dot = d1 < t.len() && t[d1] == '.';
    let d2 = if dot { digits_end_exec(t, d1 + 1) } else { d1 };
    let mantissa = d1 > a || d2 > d1 + 1;
    if !mantissa {
        false
    } else if d2 == t.len() {
        true
    } else if t[d2] == 'e' || t[d2] == 'E' {
        let s: usize = if d2 + 1 < t.len() && (t[d2 + 1] == '+' || t[d2 + 1] == '-') { d2 + 2 } else { d2 + 1 };
        let d3 = digits_end_exec(t, s);
        d3 > s && d3 == t.len()
    } else {
        false
    }
}

/// Reads a value at `i`, after any whitespace.
fn value_at_exec(cs: &Vec<char>, i: usize) -> (r: (Result<JsonValue, JsonError>, usize))
    requires
        i <= cs@.len(),
    ensures
        (read_view(r.0), r.1 as int) == value_at(cs@, i as int),
        r.1 <= cs@.len(),
    decreases cs@.len() - i, 1int,
{
    let j = skip_ws_at(cs, i);
    if j >= cs.len() {
        return (Err(JsonError::UnexpectedEnd), j);
    }
    let c = cs[j];
    if c == '{' {
        object_at_exec(cs, j + 1)
    } else if c == '[' {
        array_at_exec(cs, j + 1)
    } else if c == '"' {
        let (r, k) = read_string_at(cs, j);
        match r {
            Ok(s) => (Ok(JsonValue::Str(s)), k),
            Err(e) => (Err(JsonError::BadString(e)), k),
        }
    } else if c == 't' || c == 'f' || c == 'n' {
        let k = run_end_at(cs, j, false);
        let w = sub_vec(cs.as_slice(), j, k);
        let r = if eq_lit(w.as_slice(), "true") {
            Ok(JsonValue::Bool(true))
        } else if eq_lit(w.as_slice(), "false") {
            Ok(JsonValue::Bool(false))
        } else if eq_lit(w.as_slice(), "null") {
            Ok(JsonValue::Null)
        } else {
            Err(JsonError::UnknownLiteral(string_of(w.as_slice())))
        };
        (r, k)
    } else if ('0' <= c && c <= '9') || c == '-' {
        let k = run_end_at(cs, j, true);
        let w = sub_vec(cs.as_slice(), j, k);
        if number_syntax_ok_exec(&w) {
            (Ok(JsonValue::Number(string_of(w.as_slice()))), k)
        } else {
            (Err(JsonError::InvalidNumber(string_of(w.as_slice()))), k)
        }
    } else {
        (Err(JsonError::UnexpectedChar(c, j)), j)
    }
}

/// Reads the rest of an array at `i`, after its `[`.
fn array_at_exec(cs: &Vec<char>, i: usize) -> (r: (Result<JsonValue, JsonError>, usize))
    requires
        i <= cs@.len(),
    ensures
        (read_view(r.0), r.1 as int) == array_at(cs@, i as int),
        r.1 <= cs@.len(),
    decreases cs@.len() - i, 3int,
{
    let j = skip_ws_at(cs, i);
    if j < cs.len() && cs[j] == ']' {
        let empty: Vec<JsonValue> = Vec::new();
        assert(jsons_v(empty@) =~= Seq::<JsonV>::empty());
        return (Ok(JsonValue::Array(empty)), j + 1);
    }
    let mut acc: Vec<JsonValue> = Vec::new();
    let mut p = j;
    assert(jsons_v(acc@) =~= Seq::<JsonV>::empty());
    loop
        invariant
            i <= j <= p <= cs@.len(),
            elements_at(cs@, p as int, jsons_v(acc@)) == array_at(cs@, i as int),
        decreases cs@.len() - p,
    {
        let (r, k) = value_at_exec(cs, p);
        match r {
            Err(e) => {
                return (Err(e), k);
            },
            Ok(v) => {
                let m = skip_ws_at(cs, k);
                if m >= cs.len() {
                    return (Err(JsonError::ArraySeparator(None)), m);
                }
                let sep = cs[m];
                if sep == ',' {
                    if m + 1 > p {
                        proof {
                            lemma_jsons_push(acc@, v);
                        }
                        acc.push(v);
                        p = m + 1;
                    } else {
                        return (Err(JsonError::ArraySeparator(Some(','))), m + 1);
                    }
                } else if sep == ']' {
                    proof {
                        lemma_jsons_push(acc@, v);
                    }
                    acc.push(v);
                    return (Ok(JsonValue::Array(acc)), m + 1);
                } else {
                    return (Err(JsonError::ArraySeparator(Some(sep))), m + 1);
                }
            },
        }
    }
}

/// Reads the rest of an object at `i`, after its `{`.
fn object_at_exec(cs: &Vec<char>, i: usize) -> (r: (Result<JsonValue, JsonError>, usize))
    requires
        i <= cs@.len(),
    ensures
        (read_view(r.0), r.1 as int) == object_at(cs@, i as int),
        r.1 <= cs@.len(),
    decreases cs@.len() - i, 3int,
{
    let j = skip_ws_at(cs, i);
    if j < cs.len() && cs[j] == '}' {
        let empty: Vec<(String, JsonValue)> = Vec::new();
        assert(members_v(empty@) =~= Seq::<(Seq<char>, JsonV)>::empty());
        return (Ok(JsonValue::Object(empty)), j + 1);
    }
    let mut acc: Vec<(String, JsonValue)> = Vec::new();
    let mut p = j;
    assert(members_v(acc@) =~= Seq::<(Seq<char>, JsonV)>::empty());
    loop
        invariant
            i <= j <= p <= cs@.len(),
            members_at(cs@, p as int, members_v(acc@)) == object_at(cs@, i as int),
        decreases cs@.len() - p,
    {
        let q0 = skip_ws_at(cs, p);
        let (kr, k) = read_string_at(cs, q0);
        let key = match kr {
            Err(e) => {
                return (Err(JsonError::BadString(e)), k);
            },
            Ok(key) => key,
        };
        let m = skip_ws_at(cs, k);
        if m >= cs.len() {
            return (Err(JsonError::ExpectedColon(m)), m);
        }
        if cs[m] != ':' || m + 1 <= p {
            return (Err(JsonError::ExpectedColon(m + 1)), m + 1);
        }
        let (vr, q) = value_at_exec(cs, m + 1);
        let v = match vr {
            Err(e) => {
                return (Err(e), q);
            },
            Ok(v) => v,
        };
        let t = skip_ws_at(cs, q);
        if t >= cs.len() {
            return (Err(JsonError::ObjectSeparator(None)), t);
        }
        let sep = cs[t];
        if sep == ',' {
            if t + 1 > p {
                proof {
                    lemma_members_push(acc@, (key, v));
                }
                acc.push((key, v));
                p = t + 1;
            } else {
                return (Err(JsonError::ObjectSeparator(Some(','))), t + 1);
            }
        } else if sep == '}' {
            proof {
                lemma_members_push(acc@, (key, v));
            }
            acc.push((key, v));
            return (Ok(JsonValue::Object(acc)), t + 1);
        } else {
            return (Err(JsonError::ObjectSeparator(Some(sep))), t + 1);
        }
    }
}

/// Reads the JSON value that `input` holds, after any whitespace; what
/// follows the value is not read.
pub fn parse_json(input: &str) -> (r: Result<JsonValue, JsonError>)
    ensures
        read_view(r) == value_at(input@, 0).0,
{
    let cs = str_chars(input);
    value_at_exec(&cs, 0).0
}

/// The value of the last member named `key`, as reading an object into a
/// map keeps it.
pub open spec fn last_member(m: Seq<(Seq<char>, JsonV)>, key: Seq<char>) -> Option<JsonV>
    decreases m.len(),
{
    if m.len() == 0 {
        None
    } else if m.last().0 == key {
        Some(m.last().1)
    } else {
        last_member(m.drop_last(), key)
    }
}

/// The member `key` of an object; nothing for any other value.
pub open spec fn member_v(v: JsonV, key: Seq<char>) -> Option<JsonV> {
    match v {
        JsonV::Object(m) => last_member(m, key),
        _ => None,
    }
}

/// The text of a string value.
pub open spec fn str_of(o: Option<JsonV>) -> Option<Seq<char>> {
    match o {
        Some(JsonV::Str(s)) => Some(s),
        _ => None,
    }
}

pub open spec fn opt_json_v(o: Option<&JsonValue>) -> Option<JsonV> {
    match o {
        Some(v) => Some(json_v(*v)),
        None => None,
    }
}

/// `members_v` views each member in place.
pub proof fn lemma_members_v(s: Seq<(String, JsonValue)>)
    ensures
        members_v(s).len() == s.len(),
        forall|i: int| 0 <= i < s.len() ==> #[trigger] members_v(s)[i] == (s[i].0@, json_v(s[i].1)),
    decreases s.len(),
{
    if s.len() > 0 {
        lemma_members_v(s.drop_last());
    }
}

/// `jsons_v` views each element in place.
pub proof fn lemma_jsons_v(s: Seq<JsonValue>)
    ensures
        jsons_v(s).len() == s.len(),
        forall|i: int| 0 <= i < s.len() ==> #[trigger] jsons_v(s)[i] == json_v(s[i]),
    decreases s.len(),
{
    if s.len() > 0 {
        lemma_jsons_v(s.drop_last());
    }
}

impl JsonValue {
    /// The member `key` of an object: the last one of that name.
    pub fn get(&self, key: &str) -> (r: Option<&JsonValue>)
        ensures
            opt_json_v(r) == member_v(json_v(*self), key@),
    {
        match self {
            JsonValue::Object(m) => {
                proof {
                    lemma_members_v(m@);
                    assert(members_v(m@).take(m@.len() as int) =~= members_v(m@));
                }
                let mut k: usize = m.len();
                while k > 0
                    invariant
                        k <= m@.len(),
                        json_v(*self) == JsonV::Object(members_v(m@)),
                        members_v(m@).len() == m@.len(),
                        forall|i: int| 0 <= i < m@.len() ==> #[trigger] members_v(m@)[i] == (m@[i].0@, json_v(m@[i].1)),
                        last_member(members_v(m@), key@) == last_member(members_v(m@).take(k as int), key@),
                    decreases k,
                {
                    let ghost t = members_v(m@).take(k as int);
                    assert(t.drop_last() =~= members_v(m@).take(k - 1));
                    assert(t.last() == members_v(m@)[k - 1]);
                    if str_eq(m[k - 1].0.as_str(), key) {
                        return Some(&m[k - 1].1);
                    }
                    k = k - 1;
                }
                None
            },
            _ => None,
        }
    }

    /// The text of a string value.
    pub fn as_str(&self) -> (r: Option<&str>)
        ensures
            match r {
                Some(s) => json_v(*self) == JsonV::Str(s@),
                None => !(json_v(*self) is Str),
            },
    {
        match self {
            JsonValue::Str(s) => Some(s.as_str()),
            _ => None,
        }
    }

    /// The JSON text of the value.
    pub fn to_json_string(&self) -> (r: String)
        ensures
            r@ == json_text(json_v(*self)),
        decreases self,
    {
        let mut out: Vec<char> = Vec::new();
        match self {
            JsonValue::Null => extend_lit(&mut out, "null"),
            JsonValue::Bool(b) => if *b {
                extend_lit(&mut out, "true")
            } else {
                extend_lit(&mut out, "false")
            },
            JsonValue::Number(t) => extend_chars(&mut out, str_chars(t.as_str()).as_slice()),
            JsonValue::Str(t) => {
                extend_lit(&mut out, "\"");
                extend_chars(&mut out, str_chars(escape_json_string(t.as_str()).as_str()).as_slice());
                extend_lit(&mut out, "\"");
            },
            JsonValue::Array(a) => {
                extend_lit(&mut out, "[");
                let t = items_string(a);
                extend_chars(&mut out, str_chars(t.as_str()).as_slice());
                extend_lit(&mut out, "]");
            },
            JsonValue::Object(m) => {
                extend_lit(&mut out, "{");
                let t = members_string(m);
                extend_chars(&mut out, str_chars(t.as_str()).as_slice());
                extend_lit(&mut out, "}");
            },
        }
        assert(out@ =~= json_text(json_v(*self)));
        string_of(out.as_slice())
    }

    /// A copy of the value.
    pub fn duplicate(&self) -> (r: JsonValue)
        ensures
            json_v(r) == json_v(*self),
        decreases self,
    {
        match self {
            JsonValue::Null => JsonValue::Null,
            JsonValue::Bool(b) => JsonValue::Bool(*b),
            JsonValue::Number(t) => JsonValue::Number(string_of(str_chars(t.as_str()).as_slice())),
            JsonValue::Str(t) => JsonValue::Str(string_of(str_chars(t.as_str()).as_slice())),
            JsonValue::Array(a) => JsonValue::Array(duplicate_all(a)),
            JsonValue::Object(m) => JsonValue::Object(duplicate_members(m)),
        }
    }
}

fn items_string(a: &Vec<JsonValue>) -> (r: String)
    ensures
        r@ == items_text(jsons_v(a@)),
    decreases a,
{
    let mut out: Vec<char> = Vec::new();
    for i in 0..a.len()
        invariant
            out@ == items_text(jsons_v(a@.take(i as int))),
    {
        assert(decreases_to!(a => a@[i as int]));
        let t = a[i].to_json_string();
        proof {
            assert(a@.take(i + 1).drop_last() =~= a@.take(i as int));
            lemma_jsons_v(a@.take(i + 1));
            lemma_jsons_v(a@.take(i as int));
        }
        if i > 0 {
            extend_lit(&mut out, ",");
        }
        extend_chars(&mut out, str_chars(t.as_str()).as_slice());
        proof {
            let w = jsons_v(a@.take(i + 1));
            assert(w.drop_last() =~= jsons_v(a@.take(i as int)));
            assert(w.last() == json_v(a@[i as int]));
            if i == 0 {
                assert(jsons_v(a@.take(0)) =~= Seq::<JsonV>::empty());
            }
        }
        assert(out@ =~= items_text(jsons_v(a@.take(i + 1))));
    }
    assert(a@.take(a@.len() as int) =~= a@);
    string_of(out.as_slice())
}

fn members_string(m: &Vec<(String, JsonValue)>) -> (r: String)
    ensures
        r@ == members_text(members_v(m@)),
    decreases m,
{
    let mut out: Vec<char> = Vec::new();
    for i in 0..m.len()
        invariant
            out@ == members_text(members_v(m@.take(i as int))),
    {
        assert(decreases_to!(m => m@[i as int]));
        assert(decreases_to!(m@[i as int] => m@[i as int].1));
        let t = m[i].1.to_json_string();
        proof {
            assert(m@.take(i + 1).drop_last() =~= m@.take(i as int));
            lemma_members_v(m@.take(i + 1));
            lemma_members_v(m@.take(i as int));
        }
        if i > 0 {
            extend_lit(&mut out, ",");
        }
        extend_lit(&mut out, "\"");
        extend_chars(&mut out, str_chars(m[i].0.as_str()).as_slice());
        extend_lit(&mut out, "\":");
        extend_chars(&mut out, str_chars(t.as_str()).as_slice());
        proof {
            let w = members_v(m@.take(i + 1));
            assert(w.drop_last() =~= members_v(m@.take(i as int)));
            assert(w.last() == (m@[i as int].0@, json_v(m@[i as int].1)));
            if i == 0 {
                assert(members_v(m@.take(0)) =~= Seq::<(Seq<char>, JsonV)>::empty());
            }
        }
        assert(out@ =~= members_text(members_v(m@.take(i + 1))));
    }
    assert(m@.take(m@.len() as int) =~= m@);
    string_of(out.as_slice())
}

fn duplicate_all(a: &Vec<JsonValue>) -> (r: Vec<JsonValue>)
    ensures
        jsons_v(r@) == jsons_v(a@),
    decreases a,
{
    let mut out: Vec<JsonValue> = Vec::new();
    proof {
        lemma_jsons_v(a@);
    }
    for i in 0..a.len()
        invariant
            out@.len() == i,
            jsons_v(a@).len() == a@.len(),
            forall|k: int| 0 <= k < a@.len() ==> #[trigger] jsons_v(a@)[k] == json_v(a@[k]),
            forall|k: int| 0 <= k < i ==> #[trigger] json_v(out@[k]) == json_v(a@[k]),
    {
        assert(decreases_to!(a => a@[i as int]));
        out.push(a[i].duplicate());
    }
    proof {
        lemma_jsons_v(out@);
        assert(jsons_v(out@) =~= jsons_v(a@));
    }
    out
}

fn duplicate_members(m: &Vec<(String, JsonValue)>) -> (r: Vec<(String, JsonValue)>)
    ensures
        members_v(r@) == members_v(m@),
    decreases m,
{
    let mut out: Vec<(String, JsonValue)> = Vec::new();
    proof {
        lemma_members_v(m@);
    }
    for i in 0..m.len()
        invariant
            out@.len() == i,
            members_v(m@).len() == m@.len(),
            forall|k: int| 0 <= k < m@.len() ==> #[trigger] members_v(m@)[k] == (m@[k].0@, json_v(m@[k].1)),
            forall|k: int| 0 <= k < i ==> (#[trigger] out@[k]).0@ == m@[k].0@ && json_v(out@[k].1) == json_v(m@[k].1),
    {
        assert(decreases_to!(m => m@[i as int]));
        assert(decreases_to!(m@[i as int] => m@[i as int].1));
        let key = string_of(str_chars(m[i].0.as_str()).as_slice());
        let val = m[i].1.duplicate();
        out.push((key, val));
    }
    proof {
        lemma_members_v(out@);
        assert(members_v(out@) =~= members_v(m@));
    }
    out
}

/// The JSON text of a value: numbers as their text, strings escaped,
/// elements and members separated by `,`, keys written as they are.
pub open spec fn json_text(v: JsonV) -> Seq<char>
    decreases v,
{
    match v {
        JsonV::Null => "null"@,
        JsonV::Bool(b) => if b {
            "true"@
        } else {
            "false"@
        },
        JsonV::Number(t) => t,
        JsonV::Str(s) => "\""@ + escape_text(s) + "\""@,
        JsonV::Array(a) => "["@ + items_text(a) + "]"@,
        JsonV::Object(m) => "{"@ + members_text(m) + "}"@,
    }
}

pub open spec fn items_text(a: Seq<JsonV>) -> Seq<char>
    decreases a,
{
    if a.len() == 0 {
        seq![]
    } else if a.len() == 1 {
        json_text(a[0])
    } else {
        items_text(a.drop_last()) + ","@ + json_text(a.last())
    }
}

pub open spec fn members_text(m: Seq<(Seq<char>, JsonV)>) -> Seq<char>
    decreases m,
{
    if m.len() == 0 {
        seq![]
    } else if m.len() == 1 {
        "\""@ + m[0].0 + "\":"@ + json_text(m[0].1)
    } else {
        members_text(m.drop_last()) + ","@ + ("\""@ + m.last().0 + "\":"@ + json_text(m.last().1))
    }
}

impl JsonParser {
    /// The characters being read.
    pub closed spec fn text(&self) -> Seq<char> {
        self.chars@
    }

    /// The position of the next character to read.
    pub closed spec fn pos(&self) -> int {
        self.cursor as int
    }

    pub closed spec fn wf(&self) -> bool {
        self.cursor <= self.chars@.len()
    }

    /// A parser at the start of `input`.
    pub fn new(input: &str) -> (r: Self)
        ensures
            r.text() == input@,
            r.pos() == 0,
            r.wf(),
    {
        JsonParser { chars: str_chars(input), cursor: 0 }
    }

    /// Moves past whitespace.
    pub fn skip_whitespace(&mut self)
        requires
            old(self).wf(),
        ensures
            final(self).wf(),
            final(self).text() == old(self).text(),
            final(self).pos() == skip_ws(old(self).text(), old(self).pos()),
    {
        while self.cursor < self.chars.len() && is_ws_char(self.chars[self.cursor])
            invariant
                self.cursor <= self.chars@.len(),
                self.chars@ == old(self).chars@,
                skip_ws(self.chars@, self.cursor as int) == skip_ws(old(self).chars@, old(self).cursor as int),
            decreases self.chars@.len() - self.cursor,
        {
            self.cursor = self.cursor + 1;
        }
    }

    /// The next character, if any, without moving.
    pub fn peek(&self) -> (r: Option<char>)
        requires
            self.wf(),
        ensures
            r == (if self.pos() < self.text().len() {
                Some(self.text()[self.pos()])
            } else {
                None
            }),
    {
        if self.cursor < self.chars.len() {
            Some(self.chars[self.cursor])
        } else {
            None
        }
    }

    /// The next character, if any; moves past it.
    pub fn advance(&mut self) -> (r: Option<char>)
        requires
            old(self).wf(),
        ensures
            final(self).wf(),
            final(self).text() == old(self).text(),
            old(self).pos() < old(self).text().len() ==> r == Some(old(self).text()[old(self).pos()])
                && final(self).pos() == old(self).pos() + 1,
            old(self).pos() >= old(self).text().len() ==> r is None && final(self).pos() == old(self).pos(),
    {
        if self.cursor < self.chars.len() {
            let ch = self.chars[self.cursor];
            self.cursor = self.cursor + 1;
            Some(ch)
        } else {
            None
        }
    }

    /// Reads a string literal with its escapes (`\"`, `\\`, `\/`, `\b`, `\f`, `\n`, `\r`, `\t`;
    /// any other escaped character stands for itself).
    pub fn parse_string(&mut self) -> (r: Result<String, String>)
        requires
            old(self).wf(),
        ensures
            final(self).wf(),
            final(self).text() == old(self).text(),
            (res_view(r), final(self).pos()) == read_string(old(self).text(), old(self).pos()),
    {
        if self.advance() != Some('"') {
            return Err(string_of(str_chars("Expected '\"'").as_slice()));
        }
        let ghost cs = self.chars@;
        let mut s: Vec<char> = Vec::new();
        loop
            invariant
                self.wf(),
                self.chars@ == cs,
                cs == old(self).chars@,
                old(self).cursor < cs.len(),
                cs[old(self).cursor as int] == '"',
                scan_string(cs, self.cursor as int, s@) == scan_string(cs, old(self).cursor + 1, seq![]),
            decreases cs.len() - self.cursor,
        {
            match self.advance() {
                None => {
                    return Err(string_of(str_chars("Unterminated string literal").as_slice()));
                },
                Some(ch) => {
                    if ch == '"' {
                        return Ok(string_of(s.as_slice()));
                    } else if ch == '\\' {
                        match self.advance() {
                            None => {
                                return Err(string_of(str_chars("Unterminated escape sequence").as_slice()));
                            },
                            Some(e) => {
                                s.push(unescape_exec(e));
                            },
                        }
                    } else {
                        s.push(ch);
                    }
                },
            }
        }
    }

    /// Reads the run of characters satisfying `is_word` (ASCII letters, for
    /// `true`, `false` and `null`) or `is_number` (for numbers) from the
    /// current position.
    fn read_run(&mut self, number: bool) -> (r: String)
        requires
            old(self).wf(),
        ensures
            final(self).wf(),
            final(self).text() == old(self).text(),
            final(self).pos() == run_end(old(self).text(), old(self).pos(), number),
            r@ == old(self).text().subrange(old(self).pos(), run_end(old(self).text(), old(self).pos(), number)),
    {
        let start = self.cursor;
        while self.cursor < self.chars.len() && run_char(self.chars[self.cursor], number)
            invariant
                start <= self.cursor <= self.chars@.len(),
                self.chars@ == old(self).chars@,
                start == old(self).cursor,
                run_end(self.chars@, start as int, number) == run_end(self.chars@, self.cursor as int, number),
            decreases self.chars@.len() - self.cursor,
        {
            self.cursor = self.cursor + 1;
        }
        let mut w: Vec<char> = Vec::new();
        let mut k = start;
        while k < self.cursor
            invariant
                start <= k <= self.cursor <= self.chars@.len(),
                w@ == self.chars@.subrange(start as int, k as int),
            decreases self.cursor - k,
        {
            w.push(self.chars[k]);
            k = k + 1;
        }
        string_of(w.as_slice())
    }

    /// The offset of the next character to read.
    pub fn position(&self) -> (r: usize)
        ensures
            r == self.pos(),
    {
        self.cursor
    }

    /// Reads a literal word (`true`, `false`, `null`): the run of ASCII
    /// letters from the current position.
    pub fn read_word(&mut self) -> (r: String)
        requires
            old(self).wf(),
        ensures
            final(self).wf(),
            final(self).text() == old(self).text(),
            final(self).pos() == run_end(old(self).text(), old(self).pos(), false),
            r@ == old(self).text().subrange(old(self).pos(), run_end(old(self).text(), old(self).pos(), false)),
    {
        self.read_run(false)
    }

    /// Reads the text of a number: the run of digits, signs, `.`, `e` and
    /// `E` from the current position.
    pub fn read_number_text(&mut self) -> (r: String)
        requires
            old(self).wf(),
        ensures
            final(self).wf(),
            final(self).text() == old(self).text(),
            final(self).pos() == run_end(old(self).text(), old(self).pos(), true),
            r@ == old(self).text().subrange(old(self).pos(), run_end(old(self).text(), old(self).pos(), true)),
    {
        self.read_run(true)
    }

}

proof fn lemma_escape_front(s: Seq<char>)
    requires
        s.len() > 0,
    ensures
        escape_text(s) == escape_char(s[0]) + escape_text(s.drop_first()),
    decreases s.len(),
{
    if s.len() == 1 {
        assert(s.drop_last() =~= Seq::<char>::empty());
        assert(s.drop_first() =~= Seq::<char>::empty());
        assert(escape_text(s.drop_last()) == Seq::<char>::empty());
        assert(escape_text(s) =~= escape_char(s[0]));
    } else {
        lemma_escape_front(s.drop_last());
        assert(s.drop_last().drop_first() =~= s.drop_first().drop_last());
        assert(s.drop_first().last() == s.last());
        assert(escape_text(s) =~= escape_char(s[0]) + escape_text(s.drop_first()));
    }
}

proof fn lemma_scan_escaped(cs: Seq<char>, i: int, s: Seq<char>, acc: Seq<char>)
    requires
        0 <= i,
        i + escape_text(s).len() < cs.len(),
        cs.subrange(i, i + escape_text(s).len()) == escape_text(s),
        cs[i + escape_text(s).len()] == '"',
    ensures
        scan_string(cs, i, acc) == (Ok::<Seq<char>, Seq<char>>(acc + s), i + escape_text(s).len() + 1),
    decreases s.len(),
{
    if s.len() == 0 {
        assert(acc + s =~= acc);
    } else {
        lemma_escape_front(s);
        let c = s[0];
        let e = escape_char(c);
        let rest = s.drop_first();
        let n = escape_text(s).len() as int;
        assert(cs.subrange(i, i + n)[0] == e[0]);
        if e.len() == 1 {
            assert(cs[i] == c);
            assert(cs.subrange(i + 1, i + 1 + escape_text(rest).len()) =~= cs.subrange(i, i + n).subrange(
                1,
                n,
            ));
            assert(escape_text(s).subrange(1, n) =~= escape_text(rest));
            lemma_scan_escaped(cs, i + 1, rest, acc.push(c));
            assert(acc.push(c) + rest =~= acc + s);
        } else {
            assert(cs.subrange(i, i + n)[1] == e[1]);
            assert(cs[i] == '\\');
            assert(unescape(cs[i + 1]) == c);
            assert(cs.subrange(i + 2, i + 2 + escape_text(rest).len()) =~= cs.subrange(i, i + n).subrange(
                2,
                n,
            ));
            assert(escape_text(s).subrange(2, n) =~= escape_text(rest));
            lemma_scan_escaped(cs, i + 2, rest, acc.push(c));
            assert(acc.push(c) + rest =~= acc + s);
        }
    }
}

/// Reading a string literal gives back the text that was escaped into it:
/// for every text `s`, the literal `"` + escape(s) + `"` reads as `s` and
/// ends just after its closing quote, whatever follows.
pub proof fn law_read_string_inverts_escape(s: Seq<char>, rest: Seq<char>)
    ensures
        read_string(seq!['"'] + escape_text(s) + seq!['"'] + rest, 0) == (
            Ok::<Seq<char>, Seq<char>>(s),
            escape_text(s).len() + 2int,
        ),
{
    let cs = seq!['"'] + escape_text(s) + seq!['"'] + rest;
    let n = escape_text(s).len() as int;
    assert(cs.subrange(1, 1 + n) =~= escape_text(s));
    assert(cs[1 + n] == '"');
    lemma_scan_escaped(cs, 1, s, seq![]);
    assert(Seq::<char>::empty() + s =~= s);
}

/// An escape `\c` stands for the character JSON gives it: `b` backspace,
/// `f` form feed, `n` line feed, `r` carriage return, `t` tab; `"`, `\`
/// and `/` (and any other character) stand for themselves.
pub proof fn law_unescape_json(c: char)
    ensures
        c == 'b' ==> unescape(c) == '\x08',
        c == 'f' ==> unescape(c) == '\x0c',
        c == 'n' ==> unescape(c) == '\n',
        c == 'r' ==> unescape(c) == '\r',
        c == 't' ==> unescape(c) == '\t',
        c == '"' || c == '\\' || c == '/' ==> unescape(c) == c,
{
}

} // verus!
