use vstd::prelude::*;
use crate::text::{str_chars, string_of, sub_vec, lines, lines_exec, dv, nat_decimal, u64_decimal};
use crate::llvm_text::{char_utf8_len, utf8_len};
use crate::effects::str_eq;
use crate::json::{
    json_v, jsons_v, lemma_jsons_v, lemma_members_v, members_v, member_v, opt_json_v, parse_json, read_view, str_of,
    value_at, JsonV, JsonValue,
};

verus! {

/// A zero-based line and character position in a document.
#[derive(Debug, Clone, Copy, PartialEq, Eq, Structural)]
pub struct Position {
    pub line: u32,
    pub character: u32,
}

impl Position {
    pub fn new(line: u32, character: u32) -> (r: Self)
        ensures
            r.line == line,
            r.character == character,
    {
        Position { line, character }
    }
}

/// A span of a document, from `start` to `end`.
#[derive(Debug, Clone, Copy, PartialEq, Eq, Structural)]
pub struct Range {
    pub start: Position,
    pub end: Position,
}

impl Range {
    pub fn new(start: Position, end: Position) -> (r: Self)
        ensures
            r.start == start,
            r.end == end,
    {
        Range { start, end }
    }
}

/// A problem reported on a span of a document; severity 1 is an error,
/// 2 a warning.
#[derive(Debug, Clone)]
pub struct Diagnostic {
    pub range: Range,
    pub severity: u32,
    pub message: String,
    pub source: String,
}

/// A replacement of the text of a span.
#[derive(Debug, Clone)]
pub struct TextEdit {
    pub range: Range,
    pub new_text: String,
}

/// A character that can be part of an identifier: ASCII letter or digit, or `_`.
pub open spec fn is_word_char(c: char) -> bool {
    ||| ('a' <= c && c <= 'z')
    ||| ('A' <= c && c <= 'Z')
    ||| ('0' <= c && c <= '9')
    ||| c == '_'
}

fn is_word_char_exec(c: char) -> (r: bool)
    ensures
        r == is_word_char(c),
{
    ('a' <= c && c <= 'z') || ('A' <= c && c <= 'Z') || ('0' <= c && c <= '9') || c == '_'
}

/// Where the identifier around position `i` of `s` begins.
pub open spec fn word_start(s: Seq<char>, i: int) -> int
    decreases i,
{
    if i <= 0 || i > s.len() || !is_word_char(s[i - 1]) {
        i
    } else {
        word_start(s, i - 1)
    }
}

/// Where the identifier starting at or before position `i` of `s` ends.
pub open spec fn word_end(s: Seq<char>, i: int) -> int
    decreases s.len() - i,
{
    if i < 0 || i >= s.len() || !is_word_char(s[i]) {
        i
    } else {
        word_end(s, i + 1)
    }
}

/// The identifier of `text` that covers character `col` of line `line`
/// (lines as `str::lines` gives them), if there is one.
pub open spec fn word_at(text: Seq<char>, line: int, col: int) -> Option<Seq<char>> {
    if line < 0 || line >= lines(text).len() {
        None
    } else {
        let l = lines(text)[line];
        if col < 0 || col >= l.len() {
            None
        } else {
            let a = word_start(l, col);
            let b = word_end(l, col);
            if a == b {
                None
            } else {
                Some(l.subrange(a, b))
            }
        }
    }
}

proof fn lemma_word_start_bounds(s: Seq<char>, i: int)
    requires
        0 <= i <= s.len(),
    ensures
        0 <= word_start(s, i) <= i,
    decreases i,
{
    if i > 0 && is_word_char(s[i - 1]) {
        lemma_word_start_bounds(s, i - 1);
    }
}

proof fn lemma_word_end_bounds(s: Seq<char>, i: int)
    requires
        0 <= i <= s.len(),
    ensures
        i <= word_end(s, i) <= s.len(),
    decreases s.len() - i,
{
    if i < s.len() && is_word_char(s[i]) {
        lemma_word_end_bounds(s, i + 1);
    }
}

/// The hover text of a name of the standard prelude.
pub open spec fn prelude_hover_text(word: Seq<char>) -> Option<Seq<char>> {
    if word == "Percentage"@ {
        Some("```tungsten\ntype Percentage = u8(0..=100);\n```\n\n*Standard refinement:* Valid percentage [0..=100]"@)
    } else if word == "Port"@ {
        Some("```tungsten\ntype Port = u16(1..=65535);\n```\n\n*Standard refinement:* TCP/UDP port [1..=65535]"@)
    } else if word == "NonZeroU32"@ {
        Some("```tungsten\ntype NonZeroU32 = u32(1..=4294967295);\n```\n\n*Standard refinement:* Non-zero integer [1..=4294967295]"@)
    } else if word == "Db"@ {
        Some("```tungsten\neffect Db\n```\n\n*Algebraic Effect:* Database query capability"@)
    } else if word == "IOError"@ {
        Some("```tungsten\neffect IOError\n```\n\n*Algebraic Effect:* I/O error capability"@)
    } else {
        None
    }
}

/// Hover documentation for the refinement types and effects of the
/// standard prelude.
pub fn prelude_hover(word: &str) -> (r: Option<String>)
    ensures
        match r {
            Some(h) => prelude_hover_text(word@) == Some(h@),
            None => prelude_hover_text(word@) is None,
        },
{
    if str_eq(word, "Percentage") {
        Some("```tungsten\ntype Percentage = u8(0..=100);\n```\n\n*Standard refinement:* Valid percentage [0..=100]".to_string())
    } else if str_eq(word, "Port") {
        Some("```tungsten\ntype Port = u16(1..=65535);\n```\n\n*Standard refinement:* TCP/UDP port [1..=65535]".to_string())
    } else if str_eq(word, "NonZeroU32") {
        Some("```tungsten\ntype NonZeroU32 = u32(1..=4294967295);\n```\n\n*Standard refinement:* Non-zero integer [1..=4294967295]".to_string())
    } else if str_eq(word, "Db") {
        Some("```tungsten\neffect Db\n```\n\n*Algebraic Effect:* Database query capability".to_string())
    } else if str_eq(word, "IOError") {
        Some("```tungsten\neffect IOError\n```\n\n*Algebraic Effect:* I/O error capability".to_string())
    } else {
        None
    }
}

/// The documents a client has opened, by URI, a later entry for a URI
/// replacing an earlier one.
pub open spec fn documents_map(v: Seq<(String, String)>) -> Map<Seq<char>, Seq<char>>
    decreases v.len(),
{
    if v.len() == 0 {
        Map::empty()
    } else {
        documents_map(v.drop_last()).insert(v.last().0@, v.last().1@)
    }
}

proof fn lemma_documents_last(v: Seq<(String, String)>, i: int, uri: Seq<char>)
    requires
        -1 <= i < v.len(),
        i >= 0 ==> v[i].0@ == uri,
        forall|k: int| i < k < v.len() ==> #[trigger] v[k].0@ != uri,
    ensures
        i >= 0 ==> documents_map(v).contains_key(uri) && documents_map(v)[uri] == v[i].1@,
        i < 0 ==> !documents_map(v).contains_key(uri),
    decreases v.len(),
{
    if v.len() > 0 && i < v.len() - 1 {
        lemma_documents_last(v.drop_last(), i, uri);
    }
}

/// The document store of the language server.
pub struct LspServer {
    documents: Vec<(String, String)>,
}

impl View for LspServer {
    type V = Map<Seq<char>, Seq<char>>;

    closed spec fn view(&self) -> Map<Seq<char>, Seq<char>> {
        documents_map(self.documents@)
    }
}

impl LspServer {
    /// A server with no open document.
    pub fn new() -> (r: Self)
        ensures
            r@ == Map::<Seq<char>, Seq<char>>::empty(),
    {
        LspServer { documents: Vec::new() }
    }

    /// The identifier under the cursor at `target_col` of line `target_line`.
    pub fn extract_word_at(text: &str, target_line: usize, target_col: usize) -> (r: Option<String>)
        ensures
            match r {
                Some(w) => word_at(text@, target_line as int, target_col as int) == Some(w@),
                None => word_at(text@, target_line as int, target_col as int) is None,
            },
    {
        let chars = str_chars(text);
        let all = lines_exec(chars.as_slice());
        if target_line >= all.len() {
            return None;
        }
        let line = &all[target_line];
        assert(line@ == lines(text@)[target_line as int]);
        if target_col >= line.len() {
            return None;
        }
        let mut start = target_col;
        while start > 0 && is_word_char_exec(line[start - 1])
            invariant
                start <= target_col < line@.len(),
                word_start(line@, target_col as int) == word_start(line@, start as int),
            decreases start,
        {
            start = start - 1;
        }
        let mut end = target_col;
        while end < line.len() && is_word_char_exec(line[end])
            invariant
                target_col <= end <= line@.len(),
                word_end(line@, target_col as int) == word_end(line@, end as int),
            decreases line@.len() - end,
        {
            end = end + 1;
        }
        if start == end {
            None
        } else {
            let w = sub_vec(line.as_slice(), start, end);
            Some(string_of(w.as_slice()))
        }
    }

    /// Records the current text of the document at `uri`.
    pub fn set_document(&mut self, uri: String, text: String)
        ensures
            final(self)@ == old(self)@.insert(uri@, text@),
    {
        let ghost old_docs = self.documents@;
        self.documents.push((uri, text));
        assert(self.documents@.drop_last() =~= old_docs);
    }

    /// The current text of the document at `uri`, if it is open.
    pub fn document(&self, uri: &str) -> (r: Option<&String>)
        ensures
            match r {
                Some(t) => self@.contains_key(uri@) && self@[uri@] == t@,
                None => !self@.contains_key(uri@),
            },
    {
        let mut i: usize = self.documents.len();
        while i > 0
            invariant
                i <= self.documents@.len(),
                forall|k: int| i <= k < self.documents@.len() ==> #[trigger] self.documents@[k].0@ != uri@,
            decreases i,
        {
            i = i - 1;
            if str_eq(self.documents[i].0.as_str(), uri) {
                proof {
                    lemma_documents_last(self.documents@, i as int, uri@);
                }
                return Some(&self.documents[i].1);
            }
        }
        proof {
            lemma_documents_last(self.documents@, -1, uri@);
        }
        None
    }
}

/// What a read of a document gives back is the text last set for it.
pub proof fn law_document_read_after_set(docs: Map<Seq<char>, Seq<char>>, uri: Seq<char>, text: Seq<char>, other: Seq<char>)
    ensures
        docs.insert(uri, text)[uri] == text,
        other != uri ==> docs.insert(uri, text).contains_key(other) == docs.contains_key(other),
        other != uri && docs.contains_key(other) ==> docs.insert(uri, text)[other] == docs[other],
{
}

/// What the server does with a message: answer it, publish the diagnostics
/// of a document it now holds, or nothing.
#[derive(Debug)]
pub enum LspStep {
    /// Answer `initialize` with the server's capabilities.
    Initialize { id: Option<JsonValue> },
    /// The document `uri` now reads `text`: publish its diagnostics.
    PublishDiagnostics { uri: String, text: String },
    /// Answer a hover request on document `uri` at the position this value
    /// gives, or with no result where it gives none.
    Hover { id: JsonValue, uri: String, position: JsonValue },
    /// Answer a formatting request on document `uri`.
    Formatting { id: JsonValue, uri: String },
    /// Answer request `id` with no result.
    NullResult { id: JsonValue },
    /// Answer `shutdown`.
    Shutdown { id: Option<JsonValue> },
    /// Send nothing.
    Ignore,
}

pub enum LspStepV {
    Initialize(Option<JsonV>),
    PublishDiagnostics(Seq<char>, Seq<char>),
    Hover(JsonV, Seq<char>, JsonV),
    Formatting(JsonV, Seq<char>),
    NullResult(JsonV),
    Shutdown(Option<JsonV>),
    Ignore,
}

pub open spec fn step_v(s: LspStep) -> LspStepV {
    match s {
        LspStep::Initialize { id } => LspStepV::Initialize(opt_v(id)),
        LspStep::PublishDiagnostics { uri, text } => LspStepV::PublishDiagnostics(uri@, text@),
        LspStep::Hover { id, uri, position } => LspStepV::Hover(json_v(id), uri@, json_v(position)),
        LspStep::Formatting { id, uri } => LspStepV::Formatting(json_v(id), uri@),
        LspStep::NullResult { id } => LspStepV::NullResult(json_v(id)),
        LspStep::Shutdown { id } => LspStepV::Shutdown(opt_v(id)),
        LspStep::Ignore => LspStepV::Ignore,
    }
}

pub open spec fn opt_v(o: Option<JsonValue>) -> Option<JsonV> {
    match o {
        Some(v) => Some(json_v(v)),
        None => None,
    }
}

/// A member of a member, if both are there.
pub open spec fn member2(v: JsonV, a: Seq<char>, b: Seq<char>) -> Option<JsonV> {
    match member_v(v, a) {
        Some(x) => member_v(x, b),
        None => None,
    }
}

/// The text of the first content change of a `didChange` notification.
pub open spec fn first_change_text(params: JsonV) -> Option<Seq<char>> {
    match member_v(params, "contentChanges"@) {
        Some(JsonV::Array(a)) => if a.len() > 0 {
            str_of(member_v(a[0], "text"@))
        } else {
            None
        },
        _ => None,
    }
}

/// What a message asks of the server: by its `method`, what to answer or
/// publish, and the documents held afterwards.
pub open spec fn message_step(docs: Map<Seq<char>, Seq<char>>, root: JsonV) -> (LspStepV, Map<Seq<char>, Seq<char>>) {
    let method = str_of(member_v(root, "method"@));
    let id = member_v(root, "id"@);
    let params = member_v(root, "params"@);
    if method == Some("initialize"@) {
        (LspStepV::Initialize(id), docs)
    } else if method == Some("textDocument/didOpen"@) {
        match (str_of(member2(params.unwrap_or(JsonV::Null), "textDocument"@, "uri"@)), str_of(
            member2(params.unwrap_or(JsonV::Null), "textDocument"@, "text"@),
        )) {
            (Some(uri), Some(text)) => (LspStepV::PublishDiagnostics(uri, text), docs.insert(uri, text)),
            _ => (LspStepV::Ignore, docs),
        }
    } else if method == Some("textDocument/didChange"@) {
        match (str_of(member2(params.unwrap_or(JsonV::Null), "textDocument"@, "uri"@)), first_change_text(
            params.unwrap_or(JsonV::Null),
        )) {
            (Some(uri), Some(text)) => (LspStepV::PublishDiagnostics(uri, text), docs.insert(uri, text)),
            _ => (LspStepV::Ignore, docs),
        }
    } else if method == Some("textDocument/hover"@) {
        match id {
            None => (LspStepV::Ignore, docs),
            Some(id) => match (
                str_of(member2(params.unwrap_or(JsonV::Null), "textDocument"@, "uri"@)),
                member_v(params.unwrap_or(JsonV::Null), "position"@),
            ) {
                (Some(uri), Some(pos)) => (LspStepV::Hover(id, uri, pos), docs),
                _ => (LspStepV::NullResult(id), docs),
            },
        }
    } else if method == Some("textDocument/formatting"@) {
        match id {
            None => (LspStepV::Ignore, docs),
            Some(id) => match str_of(member2(params.unwrap_or(JsonV::Null), "textDocument"@, "uri"@)) {
                Some(uri) => (LspStepV::Formatting(id, uri), docs),
                None => (LspStepV::NullResult(id), docs),
            },
        }
    } else if method == Some("shutdown"@) {
        (LspStepV::Shutdown(id), docs)
    } else {
        (LspStepV::Ignore, docs)
    }
}

/// The member `a` of `v`, then its member `b`.
fn get2<'a>(v: &'a JsonValue, a: &str, b: &str) -> (r: Option<&'a JsonValue>)
    ensures
        opt_json_v(r) == member2(json_v(*v), a@, b@),
{
    match v.get(a) {
        Some(x) => x.get(b),
        None => None,
    }
}

fn opt_str_of(o: Option<&JsonValue>) -> (r: Option<String>)
    ensures
        match r {
            Some(s) => str_of(opt_json_v(o)) == Some(s@),
            None => str_of(opt_json_v(o)) is None,
        },
{
    match o {
        Some(v) => match v.as_str() {
            Some(s) => Some(string_of(str_chars(s).as_slice())),
            None => None,
        },
        None => None,
    }
}

fn copy_opt(o: Option<&JsonValue>) -> (r: Option<JsonValue>)
    ensures
        opt_v(r) == opt_json_v(o),
{
    match o {
        Some(v) => Some(v.duplicate()),
        None => None,
    }
}

impl LspServer {
    /// Reads a message and decides what it asks: documents opened or
    /// changed are stored and their diagnostics are to be published; hover,
    /// formatting, `initialize` and `shutdown` are to be answered; anything
    /// else, and a text that is not JSON, gets nothing.
    pub fn handle_message(&mut self, json_str: &str) -> (r: LspStep)
        ensures
            match value_at(json_str@, 0).0 {
                Ok(root) => (step_v(r), final(self)@) == message_step(old(self)@, root),
                Err(_) => step_v(r) == LspStepV::Ignore && final(self)@ == old(self)@,
            },
    {
        proof {
            reveal_strlit("initialize");
            reveal_strlit("textDocument/didOpen");
            reveal_strlit("textDocument/didChange");
            reveal_strlit("textDocument/hover");
            reveal_strlit("textDocument/formatting");
            reveal_strlit("shutdown");
        }
        let root = match parse_json(json_str) {
            Ok(v) => v,
            Err(_) => {
                return LspStep::Ignore;
            },
        };
        let ghost rv = json_v(root);
        let method = opt_str_of(root.get("method"));
        let id = copy_opt(root.get("id"));
        let null = JsonValue::Null;
        let params = match root.get("params") {
            Some(p) => p,
            None => &null,
        };
        assert(json_v(*params) == member_v(rv, "params"@).unwrap_or(JsonV::Null));
        let m = match method {
            Some(m) => m,
            None => {
                return LspStep::Ignore;
            },
        };
        let mc = str_chars(m.as_str());
        if crate::text::eq_lit(mc.as_slice(), "initialize") {
            LspStep::Initialize { id }
        } else if crate::text::eq_lit(mc.as_slice(), "textDocument/didOpen") {
            let uri = opt_str_of(get2(params, "textDocument", "uri"));
            let text = opt_str_of(get2(params, "textDocument", "text"));
            match (uri, text) {
                (Some(uri), Some(text)) => {
                    let u = string_of(str_chars(uri.as_str()).as_slice());
                    let t = string_of(str_chars(text.as_str()).as_slice());
                    self.set_document(u, t);
                    LspStep::PublishDiagnostics { uri, text }
                },
                _ => LspStep::Ignore,
            }
        } else if crate::text::eq_lit(mc.as_slice(), "textDocument/didChange") {
            let uri = opt_str_of(get2(params, "textDocument", "uri"));
            let text = match params.get("contentChanges") {
                Some(JsonValue::Array(a)) => if a.len() > 0 {
                    proof {
                        lemma_jsons_v(a@);
                    }
                    opt_str_of(a[0].get("text"))
                } else {
                    None
                },
                _ => None,
            };
            match (uri, text) {
                (Some(uri), Some(text)) => {
                    let u = string_of(str_chars(uri.as_str()).as_slice());
                    let t = string_of(str_chars(text.as_str()).as_slice());
                    self.set_document(u, t);
                    LspStep::PublishDiagnostics { uri, text }
                },
                _ => LspStep::Ignore,
            }
        } else if crate::text::eq_lit(mc.as_slice(), "textDocument/hover") {
            match id {
                None => LspStep::Ignore,
                Some(id) => {
                    let uri = opt_str_of(get2(params, "textDocument", "uri"));
                    let pos = copy_opt(params.get("position"));
                    match (uri, pos) {
                        (Some(uri), Some(position)) => LspStep::Hover { id, uri, position },
                        _ => LspStep::NullResult { id },
                    }
                },
            }
        } else if crate::text::eq_lit(mc.as_slice(), "textDocument/formatting") {
            match id {
                None => LspStep::Ignore,
                Some(id) => match opt_str_of(get2(params, "textDocument", "uri")) {
                    Some(uri) => LspStep::Formatting { id, uri },
                    None => LspStep::NullResult { id },
                },
            }
        } else if crate::text::eq_lit(mc.as_slice(), "shutdown") {
            LspStep::Shutdown { id }
        } else {
            LspStep::Ignore
        }
    }
}

// ---------------------------------------------------------------------------
// Replies
// ---------------------------------------------------------------------------

/// A JSON-RPC message: the protocol version, the request's id where there
/// is one, then `rest`.
pub open spec fn rpc_object(id: Option<JsonV>, rest: Seq<(Seq<char>, JsonV)>) -> JsonV {
    JsonV::Object(
        seq![("jsonrpc"@, JsonV::Str("2.0"@))] + match id {
            Some(i) => seq![("id"@, i)],
            None => Seq::<(Seq<char>, JsonV)>::empty(),
        } + rest,
    )
}

/// The answer to request `id` with `result`.
pub open spec fn result_reply(id: Option<JsonV>, result: JsonV) -> JsonV {
    rpc_object(id, seq![("result"@, result)])
}

/// What the server can do: full-text synchronisation, hover and formatting.
pub open spec fn capabilities_v() -> JsonV {
    JsonV::Object(
        seq![
            ("textDocumentSync"@, JsonV::Number("1"@)),
            ("hoverProvider"@, JsonV::Bool(true)),
            ("documentFormattingProvider"@, JsonV::Bool(true)),
        ],
    )
}

/// The answer to `initialize`.
pub open spec fn initialize_reply_v(id: Option<JsonV>) -> JsonV {
    result_reply(id, JsonV::Object(seq![("capabilities"@, capabilities_v())]))
}

/// The result of a hover request: the markdown text, or `null`.
pub open spec fn hover_result_v(info: Option<Seq<char>>) -> JsonV {
    match info {
        Some(t) => JsonV::Object(
            seq![("contents"@, JsonV::Object(seq![("kind"@, JsonV::Str("markdown"@)), ("value"@, JsonV::Str(t))]))],
        ),
        None => JsonV::Null,
    }
}

/// The hover text for `word`: what the document's parse gives for the item
/// of that name (`item` is `None` where the document does not parse), or
/// else the prelude's text for it.
pub open spec fn hover_info_v(word: Option<Seq<char>>, item: Option<Option<Seq<char>>>) -> Option<Seq<char>> {
    match (word, item) {
        (Some(w), Some(Some(t))) => Some(t),
        (Some(w), Some(None)) => prelude_hover_text(w),
        _ => None,
    }
}

pub open spec fn number_v(n: nat) -> JsonV {
    JsonV::Number(nat_decimal(n))
}

pub open spec fn position_v(p: Position) -> JsonV {
    JsonV::Object(seq![("line"@, number_v(p.line as nat)), ("character"@, number_v(p.character as nat))])
}

pub open spec fn range_v(r: Range) -> JsonV {
    JsonV::Object(seq![("start"@, position_v(r.start)), ("end"@, position_v(r.end))])
}

pub open spec fn diagnostic_v(d: Diagnostic) -> JsonV {
    JsonV::Object(
        seq![
            ("range"@, range_v(d.range)),
            ("severity"@, number_v(d.severity as nat)),
            ("message"@, JsonV::Str(d.message@)),
            ("source"@, JsonV::Str(d.source@)),
        ],
    )
}

pub open spec fn text_edit_v(e: TextEdit) -> JsonV {
    JsonV::Object(seq![("range"@, range_v(e.range)), ("newText"@, JsonV::Str(e.new_text@))])
}

/// The notification publishing `ds` for the document `uri`.
pub open spec fn diagnostics_notification_v(uri: Seq<char>, ds: Seq<Diagnostic>) -> JsonV {
    JsonV::Object(
        seq![
            ("jsonrpc"@, JsonV::Str("2.0"@)),
            ("method"@, JsonV::Str("textDocument/publishDiagnostics"@)),
            (
                "params"@,
                JsonV::Object(
                    seq![
                        ("uri"@, JsonV::Str(uri)),
                        ("diagnostics"@, JsonV::Array(Seq::new(ds.len(), |i: int| diagnostic_v(ds[i])))),
                    ],
                ),
            ),
        ],
    )
}

/// The edit replacing the whole of `text` with `formatted`: from the start
/// to the end of its last line (its line count, at least 1, and the UTF-8
/// length of its last line, each taken modulo 2^32 as a `u32` cast does).
pub open spec fn whole_text_edit_v(text: Seq<char>, formatted: Seq<char>) -> JsonV {
    let ls = lines(text);
    let n: nat = if ls.len() == 0 { 1 } else { ls.len() };
    let last: nat = if ls.len() == 0 { 0 } else { utf8_len(ls.last()) };
    JsonV::Object(
        seq![
            (
                "range"@,
                JsonV::Object(
                    seq![
                        ("start"@, JsonV::Object(seq![("line"@, number_v(0)), ("character"@, number_v(0))])),
                        (
                            "end"@,
                            JsonV::Object(
                                seq![
                                    ("line"@, number_v(n % 0x1_0000_0000)),
                                    ("character"@, number_v(last % 0x1_0000_0000)),
                                ],
                            ),
                        ),
                    ],
                ),
            ),
            ("newText"@, JsonV::Str(formatted)),
        ],
    )
}

/// The result of a formatting request on `doc`: the edit to the formatted
/// text where the document is open and the formatter accepts it, else `null`.
pub open spec fn formatting_result_v(doc: Option<Seq<char>>, formatted: Option<Seq<char>>) -> JsonV {
    match (doc, formatted) {
        (Some(text), Some(f)) => JsonV::Array(seq![whole_text_edit_v(text, f)]),
        _ => JsonV::Null,
    }
}

/// The text of an open document, or the empty text.
pub open spec fn doc_text(docs: Map<Seq<char>, Seq<char>>, uri: Seq<char>) -> Seq<char> {
    if docs.contains_key(uri) {
        docs[uri]
    } else {
        seq![]
    }
}

pub open spec fn doc_opt(docs: Map<Seq<char>, Seq<char>>, uri: Seq<char>) -> Option<Seq<char>> {
    if docs.contains_key(uri) {
        Some(docs[uri])
    } else {
        None
    }
}

/// What the parts of a reply that rest on the language's parser and checker,
/// and on reading numbers as floating point, came to.
pub struct OutsideAnswers {
    /// The hover position the request gives, where its numbers give one.
    pub position: Option<Position>,
    /// `None` where the document does not parse; else the hover text of the
    /// item it declares under the hovered word, if any.
    pub item_hover: Option<Option<String>>,
    /// The diagnostics of the document being published.
    pub diagnostics: Vec<Diagnostic>,
    /// The formatted text of the document, where the formatter accepts it.
    pub formatted: Option<String>,
}

pub open spec fn opt_text(o: Option<String>) -> Option<Seq<char>> {
    match o {
        Some(s) => Some(s@),
        None => None,
    }
}

pub open spec fn item_v(o: Option<Option<String>>) -> Option<Option<Seq<char>>> {
    match o {
        Some(x) => Some(opt_text(x)),
        None => None,
    }
}

/// The message the server sends for `step`, given what outside reading
/// came to.
pub open spec fn reply_v(docs: Map<Seq<char>, Seq<char>>, step: LspStepV, a: OutsideAnswers) -> Option<JsonV> {
    match step {
        LspStepV::Initialize(id) => Some(initialize_reply_v(id)),
        LspStepV::PublishDiagnostics(uri, _) => Some(diagnostics_notification_v(uri, a.diagnostics@)),
        LspStepV::Hover(id, uri, _) => match a.position {
            Some(p) => Some(
                result_reply(
                    Some(id),
                    hover_result_v(
                        hover_info_v(word_at(doc_text(docs, uri), p.line as int, p.character as int), item_v(a.item_hover)),
                    ),
                ),
            ),
            None => Some(result_reply(Some(id), JsonV::Null)),
        },
        LspStepV::Formatting(id, uri) => Some(
            result_reply(Some(id), formatting_result_v(doc_opt(docs, uri), opt_text(a.formatted))),
        ),
        LspStepV::NullResult(id) => Some(result_reply(Some(id), JsonV::Null)),
        LspStepV::Shutdown(id) => Some(result_reply(id, JsonV::Null)),
        LspStepV::Ignore => None,
    }
}

fn text_of(s: &str) -> (r: String)
    ensures
        r@ == s@,
{
    string_of(str_chars(s).as_slice())
}

fn object(m: Vec<(String, JsonValue)>) -> (r: JsonValue)
    ensures
        r == JsonValue::Object(m),
{
    JsonValue::Object(m)
}

fn number(n: u32) -> (r: JsonValue)
    ensures
        json_v(r) == number_v(n as nat),
{
    JsonValue::Number(string_of(u64_decimal(n as u64).as_slice()))
}

proof fn lemma_members2(a: (String, JsonValue), b: (String, JsonValue))
    ensures
        members_v(seq![a, b]) == seq![(a.0@, json_v(a.1)), (b.0@, json_v(b.1))],
{
    lemma_members_v(seq![a, b]);
    assert(members_v(seq![a, b]) =~= seq![(a.0@, json_v(a.1)), (b.0@, json_v(b.1))]);
}

proof fn lemma_members1(a: (String, JsonValue))
    ensures
        members_v(seq![a]) == seq![(a.0@, json_v(a.1))],
{
    lemma_members_v(seq![a]);
    assert(members_v(seq![a]) =~= seq![(a.0@, json_v(a.1))]);
}

/// `{"jsonrpc": "2.0", "id": id, key: value}`, the id where there is one.
fn rpc(id: Option<JsonValue>, key: &str, value: JsonValue) -> (r: JsonValue)
    ensures
        json_v(r) == rpc_object(opt_v(id), seq![(key@, json_v(value))]),
{
    let mut m: Vec<(String, JsonValue)> = Vec::new();
    m.push((text_of("jsonrpc"), JsonValue::Str(text_of("2.0"))));
    let ghost has_id = id is Some;
    match id {
        Some(i) => m.push((text_of("id"), i)),
        None => {},
    }
    m.push((text_of(key), value));
    proof {
        lemma_members_v(m@);
        let want = rpc_object(opt_v(id), seq![(key@, json_v(value))]);
        assert(want is Object);
        assert(members_v(m@) =~= want->Object_0);
    }
    object(m)
}

impl Position {
    /// `{"line": .., "character": ..}`.
    pub fn to_json(&self) -> (r: JsonValue)
        ensures
            json_v(r) == position_v(*self),
    {
        let a = (text_of("line"), number(self.line));
        let b = (text_of("character"), number(self.character));
        proof {
            lemma_members2(a, b);
        }
        object(vec![a, b])
    }
}

impl Range {
    /// `{"start": .., "end": ..}`.
    pub fn to_json(&self) -> (r: JsonValue)
        ensures
            json_v(r) == range_v(*self),
    {
        let a = (text_of("start"), self.start.to_json());
        let b = (text_of("end"), self.end.to_json());
        proof {
            lemma_members2(a, b);
        }
        object(vec![a, b])
    }
}

impl Diagnostic {
    /// `{"range": .., "severity": .., "message": .., "source": ..}`.
    pub fn to_json(&self) -> (r: JsonValue)
        ensures
            json_v(r) == diagnostic_v(*self),
    {
        let m = vec![
            (text_of("range"), self.range.to_json()),
            (text_of("severity"), number(self.severity)),
            (text_of("message"), JsonValue::Str(text_of(self.message.as_str()))),
            (text_of("source"), JsonValue::Str(text_of(self.source.as_str()))),
        ];
        proof {
            lemma_members_v(m@);
            assert(members_v(m@) =~= diagnostic_v(*self)->Object_0);
        }
        object(m)
    }
}

impl TextEdit {
    /// `{"range": .., "newText": ..}`.
    pub fn to_json(&self) -> (r: JsonValue)
        ensures
            json_v(r) == text_edit_v(*self),
    {
        let a = (text_of("range"), self.range.to_json());
        let b = (text_of("newText"), JsonValue::Str(text_of(self.new_text.as_str())));
        proof {
            lemma_members2(a, b);
        }
        object(vec![a, b])
    }
}

/// The UTF-8 length of `cs` as a `u32` (wrapping).
fn utf8_len_u32(cs: &[char]) -> (r: u32)
    ensures
        r as nat == utf8_len(cs@) % 0x1_0000_0000,
{
    let mut n: u32 = 0;
    let mut k: usize = 0;
    while k < cs.len()
        invariant
            k <= cs@.len(),
            n as nat == utf8_len(cs@.subrange(0, k as int)) % 0x1_0000_0000,
        decreases cs@.len() - k,
    {
        assert(cs@.subrange(0, k + 1).drop_last() =~= cs@.subrange(0, k as int));
        assert(cs@.subrange(0, k + 1).last() == cs@[k as int]);
        let b = char_utf8_len(cs[k]) as u32;
        let ghost x = utf8_len(cs@.subrange(0, k as int));
        proof {
            vstd::arithmetic::div_mod::lemma_add_mod_noop(x as int, b as int, 0x1_0000_0000);
            vstd::arithmetic::div_mod::lemma_small_mod(b as nat, 0x1_0000_0000);
        }
        if n >= 0xffff_ffff - b + 1 {
            n = n - (0xffff_ffff - b + 1);
        } else {
            n = n + b;
        }
        k = k + 1;
    }
    assert(cs@.subrange(0, cs@.len() as int) =~= cs@);
    n
}

/// The notification publishing `diagnostics` for the document `uri`.
pub fn diagnostics_notification(uri: &str, diagnostics: &Vec<Diagnostic>) -> (r: JsonValue)
    ensures
        json_v(r) == diagnostics_notification_v(uri@, diagnostics@),
{
    let mut arr: Vec<JsonValue> = Vec::new();
    for i in 0..diagnostics.len()
        invariant
            arr@.len() == i,
            forall|k: int| 0 <= k < i ==> #[trigger] json_v(arr@[k]) == diagnostic_v(diagnostics@[k]),
    {
        arr.push(diagnostics[i].to_json());
    }
    proof {
        lemma_jsons_v(arr@);
        assert(jsons_v(arr@) =~= Seq::new(diagnostics@.len(), |i: int| diagnostic_v(diagnostics@[i])));
    }
    let params = vec![(text_of("uri"), JsonValue::Str(text_of(uri))), (text_of("diagnostics"), JsonValue::Array(arr))];
    let ghost arr_v = JsonV::Array(Seq::new(diagnostics@.len(), |i: int| diagnostic_v(diagnostics@[i])));
    assert(json_v(params@[1].1) == arr_v);
    proof {
        lemma_members_v(params@);
        assert(members_v(params@) =~= seq![("uri"@, JsonV::Str(uri@)), ("diagnostics"@, arr_v)]);
    }
    let m = vec![
        (text_of("jsonrpc"), JsonValue::Str(text_of("2.0"))),
        (text_of("method"), JsonValue::Str(text_of("textDocument/publishDiagnostics"))),
        (text_of("params"), object(params)),
    ];
    proof {
        lemma_members_v(m@);
        assert(members_v(m@) =~= diagnostics_notification_v(uri@, diagnostics@)->Object_0);
    }
    object(m)
}

/// The edit replacing the whole of `text` with `formatted`.
fn whole_text_edit(text: &str, formatted: &str) -> (r: JsonValue)
    ensures
        json_v(r) == whole_text_edit_v(text@, formatted@),
{
    let cs = str_chars(text);
    let ls = lines_exec(cs.as_slice());
    let count = ls.len();
    let n: u32 = if count == 0 { 1 } else { count as u32 };
    assert(count > 0 ==> (count as u32) as nat == (count as nat) % 0x1_0000_0000) by (bit_vector);
    let last: u32 = if count == 0 { 0 } else { utf8_len_u32(ls[count - 1].as_slice()) };
    proof {
        assert(dv(ls@).len() == ls@.len());
        if count > 0 {
            assert(ls@[count - 1]@ == dv(ls@)[count - 1]);
        }
    }
    let start = Position::new(0, 0).to_json();
    let end = Position::new(n, last).to_json();
    let range = vec![(text_of("start"), start), (text_of("end"), end)];
    proof {
        lemma_members2(range@[0], range@[1]);
        assert(range@ =~= seq![range@[0], range@[1]]);
    }
    let a = (text_of("range"), object(range));
    let b = (text_of("newText"), JsonValue::Str(text_of(formatted)));
    proof {
        lemma_members2(a, b);
    }
    object(vec![a, b])
}

/// The hover text for `word`: the parse's text for the item of that name,
/// or else the prelude's.
pub fn hover_info(word: Option<String>, item_hover: &Option<Option<String>>) -> (r: Option<String>)
    ensures
        opt_text(r) == hover_info_v(opt_text(word), item_v(*item_hover)),
{
    match (word, item_hover) {
        (Some(w), Some(Some(t))) => Some(text_of(t.as_str())),
        (Some(w), Some(None)) => prelude_hover(w.as_str()),
        _ => None,
    }
}

impl LspServer {
    /// The identifier at `pos` in the document `uri` (an unopened document
    /// reads as empty).
    pub fn hover_word(&self, uri: &str, pos: Position) -> (r: Option<String>)
        ensures
            opt_text(r) == word_at(doc_text(self@, uri@), pos.line as int, pos.character as int),
    {
        let text = match self.document(uri) {
            Some(t) => text_of(t.as_str()),
            None => text_of(""),
        };
        proof {
            reveal_strlit("");
        }
        LspServer::extract_word_at(text.as_str(), pos.line as usize, pos.character as usize)
    }

    /// The message to send for `step`, given what outside reading came to:
    /// the answer to a request, the diagnostics notification of a document,
    /// or nothing.
    pub fn reply(&self, step: &LspStep, answers: &OutsideAnswers) -> (r: Option<JsonValue>)
        ensures
            match r {
                Some(v) => reply_v(self@, step_v(*step), *answers) == Some(json_v(v)),
                None => reply_v(self@, step_v(*step), *answers) is None,
            },
    {
        match step {
            LspStep::Initialize { id } => {
                let caps = vec![
                    (text_of("textDocumentSync"), JsonValue::Number(text_of("1"))),
                    (text_of("hoverProvider"), JsonValue::Bool(true)),
                    (text_of("documentFormattingProvider"), JsonValue::Bool(true)),
                ];
                proof {
                    lemma_members_v(caps@);
                    assert(members_v(caps@) =~= capabilities_v()->Object_0);
                }
                let c = (text_of("capabilities"), object(caps));
                proof {
                    lemma_members1(c);
                }
                let id2 = match id {
                    Some(i) => Some(i.duplicate()),
                    None => None,
                };
                let cv = vec![c];
                assert(cv@ =~= seq![c]);
                let res = object(cv);
                assert(json_v(res) == JsonV::Object(seq![("capabilities"@, capabilities_v())]));
                let r = rpc(id2, "result", res);
                assert(json_v(r) == initialize_reply_v(opt_v(*id)));
                Some(r)
            },
            LspStep::PublishDiagnostics { uri, .. } => Some(diagnostics_notification(uri.as_str(), &answers.diagnostics)),
            LspStep::Hover { id, uri, .. } => match answers.position {
                Some(p) => {
                    let w = self.hover_word(uri.as_str(), p);
                    let info = hover_info(w, &answers.item_hover);
                    let result = match info {
                        Some(t) => {
                            let inner = vec![
                                (text_of("kind"), JsonValue::Str(text_of("markdown"))),
                                (text_of("value"), JsonValue::Str(t)),
                            ];
                            proof {
                                lemma_members2(inner@[0], inner@[1]);
                                assert(inner@ =~= seq![inner@[0], inner@[1]]);
                            }
                            let c = (text_of("contents"), object(inner));
                            proof {
                                lemma_members1(c);
                            }
                            let cv = vec![c];
                            assert(cv@ =~= seq![c]);
                            object(cv)
                        },
                        None => JsonValue::Null,
                    };
                    assert(json_v(result) == hover_result_v(opt_text(info)));
                    let r = rpc(Some(id.duplicate()), "result", result);
                    assert(reply_v(self@, step_v(*step), *answers) == Some(json_v(r)));
                    Some(r)
                },
                None => Some(rpc(Some(id.duplicate()), "result", JsonValue::Null)),
            },
            LspStep::Formatting { id, uri } => {
                let result = match (self.document(uri.as_str()), &answers.formatted) {
                    (Some(text), Some(f)) => {
                        let e = whole_text_edit(text.as_str(), f.as_str());
                        let arr = vec![e];
                        assert(arr@ =~= seq![e]);
                        proof {
                            lemma_jsons_v(arr@);
                            assert(jsons_v(arr@) =~= seq![json_v(e)]);
                        }
                        JsonValue::Array(arr)
                    },
                    _ => JsonValue::Null,
                };
                assert(json_v(result) == formatting_result_v(doc_opt(self@, uri@), opt_text(answers.formatted)));
                let r = rpc(Some(id.duplicate()), "result", result);
                assert(reply_v(self@, step_v(*step), *answers) == Some(json_v(r)));
                Some(r)
            },
            LspStep::NullResult { id } => Some(rpc(Some(id.duplicate()), "result", JsonValue::Null)),
            LspStep::Shutdown { id } => {
                let id2 = match id {
                    Some(i) => Some(i.duplicate()),
                    None => None,
                };
                Some(rpc(id2, "result", JsonValue::Null))
            },
            LspStep::Ignore => None,
        }
    }
}

} // verus!
