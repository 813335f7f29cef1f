use tungsten_core::json::{parse_json, JsonValue};
use tungsten_core::lsp::{diagnostics_notification, prelude_hover, Diagnostic, LspServer, LspStep, OutsideAnswers, Position, Range};

#[test]
fn word_under_cursor() {
    let text = "type Health = u8(0..=100);\nfn main() {}\n";
    assert_eq!(LspServer::extract_word_at(text, 0, 6), Some("Health".to_string()));
    assert_eq!(LspServer::extract_word_at(text, 0, 5), Some("Health".to_string()));
    assert_eq!(LspServer::extract_word_at(text, 1, 4), Some("main".to_string()));
    assert_eq!(LspServer::extract_word_at(text, 0, 4), Some("type".to_string()));
    assert_eq!(LspServer::extract_word_at(text, 0, 12), None);
    assert_eq!(LspServer::extract_word_at(text, 0, 100), None);
    assert_eq!(LspServer::extract_word_at(text, 5, 0), None);
}

#[test]
fn word_with_underscores_and_crlf() {
    let text = "let my_var2 = 1;\r\nx";
    assert_eq!(LspServer::extract_word_at(text, 0, 7), Some("my_var2".to_string()));
    assert_eq!(LspServer::extract_word_at(text, 1, 0), Some("x".to_string()));
}

#[test]
fn prelude_hover_texts() {
    assert_eq!(
        prelude_hover("Port"),
        Some("```tungsten\ntype Port = u16(1..=65535);\n```\n\n*Standard refinement:* TCP/UDP port [1..=65535]".to_string())
    );
    assert_eq!(
        prelude_hover("Db"),
        Some("```tungsten\neffect Db\n```\n\n*Algebraic Effect:* Database query capability".to_string())
    );
    assert!(prelude_hover("Percentage").unwrap().contains("[0..=100]"));
    assert_eq!(prelude_hover("Health"), None);
}

#[test]
fn documents_are_replaced_by_later_text() {
    let mut server = LspServer::new();
    assert!(server.document("file:///a.tg").is_none());
    server.set_document("file:///a.tg".to_string(), "fn main() {}".to_string());
    server.set_document("file:///b.tg".to_string(), "x".to_string());
    server.set_document("file:///a.tg".to_string(), "fn main() { 1 }".to_string());
    assert_eq!(server.document("file:///a.tg").unwrap(), "fn main() { 1 }");
    assert_eq!(server.document("file:///b.tg").unwrap(), "x");
}

#[test]
fn positions_and_ranges() {
    let p = Position::new(3, 7);
    assert_eq!(p.line, 3);
    assert_eq!(p.character, 7);
    let r = Range::new(Position::new(0, 0), p);
    assert_eq!(r.start, Position::new(0, 0));
    assert_eq!(r.end, Position { line: 3, character: 7 });
}

fn num_text(v: &JsonValue) -> Option<&str> {
    match v {
        JsonValue::Number(t) => Some(t.as_str()),
        _ => None,
    }
}

#[test]
fn initialize_and_shutdown_are_answered_with_their_ids() {
    let mut server = LspServer::new();
    match server.handle_message(r#"{"jsonrpc":"2.0","id":1,"method":"initialize","params":{}}"#) {
        LspStep::Initialize { id: Some(id) } => assert_eq!(num_text(&id), Some("1")),
        other => panic!("unexpected step {:?}", other),
    }
    assert!(matches!(server.handle_message(r#"{"jsonrpc":"2.0","method":"shutdown"}"#), LspStep::Shutdown { id: None }));
    assert!(matches!(server.handle_message(r#"{"jsonrpc":"2.0","method":"initialized"}"#), LspStep::Ignore));
    assert!(matches!(server.handle_message("not json"), LspStep::Ignore));
}

#[test]
fn opened_and_changed_documents_are_stored_and_published() {
    let mut server = LspServer::new();
    let open = r#"{"jsonrpc":"2.0","method":"textDocument/didOpen","params":{"textDocument":{"uri":"file:///main.tg","text":"type Health = u8(0..=100);\nfn main() {}\n"}}}"#;
    match server.handle_message(open) {
        LspStep::PublishDiagnostics { uri, text } => {
            assert_eq!(uri, "file:///main.tg");
            assert_eq!(text, "type Health = u8(0..=100);\nfn main() {}\n");
        }
        other => panic!("unexpected step {:?}", other),
    }
    assert_eq!(server.document("file:///main.tg").map(|s| s.as_str()), Some("type Health = u8(0..=100);\nfn main() {}\n"));
    let change = r#"{"method":"textDocument/didChange","params":{"textDocument":{"uri":"file:///main.tg"},"contentChanges":[{"text":"fn main() {}"}]}}"#;
    assert!(matches!(server.handle_message(change), LspStep::PublishDiagnostics { .. }));
    assert_eq!(server.document("file:///main.tg").map(|s| s.as_str()), Some("fn main() {}"));
    // A change without content changes the store in no way.
    let empty = r#"{"method":"textDocument/didChange","params":{"textDocument":{"uri":"file:///main.tg"},"contentChanges":[]}}"#;
    assert!(matches!(server.handle_message(empty), LspStep::Ignore));
    assert_eq!(server.document("file:///main.tg").map(|s| s.as_str()), Some("fn main() {}"));
}

#[test]
fn hover_and_formatting_requests_carry_what_they_ask_about() {
    let mut server = LspServer::new();
    let hover = r#"{"jsonrpc":"2.0","id":2,"method":"textDocument/hover","params":{"textDocument":{"uri":"file:///main.tg"},"position":{"line":0,"character":6}}}"#;
    match server.handle_message(hover) {
        LspStep::Hover { id, uri, position } => {
            assert_eq!(num_text(&id), Some("2"));
            assert_eq!(uri, "file:///main.tg");
            assert_eq!(position.get("line").and_then(num_text), Some("0"));
            assert_eq!(position.get("character").and_then(num_text), Some("6"));
        }
        other => panic!("unexpected step {:?}", other),
    }
    let no_params = r#"{"id":3,"method":"textDocument/hover"}"#;
    assert!(matches!(server.handle_message(no_params), LspStep::NullResult { .. }));
    let no_id = r#"{"method":"textDocument/hover","params":{}}"#;
    assert!(matches!(server.handle_message(no_id), LspStep::Ignore));
    let fmt = r#"{"id":"f","method":"textDocument/formatting","params":{"textDocument":{"uri":"file:///a.tg"}}}"#;
    match server.handle_message(fmt) {
        LspStep::Formatting { id: JsonValue::Str(id), uri } => {
            assert_eq!(id, "f");
            assert_eq!(uri, "file:///a.tg");
        }
        other => panic!("unexpected step {:?}", other),
    }
}

fn no_answers() -> OutsideAnswers {
    OutsideAnswers { position: None, item_hover: None, diagnostics: Vec::new(), formatted: None }
}

fn str_text(v: Option<&JsonValue>) -> Option<&str> {
    match v {
        Some(JsonValue::Str(s)) => Some(s.as_str()),
        _ => None,
    }
}

#[test]
fn test_lsp_initialize() {
    let mut server = LspServer::new();
    let init_req = r#"{"jsonrpc":"2.0","id":1,"method":"initialize","params":{}}"#;
    let step = server.handle_message(init_req);
    let resp = server.reply(&step, &no_answers()).expect("should handle initialize").to_json_string();
    let parsed = parse_json(&resp).expect("valid json response");
    assert_eq!(parsed.get("id").and_then(num_text), Some("1"));
    assert!(parsed.get("result").unwrap().get("capabilities").is_some());
}

#[test]
fn initialize_reply_text_is_exact() {
    let mut server = LspServer::new();
    let step = server.handle_message(r#"{"id":7,"method":"initialize"}"#);
    assert_eq!(
        server.reply(&step, &no_answers()).unwrap().to_json_string(),
        r#"{"jsonrpc":"2.0","id":7,"result":{"capabilities":{"textDocumentSync":1,"hoverProvider":true,"documentFormattingProvider":true}}}"#
    );
}

#[test]
fn shutdown_and_null_results_carry_the_id() {
    let mut server = LspServer::new();
    let step = server.handle_message(r#"{"id":"s","method":"shutdown"}"#);
    assert_eq!(server.reply(&step, &no_answers()).unwrap().to_json_string(), r#"{"jsonrpc":"2.0","id":"s","result":null}"#);
    let step = server.handle_message(r#"{"method":"shutdown"}"#);
    assert_eq!(server.reply(&step, &no_answers()).unwrap().to_json_string(), r#"{"jsonrpc":"2.0","result":null}"#);
    let step = server.handle_message(r#"{"id":3,"method":"textDocument/hover"}"#);
    assert_eq!(server.reply(&step, &no_answers()).unwrap().to_json_string(), r#"{"jsonrpc":"2.0","id":3,"result":null}"#);
    let step = server.handle_message(r#"{"method":"initialized"}"#);
    assert!(server.reply(&step, &no_answers()).is_none());
}

#[test]
fn hover_on_a_prelude_name_answers_its_documentation() {
    let mut server = LspServer::new();
    let open = r#"{"method":"textDocument/didOpen","params":{"textDocument":{"uri":"file:///p.tg","text":"let p: Percentage = 5;"}}}"#;
    server.handle_message(open);
    let hover = r#"{"id":4,"method":"textDocument/hover","params":{"textDocument":{"uri":"file:///p.tg"},"position":{"line":0,"character":10}}}"#;
    let step = server.handle_message(hover);
    assert_eq!(server.hover_word("file:///p.tg", Position::new(0, 10)).as_deref(), Some("Percentage"));
    // The document parsed and declares no item of that name: the prelude answers.
    let answers = OutsideAnswers { position: Some(Position::new(0, 10)), item_hover: Some(None), ..no_answers() };
    let reply = server.reply(&step, &answers).unwrap();
    let value = reply.get("result").unwrap().get("contents").unwrap().get("value");
    assert_eq!(str_text(value), prelude_hover("Percentage").as_deref());
    // Where the document does not parse, there is no hover text.
    let answers = OutsideAnswers { position: Some(Position::new(0, 10)), item_hover: None, ..no_answers() };
    assert_eq!(server.reply(&step, &answers).unwrap().to_json_string(), r#"{"jsonrpc":"2.0","id":4,"result":null}"#);
    // An item of the document takes precedence over the prelude.
    let answers = OutsideAnswers {
        position: Some(Position::new(0, 10)),
        item_hover: Some(Some("mine".to_string())),
        ..no_answers()
    };
    assert_eq!(
        server.reply(&step, &answers).unwrap().to_json_string(),
        r#"{"jsonrpc":"2.0","id":4,"result":{"contents":{"kind":"markdown","value":"mine"}}}"#
    );
}

#[test]
fn diagnostics_are_published_for_the_document() {
    let d = Diagnostic {
        range: Range::new(Position::new(2, 4), Position::new(2, 9)),
        severity: 1,
        message: "bad \"x\"".to_string(),
        source: "tungsten".to_string(),
    };
    assert_eq!(
        diagnostics_notification("file:///a.tg", &vec![d]).to_json_string(),
        r#"{"jsonrpc":"2.0","method":"textDocument/publishDiagnostics","params":{"uri":"file:///a.tg","diagnostics":[{"range":{"start":{"line":2,"character":4},"end":{"line":2,"character":9}},"severity":1,"message":"bad \"x\"","source":"tungsten"}]}}"#
    );
    let mut server = LspServer::new();
    let step = server.handle_message(r#"{"method":"textDocument/didOpen","params":{"textDocument":{"uri":"u","text":"x"}}}"#);
    assert_eq!(
        server.reply(&step, &no_answers()).unwrap().to_json_string(),
        r#"{"jsonrpc":"2.0","method":"textDocument/publishDiagnostics","params":{"uri":"u","diagnostics":[]}}"#
    );
}

#[test]
fn formatting_replaces_the_whole_document() {
    let mut server = LspServer::new();
    server.handle_message(r#"{"method":"textDocument/didOpen","params":{"textDocument":{"uri":"u","text":"fn  main(){}\nlet é = 1;"}}}"#);
    let step = server.handle_message(r#"{"id":9,"method":"textDocument/formatting","params":{"textDocument":{"uri":"u"}}}"#);
    let answers = OutsideAnswers { formatted: Some("fn main() {}\n".to_string()), ..no_answers() };
    assert_eq!(
        server.reply(&step, &answers).unwrap().to_json_string(),
        r#"{"jsonrpc":"2.0","id":9,"result":[{"range":{"start":{"line":0,"character":0},"end":{"line":2,"character":11}},"newText":"fn main() {}\n"}]}"#
    );
    // The formatter refused: no edit.
    assert_eq!(server.reply(&step, &no_answers()).unwrap().to_json_string(), r#"{"jsonrpc":"2.0","id":9,"result":null}"#);
}
