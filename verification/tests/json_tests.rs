use tungsten_core::json::{escape_json_string, parse_json, JsonError, JsonParser, JsonValue};

#[test]
fn parses_strings_with_escapes() {
    let mut p = JsonParser::new("\"a\\\"b\\n\\u\" tail");
    assert_eq!(p.parse_string(), Ok("a\"b\nu".to_string()));
    p.skip_whitespace();
    assert_eq!(p.peek(), Some('t'));
    assert_eq!(p.advance(), Some('t'));
}

#[test]
fn string_errors() {
    let mut p = JsonParser::new("abc");
    assert_eq!(p.parse_string(), Err("Expected '\"'".to_string()));
    let mut q = JsonParser::new("\"open");
    assert_eq!(q.parse_string(), Err("Unterminated string literal".to_string()));
    let mut r = JsonParser::new("\"x\\");
    assert_eq!(r.parse_string(), Err("Unterminated escape sequence".to_string()));
}

#[test]
fn whitespace_and_end() {
    let mut p = JsonParser::new("  \n\t");
    p.skip_whitespace();
    assert_eq!(p.peek(), None);
    assert_eq!(p.advance(), None);
}

#[test]
fn words_and_numbers() {
    let mut p = JsonParser::new("true,null -12.5e3x");
    assert_eq!(p.read_word(), "true");
    assert_eq!(p.position(), 4);
    assert_eq!(p.advance(), Some(','));
    assert_eq!(p.read_word(), "null");
    p.skip_whitespace();
    assert_eq!(p.read_number_text(), "-12.5e3");
    assert_eq!(p.peek(), Some('x'));
    assert_eq!(p.read_number_text(), "");
}

#[test]
fn escaping_string_bodies() {
    assert_eq!(escape_json_string("a\"b\\c\nd\re\tf"), "a\\\"b\\\\c\\nd\\re\\tf");
    assert_eq!(escape_json_string("plain"), "plain");
}

fn obj_get<'a>(v: &'a JsonValue, key: &str) -> Option<&'a JsonValue> {
    match v {
        JsonValue::Object(members) => members.iter().rev().find(|(k, _)| k == key).map(|(_, v)| v),
        _ => None,
    }
}

#[test]
fn values_nest_and_numbers_keep_their_text() {
    let v = parse_json(r#" {"jsonrpc": "2.0", "id": 7, "params": {"list": [1, -2.5e3, true, null, "a\"b"], "empty": {}}} "#)
        .unwrap();
    assert!(matches!(obj_get(&v, "jsonrpc"), Some(JsonValue::Str(s)) if s == "2.0"));
    assert!(matches!(obj_get(&v, "id"), Some(JsonValue::Number(t)) if t == "7"));
    let params = obj_get(&v, "params").unwrap();
    match obj_get(params, "list") {
        Some(JsonValue::Array(items)) => {
            assert_eq!(items.len(), 5);
            assert!(matches!(&items[0], JsonValue::Number(t) if t == "1"));
            assert!(matches!(&items[1], JsonValue::Number(t) if t == "-2.5e3"));
            assert!(matches!(&items[2], JsonValue::Bool(true)));
            assert!(matches!(&items[3], JsonValue::Null));
            assert!(matches!(&items[4], JsonValue::Str(s) if s == "a\"b"));
        }
        _ => panic!("list is not an array"),
    }
    assert!(matches!(obj_get(params, "empty"), Some(JsonValue::Object(m)) if m.is_empty()));
}

#[test]
fn a_repeated_key_keeps_both_members_in_order() {
    match parse_json(r#"{"k": 1, "k": 2}"#).unwrap() {
        JsonValue::Object(m) => {
            assert_eq!(m.len(), 2);
            assert!(matches!(&m[1].1, JsonValue::Number(t) if t == "2"));
        }
        _ => panic!("not an object"),
    }
}

#[test]
fn reading_errors_say_where_and_why() {
    assert!(matches!(parse_json("   "), Err(JsonError::UnexpectedEnd)));
    assert!(matches!(parse_json("  @"), Err(JsonError::UnexpectedChar('@', 2))));
    assert!(matches!(parse_json(r#"{"a" 1}"#), Err(JsonError::ExpectedColon(6))));
    assert!(matches!(parse_json(r#"{"a": 1 ]"#), Err(JsonError::ObjectSeparator(Some(']')))));
    assert!(matches!(parse_json("[1, 2"), Err(JsonError::ArraySeparator(None))));
    assert!(matches!(parse_json("[1; 2]"), Err(JsonError::ArraySeparator(Some(';')))));
    assert!(matches!(parse_json("nul"), Err(JsonError::UnknownLiteral(w)) if w == "nul"));
    assert!(matches!(parse_json("truex"), Err(JsonError::UnknownLiteral(w)) if w == "truex"));
    assert!(matches!(parse_json("1.2.3"), Err(JsonError::InvalidNumber(t)) if t == "1.2.3"));
    assert!(matches!(parse_json("-"), Err(JsonError::InvalidNumber(t)) if t == "-"));
    assert!(matches!(parse_json("1e"), Err(JsonError::InvalidNumber(t)) if t == "1e"));
    assert!(matches!(parse_json("{\"a"), Err(JsonError::BadString(m)) if m == "Unterminated string literal"));
    assert!(matches!(parse_json("{1: 2}"), Err(JsonError::BadString(m)) if m == "Expected '\"'"));
}

#[test]
fn number_texts_follow_the_float_literal_syntax() {
    for ok in ["0", "-1", "1.", "-.5", "-0.25", "6.02e23", "1E-7", "2e+3"] {
        assert!(matches!(parse_json(ok), Ok(JsonValue::Number(t)) if t == ok), "{}", ok);
        assert!(ok.parse::<f64>().is_ok(), "{}", ok);
    }
    for bad in ["--1", "1e+", "1-2", "-"] {
        assert!(matches!(parse_json(bad), Err(JsonError::InvalidNumber(_))), "{}", bad);
        assert!(bad.parse::<f64>().is_err(), "{}", bad);
    }
    assert!(matches!(parse_json("+1"), Err(JsonError::UnexpectedChar('+', 0))));
    assert!(matches!(parse_json(".5"), Err(JsonError::UnexpectedChar('.', 0))));
}
