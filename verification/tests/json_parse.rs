//! The JSON parser on whole frames.

use listenmoe::gateway::{handle_frame, FrameAction};
use listenmoe::json::{parse_json, str_to_chars, Json};

fn parse(text: &str) -> Option<Json> {
    parse_json(&str_to_chars(text))
}

fn parse_int(text: &str) -> Option<i64> {
    match parse(text) {
        Some(Json::Int(v)) => Some(v),
        _ => None,
    }
}

fn parse_string(text: &str) -> Option<String> {
    match parse(text) {
        Some(Json::Str(s)) => Some(s),
        _ => None,
    }
}

#[test]
fn literals() {
    assert!(matches!(parse("null"), Some(Json::Null)));
    assert!(matches!(parse("true"), Some(Json::Bool(true))));
    assert!(matches!(parse("false"), Some(Json::Bool(false))));
    assert!(matches!(parse("  null  "), Some(Json::Null)));
    assert!(parse("nul").is_none());
    assert!(parse("truth").is_none());
}

#[test]
fn integers() {
    assert_eq!(parse_int("0"), Some(0));
    assert_eq!(parse_int("42"), Some(42));
    assert_eq!(parse_int("-17"), Some(-17));
    assert_eq!(parse_int("9223372036854775807"), Some(i64::MAX));
    assert_eq!(parse_int("-9223372036854775808"), Some(i64::MIN));
}

#[test]
fn numbers_that_are_not_plain_integers() {
    assert!(matches!(parse("3.14"), Some(Json::NumOther)));
    assert!(matches!(parse("1e5"), Some(Json::NumOther)));
    assert!(matches!(parse("-2.5e-3"), Some(Json::NumOther)));
    // Out of the signed 64-bit range.
    assert!(matches!(parse("9223372036854775808"), Some(Json::NumOther)));
    assert!(matches!(parse("-9223372036854775809"), Some(Json::NumOther)));
    assert!(matches!(parse("99999999999999999999999"), Some(Json::NumOther)));
}

#[test]
fn malformed_numbers() {
    assert!(parse("01").is_none());
    assert!(parse("-").is_none());
    assert!(parse("1.").is_none());
    assert!(parse("1e").is_none());
    assert!(parse(".5").is_none());
    assert!(parse("+1").is_none());
}

#[test]
fn strings_and_escapes() {
    assert_eq!(parse_string("\"\""), Some(String::new()));
    assert_eq!(parse_string("\"hello\""), Some("hello".to_string()));
    assert_eq!(parse_string("\"a\\nb\""), Some("a\nb".to_string()));
    assert_eq!(parse_string("\"a\\\"b\""), Some("a\"b".to_string()));
    assert_eq!(parse_string("\"\\\\\""), Some("\\".to_string()));
    assert_eq!(parse_string("\"\\u0041\""), Some("A".to_string()));
    assert_eq!(parse_string("\"\\u00e9\""), Some("\u{e9}".to_string()));
    // Non-ASCII text passes through unescaped.
    assert_eq!(parse_string("\"\u{65e5}\u{672c}\""), Some("\u{65e5}\u{672c}".to_string()));
}

#[test]
fn surrogate_pairs() {
    // U+1F600 as a surrogate pair.
    assert_eq!(parse_string("\"\\ud83d\\ude00\""), Some("\u{1F600}".to_string()));
    // Lone surrogates are rejected.
    assert!(parse("\"\\ud83d\"").is_none());
    assert!(parse("\"\\ude00\"").is_none());
}

#[test]
fn malformed_strings() {
    assert!(parse("\"unterminated").is_none());
    assert!(parse("\"bad\\q\"").is_none());
    assert!(parse("\"\\u00g1\"").is_none());
    // A raw control character must be escaped.
    assert!(parse("\"a\u{0001}b\"").is_none());
}

#[test]
fn arrays() {
    assert!(matches!(parse("[]"), Some(Json::Arr(items)) if items.is_empty()));
    match parse("[1, 2, 3]") {
        Some(Json::Arr(items)) => {
            assert_eq!(items.len(), 3);
            assert!(matches!(items[0], Json::Int(1)));
            assert!(matches!(items[2], Json::Int(3)));
        },
        other => panic!("expected an array, got {other:?}"),
    }
    match parse("[[true], []]") {
        Some(Json::Arr(items)) => assert_eq!(items.len(), 2),
        other => panic!("expected an array, got {other:?}"),
    }
    assert!(parse("[1,]").is_none());
    assert!(parse("[1 2]").is_none());
    assert!(parse("[").is_none());
}

#[test]
fn objects() {
    assert!(matches!(parse("{}"), Some(Json::Obj(f)) if f.is_empty()));
    match parse("{\"a\": 1, \"b\": \"two\"}") {
        Some(Json::Obj(fields)) => {
            assert_eq!(fields.len(), 2);
            assert_eq!(fields[0].0, "a");
            assert!(matches!(fields[0].1, Json::Int(1)));
            assert_eq!(fields[1].0, "b");
            assert!(matches!(fields[1].1, Json::Str(ref s) if s == "two"));
        },
        other => panic!("expected an object, got {other:?}"),
    }
    match parse("{\"outer\": {\"inner\": [null]}}") {
        Some(Json::Obj(fields)) => assert_eq!(fields.len(), 1),
        other => panic!("expected an object, got {other:?}"),
    }
    assert!(parse("{\"a\"}").is_none());
    assert!(parse("{\"a\":}").is_none());
    assert!(parse("{\"a\":1,}").is_none());
    assert!(parse("{a: 1}").is_none());
}

#[test]
fn whole_frame_must_be_consumed() {
    assert!(parse("").is_none());
    assert!(parse("   ").is_none());
    assert!(parse("null garbage").is_none());
    assert!(parse("{} {}").is_none());
    assert!(parse("42 ").is_some());
    assert!(parse("\t{\"x\":0}\n").is_some());
}

#[test]
fn duplicate_object_keys_keep_the_first() {
    // Lookup through the protocol takes the first occurrence of a key.
    let act = handle_frame(&str_to_chars("{\"op\":10,\"op\":2}"));
    assert!(matches!(act, FrameAction::Ack));
}
