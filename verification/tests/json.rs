use anthropic_messages::error::ApiError;
use anthropic_messages::json::Json;
use anthropic_messages::value::{document, json_to_text, parse, value_of};
use serde_json::Value;

const TEXT: &str = r#"{"a":[1,-2,2.5,1e30],"b":{"c":null,"d":[]},"e":"é\n","f":false}"#;

#[test]
fn documents_and_values_hold_the_same() {
    let value: Value = serde_json::from_str(TEXT).expect("valid JSON");
    assert_eq!(value_of(&document(&value)), value);
    assert_eq!(value_of(&document(&value).copy()), value);
}

#[test]
fn texts_are_those_of_serde_json() {
    let value: Value = serde_json::from_str(TEXT).expect("valid JSON");
    let json = parse(TEXT).expect("valid JSON");
    assert_eq!(value_of(&json), value);
    assert_eq!(json_to_text(&json), value.to_string());
    for text in ["", "{", "[1,]", "nul"] {
        let reason = serde_json::from_str::<Value>(text).unwrap_err().to_string();
        match parse(text) {
            Ok(_) => panic!("expected an error"),
            Err(message) => assert_eq!(message, reason),
        }
    }
}

#[test]
fn the_last_entry_with_a_key_counts() {
    let json = Json::Object(vec![
        ("a".to_string(), Json::Bool(true)),
        ("b".to_string(), Json::string("x")),
        ("a".to_string(), Json::string("y")),
    ]);
    assert_eq!(json.get_str("a"), Some("y"));
    assert_eq!(json_to_text(&json), r#"{"a":"y","b":"x"}"#);
    assert_eq!(
        json_to_text(&json.with("a", Json::Null)),
        r#"{"a":null,"b":"x"}"#
    );
}

#[test]
fn only_objects_have_entries() {
    let mut json = Json::single(Json::Null);
    json.insert("a", Json::Null);
    assert_eq!(json_to_text(&json), "[null]");
    assert!(json.get("a").is_none());
    assert_eq!(json.as_array().map(|items| items.len()), Some(1));
    assert!(Json::object().as_array().is_none());
    assert!(Json::object().as_str().is_none());
    assert!(Json::object().with("a", Json::Null).get_str("a").is_none());
}

#[test]
fn error_messages_are_joined() {
    assert_eq!(
        ApiError::stream("a: ", "b"),
        ApiError::Stream("a: b".to_string())
    );
}
