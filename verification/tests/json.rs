use mcp_chat::json::Json;
use mcp_chat::json_text::{
    json_from_value, json_to_value, parse_json, reads_back, write_json, write_json_pretty,
};

fn value(s: &str) -> serde_json::Value {
    serde_json::from_str(s).unwrap()
}

#[test]
fn documents_go_to_serde_json_and_back() {
    let text = r#"{"a":[1,-2,3.5,null,true,"x\ny"],"b":{"c":{},"d":[]}}"#;
    let json = parse_json(text).ok().unwrap();
    assert_eq!(json_to_value(&json), value(text));
    assert_eq!(json_to_value(&json_from_value(&value(text))), value(text));
    assert_eq!(json_to_value(&json.copy()), value(text));
}

#[test]
fn a_document_is_written_on_one_line() {
    let json = Json::object()
        .with("text", Json::text("one\ntwo\rthree"))
        .with("list", Json::array(vec![Json::Null, Json::Bool(false)]));
    let text = write_json(&json);
    assert_eq!(text, r#"{"list":[null,false],"text":"one\ntwo\rthree"}"#);
    assert!(text.starts_with('{'));
    assert_eq!(value(&text), json_to_value(&json));
}

#[test]
fn a_document_is_written_indented() {
    let json = Json::object().with("a", Json::array(vec![Json::text("x")]));
    assert_eq!(write_json_pretty(&json), "{\n  \"a\": [\n    \"x\"\n  ]\n}");
}

#[test]
fn a_malformed_text_gives_the_message_of_the_reader() {
    let expected = serde_json::from_str::<serde_json::Value>("{\"a\":}").unwrap_err().to_string();
    assert_eq!(parse_json("{\"a\":}").err().unwrap(), expected);
    assert_eq!(expected, "expected value at line 1 column 6");
}

#[test]
fn what_nests_too_deep_is_not_read() {
    let deep = |levels: usize| format!("{}{}", "[".repeat(levels), "]".repeat(levels));
    assert!(parse_json(&deep(127)).is_ok());
    assert!(parse_json(&deep(128)).is_err());
}

#[test]
fn a_later_member_replaces_an_earlier_one() {
    let json = Json::object().with("k", Json::text("old")).with("k", Json::text("new"));
    assert_eq!(json.get_str("k"), Some("new"));
    assert_eq!(write_json(&json), r#"{"k":"new"}"#);
}

#[test]
fn members_are_found_by_kind() {
    let json = Json::object()
        .with("s", Json::text("x"))
        .with("b", Json::Bool(true))
        .with("n", Json::Null);
    assert_eq!(json.get_str("s"), Some("x"));
    assert_eq!(json.get_str("b"), None);
    assert_eq!(json.get_bool("b"), Some(true));
    assert_eq!(json.get_bool("s"), None);
    assert!(matches!(json.get("n"), Some(Json::Null)));
    assert!(json.get("missing").is_none());
    assert!(Json::text("x").get("s").is_none());
    assert_eq!(Json::text("x").as_str(), Some("x"));
}

#[test]
fn integers_are_read_back_as_they_were() {
    let text = r#"{"a":[0,7,-7,18446744073709551615,-9223372036854775808],"b":null}"#;
    let json = parse_json(text).ok().unwrap();
    assert!(reads_back(&json));
    let again = parse_json(&write_json(&json)).ok().unwrap();
    assert_eq!(json_to_value(&again), value(text));
    assert_eq!(write_json(&json), text);
    let pretty = parse_json(&write_json_pretty(&json)).ok().unwrap();
    assert_eq!(json_to_value(&pretty), value(text));
}

#[test]
fn fractions_and_depths_are_not_surely_read_back() {
    let judged = |s: &str| reads_back(&parse_json(s).ok().unwrap());
    assert!(judged("[true, \"x\", {}]"));
    assert!(!judged("1.5"));
    assert!(!judged("[{\"a\": 1e3}]"));
    assert!(!judged("-0"));
    assert!(!judged("18446744073709551616"));
    let mut deep = Json::Null;
    for _ in 0..127 {
        deep = Json::array(vec![deep]);
    }
    assert!(reads_back(&deep));
    assert!(!reads_back(&Json::array(vec![deep])));
    let replaced = Json::object()
        .with("k", parse_json("1.5").ok().unwrap())
        .with("k", parse_json("1").ok().unwrap());
    assert!(reads_back(&replaced));
}
