use vector_db_proxy::json::{parse_json, JsonValue};
use vector_db_proxy::normalize::{normalize, normalize_value, Warning};
use vector_db_proxy::record::CanonicalRecord;

fn text(s: &str) -> JsonValue {
    JsonValue::Text(s.to_string())
}

#[test]
fn two_objects_give_two_records() {
    let records = normalize(r#"[{"text":"a"},{"text":"b"}]"#).unwrap();
    assert_eq!(records.len(), 2);
    assert_eq!(records[0].get("text"), Some(&text("a")));
    assert_eq!(records[1].get("text"), Some(&text("b")));
}

#[test]
fn single_object_gives_one_record() {
    let records = normalize(r#"{"text":"solo"}"#).unwrap();
    assert_eq!(records.len(), 1);
    assert_eq!(records[0].get("text"), Some(&text("solo")));
}

#[test]
fn malformed_text_gives_parse_warning() {
    assert_eq!(normalize("not json {"), Err(Warning::Unparsable));
    assert_eq!(normalize(""), Err(Warning::Unparsable));
    assert_eq!(normalize("[{\"a\":1}"), Err(Warning::Unparsable));
}

#[test]
fn empty_array_gives_no_records_warning() {
    assert_eq!(normalize("[]"), Err(Warning::NoRecords));
    assert_eq!(normalize("  [ ]  "), Err(Warning::NoRecords));
}

#[test]
fn other_shapes_are_unsupported() {
    assert_eq!(normalize("42"), Err(Warning::Unsupported));
    assert_eq!(normalize("null"), Err(Warning::Unsupported));
    assert_eq!(normalize("\"text\""), Err(Warning::Unsupported));
    assert_eq!(normalize("[1, \"x\", null]"), Err(Warning::Unsupported));
}

#[test]
fn non_objects_in_an_array_are_skipped() {
    let records = normalize(r#"[1, {"k":"v"}, [2], {"k":"w"}]"#).unwrap();
    assert_eq!(records.len(), 2);
    assert_eq!(records[0].get("k"), Some(&text("v")));
    assert_eq!(records[1].get("k"), Some(&text("w")));
}

#[test]
fn records_keep_each_objects_key_set() {
    let records = normalize(r#"[{"a":1,"b":null},{"c":[1,"x"]},{}]"#).unwrap();
    assert_eq!(records.len(), 3);
    assert_eq!(records[0].get("a"), Some(&JsonValue::Number("1".to_string())));
    assert_eq!(records[0].get("b"), Some(&JsonValue::Null));
    assert_eq!(records[0].get("c"), None);
    assert_eq!(
        records[1].get("c"),
        Some(&JsonValue::Array(vec![JsonValue::Number("1".to_string()), text("x")]))
    );
    assert_eq!(records[1].get("a"), None);
    assert_eq!(records[2].get("a"), None);
}

#[test]
fn value_kinds_carry_over() {
    let records =
        normalize(r#"{"s":"t","n":-2.5,"b":true,"z":null,"l":["p",3],"o":{"x":false}}"#).unwrap();
    let r = &records[0];
    assert_eq!(r.get("s"), Some(&text("t")));
    assert_eq!(r.get("n"), Some(&JsonValue::Number("-2.5".to_string())));
    assert_eq!(r.get("b"), Some(&JsonValue::Bool(true)));
    assert_eq!(r.get("z"), Some(&JsonValue::Null));
    assert_eq!(
        r.get("l"),
        Some(&JsonValue::Array(vec![text("p"), JsonValue::Number("3".to_string())]))
    );
    assert_eq!(
        r.get("o"),
        Some(&JsonValue::Object(vec![("x".to_string(), JsonValue::Bool(false))]))
    );
}

#[test]
fn object_and_singleton_array_normalize_alike() {
    let a = normalize(r#"{"text":"same","page":3}"#);
    let b = normalize(r#"[{"text":"same","page":3}]"#);
    assert_eq!(a, b);
    assert_eq!(a.unwrap().len(), 1);
}

#[test]
fn parse_json_builds_the_tree() {
    assert_eq!(parse_json("not json {"), None);
    assert_eq!(
        parse_json(r#"[{"a":"b"}, 7]"#),
        Some(JsonValue::Array(vec![
            JsonValue::Object(vec![("a".to_string(), text("b"))]),
            JsonValue::Number("7".to_string()),
        ]))
    );
}

#[test]
fn later_member_replaces_earlier() {
    let doc = Some(JsonValue::Object(vec![
        ("k".to_string(), text("first")),
        ("j".to_string(), JsonValue::Null),
        ("k".to_string(), text("second")),
    ]));
    let records = normalize_value(doc).unwrap();
    assert_eq!(records[0].get("k"), Some(&text("second")));
    assert_eq!(records[0].get("j"), Some(&JsonValue::Null));
}

#[test]
fn record_insert_and_get() {
    let mut r = CanonicalRecord::new();
    assert_eq!(r.get("a"), None);
    r.insert("a".to_string(), JsonValue::Bool(false));
    r.insert("b".to_string(), text("x"));
    r.insert("a".to_string(), JsonValue::Null);
    assert_eq!(r.get("a"), Some(&JsonValue::Null));
    assert_eq!(r.get("b"), Some(&text("x")));
}
