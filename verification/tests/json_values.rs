use netdiff::error::DiffError;
use netdiff::json::{scalar_from, JsonValue};
use netdiff::{default_params, is_empty_value};

fn number(n: u64) -> JsonValue {
    JsonValue::Number(serde_json::Number::from(n))
}

fn text(s: &str) -> JsonValue {
    JsonValue::String(s.to_string())
}

fn object(entries: Vec<(&str, JsonValue)>) -> JsonValue {
    JsonValue::Object(entries.into_iter().map(|(k, v)| (k.to_string(), v)).collect())
}

#[test]
fn only_an_object_is_an_object() {
    assert!(JsonValue::empty_object().is_object());
    assert!(object(vec![("a", JsonValue::Null)]).is_object());
    assert!(!JsonValue::Null.is_object());
    assert!(!JsonValue::Array(vec![]).is_object());
    assert!(!text("{}").is_object());
}

#[test]
fn set_field_adds_and_replaces() {
    let doc = object(vec![("a", number(1)), ("b", number(2))]);
    let doc = doc.set_field("c", number(3));
    assert_eq!(doc, object(vec![("a", number(1)), ("b", number(2)), ("c", number(3))]));
    let doc = doc.set_field("a", text("x"));
    assert_eq!(doc, object(vec![("b", number(2)), ("c", number(3)), ("a", text("x"))]));
}

#[test]
fn set_field_leaves_other_documents() {
    assert_eq!(JsonValue::Null.set_field("a", number(1)), JsonValue::Null);
    assert_eq!(number(7).set_field("a", number(1)), number(7));
}

#[test]
fn remove_field_removes_every_entry_of_the_key() {
    let doc = object(vec![("a", number(1)), ("b", number(2)), ("a", number(3))]);
    assert_eq!(doc.remove_field("a"), object(vec![("b", number(2))]));
    assert_eq!(text("a").remove_field("a"), text("a"));
}

#[test]
fn remove_fields_removes_each() {
    let doc = object(vec![("a", number(1)), ("b", number(2)), ("c", number(3))]);
    let keys = vec!["c".to_string(), "a".to_string(), "zz".to_string()];
    assert_eq!(doc.remove_fields(&keys), object(vec![("b", number(2))]));
}

#[test]
fn clone_is_equal() {
    let doc = object(vec![
        ("a", JsonValue::Array(vec![number(1), JsonValue::Bool(true), JsonValue::Null])),
        ("b", object(vec![("c", text("d"))])),
    ]);
    assert_eq!(doc.clone(), doc);
}

#[test]
fn parse_reads_every_kind() {
    let doc = JsonValue::parse(r#"{"b":[1,true,null,"s"],"a":{"x":2}}"#).unwrap();
    assert_eq!(
        doc,
        object(vec![
            ("a", object(vec![("x", number(2))])),
            (
                "b",
                JsonValue::Array(vec![number(1), JsonValue::Bool(true), JsonValue::Null, text("s")])
            ),
        ])
    );
}

#[test]
fn parse_refuses_what_is_no_json() {
    assert_eq!(JsonValue::parse("{"), Err(DiffError::BodyDecodeError));
    assert_eq!(JsonValue::parse("abc"), Err(DiffError::BodyDecodeError));
    assert_eq!(JsonValue::parse(""), Err(DiffError::BodyDecodeError));
}

#[test]
fn scalars_are_numbers_booleans_or_the_text() {
    assert_eq!(JsonValue::parse_scalar("1"), number(1));
    assert_eq!(
        JsonValue::parse_scalar("-5"),
        JsonValue::Number(serde_json::Number::from(-5i64))
    );
    assert_eq!(JsonValue::parse_scalar("true"), JsonValue::Bool(true));
    assert_eq!(JsonValue::parse_scalar("false"), JsonValue::Bool(false));
    assert_eq!(JsonValue::parse_scalar("abc"), text("abc"));
    assert_eq!(JsonValue::parse_scalar("null"), text("null"));
    assert_eq!(JsonValue::parse_scalar("\"q\""), text("\"q\""));
    assert_eq!(JsonValue::parse_scalar("[1]"), text("[1]"));
    assert_eq!(JsonValue::parse_scalar("{\"a\":1}"), text("{\"a\":1}"));
    assert_eq!(JsonValue::parse_scalar("01"), text("01"));
    assert_eq!(JsonValue::parse_scalar(""), text(""));
}

#[test]
fn scalar_from_a_given_reading() {
    assert_eq!(scalar_from("x", None), text("x"));
    assert_eq!(scalar_from("x", Some(number(4))), number(4));
    assert_eq!(scalar_from("x", Some(JsonValue::Bool(false))), JsonValue::Bool(false));
    assert_eq!(scalar_from("x", Some(JsonValue::Null)), text("x"));
    assert_eq!(scalar_from("x", Some(text("y"))), text("x"));
    assert_eq!(scalar_from("x", Some(JsonValue::Array(vec![]))), text("x"));
}

#[test]
fn text_on_one_line() {
    let doc = object(vec![("b", text("x\"y")), ("a", JsonValue::Array(vec![number(1), JsonValue::Null]))]);
    assert_eq!(doc.to_text().unwrap(), r#"{"a":[1,null],"b":"x\"y"}"#);
    assert_eq!(JsonValue::empty_object().to_text().unwrap(), "{}");
}

#[test]
fn text_counts_the_later_entry_of_a_key() {
    let doc = object(vec![("a", number(1)), ("a", number(2))]);
    assert_eq!(doc.to_text().unwrap(), r#"{"a":2}"#);
}

#[test]
fn text_on_indented_lines() {
    let doc = object(vec![("id", number(1)), ("tags", JsonValue::Array(vec![text("x")]))]);
    assert_eq!(
        doc.to_pretty_text().unwrap(),
        "{\n  \"id\": 1,\n  \"tags\": [\n    \"x\"\n  ]\n}"
    );
}

#[test]
fn text_as_a_query_string() {
    let doc = object(vec![("a", number(1)), ("b", text("x y"))]);
    assert_eq!(doc.to_query_text().unwrap(), "a=1&b=x+y");
    assert_eq!(JsonValue::empty_object().to_query_text().unwrap(), "");
}

#[test]
fn a_number_has_no_query_string() {
    assert_eq!(number(1).to_query_text(), Err(DiffError::BodyEncodeError));
}

#[test]
fn empty_values() {
    assert!(is_empty_value(&JsonValue::Null));
    assert!(is_empty_value(&JsonValue::empty_object()));
    assert!(is_empty_value(&default_params()));
    assert!(!is_empty_value(&object(vec![("a", JsonValue::Null)])));
    assert!(!is_empty_value(&JsonValue::Array(vec![])));
    assert!(!is_empty_value(&text("")));
    assert_eq!(default_params(), JsonValue::Object(vec![]));
}
