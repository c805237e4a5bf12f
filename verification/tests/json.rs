use openab_core::json::{get_member, Json, JsonObject, Number, NEGATIVE_ZERO};
use serde_json::Value;

fn parsed(text: &str) -> Json {
    from_value(serde_json::from_str(text).unwrap())
}

fn from_value(value: Value) -> Json {
    match value {
        Value::Null => Json::Null,
        Value::Bool(b) => Json::Bool(b),
        Value::Number(n) => Json::Number(match (n.as_u64(), n.as_i64()) {
            (Some(u), _) => Number::Unsigned(u),
            (None, Some(i)) => Number::Negative(i),
            (None, None) => Number::Double(n.as_f64().unwrap().to_bits()),
        }),
        Value::String(s) => Json::Text(s),
        Value::Array(elements) => Json::Array(elements.into_iter().map(from_value).collect()),
        Value::Object(members) => {
            let mut object = JsonObject::new();
            for (name, value) in members {
                object = object.with(&name, from_value(value));
            }
            Json::Object(object)
        }
    }
}

#[test]
fn members_are_found_by_name() {
    let doc = Json::Object(
        JsonObject::new()
            .with("a", Json::text("x"))
            .with("b", Json::Bool(true)),
    );
    assert_eq!(doc.get("a"), Some(&Json::text("x")));
    assert_eq!(doc.get("b"), Some(&Json::Bool(true)));
    assert_eq!(doc.get("c"), None);
    assert_eq!(doc.get_str("a"), Some("x"));
    assert_eq!(doc.get_str("b"), None);
    assert_eq!(get_member(Some(&doc), "a"), Some(&Json::text("x")));
    assert_eq!(get_member(None, "a"), None);
    assert_eq!(Json::Array(vec![doc]).get("a"), None);
}

#[test]
fn the_last_of_repeated_members_counts() {
    let object = JsonObject::new()
        .with("a", Json::text("old"))
        .with("b", Json::Null)
        .with("a", Json::text("new"));
    assert_eq!(object.get("a"), Some(&Json::text("new")));
    assert_eq!(Json::Object(object).get_str("a"), Some("new"));
}

#[test]
fn values_are_read_by_their_kind() {
    let number = Json::Number(Number::Negative(-4));
    let list = Json::Array(vec![Json::Null, number.clone()]);
    assert_eq!(Json::text("t").as_str(), Some("t"));
    assert_eq!(number.as_str(), None);
    assert_eq!(Json::Bool(false).as_bool(), Some(false));
    assert_eq!(Json::text("true").as_bool(), None);
    assert_eq!(list.as_array().map(|elements| elements.len()), Some(2));
    assert_eq!(Json::Null.as_array(), None);
}

#[test]
fn copies_say_the_same() {
    let inner = Json::Array(vec![
        Json::Bool(true),
        Json::Number(Number::Double(1.5f64.to_bits())),
        Json::Array(vec![]),
    ]);
    let doc = Json::Object(
        JsonObject::new()
            .with("list", inner)
            .with("text", Json::text("ä"))
            .with("object", Json::Object(JsonObject::new())),
    );
    assert_eq!(doc.clone(), doc);
}

#[test]
fn documents_that_say_the_same_are_equal() {
    let ab = JsonObject::new()
        .with("a", Json::Bool(true))
        .with("b", Json::Null);
    let ba = JsonObject::new()
        .with("b", Json::Null)
        .with("a", Json::Bool(true));
    let overwritten = JsonObject::new()
        .with("a", Json::text("old"))
        .with("b", Json::Null)
        .with("a", Json::Bool(true));
    assert_eq!(ab, ba);
    assert_eq!(ab, overwritten);
    assert_eq!(overwritten, ba);
    let more = ab.clone().with("c", Json::Null);
    assert_ne!(ab, more);
    assert_ne!(more, ab);
    assert_ne!(ab, ba.clone().with("a", Json::Bool(false)));
    let nested = Json::Array(vec![Json::Object(ab), Json::Null]);
    assert!(nested.says_same(&Json::Array(vec![Json::Object(ba), Json::Null])));
    assert!(!nested.says_same(&Json::Array(vec![Json::Null])));
}

#[test]
fn numbers_are_equal_by_value() {
    assert_eq!(NEGATIVE_ZERO, (-0.0f64).to_bits());
    assert_eq!(Number::Double(NEGATIVE_ZERO), Number::Double(0));
    assert_eq!(Number::Double(0), Number::Double(NEGATIVE_ZERO));
    assert_ne!(Number::Unsigned(0), Number::Double(0));
    assert_ne!(Number::Unsigned(1), Number::Double(1.0f64.to_bits()));
    assert_ne!(Number::Negative(-1), Number::Double((-1.0f64).to_bits()));
    assert_eq!(Number::Negative(-1), Number::Negative(-1));
    assert_ne!(Number::Unsigned(1), Number::Unsigned(2));
    assert_ne!(
        Number::Double(1.5f64.to_bits()),
        Number::Double((-1.5f64).to_bits())
    );
}

#[test]
fn equality_is_that_of_parsed_texts() {
    let texts = [
        "null",
        "true",
        "0",
        "0.0",
        "-0.0",
        "-3",
        "1.5",
        "\"a\"",
        "[]",
        "[1,2]",
        "[2,1]",
        "{}",
        "{\"a\":1,\"b\":[{\"c\":0.0,\"d\":null}]}",
        "{\"b\":[{\"d\":null,\"c\":-0.0}],\"a\":1}",
        "{\"a\":2,\"b\":[],\"a\":1}",
        "{\"b\":[],\"a\":1}",
    ];
    for first in texts {
        for second in texts {
            let expected = serde_json::from_str::<Value>(first).unwrap()
                == serde_json::from_str::<Value>(second).unwrap();
            assert_eq!(parsed(first) == parsed(second), expected, "{first} {second}");
        }
    }
}
