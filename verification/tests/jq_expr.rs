use zizq::{jq_array_prefix_eq, jq_contains, jq_eq, Number, Value, ZizqError};

fn value(v: &serde_json::Value) -> Value {
    match v {
        serde_json::Value::Null => Value::Null,
        serde_json::Value::Bool(b) => Value::Bool(*b),
        serde_json::Value::Number(n) => Value::Number(match (n.as_u64(), n.as_i64()) {
            (Some(u), _) => Number::PosInt(u),
            (None, Some(i)) => Number::NegInt(i),
            (None, None) => Number::Float(n.to_string()),
        }),
        serde_json::Value::String(s) => Value::String(s.clone()),
        serde_json::Value::Array(items) => Value::Array(items.iter().map(value).collect()),
        serde_json::Value::Object(map) => {
            Value::Object(map.iter().map(|(k, v)| (k.clone(), value(v))).collect())
        }
    }
}

fn json(text: &str) -> Value {
    value(&serde_json::from_str(text).unwrap())
}

#[test]
fn eq_emits_full_equality() {
    let payload = Value::Object(vec![
        ("to".into(), Value::String("a@b.c".into())),
        ("priority".into(), Value::Number(Number::PosInt(5))),
    ]);
    assert_eq!(
        jq_eq(&payload).unwrap(),
        r#". == {"to":"a@b.c","priority":5}"#
    );
}

#[test]
fn contains_emits_a_subset_match() {
    let expr = jq_contains(&json(r#"{ "to": "a@b.c" }"#)).unwrap();
    assert_eq!(expr, r#". | contains({"to":"a@b.c"})"#);
}

#[test]
fn string_values_are_json_escaped() {
    let expr = jq_contains(&json(r#"{ "note": "she said \"hi\"" }"#)).unwrap();
    assert_eq!(expr, r#". | contains({"note":"she said \"hi\""})"#);
}

#[test]
fn array_prefix_eq_from_a_vec() {
    let expr = jq_array_prefix_eq(&json("[1, 2, 3]")).unwrap();
    assert_eq!(expr, ".[0:3] == [1,2,3]");
}

#[test]
fn array_prefix_eq_from_a_heterogeneous_tuple() {
    let expr = jq_array_prefix_eq(&json(r#"[42, "example"]"#)).unwrap();
    assert_eq!(expr, r#".[0:2] == [42,"example"]"#);
}

#[test]
fn array_prefix_eq_sorts_object_keys() {
    let entry = Value::Object(vec![("b".into(), Value::Null), ("a".into(), Value::Null)]);
    let expr = jq_array_prefix_eq(&Value::Array(vec![entry])).unwrap();
    assert_eq!(expr, r#".[0:1] == [{"a":null,"b":null}]"#);
}

#[test]
fn array_prefix_eq_rejects_a_non_array() {
    let err = jq_array_prefix_eq(&json(r#"{ "a": 1 }"#)).unwrap_err();
    assert!(matches!(err, ZizqError::Encode(_)));
}
