use zizq::hashable::{payload_except, payload_only};
use zizq::jq_path::PathStep;
use zizq::{Number, UniqueKey, Value};

fn value(v: &serde_json::Value) -> Value {
    match v {
        serde_json::Value::Null => Value::Null,
        serde_json::Value::Bool(b) => Value::Bool(*b),
        serde_json::Value::Number(n) => Value::Number(match (n.as_u64(), n.as_i64()) {
            (Some(u), _) => Number::PosInt(u),
            (None, Some(i)) => Number::NegInt(i),
            (None, None) => Number::Float(n.to_string()),
        }),
        serde_json::Value::String(s) => Value::String(s.clone()),
        serde_json::Value::Array(items) => Value::Array(items.iter().map(value).collect()),
        serde_json::Value::Object(map) => {
            Value::Object(map.iter().map(|(k, v)| (k.clone(), value(v))).collect())
        }
    }
}

fn json(text: &str) -> Value {
    value(&serde_json::from_str(text).unwrap())
}

fn push(device_ids: &[&str], platform: &str, tenant_id: u64) -> Value {
    Value::Object(vec![
        (
            "device_ids".into(),
            Value::Array(
                device_ids
                    .iter()
                    .map(|s| Value::String(s.to_string()))
                    .collect(),
            ),
        ),
        ("platform".into(), Value::String(platform.into())),
        ("tenant_id".into(), Value::Number(Number::PosInt(tenant_id))),
    ])
}

fn field(name: &str) -> PathStep {
    PathStep::Field(name.into())
}

#[test]
fn except_with_empty_paths_returns_full_payload() {
    let p = push(&["a"], "apple", 42);
    assert_eq!(
        payload_except(&p, &[]),
        json(r#"{ "device_ids": ["a"], "platform": "apple", "tenant_id": 42 }"#),
    );
}

#[test]
fn except_removes_a_top_level_field() {
    let p = push(&["a"], "apple", 42);
    assert_eq!(
        payload_except(&p, &[vec![field("device_ids")]]),
        json(r#"{ "platform": "apple", "tenant_id": 42 }"#),
    );
}

#[test]
fn except_removes_multiple_fields() {
    let p = push(&["a"], "apple", 42);
    assert_eq!(
        payload_except(&p, &[vec![field("device_ids")], vec![field("tenant_id")]]),
        json(r#"{ "platform": "apple" }"#),
    );
}

#[test]
fn except_root_path_yields_null() {
    let p = push(&["a"], "apple", 42);
    assert_eq!(payload_except(&p, &[Vec::new()]), Value::Null);
}

#[test]
fn except_skips_missing_paths_silently() {
    let p = push(&["a"], "apple", 42);
    assert_eq!(
        payload_except(&p, &[vec![field("not_there")], vec![field("device_ids")]]),
        json(r#"{ "platform": "apple", "tenant_id": 42 }"#),
    );
}

#[test]
fn only_with_empty_paths_returns_empty_object() {
    let p = push(&["a"], "apple", 42);
    assert_eq!(payload_only(&p, &[]), json("{}"));
}

#[test]
fn only_picks_a_top_level_field() {
    let p = push(&["a"], "apple", 42);
    assert_eq!(
        payload_only(&p, &[vec![field("platform")]]),
        json(r#"{ "platform": "apple" }"#),
    );
}

#[test]
fn only_picks_multiple_fields() {
    let p = push(&["a"], "apple", 42);
    assert_eq!(
        payload_only(&p, &[vec![field("platform")], vec![field("tenant_id")]]),
        json(r#"{ "platform": "apple", "tenant_id": 42 }"#),
    );
}

#[test]
fn only_root_path_short_circuits_to_full_payload() {
    let p = push(&["a"], "apple", 42);
    assert_eq!(
        payload_only(&p, &[Vec::new()]),
        json(r#"{ "device_ids": ["a"], "platform": "apple", "tenant_id": 42 }"#),
    );
}

#[test]
fn only_preserves_nested_structure() {
    let n = json(r#"{ "user": { "id": 42, "name": "alice" }, "note": "irrelevant" }"#);
    assert_eq!(
        payload_only(&n, &[vec![field("user"), field("id")]]),
        json(r#"{ "user": { "id": 42 } }"#),
    );
}

#[test]
fn only_skips_missing_paths_silently() {
    let p = push(&["a"], "apple", 42);
    assert_eq!(
        payload_only(&p, &[vec![field("not_there")], vec![field("platform")]]),
        json(r#"{ "platform": "apple" }"#),
    );
}

#[test]
fn hashes_via_unique_key_are_stable_for_equivalent_inputs() {
    let a = push(&["a"], "apple", 42);
    let b = push(&["b", "c"], "apple", 42);
    let key_a = UniqueKey::hash_of(&payload_except(&a, &[vec![field("device_ids")]])).key;
    let key_b = UniqueKey::hash_of(&payload_except(&b, &[vec![field("device_ids")]])).key;
    assert_eq!(key_a, key_b);
}

#[test]
fn hashes_via_unique_key_differ_when_key_fields_differ() {
    let apple = push(&["a"], "apple", 42);
    let android = push(&["a"], "android", 42);
    let key_apple = UniqueKey::hash_of(&payload_except(&apple, &[vec![field("device_ids")]])).key;
    let key_android =
        UniqueKey::hash_of(&payload_except(&android, &[vec![field("device_ids")]])).key;
    assert_ne!(key_apple, key_android);
}

#[test]
fn excluding_the_root_wins_over_other_paths() {
    let p = push(&["a"], "apple", 42);
    let paths = [vec![field("platform")], Vec::new(), vec![field("tenant_id")]];
    assert_eq!(payload_except(&p, &paths), Value::Null);
}

fn names(v: &Value) -> Vec<String> {
    match v {
        Value::Object(entries) => entries.iter().map(|(k, _)| k.clone()).collect(),
        _ => panic!("expected an object"),
    }
}

#[test]
fn no_name_is_repeated_by_picking_or_removing() {
    let p = push(&["a"], "apple", 42);
    let twice = [vec![field("platform")], vec![field("platform")]];
    assert_eq!(names(&payload_only(&p, &twice)), ["platform"]);
    assert_eq!(names(&payload_except(&p, &twice)), ["device_ids", "tenant_id"]);
}
