use zizq::{BackoffConfig, JobPatch, Number, RetentionPatch, Value};

fn value(v: &serde_json::Value) -> Value {
    match v {
        serde_json::Value::Null => Value::Null,
        serde_json::Value::Bool(b) => Value::Bool(*b),
        serde_json::Value::Number(n) => Value::Number(match (n.as_u64(), n.as_i64()) {
            (Some(u), _) => Number::PosInt(u),
            (None, Some(i)) => Number::NegInt(i),
            (None, None) => Number::Float(n.to_string()),
        }),
        serde_json::Value::String(s) => Value::String(s.clone()),
        serde_json::Value::Array(items) => Value::Array(items.iter().map(value).collect()),
        serde_json::Value::Object(map) => {
            Value::Object(map.iter().map(|(k, v)| (k.clone(), value(v))).collect())
        }
    }
}

fn json(text: &str) -> Value {
    value(&serde_json::from_str(text).unwrap())
}

#[test]
fn empty_patch_serializes_to_empty_object() {
    assert_eq!(JobPatch::new().to_value(), json("{}"));
}

#[test]
fn set_fields_serialize_their_values() {
    let patch = JobPatch::new().priority(10).retry_limit(5).ready_at(1234);
    assert_eq!(
        patch.to_value(),
        json(r#"{ "priority": 10, "retry_limit": 5, "ready_at": 1234 }"#),
    );
}

#[test]
fn cleared_fields_serialize_as_null() {
    let patch = JobPatch::new().clear_retry_limit().clear_backoff();
    assert_eq!(
        patch.to_value(),
        json(r#"{ "retry_limit": null, "backoff": null }"#),
    );
}

#[test]
fn ready_now_is_a_null_ready_at() {
    assert_eq!(
        JobPatch::new().ready_now().to_value(),
        json(r#"{ "ready_at": null }"#),
    );
}

#[test]
fn keep_reverses_an_earlier_set() {
    let patch = JobPatch::new().priority(99).keep_priority();
    assert_eq!(patch.to_value(), json("{}"));
}

#[test]
fn keep_reverses_an_earlier_clear() {
    let patch = JobPatch::new().clear_retry_limit().keep_retry_limit();
    assert_eq!(patch.to_value(), json("{}"));
}

#[test]
fn move_to_queue_is_an_alias_for_queue() {
    assert_eq!(
        JobPatch::new().move_to_queue("q").to_value(),
        json(r#"{ "queue": "q" }"#),
    );
}

#[test]
fn retention_is_a_nested_merge_patch() {
    let patch =
        JobPatch::new().retention(RetentionPatch::new().completed_ms(1000).clear_dead_ms());
    assert_eq!(
        patch.to_value(),
        json(r#"{ "retention": { "completed_ms": 1000, "dead_ms": null } }"#),
    );
}

#[test]
fn clear_retention_nulls_the_whole_field() {
    assert_eq!(
        JobPatch::new().clear_retention().to_value(),
        json(r#"{ "retention": null }"#),
    );
}

#[test]
fn every_keep_undoes_its_field() {
    let backoff = BackoffConfig {
        base_ms: 1,
        exponent: Number::Float("2.0".into()),
        jitter_ms: 3,
    };
    let patch = JobPatch::new()
        .queue("q")
        .ready_at(1)
        .backoff(backoff.copy())
        .retention(
            RetentionPatch::new()
                .dead_ms(4)
                .keep_dead_ms()
                .clear_completed_ms()
                .keep_completed_ms(),
        );
    assert_eq!(
        patch.to_value(),
        json(
            r#"{ "queue": "q", "ready_at": 1, "retention": {},
                 "backoff": { "base_ms": 1, "exponent": 2.0, "jitter_ms": 3 } }"#
        )
    );
    let undone = patch
        .keep_queue()
        .keep_ready_at()
        .keep_backoff()
        .keep_retention();
    assert_eq!(undone.to_value(), json("{}"));
}
