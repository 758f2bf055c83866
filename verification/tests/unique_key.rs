use zizq::json_text::write_canonical;
use zizq::{Number, UniqueKey, UniqueScope, Value};

fn value(v: &serde_json::Value) -> Value {
    match v {
        serde_json::Value::Null => Value::Null,
        serde_json::Value::Bool(b) => Value::Bool(*b),
        serde_json::Value::Number(n) => Value::Number(match (n.as_u64(), n.as_i64()) {
            (Some(u), _) => Number::PosInt(u),
            (None, Some(i)) => Number::NegInt(i),
            (None, None) => Number::Float(n.to_string()),
        }),
        serde_json::Value::String(s) => Value::String(s.clone()),
        serde_json::Value::Array(items) => Value::Array(items.iter().map(value).collect()),
        serde_json::Value::Object(map) => {
            Value::Object(map.iter().map(|(k, v)| (k.clone(), value(v))).collect())
        }
    }
}

fn json(text: &str) -> Value {
    value(&serde_json::from_str(text).unwrap())
}

fn text(s: &str) -> Value {
    Value::String(s.to_string())
}

fn num(n: u64) -> Value {
    Value::Number(Number::PosInt(n))
}

fn scope(text: &str) -> UniqueScope {
    UniqueScope::from_name(&serde_json::from_str::<String>(text).unwrap())
}

#[test]
fn raw_constructor_stores_key_without_scope() {
    let k = UniqueKey::raw("abc");
    assert_eq!(k.key, "abc");
    assert_eq!(k.scope, None);
}

#[test]
fn from_str_uses_raw() {
    let k: UniqueKey = "abc".into();
    assert_eq!(k.key, "abc");
}

#[test]
fn from_string_uses_raw() {
    let k = UniqueKey::from(String::from("abc"));
    assert_eq!(k, UniqueKey::raw("abc"));
}

#[test]
fn scope_attaches() {
    let k = UniqueKey::raw("abc").scope(UniqueScope::Exists);
    assert_eq!(k.scope, Some(UniqueScope::Exists));
}

#[test]
fn known_scope_deserialises() {
    assert_eq!(scope("\"active\""), UniqueScope::Active);
}

#[test]
fn unknown_scope_falls_back_to_unknown() {
    assert_eq!(scope("\"some_future_scope\""), UniqueScope::Unknown);
}

#[test]
fn every_scope_reads_back_from_its_name() {
    for s in [
        UniqueScope::Queued,
        UniqueScope::Active,
        UniqueScope::Exists,
        UniqueScope::Unknown,
    ] {
        assert_eq!(UniqueScope::from_name(s.as_str()), s);
    }
}

#[test]
fn hash_of_is_deterministic_and_64_hex_chars() {
    let a = UniqueKey::hash_of(&json(r#"{ "to": "x@y.z" }"#));
    let b = UniqueKey::hash_of(&json(r#"{ "to": "x@y.z" }"#));
    assert_eq!(a.key, b.key);
    assert_eq!(a.key.len(), 64);
    assert!(a.key.chars().all(|c| c.is_ascii_hexdigit()));
}

#[test]
fn hash_of_is_the_sha256_of_the_canonical_text() {
    // SHA-256 of the two bytes `{}`.
    let empty = UniqueKey::hash_of(&Value::Object(vec![]));
    assert_eq!(
        empty.key,
        "44136fa355b3678a1146ad16f7e8649e94fb4fc21fe77e8310c060f61caaff8a"
    );
    // SHA-256 of the four bytes `null`.
    let null = UniqueKey::hash_of(&Value::Null);
    assert_eq!(
        null.key,
        "74234e98afe7498fb5daf1f36ac2d78acc339464f950703b8c019892f982b90b"
    );
}

#[test]
fn hash_of_differs_for_different_values() {
    let a = UniqueKey::hash_of(&json(r#"{ "to": "a@x.z" }"#));
    let b = UniqueKey::hash_of(&json(r#"{ "to": "b@x.z" }"#));
    assert_ne!(a.key, b.key);
}

#[test]
fn tagged_hash_of_prefixes_the_tag() {
    let k = UniqueKey::tagged_hash_of("send_email", &json(r#"{ "to": "x@y.z" }"#));
    assert!(k.key.starts_with("send_email:"));
    assert_eq!(k.key.len(), "send_email:".len() + 64);

    let other = UniqueKey::tagged_hash_of("send_sms", &json(r#"{ "to": "x@y.z" }"#));
    assert_ne!(k.key, other.key);
}

#[test]
fn write_canonical_sorts_object_keys_and_keeps_array_order() {
    let v = Value::Object(vec![
        ("b".into(), Value::Array(vec![num(3), num(1), num(2)])),
        (
            "a".into(),
            Value::Object(vec![("d".into(), num(4)), ("c".into(), num(3))]),
        ),
    ]);
    let mut sink = String::new();
    write_canonical(&v, &mut sink);
    assert_eq!(sink, r#"{"a":{"c":3,"d":4},"b":[3,1,2]}"#);
}

#[test]
fn write_canonical_renders_every_scalar() {
    let v = Value::Array(vec![
        Value::Null,
        Value::Bool(true),
        Value::Bool(false),
        Value::Number(Number::NegInt(-42)),
        Value::Number(Number::NegInt(i64::MIN)),
        Value::Number(Number::PosInt(u64::MAX)),
        Value::Number(Number::Float("1.5".into())),
        text("a\"b\\c\nd\u{e9}"),
    ]);
    let mut sink = String::new();
    write_canonical(&v, &mut sink);
    assert_eq!(
        sink,
        "[null,true,false,-42,-9223372036854775808,18446744073709551615,1.5,\"a\\\"b\\\\c\\nd\u{e9}\"]"
    );
}

#[test]
fn keys_are_sorted_by_their_bytes() {
    let v = Value::Object(vec![
        ("\u{10000}".into(), num(1)),
        ("\u{ffff}".into(), num(2)),
        ("aa".into(), num(3)),
        ("a".into(), num(4)),
        ("B".into(), num(5)),
    ]);
    let mut sink = String::new();
    write_canonical(&v, &mut sink);
    assert_eq!(
        sink,
        "{\"B\":5,\"a\":4,\"aa\":3,\"\u{ffff}\":2,\"\u{10000}\":1}"
    );
}

#[test]
fn hash_is_independent_of_map_key_order() {
    let first = Value::Object(vec![("x".into(), num(1)), ("y".into(), num(2))]);
    let second = Value::Object(vec![("y".into(), num(2)), ("x".into(), num(1))]);
    assert_eq!(first, second);
    assert_eq!(UniqueKey::hash_of(&first).key, UniqueKey::hash_of(&second).key);
}

#[test]
fn hash_of_accepts_a_field_subset_tuple() {
    let k = UniqueKey::hash_of(&Value::Array(vec![text("x@y.z"), text("Hello")]));
    assert_eq!(k.key.len(), 64);
    let swapped = UniqueKey::hash_of(&Value::Array(vec![text("Hello"), text("x@y.z")]));
    assert_ne!(k.key, swapped.key);
}

fn canonical(v: &Value) -> String {
    let mut out = String::new();
    write_canonical(v, &mut out);
    out
}

#[test]
fn canonical_text_tells_values_apart() {
    let values = [
        r#"1"#, r#"-1"#, r#""1""#, r#"1.0"#, r#"[1]"#, r#"[1,1]"#, r#"[[1],1]"#, r#"[11]"#,
        r#"{"a":1}"#, r#"{"a":"1"}"#, r#"{"a\"":1}"#, r#"["a\"",1]"#, r#"["a",1]"#, r#"["a\u0001"]"#,
        r#"["a\\u0001"]"#, r#"["a,b"]"#, r#"["a","b"]"#, r#"null"#, r#""null""#, r#"{}"#, r#"[]"#,
        r#"{"a":{},"b":1}"#, r#"{"a":{"b":1}}"#,
    ];
    let texts: Vec<String> = values
        .iter()
        .map(|v| canonical(&json(v)))
        .collect();
    for (i, a) in texts.iter().enumerate() {
        for (j, b) in texts.iter().enumerate() {
            assert_eq!(a == b, i == j, "{a} and {b}");
        }
    }
}

#[test]
fn canonical_keys_ascend_by_their_bytes() {
    let v = json("{ \"b\": 1, \"a\": { \"z\": 0, \"y\": 0 }, \"\u{e9}\": 2, \"B\": 3, \"ab\": 4 }");
    assert_eq!(
        canonical(&v),
        "{\"B\":3,\"a\":{\"y\":0,\"z\":0},\"ab\":4,\"b\":1,\"\u{e9}\":2}"
    );
}
