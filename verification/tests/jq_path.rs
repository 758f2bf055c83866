use zizq::jq_path::{pick, remove, set_path, walk, PathStep};
use zizq::{Number, Value};

fn value(v: &serde_json::Value) -> Value {
    match v {
        serde_json::Value::Null => Value::Null,
        serde_json::Value::Bool(b) => Value::Bool(*b),
        serde_json::Value::Number(n) => Value::Number(match (n.as_u64(), n.as_i64()) {
            (Some(u), _) => Number::PosInt(u),
            (None, Some(i)) => Number::NegInt(i),
            (None, None) => Number::Float(n.to_string()),
        }),
        serde_json::Value::String(s) => Value::String(s.clone()),
        serde_json::Value::Array(items) => Value::Array(items.iter().map(value).collect()),
        serde_json::Value::Object(map) => {
            Value::Object(map.iter().map(|(k, v)| (k.clone(), value(v))).collect())
        }
    }
}

fn json(text: &str) -> Value {
    value(&serde_json::from_str(text).unwrap())
}

fn field(name: &str) -> PathStep {
    PathStep::Field(name.into())
}

fn index(i: usize) -> PathStep {
    PathStep::Index(i)
}

#[test]
fn walks_to_present_field() {
    let v = json(r#"{ "a": { "b": 42 } }"#);
    assert_eq!(walk(&v, &[field("a"), field("b")]), Some(&json("42")));
}

#[test]
fn walks_to_present_index() {
    let v = json("[10, 20, 30]");
    assert_eq!(walk(&v, &[index(1)]), Some(&json("20")));
}

#[test]
fn walk_returns_none_on_missing_field() {
    let v = json(r#"{ "a": 1 }"#);
    assert_eq!(walk(&v, &[field("missing")]), None);
}

#[test]
fn walk_returns_none_on_out_of_range_index() {
    let v = json("[10, 20]");
    assert_eq!(walk(&v, &[index(9)]), None);
}

#[test]
fn walk_returns_none_on_type_mismatch() {
    let v = json(r#"{ "a": 1 }"#);
    assert_eq!(walk(&v, &[field("a"), field("b")]), None);
}

#[test]
fn walk_returns_full_value_on_empty_path() {
    let v = json(r#"{ "a": 1 }"#);
    assert_eq!(walk(&v, &[]), Some(&v));
}

#[test]
fn walk_distinguishes_missing_from_null() {
    let v = json(r#"{ "a": null }"#);
    assert_eq!(walk(&v, &[field("a")]), Some(&Value::Null));
    assert_eq!(walk(&v, &[field("b")]), None);
}

#[test]
fn remove_deletes_a_field() {
    let mut v = json(r#"{ "a": 1, "b": 2 }"#);
    remove(&mut v, &[field("a")]);
    assert_eq!(v, json(r#"{ "b": 2 }"#));
}

#[test]
fn remove_deletes_a_nested_field() {
    let mut v = json(r#"{ "a": { "b": 1, "c": 2 } }"#);
    remove(&mut v, &[field("a"), field("b")]);
    assert_eq!(v, json(r#"{ "a": { "c": 2 } }"#));
}

#[test]
fn remove_deletes_an_array_element() {
    let mut v = json("[10, 20, 30]");
    remove(&mut v, &[index(1)]);
    assert_eq!(v, json("[10, 30]"));
}

#[test]
fn remove_is_a_noop_on_missing_path() {
    let mut v = json(r#"{ "a": 1 }"#);
    remove(&mut v, &[field("b")]);
    assert_eq!(v, json(r#"{ "a": 1 }"#));
}

#[test]
fn remove_is_a_noop_on_shape_mismatch() {
    let mut v = json(r#"{ "a": 1 }"#);
    remove(&mut v, &[field("a"), field("b")]);
    assert_eq!(v, json(r#"{ "a": 1 }"#));
}

#[test]
fn remove_root_replaces_value_with_null() {
    let mut v = json(r#"{ "a": 1 }"#);
    remove(&mut v, &[]);
    assert_eq!(v, Value::Null);
}

#[test]
fn pick_selects_top_level_fields() {
    let src = json(r#"{ "a": 1, "b": 2, "c": 3 }"#);
    let paths = vec![vec![field("a")], vec![field("b")]];
    assert_eq!(pick(&src, &paths), json(r#"{ "a": 1, "b": 2 }"#));
}

#[test]
fn pick_preserves_nesting() {
    let src = json(r#"{ "user": { "id": 42, "name": "x" } }"#);
    let paths = vec![vec![field("user"), field("id")]];
    assert_eq!(pick(&src, &paths), json(r#"{ "user": { "id": 42 } }"#));
}

#[test]
fn pick_merges_multiple_paths_into_shared_parent() {
    let src = json(r#"{ "user": { "id": 42, "name": "x", "email": "a@b" } }"#);
    let paths = vec![
        vec![field("user"), field("id")],
        vec![field("user"), field("name")],
    ];
    assert_eq!(
        pick(&src, &paths),
        json(r#"{ "user": { "id": 42, "name": "x" } }"#),
    );
}

#[test]
fn pick_root_short_circuits_to_full_source() {
    let src = json(r#"{ "a": 1, "b": 2 }"#);
    assert_eq!(pick(&src, &[Vec::new()]), src);
}

#[test]
fn pick_skips_missing_paths_silently() {
    let src = json(r#"{ "a": 1 }"#);
    let paths = vec![vec![field("a")], vec![field("missing")]];
    assert_eq!(pick(&src, &paths), json(r#"{ "a": 1 }"#));
}

#[test]
fn pick_with_no_matches_returns_empty_object() {
    let src = json(r#"{ "a": 1 }"#);
    let paths = vec![vec![field("x")], vec![field("y")]];
    assert_eq!(pick(&src, &paths), json("{}"));
}

#[test]
fn pick_handles_array_indices() {
    let src = json(r#"{ "arr": [10, 20, 30] }"#);
    let paths = vec![vec![field("arr"), index(0)], vec![field("arr"), index(2)]];
    assert_eq!(pick(&src, &paths), json(r#"{ "arr": [10, null, 30] }"#));
}

#[test]
fn picked_paths_resolve_as_they_did() {
    let src = json(r#"{ "a": [ { "b": 1, "c": [true] }, null ], "d": null }"#);
    let paths = vec![
        vec![field("a"), index(1)],
        vec![field("a"), index(0), field("c"), index(0)],
        vec![field("d")],
        vec![field("a"), index(0), field("c")],
    ];
    let got = pick(&src, &paths);
    for p in &paths {
        assert_eq!(walk(&got, p), walk(&src, p));
    }
    assert_eq!(walk(&got, &[field("a"), index(0), field("b")]), None);
}

#[test]
fn removing_a_field_leaves_the_others() {
    let mut v = json(r#"{ "a": [ { "b": 1, "c": 2 } ], "d": 3 }"#);
    remove(&mut v, &[field("a"), index(0), field("b")]);
    assert_eq!(walk(&v, &[field("a"), index(0), field("b")]), None);
    assert_eq!(v, json(r#"{ "a": [ { "c": 2 } ], "d": 3 }"#));
    remove(&mut v, &[field("a"), index(7)]);
    assert_eq!(v, json(r#"{ "a": [ { "c": 2 } ], "d": 3 }"#));
}

#[test]
fn set_path_builds_containers_and_gives_way_to_other_shapes() {
    let mut v = Value::Null;
    set_path(&mut v, &[field("a"), index(1), field("b")], json("1"));
    assert_eq!(v, json(r#"{ "a": [null, { "b": 1 }] }"#));
    set_path(&mut v, &[field("a"), field("x")], json("2"));
    assert_eq!(v, json(r#"{ "a": [null, { "b": 1 }] }"#));
    set_path(&mut v, &[field("a"), index(0), field("c")], json("3"));
    assert_eq!(v, json(r#"{ "a": [{ "c": 3 }, { "b": 1 }] }"#));
    let mut w = json(r#"{ "n": null }"#);
    set_path(&mut w, &[field("n"), field("x")], json("1"));
    assert_eq!(w, json(r#"{ "n": null }"#));
}

#[test]
fn writing_back_changes_nothing() {
    let src = json(r#"{ "a": [ { "b": 1 }, 2 ] }"#);
    let path = [field("a"), index(0), field("b")];
    let mut v = src.clone();
    set_path(&mut v, &path, walk(&src, &path).unwrap().clone());
    assert_eq!(v, src);
}

#[test]
fn picking_ignores_the_order_and_repetition_of_paths() {
    let source = json(r#"{ "a": [1, { "b": 2, "c": [3, null, 4] }, 5], "d": { "e": 6 }, "f": 7 }"#);
    let one = vec![field("a"), index(1), field("c"), index(2)];
    let two = vec![field("a"), index(1)];
    let three = vec![field("d"), field("e")];
    let missing = vec![field("d"), field("x")];
    let expected = json(
        r#"{ "a": [null, { "b": 2, "c": [3, null, 4] }], "d": { "e": 6 } }"#,
    );
    for paths in [
        vec![one.clone(), two.clone(), three.clone()],
        vec![three.clone(), two.clone(), missing.clone()],
        vec![two.clone(), one.clone(), two.clone(), three.clone(), one.clone()],
    ] {
        assert_eq!(pick(&source, &paths), expected);
    }
    assert_eq!(
        pick(&source, &[one, missing]),
        json(r#"{ "a": [null, { "c": [null, null, 4] }] }"#)
    );
}

#[test]
fn what_was_written_reads_back() {
    let path = [field("a"), index(2), field("b")];
    let mut target = json(r#"{ "a": [1], "c": 3 }"#);
    set_path(&mut target, &path, Value::Bool(true));
    assert_eq!(walk(&target, &path), Some(&Value::Bool(true)));
    assert_eq!(target, json(r#"{ "a": [1, null, { "b": true }], "c": 3 }"#));
}
