use syn::parse::Parse;
use zizq::attrs::{Attribute, Inner, Item, Literal, MetaValue, UniqueSelection, ZizqAttrs};
use zizq::derive::{derive_job_kind_impl, emit_unique_key, DerivedKind, HashedPart};
use zizq::jq_path::PathStep;
use zizq::{Number, UniqueKey, UniqueScope, Value};

fn literal(expr: &syn::Expr) -> Literal {
    match expr {
        syn::Expr::Lit(e) => match &e.lit {
            syn::Lit::Str(s) => Literal::Text(s.value()),
            syn::Lit::Int(i) => Literal::Digits(i.base10_digits().to_string()),
            syn::Lit::Float(f) => Literal::Decimal(f.base10_digits().to_string()),
            syn::Lit::Bool(b) => Literal::Flag(b.value),
            _ => Literal::Other,
        },
        syn::Expr::Array(a) => {
            let texts: Vec<Literal> = a.elems.iter().map(literal).collect();
            let mut out = Vec::new();
            for t in texts {
                match t {
                    Literal::Text(s) => out.push(s),
                    _ => return Literal::Other,
                }
            }
            Literal::List(out)
        }
        _ => Literal::Other,
    }
}

fn inner(meta: &syn::meta::ParseNestedMeta) -> syn::Result<Inner> {
    let key = meta.path.require_ident()?.to_string();
    let value = if meta.input.peek(syn::token::Eq) {
        literal(&syn::Expr::parse(meta.value()?)?)
    } else {
        Literal::Missing
    };
    Ok(Inner { key, value })
}

fn item(meta: syn::meta::ParseNestedMeta) -> syn::Result<Item> {
    let key = meta.path.require_ident()?.to_string();
    let value = if meta.input.peek(syn::token::Paren) {
        let mut members = Vec::new();
        meta.parse_nested_meta(|m| {
            members.push(inner(&m)?);
            Ok(())
        })?;
        MetaValue::Group(members)
    } else {
        MetaValue::Plain(inner(&meta)?.value)
    };
    Ok(Item::Meta { key, value })
}

fn attributes(src: &str) -> (String, Vec<Attribute>) {
    let input: syn::DeriveInput = syn::parse_str(src).unwrap();
    let mut out = Vec::new();
    for attr in &input.attrs {
        let path = attr
            .path()
            .get_ident()
            .map(|i| i.to_string())
            .unwrap_or_default();
        let mut items = Vec::new();
        if path == "zizq" {
            let parsed = attr.parse_nested_meta(|meta| {
                items.push(item(meta)?);
                Ok(())
            });
            if let Err(e) = parsed {
                items.push(Item::Malformed(e.to_string()));
            }
        }
        out.push(Attribute { path, items });
    }
    (input.ident.to_string(), out)
}

fn parse_str(src: &str) -> Result<ZizqAttrs, String> {
    ZizqAttrs::parse(&attributes(src).1)
}

fn derive(src: &str) -> Result<DerivedKind, String> {
    let (ident, attrs) = attributes(src);
    derive_job_kind_impl(&ident, ZizqAttrs::parse(&attrs)?)
}

#[test]
fn no_zizq_attrs_yields_all_none() {
    let attrs = parse_str("struct Foo;").unwrap();
    assert!(attrs.name.is_none());
    assert!(attrs.queue.is_none());
    assert!(attrs.priority.is_none());
    assert!(attrs.retry_limit.is_none());
}

#[test]
fn parses_name() {
    let attrs = parse_str(r#"#[zizq(name = "foo")] struct Foo;"#).unwrap();
    assert_eq!(attrs.name.unwrap(), "foo");
}

#[test]
fn parses_queue() {
    let attrs = parse_str(r#"#[zizq(queue = "emails")] struct Foo;"#).unwrap();
    assert_eq!(attrs.queue.unwrap(), "emails");
}

#[test]
fn parses_priority() {
    let attrs = parse_str(r#"#[zizq(priority = 100)] struct Foo;"#).unwrap();
    assert_eq!(attrs.priority.unwrap(), 100);
}

#[test]
fn parses_retry_limit() {
    let attrs = parse_str(r#"#[zizq(retry_limit = 5)] struct Foo;"#).unwrap();
    assert_eq!(attrs.retry_limit.unwrap(), 5);
}

#[test]
fn parses_all_in_one_attribute() {
    let attrs = parse_str(
        r#"#[zizq(name = "n", queue = "q", priority = 10, retry_limit = 3)] struct Foo;"#,
    )
    .unwrap();
    assert_eq!(attrs.name.unwrap(), "n");
    assert_eq!(attrs.queue.unwrap(), "q");
    assert_eq!(attrs.priority.unwrap(), 10);
    assert_eq!(attrs.retry_limit.unwrap(), 3);
}

#[test]
fn stacked_zizq_attributes_merge() {
    let attrs = parse_str(
        r#"
        #[zizq(name = "n")]
        #[zizq(queue = "q")]
        struct Foo;
        "#,
    )
    .unwrap();
    assert_eq!(attrs.name.unwrap(), "n");
    assert_eq!(attrs.queue.unwrap(), "q");
}

#[test]
fn priority_at_upper_bound_is_accepted() {
    let attrs = parse_str(r#"#[zizq(priority = 65535)] struct Foo;"#).unwrap();
    assert_eq!(attrs.priority.unwrap(), 65535);
}

#[test]
fn priority_out_of_range_errors() {
    let msg = parse_str(r#"#[zizq(priority = 65536)] struct Foo;"#).unwrap_err();
    assert!(
        msg.contains("number too large") || msg.contains("out of range"),
        "unexpected error: {msg}",
    );
}

#[test]
fn unknown_attribute_errors_with_helpful_message() {
    let msg = parse_str(r#"#[zizq(nam = "typo")] struct Foo;"#).unwrap_err();
    assert!(msg.contains("unknown"), "unexpected error: {msg}");
    assert!(msg.contains("`nam`"), "unexpected error: {msg}");
    assert_eq!(msg, "unknown `zizq` attribute `nam`");
}

#[test]
fn duplicate_key_within_one_attr_errors() {
    let err = parse_str(r#"#[zizq(name = "a", name = "b")] struct Foo;"#).unwrap_err();
    assert!(err.contains("duplicate"), "unexpected error: {err}");
    assert_eq!(err, "duplicate `name` attribute");
}

#[test]
fn duplicate_key_across_attrs_errors() {
    let err = parse_str(
        r#"
        #[zizq(name = "a")]
        #[zizq(name = "b")]
        struct Foo;
        "#,
    )
    .unwrap_err();
    assert!(err.contains("duplicate"), "unexpected error: {err}");
}

#[test]
fn non_zizq_attributes_are_ignored() {
    let attrs = parse_str(
        r#"
        #[serde(rename_all = "camelCase")]
        #[zizq(name = "foo")]
        struct Foo;
        "#,
    )
    .unwrap();
    assert_eq!(attrs.name.unwrap(), "foo");
}

#[test]
fn values_of_the_wrong_kind_are_errors() {
    let err = |body: &str| parse_str(&format!("#[zizq({body})] struct Foo;")).unwrap_err();
    assert_eq!(err("name = 1"), "expected string literal");
    assert_eq!(err("name"), "expected `=`");
    assert_eq!(err("priority = \"x\""), "expected integer literal");
    assert_eq!(
        err("retry_limit = 4294967296"),
        "number too large to fit in target type"
    );
    assert_eq!(err("name = \"a\", queue = 1, nam"), "expected string literal");
    assert_eq!(err("name = \"a\" queue = \"b\""), "expected `,`");
}

#[test]
fn a_negative_number_is_no_number() {
    let negative = Attribute {
        path: "zizq".into(),
        items: vec![Item::Meta {
            key: "priority".into(),
            value: MetaValue::Plain(Literal::Digits("-1".into())),
        }],
    };
    assert_eq!(
        ZizqAttrs::parse(&vec![negative]).unwrap_err(),
        "invalid digit found in string"
    );
}

#[test]
fn backoff_needs_all_three_parts() {
    let attrs = parse_str(
        "#[zizq(backoff(base_ms = 1000, exponent = 2.0, jitter_ms = 500))] struct Foo;",
    )
    .unwrap();
    let backoff = attrs.backoff.unwrap();
    assert_eq!(backoff.base_ms, 1000);
    assert_eq!(backoff.exponent, Number::Float("2.0".into()));
    assert_eq!(backoff.jitter_ms, 500);

    let err = |body: &str| parse_str(&format!("#[zizq(backoff({body}))] struct Foo;")).unwrap_err();
    assert!(err("base_ms = 1, exponent = 2.0").contains("requires"));
    assert!(err("base_ms = 1, base_ms = 2").contains("duplicate"));
    assert!(err("exponent = 2").contains("floating point"));
    assert!(err("exponent = 2.0, exponent = 2.0").contains("duplicate"));
    assert!(err("jitter_ms = 1, jitter_ms = 1").contains("duplicate"));
    assert!(err("jitter_ms = 18446744073709551616").contains("too large"));
    assert_eq!(err("speed = 1"), "unknown `backoff` attribute `speed`");
    assert!(parse_str("#[zizq(backoff = 1)] struct Foo;").is_err());
}

#[test]
fn retention_needs_one_part() {
    let attrs = parse_str("#[zizq(retention(dead_ms = 9))] struct Foo;").unwrap();
    let retention = attrs.retention.unwrap();
    assert_eq!(retention.completed_ms, None);
    assert_eq!(retention.dead_ms, Some(9));
    let err = |body: &str| parse_str(&format!("#[zizq(retention({body}))] struct Foo;")).unwrap_err();
    let empty = Attribute {
        path: "zizq".into(),
        items: vec![Item::Meta {
            key: "retention".into(),
            value: MetaValue::Group(vec![]),
        }],
    };
    assert!(ZizqAttrs::parse(&vec![empty]).unwrap_err().contains("requires"));
    assert!(err("dead_ms = 1, dead_ms = 1").contains("duplicate"));
    assert!(err("completed_ms = 1, completed_ms = 1").contains("duplicate"));
    assert_eq!(err("x = 1"), "unknown `retention` attribute `x`");
    assert!(parse_str("#[zizq(retention)] struct Foo;").is_err());
}

#[test]
fn unique_takes_a_selection_a_scope_and_a_prefix() {
    let attrs = parse_str("#[zizq(unique)] struct Foo;").unwrap();
    let bare = attrs.unique.unwrap();
    assert_eq!(bare.selection, None);
    assert_eq!(bare.scope, None);
    assert_eq!(bare.prefix, None);
    let attrs = parse_str(
        r#"#[zizq(unique(only = [".a", ".b"], scope = "exists", prefix = false))] struct Foo;"#,
    )
    .unwrap();
    let unique = attrs.unique.unwrap();
    assert_eq!(
        unique.selection,
        Some(UniqueSelection::Only(vec![".a".into(), ".b".into()]))
    );
    assert_eq!(unique.scope, Some(UniqueScope::Exists));
    assert_eq!(unique.prefix, Some(false));

    let err = |body: &str| parse_str(&format!("#[zizq(unique({body}))] struct Foo;")).unwrap_err();
    assert!(err(r#"only = [".a"], except = [".b"]"#).contains("mutually exclusive"));
    assert!(err(r#"except = [".a"], only = [".b"]"#).contains("mutually exclusive"));
    assert!(err(r#"only = [".a"], only = [".b"]"#).contains("duplicate"));
    assert!(err(r#"except = [".a"], except = [".b"]"#).contains("duplicate"));
    assert!(err(r#"only = ".a""#).contains("array"));
    assert_eq!(err(r#"scope = "later""#), "unknown scope `later`");
    assert!(err(r#"scope = "queued", scope = "queued""#).contains("duplicate"));
    assert_eq!(err("prefix = 1"), "expected boolean literal");
    assert!(err("prefix = true, prefix = true").contains("duplicate"));
    assert_eq!(err("x = 1"), "unknown `unique` attribute `x`");
    assert!(parse_str("#[zizq(unique, unique)] struct Foo;").is_err());
    assert!(parse_str("#[zizq(unique = true)] struct Foo;").is_err());
}

#[test]
fn defaults_come_from_the_trait_when_no_attrs_are_set() {
    let d = derive("struct SendEmail { _to: String }").unwrap();
    assert_eq!(d.kind.name, "SendEmail");
    assert_eq!(d.kind.queue, "default");
    assert_eq!(d.kind.priority, None);
    assert_eq!(d.kind.retry_limit, None);
    assert_eq!(d.unique, None);
}

#[test]
fn name_attribute_overrides_the_struct_ident() {
    let d = derive(r#"#[zizq(name = "send.email")] struct SendEmail { _to: String }"#).unwrap();
    assert_eq!(d.kind.name, "send.email");
}

#[test]
fn queue_attribute_sets_the_queue_const() {
    let d = derive(r#"#[zizq(queue = "emails")] struct SendEmail { _to: String }"#).unwrap();
    assert_eq!(d.kind.queue, "emails");
}

#[test]
fn priority_attribute_sets_the_priority_const() {
    let d = derive(r#"#[zizq(priority = 100)] struct SendEmail { _to: String }"#).unwrap();
    assert_eq!(d.kind.priority, Some(100));
}

#[test]
fn retry_limit_attribute_sets_the_retry_limit_const() {
    let d = derive(r#"#[zizq(retry_limit = 5)] struct SendEmail { _to: String }"#).unwrap();
    assert_eq!(d.kind.retry_limit, Some(5));
}

#[test]
fn all_four_attributes_compose_in_a_single_annotation() {
    let d = derive(
        r#"#[zizq(name = "send.email", queue = "emails", priority = 100, retry_limit = 3)]
           struct SendEmail { _to: String }"#,
    )
    .unwrap();
    assert_eq!(d.kind.name, "send.email");
    assert_eq!(d.kind.queue, "emails");
    assert_eq!(d.kind.priority, Some(100));
    assert_eq!(d.kind.retry_limit, Some(3));
}

#[test]
fn stacked_zizq_attributes_are_merged() {
    let d = derive(
        r#"#[zizq(name = "send.email")]
           #[zizq(queue = "emails")]
           #[zizq(priority = 50)]
           struct SendEmail { _to: String }"#,
    )
    .unwrap();
    assert_eq!(d.kind.name, "send.email");
    assert_eq!(d.kind.queue, "emails");
    assert_eq!(d.kind.priority, Some(50));
}

fn payload() -> Value {
    Value::Object(vec![
        ("tenant".into(), Value::Number(Number::PosInt(42))),
        ("note".into(), Value::String("x".into())),
    ])
}

#[test]
fn a_bare_unique_hashes_the_whole_payload_behind_the_name() {
    let d = derive(r#"#[zizq(name = "push", unique)] struct Push;"#).unwrap();
    let key = d.unique.unwrap().unique_key(&d.kind.name, &payload());
    assert_eq!(key, UniqueKey::tagged_hash_of("push", &payload()));
}

#[test]
fn selections_narrow_what_is_hashed() {
    let only = derive(
        r#"#[zizq(unique(only = [".tenant"], scope = "queued", prefix = false))] struct Push;"#,
    )
    .unwrap()
    .unique
    .unwrap();
    assert_eq!(
        only.part,
        HashedPart::Only(vec![vec![PathStep::Field("tenant".into())]])
    );
    let expected = Value::Object(vec![("tenant".into(), Value::Number(Number::PosInt(42)))]);
    let key = only.unique_key("Push", &payload());
    assert_eq!(key.key, UniqueKey::hash_of(&expected).key);
    assert_eq!(key.scope, Some(UniqueScope::Queued));

    let except = derive(r#"#[zizq(unique(except = [".note"], prefix = true))] struct Push;"#)
        .unwrap()
        .unique
        .unwrap();
    let key = except.unique_key("Push", &payload());
    assert_eq!(key, UniqueKey::tagged_hash_of("Push", &expected));
    let mut other = payload();
    if let Value::Object(entries) = &mut other {
        entries[1].1 = Value::Null;
    }
    assert_eq!(except.unique_key("Push", &other), key);
}

#[test]
fn invalid_paths_say_what_is_wrong() {
    let err = derive(r#"#[zizq(unique(only = [".ok", "bad"]))] struct Push;"#).unwrap_err();
    assert_eq!(
        err,
        "invalid jq path \"bad\": path must start with `.`, got \"bad\" (at position 0)"
    );
    let err = derive(r#"#[zizq(unique(except = [".a-b"]))] struct Push;"#).unwrap_err();
    assert_eq!(
        err,
        "invalid jq path \".a-b\": unexpected character `-` (at position 2)"
    );
}

#[test]
fn a_path_that_escapes_outside_ascii_is_an_error() {
    let unique = |path: &str| zizq::attrs::UniqueAttr {
        selection: Some(UniqueSelection::Only(vec![path.to_string()])),
        scope: None,
        prefix: None,
    };
    assert_eq!(
        emit_unique_key(&unique(".[\"\\\u{e9}\"]")).unwrap_err(),
        "invalid jq path \".[\\\"\\\\\u{e9}\\\"]\": cannot escape character `\u{e9}` (at position 4)"
    );
    assert!(emit_unique_key(&unique(".[\"\u{e9}\"]")).is_ok());
}

#[test]
fn keys_do_not_depend_on_the_order_of_entries() {
    let turned = || match payload() {
        Value::Object(mut entries) => {
            entries.reverse();
            Value::Object(entries)
        }
        other => other,
    };
    for body in ["unique", r#"unique(only = [".note", ".tenant"])"#, r#"unique(except = [".x"])"#] {
        let d = derive(&format!("#[zizq({body})] struct Push;")).unwrap();
        let plan = d.unique.unwrap();
        assert_eq!(
            plan.unique_key("Push", &payload()),
            plan.unique_key("Push", &turned())
        );
    }
}
