use zizq::jq_parse::parse;
use zizq::jq_path::PathStep;

fn fault(path: &str) -> (String, usize) {
    let e = parse(path).unwrap_err();
    (e.message, e.position)
}

#[test]
fn parses_root() {
    assert_eq!(parse(".").unwrap(), Vec::<PathStep>::new());
}

#[test]
fn parses_nested_fields() {
    assert_eq!(
        parse(".foo.bar").unwrap(),
        vec![PathStep::Field("foo".into()), PathStep::Field("bar".into()),],
    );
}

#[test]
fn parses_bracket_index() {
    assert_eq!(
        parse(".foo[0]").unwrap(),
        vec![PathStep::Field("foo".into()), PathStep::Index(0)],
    );
}

#[test]
fn parses_quoted_key_with_dots() {
    assert_eq!(
        parse(r#".["dotted.key"]"#).unwrap(),
        vec![PathStep::Field("dotted.key".into())],
    );
}

#[test]
fn rejects_missing_leading_dot() {
    assert!(parse("foo").is_err());
}

#[test]
fn rejects_field_starting_with_digit() {
    assert!(parse(".9foo").is_err());
}

#[test]
fn rejects_unterminated_quoted_key() {
    assert!(parse(r#".["missing"#).is_err());
}

#[test]
fn parses_long_paths() {
    assert_eq!(
        parse(r#".[12]._a9["x"].b..c[18446744073709551615]"#).unwrap(),
        vec![
            PathStep::Index(12),
            PathStep::Field("_a9".into()),
            PathStep::Field("x".into()),
            PathStep::Field("b".into()),
            PathStep::Field("c".into()),
            PathStep::Index(usize::MAX),
        ],
    );
    assert_eq!(parse(".[007]").unwrap(), vec![PathStep::Index(7)]);
    assert_eq!(parse(".foo.").unwrap(), vec![PathStep::Field("foo".into())]);
}

#[test]
fn escapes_in_quoted_keys_stand_for_the_next_character() {
    assert_eq!(
        parse(r#".["a\"b\\c\nd"]"#).unwrap(),
        vec![PathStep::Field("a\"b\\cnd".into())],
    );
    assert_eq!(
        parse(".[\"h\u{e9}llo \u{1f600}\"]").unwrap(),
        vec![PathStep::Field("h\u{e9}llo \u{1f600}".into())],
    );
}

#[test]
fn faults_say_what_and_where() {
    assert_eq!(fault(""), ("path is empty (use `.` for the root)".into(), 0));
    assert_eq!(
        fault("a\"b"),
        ("path must start with `.`, got \"a\\\"b\"".into(), 0)
    );
    assert_eq!(fault(".[\"ab"), ("unterminated quoted key".into(), 5));
    assert_eq!(fault(".[\"\u{e9}b"), ("unterminated quoted key".into(), 6));
    assert_eq!(fault(".[\"ab\\"), ("unterminated quoted key".into(), 6));
    assert_eq!(fault(".[\"ab\""), ("expected `]` after quoted key".into(), 6));
    assert_eq!(fault(".[\"ab\"x"), ("expected `]` after quoted key".into(), 6));
    assert_eq!(fault(".[x]"), ("expected digit or quoted key after `[`".into(), 2));
    assert_eq!(fault(".["), ("expected digit or quoted key after `[`".into(), 2));
    assert_eq!(fault(".[12"), ("expected `]` after array index".into(), 4));
    assert_eq!(fault(".[12x"), ("expected `]` after array index".into(), 4));
    assert_eq!(
        fault(".a[99999999999999999999]"),
        ("invalid array index `99999999999999999999`".into(), 3)
    );
    assert_eq!(fault(".[\"\u{e9}\"]\u{1f600}"), ("unexpected character `\u{1f600}`".into(), 7));
    assert_eq!(fault(".a-b"), ("unexpected character `-`".into(), 2));
}

#[test]
fn a_fault_reads_as_a_line_of_text() {
    let e = parse(".a-b").unwrap_err();
    assert_eq!(e.to_text(), "unexpected character `-` (at position 2)");
}

#[test]
fn escaped_characters_outside_ascii_are_faults() {
    assert_eq!(
        fault(".[\"a\\\u{e9}\"]"),
        ("cannot escape character `\u{e9}`".into(), 5)
    );
    assert_eq!(
        fault(".[\"\u{e9}\\\u{1f600}"),
        ("cannot escape character `\u{1f600}`".into(), 6)
    );
    assert!(parse(".[\"\u{e9}\"]").is_ok());
}

#[test]
fn any_steps_can_be_written_as_a_path() {
    let keys = ["", "a.b", "\"", "\\", "\\\"", "]", "h\u{e9} \u{1f600}"];
    for key in keys {
        let escaped = key.replace('\\', "\\\\").replace('"', "\\\"");
        let text = format!(".[\"{escaped}\"][7][\"{escaped}\"]");
        assert_eq!(
            parse(&text).unwrap(),
            vec![
                PathStep::Field(key.into()),
                PathStep::Index(7),
                PathStep::Field(key.into()),
            ],
        );
    }
    assert_eq!(
        parse(".foo[\"bar\"][7]._9.Baz").unwrap(),
        vec![
            PathStep::Field("foo".into()),
            PathStep::Field("bar".into()),
            PathStep::Index(7),
            PathStep::Field("_9".into()),
            PathStep::Field("Baz".into()),
        ],
    );
}
