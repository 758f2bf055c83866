use zizq::client::extract_error_message;
use zizq::encode::encode_body;
use zizq::{
    Client, Duration, Expected, Format, Method, Number, Reply, Request, Value, ZizqError,
};

fn value(v: &serde_json::Value) -> Value {
    match v {
        serde_json::Value::Null => Value::Null,
        serde_json::Value::Bool(b) => Value::Bool(*b),
        serde_json::Value::Number(n) => Value::Number(match (n.as_u64(), n.as_i64()) {
            (Some(u), _) => Number::PosInt(u),
            (None, Some(i)) => Number::NegInt(i),
            (None, None) => Number::Float(n.to_string()),
        }),
        serde_json::Value::String(s) => Value::String(s.clone()),
        serde_json::Value::Array(items) => Value::Array(items.iter().map(value).collect()),
        serde_json::Value::Object(map) => {
            Value::Object(map.iter().map(|(k, v)| (k.clone(), value(v))).collect())
        }
    }
}

fn json(text: &str) -> Value {
    value(&serde_json::from_str(text).unwrap())
}

fn client(url: &str) -> Client {
    Client::builder().url(url).build().unwrap()
}

fn get(segments: &[&str]) -> Request {
    Request {
        method: Method::Get,
        segments: segments.iter().map(|s| s.to_string()).collect(),
        query: vec![],
        body: None,
    }
}

#[test]
fn build_requires_url() {
    let err = Client::builder().build().unwrap_err();
    assert!(matches!(err, ZizqError::MissingUrl));
}

#[test]
fn build_rejects_garbage_url() {
    let err = Client::builder().url("not a url").build().unwrap_err();
    assert!(matches!(err, ZizqError::InvalidUrl(_)));
}

#[test]
fn build_defaults_to_messagepack() {
    let c = Client::builder()
        .url("http://localhost:7890")
        .build()
        .unwrap();
    assert_eq!(c.format, Format::MessagePack);
}

#[test]
fn build_accepts_explicit_format() {
    let c = Client::builder()
        .url("http://localhost:7890")
        .format(Format::Json)
        .build()
        .unwrap();
    assert_eq!(c.format, Format::Json);
}

#[test]
fn timeouts_default_and_can_be_set() {
    let c = client("http://localhost:7890");
    assert_eq!(c.connect_timeout, Duration::from_secs(10));
    assert_eq!(c.read_timeout, Duration::from_secs(30));
    let c = Client::builder()
        .url("http://localhost:7890")
        .connect_timeout(Duration::from_millis(5))
        .read_timeout(Duration::from_secs(7))
        .build()
        .unwrap();
    assert_eq!(c.connect_timeout, Duration::from_millis(5));
    assert_eq!(c.read_timeout, Duration::from_secs(7));
}

#[test]
fn the_base_url_is_normalised() {
    assert_eq!(client("HTTP://LocalHost:80").base_url, "http://localhost/");
}

#[test]
fn segments_are_appended_and_encoded() {
    let url = |base: &str, segments: &[&str]| client(base).url(&get(segments));
    assert_eq!(url("http://h:1", &["jobs", "a/b"]), "http://h:1/jobs/a%2Fb");
    assert_eq!(url("http://h:1/api/", &["jobs"]), "http://h:1/api/jobs");
    assert_eq!(url("http://h:1/api", &["jobs"]), "http://h:1/api/jobs");
}

#[test]
fn parameters_are_appended_and_encoded() {
    let mut request = get(&["jobs"]);
    request.query = vec![
        ("queue".into(), "a,b".into()),
        ("filter".into(), ".x == \"y\"".into()),
    ];
    assert_eq!(
        client("http://h:1").url(&request),
        "http://h:1/jobs?queue=a%2Cb&filter=.x+%3D%3D+%22y%22"
    );
}

#[test]
fn a_base_without_a_path_addresses_nothing() {
    let c = client("mailto:someone@example.com");
    assert_eq!(c.try_url(&get(&["jobs"])), None);
    let mut request = get(&["jobs"]);
    request.query = vec![("a".into(), "b".into())];
    assert_eq!(c.try_url(&request), None);
    let c = client("http://h:1");
    assert_eq!(
        c.try_url(&get(&["jobs"])),
        Some("http://h:1/jobs".to_string())
    );
    assert_eq!(
        c.try_url(&request),
        Some("http://h:1/jobs?a=b".to_string())
    );
}

#[test]
fn ordinary_requests_can_be_addressed() {
    assert!(client("http://h:1").can_address(&get(&["jobs", "id"])));
}

#[test]
fn page_links_stay_on_the_host() {
    let c = client("http://h:7890/api/");
    assert_eq!(
        c.resolve_page_path("/jobs?from=job-1").unwrap(),
        "http://h:7890/jobs?from=job-1"
    );
    assert_eq!(
        c.resolve_page_path("http://h:7890/x").unwrap(),
        "http://h:7890/x"
    );
    for path in ["http://evil/x", "//evil:7890/x", "http://h:1/x", "https://h/x"] {
        match c.resolve_page_path(path) {
            Err(ZizqError::Decode(m)) => assert!(
                m.starts_with("page path resolved to a different host than the configured base URL: ")
            ),
            other => panic!("unexpected outcome {other:?}"),
        }
    }
    assert_eq!(
        client("https://h/").resolve_page_path("https://h:443/x").unwrap(),
        "https://h/x"
    );
    assert!(matches!(
        c.resolve_page_path("http://:80"),
        Err(ZizqError::InvalidUrl(_))
    ));
}

#[test]
fn the_response_format_follows_the_content_type() {
    let c = client("http://h:1");
    assert_eq!(c.response_format(None), Format::MessagePack);
    assert_eq!(c.response_format(Some("text/html")), Format::MessagePack);
    assert_eq!(
        c.response_format(Some("application/json; charset=utf-8")),
        Format::Json
    );
}

#[test]
fn error_messages_fall_back_step_by_step() {
    let body = b"{\"error\":\"no\"}";
    let said = |s: &str| Some(s.to_string());
    assert_eq!(
        extract_error_message(Format::MessagePack, said("a"), said("b"), body),
        "a"
    );
    assert_eq!(
        extract_error_message(Format::MessagePack, None, said("b"), body),
        "b"
    );
    assert_eq!(
        extract_error_message(Format::MessagePack, None, None, body),
        "{\"error\":\"no\"}"
    );
    assert_eq!(
        extract_error_message(Format::Json, None, None, b"\xffoops"),
        "\u{fffd}oops"
    );
    assert_eq!(
        extract_error_message(Format::Json, None, None, "h\u{e9}".as_bytes()),
        "h\u{e9}"
    );
}

#[test]
fn responses_are_judged_by_what_was_expected() {
    let c = client("http://h:1");
    let reply = |status: u16| Reply {
        status,
        content_type: Some("application/json".into()),
        body: b"nope".to_vec(),
    };
    let ok = |e: Expected, status: u16| c.expect_status(e, &reply(status), None, None).is_ok();
    assert!(ok(Expected::Success, 200) && ok(Expected::Success, 299));
    assert!(!ok(Expected::Success, 199) && !ok(Expected::Success, 300));
    assert!(ok(Expected::NoContent, 204) && !ok(Expected::NoContent, 200));
    assert!(ok(Expected::NoContentOrUnprocessable, 422));
    assert!(ok(Expected::NoContentOrUnprocessable, 204));
    assert!(!ok(Expected::NoContentOrUnprocessable, 200));
    match c.expect_status(Expected::Success, &reply(404), Some("gone".into()), None) {
        Err(ZizqError::Response { status, message }) => {
            assert_eq!(status, 404);
            assert_eq!(message, "gone");
        }
        other => panic!("unexpected outcome {other:?}"),
    }
    match c.expect_status(Expected::Success, &reply(500), None, None) {
        Err(ZizqError::Response { status, message }) => {
            assert_eq!(status, 500);
            assert_eq!(message, "nope");
        }
        other => panic!("unexpected outcome {other:?}"),
    }
}

#[test]
fn headers_name_the_format() {
    let c = client("http://h:1");
    let mut request = get(&["jobs"]);
    assert_eq!(c.headers(&request), ("application/msgpack", None));
    request.body = Some(Value::Null);
    assert_eq!(
        c.headers(&request),
        ("application/msgpack", Some("application/msgpack"))
    );
}

#[test]
fn bodies_encode_in_both_formats() {
    let body = json(r#"{ "a": [1, -2, 2.5, "x", null, true], "b": {} }"#);
    let bytes = encode_body(&body, Format::Json).unwrap();
    assert_eq!(bytes, br#"{"a":[1,-2,2.5,"x",null,true],"b":{}}"#);
    let bytes = encode_body(&body, Format::MessagePack).unwrap();
    let back: serde_json::Value = rmp_serde::from_slice(&bytes).unwrap();
    assert_eq!(value(&back), body);
    assert_eq!(
        encode_body(&json(r#"{ "a": 7 }"#), Format::MessagePack).unwrap(),
        [0x81, 0xa1, b'a', 7]
    );
}

#[test]
fn deep_bodies_encode_in_both_formats() {
    let mut body = Value::Null;
    for _ in 0..500 {
        body = Value::Array(vec![body]);
    }
    assert!(encode_body(&body, Format::Json).is_ok());
    assert!(encode_body(&body, Format::MessagePack).is_ok());
}

#[test]
fn a_number_that_is_none_does_not_encode() {
    for token in ["1.2.3", "1", "01.5", "1.", ".5", "1e", "1e+", "+1.5", "NaN", "", "-", "1.5 "] {
        let body = Value::Array(vec![Value::Number(Number::Float(token.into()))]);
        for format in [Format::Json, Format::MessagePack] {
            assert!(matches!(encode_body(&body, format), Err(ZizqError::Encode(_))), "{token}");
        }
    }
    for token in ["1.5", "-0.25", "0.0", "1e16", "12E-3", "-1.5e+300"] {
        let body = Value::Array(vec![Value::Number(Number::Float(token.into()))]);
        let text = encode_body(&body, Format::Json).unwrap();
        assert_eq!(String::from_utf8(text).unwrap(), format!("[{token}]"));
        assert!(encode_body(&body, Format::MessagePack).is_ok());
    }
}

#[test]
fn bodies_keep_the_order_of_their_entries() {
    let body = json(r#"{ "b": 1, "a": 2 }"#);
    assert_eq!(encode_body(&body, Format::Json).unwrap(), br#"{"b":1,"a":2}"#);
    assert_eq!(
        encode_body(&body, Format::MessagePack).unwrap(),
        [0x82, 0xa1, b'b', 1, 0xa1, b'a', 2]
    );
}

#[test]
fn strings_are_escaped() {
    let text = "a\"\\/\u{8}\u{9}\u{a}\u{c}\u{d}\u{0}\u{1f}\u{7f}\u{e9}\u{1f600}";
    let bytes = encode_body(&Value::String(text.into()), Format::Json).unwrap();
    assert_eq!(
        String::from_utf8(bytes).unwrap(),
        "\"a\\\"\\\\/\\b\\t\\n\\f\\r\\u0000\\u001f\u{7f}\u{e9}\u{1f600}\""
    );
}
