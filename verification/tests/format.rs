use zizq::Format;

#[test]
fn parses_json_content_type() {
    assert_eq!(
        Format::from_content_type("application/json"),
        Some(Format::Json)
    );
}

#[test]
fn parses_msgpack_content_type() {
    assert_eq!(
        Format::from_content_type("application/msgpack"),
        Some(Format::MessagePack),
    );
}

#[test]
fn parses_ndjson_stream_content_type_as_json() {
    assert_eq!(
        Format::from_content_type("application/x-ndjson"),
        Some(Format::Json),
    );
}

#[test]
fn parses_msgpack_stream_content_type_as_msgpack() {
    assert_eq!(
        Format::from_content_type("application/vnd.zizq.msgpack-stream"),
        Some(Format::MessagePack),
    );
}

#[test]
fn strips_media_type_parameters() {
    assert_eq!(
        Format::from_content_type("application/json; charset=utf-8"),
        Some(Format::Json),
    );
    assert_eq!(
        Format::from_content_type("application/json;charset=utf-8"),
        Some(Format::Json),
    );
    assert_eq!(
        Format::from_content_type("application/json ; charset=utf-8"),
        Some(Format::Json),
    );
}

#[test]
fn tolerates_surrounding_whitespace() {
    assert_eq!(
        Format::from_content_type("  application/msgpack  "),
        Some(Format::MessagePack),
    );
}

#[test]
fn trims_every_kind_of_white_space() {
    for c in (0u32..0x11_0000).filter_map(char::from_u32) {
        let padded = format!("{c}application/json{c}");
        let known = c.is_whitespace() && c != ';';
        assert_eq!(Format::from_content_type(&padded).is_some(), known);
    }
}

#[test]
fn unknown_type_returns_none() {
    assert_eq!(Format::from_content_type("text/plain"), None);
    assert_eq!(Format::from_content_type("application/xml"), None);
}

#[test]
fn empty_string_returns_none() {
    assert_eq!(Format::from_content_type(""), None);
}

#[test]
fn case_sensitive() {
    assert_eq!(Format::from_content_type("Application/JSON"), None);
}

#[test]
fn own_content_types_are_recognised() {
    for f in [Format::Json, Format::MessagePack] {
        assert_eq!(Format::from_content_type(f.content_type()), Some(f));
        assert_eq!(Format::from_content_type(f.stream_content_type()), Some(f));
    }
    assert_eq!(Format::default(), Format::MessagePack);
    assert_eq!(Format::Json.content_type(), "application/json");
    assert_eq!(Format::MessagePack.content_type(), "application/msgpack");
}
