use serde::Serialize;
use zizq::take::{Outcome, Read, TakeStep};
use zizq::{
    Client, DecodeResult, Format, Job, Number, StreamDecoder, TakeBuilder, TakeStream, Value,
    ZizqError,
};

fn value(v: &serde_json::Value) -> Value {
    match v {
        serde_json::Value::Null => Value::Null,
        serde_json::Value::Bool(b) => Value::Bool(*b),
        serde_json::Value::Number(n) => Value::Number(match (n.as_u64(), n.as_i64()) {
            (Some(u), _) => Number::PosInt(u),
            (None, Some(i)) => Number::NegInt(i),
            (None, None) => Number::Float(n.to_string()),
        }),
        serde_json::Value::String(s) => Value::String(s.clone()),
        serde_json::Value::Array(items) => Value::Array(items.iter().map(value).collect()),
        serde_json::Value::Object(map) => {
            Value::Object(map.iter().map(|(k, v)| (k.clone(), value(v))).collect())
        }
    }
}

fn fake_job(id: &str) -> serde_json::Value {
    serde_json::from_str(&format!(
        r#"{{ "id": "{id}", "type": "send_email", "queue": "emails", "status": "ready",
              "priority": 50, "ready_at": 0, "attempts": 0 }}"#
    ))
    .unwrap()
}

fn fake_job_json(id: &str) -> Vec<u8> {
    serde_json::to_vec(&fake_job(id)).unwrap()
}

fn fake_job_msgpack(id: &str) -> Vec<u8> {
    let mut buf = Vec::new();
    let mut ser = rmp_serde::Serializer::new(&mut buf)
        .with_struct_map()
        .with_human_readable();
    fake_job(id).serialize(&mut ser).unwrap();
    buf
}

fn msgpack_frame(payload: &[u8]) -> Vec<u8> {
    let mut out = Vec::with_capacity(4 + payload.len());
    out.extend_from_slice(&(payload.len() as u32).to_be_bytes());
    out.extend_from_slice(payload);
    out
}

fn msgpack_heartbeat() -> [u8; 4] {
    [0, 0, 0, 0]
}

fn assert_job(dec: &mut StreamDecoder, expect_id: &str) {
    let bytes = match dec.next() {
        DecodeResult::Frame(bytes) => bytes,
        DecodeResult::NeedMore => panic!("expected job, got NeedMore"),
    };
    let v: serde_json::Value = match dec {
        StreamDecoder::Ndjson { .. } => serde_json::from_slice(&bytes).unwrap(),
        StreamDecoder::Msgpack { .. } => rmp_serde::from_slice(&bytes).unwrap(),
    };
    assert_eq!(Job::from_value(&value(&v)).unwrap().id, expect_id);
}

#[test]
fn ndjson_decodes_a_single_job() {
    let mut dec = StreamDecoder::for_format(Format::Json);
    let mut bytes = fake_job_json("job-1");
    bytes.push(b'\n');
    dec.feed(&bytes);

    assert_job(&mut dec, "job-1");
    assert!(matches!(dec.next(), DecodeResult::NeedMore));
    assert!(dec.finalize().is_none());
}

#[test]
fn ndjson_decodes_multiple_jobs_in_one_chunk() {
    let mut dec = StreamDecoder::for_format(Format::Json);
    let mut bytes = Vec::new();
    bytes.extend_from_slice(&fake_job_json("job-1"));
    bytes.push(b'\n');
    bytes.extend_from_slice(&fake_job_json("job-2"));
    bytes.push(b'\n');
    dec.feed(&bytes);

    assert_job(&mut dec, "job-1");
    assert_job(&mut dec, "job-2");
    assert!(matches!(dec.next(), DecodeResult::NeedMore));
}

#[test]
fn ndjson_skips_empty_lines_as_heartbeats() {
    let mut dec = StreamDecoder::for_format(Format::Json);
    let mut bytes = Vec::new();
    bytes.push(b'\n'); // heartbeat
    bytes.push(b'\n'); // heartbeat
    bytes.extend_from_slice(&fake_job_json("job-1"));
    bytes.push(b'\n');
    bytes.push(b'\n'); // heartbeat
    bytes.extend_from_slice(&fake_job_json("job-2"));
    bytes.push(b'\n');
    dec.feed(&bytes);

    assert_job(&mut dec, "job-1");
    assert_job(&mut dec, "job-2");
    assert!(matches!(dec.next(), DecodeResult::NeedMore));
}

#[test]
fn ndjson_handles_partial_line_across_chunks() {
    let mut dec = StreamDecoder::for_format(Format::Json);
    let bytes = fake_job_json("job-1");
    let (first, second) = bytes.split_at(10);

    dec.feed(first);
    assert!(matches!(dec.next(), DecodeResult::NeedMore));

    let mut rest = second.to_vec();
    rest.push(b'\n');
    dec.feed(&rest);
    assert_job(&mut dec, "job-1");
}

#[test]
fn ndjson_handles_crlf_line_endings() {
    let mut dec = StreamDecoder::for_format(Format::Json);
    let mut bytes = fake_job_json("job-1");
    bytes.push(b'\r');
    bytes.push(b'\n');
    dec.feed(&bytes);

    assert_job(&mut dec, "job-1");
}

#[test]
fn ndjson_finalize_reports_trailing_partial_line() {
    let mut dec = StreamDecoder::for_format(Format::Json);
    dec.feed(b"{\"id\":\"a");
    assert!(matches!(dec.next(), DecodeResult::NeedMore));

    let err = dec.finalize().expect("trailing bytes");
    assert!(matches!(err, ZizqError::Decode(_)));
    assert!(dec.finalize().is_none());
}

#[test]
fn ndjson_strips_one_carriage_return_and_skips_blank_lines() {
    let mut dec = StreamDecoder::for_format(Format::Json);
    dec.feed(b" \t\x0c\r\n\r\r\n\x0b\nx\r\r\n");
    match dec.next() {
        DecodeResult::Frame(bytes) => assert_eq!(bytes, b"\x0b"),
        DecodeResult::NeedMore => panic!("expected a frame"),
    }
    match dec.next() {
        DecodeResult::Frame(bytes) => assert_eq!(bytes, b"x\r"),
        DecodeResult::NeedMore => panic!("expected a frame"),
    }
}

#[test]
fn msgpack_decodes_a_single_job() {
    let mut dec = StreamDecoder::for_format(Format::MessagePack);
    dec.feed(&msgpack_frame(&fake_job_msgpack("job-1")));

    assert_job(&mut dec, "job-1");
    assert!(matches!(dec.next(), DecodeResult::NeedMore));
    assert!(dec.finalize().is_none());
}

#[test]
fn msgpack_decodes_multiple_jobs_in_one_chunk() {
    let mut dec = StreamDecoder::for_format(Format::MessagePack);
    let mut bytes = Vec::new();
    bytes.extend_from_slice(&msgpack_frame(&fake_job_msgpack("job-1")));
    bytes.extend_from_slice(&msgpack_frame(&fake_job_msgpack("job-2")));
    dec.feed(&bytes);

    assert_job(&mut dec, "job-1");
    assert_job(&mut dec, "job-2");
    assert!(matches!(dec.next(), DecodeResult::NeedMore));
}

#[test]
fn msgpack_skips_zero_length_frames_as_heartbeats() {
    let mut dec = StreamDecoder::for_format(Format::MessagePack);
    let mut bytes = Vec::new();
    bytes.extend_from_slice(&msgpack_heartbeat());
    bytes.extend_from_slice(&msgpack_heartbeat());
    bytes.extend_from_slice(&msgpack_frame(&fake_job_msgpack("job-1")));
    bytes.extend_from_slice(&msgpack_heartbeat());
    bytes.extend_from_slice(&msgpack_frame(&fake_job_msgpack("job-2")));
    dec.feed(&bytes);

    assert_job(&mut dec, "job-1");
    assert_job(&mut dec, "job-2");
    assert!(matches!(dec.next(), DecodeResult::NeedMore));
}

#[test]
fn msgpack_needs_more_for_incomplete_length_prefix() {
    let mut dec = StreamDecoder::for_format(Format::MessagePack);
    dec.feed(&[0, 0]); // only 2 of 4 header bytes
    assert!(matches!(dec.next(), DecodeResult::NeedMore));
}

#[test]
fn msgpack_needs_more_for_incomplete_frame_body() {
    let mut dec = StreamDecoder::for_format(Format::MessagePack);
    let job = fake_job_msgpack("job-1");
    let frame = msgpack_frame(&job);
    let (first, _) = frame.split_at(4 + job.len() / 2);
    dec.feed(first);
    assert!(matches!(dec.next(), DecodeResult::NeedMore));
}

#[test]
fn msgpack_decodes_after_partial_chunks_arrive() {
    let mut dec = StreamDecoder::for_format(Format::MessagePack);
    let frame = msgpack_frame(&fake_job_msgpack("job-1"));
    let (first, second) = frame.split_at(6);

    dec.feed(first);
    assert!(matches!(dec.next(), DecodeResult::NeedMore));

    dec.feed(second);
    assert_job(&mut dec, "job-1");
}

#[test]
fn msgpack_finalize_reports_trailing_partial_frame() {
    let mut dec = StreamDecoder::for_format(Format::MessagePack);
    dec.feed(&[0, 0, 0, 5, 1, 2]); // header says 5 bytes, only 2 sent
    assert!(matches!(dec.next(), DecodeResult::NeedMore));
    assert_eq!(dec.pending_len(), 6);

    let err = dec.finalize().expect("trailing bytes");
    assert!(matches!(err, ZizqError::Decode(_)));
    assert_eq!(dec.pending_len(), 0);
}

fn frames(format: Format, chunks: &[&[u8]]) -> Vec<Vec<u8>> {
    let mut dec = StreamDecoder::for_format(format);
    let mut out = Vec::new();
    for chunk in chunks {
        dec.feed(chunk);
        while let DecodeResult::Frame(bytes) = dec.next() {
            out.push(bytes);
        }
    }
    out
}

#[test]
fn where_the_stream_is_cut_does_not_matter() {
    let mut packed = msgpack_frame(b"ab");
    packed.extend_from_slice(&msgpack_heartbeat());
    packed.extend_from_slice(&msgpack_frame(b"c"));
    packed.push(0);
    for (format, stream) in [
        (Format::MessagePack, packed),
        (Format::Json, b"ab\n\n  \nc\r\nrest".to_vec()),
    ] {
        let whole = frames(format, &[&stream]);
        assert_eq!(whole, vec![b"ab".to_vec(), b"c".to_vec()]);
        for i in 0..stream.len() {
            let (a, b) = stream.split_at(i);
            assert_eq!(frames(format, &[a, b]), whole);
        }
    }
}

#[test]
fn a_stream_decodes_before_it_reads() {
    let mut s = TakeStream::new(Format::Json);
    assert!(matches!(s.poll_next(), TakeStep::Read));
    assert!(matches!(s.received(Read::Chunk(b"a\nb\nc")), Outcome::Continue));
    assert!(matches!(s.poll_next(), TakeStep::Decode(f) if f == b"a"));
    assert_eq!(s.decoded(Ok(1)).unwrap(), 1);
    assert!(matches!(s.poll_next(), TakeStep::Decode(f) if f == b"b"));
    assert!(matches!(s.poll_next(), TakeStep::Read));
    match s.received(Read::End) {
        Outcome::Yield(ZizqError::Decode(m)) => {
            assert_eq!(m, "incomplete frame at end of stream")
        }
        other => panic!("unexpected outcome {other:?}"),
    }
    assert!(matches!(s.poll_next(), TakeStep::End));
}

#[test]
fn a_clean_end_yields_no_error() {
    let mut s = TakeStream::new(Format::Json);
    assert!(matches!(s.received(Read::Chunk(b"a\n")), Outcome::Continue));
    assert!(matches!(s.poll_next(), TakeStep::Decode(_)));
    assert!(matches!(s.received(Read::End), Outcome::End));
    assert!(matches!(s.poll_next(), TakeStep::End));
}

#[test]
fn errors_end_the_stream() {
    let mut s = TakeStream::new(Format::Json);
    let e = reqwest::Client::new().get("http://").build().unwrap_err();
    assert!(matches!(
        s.received(Read::Failed(e)),
        Outcome::Yield(ZizqError::Transport(_))
    ));
    assert!(matches!(s.poll_next(), TakeStep::End));

    let mut s = TakeStream::new(Format::Json);
    s.received(Read::Chunk(b"a\nb\n"));
    assert!(matches!(s.poll_next(), TakeStep::Decode(_)));
    let r: Result<(), ZizqError> = s.decoded(Err(ZizqError::Decode("bad".into())));
    assert!(r.is_err());
    assert!(matches!(s.poll_next(), TakeStep::End));
}

#[test]
fn a_stream_request_names_queues_and_prefetch() {
    let c = Client::builder().url("http://h:1").build().unwrap();
    let url = |b: &TakeBuilder| c.url(&b.request());
    assert_eq!(url(&c.take()), "http://h:1/jobs/take");
    assert_eq!(
        url(&c.take().queues(&["a", "b"]).prefetch(16)),
        "http://h:1/jobs/take?queue=a%2Cb&prefetch=16"
    );
    assert_eq!(
        url(&c.take().prefetch(0)),
        "http://h:1/jobs/take?prefetch=0"
    );
}
