use zizq::encode::encode_body;
use zizq::{
    BackoffConfig, BatchConfig, BudgetBindingInput, BulkEnqueueBuilder, Client, Duration,
    EnqueueBuilder, EnqueueRequest, Format, Job, JobKind, Method, Number, Payload,
    RetentionConfig, Timestamp, UniqueKey, UniqueScope, Value, ZizqError,
};

fn value(v: &serde_json::Value) -> Value {
    match v {
        serde_json::Value::Null => Value::Null,
        serde_json::Value::Bool(b) => Value::Bool(*b),
        serde_json::Value::Number(n) => Value::Number(match (n.as_u64(), n.as_i64()) {
            (Some(u), _) => Number::PosInt(u),
            (None, Some(i)) => Number::NegInt(i),
            (None, None) => Number::Float(n.to_string()),
        }),
        serde_json::Value::String(s) => Value::String(s.clone()),
        serde_json::Value::Array(items) => Value::Array(items.iter().map(value).collect()),
        serde_json::Value::Object(map) => {
            Value::Object(map.iter().map(|(k, v)| (k.clone(), value(v))).collect())
        }
    }
}

fn json(text: &str) -> Value {
    value(&serde_json::from_str(text).unwrap())
}

fn client() -> Client {
    Client::builder()
        .url("http://127.0.0.1:7890")
        .format(Format::Json)
        .build()
        .unwrap()
}

fn send_email_kind() -> JobKind {
    JobKind {
        queue: "emails".into(),
        priority: Some(50),
        ..JobKind::new("send_email")
    }
}

fn send_email(c: &Client, to: &str) -> EnqueueBuilder {
    let payload = Value::Object(vec![("to".into(), Value::String(to.into()))]);
    c.enqueue(send_email_kind(), Payload::new(payload))
}

fn process_report(c: &Client, report_id: u64) -> EnqueueBuilder {
    let payload = Value::Object(vec![(
        "report_id".into(),
        Value::Number(Number::PosInt(report_id)),
    )]);
    c.enqueue(JobKind::new("process_report"), Payload::new(payload))
}

fn request(kind: JobKind, payload: &str) -> EnqueueRequest {
    EnqueueRequest {
        job_type: kind.name,
        queue: kind.queue,
        payload: json(payload),
        priority: kind.priority,
        ready_at: None,
        retry_limit: None,
        backoff: None,
        retention: None,
        unique_key: None,
        unique_while: None,
        batch: None,
        budgets: vec![],
    }
}

fn body(req: &EnqueueRequest) -> serde_json::Value {
    serde_json::from_slice(&encode_body(&req.to_value(), Format::Json).unwrap()).unwrap()
}

fn resolved(b: EnqueueBuilder) -> serde_json::Value {
    body(&b.into_request().unwrap())
}

#[test]
fn json_body_uses_trait_defaults() {
    let json = body(&request(send_email_kind(), r#"{ "to": "a@b" }"#));
    assert_eq!(json["type"], "send_email");
    assert_eq!(json["queue"], "emails");
    assert_eq!(json["priority"], 50);
    assert_eq!(json["payload"]["to"], "a@b");
    assert!(json.get("ready_at").is_none());
    assert!(json.get("unique_key").is_none());
}

#[test]
fn json_body_skips_none_fields() {
    let json = body(&request(JobKind::new("bare"), r#"{ "x": 7 }"#));
    let obj = json.as_object().unwrap();
    assert_eq!(obj.len(), 3); // type, queue, payload
    assert!(obj.contains_key("type"));
    assert!(obj.contains_key("queue"));
    assert!(obj.contains_key("payload"));
}

#[test]
fn json_body_includes_backoff_and_retention_when_set() {
    let json = body(&EnqueueRequest {
        backoff: Some(BackoffConfig {
            base_ms: 1_000,
            exponent: Number::Float("2.0".into()),
            jitter_ms: 500,
        }),
        retention: Some(RetentionConfig {
            completed_ms: Some(60_000),
            dead_ms: None,
        }),
        priority: None,
        ..request(send_email_kind(), r#"{ "to": "a@b" }"#)
    });
    assert_eq!(json["backoff"]["base_ms"], 1_000);
    assert_eq!(json["backoff"]["exponent"], 2.0);
    assert_eq!(json["backoff"]["jitter_ms"], 500);
    assert_eq!(json["retention"]["completed_ms"], 60_000);
    assert!(json["retention"].get("dead_ms").is_none());
}

#[test]
fn msgpack_round_trips_a_job_response() {
    let job = json(
        r#"{
            "id": "abc",
            "type": "send_email",
            "queue": "emails",
            "status": "ready",
            "priority": 50,
            "ready_at": 0,
            "attempts": 0,
            "payload": { "to": "a@b" },
            "unique_key": "user:42",
            "unique_while": "exists"
        }"#,
    );
    let bytes = encode_body(&job, Format::MessagePack).unwrap();
    let back: serde_json::Value = rmp_serde::from_slice(&bytes).unwrap();

    let parsed = Job::from_value(&value(&back)).unwrap();
    assert_eq!(parsed.id, "abc");
    assert_eq!(parsed.job_type, "send_email");
    assert_eq!(parsed.queue, "emails");
    assert_eq!(parsed.priority, 50);
    let uk = parsed.unique_key.expect("unique_key folded");
    assert_eq!(uk.key, "user:42");
    assert_eq!(uk.scope, Some(UniqueScope::Exists));
    assert_eq!(parsed.payload, Some(json(r#"{ "to": "a@b" }"#)));
    assert_eq!(parsed.duplicate, None);
}

#[test]
fn unique_key_with_scope_emits_unique_while() {
    let json = body(&EnqueueRequest {
        unique_key: Some("user:42".to_string()),
        unique_while: Some(UniqueScope::Exists),
        ..request(send_email_kind(), r#"{ "to": "a@b" }"#)
    });
    assert_eq!(json["unique_key"], "user:42");
    assert_eq!(json["unique_while"], "exists");
}

#[test]
fn overrides_replace_the_defaults_of_the_job_type() {
    let c = client();
    let kind = || JobKind {
        retry_limit: Some(3),
        retention: Some(RetentionConfig {
            completed_ms: None,
            dead_ms: Some(1),
        }),
        budgets: vec![BudgetBindingInput::new("stripe").cost(2)],
        ..send_email_kind()
    };
    let plain = resolved(c.enqueue(kind(), Payload::new(Value::Null)));
    assert_eq!(plain["queue"], "emails");
    assert_eq!(plain["priority"], 50);
    assert_eq!(plain["retry_limit"], 3);
    assert_eq!(plain["retention"]["dead_ms"], 1);
    assert_eq!(plain["budgets"][0]["key"], "stripe");
    assert_eq!(plain["payload"], serde_json::Value::Null);

    let set = resolved(
        c.enqueue(kind(), Payload::new(Value::Null))
            .queue("urgent")
            .priority(1)
            .retry_limit(9)
            .retention(RetentionConfig::default())
            .batch(BatchConfig {
                key: "k".into(),
                when: "w".into(),
                fold: "f".into(),
            })
            .budget(BudgetBindingInput::new("a"))
            .budget("b".into()),
    );
    assert_eq!(set["queue"], "urgent");
    assert_eq!(set["priority"], 1);
    assert_eq!(set["retry_limit"], 9);
    assert_eq!(set["retention"], serde_json::Value::Object(Default::default()));
    assert_eq!(set["batch"]["when"], "w");
    assert_eq!(set["budgets"][0]["key"], "a");
    assert_eq!(set["budgets"][1]["key"], "b");
}

#[test]
fn clearing_budgets_omits_the_field() {
    let c = client();
    let kind = JobKind {
        budgets: vec![BudgetBindingInput::new("stripe")],
        ..send_email_kind()
    };
    let b = c
        .enqueue(kind, Payload::new(Value::Null))
        .budget("dropped".into())
        .clear_budgets();
    assert!(resolved(b).get("budgets").is_none());
    let list = vec![BudgetBindingInput::new("a"), BudgetBindingInput::new("b")];
    let b = send_email(&c, "x").budget("dropped".into()).budgets(list);
    assert_eq!(resolved(b)["budgets"].as_array().unwrap().len(), 2);
}

#[test]
fn a_key_at_the_call_site_beats_that_of_the_payload() {
    let c = client();
    let payload = || Payload {
        unique_key: Some(UniqueKey::raw("own").scope(UniqueScope::Active)),
        ..Payload::new(Value::Null)
    };
    let own = resolved(c.enqueue(send_email_kind(), payload()));
    assert_eq!(own["unique_key"], "own");
    assert_eq!(own["unique_while"], "active");
    let set = resolved(
        c.enqueue(send_email_kind(), payload())
            .unique_key(UniqueKey::raw("set")),
    );
    assert_eq!(set["unique_key"], "set");
    assert!(set.get("unique_while").is_none());
}

#[test]
fn times_are_sent_in_milliseconds() {
    let c = client();
    let at = |nanos: i128| resolved(send_email(&c, "x").ready_at(Timestamp { nanos }))["ready_at"].clone();
    assert_eq!(at(1_700_000_000_123_999_999), 1_700_000_000_123i64);
    assert_eq!(at(-1_999_999), -1);
    assert_eq!(at(0), 0);
    let now = Timestamp { nanos: 5_000_000 };
    let b = send_email(&c, "x").delay_from(now, Duration::from_millis(7));
    assert_eq!(resolved(b)["ready_at"], 12);
    let b = send_email(&c, "x").delay_at(now, Duration::from_millis(7)).unwrap();
    assert_eq!(resolved(b)["ready_at"], 12);
}

#[test]
fn a_delay_ends_where_time_does() {
    let c = client();
    let last = Timestamp { nanos: zizq::timestamp::LATEST };
    assert!(send_email(&c, "x").delay_at(last, Duration { nanos: 1 }).is_none());
    let b = send_email(&c, "x").delay_at(last, Duration { nanos: 0 }).unwrap();
    assert_eq!(b.ready_at_ms, Some(253_402_300_799_999));
}

#[test]
fn a_delay_counts_from_now() {
    let c = client();
    let before = time::OffsetDateTime::now_utc().unix_timestamp_nanos() / 1_000_000;
    let b = send_email(&c, "x").delay(Duration::from_secs(60)).unwrap();
    let after = time::OffsetDateTime::now_utc().unix_timestamp_nanos() / 1_000_000;
    let at = b.ready_at_ms.unwrap() as i128;
    assert!(before + 60_000 <= at && at <= after + 60_000);
    assert!(send_email(&c, "x").delay(Duration::from_secs(u64::MAX)).is_none());
}

#[test]
fn an_enqueue_is_posted() {
    let c = client();
    let r = send_email(&c, "x").into_request().unwrap().request();
    assert_eq!(r.method, Method::Post);
    assert_eq!(c.url(&r), "http://127.0.0.1:7890/jobs");
}

#[test]
fn empty_builder_has_zero_len() {
    let c = client();
    let b = c.enqueue_bulk();
    assert_eq!(b.len(), 0);
    assert!(b.is_empty());
}

#[test]
fn add_is_chainable_and_accumulates() {
    let c = client();
    let b = c
        .enqueue_bulk()
        .add(send_email(&c, "a@x"))
        .add(send_email(&c, "b@x"))
        .add(process_report(&c, 7));
    assert_eq!(b.len(), 3);
    assert!(!b.is_empty());
}

#[test]
fn push_mutates_in_place_for_loop_usage() {
    let c = client();
    let mut b = c.enqueue_bulk();
    for i in 0..5u64 {
        b.push(process_report(&c, i));
    }
    assert_eq!(b.len(), 5);
}

#[test]
fn add_and_push_can_be_mixed() {
    let c = client();
    let mut b = c.enqueue_bulk().add(send_email(&c, "a@x"));
    b.push(send_email(&c, "b@x"));
    let b = b.add(process_report(&c, 1));
    assert_eq!(b.len(), 3);
}

#[test]
fn a_batch_is_one_request() {
    let c = client();
    let r = c
        .enqueue_bulk()
        .add(send_email(&c, "a@x"))
        .add(process_report(&c, 7))
        .request()
        .unwrap();
    assert_eq!(c.url(&r), "http://127.0.0.1:7890/jobs/bulk");
    assert_eq!(
        r.body,
        Some(json(
            r#"{ "jobs": [
                { "type": "send_email", "queue": "emails", "payload": { "to": "a@x" }, "priority": 50 },
                { "type": "process_report", "queue": "default", "payload": { "report_id": 7 } }
            ] }"#
        ))
    );
}

#[test]
fn a_failed_batch_stays_failed() {
    let c = client();
    let b = BulkEnqueueBuilder {
        state: Err(ZizqError::Encode("first".into())),
    };
    let b = b.add(send_email(&c, "a@x"));
    assert_eq!(b.len(), 0);
    assert!(b.is_empty());
    match b.request() {
        Err(ZizqError::Encode(m)) => assert_eq!(m, "first"),
        other => panic!("unexpected outcome {other:?}"),
    }
}
