use zizq::jobs::{read_backoff, read_retention};
use zizq::timestamp::to_ms_epoch;
use zizq::{
    BackoffConfig, BatchConfig, Job, JobStatus, Number, RetentionConfig, Timestamp, UniqueScope,
    Value,
};

fn value(v: &serde_json::Value) -> Value {
    match v {
        serde_json::Value::Null => Value::Null,
        serde_json::Value::Bool(b) => Value::Bool(*b),
        serde_json::Value::Number(n) => Value::Number(match (n.as_u64(), n.as_i64()) {
            (Some(u), _) => Number::PosInt(u),
            (None, Some(i)) => Number::NegInt(i),
            (None, None) => Number::Float(n.to_string()),
        }),
        serde_json::Value::String(s) => Value::String(s.clone()),
        serde_json::Value::Array(items) => Value::Array(items.iter().map(value).collect()),
        serde_json::Value::Object(map) => {
            Value::Object(map.iter().map(|(k, v)| (k.clone(), value(v))).collect())
        }
    }
}

fn json(text: &str) -> Value {
    value(&serde_json::from_str(text).unwrap())
}

fn status(text: &str) -> JobStatus {
    JobStatus::from_name(&serde_json::from_str::<String>(text).unwrap())
}

#[test]
fn known_status_deserialises() {
    assert_eq!(status("\"in_flight\""), JobStatus::InFlight);
}

#[test]
fn unknown_status_falls_back_to_unknown() {
    assert_eq!(status("\"blocked\""), JobStatus::Unknown);
}

#[test]
fn every_status_reads_back_from_its_name() {
    for s in [
        JobStatus::Ready,
        JobStatus::InFlight,
        JobStatus::Scheduled,
        JobStatus::Completed,
        JobStatus::Dead,
        JobStatus::Unknown,
    ] {
        assert_eq!(JobStatus::from_name(s.as_str()), s);
    }
    assert_eq!(JobStatus::Scheduled.as_str(), "scheduled");
}

#[test]
fn job_with_unknown_status_still_decodes() {
    let job = Job::from_value(&json(
        r#"{
            "id": "job-1",
            "type": "send_email",
            "queue": "emails",
            "status": "blocked",
            "priority": 50,
            "ready_at": 0,
            "attempts": 0
        }"#,
    ))
    .unwrap();
    assert_eq!(job.status, JobStatus::Unknown);
    assert_eq!(job.id, "job-1");
    assert_eq!(job.job_type, "send_email");
    assert_eq!(job.queue, "emails");
    assert_eq!(job.priority, 50);
    assert!(job.unique_key.is_none());
    assert!(job.budgets.is_empty());
}

#[test]
fn optional_parts_of_a_job_decode() {
    let job = Job::from_value(&json(
        r#"{
            "id": "job-1", "type": "t", "queue": "q", "status": "ready", "priority": 0,
            "ready_at": -5, "attempts": 2, "retry_limit": 3, "dequeued_at": 10,
            "failed_at": null, "payload": {"a": 1}, "duplicate": true, "folded": false,
            "backoff": {"base_ms": 1000, "exponent": 2.5, "jitter_ms": 7},
            "retention": {"dead_ms": 9},
            "unique_key": "user:42", "unique_while": "exists",
            "batch": {"key": "k", "when": "w", "fold": "f"},
            "budgets": [{"key": "emails", "cost": 2}],
            "something_newer": [1, 2]
        }"#,
    ))
    .unwrap();
    assert_eq!(job.ready_at, -5);
    assert_eq!(job.retry_limit, Some(3));
    assert_eq!(job.dequeued_at, Some(10));
    assert_eq!(job.failed_at, None);
    assert_eq!(job.payload, Some(json(r#"{"a": 1}"#)));
    assert_eq!(job.duplicate, Some(true));
    assert_eq!(job.folded, Some(false));
    let backoff = job.backoff.unwrap();
    assert_eq!(backoff.base_ms, 1000);
    assert_eq!(backoff.exponent, Number::Float("2.5".into()));
    assert_eq!(backoff.jitter_ms, 7);
    let retention = job.retention.unwrap();
    assert_eq!(retention.completed_ms, None);
    assert_eq!(retention.dead_ms, Some(9));
    let key = job.unique_key.unwrap();
    assert_eq!(key.key, "user:42");
    assert_eq!(key.scope, Some(UniqueScope::Exists));
    assert_eq!(job.batch.unwrap().fold, "f");
    assert_eq!(job.budgets[0].key, "emails");
    assert_eq!(job.budgets[0].cost, 2);
}

#[test]
fn a_scope_without_a_key_is_dropped() {
    let job = Job::from_value(&json(
        r#"{"id": "j", "type": "t", "queue": "q", "status": "ready", "priority": 0,
            "ready_at": 0, "attempts": 0, "unique_while": "active"}"#,
    ))
    .unwrap();
    assert!(job.unique_key.is_none());
}

#[test]
fn malformed_jobs_do_not_decode() {
    let missing_id = r#"{"type": "t", "queue": "q", "status": "ready", "priority": 0,
        "ready_at": 0, "attempts": 0}"#;
    assert!(Job::from_value(&json(missing_id)).is_none());
    let priority_too_large = r#"{"id": "j", "type": "t", "queue": "q", "status": "ready",
        "priority": 4294967296, "ready_at": 0, "attempts": 0}"#;
    assert!(Job::from_value(&json(priority_too_large)).is_none());
    assert!(Job::from_value(&json("[]")).is_none());
}

#[test]
fn configurations_read_back_as_they_were_written() {
    let batch = BatchConfig {
        key: "k".into(),
        when: "w".into(),
        fold: "f".into(),
    };
    assert_eq!(BatchConfig::from_value(&batch.to_value()), Some(batch));
    for retention in [
        RetentionConfig::default(),
        RetentionConfig {
            completed_ms: Some(1),
            dead_ms: None,
        },
        RetentionConfig {
            completed_ms: None,
            dead_ms: Some(u64::MAX),
        },
    ] {
        assert_eq!(read_retention(&retention.to_value()), Some(retention));
    }
    assert_eq!(read_retention(&Value::Null), None);
    let backoff = BackoffConfig {
        base_ms: 1,
        exponent: Number::Float("1.5".into()),
        jitter_ms: 2,
    };
    assert_eq!(read_backoff(&backoff.to_value()), Some(backoff));
}

#[test]
fn later_times_have_no_earlier_timestamps() {
    let mut last = i64::MIN;
    for nanos in [-2_000_001, -1_000_000, -999_999, 0, 999_999, 1_000_000, 1_999_999] {
        let ms = to_ms_epoch(Timestamp { nanos });
        assert!(last <= ms);
        last = ms;
    }
    assert_eq!(last, 1);
}

#[test]
fn jobs_read_from_arrays_by_position() {
    let job = Job::from_value(&json(
        r#"["j", "t", "q", {"in_flight": null}, 7, null, -5, 2, 3, [1000, 2.5, 7], 10, null, null,
            [null, 9], null, "user:42", {"exists": null}, true]"#,
    ))
    .unwrap();
    assert_eq!((job.id.as_str(), job.job_type.as_str(), job.queue.as_str()), ("j", "t", "q"));
    assert_eq!(job.status, JobStatus::InFlight);
    assert_eq!((job.priority, job.ready_at, job.attempts), (7, -5, 2));
    assert_eq!(job.payload, None);
    assert_eq!((job.retry_limit, job.dequeued_at, job.failed_at), (Some(3), Some(10), None));
    let backoff = job.backoff.unwrap();
    assert_eq!((backoff.base_ms, backoff.jitter_ms), (1000, 7));
    assert_eq!(backoff.exponent, Number::Float("2.5".into()));
    assert_eq!(job.retention.unwrap().dead_ms, Some(9));
    let key = job.unique_key.unwrap();
    assert_eq!((key.key.as_str(), key.scope), ("user:42", Some(UniqueScope::Exists)));
    assert_eq!(job.duplicate, Some(true));
    assert!(job.budgets.is_empty());

    let short = Job::from_value(&json(r#"["j", "t", "q", "ready", 7, {"a": 1}, -5, 2]"#)).unwrap();
    assert_eq!(short.payload, Some(json(r#"{"a": 1}"#)));
    assert_eq!(short.retry_limit, None);
    assert!(Job::from_value(&json(r#"["j", "t", "q", "ready", 7, null, -5]"#)).is_none());
    let long = r#"["j", "t", "q", "ready", 7, null, -5, 2, null, null, null, null, null, null,
        null, null, null, null, null]"#;
    assert!(Job::from_value(&json(long)).is_none());
}

#[test]
fn variants_read_from_objects_with_one_key() {
    let with = |status: &str| {
        let text = format!(
            r#"{{"id": "j", "type": "t", "queue": "q", "status": {status}, "priority": 0,
                "ready_at": 0, "attempts": 0}}"#
        );
        Job::from_value(&json(&text)).map(|job| job.status)
    };
    assert_eq!(with(r#"{"dead": null}"#), Some(JobStatus::Dead));
    assert_eq!(with(r#"{"later": null}"#), Some(JobStatus::Unknown));
    assert_eq!(with(r#"{"dead": 1}"#), None);
    assert_eq!(with(r#"{"dead": null, "ready": null}"#), None);
    assert_eq!(with("{}"), None);
    assert_eq!(with("null"), None);
}

#[test]
fn configurations_read_from_arrays_by_position() {
    let batch = BatchConfig::from_value(&json(r#"["k", "w", "f"]"#)).unwrap();
    assert_eq!((batch.key.as_str(), batch.when.as_str(), batch.fold.as_str()), ("k", "w", "f"));
    assert!(BatchConfig::from_value(&json(r#"["k", "w"]"#)).is_none());
    assert!(BatchConfig::from_value(&json(r#"["k", "w", "f", "x"]"#)).is_none());
    assert_eq!(read_retention(&json("[]")), Some(RetentionConfig::default()));
    assert_eq!(read_retention(&json("[1]")).unwrap().completed_ms, Some(1));
    assert_eq!(read_retention(&json("[1, 2, 3]")), None);
    assert!(read_backoff(&json("[1, 2]")).is_none());
}

#[test]
fn an_exponent_that_is_not_finite_is_sent_as_null() {
    for token in ["NaN", "inf", "-inf"] {
        let backoff = BackoffConfig {
            base_ms: 1,
            exponent: Number::Float(token.into()),
            jitter_ms: 2,
        };
        assert_eq!(
            backoff.to_value(),
            json(r#"{"base_ms": 1, "exponent": null, "jitter_ms": 2}"#)
        );
        assert_eq!(read_backoff(&backoff.to_value()), None);
    }
}
