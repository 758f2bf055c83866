use zizq::{
    BudgetBindingInput, BudgetPatch, BudgetPolicy, BudgetStrategy, BulkEnqueueBuilder, Call, Client,
    CronEntry, CronGroup, Duration, ErrorPage, Expected, FailureBuilder, Format, JobKind, JobPage,
    JobPatch, Method, Number, PageStream, Payload, Timestamp, UniqueScope, Value, ZizqError,
};
use zizq::client::read_error;
use zizq::list_jobs::{PageCursor, PageStep};

fn value(v: &serde_json::Value) -> Value {
    match v {
        serde_json::Value::Null => Value::Null,
        serde_json::Value::Bool(b) => Value::Bool(*b),
        serde_json::Value::Number(n) => Value::Number(match (n.as_u64(), n.as_i64()) {
            (Some(u), _) => Number::PosInt(u),
            (None, Some(i)) => Number::NegInt(i),
            (None, None) => Number::Float(n.to_string()),
        }),
        serde_json::Value::String(s) => Value::String(s.clone()),
        serde_json::Value::Array(items) => Value::Array(items.iter().map(value).collect()),
        serde_json::Value::Object(map) => {
            Value::Object(map.iter().map(|(k, v)| (k.clone(), value(v))).collect())
        }
    }
}

fn json(text: &str) -> Value {
    value(&serde_json::from_str(text).unwrap())
}

fn client() -> Client {
    Client::builder().url("http://h:1").build().unwrap()
}

fn check(call: Call, method: Method, url: &str, body: Option<&str>, expected: Expected) {
    assert_eq!(call.request.method, method);
    assert_eq!(client().url(&call.request), format!("http://h:1{url}"));
    assert_eq!(call.request.body, body.map(json));
    assert_eq!(call.expected, expected);
}

#[test]
fn job_calls() {
    let c = client();
    check(c.report_success("job-1"), Method::Post, "/jobs/job-1/success", None, Expected::NoContent);
    check(c.report_success("ns/abc"), Method::Post, "/jobs/ns%2Fabc/success", None, Expected::NoContent);
    check(c.get_job("job-g1"), Method::Get, "/jobs/job-g1", None, Expected::Success);
    check(c.delete_job("job-d1"), Method::Delete, "/jobs/job-d1", None, Expected::NoContent);
    check(c.get_error("job-e1", 2), Method::Get, "/jobs/job-e1/errors/2", None, Expected::Success);
    check(
        c.report_success_bulk(&vec!["a".into(), "b".into()]),
        Method::Post,
        "/jobs/success",
        Some(r#"{ "ids": ["a", "b"] }"#),
        Expected::NoContentOrUnprocessable,
    );
    check(
        c.patch_job("job-p1", &JobPatch::new().queue("urgent").clear_backoff()),
        Method::Patch,
        "/jobs/job-p1",
        Some(r#"{ "queue": "urgent", "backoff": null }"#),
        Expected::Success,
    );
    check(c.health(), Method::Get, "/health", None, Expected::Success);
    check(c.server_version(), Method::Get, "/version", None, Expected::Success);
}

#[test]
fn raw_calls_expect_success() {
    let c = client();
    let kind = || JobKind::new("t");
    let job = c.enqueue(kind(), Payload::new(Value::Null)).into_request().unwrap();
    check(
        c.enqueue_raw(&job),
        Method::Post,
        "/jobs",
        Some(r#"{ "type": "t", "queue": "default", "payload": null }"#),
        Expected::Success,
    );
    let batch = c.enqueue_bulk().add(c.enqueue(kind(), Payload::new(Value::Null)));
    check(
        c.enqueue_bulk_raw(batch).unwrap(),
        Method::Post,
        "/jobs/bulk",
        Some(r#"{ "jobs": [{ "type": "t", "queue": "default", "payload": null }] }"#),
        Expected::Success,
    );
    check(
        c.report_failure_raw(&c.report_failure("j", "m")),
        Method::Post,
        "/jobs/j/failure",
        Some(r#"{ "message": "m" }"#),
        Expected::Success,
    );
    let stream = c.take_raw(&c.take());
    assert_eq!(stream.request.method, Method::Get);
    assert_eq!(c.url(&stream.request), "http://h:1/jobs/take");
    assert_eq!(stream.request.body, None);
    assert_eq!(stream.expected, Expected::Success);
    assert_eq!(stream.accept, c.format.stream_content_type());
}

#[test]
fn a_stream_is_asked_for_by_its_own_content_type() {
    let accept = |format: Format| {
        let c = Client::builder().url("http://h:1").format(format).build().unwrap();
        (c.stream_accept(), c.take_raw(&c.take()).accept)
    };
    let msgpack = "application/vnd.zizq.msgpack-stream";
    assert_eq!(accept(Format::MessagePack), (msgpack, msgpack));
    let json = Format::Json.stream_content_type();
    assert_eq!(accept(Format::Json), (json, json));
}

#[test]
fn errors_are_read_from_responses() {
    assert_eq!(read_error(&json(r#"{ "error": "no", "more": 1 }"#)), Some("no".to_string()));
    assert_eq!(read_error(&json(r#"["no"]"#)), Some("no".to_string()));
    assert_eq!(read_error(&json(r#"["no", 1]"#)), None);
    assert_eq!(read_error(&json(r#"{ "error": 1 }"#)), None);
    assert_eq!(read_error(&json(r#""no""#)), None);
}

#[test]
fn bulk_enqueues_answer_with_jobs() {
    let text = format!(r#"{{ "jobs": [{JOB}] }}"#);
    let jobs = BulkEnqueueBuilder::read_response(&json(&text)).unwrap();
    assert_eq!(jobs.len(), 1);
    assert_eq!(jobs[0].id, "j");
    let text = format!("[[{JOB}, {JOB}]]");
    assert_eq!(BulkEnqueueBuilder::read_response(&json(&text)).unwrap().len(), 2);
    assert!(BulkEnqueueBuilder::read_response(&json(r#"{ "jobs": [1] }"#)).is_none());
    assert!(BulkEnqueueBuilder::read_response(&json("{}")).is_none());
}

#[test]
fn builders_start_from_the_client() {
    let c = client();
    let url = |r: zizq::Request| c.url(&r);
    assert_eq!(url(c.delete_all_jobs().build_request()), "http://h:1/jobs");
    let patch = JobPatch::new();
    assert_eq!(url(c.patch_all_jobs().build_request(&patch)), "http://h:1/jobs");
    let binding = || BudgetBindingInput::new("k");
    let k = "http://h:1/jobs/budgets/k";
    assert_eq!(url(c.bind_all_jobs_budget(binding()).build_request()), k);
    assert_eq!(url(c.rebind_all_jobs_budget(binding()).build_request()), k);
    assert_eq!(url(c.set_all_jobs_budget_cost("k", 4).build_request()), k);
    assert_eq!(url(c.unbind_all_jobs_budget("k").build_request()), k);
    assert_eq!(
        url(c.clear_all_jobs_budgets().build_request()),
        "http://h:1/jobs/budgets"
    );
}

#[test]
fn budget_calls() {
    let c = client();
    let rate = BudgetPolicy::new(100, BudgetStrategy::time_based(Duration::from_secs(3600)));
    check(c.list_budgets(), Method::Get, "/budgets", None, Expected::Success);
    check(c.get_budget("emails"), Method::Get, "/budgets/emails", None, Expected::Success);
    check(c.delete_budget("emails"), Method::Delete, "/budgets/emails", None, Expected::NoContent);
    check(
        c.create_budget("emails", &rate),
        Method::Post,
        "/budgets/emails",
        Some(r#"{ "allocation": 100, "strategy": { "type": "time_based", "duration_ms": 3600000 } }"#),
        Expected::Success,
    );
    check(
        c.put_budget("stripe", &BudgetPolicy::new(3, BudgetStrategy::WhileInFlight)),
        Method::Put,
        "/budgets/stripe",
        Some(r#"{ "allocation": 3, "strategy": { "type": "while_in_flight" } }"#),
        Expected::Success,
    );
    check(
        c.update_budget("emails", &BudgetPatch::new().clear_burst()),
        Method::Patch,
        "/budgets/emails",
        Some(r#"{ "strategy": { "burst": null } }"#),
        Expected::Success,
    );
    let binding = BudgetBindingInput::new("emails").cost(2);
    check(
        c.bind_budget("job-1", &binding),
        Method::Post,
        "/jobs/job-1/budgets/emails",
        Some(r#"{ "cost": 2 }"#),
        Expected::Success,
    );
    check(
        c.rebind_budget("job-1", &binding),
        Method::Put,
        "/jobs/job-1/budgets/emails",
        Some(r#"{ "cost": 2 }"#),
        Expected::Success,
    );
    check(
        c.set_budget_cost("job-1", "emails", 7),
        Method::Patch,
        "/jobs/job-1/budgets/emails",
        Some(r#"{ "cost": 7 }"#),
        Expected::Success,
    );
    check(
        c.unbind_budget("job-1", "emails"),
        Method::Delete,
        "/jobs/job-1/budgets/emails",
        None,
        Expected::Success,
    );
    check(
        c.unbind_all_budgets("job-1"),
        Method::Delete,
        "/jobs/job-1/budgets",
        None,
        Expected::Success,
    );
    check(
        c.replace_budgets("job-1", &vec![binding, BudgetBindingInput::new("stripe")]),
        Method::Put,
        "/jobs/job-1/budgets",
        Some(r#"{ "budgets": [{ "key": "emails", "cost": 2 }, { "key": "stripe" }] }"#),
        Expected::Success,
    );
    check(
        c.replace_budgets("job-1", &vec![]),
        Method::Put,
        "/jobs/job-1/budgets",
        Some(r#"{ "budgets": [] }"#),
        Expected::Success,
    );
}

fn cleanup(c: &Client) -> CronEntry {
    let kind = JobKind {
        queue: "maintenance".into(),
        ..JobKind::new("cleanup")
    };
    let job = c.enqueue(kind, Payload::new(json(r#"{ "days": 30 }"#)));
    CronEntry::new("cleanup", "0 0 * * *", job)
}

const ENTRY: &str = r#"{ "name": "cleanup", "expression": "0 0 * * *",
    "job": { "type": "cleanup", "queue": "maintenance", "payload": { "days": 30 } } }"#;

#[test]
fn cron_calls() {
    let c = client();
    check(c.list_crons(), Method::Get, "/crons", None, Expected::Success);
    check(c.get_cron("nightly"), Method::Get, "/crons/nightly", None, Expected::Success);
    check(c.delete_cron("nightly"), Method::Delete, "/crons/nightly", None, Expected::NoContent);
    let paused = Some(r#"{ "paused": true }"#);
    let resumed = Some(r#"{ "paused": false }"#);
    check(c.pause_cron("nightly"), Method::Patch, "/crons/nightly", paused, Expected::Success);
    check(c.resume_cron("nightly"), Method::Patch, "/crons/nightly", resumed, Expected::Success);
    let entry = "/crons/nightly/entries/cleanup";
    check(c.get_cron_entry("nightly", "cleanup"), Method::Get, entry, None, Expected::Success);
    check(c.delete_cron_entry("nightly", "cleanup"), Method::Delete, entry, None, Expected::NoContent);
    check(c.pause_cron_entry("nightly", "cleanup"), Method::Patch, entry, paused, Expected::Success);
    check(c.resume_cron_entry("nightly", "cleanup"), Method::Patch, entry, resumed, Expected::Success);
    check(
        c.add_cron_entry("nightly", cleanup(&c)).unwrap(),
        Method::Post,
        "/crons/nightly/entries",
        Some(ENTRY),
        Expected::Success,
    );
    check(
        c.put_cron_entry("nightly", cleanup(&c)).unwrap(),
        Method::Put,
        entry,
        Some(ENTRY),
        Expected::Success,
    );
}

#[test]
fn a_group_is_replaced_as_a_whole() {
    let c = client();
    let r = c
        .replace_cron("nightly")
        .entry(cleanup(&c).timezone("Europe/Rome").paused(true))
        .paused(false)
        .request()
        .unwrap();
    assert_eq!(r.method, Method::Put);
    assert_eq!(c.url(&r), "http://h:1/crons/nightly");
    assert_eq!(
        r.body,
        Some(json(
            r#"{ "paused": false, "entries": [
                { "name": "cleanup", "expression": "0 0 * * *", "timezone": "Europe/Rome",
                  "paused": true,
                  "job": { "type": "cleanup", "queue": "maintenance", "payload": { "days": 30 } } }
            ] }"#
        ))
    );
}

#[test]
fn the_first_entry_that_fails_fails_the_group() {
    let c = client();
    let broken = |m: &str| CronEntry {
        job: Err(ZizqError::Encode(m.into())),
        ..cleanup(&c)
    };
    let r = c
        .replace_cron("nightly")
        .entry(cleanup(&c))
        .entry(broken("first"))
        .entry(broken("second"))
        .entry(cleanup(&c))
        .request();
    assert!(matches!(r, Err(ZizqError::Encode(m)) if m == "first"));
    assert!(c.add_cron_entry("g", broken("x")).is_err());
    assert!(c.put_cron_entry("g", broken("x")).is_err());
}

#[test]
fn groups_decode() {
    let group = CronGroup::from_value(&json(
        r#"{ "name": "nightly", "paused": true, "paused_at": 5, "entries": [
            { "name": "cleanup", "expression": "0 0 * * *", "paused": false, "timezone": null,
              "next_enqueue_at": 9,
              "job": { "type": "cleanup", "queue": "maintenance", "payload": { "days": 30 },
                       "priority": 3, "unique_key": "k", "unique_while": "queued" } }
        ] }"#,
    ))
    .unwrap();
    assert_eq!(group.name, "nightly");
    assert!(group.paused);
    assert_eq!(group.paused_at, Some(5));
    assert_eq!(group.resumed_at, None);
    let entry = &group.entries[0];
    assert_eq!(entry.name, "cleanup");
    assert!(!entry.paused);
    assert_eq!(entry.timezone, None);
    assert_eq!(entry.next_enqueue_at, Some(9));
    assert_eq!(entry.job.payload, Some(json(r#"{ "days": 30 }"#)));
    assert_eq!(entry.job.priority, Some(3));
    assert_eq!(entry.job.unique_while, Some(UniqueScope::Queued));
    assert!(CronGroup::from_value(&json(r#"{ "name": "x", "paused": 1, "entries": [] }"#)).is_none());
    assert!(CronGroup::from_value(&json(r#"{ "name": "x", "paused": true, "entries": [1] }"#)).is_none());
    let group = CronGroup::from_value(&json(
        r#"["g", false, null, 5, [["e", "* * * * *", "UTC", true, 1, 2, ["t", "q", null, 9], 3]]]"#,
    ))
    .unwrap();
    assert_eq!((group.name.as_str(), group.paused, group.resumed_at), ("g", false, Some(5)));
    let entry = &group.entries[0];
    assert_eq!((entry.name.as_str(), entry.expression.as_str()), ("e", "* * * * *"));
    assert_eq!((entry.paused, entry.paused_at, entry.resumed_at), (true, Some(1), Some(2)));
    assert_eq!((entry.next_enqueue_at, entry.last_enqueue_at), (Some(3), None));
    assert_eq!((entry.job.job_type.as_str(), entry.job.priority), ("t", Some(9)));
    assert!(CronGroup::from_value(&json(r#"["g", false, null, 5]"#)).is_none());
}

#[test]
fn failure_reports_send_what_was_set() {
    let c = client();
    let r = c.report_failure("job-1", "boom").request();
    assert_eq!(r.method, Method::Post);
    assert_eq!(c.url(&r), "http://h:1/jobs/job-1/failure");
    assert_eq!(r.body, Some(json(r#"{ "message": "boom" }"#)));
    let r = FailureBuilder::new("job-1", "boom")
        .error_type("E")
        .backtrace("b")
        .retry_at(Timestamp { nanos: 7_000_000 })
        .kill()
        .request();
    assert_eq!(
        r.body,
        Some(json(
            r#"{ "message": "boom", "error_type": "E", "backtrace": "b", "retry_at": 7, "kill": true }"#
        ))
    );
    let now = Timestamp { nanos: 1_000_000 };
    let b = FailureBuilder::new("j", "m").retry_in_from(now, Duration::from_millis(2));
    assert_eq!(b.retry_at_ms, Some(3));
    let b = FailureBuilder::new("j", "m").retry_in_at(now, Duration::from_millis(2)).unwrap();
    assert_eq!(b.retry_at_ms, Some(3));
    let last = Timestamp { nanos: zizq::timestamp::LATEST };
    assert!(FailureBuilder::new("j", "m").retry_in_at(last, Duration { nanos: 1 }).is_none());
    let b = FailureBuilder::new("j", "m").retry_in(Duration::from_secs(1)).unwrap();
    assert!(b.retry_at_ms.unwrap() > 1_700_000_000_000);
    assert!(FailureBuilder::new("j", "m").retry_in(Duration::from_secs(u64::MAX)).is_none());
}

fn page(text: &str) -> JobPage {
    JobPage::from_value(&json(text)).unwrap()
}

const JOB: &str = r#"{ "id": "j", "type": "t", "queue": "q", "status": "ready", "priority": 0,
    "ready_at": 0, "attempts": 0 }"#;

#[test]
fn pages_decode() {
    let p = page(&format!(
        r#"{{ "jobs": [{JOB}], "pages": {{ "self": "/jobs", "next": "/jobs?from=x", "prev": null }} }}"#
    ));
    assert_eq!(p.jobs.len(), 1);
    assert_eq!(p.pages.next.as_deref(), Some("/jobs?from=x"));
    assert_eq!(p.pages.prev, None);
    assert!(JobPage::from_value(&json(r#"{ "jobs": [] }"#)).is_none());
    let by_position = page(r#"[[], ["/next", null]]"#);
    assert_eq!(by_position.pages.next.as_deref(), Some("/next"));
    assert!(JobPage::from_value(&json(r#"[[], ["/next"]]"#)).is_none());
    assert!(JobPage::from_value(&json(r#"{ "jobs": [], "pages": [] }"#)).is_none());
    assert!(JobPage::from_value(&json(r#"{ "jobs": [7], "pages": {} }"#)).is_none());
    assert!(JobPage::empty().jobs.is_empty());
    let e = ErrorPage::from_value(&json(
        r#"{ "errors": [{ "attempt": 1, "message": "boom", "error_type": "T",
             "dequeued_at": 1000, "failed_at": 2000 }], "pages": {} }"#,
    ))
    .unwrap();
    assert_eq!(e.errors[0].attempt, 1);
    assert_eq!(e.errors[0].message, "boom");
    assert_eq!(e.errors[0].error_type.as_deref(), Some("T"));
    assert_eq!(e.errors[0].backtrace, None);
    assert_eq!(e.errors[0].failed_at, 2000);
    assert!(ErrorPage::from_value(&json(r#"{ "errors": [{}], "pages": {} }"#)).is_none());
}

#[test]
fn a_stream_goes_through_every_page() {
    let c = client();
    let first = c.list_jobs().stream();
    assert!(matches!(first.cursor, PageCursor::First(_)));
    let mut s: PageStream<u32> = PageStream {
        buffer: vec![],
        cursor: first.cursor,
    };
    let mut out = vec![];
    let mut fetched = vec![];
    loop {
        match s.step() {
            PageStep::Item(n) => out.push(n),
            PageStep::FetchFirst(r) => {
                fetched.push(c.url(&r));
                s.fetched(vec![1, 2], Some("/p2".into()));
            }
            PageStep::FetchNext(path) => {
                let next = if path == "/p2" { Some("/p3".to_string()) } else { None };
                s.fetched(if path == "/p2" { vec![] } else { vec![3] }, next);
                fetched.push(path);
            }
            PageStep::End => break,
        }
    }
    assert_eq!(out, [1, 2, 3]);
    assert_eq!(fetched, ["http://h:1/jobs", "/p2", "/p3"]);
    assert!(matches!(s.step(), PageStep::End));
    assert!(matches!(c.list_jobs().id(&[]).stream().cursor, PageCursor::Done));
    assert!(matches!(c.list_errors("j").stream().cursor, PageCursor::First(_)));
}
