//! Jobs as the server reports them.

use vstd::prelude::*;
use crate::batch::{batch_of, BatchConfig};
use crate::budget::{binding_views, bindings_of, is_bindings, read_bindings, BudgetBinding};
use crate::decode::{
    by_position, get, get_present, int_field, opt_bool_field, opt_int_field, opt_text_field,
    opt_variant_field, read_field, read_int_field, read_opt_bool_field, read_opt_int_field,
    read_opt_text_field, read_opt_variant_field, read_present, read_text_field, read_variant_field,
    record, text_field, variant_field,
};
use crate::json::{group_value_models, Json, Number, Value};
use crate::resources::{exponent_json, BackoffConfig, JobStatus, RetentionConfig};
use crate::text::{opt_text, slice_texts};
use crate::unique_key::{UniqueKey, UniqueScope};
use crate::wire::{field, lemma_field, opt_field, opt_i64, opt_int, opt_u64};

verus! {

/// A job. Times are Unix milliseconds.
#[derive(Debug, PartialEq)]
pub struct Job {
    pub id: String,
    pub job_type: String,
    pub queue: String,
    pub status: JobStatus,
    pub priority: u32,
    pub payload: Option<Value>,
    pub ready_at: i64,
    pub attempts: u32,
    pub retry_limit: Option<u32>,
    pub backoff: Option<BackoffConfig>,
    pub dequeued_at: Option<i64>,
    pub failed_at: Option<i64>,
    pub completed_at: Option<i64>,
    pub retention: Option<RetentionConfig>,
    pub purge_at: Option<i64>,
    pub unique_key: Option<UniqueKey>,
    pub duplicate: Option<bool>,
    pub folded: Option<bool>,
    pub batch: Option<BatchConfig>,
    pub budgets: Vec<BudgetBinding>,
}

/// The flat shape in which the API returns a job: the uniqueness key and
/// its scope are two fields.
#[derive(Debug, PartialEq)]
pub struct JobFromApi {
    pub id: String,
    pub job_type: String,
    pub queue: String,
    pub status: JobStatus,
    pub priority: u32,
    pub payload: Option<Value>,
    pub ready_at: i64,
    pub attempts: u32,
    pub retry_limit: Option<u32>,
    pub backoff: Option<BackoffConfig>,
    pub dequeued_at: Option<i64>,
    pub failed_at: Option<i64>,
    pub completed_at: Option<i64>,
    pub retention: Option<RetentionConfig>,
    pub purge_at: Option<i64>,
    pub unique_key: Option<String>,
    pub unique_while: Option<UniqueScope>,
    pub duplicate: Option<bool>,
    pub folded: Option<bool>,
    pub batch: Option<BatchConfig>,
    pub budgets: Vec<BudgetBinding>,
}

impl From<JobFromApi> for Job {
    fn from(w: JobFromApi) -> (r: Job) {
        let unique_key = match w.unique_key {
            Some(key) => Some(UniqueKey { key, scope: w.unique_while }),
            None => None,
        };
        Job {
            id: w.id,
            job_type: w.job_type,
            queue: w.queue,
            status: w.status,
            priority: w.priority,
            payload: w.payload,
            ready_at: w.ready_at,
            attempts: w.attempts,
            retry_limit: w.retry_limit,
            backoff: w.backoff,
            dequeued_at: w.dequeued_at,
            failed_at: w.failed_at,
            completed_at: w.completed_at,
            retention: w.retention,
            purge_at: w.purge_at,
            unique_key,
            duplicate: w.duplicate,
            folded: w.folded,
            batch: w.batch,
            budgets: w.budgets,
        }
    }
}

impl vstd::std_specs::convert::FromSpecImpl<JobFromApi> for Job {
    open spec fn obeys_from_spec() -> bool {
        true
    }

    open spec fn from_spec(w: JobFromApi) -> Job {
        Job {
            id: w.id,
            job_type: w.job_type,
            queue: w.queue,
            status: w.status,
            priority: w.priority,
            payload: w.payload,
            ready_at: w.ready_at,
            attempts: w.attempts,
            retry_limit: w.retry_limit,
            backoff: w.backoff,
            dequeued_at: w.dequeued_at,
            failed_at: w.failed_at,
            completed_at: w.completed_at,
            retention: w.retention,
            purge_at: w.purge_at,
            unique_key: match w.unique_key {
                Some(key) => Some(UniqueKey { key, scope: w.unique_while }),
                None => None,
            },
            duplicate: w.duplicate,
            folded: w.folded,
            batch: w.batch,
            budgets: w.budgets,
        }
    }
}

/// The number of a JSON number, as a model.
pub open spec fn is_number(v: Json) -> bool {
    v is Int || v is Float
}

/// The fields of a backoff, in order.
pub open spec fn backoff_fields() -> Seq<Seq<char>> {
    seq!["base_ms"@, "exponent"@, "jitter_ms"@]
}

/// The backoff that a JSON value holds: base, exponent and jitter.
pub open spec fn backoff_of(v: Json) -> Option<(u64, Json, u64)> {
    let v = record(v, backoff_fields(), 3);
    match (
        int_field(v, "base_ms"@, 0, u64::MAX as int),
        get(v, "exponent"@),
        int_field(v, "jitter_ms"@, 0, u64::MAX as int),
    ) {
        (Some(base_ms), Some(exponent), Some(jitter_ms)) => if is_number(exponent) {
            Some((base_ms as u64, exponent, jitter_ms as u64))
        } else {
            None
        },
        _ => None,
    }
}

/// The fields of a retention, in order.
pub open spec fn retention_fields() -> Seq<Seq<char>> {
    seq!["completed_ms"@, "dead_ms"@]
}

/// The retention that a JSON value holds.
pub open spec fn retention_of(v: Json) -> Option<RetentionConfig> {
    let v = record(v, retention_fields(), 0);
    if !(v is Obj) {
        None
    } else {
        match (
            opt_int_field(v, "completed_ms"@, 0, u64::MAX as int),
            opt_int_field(v, "dead_ms"@, 0, u64::MAX as int),
        ) {
            (Some(completed), Some(dead)) => Some(
                RetentionConfig {
                    completed_ms: match completed {
                        Some(n) => Some(n as u64),
                        None => None,
                    },
                    dead_ms: match dead {
                        Some(n) => Some(n as u64),
                        None => None,
                    },
                },
            ),
            _ => None,
        }
    }
}

/// Reads a backoff from the API.
pub fn read_backoff(v: &Value) -> (r: Option<BackoffConfig>)
    ensures
        r is Some == backoff_of(v@) is Some,
        r matches Some(b) ==> backoff_of(v@) == Some((b.base_ms, b.exponent.model(), b.jitter_ms)),
{
    broadcast use group_value_models;

    match v {
        Value::Array(items) => {
            let names = vec!["base_ms", "exponent", "jitter_ms"];
            assert(slice_texts(names@) =~= backoff_fields());
            backoff_record(&by_position(items, &names, 3))
        },
        _ => backoff_record(v),
    }
}

fn backoff_record(v: &Value) -> (r: Option<BackoffConfig>)
    requires
        !(v@ is Arr),
    ensures
        r is Some == backoff_of(v@) is Some,
        r matches Some(b) ==> backoff_of(v@) == Some((b.base_ms, b.exponent.model(), b.jitter_ms)),
{
    let base_ms = read_int_field(v, "base_ms", 0, u64::MAX as i128);
    let jitter_ms = read_int_field(v, "jitter_ms", 0, u64::MAX as i128);
    match (base_ms, read_field(v, "exponent"), jitter_ms) {
        (Some(base_ms), Some(Value::Number(exponent)), Some(jitter_ms)) => Some(
            BackoffConfig {
                base_ms: base_ms as u64,
                exponent: exponent.copy(),
                jitter_ms: jitter_ms as u64,
            },
        ),
        _ => None,
    }
}

/// Reads a retention from the API.
pub fn read_retention(v: &Value) -> (r: Option<RetentionConfig>)
    ensures
        r == retention_of(v@),
{
    broadcast use group_value_models;

    match v {
        Value::Array(items) => {
            let names = vec!["completed_ms", "dead_ms"];
            assert(slice_texts(names@) =~= retention_fields());
            retention_record(&by_position(items, &names, 0))
        },
        _ => retention_record(v),
    }
}

fn retention_record(v: &Value) -> (r: Option<RetentionConfig>)
    requires
        !(v@ is Arr),
    ensures
        r == retention_of(v@),
{
    match v {
        Value::Object(_) => {},
        _ => {
            return None;
        },
    }
    match (
        read_opt_int_field(v, "completed_ms", 0, u64::MAX as i128),
        read_opt_int_field(v, "dead_ms", 0, u64::MAX as i128),
    ) {
        (Some(completed), Some(dead)) => Some(
            RetentionConfig {
                completed_ms: match completed {
                    Some(n) => Some(n as u64),
                    None => None,
                },
                dead_ms: match dead {
                    Some(n) => Some(n as u64),
                    None => None,
                },
            },
        ),
        _ => None,
    }
}

/// The optional signed field `name`.
pub open spec fn opt_time(v: Json, name: Seq<char>) -> Option<Option<int>> {
    opt_int_field(v, name, i64::MIN as int, i64::MAX as int)
}

fn read_time(v: &Value, name: &str) -> (r: Option<Option<i64>>)
    ensures
        r is Some == opt_time(v@, name@) is Some,
        r matches Some(n) ==> opt_time(v@, name@) == Some(opt_i64(n)),
{
    match read_opt_int_field(v, name, i64::MIN as i128, i64::MAX as i128) {
        Some(Some(n)) => Some(Some(n as i64)),
        Some(None) => Some(None),
        None => None,
    }
}

/// Whether the part of a job that is always there can be read from `v`.
pub open spec fn head_readable(v: Json) -> bool {
    &&& text_field(v, "id"@) is Some
    &&& text_field(v, "type"@) is Some
    &&& text_field(v, "queue"@) is Some
    &&& variant_field(v, "status"@) is Some
    &&& int_field(v, "priority"@, 0, u32::MAX as int) is Some
    &&& int_field(v, "ready_at"@, i64::MIN as int, i64::MAX as int) is Some
    &&& int_field(v, "attempts"@, 0, u32::MAX as int) is Some
}

/// Whether the times and limits of a job can be read from `v`.
pub open spec fn limits_readable(v: Json) -> bool {
    &&& opt_int_field(v, "retry_limit"@, 0, u32::MAX as int) is Some
    &&& opt_time(v, "dequeued_at"@) is Some
    &&& opt_time(v, "failed_at"@) is Some
    &&& opt_time(v, "completed_at"@) is Some
    &&& opt_time(v, "purge_at"@) is Some
    &&& get_present(v, "backoff"@) matches Some(f) ==> backoff_of(f) is Some
    &&& get_present(v, "retention"@) matches Some(f) ==> retention_of(f) is Some
}

/// Whether the rest of a job can be read from `v`.
pub open spec fn extras_readable(v: Json) -> bool {
    &&& opt_text_field(v, "unique_key"@) is Some
    &&& opt_variant_field(v, "unique_while"@) is Some
    &&& opt_bool_field(v, "duplicate"@) is Some
    &&& opt_bool_field(v, "folded"@) is Some
    &&& get_present(v, "batch"@) matches Some(f) ==> batch_of(f) is Some
    &&& get(v, "budgets"@) matches Some(f) ==> is_bindings(f)
}

/// The fields of a job that an array can give, in order.
pub open spec fn job_fields() -> Seq<Seq<char>> {
    seq![
        "id"@,
        "type"@,
        "queue"@,
        "status"@,
        "priority"@,
        "payload"@,
        "ready_at"@,
        "attempts"@,
        "retry_limit"@,
        "backoff"@,
        "dequeued_at"@,
        "failed_at"@,
        "completed_at"@,
        "retention"@,
        "purge_at"@,
        "unique_key"@,
        "unique_while"@,
        "duplicate"@,
    ]
}

/// Whether `v` has the shape of a job.
pub open spec fn is_job(v: Json) -> bool {
    let v = record(v, job_fields(), 8);
    head_readable(v) && limits_readable(v) && extras_readable(v)
}

/// Whether `w` is the job that `v` holds.
pub open spec fn read_as(v: Json, w: JobFromApi) -> bool {
    let v = record(v, job_fields(), 8);
    &&& text_field(v, "id"@) == Some(w.id@)
    &&& text_field(v, "type"@) == Some(w.job_type@)
    &&& text_field(v, "queue"@) == Some(w.queue@)
    &&& w.status == JobStatus::named(variant_field(v, "status"@)->0)
    &&& int_field(v, "priority"@, 0, u32::MAX as int) == Some(w.priority as int)
    &&& w.payload is Some == get_present(v, "payload"@) is Some
    &&& w.payload matches Some(p) ==> get_present(v, "payload"@) == Some(p@)
    &&& int_field(v, "ready_at"@, i64::MIN as int, i64::MAX as int) == Some(w.ready_at as int)
    &&& int_field(v, "attempts"@, 0, u32::MAX as int) == Some(w.attempts as int)
    &&& opt_int_field(v, "retry_limit"@, 0, u32::MAX as int) == Some(
        crate::wire::opt_u32(w.retry_limit),
    )
    &&& w.backoff is Some == get_present(v, "backoff"@) is Some
    &&& w.backoff matches Some(b) ==> backoff_of(get_present(v, "backoff"@)->0) == Some(
        (b.base_ms, b.exponent.model(), b.jitter_ms),
    )
    &&& opt_time(v, "dequeued_at"@) == Some(opt_i64(w.dequeued_at))
    &&& opt_time(v, "failed_at"@) == Some(opt_i64(w.failed_at))
    &&& opt_time(v, "completed_at"@) == Some(opt_i64(w.completed_at))
    &&& w.retention == match get_present(v, "retention"@) {
        Some(f) => retention_of(f),
        None => None,
    }
    &&& opt_time(v, "purge_at"@) == Some(opt_i64(w.purge_at))
    &&& opt_text_field(v, "unique_key"@) == Some(opt_text(w.unique_key))
    &&& w.unique_while == match opt_variant_field(v, "unique_while"@)->0 {
        Some(name) => Some(UniqueScope::named(name)),
        None => None,
    }
    &&& opt_bool_field(v, "duplicate"@) == Some(w.duplicate)
    &&& opt_bool_field(v, "folded"@) == Some(w.folded)
    &&& w.batch is Some == get_present(v, "batch"@) is Some
    &&& w.batch matches Some(b) ==> batch_of(get_present(v, "batch"@)->0) == Some(b@)
    &&& binding_views(w.budgets@) == match get(v, "budgets"@) {
        Some(f) => bindings_of(f),
        None => Seq::empty(),
    }
}

impl JobFromApi {
    /// Reads a job from the API. A status or scope that is not known is no
    /// failure.
    pub fn from_value(v: &Value) -> (r: Option<JobFromApi>)
        ensures
            r is Some == is_job(v@),
            r matches Some(w) ==> read_as(v@, w),
    {
        broadcast use group_value_models;

        match v {
            Value::Array(items) => {
                let names = vec![
                    "id",
                    "type",
                    "queue",
                    "status",
                    "priority",
                    "payload",
                    "ready_at",
                    "attempts",
                    "retry_limit",
                    "backoff",
                    "dequeued_at",
                    "failed_at",
                    "completed_at",
                    "retention",
                    "purge_at",
                    "unique_key",
                    "unique_while",
                    "duplicate",
                ];
                assert(slice_texts(names@) =~= job_fields());
                JobFromApi::from_record(&by_position(items, &names, 8))
            },
            _ => JobFromApi::from_record(v),
        }
    }

    #[verifier::rlimit(40)]
    fn from_record(v: &Value) -> (r: Option<JobFromApi>)
        requires
            !(v@ is Arr),
        ensures
            r is Some == is_job(v@),
            r matches Some(w) ==> read_as(v@, w),
    {
        let id = match read_text_field(v, "id") {
            Some(x) => x,
            None => {
                return None;
            },
        };
        let job_type = match read_text_field(v, "type") {
            Some(x) => x,
            None => {
                return None;
            },
        };
        let queue = match read_text_field(v, "queue") {
            Some(x) => x,
            None => {
                return None;
            },
        };
        let status_name = match read_variant_field(v, "status") {
            Some(x) => x,
            None => {
                return None;
            },
        };
        let priority = match read_int_field(v, "priority", 0, u32::MAX as i128) {
            Some(x) => x as u32,
            None => {
                return None;
            },
        };
        let ready_at = match read_int_field(v, "ready_at", i64::MIN as i128, i64::MAX as i128) {
            Some(x) => x as i64,
            None => {
                return None;
            },
        };
        let attempts = match read_int_field(v, "attempts", 0, u32::MAX as i128) {
            Some(x) => x as u32,
            None => {
                return None;
            },
        };
        let retry_limit = match read_opt_int_field(v, "retry_limit", 0, u32::MAX as i128) {
            Some(Some(n)) => Some(n as u32),
            Some(None) => None,
            None => {
                return None;
            },
        };
        let dequeued_at = match read_time(v, "dequeued_at") {
            Some(x) => x,
            None => {
                return None;
            },
        };
        let failed_at = match read_time(v, "failed_at") {
            Some(x) => x,
            None => {
                return None;
            },
        };
        let completed_at = match read_time(v, "completed_at") {
            Some(x) => x,
            None => {
                return None;
            },
        };
        let purge_at = match read_time(v, "purge_at") {
            Some(x) => x,
            None => {
                return None;
            },
        };
        let backoff = match read_present(v, "backoff") {
            Some(f) => match read_backoff(f) {
                Some(x) => Some(x),
                None => {
                    return None;
                },
            },
            None => None,
        };
        let retention = match read_present(v, "retention") {
            Some(f) => match read_retention(f) {
                Some(x) => Some(x),
                None => {
                    return None;
                },
            },
            None => None,
        };
        let batch = match read_present(v, "batch") {
            Some(f) => match BatchConfig::from_value(f) {
                Some(x) => Some(x),
                None => {
                    return None;
                },
            },
            None => None,
        };
        let unique_key = match read_opt_text_field(v, "unique_key") {
            Some(x) => x,
            None => {
                return None;
            },
        };
        let unique_while = match read_opt_variant_field(v, "unique_while") {
            Some(Some(name)) => Some(UniqueScope::from_name(name.as_str())),
            Some(None) => None,
            None => {
                return None;
            },
        };
        let duplicate = match read_opt_bool_field(v, "duplicate") {
            Some(x) => x,
            None => {
                return None;
            },
        };
        let folded = match read_opt_bool_field(v, "folded") {
            Some(x) => x,
            None => {
                return None;
            },
        };
        let budgets = match read_field(v, "budgets") {
            Some(f) => match read_bindings(f) {
                Some(x) => x,
                None => {
                    return None;
                },
            },
            None => {
                let none: Vec<BudgetBinding> = Vec::new();
                assert(binding_views(none@) =~= Seq::empty());
                none
            },
        };
        let payload = match read_present(v, "payload") {
            Some(f) => Some(f.copy()),
            None => None,
        };
        Some(
            JobFromApi {
                id,
                job_type,
                queue,
                status: JobStatus::from_name(status_name.as_str()),
                priority,
                payload,
                ready_at,
                attempts,
                retry_limit,
                backoff,
                dequeued_at,
                failed_at,
                completed_at,
                retention,
                purge_at,
                unique_key,
                unique_while,
                duplicate,
                folded,
                batch,
                budgets,
            },
        )
    }
}

impl Job {
    /// Whether this job is the one that `v` holds.
    pub open spec fn read_from(self, v: Json) -> bool {
        exists|w: JobFromApi| #[trigger] read_as(v, w) && self == <Job as
            vstd::std_specs::convert::FromSpec<JobFromApi>>::from_spec(w)
    }

    /// Reads a job from the API.
    pub fn from_value(v: &Value) -> (r: Option<Job>)
        ensures
            r is Some == is_job(v@),
            r matches Some(job) ==> job.read_from(v@),
    {
        match JobFromApi::from_value(v) {
            Some(w) => Some(Job::from(w)),
            None => None,
        }
    }
}

/// A retention that was written reads back as it was.
pub proof fn law_retention_round_trip(r: RetentionConfig)
    ensures
        retention_of(r.json()) == Some(r),
{
    reveal_strlit("completed_ms");
    reveal_strlit("dead_ms");
    assert("completed_ms"@.len() == 12 && "dead_ms"@.len() == 7);
    let none = Seq::<(Seq<char>, Json)>::empty();
    let completed = opt_int(opt_u64(r.completed_ms));
    let dead = opt_int(opt_u64(r.dead_ms));
    let one = opt_field("completed_ms"@, completed);
    assert(none + one =~= one);
    lemma_field(none, "completed_ms"@, completed, "dead_ms"@);
    lemma_field(one, "dead_ms"@, dead, "completed_ms"@);
}

/// A backoff with a finite exponent that was written reads back as it was.
pub proof fn law_backoff_round_trip(b: BackoffConfig)
    requires
        !(exponent_json(b.exponent) is Null),
    ensures
        backoff_of(b.json()) == Some((b.base_ms, b.exponent.model(), b.jitter_ms)),
{
    reveal_strlit("base_ms");
    reveal_strlit("exponent");
    reveal_strlit("jitter_ms");
    assert("base_ms"@.len() == 7 && "exponent"@.len() == 8 && "jitter_ms"@.len() == 9);
    let none = Seq::<(Seq<char>, Json)>::empty();
    let base = Json::Int(b.base_ms as int);
    let exponent = exponent_json(b.exponent);
    let jitter = Json::Int(b.jitter_ms as int);
    let one = field("base_ms"@, base);
    let two = one + field("exponent"@, exponent);
    assert(none + one =~= one);
    lemma_field(none, "base_ms"@, Some(base), "exponent"@);
    lemma_field(none, "base_ms"@, Some(base), "jitter_ms"@);
    lemma_field(one, "exponent"@, Some(exponent), "base_ms"@);
    lemma_field(one, "exponent"@, Some(exponent), "jitter_ms"@);
    lemma_field(two, "jitter_ms"@, Some(jitter), "base_ms"@);
    lemma_field(two, "jitter_ms"@, Some(jitter), "exponent"@);
}

} // verus!
