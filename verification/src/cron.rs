//! Cron groups: jobs that the server enqueues on a schedule.

use vstd::prelude::*;
use crate::decode::{
    by_position, get, get_present, opt_int_field, opt_text_field, opt_variant_field, read_field,
    read_opt_int_field, read_opt_text_field, read_opt_variant_field, read_present, read_text_field,
    record, text_field,
};
use crate::enqueue::{EnqueueBuilder, EnqueueRequest};
use crate::error::ZizqError;
use crate::jobs::{backoff_of, read_backoff, read_retention, retention_of};
use crate::json::{group_value_models, models, Json, Value};
use crate::request::{plain, plain_request, two_segments, Method, Request};
use crate::resources::{BackoffConfig, RetentionConfig};
use crate::text::{opt_text, slice_texts};
use crate::unique_key::UniqueScope;
use crate::wire::{field, opt_field, opt_str, opt_u32, opt_u64, Fields};

verus! {

/// An optional flag as JSON.
pub open spec fn opt_flag(b: Option<bool>) -> Option<Json> {
    match b {
        Some(b) => Some(Json::Bool(b)),
        None => None,
    }
}

fn flag_value(b: Option<bool>) -> (r: Option<Value>)
    ensures
        opt_flag(b) == match r {
            Some(v) => Some(v@),
            None => None,
        },
{
    match b {
        Some(b) => Some(Value::Bool(b)),
        None => None,
    }
}

/// A cron entry with its job resolved.
#[derive(Debug)]
pub struct CronEntryBody {
    pub name: String,
    pub expression: String,
    pub timezone: Option<String>,
    pub paused: Option<bool>,
    pub job: EnqueueRequest,
}

impl CronEntryBody {
    /// This entry in the API: what is not set is left out.
    pub open spec fn json(&self) -> Json {
        Json::Obj(
            field("name"@, Json::Str(self.name@)) + field(
                "expression"@,
                Json::Str(self.expression@),
            ) + opt_field("timezone"@, opt_str(opt_text(self.timezone))) + opt_field(
                "paused"@,
                opt_flag(self.paused),
            ) + field("job"@, self.job.json()),
        )
    }

    /// This entry in the API.
    pub fn to_value(&self) -> (r: Value)
        ensures
            r@ == self.json(),
    {
        let mut out = Fields::new();
        out.text("name", self.name.as_str());
        out.text("expression", self.expression.as_str());
        out.opt_text("timezone", &self.timezone);
        out.opt_value("paused", flag_value(self.paused));
        out.value("job", self.job.to_value());
        assert(out@ =~= self.json()->Obj_0);
        out.object()
    }
}

/// An entry of a cron group: a schedule and the job to enqueue.
#[derive(Debug)]
pub struct CronEntry {
    pub name: String,
    pub expression: String,
    pub timezone: Option<String>,
    pub paused: Option<bool>,
    pub job: Result<EnqueueRequest, ZizqError>,
}

impl CronEntry {
    /// An entry in the server's time zone.
    pub fn new(name: &str, expression: &str, job: EnqueueBuilder) -> (r: CronEntry)
        ensures
            r.name@ == name@,
            r.expression@ == expression@,
            r.timezone is None,
            r.paused is None,
            r.job == Ok::<EnqueueRequest, ZizqError>(job.resolved()),
    {
        CronEntry {
            name: name.to_owned(),
            expression: expression.to_owned(),
            timezone: None,
            paused: None,
            job: job.into_request(),
        }
    }

    /// Sets the time zone of the schedule.
    pub fn timezone(self, timezone: &str) -> (r: CronEntry)
        ensures
            opt_text(r.timezone) == Some(timezone@),
            r == (CronEntry { timezone: r.timezone, ..self }),
    {
        CronEntry { timezone: Some(timezone.to_owned()), ..self }
    }

    /// Sets whether the entry is paused.
    pub fn paused(self, paused: bool) -> (r: CronEntry)
        ensures
            r == (CronEntry { paused: Some(paused), ..self }),
    {
        CronEntry { paused: Some(paused), ..self }
    }

    /// The body that this entry resolves to, given its job.
    pub open spec fn body(self, job: EnqueueRequest) -> CronEntryBody {
        CronEntryBody {
            name: self.name,
            expression: self.expression,
            timezone: self.timezone,
            paused: self.paused,
            job,
        }
    }

    /// Resolves this entry; an entry whose job could not be resolved fails
    /// with that error.
    pub fn into_body(self) -> (r: Result<CronEntryBody, ZizqError>)
        ensures
            match self.job {
                Ok(job) => r == Ok::<CronEntryBody, ZizqError>(self.body(job)),
                Err(e) => r == Err::<CronEntryBody, ZizqError>(e),
            },
    {
        match self.job {
            Ok(job) => Ok(
                CronEntryBody {
                    name: self.name,
                    expression: self.expression,
                    timezone: self.timezone,
                    paused: self.paused,
                    job,
                },
            ),
            Err(e) => Err(e),
        }
    }
}

/// The JSON array of some entries.
pub open spec fn entries_json(list: Seq<CronEntryBody>) -> Json {
    Json::Arr(Seq::new(list.len(), |i: int| list[i].json()))
}

/// The body that replaces a cron group.
pub open spec fn group_json(paused: Option<bool>, list: Seq<CronEntryBody>) -> Json {
    Json::Obj(opt_field("paused"@, opt_flag(paused)) + field("entries"@, entries_json(list)))
}

fn entries_value(list: &Vec<CronEntryBody>) -> (r: Value)
    ensures
        r@ == entries_json(list@),
{
    broadcast use group_value_models;

    let mut items: Vec<Value> = Vec::new();
    let mut i: usize = 0;
    while i < list.len()
        invariant
            i <= list@.len(),
            items@.len() == i,
            forall|j: int| 0 <= j < i ==> (#[trigger] items@[j])@ == list@[j].json(),
        decreases list@.len() - i,
    {
        items.push(list[i].to_value());
        i += 1;
    }
    assert(models(items@) =~= entries_json(list@)->Arr_0);
    Value::Array(items)
}

/// Builder that replaces a cron group. The first entry that cannot be
/// resolved makes the whole replacement fail.
#[derive(Debug)]
pub struct ReplaceCronBuilder {
    pub name: String,
    pub paused: Option<bool>,
    pub entries: Result<Vec<CronEntryBody>, ZizqError>,
}

impl ReplaceCronBuilder {
    /// The entries that were collected.
    pub open spec fn collected(&self) -> Seq<CronEntryBody> {
        match self.entries {
            Ok(list) => list@,
            Err(_) => Seq::empty(),
        }
    }

    /// A group without entries.
    pub fn new(name: &str) -> (r: ReplaceCronBuilder)
        ensures
            r.name@ == name@,
            r.paused is None,
            r.entries is Ok,
            r.collected() == Seq::<CronEntryBody>::empty(),
    {
        ReplaceCronBuilder { name: name.to_owned(), paused: None, entries: Ok(Vec::new()) }
    }

    /// Adds an entry.
    pub fn entry(self, entry: CronEntry) -> (r: ReplaceCronBuilder)
        ensures
            r.name == self.name,
            r.paused == self.paused,
            match (self.entries, entry.job) {
                (Ok(list), Ok(job)) => r.entries is Ok && r.collected() == list@.push(
                    entry.body(job),
                ),
                (Ok(_), Err(e)) => r.entries == Err::<Vec<CronEntryBody>, ZizqError>(e),
                (Err(_), _) => r.entries == self.entries,
            },
    {
        let entries = match self.entries {
            Ok(list) => {
                let mut list = list;
                match entry.into_body() {
                    Ok(body) => {
                        list.push(body);
                        Ok(list)
                    },
                    Err(e) => Err(e),
                }
            },
            Err(e) => Err(e),
        };
        ReplaceCronBuilder { name: self.name, paused: self.paused, entries }
    }

    /// Sets whether the group is paused.
    pub fn paused(self, paused: bool) -> (r: ReplaceCronBuilder)
        ensures
            r == (ReplaceCronBuilder { paused: Some(paused), ..self }),
    {
        ReplaceCronBuilder { paused: Some(paused), ..self }
    }

    /// The request that replaces the group, or the error that the
    /// replacement failed with.
    pub fn request(self) -> (r: Result<Request, ZizqError>)
        ensures
            match self.entries {
                Ok(list) => r matches Ok(request) && request@ == plain_request(
                    Method::Put,
                    seq!["crons"@, self.name@],
                    Some(group_json(self.paused, list@)),
                ),
                Err(e) => r == Err::<Request, ZizqError>(e),
            },
    {
        match self.entries {
            Ok(list) => {
                let mut body = Fields::new();
                body.opt_value("paused", flag_value(self.paused));
                body.value("entries", entries_value(&list));
                assert(body@ =~= group_json(self.paused, list@)->Obj_0);
                Ok(
                    plain(
                        Method::Put,
                        two_segments("crons", self.name.as_str()),
                        Some(body.object()),
                    ),
                )
            },
            Err(e) => Err(e),
        }
    }
}

/// The job of a cron entry, as the server reports it.
#[derive(Debug, PartialEq)]
pub struct JobTemplate {
    pub job_type: String,
    pub queue: String,
    pub payload: Option<Value>,
    pub priority: Option<u16>,
    pub retry_limit: Option<u32>,
    pub backoff: Option<BackoffConfig>,
    pub retention: Option<RetentionConfig>,
    pub unique_key: Option<String>,
    pub unique_while: Option<UniqueScope>,
}

/// The fields of a job template, in order.
pub open spec fn template_fields() -> Seq<Seq<char>> {
    seq![
        "type"@,
        "queue"@,
        "payload"@,
        "priority"@,
        "retry_limit"@,
        "backoff"@,
        "retention"@,
        "unique_key"@,
        "unique_while"@,
    ]
}

/// Whether `v` has the shape of a job template.
pub open spec fn is_template(v: Json) -> bool {
    let v = record(v, template_fields(), 2);
    &&& text_field(v, "type"@) is Some
    &&& text_field(v, "queue"@) is Some
    &&& opt_int_field(v, "priority"@, 0, u16::MAX as int) is Some
    &&& opt_int_field(v, "retry_limit"@, 0, u32::MAX as int) is Some
    &&& get_present(v, "backoff"@) matches Some(f) ==> backoff_of(f) is Some
    &&& get_present(v, "retention"@) matches Some(f) ==> retention_of(f) is Some
    &&& opt_text_field(v, "unique_key"@) is Some
    &&& opt_variant_field(v, "unique_while"@) is Some
}

impl JobTemplate {
    /// Whether this is the template that `v` holds.
    pub open spec fn read_from(&self, v: Json) -> bool {
        let v = record(v, template_fields(), 2);
        &&& text_field(v, "type"@) == Some(self.job_type@)
        &&& text_field(v, "queue"@) == Some(self.queue@)
        &&& self.payload is Some == get_present(v, "payload"@) is Some
        &&& self.payload matches Some(p) ==> get_present(v, "payload"@) == Some(p@)
        &&& opt_int_field(v, "priority"@, 0, u16::MAX as int) == Some(
            crate::wire::opt_u16(self.priority),
        )
        &&& opt_int_field(v, "retry_limit"@, 0, u32::MAX as int) == Some(
            opt_u32(self.retry_limit),
        )
        &&& self.backoff is Some == get_present(v, "backoff"@) is Some
        &&& self.backoff matches Some(b) ==> backoff_of(get_present(v, "backoff"@)->0) == Some(
            (b.base_ms, b.exponent.model(), b.jitter_ms),
        )
        &&& self.retention == match get_present(v, "retention"@) {
            Some(f) => retention_of(f),
            None => None,
        }
        &&& opt_text_field(v, "unique_key"@) == Some(opt_text(self.unique_key))
        &&& self.unique_while == match opt_variant_field(v, "unique_while"@)->0 {
            Some(name) => Some(UniqueScope::named(name)),
            None => None,
        }
    }

    /// Reads a template from the API.
    pub fn from_value(v: &Value) -> (r: Option<JobTemplate>)
        ensures
            r is Some == is_template(v@),
            r matches Some(t) ==> t.read_from(v@),
    {
        broadcast use group_value_models;

        match v {
            Value::Array(items) => {
                let names = vec![
                    "type",
                    "queue",
                    "payload",
                    "priority",
                    "retry_limit",
                    "backoff",
                    "retention",
                    "unique_key",
                    "unique_while",
                ];
                assert(slice_texts(names@) =~= template_fields());
                JobTemplate::from_record(&by_position(items, &names, 2))
            },
            _ => JobTemplate::from_record(v),
        }
    }

    fn from_record(v: &Value) -> (r: Option<JobTemplate>)
        requires
            !(v@ is Arr),
        ensures
            r is Some == is_template(v@),
            r matches Some(t) ==> t.read_from(v@),
    {
        let job_type = match read_text_field(v, "type") {
            Some(x) => x,
            None => {
                return None;
            },
        };
        let queue = match read_text_field(v, "queue") {
            Some(x) => x,
            None => {
                return None;
            },
        };
        let priority = match read_opt_int_field(v, "priority", 0, u16::MAX as i128) {
            Some(Some(n)) => Some(n as u16),
            Some(None) => None,
            None => {
                return None;
            },
        };
        let retry_limit = match read_opt_int_field(v, "retry_limit", 0, u32::MAX as i128) {
            Some(Some(n)) => Some(n as u32),
            Some(None) => None,
            None => {
                return None;
            },
        };
        let backoff = match read_present(v, "backoff") {
            Some(f) => match read_backoff(f) {
                Some(x) => Some(x),
                None => {
                    return None;
                },
            },
            None => None,
        };
        let retention = match read_present(v, "retention") {
            Some(f) => match read_retention(f) {
                Some(x) => Some(x),
                None => {
                    return None;
                },
            },
            None => None,
        };
        let unique_key = match read_opt_text_field(v, "unique_key") {
            Some(x) => x,
            None => {
                return None;
            },
        };
        let unique_while = match read_opt_variant_field(v, "unique_while") {
            Some(Some(name)) => Some(UniqueScope::from_name(name.as_str())),
            Some(None) => None,
            None => {
                return None;
            },
        };
        let payload = match read_present(v, "payload") {
            Some(f) => Some(f.copy()),
            None => None,
        };
        Some(
            JobTemplate {
                job_type,
                queue,
                payload,
                priority,
                retry_limit,
                backoff,
                retention,
                unique_key,
                unique_while,
            },
        )
    }
}

/// A cron entry, as the server reports it. Times are Unix milliseconds.
#[derive(Debug, PartialEq)]
pub struct CronEntryRecord {
    pub name: String,
    pub expression: String,
    pub timezone: Option<String>,
    pub paused: bool,
    pub paused_at: Option<u64>,
    pub resumed_at: Option<u64>,
    pub job: JobTemplate,
    pub next_enqueue_at: Option<u64>,
    pub last_enqueue_at: Option<u64>,
}

/// A cron group, as the server reports it. Times are Unix milliseconds.
#[derive(Debug, PartialEq)]
pub struct CronGroup {
    pub name: String,
    pub paused: bool,
    pub paused_at: Option<u64>,
    pub resumed_at: Option<u64>,
    pub entries: Vec<CronEntryRecord>,
}

/// The optional time field `name`.
pub open spec fn opt_stamp(v: Json, name: Seq<char>) -> Option<Option<int>> {
    opt_int_field(v, name, 0, u64::MAX as int)
}

fn read_stamp(v: &Value, name: &str) -> (r: Option<Option<u64>>)
    ensures
        r is Some == opt_stamp(v@, name@) is Some,
        r matches Some(n) ==> opt_stamp(v@, name@) == Some(opt_u64(n)),
{
    match read_opt_int_field(v, name, 0, u64::MAX as i128) {
        Some(Some(n)) => Some(Some(n as u64)),
        Some(None) => Some(None),
        None => None,
    }
}

/// The fields of a cron entry, in order.
pub open spec fn entry_fields() -> Seq<Seq<char>> {
    seq![
        "name"@,
        "expression"@,
        "timezone"@,
        "paused"@,
        "paused_at"@,
        "resumed_at"@,
        "job"@,
        "next_enqueue_at"@,
        "last_enqueue_at"@,
    ]
}

/// Whether `v` has the shape of a cron entry.
pub open spec fn is_entry(v: Json) -> bool {
    let v = record(v, entry_fields(), 7);
    &&& text_field(v, "name"@) is Some
    &&& text_field(v, "expression"@) is Some
    &&& opt_text_field(v, "timezone"@) is Some
    &&& get(v, "paused"@) matches Some(Json::Bool(_))
    &&& opt_stamp(v, "paused_at"@) is Some
    &&& opt_stamp(v, "resumed_at"@) is Some
    &&& get(v, "job"@) matches Some(f) && is_template(f)
    &&& opt_stamp(v, "next_enqueue_at"@) is Some
    &&& opt_stamp(v, "last_enqueue_at"@) is Some
}

impl CronEntryRecord {
    /// Whether this is the entry that `v` holds.
    pub open spec fn read_from(&self, v: Json) -> bool {
        let v = record(v, entry_fields(), 7);
        &&& text_field(v, "name"@) == Some(self.name@)
        &&& text_field(v, "expression"@) == Some(self.expression@)
        &&& opt_text_field(v, "timezone"@) == Some(opt_text(self.timezone))
        &&& get(v, "paused"@) == Some(Json::Bool(self.paused))
        &&& opt_stamp(v, "paused_at"@) == Some(opt_u64(self.paused_at))
        &&& opt_stamp(v, "resumed_at"@) == Some(opt_u64(self.resumed_at))
        &&& self.job.read_from(get(v, "job"@)->0)
        &&& opt_stamp(v, "next_enqueue_at"@) == Some(opt_u64(self.next_enqueue_at))
        &&& opt_stamp(v, "last_enqueue_at"@) == Some(opt_u64(self.last_enqueue_at))
    }

    /// Reads an entry from the API.
    pub fn from_value(v: &Value) -> (r: Option<CronEntryRecord>)
        ensures
            r is Some == is_entry(v@),
            r matches Some(e) ==> e.read_from(v@),
    {
        broadcast use group_value_models;

        match v {
            Value::Array(items) => {
                let names = vec![
                    "name",
                    "expression",
                    "timezone",
                    "paused",
                    "paused_at",
                    "resumed_at",
                    "job",
                    "next_enqueue_at",
                    "last_enqueue_at",
                ];
                assert(slice_texts(names@) =~= entry_fields());
                CronEntryRecord::from_record(&by_position(items, &names, 7))
            },
            _ => CronEntryRecord::from_record(v),
        }
    }

    fn from_record(v: &Value) -> (r: Option<CronEntryRecord>)
        requires
            !(v@ is Arr),
        ensures
            r is Some == is_entry(v@),
            r matches Some(e) ==> e.read_from(v@),
    {
        let job = match read_field(v, "job") {
            Some(f) => match JobTemplate::from_value(f) {
                Some(job) => job,
                None => {
                    return None;
                },
            },
            None => {
                return None;
            },
        };
        let paused = match read_field(v, "paused") {
            Some(Value::Bool(b)) => *b,
            _ => {
                return None;
            },
        };
        match (
            read_text_field(v, "name"),
            read_text_field(v, "expression"),
            read_opt_text_field(v, "timezone"),
            read_stamp(v, "paused_at"),
            read_stamp(v, "resumed_at"),
            read_stamp(v, "next_enqueue_at"),
            read_stamp(v, "last_enqueue_at"),
        ) {
            (
                Some(name),
                Some(expression),
                Some(timezone),
                Some(paused_at),
                Some(resumed_at),
                Some(next_enqueue_at),
                Some(last_enqueue_at),
            ) => Some(
                CronEntryRecord {
                    name,
                    expression,
                    timezone,
                    paused,
                    paused_at,
                    resumed_at,
                    job,
                    next_enqueue_at,
                    last_enqueue_at,
                },
            ),
            _ => None,
        }
    }
}

/// Whether `v` is an array of cron entries.
pub open spec fn is_entries(v: Json) -> bool {
    v matches Json::Arr(items) && forall|i: int|
        0 <= i < items.len() ==> is_entry(#[trigger] items[i])
}

/// Whether `list` are the entries of the array `v`.
pub open spec fn entries_read(list: Seq<CronEntryRecord>, v: Json) -> bool {
    v matches Json::Arr(items) && list.len() == items.len() && forall|i: int|
        0 <= i < items.len() ==> list[i].read_from(#[trigger] items[i])
}

fn read_entries(v: &Value) -> (r: Option<Vec<CronEntryRecord>>)
    ensures
        r is Some == is_entries(v@),
        r matches Some(list) ==> entries_read(list@, v@),
{
    broadcast use group_value_models;

    match v {
        Value::Array(items) => {
            let ghost all = models(items@);
            let mut out: Vec<CronEntryRecord> = Vec::new();
            let mut i: usize = 0;
            while i < items.len()
                invariant
                    all == models(items@),
                    v@ == Json::Arr(all),
                    i <= items@.len(),
                    out@.len() == i,
                    forall|j: int|
                        0 <= j < i ==> is_entry(#[trigger] all[j]) && out@[j].read_from(all[j]),
                decreases items@.len() - i,
            {
                assert(all[i as int] == items@[i as int]@);
                match CronEntryRecord::from_value(&items[i]) {
                    Some(e) => out.push(e),
                    None => {
                        assert(!is_entry(v@->Arr_0[i as int]));
                        return None;
                    },
                }
                i += 1;
            }
            Some(out)
        },
        _ => None,
    }
}

/// The fields of a cron group, in order.
pub open spec fn group_fields() -> Seq<Seq<char>> {
    seq!["name"@, "paused"@, "paused_at"@, "resumed_at"@, "entries"@]
}

/// Whether `v` has the shape of a cron group.
pub open spec fn is_group(v: Json) -> bool {
    let v = record(v, group_fields(), 5);
    &&& text_field(v, "name"@) is Some
    &&& get(v, "paused"@) matches Some(Json::Bool(_))
    &&& opt_stamp(v, "paused_at"@) is Some
    &&& opt_stamp(v, "resumed_at"@) is Some
    &&& get(v, "entries"@) matches Some(f) && is_entries(f)
}

impl CronGroup {
    /// Whether this is the group that `v` holds.
    pub open spec fn read_from(&self, v: Json) -> bool {
        let v = record(v, group_fields(), 5);
        &&& text_field(v, "name"@) == Some(self.name@)
        &&& get(v, "paused"@) == Some(Json::Bool(self.paused))
        &&& opt_stamp(v, "paused_at"@) == Some(opt_u64(self.paused_at))
        &&& opt_stamp(v, "resumed_at"@) == Some(opt_u64(self.resumed_at))
        &&& entries_read(self.entries@, get(v, "entries"@)->0)
    }

    /// Reads a group from the API.
    pub fn from_value(v: &Value) -> (r: Option<CronGroup>)
        ensures
            r is Some == is_group(v@),
            r matches Some(g) ==> g.read_from(v@),
    {
        broadcast use group_value_models;

        match v {
            Value::Array(items) => {
                let names = vec!["name", "paused", "paused_at", "resumed_at", "entries"];
                assert(slice_texts(names@) =~= group_fields());
                CronGroup::from_record(&by_position(items, &names, 5))
            },
            _ => CronGroup::from_record(v),
        }
    }

    fn from_record(v: &Value) -> (r: Option<CronGroup>)
        requires
            !(v@ is Arr),
        ensures
            r is Some == is_group(v@),
            r matches Some(g) ==> g.read_from(v@),
    {
        let paused = match read_field(v, "paused") {
            Some(Value::Bool(b)) => *b,
            _ => {
                return None;
            },
        };
        let entries = match read_field(v, "entries") {
            Some(f) => read_entries(f),
            None => None,
        };
        match (
            read_text_field(v, "name"),
            read_stamp(v, "paused_at"),
            read_stamp(v, "resumed_at"),
            entries,
        ) {
            (Some(name), Some(paused_at), Some(resumed_at), Some(entries)) => Some(
                CronGroup { name, paused, paused_at, resumed_at, entries },
            ),
            _ => None,
        }
    }
}

} // verus!
