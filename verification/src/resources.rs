//! Server-side resource types returned in API responses.

use vstd::prelude::*;
use crate::json::{Json, Number, Value};
use crate::number_text::{is_float, is_float_token};
use crate::text::same_text;
use crate::wire::{field, opt_field, opt_int, opt_u64, Fields};

verus! {

/// Lifecycle status of a job.
#[derive(Debug, Clone, Copy, PartialEq, Eq, Structural)]
pub enum JobStatus {
    /// Ready to be dequeued.
    Ready,
    /// Being processed by a worker.
    InFlight,
    /// Waiting for its ready time.
    Scheduled,
    /// Finished successfully.
    Completed,
    /// Failed for good.
    Dead,
    /// A status that this version of the client does not recognise.
    Unknown,
}

impl JobStatus {
    /// The name of this status in the API.
    pub open spec fn name(&self) -> Seq<char> {
        match *self {
            JobStatus::Ready => "ready"@,
            JobStatus::InFlight => "in_flight"@,
            JobStatus::Scheduled => "scheduled"@,
            JobStatus::Completed => "completed"@,
            JobStatus::Dead => "dead"@,
            JobStatus::Unknown => "unknown"@,
        }
    }

    /// The status that a name in the API stands for.
    pub open spec fn named(name: Seq<char>) -> JobStatus {
        if name == "ready"@ {
            JobStatus::Ready
        } else if name == "in_flight"@ {
            JobStatus::InFlight
        } else if name == "scheduled"@ {
            JobStatus::Scheduled
        } else if name == "completed"@ {
            JobStatus::Completed
        } else if name == "dead"@ {
            JobStatus::Dead
        } else {
            JobStatus::Unknown
        }
    }

    /// The name of this status in the API.
    pub fn as_str(self) -> (r: &'static str)
        ensures
            r@ == self.name(),
    {
        match self {
            JobStatus::Ready => "ready",
            JobStatus::InFlight => "in_flight",
            JobStatus::Scheduled => "scheduled",
            JobStatus::Completed => "completed",
            JobStatus::Dead => "dead",
            JobStatus::Unknown => "unknown",
        }
    }

    /// Reads a status from its name in the API. A name that is not known
    /// is no failure: it becomes [`JobStatus::Unknown`].
    pub fn from_name(name: &str) -> (r: JobStatus)
        ensures
            r == JobStatus::named(name@),
    {
        if same_text(name, "ready") {
            JobStatus::Ready
        } else if same_text(name, "in_flight") {
            JobStatus::InFlight
        } else if same_text(name, "scheduled") {
            JobStatus::Scheduled
        } else if same_text(name, "completed") {
            JobStatus::Completed
        } else if same_text(name, "dead") {
            JobStatus::Dead
        } else {
            JobStatus::Unknown
        }
    }
}

/// A status is read back from its own name.
pub proof fn law_status_name_round_trip(status: JobStatus)
    ensures
        JobStatus::named(status.name()) == status,
{
    reveal_strlit("ready");
    reveal_strlit("in_flight");
    reveal_strlit("scheduled");
    reveal_strlit("completed");
    reveal_strlit("dead");
    reveal_strlit("unknown");
    assert("ready"@[0] == 'r' && "in_flight"@[0] == 'i' && "scheduled"@[0] == 's');
    assert("completed"@[0] == 'c' && "dead"@[0] == 'd' && "unknown"@[0] == 'u');
}

/// Links from one page of results to its neighbours.
#[derive(Debug, Clone, PartialEq, Eq)]
pub struct PageLinks {
    /// Path of the next page.
    pub next: Option<String>,
    /// Path of the previous page.
    pub prev: Option<String>,
}

/// Retry backoff of a job.
#[derive(Debug, Clone, PartialEq, Eq)]
pub struct BackoffConfig {
    /// First wait, in milliseconds.
    pub base_ms: u64,
    /// Growth of the wait from one attempt to the next. One that is not
    /// finite, such as `NaN`, is no JSON number and sent as null.
    pub exponent: Number,
    /// Largest random addition, in milliseconds.
    pub jitter_ms: u64,
}

/// An exponent in the API: null where it is no finite number.
pub open spec fn exponent_json(n: Number) -> Json {
    match n {
        Number::Float(t) => if is_float_token(t@) {
            Json::Float(t@)
        } else {
            Json::Null
        },
        _ => n.model(),
    }
}

/// An exponent in the API.
fn exponent_value(n: &Number) -> (r: Value)
    ensures
        r@ == exponent_json(*n),
{
    match n {
        Number::Float(t) => if is_float(t.as_str()) {
            Value::Number(n.copy())
        } else {
            Value::Null
        },
        _ => Value::Number(n.copy()),
    }
}

impl BackoffConfig {
    /// This configuration in the API.
    pub open spec fn json(&self) -> Json {
        Json::Obj(
            field("base_ms"@, Json::Int(self.base_ms as int)) + field(
                "exponent"@,
                exponent_json(self.exponent),
            ) + field("jitter_ms"@, Json::Int(self.jitter_ms as int)),
        )
    }

    /// This configuration in the API.
    pub fn to_value(&self) -> (r: Value)
        ensures
            r@ == self.json(),
    {
        let mut out = Fields::new();
        out.number("base_ms", self.base_ms);
        out.value("exponent", exponent_value(&self.exponent));
        out.number("jitter_ms", self.jitter_ms);
        assert(out@ =~= self.json()->Obj_0);
        out.object()
    }

    /// A copy of this configuration.
    pub fn copy(&self) -> (r: BackoffConfig)
        ensures
            r == *self,
    {
        BackoffConfig {
            base_ms: self.base_ms,
            exponent: self.exponent.copy(),
            jitter_ms: self.jitter_ms,
        }
    }
}

/// How long finished jobs are kept.
#[derive(Debug, Clone, Copy, PartialEq, Eq, Structural)]
pub struct RetentionConfig {
    /// For completed jobs, in milliseconds.
    pub completed_ms: Option<u64>,
    /// For dead jobs, in milliseconds.
    pub dead_ms: Option<u64>,
}

impl RetentionConfig {
    /// This configuration in the API: what is not set is left out.
    pub open spec fn json(&self) -> Json {
        Json::Obj(
            opt_field("completed_ms"@, opt_int(opt_u64(self.completed_ms))) + opt_field(
                "dead_ms"@,
                opt_int(opt_u64(self.dead_ms)),
            ),
        )
    }

    /// This configuration in the API.
    pub fn to_value(&self) -> (r: Value)
        ensures
            r@ == self.json(),
    {
        let mut out = Fields::new();
        out.opt_number("completed_ms", self.completed_ms);
        out.opt_number("dead_ms", self.dead_ms);
        assert(out@ =~= self.json()->Obj_0);
        out.object()
    }
}

impl Default for RetentionConfig {
    fn default() -> (r: RetentionConfig)
        ensures
            r.completed_ms is None,
            r.dead_ms is None,
    {
        RetentionConfig { completed_ms: None, dead_ms: None }
    }
}

} // verus!
