//! Reporting that a job failed.

use vstd::prelude::*;
use crate::duration::Duration;
use crate::json::{Json, Value};
use crate::request::{plain, plain_request, three_segments, Method, Request};
use crate::text::opt_text;
use crate::timestamp::{after, can_reach, now, reachable, to_ms_epoch, Timestamp};
use crate::wire::{field, int_value, opt_field, opt_i64, opt_int, opt_str, Fields};

verus! {

/// Builder for a failure report.
#[derive(Debug)]
pub struct FailureBuilder {
    pub job_id: String,
    pub message: String,
    pub error_type: Option<String>,
    pub backtrace: Option<String>,
    pub retry_at_ms: Option<i64>,
    /// Whether the job is not to be retried at all.
    pub kill: bool,
}

/// The flag field `name`, there only where it is raised.
pub open spec fn flag_field(name: Seq<char>, flag: bool) -> Seq<(Seq<char>, Json)> {
    if flag {
        field(name, Json::Bool(true))
    } else {
        Seq::empty()
    }
}

impl FailureBuilder {
    /// The body of this report: what is not set is left out.
    pub open spec fn json(&self) -> Json {
        Json::Obj(
            field("message"@, Json::Str(self.message@)) + opt_field(
                "error_type"@,
                opt_str(opt_text(self.error_type)),
            ) + opt_field("backtrace"@, opt_str(opt_text(self.backtrace))) + opt_field(
                "retry_at"@,
                opt_int(opt_i64(self.retry_at_ms)),
            ) + flag_field("kill"@, self.kill),
        )
    }

    /// A report with a message only.
    pub fn new(job_id: &str, message: &str) -> (r: FailureBuilder)
        ensures
            r.job_id@ == job_id@,
            r.message@ == message@,
            r.error_type is None,
            r.backtrace is None,
            r.retry_at_ms is None,
            !r.kill,
    {
        FailureBuilder {
            job_id: job_id.to_owned(),
            message: message.to_owned(),
            error_type: None,
            backtrace: None,
            retry_at_ms: None,
            kill: false,
        }
    }

    /// Sets the type of the error.
    pub fn error_type(self, t: &str) -> (r: FailureBuilder)
        ensures
            opt_text(r.error_type) == Some(t@),
            r == (FailureBuilder { error_type: r.error_type, ..self }),
    {
        FailureBuilder { error_type: Some(t.to_owned()), ..self }
    }

    /// Sets the backtrace.
    pub fn backtrace(self, b: &str) -> (r: FailureBuilder)
        ensures
            opt_text(r.backtrace) == Some(b@),
            r == (FailureBuilder { backtrace: r.backtrace, ..self }),
    {
        FailureBuilder { backtrace: Some(b.to_owned()), ..self }
    }

    /// Sets when the job is retried.
    pub fn retry_at(self, time: Timestamp) -> (r: FailureBuilder)
        requires
            time.wf(),
        ensures
            opt_i64(r.retry_at_ms) == Some(time.millis()),
            r == (FailureBuilder { retry_at_ms: r.retry_at_ms, ..self }),
    {
        FailureBuilder { retry_at_ms: Some(to_ms_epoch(time)), ..self }
    }

    /// Retries the job `delay` after `now`.
    pub fn retry_in_from(self, now: Timestamp, delay: Duration) -> (r: FailureBuilder)
        requires
            now.in_utc(),
            reachable(now, delay),
        ensures
            opt_i64(r.retry_at_ms) == Some(
                Timestamp { nanos: (now.nanos + delay.nanos) as i128 }.millis(),
            ),
            r == (FailureBuilder { retry_at_ms: r.retry_at_ms, ..self }),
    {
        self.retry_at(after(now, delay))
    }

    /// Retries the job `delay` after `now`, where a point in time that late
    /// can be named.
    pub fn retry_in_at(self, now: Timestamp, delay: Duration) -> (r: Option<FailureBuilder>)
        requires
            now.in_utc(),
        ensures
            r is Some == reachable(now, delay),
            r matches Some(b) ==> opt_i64(b.retry_at_ms) == Some(
                Timestamp { nanos: (now.nanos + delay.nanos) as i128 }.millis(),
            ) && b == (FailureBuilder { retry_at_ms: b.retry_at_ms, ..self }),
    {
        if can_reach(now, delay) {
            Some(self.retry_in_from(now, delay))
        } else {
            None
        }
    }

    /// Retries the job `delay` from now, where a point in time that late
    /// can be named. Which time the clock shows is left open.
    pub fn retry_in(self, delay: Duration) -> (r: Option<FailureBuilder>)
        ensures
            exists|now: Timestamp| #[trigger]
                now.in_utc() && r is Some == reachable(now, delay) && (r matches Some(b)
                    ==> opt_i64(b.retry_at_ms) == Some(
                    Timestamp { nanos: (now.nanos + delay.nanos) as i128 }.millis(),
                ) && b == (FailureBuilder { retry_at_ms: b.retry_at_ms, ..self })),
    {
        self.retry_in_at(now(), delay)
    }

    /// Marks the job as one that is not to be retried at all.
    pub fn kill(self) -> (r: FailureBuilder)
        ensures
            r == (FailureBuilder { kill: true, ..self }),
    {
        FailureBuilder { kill: true, ..self }
    }

    /// The request that reports the failure.
    pub fn request(&self) -> (r: Request)
        ensures
            r@ == plain_request(
                Method::Post,
                seq!["jobs"@, self.job_id@, "failure"@],
                Some(self.json()),
            ),
    {
        let mut body = Fields::new();
        body.text("message", self.message.as_str());
        body.opt_text("error_type", &self.error_type);
        body.opt_text("backtrace", &self.backtrace);
        body.opt_value(
            "retry_at",
            match self.retry_at_ms {
                Some(n) => Some(int_value(n)),
                None => None,
            },
        );
        if self.kill {
            body.value("kill", Value::Bool(true));
        }
        assert(body@ =~= self.json()->Obj_0);
        plain(
            Method::Post,
            three_segments("jobs", self.job_id.as_str(), "failure"),
            Some(body.object()),
        )
    }
}

} // verus!
