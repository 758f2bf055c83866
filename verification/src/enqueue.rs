//! Job enqueueing: the defaults of the job type, overridden by what the
//! call site sets, become one request.

use vstd::prelude::*;
use crate::batch::BatchConfig;
use crate::budget::{bindings_json, bindings_value, BudgetBindingInput};
use crate::duration::Duration;
use crate::error::ZizqError;
use crate::job::{JobKind, Payload};
use crate::json::{Json, Value};
use crate::request::{one_segment, plain, plain_request, Method, Request};
use crate::resources::{BackoffConfig, RetentionConfig};
use crate::text::opt_text;
use crate::timestamp::{after, can_reach, now, reachable, to_ms_epoch, Timestamp};
use crate::unique_key::{UniqueKey, UniqueScope};
use crate::wire::{field, int_value, opt_field, opt_i64, opt_int, opt_str, opt_u16, opt_u32, Fields};

verus! {

/// An enqueue request with every default resolved.
#[derive(Debug)]
pub struct EnqueueRequest {
    pub job_type: String,
    pub queue: String,
    pub payload: Value,
    pub priority: Option<u16>,
    pub ready_at: Option<i64>,
    pub retry_limit: Option<u32>,
    pub backoff: Option<BackoffConfig>,
    pub retention: Option<RetentionConfig>,
    pub unique_key: Option<String>,
    pub unique_while: Option<UniqueScope>,
    pub batch: Option<BatchConfig>,
    pub budgets: Vec<BudgetBindingInput>,
}

/// An optional backoff as JSON.
pub open spec fn opt_backoff(b: Option<BackoffConfig>) -> Option<Json> {
    match b {
        Some(b) => Some(b.json()),
        None => None,
    }
}

/// An optional retention as JSON.
pub open spec fn opt_retention(r: Option<RetentionConfig>) -> Option<Json> {
    match r {
        Some(r) => Some(r.json()),
        None => None,
    }
}

/// An optional scope as JSON.
pub open spec fn opt_scope(s: Option<UniqueScope>) -> Option<Json> {
    match s {
        Some(s) => Some(Json::Str(s.name())),
        None => None,
    }
}

/// An optional batch configuration as JSON.
pub open spec fn opt_batch(b: Option<BatchConfig>) -> Option<Json> {
    match b {
        Some(b) => Some(b.json()),
        None => None,
    }
}

/// Budgets as JSON, where there are any.
pub open spec fn opt_bindings(list: Seq<BudgetBindingInput>) -> Option<Json> {
    if list.len() > 0 {
        Some(bindings_json(list))
    } else {
        None
    }
}

impl EnqueueRequest {
    /// This request in the API: what is not set is left out.
    pub open spec fn json(&self) -> Json {
        Json::Obj(
            field("type"@, Json::Str(self.job_type@)) + field("queue"@, Json::Str(self.queue@))
                + field("payload"@, self.payload@) + opt_field(
                "priority"@,
                opt_int(opt_u16(self.priority)),
            ) + opt_field("ready_at"@, opt_int(opt_i64(self.ready_at))) + opt_field(
                "retry_limit"@,
                opt_int(opt_u32(self.retry_limit)),
            ) + opt_field("backoff"@, opt_backoff(self.backoff)) + opt_field(
                "retention"@,
                opt_retention(self.retention),
            ) + opt_field("unique_key"@, opt_str(opt_text(self.unique_key))) + opt_field(
                "unique_while"@,
                opt_scope(self.unique_while),
            ) + opt_field("batch"@, opt_batch(self.batch)) + opt_field(
                "budgets"@,
                opt_bindings(self.budgets@),
            ),
        )
    }

    /// This request in the API.
    pub fn to_value(&self) -> (r: Value)
        ensures
            r@ == self.json(),
    {
        let mut out = Fields::new();
        out.text("type", self.job_type.as_str());
        out.text("queue", self.queue.as_str());
        out.value("payload", self.payload.copy());
        out.opt_number(
            "priority",
            match self.priority {
                Some(n) => Some(n as u64),
                None => None,
            },
        );
        out.opt_value(
            "ready_at",
            match self.ready_at {
                Some(n) => Some(int_value(n)),
                None => None,
            },
        );
        out.opt_number(
            "retry_limit",
            match self.retry_limit {
                Some(n) => Some(n as u64),
                None => None,
            },
        );
        out.opt_value(
            "backoff",
            match &self.backoff {
                Some(b) => Some(b.to_value()),
                None => None,
            },
        );
        out.opt_value(
            "retention",
            match &self.retention {
                Some(r) => Some(r.to_value()),
                None => None,
            },
        );
        out.opt_text("unique_key", &self.unique_key);
        out.opt_value(
            "unique_while",
            match self.unique_while {
                Some(s) => Some(Value::String(s.as_str().to_owned())),
                None => None,
            },
        );
        out.opt_value(
            "batch",
            match &self.batch {
                Some(b) => Some(b.to_value()),
                None => None,
            },
        );
        out.opt_value(
            "budgets",
            if self.budgets.len() > 0 {
                Some(bindings_value(&self.budgets))
            } else {
                None
            },
        );
        assert(out@ =~= self.json()->Obj_0);
        out.object()
    }

    /// The request that enqueues this job.
    pub fn request(&self) -> (r: Request)
        ensures
            r@ == plain_request(Method::Post, seq!["jobs"@], Some(self.json())),
    {
        plain(Method::Post, one_segment("jobs"), Some(self.to_value()))
    }
}

/// Builder for one enqueue.
#[derive(Debug)]
pub struct EnqueueBuilder {
    pub kind: JobKind,
    pub payload: Payload,
    pub queue: Option<String>,
    pub priority: Option<u16>,
    pub ready_at_ms: Option<i64>,
    pub retry_limit: Option<u32>,
    pub backoff: Option<BackoffConfig>,
    pub retention: Option<RetentionConfig>,
    pub unique_key: Option<UniqueKey>,
    pub batch: Option<BatchConfig>,
    pub budgets: Option<Vec<BudgetBindingInput>>,
}

/// `set` where it is given, `default` otherwise.
pub open spec fn first_of<A>(set: Option<A>, default: Option<A>) -> Option<A> {
    match set {
        Some(_) => set,
        None => default,
    }
}

impl EnqueueBuilder {
    /// The request that this builder resolves to: what was set on the
    /// builder, else what the payload says, else what the job type
    /// declares.
    pub open spec fn resolved(self) -> EnqueueRequest {
        let key = first_of(self.unique_key, self.payload.unique_key);
        EnqueueRequest {
            job_type: self.kind.name,
            queue: match self.queue {
                Some(q) => q,
                None => self.kind.queue,
            },
            payload: self.payload.value,
            priority: first_of(self.priority, self.kind.priority),
            ready_at: self.ready_at_ms,
            retry_limit: first_of(self.retry_limit, self.kind.retry_limit),
            backoff: first_of(self.backoff, self.kind.backoff),
            retention: first_of(self.retention, self.kind.retention),
            unique_key: match key {
                Some(k) => Some(k.key),
                None => None,
            },
            unique_while: match key {
                Some(k) => k.scope,
                None => None,
            },
            batch: first_of(self.batch, self.payload.batch),
            budgets: match self.budgets {
                Some(list) => list,
                None => self.kind.budgets,
            },
        }
    }

    /// A builder that overrides nothing.
    pub fn new(kind: JobKind, payload: Payload) -> (r: EnqueueBuilder)
        ensures
            r == (EnqueueBuilder {
                kind,
                payload,
                queue: None,
                priority: None,
                ready_at_ms: None,
                retry_limit: None,
                backoff: None,
                retention: None,
                unique_key: None,
                batch: None,
                budgets: None,
            }),
    {
        EnqueueBuilder {
            kind,
            payload,
            queue: None,
            priority: None,
            ready_at_ms: None,
            retry_limit: None,
            backoff: None,
            retention: None,
            unique_key: None,
            batch: None,
            budgets: None,
        }
    }

    /// Resolves every default.
    pub fn into_request(self) -> (r: Result<EnqueueRequest, ZizqError>)
        ensures
            r matches Ok(req) && req == self.resolved(),
    {
        let queue = match self.queue {
            Some(q) => q,
            None => self.kind.queue,
        };
        let key = match self.unique_key {
            Some(k) => Some(k),
            None => self.payload.unique_key,
        };
        let (unique_key, unique_while) = match key {
            Some(k) => (Some(k.key), k.scope),
            None => (None, None),
        };
        let budgets = match self.budgets {
            Some(list) => list,
            None => self.kind.budgets,
        };
        Ok(
            EnqueueRequest {
                job_type: self.kind.name,
                queue,
                payload: self.payload.value,
                priority: match self.priority {
                    Some(n) => Some(n),
                    None => self.kind.priority,
                },
                ready_at: self.ready_at_ms,
                retry_limit: match self.retry_limit {
                    Some(n) => Some(n),
                    None => self.kind.retry_limit,
                },
                backoff: match self.backoff {
                    Some(b) => Some(b),
                    None => self.kind.backoff,
                },
                retention: match self.retention {
                    Some(r) => Some(r),
                    None => self.kind.retention,
                },
                unique_key,
                unique_while,
                batch: match self.batch {
                    Some(b) => Some(b),
                    None => self.payload.batch,
                },
                budgets,
            },
        )
    }

    /// Sets the queue.
    pub fn queue(self, queue: &str) -> (r: EnqueueBuilder)
        ensures
            opt_text(r.queue) == Some(queue@),
            r == (EnqueueBuilder { queue: r.queue, ..self }),
    {
        EnqueueBuilder { queue: Some(queue.to_owned()), ..self }
    }

    /// Sets the priority.
    pub fn priority(self, priority: u16) -> (r: EnqueueBuilder)
        ensures
            r == (EnqueueBuilder { priority: Some(priority), ..self }),
    {
        EnqueueBuilder { priority: Some(priority), ..self }
    }

    /// Sets when the job becomes ready.
    pub fn ready_at(self, time: Timestamp) -> (r: EnqueueBuilder)
        requires
            time.wf(),
        ensures
            opt_i64(r.ready_at_ms) == Some(time.millis()),
            r == (EnqueueBuilder { ready_at_ms: r.ready_at_ms, ..self }),
    {
        EnqueueBuilder { ready_at_ms: Some(to_ms_epoch(time)), ..self }
    }

    /// Sets when the job becomes ready.
    pub fn run_at(self, time: Timestamp) -> (r: EnqueueBuilder)
        requires
            time.wf(),
        ensures
            opt_i64(r.ready_at_ms) == Some(time.millis()),
            r == (EnqueueBuilder { ready_at_ms: r.ready_at_ms, ..self }),
    {
        self.ready_at(time)
    }

    /// Makes the job ready `delay` after `now`.
    pub fn delay_from(self, now: Timestamp, delay: Duration) -> (r: EnqueueBuilder)
        requires
            now.in_utc(),
            reachable(now, delay),
        ensures
            opt_i64(r.ready_at_ms) == Some(
                Timestamp { nanos: (now.nanos + delay.nanos) as i128 }.millis(),
            ),
            r == (EnqueueBuilder { ready_at_ms: r.ready_at_ms, ..self }),
    {
        self.ready_at(after(now, delay))
    }

    /// Makes the job ready `delay` after `now`, where a point in time that
    /// late can be named.
    pub fn delay_at(self, now: Timestamp, delay: Duration) -> (r: Option<EnqueueBuilder>)
        requires
            now.in_utc(),
        ensures
            r is Some == reachable(now, delay),
            r matches Some(b) ==> opt_i64(b.ready_at_ms) == Some(
                Timestamp { nanos: (now.nanos + delay.nanos) as i128 }.millis(),
            ) && b == (EnqueueBuilder { ready_at_ms: b.ready_at_ms, ..self }),
    {
        if can_reach(now, delay) {
            Some(self.delay_from(now, delay))
        } else {
            None
        }
    }

    /// Makes the job ready `delay` from now, where a point in time that
    /// late can be named. Which time the clock shows is left open.
    pub fn delay(self, delay: Duration) -> (r: Option<EnqueueBuilder>)
        ensures
            exists|now: Timestamp| #[trigger]
                now.in_utc() && r is Some == reachable(now, delay) && (r matches Some(b)
                    ==> opt_i64(b.ready_at_ms) == Some(
                    Timestamp { nanos: (now.nanos + delay.nanos) as i128 }.millis(),
                ) && b == (EnqueueBuilder { ready_at_ms: b.ready_at_ms, ..self })),
    {
        self.delay_at(now(), delay)
    }

    /// Sets the retry limit.
    pub fn retry_limit(self, n: u32) -> (r: EnqueueBuilder)
        ensures
            r == (EnqueueBuilder { retry_limit: Some(n), ..self }),
    {
        EnqueueBuilder { retry_limit: Some(n), ..self }
    }

    /// Sets the backoff.
    pub fn backoff(self, backoff: BackoffConfig) -> (r: EnqueueBuilder)
        ensures
            r == (EnqueueBuilder { backoff: Some(backoff), ..self }),
    {
        EnqueueBuilder { backoff: Some(backoff), ..self }
    }

    /// Sets the retention.
    pub fn retention(self, retention: RetentionConfig) -> (r: EnqueueBuilder)
        ensures
            r == (EnqueueBuilder { retention: Some(retention), ..self }),
    {
        EnqueueBuilder { retention: Some(retention), ..self }
    }

    /// Sets the uniqueness key.
    pub fn unique_key(self, key: UniqueKey) -> (r: EnqueueBuilder)
        ensures
            r == (EnqueueBuilder { unique_key: Some(key), ..self }),
    {
        EnqueueBuilder { unique_key: Some(key), ..self }
    }

    /// Sets the batch that the job folds into.
    pub fn batch(self, batch: BatchConfig) -> (r: EnqueueBuilder)
        ensures
            r == (EnqueueBuilder { batch: Some(batch), ..self }),
    {
        EnqueueBuilder { batch: Some(batch), ..self }
    }

    /// Binds the job to one more budget. The first call replaces the
    /// budgets that the job type declares.
    pub fn budget(self, binding: BudgetBindingInput) -> (r: EnqueueBuilder)
        ensures
            r == (EnqueueBuilder { budgets: r.budgets, ..self }),
            r.budgets is Some,
            r.budgets->0@ == match self.budgets {
                Some(list) => list@.push(binding),
                None => seq![binding],
            },
    {
        let mut list = match self.budgets {
            Some(list) => list,
            None => Vec::new(),
        };
        let ghost before = list@;
        list.push(binding);
        assert(self.budgets is None ==> list@ =~= seq![binding]);
        EnqueueBuilder { budgets: Some(list), ..self }
    }

    /// Sets the budgets that the job is bound to, all at once.
    pub fn budgets(self, list: Vec<BudgetBindingInput>) -> (r: EnqueueBuilder)
        ensures
            r == (EnqueueBuilder { budgets: Some(list), ..self }),
    {
        EnqueueBuilder { budgets: Some(list), ..self }
    }

    /// Binds the job to no budget, whatever the job type declares.
    pub fn clear_budgets(self) -> (r: EnqueueBuilder)
        ensures
            r == (EnqueueBuilder { budgets: r.budgets, ..self }),
            r.budgets is Some,
            r.budgets->0@ == Seq::<BudgetBindingInput>::empty(),
    {
        EnqueueBuilder { budgets: Some(Vec::new()), ..self }
    }
}

/// What is set on the builder wins over what the job type declares, field
/// by field.
pub proof fn law_overrides_win(b: EnqueueBuilder)
    ensures
        b.queue matches Some(q) ==> b.resolved().queue == q,
        b.queue is None ==> b.resolved().queue == b.kind.queue,
        b.priority is Some ==> b.resolved().priority == b.priority,
        b.priority is None ==> b.resolved().priority == b.kind.priority,
        b.retry_limit is Some ==> b.resolved().retry_limit == b.retry_limit,
        b.retry_limit is None ==> b.resolved().retry_limit == b.kind.retry_limit,
        b.backoff is Some ==> b.resolved().backoff == b.backoff,
        b.backoff is None ==> b.resolved().backoff == b.kind.backoff,
        b.retention is Some ==> b.resolved().retention == b.retention,
        b.retention is None ==> b.resolved().retention == b.kind.retention,
        b.budgets matches Some(list) ==> b.resolved().budgets == list,
        b.budgets is None ==> b.resolved().budgets == b.kind.budgets,
        b.unique_key matches Some(k) ==> b.resolved().unique_key == Some(k.key)
            && b.resolved().unique_while == k.scope,
{
}

} // verus!
