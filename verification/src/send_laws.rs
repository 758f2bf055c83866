//! What is sent: each field of a request's body is what was asked for, under
//! its own name.

use vstd::prelude::*;
use vstd::string::*;
use crate::batch::BatchConfig;
use crate::budget::{
    bindings_json, bindings_value, policy_json, strategy_patch_json, BudgetBindingInput,
        BudgetPatch,
    BudgetPolicy, BudgetStrategy, StrategyPatch,
};
use crate::budget_jobs::{binding_body, binding_value};
use crate::bulk_enqueue::{jobs_json, BulkEnqueueBuilder};
use crate::cron::{
    entries_json, group_json, opt_flag, CronEntry, CronEntryBody, ReplaceCronBuilder,
};
use crate::decode::get;
use crate::duration::Duration;
use crate::enqueue::{
    opt_backoff, opt_batch, opt_bindings, opt_retention, opt_scope, EnqueueBuilder, EnqueueRequest,
};
use crate::error::ZizqError;
use crate::failure::FailureBuilder;
use crate::job::{JobKind, Payload};
use crate::job_patch::{
    field_backoff, field_retention, field_text, field_u16, field_u32, field_u64, Field, JobPatch,
    RetentionPatch,
};
use crate::json::{Json, Number, Value};
use crate::number_text::is_float_token;
use crate::object_laws::{built, lemma_built};
use crate::request::{Method, Request};
use crate::resources::{exponent_json, BackoffConfig, RetentionConfig};
use crate::text::{opt_text, texts};
use crate::timestamp::Timestamp;
use crate::unique_key::{UniqueKey, UniqueScope};
use crate::wire::{field, opt_i64, opt_int, opt_str, opt_u16, opt_u32, opt_u64};

verus! {

/// Whether `v` is an object that has no other fields than `names`.
pub open spec fn only(v: Json, names: Seq<Seq<char>>) -> bool {
    v is Obj && forall|name: Seq<char>| #[trigger] get(v, name) is Some ==> names.contains(name)
}

/// An integer where there is one.
pub open spec fn some_int(n: Option<int>) -> Option<Json> {
    match n {
        Some(n) => Some(Json::Int(n)),
        None => None,
    }
}

/// A text where there is one.
pub open spec fn some_text(s: Option<String>) -> Option<Json> {
    match s {
        Some(s) => Some(Json::Str(s@)),
        None => None,
    }
}

/// Whether `v` shows a backoff: its numbers, the exponent null where it is
/// no finite number.
pub open spec fn shows_backoff(v: Json, b: BackoffConfig) -> bool {
    &&& get(v, "base_ms"@) == Some(Json::Int(b.base_ms as int))
    &&& get(v, "exponent"@) == Some(
        match b.exponent {
            Number::PosInt(n) => Json::Int(n as int),
            Number::NegInt(n) => Json::Int(n as int),
            Number::Float(t) => if is_float_token(t@) {
                Json::Float(t@)
            } else {
                Json::Null
            },
        },
    )
    &&& get(v, "jitter_ms"@) == Some(Json::Int(b.jitter_ms as int))
    &&& only(v, seq!["base_ms"@, "exponent"@, "jitter_ms"@])
}

/// Whether `v` shows a retention: what is set, and nothing else.
pub open spec fn shows_retention(v: Json, r: RetentionConfig) -> bool {
    &&& get(v, "completed_ms"@) == some_int(
        match r.completed_ms {
            Some(n) => Some(n as int),
            None => None,
        },
    )
    &&& get(v, "dead_ms"@) == some_int(
        match r.dead_ms {
            Some(n) => Some(n as int),
            None => None,
        },
    )
    &&& only(v, seq!["completed_ms"@, "dead_ms"@])
}

/// Whether `v` shows a batch configuration.
pub open spec fn shows_batch(v: Json, b: BatchConfig) -> bool {
    &&& get(v, "key"@) == Some(Json::Str(b.key@))
    &&& get(v, "when"@) == Some(Json::Str(b.when@))
    &&& get(v, "fold"@) == Some(Json::Str(b.fold@))
    &&& only(v, seq!["key"@, "when"@, "fold"@])
}

/// Whether `v` shows a strategy: its name, and for a rate its period in
/// whole milliseconds and its ceiling.
pub open spec fn shows_strategy(v: Json, s: BudgetStrategy) -> bool {
    &&& only(v, seq!["type"@, "duration_ms"@, "burst"@])
    &&& match s {
        BudgetStrategy::TimeBased { duration, burst } => {
            &&& get(v, "type"@) == Some(Json::Str("time_based"@))
            &&& duration.nanos as int / 1_000_000 <= u64::MAX ==> get(v, "duration_ms"@) == Some(
                Json::Int(duration.nanos as int / 1_000_000),
            )
            &&& get(v, "burst"@) == some_int(
                match burst {
                    Some(n) => Some(n as int),
                    None => None,
                },
            )
        },
        BudgetStrategy::WhileInFlight => {
            &&& get(v, "type"@) == Some(Json::Str("while_in_flight"@))
            &&& get(v, "duration_ms"@) is None
            &&& get(v, "burst"@) is None
        },
        BudgetStrategy::Unknown { kind } => {
            &&& get(v, "type"@) == Some(Json::Str(kind@))
            &&& get(v, "duration_ms"@) is None
            &&& get(v, "burst"@) is None
        },
    }
}

/// Whether `v` shows a policy.
pub open spec fn shows_policy(v: Json, p: BudgetPolicy) -> bool {
    &&& get(v, "allocation"@) == Some(Json::Int(p.allocation as int))
    &&& get(v, "strategy"@) matches Some(f) && shows_strategy(f, p.strategy)
    &&& only(v, seq!["allocation"@, "strategy"@])
}

/// Whether `v` shows what a binding says beyond its key.
pub open spec fn shows_terms(v: Json, b: BudgetBindingInput) -> bool {
    &&& get(v, "cost"@) == some_int(
        match b.cost {
            Some(n) => Some(n as int),
            None => None,
        },
    )
    &&& match b.create_with {
        Some(p) => get(v, "create_with"@) matches Some(f) && shows_policy(f, p),
        None => get(v, "create_with"@) is None,
    }
}

/// Whether `v` shows a binding, key and all.
pub open spec fn shows_binding(v: Json, b: BudgetBindingInput) -> bool {
    &&& get(v, "key"@) == Some(Json::Str(b.key@))
    &&& shows_terms(v, b)
    &&& only(v, seq!["key"@, "cost"@, "create_with"@])
}

/// Whether `v` shows bindings, one after the other.
pub open spec fn shows_bindings(v: Json, list: Seq<BudgetBindingInput>) -> bool {
    v matches Json::Arr(items) && items.len() == list.len() && forall|i: int|
        0 <= i < items.len() ==> shows_binding(#[trigger] items[i], list[i])
}

/// The word that the API has for a scope.
pub open spec fn scope_word(s: UniqueScope) -> Seq<char> {
    match s {
        UniqueScope::Queued => "queued"@,
        UniqueScope::Active => "active"@,
        UniqueScope::Exists => "exists"@,
        UniqueScope::Unknown => "unknown"@,
    }
}

/// Whether `v` shows an enqueue request: each setting under its name, what
/// is not set left out.
pub open spec fn shows_request(v: Json, q: EnqueueRequest) -> bool {
    &&& get(v, "type"@) == Some(Json::Str(q.job_type@))
    &&& get(v, "queue"@) == Some(Json::Str(q.queue@))
    &&& get(v, "payload"@) == Some(q.payload@)
    &&& get(v, "priority"@) == some_int(
        match q.priority {
            Some(n) => Some(n as int),
            None => None,
        },
    )
    &&& get(v, "ready_at"@) == some_int(
        match q.ready_at {
            Some(n) => Some(n as int),
            None => None,
        },
    )
    &&& get(v, "retry_limit"@) == some_int(
        match q.retry_limit {
            Some(n) => Some(n as int),
            None => None,
        },
    )
    &&& match q.backoff {
        Some(b) => get(v, "backoff"@) matches Some(f) && shows_backoff(f, b),
        None => get(v, "backoff"@) is None,
    }
    &&& match q.retention {
        Some(r) => get(v, "retention"@) matches Some(f) && shows_retention(f, r),
        None => get(v, "retention"@) is None,
    }
    &&& get(v, "unique_key"@) == some_text(q.unique_key)
    &&& get(v, "unique_while"@) == match q.unique_while {
        Some(s) => Some(Json::Str(scope_word(s))),
        None => None,
    }
    &&& match q.batch {
        Some(b) => get(v, "batch"@) matches Some(f) && shows_batch(f, b),
        None => get(v, "batch"@) is None,
    }
    &&& if q.budgets@.len() > 0 {
        get(v, "budgets"@) matches Some(f) && shows_bindings(f, q.budgets@)
    } else {
        get(v, "budgets"@) is None
    }
    &&& only(v, enqueue_names())
}

/// The fields that an enqueue request can have.
pub open spec fn enqueue_names() -> Seq<Seq<char>> {
    seq![
        "type"@,
        "queue"@,
        "payload"@,
        "priority"@,
        "ready_at"@,
        "retry_limit"@,
        "backoff"@,
        "retention"@,
        "unique_key"@,
        "unique_while"@,
        "batch"@,
        "budgets"@,
    ]
}

/// Whether `v` shows a cron entry.
pub open spec fn shows_entry(v: Json, e: CronEntryBody) -> bool {
    &&& get(v, "name"@) == Some(Json::Str(e.name@))
    &&& get(v, "expression"@) == Some(Json::Str(e.expression@))
    &&& get(v, "timezone"@) == some_text(e.timezone)
    &&& get(v, "paused"@) == match e.paused {
        Some(b) => Some(Json::Bool(b)),
        None => None,
    }
    &&& get(v, "job"@) matches Some(f) && shows_request(f, e.job)
    &&& only(v, seq!["name"@, "expression"@, "timezone"@, "paused"@, "job"@])
}

/// Whether `v` shows a failure report.
pub open spec fn shows_failure(v: Json, b: FailureBuilder) -> bool {
    &&& get(v, "message"@) == Some(Json::Str(b.message@))
    &&& get(v, "error_type"@) == some_text(b.error_type)
    &&& get(v, "backtrace"@) == some_text(b.backtrace)
    &&& get(v, "retry_at"@) == some_int(
        match b.retry_at_ms {
            Some(n) => Some(n as int),
            None => None,
        },
    )
    &&& get(v, "kill"@) == if b.kill {
        Some(Json::Bool(true))
    } else {
        None
    }
    &&& only(v, seq!["message"@, "error_type"@, "backtrace"@, "retry_at"@, "kill"@])
}

/// What a merge patch says of a number: nothing where it is kept, null where
/// it is cleared.
pub open spec fn patched_int(f: Field<int>) -> Option<Json> {
    match f {
        Field::Keep => None,
        Field::Clear => Some(Json::Null),
        Field::Replace(n) => Some(Json::Int(n)),
    }
}

/// What a merge patch says of a text.
pub open spec fn patched_text(f: Field<String>) -> Option<Json> {
    match f {
        Field::Keep => None,
        Field::Clear => Some(Json::Null),
        Field::Replace(s) => Some(Json::Str(s@)),
    }
}

/// A number of a patch as an integer.
pub open spec fn int_u64(f: Field<u64>) -> Field<int> {
    match f {
        Field::Keep => Field::Keep,
        Field::Clear => Field::Clear,
        Field::Replace(n) => Field::Replace(n as int),
    }
}

/// A number of a patch as an integer.
pub open spec fn int_u32(f: Field<u32>) -> Field<int> {
    match f {
        Field::Keep => Field::Keep,
        Field::Clear => Field::Clear,
        Field::Replace(n) => Field::Replace(n as int),
    }
}

/// A number of a patch as an integer.
pub open spec fn int_u16(f: Field<u16>) -> Field<int> {
    match f {
        Field::Keep => Field::Keep,
        Field::Clear => Field::Clear,
        Field::Replace(n) => Field::Replace(n as int),
    }
}

/// Whether `v` shows the changes to a retention.
pub open spec fn shows_retention_patch(v: Json, p: RetentionPatch) -> bool {
    &&& get(v, "completed_ms"@) == patched_int(int_u64(p.completed_ms))
    &&& get(v, "dead_ms"@) == patched_int(int_u64(p.dead_ms))
    &&& only(v, seq!["completed_ms"@, "dead_ms"@])
}

/// Whether `v` shows the changes to a job.
pub open spec fn shows_patch(v: Json, p: JobPatch) -> bool {
    &&& get(v, "queue"@) == patched_text(p.queue)
    &&& get(v, "priority"@) == patched_int(int_u16(p.priority))
    &&& get(v, "ready_at"@) == patched_int(int_u64(p.ready_at))
    &&& get(v, "retry_limit"@) == patched_int(int_u32(p.retry_limit))
    &&& match p.backoff {
        Field::Keep => get(v, "backoff"@) is None,
        Field::Clear => get(v, "backoff"@) == Some(Json::Null),
        Field::Replace(b) => get(v, "backoff"@) matches Some(f) && shows_backoff(f, b),
    }
    &&& match p.retention {
        Field::Keep => get(v, "retention"@) is None,
        Field::Clear => get(v, "retention"@) == Some(Json::Null),
        Field::Replace(r) => get(v, "retention"@) matches Some(f) && shows_retention_patch(f, r),
    }
    &&& only(
        v,
        seq!["queue"@, "priority"@, "ready_at"@, "retry_limit"@, "backoff"@, "retention"@],
    )
}

/// Whether `v` shows the changes to a strategy.
pub open spec fn shows_strategy_patch(v: Json, p: StrategyPatch) -> bool {
    &&& get(v, "type"@) == patched_text(p.kind)
    &&& get(v, "duration_ms"@) == patched_int(int_u64(p.duration_ms))
    &&& get(v, "burst"@) == patched_int(int_u32(p.burst))
    &&& only(v, seq!["type"@, "duration_ms"@, "burst"@])
}

/// Whether `v` shows the changes to a budget.
pub open spec fn shows_budget_patch(v: Json, p: BudgetPatch) -> bool {
    &&& get(v, "allocation"@) == some_int(
        match p.allocation {
            Some(n) => Some(n as int),
            None => None,
        },
    )
    &&& match p.strategy {
        Some(s) => get(v, "strategy"@) matches Some(f) && shows_strategy_patch(f, s),
        None => get(v, "strategy"@) is None,
    }
    &&& only(v, seq!["allocation"@, "strategy"@])
}

/// What a patch field puts into an object.
spec fn patch_value(f: Field<Json>) -> Option<Json> {
    match f {
        Field::Keep => None,
        Field::Clear => Some(Json::Null),
        Field::Replace(v) => Some(v),
    }
}

proof fn lemma_strategy_names()
    ensures
        seq!["type"@, "duration_ms"@, "burst"@].no_duplicates(),
{
    reveal_strlit("type");
    reveal_strlit("duration_ms");
    reveal_strlit("burst");
    let names = seq!["type"@, "duration_ms"@, "burst"@];
    assert("type"@.len() == 4);
    assert("duration_ms"@.len() == 11);
    assert("burst"@.len() == 5);
    assert forall|i: int, j: int|
        0 <= i < names.len() && 0 <= j < names.len() && i != j implies names[i] != names[j] by {}
}

pub proof fn lemma_shows_strategy(x: BudgetStrategy)
    ensures
        shows_strategy(x@.wire().json(), x),
{
    lemma_strategy_names();
    let w = x@.wire();
    let names = seq!["type"@, "duration_ms"@, "burst"@];
    let values: Seq<Option<Json>> = seq![
        Some(Json::Str(w.kind)),
        opt_int(opt_u64(w.duration_ms)),
        opt_int(opt_u32(w.burst)),
    ];
    reveal_with_fuel(built, 4);
    assert(w.json()->Obj_0 =~= built(names, values, 3));
    lemma_built(names, values);
    assert(names[0] == "type"@);
    assert(names[1] == "duration_ms"@);
    assert(names[2] == "burst"@);
    assert forall|name: Seq<char>| #[trigger] get(w.json(), name) is Some implies names.contains(
        name,
    ) by {
        assert(names.contains(name) || !names.contains(name));
    }
}

proof fn lemma_backoff_names()
    ensures
        seq!["base_ms"@, "exponent"@, "jitter_ms"@].no_duplicates(),
{
    reveal_strlit("base_ms");
    reveal_strlit("exponent");
    reveal_strlit("jitter_ms");
    let names = seq!["base_ms"@, "exponent"@, "jitter_ms"@];
    assert("base_ms"@.len() == 7);
    assert("exponent"@.len() == 8);
    assert("jitter_ms"@.len() == 9);
    assert forall|i: int, j: int|
        0 <= i < names.len() && 0 <= j < names.len() && i != j implies names[i] != names[j] by {}
}

pub proof fn lemma_shows_backoff(x: BackoffConfig)
    ensures
        shows_backoff(x.json(), x),
{
    lemma_backoff_names();
    let names = seq!["base_ms"@, "exponent"@, "jitter_ms"@];
    let values: Seq<Option<Json>> = seq![
        Some(Json::Int(x.base_ms as int)),
        Some(exponent_json(x.exponent)),
        Some(Json::Int(x.jitter_ms as int)),
    ];
    reveal_with_fuel(built, 4);
    assert(x.json()->Obj_0 =~= built(names, values, 3));
    lemma_built(names, values);
    assert(names[0] == "base_ms"@);
    assert(names[1] == "exponent"@);
    assert(names[2] == "jitter_ms"@);
    assert forall|name: Seq<char>| #[trigger] get(x.json(),
        name) is Some implies names.contains(name) by {
        assert(names.contains(name) || !names.contains(name));
    }
}

proof fn lemma_retention_names()
    ensures
        seq!["completed_ms"@, "dead_ms"@].no_duplicates(),
{
    reveal_strlit("completed_ms");
    reveal_strlit("dead_ms");
    let names = seq!["completed_ms"@, "dead_ms"@];
    assert("completed_ms"@.len() == 12);
    assert("dead_ms"@.len() == 7);
    assert forall|i: int, j: int|
        0 <= i < names.len() && 0 <= j < names.len() && i != j implies names[i] != names[j] by {}
}

pub proof fn lemma_shows_retention(x: RetentionConfig)
    ensures
        shows_retention(x.json(), x),
{
    lemma_retention_names();
    let names = seq!["completed_ms"@, "dead_ms"@];
    let values: Seq<Option<Json>> = seq![
        opt_int(opt_u64(x.completed_ms)),
        opt_int(opt_u64(x.dead_ms)),
    ];
    reveal_with_fuel(built, 3);
    assert(x.json()->Obj_0 =~= built(names, values, 2));
    lemma_built(names, values);
    assert(names[0] == "completed_ms"@);
    assert(names[1] == "dead_ms"@);
    assert forall|name: Seq<char>| #[trigger] get(x.json(),
        name) is Some implies names.contains(name) by {
        assert(names.contains(name) || !names.contains(name));
    }
}

proof fn lemma_batch_names()
    ensures
        seq!["key"@, "when"@, "fold"@].no_duplicates(),
{
    reveal_strlit("key");
    reveal_strlit("when");
    reveal_strlit("fold");
    let names = seq!["key"@, "when"@, "fold"@];
    assert("key"@.len() == 3);
    assert("when"@.len() == 4);
    assert("fold"@.len() == 4);
    assert("when"@[0] == 'w' && "fold"@[0] == 'f');
    assert forall|i: int, j: int|
        0 <= i < names.len() && 0 <= j < names.len() && i != j implies names[i] != names[j] by {}
}

pub proof fn lemma_shows_batch(x: BatchConfig)
    ensures
        shows_batch(x.json(), x),
{
    lemma_batch_names();
    let names = seq!["key"@, "when"@, "fold"@];
    let values: Seq<Option<Json>> = seq![
        Some(Json::Str(x.key@)),
        Some(Json::Str(x.when@)),
        Some(Json::Str(x.fold@)),
    ];
    reveal_with_fuel(built, 4);
    assert(x.json()->Obj_0 =~= built(names, values, 3));
    lemma_built(names, values);
    assert(names[0] == "key"@);
    assert(names[1] == "when"@);
    assert(names[2] == "fold"@);
    assert forall|name: Seq<char>| #[trigger] get(x.json(),
        name) is Some implies names.contains(name) by {
        assert(names.contains(name) || !names.contains(name));
    }
}

proof fn lemma_policy_names()
    ensures
        seq!["allocation"@, "strategy"@].no_duplicates(),
{
    reveal_strlit("allocation");
    reveal_strlit("strategy");
    let names = seq!["allocation"@, "strategy"@];
    assert("allocation"@.len() == 10);
    assert("strategy"@.len() == 8);
    assert forall|i: int, j: int|
        0 <= i < names.len() && 0 <= j < names.len() && i != j implies names[i] != names[j] by {}
}

pub proof fn lemma_shows_policy(x: BudgetPolicy)
    ensures
        shows_policy(x.json(), x),
{
    lemma_shows_strategy(x.strategy);
    lemma_policy_names();
    let names = seq!["allocation"@, "strategy"@];
    let values: Seq<Option<Json>> = seq![
        Some(Json::Int(x.allocation as int)),
        Some(x.strategy@.wire().json()),
    ];
    reveal_with_fuel(built, 3);
    assert(x.json()->Obj_0 =~= built(names, values, 2));
    lemma_built(names, values);
    assert(names[0] == "allocation"@);
    assert(names[1] == "strategy"@);
    assert forall|name: Seq<char>| #[trigger] get(x.json(),
        name) is Some implies names.contains(name) by {
        assert(names.contains(name) || !names.contains(name));
    }
}

proof fn lemma_binding_names()
    ensures
        seq!["key"@, "cost"@, "create_with"@].no_duplicates(),
{
    reveal_strlit("key");
    reveal_strlit("cost");
    reveal_strlit("create_with");
    let names = seq!["key"@, "cost"@, "create_with"@];
    assert("key"@.len() == 3);
    assert("cost"@.len() == 4);
    assert("create_with"@.len() == 11);
    assert forall|i: int, j: int|
        0 <= i < names.len() && 0 <= j < names.len() && i != j implies names[i] != names[j] by {}
}

pub proof fn lemma_shows_binding(x: BudgetBindingInput)
    ensures
        shows_binding(x.json(), x),
{
    if let Some(p) = x.create_with {
        lemma_shows_policy(p);
    }
    lemma_binding_names();
    let names = seq!["key"@, "cost"@, "create_with"@];
    let values: Seq<Option<Json>> = seq![
        Some(Json::Str(x.key@)),
        opt_int(opt_u32(x.cost)),
        policy_json(x.create_with),
    ];
    reveal_with_fuel(built, 4);
    assert(x.json()->Obj_0 =~= built(names, values, 3));
    lemma_built(names, values);
    assert(names[0] == "key"@);
    assert(names[1] == "cost"@);
    assert(names[2] == "create_with"@);
    assert forall|name: Seq<char>| #[trigger] get(x.json(),
        name) is Some implies names.contains(name) by {
        assert(names.contains(name) || !names.contains(name));
    }
}

pub proof fn lemma_shows_bindings(list: Seq<BudgetBindingInput>)
    ensures
        shows_bindings(bindings_json(list), list),
{
    let items = bindings_json(list)->Arr_0;
    assert forall|i: int| 0 <= i < items.len() implies shows_binding(#[trigger] items[i],
        list[i]) by {
        lemma_shows_binding(list[i]);
    }
}

proof fn lemma_request_names()
    ensures
        seq!["type"@, "queue"@, "payload"@, "priority"@, "ready_at"@, "retry_limit"@, "backoff"@,
            "retention"@, "unique_key"@, "unique_while"@, "batch"@, "budgets"@].no_duplicates(),
{
    reveal_strlit("type");
    reveal_strlit("queue");
    reveal_strlit("payload");
    reveal_strlit("priority");
    reveal_strlit("ready_at");
    reveal_strlit("retry_limit");
    reveal_strlit("backoff");
    reveal_strlit("retention");
    reveal_strlit("unique_key");
    reveal_strlit("unique_while");
    reveal_strlit("batch");
    reveal_strlit("budgets");
    let names = seq!["type"@, "queue"@, "payload"@, "priority"@, "ready_at"@, "retry_limit"@,
        "backoff"@, "retention"@, "unique_key"@, "unique_while"@, "batch"@, "budgets"@];
    assert("type"@.len() == 4);
    assert("queue"@.len() == 5);
    assert("payload"@.len() == 7);
    assert("priority"@.len() == 8);
    assert("ready_at"@.len() == 8);
    assert("retry_limit"@.len() == 11);
    assert("backoff"@.len() == 7);
    assert("retention"@.len() == 9);
    assert("unique_key"@.len() == 10);
    assert("unique_while"@.len() == 12);
    assert("batch"@.len() == 5);
    assert("budgets"@.len() == 7);
    assert("queue"@[0] == 'q' && "batch"@[0] == 'b');
    assert("payload"@[0] == 'p' && "backoff"@[0] == 'b');
    assert("payload"@[0] == 'p' && "budgets"@[0] == 'b');
    assert("priority"@[0] == 'p' && "ready_at"@[0] == 'r');
    assert("backoff"@[1] == 'a' && "budgets"@[1] == 'u');
    assert forall|i: int, j: int|
        0 <= i < names.len() && 0 <= j < names.len() && i != j implies names[i] != names[j] by {}
}

pub proof fn lemma_shows_request(x: EnqueueRequest)
    ensures
        shows_request(x.json(), x),
{
    if let Some(b) = x.backoff {
        lemma_shows_backoff(b);
    }
    if let Some(r) = x.retention {
        lemma_shows_retention(r);
    }
    if let Some(b) = x.batch {
        lemma_shows_batch(b);
    }
    lemma_shows_bindings(x.budgets@);
    lemma_request_names();
    let names = seq!["type"@, "queue"@, "payload"@, "priority"@, "ready_at"@, "retry_limit"@,
        "backoff"@, "retention"@, "unique_key"@, "unique_while"@, "batch"@, "budgets"@];
    let values: Seq<Option<Json>> = seq![
        Some(Json::Str(x.job_type@)),
        Some(Json::Str(x.queue@)),
        Some(x.payload@),
        opt_int(opt_u16(x.priority)),
        opt_int(opt_i64(x.ready_at)),
        opt_int(opt_u32(x.retry_limit)),
        opt_backoff(x.backoff),
        opt_retention(x.retention),
        opt_str(opt_text(x.unique_key)),
        opt_scope(x.unique_while),
        opt_batch(x.batch),
        opt_bindings(x.budgets@),
    ];
    reveal_with_fuel(built, 13);
    assert(x.json()->Obj_0 =~= built(names, values, 12));
    lemma_built(names, values);
    assert(names[0] == "type"@);
    assert(names[1] == "queue"@);
    assert(names[2] == "payload"@);
    assert(names[3] == "priority"@);
    assert(names[4] == "ready_at"@);
    assert(names[5] == "retry_limit"@);
    assert(names[6] == "backoff"@);
    assert(names[7] == "retention"@);
    assert(names[8] == "unique_key"@);
    assert(names[9] == "unique_while"@);
    assert(names[10] == "batch"@);
    assert(names[11] == "budgets"@);
    assert forall|name: Seq<char>| #[trigger] get(x.json(),
        name) is Some implies names.contains(name) by {
        assert(names.contains(name) || !names.contains(name));
    }
}

proof fn lemma_entry_names()
    ensures
        seq!["name"@, "expression"@, "timezone"@, "paused"@, "job"@].no_duplicates(),
{
    reveal_strlit("name");
    reveal_strlit("expression");
    reveal_strlit("timezone");
    reveal_strlit("paused");
    reveal_strlit("job");
    let names = seq!["name"@, "expression"@, "timezone"@, "paused"@, "job"@];
    assert("name"@.len() == 4);
    assert("expression"@.len() == 10);
    assert("timezone"@.len() == 8);
    assert("paused"@.len() == 6);
    assert("job"@.len() == 3);
    assert forall|i: int, j: int|
        0 <= i < names.len() && 0 <= j < names.len() && i != j implies names[i] != names[j] by {}
}

pub proof fn lemma_shows_entry(x: CronEntryBody)
    ensures
        shows_entry(x.json(), x),
{
    lemma_shows_request(x.job);
    lemma_entry_names();
    let names = seq!["name"@, "expression"@, "timezone"@, "paused"@, "job"@];
    let values: Seq<Option<Json>> = seq![
        Some(Json::Str(x.name@)),
        Some(Json::Str(x.expression@)),
        opt_str(opt_text(x.timezone)),
        opt_flag(x.paused),
        Some(x.job.json()),
    ];
    reveal_with_fuel(built, 6);
    assert(x.json()->Obj_0 =~= built(names, values, 5));
    lemma_built(names, values);
    assert(names[0] == "name"@);
    assert(names[1] == "expression"@);
    assert(names[2] == "timezone"@);
    assert(names[3] == "paused"@);
    assert(names[4] == "job"@);
    assert forall|name: Seq<char>| #[trigger] get(x.json(),
        name) is Some implies names.contains(name) by {
        assert(names.contains(name) || !names.contains(name));
    }
}

proof fn lemma_failure_names()
    ensures
        seq!["message"@, "error_type"@, "backtrace"@, "retry_at"@, "kill"@].no_duplicates(),
{
    reveal_strlit("message");
    reveal_strlit("error_type");
    reveal_strlit("backtrace");
    reveal_strlit("retry_at");
    reveal_strlit("kill");
    let names = seq!["message"@, "error_type"@, "backtrace"@, "retry_at"@, "kill"@];
    assert("message"@.len() == 7);
    assert("error_type"@.len() == 10);
    assert("backtrace"@.len() == 9);
    assert("retry_at"@.len() == 8);
    assert("kill"@.len() == 4);
    assert forall|i: int, j: int|
        0 <= i < names.len() && 0 <= j < names.len() && i != j implies names[i] != names[j] by {}
}

pub proof fn lemma_shows_failure(x: FailureBuilder)
    ensures
        shows_failure(x.json(), x),
{
    lemma_failure_names();
    let names = seq!["message"@, "error_type"@, "backtrace"@, "retry_at"@, "kill"@];
    let values: Seq<Option<Json>> = seq![
        Some(Json::Str(x.message@)),
        opt_str(opt_text(x.error_type)),
        opt_str(opt_text(x.backtrace)),
        opt_int(opt_i64(x.retry_at_ms)),
        if x.kill {
            Some(Json::Bool(true))
        } else {
            None
        },
    ];
    reveal_with_fuel(built, 6);
    assert(x.json()->Obj_0 =~= built(names, values, 5));
    lemma_built(names, values);
    assert(names[0] == "message"@);
    assert(names[1] == "error_type"@);
    assert(names[2] == "backtrace"@);
    assert(names[3] == "retry_at"@);
    assert(names[4] == "kill"@);
    assert forall|name: Seq<char>| #[trigger] get(x.json(),
        name) is Some implies names.contains(name) by {
        assert(names.contains(name) || !names.contains(name));
    }
}

pub proof fn lemma_shows_retention_patch(x: RetentionPatch)
    ensures
        shows_retention_patch(x.json(), x),
{
    lemma_retention_names();
    let names = seq!["completed_ms"@, "dead_ms"@];
    let values: Seq<Option<Json>> = seq![
        patch_value(field_u64(x.completed_ms)),
        patch_value(field_u64(x.dead_ms)),
    ];
    reveal_with_fuel(built, 3);
    assert(x.json()->Obj_0 =~= built(names, values, 2));
    lemma_built(names, values);
    assert(names[0] == "completed_ms"@);
    assert(names[1] == "dead_ms"@);
    assert forall|name: Seq<char>| #[trigger] get(x.json(),
        name) is Some implies names.contains(name) by {
        assert(names.contains(name) || !names.contains(name));
    }
}

proof fn lemma_patch_names()
    ensures
        seq!["queue"@, "priority"@, "ready_at"@, "retry_limit"@, "backoff"@,
            "retention"@].no_duplicates(),
{
    reveal_strlit("queue");
    reveal_strlit("priority");
    reveal_strlit("ready_at");
    reveal_strlit("retry_limit");
    reveal_strlit("backoff");
    reveal_strlit("retention");
    let names = seq!["queue"@, "priority"@, "ready_at"@, "retry_limit"@, "backoff"@, "retention"@];
    assert("queue"@.len() == 5);
    assert("priority"@.len() == 8);
    assert("ready_at"@.len() == 8);
    assert("retry_limit"@.len() == 11);
    assert("backoff"@.len() == 7);
    assert("retention"@.len() == 9);
    assert("priority"@[0] == 'p' && "ready_at"@[0] == 'r');
    assert forall|i: int, j: int|
        0 <= i < names.len() && 0 <= j < names.len() && i != j implies names[i] != names[j] by {}
}

pub proof fn lemma_shows_patch(x: JobPatch)
    ensures
        shows_patch(x.json(), x),
{
    if let Field::Replace(b) = x.backoff {
        lemma_shows_backoff(b);
    }
    if let Field::Replace(r) = x.retention {
        lemma_shows_retention_patch(r);
    }
    lemma_patch_names();
    let names = seq!["queue"@, "priority"@, "ready_at"@, "retry_limit"@, "backoff"@, "retention"@];
    let values: Seq<Option<Json>> = seq![
        patch_value(field_text(x.queue)),
        patch_value(field_u16(x.priority)),
        patch_value(field_u64(x.ready_at)),
        patch_value(field_u32(x.retry_limit)),
        patch_value(field_backoff(x.backoff)),
        patch_value(field_retention(x.retention)),
    ];
    reveal_with_fuel(built, 7);
    assert(x.json()->Obj_0 =~= built(names, values, 6));
    lemma_built(names, values);
    assert(names[0] == "queue"@);
    assert(names[1] == "priority"@);
    assert(names[2] == "ready_at"@);
    assert(names[3] == "retry_limit"@);
    assert(names[4] == "backoff"@);
    assert(names[5] == "retention"@);
    assert forall|name: Seq<char>| #[trigger] get(x.json(),
        name) is Some implies names.contains(name) by {
        assert(names.contains(name) || !names.contains(name));
    }
}

pub proof fn lemma_shows_strategy_patch(x: StrategyPatch)
    ensures
        shows_strategy_patch(x.json(), x),
{
    lemma_strategy_names();
    let names = seq!["type"@, "duration_ms"@, "burst"@];
    let values: Seq<Option<Json>> = seq![
        patch_value(field_text(x.kind)),
        patch_value(field_u64(x.duration_ms)),
        patch_value(field_u32(x.burst)),
    ];
    reveal_with_fuel(built, 4);
    assert(x.json()->Obj_0 =~= built(names, values, 3));
    lemma_built(names, values);
    assert(names[0] == "type"@);
    assert(names[1] == "duration_ms"@);
    assert(names[2] == "burst"@);
    assert forall|name: Seq<char>| #[trigger] get(x.json(),
        name) is Some implies names.contains(name) by {
        assert(names.contains(name) || !names.contains(name));
    }
}

pub proof fn lemma_shows_budget_patch(x: BudgetPatch)
    ensures
        shows_budget_patch(x.json(), x),
{
    if let Some(s) = x.strategy {
        lemma_shows_strategy_patch(s);
    }
    lemma_policy_names();
    let names = seq!["allocation"@, "strategy"@];
    let values: Seq<Option<Json>> = seq![
        opt_int(opt_u32(x.allocation)),
        strategy_patch_json(x.strategy),
    ];
    reveal_with_fuel(built, 3);
    assert(x.json()->Obj_0 =~= built(names, values, 2));
    lemma_built(names, values);
    assert(names[0] == "allocation"@);
    assert(names[1] == "strategy"@);
    assert forall|name: Seq<char>| #[trigger] get(x.json(),
        name) is Some implies names.contains(name) by {
        assert(names.contains(name) || !names.contains(name));
    }
}

/// Every setting of a request is the one from the call site where there is
/// one, else the one from the payload or from the job type; name and payload
/// are the job's own.
pub proof fn law_request_resolves_each_setting(
    b: EnqueueBuilder,
    r: Result<EnqueueRequest, ZizqError>,
)
    requires
        call_ensures(EnqueueBuilder::into_request, (b,), r),
    ensures
        r is Ok,
        r->Ok_0.job_type == b.kind.name,
        r->Ok_0.payload == b.payload.value,
        r->Ok_0.ready_at == b.ready_at_ms,
        b.queue matches Some(queue) ==> r->Ok_0.queue == queue,
        b.queue is None ==> r->Ok_0.queue == b.kind.queue,
        b.priority is Some ==> r->Ok_0.priority == b.priority,
        b.priority is None ==> r->Ok_0.priority == b.kind.priority,
        b.retry_limit is Some ==> r->Ok_0.retry_limit == b.retry_limit,
        b.retry_limit is None ==> r->Ok_0.retry_limit == b.kind.retry_limit,
        b.backoff is Some ==> r->Ok_0.backoff == b.backoff,
        b.backoff is None ==> r->Ok_0.backoff == b.kind.backoff,
        b.retention is Some ==> r->Ok_0.retention == b.retention,
        b.retention is None ==> r->Ok_0.retention == b.kind.retention,
        b.batch is Some ==> r->Ok_0.batch == b.batch,
        b.batch is None ==> r->Ok_0.batch == b.payload.batch,
        b.unique_key matches Some(k) ==> r->Ok_0.unique_key == Some(k.key)
            && r->Ok_0.unique_while == k.scope,
        b.unique_key is None ==> (b.payload.unique_key matches Some(k) ==> r->Ok_0.unique_key
            == Some(k.key) && r->Ok_0.unique_while == k.scope),
        b.unique_key is None && b.payload.unique_key is None ==> r->Ok_0.unique_key is None
            && r->Ok_0.unique_while is None,
        b.budgets matches Some(list) ==> r->Ok_0.budgets == list,
        b.budgets is None ==> r->Ok_0.budgets == b.kind.budgets,
{
}

/// An enqueue starts with nothing overridden: a job that is enqueued as it
/// is takes every setting from its payload and its type.
pub proof fn law_plain_enqueue_uses_the_defaults(
    kind: JobKind,
    payload: Payload,
    b: EnqueueBuilder,
    r: Result<EnqueueRequest, ZizqError>,
)
    requires
        call_ensures(EnqueueBuilder::new, (kind, payload), b),
        call_ensures(EnqueueBuilder::into_request, (b,), r),
    ensures
        r matches Ok(q) && q.job_type == kind.name && q.queue == kind.queue && q.payload
            == payload.value && q.priority == kind.priority && q.ready_at is None && q.retry_limit
            == kind.retry_limit && q.backoff == kind.backoff && q.retention == kind.retention
            && q.batch == payload.batch && q.budgets == kind.budgets && (match payload.unique_key {
            Some(k) => q.unique_key == Some(k.key) && q.unique_while == k.scope,
            None => q.unique_key is None && q.unique_while is None,
        }),
{
}

/// What is set on an enqueue is what its request has, and setting one thing
/// changes nothing else.
pub proof fn law_settings_reach_the_request(
    b: EnqueueBuilder,
    queue: &str,
    priority: u16,
    retry_limit: u32,
    backoff: BackoffConfig,
    retention: RetentionConfig,
    key: UniqueKey,
    batch: BatchConfig,
    budgets: Vec<BudgetBindingInput>,
    set: EnqueueBuilder,
    r: Result<EnqueueRequest, ZizqError>,
    plain: Result<EnqueueRequest, ZizqError>,
)
    requires
        call_ensures(EnqueueBuilder::into_request, (set,), r),
        call_ensures(EnqueueBuilder::into_request, (b,), plain),
    ensures
        call_ensures(EnqueueBuilder::queue, (b, queue), set) ==> r->Ok_0.queue@ == queue@ && r->Ok_0
            == (EnqueueRequest { queue: r->Ok_0.queue, ..plain->Ok_0 }),
        call_ensures(EnqueueBuilder::priority, (b, priority), set) ==> r->Ok_0 == (EnqueueRequest {
            priority: Some(priority),
            ..plain->Ok_0
        }),
        call_ensures(EnqueueBuilder::retry_limit, (b, retry_limit), set) ==> r->Ok_0 == (
        EnqueueRequest { retry_limit: Some(retry_limit), ..plain->Ok_0 }),
        call_ensures(EnqueueBuilder::backoff, (b, backoff), set) ==> r->Ok_0 == (EnqueueRequest {
            backoff: Some(backoff),
            ..plain->Ok_0
        }),
        call_ensures(EnqueueBuilder::retention, (b, retention), set) ==> r->Ok_0 == (
        EnqueueRequest { retention: Some(retention), ..plain->Ok_0 }),
        call_ensures(EnqueueBuilder::unique_key, (b, key), set) ==> r->Ok_0 == (EnqueueRequest {
            unique_key: Some(key.key),
            unique_while: key.scope,
            ..plain->Ok_0
        }),
        call_ensures(EnqueueBuilder::batch, (b, batch), set) ==> r->Ok_0 == (EnqueueRequest {
            batch: Some(batch),
            ..plain->Ok_0
        }),
        call_ensures(EnqueueBuilder::budgets, (b, budgets), set) ==> r->Ok_0 == (EnqueueRequest {
            budgets,
            ..plain->Ok_0
        }),
        call_ensures(EnqueueBuilder::clear_budgets, (b,), set) ==> r->Ok_0.budgets@.len() == 0
            && r->Ok_0 == (EnqueueRequest { budgets: r->Ok_0.budgets, ..plain->Ok_0 }),
{
}

/// Budgets that are added one by one are all bound, in the order in which
/// they were added; the first replaces those of the job type.
pub proof fn law_budgets_are_added_in_order(
    b: EnqueueBuilder,
    first: BudgetBindingInput,
    second: BudgetBindingInput,
    one: EnqueueBuilder,
    two: EnqueueBuilder,
    r: Result<EnqueueRequest, ZizqError>,
)
    requires
        b.budgets is None,
        call_ensures(EnqueueBuilder::budget, (b, first), one),
        call_ensures(EnqueueBuilder::budget, (one, second), two),
        call_ensures(EnqueueBuilder::into_request, (two,), r),
    ensures
        r matches Ok(q) && q.budgets@ == seq![first, second],
{
    assert(seq![first].push(second) =~= seq![first, second]);
}

/// A job becomes ready at the millisecond of the time that was given: that
/// of the epoch plus what passed since, cut toward the epoch.
pub proof fn law_ready_time_is_sent_in_milliseconds(
    b: EnqueueBuilder,
    time: Timestamp,
    set: EnqueueBuilder,
    r: Result<EnqueueRequest, ZizqError>,
)
    requires
        time.wf(),
        call_ensures(EnqueueBuilder::ready_at, (b, time), set) || call_ensures(
            EnqueueBuilder::run_at,
            (b, time),
            set,
        ),
        call_ensures(EnqueueBuilder::into_request, (set,), r),
    ensures
        r matches Ok(q) && (q.ready_at matches Some(ms) && {
            &&& time.nanos >= 0 ==> ms * 1_000_000 <= time.nanos < (ms + 1) * 1_000_000
            &&& time.nanos < 0 ==> (ms - 1) * 1_000_000 < time.nanos <= ms * 1_000_000
        }),
{
}

/// A delay counts from the time that it is given from; a delay past the end
/// of time is refused.
pub proof fn law_delay_counts_from_now(
    b: EnqueueBuilder,
    now: Timestamp,
    delay: Duration,
    set: Option<EnqueueBuilder>,
)
    requires
        now.in_utc(),
        call_ensures(EnqueueBuilder::delay_at, (b, now, delay), set),
    ensures
        set is Some == (now.nanos + delay.nanos <= 253_402_300_799_999_999_999),
        set matches Some(s) ==> (s.ready_at_ms matches Some(ms) && (now.nanos + delay.nanos >= 0
            ==> ms * 1_000_000 <= now.nanos + delay.nanos < (ms + 1) * 1_000_000)),
        set matches Some(s) ==> s == (EnqueueBuilder { ready_at_ms: s.ready_at_ms, ..b }),
{
}

/// The body of an enqueue shows each setting under its own name, and leaves
/// out what is not set.
pub proof fn law_enqueue_body_shows_the_request(q: EnqueueRequest, r: Value)
    requires
        call_ensures(EnqueueRequest::to_value, (&q,), r),
    ensures
        shows_request(r@, q),
{
    lemma_shows_request(q);
}

/// An enqueue is posted to the jobs.
pub proof fn law_enqueue_is_posted(q: EnqueueRequest, r: Request)
    requires
        call_ensures(EnqueueRequest::request, (&q,), r),
    ensures
        sends(r, Method::Post, seq!["jobs"@]),
        r.query@.len() == 0,
        r.body matches Some(v) && shows_request(v@, q),
{
    lemma_shows_request(q);
    lemma_sends(r);
}

/// A bulk enqueue sends every job that was added, in the order in which it
/// was added.
pub proof fn law_bulk_enqueue_sends_every_job(
    b: BulkEnqueueBuilder,
    r: Result<Request, ZizqError>,
)
    requires
        call_ensures(BulkEnqueueBuilder::request, (b,), r),
    ensures
        b.state matches Ok(list) ==> (r matches Ok(request) && {
            &&& sends(request, Method::Post, seq!["jobs"@, "bulk"@])
            &&& request.query@.len() == 0
            &&& request.body matches Some(v) && only(v@, seq!["jobs"@]) && (get(v@, "jobs"@)
                matches Some(Json::Arr(items)) && items.len() == list@.len() && forall|i: int|
                0 <= i < items.len() ==> shows_request(#[trigger] items[i], list@[i]))
        }),
        b.state matches Err(e) ==> r == Err::<Request, ZizqError>(e),
{
    if let Ok(list) = b.state {
        let request = r->Ok_0;
        lemma_sends(request);
        lemma_one_field("jobs"@, jobs_json(list@));
        let items = jobs_json(list@)->Arr_0;
        assert forall|i: int| 0 <= i < items.len() implies shows_request(
            #[trigger] items[i],
            list@[i],
        ) by {
            lemma_shows_request(list@[i]);
        }
    }
}

/// Jobs that are added to a bulk enqueue come behind those before them, as
/// the requests that they resolve to on their own.
pub proof fn law_bulk_enqueue_adds_at_the_end(
    b: BulkEnqueueBuilder,
    job: EnqueueBuilder,
    r: BulkEnqueueBuilder,
    alone: Result<EnqueueRequest, ZizqError>,
)
    requires
        b.state is Ok,
        call_ensures(BulkEnqueueBuilder::add, (b, job), r),
        call_ensures(EnqueueBuilder::into_request, (job,), alone),
    ensures
        r.state matches Ok(list) && list@ == b.state->Ok_0@.push(alone->Ok_0),
{
}

/// [`law_bulk_enqueue_adds_at_the_end`] for jobs that are pushed.
pub proof fn law_bulk_enqueue_pushes_at_the_end(
    b: &mut BulkEnqueueBuilder,
    job: EnqueueBuilder,
    alone: Result<EnqueueRequest, ZizqError>,
)
    requires
        old(b).state is Ok,
        call_ensures(BulkEnqueueBuilder::push, (b, job), ()),
        call_ensures(EnqueueBuilder::into_request, (job,), alone),
    ensures
        final(b).state matches Ok(list) && list@ == old(b).state->Ok_0@.push(alone->Ok_0),
{
}

/// A bulk enqueue starts empty and counts what was added.
pub proof fn law_bulk_enqueue_counts(b: BulkEnqueueBuilder, n: usize, empty: bool)
    requires
        call_ensures(BulkEnqueueBuilder::len, (&b,), n),
        call_ensures(BulkEnqueueBuilder::is_empty, (&b,), empty),
    ensures
        b.state matches Ok(list) ==> n == list@.len(),
        b.state is Err ==> n == 0,
        empty == (n == 0),
        call_ensures(BulkEnqueueBuilder::new, (), b) ==> b.state is Ok && n == 0,
{
}

/// A failure report says what was set on it, and goes to its job.
pub proof fn law_failure_report_shows_the_failure(b: FailureBuilder, r: Request)
    requires
        call_ensures(FailureBuilder::request, (&b,), r),
    ensures
        sends(r, Method::Post, seq!["jobs"@, b.job_id@, "failure"@]),
        r.query@.len() == 0,
        r.body matches Some(v) && shows_failure(v@, b),
{
    lemma_shows_failure(b);
    lemma_sends(r);
}

/// What is set on a failure report is what it has, and setting one thing
/// changes nothing else.
pub proof fn law_failure_settings(
    b: FailureBuilder,
    text: &str,
    time: Timestamp,
    set: FailureBuilder,
)
    requires
        time.wf(),
    ensures
        call_ensures(FailureBuilder::error_type, (b, text), set) ==> (set.error_type matches Some(t)
            && t@ == text@) && set == (FailureBuilder { error_type: set.error_type, ..b }),
        call_ensures(FailureBuilder::backtrace, (b, text), set) ==> (set.backtrace matches Some(t)
            && t@ == text@) && set == (FailureBuilder { backtrace: set.backtrace, ..b }),
        call_ensures(FailureBuilder::kill, (b,), set) ==> set == (FailureBuilder { kill: true,
            ..b }),
        call_ensures(FailureBuilder::retry_at, (b, time), set) ==> (set.retry_at_ms matches Some(ms)
            && (time.nanos >= 0 ==> ms * 1_000_000 <= time.nanos < (ms + 1) * 1_000_000) && (
        time.nanos < 0 ==> (ms - 1) * 1_000_000 < time.nanos <= ms * 1_000_000)) && set == (
        FailureBuilder { retry_at_ms: set.retry_at_ms, ..b }),
{
}

/// A fresh failure report has the job and the message it was made for, and
/// nothing else.
pub proof fn law_failure_report_starts_bare(job_id: &str, message: &str, b: FailureBuilder)
    requires
        call_ensures(FailureBuilder::new, (job_id, message), b),
    ensures
        b.job_id@ == job_id@,
        b.message@ == message@,
        b.error_type is None,
        b.backtrace is None,
        b.retry_at_ms is None,
        !b.kill,
{
}

/// A retry delay counts from the time that it is given from.
pub proof fn law_retry_delay_counts_from_now(
    b: FailureBuilder,
    now: Timestamp,
    delay: Duration,
    set: Option<FailureBuilder>,
)
    requires
        now.in_utc(),
        call_ensures(FailureBuilder::retry_in_at, (b, now, delay), set),
    ensures
        set is Some == (now.nanos + delay.nanos <= 253_402_300_799_999_999_999),
        set matches Some(s) ==> (s.retry_at_ms matches Some(ms) && (now.nanos + delay.nanos >= 0
            ==> ms * 1_000_000 <= now.nanos + delay.nanos < (ms + 1) * 1_000_000)),
        set matches Some(s) ==> s == (FailureBuilder { retry_at_ms: s.retry_at_ms, ..b }),
{
}

/// Replacing a cron group sends every entry that was collected, in order,
/// each with its own name, schedule and job.
pub proof fn law_cron_group_sends_every_entry(
    b: ReplaceCronBuilder,
    r: Result<Request, ZizqError>,
)
    requires
        call_ensures(ReplaceCronBuilder::request, (b,), r),
    ensures
        b.entries matches Ok(list) ==> (r matches Ok(request) && {
            &&& sends(request, Method::Put, seq!["crons"@, b.name@])
            &&& request.query@.len() == 0
            &&& request.body matches Some(v) && only(v@, seq!["paused"@, "entries"@]) && get(
                v@,
                "paused"@,
            ) == (match b.paused {
                Some(p) => Some(Json::Bool(p)),
                None => None,
            }) && (get(v@, "entries"@) matches Some(Json::Arr(items)) && items.len() == list@.len()
                && forall|i: int|
                0 <= i < items.len() ==> shows_entry(#[trigger] items[i], list@[i]))
        }),
        b.entries matches Err(e) ==> r == Err::<Request, ZizqError>(e),
{
    if let Ok(list) = b.entries {
        let request = r->Ok_0;
        lemma_sends(request);
        lemma_group_names();
        let names = seq!["paused"@, "entries"@];
        let values: Seq<Option<Json>> = seq![opt_flag(b.paused), Some(entries_json(list@))];
        let v = group_json(b.paused, list@);
        reveal_with_fuel(built, 3);
        assert(v->Obj_0 =~= built(names, values, 2));
        lemma_built(names, values);
        assert(names[0] == "paused"@);
        assert(names[1] == "entries"@);
        assert forall|name: Seq<char>| #[trigger] get(v, name) is Some implies names.contains(
            name,
        ) by {
            assert(names.contains(name) || !names.contains(name));
        }
        let items = entries_json(list@)->Arr_0;
        assert forall|i: int| 0 <= i < items.len() implies shows_entry(
            #[trigger] items[i],
            list@[i],
        ) by {
            lemma_shows_entry(list@[i]);
        }
    }
}

proof fn lemma_group_names()
    ensures
        seq!["paused"@, "entries"@].no_duplicates(),
{
    reveal_strlit("paused");
    reveal_strlit("entries");
    let names = seq!["paused"@, "entries"@];
    assert("paused"@.len() == 6);
    assert("entries"@.len() == 7);
    assert forall|i: int, j: int|
        0 <= i < names.len() && 0 <= j < names.len() && i != j implies names[i] != names[j] by {}
}

/// An entry that is added to a cron group comes behind those before it, with
/// its own name, schedule and job; one whose job failed makes the whole
/// replacement fail.
pub proof fn law_cron_group_adds_at_the_end(
    b: ReplaceCronBuilder,
    entry: CronEntry,
    r: ReplaceCronBuilder,
)
    requires
        call_ensures(ReplaceCronBuilder::entry, (b, entry), r),
    ensures
        r.name == b.name,
        r.paused == b.paused,
        b.entries matches Ok(list) ==> (entry.job matches Ok(job) ==> (r.entries matches Ok(after)
            && after@.len() == list@.len() + 1 && after@.take(list@.len() as int) == list@
            && after@.last().name == entry.name && after@.last().expression == entry.expression
            && after@.last().timezone == entry.timezone && after@.last().paused == entry.paused
            && after@.last().job == job)),
        b.entries is Ok ==> (entry.job matches Err(e) ==> r.entries == Err::<
            Vec<CronEntryBody>,
            ZizqError,
        >(e)),
        b.entries is Err ==> r.entries == b.entries,
{
    if let Ok(list) = b.entries {
        if let Ok(job) = entry.job {
            let after = r.entries->Ok_0@;
            assert(after.take(list@.len() as int) =~= list@);
        }
    }
}

/// A cron entry is made of the name, the schedule and the job that it is
/// given; its time zone and pause are set by themselves.
pub proof fn law_cron_entry_is_what_was_given(
    name: &str,
    expression: &str,
    job: EnqueueBuilder,
    alone: Result<EnqueueRequest, ZizqError>,
    e: CronEntry,
    zone: &str,
    paused: bool,
    set: CronEntry,
)
    requires
        call_ensures(CronEntry::new, (name, expression, job), e),
        call_ensures(EnqueueBuilder::into_request, (job,), alone),
    ensures
        e.name@ == name@,
        e.expression@ == expression@,
        e.timezone is None,
        e.paused is None,
        e.job == alone,
        call_ensures(CronEntry::timezone, (e, zone), set) ==> (set.timezone matches Some(z) && z@
            == zone@) && set == (CronEntry { timezone: set.timezone, ..e }),
        call_ensures(CronEntry::paused, (e, paused), set) ==> set == (CronEntry {
            paused: Some(paused),
            ..e
        }),
{
}

/// A cron group starts without entries, under its name; pausing it changes
/// nothing else.
pub proof fn law_cron_group_starts_empty(
    name: &str,
    paused: bool,
    b: ReplaceCronBuilder,
    set: ReplaceCronBuilder,
)
    requires
        call_ensures(ReplaceCronBuilder::new, (name,), b),
        call_ensures(ReplaceCronBuilder::paused, (b, paused), set),
    ensures
        b.name@ == name@,
        b.paused is None,
        b.entries matches Ok(list) && list@.len() == 0,
        set == (ReplaceCronBuilder { paused: Some(paused), ..b }),
{
}

/// A patch of a job says of each field what was asked for: nothing where it
/// is kept, null where it is cleared, its value where it is set.
pub proof fn law_patch_body_shows_the_changes(p: JobPatch, r: Value)
    requires
        call_ensures(JobPatch::to_value, (&p,), r),
    ensures
        shows_patch(r@, p),
{
    lemma_shows_patch(p);
}

/// A patch of a retention says of each field what was asked for.
pub proof fn law_retention_patch_shows_the_changes(p: RetentionPatch, r: Value)
    requires
        call_ensures(RetentionPatch::to_value, (&p,), r),
    ensures
        shows_retention_patch(r@, p),
{
    lemma_shows_retention_patch(p);
}

/// A patch of a budget says of each field what was asked for.
pub proof fn law_budget_patch_shows_the_changes(p: BudgetPatch, r: Value)
    requires
        call_ensures(BudgetPatch::to_value, (&p,), r),
    ensures
        shows_budget_patch(r@, p),
{
    lemma_shows_budget_patch(p);
}

/// A policy, a binding and a strategy are sent as they are.
pub proof fn law_budget_bodies_show_what_was_given(
    policy: BudgetPolicy,
    binding: BudgetBindingInput,
    strategy: BudgetStrategy,
    list: Vec<BudgetBindingInput>,
    r: Value,
)
    ensures
        call_ensures(BudgetPolicy::to_value, (&policy,), r) ==> shows_policy(r@, policy),
        call_ensures(BudgetBindingInput::to_value, (&binding,), r) ==> shows_binding(r@, binding),
        call_ensures(BudgetStrategy::to_value, (&strategy,), r) ==> shows_strategy(r@, strategy),
        call_ensures(bindings_value, (&list,), r) ==> shows_bindings(r@, list@),
        call_ensures(binding_value, (&binding,), r) ==> shows_terms(r@, binding) && only(
            r@,
            seq!["cost"@, "create_with"@],
        ),
{
    lemma_shows_policy(policy);
    lemma_shows_binding(binding);
    lemma_shows_strategy(strategy);
    lemma_shows_bindings(list@);
    lemma_shows_body(binding);
}

proof fn lemma_terms_names()
    ensures
        seq!["cost"@, "create_with"@].no_duplicates(),
{
    reveal_strlit("cost");
    reveal_strlit("create_with");
    let names = seq!["cost"@, "create_with"@];
    assert("cost"@.len() == 4);
    assert("create_with"@.len() == 11);
    assert forall|i: int, j: int|
        0 <= i < names.len() && 0 <= j < names.len() && i != j implies names[i] != names[j] by {}
}

/// What a binding says beyond its key, on its own.
pub proof fn lemma_shows_body(x: BudgetBindingInput)
    ensures
        shows_terms(binding_body(x), x),
        only(binding_body(x), seq!["cost"@, "create_with"@]),
{
    if let Some(p) = x.create_with {
        lemma_shows_policy(p);
    }
    lemma_terms_names();
    let names = seq!["cost"@, "create_with"@];
    let values: Seq<Option<Json>> = seq![opt_int(opt_u32(x.cost)), policy_json(x.create_with)];
    let v = binding_body(x);
    reveal_with_fuel(built, 3);
    assert(v->Obj_0 =~= built(names, values, 2));
    lemma_built(names, values);
    assert(names[0] == "cost"@);
    assert(names[1] == "create_with"@);
    assert forall|name: Seq<char>| #[trigger] get(v, name) is Some implies names.contains(name) by {
        assert(names.contains(name) || !names.contains(name));
    }
}

/// Backoffs, retentions and batches are sent as they are.
pub proof fn law_settings_are_sent_as_they_are(
    backoff: BackoffConfig,
    retention: RetentionConfig,
    batch: BatchConfig,
    r: Value,
)
    ensures
        call_ensures(BackoffConfig::to_value, (&backoff,), r) ==> shows_backoff(r@, backoff),
        call_ensures(RetentionConfig::to_value, (&retention,), r) ==> shows_retention(
            r@,
            retention,
        ),
        call_ensures(BatchConfig::to_value, (&batch,), r) ==> shows_batch(r@, batch),
{
    lemma_shows_backoff(backoff);
    lemma_shows_retention(retention);
    lemma_shows_batch(batch);
}

/// Whether a request goes to the path made of `path`, by `method`.
pub open spec fn sends(r: Request, method: Method, path: Seq<Seq<char>>) -> bool {
    r.method == method && r.segments@.len() == path.len() && forall|i: int|
        0 <= i < path.len() ==> (#[trigger] r.segments@[i])@ == path[i]
}

/// What the model of a request says of its parts.
pub proof fn lemma_sends(r: Request)
    ensures
        sends(r, r@.method, r@.segments),
        r@.query.len() == r.query@.len(),
        r@.body is Some == r.body is Some,
        r.body matches Some(v) ==> r@.body == Some(v@),
{
    assert forall|i: int| 0 <= i < r@.segments.len() implies (#[trigger] r.segments@[i])@
        == r@.segments[i] by {
        assert(texts(r.segments@)[i] == r.segments@[i]@);
    }
}

/// An object with one field.
pub proof fn lemma_one_field(name: Seq<char>, v: Json)
    ensures
        get(Json::Obj(field(name, v)), name) == Some(v),
        only(Json::Obj(field(name, v)), seq![name]),
{
    let names = seq![name];
    let values: Seq<Option<Json>> = seq![Some(v)];
    reveal_with_fuel(built, 2);
    assert(field(name, v) =~= built(names, values, 1));
    lemma_built(names, values);
    assert(names[0] == name);
    let o = Json::Obj(field(name, v));
    assert forall|other: Seq<char>| #[trigger] get(o, other) is Some implies names.contains(
        other,
    ) by {
        assert(names.contains(other) || !names.contains(other));
    }
}

} // verus!
