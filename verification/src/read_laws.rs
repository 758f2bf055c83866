//! What is read: each field of a record is what the server sent under that
//! field's name, or at its place where it sent an array.

use vstd::prelude::*;
use vstd::string::*;
use crate::batch::{batch_fields, batch_of, BatchConfig};
use crate::budget::{
    binding_fields, budget_fields, change_fields, change_of, wire_fields, binding_of,
        binding_views, bindings_of, budget_views, budgets_of, is_bindings, read_bindings,
            read_budgets,
    Budget, BudgetBinding, BudgetChange, BudgetModel, BudgetStrategy, Wire,
};
use crate::bulk_enqueue::BulkEnqueueBuilder;
use crate::count_jobs::CountJobsBuilder;
use crate::client::read_error;
use crate::cron::{
    entries_read, entry_fields, group_fields, is_entries, is_entry, is_group, is_template,
    template_fields, CronEntryRecord, CronGroup, JobTemplate,
};
use crate::decode::{as_variant, get, record, text_list};
use crate::delete_jobs::DeleteJobsBuilder;
use crate::jobs::{
    backoff_fields, backoff_of, is_job, job_fields, read_as, read_backoff, read_retention,
        retention_fields, retention_of, Job,
    JobFromApi,
};
use crate::json::{lemma_position_is, lookup, Json, Number, Value};
use crate::list_errors::{is_record, ErrorPage, ErrorRecord};
use crate::list_jobs::{
    is_jobs, is_links, jobs_read, link_fields, links_read, page_fields, read_jobs, read_links,
    JobPage,
};
use crate::patch_jobs::PatchJobsBuilder;
use crate::resources::{BackoffConfig, JobStatus, PageLinks, RetentionConfig};
use crate::text::texts;
use crate::unique_key::UniqueScope;

verus! {

/// The field `name` of a record: an object has it by name, an array at
/// position `k`. An array that is too short to reach it does not have it.
pub open spec fn part(v: Json, name: Seq<char>, k: int) -> Option<Json> {
    match v {
        Json::Arr(items) => if 0 <= k < items.len() {
            Some(items[k])
        } else {
            None
        },
        Json::Obj(entries) => lookup(entries, name),
        _ => None,
    }
}

/// Whether `v` can be a record: an object, or an array of `least` to `most`
/// items.
pub open spec fn has_room(v: Json, least: int, most: int) -> bool {
    v is Obj || (v matches Json::Arr(items) && least <= items.len() <= most)
}

/// Whether `f` is the text `s`.
pub open spec fn text_is(f: Option<Json>, s: Seq<char>) -> bool {
    f == Some(Json::Str(s))
}

/// Whether `f` is the integer `n`.
pub open spec fn int_is(f: Option<Json>, n: int) -> bool {
    f == Some(Json::Int(n))
}

/// Whether `f` is the text that `x` holds, missing or null where `x` holds
/// none.
pub open spec fn opt_text_is(f: Option<Json>, x: Option<String>) -> bool {
    match x {
        Some(s) => f == Some(Json::Str(s@)),
        None => f is None || f == Some(Json::Null),
    }
}

/// Whether `f` is the integer that `x` holds, missing or null where `x`
/// holds none.
pub open spec fn opt_int_is(f: Option<Json>, x: Option<int>) -> bool {
    match x {
        Some(n) => f == Some(Json::Int(n)),
        None => f is None || f == Some(Json::Null),
    }
}

/// Whether `f` is the flag that `x` holds, missing or null where `x` holds
/// none.
pub open spec fn opt_bool_is(f: Option<Json>, x: Option<bool>) -> bool {
    match x {
        Some(b) => f == Some(Json::Bool(b)),
        None => f is None || f == Some(Json::Null),
    }
}

/// An optional number as an integer.
pub open spec fn of_u64(x: Option<u64>) -> Option<int> {
    match x {
        Some(n) => Some(n as int),
        None => None,
    }
}

/// An optional number as an integer.
pub open spec fn of_u32(x: Option<u32>) -> Option<int> {
    match x {
        Some(n) => Some(n as int),
        None => None,
    }
}

/// An optional number as an integer.
pub open spec fn of_u16(x: Option<u16>) -> Option<int> {
    match x {
        Some(n) => Some(n as int),
        None => None,
    }
}

/// An optional number as an integer.
pub open spec fn of_i64(x: Option<i64>) -> Option<int> {
    match x {
        Some(n) => Some(n as int),
        None => None,
    }
}

/// Whether `f` names the variant `word`: as a string, or as the only key of
/// an object with null behind it.
pub open spec fn word_is(f: Json, word: Seq<char>) -> bool {
    f == Json::Str(word) || (f matches Json::Obj(entries) && entries.len() == 1 && entries[0] == (
        word,
        Json::Null,
    ))
}

/// Whether `f` names the status `s`; a status is unknown exactly where its
/// name is none of the others'.
pub open spec fn status_is(f: Json, s: JobStatus) -> bool {
    exists|word: Seq<char>| #[trigger]
        word_is(f, word) && {
            &&& s == JobStatus::Ready <==> word == "ready"@
            &&& s == JobStatus::InFlight <==> word == "in_flight"@
            &&& s == JobStatus::Scheduled <==> word == "scheduled"@
            &&& s == JobStatus::Completed <==> word == "completed"@
            &&& s == JobStatus::Dead <==> word == "dead"@
        }
}

/// Whether `f` names the scope `s`; a scope is unknown exactly where its
/// name is none of the others'.
pub open spec fn scope_is(f: Json, s: UniqueScope) -> bool {
    exists|word: Seq<char>| #[trigger]
        word_is(f, word) && {
            &&& s == UniqueScope::Queued <==> word == "queued"@
            &&& s == UniqueScope::Active <==> word == "active"@
            &&& s == UniqueScope::Exists <==> word == "exists"@
        }
}

/// Whether `f` is the number `n`.
pub open spec fn number_is(f: Option<Json>, n: Number) -> bool {
    match n {
        Number::PosInt(n) => f == Some(Json::Int(n as int)),
        Number::NegInt(n) => f == Some(Json::Int(n as int)),
        Number::Float(t) => f == Some(Json::Float(t@)),
    }
}

/// Whether `v` holds the backoff `b`.
pub open spec fn backoff_is(v: Json, b: BackoffConfig) -> bool {
    &&& has_room(v, 3, 3)
    &&& int_is(part(v, "base_ms"@, 0), b.base_ms as int)
    &&& number_is(part(v, "exponent"@, 1), b.exponent)
    &&& int_is(part(v, "jitter_ms"@, 2), b.jitter_ms as int)
}

/// Whether `v` holds the retention `r`.
pub open spec fn retention_is(v: Json, r: RetentionConfig) -> bool {
    &&& has_room(v, 0, 2)
    &&& opt_int_is(part(v, "completed_ms"@, 0), of_u64(r.completed_ms))
    &&& opt_int_is(part(v, "dead_ms"@, 1), of_u64(r.dead_ms))
}

/// Whether `v` holds the batch configuration `b`.
pub open spec fn batch_is(v: Json, b: BatchConfig) -> bool {
    &&& has_room(v, 3, 3)
    &&& text_is(part(v, "key"@, 0), b.key@)
    &&& text_is(part(v, "when"@, 1), b.when@)
    &&& text_is(part(v, "fold"@, 2), b.fold@)
}

/// Whether `v` holds the binding `b`.
pub open spec fn binding_is(v: Json, b: BudgetBinding) -> bool {
    &&& has_room(v, 2, 2)
    &&& text_is(part(v, "key"@, 0), b.key@)
    &&& int_is(part(v, "cost"@, 1), b.cost as int)
}

/// Whether `v` holds the bindings `list`, in order.
pub open spec fn bindings_are(v: Json, list: Seq<BudgetBinding>) -> bool {
    v matches Json::Arr(items) && items.len() == list.len() && forall|i: int|
        0 <= i < items.len() ==> binding_is(#[trigger] items[i], list[i])
}

/// Whether `v` holds the job `j`.
pub open spec fn job_is(v: Json, j: Job) -> bool {
    &&& has_room(v, 8, 18)
    &&& text_is(part(v, "id"@, 0), j.id@)
    &&& text_is(part(v, "type"@, 1), j.job_type@)
    &&& text_is(part(v, "queue"@, 2), j.queue@)
    &&& part(v, "status"@, 3) matches Some(f) && status_is(f, j.status)
    &&& int_is(part(v, "priority"@, 4), j.priority as int)
    &&& match j.payload {
        Some(p) => part(v, "payload"@, 5) == Some(p@),
        None => part(v, "payload"@, 5) is None || part(v, "payload"@, 5) == Some(Json::Null),
    }
    &&& int_is(part(v, "ready_at"@, 6), j.ready_at as int)
    &&& int_is(part(v, "attempts"@, 7), j.attempts as int)
    &&& opt_int_is(part(v, "retry_limit"@, 8), of_u32(j.retry_limit))
    &&& match j.backoff {
        Some(b) => part(v, "backoff"@, 9) matches Some(f) && backoff_is(f, b),
        None => part(v, "backoff"@, 9) is None || part(v, "backoff"@, 9) == Some(Json::Null),
    }
    &&& opt_int_is(part(v, "dequeued_at"@, 10), of_i64(j.dequeued_at))
    &&& opt_int_is(part(v, "failed_at"@, 11), of_i64(j.failed_at))
    &&& opt_int_is(part(v, "completed_at"@, 12), of_i64(j.completed_at))
    &&& match j.retention {
        Some(r) => part(v, "retention"@, 13) matches Some(f) && retention_is(f, r),
        None => part(v, "retention"@, 13) is None || part(v, "retention"@, 13) == Some(Json::Null),
    }
    &&& opt_int_is(part(v, "purge_at"@, 14), of_i64(j.purge_at))
    &&& match j.unique_key {
        Some(k) => text_is(part(v, "unique_key"@, 15), k.key@) && (match k.scope {
            Some(s) => part(v, "unique_while"@, 16) matches Some(f) && scope_is(f, s),
            None => part(v, "unique_while"@, 16) is None || part(v, "unique_while"@, 16) == Some(
                Json::Null,
            ),
        }),
        None => part(v, "unique_key"@, 15) is None || part(v, "unique_key"@, 15) == Some(
            Json::Null,
        ),
    }
    &&& opt_bool_is(part(v, "duplicate"@, 17), j.duplicate)
    &&& opt_bool_is(part(v, "folded"@, -1), j.folded)
    &&& match j.batch {
        Some(b) => part(v, "batch"@, -1) matches Some(f) && batch_is(f, b),
        None => part(v, "batch"@, -1) is None || part(v, "batch"@, -1) == Some(Json::Null),
    }
    &&& match part(v, "budgets"@, -1) {
        Some(f) => bindings_are(f, j.budgets@),
        None => j.budgets@.len() == 0,
    }
}

/// Whether `f` is missing, null or an integer between `low` and `high`.
pub open spec fn opt_int_fits(f: Option<Json>, low: int, high: int) -> bool {
    f is None || f == Some(Json::Null) || (f matches Some(Json::Int(n)) && low <= n <= high)
}

/// Whether `f` is missing, null or a text.
pub open spec fn opt_text_fits(f: Option<Json>) -> bool {
    f is None || f == Some(Json::Null) || f matches Some(Json::Str(_))
}

/// Whether `f` is an integer between `low` and `high`.
pub open spec fn int_fits(f: Option<Json>, low: int, high: int) -> bool {
    f matches Some(Json::Int(n)) && low <= n <= high
}

/// Whether `f` is a text.
pub open spec fn text_fits(f: Option<Json>) -> bool {
    f matches Some(Json::Str(_))
}

/// Whether `f` names a variant.
pub open spec fn word_fits(f: Json) -> bool {
    f is Str || (f matches Json::Obj(entries) && entries.len() == 1 && entries[0].1 is Null)
}

/// The fields of a record, by name or by place.
proof fn lemma_parts(v: Json, names: Seq<Seq<char>>, least: int)
    requires
        names.no_duplicates(),
        has_room(v, least, names.len() as int),
    ensures
        forall|k: int|
            #![trigger names[k]]
            0 <= k < names.len() ==> get(record(v, names, least), names[k]) == part(v, names[k], k),
        v is Arr ==> forall|name: Seq<char>|
            !names.contains(name) ==> #[trigger] get(record(v, names, least), name) is None,
        record(v, names, least) is Obj,
{
    if let Json::Arr(items) = v {
        let entries = record(v, names, least)->Obj_0;
        assert forall|k: int| #![trigger names[k]] 0 <= k < names.len() implies get(
            record(v, names, least),
            names[k],
        ) == part(v, names[k], k) by {
            let n = if k < items.len() {
                k
            } else {
                items.len() as int
            };
            assert forall|j: int| 0 <= j < n implies (#[trigger] entries[j]).0 != names[k] by {
                assert(names[j] != names[k]);
            }
            lemma_position_is(entries, names[k], n);
        }
        assert forall|name: Seq<char>| !names.contains(name) implies #[trigger] get(
            record(v, names, least),
            name,
        ) is None by {
            assert forall|j: int| 0 <= j < entries.len() implies (#[trigger] entries[j]).0 != name by {
                assert(names.contains(names[j]));
            }
            lemma_position_is(entries, name, entries.len() as int);
        }
    }
}

/// A value that cannot be a record has no fields.
proof fn lemma_no_room(v: Json, names: Seq<Seq<char>>, least: int, name: Seq<char>)
    requires
        !has_room(v, least, names.len() as int),
    ensures
        get(record(v, names, least), name) is None,
        !(record(v, names, least) is Obj),
{
}

proof fn lemma_variant(f: Json)
    ensures
        as_variant(f) is Some == word_fits(f),
        as_variant(f) matches Some(w) ==> word_is(f, w),
{
}

proof fn lemma_status_words(word: Seq<char>)
    ensures
        JobStatus::named(word) == JobStatus::Ready <==> word == "ready"@,
        JobStatus::named(word) == JobStatus::InFlight <==> word == "in_flight"@,
        JobStatus::named(word) == JobStatus::Scheduled <==> word == "scheduled"@,
        JobStatus::named(word) == JobStatus::Completed <==> word == "completed"@,
        JobStatus::named(word) == JobStatus::Dead <==> word == "dead"@,
{
    reveal_strlit("ready");
    reveal_strlit("in_flight");
    reveal_strlit("scheduled");
    reveal_strlit("completed");
    reveal_strlit("dead");
    assert("ready"@[0] == 'r' && "in_flight"@[0] == 'i' && "scheduled"@[0] == 's');
    assert("completed"@[0] == 'c' && "dead"@[0] == 'd');
}

proof fn lemma_scope_words(word: Seq<char>)
    ensures
        UniqueScope::named(word) == UniqueScope::Queued <==> word == "queued"@,
        UniqueScope::named(word) == UniqueScope::Active <==> word == "active"@,
        UniqueScope::named(word) == UniqueScope::Exists <==> word == "exists"@,
{
    reveal_strlit("queued");
    reveal_strlit("active");
    reveal_strlit("exists");
    assert("queued"@[0] == 'q' && "active"@[0] == 'a' && "exists"@[0] == 'e');
}

proof fn lemma_backoff_names()
    ensures
        seq!["base_ms"@, "exponent"@, "jitter_ms"@].no_duplicates(),
{
    reveal_strlit("base_ms");
    reveal_strlit("exponent");
    reveal_strlit("jitter_ms");
    let names = seq!["base_ms"@, "exponent"@, "jitter_ms"@];
    assert("base_ms"@.len() == 7);
    assert("exponent"@.len() == 8);
    assert("jitter_ms"@.len() == 9);
    assert forall|i: int, j: int|
        0 <= i < names.len() && 0 <= j < names.len() && i != j implies names[i] != names[j] by {}
}

/// Whether `v` can be read as a backoff.
pub open spec fn backoff_fits(v: Json) -> bool {
    &&& has_room(v, 3, 3)
    &&& int_fits(part(v, "base_ms"@, 0), 0, u64::MAX as int)
    &&& part(v, "exponent"@, 1) matches Some(f) && (f is Int || f is Float)
    &&& int_fits(part(v, "jitter_ms"@, 2), 0, u64::MAX as int)
}

proof fn lemma_backoff(v: Json)
    ensures
        backoff_of(v) is Some == backoff_fits(v),
        forall|b: BackoffConfig|
            backoff_of(v) == Some((b.base_ms, #[trigger] b.exponent.model(), b.jitter_ms))
                ==> backoff_is(v, b),
{
    lemma_backoff_names();
    let names = seq!["base_ms"@, "exponent"@, "jitter_ms"@];
    assert(backoff_fields() =~= names);
    assert(names[0] == "base_ms"@);
    assert(names[1] == "exponent"@);
    assert(names[2] == "jitter_ms"@);
    if has_room(v, 3, 3) {
        lemma_parts(v, names, 3);
    } else {
        assert forall|name: Seq<char>| #[trigger] get(record(v, names, 3), name) is None by {
            lemma_no_room(v, names, 3, name);
        }
    }
}

proof fn lemma_retention_names()
    ensures
        seq!["completed_ms"@, "dead_ms"@].no_duplicates(),
{
    reveal_strlit("completed_ms");
    reveal_strlit("dead_ms");
    let names = seq!["completed_ms"@, "dead_ms"@];
    assert("completed_ms"@.len() == 12);
    assert("dead_ms"@.len() == 7);
    assert forall|i: int, j: int|
        0 <= i < names.len() && 0 <= j < names.len() && i != j implies names[i] != names[j] by {}
}

/// Whether `v` can be read as a retention.
pub open spec fn retention_fits(v: Json) -> bool {
    &&& has_room(v, 0, 2)
    &&& opt_int_fits(part(v, "completed_ms"@, 0), 0, u64::MAX as int)
    &&& opt_int_fits(part(v, "dead_ms"@, 1), 0, u64::MAX as int)
}

proof fn lemma_retention(v: Json)
    ensures
        retention_of(v) is Some == retention_fits(v),
        retention_of(v) matches Some(r) ==> retention_is(v, r),
{
    lemma_retention_names();
    let names = seq!["completed_ms"@, "dead_ms"@];
    assert(retention_fields() =~= names);
    assert(names[0] == "completed_ms"@);
    assert(names[1] == "dead_ms"@);
    if has_room(v, 0, 2) {
        lemma_parts(v, names, 0);
    } else {
        assert forall|name: Seq<char>| #[trigger] get(record(v, names, 0), name) is None by {
            lemma_no_room(v, names, 0, name);
        }
    }
}

proof fn lemma_batch_names()
    ensures
        seq!["key"@, "when"@, "fold"@].no_duplicates(),
{
    reveal_strlit("key");
    reveal_strlit("when");
    reveal_strlit("fold");
    let names = seq!["key"@, "when"@, "fold"@];
    assert("key"@.len() == 3);
    assert("when"@.len() == 4);
    assert("fold"@.len() == 4);
    assert("when"@[0] == 'w' && "fold"@[0] == 'f');
    assert forall|i: int, j: int|
        0 <= i < names.len() && 0 <= j < names.len() && i != j implies names[i] != names[j] by {}
}

/// Whether `v` can be read as a batch configuration.
pub open spec fn batch_fits(v: Json) -> bool {
    &&& has_room(v, 3, 3)
    &&& text_fits(part(v, "key"@, 0))
    &&& text_fits(part(v, "when"@, 1))
    &&& text_fits(part(v, "fold"@, 2))
}

proof fn lemma_batch(v: Json)
    ensures
        batch_of(v) is Some == batch_fits(v),
        forall|b: BatchConfig| batch_of(v) == Some(#[trigger] b@) ==> batch_is(v, b),
{
    lemma_batch_names();
    let names = seq!["key"@, "when"@, "fold"@];
    assert(batch_fields() =~= names);
    assert(names[0] == "key"@);
    assert(names[1] == "when"@);
    assert(names[2] == "fold"@);
    if has_room(v, 3, 3) {
        lemma_parts(v, names, 3);
    } else {
        assert forall|name: Seq<char>| #[trigger] get(record(v, names, 3), name) is None by {
            lemma_no_room(v, names, 3, name);
        }
    }
}

proof fn lemma_binding_names()
    ensures
        seq!["key"@, "cost"@].no_duplicates(),
{
    reveal_strlit("key");
    reveal_strlit("cost");
    let names = seq!["key"@, "cost"@];
    assert("key"@.len() == 3);
    assert("cost"@.len() == 4);
    assert forall|i: int, j: int|
        0 <= i < names.len() && 0 <= j < names.len() && i != j implies names[i] != names[j] by {}
}

/// Whether `v` can be read as a binding.
pub open spec fn binding_fits(v: Json) -> bool {
    &&& has_room(v, 2, 2)
    &&& text_fits(part(v, "key"@, 0))
    &&& int_fits(part(v, "cost"@, 1), 0, u32::MAX as int)
}

proof fn lemma_binding(v: Json)
    ensures
        binding_of(v) is Some == binding_fits(v),
        forall|b: BudgetBinding| binding_of(v) == Some(#[trigger] b@) ==> binding_is(v, b),
{
    lemma_binding_names();
    let names = seq!["key"@, "cost"@];
    assert(binding_fields() =~= names);
    assert(names[0] == "key"@);
    assert(names[1] == "cost"@);
    if has_room(v, 2, 2) {
        lemma_parts(v, names, 2);
    } else {
        assert forall|name: Seq<char>| #[trigger] get(record(v, names, 2), name) is None by {
            lemma_no_room(v, names, 2, name);
        }
    }
}

/// Whether `v` can be read as bindings.
pub open spec fn bindings_fit(v: Json) -> bool {
    v matches Json::Arr(items) && forall|i: int|
        0 <= i < items.len() ==> binding_fits(#[trigger] items[i])
}

proof fn lemma_bindings(v: Json, list: Seq<BudgetBinding>)
    ensures
        is_bindings(v) == bindings_fit(v),
        is_bindings(v) && binding_views(list) == bindings_of(v) ==> bindings_are(v, list),
{
    if let Json::Arr(items) = v {
        assert forall|i: int| 0 <= i < items.len() implies (binding_of(#[trigger] items[i]) is Some)
            == binding_fits(items[i]) by {
            lemma_binding(items[i]);
        }
        if is_bindings(v) && binding_views(list) == bindings_of(v) {
            assert(bindings_of(v).len() == items.len());
            assert(binding_views(list).len() == list.len());
            assert forall|i: int| 0 <= i < items.len() implies binding_is(
                #[trigger] items[i],
                list[i],
            ) by {
                lemma_binding(items[i]);
                assert(binding_of(items[i]) is Some);
                assert(bindings_of(v)[i] == binding_of(items[i])->0);
                assert(binding_views(list)[i] == list[i]@);
            }
        }
    }
}

proof fn lemma_job_names()
    ensures
        job_fields().no_duplicates(),
{
    reveal_strlit("id");
    reveal_strlit("type");
    reveal_strlit("queue");
    reveal_strlit("status");
    reveal_strlit("priority");
    reveal_strlit("payload");
    reveal_strlit("ready_at");
    reveal_strlit("attempts");
    reveal_strlit("retry_limit");
    reveal_strlit("backoff");
    reveal_strlit("dequeued_at");
    reveal_strlit("failed_at");
    reveal_strlit("completed_at");
    reveal_strlit("retention");
    reveal_strlit("purge_at");
    reveal_strlit("unique_key");
    reveal_strlit("unique_while");
    reveal_strlit("duplicate");
    let names = job_fields();
    assert("id"@.len() == 2);
    assert("type"@.len() == 4);
    assert("queue"@.len() == 5);
    assert("status"@.len() == 6);
    assert("priority"@.len() == 8);
    assert("payload"@.len() == 7);
    assert("ready_at"@.len() == 8);
    assert("attempts"@.len() == 8);
    assert("retry_limit"@.len() == 11);
    assert("backoff"@.len() == 7);
    assert("dequeued_at"@.len() == 11);
    assert("failed_at"@.len() == 9);
    assert("completed_at"@.len() == 12);
    assert("retention"@.len() == 9);
    assert("purge_at"@.len() == 8);
    assert("unique_key"@.len() == 10);
    assert("unique_while"@.len() == 12);
    assert("duplicate"@.len() == 9);
    assert("priority"@[0] == 'p' && "ready_at"@[0] == 'r');
    assert("priority"@[0] == 'p' && "attempts"@[0] == 'a');
    assert("priority"@[1] == 'r' && "purge_at"@[1] == 'u');
    assert("payload"@[0] == 'p' && "backoff"@[0] == 'b');
    assert("ready_at"@[0] == 'r' && "attempts"@[0] == 'a');
    assert("ready_at"@[0] == 'r' && "purge_at"@[0] == 'p');
    assert("attempts"@[0] == 'a' && "purge_at"@[0] == 'p');
    assert("retry_limit"@[0] == 'r' && "dequeued_at"@[0] == 'd');
    assert("failed_at"@[0] == 'f' && "retention"@[0] == 'r');
    assert("failed_at"@[0] == 'f' && "duplicate"@[0] == 'd');
    assert("completed_at"@[0] == 'c' && "unique_while"@[0] == 'u');
    assert("retention"@[0] == 'r' && "duplicate"@[0] == 'd');
    assert forall|i: int, j: int|
        0 <= i < names.len() && 0 <= j < names.len() && i != j implies names[i] != names[j] by {}
}

/// Whether `v` can be read as a job.
pub open spec fn job_fits(v: Json) -> bool {
    &&& has_room(v, 8, 18)
    &&& text_fits(part(v, "id"@, 0))
    &&& text_fits(part(v, "type"@, 1))
    &&& text_fits(part(v, "queue"@, 2))
    &&& part(v, "status"@, 3) matches Some(f) && word_fits(f)
    &&& int_fits(part(v, "priority"@, 4), 0, u32::MAX as int)
    &&& int_fits(part(v, "ready_at"@, 6), i64::MIN as int, i64::MAX as int)
    &&& int_fits(part(v, "attempts"@, 7), 0, u32::MAX as int)
    &&& opt_int_fits(part(v, "retry_limit"@, 8), 0, u32::MAX as int)
    &&& part(v, "backoff"@, 9) matches Some(f) ==> f is Null || backoff_fits(f)
    &&& opt_int_fits(part(v, "dequeued_at"@, 10), i64::MIN as int, i64::MAX as int)
    &&& opt_int_fits(part(v, "failed_at"@, 11), i64::MIN as int, i64::MAX as int)
    &&& opt_int_fits(part(v, "completed_at"@, 12), i64::MIN as int, i64::MAX as int)
    &&& part(v, "retention"@, 13) matches Some(f) ==> f is Null || retention_fits(f)
    &&& opt_int_fits(part(v, "purge_at"@, 14), i64::MIN as int, i64::MAX as int)
    &&& opt_text_fits(part(v, "unique_key"@, 15))
    &&& part(v, "unique_while"@, 16) matches Some(f) ==> f is Null || word_fits(f)
    &&& part(v, "duplicate"@, 17) matches Some(f) ==> f is Null || f is Bool
    &&& part(v, "folded"@, -1) matches Some(f) ==> f is Null || f is Bool
    &&& part(v, "batch"@, -1) matches Some(f) ==> f is Null || batch_fits(f)
    &&& part(v, "budgets"@, -1) matches Some(f) ==> bindings_fit(f)
}

/// A job's fields in a record.
proof fn lemma_job_parts(v: Json)
    requires
        has_room(v, 8, 18),
    ensures
        get(record(v, job_fields(), 8), "id"@) == part(v, "id"@, 0),
        get(record(v, job_fields(), 8), "type"@) == part(v, "type"@, 1),
        get(record(v, job_fields(), 8), "queue"@) == part(v, "queue"@, 2),
        get(record(v, job_fields(), 8), "status"@) == part(v, "status"@, 3),
        get(record(v, job_fields(), 8), "priority"@) == part(v, "priority"@, 4),
        get(record(v, job_fields(), 8), "payload"@) == part(v, "payload"@, 5),
        get(record(v, job_fields(), 8), "ready_at"@) == part(v, "ready_at"@, 6),
        get(record(v, job_fields(), 8), "attempts"@) == part(v, "attempts"@, 7),
        get(record(v, job_fields(), 8), "retry_limit"@) == part(v, "retry_limit"@, 8),
        get(record(v, job_fields(), 8), "backoff"@) == part(v, "backoff"@, 9),
        get(record(v, job_fields(), 8), "dequeued_at"@) == part(v, "dequeued_at"@, 10),
        get(record(v, job_fields(), 8), "failed_at"@) == part(v, "failed_at"@, 11),
        get(record(v, job_fields(), 8), "completed_at"@) == part(v, "completed_at"@, 12),
        get(record(v, job_fields(), 8), "retention"@) == part(v, "retention"@, 13),
        get(record(v, job_fields(), 8), "purge_at"@) == part(v, "purge_at"@, 14),
        get(record(v, job_fields(), 8), "unique_key"@) == part(v, "unique_key"@, 15),
        get(record(v, job_fields(), 8), "unique_while"@) == part(v, "unique_while"@, 16),
        get(record(v, job_fields(), 8), "duplicate"@) == part(v, "duplicate"@, 17),
        get(record(v, job_fields(), 8), "folded"@) == part(v, "folded"@, -1),
        get(record(v, job_fields(), 8), "batch"@) == part(v, "batch"@, -1),
        get(record(v, job_fields(), 8), "budgets"@) == part(v, "budgets"@, -1),
{
    lemma_job_names();
    let names = job_fields();
    lemma_parts(v, names, 8);
    assert(names[0] == "id"@);
    assert(names[1] == "type"@);
    assert(names[2] == "queue"@);
    assert(names[3] == "status"@);
    assert(names[4] == "priority"@);
    assert(names[5] == "payload"@);
    assert(names[6] == "ready_at"@);
    assert(names[7] == "attempts"@);
    assert(names[8] == "retry_limit"@);
    assert(names[9] == "backoff"@);
    assert(names[10] == "dequeued_at"@);
    assert(names[11] == "failed_at"@);
    assert(names[12] == "completed_at"@);
    assert(names[13] == "retention"@);
    assert(names[14] == "purge_at"@);
    assert(names[15] == "unique_key"@);
    assert(names[16] == "unique_while"@);
    assert(names[17] == "duplicate"@);
    lemma_no_place("folded"@);
    lemma_no_place("batch"@);
    lemma_no_place("budgets"@);
}

/// Three fields have no place in an array.
proof fn lemma_no_place(name: Seq<char>)
    requires
        name == "folded"@ || name == "batch"@ || name == "budgets"@,
    ensures
        !job_fields().contains(name),
{
    reveal_strlit("id");
    reveal_strlit("type");
    reveal_strlit("queue");
    reveal_strlit("status");
    reveal_strlit("priority");
    reveal_strlit("payload");
    reveal_strlit("ready_at");
    reveal_strlit("attempts");
    reveal_strlit("retry_limit");
    reveal_strlit("backoff");
    reveal_strlit("dequeued_at");
    reveal_strlit("failed_at");
    reveal_strlit("completed_at");
    reveal_strlit("retention");
    reveal_strlit("purge_at");
    reveal_strlit("unique_key");
    reveal_strlit("unique_while");
    reveal_strlit("duplicate");
    reveal_strlit("folded");
    reveal_strlit("batch");
    reveal_strlit("budgets");
    assert("id"@.len() == 2);
    assert("type"@.len() == 4);
    assert("queue"@.len() == 5);
    assert("status"@.len() == 6);
    assert("priority"@.len() == 8);
    assert("payload"@.len() == 7);
    assert("ready_at"@.len() == 8);
    assert("attempts"@.len() == 8);
    assert("retry_limit"@.len() == 11);
    assert("backoff"@.len() == 7);
    assert("dequeued_at"@.len() == 11);
    assert("failed_at"@.len() == 9);
    assert("completed_at"@.len() == 12);
    assert("retention"@.len() == 9);
    assert("purge_at"@.len() == 8);
    assert("unique_key"@.len() == 10);
    assert("unique_while"@.len() == 12);
    assert("duplicate"@.len() == 9);
    assert("folded"@.len() == 6);
    assert("batch"@.len() == 5);
    assert("budgets"@.len() == 7);
    assert("folded"@[0] == 'f' && "status"@[0] == 's');
    assert("batch"@[0] == 'b' && "queue"@[0] == 'q');
    assert("budgets"@[0] == 'b' && "payload"@[0] == 'p');
    assert("budgets"@[1] == 'u' && "backoff"@[1] == 'a');
    let names = job_fields();
    assert forall|i: int| 0 <= i < names.len() implies names[i] != name by {}
}

/// What reading a job says of its fields.
#[verifier::rlimit(60)]
proof fn lemma_job(v: Json, w: JobFromApi, j: Job)
    requires
        j == <Job as vstd::std_specs::convert::FromSpec<JobFromApi>>::from_spec(w),
    ensures
        is_job(v) == job_fits(v),
        is_job(v) && read_as(v, w) ==> job_is(v, j),
{
    let o = record(v, job_fields(), 8);
    if has_room(v, 8, 18) {
        lemma_job_parts(v);
        if let Some(f) = part(v, "backoff"@, 9) {
            lemma_backoff(f);
        }
        if let Some(f) = part(v, "retention"@, 13) {
            lemma_retention(f);
        }
        if let Some(f) = part(v, "batch"@, -1) {
            lemma_batch(f);
        }
        if let Some(f) = part(v, "budgets"@, -1) {
            lemma_bindings(f, j.budgets@);
        }
        if let Some(f) = part(v, "status"@, 3) {
            lemma_variant(f);
            if let Some(word) = as_variant(f) {
                lemma_status_words(word);
            }
        }
        if let Some(f) = part(v, "unique_while"@, 16) {
            lemma_variant(f);
            if let Some(word) = as_variant(f) {
                lemma_scope_words(word);
            }
        }
        if is_job(v) && read_as(v, w) {
            if let Some(b) = w.backoff {
                assert(backoff_is(part(v, "backoff"@, 9)->0, b));
            }
            if let Some(b) = w.batch {
                assert(batch_is(part(v, "batch"@, -1)->0, b));
            }
            if part(v, "budgets"@, -1) is None {
                assert(binding_views(w.budgets@).len() == w.budgets@.len());
            }
            assert(status_is(part(v, "status"@, 3)->0, w.status)) by {
                let f = part(v, "status"@, 3)->0;
                let word = as_variant(f)->0;
                assert(word_is(f, word));
            }
            if let Some(scope) = w.unique_while {
                let f = part(v, "unique_while"@, 16)->0;
                let word = as_variant(f)->0;
                assert(word_is(f, word));
                assert(scope_is(f, scope));
            }
        }
    } else {
        lemma_job_names();
        lemma_no_room(v, job_fields(), 8, "id"@);
    }
}

/// A job that is read has, field by field, what the server sent: each under
/// its own name or at its own place. It is read exactly where what has to be
/// there is there and everything has its type.
pub proof fn law_job_is_what_was_sent(v: &Value, r: Option<Job>)
    requires
        call_ensures(Job::from_value, (v,), r),
    ensures
        r is Some == job_fits(v@),
        r matches Some(j) ==> job_is(v@, j),
{
    if let Some(j) = r {
        let w = choose|w: JobFromApi| #[trigger]
            read_as(v@, w) && j == <Job as vstd::std_specs::convert::FromSpec<
                JobFromApi,
            >>::from_spec(w);
        lemma_job(v@, w, j);
    } else {
        let w = arbitrary::<JobFromApi>();
        lemma_job(v@, w, <Job as vstd::std_specs::convert::FromSpec<JobFromApi>>::from_spec(w));
    }
}

/// A list of jobs is read item by item: the job at each place is the one
/// that was sent at that place.
pub proof fn law_jobs_are_read_in_order(v: &Value, r: Option<Vec<Job>>)
    requires
        call_ensures(read_jobs, (v,), r),
    ensures
        r is Some == jobs_fit(v@),
        r matches Some(list) ==> jobs_are(v@, list@),
{
    lemma_jobs_fit(v@);
    if let Some(list) = r {
        lemma_jobs_are(v@, list@);
    }
}

/// Whether `v` can be read as jobs.
pub open spec fn jobs_fit(v: Json) -> bool {
    v matches Json::Arr(items) && forall|i: int|
        0 <= i < items.len() ==> job_fits(#[trigger] items[i])
}

/// Whether `v` holds the jobs `list`, in order.
pub open spec fn jobs_are(v: Json, list: Seq<Job>) -> bool {
    v matches Json::Arr(items) && items.len() == list.len() && forall|i: int|
        0 <= i < items.len() ==> job_is(#[trigger] items[i], list[i])
}

proof fn lemma_jobs_fit(v: Json)
    ensures
        is_jobs(v) == jobs_fit(v),
{
    if let Json::Arr(items) = v {
        assert forall|i: int| 0 <= i < items.len() implies is_job(#[trigger] items[i]) == job_fits(
            items[i],
        ) by {
            let w = arbitrary::<JobFromApi>();
            lemma_job(
                items[i],
                w,
                <Job as vstd::std_specs::convert::FromSpec<JobFromApi>>::from_spec(w),
            );
        }
    }
}

proof fn lemma_jobs_are(v: Json, list: Seq<Job>)
    requires
        is_jobs(v),
        jobs_read(list, v),
    ensures
        jobs_are(v, list),
{
    let items = v->Arr_0;
    assert forall|i: int| 0 <= i < items.len() implies job_is(#[trigger] items[i], list[i]) by {
        assert(is_job(items[i]));
        assert(list[i].read_from(items[i]));
        let w = choose|w: JobFromApi| #[trigger]
            read_as(items[i], w) && list[i] == <Job as vstd::std_specs::convert::FromSpec<
                JobFromApi,
            >>::from_spec(w);
        lemma_job(items[i], w, list[i]);
    }
}

/// Backoffs, retentions, batches and bindings are read field by field.
pub proof fn law_settings_are_what_was_sent(
    v: &Value,
    backoff: Option<BackoffConfig>,
    retention: Option<RetentionConfig>,
    batch: Option<BatchConfig>,
    binding: Option<BudgetBinding>,
    bindings: Option<Vec<BudgetBinding>>,
)
    ensures
        call_ensures(read_backoff, (v,), backoff) ==> backoff is Some == backoff_fits(v@) && (
        backoff matches Some(b) ==> backoff_is(v@, b)),
        call_ensures(read_retention, (v,), retention) ==> retention is Some == retention_fits(v@)
            && (
        retention matches Some(r) ==> retention_is(v@, r)),
        call_ensures(BatchConfig::from_value, (v,), batch) ==> batch is Some == batch_fits(v@) && (
        batch matches Some(b) ==> batch_is(v@, b)),
        call_ensures(BudgetBinding::from_value, (v,), binding) ==> binding is Some == binding_fits(
            v@,
        ) && (binding matches Some(b) ==> binding_is(v@, b)),
        call_ensures(read_bindings, (v,), bindings) ==> bindings is Some == bindings_fit(v@) && (
        bindings matches Some(list) ==> bindings_are(v@, list@)),
{
    lemma_backoff(v@);
    lemma_retention(v@);
    lemma_batch(v@);
    lemma_binding(v@);
    if let Some(list) = bindings {
        lemma_bindings(v@, list@);
    } else {
        lemma_bindings(v@, Seq::empty());
    }
}

proof fn lemma_links_names()
    ensures
        seq!["next"@, "prev"@].no_duplicates(),
{
    reveal_strlit("next");
    reveal_strlit("prev");
    let names = seq!["next"@, "prev"@];
    assert("next"@.len() == 4);
    assert("prev"@.len() == 4);
    assert("next"@[0] == 'n' && "prev"@[0] == 'p');
    assert forall|i: int, j: int|
        0 <= i < names.len() && 0 <= j < names.len() && i != j implies names[i] != names[j] by {}
}

/// Whether `v` can be read as page links.
pub open spec fn links_fits(v: Json) -> bool {
    &&& has_room(v, 2, 2)
    &&& opt_text_fits(part(v, "next"@, 0))
    &&& opt_text_fits(part(v, "prev"@, 1))
}

/// Whether `v` holds the page links `x`.
pub open spec fn links_is(v: Json, x: PageLinks) -> bool {
    &&& has_room(v, 2, 2)
    &&& opt_text_is(part(v, "next"@, 0), x.next)
    &&& opt_text_is(part(v, "prev"@, 1), x.prev)
}

proof fn lemma_links(v: Json)
    ensures
        is_links(v) == links_fits(v),
        forall|x: PageLinks| is_links(v) && #[trigger] links_read(x, v) ==> links_is(v, x),
{
    lemma_links_names();
    let names = seq!["next"@, "prev"@];
    assert(link_fields() =~= names);
    assert(names[0] == "next"@);
    assert(names[1] == "prev"@);
    if has_room(v, 2, 2) {
        lemma_parts(v, names, 2);
    } else {
        assert forall|name: Seq<char>| #[trigger] get(record(v, names, 2), name) is None by {
            lemma_no_room(v, names, 2, name);
        }
        assert(!(record(v, names, 2) is Obj));
    }
}

proof fn lemma_page_names()
    ensures
        seq!["jobs"@, "pages"@].no_duplicates(),
{
    reveal_strlit("jobs");
    reveal_strlit("pages");
    let names = seq!["jobs"@, "pages"@];
    assert("jobs"@.len() == 4);
    assert("pages"@.len() == 5);
    assert forall|i: int, j: int|
        0 <= i < names.len() && 0 <= j < names.len() && i != j implies names[i] != names[j] by {}
}

/// Whether `v` can be read as a page of jobs.
pub open spec fn page_fits(v: Json) -> bool {
    &&& has_room(v, 2, 2)
    &&& part(v, "jobs"@, 0) matches Some(f) && jobs_fit(f)
    &&& part(v, "pages"@, 1) matches Some(f) && links_fits(f)
}

/// Whether `v` holds the page `x`.
pub open spec fn page_is(v: Json, x: JobPage) -> bool {
    &&& has_room(v, 2, 2)
    &&& part(v, "jobs"@, 0) matches Some(f) && jobs_are(f, x.jobs@)
    &&& part(v, "pages"@, 1) matches Some(f) && links_is(f, x.pages)
}

proof fn lemma_page(v: Json)
    ensures
        JobPage::readable(v) == page_fits(v),
        forall|x: JobPage| JobPage::readable(v) && #[trigger] x.read_from(v) ==> page_is(v, x),
{
    lemma_page_names();
    let names = seq!["jobs"@, "pages"@];
    assert(page_fields() =~= names);
    assert(names[0] == "jobs"@);
    assert(names[1] == "pages"@);
    if has_room(v, 2, 2) {
        lemma_parts(v, names, 2);
        if let Some(f) = part(v, "jobs"@, 0) {
            lemma_jobs_fit(f);
        }
        if let Some(f) = part(v, "pages"@, 1) {
            lemma_links(f);
        }
        assert forall|x: JobPage| JobPage::readable(v) && #[trigger] x.read_from(v) implies page_is(
            v,
            x,
        ) by {
            let f = part(v, "jobs"@, 0)->0;
            lemma_jobs_are(f, x.jobs@);
            assert(links_read(x.pages, part(v, "pages"@, 1)->0));
        }
    } else {
        assert forall|name: Seq<char>| #[trigger] get(record(v, names, 2), name) is None by {
            lemma_no_room(v, names, 2, name);
        }
        assert(!(record(v, names, 2) is Obj));
    }
}

/// A page of jobs has the jobs that were sent, in order, and the links.
pub proof fn law_page_is_what_was_sent(v: &Value, r: Option<JobPage>, links: Option<PageLinks>)
    ensures
        call_ensures(JobPage::from_value, (v,), r) ==> r is Some == page_fits(v@) && (
        r matches Some(x) ==> page_is(v@, x)),
        call_ensures(read_links, (v,), links) ==> links is Some == links_fits(v@) && (
        links matches Some(x) ==> links_is(v@, x)),
{
    lemma_page(v@);
    lemma_links(v@);
    if call_ensures(read_links, (v,), links) {
        if let Some(x) = links {
            assert(links_read(x, v@));
        }
    }
    if call_ensures(JobPage::from_value, (v,), r) {
        if let Some(x) = r {
            assert(x.read_from(v@));
        }
    }
}

/// A bulk enqueue answers with the jobs that were created, in the order in
/// which they were submitted.
pub proof fn law_bulk_answer_is_what_was_sent(v: &Value, r: Option<Vec<Job>>)
    requires
        call_ensures(BulkEnqueueBuilder::read_response, (v,), r),
    ensures
        r is Some == (has_room(v@, 1, 1) && (part(v@, "jobs"@, 0) matches Some(f) && jobs_fit(f))),
        r matches Some(list) ==> (part(v@, "jobs"@, 0) matches Some(f) && jobs_are(f, list@)),
{
    if let Some(f) = part(v@, "jobs"@, 0) {
        lemma_jobs_fit(f);
        if let Some(list) = r {
            lemma_jobs_are(f, list@);
        }
    }
}

/// Counts are the numbers that the server sent under their names.
pub proof fn law_counts_are_what_was_sent(v: &Value, r: Option<u64>)
    ensures
        call_ensures(CountJobsBuilder::read_response, (v,), r) ==> counts(v@, "count"@, r),
        call_ensures(DeleteJobsBuilder::read_response, (v,), r) ==> counts(v@, "deleted"@, r),
        call_ensures(PatchJobsBuilder::read_response, (v,), r) ==> counts(v@, "patched"@, r),
{
}

/// Whether `r` is the number in the only field of `v`, which is named
/// `name`; there is none where the field holds no number.
pub open spec fn counts(v: Json, name: Seq<char>, r: Option<u64>) -> bool {
    &&& r is Some == (has_room(v, 1, 1) && int_fits(part(v, name, 0), 0, u64::MAX as int))
    &&& r matches Some(n) ==> int_is(part(v, name, 0), n as int)
}

/// An error message is the one that the server sent.
pub proof fn law_error_message_is_what_was_sent(v: &Value, r: Option<String>)
    requires
        call_ensures(read_error, (v,), r),
    ensures
        r is Some == (has_room(v@, 1, 1) && text_fits(part(v@, "error"@, 0))),
        r matches Some(m) ==> text_is(part(v@, "error"@, 0), m@),
{
}

proof fn lemma_template_names()
    ensures
        seq!["type"@, "queue"@, "payload"@, "priority"@, "retry_limit"@, "backoff"@, "retention"@,
            "unique_key"@, "unique_while"@].no_duplicates(),
{
    reveal_strlit("type");
    reveal_strlit("queue");
    reveal_strlit("payload");
    reveal_strlit("priority");
    reveal_strlit("retry_limit");
    reveal_strlit("backoff");
    reveal_strlit("retention");
    reveal_strlit("unique_key");
    reveal_strlit("unique_while");
    let names = seq!["type"@, "queue"@, "payload"@, "priority"@, "retry_limit"@, "backoff"@,
        "retention"@, "unique_key"@, "unique_while"@];
    assert("type"@.len() == 4);
    assert("queue"@.len() == 5);
    assert("payload"@.len() == 7);
    assert("priority"@.len() == 8);
    assert("retry_limit"@.len() == 11);
    assert("backoff"@.len() == 7);
    assert("retention"@.len() == 9);
    assert("unique_key"@.len() == 10);
    assert("unique_while"@.len() == 12);
    assert("payload"@[0] == 'p' && "backoff"@[0] == 'b');
    assert forall|i: int, j: int|
        0 <= i < names.len() && 0 <= j < names.len() && i != j implies names[i] != names[j] by {}
}

/// Whether `v` can be read as a job template.
pub open spec fn template_fits(v: Json) -> bool {
    &&& has_room(v, 2, 9)
    &&& text_fits(part(v, "type"@, 0))
    &&& text_fits(part(v, "queue"@, 1))
    &&& opt_int_fits(part(v, "priority"@, 3), 0, u16::MAX as int)
    &&& opt_int_fits(part(v, "retry_limit"@, 4), 0, u32::MAX as int)
    &&& part(v, "backoff"@, 5) matches Some(f) ==> f is Null || backoff_fits(f)
    &&& part(v, "retention"@, 6) matches Some(f) ==> f is Null || retention_fits(f)
    &&& opt_text_fits(part(v, "unique_key"@, 7))
    &&& part(v, "unique_while"@, 8) matches Some(f) ==> f is Null || word_fits(f)
}

/// Whether `v` holds the job template `x`.
pub open spec fn template_is(v: Json, x: JobTemplate) -> bool {
    &&& has_room(v, 2, 9)
    &&& text_is(part(v, "type"@, 0), x.job_type@)
    &&& text_is(part(v, "queue"@, 1), x.queue@)
    &&& match x.payload {
        Some(p) => part(v, "payload"@, 2) == Some(p@),
        None => part(v, "payload"@, 2) is None || part(v, "payload"@, 2) == Some(Json::Null),
    }
    &&& opt_int_is(part(v, "priority"@, 3), of_u16(x.priority))
    &&& opt_int_is(part(v, "retry_limit"@, 4), of_u32(x.retry_limit))
    &&& match x.backoff {
        Some(b) => part(v, "backoff"@, 5) matches Some(f) && backoff_is(f, b),
        None => part(v, "backoff"@, 5) is None || part(v, "backoff"@, 5) == Some(Json::Null),
    }
    &&& match x.retention {
        Some(r) => part(v, "retention"@, 6) matches Some(f) && retention_is(f, r),
        None => part(v, "retention"@, 6) is None || part(v, "retention"@, 6) == Some(Json::Null),
    }
    &&& opt_text_is(part(v, "unique_key"@, 7), x.unique_key)
    &&& match x.unique_while {
        Some(w) => part(v, "unique_while"@, 8) matches Some(f) && scope_is(f, w),
        None => part(v, "unique_while"@, 8) is None || part(v, "unique_while"@,
            8) == Some(Json::Null),
    }
}

#[verifier::rlimit(40)]
proof fn lemma_template(v: Json)
    ensures
        is_template(v) == template_fits(v),
        forall|x: JobTemplate|
            is_template(v) && #[trigger] x.read_from(v) ==> template_is(v, x),
{
    lemma_template_names();
    let names = seq!["type"@, "queue"@, "payload"@, "priority"@, "retry_limit"@, "backoff"@,
        "retention"@, "unique_key"@, "unique_while"@];
    assert(template_fields() =~= names);
    assert(names[0] == "type"@);
    assert(names[1] == "queue"@);
    assert(names[2] == "payload"@);
    assert(names[3] == "priority"@);
    assert(names[4] == "retry_limit"@);
    assert(names[5] == "backoff"@);
    assert(names[6] == "retention"@);
    assert(names[7] == "unique_key"@);
    assert(names[8] == "unique_while"@);
    if has_room(v, 2, 9) {
        lemma_parts(v, names, 2);
        if let Some(f) = part(v, "backoff"@, 5) {
            lemma_backoff(f);
        }
        if let Some(f) = part(v, "retention"@, 6) {
            lemma_retention(f);
        }
        if let Some(f) = part(v, "unique_while"@, 8) {
            lemma_variant(f);
            if let Some(word) = as_variant(f) {
                lemma_scope_words(word);
            }
        }
        assert forall|x: JobTemplate| is_template(v) && #[trigger] x.read_from(
            v,
        ) implies template_is(v, x) by {
            if let Some(b) = x.backoff {
                assert(backoff_is(part(v, "backoff"@, 5)->0, b));
            }
            if let Some(scope) = x.unique_while {
                let f = part(v, "unique_while"@, 8)->0;
                let word = as_variant(f)->0;
                assert(word_is(f, word));
                assert(scope_is(f, scope));
            }
        }
    } else {
        assert forall|name: Seq<char>| #[trigger] get(record(v, names, 2), name) is None by {
            lemma_no_room(v, names, 2, name);
        }
        assert(!(record(v, names, 2) is Obj));
    }
}

proof fn lemma_entry_names()
    ensures
        seq!["name"@, "expression"@, "timezone"@, "paused"@, "paused_at"@, "resumed_at"@, "job"@,
            "next_enqueue_at"@, "last_enqueue_at"@].no_duplicates(),
{
    reveal_strlit("name");
    reveal_strlit("expression");
    reveal_strlit("timezone");
    reveal_strlit("paused");
    reveal_strlit("paused_at");
    reveal_strlit("resumed_at");
    reveal_strlit("job");
    reveal_strlit("next_enqueue_at");
    reveal_strlit("last_enqueue_at");
    let names = seq!["name"@, "expression"@, "timezone"@, "paused"@, "paused_at"@, "resumed_at"@,
        "job"@, "next_enqueue_at"@, "last_enqueue_at"@];
    assert("name"@.len() == 4);
    assert("expression"@.len() == 10);
    assert("timezone"@.len() == 8);
    assert("paused"@.len() == 6);
    assert("paused_at"@.len() == 9);
    assert("resumed_at"@.len() == 10);
    assert("job"@.len() == 3);
    assert("next_enqueue_at"@.len() == 15);
    assert("last_enqueue_at"@.len() == 15);
    assert("expression"@[0] == 'e' && "resumed_at"@[0] == 'r');
    assert("next_enqueue_at"@[0] == 'n' && "last_enqueue_at"@[0] == 'l');
    assert forall|i: int, j: int|
        0 <= i < names.len() && 0 <= j < names.len() && i != j implies names[i] != names[j] by {}
}

/// Whether `v` can be read as a cron entry.
pub open spec fn entry_fits(v: Json) -> bool {
    &&& has_room(v, 7, 9)
    &&& text_fits(part(v, "name"@, 0))
    &&& text_fits(part(v, "expression"@, 1))
    &&& opt_text_fits(part(v, "timezone"@, 2))
    &&& part(v, "paused"@, 3) matches Some(Json::Bool(_))
    &&& opt_int_fits(part(v, "paused_at"@, 4), 0, u64::MAX as int)
    &&& opt_int_fits(part(v, "resumed_at"@, 5), 0, u64::MAX as int)
    &&& part(v, "job"@, 6) matches Some(f) && template_fits(f)
    &&& opt_int_fits(part(v, "next_enqueue_at"@, 7), 0, u64::MAX as int)
    &&& opt_int_fits(part(v, "last_enqueue_at"@, 8), 0, u64::MAX as int)
}

/// Whether `v` holds the cron entry `x`.
pub open spec fn entry_is(v: Json, x: CronEntryRecord) -> bool {
    &&& has_room(v, 7, 9)
    &&& text_is(part(v, "name"@, 0), x.name@)
    &&& text_is(part(v, "expression"@, 1), x.expression@)
    &&& opt_text_is(part(v, "timezone"@, 2), x.timezone)
    &&& part(v, "paused"@, 3) == Some(Json::Bool(x.paused))
    &&& opt_int_is(part(v, "paused_at"@, 4), of_u64(x.paused_at))
    &&& opt_int_is(part(v, "resumed_at"@, 5), of_u64(x.resumed_at))
    &&& part(v, "job"@, 6) matches Some(f) && template_is(f, x.job)
    &&& opt_int_is(part(v, "next_enqueue_at"@, 7), of_u64(x.next_enqueue_at))
    &&& opt_int_is(part(v, "last_enqueue_at"@, 8), of_u64(x.last_enqueue_at))
}

#[verifier::rlimit(40)]
proof fn lemma_entry(v: Json)
    ensures
        is_entry(v) == entry_fits(v),
        forall|x: CronEntryRecord| is_entry(v) && #[trigger] x.read_from(v) ==> entry_is(v, x),
{
    lemma_entry_names();
    let names = seq!["name"@, "expression"@, "timezone"@, "paused"@, "paused_at"@, "resumed_at"@,
        "job"@, "next_enqueue_at"@, "last_enqueue_at"@];
    assert(entry_fields() =~= names);
    assert(names[0] == "name"@);
    assert(names[1] == "expression"@);
    assert(names[2] == "timezone"@);
    assert(names[3] == "paused"@);
    assert(names[4] == "paused_at"@);
    assert(names[5] == "resumed_at"@);
    assert(names[6] == "job"@);
    assert(names[7] == "next_enqueue_at"@);
    assert(names[8] == "last_enqueue_at"@);
    if has_room(v, 7, 9) {
        lemma_parts(v, names, 7);
        if let Some(f) = part(v, "job"@, 6) {
            lemma_template(f);
        }
        assert forall|x: CronEntryRecord| is_entry(v) && #[trigger] x.read_from(v) implies entry_is(
            v,
            x,
        ) by {
            let f = part(v, "job"@, 6)->0;
            assert(x.job.read_from(f));
        }
    } else {
        assert forall|name: Seq<char>| #[trigger] get(record(v, names, 7), name) is None by {
            lemma_no_room(v, names, 7, name);
        }
        assert(!(record(v, names, 7) is Obj));
    }
}

/// Whether `v` can be read as cron entries.
pub open spec fn entries_fit(v: Json) -> bool {
    v matches Json::Arr(items) && forall|i: int|
        0 <= i < items.len() ==> entry_fits(#[trigger] items[i])
}

/// Whether `v` holds the cron entries `list`, in order.
pub open spec fn entries_are(v: Json, list: Seq<CronEntryRecord>) -> bool {
    v matches Json::Arr(items) && items.len() == list.len() && forall|i: int|
        0 <= i < items.len() ==> entry_is(#[trigger] items[i], list[i])
}

proof fn lemma_entries(v: Json)
    ensures
        is_entries(v) == entries_fit(v),
        forall|list: Seq<CronEntryRecord>|
            is_entries(v) && #[trigger] entries_read(list, v) ==> entries_are(v, list),
{
    if let Json::Arr(items) = v {
        assert forall|i: int| 0 <= i < items.len() implies is_entry(#[trigger] items[i])
            == entry_fits(items[i]) by {
            lemma_entry(items[i]);
        }
        assert forall|list: Seq<CronEntryRecord>|
            is_entries(v) && #[trigger] entries_read(list, v) implies entries_are(v, list) by {
            assert forall|i: int| 0 <= i < items.len() implies entry_is(
                #[trigger] items[i],
                list[i],
            ) by {
                lemma_entry(items[i]);
                assert(is_entry(items[i]));
                assert(list[i].read_from(items[i]));
            }
        }
    }
}

proof fn lemma_group_names()
    ensures
        seq!["name"@, "paused"@, "paused_at"@, "resumed_at"@, "entries"@].no_duplicates(),
{
    reveal_strlit("name");
    reveal_strlit("paused");
    reveal_strlit("paused_at");
    reveal_strlit("resumed_at");
    reveal_strlit("entries");
    let names = seq!["name"@, "paused"@, "paused_at"@, "resumed_at"@, "entries"@];
    assert("name"@.len() == 4);
    assert("paused"@.len() == 6);
    assert("paused_at"@.len() == 9);
    assert("resumed_at"@.len() == 10);
    assert("entries"@.len() == 7);
    assert forall|i: int, j: int|
        0 <= i < names.len() && 0 <= j < names.len() && i != j implies names[i] != names[j] by {}
}

/// Whether `v` can be read as a cron group.
pub open spec fn group_fits(v: Json) -> bool {
    &&& has_room(v, 5, 5)
    &&& text_fits(part(v, "name"@, 0))
    &&& part(v, "paused"@, 1) matches Some(Json::Bool(_))
    &&& opt_int_fits(part(v, "paused_at"@, 2), 0, u64::MAX as int)
    &&& opt_int_fits(part(v, "resumed_at"@, 3), 0, u64::MAX as int)
    &&& part(v, "entries"@, 4) matches Some(f) && entries_fit(f)
}

/// Whether `v` holds the cron group `x`.
pub open spec fn group_is(v: Json, x: CronGroup) -> bool {
    &&& has_room(v, 5, 5)
    &&& text_is(part(v, "name"@, 0), x.name@)
    &&& part(v, "paused"@, 1) == Some(Json::Bool(x.paused))
    &&& opt_int_is(part(v, "paused_at"@, 2), of_u64(x.paused_at))
    &&& opt_int_is(part(v, "resumed_at"@, 3), of_u64(x.resumed_at))
    &&& part(v, "entries"@, 4) matches Some(f) && entries_are(f, x.entries@)
}

proof fn lemma_group(v: Json)
    ensures
        is_group(v) == group_fits(v),
        forall|x: CronGroup| is_group(v) && #[trigger] x.read_from(v) ==> group_is(v, x),
{
    lemma_group_names();
    let names = seq!["name"@, "paused"@, "paused_at"@, "resumed_at"@, "entries"@];
    assert(group_fields() =~= names);
    assert(names[0] == "name"@);
    assert(names[1] == "paused"@);
    assert(names[2] == "paused_at"@);
    assert(names[3] == "resumed_at"@);
    assert(names[4] == "entries"@);
    if has_room(v, 5, 5) {
        lemma_parts(v, names, 5);
        if let Some(f) = part(v, "entries"@, 4) {
            lemma_entries(f);
        }
        assert forall|x: CronGroup| is_group(v) && #[trigger] x.read_from(v) implies group_is(
            v,
            x,
        ) by {
            assert(entries_read(x.entries@, part(v, "entries"@, 4)->0));
        }
    } else {
        assert forall|name: Seq<char>| #[trigger] get(record(v, names, 5), name) is None by {
            lemma_no_room(v, names, 5, name);
        }
        assert(!(record(v, names, 5) is Obj));
    }
}

/// Cron groups, their entries and the jobs of those are read field by
/// field, entries in order.
pub proof fn law_cron_records_are_what_was_sent(
    v: &Value,
    template: Option<JobTemplate>,
    entry: Option<CronEntryRecord>,
    group: Option<CronGroup>,
)
    ensures
        call_ensures(JobTemplate::from_value, (v,), template) ==> template is Some == template_fits(
            v@,
        ) && (template matches Some(x) ==> template_is(v@, x)),
        call_ensures(CronEntryRecord::from_value, (v,), entry) ==> entry is Some == entry_fits(v@)
            && (entry matches Some(x) ==> entry_is(v@, x)),
        call_ensures(CronGroup::from_value, (v,), group) ==> group is Some == group_fits(v@) && (
        group matches Some(x) ==> group_is(v@, x)),
{
    lemma_template(v@);
    lemma_entry(v@);
    lemma_group(v@);
    if call_ensures(JobTemplate::from_value, (v,), template) {
        if let Some(x) = template {
            assert(x.read_from(v@));
        }
    }
    if call_ensures(CronEntryRecord::from_value, (v,), entry) {
        if let Some(x) = entry {
            assert(x.read_from(v@));
        }
    }
    if call_ensures(CronGroup::from_value, (v,), group) {
        if let Some(x) = group {
            assert(x.read_from(v@));
        }
    }
}

proof fn lemma_strategy_names()
    ensures
        seq!["type"@, "duration_ms"@, "burst"@].no_duplicates(),
{
    reveal_strlit("type");
    reveal_strlit("duration_ms");
    reveal_strlit("burst");
    let names = seq!["type"@, "duration_ms"@, "burst"@];
    assert("type"@.len() == 4);
    assert("duration_ms"@.len() == 11);
    assert("burst"@.len() == 5);
    assert forall|i: int, j: int|
        0 <= i < names.len() && 0 <= j < names.len() && i != j implies names[i] != names[j] by {}
}

/// Whether `v` can be read as a strategy.
pub open spec fn strategy_fits(v: Json) -> bool {
    &&& has_room(v, 1, 3)
    &&& text_fits(part(v, "type"@, 0))
    &&& opt_int_fits(part(v, "duration_ms"@, 1), 0, u64::MAX as int)
    &&& opt_int_fits(part(v, "burst"@, 2), 0, u32::MAX as int)
}

/// Whether `v` holds the strategy `x`: a rate without a period is not known, nor
/// is a name that stands for no strategy, and keeps that name.
pub open spec fn strategy_is(v: Json, x: BudgetStrategy) -> bool {
    &&& has_room(v, 1, 3)
    &&& match x {
        BudgetStrategy::TimeBased { duration, burst } => {
            &&& text_is(part(v, "type"@, 0), "time_based"@)
            &&& part(v, "duration_ms"@, 1) matches Some(Json::Int(n))
                && duration.nanos == n * 1_000_000
            &&& opt_int_is(part(v, "burst"@, 2), of_u32(burst))
        },
        BudgetStrategy::WhileInFlight => text_is(part(v, "type"@, 0), "while_in_flight"@),
        BudgetStrategy::Unknown { kind } => {
            &&& text_is(part(v, "type"@, 0), kind@)
            &&& kind@ != "while_in_flight"@
            &&& kind@ == "time_based"@ ==> (part(v, "duration_ms"@, 1) is None || part(v,
                "duration_ms"@, 1)
                == Some(Json::Null))
        },
    }
}

proof fn lemma_strategy(v: Json)
    ensures
        Wire::of(v) is Some == strategy_fits(v),
        forall|x: BudgetStrategy|
            Wire::of(v) is Some && #[trigger] x@ == Wire::of(v)->0.strategy() ==> strategy_is(v, x),
{
    lemma_strategy_names();
    let names = seq!["type"@, "duration_ms"@, "burst"@];
    assert(wire_fields() =~= names);
    assert(names[0] == "type"@);
    assert(names[1] == "duration_ms"@);
    assert(names[2] == "burst"@);
    if has_room(v, 1, 3) {
        lemma_parts(v, names, 1);
        reveal_strlit("time_based");
        reveal_strlit("while_in_flight");
        assert("time_based"@.len() == 10 && "while_in_flight"@.len() == 15);
    } else {
        assert forall|name: Seq<char>| #[trigger] get(record(v, names, 1), name) is None by {
            lemma_no_room(v, names, 1, name);
        }
        assert(!(record(v, names, 1) is Obj));
    }
}

proof fn lemma_budget_names()
    ensures
        seq!["key"@, "allocation"@, "strategy"@, "created_at"@, "updated_at"@].no_duplicates(),
{
    reveal_strlit("key");
    reveal_strlit("allocation");
    reveal_strlit("strategy");
    reveal_strlit("created_at");
    reveal_strlit("updated_at");
    let names = seq!["key"@, "allocation"@, "strategy"@, "created_at"@, "updated_at"@];
    assert("key"@.len() == 3);
    assert("allocation"@.len() == 10);
    assert("strategy"@.len() == 8);
    assert("created_at"@.len() == 10);
    assert("updated_at"@.len() == 10);
    assert("allocation"@[0] == 'a' && "created_at"@[0] == 'c');
    assert("allocation"@[0] == 'a' && "updated_at"@[0] == 'u');
    assert("created_at"@[0] == 'c' && "updated_at"@[0] == 'u');
    assert forall|i: int, j: int|
        0 <= i < names.len() && 0 <= j < names.len() && i != j implies names[i] != names[j] by {}
}

/// Whether `v` can be read as a budget.
pub open spec fn budget_fits(v: Json) -> bool {
    &&& has_room(v, 5, 5)
    &&& text_fits(part(v, "key"@, 0))
    &&& int_fits(part(v, "allocation"@, 1), 0, u32::MAX as int)
    &&& part(v, "strategy"@, 2) matches Some(f) && strategy_fits(f)
    &&& int_fits(part(v, "created_at"@, 3), 0, u64::MAX as int)
    &&& int_fits(part(v, "updated_at"@, 4), 0, u64::MAX as int)
}

/// Whether `v` holds the budget `x`.
pub open spec fn budget_is(v: Json, x: Budget) -> bool {
    &&& has_room(v, 5, 5)
    &&& text_is(part(v, "key"@, 0), x.key@)
    &&& int_is(part(v, "allocation"@, 1), x.allocation as int)
    &&& part(v, "strategy"@, 2) matches Some(f) && strategy_is(f, x.strategy)
    &&& int_is(part(v, "created_at"@, 3), x.created_at as int)
    &&& int_is(part(v, "updated_at"@, 4), x.updated_at as int)
}

proof fn lemma_budget(v: Json)
    ensures
        BudgetModel::of(v) is Some == budget_fits(v),
        forall|x: Budget| BudgetModel::of(v) == Some(#[trigger] x@) ==> budget_is(v, x),
{
    lemma_budget_names();
    let names = seq!["key"@, "allocation"@, "strategy"@, "created_at"@, "updated_at"@];
    assert(budget_fields() =~= names);
    assert(names[0] == "key"@);
    assert(names[1] == "allocation"@);
    assert(names[2] == "strategy"@);
    assert(names[3] == "created_at"@);
    assert(names[4] == "updated_at"@);
    if has_room(v, 5, 5) {
        lemma_parts(v, names, 5);
        if let Some(f) = part(v, "strategy"@, 2) {
            lemma_strategy(f);
        }
        assert forall|x: Budget| BudgetModel::of(v) == Some(#[trigger] x@) implies budget_is(v,
            x) by {
            let f = part(v, "strategy"@, 2)->0;
            assert(x.strategy@ == Wire::of(f)->0.strategy());
        }
    } else {
        assert forall|name: Seq<char>| #[trigger] get(record(v, names, 5), name) is None by {
            lemma_no_room(v, names, 5, name);
        }
        assert(!(record(v, names, 5) is Obj));
    }
}

proof fn lemma_change_names()
    ensures
        seq!["changed"@, "blocked"@].no_duplicates(),
{
    reveal_strlit("changed");
    reveal_strlit("blocked");
    let names = seq!["changed"@, "blocked"@];
    assert("changed"@.len() == 7);
    assert("blocked"@.len() == 7);
    assert("changed"@[0] == 'c' && "blocked"@[0] == 'b');
    assert forall|i: int, j: int|
        0 <= i < names.len() && 0 <= j < names.len() && i != j implies names[i] != names[j] by {}
}

/// Whether `v` can be read as the outcome of a change.
pub open spec fn change_fits(v: Json) -> bool {
    &&& has_room(v, 1, 2)
    &&& int_fits(part(v, "changed"@, 0), 0, u64::MAX as int)
    &&& part(v, "blocked"@, 1) matches Some(f) ==> texts_fit(f)
}

/// Whether `v` holds the outcome `x` of a change.
pub open spec fn change_is(v: Json, x: BudgetChange) -> bool {
    &&& has_room(v, 1, 2)
    &&& int_is(part(v, "changed"@, 0), x.changed as int)
    &&& match part(v, "blocked"@, 1) {
        Some(f) => texts_are(f, x.blocked@),
        None => x.blocked@.len() == 0,
    }
}

proof fn lemma_change(v: Json)
    ensures
        change_of(v) is Some == change_fits(v),
        forall|x: BudgetChange|
            change_of(v) == Some((x.changed, #[trigger] texts(x.blocked@))) ==> change_is(v, x),
{
    lemma_change_names();
    let names = seq!["changed"@, "blocked"@];
    assert(change_fields() =~= names);
    assert(names[0] == "changed"@);
    assert(names[1] == "blocked"@);
    if has_room(v, 1, 2) {
        lemma_parts(v, names, 1);
        assert forall|x: BudgetChange|
            change_of(v) == Some((x.changed, #[trigger] texts(x.blocked@))) implies change_is(v,
                x) by {
            assert(texts(x.blocked@).len() == x.blocked@.len());
            if let Some(f) = part(v, "blocked"@, 1) {
                let items = f->Arr_0;
                assert forall|i: int| 0 <= i < items.len() implies #[trigger] items[i] == Json::Str(
                    x.blocked@[i]@,
                ) by {
                    assert(items[i] is Str);
                    assert(text_list(f)[i] == items[i]->Str_0);
                    assert(texts(x.blocked@)[i] == x.blocked@[i]@);
                }
            }
        }
    } else {
        assert forall|name: Seq<char>| #[trigger] get(record(v, names, 1), name) is None by {
            lemma_no_room(v, names, 1, name);
        }
        assert(!(record(v, names, 1) is Obj));
    }
}

/// Whether `v` can be read as texts.
pub open spec fn texts_fit(v: Json) -> bool {
    v matches Json::Arr(items) && forall|i: int|
        0 <= i < items.len() ==> (#[trigger] items[i]) is Str
}

/// Whether `v` holds the texts `list`, in order.
pub open spec fn texts_are(v: Json, list: Seq<String>) -> bool {
    v matches Json::Arr(items) && items.len() == list.len() && forall|i: int|
        0 <= i < items.len() ==> #[trigger] items[i] == Json::Str(list[i]@)
}

/// Whether `v` can be read as budgets.
pub open spec fn budgets_fit(v: Json) -> bool {
    v matches Json::Arr(items) && forall|i: int|
        0 <= i < items.len() ==> budget_fits(#[trigger] items[i])
}

/// Whether `v` holds the budgets `list`, in order.
pub open spec fn budgets_are(v: Json, list: Seq<Budget>) -> bool {
    v matches Json::Arr(items) && items.len() == list.len() && forall|i: int|
        0 <= i < items.len() ==> budget_is(#[trigger] items[i], list[i])
}

/// Budgets, their strategies and the outcomes of changes are read field by
/// field, listed budgets in order.
pub proof fn law_budget_records_are_what_was_sent(
    v: &Value,
    strategy: Option<BudgetStrategy>,
    budget: Option<Budget>,
    change: Option<BudgetChange>,
    list: Option<Vec<Budget>>,
)
    ensures
        call_ensures(BudgetStrategy::from_value, (v,), strategy) ==> strategy is Some
            == strategy_fits(v@) && (strategy matches Some(x) ==> strategy_is(v@, x)),
        call_ensures(Budget::from_value, (v,), budget) ==> budget is Some == budget_fits(v@) && (
        budget matches Some(x) ==> budget_is(v@, x)),
        call_ensures(BudgetChange::from_value, (v,), change) ==> change is Some == change_fits(v@)
            && (change matches Some(x) ==> change_is(v@, x)),
        call_ensures(read_budgets, (v,), list) ==> list is Some == (has_room(v@, 1, 1) && (part(
            v@,
            "budgets"@,
            0,
        ) matches Some(f) && budgets_fit(f))) && (list matches Some(x) ==> (part(
            v@,
            "budgets"@,
            0,
        ) matches Some(f) && budgets_are(f, x@))),
{
    lemma_strategy(v@);
    lemma_budget(v@);
    lemma_change(v@);
    if let Some(f) = part(v@, "budgets"@, 0) {
        if let Json::Arr(items) = f {
            assert forall|i: int| 0 <= i < items.len() implies (BudgetModel::of(
                #[trigger] items[i],
            ) is Some) == budget_fits(items[i]) by {
                lemma_budget(items[i]);
            }
            if call_ensures(read_budgets, (v,), list) {
                if let Some(x) = list {
                    assert(budget_views(x@).len() == x@.len());
                    assert(budgets_of(f).len() == items.len());
                    assert forall|i: int| 0 <= i < items.len() implies budget_is(
                        #[trigger] items[i],
                        x@[i],
                    ) by {
                        lemma_budget(items[i]);
                        assert(budgets_of(f)[i] == BudgetModel::of(items[i])->0);
                        assert(budget_views(x@)[i] == x@[i]@);
                    }
                }
            }
        }
    }
    if call_ensures(BudgetStrategy::from_value, (v,), strategy) {
        if let Some(x) = strategy {
            assert(x@ == Wire::of(v@)->0.strategy());
        }
    }
    if call_ensures(BudgetChange::from_value, (v,), change) {
        if let Some(x) = change {
            assert(change_of(v@) == Some((x.changed, texts(x.blocked@))));
        }
    }
}

/// Whether `v` holds the error record `x`.
pub open spec fn error_is(v: Json, x: ErrorRecord) -> bool {
    &&& int_is(get(v, "attempt"@), x.attempt as int)
    &&& text_is(get(v, "message"@), x.message@)
    &&& opt_text_is(get(v, "error_type"@), x.error_type)
    &&& opt_text_is(get(v, "backtrace"@), x.backtrace)
    &&& int_is(get(v, "dequeued_at"@), x.dequeued_at as int)
    &&& int_is(get(v, "failed_at"@), x.failed_at as int)
}

/// Whether `v` can be read as an error record.
pub open spec fn error_fits(v: Json) -> bool {
    &&& int_fits(get(v, "attempt"@), 0, u32::MAX as int)
    &&& text_fits(get(v, "message"@))
    &&& opt_text_fits(get(v, "error_type"@))
    &&& opt_text_fits(get(v, "backtrace"@))
    &&& int_fits(get(v, "dequeued_at"@), i64::MIN as int, i64::MAX as int)
    &&& int_fits(get(v, "failed_at"@), i64::MIN as int, i64::MAX as int)
}

/// Error records are read field by field, and a page of them in order with
/// its links.
pub proof fn law_error_records_are_what_was_sent(
    v: &Value,
    record: Option<ErrorRecord>,
    page: Option<ErrorPage>,
)
    ensures
        call_ensures(ErrorRecord::from_value, (v,), record) ==> record is Some == error_fits(v@)
            && (
        record matches Some(x) ==> error_is(v@, x)),
        call_ensures(ErrorPage::from_value, (v,), page) ==> (page matches Some(x) ==> (get(
            v@,
            "errors"@,
        ) matches Some(Json::Arr(items)) && items.len() == x.errors@.len() && forall|i: int|
            0 <= i < items.len() ==> error_is(#[trigger] items[i], x.errors@[i])) && (get(
            v@,
            "pages"@,
        ) matches Some(f) && links_is(f, x.pages))),
        call_ensures(ErrorPage::from_value, (v,), page) ==> page is Some == ((get(v@, "errors"@)
            matches Some(Json::Arr(items)) && forall|i: int|
            0 <= i < items.len() ==> error_fits(#[trigger] items[i])) && (get(v@, "pages"@)
            matches Some(f) && links_fits(f))),
{
    if let Some(f) = get(v@, "pages"@) {
        lemma_links(f);
    }
    if call_ensures(ErrorPage::from_value, (v,), page) {
        if let Some(x) = page {
            let f = get(v@, "errors"@)->0;
            let items = f->Arr_0;
            assert(links_read(x.pages, get(v@, "pages"@)->0));
            assert forall|i: int| 0 <= i < items.len() implies error_is(
                #[trigger] items[i],
                x.errors@[i],
            ) by {
                assert(x.errors@[i].read_from(items[i]));
                assert(is_record(items[i]));
            }
        }
        if let Some(Json::Arr(items)) = get(v@, "errors"@) {
            assert forall|i: int| 0 <= i < items.len() implies is_record(#[trigger] items[i])
                == error_fits(items[i]) by {}
        }
    }
}

} // verus!
