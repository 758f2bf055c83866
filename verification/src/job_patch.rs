//! Job updates in the form of a JSON Merge Patch.
//!
//! A field of a patch says one of three things: *keep* leaves the field
//! out, *clear* sends it as null so that the server resets it, and *set*
//! sends a new value.

use vstd::prelude::*;
use crate::decode::get;
use crate::json::{has_key, lemma_position_is, lookup, Json, Value};
use crate::resources::BackoffConfig;
use crate::wire::{field, lemma_lookup_concat, Fields};

verus! {

/// What a patch says about one field.
#[derive(Debug, Clone, Copy, PartialEq, Eq)]
pub enum Field<T> {
    /// Leave the field unchanged.
    Keep,
    /// Reset the field to its default.
    Clear,
    /// Give the field a new value.
    Replace(T),
}

impl<T> Field<T> {
    /// Whether the field is left unchanged.
    pub fn is_keep(&self) -> (r: bool)
        ensures
            r == (*self is Keep),
    {
        match self {
            Field::Keep => true,
            _ => false,
        }
    }
}

/// The object entries that a patch field amounts to.
pub open spec fn merge_field(name: Seq<char>, f: Field<Json>) -> Seq<(Seq<char>, Json)> {
    match f {
        Field::Keep => Seq::empty(),
        Field::Clear => field(name, Json::Null),
        Field::Replace(v) => field(name, v),
    }
}

/// A number field as JSON.
pub open spec fn field_u64(f: Field<u64>) -> Field<Json> {
    match f {
        Field::Keep => Field::Keep,
        Field::Clear => Field::Clear,
        Field::Replace(n) => Field::Replace(Json::Int(n as int)),
    }
}

/// A number field as JSON.
pub open spec fn field_u32(f: Field<u32>) -> Field<Json> {
    match f {
        Field::Keep => Field::Keep,
        Field::Clear => Field::Clear,
        Field::Replace(n) => Field::Replace(Json::Int(n as int)),
    }
}

/// A number field as JSON.
pub open spec fn field_u16(f: Field<u16>) -> Field<Json> {
    match f {
        Field::Keep => Field::Keep,
        Field::Clear => Field::Clear,
        Field::Replace(n) => Field::Replace(Json::Int(n as int)),
    }
}

/// A text field as JSON.
pub open spec fn field_text(f: Field<String>) -> Field<Json> {
    match f {
        Field::Keep => Field::Keep,
        Field::Clear => Field::Clear,
        Field::Replace(s) => Field::Replace(Json::Str(s@)),
    }
}

/// A value field as JSON.
pub open spec fn field_value(f: Field<Value>) -> Field<Json> {
    match f {
        Field::Keep => Field::Keep,
        Field::Clear => Field::Clear,
        Field::Replace(v) => Field::Replace(v@),
    }
}

/// Adds what a patch field amounts to.
pub fn put_field(out: &mut Fields, name: &str, f: Field<Value>)
    ensures
        final(out)@ == old(out)@ + merge_field(name@, field_value(f)),
{
    match f {
        Field::Keep => {
            assert(out@ =~= old(out)@ + Seq::<(Seq<char>, Json)>::empty());
        },
        Field::Clear => out.value(name, Value::Null),
        Field::Replace(v) => out.value(name, v),
    }
}

/// Adds what a number field amounts to.
pub fn put_number(out: &mut Fields, name: &str, f: Field<u64>)
    ensures
        final(out)@ == old(out)@ + merge_field(name@, field_u64(f)),
{
    match f {
        Field::Keep => {
            assert(out@ =~= old(out)@ + Seq::<(Seq<char>, Json)>::empty());
        },
        Field::Clear => out.value(name, Value::Null),
        Field::Replace(n) => out.number(name, n),
    }
}

/// A 32-bit number field, widened.
pub fn widen_u32(f: Field<u32>) -> (r: Field<u64>)
    ensures
        field_u64(r) == field_u32(f),
{
    match f {
        Field::Keep => Field::Keep,
        Field::Clear => Field::Clear,
        Field::Replace(n) => Field::Replace(n as u64),
    }
}

/// A 16-bit number field, widened.
pub fn widen_u16(f: Field<u16>) -> (r: Field<u64>)
    ensures
        field_u64(r) == field_u16(f),
{
    match f {
        Field::Keep => Field::Keep,
        Field::Clear => Field::Clear,
        Field::Replace(n) => Field::Replace(n as u64),
    }
}

/// Adds what a text field amounts to.
pub fn put_text(out: &mut Fields, name: &str, f: &Field<String>)
    ensures
        final(out)@ == old(out)@ + merge_field(name@, field_text(*f)),
{
    match f {
        Field::Keep => {
            assert(out@ =~= old(out)@ + Seq::<(Seq<char>, Json)>::empty());
        },
        Field::Clear => out.value(name, Value::Null),
        Field::Replace(s) => out.text(name, s.as_str()),
    }
}

/// Changes to a job's retention: itself a merge patch.
#[derive(Debug, Clone, Copy, PartialEq, Eq)]
pub struct RetentionPatch {
    pub completed_ms: Field<u64>,
    pub dead_ms: Field<u64>,
}

impl RetentionPatch {
    /// This patch in the API.
    pub open spec fn json(&self) -> Json {
        Json::Obj(
            merge_field("completed_ms"@, field_u64(self.completed_ms)) + merge_field(
                "dead_ms"@,
                field_u64(self.dead_ms),
            ),
        )
    }

    /// This patch in the API.
    pub fn to_value(&self) -> (r: Value)
        ensures
            r@ == self.json(),
    {
        let mut out = Fields::new();
        put_number(&mut out, "completed_ms", self.completed_ms);
        put_number(&mut out, "dead_ms", self.dead_ms);
        assert(out@ =~= self.json()->Obj_0);
        out.object()
    }

    /// A patch that changes nothing.
    pub fn new() -> (r: RetentionPatch)
        ensures
            r.completed_ms is Keep,
            r.dead_ms is Keep,
    {
        RetentionPatch { completed_ms: Field::Keep, dead_ms: Field::Keep }
    }

    /// Sets how long completed jobs are kept.
    pub fn completed_ms(self, completed_ms: u64) -> (r: RetentionPatch)
        ensures
            r == (RetentionPatch { completed_ms: Field::Replace(completed_ms), ..self }),
    {
        RetentionPatch { completed_ms: Field::Replace(completed_ms), ..self }
    }

    /// Resets how long completed jobs are kept.
    pub fn clear_completed_ms(self) -> (r: RetentionPatch)
        ensures
            r == (RetentionPatch { completed_ms: Field::Clear, ..self }),
    {
        RetentionPatch { completed_ms: Field::Clear, ..self }
    }

    /// Leaves how long completed jobs are kept unchanged.
    pub fn keep_completed_ms(self) -> (r: RetentionPatch)
        ensures
            r == (RetentionPatch { completed_ms: Field::Keep, ..self }),
    {
        RetentionPatch { completed_ms: Field::Keep, ..self }
    }

    /// Sets how long dead jobs are kept.
    pub fn dead_ms(self, dead_ms: u64) -> (r: RetentionPatch)
        ensures
            r == (RetentionPatch { dead_ms: Field::Replace(dead_ms), ..self }),
    {
        RetentionPatch { dead_ms: Field::Replace(dead_ms), ..self }
    }

    /// Resets how long dead jobs are kept.
    pub fn clear_dead_ms(self) -> (r: RetentionPatch)
        ensures
            r == (RetentionPatch { dead_ms: Field::Clear, ..self }),
    {
        RetentionPatch { dead_ms: Field::Clear, ..self }
    }

    /// Leaves how long dead jobs are kept unchanged.
    pub fn keep_dead_ms(self) -> (r: RetentionPatch)
        ensures
            r == (RetentionPatch { dead_ms: Field::Keep, ..self }),
    {
        RetentionPatch { dead_ms: Field::Keep, ..self }
    }
}

/// Changes to apply to a job. A field that no setter touched is left
/// unchanged on the server.
#[derive(Debug, Clone, PartialEq, Eq)]
pub struct JobPatch {
    pub queue: Field<String>,
    pub priority: Field<u16>,
    pub ready_at: Field<u64>,
    pub retry_limit: Field<u32>,
    pub backoff: Field<BackoffConfig>,
    pub retention: Field<RetentionPatch>,
}

/// A backoff field as JSON.
pub open spec fn field_backoff(f: Field<BackoffConfig>) -> Field<Json> {
    match f {
        Field::Keep => Field::Keep,
        Field::Clear => Field::Clear,
        Field::Replace(b) => Field::Replace(b.json()),
    }
}

/// A retention field as JSON.
pub open spec fn field_retention(f: Field<RetentionPatch>) -> Field<Json> {
    match f {
        Field::Keep => Field::Keep,
        Field::Clear => Field::Clear,
        Field::Replace(p) => Field::Replace(p.json()),
    }
}

impl JobPatch {
    /// This patch in the API.
    pub open spec fn json(&self) -> Json {
        Json::Obj(
            merge_field("queue"@, field_text(self.queue)) + merge_field(
                "priority"@,
                field_u16(self.priority),
            ) + merge_field("ready_at"@, field_u64(self.ready_at)) + merge_field(
                "retry_limit"@,
                field_u32(self.retry_limit),
            ) + merge_field("backoff"@, field_backoff(self.backoff)) + merge_field(
                "retention"@,
                field_retention(self.retention),
            ),
        )
    }

    /// This patch in the API.
    pub fn to_value(&self) -> (r: Value)
        ensures
            r@ == self.json(),
    {
        let mut out = Fields::new();
        put_text(&mut out, "queue", &self.queue);
        put_number(&mut out, "priority", widen_u16(self.priority));
        put_number(&mut out, "ready_at", self.ready_at);
        put_number(&mut out, "retry_limit", widen_u32(self.retry_limit));
        let backoff = match &self.backoff {
            Field::Keep => Field::Keep,
            Field::Clear => Field::Clear,
            Field::Replace(b) => Field::Replace(b.to_value()),
        };
        put_field(&mut out, "backoff", backoff);
        let retention = match &self.retention {
            Field::Keep => Field::Keep,
            Field::Clear => Field::Clear,
            Field::Replace(p) => Field::Replace(p.to_value()),
        };
        put_field(&mut out, "retention", retention);
        assert(out@ =~= self.json()->Obj_0);
        out.object()
    }

    /// A patch that changes nothing.
    pub fn new() -> (r: JobPatch)
        ensures
            r.queue is Keep,
            r.priority is Keep,
            r.ready_at is Keep,
            r.retry_limit is Keep,
            r.backoff is Keep,
            r.retention is Keep,
    {
        JobPatch {
            queue: Field::Keep,
            priority: Field::Keep,
            ready_at: Field::Keep,
            retry_limit: Field::Keep,
            backoff: Field::Keep,
            retention: Field::Keep,
        }
    }

    /// Moves the job to another queue.
    pub fn queue(self, queue: &str) -> (r: JobPatch)
        ensures
            field_text(r.queue) == Field::Replace(Json::Str(queue@)),
            r == (JobPatch { queue: r.queue, ..self }),
    {
        JobPatch { queue: Field::Replace(queue.to_owned()), ..self }
    }

    /// Moves the job to another queue.
    pub fn move_to_queue(self, queue: &str) -> (r: JobPatch)
        ensures
            field_text(r.queue) == Field::Replace(Json::Str(queue@)),
            r == (JobPatch { queue: r.queue, ..self }),
    {
        self.queue(queue)
    }

    /// Leaves the queue unchanged.
    pub fn keep_queue(self) -> (r: JobPatch)
        ensures
            r == (JobPatch { queue: Field::Keep, ..self }),
    {
        JobPatch { queue: Field::Keep, ..self }
    }

    /// Sets the priority.
    pub fn priority(self, priority: u16) -> (r: JobPatch)
        ensures
            r == (JobPatch { priority: Field::Replace(priority), ..self }),
    {
        JobPatch { priority: Field::Replace(priority), ..self }
    }

    /// Leaves the priority unchanged.
    pub fn keep_priority(self) -> (r: JobPatch)
        ensures
            r == (JobPatch { priority: Field::Keep, ..self }),
    {
        JobPatch { priority: Field::Keep, ..self }
    }

    /// Sets when the job becomes ready, in Unix milliseconds.
    pub fn ready_at(self, ready_at_ms: u64) -> (r: JobPatch)
        ensures
            r == (JobPatch { ready_at: Field::Replace(ready_at_ms), ..self }),
    {
        JobPatch { ready_at: Field::Replace(ready_at_ms), ..self }
    }

    /// Resets when the job becomes ready, which makes it ready now.
    pub fn clear_ready_at(self) -> (r: JobPatch)
        ensures
            r == (JobPatch { ready_at: Field::Clear, ..self }),
    {
        JobPatch { ready_at: Field::Clear, ..self }
    }

    /// Makes the job ready now.
    pub fn ready_now(self) -> (r: JobPatch)
        ensures
            r == (JobPatch { ready_at: Field::Clear, ..self }),
    {
        self.clear_ready_at()
    }

    /// Leaves when the job becomes ready unchanged.
    pub fn keep_ready_at(self) -> (r: JobPatch)
        ensures
            r == (JobPatch { ready_at: Field::Keep, ..self }),
    {
        JobPatch { ready_at: Field::Keep, ..self }
    }

    /// Sets the retry limit.
    pub fn retry_limit(self, retry_limit: u32) -> (r: JobPatch)
        ensures
            r == (JobPatch { retry_limit: Field::Replace(retry_limit), ..self }),
    {
        JobPatch { retry_limit: Field::Replace(retry_limit), ..self }
    }

    /// Resets the retry limit.
    pub fn clear_retry_limit(self) -> (r: JobPatch)
        ensures
            r == (JobPatch { retry_limit: Field::Clear, ..self }),
    {
        JobPatch { retry_limit: Field::Clear, ..self }
    }

    /// Leaves the retry limit unchanged.
    pub fn keep_retry_limit(self) -> (r: JobPatch)
        ensures
            r == (JobPatch { retry_limit: Field::Keep, ..self }),
    {
        JobPatch { retry_limit: Field::Keep, ..self }
    }

    /// Sets the backoff.
    pub fn backoff(self, backoff: BackoffConfig) -> (r: JobPatch)
        ensures
            r == (JobPatch { backoff: Field::Replace(backoff), ..self }),
    {
        JobPatch { backoff: Field::Replace(backoff), ..self }
    }

    /// Resets the backoff.
    pub fn clear_backoff(self) -> (r: JobPatch)
        ensures
            r == (JobPatch { backoff: Field::Clear, ..self }),
    {
        JobPatch { backoff: Field::Clear, ..self }
    }

    /// Leaves the backoff unchanged.
    pub fn keep_backoff(self) -> (r: JobPatch)
        ensures
            r == (JobPatch { backoff: Field::Keep, ..self }),
    {
        JobPatch { backoff: Field::Keep, ..self }
    }

    /// Changes the retention, field by field.
    pub fn retention(self, retention: RetentionPatch) -> (r: JobPatch)
        ensures
            r == (JobPatch { retention: Field::Replace(retention), ..self }),
    {
        JobPatch { retention: Field::Replace(retention), ..self }
    }

    /// Resets the retention as a whole.
    pub fn clear_retention(self) -> (r: JobPatch)
        ensures
            r == (JobPatch { retention: Field::Clear, ..self }),
    {
        JobPatch { retention: Field::Clear, ..self }
    }

    /// Leaves the retention unchanged.
    pub fn keep_retention(self) -> (r: JobPatch)
        ensures
            r == (JobPatch { retention: Field::Keep, ..self }),
    {
        JobPatch { retention: Field::Keep, ..self }
    }
}

/// What an object says about a field: keep where it is missing, clear
/// where it is null, set otherwise.
pub open spec fn stated(v: Option<Json>) -> Field<Json> {
    match v {
        None => Field::Keep,
        Some(Json::Null) => Field::Clear,
        Some(v) => Field::Replace(v),
    }
}

/// What looking a name up in the entries of one patch field finds.
pub proof fn lemma_merge_field(name: Seq<char>, f: Field<Json>, other: Seq<char>)
    requires
        !(f matches Field::Replace(v) && v is Null),
    ensures
        stated(lookup(merge_field(name, f), name)) == f,
        has_key(merge_field(name, f), name) == !(f is Keep),
        other != name ==> !has_key(merge_field(name, f), other),
{
    let entries = merge_field(name, f);
    if entries.len() > 0 {
        lemma_position_is(entries, name, 0);
        if other != name {
            lemma_position_is(entries, other, 1);
        }
    } else {
        lemma_position_is(entries, name, 0);
        lemma_position_is(entries, other, 0);
    }
}

/// Entries of fields in a row: looking up a name that only the last field
/// can have, or that only the fields before it can have.
proof fn lemma_last_field(
    before: Seq<(Seq<char>, Json)>,
    last: Seq<char>,
    f: Field<Json>,
    name: Seq<char>,
)
    requires
        !(f matches Field::Replace(v) && v is Null),
    ensures
        name != last ==> lookup(before + merge_field(last, f), name) == lookup(before, name),
        !has_key(before, last) ==> stated(lookup(before + merge_field(last, f), last)) == f,
        has_key(before + merge_field(last, f), name) ==> has_key(before, name) || name == last,
{
    lemma_merge_field(last, f, name);
    lemma_lookup_concat(before, merge_field(last, f), name);
    lemma_lookup_concat(before, merge_field(last, f), last);
    assert(lookup(before + merge_field(last, f), name) is Some == has_key(
        before + merge_field(last, f),
        name,
    ));
    assert(lookup(before, name) is Some == has_key(before, name));
}

/// The names of a patch's fields all differ.
proof fn lemma_patch_names()
    ensures
        "queue"@ != "priority"@,
        "queue"@ != "ready_at"@,
        "queue"@ != "retry_limit"@,
        "queue"@ != "backoff"@,
        "queue"@ != "retention"@,
        "priority"@ != "ready_at"@,
        "priority"@ != "retry_limit"@,
        "priority"@ != "backoff"@,
        "priority"@ != "retention"@,
        "ready_at"@ != "retry_limit"@,
        "ready_at"@ != "backoff"@,
        "ready_at"@ != "retention"@,
        "retry_limit"@ != "backoff"@,
        "retry_limit"@ != "retention"@,
        "backoff"@ != "retention"@,
        "completed_ms"@ != "dead_ms"@,
{
    reveal_strlit("queue");
    reveal_strlit("priority");
    reveal_strlit("ready_at");
    reveal_strlit("retry_limit");
    reveal_strlit("backoff");
    reveal_strlit("retention");
    reveal_strlit("completed_ms");
    reveal_strlit("dead_ms");
    assert("queue"@.len() == 5 && "priority"@.len() == 8 && "ready_at"@.len() == 8);
    assert("retry_limit"@.len() == 11 && "backoff"@.len() == 7 && "retention"@.len() == 9);
    assert("completed_ms"@.len() == 12 && "dead_ms"@.len() == 7);
    assert("priority"@[0] == 'p' && "ready_at"@[0] == 'r');
}

/// A patch says about each field exactly what was asked for: a kept field
/// is absent, a cleared one null, a set one its value. Nothing else is in
/// it.
pub proof fn law_patch_states_each_field(p: JobPatch, name: Seq<char>)
    ensures
        stated(get(p.json(), "queue"@)) == field_text(p.queue),
        stated(get(p.json(), "priority"@)) == field_u16(p.priority),
        stated(get(p.json(), "ready_at"@)) == field_u64(p.ready_at),
        stated(get(p.json(), "retry_limit"@)) == field_u32(p.retry_limit),
        stated(get(p.json(), "backoff"@)) == field_backoff(p.backoff),
        stated(get(p.json(), "retention"@)) == field_retention(p.retention),
        get(p.json(), name) is Some ==> name == "queue"@ || name == "priority"@ || name
            == "ready_at"@ || name == "retry_limit"@ || name == "backoff"@ || name == "retention"@,
{
    lemma_patch_names();
    let names = seq![
        "queue"@,
        "priority"@,
        "ready_at"@,
        "retry_limit"@,
        "backoff"@,
        "retention"@,
        name,
    ];
    let f0 = field_text(p.queue);
    let f1 = field_u16(p.priority);
    let f2 = field_u64(p.ready_at);
    let f3 = field_u32(p.retry_limit);
    let f4 = field_backoff(p.backoff);
    let f5 = field_retention(p.retention);
    let s0 = Seq::<(Seq<char>, Json)>::empty();
    let s1 = s0 + merge_field("queue"@, f0);
    let s2 = s1 + merge_field("priority"@, f1);
    let s3 = s2 + merge_field("ready_at"@, f2);
    let s4 = s3 + merge_field("retry_limit"@, f3);
    let s5 = s4 + merge_field("backoff"@, f4);
    let s6 = s5 + merge_field("retention"@, f5);
    assert(s1 =~= merge_field("queue"@, f0));
    assert(p.json() == Json::Obj(s6));
    assert forall|k: int| 0 <= k < names.len() implies !has_key(s0, #[trigger] names[k]) by {}
    lemma_field_chain(s0, "queue"@, f0, names);
    lemma_field_chain(s1, "priority"@, f1, names);
    lemma_field_chain(s2, "ready_at"@, f2, names);
    lemma_field_chain(s3, "retry_limit"@, f3, names);
    lemma_field_chain(s4, "backoff"@, f4, names);
    lemma_field_chain(s5, "retention"@, f5, names);
    assert(names[0] == "queue"@ && names[1] == "priority"@ && names[2] == "ready_at"@);
    assert(names[3] == "retry_limit"@ && names[4] == "backoff"@ && names[5] == "retention"@);
    assert(names[6] == name);
}

/// [`lemma_last_field`] for each of several names.
proof fn lemma_field_chain(
    before: Seq<(Seq<char>, Json)>,
    last: Seq<char>,
    f: Field<Json>,
    names: Seq<Seq<char>>,
)
    requires
        !(f matches Field::Replace(v) && v is Null),
    ensures
        forall|k: int|
            #![trigger names[k]]
            0 <= k < names.len() ==> {
                &&& names[k] != last ==> lookup(before + merge_field(last, f), names[k]) == lookup(
                    before,
                    names[k],
                )
                &&& has_key(before + merge_field(last, f), names[k]) ==> has_key(before, names[k])
                    || names[k] == last
            },
        !has_key(before, last) ==> stated(lookup(before + merge_field(last, f), last)) == f,
{
    assert forall|k: int|
        #![trigger names[k]]
        0 <= k < names.len() implies {
        &&& names[k] != last ==> lookup(before + merge_field(last, f), names[k]) == lookup(
            before,
            names[k],
        )
        &&& has_key(before + merge_field(last, f), names[k]) ==> has_key(before, names[k])
            || names[k] == last
    } by {
        lemma_last_field(before, last, f, names[k]);
    }
    lemma_last_field(before, last, f, last);
}

/// A fresh patch asks for nothing.
pub proof fn law_fresh_patch_is_empty(p: JobPatch)
    requires
        p.queue is Keep,
        p.priority is Keep,
        p.ready_at is Keep,
        p.retry_limit is Keep,
        p.backoff is Keep,
        p.retention is Keep,
    ensures
        p.json() == Json::Obj(Seq::empty()),
{
    assert(p.json()->Obj_0 =~= Seq::empty());
}

} // verus!
