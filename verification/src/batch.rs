//! Batched jobs: enqueues that fold into one job on the server.

use vstd::prelude::*;
use crate::decode::{by_position, read_text_field, record, text_field};
use crate::json::{group_value_models, Json, Value};
use crate::text::slice_texts;
use crate::wire::{field, lemma_field, Fields};

verus! {

/// A batched-job configuration attached to an enqueue request.
#[derive(Debug, Clone, PartialEq, Eq)]
pub struct BatchConfig {
    /// Identifies the batch.
    pub key: String,
    /// jq predicate that decides whether a new payload still folds into
    /// the existing batch.
    pub when: String,
    /// jq expression that merges a new payload into the existing batch.
    pub fold: String,
}

impl View for BatchConfig {
    type V = (Seq<char>, Seq<char>, Seq<char>);

    open spec fn view(&self) -> (Seq<char>, Seq<char>, Seq<char>) {
        (self.key@, self.when@, self.fold@)
    }
}

/// The fields of a batch configuration, in order.
pub open spec fn batch_fields() -> Seq<Seq<char>> {
    seq!["key"@, "when"@, "fold"@]
}

/// The batch configuration that a JSON value holds.
pub open spec fn batch_of(v: Json) -> Option<(Seq<char>, Seq<char>, Seq<char>)> {
    let v = record(v, batch_fields(), 3);
    match (text_field(v, "key"@), text_field(v, "when"@), text_field(v, "fold"@)) {
        (Some(key), Some(when), Some(fold)) => Some((key, when, fold)),
        _ => None,
    }
}

impl BatchConfig {
    /// This configuration in the API.
    pub open spec fn json(&self) -> Json {
        Json::Obj(
            field("key"@, Json::Str(self.key@)) + field("when"@, Json::Str(self.when@)) + field(
                "fold"@,
                Json::Str(self.fold@),
            ),
        )
    }

    /// This configuration in the API.
    pub fn to_value(&self) -> (r: Value)
        ensures
            r@ == self.json(),
    {
        let mut out = Fields::new();
        out.text("key", self.key.as_str());
        out.text("when", self.when.as_str());
        out.text("fold", self.fold.as_str());
        assert(out@ =~= self.json()->Obj_0);
        out.object()
    }

    /// Reads a configuration from the API.
    pub fn from_value(v: &Value) -> (r: Option<BatchConfig>)
        ensures
            r is Some == batch_of(v@) is Some,
            r matches Some(b) ==> batch_of(v@) == Some(b@),
    {
        broadcast use group_value_models;

        match v {
            Value::Array(items) => {
                let names = vec!["key", "when", "fold"];
                assert(slice_texts(names@) =~= batch_fields());
                BatchConfig::from_record(&by_position(items, &names, 3))
            },
            _ => BatchConfig::from_record(v),
        }
    }

    fn from_record(v: &Value) -> (r: Option<BatchConfig>)
        requires
            !(v@ is Arr),
        ensures
            r is Some == batch_of(v@) is Some,
            r matches Some(b) ==> batch_of(v@) == Some(b@),
    {
        match (read_text_field(v, "key"), read_text_field(v, "when"), read_text_field(v, "fold")) {
            (Some(key), Some(when), Some(fold)) => Some(BatchConfig { key, when, fold }),
            _ => None,
        }
    }

    /// A copy of this configuration.
    pub fn copy(&self) -> (r: BatchConfig)
        ensures
            r == *self,
    {
        BatchConfig { key: self.key.clone(), when: self.when.clone(), fold: self.fold.clone() }
    }
}

/// What was written reads back as it was.
pub proof fn law_batch_round_trip(b: BatchConfig)
    ensures
        batch_of(b.json()) == Some(b@),
{
    reveal_strlit("key");
    reveal_strlit("when");
    reveal_strlit("fold");
    assert("key"@.len() == 3 && "when"@[0] == 'w' && "fold"@[0] == 'f');
    let none = Seq::<(Seq<char>, Json)>::empty();
    let one = field("key"@, Json::Str(b.key@));
    let two = one + field("when"@, Json::Str(b.when@));
    assert(none + one =~= one);
    lemma_field(none, "key"@, Some(Json::Str(b.key@)), "when"@);
    lemma_field(none, "key"@, Some(Json::Str(b.key@)), "fold"@);
    lemma_field(one, "when"@, Some(Json::Str(b.when@)), "key"@);
    lemma_field(one, "when"@, Some(Json::Str(b.when@)), "fold"@);
    lemma_field(two, "fold"@, Some(Json::Str(b.fold@)), "key"@);
    lemma_field(two, "fold"@, Some(Json::Str(b.fold@)), "when"@);
}

} // verus!
