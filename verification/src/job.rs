//! What a job type declares about its jobs.

use vstd::prelude::*;
use crate::batch::BatchConfig;
use crate::budget::BudgetBindingInput;
use crate::json::Value;
use crate::resources::{BackoffConfig, RetentionConfig};
use crate::unique_key::UniqueKey;

verus! {

/// The defaults that a job type declares. Whatever an enqueue sets
/// replaces the default.
#[derive(Debug)]
pub struct JobKind {
    /// Name of the job type.
    pub name: String,
    /// Queue that jobs go to.
    pub queue: String,
    pub priority: Option<u16>,
    pub retry_limit: Option<u32>,
    pub backoff: Option<BackoffConfig>,
    pub retention: Option<RetentionConfig>,
    /// Budgets that jobs are bound to.
    pub budgets: Vec<BudgetBindingInput>,
}

impl JobKind {
    /// A job type that declares its name only: jobs go to the queue
    /// `default`.
    pub fn new(name: &str) -> (r: JobKind)
        ensures
            r.name@ == name@,
            r.queue@ == "default"@,
            r.priority is None,
            r.retry_limit is None,
            r.backoff is None,
            r.retention is None,
            r.budgets@.len() == 0,
    {
        JobKind {
            name: name.to_owned(),
            queue: "default".to_owned(),
            priority: None,
            retry_limit: None,
            backoff: None,
            retention: None,
            budgets: Vec::new(),
        }
    }
}

/// A payload, with what it says about its own uniqueness and batching.
#[derive(Debug)]
pub struct Payload {
    pub value: Value,
    pub unique_key: Option<UniqueKey>,
    pub batch: Option<BatchConfig>,
}

impl Payload {
    /// A payload that is neither unique nor batched.
    pub fn new(value: Value) -> (r: Payload)
        ensures
            r == (Payload { value, unique_key: None, batch: None }),
    {
        Payload { value, unique_key: None, batch: None }
    }
}

} // verus!
