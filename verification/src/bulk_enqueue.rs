//! Enqueueing many jobs, of any types, in one request.

use vstd::prelude::*;
use crate::decode::{read_sole, sole};
use crate::enqueue::{EnqueueBuilder, EnqueueRequest};
use crate::error::ZizqError;
use crate::jobs::Job;
use crate::json::{group_value_models, models, Json, Value};
use crate::list_jobs::{is_jobs, jobs_read, read_jobs};
use crate::request::{plain, plain_request, two_segments, Method, Request};
use crate::wire::{field, Fields};

verus! {

/// The JSON array of some enqueue requests.
pub open spec fn jobs_json(list: Seq<EnqueueRequest>) -> Json {
    Json::Arr(Seq::new(list.len(), |i: int| list[i].json()))
}

/// The body of a bulk enqueue.
pub open spec fn bulk_json(list: Seq<EnqueueRequest>) -> Json {
    Json::Obj(field("jobs"@, jobs_json(list)))
}

/// The JSON array of some enqueue requests.
fn jobs_value(list: &Vec<EnqueueRequest>) -> (r: Value)
    ensures
        r@ == jobs_json(list@),
{
    broadcast use group_value_models;

    let mut items: Vec<Value> = Vec::new();
    let mut i: usize = 0;
    while i < list.len()
        invariant
            i <= list@.len(),
            items@.len() == i,
            forall|j: int| 0 <= j < i ==> (#[trigger] items@[j])@ == list@[j].json(),
        decreases list@.len() - i,
    {
        items.push(list[i].to_value());
        i += 1;
    }
    assert(models(items@) =~= jobs_json(list@)->Arr_0);
    Value::Array(items)
}

/// Collects enqueues. The first one that cannot be resolved makes the
/// whole batch fail, and later ones change nothing about that.
#[derive(Debug)]
pub struct BulkEnqueueBuilder {
    pub state: Result<Vec<EnqueueRequest>, ZizqError>,
}

impl BulkEnqueueBuilder {
    /// The requests that were collected.
    pub open spec fn requests(&self) -> Seq<EnqueueRequest> {
        match self.state {
            Ok(list) => list@,
            Err(_) => Seq::empty(),
        }
    }

    /// An empty batch.
    pub fn new() -> (r: BulkEnqueueBuilder)
        ensures
            r.state is Ok,
            r.requests() == Seq::<EnqueueRequest>::empty(),
    {
        BulkEnqueueBuilder { state: Ok(Vec::new()) }
    }

    /// Adds one enqueue, for use in a chain.
    pub fn add(self, builder: EnqueueBuilder) -> (r: BulkEnqueueBuilder)
        ensures
            self.state is Ok ==> r.state is Ok && r.requests() == self.requests().push(
                builder.resolved(),
            ),
            self.state is Err ==> r == self,
    {
        let mut out = self;
        out.push(builder);
        out
    }

    /// Adds one enqueue, for use in a loop.
    pub fn push(&mut self, builder: EnqueueBuilder)
        ensures
            old(self).state is Ok ==> final(self).state is Ok && final(self).requests() == old(
                self).requests().push(builder.resolved()),
            old(self).state is Err ==> *final(self) == *old(self),
    {
        if let Err(_) = &self.state {
            return;
        }
        match builder.into_request() {
            Ok(request) => {
                if let Ok(list) = &mut self.state {
                    list.push(request);
                }
            },
            Err(e) => {
                self.state = Err(e);
            },
        }
    }

    /// How many jobs were collected; none where the batch has failed.
    pub fn len(&self) -> (r: usize)
        ensures
            r == self.requests().len(),
    {
        match &self.state {
            Ok(list) => list.len(),
            Err(_) => 0,
        }
    }

    /// Whether no job was collected.
    pub fn is_empty(&self) -> (r: bool)
        ensures
            r == (self.requests().len() == 0),
    {
        self.len() == 0
    }

    /// The request that enqueues every job, or the error that the batch
    /// failed with.
    pub fn request(self) -> (r: Result<Request, ZizqError>)
        ensures
            match self.state {
                Ok(list) => r matches Ok(request) && request@ == plain_request(
                    Method::Post,
                    seq!["jobs"@, "bulk"@],
                    Some(bulk_json(list@)),
                ),
                Err(e) => r == Err::<Request, ZizqError>(e),
            },
    {
        match self.state {
            Ok(list) => {
                let mut body = Fields::new();
                body.value("jobs", jobs_value(&list));
                assert(body@ =~= field("jobs"@, jobs_json(list@)));
                Ok(plain(Method::Post, two_segments("jobs", "bulk"), Some(body.object())))
            },
            Err(e) => Err(e),
        }
    }

    /// Reads the jobs that a bulk enqueue created, in the order in which
    /// they were submitted.
    pub fn read_response(v: &Value) -> (r: Option<Vec<Job>>)
        ensures
            r is Some == (sole(v@, "jobs"@) matches Some(f) && is_jobs(f)),
            r matches Some(list) ==> jobs_read(list@, sole(v@, "jobs"@)->0),
    {
        match read_sole(v, "jobs") {
            Some(f) => read_jobs(f),
            None => None,
        }
    }
}

} // verus!
