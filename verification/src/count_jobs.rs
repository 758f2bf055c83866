//! Counting jobs.

use vstd::prelude::*;
use crate::decode::{read_sole_u64, sole_int};
use crate::job_filter::{status_names, JobFilter, Selection};
use crate::json::Value;
use crate::request::{two_segments, Method, Params, Request, RequestModel};
use crate::resources::JobStatus;
use crate::text::slice_texts;

verus! {

/// Builder for a count of jobs.
#[derive(Debug)]
pub struct CountJobsBuilder {
    pub filters: JobFilter,
}

impl CountJobsBuilder {
    /// The request that this builder stands for.
    pub open spec fn model(&self) -> RequestModel {
        RequestModel {
            method: Method::Get,
            segments: seq!["jobs"@, "count"@],
            query: self.filters@.params(),
            body: None,
        }
    }

    /// Selects every job.
    pub fn new() -> (r: CountJobsBuilder)
        ensures
            r.filters@ == Selection::all(),
    {
        CountJobsBuilder { filters: JobFilter::new() }
    }

    /// Selects by status.
    pub fn status(self, statuses: &[JobStatus]) -> (r: CountJobsBuilder)
        ensures
            r.filters@ == (Selection { status: Some(status_names(statuses@)), ..self.filters@ }),
            r == (CountJobsBuilder { filters: r.filters, ..self }),
    {
        CountJobsBuilder { filters: self.filters.with_status(statuses), ..self }
    }

    /// Selects by queue.
    pub fn queue(self, queues: &[&str]) -> (r: CountJobsBuilder)
        ensures
            r.filters@ == (Selection { queue: Some(slice_texts(queues@)), ..self.filters@ }),
            r == (CountJobsBuilder { filters: r.filters, ..self }),
    {
        CountJobsBuilder { filters: self.filters.with_queue(queues), ..self }
    }

    /// Selects by job type.
    pub fn job_type(self, types: &[&str]) -> (r: CountJobsBuilder)
        ensures
            r.filters@ == (Selection { job_type: Some(slice_texts(types@)), ..self.filters@ }),
            r == (CountJobsBuilder { filters: r.filters, ..self }),
    {
        CountJobsBuilder { filters: self.filters.with_job_type(types), ..self }
    }

    /// Selects by id.
    pub fn id(self, ids: &[&str]) -> (r: CountJobsBuilder)
        ensures
            r.filters@ == (Selection { id: Some(slice_texts(ids@)), ..self.filters@ }),
            r == (CountJobsBuilder { filters: r.filters, ..self }),
    {
        CountJobsBuilder { filters: self.filters.with_id(ids), ..self }
    }

    /// Selects by the budgets that jobs are bound to.
    pub fn budgets_key(self, keys: &[&str]) -> (r: CountJobsBuilder)
        ensures
            r.filters@ == (Selection { budgets_key: Some(slice_texts(keys@)), ..self.filters@ }),
            r == (CountJobsBuilder { filters: r.filters, ..self }),
    {
        CountJobsBuilder { filters: self.filters.with_budgets_key(keys), ..self }
    }

    /// Selects by a jq expression over the payload.
    pub fn filter(self, expr: &str) -> (r: CountJobsBuilder)
        ensures
            r.filters@ == (Selection { jq: Some(expr@), ..self.filters@ }),
            r == (CountJobsBuilder { filters: r.filters, ..self }),
    {
        CountJobsBuilder { filters: self.filters.with_filter(expr), ..self }
    }

    /// The request, whatever it selects.
    pub fn build_request(&self) -> (r: Request)
        ensures
            r@ == self.model(),
    {
        let mut query = Params::new();
        self.filters.append_to(&mut query);
        assert(query@ =~= self.filters@.params());
        Request {
            method: Method::Get,
            segments: two_segments("jobs", "count"),
            query: query.pairs,
            body: None,
        }
    }

    /// The request, unless no job can match: the
    /// count is zero then, without asking the server.
    pub fn request(&self) -> (r: Option<Request>)
        ensures
            r is None == self.filters@.nothing(),
            r matches Some(request) ==> request@ == self.model(),
    {
        if self.filters.matches_nothing() {
            None
        } else {
            Some(self.build_request())
        }
    }

    /// Reads the number of jobs from the response.
    pub fn read_response(v: &Value) -> (r: Option<u64>)
        ensures
            r is Some == sole_int(v@, "count"@, 0, u64::MAX as int) is Some,
            r matches Some(n) ==> sole_int(v@, "count"@, 0, u64::MAX as int) == Some(n as int),
    {
        read_sole_u64(v, "count")
    }
}

} // verus!
