//! Deleting jobs in bulk.

use vstd::prelude::*;
use crate::decode::{read_sole_u64, sole_int};
use crate::job_filter::{status_names, JobFilter, Selection};
use crate::json::Value;
use crate::request::{one_segment, Method, Params, Request, RequestModel};
use crate::resources::JobStatus;
use crate::text::slice_texts;

verus! {

/// Builder for a bulk deletion.
#[derive(Debug)]
pub struct DeleteJobsBuilder {
    pub filters: JobFilter,
}

impl DeleteJobsBuilder {
    /// The request that this builder stands for.
    pub open spec fn model(&self) -> RequestModel {
        RequestModel {
            method: Method::Delete,
            segments: seq!["jobs"@],
            query: self.filters@.params(),
            body: None,
        }
    }

    /// Selects every job.
    pub fn new() -> (r: DeleteJobsBuilder)
        ensures
            r.filters@ == Selection::all(),
    {
        DeleteJobsBuilder { filters: JobFilter::new() }
    }

    /// Selects by status.
    pub fn status(self, statuses: &[JobStatus]) -> (r: DeleteJobsBuilder)
        ensures
            r.filters@ == (Selection { status: Some(status_names(statuses@)), ..self.filters@ }),
            r == (DeleteJobsBuilder { filters: r.filters, ..self }),
    {
        DeleteJobsBuilder { filters: self.filters.with_status(statuses), ..self }
    }

    /// Selects by queue.
    pub fn queue(self, queues: &[&str]) -> (r: DeleteJobsBuilder)
        ensures
            r.filters@ == (Selection { queue: Some(slice_texts(queues@)), ..self.filters@ }),
            r == (DeleteJobsBuilder { filters: r.filters, ..self }),
    {
        DeleteJobsBuilder { filters: self.filters.with_queue(queues), ..self }
    }

    /// Selects by job type.
    pub fn job_type(self, types: &[&str]) -> (r: DeleteJobsBuilder)
        ensures
            r.filters@ == (Selection { job_type: Some(slice_texts(types@)), ..self.filters@ }),
            r == (DeleteJobsBuilder { filters: r.filters, ..self }),
    {
        DeleteJobsBuilder { filters: self.filters.with_job_type(types), ..self }
    }

    /// Selects by id.
    pub fn id(self, ids: &[&str]) -> (r: DeleteJobsBuilder)
        ensures
            r.filters@ == (Selection { id: Some(slice_texts(ids@)), ..self.filters@ }),
            r == (DeleteJobsBuilder { filters: r.filters, ..self }),
    {
        DeleteJobsBuilder { filters: self.filters.with_id(ids), ..self }
    }

    /// Selects by the budgets that jobs are bound to.
    pub fn budgets_key(self, keys: &[&str]) -> (r: DeleteJobsBuilder)
        ensures
            r.filters@ == (Selection { budgets_key: Some(slice_texts(keys@)), ..self.filters@ }),
            r == (DeleteJobsBuilder { filters: r.filters, ..self }),
    {
        DeleteJobsBuilder { filters: self.filters.with_budgets_key(keys), ..self }
    }

    /// Selects by a jq expression over the payload.
    pub fn filter(self, expr: &str) -> (r: DeleteJobsBuilder)
        ensures
            r.filters@ == (Selection { jq: Some(expr@), ..self.filters@ }),
            r == (DeleteJobsBuilder { filters: r.filters, ..self }),
    {
        DeleteJobsBuilder { filters: self.filters.with_filter(expr), ..self }
    }

    /// The request, whatever it selects.
    pub fn build_request(&self) -> (r: Request)
        ensures
            r@ == self.model(),
    {
        let mut query = Params::new();
        self.filters.append_to(&mut query);
        assert(query@ =~= self.filters@.params());
        Request {
            method: Method::Delete,
            segments: one_segment("jobs"),
            query: query.pairs,
            body: None,
        }
    }

    /// The request, unless no job can match: nothing
    /// is deleted then, and the server is not asked, as it would take a
    /// request without parameters to mean every job.
    pub fn request(&self) -> (r: Option<Request>)
        ensures
            r is None == self.filters@.nothing(),
            r matches Some(request) ==> request@ == self.model(),
    {
        if self.filters.matches_nothing() {
            None
        } else {
            Some(self.build_request())
        }
    }

    /// Reads the number of jobs from the response.
    pub fn read_response(v: &Value) -> (r: Option<u64>)
        ensures
            r is Some == sole_int(v@, "deleted"@, 0, u64::MAX as int) is Some,
            r matches Some(n) ==> sole_int(v@, "deleted"@, 0, u64::MAX as int) == Some(n as int),
    {
        read_sole_u64(v, "deleted")
    }
}

} // verus!
