//! Updating jobs in bulk.

use vstd::prelude::*;
use crate::decode::{read_sole_u64, sole_int};
use crate::error::ZizqError;
use crate::job_filter::{status_names, JobFilter, Selection};
use crate::job_patch::JobPatch;
use crate::json::Value;
use crate::request::{one_segment, Method, Params, Request, RequestModel};
use crate::resources::JobStatus;
use crate::text::slice_texts;

verus! {

/// Builder for a bulk update.
#[derive(Debug)]
pub struct PatchJobsBuilder {
    pub filters: JobFilter,
    /// The update to apply. Required.
    pub patch: Option<JobPatch>,
}

impl PatchJobsBuilder {
    /// The request that applies `patch`.
    pub open spec fn model(&self, patch: JobPatch) -> RequestModel {
        RequestModel {
            method: Method::Patch,
            segments: seq!["jobs"@],
            query: self.filters@.params(),
            body: Some(patch.json()),
        }
    }

    /// Selects every job.
    pub fn new() -> (r: PatchJobsBuilder)
        ensures
            r.filters@ == Selection::all(),
            r.patch is None,
    {
        PatchJobsBuilder { filters: JobFilter::new(), patch: None }
    }

    /// Selects by status.
    pub fn status(self, statuses: &[JobStatus]) -> (r: PatchJobsBuilder)
        ensures
            r.filters@ == (Selection { status: Some(status_names(statuses@)), ..self.filters@ }),
            r == (PatchJobsBuilder { filters: r.filters, ..self }),
    {
        PatchJobsBuilder { filters: self.filters.with_status(statuses), ..self }
    }

    /// Selects by queue.
    pub fn queue(self, queues: &[&str]) -> (r: PatchJobsBuilder)
        ensures
            r.filters@ == (Selection { queue: Some(slice_texts(queues@)), ..self.filters@ }),
            r == (PatchJobsBuilder { filters: r.filters, ..self }),
    {
        PatchJobsBuilder { filters: self.filters.with_queue(queues), ..self }
    }

    /// Selects by job type.
    pub fn job_type(self, types: &[&str]) -> (r: PatchJobsBuilder)
        ensures
            r.filters@ == (Selection { job_type: Some(slice_texts(types@)), ..self.filters@ }),
            r == (PatchJobsBuilder { filters: r.filters, ..self }),
    {
        PatchJobsBuilder { filters: self.filters.with_job_type(types), ..self }
    }

    /// Selects by id.
    pub fn id(self, ids: &[&str]) -> (r: PatchJobsBuilder)
        ensures
            r.filters@ == (Selection { id: Some(slice_texts(ids@)), ..self.filters@ }),
            r == (PatchJobsBuilder { filters: r.filters, ..self }),
    {
        PatchJobsBuilder { filters: self.filters.with_id(ids), ..self }
    }

    /// Selects by the budgets that jobs are bound to.
    pub fn budgets_key(self, keys: &[&str]) -> (r: PatchJobsBuilder)
        ensures
            r.filters@ == (Selection { budgets_key: Some(slice_texts(keys@)), ..self.filters@ }),
            r == (PatchJobsBuilder { filters: r.filters, ..self }),
    {
        PatchJobsBuilder { filters: self.filters.with_budgets_key(keys), ..self }
    }

    /// Selects by a jq expression over the payload.
    pub fn filter(self, expr: &str) -> (r: PatchJobsBuilder)
        ensures
            r.filters@ == (Selection { jq: Some(expr@), ..self.filters@ }),
            r == (PatchJobsBuilder { filters: r.filters, ..self }),
    {
        PatchJobsBuilder { filters: self.filters.with_filter(expr), ..self }
    }

    /// Sets the update to apply.
    pub fn patch(self, patch: JobPatch) -> (r: PatchJobsBuilder)
        ensures
            r == (PatchJobsBuilder { patch: Some(patch), ..self }),
    {
        PatchJobsBuilder { patch: Some(patch), ..self }
    }

    /// The request that applies `patch`, whatever it selects.
    pub fn build_request(&self, patch: &JobPatch) -> (r: Request)
        ensures
            r@ == self.model(*patch),
    {
        let mut query = Params::new();
        self.filters.append_to(&mut query);
        assert(query@ =~= self.filters@.params());
        Request {
            method: Method::Patch,
            segments: one_segment("jobs"),
            query: query.pairs,
            body: Some(patch.to_value()),
        }
    }

    /// The request. Without an update there is none, whatever was
    /// selected; where no job can match nothing is updated, and the server
    /// is not asked, as it would take a request without parameters to mean
    /// every job.
    pub fn request(&self) -> (r: Result<Option<Request>, ZizqError>)
        ensures
            match self.patch {
                None => r matches Err(ZizqError::MissingPatch),
                Some(patch) => if self.filters@.nothing() {
                    r matches Ok(None)
                } else {
                    r matches Ok(Some(request)) && request@ == self.model(patch)
                },
            },
    {
        let patch = match &self.patch {
            Some(patch) => patch,
            None => {
                return Err(ZizqError::MissingPatch);
            },
        };
        if self.filters.matches_nothing() {
            return Ok(None);
        }
        Ok(Some(self.build_request(patch)))
    }

    /// Reads the number of jobs from the response.
    pub fn read_response(v: &Value) -> (r: Option<u64>)
        ensures
            r is Some == sole_int(v@, "patched"@, 0, u64::MAX as int) is Some,
            r matches Some(n) ==> sole_int(v@, "patched"@, 0, u64::MAX as int) == Some(n as int),
    {
        read_sole_u64(v, "patched")
    }
}

} // verus!
