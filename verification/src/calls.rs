//! The calls that a client makes: what each asks of the server, and which
//! responses accept it.

use vstd::prelude::*;
use crate::budget::{bindings_json, bindings_value, BudgetBindingInput, BudgetPatch, BudgetPolicy};
use crate::budget_jobs::{
    binding_body, binding_value, cost_body, cost_value, BudgetJobsBuilder, Operation,
};
use crate::bulk_enqueue::{bulk_json, BulkEnqueueBuilder};
use crate::client::{Client, Expected};
use crate::count_jobs::CountJobsBuilder;
use crate::cron::{CronEntry, CronEntryBody, ReplaceCronBuilder};
use crate::delete_jobs::DeleteJobsBuilder;
use crate::enqueue::{EnqueueBuilder, EnqueueRequest};
use crate::error::ZizqError;
use crate::failure::FailureBuilder;
use crate::job::{JobKind, Payload};
use crate::job_filter::Selection;
use crate::job_patch::JobPatch;
use crate::json::{Json, Value};
use crate::list_errors::ListErrorsBuilder;
use crate::list_jobs::ListJobsBuilder;
use crate::patch_jobs::PatchJobsBuilder;
use crate::request::{
    four_segments, one_segment, plain, plain_request, three_segments, two_segments, Method,
    Request,
};
use crate::take::{take_model, TakeBuilder};
use crate::text::{decimal, decimal_text, texts};
use crate::wire::{field, str_array, text_array, Fields};

verus! {

/// A request, and the responses that accept it.
#[derive(Debug)]
pub struct Call {
    pub request: Request,
    pub expected: Expected,
}

/// A request that opens a job stream.
#[derive(Debug)]
pub struct StreamCall {
    pub request: Request,
    pub expected: Expected,
    /// The `Accept` header: job streams have content types of their own.
    pub accept: &'static str,
}

/// Whether `call` sends `method` to the path `segments` with `body`, and
/// expects `expected`.
pub open spec fn calls(
    call: Call,
    method: Method,
    segments: Seq<Seq<char>>,
    body: Option<Json>,
    expected: Expected,
) -> bool {
    call.request@ == plain_request(method, segments, body) && call.expected == expected
}

/// The body that acknowledges jobs.
pub open spec fn ids_body(ids: Seq<Seq<char>>) -> Json {
    Json::Obj(field("ids"@, str_array(ids)))
}

/// The body that pauses or resumes.
pub open spec fn paused_body(paused: bool) -> Json {
    Json::Obj(field("paused"@, Json::Bool(paused)))
}

/// The body that replaces a job's budgets.
pub open spec fn budgets_body(list: Seq<BudgetBindingInput>) -> Json {
    Json::Obj(field("budgets"@, bindings_json(list)))
}

/// An object with the one field `name`.
fn single(name: &str, v: Value) -> (r: Value)
    ensures
        r@ == Json::Obj(field(name@, v@)),
{
    let ghost model = v@;
    let mut out = Fields::new();
    out.value(name, v);
    assert(out@ =~= field(name@, model));
    out.object()
}

impl Client {
    /// Starts an enqueue.
    pub fn enqueue(&self, kind: JobKind, payload: Payload) -> (r: EnqueueBuilder)
        ensures
            r == (EnqueueBuilder {
                kind,
                payload,
                queue: None,
                priority: None,
                ready_at_ms: None,
                retry_limit: None,
                backoff: None,
                retention: None,
                unique_key: None,
                batch: None,
                budgets: None,
            }),
    {
        EnqueueBuilder::new(kind, payload)
    }

    /// Starts a bulk enqueue.
    pub fn enqueue_bulk(&self) -> (r: BulkEnqueueBuilder)
        ensures
            r.state is Ok,
            r.requests() == Seq::<EnqueueRequest>::empty(),
    {
        BulkEnqueueBuilder::new()
    }

    /// Starts a failure report.
    pub fn report_failure(&self, id: &str, message: &str) -> (r: FailureBuilder)
        ensures
            r.job_id@ == id@,
            r.message@ == message@,
            r.error_type is None,
            r.backtrace is None,
            r.retry_at_ms is None,
            !r.kill,
    {
        FailureBuilder::new(id, message)
    }

    /// Starts a listing of jobs.
    pub fn list_jobs(&self) -> (r: ListJobsBuilder)
        ensures
            r.filters@ == Selection::all(),
            r.from is None,
            r.order is None,
            r.limit is None,
    {
        ListJobsBuilder::new()
    }

    /// Starts a listing of a job's errors.
    pub fn list_errors(&self, id: &str) -> (r: ListErrorsBuilder)
        ensures
            r.job_id@ == id@,
            r.from is None,
            r.order is None,
            r.limit is None,
    {
        ListErrorsBuilder::new(id)
    }

    /// Starts a count of jobs.
    pub fn count_jobs(&self) -> (r: CountJobsBuilder)
        ensures
            r.filters@ == Selection::all(),
    {
        CountJobsBuilder::new()
    }

    /// Starts a bulk deletion.
    pub fn delete_all_jobs(&self) -> (r: DeleteJobsBuilder)
        ensures
            r.filters@ == Selection::all(),
    {
        DeleteJobsBuilder::new()
    }

    /// Starts a bulk update.
    pub fn patch_all_jobs(&self) -> (r: PatchJobsBuilder)
        ensures
            r.filters@ == Selection::all(),
            r.patch is None,
    {
        PatchJobsBuilder::new()
    }

    /// Starts binding jobs to a budget in bulk.
    pub fn bind_all_jobs_budget(&self, binding: BudgetBindingInput) -> (r: BudgetJobsBuilder)
        ensures
            r.filters@ == Selection::all(),
            r.operation == Operation::Bind(binding),
    {
        BudgetJobsBuilder::bind(binding)
    }

    /// Starts replacing the binding of jobs to a budget in bulk.
    pub fn rebind_all_jobs_budget(&self, binding: BudgetBindingInput) -> (r: BudgetJobsBuilder)
        ensures
            r.filters@ == Selection::all(),
            r.operation == Operation::Rebind(binding),
    {
        BudgetJobsBuilder::rebind(binding)
    }

    /// Starts changing what jobs cost a budget in bulk.
    pub fn set_all_jobs_budget_cost(&self, key: &str, cost: u32) -> (r: BudgetJobsBuilder)
        ensures
            r.filters@ == Selection::all(),
            r.operation matches Operation::SetCost { key: k, cost: c } && k@ == key@ && c == cost,
    {
        BudgetJobsBuilder::set_cost(key.to_owned(), cost)
    }

    /// Starts unbinding jobs from a budget in bulk.
    pub fn unbind_all_jobs_budget(&self, key: &str) -> (r: BudgetJobsBuilder)
        ensures
            r.filters@ == Selection::all(),
            r.operation matches Operation::Unbind { key: k } && k@ == key@,
    {
        BudgetJobsBuilder::unbind(key.to_owned())
    }

    /// Starts unbinding jobs from every budget in bulk.
    pub fn clear_all_jobs_budgets(&self) -> (r: BudgetJobsBuilder)
        ensures
            r.filters@ == Selection::all(),
            r.operation == Operation::Clear,
    {
        BudgetJobsBuilder::clear()
    }

    /// Starts replacing a cron group.
    pub fn replace_cron(&self, name: &str) -> (r: ReplaceCronBuilder)
        ensures
            r.name@ == name@,
            r.paused is None,
            r.entries is Ok,
            r.collected() == Seq::<CronEntryBody>::empty(),
    {
        ReplaceCronBuilder::new(name)
    }

    /// Starts a job stream.
    pub fn take(&self) -> (r: TakeBuilder)
        ensures
            r.queues@.len() == 0,
            r.prefetch is None,
    {
        TakeBuilder::new()
    }

    /// Opens a job stream.
    pub fn take_raw(&self, builder: &TakeBuilder) -> (r: StreamCall)
        ensures
            r.request@ == take_model(texts(builder.queues@), builder.prefetch),
            r.expected == Expected::Success,
            r.accept@ == self.format.stream_type(),
    {
        StreamCall {
            request: builder.request(),
            expected: Expected::Success,
            accept: self.stream_accept(),
        }
    }

    /// Enqueues a job.
    pub fn enqueue_raw(&self, request: &EnqueueRequest) -> (r: Call)
        ensures
            calls(r, Method::Post, seq!["jobs"@], Some(request.json()), Expected::Success),
    {
        Call { request: request.request(), expected: Expected::Success }
    }

    /// Enqueues a batch of jobs, or fails with the error that the batch
    /// failed with.
    pub fn enqueue_bulk_raw(&self, batch: BulkEnqueueBuilder) -> (r: Result<Call, ZizqError>)
        ensures
            match batch.state {
                Ok(list) => r matches Ok(call) && calls(
                    call,
                    Method::Post,
                    seq!["jobs"@, "bulk"@],
                    Some(bulk_json(list@)),
                    Expected::Success,
                ),
                Err(e) => r == Err::<Call, ZizqError>(e),
            },
    {
        match batch.request() {
            Ok(request) => Ok(Call { request, expected: Expected::Success }),
            Err(e) => Err(e),
        }
    }

    /// Reports that a job failed.
    pub fn report_failure_raw(&self, report: &FailureBuilder) -> (r: Call)
        ensures
            calls(
                r,
                Method::Post,
                seq!["jobs"@, report.job_id@, "failure"@],
                Some(report.json()),
                Expected::Success,
            ),
    {
        Call { request: report.request(), expected: Expected::Success }
    }

    /// Acknowledges several jobs at once. Ids that the server does not
    /// know are no failure.
    pub fn report_success_bulk(&self, ids: &Vec<String>) -> (r: Call)
        ensures
            calls(
                r,
                Method::Post,
                seq!["jobs"@, "success"@],
                Some(ids_body(texts(ids@))),
                Expected::NoContentOrUnprocessable,
            ),
    {
        let body = single("ids", text_array(ids));
        Call {
            request: plain(Method::Post, two_segments("jobs", "success"), Some(body)),
            expected: Expected::NoContentOrUnprocessable,
        }
    }

    /// Acknowledges a job.
    pub fn report_success(&self, id: &str) -> (r: Call)
        ensures
            calls(r, Method::Post, seq!["jobs"@, id@, "success"@], None, Expected::NoContent),
    {
        Call {
            request: plain(Method::Post, three_segments("jobs", id, "success"), None),
            expected: Expected::NoContent,
        }
    }

    /// Fetches a job.
    pub fn get_job(&self, id: &str) -> (r: Call)
        ensures
            calls(r, Method::Get, seq!["jobs"@, id@], None, Expected::Success),
    {
        Call {
            request: plain(Method::Get, two_segments("jobs", id), None),
            expected: Expected::Success,
        }
    }

    /// Deletes a job.
    pub fn delete_job(&self, id: &str) -> (r: Call)
        ensures
            calls(r, Method::Delete, seq!["jobs"@, id@], None, Expected::NoContent),
    {
        Call {
            request: plain(Method::Delete, two_segments("jobs", id), None),
            expected: Expected::NoContent,
        }
    }

    /// Asks whether the server is up.
    pub fn health(&self) -> (r: Call)
        ensures
            calls(r, Method::Get, seq!["health"@], None, Expected::Success),
    {
        Call {
            request: plain(Method::Get, one_segment("health"), None),
            expected: Expected::Success,
        }
    }

    /// Asks for the server's version.
    pub fn server_version(&self) -> (r: Call)
        ensures
            calls(r, Method::Get, seq!["version"@], None, Expected::Success),
    {
        Call {
            request: plain(Method::Get, one_segment("version"), None),
            expected: Expected::Success,
        }
    }

    /// Lists the names of the cron groups.
    pub fn list_crons(&self) -> (r: Call)
        ensures
            calls(r, Method::Get, seq!["crons"@], None, Expected::Success),
    {
        Call {
            request: plain(Method::Get, one_segment("crons"), None),
            expected: Expected::Success,
        }
    }

    /// Fetches a cron group.
    pub fn get_cron(&self, name: &str) -> (r: Call)
        ensures
            calls(r, Method::Get, seq!["crons"@, name@], None, Expected::Success),
    {
        Call {
            request: plain(Method::Get, two_segments("crons", name), None),
            expected: Expected::Success,
        }
    }

    /// Deletes a cron group.
    pub fn delete_cron(&self, name: &str) -> (r: Call)
        ensures
            calls(r, Method::Delete, seq!["crons"@, name@], None, Expected::NoContent),
    {
        Call {
            request: plain(Method::Delete, two_segments("crons", name), None),
            expected: Expected::NoContent,
        }
    }

    /// Fetches an entry of a cron group.
    pub fn get_cron_entry(&self, group: &str, name: &str) -> (r: Call)
        ensures
            calls(
                r,
                Method::Get,
                seq!["crons"@, group@, "entries"@, name@],
                None,
                Expected::Success,
            ),
    {
        Call {
            request: plain(Method::Get, four_segments("crons", group, "entries", name), None),
            expected: Expected::Success,
        }
    }

    /// Deletes an entry of a cron group.
    pub fn delete_cron_entry(&self, group: &str, name: &str) -> (r: Call)
        ensures
            calls(
                r,
                Method::Delete,
                seq!["crons"@, group@, "entries"@, name@],
                None,
                Expected::NoContent,
            ),
    {
        Call {
            request: plain(Method::Delete, four_segments("crons", group, "entries", name), None),
            expected: Expected::NoContent,
        }
    }

    /// Lists the budgets.
    pub fn list_budgets(&self) -> (r: Call)
        ensures
            calls(r, Method::Get, seq!["budgets"@], None, Expected::Success),
    {
        Call {
            request: plain(Method::Get, one_segment("budgets"), None),
            expected: Expected::Success,
        }
    }

    /// Fetches a budget.
    pub fn get_budget(&self, key: &str) -> (r: Call)
        ensures
            calls(r, Method::Get, seq!["budgets"@, key@], None, Expected::Success),
    {
        Call {
            request: plain(Method::Get, two_segments("budgets", key), None),
            expected: Expected::Success,
        }
    }

    /// Deletes a budget.
    pub fn delete_budget(&self, key: &str) -> (r: Call)
        ensures
            calls(r, Method::Delete, seq!["budgets"@, key@], None, Expected::NoContent),
    {
        Call {
            request: plain(Method::Delete, two_segments("budgets", key), None),
            expected: Expected::NoContent,
        }
    }

    /// Unbinds a job from a budget.
    pub fn unbind_budget(&self, id: &str, key: &str) -> (r: Call)
        ensures
            calls(r, Method::Delete, seq!["jobs"@, id@, "budgets"@, key@], None, Expected::Success),
    {
        Call {
            request: plain(Method::Delete, four_segments("jobs", id, "budgets", key), None),
            expected: Expected::Success,
        }
    }

    /// Unbinds a job from every budget.
    pub fn unbind_all_budgets(&self, id: &str) -> (r: Call)
        ensures
            calls(r, Method::Delete, seq!["jobs"@, id@, "budgets"@], None, Expected::Success),
    {
        Call {
            request: plain(Method::Delete, three_segments("jobs", id, "budgets"), None),
            expected: Expected::Success,
        }
    }

    /// Updates a job.
    pub fn patch_job(&self, id: &str, patch: &JobPatch) -> (r: Call)
        ensures
            calls(
                r,
                Method::Patch,
                seq!["jobs"@, id@],
                Some(patch.json()),
                Expected::Success,
            ),
    {
        let body = patch.to_value();
        Call {
            request: plain(
                Method::Patch,
                two_segments("jobs", id),
                Some(body),
            ),
            expected: Expected::Success,
        }
    }

    /// Creates a budget.
    pub fn create_budget(&self, key: &str, policy: &BudgetPolicy) -> (r: Call)
        ensures
            calls(
                r,
                Method::Post,
                seq!["budgets"@, key@],
                Some(policy.json()),
                Expected::Success,
            ),
    {
        let body = policy.to_value();
        Call {
            request: plain(
                Method::Post,
                two_segments("budgets", key),
                Some(body),
            ),
            expected: Expected::Success,
        }
    }

    /// Creates or replaces a budget.
    pub fn put_budget(&self, key: &str, policy: &BudgetPolicy) -> (r: Call)
        ensures
            calls(
                r,
                Method::Put,
                seq!["budgets"@, key@],
                Some(policy.json()),
                Expected::Success,
            ),
    {
        let body = policy.to_value();
        Call {
            request: plain(
                Method::Put,
                two_segments("budgets", key),
                Some(body),
            ),
            expected: Expected::Success,
        }
    }

    /// Updates a budget.
    pub fn update_budget(&self, key: &str, patch: &BudgetPatch) -> (r: Call)
        ensures
            calls(
                r,
                Method::Patch,
                seq!["budgets"@, key@],
                Some(patch.json()),
                Expected::Success,
            ),
    {
        let body = patch.to_value();
        Call {
            request: plain(
                Method::Patch,
                two_segments("budgets", key),
                Some(body),
            ),
            expected: Expected::Success,
        }
    }

    /// Binds a job to a budget. The key is in the path, not in the body.
    pub fn bind_budget(&self, id: &str, binding: &BudgetBindingInput) -> (r: Call)
        ensures
            calls(
                r,
                Method::Post,
                seq!["jobs"@, id@, "budgets"@, binding.key@],
                Some(binding_body(*binding)),
                Expected::Success,
            ),
    {
        let body = binding_value(binding);
        Call {
            request: plain(
                Method::Post,
                four_segments("jobs", id, "budgets", binding.key.as_str()),
                Some(body),
            ),
            expected: Expected::Success,
        }
    }

    /// Replaces the binding of a job to a budget.
    pub fn rebind_budget(&self, id: &str, binding: &BudgetBindingInput) -> (r: Call)
        ensures
            calls(
                r,
                Method::Put,
                seq!["jobs"@, id@, "budgets"@, binding.key@],
                Some(binding_body(*binding)),
                Expected::Success,
            ),
    {
        let body = binding_value(binding);
        Call {
            request: plain(
                Method::Put,
                four_segments("jobs", id, "budgets", binding.key.as_str()),
                Some(body),
            ),
            expected: Expected::Success,
        }
    }

    /// Changes what a job costs a budget.
    pub fn set_budget_cost(&self, id: &str, key: &str, cost: u32) -> (r: Call)
        ensures
            calls(
                r,
                Method::Patch,
                seq!["jobs"@, id@, "budgets"@, key@],
                Some(cost_body(cost)),
                Expected::Success,
            ),
    {
        let body = cost_value(cost);
        Call {
            request: plain(
                Method::Patch,
                four_segments("jobs", id, "budgets", key),
                Some(body),
            ),
            expected: Expected::Success,
        }
    }

    /// Replaces the budgets of a job. Here the keys are in the body.
    pub fn replace_budgets(&self, id: &str, list: &Vec<BudgetBindingInput>) -> (r: Call)
        ensures
            calls(
                r,
                Method::Put,
                seq!["jobs"@, id@, "budgets"@],
                Some(budgets_body(list@)),
                Expected::Success,
            ),
    {
        let body = single("budgets", bindings_value(list));
        Call {
            request: plain(
                Method::Put,
                three_segments("jobs", id, "budgets"),
                Some(body),
            ),
            expected: Expected::Success,
        }
    }

    /// Pauses a cron group.
    pub fn pause_cron(&self, name: &str) -> (r: Call)
        ensures
            calls(
                r,
                Method::Patch,
                seq!["crons"@, name@],
                Some(paused_body(true)),
                Expected::Success,
            ),
    {
        let body = single("paused", Value::Bool(true));
        Call {
            request: plain(
                Method::Patch,
                two_segments("crons", name),
                Some(body),
            ),
            expected: Expected::Success,
        }
    }

    /// Resumes a cron group.
    pub fn resume_cron(&self, name: &str) -> (r: Call)
        ensures
            calls(
                r,
                Method::Patch,
                seq!["crons"@, name@],
                Some(paused_body(false)),
                Expected::Success,
            ),
    {
        let body = single("paused", Value::Bool(false));
        Call {
            request: plain(
                Method::Patch,
                two_segments("crons", name),
                Some(body),
            ),
            expected: Expected::Success,
        }
    }

    /// Pauses an entry of a cron group.
    pub fn pause_cron_entry(&self, group: &str, name: &str) -> (r: Call)
        ensures
            calls(
                r,
                Method::Patch,
                seq!["crons"@, group@, "entries"@, name@],
                Some(paused_body(true)),
                Expected::Success,
            ),
    {
        let body = single("paused", Value::Bool(true));
        Call {
            request: plain(
                Method::Patch,
                four_segments("crons", group, "entries", name),
                Some(body),
            ),
            expected: Expected::Success,
        }
    }

    /// Resumes an entry of a cron group.
    pub fn resume_cron_entry(&self, group: &str, name: &str) -> (r: Call)
        ensures
            calls(
                r,
                Method::Patch,
                seq!["crons"@, group@, "entries"@, name@],
                Some(paused_body(false)),
                Expected::Success,
            ),
    {
        let body = single("paused", Value::Bool(false));
        Call {
            request: plain(
                Method::Patch,
                four_segments("crons", group, "entries", name),
                Some(body),
            ),
            expected: Expected::Success,
        }
    }

    /// Fetches the error that an attempt of a job ended in.
    pub fn get_error(&self, id: &str, attempt: u32) -> (r: Call)
        ensures
            calls(
                r,
                Method::Get,
                seq!["jobs"@, id@, "errors"@, decimal(attempt as nat)],
                None,
                Expected::Success,
            ),
    {
        let attempt = decimal_text(attempt as u64);
        Call {
            request: plain(
                Method::Get,
                four_segments("jobs", id, "errors", attempt.as_str()),
                None,
            ),
            expected: Expected::Success,
        }
    }

    /// Adds an entry to a cron group; an entry whose job could not be
    /// resolved fails with that error.
    pub fn add_cron_entry(&self, group: &str, entry: CronEntry) -> (r: Result<Call, ZizqError>)
        ensures
            match entry.job {
                Ok(job) => r matches Ok(call) && calls(
                    call,
                    Method::Post,
                    seq!["crons"@, group@, "entries"@],
                    Some(entry.body(job).json()),
                    Expected::Success,
                ),
                Err(e) => r == Err::<Call, ZizqError>(e),
            },
    {
        match entry.into_body() {
            Ok(body) => Ok(
                Call {
                    request: plain(
                        Method::Post,
                        three_segments("crons", group, "entries"),
                        Some(body.to_value()),
                    ),
                    expected: Expected::Success,
                },
            ),
            Err(e) => Err(e),
        }
    }

    /// Creates or replaces an entry of a cron group, under the entry's own
    /// name.
    pub fn put_cron_entry(&self, group: &str, entry: CronEntry) -> (r: Result<Call, ZizqError>)
        ensures
            match entry.job {
                Ok(job) => r matches Ok(call) && calls(
                    call,
                    Method::Put,
                    seq!["crons"@, group@, "entries"@, entry.name@],
                    Some(entry.body(job).json()),
                    Expected::Success,
                ),
                Err(e) => r == Err::<Call, ZizqError>(e),
            },
    {
        match entry.into_body() {
            Ok(body) => Ok(
                Call {
                    request: plain(
                        Method::Put,
                        four_segments("crons", group, "entries", body.name.as_str()),
                        Some(body.to_value()),
                    ),
                    expected: Expected::Success,
                },
            ),
            Err(e) => Err(e),
        }
    }
}

} // verus!
