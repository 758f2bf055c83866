//! Changing the budgets of jobs in bulk.

use vstd::prelude::*;
use crate::budget::{binding_terms, put_binding_terms, BudgetBindingInput};
use crate::job_filter::{status_names, JobFilter, Selection};
use crate::json::{Json, Value};
use crate::request::{three_segments, two_segments, Method, Params, Request, RequestModel};
use crate::resources::JobStatus;
use crate::text::slice_texts;
use crate::wire::{field, Fields};

verus! {

/// What to do to the budgets of the selected jobs.
#[derive(Debug)]
pub enum Operation {
    /// Bind them to a budget.
    Bind(BudgetBindingInput),
    /// Replace their binding to a budget.
    Rebind(BudgetBindingInput),
    /// Change what they cost a budget.
    SetCost { key: String, cost: u32 },
    /// Unbind them from a budget.
    Unbind { key: String },
    /// Unbind them from every budget.
    Clear,
}

/// What a binding says beyond its key, which is in the path.
pub open spec fn binding_body(b: BudgetBindingInput) -> Json {
    Json::Obj(binding_terms(b.cost, b.create_with))
}

/// The body that sets a cost.
pub open spec fn cost_body(cost: u32) -> Json {
    Json::Obj(field("cost"@, Json::Int(cost as int)))
}

/// What a binding says beyond its key.
pub fn binding_value(b: &BudgetBindingInput) -> (r: Value)
    ensures
        r@ == binding_body(*b),
{
    let mut out = Fields::new();
    put_binding_terms(&mut out, b.cost, &b.create_with);
    assert(out@ =~= binding_terms(b.cost, b.create_with));
    out.object()
}

/// The body that sets a cost.
pub fn cost_value(cost: u32) -> (r: Value)
    ensures
        r@ == cost_body(cost),
{
    let mut out = Fields::new();
    out.number("cost", cost as u64);
    assert(out@ =~= field("cost"@, Json::Int(cost as int)));
    out.object()
}

impl Operation {
    /// The method of this operation.
    pub open spec fn method(&self) -> Method {
        match *self {
            Operation::Bind(_) => Method::Post,
            Operation::Rebind(_) => Method::Put,
            Operation::SetCost { .. } => Method::Patch,
            Operation::Unbind { .. } => Method::Delete,
            Operation::Clear => Method::Delete,
        }
    }

    /// The path of this operation.
    pub open spec fn segments(&self) -> Seq<Seq<char>> {
        match *self {
            Operation::Bind(b) => seq!["jobs"@, "budgets"@, b.key@],
            Operation::Rebind(b) => seq!["jobs"@, "budgets"@, b.key@],
            Operation::SetCost { key, .. } => seq!["jobs"@, "budgets"@, key@],
            Operation::Unbind { key } => seq!["jobs"@, "budgets"@, key@],
            Operation::Clear => seq!["jobs"@, "budgets"@],
        }
    }

    /// The body of this operation.
    pub open spec fn body(&self) -> Option<Json> {
        match *self {
            Operation::Bind(b) => Some(binding_body(b)),
            Operation::Rebind(b) => Some(binding_body(b)),
            Operation::SetCost { cost, .. } => Some(cost_body(cost)),
            Operation::Unbind { .. } => None,
            Operation::Clear => None,
        }
    }
}

/// Builder for a bulk change of budgets.
#[derive(Debug)]
pub struct BudgetJobsBuilder {
    pub filters: JobFilter,
    pub operation: Operation,
}

impl BudgetJobsBuilder {
    /// The request that this builder stands for.
    pub open spec fn model(&self) -> RequestModel {
        RequestModel {
            method: self.operation.method(),
            segments: self.operation.segments(),
            query: self.filters@.params(),
            body: self.operation.body(),
        }
    }

    fn new(operation: Operation) -> (r: BudgetJobsBuilder)
        ensures
            r.filters@ == Selection::all(),
            r.operation == operation,
    {
        BudgetJobsBuilder { filters: JobFilter::new(), operation }
    }

    /// Binds jobs to a budget.
    pub fn bind(binding: BudgetBindingInput) -> (r: BudgetJobsBuilder)
        ensures
            r.filters@ == Selection::all(),
            r.operation == Operation::Bind(binding),
    {
        BudgetJobsBuilder::new(Operation::Bind(binding))
    }

    /// Replaces the binding of jobs to a budget.
    pub fn rebind(binding: BudgetBindingInput) -> (r: BudgetJobsBuilder)
        ensures
            r.filters@ == Selection::all(),
            r.operation == Operation::Rebind(binding),
    {
        BudgetJobsBuilder::new(Operation::Rebind(binding))
    }

    /// Changes what jobs cost a budget.
    pub fn set_cost(key: String, cost: u32) -> (r: BudgetJobsBuilder)
        ensures
            r.filters@ == Selection::all(),
            r.operation == (Operation::SetCost { key, cost }),
    {
        BudgetJobsBuilder::new(Operation::SetCost { key, cost })
    }

    /// Unbinds jobs from a budget.
    pub fn unbind(key: String) -> (r: BudgetJobsBuilder)
        ensures
            r.filters@ == Selection::all(),
            r.operation == (Operation::Unbind { key }),
    {
        BudgetJobsBuilder::new(Operation::Unbind { key })
    }

    /// Unbinds jobs from every budget.
    pub fn clear() -> (r: BudgetJobsBuilder)
        ensures
            r.filters@ == Selection::all(),
            r.operation == Operation::Clear,
    {
        BudgetJobsBuilder::new(Operation::Clear)
    }

    /// Selects by status.
    pub fn status(self, statuses: &[JobStatus]) -> (r: BudgetJobsBuilder)
        ensures
            r.filters@ == (Selection { status: Some(status_names(statuses@)), ..self.filters@ }),
            r == (BudgetJobsBuilder { filters: r.filters, ..self }),
    {
        BudgetJobsBuilder { filters: self.filters.with_status(statuses), ..self }
    }

    /// Selects by queue.
    pub fn queue(self, queues: &[&str]) -> (r: BudgetJobsBuilder)
        ensures
            r.filters@ == (Selection { queue: Some(slice_texts(queues@)), ..self.filters@ }),
            r == (BudgetJobsBuilder { filters: r.filters, ..self }),
    {
        BudgetJobsBuilder { filters: self.filters.with_queue(queues), ..self }
    }

    /// Selects by job type.
    pub fn job_type(self, types: &[&str]) -> (r: BudgetJobsBuilder)
        ensures
            r.filters@ == (Selection { job_type: Some(slice_texts(types@)), ..self.filters@ }),
            r == (BudgetJobsBuilder { filters: r.filters, ..self }),
    {
        BudgetJobsBuilder { filters: self.filters.with_job_type(types), ..self }
    }

    /// Selects by id.
    pub fn id(self, ids: &[&str]) -> (r: BudgetJobsBuilder)
        ensures
            r.filters@ == (Selection { id: Some(slice_texts(ids@)), ..self.filters@ }),
            r == (BudgetJobsBuilder { filters: r.filters, ..self }),
    {
        BudgetJobsBuilder { filters: self.filters.with_id(ids), ..self }
    }

    /// Selects by the budgets that jobs are bound to.
    pub fn budgets_key(self, keys: &[&str]) -> (r: BudgetJobsBuilder)
        ensures
            r.filters@ == (Selection { budgets_key: Some(slice_texts(keys@)), ..self.filters@ }),
            r == (BudgetJobsBuilder { filters: r.filters, ..self }),
    {
        BudgetJobsBuilder { filters: self.filters.with_budgets_key(keys), ..self }
    }

    /// Selects by a jq expression over the payload.
    pub fn filter(self, expr: &str) -> (r: BudgetJobsBuilder)
        ensures
            r.filters@ == (Selection { jq: Some(expr@), ..self.filters@ }),
            r == (BudgetJobsBuilder { filters: r.filters, ..self }),
    {
        BudgetJobsBuilder { filters: self.filters.with_filter(expr), ..self }
    }

    /// The request, whatever it selects.
    pub fn build_request(&self) -> (r: Request)
        ensures
            r@ == self.model(),
    {
        let mut query = Params::new();
        self.filters.append_to(&mut query);
        assert(query@ =~= self.filters@.params());
        let query = query.pairs;
        match &self.operation {
            Operation::Bind(b) => Request {
                method: Method::Post,
                segments: three_segments("jobs", "budgets", b.key.as_str()),
                query,
                body: Some(binding_value(b)),
            },
            Operation::Rebind(b) => Request {
                method: Method::Put,
                segments: three_segments("jobs", "budgets", b.key.as_str()),
                query,
                body: Some(binding_value(b)),
            },
            Operation::SetCost { key, cost } => Request {
                method: Method::Patch,
                segments: three_segments("jobs", "budgets", key.as_str()),
                query,
                body: Some(cost_value(*cost)),
            },
            Operation::Unbind { key } => Request {
                method: Method::Delete,
                segments: three_segments("jobs", "budgets", key.as_str()),
                query,
                body: None,
            },
            Operation::Clear => Request {
                method: Method::Delete,
                segments: two_segments("jobs", "budgets"),
                query,
                body: None,
            },
        }
    }

    /// The request, unless no job can match: nothing is changed then, and
    /// the server is not asked, as it would take a request without
    /// parameters to mean every job.
    pub fn request(&self) -> (r: Option<Request>)
        ensures
            r is None == self.filters@.nothing(),
            r matches Some(request) ==> request@ == self.model(),
    {
        if self.filters.matches_nothing() {
            None
        } else {
            Some(self.build_request())
        }
    }
}

} // verus!
