//! Job selection: the query parameters that listing, counting and the bulk
//! operations share.
//!
//! A list that was never given selects by nothing; a list that was given
//! empty selects no job at all, and no request may be sent for it.

use vstd::prelude::*;
use crate::request::{opt_param, Params};
use crate::resources::JobStatus;
use crate::text::{join, joined, opt_text, owned, slice_texts, texts};

verus! {

/// Which jobs an operation selects.
#[derive(Debug, Clone, PartialEq, Eq)]
pub struct JobFilter {
    pub status: Option<Vec<JobStatus>>,
    pub queue: Option<Vec<String>>,
    pub job_type: Option<Vec<String>>,
    pub id: Option<Vec<String>>,
    pub budgets_key: Option<Vec<String>>,
    pub jq: Option<String>,
}

/// Model of a filter: the values of each list.
pub struct Selection {
    pub status: Option<Seq<Seq<char>>>,
    pub queue: Option<Seq<Seq<char>>>,
    pub job_type: Option<Seq<Seq<char>>>,
    pub id: Option<Seq<Seq<char>>>,
    pub budgets_key: Option<Seq<Seq<char>>>,
    pub jq: Option<Seq<char>>,
}

/// The names of some statuses.
pub open spec fn status_names(list: Seq<JobStatus>) -> Seq<Seq<char>> {
    Seq::new(list.len(), |i: int| list[i].name())
}

/// The view of an optional list of texts.
pub open spec fn opt_texts(list: Option<Vec<String>>) -> Option<Seq<Seq<char>>> {
    match list {
        Some(v) => Some(texts(v@)),
        None => None,
    }
}

/// The value of a list parameter: the items joined by commas, where there
/// are any.
pub open spec fn list_value(list: Option<Seq<Seq<char>>>) -> Option<Seq<char>> {
    match list {
        Some(items) => if items.len() > 0 {
            Some(joined(items, ","@))
        } else {
            None
        },
        None => None,
    }
}

/// Whether a list was given empty.
pub open spec fn given_empty(list: Option<Seq<Seq<char>>>) -> bool {
    list matches Some(items) && items.len() == 0
}

impl View for JobFilter {
    type V = Selection;

    open spec fn view(&self) -> Selection {
        Selection {
            status: match self.status {
                Some(v) => Some(status_names(v@)),
                None => None,
            },
            queue: opt_texts(self.queue),
            job_type: opt_texts(self.job_type),
            id: opt_texts(self.id),
            budgets_key: opt_texts(self.budgets_key),
            jq: opt_text(self.jq),
        }
    }
}

impl Selection {
    /// The selection that selects by nothing.
    pub open spec fn all() -> Selection {
        Selection {
            status: None,
            queue: None,
            job_type: None,
            id: None,
            budgets_key: None,
            jq: None,
        }
    }

    /// Whether some list was given empty, so that no job is selected.
    pub open spec fn nothing(self) -> bool {
        given_empty(self.status) || given_empty(self.queue) || given_empty(self.job_type)
            || given_empty(self.id) || given_empty(self.budgets_key)
    }

    /// The query parameters of this selection.
    pub open spec fn params(self) -> Seq<(Seq<char>, Seq<char>)> {
        opt_param("status"@, list_value(self.status)) + opt_param(
            "queue"@,
            list_value(self.queue),
        ) + opt_param("type"@, list_value(self.job_type)) + opt_param("id"@, list_value(self.id))
            + opt_param("budgets.key"@, list_value(self.budgets_key)) + opt_param(
            "filter"@,
            self.jq,
        )
    }
}

/// The list parameter of some texts.
fn list_text(list: &Option<Vec<String>>) -> (r: Option<String>)
    ensures
        opt_text(r) == list_value(opt_texts(*list)),
{
    match list {
        Some(items) => if items.len() > 0 {
            Some(join(items, ","))
        } else {
            None
        },
        None => None,
    }
}

/// The names of some statuses.
fn names_of(list: &Vec<JobStatus>) -> (r: Vec<String>)
    ensures
        texts(r@) == status_names(list@),
{
    let mut out: Vec<String> = Vec::new();
    let mut i: usize = 0;
    while i < list.len()
        invariant
            i <= list@.len(),
            out@.len() == i,
            forall|j: int| 0 <= j < i ==> (#[trigger] out@[j])@ == list@[j].name(),
        decreases list@.len() - i,
    {
        out.push(list[i].as_str().to_owned());
        i += 1;
    }
    assert(texts(out@) =~= status_names(list@));
    out
}

/// Whether a list was given empty.
fn is_explicitly_empty<T>(list: &Option<Vec<T>>) -> (r: bool)
    ensures
        r == (*list matches Some(v) && v@.len() == 0),
{
    match list {
        Some(v) => v.len() == 0,
        None => false,
    }
}

impl JobFilter {
    /// A filter that selects by nothing.
    pub fn new() -> (r: JobFilter)
        ensures
            r@ == Selection::all(),
    {
        JobFilter {
            status: None,
            queue: None,
            job_type: None,
            id: None,
            budgets_key: None,
            jq: None,
        }
    }

    /// Whether no job can match, so that no request is needed.
    pub fn matches_nothing(&self) -> (r: bool)
        ensures
            r == self@.nothing(),
    {
        is_explicitly_empty(&self.status) || is_explicitly_empty(&self.queue)
            || is_explicitly_empty(&self.job_type) || is_explicitly_empty(&self.id)
            || is_explicitly_empty(&self.budgets_key)
    }

    /// Whether this filter adds query parameters.
    pub fn has_params(&self) -> (r: bool)
        ensures
            r == (self@.params().len() > 0),
    {
        let mut out = Params::new();
        self.append_to(&mut out);
        assert(out@ =~= self@.params());
        out.pairs.len() > 0
    }

    /// Adds the query parameters of this filter.
    #[verifier::rlimit(40)]
    #[verifier::spinoff_prover]
    pub fn append_to(&self, out: &mut Params)
        ensures
            final(out)@ == old(out)@ + self@.params(),
    {
        let status = match &self.status {
            Some(list) => if list.len() > 0 {
                Some(join(&names_of(list), ","))
            } else {
                None
            },
            None => None,
        };
        out.push_opt("status", status);
        out.push_opt("queue", list_text(&self.queue));
        out.push_opt("type", list_text(&self.job_type));
        out.push_opt("id", list_text(&self.id));
        out.push_opt("budgets.key", list_text(&self.budgets_key));
        let jq = match &self.jq {
            Some(expr) => Some(expr.clone()),
            None => None,
        };
        out.push_opt("filter", jq);
        assert(out@ =~= old(out)@ + self@.params());
    }

    /// Selects by status.
    pub fn with_status(self, statuses: &[JobStatus]) -> (r: JobFilter)
        ensures
            r@ == (Selection { status: Some(status_names(statuses@)), ..self@ }),
    {
        let mut list: Vec<JobStatus> = Vec::new();
        let mut i: usize = 0;
        while i < statuses.len()
            invariant
                i <= statuses@.len(),
                list@ == statuses@.take(i as int),
            decreases statuses@.len() - i,
        {
            list.push(statuses[i]);
            assert(list@ =~= statuses@.take(i + 1));
            i += 1;
        }
        assert(statuses@.take(i as int) =~= statuses@);
        JobFilter { status: Some(list), ..self }
    }

    /// Selects by queue.
    pub fn with_queue(self, queues: &[&str]) -> (r: JobFilter)
        ensures
            r@ == (Selection { queue: Some(slice_texts(queues@)), ..self@ }),
    {
        JobFilter { queue: Some(owned(queues)), ..self }
    }

    /// Selects by job type.
    pub fn with_job_type(self, types: &[&str]) -> (r: JobFilter)
        ensures
            r@ == (Selection { job_type: Some(slice_texts(types@)), ..self@ }),
    {
        JobFilter { job_type: Some(owned(types)), ..self }
    }

    /// Selects by id.
    pub fn with_id(self, ids: &[&str]) -> (r: JobFilter)
        ensures
            r@ == (Selection { id: Some(slice_texts(ids@)), ..self@ }),
    {
        JobFilter { id: Some(owned(ids)), ..self }
    }

    /// Selects by the budgets that jobs are bound to.
    pub fn with_budgets_key(self, keys: &[&str]) -> (r: JobFilter)
        ensures
            r@ == (Selection { budgets_key: Some(slice_texts(keys@)), ..self@ }),
    {
        JobFilter { budgets_key: Some(owned(keys)), ..self }
    }

    /// Selects by a jq expression over the payload.
    pub fn with_filter(self, expr: &str) -> (r: JobFilter)
        ensures
            r@ == (Selection { jq: Some(expr@), ..self@ }),
    {
        JobFilter { jq: Some(expr.to_owned()), ..self }
    }
}

impl Default for JobFilter {
    fn default() -> (r: JobFilter)
        ensures
            r@ == Selection::all(),
    {
        JobFilter::new()
    }
}

/// A filter that adds no parameter, and so would select every job, either
/// was never given anything or selects nothing.
pub proof fn law_no_params_means_all_or_nothing(s: Selection)
    requires
        s.params().len() == 0,
    ensures
        s == Selection::all() || s.nothing(),
{
}

} // verus!
