//! Listing jobs: one page at a time, or page after page as a stream.

use vstd::prelude::*;
use crate::decode::{
    by_position, get, opt_text_field, read_field, read_opt_text_field, record,
};
use crate::job_filter::{status_names, JobFilter, Selection};
use crate::jobs::{is_job, Job};
use crate::json::{group_value_models, models, Json, Value};
use crate::request::{one_segment, opt_param, Method, Params, Request, RequestModel};
use crate::resources::{JobStatus, PageLinks};
use crate::text::{decimal, decimal_text, opt_text, slice_texts};

verus! {

/// Order of a listing.
#[derive(Debug, Clone, Copy, PartialEq, Eq, Structural)]
pub enum Order {
    /// Oldest first.
    Asc,
    /// Newest first.
    Desc,
}

impl Order {
    /// The name of this order in the API.
    pub open spec fn name(&self) -> Seq<char> {
        match *self {
            Order::Asc => "asc"@,
            Order::Desc => "desc"@,
        }
    }

    /// The name of this order in the API.
    pub fn as_str(self) -> (r: &'static str)
        ensures
            r@ == self.name(),
    {
        match self {
            Order::Asc => "asc",
            Order::Desc => "desc",
        }
    }
}

/// The name of an optional order.
pub open spec fn order_name(order: Option<Order>) -> Option<Seq<char>> {
    match order {
        Some(o) => Some(o.name()),
        None => None,
    }
}

/// An optional limit in decimal.
pub open spec fn limit_text(limit: Option<u16>) -> Option<Seq<char>> {
    match limit {
        Some(n) => Some(decimal(n as nat)),
        None => None,
    }
}

/// Adds the paging parameters that listings share.
pub fn put_paging(out: &mut Params, order: Option<Order>, limit: Option<u16>)
    ensures
        final(out)@ == old(out)@ + opt_param("order"@, order_name(order)) + opt_param(
            "limit"@,
            limit_text(limit),
        ),
{
    out.push_opt(
        "order",
        match order {
            Some(o) => Some(o.as_str().to_owned()),
            None => None,
        },
    );
    out.push_opt(
        "limit",
        match limit {
            Some(n) => Some(decimal_text(n as u64)),
            None => None,
        },
    );
}

/// Builder for a listing of jobs.
#[derive(Debug)]
pub struct ListJobsBuilder {
    pub filters: JobFilter,
    /// Id of the job to start after.
    pub from: Option<String>,
    pub order: Option<Order>,
    pub limit: Option<u16>,
}

impl ListJobsBuilder {
    /// The query parameters of this listing.
    pub open spec fn params(&self) -> Seq<(Seq<char>, Seq<char>)> {
        opt_param("from"@, opt_text(self.from)) + opt_param("order"@, order_name(self.order))
            + opt_param("limit"@, limit_text(self.limit)) + self.filters@.params()
    }

    /// A listing of every job.
    pub fn new() -> (r: ListJobsBuilder)
        ensures
            r.filters@ == Selection::all(),
            r.from is None,
            r.order is None,
            r.limit is None,
    {
        ListJobsBuilder { filters: JobFilter::new(), from: None, order: None, limit: None }
    }

    /// Starts after the job with the given id, which is left out.
    pub fn from(self, id: &str) -> (r: ListJobsBuilder)
        ensures
            opt_text(r.from) == Some(id@),
            r == (ListJobsBuilder { from: r.from, ..self }),
    {
        ListJobsBuilder { from: Some(id.to_owned()), ..self }
    }

    /// Sets the order.
    pub fn order(self, order: Order) -> (r: ListJobsBuilder)
        ensures
            r == (ListJobsBuilder { order: Some(order), ..self }),
    {
        ListJobsBuilder { order: Some(order), ..self }
    }

    /// Sets how many jobs a page holds.
    pub fn limit(self, n: u16) -> (r: ListJobsBuilder)
        ensures
            r == (ListJobsBuilder { limit: Some(n), ..self }),
    {
        ListJobsBuilder { limit: Some(n), ..self }
    }

    /// Selects by status.
    pub fn status(self, statuses: &[JobStatus]) -> (r: ListJobsBuilder)
        ensures
            r.filters@ == (Selection { status: Some(status_names(statuses@)), ..self.filters@ }),
            r == (ListJobsBuilder { filters: r.filters, ..self }),
    {
        ListJobsBuilder { filters: self.filters.with_status(statuses), ..self }
    }

    /// Selects by queue.
    pub fn queue(self, queues: &[&str]) -> (r: ListJobsBuilder)
        ensures
            r.filters@ == (Selection { queue: Some(slice_texts(queues@)), ..self.filters@ }),
            r == (ListJobsBuilder { filters: r.filters, ..self }),
    {
        ListJobsBuilder { filters: self.filters.with_queue(queues), ..self }
    }

    /// Selects by job type.
    pub fn job_type(self, types: &[&str]) -> (r: ListJobsBuilder)
        ensures
            r.filters@ == (Selection { job_type: Some(slice_texts(types@)), ..self.filters@ }),
            r == (ListJobsBuilder { filters: r.filters, ..self }),
    {
        ListJobsBuilder { filters: self.filters.with_job_type(types), ..self }
    }

    /// Selects by id.
    pub fn id(self, ids: &[&str]) -> (r: ListJobsBuilder)
        ensures
            r.filters@ == (Selection { id: Some(slice_texts(ids@)), ..self.filters@ }),
            r == (ListJobsBuilder { filters: r.filters, ..self }),
    {
        ListJobsBuilder { filters: self.filters.with_id(ids), ..self }
    }

    /// Selects by the budgets that jobs are bound to.
    pub fn budgets_key(self, keys: &[&str]) -> (r: ListJobsBuilder)
        ensures
            r.filters@ == (Selection { budgets_key: Some(slice_texts(keys@)), ..self.filters@ }),
            r == (ListJobsBuilder { filters: r.filters, ..self }),
    {
        ListJobsBuilder { filters: self.filters.with_budgets_key(keys), ..self }
    }

    /// Selects by a jq expression over the payload.
    pub fn filter(self, expr: &str) -> (r: ListJobsBuilder)
        ensures
            r.filters@ == (Selection { jq: Some(expr@), ..self.filters@ }),
            r == (ListJobsBuilder { filters: r.filters, ..self }),
    {
        ListJobsBuilder { filters: self.filters.with_filter(expr), ..self }
    }

    /// The request for the first page.
    pub fn build_request(&self) -> (r: Request)
        ensures
            r@ == (RequestModel {
                method: Method::Get,
                segments: seq!["jobs"@],
                query: self.params(),
                body: None,
            }),
    {
        let mut query = Params::new();
        query.push_opt(
            "from",
            match &self.from {
                Some(id) => Some(id.clone()),
                None => None,
            },
        );
        put_paging(&mut query, self.order, self.limit);
        self.filters.append_to(&mut query);
        assert(query@ =~= self.params());
        Request {
            method: Method::Get,
            segments: one_segment("jobs"),
            query: query.pairs,
            body: None,
        }
    }

    /// The request for the first page, unless no job can match: there is
    /// nothing to ask the server then, and the page is empty.
    pub fn request(&self) -> (r: Option<Request>)
        ensures
            r is None == self.filters@.nothing(),
            r matches Some(request) ==> request@ == (RequestModel {
                method: Method::Get,
                segments: seq!["jobs"@],
                query: self.params(),
                body: None,
            }),
    {
        if self.filters.matches_nothing() {
            None
        } else {
            Some(self.build_request())
        }
    }

    /// Where a stream over every page starts.
    pub fn stream(&self) -> (r: PageStream<Job>)
        ensures
            r.buffer@ == Seq::<Job>::empty(),
            !(r.cursor is Next),
            r.cursor is Done == self.filters@.nothing(),
            r.cursor matches PageCursor::First(request) ==> request@ == (RequestModel {
                method: Method::Get,
                segments: seq!["jobs"@],
                query: self.params(),
                body: None,
            }),
    {
        let cursor = match self.request() {
            Some(request) => PageCursor::First(request),
            None => PageCursor::Done,
        };
        PageStream { buffer: Vec::new(), cursor }
    }
}

/// A page of jobs.
#[derive(Debug)]
pub struct JobPage {
    pub jobs: Vec<Job>,
    pub pages: PageLinks,
}

impl JobPage {
    /// A page without jobs or neighbours.
    pub fn empty() -> (r: JobPage)
        ensures
            r.jobs@ == Seq::<Job>::empty(),
            r.pages.next is None,
            r.pages.prev is None,
    {
        JobPage { jobs: Vec::new(), pages: PageLinks { next: None, prev: None } }
    }
}

/// Which page a stream has to fetch next.
#[derive(Debug)]
pub enum PageCursor {
    /// The first page.
    First(Request),
    /// The page that the last one linked to.
    Next(String),
    /// There is none.
    Done,
}

/// Items of a listing, fetched page by page.
#[derive(Debug)]
pub struct PageStream<T> {
    /// Items that were fetched and not yielded yet.
    pub buffer: Vec<T>,
    pub cursor: PageCursor,
}

/// What a stream does next.
#[derive(Debug)]
pub enum PageStep<T> {
    /// Yields an item.
    Item(T),
    /// Fetches the first page.
    FetchFirst(Request),
    /// Fetches a linked page.
    FetchNext(String),
    /// Ends.
    End,
}

impl<T> PageStream<T> {
    /// Decides what the stream does next. Items that were fetched come
    /// first; a page is asked for once only.
    pub fn step(&mut self) -> (r: PageStep<T>)
        ensures
            old(self).buffer@.len() > 0 ==> r == PageStep::Item(old(self).buffer@[0])
                && final(self).buffer@ == old(self).buffer@.drop_first() && final(self).cursor
                == old(self).cursor,
            old(self).buffer@.len() == 0 ==> final(self).buffer@ == old(self).buffer@,
            old(self).buffer@.len() == 0 ==> final(self).cursor is Done,
            old(self).buffer@.len() == 0 ==> r == match old(self).cursor {
                PageCursor::First(request) => PageStep::<T>::FetchFirst(request),
                PageCursor::Next(path) => PageStep::<T>::FetchNext(path),
                PageCursor::Done => PageStep::<T>::End,
            },
            r matches PageStep::Item(item) ==> forall|pages: Seq<Seq<T>>| #[trigger]
                streamed(old(self).buffer@, pages) == seq![item] + streamed(
                    final(self).buffer@,
                    pages,
                ),
    {
        if self.buffer.len() > 0 {
            let item = self.buffer.remove(0);
            assert(self.buffer@ =~= old(self).buffer@.drop_first());
            return PageStep::Item(item);
        }
        let mut cursor = PageCursor::Done;
        std::mem::swap(&mut self.cursor, &mut cursor);
        match cursor {
            PageCursor::First(request) => PageStep::FetchFirst(request),
            PageCursor::Next(path) => PageStep::FetchNext(path),
            PageCursor::Done => PageStep::End,
        }
    }

    /// Takes a page that was fetched.
    pub fn fetched(&mut self, items: Vec<T>, next: Option<String>)
        ensures
            final(self).buffer@ == items@,
            final(self).cursor == match next {
                Some(path) => PageCursor::Next(path),
                None => PageCursor::Done,
            },
            forall|pages: Seq<Seq<T>>|
                pages.len() > 0 && pages[0] == items@ ==> #[trigger] streamed(
                    Seq::empty(),
                    pages,
                ) == streamed(final(self).buffer@, pages.drop_first()),
    {
        self.buffer = items;
        self.cursor = match next {
            Some(path) => PageCursor::Next(path),
            None => PageCursor::Done,
        };
    }
}

/// The fields of page links, in order.
pub open spec fn link_fields() -> Seq<Seq<char>> {
    seq!["next"@, "prev"@]
}

/// Whether `v` has the shape of page links.
pub open spec fn is_links(v: Json) -> bool {
    let v = record(v, link_fields(), 2);
    v is Obj && opt_text_field(v, "next"@) is Some && opt_text_field(v, "prev"@) is Some
}

/// Whether `links` are the page links that `v` holds.
pub open spec fn links_read(links: PageLinks, v: Json) -> bool {
    let v = record(v, link_fields(), 2);
    &&& opt_text_field(v, "next"@) == Some(opt_text(links.next))
    &&& opt_text_field(v, "prev"@) == Some(opt_text(links.prev))
}

/// Reads page links from the API.
pub fn read_links(v: &Value) -> (r: Option<PageLinks>)
    ensures
        r is Some == is_links(v@),
        r matches Some(links) ==> links_read(links, v@),
{
    broadcast use group_value_models;

    match v {
        Value::Array(items) => {
            let names = vec!["next", "prev"];
            assert(slice_texts(names@) =~= link_fields());
            links_record(&by_position(items, &names, 2))
        },
        _ => links_record(v),
    }
}

fn links_record(v: &Value) -> (r: Option<PageLinks>)
    requires
        !(v@ is Arr),
    ensures
        r is Some == is_links(v@),
        r matches Some(links) ==> links_read(links, v@),
{
    match v {
        Value::Object(_) => {},
        _ => {
            return None;
        },
    }
    match (read_opt_text_field(v, "next"), read_opt_text_field(v, "prev")) {
        (Some(next), Some(prev)) => Some(PageLinks { next, prev }),
        _ => None,
    }
}

/// Whether `v` is an array of jobs.
pub open spec fn is_jobs(v: Json) -> bool {
    v matches Json::Arr(items) && forall|i: int|
        0 <= i < items.len() ==> is_job(#[trigger] items[i])
}

/// Whether `list` are the jobs of the array `v`.
pub open spec fn jobs_read(list: Seq<Job>, v: Json) -> bool {
    v matches Json::Arr(items) && list.len() == items.len() && forall|i: int|
        0 <= i < items.len() ==> list[i].read_from(#[trigger] items[i])
}

/// Reads an array of jobs from the API.
pub fn read_jobs(v: &Value) -> (r: Option<Vec<Job>>)
    ensures
        r is Some == is_jobs(v@),
        r matches Some(list) ==> jobs_read(list@, v@),
{
    broadcast use group_value_models;

    match v {
        Value::Array(items) => {
            let ghost all = models(items@);
            let mut out: Vec<Job> = Vec::new();
            let mut i: usize = 0;
            while i < items.len()
                invariant
                    all == models(items@),
                    v@ == Json::Arr(all),
                    i <= items@.len(),
                    out@.len() == i,
                    forall|j: int|
                        0 <= j < i ==> is_job(#[trigger] all[j]) && out@[j].read_from(all[j]),
                decreases items@.len() - i,
            {
                assert(all[i as int] == items@[i as int]@);
                match Job::from_value(&items[i]) {
                    Some(job) => out.push(job),
                    None => {
                        assert(!is_job(v@->Arr_0[i as int]));
                        return None;
                    },
                }
                i += 1;
            }
            Some(out)
        },
        _ => None,
    }
}

/// The fields of a page of jobs, in order.
pub open spec fn page_fields() -> Seq<Seq<char>> {
    seq!["jobs"@, "pages"@]
}

impl JobPage {
    /// Whether `v` has the shape of a page of jobs.
    pub open spec fn readable(v: Json) -> bool {
        let v = record(v, page_fields(), 2);
        &&& get(v, "jobs"@) matches Some(f) && is_jobs(f)
        &&& get(v, "pages"@) matches Some(f) && is_links(f)
    }

    /// Whether this is the page that `v` holds.
    pub open spec fn read_from(self, v: Json) -> bool {
        let v = record(v, page_fields(), 2);
        &&& jobs_read(self.jobs@, get(v, "jobs"@)->0)
        &&& links_read(self.pages, get(v, "pages"@)->0)
    }

    /// Reads a page of jobs from the API.
    pub fn from_value(v: &Value) -> (r: Option<JobPage>)
        ensures
            r is Some == JobPage::readable(v@),
            r matches Some(page) ==> page.read_from(v@),
    {
        broadcast use group_value_models;

        match v {
            Value::Array(items) => {
                let names = vec!["jobs", "pages"];
                assert(slice_texts(names@) =~= page_fields());
                JobPage::from_record(&by_position(items, &names, 2))
            },
            _ => JobPage::from_record(v),
        }
    }

    fn from_record(v: &Value) -> (r: Option<JobPage>)
        requires
            !(v@ is Arr),
        ensures
            r is Some == JobPage::readable(v@),
            r matches Some(page) ==> page.read_from(v@),
    {
        let jobs = match read_field(v, "jobs") {
            Some(f) => read_jobs(f),
            None => None,
        };
        let pages = match read_field(v, "pages") {
            Some(f) => read_links(f),
            None => None,
        };
        match (jobs, pages) {
            (Some(jobs), Some(pages)) => Some(JobPage { jobs, pages }),
            _ => None,
        }
    }
}

/// What a stream yields from here on: `buffer` are the items that it holds,
/// `pages` the items of the pages that are still to come.
pub open spec fn streamed<T>(buffer: Seq<T>, pages: Seq<Seq<T>>) -> Seq<T>
    decreases pages.len(), buffer.len(),
{
    if buffer.len() > 0 {
        seq![buffer[0]] + streamed(buffer.drop_first(), pages)
    } else if pages.len() > 0 {
        streamed(pages[0], pages.drop_first())
    } else {
        Seq::empty()
    }
}

/// A stream yields every item of every page, in order and once.
pub proof fn law_stream_yields_every_item<T>(buffer: Seq<T>, pages: Seq<Seq<T>>)
    ensures
        streamed(buffer, pages) == buffer + pages.flatten(),
    decreases pages.len(), buffer.len(),
{
    if buffer.len() > 0 {
        law_stream_yields_every_item(buffer.drop_first(), pages);
        assert(seq![buffer[0]] + (buffer.drop_first() + pages.flatten()) =~= buffer
            + pages.flatten());
    } else if pages.len() > 0 {
        law_stream_yields_every_item(pages[0], pages.drop_first());
        assert(pages.flatten() == pages[0] + pages.drop_first().flatten());
        assert(buffer + pages.flatten() =~= pages.flatten());
    } else {
        assert(buffer + pages.flatten() =~= Seq::empty());
    }
}

} // verus!
