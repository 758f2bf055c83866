//! The errors that a job's attempts ended in.

use vstd::prelude::*;
use crate::decode::{
    get, int_field, opt_text_field, read_field, read_int_field, read_opt_text_field,
    read_text_field, text_field,
};
use crate::json::{group_value_models, models, Json, Value};
use crate::list_jobs::{
    is_links, limit_text, links_read, order_name, put_paging, read_links, Order, PageCursor,
    PageStream,
};
use crate::request::{opt_param, three_segments, Method, Params, Request, RequestModel};
use crate::resources::PageLinks;
use crate::text::{decimal, decimal_text, opt_text};

verus! {

/// One failed attempt. Times are Unix milliseconds.
#[derive(Debug, Clone, PartialEq, Eq)]
pub struct ErrorRecord {
    pub attempt: u32,
    pub message: String,
    pub error_type: Option<String>,
    pub backtrace: Option<String>,
    pub dequeued_at: i64,
    pub failed_at: i64,
}

/// Whether `v` has the shape of an error record.
pub open spec fn is_record(v: Json) -> bool {
    &&& int_field(v, "attempt"@, 0, u32::MAX as int) is Some
    &&& text_field(v, "message"@) is Some
    &&& opt_text_field(v, "error_type"@) is Some
    &&& opt_text_field(v, "backtrace"@) is Some
    &&& int_field(v, "dequeued_at"@, i64::MIN as int, i64::MAX as int) is Some
    &&& int_field(v, "failed_at"@, i64::MIN as int, i64::MAX as int) is Some
}

impl ErrorRecord {
    /// Whether this is the record that `v` holds.
    pub open spec fn read_from(&self, v: Json) -> bool {
        &&& int_field(v, "attempt"@, 0, u32::MAX as int) == Some(self.attempt as int)
        &&& text_field(v, "message"@) == Some(self.message@)
        &&& opt_text_field(v, "error_type"@) == Some(opt_text(self.error_type))
        &&& opt_text_field(v, "backtrace"@) == Some(opt_text(self.backtrace))
        &&& int_field(v, "dequeued_at"@, i64::MIN as int, i64::MAX as int) == Some(
            self.dequeued_at as int,
        )
        &&& int_field(v, "failed_at"@, i64::MIN as int, i64::MAX as int) == Some(
            self.failed_at as int,
        )
    }

    /// Reads a record from the API.
    pub fn from_value(v: &Value) -> (r: Option<ErrorRecord>)
        ensures
            r is Some == is_record(v@),
            r matches Some(e) ==> e.read_from(v@),
    {
        match (
            read_int_field(v, "attempt", 0, u32::MAX as i128),
            read_text_field(v, "message"),
            read_opt_text_field(v, "error_type"),
            read_opt_text_field(v, "backtrace"),
            read_int_field(v, "dequeued_at", i64::MIN as i128, i64::MAX as i128),
            read_int_field(v, "failed_at", i64::MIN as i128, i64::MAX as i128),
        ) {
            (
                Some(attempt),
                Some(message),
                Some(error_type),
                Some(backtrace),
                Some(dequeued_at),
                Some(failed_at),
            ) => Some(
                ErrorRecord {
                    attempt: attempt as u32,
                    message,
                    error_type,
                    backtrace,
                    dequeued_at: dequeued_at as i64,
                    failed_at: failed_at as i64,
                },
            ),
            _ => None,
        }
    }
}

/// A page of error records.
#[derive(Debug)]
pub struct ErrorPage {
    pub errors: Vec<ErrorRecord>,
    pub pages: PageLinks,
}

/// Whether `v` is an array of error records.
pub open spec fn is_records(v: Json) -> bool {
    v matches Json::Arr(items) && forall|i: int|
        0 <= i < items.len() ==> is_record(#[trigger] items[i])
}

/// Whether `list` are the error records of the array `v`.
pub open spec fn records_read(list: Seq<ErrorRecord>, v: Json) -> bool {
    v matches Json::Arr(items) && list.len() == items.len() && forall|i: int|
        0 <= i < items.len() ==> list[i].read_from(#[trigger] items[i])
}

fn read_records(v: &Value) -> (r: Option<Vec<ErrorRecord>>)
    ensures
        r is Some == is_records(v@),
        r matches Some(list) ==> records_read(list@, v@),
{
    broadcast use group_value_models;

    match v {
        Value::Array(items) => {
            let ghost all = models(items@);
            let mut out: Vec<ErrorRecord> = Vec::new();
            let mut i: usize = 0;
            while i < items.len()
                invariant
                    all == models(items@),
                    v@ == Json::Arr(all),
                    i <= items@.len(),
                    out@.len() == i,
                    forall|j: int|
                        0 <= j < i ==> is_record(#[trigger] all[j]) && out@[j].read_from(all[j]),
                decreases items@.len() - i,
            {
                assert(all[i as int] == items@[i as int]@);
                match ErrorRecord::from_value(&items[i]) {
                    Some(e) => out.push(e),
                    None => {
                        assert(!is_record(v@->Arr_0[i as int]));
                        return None;
                    },
                }
                i += 1;
            }
            Some(out)
        },
        _ => None,
    }
}

impl ErrorPage {
    /// Whether `v` has the shape of a page of error records.
    pub open spec fn readable(v: Json) -> bool {
        &&& get(v, "errors"@) matches Some(f) && is_records(f)
        &&& get(v, "pages"@) matches Some(f) && is_links(f)
    }

    /// Reads a page of error records from the API.
    pub fn from_value(v: &Value) -> (r: Option<ErrorPage>)
        ensures
            r is Some == ErrorPage::readable(v@),
            r matches Some(page) ==> records_read(page.errors@, get(v@, "errors"@)->0)
                && links_read(page.pages, get(v@, "pages"@)->0),
    {
        let errors = match read_field(v, "errors") {
            Some(f) => read_records(f),
            None => None,
        };
        let pages = match read_field(v, "pages") {
            Some(f) => read_links(f),
            None => None,
        };
        match (errors, pages) {
            (Some(errors), Some(pages)) => Some(ErrorPage { errors, pages }),
            _ => None,
        }
    }
}

/// Builder for a listing of a job's errors.
#[derive(Debug)]
pub struct ListErrorsBuilder {
    pub job_id: String,
    /// Attempt to start after.
    pub from: Option<u32>,
    pub order: Option<Order>,
    pub limit: Option<u16>,
}

/// An optional attempt in decimal.
pub open spec fn attempt_text(attempt: Option<u32>) -> Option<Seq<char>> {
    match attempt {
        Some(n) => Some(decimal(n as nat)),
        None => None,
    }
}

impl ListErrorsBuilder {
    /// The request that this builder stands for.
    pub open spec fn model(&self) -> RequestModel {
        RequestModel {
            method: Method::Get,
            segments: seq!["jobs"@, self.job_id@, "errors"@],
            query: opt_param("from"@, attempt_text(self.from)) + opt_param(
                "order"@,
                order_name(self.order),
            ) + opt_param("limit"@, limit_text(self.limit)),
            body: None,
        }
    }

    /// Lists every error of a job.
    pub fn new(job_id: &str) -> (r: ListErrorsBuilder)
        ensures
            r.job_id@ == job_id@,
            r.from is None,
            r.order is None,
            r.limit is None,
    {
        ListErrorsBuilder { job_id: job_id.to_owned(), from: None, order: None, limit: None }
    }

    /// Starts after the given attempt, which is left out.
    pub fn from(self, attempt: u32) -> (r: ListErrorsBuilder)
        ensures
            r == (ListErrorsBuilder { from: Some(attempt), ..self }),
    {
        ListErrorsBuilder { from: Some(attempt), ..self }
    }

    /// Sets the order.
    pub fn order(self, order: Order) -> (r: ListErrorsBuilder)
        ensures
            r == (ListErrorsBuilder { order: Some(order), ..self }),
    {
        ListErrorsBuilder { order: Some(order), ..self }
    }

    /// Sets how many records a page holds.
    pub fn limit(self, n: u16) -> (r: ListErrorsBuilder)
        ensures
            r == (ListErrorsBuilder { limit: Some(n), ..self }),
    {
        ListErrorsBuilder { limit: Some(n), ..self }
    }

    /// The request for the first page.
    pub fn build_request(&self) -> (r: Request)
        ensures
            r@ == self.model(),
    {
        let mut query = Params::new();
        query.push_opt(
            "from",
            match self.from {
                Some(n) => Some(decimal_text(n as u64)),
                None => None,
            },
        );
        put_paging(&mut query, self.order, self.limit);
        assert(query@ =~= self.model().query);
        Request {
            method: Method::Get,
            segments: three_segments("jobs", self.job_id.as_str(), "errors"),
            query: query.pairs,
            body: None,
        }
    }

    /// Where a stream over every page starts.
    pub fn stream(&self) -> (r: PageStream<ErrorRecord>)
        ensures
            r.buffer@ == Seq::<ErrorRecord>::empty(),
            r.cursor matches PageCursor::First(request) && request@ == self.model(),
    {
        PageStream { buffer: Vec::new(), cursor: PageCursor::First(self.build_request()) }
    }
}

} // verus!
