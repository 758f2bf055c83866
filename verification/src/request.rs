//! Requests to the server: method, path, query and body.

use vstd::prelude::*;
use crate::json::{Json, Value};
use crate::text::texts;

verus! {

/// HTTP method of a request.
#[derive(Debug, Clone, Copy, PartialEq, Eq, Structural)]
pub enum Method {
    Get,
    Post,
    Put,
    Patch,
    Delete,
}

/// A request to the server.
#[derive(Debug)]
pub struct Request {
    pub method: Method,
    /// Path segments below the base URL, not encoded.
    pub segments: Vec<String>,
    /// Query parameters in order, not encoded.
    pub query: Vec<(String, String)>,
    /// Body, where the request has one.
    pub body: Option<Value>,
}

/// Model of a request.
pub struct RequestModel {
    pub method: Method,
    pub segments: Seq<Seq<char>>,
    pub query: Seq<(Seq<char>, Seq<char>)>,
    pub body: Option<Json>,
}

/// The views of some query parameters.
pub open spec fn pair_texts(pairs: Seq<(String, String)>) -> Seq<(Seq<char>, Seq<char>)> {
    Seq::new(pairs.len(), |i: int| (pairs[i].0@, pairs[i].1@))
}

impl View for Request {
    type V = RequestModel;

    open spec fn view(&self) -> RequestModel {
        RequestModel {
            method: self.method,
            segments: texts(self.segments@),
            query: pair_texts(self.query@),
            body: match self.body {
                Some(v) => Some(v@),
                None => None,
            },
        }
    }
}

/// A request without query parameters.
pub open spec fn plain_request(
    method: Method,
    segments: Seq<Seq<char>>,
    body: Option<Json>,
) -> RequestModel {
    RequestModel { method, segments, query: Seq::empty(), body }
}

/// Query parameters under construction.
pub struct Params {
    pub pairs: Vec<(String, String)>,
}

impl View for Params {
    type V = Seq<(Seq<char>, Seq<char>)>;

    open spec fn view(&self) -> Seq<(Seq<char>, Seq<char>)> {
        pair_texts(self.pairs@)
    }
}

/// The single parameter `name`.
pub open spec fn param(name: Seq<char>, value: Seq<char>) -> Seq<(Seq<char>, Seq<char>)> {
    seq![(name, value)]
}

/// The parameters that a present `value` adds.
pub open spec fn opt_param(name: Seq<char>, value: Option<Seq<char>>) -> Seq<
    (Seq<char>, Seq<char>),
> {
    match value {
        Some(value) => param(name, value),
        None => Seq::empty(),
    }
}

impl Params {
    /// No parameters.
    pub fn new() -> (r: Params)
        ensures
            r@ == Seq::<(Seq<char>, Seq<char>)>::empty(),
    {
        let r = Params { pairs: Vec::new() };
        assert(r@ =~= Seq::empty());
        r
    }

    /// Adds a parameter.
    pub fn push(&mut self, name: &str, value: String)
        ensures
            final(self)@ == old(self)@ + param(name@, value@),
    {
        let ghost text = value@;
        self.pairs.push((name.to_owned(), value));
        assert(self@ =~= old(self)@ + param(name@, text));
    }

    /// Adds a parameter where there is a value.
    pub fn push_opt(&mut self, name: &str, value: Option<String>)
        ensures
            final(self)@ == old(self)@ + opt_param(name@, crate::text::opt_text(value)),
    {
        match value {
            Some(value) => self.push(name, value),
            None => {
                assert(self@ =~= old(self)@ + Seq::<(Seq<char>, Seq<char>)>::empty());
            },
        }
    }
}

/// Copies one segment.
pub fn one_segment(a: &str) -> (r: Vec<String>)
    ensures
        texts(r@) == seq![a@],
{
    let mut out: Vec<String> = Vec::new();
    out.push(a.to_owned());
    assert(texts(out@) =~= seq![a@]);
    out
}

/// Copies two segments.
pub fn two_segments(a: &str, b: &str) -> (r: Vec<String>)
    ensures
        texts(r@) == seq![a@, b@],
{
    let mut out: Vec<String> = Vec::new();
    out.push(a.to_owned());
    out.push(b.to_owned());
    assert(texts(out@) =~= seq![a@, b@]);
    out
}

/// Copies three segments.
pub fn three_segments(a: &str, b: &str, c: &str) -> (r: Vec<String>)
    ensures
        texts(r@) == seq![a@, b@, c@],
{
    let mut out: Vec<String> = Vec::new();
    out.push(a.to_owned());
    out.push(b.to_owned());
    out.push(c.to_owned());
    assert(texts(out@) =~= seq![a@, b@, c@]);
    out
}

/// Copies four segments.
pub fn four_segments(a: &str, b: &str, c: &str, d: &str) -> (r: Vec<String>)
    ensures
        texts(r@) == seq![a@, b@, c@, d@],
{
    let mut out: Vec<String> = Vec::new();
    out.push(a.to_owned());
    out.push(b.to_owned());
    out.push(c.to_owned());
    out.push(d.to_owned());
    assert(texts(out@) =~= seq![a@, b@, c@, d@]);
    out
}

/// A request without query parameters.
pub fn plain(method: Method, segments: Vec<String>, body: Option<Value>) -> (r: Request)
    ensures
        r@ == plain_request(
            method,
            texts(segments@),
            match body {
                Some(v) => Some(v@),
                None => None,
            },
        ),
{
    let query: Vec<(String, String)> = Vec::new();
    assert(pair_texts(query@) =~= Seq::empty());
    Request { method, segments, query, body }
}

} // verus!
