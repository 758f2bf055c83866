//! Routing jobs to handlers by job type.

use vstd::prelude::*;
use vstd::string::*;
use crate::acks::HandlerError;
use crate::json::{Json, Value};
use crate::name_order::{sort_names, sorted_names};
use crate::text::{concat3, debug_form, debug_text, same_text, slice_texts};

verus! {

/// Application state handed to a handler.
#[derive(Debug, Clone, Copy)]
pub struct State<S>(pub S);

/// Handlers by job type. A job type has one handler: the last one that was
/// registered for it.
#[derive(Debug)]
pub struct Router<S, H> {
    pub routes: Vec<(String, H)>,
    /// State that handlers are given.
    pub state: S,
}

/// Index of the first route of `name`, or the number of routes.
pub open spec fn route_at<H>(routes: Seq<(String, H)>, name: Seq<char>) -> int
    decreases routes.len(),
{
    if routes.len() == 0 || routes[0].0@ == name {
        0
    } else {
        1 + route_at(routes.drop_first(), name)
    }
}

/// The handler of the job type `name`.
pub open spec fn handler_of<H>(routes: Seq<(String, H)>, name: Seq<char>) -> Option<H> {
    let at = route_at(routes, name);
    if at < routes.len() {
        Some(routes[at].1)
    } else {
        None
    }
}

/// The job types of some routes.
pub open spec fn route_names<H>(routes: Seq<(String, H)>) -> Seq<Seq<char>> {
    Seq::new(routes.len(), |i: int| routes[i].0@)
}

pub proof fn lemma_route_at<H>(routes: Seq<(String, H)>, name: Seq<char>)
    ensures
        0 <= route_at(routes, name) <= routes.len(),
        route_at(routes, name) < routes.len() ==> routes[route_at(routes, name)].0@ == name,
        forall|i: int| 0 <= i < route_at(routes, name) ==> (#[trigger] routes[i]).0@ != name,
    decreases routes.len(),
{
    if routes.len() > 0 && routes[0].0@ != name {
        let rest = routes.drop_first();
        lemma_route_at(rest, name);
        assert forall|i: int| 0 <= i < route_at(routes, name) implies (#[trigger] routes[i]).0@
            != name by {
            if i > 0 {
                assert(rest[i - 1] == routes[i]);
            }
        }
    }
}

proof fn lemma_route_at_is<H>(routes: Seq<(String, H)>, name: Seq<char>, n: int)
    requires
        0 <= n <= routes.len(),
        n < routes.len() ==> routes[n].0@ == name,
        forall|i: int| 0 <= i < n ==> (#[trigger] routes[i]).0@ != name,
    ensures
        route_at(routes, name) == n,
{
    lemma_route_at(routes, name);
    let m = route_at(routes, name);
    if m < n {
        assert(routes[m].0@ == name);
    } else if n < m {
        assert(routes[n].0@ != name);
    }
}

/// Whether `after` is `before` with the handler of `name` set to `h`.
pub open spec fn rerouted<H>(
    before: Seq<(String, H)>,
    after: Seq<(String, H)>,
    name: Seq<char>,
    h: H,
) -> bool {
    &&& handler_of(after, name) == Some(h)
    &&& forall|other: Seq<char>|
        other != name ==> #[trigger] handler_of(after, other) == handler_of(before, other)
}

proof fn lemma_update<H>(
    before: Seq<(String, H)>,
    after: Seq<(String, H)>,
    name: Seq<char>,
    at: int,
    h: H,
)
    requires
        at == route_at(before, name),
        at < before.len() ==> after.len() == before.len() && after[at].0 == before[at].0,
        at == before.len() ==> after.len() == before.len() + 1 && after[at].0@ == name,
        after[at].1 == h,
        forall|i: int|
            #![trigger after[i]]
            0 <= i < before.len() && i != at ==> after[i] == before[i],
    ensures
        rerouted(before, after, name, h),
{
    lemma_route_at(before, name);
    assert forall|i: int| 0 <= i < at implies (#[trigger] after[i]).0@ != name by {
        assert(after[i] == before[i]);
    }
    lemma_route_at_is(after, name, at);
    assert forall|other: Seq<char>| other != name implies #[trigger] handler_of(after, other)
        == handler_of(before, other) by {
        lemma_route_at(before, other);
        let p = route_at(before, other);
        if p < before.len() {
            assert(p != at);
            assert forall|i: int| 0 <= i < p implies (#[trigger] after[i]).0@ != other by {
                if i != at {
                    assert(after[i] == before[i]);
                }
            }
            assert(after[p] == before[p]);
            lemma_route_at_is(after, other, p);
        } else {
            assert forall|i: int| 0 <= i < after.len() implies (#[trigger] after[i]).0@
                != other by {
                if i != at {
                    assert(after[i] == before[i]);
                }
            }
            lemma_route_at_is(after, other, after.len() as int);
        }
    }
}

/// The error of a job that no route is registered for.
pub open spec fn no_route_message(job_type: Seq<char>) -> Seq<char> {
    "no route registered for job type "@ + debug_form(job_type)
}

impl<H> Router<(), H> {
    /// A router without routes or state.
    pub fn new() -> (r: Router<(), H>)
        ensures
            r.routes@ == Seq::<(String, H)>::empty(),
    {
        Router { routes: Vec::new(), state: () }
    }
}

impl<S, H> Router<S, H> {
    /// A router without routes, whose handlers are given `state`.
    pub fn with_state(state: S) -> (r: Router<S, H>)
        ensures
            r.routes@ == Seq::<(String, H)>::empty(),
            r.state == state,
    {
        Router { routes: Vec::new(), state }
    }

    fn position(&self, name: &str) -> (r: usize)
        ensures
            r == route_at(self.routes@, name@),
            r <= self.routes@.len(),
    {
        let mut i: usize = 0;
        while i < self.routes.len()
            invariant
                i <= self.routes@.len(),
                forall|j: int| 0 <= j < i ==> (#[trigger] self.routes@[j]).0@ != name@,
            decreases self.routes@.len() - i,
        {
            if same_text(self.routes[i].0.as_str(), name) {
                proof {
                    lemma_route_at_is(self.routes@, name@, i as int);
                }
                return i;
            }
            i += 1;
        }
        proof {
            lemma_route_at_is(self.routes@, name@, i as int);
        }
        i
    }

    /// Registers the handler of a job type, in place of the one that was
    /// registered before.
    pub fn route(self, name: &str, handler: H) -> (r: Router<S, H>)
        ensures
            rerouted(self.routes@, r.routes@, name@, handler),
            route_names(r.routes@) == if route_names(self.routes@).contains(name@) {
                route_names(self.routes@)
            } else {
                route_names(self.routes@).push(name@)
            },
            r.state == self.state,
    {
        let at = self.position(name);
        let mut routes = self.routes;
        let ghost before = routes@;
        if at < routes.len() {
            routes[at].1 = handler;
        } else {
            routes.push((name.to_owned(), handler));
        }
        proof {
            lemma_update(before, routes@, name@, at as int, handler);
            lemma_route_at(before, name@);
            let names = route_names(before);
            if at < before.len() {
                assert(names[at as int] == name@);
                assert(route_names(routes@) =~= names);
            } else {
                if names.contains(name@) {
                    let k = choose|k: int| 0 <= k < names.len() && names[k] == name@;
                    assert(before[k].0@ != name@);
                }
                assert(route_names(routes@) =~= names.push(name@));
            }
        }
        Router { routes, state: self.state }
    }

    /// The handler of a job, or the error that the job fails with where no
    /// route is registered for its type.
    pub fn handle(&self, job_type: &str) -> (r: Result<&H, HandlerError>)
        ensures
            match handler_of(self.routes@, job_type@) {
                Some(h) => r matches Ok(found) && *found == h,
                None => r matches Err(e) && e.error_type@ == "zizq::router::NoRouteError"@
                    && e.message@ == no_route_message(job_type@),
            },
    {
        let at = self.position(job_type);
        if at < self.routes.len() {
            Ok(&self.routes[at].1)
        } else {
            let mut message = "no route registered for job type ".to_owned();
            message.append(debug_text(job_type).as_str());
            Err(HandlerError { error_type: "zizq::router::NoRouteError".to_owned(), message })
        }
    }

    /// The job types that have a route, in ascending order.
    pub fn names(&self) -> (r: Vec<&str>)
        ensures
            slice_texts(r@) == sorted_names(route_names(self.routes@)),
    {
        let mut names: Vec<&str> = Vec::new();
        let mut i: usize = 0;
        while i < self.routes.len()
            invariant
                i <= self.routes@.len(),
                names@.len() == i,
                forall|j: int| 0 <= j < i ==> (#[trigger] names@[j])@ == self.routes@[j].0@,
            decreases self.routes@.len() - i,
        {
            names.push(self.routes[i].0.as_str());
            i += 1;
        }
        assert(slice_texts(names@) =~= route_names(self.routes@));
        sort_names(&names)
    }
}

/// The payload that a handler is given: null where the job has none.
pub fn payload_of(payload: Option<Value>) -> (r: Value)
    ensures
        r@ == match payload {
            Some(v) => v@,
            None => Json::Null,
        },
{
    match payload {
        Some(v) => v,
        None => Value::Null,
    }
}

/// The error of a job whose payload is not of the type that its handler
/// takes; `source` is what the payload decoder said.
pub fn payload_error(target: &str, source: &str) -> (r: HandlerError)
    ensures
        r.error_type@ == "zizq::router::PayloadDeserializeError"@,
        r.message@ == "failed to deserialise job payload as "@ + target@ + ": "@ + source@,
{
    let mut message = concat3("failed to deserialise job payload as ", target, ": ");
    message.append(source);
    HandlerError { error_type: "zizq::router::PayloadDeserializeError".to_owned(), message }
}

/// A job type is listed once, however often a handler is registered for it.
pub proof fn law_job_types_are_listed_once<H>(
    before: Seq<(String, H)>,
    after: Seq<(String, H)>,
    name: Seq<char>,
)
    requires
        route_names(before).no_duplicates(),
        route_names(after) == if route_names(before).contains(name) {
            route_names(before)
        } else {
            route_names(before).push(name)
        },
    ensures
        route_names(after).no_duplicates(),
        route_names(after).contains(name),
{
    let names = route_names(after);
    if !route_names(before).contains(name) {
        assert(names[names.len() - 1] == name);
        assert forall|i: int, j: int|
            0 <= i < names.len() && 0 <= j < names.len() && i != j implies names[i] != names[j] by {
            if i < names.len() - 1 {
                assert(names[i] == route_names(before)[i]);
            }
            if j < names.len() - 1 {
                assert(names[j] == route_names(before)[j]);
            }
        }
    }
}

/// The last registration of a job type wins, and no other job type
/// notices.
pub proof fn law_last_route_wins<H>(
    a: Seq<(String, H)>,
    b: Seq<(String, H)>,
    c: Seq<(String, H)>,
    name: Seq<char>,
    first: H,
    second: H,
)
    requires
        rerouted(a, b, name, first),
        rerouted(b, c, name, second),
    ensures
        rerouted(a, c, name, second),
{
    assert forall|other: Seq<char>| other != name implies #[trigger] handler_of(c, other)
        == handler_of(a, other) by {
        assert(handler_of(b, other) == handler_of(a, other));
    }
}

} // verus!
