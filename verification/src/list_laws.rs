//! Which jobs a request selects, said of its query parameters.

use vstd::prelude::*;
use vstd::string::*;
use crate::budget_jobs::{BudgetJobsBuilder, Operation};
use crate::count_jobs::CountJobsBuilder;
use crate::decode::get;
use crate::delete_jobs::DeleteJobsBuilder;
use crate::error::ZizqError;
use crate::job_filter::{list_value, opt_texts, status_names, JobFilter, Selection};
use crate::job_patch::JobPatch;
use crate::jobs::Job;
use crate::json::Json;
use crate::list_errors::{attempt_text, ListErrorsBuilder};
use crate::list_jobs::{
    limit_text, order_name, ListJobsBuilder, Order, PageCursor, PageStep, PageStream,
};
use crate::patch_jobs::PatchJobsBuilder;
use crate::request::{opt_param, Method, Request};
use crate::resources::JobStatus;
use crate::send_laws::{
    lemma_one_field, lemma_sends, lemma_shows_body, lemma_shows_patch, only, sends, shows_patch,
    shows_terms,
};
use crate::take::{prefetch_text, queue_list, TakeBuilder};
use crate::text::{
    all_digits, decimal_value, join, joined, lemma_decimal_round_trip, opt_text, slice_texts, texts,
};

verus! {

/// The value of the parameter `name`.
pub open spec fn param_of(query: Seq<(Seq<char>, Seq<char>)>, name: Seq<char>) -> Option<Seq<char>>
    decreases query.len(),
{
    if query.len() == 0 {
        None
    } else if query[0].0 == name {
        Some(query[0].1)
    } else {
        param_of(query.drop_first(), name)
    }
}

/// The value of the parameter `name` of a request.
pub open spec fn asked(r: Request, name: Seq<char>) -> Option<Seq<char>> {
    param_of(Seq::new(r.query@.len(), |i: int| (r.query@[i].0@, r.query@[i].1@)), name)
}

/// Some texts behind each other, each behind a comma.
pub open spec fn behind_commas(parts: Seq<Seq<char>>) -> Seq<char>
    decreases parts.len(),
{
    if parts.len() == 0 {
        Seq::empty()
    } else {
        seq![','] + parts[0] + behind_commas(parts.drop_first())
    }
}

/// Some texts with commas in between.
pub open spec fn with_commas(parts: Seq<Seq<char>>) -> Seq<char> {
    if parts.len() == 0 {
        Seq::empty()
    } else {
        parts[0] + behind_commas(parts.drop_first())
    }
}

pub proof fn lemma_behind_commas_push(parts: Seq<Seq<char>>, last: Seq<char>)
    ensures
        behind_commas(parts.push(last)) == behind_commas(parts) + seq![','] + last,
    decreases parts.len(),
{
    let all = parts.push(last);
    if parts.len() == 0 {
        assert(all.drop_first() =~= Seq::empty());
        assert(behind_commas(all.drop_first()) =~= Seq::empty());
        assert(behind_commas(all) =~= behind_commas(parts) + seq![','] + last);
    } else {
        assert(all.drop_first() =~= parts.drop_first().push(last));
        lemma_behind_commas_push(parts.drop_first(), last);
        assert(behind_commas(all) =~= behind_commas(parts) + seq![','] + last);
    }
}

proof fn lemma_with_commas(parts: Seq<Seq<char>>)
    ensures
        joined(parts, ","@) == with_commas(parts),
    decreases parts.len(),
{
    reveal_strlit(",");
    assert(","@ =~= seq![',']);
    if parts.len() == 1 {
        assert(behind_commas(parts.drop_first()) =~= Seq::empty());
        assert(with_commas(parts) =~= parts[0]);
    } else if parts.len() > 1 {
        lemma_with_commas(parts.drop_last());
        let rest = parts.drop_last().drop_first();
        assert(parts.drop_first() =~= rest.push(parts.last()));
        lemma_behind_commas_push(rest, parts.last());
        assert(with_commas(parts) =~= with_commas(parts.drop_last()) + seq![','] + parts.last());
    }
}

/// Texts that are joined stand one after the other, in order, with the
/// separator in between and nowhere else.
pub proof fn law_joined_texts_stand_in_order(parts: Vec<String>, r: String)
    requires
        call_ensures(join, (&parts, ","), r),
    ensures
        r@ == with_commas(texts(parts@)),
        texts(parts@).len() == parts@.len(),
{
    lemma_with_commas(texts(parts@));
}

/// The parameters that were added one after the other, those without a value
/// left out.
spec fn listed(names: Seq<Seq<char>>, values: Seq<Option<Seq<char>>>, k: int) -> Seq<
    (Seq<char>, Seq<char>),
>
    decreases k,
{
    if k <= 0 {
        Seq::empty()
    } else {
        listed(names, values, k - 1) + opt_param(names[k - 1], values[k - 1])
    }
}

proof fn lemma_param_concat(
    a: Seq<(Seq<char>, Seq<char>)>,
    b: Seq<(Seq<char>, Seq<char>)>,
    name: Seq<char>,
)
    ensures
        param_of(a + b, name) == match param_of(a, name) {
            Some(v) => Some(v),
            None => param_of(b, name),
        },
    decreases a.len(),
{
    if a.len() == 0 {
        assert(a + b =~= b);
    } else {
        assert((a + b).drop_first() =~= a.drop_first() + b);
        assert((a + b)[0] == a[0]);
        lemma_param_concat(a.drop_first(), b, name);
    }
}

proof fn lemma_opt_param(name: Seq<char>, value: Option<Seq<char>>, other: Seq<char>)
    ensures
        param_of(opt_param(name, value), other) == if other == name {
            value
        } else {
            None
        },
{
    if value is Some {
        let one = opt_param(name, value);
        assert(one.drop_first() =~= Seq::empty());
        assert(param_of(one.drop_first(), other) is None);
    }
}

proof fn lemma_listed(
    names: Seq<Seq<char>>,
    values: Seq<Option<Seq<char>>>,
    k: int,
    i: int,
    name: Seq<char>,
)
    requires
        names.no_duplicates(),
        names.len() == values.len(),
        0 <= k <= names.len(),
        0 <= i < k ==> name == names[i],
        i < 0 || i >= k ==> forall|j: int| 0 <= j < k ==> #[trigger] names[j] != name,
    ensures
        param_of(listed(names, values, k), name) == if 0 <= i < k {
            values[i]
        } else {
            None
        },
    decreases k,
{
    if k > 0 {
        let next = if i == k - 1 {
            -1
        } else {
            i
        };
        assert forall|j: int| 0 <= j < k - 1 && !(0 <= next < k - 1) implies #[trigger] names[j]
            != name by {
            if i == k - 1 {
                assert(names[j] != names[k - 1]);
            }
        }
        lemma_listed(names, values, k - 1, next, name);
        lemma_param_concat(
            listed(names, values, k - 1),
            opt_param(names[k - 1], values[k - 1]),
            name,
        );
        lemma_opt_param(names[k - 1], values[k - 1], name);
        if 0 <= i < k - 1 {
            assert(names[i] != names[k - 1]);
        }
    }
}

/// Parameters with different names hold each value under its name, and
/// nothing else.
proof fn lemma_all_listed(names: Seq<Seq<char>>, values: Seq<Option<Seq<char>>>)
    requires
        names.no_duplicates(),
        names.len() == values.len(),
    ensures
        forall|i: int|
            #![trigger names[i]]
            0 <= i < names.len() ==> param_of(
                listed(names, values, names.len() as int),
                names[i],
            ) == values[i],
        forall|name: Seq<char>|
            #![trigger names.contains(name)]
            param_of(listed(names, values, names.len() as int), name) is Some ==> names.contains(
                name,
            ),
{
    let n = names.len() as int;
    assert forall|i: int| #![trigger names[i]] 0 <= i < n implies param_of(
        listed(names, values, n),
        names[i],
    ) == values[i] by {
        lemma_listed(names, values, n, i, names[i]);
    }
    assert forall|name: Seq<char>|
        #![trigger names.contains(name)]
        param_of(listed(names, values, n), name) is Some implies names.contains(name) by {
        if !names.contains(name) {
            assert forall|j: int| 0 <= j < n implies #[trigger] names[j] != name by {}
            lemma_listed(names, values, n, -1, name);
        }
    }
}

/// The word that the API has for a status.
pub open spec fn status_word(s: JobStatus) -> Seq<char> {
    match s {
        JobStatus::Ready => "ready"@,
        JobStatus::InFlight => "in_flight"@,
        JobStatus::Scheduled => "scheduled"@,
        JobStatus::Completed => "completed"@,
        JobStatus::Dead => "dead"@,
        JobStatus::Unknown => "unknown"@,
    }
}

/// A list of texts as a parameter: the texts with commas in between, none
/// where there are no texts.
pub open spec fn texts_asked(list: Option<Vec<String>>) -> Option<Seq<char>> {
    match list {
        Some(v) => if v@.len() > 0 {
            Some(with_commas(Seq::new(v@.len(), |i: int| v@[i]@)))
        } else {
            None
        },
        None => None,
    }
}

/// A list of statuses as a parameter.
pub open spec fn statuses_asked(list: Option<Vec<JobStatus>>) -> Option<Seq<char>> {
    match list {
        Some(v) => if v@.len() > 0 {
            Some(with_commas(Seq::new(v@.len(), |i: int| status_word(v@[i]))))
        } else {
            None
        },
        None => None,
    }
}

/// A text as a parameter.
pub open spec fn text_asked(s: Option<String>) -> Option<Seq<char>> {
    match s {
        Some(s) => Some(s@),
        None => None,
    }
}

/// Whether a request asks for what a filter selects: each list under its own
/// name.
pub open spec fn asks_for(r: Request, f: JobFilter) -> bool {
    &&& asked(r, "status"@) == statuses_asked(f.status)
    &&& asked(r, "queue"@) == texts_asked(f.queue)
    &&& asked(r, "type"@) == texts_asked(f.job_type)
    &&& asked(r, "id"@) == texts_asked(f.id)
    &&& asked(r, "budgets.key"@) == texts_asked(f.budgets_key)
    &&& asked(r, "filter"@) == text_asked(f.jq)
}

/// The names of the parameters that a filter can add.
pub open spec fn filter_names() -> Seq<Seq<char>> {
    seq!["status"@, "queue"@, "type"@, "id"@, "budgets.key"@, "filter"@]
}

/// Whether a filter holds a list that was given empty.
pub open spec fn has_empty_list(f: JobFilter) -> bool {
    (f.status matches Some(v) && v@.len() == 0) || (f.queue matches Some(v) && v@.len() == 0) || (
    f.job_type matches Some(v) && v@.len() == 0) || (f.id matches Some(v) && v@.len() == 0) || (
    f.budgets_key matches Some(v) && v@.len() == 0)
}

proof fn lemma_filter_names()
    ensures
        filter_names().no_duplicates(),
{
    reveal_strlit("status");
    reveal_strlit("queue");
    reveal_strlit("type");
    reveal_strlit("id");
    reveal_strlit("budgets.key");
    reveal_strlit("filter");
    let names = filter_names();
    assert("status"@.len() == 6);
    assert("queue"@.len() == 5);
    assert("type"@.len() == 4);
    assert("id"@.len() == 2);
    assert("budgets.key"@.len() == 11);
    assert("filter"@.len() == 6);
    assert("status"@[0] == 's' && "filter"@[0] == 'f');
    assert forall|i: int, j: int|
        0 <= i < names.len() && 0 <= j < names.len() && i != j implies names[i] != names[j] by {}
}

proof fn lemma_listing_names()
    ensures
        seq!["from"@, "order"@, "limit"@, "status"@, "queue"@, "type"@, "id"@, "budgets.key"@,
            "filter"@].no_duplicates(),
{
    reveal_strlit("from");
    reveal_strlit("order");
    reveal_strlit("limit");
    reveal_strlit("status");
    reveal_strlit("queue");
    reveal_strlit("type");
    reveal_strlit("id");
    reveal_strlit("budgets.key");
    reveal_strlit("filter");
    let names = seq!["from"@, "order"@, "limit"@, "status"@, "queue"@, "type"@, "id"@,
        "budgets.key"@, "filter"@];
    assert("from"@.len() == 4);
    assert("order"@.len() == 5);
    assert("limit"@.len() == 5);
    assert("status"@.len() == 6);
    assert("queue"@.len() == 5);
    assert("type"@.len() == 4);
    assert("id"@.len() == 2);
    assert("budgets.key"@.len() == 11);
    assert("filter"@.len() == 6);
    assert("from"@[0] == 'f' && "type"@[0] == 't');
    assert("order"@[0] == 'o' && "limit"@[0] == 'l');
    assert("order"@[0] == 'o' && "queue"@[0] == 'q');
    assert("limit"@[0] == 'l' && "queue"@[0] == 'q');
    assert("status"@[0] == 's' && "filter"@[0] == 'f');
    assert forall|i: int, j: int|
        0 <= i < names.len() && 0 <= j < names.len() && i != j implies names[i] != names[j] by {}
}

proof fn lemma_texts_asked(list: Option<Vec<String>>)
    ensures
        list_value(opt_texts(list)) == texts_asked(list),
{
    if let Some(v) = list {
        assert(texts(v@) =~= Seq::new(v@.len(), |i: int| v@[i]@));
        lemma_with_commas(texts(v@));
    }
}

/// What the parameters of a filter are.
pub proof fn lemma_filter_params(f: JobFilter)
    ensures
        param_of(f@.params(), "status"@) == statuses_asked(f.status),
        param_of(f@.params(), "queue"@) == texts_asked(f.queue),
        param_of(f@.params(), "type"@) == texts_asked(f.job_type),
        param_of(f@.params(), "id"@) == texts_asked(f.id),
        param_of(f@.params(), "budgets.key"@) == texts_asked(f.budgets_key),
        param_of(f@.params(), "filter"@) == text_asked(f.jq),
        forall|name: Seq<char>|
            #![trigger filter_names().contains(name)]
            param_of(f@.params(), name) is Some ==> filter_names().contains(name),
        f@.nothing() == has_empty_list(f),
{
    lemma_filter_names();
    let s = f@;
    let names = filter_names();
    let values: Seq<Option<Seq<char>>> = seq![
        list_value(s.status),
        list_value(s.queue),
        list_value(s.job_type),
        list_value(s.id),
        list_value(s.budgets_key),
        s.jq,
    ];
    reveal_with_fuel(listed, 7);
    assert(s.params() =~= listed(names, values, 6));
    lemma_all_listed(names, values);
    assert(names[0] == "status"@);
    assert(names[1] == "queue"@);
    assert(names[2] == "type"@);
    assert(names[3] == "id"@);
    assert(names[4] == "budgets.key"@);
    assert(names[5] == "filter"@);
    lemma_texts_asked(f.queue);
    lemma_texts_asked(f.job_type);
    lemma_texts_asked(f.id);
    lemma_texts_asked(f.budgets_key);
    if let Some(v) = f.status {
        assert(status_names(v@) =~= Seq::new(v@.len(), |i: int| status_word(v@[i])));
        lemma_with_commas(status_names(v@));
        assert(status_names(v@).len() == v@.len());
    }
    if let Some(v) = f.queue {
        assert(texts(v@).len() == v@.len());
    }
    if let Some(v) = f.job_type {
        assert(texts(v@).len() == v@.len());
    }
    if let Some(v) = f.id {
        assert(texts(v@).len() == v@.len());
    }
    if let Some(v) = f.budgets_key {
        assert(texts(v@).len() == v@.len());
    }
}

/// What is asked is what the model of a request says.
proof fn lemma_asked(r: Request, name: Seq<char>)
    ensures
        asked(r, name) == param_of(r@.query, name),
{
    assert(r@.query =~= Seq::new(r.query@.len(), |i: int| (r.query@[i].0@, r.query@[i].1@)));
}

proof fn lemma_asks_for(r: Request, f: JobFilter)
    requires
        r@.query == f@.params(),
    ensures
        asks_for(r, f),
        forall|name: Seq<char>| #[trigger] asked(r, name) is Some ==> filter_names().contains(name),
{
    lemma_filter_params(f);
    lemma_asked(r, "status"@);
    lemma_asked(r, "queue"@);
    lemma_asked(r, "type"@);
    lemma_asked(r, "id"@);
    lemma_asked(r, "budgets.key"@);
    lemma_asked(r, "filter"@);
    assert forall|name: Seq<char>| #[trigger] asked(r,
        name) is Some implies filter_names().contains(
        name,
    ) by {
        lemma_asked(r, name);
        assert(filter_names().contains(name) || !filter_names().contains(name));
    }
}

/// A count asks for exactly the jobs that were selected; where some list was
/// given empty nothing is asked, as no job can match.
pub proof fn law_count_asks_for_the_selection(b: CountJobsBuilder, built: Request,
    r: Option<Request>)
    requires
        call_ensures(CountJobsBuilder::build_request, (&b,), built),
        call_ensures(CountJobsBuilder::request, (&b,), r),
    ensures
        sends(built, Method::Get, seq!["jobs"@, "count"@]),
        built.body is None,
        asks_for(built, b.filters),
        forall|name: Seq<char>|
            #[trigger] asked(built, name) is Some ==> filter_names().contains(name),
        r is None == has_empty_list(b.filters),
        r matches Some(request) ==> sends(request, Method::Get, seq!["jobs"@, "count"@])
            && request.body is None
            && asks_for(request, b.filters),
{
    lemma_filter_params(b.filters);
    lemma_sends(built);
    lemma_asks_for(built, b.filters);
    if let Some(request) = r {
        lemma_sends(request);
        lemma_asks_for(request, b.filters);
    }
}

/// A deletion deletes exactly the jobs that were selected; where some list was
/// given empty nothing is asked, as a request without it would mean every job.
pub proof fn law_deletion_asks_for_the_selection(b: DeleteJobsBuilder, built: Request,
    r: Option<Request>)
    requires
        call_ensures(DeleteJobsBuilder::build_request, (&b,), built),
        call_ensures(DeleteJobsBuilder::request, (&b,), r),
    ensures
        sends(built, Method::Delete, seq!["jobs"@]),
        built.body is None,
        asks_for(built, b.filters),
        forall|name: Seq<char>|
            #[trigger] asked(built, name) is Some ==> filter_names().contains(name),
        r is None == has_empty_list(b.filters),
        r matches Some(request) ==> sends(request, Method::Delete, seq!["jobs"@])
            && request.body is None
            && asks_for(request, b.filters),
{
    lemma_filter_params(b.filters);
    lemma_sends(built);
    lemma_asks_for(built, b.filters);
    if let Some(request) = r {
        lemma_sends(request);
        lemma_asks_for(request, b.filters);
    }
}

/// A bulk update updates exactly the jobs that were selected, as its patch
/// says. Without a patch it is an error, and where some list was given empty
/// nothing is asked.
pub proof fn law_update_asks_for_the_selection(
    b: PatchJobsBuilder,
    r: Result<Option<Request>, ZizqError>,
)
    requires
        call_ensures(PatchJobsBuilder::request, (&b,), r),
    ensures
        b.patch is None ==> r matches Err(ZizqError::MissingPatch),
        b.patch is Some && has_empty_list(b.filters) ==> r matches Ok(None),
        b.patch is Some && !has_empty_list(b.filters) ==> (r matches Ok(Some(request)) && sends(
            request,
            Method::Patch,
            seq!["jobs"@],
        ) && asks_for(request, b.filters) && (request.body matches Some(v) && shows_patch(
            v@,
            b.patch->0,
        ))),
{
    lemma_filter_params(b.filters);
    if let Ok(Some(request)) = r {
        lemma_sends(request);
        lemma_asks_for(request, b.filters);
        lemma_shows_patch(b.patch->0);
    }
}

/// A bulk change of budgets changes exactly the jobs that were selected, by
/// the method and the path of what is to be done; where some list was given
/// empty nothing is asked.
pub proof fn law_budget_change_asks_for_the_selection(b: BudgetJobsBuilder, r: Option<Request>)
    requires
        call_ensures(BudgetJobsBuilder::request, (&b,), r),
    ensures
        r is None == has_empty_list(b.filters),
        r matches Some(request) ==> asks_for(request, b.filters) && (match b.operation {
            Operation::Bind(binding) => sends(
                request,
                Method::Post,
                seq!["jobs"@, "budgets"@, binding.key@],
            ) && (request.body matches Some(v) && shows_terms(v@, binding)),
            Operation::Rebind(binding) => sends(
                request,
                Method::Put,
                seq!["jobs"@, "budgets"@, binding.key@],
            ) && (request.body matches Some(v) && shows_terms(v@, binding)),
            Operation::SetCost { key, cost } => sends(
                request,
                Method::Patch,
                seq!["jobs"@, "budgets"@, key@],
            ) && (request.body matches Some(v) && get(v@, "cost"@) == Some(Json::Int(cost as int))
                && only(v@, seq!["cost"@])),
            Operation::Unbind { key } => sends(
                request,
                Method::Delete,
                seq!["jobs"@, "budgets"@, key@],
            ) && request.body is None,
            Operation::Clear => sends(request, Method::Delete, seq!["jobs"@, "budgets"@])
                && request.body is None,
        }),
{
    lemma_filter_params(b.filters);
    if let Some(request) = r {
        lemma_sends(request);
        lemma_asks_for(request, b.filters);
        match b.operation {
            Operation::Bind(binding) => {
                lemma_shows_body(binding);
            },
            Operation::Rebind(binding) => {
                lemma_shows_body(binding);
            },
            Operation::SetCost { cost, .. } => {
                lemma_one_field("cost"@, Json::Int(cost as int));
            },
            _ => {},
        }
    }
}

/// Whether `s` is the number `n` in decimal.
pub open spec fn decimal_is(s: Option<Seq<char>>, n: Option<int>) -> bool {
    match n {
        Some(n) => s matches Some(t) && all_digits(t) && decimal_value(t) == n,
        None => s is None,
    }
}

/// The word that the API has for an order.
pub open spec fn order_word(o: Option<Order>) -> Option<Seq<char>> {
    match o {
        Some(Order::Asc) => Some("asc"@),
        Some(Order::Desc) => Some("desc"@),
        None => None,
    }
}

/// Whether a request lists the jobs that a builder selects, from where it
/// says, in its order and page size.
pub open spec fn lists(r: Request, b: ListJobsBuilder) -> bool {
    &&& sends(r, Method::Get, seq!["jobs"@])
    &&& r.body is None
    &&& asked(r, "from"@) == text_asked(b.from)
    &&& asked(r, "order"@) == order_word(b.order)
    &&& decimal_is(
        asked(r, "limit"@),
        match b.limit {
            Some(n) => Some(n as int),
            None => None,
        },
    )
    &&& asks_for(r, b.filters)
}

#[verifier::rlimit(40)]
proof fn lemma_lists(r: Request, b: ListJobsBuilder)
    requires
        r@.method == Method::Get,
        r@.segments == seq!["jobs"@],
        r@.query == b.params(),
        r@.body is None,
    ensures
        lists(r, b),
{
    lemma_sends(r);
    lemma_filter_params(b.filters);
    lemma_listing_names();
    let head = opt_param("from"@, opt_text(b.from)) + opt_param("order"@, order_name(b.order))
        + opt_param("limit"@, limit_text(b.limit));
    let all = seq!["from"@, "order"@, "limit"@, "status"@, "queue"@, "type"@, "id"@,
        "budgets.key"@, "filter"@];
    let names = seq!["from"@, "order"@, "limit"@];
    let values: Seq<Option<Seq<char>>> = seq![
        opt_text(b.from),
        order_name(b.order),
        limit_text(b.limit),
    ];
    assert forall|i: int, j: int|
        0 <= i < names.len() && 0 <= j < names.len() && i != j implies names[i] != names[j] by {
        assert(all[i] == names[i] && all[j] == names[j]);
    }
    reveal_with_fuel(listed, 4);
    assert(head =~= listed(names, values, 3));
    lemma_all_listed(names, values);
    assert(names[0] == "from"@ && names[1] == "order"@ && names[2] == "limit"@);
    assert(all[0] == "from"@ && all[1] == "order"@ && all[2] == "limit"@);
    assert(all[3] == "status"@ && all[4] == "queue"@ && all[5] == "type"@);
    assert(all[6] == "id"@ && all[7] == "budgets.key"@ && all[8] == "filter"@);
    let f = filter_names();
    assert forall|k: int| 0 <= k < 3 implies param_of(b.filters@.params(), #[trigger] names[k])
        is None by {
        if f.contains(names[k]) {
            let j = choose|j: int| 0 <= j < f.len() && f[j] == names[k];
            assert(all[3 + j] == f[j]);
            assert(all[k] == names[k]);
        }
    }
    assert forall|j: int| 0 <= j < f.len() implies param_of(head, #[trigger] f[j]) is None by {
        if names.contains(f[j]) {
            let k = choose|k: int| 0 <= k < names.len() && names[k] == f[j];
            assert(all[3 + j] == f[j]);
            assert(all[k] == names[k]);
        }
    }
    assert(f[0] == "status"@ && f[1] == "queue"@ && f[2] == "type"@);
    assert(f[3] == "id"@ && f[4] == "budgets.key"@ && f[5] == "filter"@);
    assert forall|name: Seq<char>| param_of(b.params(), name) == (match param_of(head, name) {
        Some(v) => Some(v),
        None => #[trigger] param_of(b.filters@.params(), name),
    }) by {
        lemma_param_concat(head, b.filters@.params(), name);
    }
    lemma_asked(r, "from"@);
    lemma_asked(r, "order"@);
    lemma_asked(r, "limit"@);
    lemma_asked(r, "status"@);
    lemma_asked(r, "queue"@);
    lemma_asked(r, "type"@);
    lemma_asked(r, "id"@);
    lemma_asked(r, "budgets.key"@);
    lemma_asked(r, "filter"@);
    if let Some(n) = b.limit {
        lemma_decimal_round_trip(n as nat);
    }
}

/// A listing lists exactly the jobs that were selected, from where it was
/// told, in the order and with the page size that it was given; where some
/// list was given empty nothing is asked.
pub proof fn law_listing_asks_for_the_selection(
    b: ListJobsBuilder,
    built: Request,
    r: Option<Request>,
    s: PageStream<Job>,
)
    requires
        call_ensures(ListJobsBuilder::build_request, (&b,), built),
        call_ensures(ListJobsBuilder::request, (&b,), r),
        call_ensures(ListJobsBuilder::stream, (&b,), s),
    ensures
        lists(built, b),
        r is None == has_empty_list(b.filters),
        r matches Some(request) ==> lists(request, b),
        s.buffer@.len() == 0,
        has_empty_list(b.filters) ==> s.cursor is Done,
        !has_empty_list(b.filters) ==> (s.cursor matches PageCursor::First(request) && lists(
            request,
            b,
        )),
{
    lemma_filter_params(b.filters);
    lemma_lists(built, b);
    if let Some(request) = r {
        lemma_lists(request, b);
    }
    if let PageCursor::First(request) = s.cursor {
        lemma_lists(request, b);
    }
}

/// A listing of a job's errors asks for that job's, from where it was told,
/// in the order and with the page size that it was given.
pub proof fn law_error_listing_asks_for_the_job(b: ListErrorsBuilder, r: Request)
    requires
        call_ensures(ListErrorsBuilder::build_request, (&b,), r),
    ensures
        sends(r, Method::Get, seq!["jobs"@, b.job_id@, "errors"@]),
        r.body is None,
        decimal_is(
            asked(r, "from"@),
            match b.from {
                Some(n) => Some(n as int),
                None => None,
            },
        ),
        asked(r, "order"@) == order_word(b.order),
        decimal_is(
            asked(r, "limit"@),
            match b.limit {
                Some(n) => Some(n as int),
                None => None,
            },
        ),
{
    lemma_sends(r);
    lemma_listing_names();
    let all = seq!["from"@, "order"@, "limit"@, "status"@, "queue"@, "type"@, "id"@,
        "budgets.key"@, "filter"@];
    let names = seq!["from"@, "order"@, "limit"@];
    let values: Seq<Option<Seq<char>>> = seq![
        attempt_text(b.from),
        order_name(b.order),
        limit_text(b.limit),
    ];
    assert forall|i: int, j: int|
        0 <= i < names.len() && 0 <= j < names.len() && i != j implies names[i] != names[j] by {
        assert(all[i] == names[i] && all[j] == names[j]);
    }
    reveal_with_fuel(listed, 4);
    assert(r@.query =~= listed(names, values, 3));
    lemma_all_listed(names, values);
    assert(names[0] == "from"@ && names[1] == "order"@ && names[2] == "limit"@);
    lemma_asked(r, "from"@);
    lemma_asked(r, "order"@);
    lemma_asked(r, "limit"@);
    if let Some(n) = b.from {
        lemma_decimal_round_trip(n as nat);
    }
    if let Some(n) = b.limit {
        lemma_decimal_round_trip(n as nat);
    }
}

/// A job stream asks for its queues and its limit, and for nothing else.
pub proof fn law_stream_asks_for_its_queues(b: TakeBuilder, r: Request)
    requires
        call_ensures(TakeBuilder::request, (&b,), r),
    ensures
        sends(r, Method::Get, seq!["jobs"@, "take"@]),
        r.body is None,
        b.queues@.len() == 0 ==> asked(r, "queue"@) is None,
        b.queues@.len() > 0 ==> asked(r, "queue"@) == Some(
            with_commas(Seq::new(b.queues@.len(), |i: int| b.queues@[i]@)),
        ),
        decimal_is(
            asked(r, "prefetch"@),
            match b.prefetch {
                Some(n) => Some(n as int),
                None => None,
            },
        ),
        b.queues@.len() == 0 && b.prefetch is None ==> r.query@.len() == 0,
{
    lemma_sends(r);
    reveal_strlit("queue");
    reveal_strlit("prefetch");
    assert("queue"@.len() == 5 && "prefetch"@.len() == 8);
    let names = seq!["queue"@, "prefetch"@];
    let values: Seq<Option<Seq<char>>> = seq![
        queue_list(texts(b.queues@)),
        prefetch_text(b.prefetch),
    ];
    reveal_with_fuel(listed, 3);
    assert(r@.query =~= listed(names, values, 2));
    lemma_all_listed(names, values);
    assert(names[0] == "queue"@ && names[1] == "prefetch"@);
    lemma_asked(r, "queue"@);
    lemma_asked(r, "prefetch"@);
    assert(texts(b.queues@) =~= Seq::new(b.queues@.len(), |i: int| b.queues@[i]@));
    lemma_with_commas(texts(b.queues@));
    if let Some(n) = b.prefetch {
        lemma_decimal_round_trip(n as nat);
    }
}

/// A stream over pages yields what it holds in order, then asks for the next
/// page, the first one by its request and a later one by its link, and ends
/// where there is none.
pub proof fn law_page_stream_goes_on_in_order<T>(s: &mut PageStream<T>, r: PageStep<T>)
    requires
        call_ensures(PageStream::<T>::step, (s,), r),
    ensures
        old(s).buffer@.len() > 0 ==> r == PageStep::Item(old(s).buffer@[0]) && final(s).buffer@
            == old(s).buffer@.drop_first() && final(s).cursor == old(s).cursor,
        old(s).buffer@.len() == 0 ==> final(s).buffer@.len() == 0 && final(s).cursor is Done,
        old(s).buffer@.len() == 0 ==> (old(s).cursor matches PageCursor::First(request) ==> r
            == PageStep::<T>::FetchFirst(request)),
        old(s).buffer@.len() == 0 ==> (old(s).cursor matches PageCursor::Next(path) ==> r
            == PageStep::<T>::FetchNext(path)),
        old(s).buffer@.len() == 0 && old(s).cursor is Done ==> r is End,
{
}

/// A page that was fetched is what the stream yields next, and its link is
/// where the stream goes on.
pub proof fn law_fetched_page_is_yielded_next<T>(
    s: &mut PageStream<T>,
    items: Vec<T>,
    next: Option<String>,
)
    requires
        call_ensures(PageStream::<T>::fetched, (s, items, next), ()),
    ensures
        final(s).buffer@ == items@,
        next matches Some(path) ==> final(s).cursor == PageCursor::Next(path),
        next is None ==> final(s).cursor is Done,
{
}

/// A list of texts as a parameter.
pub open spec fn texts_slice(list: Seq<&str>) -> Option<Seq<char>> {
    if list.len() > 0 {
        Some(with_commas(Seq::new(list.len(), |i: int| list[i]@)))
    } else {
        None
    }
}

/// A list of statuses as a parameter.
pub open spec fn statuses_slice(list: Seq<JobStatus>) -> Option<Seq<char>> {
    if list.len() > 0 {
        Some(with_commas(Seq::new(list.len(), |i: int| status_word(list[i]))))
    } else {
        None
    }
}

/// The value of the parameter `name` of a filter, by its fields.
pub open spec fn filter_param(f: JobFilter, name: Seq<char>) -> Option<Seq<char>> {
    if name == "status"@ {
        statuses_asked(f.status)
    } else if name == "queue"@ {
        texts_asked(f.queue)
    } else if name == "type"@ {
        texts_asked(f.job_type)
    } else if name == "id"@ {
        texts_asked(f.id)
    } else if name == "budgets.key"@ {
        texts_asked(f.budgets_key)
    } else if name == "filter"@ {
        text_asked(f.jq)
    } else {
        None
    }
}

/// Whether `after` selects by `value` under `name`, and otherwise as
/// `before`.
pub open spec fn selects(
    after: JobFilter,
    before: JobFilter,
    name: Seq<char>,
    value: Option<Seq<char>>,
) -> bool {
    forall|other: Seq<char>| #[trigger]
        filter_param(after, other) == if other == name {
            value
        } else {
            filter_param(before, other)
        }
}

proof fn lemma_selecting(
    before: JobFilter,
    after: JobFilter,
    statuses: &[JobStatus],
    list: &[&str],
    expr: &str,
)
    ensures
        after@ == (Selection { status: Some(status_names(statuses@)), ..before@ }) ==> selects(
            after,
            before,
            "status"@,
            statuses_slice(statuses@),
        ),
        after@ == (Selection { queue: Some(slice_texts(list@)), ..before@ }) ==> selects(
            after,
            before,
            "queue"@,
            texts_slice(list@),
        ),
        after@ == (Selection { job_type: Some(slice_texts(list@)), ..before@ }) ==> selects(
            after,
            before,
            "type"@,
            texts_slice(list@),
        ),
        after@ == (Selection { id: Some(slice_texts(list@)), ..before@ }) ==> selects(
            after,
            before,
            "id"@,
            texts_slice(list@),
        ),
        after@ == (Selection { budgets_key: Some(slice_texts(list@)), ..before@ }) ==> selects(
            after,
            before,
            "budgets.key"@,
            texts_slice(list@),
        ),
        after@ == (Selection { jq: Some(expr@), ..before@ }) ==> selects(
            after,
            before,
            "filter"@,
            Some(expr@),
        ),
{
    lemma_filter_names();
    let names = filter_names();
    assert(names[0] == "status"@ && names[1] == "queue"@ && names[2] == "type"@);
    assert(names[3] == "id"@ && names[4] == "budgets.key"@ && names[5] == "filter"@);
    assert(status_names(statuses@) =~= Seq::new(
        statuses@.len(),
        |i: int| status_word(statuses@[i]),
    ));
    lemma_with_commas(status_names(statuses@));
    assert(slice_texts(list@) =~= Seq::new(list@.len(), |i: int| list@[i]@));
    lemma_with_commas(slice_texts(list@));
    assert forall|other: Seq<char>| #[trigger] filter_param(after, other) == by_model(
        after@,
        other,
    ) && filter_param(before, other) == by_model(before@, other) by {
        lemma_by_model(after, other);
        lemma_by_model(before, other);
    }
}

/// The value of the parameter `name` of a selection.
pub open spec fn by_model(s: Selection, name: Seq<char>) -> Option<Seq<char>> {
    if name == "status"@ {
        list_value(s.status)
    } else if name == "queue"@ {
        list_value(s.queue)
    } else if name == "type"@ {
        list_value(s.job_type)
    } else if name == "id"@ {
        list_value(s.id)
    } else if name == "budgets.key"@ {
        list_value(s.budgets_key)
    } else if name == "filter"@ {
        s.jq
    } else {
        None
    }
}

pub proof fn lemma_by_model(f: JobFilter, name: Seq<char>)
    ensures
        filter_param(f, name) == by_model(f@, name),
{
    lemma_texts_asked(f.queue);
    lemma_texts_asked(f.job_type);
    lemma_texts_asked(f.id);
    lemma_texts_asked(f.budgets_key);
    if let Some(v) = f.status {
        assert(status_names(v@) =~= Seq::new(v@.len(), |i: int| status_word(v@[i])));
        lemma_with_commas(status_names(v@));
    }
}

/// Selecting by one thing on this builder sets that parameter and leaves the
/// other parameters alone.
pub proof fn law_listing_is_narrowed_by_one_thing_at_a_time(
    b: ListJobsBuilder,
    statuses: &[JobStatus],
    list: &[&str],
    expr: &str,
    set: ListJobsBuilder,
)
    ensures
        call_ensures(ListJobsBuilder::status, (b, statuses), set) ==> selects(
            set.filters,
            b.filters,
            "status"@,
            statuses_slice(statuses@),
        ),
        call_ensures(ListJobsBuilder::queue, (b, list), set) ==> selects(
            set.filters,
            b.filters,
            "queue"@,
            texts_slice(list@),
        ),
        call_ensures(ListJobsBuilder::job_type, (b, list), set) ==> selects(
            set.filters,
            b.filters,
            "type"@,
            texts_slice(list@),
        ),
        call_ensures(ListJobsBuilder::id, (b, list), set) ==> selects(
            set.filters,
            b.filters,
            "id"@,
            texts_slice(list@),
        ),
        call_ensures(ListJobsBuilder::budgets_key, (b, list), set) ==> selects(
            set.filters,
            b.filters,
            "budgets.key"@,
            texts_slice(list@),
        ),
        call_ensures(ListJobsBuilder::filter, (b, expr), set) ==> selects(
            set.filters,
            b.filters,
            "filter"@,
            Some(expr@),
        ),
        call_ensures(ListJobsBuilder::status, (b, statuses), set) ==> set.from == b.from
            && set.order == b.order && set.limit == b.limit,
        call_ensures(ListJobsBuilder::queue, (b, list), set) ==> set.from == b.from
            && set.order == b.order && set.limit == b.limit,
        call_ensures(ListJobsBuilder::job_type, (b, list), set) ==> set.from == b.from
            && set.order == b.order && set.limit == b.limit,
        call_ensures(ListJobsBuilder::id, (b, list), set) ==> set.from == b.from
            && set.order == b.order && set.limit == b.limit,
        call_ensures(ListJobsBuilder::budgets_key, (b, list), set) ==> set.from == b.from
            && set.order == b.order && set.limit == b.limit,
        call_ensures(ListJobsBuilder::filter, (b, expr), set) ==> set.from == b.from
            && set.order == b.order && set.limit == b.limit,
{
    lemma_selecting(b.filters, set.filters, statuses, list, expr);
}

/// Selecting by one thing on this builder sets that parameter and leaves the
/// other parameters alone.
pub proof fn law_count_is_narrowed_by_one_thing_at_a_time(
    b: CountJobsBuilder,
    statuses: &[JobStatus],
    list: &[&str],
    expr: &str,
    set: CountJobsBuilder,
)
    ensures
        call_ensures(CountJobsBuilder::status, (b, statuses), set) ==> selects(
            set.filters,
            b.filters,
            "status"@,
            statuses_slice(statuses@),
        ),
        call_ensures(CountJobsBuilder::queue, (b, list), set) ==> selects(
            set.filters,
            b.filters,
            "queue"@,
            texts_slice(list@),
        ),
        call_ensures(CountJobsBuilder::job_type, (b, list), set) ==> selects(
            set.filters,
            b.filters,
            "type"@,
            texts_slice(list@),
        ),
        call_ensures(CountJobsBuilder::id, (b, list), set) ==> selects(
            set.filters,
            b.filters,
            "id"@,
            texts_slice(list@),
        ),
        call_ensures(CountJobsBuilder::budgets_key, (b, list), set) ==> selects(
            set.filters,
            b.filters,
            "budgets.key"@,
            texts_slice(list@),
        ),
        call_ensures(CountJobsBuilder::filter, (b, expr), set) ==> selects(
            set.filters,
            b.filters,
            "filter"@,
            Some(expr@),
        ),
{
    lemma_selecting(b.filters, set.filters, statuses, list, expr);
}

/// Selecting by one thing on this builder sets that parameter and leaves the
/// other parameters alone.
pub proof fn law_deletion_is_narrowed_by_one_thing_at_a_time(
    b: DeleteJobsBuilder,
    statuses: &[JobStatus],
    list: &[&str],
    expr: &str,
    set: DeleteJobsBuilder,
)
    ensures
        call_ensures(DeleteJobsBuilder::status, (b, statuses), set) ==> selects(
            set.filters,
            b.filters,
            "status"@,
            statuses_slice(statuses@),
        ),
        call_ensures(DeleteJobsBuilder::queue, (b, list), set) ==> selects(
            set.filters,
            b.filters,
            "queue"@,
            texts_slice(list@),
        ),
        call_ensures(DeleteJobsBuilder::job_type, (b, list), set) ==> selects(
            set.filters,
            b.filters,
            "type"@,
            texts_slice(list@),
        ),
        call_ensures(DeleteJobsBuilder::id, (b, list), set) ==> selects(
            set.filters,
            b.filters,
            "id"@,
            texts_slice(list@),
        ),
        call_ensures(DeleteJobsBuilder::budgets_key, (b, list), set) ==> selects(
            set.filters,
            b.filters,
            "budgets.key"@,
            texts_slice(list@),
        ),
        call_ensures(DeleteJobsBuilder::filter, (b, expr), set) ==> selects(
            set.filters,
            b.filters,
            "filter"@,
            Some(expr@),
        ),
{
    lemma_selecting(b.filters, set.filters, statuses, list, expr);
}

/// Selecting by one thing on this builder sets that parameter and leaves the
/// other parameters alone.
pub proof fn law_update_is_narrowed_by_one_thing_at_a_time(
    b: PatchJobsBuilder,
    statuses: &[JobStatus],
    list: &[&str],
    expr: &str,
    set: PatchJobsBuilder,
)
    ensures
        call_ensures(PatchJobsBuilder::status, (b, statuses), set) ==> selects(
            set.filters,
            b.filters,
            "status"@,
            statuses_slice(statuses@),
        ),
        call_ensures(PatchJobsBuilder::queue, (b, list), set) ==> selects(
            set.filters,
            b.filters,
            "queue"@,
            texts_slice(list@),
        ),
        call_ensures(PatchJobsBuilder::job_type, (b, list), set) ==> selects(
            set.filters,
            b.filters,
            "type"@,
            texts_slice(list@),
        ),
        call_ensures(PatchJobsBuilder::id, (b, list), set) ==> selects(
            set.filters,
            b.filters,
            "id"@,
            texts_slice(list@),
        ),
        call_ensures(PatchJobsBuilder::budgets_key, (b, list), set) ==> selects(
            set.filters,
            b.filters,
            "budgets.key"@,
            texts_slice(list@),
        ),
        call_ensures(PatchJobsBuilder::filter, (b, expr), set) ==> selects(
            set.filters,
            b.filters,
            "filter"@,
            Some(expr@),
        ),
        call_ensures(PatchJobsBuilder::status, (b, statuses), set) ==> set.patch == b.patch,
        call_ensures(PatchJobsBuilder::queue, (b, list), set) ==> set.patch == b.patch,
        call_ensures(PatchJobsBuilder::job_type, (b, list), set) ==> set.patch == b.patch,
        call_ensures(PatchJobsBuilder::id, (b, list), set) ==> set.patch == b.patch,
        call_ensures(PatchJobsBuilder::budgets_key, (b, list), set) ==> set.patch == b.patch,
        call_ensures(PatchJobsBuilder::filter, (b, expr), set) ==> set.patch == b.patch,
{
    lemma_selecting(b.filters, set.filters, statuses, list, expr);
}

/// Selecting by one thing on this builder sets that parameter and leaves the
/// other parameters alone.
pub proof fn law_budget_change_is_narrowed_by_one_thing_at_a_time(
    b: BudgetJobsBuilder,
    statuses: &[JobStatus],
    list: &[&str],
    expr: &str,
    set: BudgetJobsBuilder,
)
    ensures
        call_ensures(BudgetJobsBuilder::status, (b, statuses), set) ==> selects(
            set.filters,
            b.filters,
            "status"@,
            statuses_slice(statuses@),
        ),
        call_ensures(BudgetJobsBuilder::queue, (b, list), set) ==> selects(
            set.filters,
            b.filters,
            "queue"@,
            texts_slice(list@),
        ),
        call_ensures(BudgetJobsBuilder::job_type, (b, list), set) ==> selects(
            set.filters,
            b.filters,
            "type"@,
            texts_slice(list@),
        ),
        call_ensures(BudgetJobsBuilder::id, (b, list), set) ==> selects(
            set.filters,
            b.filters,
            "id"@,
            texts_slice(list@),
        ),
        call_ensures(BudgetJobsBuilder::budgets_key, (b, list), set) ==> selects(
            set.filters,
            b.filters,
            "budgets.key"@,
            texts_slice(list@),
        ),
        call_ensures(BudgetJobsBuilder::filter, (b, expr), set) ==> selects(
            set.filters,
            b.filters,
            "filter"@,
            Some(expr@),
        ),
        call_ensures(BudgetJobsBuilder::status, (b, statuses), set)
            ==> set.operation == b.operation,
        call_ensures(BudgetJobsBuilder::queue, (b, list), set) ==> set.operation == b.operation,
        call_ensures(BudgetJobsBuilder::job_type, (b, list), set) ==> set.operation == b.operation,
        call_ensures(BudgetJobsBuilder::id, (b, list), set) ==> set.operation == b.operation,
        call_ensures(BudgetJobsBuilder::budgets_key, (b, list), set)
            ==> set.operation == b.operation,
        call_ensures(BudgetJobsBuilder::filter, (b, expr), set) ==> set.operation == b.operation,
{
    lemma_selecting(b.filters, set.filters, statuses, list, expr);
}

/// What is set on a listing beside its selection is what it has, and setting
/// one thing changes nothing else.
pub proof fn law_listing_settings(
    b: ListJobsBuilder,
    e: ListErrorsBuilder,
    id: &str,
    attempt: u32,
    order: Order,
    n: u16,
    set: ListJobsBuilder,
    errors: ListErrorsBuilder,
)
    ensures
        call_ensures(ListJobsBuilder::from, (b, id), set) ==> (set.from matches Some(s)
            && s@ == id@)
            && set == (ListJobsBuilder { from: set.from, ..b }),
        call_ensures(ListJobsBuilder::order, (b, order), set) ==> set == (ListJobsBuilder {
            order: Some(order),
            ..b
        }),
        call_ensures(ListJobsBuilder::limit, (b, n), set) ==> set == (ListJobsBuilder {
            limit: Some(n),
            ..b
        }),
        call_ensures(ListErrorsBuilder::from, (e, attempt), errors) ==> errors == (
        ListErrorsBuilder { from: Some(attempt), ..e }),
        call_ensures(ListErrorsBuilder::order, (e, order), errors) ==> errors == (
        ListErrorsBuilder { order: Some(order), ..e }),
        call_ensures(ListErrorsBuilder::limit, (e, n), errors) ==> errors == (ListErrorsBuilder {
            limit: Some(n),
            ..e
        }),
        call_ensures(ListErrorsBuilder::new, (id,), errors) ==> errors.job_id@ == id@
            && errors.from is None && errors.order is None && errors.limit is None,
{
}

/// A patch is what a bulk update applies.
pub proof fn law_update_applies_its_patch(
    b: PatchJobsBuilder,
    patch: JobPatch,
    set: PatchJobsBuilder,
)
    requires
        call_ensures(PatchJobsBuilder::patch, (b, patch), set),
    ensures
        set == (PatchJobsBuilder { patch: Some(patch), ..b }),
{
}

/// A selection starts with every job: no list and no expression, and nothing
/// else set.
pub proof fn law_selection_starts_with_every_job(
    list: ListJobsBuilder,
    count: CountJobsBuilder,
    deletion: DeleteJobsBuilder,
    update: PatchJobsBuilder,
    filter: JobFilter,
    name: Seq<char>,
)
    requires
        call_ensures(ListJobsBuilder::new, (), list),
        call_ensures(CountJobsBuilder::new, (), count),
        call_ensures(DeleteJobsBuilder::new, (), deletion),
        call_ensures(PatchJobsBuilder::new, (), update),
        call_ensures(JobFilter::new, (), filter),
    ensures
        filter_param(list.filters, name) is None && !has_empty_list(list.filters),
        filter_param(count.filters, name) is None && !has_empty_list(count.filters),
        filter_param(deletion.filters, name) is None && !has_empty_list(deletion.filters),
        filter_param(update.filters, name) is None && !has_empty_list(update.filters),
        filter_param(filter, name) is None && !has_empty_list(filter),
        list.from is None,
        list.order is None,
        list.limit is None,
        update.patch is None,
{
    lemma_filter_params(list.filters);
    lemma_filter_params(count.filters);
    lemma_filter_params(deletion.filters);
    lemma_filter_params(update.filters);
    lemma_filter_params(filter);
    lemma_by_model(list.filters, name);
    lemma_by_model(count.filters, name);
    lemma_by_model(deletion.filters, name);
    lemma_by_model(update.filters, name);
    lemma_by_model(filter, name);
}

/// A filter matches nothing exactly where one of its lists was given empty.
pub proof fn law_empty_list_matches_nothing(f: JobFilter, r: bool)
    requires
        call_ensures(JobFilter::matches_nothing, (&f,), r),
    ensures
        r == has_empty_list(f),
{
    lemma_filter_params(f);
}

} // verus!
