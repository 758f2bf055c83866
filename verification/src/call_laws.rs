//! What each call of a client asks of the server, and what accepts it.

use vstd::prelude::*;
use vstd::string::*;
use crate::budget::{bindings_json, BudgetBindingInput, BudgetPatch, BudgetPolicy};
use crate::bulk_enqueue::{jobs_json, BulkEnqueueBuilder};
use crate::calls::Call;
use crate::client::{Client, Expected, Reply};
use crate::cron::{CronEntry, CronEntryBody};
use crate::decode::get;
use crate::enqueue::EnqueueRequest;
use crate::error::ZizqError;
use crate::failure::FailureBuilder;
use crate::format::Format;
use crate::job_patch::JobPatch;
use crate::json::Json;
use crate::request::{Method, Request};
use crate::send_laws::{
    lemma_one_field, lemma_sends, lemma_shows_bindings, lemma_shows_body,
        lemma_shows_budget_patch, lemma_shows_entry,
    lemma_shows_failure, lemma_shows_patch, lemma_shows_policy, lemma_shows_request, only, sends,
    shows_bindings, shows_budget_patch, shows_entry, shows_failure, shows_patch, shows_policy,
    shows_request, shows_terms,
};
use crate::text::{all_digits, decimal_value, lemma_decimal_round_trip, lossy_text, texts};
use crate::wire::str_array;

verus! {

/// Whether a call goes to `path` by `method`, without parameters.
pub open spec fn asks(call: Call, method: Method, path: Seq<Seq<char>>) -> bool {
    sends(call.request, method, path) && call.request.query@.len() == 0
}

/// A success is reported on the job itself.
pub proof fn law_success_is_reported_on_the_job(
    c: Client,
    id: &str,
    r: Call,
)
    requires
        call_ensures(Client::report_success, (&c, id), r),
    ensures
        asks(r, Method::Post, seq!["jobs"@, id@, "success"@]),
        r.request.body is None,
        r.expected == Expected::NoContent,
{
    lemma_sends(r.request);
}

/// A job is fetched by its id.
pub proof fn law_job_is_fetched_by_id(
    c: Client,
    id: &str,
    r: Call,
)
    requires
        call_ensures(Client::get_job, (&c, id), r),
    ensures
        asks(r, Method::Get, seq!["jobs"@, id@]),
        r.request.body is None,
        r.expected == Expected::Success,
{
    lemma_sends(r.request);
}

/// A job is deleted by its id.
pub proof fn law_job_is_deleted_by_id(
    c: Client,
    id: &str,
    r: Call,
)
    requires
        call_ensures(Client::delete_job, (&c, id), r),
    ensures
        asks(r, Method::Delete, seq!["jobs"@, id@]),
        r.request.body is None,
        r.expected == Expected::NoContent,
{
    lemma_sends(r.request);
}

/// The server is asked whether it is up.
pub proof fn law_health_is_asked_for(
    c: Client,
    r: Call,
)
    requires
        call_ensures(Client::health, (&c,), r),
    ensures
        asks(r, Method::Get, seq!["health"@]),
        r.request.body is None,
        r.expected == Expected::Success,
{
    lemma_sends(r.request);
}

/// The server is asked for its version.
pub proof fn law_version_is_asked_for(
    c: Client,
    r: Call,
)
    requires
        call_ensures(Client::server_version, (&c,), r),
    ensures
        asks(r, Method::Get, seq!["version"@]),
        r.request.body is None,
        r.expected == Expected::Success,
{
    lemma_sends(r.request);
}

/// Cron groups are listed.
pub proof fn law_cron_groups_are_listed(
    c: Client,
    r: Call,
)
    requires
        call_ensures(Client::list_crons, (&c,), r),
    ensures
        asks(r, Method::Get, seq!["crons"@]),
        r.request.body is None,
        r.expected == Expected::Success,
{
    lemma_sends(r.request);
}

/// A cron group is fetched by its name.
pub proof fn law_cron_group_is_fetched_by_name(
    c: Client,
    name: &str,
    r: Call,
)
    requires
        call_ensures(Client::get_cron, (&c, name), r),
    ensures
        asks(r, Method::Get, seq!["crons"@, name@]),
        r.request.body is None,
        r.expected == Expected::Success,
{
    lemma_sends(r.request);
}

/// A cron group is deleted by its name.
pub proof fn law_cron_group_is_deleted_by_name(
    c: Client,
    name: &str,
    r: Call,
)
    requires
        call_ensures(Client::delete_cron, (&c, name), r),
    ensures
        asks(r, Method::Delete, seq!["crons"@, name@]),
        r.request.body is None,
        r.expected == Expected::NoContent,
{
    lemma_sends(r.request);
}

/// A cron entry is fetched by its name within its group.
pub proof fn law_cron_entry_is_fetched_by_name(
    c: Client,
    group: &str,
    name: &str,
    r: Call,
)
    requires
        call_ensures(Client::get_cron_entry, (&c, group, name), r),
    ensures
        asks(r, Method::Get, seq!["crons"@, group@, "entries"@, name@]),
        r.request.body is None,
        r.expected == Expected::Success,
{
    lemma_sends(r.request);
}

/// A cron entry is deleted by its name within its group.
pub proof fn law_cron_entry_is_deleted_by_name(
    c: Client,
    group: &str,
    name: &str,
    r: Call,
)
    requires
        call_ensures(Client::delete_cron_entry, (&c, group, name), r),
    ensures
        asks(r, Method::Delete, seq!["crons"@, group@, "entries"@, name@]),
        r.request.body is None,
        r.expected == Expected::NoContent,
{
    lemma_sends(r.request);
}

/// Budgets are listed.
pub proof fn law_budgets_are_listed(
    c: Client,
    r: Call,
)
    requires
        call_ensures(Client::list_budgets, (&c,), r),
    ensures
        asks(r, Method::Get, seq!["budgets"@]),
        r.request.body is None,
        r.expected == Expected::Success,
{
    lemma_sends(r.request);
}

/// A budget is fetched by its key.
pub proof fn law_budget_is_fetched_by_key(
    c: Client,
    key: &str,
    r: Call,
)
    requires
        call_ensures(Client::get_budget, (&c, key), r),
    ensures
        asks(r, Method::Get, seq!["budgets"@, key@]),
        r.request.body is None,
        r.expected == Expected::Success,
{
    lemma_sends(r.request);
}

/// A budget is deleted by its key.
pub proof fn law_budget_is_deleted_by_key(
    c: Client,
    key: &str,
    r: Call,
)
    requires
        call_ensures(Client::delete_budget, (&c, key), r),
    ensures
        asks(r, Method::Delete, seq!["budgets"@, key@]),
        r.request.body is None,
        r.expected == Expected::NoContent,
{
    lemma_sends(r.request);
}

/// A job is unbound from the budget of the key.
pub proof fn law_job_is_unbound_from_one_budget(
    c: Client,
    id: &str,
    key: &str,
    r: Call,
)
    requires
        call_ensures(Client::unbind_budget, (&c, id, key), r),
    ensures
        asks(r, Method::Delete, seq!["jobs"@, id@, "budgets"@, key@]),
        r.request.body is None,
        r.expected == Expected::Success,
{
    lemma_sends(r.request);
}

/// A job is unbound from every budget.
pub proof fn law_job_is_unbound_from_every_budget(
    c: Client,
    id: &str,
    r: Call,
)
    requires
        call_ensures(Client::unbind_all_budgets, (&c, id), r),
    ensures
        asks(r, Method::Delete, seq!["jobs"@, id@, "budgets"@]),
        r.request.body is None,
        r.expected == Expected::Success,
{
    lemma_sends(r.request);
}

/// The error of an attempt is fetched by the job's id and the number of the
/// attempt, in decimal.
pub proof fn law_error_is_fetched_by_attempt(
    c: Client,
    id: &str,
    attempt: u32,
    r: Call,
)
    requires
        call_ensures(Client::get_error, (&c, id, attempt), r),
    ensures
        r.request.method == Method::Get,
        r.request.segments@.len() == 4,
        r.request.segments@[0]@ == "jobs"@,
        r.request.segments@[1]@ == id@,
        r.request.segments@[2]@ == "errors"@,
        all_digits(r.request.segments@[3]@),
        decimal_value(r.request.segments@[3]@) == attempt,
        r.request.query@.len() == 0,
        r.request.body is None,
        r.expected == Expected::Success,
{
    lemma_sends(r.request);
    lemma_decimal_round_trip(attempt as nat);
}

/// Successes are reported together: every id once, in the order given.
/// Ids that the server does not know are no failure.
pub proof fn law_successes_are_reported_together(
    c: Client,
    ids: Vec<String>,
    r: Call,
)
    requires
        call_ensures(Client::report_success_bulk, (&c, &ids), r),
    ensures
        asks(r, Method::Post, seq!["jobs"@, "success"@]),
        r.request.body matches Some(v) && only(v@, seq!["ids"@]) && (get(v@,
            "ids"@) matches Some(Json::Arr(items)) && items.len() == ids@.len()
                && forall|i: int| 0 <= i < items.len()
                    ==> #[trigger] items[i] == Json::Str(ids@[i]@)),
        r.expected == Expected::NoContentOrUnprocessable,
{
    lemma_sends(r.request);
    lemma_one_field("ids"@, str_array(texts(ids@)));
    let items = str_array(texts(ids@))->Arr_0;
    assert forall|i: int| 0 <= i < items.len() implies #[trigger] items[i] == Json::Str(ids@[i]@) by {
        assert(texts(ids@)[i] == ids@[i]@);
    }
}

/// A job is patched by its id.
pub proof fn law_job_is_patched_by_id(
    c: Client,
    id: &str,
    patch: JobPatch,
    r: Call,
)
    requires
        call_ensures(Client::patch_job, (&c, id, &patch), r),
    ensures
        asks(r, Method::Patch, seq!["jobs"@, id@]),
        r.request.body matches Some(v) && shows_patch(v@, patch),
        r.expected == Expected::Success,
{
    lemma_sends(r.request);
    lemma_shows_patch(patch);
}

/// A budget is created under its key.
pub proof fn law_budget_is_created_by_key(
    c: Client,
    key: &str,
    policy: BudgetPolicy,
    r: Call,
)
    requires
        call_ensures(Client::create_budget, (&c, key, &policy), r),
    ensures
        asks(r, Method::Post, seq!["budgets"@, key@]),
        r.request.body matches Some(v) && shows_policy(v@, policy),
        r.expected == Expected::Success,
{
    lemma_sends(r.request);
    lemma_shows_policy(policy);
}

/// A budget is created or replaced under its key.
pub proof fn law_budget_is_replaced_by_key(
    c: Client,
    key: &str,
    policy: BudgetPolicy,
    r: Call,
)
    requires
        call_ensures(Client::put_budget, (&c, key, &policy), r),
    ensures
        asks(r, Method::Put, seq!["budgets"@, key@]),
        r.request.body matches Some(v) && shows_policy(v@, policy),
        r.expected == Expected::Success,
{
    lemma_sends(r.request);
    lemma_shows_policy(policy);
}

/// A budget is patched by its key.
pub proof fn law_budget_is_patched_by_key(
    c: Client,
    key: &str,
    patch: BudgetPatch,
    r: Call,
)
    requires
        call_ensures(Client::update_budget, (&c, key, &patch), r),
    ensures
        asks(r, Method::Patch, seq!["budgets"@, key@]),
        r.request.body matches Some(v) && shows_budget_patch(v@, patch),
        r.expected == Expected::Success,
{
    lemma_sends(r.request);
    lemma_shows_budget_patch(patch);
}

/// A job is bound to a budget: the key is in the path, the rest in the body.
pub proof fn law_job_is_bound_to_a_budget(
    c: Client,
    id: &str,
    binding: BudgetBindingInput,
    r: Call,
)
    requires
        call_ensures(Client::bind_budget, (&c, id, &binding), r),
    ensures
        asks(r, Method::Post, seq!["jobs"@, id@, "budgets"@, binding.key@]),
        r.request.body matches Some(v) && shows_terms(v@, binding) && only(v@, seq!["cost"@,
            "create_with"@]),
        r.expected == Expected::Success,
{
    lemma_sends(r.request);
    lemma_shows_body(binding);
}

/// The binding of a job to a budget is replaced in the same form.
pub proof fn law_job_is_rebound_to_a_budget(
    c: Client,
    id: &str,
    binding: BudgetBindingInput,
    r: Call,
)
    requires
        call_ensures(Client::rebind_budget, (&c, id, &binding), r),
    ensures
        asks(r, Method::Put, seq!["jobs"@, id@, "budgets"@, binding.key@]),
        r.request.body matches Some(v) && shows_terms(v@, binding) && only(v@, seq!["cost"@,
            "create_with"@]),
        r.expected == Expected::Success,
{
    lemma_sends(r.request);
    lemma_shows_body(binding);
}

/// What a job costs a budget is set on its binding.
pub proof fn law_cost_is_set_on_the_binding(
    c: Client,
    id: &str,
    key: &str,
    cost: u32,
    r: Call,
)
    requires
        call_ensures(Client::set_budget_cost, (&c, id, key, cost), r),
    ensures
        asks(r, Method::Patch, seq!["jobs"@, id@, "budgets"@, key@]),
        r.request.body matches Some(v) && get(v@, "cost"@) == Some(Json::Int(cost as int))
            && only(v@, seq!["cost"@]),
        r.expected == Expected::Success,
{
    lemma_sends(r.request);
    lemma_one_field("cost"@, Json::Int(cost as int));
}

/// The budgets of a job are replaced by those given, in order.
pub proof fn law_budgets_of_a_job_are_replaced(
    c: Client,
    id: &str,
    list: Vec<BudgetBindingInput>,
    r: Call,
)
    requires
        call_ensures(Client::replace_budgets, (&c, id, &list), r),
    ensures
        asks(r, Method::Put, seq!["jobs"@, id@, "budgets"@]),
        r.request.body matches Some(v) && only(v@, seq!["budgets"@]) && (get(v@,
            "budgets"@) matches Some(f) && shows_bindings(f, list@)),
        r.expected == Expected::Success,
{
    lemma_sends(r.request);
    lemma_one_field("budgets"@, bindings_json(list@));
    lemma_shows_bindings(list@);
}

/// A cron group is paused by its name.
pub proof fn law_cron_group_is_paused(
    c: Client,
    name: &str,
    r: Call,
)
    requires
        call_ensures(Client::pause_cron, (&c, name), r),
    ensures
        asks(r, Method::Patch, seq!["crons"@, name@]),
        r.request.body matches Some(v) && get(v@, "paused"@) == Some(Json::Bool(true)) && only(v@,
            seq!["paused"@]),
        r.expected == Expected::Success,
{
    lemma_sends(r.request);
    lemma_one_field("paused"@, Json::Bool(true));
}

/// A cron group is resumed by its name.
pub proof fn law_cron_group_is_resumed(
    c: Client,
    name: &str,
    r: Call,
)
    requires
        call_ensures(Client::resume_cron, (&c, name), r),
    ensures
        asks(r, Method::Patch, seq!["crons"@, name@]),
        r.request.body matches Some(v) && get(v@, "paused"@) == Some(Json::Bool(false))
            && only(v@, seq!["paused"@]),
        r.expected == Expected::Success,
{
    lemma_sends(r.request);
    lemma_one_field("paused"@, Json::Bool(false));
}

/// A cron entry is paused by its name.
pub proof fn law_cron_entry_is_paused(
    c: Client,
    group: &str,
    name: &str,
    r: Call,
)
    requires
        call_ensures(Client::pause_cron_entry, (&c, group, name), r),
    ensures
        asks(r, Method::Patch, seq!["crons"@, group@, "entries"@, name@]),
        r.request.body matches Some(v) && get(v@, "paused"@) == Some(Json::Bool(true)) && only(v@,
            seq!["paused"@]),
        r.expected == Expected::Success,
{
    lemma_sends(r.request);
    lemma_one_field("paused"@, Json::Bool(true));
}

/// A cron entry is resumed by its name.
pub proof fn law_cron_entry_is_resumed(
    c: Client,
    group: &str,
    name: &str,
    r: Call,
)
    requires
        call_ensures(Client::resume_cron_entry, (&c, group, name), r),
    ensures
        asks(r, Method::Patch, seq!["crons"@, group@, "entries"@, name@]),
        r.request.body matches Some(v) && get(v@, "paused"@) == Some(Json::Bool(false))
            && only(v@, seq!["paused"@]),
        r.expected == Expected::Success,
{
    lemma_sends(r.request);
    lemma_one_field("paused"@, Json::Bool(false));
}

/// A job is enqueued by posting its request.
pub proof fn law_enqueue_call_posts_the_job(
    c: Client,
    request: EnqueueRequest,
    r: Call,
)
    requires
        call_ensures(Client::enqueue_raw, (&c, &request), r),
    ensures
        asks(r, Method::Post, seq!["jobs"@]),
        r.request.body matches Some(v) && shows_request(v@, request),
        r.expected == Expected::Success,
{
    lemma_sends(r.request);
    lemma_shows_request(request);
}

/// A failure is reported on the job itself.
pub proof fn law_failure_is_reported_on_the_job(
    c: Client,
    report: FailureBuilder,
    r: Call,
)
    requires
        call_ensures(Client::report_failure_raw, (&c, &report), r),
    ensures
        asks(r, Method::Post, seq!["jobs"@, report.job_id@, "failure"@]),
        r.request.body matches Some(v) && shows_failure(v@, report),
        r.expected == Expected::Success,
{
    lemma_sends(r.request);
    lemma_shows_failure(report);
}

/// A bulk enqueue posts every job in order; one that failed is not sent.
pub proof fn law_bulk_call_posts_every_job(
    c: Client,
    batch: BulkEnqueueBuilder,
    r: Result<Call, ZizqError>,
)
    requires
        call_ensures(Client::enqueue_bulk_raw, (&c, batch), r),
    ensures
        batch.state matches Ok(list) ==> (r matches Ok(call) && asks(
            call,
            Method::Post,
            seq!["jobs"@, "bulk"@],
        ) && call.expected == Expected::Success && (call.request.body matches Some(v) && only(
            v@,
            seq!["jobs"@],
        ) && (get(v@, "jobs"@) matches Some(Json::Arr(items)) && items.len() == list@.len()
            && forall|i: int|
            0 <= i < items.len() ==> shows_request(#[trigger] items[i], list@[i])))),
        batch.state matches Err(e) ==> r == Err::<Call, ZizqError>(e),
{
    if let Ok(list) = batch.state {
        lemma_sends(r->Ok_0.request);
        lemma_one_field("jobs"@, jobs_json(list@));
        let items = jobs_json(list@)->Arr_0;
        assert forall|i: int| 0 <= i < items.len() implies shows_request(
            #[trigger] items[i],
            list@[i],
        ) by {
            lemma_shows_request(list@[i]);
        }
    }
}

/// An entry is added to its group, or put under its own name, with its name,
/// schedule and job; one whose job failed is not sent.
pub proof fn law_cron_entry_is_sent_whole(
    c: Client,
    group: &str,
    entry: CronEntry,
    added: Result<Call, ZizqError>,
    put: Result<Call, ZizqError>,
)
    requires
        call_ensures(Client::add_cron_entry, (&c, group, entry), added),
        call_ensures(Client::put_cron_entry, (&c, group, entry), put),
    ensures
        entry.job matches Ok(job) ==> (added matches Ok(call) && asks(
            call,
            Method::Post,
            seq!["crons"@, group@, "entries"@],
        ) && call.expected == Expected::Success && (call.request.body matches Some(v)
            && shows_entry(v@, sent_entry(entry, job)))),
        entry.job matches Ok(job) ==> (put matches Ok(call) && asks(
            call,
            Method::Put,
            seq!["crons"@, group@, "entries"@, entry.name@],
        ) && call.expected == Expected::Success && (call.request.body matches Some(v)
            && shows_entry(v@, sent_entry(entry, job)))),
        entry.job matches Err(e) ==> added == Err::<Call, ZizqError>(e) && put == Err::<
            Call,
            ZizqError,
        >(e),
{
    if let Ok(job) = entry.job {
        lemma_sends(added->Ok_0.request);
        lemma_sends(put->Ok_0.request);
        lemma_shows_entry(entry.body(job));
    }
}

/// An entry with its job resolved.
pub open spec fn sent_entry(e: CronEntry, job: EnqueueRequest) -> CronEntryBody {
    CronEntryBody {
        name: e.name,
        expression: e.expression,
        timezone: e.timezone,
        paused: e.paused,
        job,
    }
}

/// Which statuses accept a request.
pub proof fn law_accepted_statuses(status: u16, r: bool)
    ensures
        call_ensures(Expected::accepts, (&Expected::Success, status), r) ==> r == (200 <= status
            <= 299),
        call_ensures(Expected::accepts, (&Expected::NoContent, status), r) ==> r == (status == 204),
        call_ensures(Expected::accepts, (&Expected::NoContentOrUnprocessable, status), r) ==> r == (
        status == 204 || status == 422),
{
}

/// A request names the client's format as what it accepts, and as what its
/// body is in where it has one; a job stream has a content type of its own.
pub proof fn law_headers_name_the_format(
    c: Client,
    request: Request,
    headers: (&'static str, Option<&'static str>),
    stream: &'static str,
)
    requires
        call_ensures(Client::headers, (&c, &request), headers),
        call_ensures(Client::stream_accept, (&c,), stream),
    ensures
        headers.0@ == match c.format {
            Format::Json => "application/json"@,
            Format::MessagePack => "application/msgpack"@,
        },
        request.body is Some ==> (headers.1 matches Some(t) && t@ == headers.0@),
        request.body is None ==> headers.1 is None,
        stream@ == match c.format {
            Format::Json => "application/x-ndjson"@,
            Format::MessagePack => "application/vnd.zizq.msgpack-stream"@,
        },
{
    lemma_sends(request);
}

/// A rejected response is an error with its status and what the server says
/// of it: what its body says in its own format, else as JSON, else its text.
pub proof fn law_rejection_carries_the_server_message(
    c: Client,
    expected: Expected,
    reply: Reply,
    decoded: Option<String>,
    as_json: Option<String>,
    r: Result<(), ZizqError>,
    accepted: bool,
)
    requires
        call_ensures(Client::expect_status, (&c, expected, &reply, decoded, as_json), r),
        call_ensures(Expected::accepts, (&expected, reply.status), accepted),
    ensures
        accepted == r is Ok,
        !accepted ==> (r matches Err(ZizqError::Response { status, message }) && status
            == reply.status && (decoded matches Some(m) ==> message@ == m@) && (decoded is None
            && as_json is None ==> message@ == lossy_text(reply.body@))),
        !accepted && decoded is None ==> (as_json matches Some(m) ==> (
        r matches Err(ZizqError::Response { message, .. }) && (message@ == m@ || message@
            == lossy_text(reply.body@)))),
        !accepted && decoded is None && reply.content_type is None && c.format
            == Format::MessagePack ==> (as_json matches Some(m) ==> (
        r matches Err(ZizqError::Response { message, .. }) && message@ == m@)),
{
}

} // verus!
