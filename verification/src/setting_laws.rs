//! What is set on a builder is what it has, and setting one thing changes
//! nothing else.

use std::ops::{RangeFrom, RangeFull, RangeInclusive, RangeToInclusive};
use vstd::prelude::*;
use vstd::string::*;
use crate::batch::BatchConfig;
use crate::budget::{
    BudgetBindingInput, BudgetChange, BudgetPatch, BudgetPolicy, BudgetStrategy, StrategyPatch,
    StrategyWire,
};
use crate::budget_jobs::{BudgetJobsBuilder, Operation};
use crate::bulk_enqueue::BulkEnqueueBuilder;
use crate::client::{extract_error_message, Client, ClientBuilder};
use crate::count_jobs::CountJobsBuilder;
use crate::cron::ReplaceCronBuilder;
use crate::delete_jobs::DeleteJobsBuilder;
use crate::duration::Duration;
use crate::enqueue::EnqueueBuilder;
use crate::error::ZizqError;
use crate::failure::FailureBuilder;
use crate::format::{
    law_own_content_types_are_recognised, law_parameters_are_ignored, Format,
};
use crate::job::{JobKind, Payload};
use crate::job_filter::JobFilter;
use crate::job_patch::{Field, JobPatch, RetentionPatch};
use crate::jobs::{Job, JobFromApi};
use crate::jq_parse::PathParseError;
use crate::json::Value;
use crate::list_errors::{ErrorRecord, ListErrorsBuilder};
use crate::list_jobs::{JobPage, ListJobsBuilder, PageCursor, PageStream};
use crate::list_laws::{filter_param, has_empty_list, lemma_by_model, lemma_filter_params};
use crate::patch_jobs::PatchJobsBuilder;
use crate::range_filter::RangeFilter;
use crate::request::Request;
use crate::resources::BackoffConfig;
use crate::send_laws::lemma_sends;
use crate::take::TakeBuilder;
use crate::text::{decimal, lossy_text, texts};
use crate::timestamp::{after, can_reach, to_ms_epoch, Timestamp};
use crate::unique_key::UniqueKey;
use crate::urls::{parsed_url, resolved_url, url_below, url_host, url_port, url_with_query};

verus! {

/// A patch of a job: each setter says what it is called for, of its own
/// field.
pub proof fn law_patch_settings(
    p: JobPatch,
    queue: &str,
    n16: u16,
    n32: u32,
    n64: u64,
    backoff: BackoffConfig,
    retention: RetentionPatch,
    set: JobPatch,
)
    ensures
        call_ensures(JobPatch::queue, (p, queue), set) || call_ensures(
            JobPatch::move_to_queue,
            (p, queue),
            set,
        ) ==> (set.queue matches Field::Replace(s) && s@ == queue@) && set == (JobPatch {
            queue: set.queue,
            ..p
        }),
        call_ensures(JobPatch::keep_queue, (p,), set) ==> set == (JobPatch { queue: Field::Keep,
            ..p }),
        call_ensures(JobPatch::priority, (p, n16), set)
            ==> set == (JobPatch { priority: Field::Replace(n16), ..p }),
        call_ensures(JobPatch::keep_priority, (p,), set)
            ==> set == (JobPatch { priority: Field::Keep, ..p }),
        call_ensures(JobPatch::ready_at, (p, n64), set)
            ==> set == (JobPatch { ready_at: Field::Replace(n64), ..p }),
        call_ensures(JobPatch::clear_ready_at, (p,), set)
            ==> set == (JobPatch { ready_at: Field::Clear, ..p }),
        call_ensures(JobPatch::ready_now, (p,), set)
            ==> set == (JobPatch { ready_at: Field::Clear, ..p }),
        call_ensures(JobPatch::keep_ready_at, (p,), set)
            ==> set == (JobPatch { ready_at: Field::Keep, ..p }),
        call_ensures(JobPatch::retry_limit, (p, n32), set)
            ==> set == (JobPatch { retry_limit: Field::Replace(n32), ..p }),
        call_ensures(JobPatch::clear_retry_limit, (p,), set)
            ==> set == (JobPatch { retry_limit: Field::Clear, ..p }),
        call_ensures(JobPatch::keep_retry_limit, (p,), set)
            ==> set == (JobPatch { retry_limit: Field::Keep, ..p }),
        call_ensures(JobPatch::backoff, (p, backoff), set)
            ==> set == (JobPatch { backoff: Field::Replace(backoff), ..p }),
        call_ensures(JobPatch::clear_backoff, (p,), set)
            ==> set == (JobPatch { backoff: Field::Clear, ..p }),
        call_ensures(JobPatch::keep_backoff, (p,), set)
            ==> set == (JobPatch { backoff: Field::Keep, ..p }),
        call_ensures(JobPatch::retention, (p, retention), set)
            ==> set == (JobPatch { retention: Field::Replace(retention), ..p }),
        call_ensures(JobPatch::clear_retention, (p,), set)
            ==> set == (JobPatch { retention: Field::Clear, ..p }),
        call_ensures(JobPatch::keep_retention, (p,), set)
            ==> set == (JobPatch { retention: Field::Keep, ..p }),
        call_ensures(JobPatch::new, (), set) ==> set.queue is Keep && set.priority is Keep
            && set.ready_at is Keep && set.retry_limit is Keep && set.backoff is Keep
            && set.retention is Keep,
{
}

/// A patch of a retention: each setter says what it is called for, of its own
/// field.
pub proof fn law_retention_patch_settings(p: RetentionPatch, n64: u64, set: RetentionPatch)
    ensures
        call_ensures(RetentionPatch::completed_ms, (p, n64), set)
            ==> set == (RetentionPatch { completed_ms: Field::Replace(n64), ..p }),
        call_ensures(RetentionPatch::clear_completed_ms, (p,), set)
            ==> set == (RetentionPatch { completed_ms: Field::Clear, ..p }),
        call_ensures(RetentionPatch::keep_completed_ms, (p,), set)
            ==> set == (RetentionPatch { completed_ms: Field::Keep, ..p }),
        call_ensures(RetentionPatch::dead_ms, (p, n64), set)
            ==> set == (RetentionPatch { dead_ms: Field::Replace(n64), ..p }),
        call_ensures(RetentionPatch::clear_dead_ms, (p,), set)
            ==> set == (RetentionPatch { dead_ms: Field::Clear, ..p }),
        call_ensures(RetentionPatch::keep_dead_ms, (p,), set)
            ==> set == (RetentionPatch { dead_ms: Field::Keep, ..p }),
        call_ensures(RetentionPatch::new, (), set) ==> set.completed_ms is Keep
            && set.dead_ms is Keep,
{
}

/// What a patch already says of a strategy; nothing where it says nothing.
pub open spec fn said(p: BudgetPatch) -> StrategyPatch {
    match p.strategy {
        Some(s) => s,
        None => StrategyPatch {
            kind: Field::Keep,
            duration_ms: Field::Keep,
            burst: Field::Keep,
        },
    }
}

/// A patch of a budget: the allocation, the period and the ceiling are
/// changed by themselves; a strategy replaces the stored one outright, so
/// that nothing of it is inherited.
pub proof fn law_budget_patch_settings(
    p: BudgetPatch,
    n: u32,
    d: Duration,
    strategy: BudgetStrategy,
    set: BudgetPatch,
)
    requires
        d.nanos as int / 1_000_000 <= u64::MAX,
        strategy matches BudgetStrategy::TimeBased { duration, .. } ==> duration.nanos as int
            / 1_000_000 <= u64::MAX,
    ensures
        call_ensures(BudgetPatch::allocation, (p, n), set) ==> set == (BudgetPatch {
            allocation: Some(n),
            ..p
        }),
        call_ensures(BudgetPatch::duration, (p, d), set) ==> set.allocation == p.allocation
            && set.strategy == Some(
            StrategyPatch {
                duration_ms: Field::Replace((d.nanos as int / 1_000_000) as u64),
                ..said(p)
            },
        ),
        call_ensures(BudgetPatch::burst, (p, n), set) ==> set.allocation == p.allocation
            && set.strategy == Some(StrategyPatch { burst: Field::Replace(n), ..said(p) }),
        call_ensures(BudgetPatch::clear_burst, (p,), set) ==> set.allocation == p.allocation
            && set.strategy == Some(StrategyPatch { burst: Field::Clear, ..said(p) }),
        call_ensures(BudgetPatch::strategy, (p, strategy), set) ==> set.allocation == p.allocation
            && (set.strategy matches Some(s) && (match strategy {
            BudgetStrategy::TimeBased { duration, burst } => (s.kind matches Field::Replace(k) && k@
                == "time_based"@) && s.duration_ms == Field::Replace(
                (duration.nanos as int / 1_000_000) as u64,
            ) && (burst matches Some(b) ==> s.burst == Field::Replace(b)) && (burst is None
                ==> s.burst is Clear),
            BudgetStrategy::WhileInFlight => (s.kind matches Field::Replace(k) && k@
                == "while_in_flight"@) && s.duration_ms is Keep && s.burst is Keep,
            BudgetStrategy::Unknown { kind } => (s.kind matches Field::Replace(k) && k@ == kind@)
                && s.duration_ms is Keep && s.burst is Keep,
        })),
        call_ensures(BudgetPatch::new, (), set) ==> set.allocation is None && set.strategy is None,
{
}

/// A binding to a budget is made of its key, its cost and the policy to
/// create the budget with.
pub proof fn law_binding_settings(
    key: &str,
    policy: BudgetPolicy,
    n: u32,
    b: BudgetBindingInput,
    set: BudgetBindingInput,
    allocation: u32,
    strategy: BudgetStrategy,
    made: BudgetPolicy,
    d: Duration,
    rate: BudgetStrategy,
)
    ensures
        call_ensures(BudgetBindingInput::new, (key,), set) ==> set.key@ == key@ && set.cost is None
            && set.create_with is None,
        call_ensures(BudgetBindingInput::with_policy, (key, policy), set) ==> set.key@ == key@
            && set.cost is None && set.create_with == Some(policy),
        call_ensures(BudgetBindingInput::cost, (b, n), set) ==> set == (BudgetBindingInput {
            cost: Some(n),
            ..b
        }),
        call_ensures(BudgetBindingInput::create_with, (b, policy), set) ==> set == (
        BudgetBindingInput { create_with: Some(policy), ..b }),
        call_ensures(BudgetPolicy::new, (allocation, strategy), made) ==> made.allocation
            == allocation && made.strategy == strategy,
        call_ensures(BudgetStrategy::time_based, (d,), rate) ==> rate == (
        BudgetStrategy::TimeBased { duration: d, burst: None }),
{
}

/// A client is built from what was set: it needs a URL that parses, speaks
/// MessagePack unless told otherwise, and has timeouts of its own.
pub proof fn law_client_is_what_was_set(b: ClientBuilder, r: Result<Client, ZizqError>)
    requires
        call_ensures(ClientBuilder::build, (b,), r),
    ensures
        b.url is None ==> r matches Err(ZizqError::MissingUrl),
        b.url matches Some(raw) ==> (parsed_url(raw@) is None ==> r matches Err(
            ZizqError::InvalidUrl(_),
        )),
        b.url matches Some(raw) ==> (parsed_url(raw@) matches Some(base) ==> (r matches Ok(c)
            && c.base_url@ == base && (b.format matches Some(f) ==> c.format == f) && (b.format
            is None ==> c.format == Format::MessagePack) && (b.connect_timeout matches Some(d)
            ==> c.connect_timeout == d) && (b.connect_timeout is None ==> c.connect_timeout.nanos
            == 10 * 1_000_000_000) && (b.read_timeout matches Some(d) ==> c.read_timeout == d) && (
        b.read_timeout is None ==> c.read_timeout.nanos == 30 * 1_000_000_000))),
{
}

/// What is set on a client's builder is what it has, and setting one thing
/// changes nothing else.
pub proof fn law_client_settings(
    b: ClientBuilder,
    url: &str,
    format: Format,
    d: Duration,
    set: ClientBuilder,
)
    ensures
        call_ensures(ClientBuilder::url, (b, url), set) ==> (set.url matches Some(s) && s@ == url@)
            && set == (ClientBuilder { url: set.url, ..b }),
        call_ensures(ClientBuilder::format, (b, format), set) ==> set == (ClientBuilder {
            format: Some(format),
            ..b
        }),
        call_ensures(ClientBuilder::connect_timeout, (b, d), set) ==> set == (ClientBuilder {
            connect_timeout: Some(d),
            ..b
        }),
        call_ensures(ClientBuilder::read_timeout, (b, d), set) ==> set == (ClientBuilder {
            read_timeout: Some(d),
            ..b
        }),
        call_ensures(Client::builder, (), set) ==> set.url is None && set.format is None
            && set.connect_timeout is None && set.read_timeout is None,
{
}

/// The URL of a request is the base URL with the request's segments below
/// it, in order, and with its parameters behind them where it has any.
pub proof fn law_request_is_addressed_below_the_base(c: Client, request: Request, r: Option<String>)
    requires
        call_ensures(Client::try_url, (&c, &request), r),
    ensures
        r matches Some(text) ==> (request.query@.len() == 0 ==> url_below(
            c.base_url@,
            texts(request.segments@),
        ) == Some(text@)),
        r matches Some(text) ==> (request.query@.len() > 0 ==> (url_below(
            c.base_url@,
            texts(request.segments@),
        ) matches Some(below) && url_with_query(
            below,
            Seq::new(
                request.query@.len(),
                |i: int| (request.query@[i].0@, request.query@[i].1@),
            ),
        ) == Some(text@))),
{
    lemma_sends(request);
    assert(request@.query =~= Seq::new(
        request.query@.len(),
        |i: int| (request.query@[i].0@, request.query@[i].1@),
    ));
}

/// A page link is followed only to the configured host and port; a link that
/// resolves elsewhere, or not at all, is refused.
pub proof fn law_page_link_stays_on_the_host(
    c: Client,
    path: &str,
    r: Result<String, ZizqError>,
)
    requires
        call_ensures(Client::resolve_page_path, (&c, path), r),
    ensures
        r matches Ok(url) ==> resolved_url(c.base_url@, path@) == Some(url@) && url_host(url@)
            == url_host(c.base_url@) && url_port(url@) == url_port(c.base_url@),
        resolved_url(c.base_url@, path@) is None ==> r matches Err(ZizqError::InvalidUrl(_)),
        resolved_url(c.base_url@, path@) matches Some(url) ==> (url_host(url) != url_host(
            c.base_url@,
        ) || url_port(url) != url_port(c.base_url@) ==> r matches Err(ZizqError::Decode(_))),
        resolved_url(c.base_url@, path@) matches Some(url) ==> (url_host(url) == url_host(
            c.base_url@,
        ) && url_port(url) == url_port(c.base_url@) ==> r is Ok),
{
}

/// A content type names its format, whatever parameters stand behind it; one
/// that names none leaves a response in the client's own format.
pub proof fn law_content_type_names_the_format(
    s: &str,
    f: Format,
    stream: bool,
    parameters: Seq<char>,
    r: Option<Format>,
    c: Client,
    used: Format,
    unnamed: Format,
)
    requires
        call_ensures(Format::from_content_type, (s,), r),
        call_ensures(Client::response_format, (&c, Some(s)), used),
        call_ensures(Client::response_format, (&c, None::<&str>), unnamed),
    ensures
        ({
            let mime = match (f, stream) {
                (Format::Json, false) => "application/json"@,
                (Format::Json, true) => "application/x-ndjson"@,
                (Format::MessagePack, false) => "application/msgpack"@,
                (Format::MessagePack, true) => "application/vnd.zizq.msgpack-stream"@,
            };
            s@ == mime || s@ == mime + seq![';'] + parameters ==> r == Some(f)
        }),
        r matches Some(g) ==> used == g,
        r is None ==> used == c.format,
        unnamed == c.format,
{
    law_own_content_types_are_recognised(f);
    reveal_strlit("application/json");
    reveal_strlit("application/x-ndjson");
    reveal_strlit("application/msgpack");
    reveal_strlit("application/vnd.zizq.msgpack-stream");
    let mime = if stream {
        f.stream_type()
    } else {
        f.body_type()
    };
    law_parameters_are_ignored(mime, parameters);
}

/// A span is as long as it was asked for, and a point in time has the
/// millisecond that it lies in, counted toward the epoch.
pub proof fn law_spans_and_times(
    n: u64,
    d: Duration,
    ms: u128,
    t: Timestamp,
    stamp: i64,
)
    ensures
        call_ensures(Duration::from_secs, (n,), d) ==> d.nanos == n * 1_000_000_000,
        call_ensures(Duration::from_millis, (n,), d) ==> d.nanos == n * 1_000_000,
        call_ensures(Duration::as_millis, (&d,), ms) ==> ms * 1_000_000 <= d.nanos < (ms + 1)
            * 1_000_000,
        call_ensures(to_ms_epoch, (t,), stamp) ==> (t.nanos >= 0 ==> stamp * 1_000_000 <= t.nanos
            < (stamp + 1) * 1_000_000) && (t.nanos < 0 ==> (stamp - 1) * 1_000_000 < t.nanos
            <= stamp * 1_000_000),
{
}

/// What a client starts is fresh: for the job, group, budget or text that it
/// was given, with every job selected and nothing else set.
pub proof fn law_client_starts_fresh_builders(
    c: Client,
    kind: JobKind,
    payload: Payload,
    id: &str,
    message: &str,
    key: &str,
    cost: u32,
    binding: BudgetBindingInput,
    enqueue: EnqueueBuilder,
    bulk: BulkEnqueueBuilder,
    failure: FailureBuilder,
    errors: ListErrorsBuilder,
    cron: ReplaceCronBuilder,
    take: TakeBuilder,
)
    ensures
        call_ensures(Client::enqueue, (&c, kind, payload), enqueue) ==> enqueue.kind == kind
            && enqueue.payload == payload && enqueue.queue is None && enqueue.priority is None
            && enqueue.ready_at_ms is None && enqueue.retry_limit is None && enqueue.backoff is None
            && enqueue.retention is None && enqueue.unique_key is None && enqueue.batch is None
            && enqueue.budgets is None,
        call_ensures(Client::enqueue_bulk, (&c,), bulk) ==> (bulk.state matches Ok(list)
            && list@.len() == 0),
        call_ensures(Client::report_failure, (&c, id, message), failure) ==> failure.job_id@ == id@
            && failure.message@ == message@ && failure.error_type is None && failure.backtrace
            is None && failure.retry_at_ms is None && !failure.kill,
        call_ensures(Client::list_errors, (&c, id), errors) ==> errors.job_id@ == id@ && errors.from
            is None && errors.order is None && errors.limit is None,
        call_ensures(Client::replace_cron, (&c, id), cron) ==> cron.name@ == id@ && cron.paused
            is None && (cron.entries matches Ok(list) && list@.len() == 0),
        call_ensures(Client::take, (&c,), take) ==> take.queues@.len() == 0
            && take.prefetch is None,
{
}

/// What a client starts in bulk selects every job, and does what it was
/// started for.
pub proof fn law_client_starts_with_every_job(
    c: Client,
    key: &str,
    cost: u32,
    binding: BudgetBindingInput,
    list: ListJobsBuilder,
    count: CountJobsBuilder,
    deletion: DeleteJobsBuilder,
    update: PatchJobsBuilder,
    change: BudgetJobsBuilder,
    name: Seq<char>,
)
    ensures
        call_ensures(Client::list_jobs, (&c,), list) ==> selects_all(list.filters, name)
            && list.from
            is None && list.order is None && list.limit is None,
        call_ensures(Client::count_jobs, (&c,), count) ==> selects_all(count.filters, name),
        call_ensures(Client::delete_all_jobs, (&c,), deletion) ==> selects_all(
            deletion.filters,
            name,
        ),
        call_ensures(Client::patch_all_jobs, (&c,), update) ==> selects_all(update.filters, name)
            && update.patch is None,
        call_ensures(Client::bind_all_jobs_budget, (&c, binding), change) ==> selects_all(
            change.filters,
            name,
        ) && change.operation == Operation::Bind(binding),
        call_ensures(Client::rebind_all_jobs_budget, (&c, binding), change) ==> selects_all(
            change.filters,
            name,
        ) && change.operation == Operation::Rebind(binding),
        call_ensures(Client::set_all_jobs_budget_cost, (&c, key, cost), change) ==> selects_all(
            change.filters,
            name,
        ) && (change.operation matches Operation::SetCost { key: k, cost: n } && k@ == key@ && n
            == cost),
        call_ensures(Client::unbind_all_jobs_budget, (&c, key), change) ==> selects_all(
            change.filters,
            name,
        ) && (change.operation matches Operation::Unbind { key: k } && k@ == key@),
        call_ensures(Client::clear_all_jobs_budgets, (&c,), change) ==> selects_all(
            change.filters,
            name,
        ) && change.operation is Clear,
{
    lemma_by_model(list.filters, name);
    lemma_filter_params(list.filters);
    lemma_by_model(count.filters, name);
    lemma_filter_params(count.filters);
    lemma_by_model(deletion.filters, name);
    lemma_filter_params(deletion.filters);
    lemma_by_model(update.filters, name);
    lemma_filter_params(update.filters);
    lemma_by_model(change.filters, name);
    lemma_filter_params(change.filters);
}

/// Whether a filter selects every job: it has no parameter `name`, and no
/// list that was given empty.
pub open spec fn selects_all(f: JobFilter, name: Seq<char>) -> bool {
    filter_param(f, name) is None && !has_empty_list(f)
}

/// A range is written by its bounds: one value, two with dots in between, or
/// dots with the bound on its side.
pub proof fn law_range_is_written_by_its_bounds<T, F: Fn(&T) -> String>(
    f: RangeFilter<T>,
    to_str: F,
    text: spec_fn(T) -> Seq<char>,
    r: String,
)
    requires
        forall|v: &T, s: String| #[trigger] call_ensures(to_str, (v,), s) ==> s@ == text(*v),
        call_ensures(RangeFilter::<T>::encode::<F>, (&f, to_str), r),
    ensures
        f matches RangeFilter::Exact(v) ==> r@ == text(v),
        f matches RangeFilter::Bounded(a, b) ==> r@ == text(a) + ".."@ + text(b),
        f matches RangeFilter::AtLeast(a) ==> r@ == text(a) + ".."@,
        f matches RangeFilter::AtMost(b) ==> r@ == ".."@ + text(b),
        f is Unbounded ==> r@ == ".."@,
{
}

/// A page that was never asked for holds no jobs and leads nowhere.
pub proof fn law_empty_page_leads_nowhere(p: JobPage)
    requires
        call_ensures(JobPage::empty, (), p),
    ensures
        p.jobs@.len() == 0,
        p.pages.next is None,
        p.pages.prev is None,
{
}

/// A request that can be addressed is, below a base that can have segments.
pub proof fn law_addressable_request_has_a_url(
    c: Client,
    request: Request,
    fits: bool,
    r: Option<String>,
    direct: String,
)
    requires
        call_ensures(Client::can_address, (&c, &request), fits),
        call_ensures(Client::try_url, (&c, &request), r),
    ensures
        !fits ==> r is None,
        fits && request.query@.len() == 0 ==> r is Some == url_below(
            c.base_url@,
            texts(request.segments@),
        ) is Some,
        fits && request.query@.len() > 0 ==> (url_below(
            c.base_url@,
            texts(request.segments@),
        ) matches Some(below) ==> r is Some == url_with_query(
            below,
            Seq::new(
                request.query@.len(),
                |i: int| (request.query@[i].0@, request.query@[i].1@),
            ),
        ) is Some),
        call_ensures(Client::url, (&c, &request), direct) && fits && r is Some ==> r->0@ == direct@,
{
    lemma_sends(request);
    assert(request@.query =~= Seq::new(
        request.query@.len(),
        |i: int| (request.query@[i].0@, request.query@[i].1@),
    ));
}

/// The message of an error response is what its body says in its format,
/// else as JSON where that is another format, else its text.
pub proof fn law_error_message_falls_back(
    format: Format,
    decoded: Option<String>,
    as_json: Option<String>,
    body: &[u8],
    r: String,
)
    requires
        call_ensures(extract_error_message, (format, decoded, as_json, body), r),
    ensures
        decoded matches Some(m) ==> r@ == m@,
        decoded is None && format == Format::MessagePack ==> (as_json matches Some(m) ==> r@ == m@),
        decoded is None && (as_json is None || format == Format::Json) ==> r@ == lossy_text(body@),
{
}

/// A bulk enqueue that failed stays failed, with the error that it failed
/// with first.
pub proof fn law_failed_bulk_enqueue_stays_failed(
    b: BulkEnqueueBuilder,
    job: EnqueueBuilder,
    r: BulkEnqueueBuilder,
)
    requires
        b.state is Err,
        call_ensures(BulkEnqueueBuilder::add, (b, job), r),
    ensures
        r.state == b.state,
{
}

/// A filter has parameters exactly where something is selected by it.
pub proof fn law_filter_has_parameters(f: JobFilter, r: bool, name: Seq<char>)
    requires
        call_ensures(JobFilter::has_params, (&f,), r),
    ensures
        filter_param(f, name) is Some ==> r,
        !r ==> filter_param(f, name) is None,
{
    lemma_by_model(f, name);
}

/// A stream of errors starts with the request for the first page.
pub proof fn law_error_stream_starts_with_the_first_page(
    b: ListErrorsBuilder,
    first: Request,
    s: PageStream<ErrorRecord>,
)
    requires
        call_ensures(ListErrorsBuilder::build_request, (&b,), first),
        call_ensures(ListErrorsBuilder::stream, (&b,), s),
    ensures
        s.buffer@.len() == 0,
        s.cursor matches PageCursor::First(request) && request@ == first@,
{
}

/// A job is the record that it was made from, its key and scope put together.
pub proof fn law_job_is_its_record(w: JobFromApi, j: Job)
    requires
        call_ensures(<Job as From<JobFromApi>>::from, (w,), j),
    ensures
        j.id == w.id,
        j.job_type == w.job_type,
        j.queue == w.queue,
        j.status == w.status,
        j.priority == w.priority,
        j.payload == w.payload,
        j.ready_at == w.ready_at,
        j.attempts == w.attempts,
        j.retry_limit == w.retry_limit,
        j.backoff == w.backoff,
        j.dequeued_at == w.dequeued_at,
        j.failed_at == w.failed_at,
        j.completed_at == w.completed_at,
        j.retention == w.retention,
        j.purge_at == w.purge_at,
        j.duplicate == w.duplicate,
        j.folded == w.folded,
        j.batch == w.batch,
        j.budgets == w.budgets,
        w.unique_key is None ==> j.unique_key is None,
        w.unique_key matches Some(key) ==> (j.unique_key matches Some(k) && k.key == key && k.scope
            == w.unique_while),
{
}

/// A strategy and its wire form stand for each other.
pub proof fn law_strategy_and_wire_form(
    s: BudgetStrategy,
    w: StrategyWire,
    to: StrategyWire,
    of: BudgetStrategy,
    kind: &str,
)
    requires
        call_ensures(<StrategyWire as From<BudgetStrategy>>::from, (s,), to),
        call_ensures(<BudgetStrategy as From<StrategyWire>>::from, (w,), of),
        call_ensures(BudgetStrategy::kind, (&s,), kind),
    ensures
        kind@ == to.kind@,
        s matches BudgetStrategy::TimeBased { duration, burst } ==> to.kind@ == "time_based"@
            && to.burst == burst && (duration.nanos as int / 1_000_000 <= u64::MAX
            ==> to.duration_ms == Some((duration.nanos as int / 1_000_000) as u64)),
        s is WhileInFlight ==> to.kind@ == "while_in_flight"@ && to.duration_ms is None && to.burst
            is None,
        s matches BudgetStrategy::Unknown { kind: name } ==> to.kind@ == name@ && to.duration_ms
            is None && to.burst is None,
        w.kind@ == "time_based"@ ==> (w.duration_ms matches Some(ms) ==> (
        of matches BudgetStrategy::TimeBased { duration, burst } && duration.nanos == ms * 1_000_000
            && burst == w.burst)),
        w.kind@ == "time_based"@ && w.duration_ms is None ==> (
        of matches BudgetStrategy::Unknown { kind: name } && name@ == w.kind@),
        w.kind@ == "while_in_flight"@ ==> of is WhileInFlight,
        w.kind@ != "time_based"@ && w.kind@ != "while_in_flight"@ ==> (
        of matches BudgetStrategy::Unknown { kind: name } && name@ == w.kind@),
{
    reveal_strlit("time_based");
    reveal_strlit("while_in_flight");
    assert("time_based"@.len() == 10 && "while_in_flight"@.len() == 15);
}

/// A change that selects no job changes none and is blocked by none.
pub proof fn law_change_of_nothing(c: BudgetChange)
    requires
        call_ensures(BudgetChange::none, (), c),
    ensures
        c.changed == 0,
        c.blocked@.len() == 0,
{
}

/// A range filter has the bounds of the range or the value that it is made
/// from.
pub proof fn law_range_filter_has_the_bounds(
    from: RangeFrom<u64>,
    to: RangeToInclusive<u64>,
    all: RangeFull,
    both: RangeInclusive<u64>,
    one: u64,
    f: RangeFilter<u64>,
)
    ensures
        call_ensures(<RangeFilter<u64> as From<RangeFrom<u64>>>::from, (from,), f) ==> f
            == RangeFilter::AtLeast(from.start),
        call_ensures(<RangeFilter<u64> as From<RangeToInclusive<u64>>>::from, (to,), f) ==> f
            == RangeFilter::AtMost(to.end),
        call_ensures(<RangeFilter<u64> as From<RangeFull>>::from, (all,), f) ==> f is Unbounded,
        call_ensures(<RangeFilter<u64> as From<u64>>::from, (one,), f) ==> f == RangeFilter::Exact(
            one,
        ),
        call_ensures(<RangeFilter<u64> as From<RangeInclusive<u64>>>::from, (both,), f)
            && !both@.exhausted ==> f == RangeFilter::Bounded(both@.start, both@.end),
{
}

/// A point in time is reached by adding the span, up to the end of the year
/// 9999.
pub proof fn law_times_add_up(now: Timestamp, d: Duration, r: bool, t: Timestamp)
    ensures
        call_ensures(can_reach, (now, d), r) ==> r == (now.nanos + d.nanos
            <= 253_402_300_799_999_999_999),
        call_ensures(after, (now, d), t) ==> t.nanos == now.nanos + d.nanos,
{
}

/// An error of a path reads as its message with its position behind it.
pub proof fn law_path_error_reads_as_a_line(e: PathParseError, r: String)
    requires
        call_ensures(PathParseError::to_text, (&e,), r),
    ensures
        r@ == e.message@ + " (at position "@ + decimal(e.position as nat) + ")"@,
{
}

/// Copies are what they are copies of.
pub proof fn law_copies_are_the_same(
    v: Value,
    w: Value,
    key: UniqueKey,
    key_copy: UniqueKey,
    batch: BatchConfig,
    batch_copy: BatchConfig,
    binding: BudgetBindingInput,
    binding_copy: BudgetBindingInput,
)
    ensures
        call_ensures(Value::copy, (&v,), w) ==> w@ == v@,
        call_ensures(UniqueKey::copy, (&key,), key_copy) ==> key_copy == key,
        call_ensures(BatchConfig::copy, (&batch,), batch_copy) ==> batch_copy == batch,
        call_ensures(BudgetBindingInput::copy, (&binding,), binding_copy)
            ==> binding_copy == binding,
{
}

} // verus!
