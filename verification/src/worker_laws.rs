//! What a worker does on each event, said of the calls themselves.

use vstd::prelude::*;
use vstd::string::*;
use crate::acks::{handle_job, AckEvent, AckPhase, AckState, HandlerError, JobReport};
use crate::client::Client;
use crate::dispatch::{Dispatch, Effect, Event, Phase, Wait};
use crate::duration::Duration;
use crate::error::ZizqError;
use crate::json::{Json, Value};
use crate::retry::{next_backoff, ReportAction, Reporter};
use crate::router::{payload_error, payload_of, route_names, Router};
use crate::take::TakeBuilder;
use crate::text::{debug_form, slice_texts, texts};
use crate::worker::{Worker, WorkerBuilder};

verus! {

/// A shutdown drains at once and ends well, however many handlers run. A
/// stream that is open stays open during the drain, so that the server does
/// not take the running jobs back before their acknowledgements arrive;
/// nothing is kept where no stream is open.
pub proof fn law_shutdown_keeps_an_open_stream<J>(d: &mut Dispatch, r: Effect<J>)
    requires
        call_ensures(Dispatch::step::<J>, (d, Event::<J>::Shutdown), r),
    ensures
        old(d).phase == Phase::Session ==> r == (Effect::<J>::Drain {
            keep_stream: true,
            result: Ok(()),
        }),
        old(d).phase != Phase::Session ==> r == (Effect::<J>::Drain {
            keep_stream: false,
            result: Ok(()),
        }),
        *final(d) == (Dispatch { phase: Phase::Draining, ..*old(d) }),
{
}

/// A shutdown is heard whenever the loop waits for jobs, for slots or for the
/// next attempt to connect.
pub proof fn law_shutdown_is_heard<J>(s: Dispatch, w: Wait)
    requires
        s.wf(),
        call_ensures(Dispatch::waits_for, (&s,), w),
    ensures
        s.phase == Phase::Session || s.phase == Phase::Sleeping ==> s.expects(Event::<J>::Shutdown),
        s.phase == Phase::Connecting ==> w == Wait::Connection,
        s.phase == Phase::Session && s.inflight < s.concurrency ==> w == Wait::Job,
        s.phase == Phase::Session && s.inflight == s.concurrency ==> w == Wait::Slot,
        s.phase == Phase::Sleeping ==> w == Wait::Sleep(s.backoff),
        s.phase == Phase::Draining ==> w == Wait::Drain,
        s.phase == Phase::Stopped ==> w == Wait::Nothing,
{
}

/// What can happen in each state: jobs and the end of the stream only where a
/// slot is free, the end of a handler where none is, the outcome of
/// connecting only while connecting.
pub proof fn law_events_have_their_time<J>(s: Dispatch, job: J, e: ZizqError)
    requires
        s.wf(),
    ensures
        s.expects(Event::<J>::Received(job)) == (s.phase == Phase::Session && s.inflight
            < s.concurrency),
        s.expects(Event::<J>::StreamEnded) == (s.phase == Phase::Session && s.inflight
            < s.concurrency),
        s.expects(Event::<J>::StreamFailed(e)) == (s.phase == Phase::Session && s.inflight
            < s.concurrency),
        s.expects(Event::<J>::SlotFreed) == (s.phase == Phase::Session && s.inflight
            == s.concurrency),
        s.expects(Event::<J>::Connected) == (s.phase == Phase::Connecting),
        s.expects(Event::<J>::ConnectFailed(e)) == (s.phase == Phase::Connecting),
        s.expects(Event::<J>::Shutdown) == (s.phase == Phase::Session || s.phase
            == Phase::Sleeping),
        s.expects(Event::<J>::Elapsed) == (s.phase == Phase::Sleeping),
        s.expects(Event::<J>::Drained) == (s.phase == Phase::Draining),
        s.expects(Event::<J>::DeadlinePassed) == (s.phase == Phase::Draining),
{
}

/// A job that arrives is started at once and takes one slot; a handler that
/// ends gives one back. Nothing else changes.
pub proof fn law_jobs_take_and_free_slots<J>(d: &mut Dispatch, job: J, r: Effect<J>)
    requires
        old(d).wf(),
        old(d).inflight < old(d).concurrency,
        call_ensures(Dispatch::step::<J>, (d, Event::<J>::Received(job)), r),
    ensures
        r == Effect::<J>::Spawn(job),
        *final(d) == (Dispatch { inflight: (old(d).inflight + 1) as usize, ..*old(d) }),
{
}

/// A handler that ends frees its slot, and nothing has to be done.
pub proof fn law_ended_handler_frees_its_slot<J>(d: &mut Dispatch, r: Effect<J>)
    requires
        old(d).wf(),
        old(d).inflight >= 1,
        call_ensures(Dispatch::step::<J>, (d, Event::<J>::SlotFreed), r),
    ensures
        r is Continue,
        *final(d) == (Dispatch { inflight: (old(d).inflight - 1) as usize, ..*old(d) }),
{
}

/// A stream that opens starts a session, and the waits start over at half a
/// second. Handlers that still run keep their slots.
pub proof fn law_open_stream_starts_a_session<J>(d: &mut Dispatch, r: Effect<J>)
    requires
        call_ensures(Dispatch::step::<J>, (d, Event::<J>::Connected), r),
    ensures
        r is Continue,
        *final(d) == (Dispatch {
            phase: Phase::Session,
            backoff: Duration { nanos: 500_000_000 },
            ..*old(d)
        }),
{
}

/// A stream that ends, by the server or by an error, is waited for and opened
/// again where reconnecting is on. Where it is off the loop drains without a
/// stream: well after an end, with the error after an error.
pub proof fn law_lost_stream_is_reopened<J>(
    d: &mut Dispatch,
    error: ZizqError,
    failed: bool,
    r: Effect<J>,
)
    requires
        call_ensures(
            Dispatch::step::<J>,
            (d, if failed {
                Event::<J>::StreamFailed(error)
            } else {
                Event::<J>::StreamEnded
            }),
            r,
        ),
    ensures
        old(d).reconnect ==> r is Continue && *final(d) == (Dispatch {
            phase: Phase::Sleeping,
            ..*old(d)
        }),
        !old(d).reconnect ==> *final(d) == (Dispatch { phase: Phase::Draining, ..*old(d) }),
        !old(d).reconnect && failed ==> r == (Effect::<J>::Drain {
            keep_stream: false,
            result: Err(error),
        }),
        !old(d).reconnect && !failed ==> r == (Effect::<J>::Drain {
            keep_stream: false,
            result: Ok(()),
        }),
{
}

/// A connection that is refused by the client's own fault ends the loop with
/// that error; any other failure does so only where reconnecting is off, and
/// is waited out otherwise.
pub proof fn law_failed_connection_is_retried_unless_refused<J>(
    d: &mut Dispatch,
    error: ZizqError,
    r: Effect<J>,
)
    requires
        call_ensures(Dispatch::step::<J>, (d, Event::<J>::ConnectFailed(error)), r),
    ensures
        !old(d).reconnect || (error matches ZizqError::Response { status, .. } && 400 <= status
            <= 499) ==> r == (Effect::<J>::Drain { keep_stream: false, result: Err(error) })
            && *final(d) == (Dispatch { phase: Phase::Draining, ..*old(d) }),
        old(d).reconnect && !(error matches ZizqError::Response { status, .. } && 400 <= status
            <= 499) ==> r is Continue && *final(d) == (Dispatch {
            phase: Phase::Sleeping,
            ..*old(d)
        }),
{
}

/// After its wait the loop connects again, and would wait twice as long next
/// time, up to thirty seconds.
pub proof fn law_wait_is_followed_by_a_new_attempt<J>(d: &mut Dispatch, r: Effect<J>)
    requires
        old(d).wf(),
        call_ensures(Dispatch::step::<J>, (d, Event::<J>::Elapsed), r),
    ensures
        r is Continue,
        final(d).phase == Phase::Connecting,
        final(d).backoff.nanos == 2 * old(d).backoff.nanos || final(d).backoff.nanos
            == 30_000_000_000,
        final(d).backoff.nanos <= 30_000_000_000,
        2 * old(d).backoff.nanos <= 30_000_000_000 ==> final(d).backoff.nanos == 2
            * old(d).backoff.nanos,
        *final(d) == (Dispatch {
            phase: Phase::Connecting,
            backoff: final(d).backoff,
            ..*old(d)
        }),
{
}

/// A drain that completes stops the loop in peace; a deadline that passes
/// stops it and aborts what still runs.
pub proof fn law_drain_ends_the_loop<J>(d: &mut Dispatch, deadline: bool, r: Effect<J>)
    requires
        call_ensures(
            Dispatch::step::<J>,
            (d, if deadline {
                Event::<J>::DeadlinePassed
            } else {
                Event::<J>::Drained
            }),
            r,
        ),
    ensures
        r == (Effect::<J>::Stop { abort: deadline }),
        *final(d) == (Dispatch { phase: Phase::Stopped, ..*old(d) }),
{
}

/// A loop starts by connecting, with nothing running and the shortest wait.
pub proof fn law_loop_starts_by_connecting(concurrency: usize, reconnect: bool, r: Dispatch)
    requires
        concurrency >= 1,
        call_ensures(Dispatch::new, (concurrency, reconnect), r),
    ensures
        r.concurrency == concurrency,
        r.reconnect == reconnect,
        r.phase == Phase::Connecting,
        r.inflight == 0,
        r.backoff.nanos == 500_000_000,
{
}

/// The next wait is twice the last, up to thirty seconds.
pub proof fn law_next_wait_is_twice_the_last(current: Duration, r: Duration)
    requires
        call_ensures(next_backoff, (current,), r),
    ensures
        2 * current.nanos <= 30_000_000_000 ==> r.nanos == 2 * current.nanos,
        2 * current.nanos > 30_000_000_000 ==> r.nanos == 30_000_000_000,
{
}

/// A report is done where the server has it, is sent again after the wait
/// that is due where the failure may pass (a broken connection, or a fault of
/// the server), and is dropped otherwise. Only sending it again makes the
/// next wait longer.
pub proof fn law_report_is_settled(
    s: &mut Reporter,
    outcome: Result<(), ZizqError>,
    r: ReportAction,
)
    requires
        old(s).wf(),
        call_ensures(Reporter::settle, (s, &outcome), r),
    ensures
        outcome is Ok ==> r == ReportAction::Done && *final(s) == *old(s),
        outcome matches Err(e) ==> (e is Transport || (e matches ZizqError::Response {
            status,
            ..
        } && 500 <= status <= 599)) ==> r == ReportAction::RetryAfter(old(s).backoff) && (2 * old(
            s,
        ).backoff.nanos <= 30_000_000_000 ==> final(s).backoff.nanos == 2 * old(s).backoff.nanos)
            && (2 * old(s).backoff.nanos > 30_000_000_000 ==> final(s).backoff.nanos
            == 30_000_000_000),
        outcome matches Err(e) ==> !(e is Transport || (e matches ZizqError::Response {
            status,
            ..
        } && 500 <= status <= 599)) ==> r == ReportAction::Drop && *final(s) == *old(s),
{
}

/// A report that was not sent yet waits half a second at first.
pub proof fn law_first_wait_is_half_a_second(r: Reporter)
    requires
        call_ensures(Reporter::new, (), r),
    ensures
        r.backoff.nanos == 500_000_000,
{
}

/// A job that succeeded is acknowledged by its id; one that failed is
/// reported by its id with what its handler said.
pub proof fn law_outcome_is_reported(
    id: String,
    outcome: Result<(), HandlerError>,
    r: JobReport,
)
    requires
        call_ensures(handle_job, (id, outcome), r),
    ensures
        outcome is Ok ==> r == JobReport::Ack(id),
        outcome matches Err(e) ==> r == (JobReport::Failure {
            id,
            message: e.message,
            error_type: e.error_type,
        }),
{
}

/// An id that comes in joins the batch behind those before it.
pub proof fn law_id_joins_the_batch(s: &mut AckState, id: String)
    requires
        call_ensures(AckState::step, (s, AckEvent::Got(id)), ()),
    ensures
        final(s).phase == AckPhase::Collecting,
        texts(final(s).batch@) == texts(old(s).batch@).push(id@),
        final(s).reporter.backoff == old(s).reporter.backoff,
{
}

/// A batch is sent once nothing more waits, with the shortest wait for its
/// first retry, and holds all that was collected.
pub proof fn law_batch_is_sent_whole(s: &mut AckState)
    requires
        call_ensures(AckState::step, (s, AckEvent::Empty), ()),
    ensures
        final(s).phase == AckPhase::Sending,
        texts(final(s).batch@) == texts(old(s).batch@),
        final(s).reporter.backoff.nanos == 500_000_000,
{
}

/// A batch that the server has, or will never take, is let go; one whose
/// sending may still succeed is kept whole and sent again after the wait
/// that is due, which doubles each time.
pub proof fn law_batch_is_kept_until_settled(s: &mut AckState, outcome: Result<(), ZizqError>)
    requires
        call_ensures(AckState::step, (s, AckEvent::Sent(outcome)), ()),
    ensures
        outcome is Ok ==> final(s).phase == AckPhase::Idle && final(s).batch@.len() == 0,
        outcome matches Err(e) ==> (e is Transport || (e matches ZizqError::Response {
            status,
            ..
        } && 500 <= status <= 599)) ==> final(s).phase == AckPhase::Sleeping && texts(
            final(s).batch@,
        ) == texts(old(s).batch@) && final(s).wait == old(s).reporter.backoff && (2 * old(
            s,
        ).reporter.backoff.nanos <= 30_000_000_000 ==> final(s).reporter.backoff.nanos == 2 * old(
            s,
        ).reporter.backoff.nanos),
        outcome matches Err(e) ==> !(e is Transport || (e matches ZizqError::Response {
            status,
            ..
        } && 500 <= status <= 599)) ==> final(s).phase == AckPhase::Idle && final(s).batch@.len()
            == 0,
{
    assert(texts(final(s).batch@).len() == final(s).batch@.len());
}

/// After its wait a batch is sent again, unchanged.
pub proof fn law_batch_is_sent_again(s: &mut AckState)
    requires
        call_ensures(AckState::step, (s, AckEvent::Elapsed), ()),
    ensures
        final(s).phase == AckPhase::Sending,
        texts(final(s).batch@) == texts(old(s).batch@),
        final(s).reporter.backoff == old(s).reporter.backoff,
{
}

/// A queue that closes stops the processor, and what it holds is not
/// changed.
pub proof fn law_closed_queue_stops_the_processor(s: &mut AckState)
    requires
        call_ensures(AckState::step, (s, AckEvent::Closed), ()),
    ensures
        final(s).phase == AckPhase::Stopped,
        texts(final(s).batch@) == texts(old(s).batch@),
{
}

/// The processor starts idle, with nothing to send.
pub proof fn law_processor_starts_idle(r: AckState)
    requires
        call_ensures(AckState::new, (), r),
    ensures
        r.phase == AckPhase::Idle,
        r.batch@.len() == 0,
        r.reporter.backoff.nanos == 500_000_000,
{
    assert(texts(r.batch@).len() == r.batch@.len());
}

/// What the processor waits for: ids or the end of the queue while idle, more
/// ids or an empty queue while collecting, the answer while sending, the end
/// of its wait while sleeping.
pub proof fn law_processor_events_have_their_time(
    s: AckState,
    id: Seq<char>,
    outcome: Result<(), ZizqError>,
)
    ensures
        s@.expects(crate::acks::AckInput::Got(id)) == (s.phase == AckPhase::Idle || s.phase
            == AckPhase::Collecting),
        s@.expects(crate::acks::AckInput::Closed) == (s.phase == AckPhase::Idle),
        s@.expects(crate::acks::AckInput::Empty) == (s.phase == AckPhase::Collecting),
        s@.expects(crate::acks::AckInput::Sent(outcome)) == (s.phase == AckPhase::Sending),
        s@.expects(crate::acks::AckInput::Elapsed) == (s.phase == AckPhase::Sleeping),
{
}

/// Which errors may pass: a broken connection, and a fault of the server.
/// The other kinds are told by their status alone.
pub proof fn law_errors_are_told_apart(e: ZizqError, r: bool, status: Option<u16>)
    ensures
        call_ensures(ZizqError::status, (&e,), status) ==> (e matches ZizqError::Response {
            status: s,
            ..
        } ==> status == Some(s)) && (!(e is Response) ==> status is None),
        call_ensures(ZizqError::is_transport, (&e,), r) ==> r == (e is Transport),
        call_ensures(ZizqError::is_retryable, (&e,), r) ==> r == (e is Transport || has(e, 500,
            599)),
        call_ensures(ZizqError::is_client_error, (&e,), r) ==> r == has(e, 400, 499),
        call_ensures(ZizqError::is_server_error, (&e,), r) ==> r == has(e, 500, 599),
        call_ensures(ZizqError::is_not_found, (&e,), r) ==> r == has(e, 404, 404),
        call_ensures(ZizqError::is_conflict, (&e,), r) ==> r == has(e, 409, 409),
        call_ensures(ZizqError::is_forbidden, (&e,), r) ==> r == has(e, 403, 403),
        call_ensures(ZizqError::is_invalid_request, (&e,), r) ==> r == (has(e, 400, 400) || has(
            e,
            422,
            422,
        )),
        call_ensures(ZizqError::is_unsupported_format, (&e,), r) ==> r == (has(e, 406, 406) || has(
            e,
            415,
            415,
        )),
{
}

/// Whether `e` is a response with a status between `low` and `high`.
pub open spec fn has(e: ZizqError, low: int, high: int) -> bool {
    e matches ZizqError::Response { status, .. } && low <= status <= high
}

/// A worker is built from what was set: it needs a client and a handler, and
/// takes the rest as it is. Its prefetch limit is the one that was set, else
/// its concurrency.
pub proof fn law_worker_is_what_was_set<H>(b: WorkerBuilder<H>, r: Result<Worker<H>, ZizqError>)
    requires
        call_ensures(WorkerBuilder::<H>::build, (b,), r),
    ensures
        b.client is None ==> r matches Err(ZizqError::MissingClient),
        b.client is Some && b.handler is None ==> r matches Err(ZizqError::MissingHandler),
        b.client is Some && b.handler is Some ==> (r matches Ok(w) && w.client == b.client->0
            && w.handler == b.handler->0 && w.concurrency == b.concurrency && w.queues == b.queues
            && w.reconnect == b.reconnect && w.shutdown_timeout == b.shutdown_timeout && (
        b.prefetch matches Some(p) ==> w.prefetch == p) && (b.prefetch is None && b.concurrency
            <= u32::MAX ==> w.prefetch == b.concurrency)),
{
}

/// A fresh builder asks for one job at a time, from every queue, reconnects,
/// and gives a shutdown a minute.
pub proof fn law_worker_defaults<H>(b: WorkerBuilder<H>)
    requires
        call_ensures(Worker::<H>::builder, (), b),
    ensures
        b.client is None,
        b.handler is None,
        b.concurrency == 1,
        b.queues@.len() == 0,
        b.prefetch is None,
        b.reconnect,
        b.shutdown_timeout.nanos == 60 * 1_000_000_000,
{
}

/// What is set on a worker's builder is what it has, and setting one thing
/// changes nothing else; the concurrency is one at least, and brings the
/// prefetch limit along until that is set by itself.
pub proof fn law_worker_settings<H>(
    b: WorkerBuilder<H>,
    client: Client,
    handler: H,
    n: usize,
    p: u32,
    flag: bool,
    d: Duration,
    queues: &[&str],
    set: WorkerBuilder<H>,
)
    ensures
        call_ensures(WorkerBuilder::<H>::client, (b, client), set) ==> set == (WorkerBuilder {
            client: Some(client),
            ..b
        }),
        call_ensures(WorkerBuilder::<H>::handler, (b, handler), set) ==> set == (WorkerBuilder {
            handler: Some(handler),
            ..b
        }),
        call_ensures(WorkerBuilder::<H>::reconnect, (b, flag), set) ==> set == (WorkerBuilder {
            reconnect: flag,
            ..b
        }),
        call_ensures(WorkerBuilder::<H>::shutdown_timeout, (b, d), set) ==> set == (WorkerBuilder {
            shutdown_timeout: d,
            ..b
        }),
        call_ensures(WorkerBuilder::<H>::prefetch, (b, p), set) ==> set == (WorkerBuilder {
            prefetch: Some(p),
            prefetch_set: true,
            ..b
        }),
        call_ensures(WorkerBuilder::<H>::queues, (b, queues), set) ==> set == (WorkerBuilder {
            queues: set.queues,
            ..b
        }) && set.queues@.len() == queues@.len() && forall|i: int|
            0 <= i < queues@.len() ==> (#[trigger] set.queues@[i])@ == queues@[i]@,
        call_ensures(WorkerBuilder::<H>::concurrency, (b, n), set) ==> (n >= 1 ==> set.concurrency
            == n) && (n == 0 ==> set.concurrency == 1) && (b.prefetch_set ==> set.prefetch
            == b.prefetch) && (!b.prefetch_set && 1 <= n <= u32::MAX ==> set.prefetch == Some(
            n as u32,
        )) && set == (WorkerBuilder {
            concurrency: set.concurrency,
            prefetch: set.prefetch,
            ..b
        }),
{
    if call_ensures(WorkerBuilder::<H>::queues, (b, queues), set) {
        assert(texts(set.queues@).len() == set.queues@.len());
        assert(slice_texts(queues@).len() == queues@.len());
        assert forall|i: int| 0 <= i < queues@.len() implies (#[trigger] set.queues@[i])@
            == queues@[i]@ by {
            assert(texts(set.queues@)[i] == set.queues@[i]@);
            assert(slice_texts(queues@)[i] == queues@[i]@);
        }
    }
}

/// A worker takes jobs from its own queues with its own limit, and its loop
/// has its concurrency.
pub proof fn law_worker_takes_from_its_queues<H>(w: Worker<H>, take: TakeBuilder, d: Dispatch)
    requires
        w.concurrency >= 1,
        call_ensures(Worker::<H>::take, (&w,), take),
        call_ensures(Worker::<H>::run, (&w,), d),
    ensures
        take.prefetch == Some(w.prefetch),
        take.queues@.len() == w.queues@.len(),
        forall|i: int| 0 <= i < w.queues@.len() ==> (#[trigger] take.queues@[i])@ == w.queues@[i]@,
        d.concurrency == w.concurrency,
        d.reconnect == w.reconnect,
        d.phase == Phase::Connecting,
        d.inflight == 0,
        d.backoff.nanos == 500_000_000,
{
    assert(texts(take.queues@).len() == take.queues@.len());
    assert(texts(w.queues@).len() == w.queues@.len());
    assert forall|i: int| 0 <= i < w.queues@.len() implies (#[trigger] take.queues@[i])@
        == w.queues@[i]@ by {
        assert(texts(take.queues@)[i] == take.queues@[i]@);
        assert(texts(w.queues@)[i] == w.queues@[i]@);
    }
}

/// A job goes to the handler that was registered last for its type, and other
/// types keep theirs.
pub proof fn law_job_goes_to_the_handler_of_its_type<S, H>(
    router: Router<S, H>,
    name: &str,
    handler: H,
    after: Router<S, H>,
    job_type: &str,
    before_found: Result<&H, HandlerError>,
    found: Result<&H, HandlerError>,
)
    requires
        call_ensures(Router::<S, H>::route, (router, name, handler), after),
        call_ensures(Router::<S, H>::handle, (&router, job_type), before_found),
        call_ensures(Router::<S, H>::handle, (&after, job_type), found),
    ensures
        job_type@ == name@ ==> (found matches Ok(h) && *h == handler),
        job_type@ != name@ ==> found is Ok == before_found is Ok,
        job_type@ != name@ ==> (before_found matches Ok(h) ==> (found matches Ok(g) && *g == *h)),
        after.state == router.state,
{
}

/// A job of a type that has no route fails, and says which type it was.
pub proof fn law_job_without_a_route_fails<S, H>(
    router: Router<S, H>,
    job_type: &str,
    found: Result<&H, HandlerError>,
)
    requires
        call_ensures(Router::<S, H>::handle, (&router, job_type), found),
        !route_names(router.routes@).contains(job_type@),
    ensures
        found matches Err(e) && e.message@ == "no route registered for job type "@ + debug_form(
            job_type@,
        ) && e.error_type@ == "zizq::router::NoRouteError"@,
{
    let at = crate::router::route_at(router.routes@, job_type@);
    crate::router::lemma_route_at(router.routes@, job_type@);
    if at < router.routes@.len() {
        assert(route_names(router.routes@)[at] == job_type@);
    }
}

/// A handler is given the payload of its job, null where there is none; a
/// payload of another type is an error that says which type was wanted.
pub proof fn law_payload_is_handed_over(
    payload: Option<Value>,
    handed: Value,
    target: &str,
    source: &str,
    e: HandlerError,
)
    ensures
        call_ensures(payload_of, (payload,), handed) ==> (payload matches Some(p) ==> handed@ == p@)
            && (payload is None ==> handed@ == Json::Null),
        call_ensures(payload_error, (target, source), e) ==> e.message@
            == "failed to deserialise job payload as "@ + target@ + ": "@ + source@ && e.error_type@
            == "zizq::router::PayloadDeserializeError"@,
{
}

/// An error of a handler reads as its message with its type behind it.
pub proof fn law_handler_error_reads_as_a_line(e: HandlerError, r: String)
    requires
        call_ensures(HandlerError::to_text, (&e,), r),
    ensures
        r@ == e.message@ + " ("@ + e.error_type@ + ")"@,
{
}

} // verus!
