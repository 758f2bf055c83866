//! The decisions of a worker's dispatch loop: when to connect, when to
//! pull a job, when to wait and when to stop.

use vstd::prelude::*;
use crate::duration::Duration;
use crate::error::ZizqError;
use crate::retry::{backoff_after, backoff_in_range, doubled, next_backoff, INITIAL_BACKOFF};

verus! {

/// Where the dispatch loop stands.
#[derive(Debug, Clone, Copy, PartialEq, Eq, Structural)]
pub enum Phase {
    /// Opening the take stream.
    Connecting,
    /// Pulling jobs from an open stream.
    Session,
    /// Waiting before the next attempt to connect.
    Sleeping,
    /// Waiting for handlers and acknowledgements to finish.
    Draining,
    /// Nothing is left to do.
    Stopped,
}

/// What the loop has to wait for next.
#[derive(Debug, Clone, Copy, PartialEq, Eq, Structural)]
pub enum Wait {
    /// The outcome of opening the take stream.
    Connection,
    /// A shutdown request, or the end of a running handler.
    Slot,
    /// A shutdown request, or the next item of the stream.
    Job,
    /// A shutdown request, or the end of the given wait.
    Sleep(Duration),
    /// The end of all handlers and acknowledgements, or the deadline.
    Drain,
    /// Nothing.
    Nothing,
}

/// Something that the loop waited for.
#[derive(Debug)]
pub enum Event<J> {
    /// The take stream is open.
    Connected,
    /// The take stream could not be opened.
    ConnectFailed(ZizqError),
    /// A shutdown was requested.
    Shutdown,
    /// A running handler ended.
    SlotFreed,
    /// The stream yielded a job.
    Received(J),
    /// The server closed the stream.
    StreamEnded,
    /// The stream broke.
    StreamFailed(ZizqError),
    /// The wait is over.
    Elapsed,
    /// All handlers and acknowledgements finished.
    Drained,
    /// The shutdown deadline passed.
    DeadlinePassed,
}

/// What has to happen at once.
#[derive(Debug)]
pub enum Effect<J> {
    /// Nothing beyond the next wait.
    Continue,
    /// Start a handler for the job.
    Spawn(J),
    /// Stop pulling jobs and drain. The stream stays open during the
    /// drain where `keep_stream` holds, so that acknowledgements land
    /// before the server sees the connection close.
    Drain { keep_stream: bool, result: Result<(), ZizqError> },
    /// Return, after aborting the handlers that still run where `abort`
    /// holds.
    Stop { abort: bool },
}

/// State of the dispatch loop.
#[derive(Debug, Clone, Copy, PartialEq, Eq, Structural)]
pub struct Dispatch {
    /// Maximum number of running handlers.
    pub concurrency: usize,
    /// Whether to connect again after a stream ends.
    pub reconnect: bool,
    pub phase: Phase,
    /// The wait before the next attempt to connect.
    pub backoff: Duration,
    /// Handlers that were started and whose end was not seen yet.
    pub inflight: usize,
}

impl Dispatch {
    /// Whether the state is one that the loop can be in.
    pub open spec fn wf(&self) -> bool {
        &&& self.concurrency >= 1
        &&& self.inflight <= self.concurrency
        &&& backoff_in_range(self.backoff)
    }

    /// Whether every slot is taken.
    pub open spec fn full(&self) -> bool {
        self.inflight >= self.concurrency
    }

    /// What the loop has to wait for.
    pub open spec fn wait(&self) -> Wait {
        match self.phase {
            Phase::Connecting => Wait::Connection,
            Phase::Session => if self.full() {
                Wait::Slot
            } else {
                Wait::Job
            },
            Phase::Sleeping => Wait::Sleep(self.backoff),
            Phase::Draining => Wait::Drain,
            Phase::Stopped => Wait::Nothing,
        }
    }

    /// Whether `event` is one of those that the loop waits for.
    pub open spec fn expects<J>(&self, event: Event<J>) -> bool {
        match self.wait() {
            Wait::Connection => event is Connected || event is ConnectFailed,
            Wait::Slot => event is Shutdown || event is SlotFreed,
            Wait::Job => event is Shutdown || event is Received || event is StreamEnded
                || event is StreamFailed,
            Wait::Sleep(_) => event is Shutdown || event is Elapsed,
            Wait::Drain => event is Drained || event is DeadlinePassed,
            Wait::Nothing => false,
        }
    }

    /// The state after `event`.
    pub open spec fn after<J>(self, event: Event<J>) -> Dispatch {
        match event {
            Event::Connected => Dispatch {
                phase: Phase::Session,
                backoff: Duration { nanos: INITIAL_BACKOFF },
                ..self
            },
            Event::ConnectFailed(e) => if e.status_in(400, 499) || !self.reconnect {
                Dispatch { phase: Phase::Draining, ..self }
            } else {
                Dispatch { phase: Phase::Sleeping, ..self }
            },
            Event::Shutdown => Dispatch { phase: Phase::Draining, ..self },
            Event::SlotFreed => Dispatch { inflight: (self.inflight - 1) as usize, ..self },
            Event::Received(_) => Dispatch { inflight: (self.inflight + 1) as usize, ..self },
            Event::StreamEnded | Event::StreamFailed(_) => if self.reconnect {
                Dispatch { phase: Phase::Sleeping, ..self }
            } else {
                Dispatch { phase: Phase::Draining, ..self }
            },
            Event::Elapsed => Dispatch {
                phase: Phase::Connecting,
                backoff: doubled(self.backoff),
                ..self
            },
            Event::Drained | Event::DeadlinePassed => Dispatch { phase: Phase::Stopped, ..self },
        }
    }

    /// What has to happen at once on `event`.
    pub open spec fn effect<J>(self, event: Event<J>) -> Effect<J> {
        match event {
            Event::Connected | Event::SlotFreed | Event::Elapsed => Effect::Continue,
            Event::ConnectFailed(e) => if e.status_in(400, 499) || !self.reconnect {
                Effect::Drain { keep_stream: false, result: Err(e) }
            } else {
                Effect::Continue
            },
            Event::Shutdown => Effect::Drain {
                keep_stream: self.phase == Phase::Session,
                result: Ok(()),
            },
            Event::Received(job) => Effect::Spawn(job),
            Event::StreamEnded => if self.reconnect {
                Effect::Continue
            } else {
                Effect::Drain { keep_stream: false, result: Ok(()) }
            },
            Event::StreamFailed(e) => if self.reconnect {
                Effect::Continue
            } else {
                Effect::Drain { keep_stream: false, result: Err(e) }
            },
            Event::Drained => Effect::Stop { abort: false },
            Event::DeadlinePassed => Effect::Stop { abort: true },
        }
    }

    /// The state of a loop that has not started.
    pub fn new(concurrency: usize, reconnect: bool) -> (r: Dispatch)
        requires
            concurrency >= 1,
        ensures
            r.wf(),
            r == (Dispatch {
                concurrency,
                reconnect,
                phase: Phase::Connecting,
                backoff: Duration { nanos: INITIAL_BACKOFF },
                inflight: 0,
            }),
    {
        Dispatch {
            concurrency,
            reconnect,
            phase: Phase::Connecting,
            backoff: Duration { nanos: INITIAL_BACKOFF },
            inflight: 0,
        }
    }

    /// What the loop has to wait for next.
    pub fn waits_for(&self) -> (r: Wait)
        ensures
            r == self.wait(),
    {
        match self.phase {
            Phase::Connecting => Wait::Connection,
            Phase::Session => if self.inflight >= self.concurrency {
                Wait::Slot
            } else {
                Wait::Job
            },
            Phase::Sleeping => Wait::Sleep(self.backoff),
            Phase::Draining => Wait::Drain,
            Phase::Stopped => Wait::Nothing,
        }
    }

    /// Takes one event that the loop waited for.
    pub fn step<J>(&mut self, event: Event<J>) -> (r: Effect<J>)
        requires
            old(self).wf(),
            old(self).expects(event),
        ensures
            final(self).wf(),
            *final(self) == old(self).after(event),
            r == old(self).effect(event),
    {
        match event {
            Event::Connected => {
                self.backoff = Duration { nanos: INITIAL_BACKOFF };
                self.phase = Phase::Session;
                Effect::Continue
            },
            Event::ConnectFailed(e) => {
                if e.is_client_error() || !self.reconnect {
                    self.phase = Phase::Draining;
                    Effect::Drain { keep_stream: false, result: Err(e) }
                } else {
                    self.phase = Phase::Sleeping;
                    Effect::Continue
                }
            },
            Event::Shutdown => {
                let keep_stream = self.phase == Phase::Session;
                self.phase = Phase::Draining;
                Effect::Drain { keep_stream, result: Ok(()) }
            },
            Event::SlotFreed => {
                self.inflight = self.inflight - 1;
                Effect::Continue
            },
            Event::Received(job) => {
                self.inflight = self.inflight + 1;
                Effect::Spawn(job)
            },
            Event::StreamEnded => {
                if self.reconnect {
                    self.phase = Phase::Sleeping;
                    Effect::Continue
                } else {
                    self.phase = Phase::Draining;
                    Effect::Drain { keep_stream: false, result: Ok(()) }
                }
            },
            Event::StreamFailed(e) => {
                if self.reconnect {
                    self.phase = Phase::Sleeping;
                    Effect::Continue
                } else {
                    self.phase = Phase::Draining;
                    Effect::Drain { keep_stream: false, result: Err(e) }
                }
            },
            Event::Elapsed => {
                self.backoff = next_backoff(self.backoff);
                self.phase = Phase::Connecting;
                Effect::Continue
            },
            Event::Drained => {
                self.phase = Phase::Stopped;
                Effect::Stop { abort: false }
            },
            Event::DeadlinePassed => {
                self.phase = Phase::Stopped;
                Effect::Stop { abort: true }
            },
        }
    }
}

/// The state that a loop is in before its first event.
pub open spec fn fresh(concurrency: usize, reconnect: bool) -> Dispatch {
    Dispatch {
        concurrency,
        reconnect,
        phase: Phase::Connecting,
        backoff: Duration { nanos: INITIAL_BACKOFF },
        inflight: 0,
    }
}

/// The state after the first `n` of `events`.
pub open spec fn run<J>(start: Dispatch, events: Seq<Event<J>>, n: int) -> Dispatch
    decreases n,
{
    if n <= 0 {
        start
    } else {
        run(start, events, n - 1).after(events[n - 1])
    }
}

/// Whether each of the first `n` of `events` is one that the loop waits
/// for when it comes.
pub open spec fn possible<J>(start: Dispatch, events: Seq<Event<J>>, n: int) -> bool {
    forall|k: int|
        #![trigger events[k]]
        0 <= k < n ==> run(start, events, k).expects(events[k])
}

/// How many of the first `n` of `events` are jobs that were received.
pub open spec fn jobs_received<J>(events: Seq<Event<J>>, n: int) -> int
    decreases n,
{
    if n <= 0 {
        0
    } else {
        jobs_received(events, n - 1) + if events[n - 1] is Received {
            1int
        } else {
            0
        }
    }
}

/// How many of the first `n` of `events` are handlers that ended.
pub open spec fn slots_freed<J>(events: Seq<Event<J>>, n: int) -> int
    decreases n,
{
    if n <= 0 {
        0
    } else {
        slots_freed(events, n - 1) + if events[n - 1] is SlotFreed {
            1int
        } else {
            0
        }
    }
}

/// What one step keeps.
proof fn lemma_step<J>(s: Dispatch, event: Event<J>)
    requires
        s.wf(),
        s.expects(event),
    ensures
        s.after(event).wf(),
        s.after(event).concurrency == s.concurrency,
        s.after(event).reconnect == s.reconnect,
        s.after(event).inflight == s.inflight + (if event is Received {
            1int
        } else {
            0
        }) - (if event is SlotFreed {
            1int
        } else {
            0
        }),
{
}

/// Whatever happens, across reconnects too, no more handlers run than the
/// worker's concurrency allows, and the state stays well formed.
pub proof fn law_concurrency_is_never_exceeded<J>(
    concurrency: usize,
    reconnect: bool,
    events: Seq<Event<J>>,
    n: int,
)
    requires
        concurrency >= 1,
        0 <= n <= events.len(),
        possible(fresh(concurrency, reconnect), events, n),
    ensures
        run(fresh(concurrency, reconnect), events, n).wf(),
        run(fresh(concurrency, reconnect), events, n).concurrency == concurrency,
        run(fresh(concurrency, reconnect), events, n).reconnect == reconnect,
        jobs_received(events, n) - slots_freed(events, n) == run(
            fresh(concurrency, reconnect),
            events,
            n,
        ).inflight,
        jobs_received(events, n) - slots_freed(events, n) <= concurrency,
    decreases n,
{
    let start = fresh(concurrency, reconnect);
    if n > 0 {
        let last = events[n - 1];
        let before = run(start, events, n - 1);
        assert(before.expects(last));
        law_concurrency_is_never_exceeded(concurrency, reconnect, events, n - 1);
        lemma_step(before, last);
    }
}

/// Every job that the stream yields is handed to a handler at once.
pub proof fn law_received_job_is_spawned<J>(s: Dispatch, job: J)
    ensures
        s.effect(Event::Received(job)) == Effect::Spawn(job),
{
}

/// A client error on connecting ends the loop with that error, whether or
/// not reconnecting is on; without reconnecting every failure does.
pub proof fn law_connect_rejection_is_final<J>(s: Dispatch, e: ZizqError)
    requires
        e.status_in(400, 499) || !s.reconnect,
    ensures
        s.effect(Event::<J>::ConnectFailed(e)) == (Effect::<J>::Drain {
            keep_stream: false,
            result: Err(e),
        }),
        s.after(Event::<J>::ConnectFailed(e)).phase == Phase::Draining,
{
}

/// With reconnecting on, nothing that happens to an open stream ends the
/// loop: only a shutdown or a client error on connecting does.
pub proof fn law_only_shutdown_or_rejection_ends<J>(s: Dispatch, event: Event<J>)
    requires
        s.reconnect,
        s.expects(event),
        s.effect(event) is Drain,
    ensures
        event is Shutdown || (event matches Event::ConnectFailed(e) && e.status_in(400, 499)),
{
}

/// A loop that drains never pulls another job: it only ever stops.
pub proof fn law_draining_only_stops<J>(s: Dispatch, event: Event<J>)
    requires
        s.phase == Phase::Draining,
        s.expects(event),
    ensures
        s.effect(event) is Stop,
        s.after(event).phase == Phase::Stopped,
        s.effect(event) == (Effect::<J>::Stop { abort: event is DeadlinePassed }),
{
}

/// The state after `k` failed attempts to connect in a row, each followed
/// by its wait.
pub open spec fn after_failures<J>(s: Dispatch, e: ZizqError, k: nat) -> Dispatch
    decreases k,
{
    if k == 0 {
        s
    } else {
        after_failures::<J>(s, e, (k - 1) as nat).after(Event::<J>::ConnectFailed(e)).after(
            Event::<J>::Elapsed,
        )
    }
}

/// Failures in a row are followed by waits that double from half a second
/// up to thirty seconds, and a connection that succeeds starts the waits
/// over.
pub proof fn law_waits_double_until_connected<J>(
    concurrency: usize,
    e: ZizqError,
    k: nat,
)
    requires
        !e.status_in(400, 499),
    ensures
        after_failures::<J>(fresh(concurrency, true), e, k).phase == Phase::Connecting,
        after_failures::<J>(fresh(concurrency, true), e, k).reconnect,
        after_failures::<J>(fresh(concurrency, true), e, k).after(
            Event::<J>::ConnectFailed(e),
        ).wait() == Wait::Sleep(backoff_after(k)),
        after_failures::<J>(fresh(concurrency, true), e, k).after(
            Event::<J>::Connected,
        ).backoff == backoff_after(0),
    decreases k,
{
    if k > 0 {
        law_waits_double_until_connected::<J>(concurrency, e, (k - 1) as nat);
    }
}

/// The loop only ever stops after it drained, and it drains after every way
/// out.
pub proof fn law_stop_follows_drain<J>(s: Dispatch, event: Event<J>)
    requires
        s.expects(event),
    ensures
        s.after(event).phase == Phase::Stopped ==> s.phase == Phase::Draining,
        s.effect(event) is Stop == (s.phase == Phase::Draining),
        s.effect(event) is Drain == (s.after(event).phase == Phase::Draining),
{
}

} // verus!
