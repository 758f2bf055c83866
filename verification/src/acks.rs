//! How handler outcomes are reported: failures one by one, successes in
//! batches, both retried until the server has them.

use vstd::prelude::*;
use vstd::string::*;
use crate::duration::Duration;
use crate::error::ZizqError;
use crate::retry::{
    backoff_in_range, doubled, report_action, ReportAction, Reporter, INITIAL_BACKOFF,
};
use crate::text::texts;

verus! {

/// A handler's error, as it is reported to the server.
#[derive(Debug)]
pub struct HandlerError {
    /// Type name of the handler's error.
    pub error_type: String,
    /// Human-readable error message.
    pub message: String,
}

impl HandlerError {
    /// The error as a line of text.
    pub fn to_text(&self) -> (r: String)
        ensures
            r@ == self.message@ + " ("@ + self.error_type@ + ")"@,
    {
        let mut out = self.message.clone();
        out.append(" (");
        out.append(self.error_type.as_str());
        out.append(")");
        out
    }
}

/// What is reported about a job whose handler ended.
#[derive(Debug)]
pub enum JobReport {
    /// The job succeeded: its id goes to the acknowledgement queue.
    Ack(String),
    /// The job failed.
    Failure { id: String, message: String, error_type: String },
}

/// Decides what is reported about the job `id`.
pub fn handle_job(id: String, outcome: Result<(), HandlerError>) -> (r: JobReport)
    ensures
        r == match outcome {
            Ok(_) => JobReport::Ack(id),
            Err(e) => JobReport::Failure { id, message: e.message, error_type: e.error_type },
        },
{
    match outcome {
        Ok(_) => JobReport::Ack(id),
        Err(e) => JobReport::Failure { id, message: e.message, error_type: e.error_type },
    }
}

/// Where the acknowledgement processor stands.
#[derive(Debug, Clone, Copy, PartialEq, Eq, Structural)]
pub enum AckPhase {
    /// Waiting for an id, or for the queue to close.
    Idle,
    /// Taking whatever else is in the queue right now.
    Collecting,
    /// Sending the batch.
    Sending,
    /// Waiting before the batch is sent again.
    Sleeping,
    /// The queue is closed and everything was sent.
    Stopped,
}

/// Something that the processor waited for.
#[derive(Debug)]
pub enum AckEvent {
    /// An id came out of the queue.
    Got(String),
    /// Nothing is in the queue right now.
    Empty,
    /// The queue is closed.
    Closed,
    /// The server answered.
    Sent(Result<(), ZizqError>),
    /// The wait is over.
    Elapsed,
}

/// State of the acknowledgement processor.
#[derive(Debug)]
pub struct AckState {
    pub phase: AckPhase,
    /// The ids that are being acknowledged, in order of arrival.
    pub batch: Vec<String>,
    pub reporter: Reporter,
    /// The wait that is due, while sleeping.
    pub wait: Duration,
}

/// Model of [`AckState`].
pub struct AckModel {
    pub phase: AckPhase,
    pub batch: Seq<Seq<char>>,
    pub backoff: Duration,
    pub wait: Duration,
}

/// Model of [`AckEvent`].
pub enum AckInput {
    Got(Seq<char>),
    Empty,
    Closed,
    Sent(Result<(), ZizqError>),
    Elapsed,
}

impl View for AckEvent {
    type V = AckInput;

    open spec fn view(&self) -> AckInput {
        match *self {
            AckEvent::Got(id) => AckInput::Got(id@),
            AckEvent::Empty => AckInput::Empty,
            AckEvent::Closed => AckInput::Closed,
            AckEvent::Sent(outcome) => AckInput::Sent(outcome),
            AckEvent::Elapsed => AckInput::Elapsed,
        }
    }
}

impl AckModel {
    /// Whether the waits are in range and only an active batch holds ids.
    pub open spec fn wf(&self) -> bool {
        &&& backoff_in_range(self.backoff)
        &&& (self.phase == AckPhase::Idle || self.phase == AckPhase::Stopped) == (self.batch.len()
            == 0)
    }

    /// Whether `input` is one of those that the processor waits for.
    pub open spec fn expects(&self, input: AckInput) -> bool {
        match self.phase {
            AckPhase::Idle => input is Got || input is Closed,
            AckPhase::Collecting => input is Got || input is Empty,
            AckPhase::Sending => input is Sent,
            AckPhase::Sleeping => input is Elapsed,
            AckPhase::Stopped => false,
        }
    }

    /// The state after `input`.
    pub open spec fn after(self, input: AckInput) -> AckModel {
        match input {
            AckInput::Got(id) => AckModel {
                phase: AckPhase::Collecting,
                batch: self.batch.push(id),
                ..self
            },
            AckInput::Closed => AckModel { phase: AckPhase::Stopped, ..self },
            AckInput::Empty => AckModel {
                phase: AckPhase::Sending,
                backoff: Duration { nanos: INITIAL_BACKOFF },
                ..self
            },
            AckInput::Sent(outcome) => match report_action(outcome, self.backoff) {
                ReportAction::RetryAfter(wait) => AckModel {
                    phase: AckPhase::Sleeping,
                    backoff: doubled(self.backoff),
                    wait,
                    ..self
                },
                _ => AckModel { phase: AckPhase::Idle, batch: Seq::empty(), ..self },
            },
            AckInput::Elapsed => AckModel { phase: AckPhase::Sending, ..self },
        }
    }
}

impl View for AckState {
    type V = AckModel;

    open spec fn view(&self) -> AckModel {
        AckModel {
            phase: self.phase,
            batch: texts(self.batch@),
            backoff: self.reporter.backoff,
            wait: self.wait,
        }
    }
}

impl AckState {
    /// The state of a processor that has not started.
    pub fn new() -> (r: AckState)
        ensures
            r@.wf(),
            r@ == (AckModel {
                phase: AckPhase::Idle,
                batch: Seq::empty(),
                backoff: Duration { nanos: INITIAL_BACKOFF },
                wait: Duration { nanos: INITIAL_BACKOFF },
            }),
    {
        let r = AckState {
            phase: AckPhase::Idle,
            batch: Vec::new(),
            reporter: Reporter::new(),
            wait: Duration { nanos: INITIAL_BACKOFF },
        };
        assert(r@.batch =~= Seq::empty());
        r
    }

    /// Takes one event that the processor waited for.
    pub fn step(&mut self, event: AckEvent)
        requires
            old(self)@.wf(),
            old(self)@.expects(event@),
        ensures
            final(self)@.wf(),
            final(self)@ == old(self)@.after(event@),
    {
        match event {
            AckEvent::Got(id) => {
                let ghost name = id@;
                self.batch.push(id);
                self.phase = AckPhase::Collecting;
                assert(texts(self.batch@) =~= old(self)@.batch.push(name));
            },
            AckEvent::Closed => {
                self.phase = AckPhase::Stopped;
            },
            AckEvent::Empty => {
                self.reporter = Reporter::new();
                self.phase = AckPhase::Sending;
            },
            AckEvent::Sent(outcome) => {
                match self.reporter.settle(&outcome) {
                    ReportAction::RetryAfter(wait) => {
                        self.wait = wait;
                        self.phase = AckPhase::Sleeping;
                    },
                    _ => {
                        self.batch = Vec::new();
                        self.phase = AckPhase::Idle;
                        assert(texts(self.batch@) =~= Seq::empty());
                    },
                }
            },
            AckEvent::Elapsed => {
                self.phase = AckPhase::Sending;
            },
        }
    }
}

/// The state after the ids `ids` came out of the queue, one by one.
pub open spec fn after_ids(s: AckModel, ids: Seq<Seq<char>>) -> AckModel
    decreases ids.len(),
{
    if ids.len() == 0 {
        s
    } else {
        after_ids(s, ids.drop_last()).after(AckInput::Got(ids.last()))
    }
}

/// A batch is made of exactly the ids that arrived since the last one, in
/// order of arrival.
pub proof fn law_batch_is_what_arrived(s: AckModel, ids: Seq<Seq<char>>)
    requires
        s.wf(),
        s.phase == AckPhase::Idle,
        ids.len() > 0,
    ensures
        after_ids(s, ids).phase == AckPhase::Collecting,
        after_ids(s, ids).after(AckInput::Empty).phase == AckPhase::Sending,
        after_ids(s, ids).after(AckInput::Empty).batch == ids,
    decreases ids.len(),
{
    assert(ids =~= ids.drop_last().push(ids.last()));
    if ids.len() > 1 {
        law_batch_is_what_arrived(s, ids.drop_last());
    } else {
        assert(ids.drop_last() =~= Seq::empty());
        assert(s.batch =~= Seq::empty());
    }
}

/// A transient failure loses no id: after the wait the same batch is sent
/// again.
pub proof fn law_retry_sends_the_same_batch(s: AckModel, e: ZizqError)
    requires
        s.phase == AckPhase::Sending,
        e.retryable(),
    ensures
        s.after(AckInput::Sent(Err(e))).phase == AckPhase::Sleeping,
        s.after(AckInput::Sent(Err(e))).wait == s.backoff,
        s.after(AckInput::Sent(Err(e))).after(AckInput::Elapsed).phase == AckPhase::Sending,
        s.after(AckInput::Sent(Err(e))).after(AckInput::Elapsed).batch == s.batch,
        s.after(AckInput::Sent(Err(e))).after(AckInput::Elapsed).backoff == doubled(s.backoff),
{
}

/// The processor only stops with nothing left to send.
pub proof fn law_stops_with_nothing_pending(s: AckModel, input: AckInput)
    requires
        s.wf(),
        s.expects(input),
        s.after(input).phase == AckPhase::Stopped,
    ensures
        s.batch.len() == 0,
        s.after(input).batch.len() == 0,
{
}

/// An id only leaves the processor when the server has its batch or will
/// never take it.
pub proof fn law_ids_leave_only_when_settled(s: AckModel, input: AckInput, k: int)
    requires
        s.wf(),
        s.expects(input),
        0 <= k < s.batch.len(),
    ensures
        (k < s.after(input).batch.len() && s.after(input).batch[k] == s.batch[k]) || (
        input matches AckInput::Sent(outcome) && (outcome matches Err(e) ==> !e.retryable())),
{
}

} // verus!
