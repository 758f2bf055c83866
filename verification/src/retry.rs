//! Exponential backoff, and when a report to the server is sent again.

use vstd::prelude::*;
use crate::duration::{Duration, MAX_NANOS};
use crate::error::ZizqError;

verus! {

/// The first wait, in nanoseconds: half a second.
pub const INITIAL_BACKOFF: u128 = 500_000_000;

/// The longest wait, in nanoseconds: thirty seconds.
pub const MAX_BACKOFF: u128 = 30_000_000_000;

/// The wait after one of `current`.
pub open spec fn doubled(current: Duration) -> Duration {
    if 2 * current.nanos < MAX_BACKOFF {
        Duration { nanos: (2 * current.nanos) as u128 }
    } else {
        Duration { nanos: MAX_BACKOFF }
    }
}

/// The wait after one of `current`: twice as long, but never more than
/// [`MAX_BACKOFF`].
pub fn next_backoff(current: Duration) -> (r: Duration)
    requires
        2 * current.nanos <= MAX_NANOS,
    ensures
        r == doubled(current),
{
    let twice: u128 = current.nanos * 2;
    if twice < MAX_BACKOFF {
        Duration { nanos: twice }
    } else {
        Duration { nanos: MAX_BACKOFF }
    }
}

/// The wait after `n` failures in a row.
pub open spec fn backoff_after(n: nat) -> Duration
    decreases n,
{
    if n == 0 {
        Duration { nanos: INITIAL_BACKOFF }
    } else {
        doubled(backoff_after((n - 1) as nat))
    }
}

/// Waits start at half a second, never shrink while failures go on, and
/// never exceed thirty seconds; from the seventh wait on they are thirty
/// seconds.
pub proof fn law_backoff_bounds(n: nat)
    ensures
        INITIAL_BACKOFF <= backoff_after(n).nanos <= MAX_BACKOFF,
        backoff_after(n).nanos <= backoff_after(n + 1).nanos,
        n >= 6 ==> backoff_after(n).nanos == MAX_BACKOFF,
    decreases n,
{
    reveal_with_fuel(backoff_after, 8);
    if n > 0 {
        law_backoff_bounds((n - 1) as nat);
    }
}

/// Whether a wait is one that repeated doubling can reach.
pub open spec fn backoff_in_range(d: Duration) -> bool {
    INITIAL_BACKOFF <= d.nanos <= MAX_BACKOFF
}

/// What to do about a report that was sent to the server.
#[derive(Debug, Clone, Copy, PartialEq, Eq, Structural)]
pub enum ReportAction {
    /// The server has it.
    Done,
    /// The server will never take it: drop it.
    Drop,
    /// Send it again after the given wait.
    RetryAfter(Duration),
}

/// The retry state of one report.
#[derive(Debug, Clone, Copy, PartialEq, Eq, Structural)]
pub struct Reporter {
    /// The wait before the next attempt.
    pub backoff: Duration,
}

/// What follows from the outcome of an attempt, `backoff` being the wait
/// that is due.
pub open spec fn report_action(outcome: Result<(), ZizqError>, backoff: Duration) -> ReportAction {
    match outcome {
        Ok(_) => ReportAction::Done,
        Err(e) => if e.retryable() {
            ReportAction::RetryAfter(backoff)
        } else {
            ReportAction::Drop
        },
    }
}

impl Reporter {
    /// Whether the wait is in range.
    pub open spec fn wf(&self) -> bool {
        backoff_in_range(self.backoff)
    }

    /// The state of a report that was not sent yet.
    pub fn new() -> (r: Reporter)
        ensures
            r.backoff.nanos == INITIAL_BACKOFF,
            r.wf(),
    {
        Reporter { backoff: Duration { nanos: INITIAL_BACKOFF } }
    }

    /// Decides what follows from the outcome of an attempt. Transient
    /// errors are retried without end, each wait twice the one before;
    /// everything else ends the report.
    pub fn settle(&mut self, outcome: &Result<(), ZizqError>) -> (r: ReportAction)
        requires
            old(self).wf(),
        ensures
            final(self).wf(),
            r == report_action(*outcome, old(self).backoff),
            final(self).backoff == if r is RetryAfter {
                doubled(old(self).backoff)
            } else {
                old(self).backoff
            },
    {
        match outcome {
            Ok(_) => ReportAction::Done,
            Err(e) => if e.is_retryable() {
                let wait = self.backoff;
                self.backoff = next_backoff(wait);
                ReportAction::RetryAfter(wait)
            } else {
                ReportAction::Drop
            },
        }
    }
}

/// A report that the server rejects is dropped, never sent again.
pub proof fn law_rejected_report_is_dropped(e: ZizqError, backoff: Duration)
    requires
        e.status_in(400, 499),
    ensures
        report_action(Err(e), backoff) == ReportAction::Drop,
{
}

} // verus!
