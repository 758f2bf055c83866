//! Points in time and their millisecond form in the API.

use vstd::prelude::*;
use crate::duration::{Duration, NANOS_PER_MILLI};
use crate::range_filter::RangeFilter;

verus! {

/// The first point in time that UTC can name, in nanoseconds since the
/// Unix epoch: the start of the year -9999.
pub const EARLIEST: i128 = -377_705_116_800_000_000_000;

/// The last point in time that UTC can name, in nanoseconds since the Unix
/// epoch: the end of the year 9999.
pub const LATEST: i128 = 253_402_300_799_999_999_999;

/// The largest offset of a local time from UTC, in nanoseconds: one second
/// short of 26 hours.
pub const MAX_OFFSET: i128 = 93_599_000_000_000;

/// A point in time.
#[derive(Debug, Clone, Copy, PartialEq, Eq, Structural)]
pub struct Timestamp {
    /// Nanoseconds since the Unix epoch.
    pub nanos: i128,
}

impl Timestamp {
    /// Whether some local time names this point in time.
    pub open spec fn wf(&self) -> bool {
        EARLIEST - MAX_OFFSET <= self.nanos <= LATEST + MAX_OFFSET
    }

    /// Whether UTC names this point in time.
    pub open spec fn in_utc(&self) -> bool {
        EARLIEST <= self.nanos <= LATEST
    }

    /// Milliseconds since the Unix epoch, cut toward the epoch.
    pub open spec fn millis(&self) -> int {
        if self.nanos >= 0 {
            self.nanos as int / NANOS_PER_MILLI as int
        } else {
            -((-self.nanos) / NANOS_PER_MILLI as int)
        }
    }
}

/// The point in time as a Unix millisecond timestamp.
pub fn to_ms_epoch(t: Timestamp) -> (r: i64)
    requires
        t.wf(),
    ensures
        r == t.millis(),
{
    if t.nanos >= 0 {
        (t.nanos as u128 / NANOS_PER_MILLI) as i64
    } else {
        let magnitude: u128 = (-t.nanos) as u128 / NANOS_PER_MILLI;
        -(magnitude as i64)
    }
}

/// Whether UTC can name the point `d` after `now`.
pub open spec fn reachable(now: Timestamp, d: Duration) -> bool {
    now.nanos + d.nanos <= LATEST
}

/// Whether UTC can name the point `d` after `now`.
pub fn can_reach(now: Timestamp, d: Duration) -> (r: bool)
    requires
        now.in_utc(),
    ensures
        r == reachable(now, d),
{
    let room: u128 = (LATEST - now.nanos) as u128;
    d.nanos <= room
}

/// The point in time `d` after `now`.
pub fn after(now: Timestamp, d: Duration) -> (r: Timestamp)
    requires
        now.in_utc(),
        reachable(now, d),
    ensures
        r.in_utc(),
        r.nanos == now.nanos + d.nanos,
{
    Timestamp { nanos: now.nanos + d.nanos as i128 }
}

/// `time::OffsetDateTime::now_utc`, as nanoseconds since the Unix epoch:
/// some point in time that UTC can name.
#[verifier::external_body]
pub(crate) fn now() -> (r: Timestamp)
    ensures
        r.in_utc(),
{
    Timestamp { nanos: time::OffsetDateTime::now_utc().unix_timestamp_nanos() }
}

impl From<Timestamp> for RangeFilter<Timestamp> {
    fn from(v: Timestamp) -> (f: RangeFilter<Timestamp>) {
        RangeFilter::Exact(v)
    }
}

impl vstd::std_specs::convert::FromSpecImpl<Timestamp> for RangeFilter<Timestamp> {
    open spec fn obeys_from_spec() -> bool {
        true
    }

    open spec fn from_spec(v: Timestamp) -> RangeFilter<Timestamp> {
        RangeFilter::Exact(v)
    }
}

/// Later points in time never have earlier timestamps.
pub proof fn law_millis_keep_order(a: Timestamp, b: Timestamp)
    requires
        a.nanos <= b.nanos,
    ensures
        a.millis() <= b.millis(),
{
}

} // verus!
