//! Numeric and time ranges as query parameters.

use std::ops::{RangeFrom, RangeFull, RangeInclusive, RangeToInclusive};
use vstd::prelude::*;
use vstd::string::*;

verus! {

/// `std::ops::RangeFrom`, `a..`.
#[verifier::external_type_specification]
pub struct ExRangeFrom<Idx>(std::ops::RangeFrom<Idx>);

/// `std::ops::RangeToInclusive`, `..=b`.
#[verifier::external_type_specification]
pub struct ExRangeToInclusive<Idx>(std::ops::RangeToInclusive<Idx>);

/// `std::ops::RangeFull`, `..`.
#[verifier::external_type_specification]
pub struct ExRangeFull(std::ops::RangeFull);

/// `RangeInclusive::into_inner`: the two bounds of a range that was not
/// iterated to its end.
pub assume_specification<Idx>[ std::ops::RangeInclusive::<Idx>::into_inner ](
    range: std::ops::RangeInclusive<Idx>,
) -> (r: (Idx, Idx))
    ensures
        !range@.exhausted ==> r == (range@.start, range@.end),
;

/// A value, or a range of values, that a query selects.
#[derive(Debug, Clone, PartialEq, Eq)]
pub enum RangeFilter<T> {
    /// Exactly this value.
    Exact(T),
    /// From the first to the second, both counted in.
    Bounded(T, T),
    /// This value or more.
    AtLeast(T),
    /// This value or less.
    AtMost(T),
    /// Any value.
    Unbounded,
}

impl<T> From<RangeFrom<T>> for RangeFilter<T> {
    fn from(r: RangeFrom<T>) -> (f: RangeFilter<T>) {
        RangeFilter::AtLeast(r.start)
    }
}

impl<T> vstd::std_specs::convert::FromSpecImpl<RangeFrom<T>> for RangeFilter<T> {
    open spec fn obeys_from_spec() -> bool {
        true
    }

    open spec fn from_spec(r: RangeFrom<T>) -> RangeFilter<T> {
        RangeFilter::AtLeast(r.start)
    }
}

impl<T> From<RangeInclusive<T>> for RangeFilter<T> {
    fn from(r: RangeInclusive<T>) -> (f: RangeFilter<T>)
        ensures
            f is Bounded,
            !r@.exhausted ==> f == RangeFilter::Bounded(r@.start, r@.end),
    {
        let (start, end) = r.into_inner();
        RangeFilter::Bounded(start, end)
    }
}

impl<T> vstd::std_specs::convert::FromSpecImpl<RangeInclusive<T>> for RangeFilter<T> {
    open spec fn obeys_from_spec() -> bool {
        false
    }

    open spec fn from_spec(r: RangeInclusive<T>) -> RangeFilter<T> {
        RangeFilter::Bounded(r@.start, r@.end)
    }
}

impl<T> From<RangeToInclusive<T>> for RangeFilter<T> {
    fn from(r: RangeToInclusive<T>) -> (f: RangeFilter<T>) {
        RangeFilter::AtMost(r.end)
    }
}

impl<T> vstd::std_specs::convert::FromSpecImpl<RangeToInclusive<T>> for RangeFilter<T> {
    open spec fn obeys_from_spec() -> bool {
        true
    }

    open spec fn from_spec(r: RangeToInclusive<T>) -> RangeFilter<T> {
        RangeFilter::AtMost(r.end)
    }
}

impl<T> From<RangeFull> for RangeFilter<T> {
    fn from(r: RangeFull) -> (f: RangeFilter<T>) {
        RangeFilter::Unbounded
    }
}

impl<T> vstd::std_specs::convert::FromSpecImpl<RangeFull> for RangeFilter<T> {
    open spec fn obeys_from_spec() -> bool {
        true
    }

    open spec fn from_spec(r: RangeFull) -> RangeFilter<T> {
        RangeFilter::Unbounded
    }
}

impl From<u16> for RangeFilter<u16> {
    fn from(v: u16) -> (f: RangeFilter<u16>) {
        RangeFilter::Exact(v)
    }
}

impl vstd::std_specs::convert::FromSpecImpl<u16> for RangeFilter<u16> {
    open spec fn obeys_from_spec() -> bool {
        true
    }

    open spec fn from_spec(v: u16) -> RangeFilter<u16> {
        RangeFilter::Exact(v)
    }
}

impl From<u32> for RangeFilter<u32> {
    fn from(v: u32) -> (f: RangeFilter<u32>) {
        RangeFilter::Exact(v)
    }
}

impl vstd::std_specs::convert::FromSpecImpl<u32> for RangeFilter<u32> {
    open spec fn obeys_from_spec() -> bool {
        true
    }

    open spec fn from_spec(v: u32) -> RangeFilter<u32> {
        RangeFilter::Exact(v)
    }
}

impl From<u64> for RangeFilter<u64> {
    fn from(v: u64) -> (f: RangeFilter<u64>) {
        RangeFilter::Exact(v)
    }
}

impl vstd::std_specs::convert::FromSpecImpl<u64> for RangeFilter<u64> {
    open spec fn obeys_from_spec() -> bool {
        true
    }

    open spec fn from_spec(v: u64) -> RangeFilter<u64> {
        RangeFilter::Exact(v)
    }
}

impl<T> RangeFilter<T> {
    /// Whether `v` is a bound of this filter.
    pub open spec fn bounded_by(self, v: T) -> bool {
        match self {
            RangeFilter::Exact(a) => v == a,
            RangeFilter::Bounded(a, b) => v == a || v == b,
            RangeFilter::AtLeast(a) => v == a,
            RangeFilter::AtMost(b) => v == b,
            RangeFilter::Unbounded => false,
        }
    }

    /// Whether `text` is this filter as a query value, bounds rendered by
    /// `to_str`.
    pub open spec fn encodes_to<F: Fn(&T) -> String>(self, to_str: F, text: Seq<char>) -> bool {
        match self {
            RangeFilter::Exact(v) => exists|x: String| #[trigger]
                call_ensures(to_str, (&v,), x) && text == x@,
            RangeFilter::Bounded(a, b) => exists|x: String, y: String| #[trigger]
                call_ensures(to_str, (&a,), x) && #[trigger] call_ensures(to_str, (&b,), y) && text
                    == x@ + ".."@ + y@,
            RangeFilter::AtLeast(a) => exists|x: String| #[trigger]
                call_ensures(to_str, (&a,), x) && text == x@ + ".."@,
            RangeFilter::AtMost(b) => exists|y: String| #[trigger]
                call_ensures(to_str, (&b,), y) && text == ".."@ + y@,
            RangeFilter::Unbounded => text == ".."@,
        }
    }

    /// This filter as a query value, bounds rendered by `to_str`: `n`,
    /// `a..b`, `a..`, `..b` or `..`.
    pub fn encode<F: Fn(&T) -> String>(&self, to_str: F) -> (r: String)
        requires
            forall|v: &T| self.bounded_by(*v) ==> #[trigger] call_requires(to_str, (v,)),
        ensures
            self.encodes_to(to_str, r@),
    {
        match self {
            RangeFilter::Exact(v) => to_str(v),
            RangeFilter::Bounded(a, b) => {
                let x = to_str(a);
                let y = to_str(b);
                let mut out = x.clone();
                out.append("..");
                out.append(y.as_str());
                out
            },
            RangeFilter::AtLeast(a) => {
                let x = to_str(a);
                let mut out = x.clone();
                out.append("..");
                out
            },
            RangeFilter::AtMost(b) => {
                let y = to_str(b);
                let mut out = "..".to_owned();
                out.append(y.as_str());
                out
            },
            RangeFilter::Unbounded => "..".to_owned(),
        }
    }
}

} // verus!
