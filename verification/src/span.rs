//! The span of time that the duration text stands for.

use vstd::prelude::*;

verus! {

/// The length of a year of 365 days, in seconds.
pub const YEAR_IN_SECONDS: i64 = 31_536_000;

/// A twelfth of a year, in seconds.
pub const MONTH_IN_SECONDS: i64 = 2_628_000;

/// Seven days, in seconds.
pub const WEEK_IN_SECONDS: i64 = 604_800;

/// A day, in seconds.
pub const DAY_IN_SECONDS: i64 = 86_400;

/// An hour, in seconds.
pub const HOUR_IN_SECONDS: i64 = 3_600;

/// A minute, in seconds.
pub const MINUTE_IN_SECONDS: i64 = 60;

/// The nanoseconds of one second.
pub const NANOS_PER_SECOND: u32 = 1_000_000_000;

/// The greatest count of whole seconds of a span: `i64::MAX` milliseconds,
/// rounded towards zero.
pub const MAX_SECONDS: i64 = 9_223_372_036_854_775;

/// The least count of whole seconds of a span.
pub const MIN_SECONDS: i64 = -9_223_372_036_854_776;

/// The greatest fraction that goes with `MAX_SECONDS`.
pub const MAX_SECONDS_NANOS: u32 = 807_000_000;

/// The least fraction that goes with `MIN_SECONDS`.
pub const MIN_SECONDS_NANOS: u32 = 193_000_000;

/// A span of time as mathematics sees it: whole seconds, which carry the
/// sign, and a fraction of a second in nanoseconds, which carries none.
pub ghost struct SpanValue {
    pub seconds: int,
    pub nanos: int,
}

/// The pairs of seconds and nanoseconds that make a span: the fraction is
/// below one second, and the whole lies within `i64::MAX` milliseconds of
/// zero on either side.
pub open spec fn span_in_range(seconds: int, nanos: int) -> bool {
    &&& MIN_SECONDS <= seconds <= MAX_SECONDS
    &&& 0 <= nanos < NANOS_PER_SECOND
    &&& !(seconds == MAX_SECONDS && nanos > MAX_SECONDS_NANOS)
    &&& !(seconds == MIN_SECONDS && nanos < MIN_SECONDS_NANOS)
}

/// Whether `chrono::TimeDelta::new` makes a value of the pair. It returns
/// `None` when the seconds lie outside the bounds of a `TimeDelta`, when the
/// nanoseconds reach one second, or when the pair lies beyond `i64::MAX`
/// milliseconds at either bound; the contract repeats those tests.
#[verifier::external_body]
fn delta_accepts(seconds: i64, nanos: u32) -> (ok: bool)
    ensures
        ok == span_in_range(seconds as int, nanos as int),
{
    chrono::TimeDelta::new(seconds, nanos).is_some()
}

/// A signed span of time: a count of whole seconds, which carries the sign,
/// and the magnitude of the fraction of a second, in nanoseconds.
#[derive(Clone, Copy, Debug, PartialEq, Eq, Structural)]
pub struct TimeSpan {
    seconds: i64,
    nanos: u32,
}

impl View for TimeSpan {
    type V = SpanValue;

    closed spec fn view(&self) -> SpanValue {
        SpanValue { seconds: self.seconds as int, nanos: self.nanos as int }
    }
}

impl TimeSpan {
    #[verifier::type_invariant]
    spec fn well_formed(self) -> bool {
        span_in_range(self.seconds as int, self.nanos as int)
    }

    /// The span of `seconds` and `nanos`, where the pair lies in range.
    pub fn new(seconds: i64, nanos: u32) -> (made: Option<Self>)
        ensures
            made is Some <==> span_in_range(seconds as int, nanos as int),
            made is Some ==> made.unwrap()@ == (SpanValue {
                seconds: seconds as int,
                nanos: nanos as int,
            }),
    {
        if delta_accepts(seconds, nanos) {
            Some(TimeSpan { seconds, nanos })
        } else {
            None
        }
    }

    /// The whole seconds, with the sign of the span.
    pub fn num_seconds(&self) -> (seconds: i64)
        ensures
            seconds == self@.seconds,
            MIN_SECONDS <= seconds <= MAX_SECONDS,
    {
        proof {
            use_type_invariant(self);
        }
        self.seconds
    }

    /// The magnitude of the fraction of a second, in nanoseconds.
    pub fn subsec_nanos(&self) -> (nanos: u32)
        ensures
            nanos == self@.nanos,
            nanos < NANOS_PER_SECOND,
    {
        proof {
            use_type_invariant(self);
        }
        self.nanos
    }
}

} // verus!
