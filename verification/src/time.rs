//! Points in time, and the whole seconds that lie between two of them.

use vstd::prelude::*;

verus! {

/// Smallest number of microseconds since the Unix epoch that a [`Timestamp`] holds.
pub const MIN_MICROS: i64 = -8_000_000_000_000_000_000;

/// Largest number of microseconds since the Unix epoch that a [`Timestamp`] holds.
pub const MAX_MICROS: i64 = 8_000_000_000_000_000_000;

/// Largest distance, in whole seconds, between two timestamps.
pub const MAX_SPAN_SECONDS: i64 = 16_000_000_000_000;

/// The number of whole seconds in a span of `micros` microseconds, rounded
/// towards zero.
pub open spec fn whole_seconds(micros: int) -> int {
    if micros >= 0 {
        micros / 1_000_000
    } else {
        -((-micros) / 1_000_000)
    }
}

/// A point in time with microsecond resolution, counted from the Unix epoch
/// and kept inside the range that a calendar date-time can represent.
#[derive(Clone, Copy, Debug)]
pub struct Timestamp {
    micros: i64,
}

impl View for Timestamp {
    type V = int;

    /// Microseconds since the Unix epoch.
    closed spec fn view(&self) -> int {
        self.micros as int
    }
}

impl Timestamp {
    /// Every timestamp lies in the range for which a calendar date-time
    /// exists.
    #[verifier::type_invariant]
    spec fn representable(self) -> bool {
        MIN_MICROS <= self.micros <= MAX_MICROS
    }

    /// True when the point lies inside the supported range, as every
    /// timestamp that a program holds does.
    pub open spec fn in_range(self) -> bool {
        MIN_MICROS <= self@ <= MAX_MICROS
    }

    /// The timestamp `micros` microseconds after the Unix epoch, or `None`
    /// when that point lies outside the supported range.
    pub fn from_micros(micros: i64) -> (r: Option<Timestamp>)
        ensures
            r is Some <==> MIN_MICROS <= micros <= MAX_MICROS,
            r matches Some(t) ==> t@ == micros && t.in_range(),
    {
        if MIN_MICROS <= micros && micros <= MAX_MICROS {
            Some(Timestamp { micros })
        } else {
            None
        }
    }

    /// Microseconds since the Unix epoch.
    pub fn micros(&self) -> (r: i64)
        ensures
            r == self@,
            self.in_range(),
    {
        proof {
            use_type_invariant(self);
        }
        self.micros
    }
}

/// The whole seconds from `earlier` to `later`, negative when `later` lies
/// before `earlier`.
///
/// Trusted: the body asks `chrono` for the difference. It turns both points
/// into `NaiveDateTime` values with `DateTime::from_timestamp_micros`, which
/// has a value for every point in range, takes
/// `NaiveDateTime::signed_duration_since` and reads `TimeDelta::num_seconds`,
/// which is the exact difference with the fraction of a second cut off
/// towards zero.
#[verifier::external_body]
fn chrono_seconds_between(later: Timestamp, earlier: Timestamp) -> (r: i64)
    requires
        later.in_range(),
        earlier.in_range(),
    ensures
        r == whole_seconds(later@ - earlier@),
{
    let a = chrono::DateTime::from_timestamp_micros(later.micros).unwrap().naive_utc();
    let b = chrono::DateTime::from_timestamp_micros(earlier.micros).unwrap().naive_utc();
    a.signed_duration_since(b).num_seconds()
}

/// The whole seconds between two timestamps stay within `MAX_SPAN_SECONDS`.
pub proof fn lemma_whole_seconds_bounded(a: int, b: int)
    requires
        MIN_MICROS <= a <= MAX_MICROS,
        MIN_MICROS <= b <= MAX_MICROS,
    ensures
        -MAX_SPAN_SECONDS <= whole_seconds(a - b) <= MAX_SPAN_SECONDS,
        a >= b ==> whole_seconds(a - b) >= 0,
        a <= b ==> whole_seconds(a - b) <= 0,
{
}

impl Timestamp {
    /// The whole seconds that have passed from `earlier` to `self`, rounded
    /// towards zero; negative when `self` lies before `earlier`.
    pub fn seconds_since(&self, earlier: &Timestamp) -> (r: i64)
        ensures
            r == whole_seconds(self@ - earlier@),
            -MAX_SPAN_SECONDS <= r <= MAX_SPAN_SECONDS,
    {
        proof {
            use_type_invariant(self);
            use_type_invariant(earlier);
            lemma_whole_seconds_bounded(self@, earlier@);
        }
        chrono_seconds_between(*self, *earlier)
    }
}

} // verus!
