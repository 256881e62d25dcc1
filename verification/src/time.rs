//! Instants and spans of time at nanosecond resolution.
//!
//! A [`DateTime`] is an instant in UTC between the first instant of the year
//! -262143 and the last of the year 262142; leap seconds are not distinguished.
//! A [`TimeDelta`] is a signed span of at most `i64::MAX` milliseconds.

use vstd::prelude::*;

verus! {

/// Nanoseconds in a second.
pub const NANOS_PER_SEC: u32 = 1_000_000_000;

/// First second that a [`DateTime`] can lie in, counted from 1970-01-01T00:00:00Z.
pub const MIN_SECS: i64 = -8_334_601_228_800;

/// Last second that a [`DateTime`] can lie in.
pub const MAX_SECS: i64 = 8_210_266_876_799;

/// Whether `t`, in nanoseconds since 1970-01-01T00:00:00Z, is an instant that a
/// [`DateTime`] can hold.
pub open spec fn representable(t: int) -> bool {
    MIN_SECS * 1_000_000_000 <= t < (MAX_SECS + 1) * 1_000_000_000
}

/// Whether a span of `d` nanoseconds is one that a [`TimeDelta`] can hold.
pub open spec fn delta_representable(d: int) -> bool {
    -(i64::MAX * 1_000_000) <= d <= i64::MAX * 1_000_000
}

/// An instant in UTC. Its view counts nanoseconds since 1970-01-01T00:00:00Z.
#[derive(Clone, Copy, Debug, PartialEq, Eq, PartialOrd, Ord)]
pub struct DateTime {
    secs: i64,
    nanos: u32,
}

/// A signed span of time. Its view counts nanoseconds.
#[derive(Clone, Copy, Debug, PartialEq, Eq, PartialOrd, Ord)]
pub struct TimeDelta {
    secs: i64,
    nanos: u32,
}

impl View for DateTime {
    type V = int;

    closed spec fn view(&self) -> int {
        self.secs * 1_000_000_000 + self.nanos
    }
}

impl View for TimeDelta {
    type V = int;

    closed spec fn view(&self) -> int {
        self.secs * 1_000_000_000 + self.nanos
    }
}

impl DateTime {
    #[verifier::type_invariant]
    spec fn inv(self) -> bool {
        &&& self.nanos < NANOS_PER_SEC
        &&& MIN_SECS <= self.secs <= MAX_SECS
    }

    /// The instant `nanos` nanoseconds into the second `secs`, where there is one.
    pub fn new(secs: i64, nanos: u32) -> (r: Option<DateTime>)
        ensures
            r is Some <==> nanos < NANOS_PER_SEC && MIN_SECS <= secs <= MAX_SECS,
            r is Some ==> r->0@ == secs * 1_000_000_000 + nanos,
    {
        if nanos < NANOS_PER_SEC && MIN_SECS <= secs && secs <= MAX_SECS {
            Some(DateTime { secs, nanos })
        } else {
            None
        }
    }

    /// The first instant there is.
    pub fn min_utc() -> (r: DateTime)
        ensures
            r@ == MIN_SECS * 1_000_000_000,
    {
        DateTime { secs: MIN_SECS, nanos: 0 }
    }

    /// The second this instant lies in.
    pub fn timestamp(self) -> (r: i64)
        ensures
            r == self@ / 1_000_000_000,
            MIN_SECS <= r <= MAX_SECS,
    {
        proof {
            use_type_invariant(&self);
        }
        self.secs
    }

    /// Nanoseconds since the start of that second.
    pub fn timestamp_subsec_nanos(self) -> (r: u32)
        ensures
            r == self@ % 1_000_000_000,
            r < NANOS_PER_SEC,
    {
        proof {
            use_type_invariant(&self);
        }
        self.nanos
    }

    /// Whether this instant comes before `other`.
    pub fn is_before(self, other: DateTime) -> (r: bool)
        ensures
            r == (self@ < other@),
    {
        proof {
            use_type_invariant(&self);
            use_type_invariant(&other);
        }
        self.secs < other.secs || (self.secs == other.secs && self.nanos < other.nanos)
    }

    /// The later of the two instants.
    pub fn max(self, other: DateTime) -> (r: DateTime)
        ensures
            r == (if self@ <= other@ {
                other
            } else {
                self
            }),
    {
        if other.is_before(self) {
            self
        } else {
            other
        }
    }

    /// The earlier of the two instants.
    pub fn min(self, other: DateTime) -> (r: DateTime)
        ensures
            r == (if other@ < self@ {
                other
            } else {
                self
            }),
    {
        if other.is_before(self) {
            other
        } else {
            self
        }
    }

    /// The instant `delta` later, where there is one.
    pub fn checked_add(self, delta: TimeDelta) -> (r: Option<DateTime>)
        ensures
            r is Some <==> representable(self@ + delta@),
            r is Some ==> r->0@ == self@ + delta@,
    {
        proof {
            use_type_invariant(&self);
            use_type_invariant(&delta);
        }
        let nanos: u32 = self.nanos + delta.nanos;
        if nanos >= NANOS_PER_SEC {
            DateTime::new(self.secs + delta.secs + 1, nanos - NANOS_PER_SEC)
        } else {
            DateTime::new(self.secs + delta.secs, nanos)
        }
    }

    /// The instant `delta` later.
    pub fn plus(self, delta: TimeDelta) -> (r: DateTime)
        requires
            representable(self@ + delta@),
        ensures
            r@ == self@ + delta@,
    {
        match self.checked_add(delta) {
            Some(t) => t,
            None => self,
        }
    }

    /// The span from `earlier` to this instant.
    pub fn signed_duration_since(self, earlier: DateTime) -> (r: TimeDelta)
        ensures
            r@ == self@ - earlier@,
    {
        proof {
            use_type_invariant(&self);
            use_type_invariant(&earlier);
        }
        if self.nanos >= earlier.nanos {
            TimeDelta { secs: self.secs - earlier.secs, nanos: self.nanos - earlier.nanos }
        } else {
            TimeDelta {
                secs: self.secs - earlier.secs - 1,
                nanos: self.nanos + NANOS_PER_SEC - earlier.nanos,
            }
        }
    }
}

impl TimeDelta {
    #[verifier::type_invariant]
    spec fn inv(self) -> bool {
        &&& self.nanos < NANOS_PER_SEC
        &&& delta_representable(self.secs * 1_000_000_000 + self.nanos)
    }

    /// The span of `secs` seconds and `nanos` nanoseconds, where there is one.
    pub fn new(secs: i64, nanos: u32) -> (r: Option<TimeDelta>)
        ensures
            r is Some <==> nanos < NANOS_PER_SEC && delta_representable(
                secs * 1_000_000_000 + nanos,
            ),
            r is Some ==> r->0@ == secs * 1_000_000_000 + nanos,
    {
        let max_secs: i64 = 9_223_372_036_854_775;
        if nanos < NANOS_PER_SEC && -max_secs - 1 <= secs && secs <= max_secs {
            let total: i128 = secs as i128 * 1_000_000_000 + nanos as i128;
            let limit: i128 = 9_223_372_036_854_775_807_000_000;
            if -limit <= total && total <= limit {
                return Some(TimeDelta { secs, nanos });
            }
        }
        None
    }

    /// The empty span.
    pub fn zero() -> (r: TimeDelta)
        ensures
            r@ == 0,
    {
        TimeDelta { secs: 0, nanos: 0 }
    }

    /// The span of an unsigned number of seconds and nanoseconds, where there is
    /// one.
    pub fn from_std(secs: u64, nanos: u32) -> (r: Option<TimeDelta>)
        ensures
            r is Some <==> nanos < NANOS_PER_SEC && delta_representable(
                secs * 1_000_000_000 + nanos,
            ),
            r is Some ==> r->0@ == secs * 1_000_000_000 + nanos,
    {
        if secs <= 9_223_372_036_854_775 {
            TimeDelta::new(secs as i64, nanos)
        } else {
            None
        }
    }

    /// Whole seconds in the span, rounded towards zero.
    pub fn num_seconds(self) -> (r: i64)
        ensures
            self@ >= 0 ==> r == self@ / 1_000_000_000,
            self@ < 0 ==> r == -((-self@) / 1_000_000_000),
    {
        proof {
            use_type_invariant(&self);
        }
        if self.secs < 0 && self.nanos > 0 {
            self.secs + 1
        } else {
            self.secs
        }
    }

    /// Nanoseconds in the span beyond its whole seconds, with the span's sign.
    pub fn subsec_nanos(self) -> (r: i32)
        ensures
            self@ >= 0 ==> r == self@ % 1_000_000_000,
            self@ < 0 ==> r == -((-self@) % 1_000_000_000),
    {
        proof {
            use_type_invariant(&self);
        }
        if self.secs < 0 && self.nanos > 0 {
            self.nanos as i32 - 1_000_000_000
        } else {
            self.nanos as i32
        }
    }
}

/// An instant is its seconds and nanoseconds, of the years from -262143 to 262142.
pub proof fn law_instant_is_its_seconds(secs: i64, nanos: u32, r: Option<DateTime>)
    requires
        call_ensures(DateTime::new, (secs, nanos), r),
    ensures
        r is Some <==> nanos < 1_000_000_000 && -8_334_601_228_800 <= secs <= 8_210_266_876_799,
        r is Some ==> r->0@ == secs * 1_000_000_000 + nanos,
{
}

/// A span leads from one instant to another, and the span between two instants is the one
/// that does; there is no instant after the last.
pub proof fn law_span_leads_to_the_instant(
    t: DateTime,
    d: TimeDelta,
    u: Option<DateTime>,
    back: TimeDelta,
)
    requires
        call_ensures(DateTime::checked_add, (t, d), u),
        u is Some,
        call_ensures(DateTime::signed_duration_since, (u->0, t), back),
    ensures
        u->0@ == t@ + d@,
        back@ == d@,
{
}

/// A sum is refused only where it is no instant.
pub proof fn law_sum_is_refused_beyond_the_last_instant(
    t: DateTime,
    d: TimeDelta,
    u: Option<DateTime>,
)
    requires
        call_ensures(DateTime::checked_add, (t, d), u),
    ensures
        u is Some <==> -8_334_601_228_800_000_000_000 <= t@ + d@ < 8_210_266_876_800_000_000_000,
{
}

/// Of two instants the later one is not before either, and the earlier one not after.
pub proof fn law_instants_are_ordered(
    a: DateTime,
    b: DateTime,
    later: DateTime,
    earlier: DateTime,
    before: bool,
)
    requires
        call_ensures(DateTime::max, (a, b), later),
        call_ensures(DateTime::min, (a, b), earlier),
        call_ensures(DateTime::is_before, (a, b), before),
    ensures
        later@ >= a@ && later@ >= b@ && (later == a || later == b),
        earlier@ <= a@ && earlier@ <= b@ && (earlier == a || earlier == b),
        before <==> a@ < b@,
{
}

/// The whole seconds and the nanoseconds of a span make it up, and those of an instant
/// too.
pub proof fn law_seconds_and_nanoseconds_make_up_the_whole(
    d: TimeDelta,
    secs: i64,
    nanos: i32,
    t: DateTime,
    at: i64,
    rest: u32,
)
    requires
        call_ensures(TimeDelta::num_seconds, (d,), secs),
        call_ensures(TimeDelta::subsec_nanos, (d,), nanos),
        call_ensures(DateTime::timestamp, (t,), at),
        call_ensures(DateTime::timestamp_subsec_nanos, (t,), rest),
    ensures
        d@ == secs * 1_000_000_000 + nanos,
        -1_000_000_000 < nanos < 1_000_000_000,
        d@ >= 0 ==> nanos >= 0,
        d@ <= 0 ==> nanos <= 0,
        t@ == at * 1_000_000_000 + rest,
        rest < 1_000_000_000,
{
}

/// A span can be held if it is at most as many milliseconds, either way, as 63 bits
/// count.
pub proof fn law_span_is_its_seconds(
    secs: i64,
    nanos: u32,
    r: Option<TimeDelta>,
    whole: u64,
    s: Option<TimeDelta>,
)
    requires
        call_ensures(TimeDelta::new, (secs, nanos), r),
        call_ensures(TimeDelta::from_std, (whole, nanos), s),
    ensures
        r is Some <==> nanos < 1_000_000_000 && -9_223_372_036_854_775_807_000_000 <= secs
            * 1_000_000_000 + nanos <= 9_223_372_036_854_775_807_000_000,
        r is Some ==> r->0@ == secs * 1_000_000_000 + nanos,
        s is Some <==> nanos < 1_000_000_000 && whole * 1_000_000_000 + nanos
            <= 9_223_372_036_854_775_807_000_000,
        s is Some ==> s->0@ == whole * 1_000_000_000 + nanos,
{
}

} // verus!
