//! Spans of time.

use vstd::prelude::*;

verus! {

/// The quotient of `a` by a positive `b`, rounded towards zero.
pub open spec fn div_towards_zero(a: int, b: int) -> int {
    if a >= 0 {
        a / b
    } else {
        -((-a) / b)
    }
}

/// A span of time in nanoseconds, negative or not.
///
/// It is held as a number of seconds and a number of nanoseconds from 0 to
/// 999,999,999 that is added to them, so that one and a half seconds before
/// zero are -2 seconds and 500,000,000 nanoseconds.
#[derive(Clone, Copy, Debug, PartialEq, Eq, Structural)]
pub struct Duration {
    secs: i64,
    nanos: i32,
}

impl Duration {
    #[verifier::type_invariant]
    spec fn well_formed(self) -> bool {
        0 <= self.nanos < 1_000_000_000
    }

    /// The span in nanoseconds.
    pub closed spec fn total_nanos(self) -> int {
        self.secs * 1_000_000_000 + self.nanos
    }

    /// The whole seconds of the span, rounded towards zero.
    pub open spec fn whole_seconds(self) -> int {
        div_towards_zero(self.total_nanos(), 1_000_000_000)
    }

    /// The whole days of the span, rounded towards zero.
    pub open spec fn whole_days(self) -> int {
        div_towards_zero(self.whole_seconds(), 86_400)
    }

    /// The span of `secs` seconds and `nanos` nanoseconds more, if `nanos` is
    /// less than a second.
    pub fn new(secs: i64, nanos: u32) -> (r: Option<Duration>)
        ensures
            match r {
                Some(span) => nanos < 1_000_000_000 && span.total_nanos() == secs * 1_000_000_000
                    + nanos,
                None => nanos >= 1_000_000_000,
            },
    {
        if nanos < 1_000_000_000 {
            Some(Duration { secs, nanos: nanos as i32 })
        } else {
            None
        }
    }

    /// The empty span.
    pub fn zero() -> (r: Duration)
        ensures
            r.total_nanos() == 0,
    {
        Duration { secs: 0, nanos: 0 }
    }

    /// The span of `seconds` seconds.
    pub fn seconds(seconds: i64) -> (r: Duration)
        ensures
            r.total_nanos() == seconds * 1_000_000_000,
            r.whole_seconds() == seconds,
    {
        Duration { secs: seconds, nanos: 0 }
    }

    /// The span of `days` days of 86,400 seconds.
    pub fn days(days: i64) -> (r: Duration)
        requires
            i64::MIN <= days * 86_400 <= i64::MAX,
        ensures
            r.total_nanos() == days * 86_400 * 1_000_000_000,
            r.whole_seconds() == days * 86_400,
            r.whole_days() == days,
    {
        Duration { secs: days * 86_400, nanos: 0 }
    }

    /// The span of `weeks` weeks of seven days.
    pub fn weeks(weeks: i64) -> (r: Duration)
        requires
            i64::MIN <= weeks * 604_800 <= i64::MAX,
        ensures
            r.total_nanos() == weeks * 604_800 * 1_000_000_000,
            r.whole_seconds() == weeks * 604_800,
            r.whole_days() == weeks * 7,
    {
        Duration { secs: weeks * 604_800, nanos: 0 }
    }

    /// The whole seconds of the span, rounded towards zero.
    pub fn num_seconds(&self) -> (r: i64)
        ensures
            r == self.whole_seconds(),
    {
        proof {
            use_type_invariant(self);
        }
        if self.secs < 0 && self.nanos > 0 {
            self.secs + 1
        } else {
            self.secs
        }
    }

    /// The nanoseconds that the span holds beyond its whole seconds; negative
    /// in a negative span.
    pub fn subsec_nanos(&self) -> (r: i32)
        ensures
            r == self.total_nanos() - self.whole_seconds() * 1_000_000_000,
    {
        proof {
            use_type_invariant(self);
        }
        if self.secs < 0 && self.nanos > 0 {
            self.nanos - 1_000_000_000
        } else {
            self.nanos
        }
    }

    /// The whole days of the span, rounded towards zero.
    pub fn num_days(&self) -> (r: i64)
        ensures
            r == self.whole_days(),
    {
        self.num_seconds() / 86_400
    }

    /// Whether the span is shorter than `other`.
    pub fn is_less_than(&self, other: &Duration) -> (r: bool)
        ensures
            r == (self.total_nanos() < other.total_nanos()),
    {
        proof {
            use_type_invariant(self);
            use_type_invariant(other);
        }
        self.secs < other.secs || (self.secs == other.secs && self.nanos < other.nanos)
    }

    /// Whether the span is negative.
    pub fn is_negative(&self) -> (r: bool)
        ensures
            r == (self.total_nanos() < 0),
    {
        proof {
            use_type_invariant(self);
        }
        self.secs < 0
    }
}

} // verus!
