//! Spans of time.

use vstd::prelude::*;

verus! {

/// A span of time, to the nanosecond.
#[derive(Clone, Copy, Debug, PartialEq, Eq, Structural)]
pub struct Duration {
    secs: u64,
    nanos: u32,
}

impl Duration {
    /// The span of `secs` seconds and `nanos` nanoseconds.
    pub closed spec fn of(secs: u64, nanos: u32) -> Duration {
        Duration { secs, nanos }
    }

    #[verifier::type_invariant]
    spec fn is_normal(self) -> bool {
        self.nanos < 1_000_000_000
    }

    /// How many whole seconds the span holds.
    pub closed spec fn whole_seconds(self) -> nat {
        self.secs as nat
    }

    /// How many nanoseconds the span holds beyond its whole seconds.
    pub closed spec fn extra_nanos(self) -> nat {
        self.nanos as nat
    }

    /// How many nanoseconds the span holds.
    pub open spec fn total_nanos(self) -> nat {
        self.whole_seconds() * 1_000_000_000 + self.extra_nanos()
    }

    /// How many whole milliseconds the span holds.
    pub open spec fn total_millis(self) -> nat {
        self.whole_seconds() * 1_000 + self.extra_nanos() / 1_000_000
    }

    pub fn from_secs(secs: u64) -> (result: Duration)
        ensures
            result == Duration::of(secs, 0),
            result.total_nanos() == secs * 1_000_000_000,
    {
        Duration { secs, nanos: 0 }
    }

    pub fn from_millis(millis: u64) -> (result: Duration)
        ensures
            result == Duration::of(millis / 1_000, ((millis % 1_000) * 1_000_000) as u32),
            result.total_nanos() == millis * 1_000_000,
            result.total_millis() == millis,
    {
        Duration { secs: millis / 1_000, nanos: (millis % 1_000) as u32 * 1_000_000 }
    }

    pub fn as_secs(&self) -> (result: u64)
        ensures
            result == self.whole_seconds(),
    {
        self.secs
    }

    pub fn as_millis(&self) -> (result: u128)
        ensures
            result == self.total_millis(),
    {
        self.secs as u128 * 1_000 + self.nanos as u128 / 1_000_000
    }

    /// How much longer this span is than `earlier`; nothing, if it is shorter.
    pub fn saturating_sub(self, earlier: Duration) -> (result: Duration)
        ensures
            result.total_nanos() == if earlier.total_nanos() <= self.total_nanos() {
                (self.total_nanos() - earlier.total_nanos()) as nat
            } else {
                0
            },
            result.whole_seconds() == result.total_nanos() / 1_000_000_000,
    {
        proof {
            use_type_invariant(&self);
            use_type_invariant(&earlier);
        }
        if self.secs < earlier.secs || (self.secs == earlier.secs && self.nanos < earlier.nanos) {
            Duration { secs: 0, nanos: 0 }
        } else if self.nanos >= earlier.nanos {
            Duration { secs: self.secs - earlier.secs, nanos: self.nanos - earlier.nanos }
        } else {
            Duration {
                secs: self.secs - earlier.secs - 1,
                nanos: self.nanos + 1_000_000_000 - earlier.nanos,
            }
        }
    }

    pub fn as_nanos(&self) -> (result: u128)
        ensures
            result == self.total_nanos(),
            result < 18_446_744_073_709_551_616_000_000_000,
    {
        proof {
            use_type_invariant(self);
        }
        self.secs as u128 * 1_000_000_000 + self.nanos as u128
    }
}

/// A span holds the seconds and the nanoseconds that it is made of.
pub proof fn law_spans_hold_what_they_are_made_of(secs: u64, nanos: u32)
    ensures
        Duration::of(secs, nanos).whole_seconds() == secs,
        Duration::of(secs, nanos).extra_nanos() == nanos,
        Duration::of(secs, nanos).total_nanos() == secs * 1_000_000_000 + nanos,
        Duration::of(secs, nanos).total_millis() == secs * 1_000 + nanos as nat / 1_000_000,
{
}

} // verus!
