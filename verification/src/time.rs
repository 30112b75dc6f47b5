//! Monotonic instants and durations in milliseconds.
//!
//! The engine never reads a clock itself: the host hands it the current
//! instant on every call.  Additions saturate so that every timer
//! computation is total; the saturation point is far beyond any realistic
//! uptime.

use vstd::prelude::*;

verus! {

/// A point on the host's monotonic clock, in milliseconds.
#[derive(Clone, Copy, Debug, PartialEq, Eq, Structural)]
pub struct Instant {
    pub millis: i64,
}

/// A span of time, in milliseconds.
#[derive(Clone, Copy, Debug, PartialEq, Eq, Structural)]
pub struct Duration {
    pub millis: u64,
}

/// The sum of an instant and a duration, saturating at the largest instant.
pub open spec fn spec_instant_plus(t: Instant, d: Duration) -> Instant
    recommends
        t.millis >= 0,
{
    if t.millis + d.millis <= i64::MAX {
        Instant { millis: (t.millis + d.millis) as i64 }
    } else {
        Instant { millis: i64::MAX }
    }
}

/// A duration shifted left (doubled `n` times), saturating.
pub open spec fn spec_dur_shl(d: Duration, n: nat) -> Duration
    decreases n,
{
    if n == 0 {
        d
    } else {
        let prev = spec_dur_shl(d, (n - 1) as nat);
        if prev.millis * 2 <= u64::MAX {
            Duration { millis: (prev.millis * 2) as u64 }
        } else {
            Duration { millis: u64::MAX }
        }
    }
}

impl Instant {
    /// An instant from a millisecond count.
    pub fn from_millis(millis: i64) -> (r: Instant)
        ensures
            r.millis == millis,
    {
        Instant { millis }
    }

    /// An instant from a second count.
    pub fn from_secs(secs: i64) -> (r: Instant)
        requires
            -0x20C49BA5E353F7i64 <= secs <= 0x20C49BA5E353F7i64,
        ensures
            r.millis == secs * 1000,
    {
        Instant { millis: secs * 1000 }
    }

    /// Instants are valid when non-negative: the clock counts up from the
    /// host's start.
    pub open spec fn wf(self) -> bool {
        self.millis >= 0
    }

    /// This instant advanced by a duration, saturating.
    pub fn plus(self, d: Duration) -> (r: Instant)
        requires
            self.wf(),
        ensures
            r == spec_instant_plus(self, d),
            r.wf(),
    {
        if d.millis <= (i64::MAX - self.millis) as u64 {
            Instant { millis: self.millis + d.millis as i64 }
        } else {
            Instant { millis: i64::MAX }
        }
    }

    /// The earlier of two instants.
    pub fn min(self, other: Instant) -> (r: Instant)
        ensures
            r.millis == if self.millis <= other.millis {
                self.millis
            } else {
                other.millis
            },
    {
        if self.millis <= other.millis {
            self
        } else {
            other
        }
    }

    /// The time from `earlier` to `self`.
    pub fn since(self, earlier: Instant) -> (r: Duration)
        requires
            earlier.wf(),
            earlier.millis <= self.millis,
        ensures
            r.millis == self.millis - earlier.millis,
    {
        Duration { millis: (self.millis - earlier.millis) as u64 }
    }
}

impl Duration {
    /// A duration from a millisecond count.
    pub fn from_millis(millis: u64) -> (r: Duration)
        ensures
            r.millis == millis,
    {
        Duration { millis }
    }

    /// A duration from a second count, saturating.
    pub fn from_secs(secs: u64) -> (r: Duration)
        ensures
            r.millis == if secs * 1000 <= u64::MAX {
                secs * 1000
            } else {
                u64::MAX as int
            },
    {
        if secs <= u64::MAX / 1000 {
            Duration { millis: secs * 1000 }
        } else {
            Duration { millis: u64::MAX }
        }
    }

    /// This duration doubled `n` times, saturating.
    pub fn shl(self, n: u32) -> (r: Duration)
        ensures
            r == spec_dur_shl(self, n as nat),
    {
        let mut m = self;
        let mut i: u32 = 0;
        while i < n
            invariant
                i <= n,
                m == spec_dur_shl(self, i as nat),
            decreases n - i,
        {
            if m.millis <= u64::MAX / 2 {
                m = Duration { millis: m.millis * 2 };
            } else {
                m = Duration { millis: u64::MAX };
            }
            i = i + 1;
        }
        m
    }

    /// The larger of two durations.
    pub fn max(self, other: Duration) -> (r: Duration)
        ensures
            r.millis == if self.millis >= other.millis {
                self.millis
            } else {
                other.millis
            },
    {
        if self.millis >= other.millis {
            self
        } else {
            other
        }
    }

    /// The smaller of two durations.
    pub fn min(self, other: Duration) -> (r: Duration)
        ensures
            r.millis == if self.millis <= other.millis {
                self.millis
            } else {
                other.millis
            },
    {
        if self.millis <= other.millis {
            self
        } else {
            other
        }
    }

    /// Half of this duration, rounded down.
    pub fn half(self) -> (r: Duration)
        ensures
            r.millis == self.millis / 2,
    {
        Duration { millis: self.millis / 2 }
    }
}

} // verus!
