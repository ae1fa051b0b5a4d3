//! Points in time and spans of time, as whole seconds and nanoseconds.
//!
//! A point in time is counted from a start that the process chooses once; only
//! the distance between two points means anything.

use vstd::prelude::*;

verus! {

pub const NANOS_PER_SEC: u32 = 1_000_000_000;

/// A point in time.
#[derive(Clone, Copy, Debug, PartialEq, Eq, Structural)]
pub struct Timestamp {
    secs: u64,
    nanos: u32,
}

/// A span of time.
#[derive(Clone, Copy, Debug, PartialEq, Eq, Structural)]
pub struct Duration {
    secs: u64,
    nanos: u32,
}

/// The span between two counts of nanoseconds; zero where the first is the later one.
pub open spec fn spec_elapsed(earlier: int, later: int) -> int {
    if later >= earlier {
        later - earlier
    } else {
        0
    }
}

impl Timestamp {
    /// The point in time, in nanoseconds.
    pub closed spec fn view(&self) -> int {
        self.secs * 1_000_000_000 + self.nanos
    }

    #[verifier::type_invariant]
    closed spec fn inv(&self) -> bool {
        self.nanos < NANOS_PER_SEC
    }

    /// The point in time that lies the given seconds and nanoseconds after
    /// the start; `None` where the nanoseconds make a second or more.
    pub fn new(secs: u64, nanos: u32) -> (time: Option<Timestamp>)
        ensures
            time.is_some() == (nanos < NANOS_PER_SEC),
            time matches Some(t) ==> t@ == secs * 1_000_000_000 + nanos,
    {
        if nanos < NANOS_PER_SEC {
            Some(Timestamp { secs, nanos })
        } else {
            None
        }
    }

    /// The point in time from which the others are counted.
    pub fn origin() -> (time: Timestamp)
        ensures
            time@ == 0,
    {
        Timestamp { secs: 0, nanos: 0 }
    }

    /// The time that has passed since an earlier point; zero where the other
    /// point is in fact the later one.
    pub fn duration_since(&self, earlier: Timestamp) -> (elapsed: Duration)
        ensures
            elapsed@ == spec_elapsed(earlier@, self@),
    {
        proof {
            use_type_invariant(self);
            use_type_invariant(&earlier);
        }
        if self.secs < earlier.secs || (self.secs == earlier.secs && self.nanos < earlier.nanos) {
            Duration { secs: 0, nanos: 0 }
        } else if self.nanos >= earlier.nanos {
            Duration { secs: self.secs - earlier.secs, nanos: self.nanos - earlier.nanos }
        } else {
            Duration {
                secs: self.secs - earlier.secs - 1,
                nanos: self.nanos + NANOS_PER_SEC - earlier.nanos,
            }
        }
    }
}

impl Duration {
    /// The span, in nanoseconds.
    pub closed spec fn view(&self) -> int {
        self.secs * 1_000_000_000 + self.nanos
    }

    #[verifier::type_invariant]
    closed spec fn inv(&self) -> bool {
        self.nanos < NANOS_PER_SEC
    }

    /// The span of the given seconds and nanoseconds; `None` where the
    /// nanoseconds make a second or more.
    pub fn new(secs: u64, nanos: u32) -> (span: Option<Duration>)
        ensures
            span.is_some() == (nanos < NANOS_PER_SEC),
            span matches Some(d) ==> d@ == secs * 1_000_000_000 + nanos,
    {
        if nanos < NANOS_PER_SEC {
            Some(Duration { secs, nanos })
        } else {
            None
        }
    }

    /// The whole seconds of the span.
    pub fn as_secs(&self) -> (secs: u64)
        ensures
            secs == self@ / 1_000_000_000,
    {
        proof {
            use_type_invariant(self);
        }
        self.secs
    }

    /// The part of the span that is less than a second, in nanoseconds.
    pub fn subsec_nanos(&self) -> (nanos: u32)
        ensures
            nanos == self@ % 1_000_000_000,
            nanos < NANOS_PER_SEC,
    {
        proof {
            use_type_invariant(self);
        }
        self.nanos
    }
}

} // verus!
