//! Plain-value model of points in time and spans of time, with millisecond
//! resolution. The process clock lives outside the library; every entry point
//! takes the current time as an argument.

use vstd::prelude::*;

verus! {

/// A span of time in whole milliseconds.
#[derive(Clone, Copy, PartialEq, Eq, Structural, Debug)]
pub struct Duration {
    pub millis: u64,
}

impl Duration {
    pub fn from_millis(millis: u64) -> (r: Duration)
        ensures
            r.millis == millis,
    {
        Duration { millis }
    }

    pub fn from_secs(secs: u64) -> (r: Duration)
        requires
            secs * 1000 <= u64::MAX,
        ensures
            r.millis == secs * 1000,
    {
        Duration { millis: secs * 1000 }
    }

    pub fn zero() -> (r: Duration)
        ensures
            r.millis == 0,
    {
        Duration { millis: 0 }
    }

    pub fn as_secs(&self) -> (r: u64)
        ensures
            r == self.millis / 1000,
    {
        self.millis / 1000
    }

    pub fn as_millis(&self) -> (r: u64)
        ensures
            r == self.millis,
    {
        self.millis
    }
}

/// A point in time, measured as whole milliseconds since an arbitrary
/// process-local origin (a steady clock, not a calendar).
#[derive(Clone, Copy, PartialEq, Eq, Structural, Debug)]
pub struct Timestamp {
    pub millis: u64,
}

impl Timestamp {
    pub fn from_millis(millis: u64) -> (r: Timestamp)
        ensures
            r.millis == millis,
    {
        Timestamp { millis }
    }

    pub fn new_test_instance() -> (r: Timestamp)
        ensures
            r.millis == 1_000_000,
    {
        Timestamp { millis: 1_000_000 }
    }

    pub fn plus(&self, d: Duration) -> (r: Timestamp)
        requires
            self.millis + d.millis <= u64::MAX,
        ensures
            r.millis == self.millis + d.millis,
    {
        Timestamp { millis: self.millis + d.millis }
    }

    /// The span from `earlier` up to `self`; zero when `earlier` lies ahead.
    pub fn since(&self, earlier: Timestamp) -> (r: Duration)
        ensures
            r.millis == if earlier.millis <= self.millis {
                self.millis - earlier.millis
            } else {
                0
            },
    {
        if earlier.millis <= self.millis {
            Duration { millis: self.millis - earlier.millis }
        } else {
            Duration { millis: 0 }
        }
    }

    pub fn is_at_or_after(&self, other: Timestamp) -> (r: bool)
        ensures
            r == (self.millis >= other.millis),
    {
        self.millis >= other.millis
    }
}

} // verus!
