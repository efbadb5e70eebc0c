//! Instants on the UTC time line.
use vstd::prelude::*;

verus! {

/// The number of nanoseconds in a second.
pub const NANOS_PER_SECOND: u32 = 1_000_000_000;

/// An instant: whole seconds since the Unix epoch and the nanoseconds past them.
#[derive(Clone, Copy, Debug, PartialEq, Eq, Structural, PartialOrd, Ord, Hash)]
pub struct Instant {
    pub seconds: i64,
    pub nanos: u32,
}

impl Instant {
    /// The nanoseconds part is below one second.
    pub open spec fn wf(&self) -> bool {
        self.nanos < NANOS_PER_SECOND
    }

    /// Nanoseconds since the epoch.
    pub open spec fn total_nanos(&self) -> int {
        self.seconds as int * NANOS_PER_SECOND as int + self.nanos as int
    }

    /// Milliseconds since the epoch, rounded down.
    pub open spec fn millis(&self) -> int {
        self.seconds as int * 1000 + self.nanos as int / 1_000_000
    }

    pub fn new(seconds: i64, nanos: u32) -> (r: Self)
        requires
            nanos < NANOS_PER_SECOND,
        ensures
            r.seconds == seconds,
            r.nanos == nanos,
            r.wf(),
    {
        Instant { seconds, nanos }
    }

    /// Milliseconds since the epoch, rounded down.
    pub fn timestamp_millis(&self) -> (r: i64)
        requires
            self.wf(),
            i64::MIN <= self.millis() <= i64::MAX,
        ensures
            r == self.millis(),
    {
        let ms = (self.seconds as i128) * 1000 + (self.nanos / 1_000_000) as i128;
        ms as i64
    }
}

} // verus!
