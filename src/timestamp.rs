use vstd::prelude::*;

verus! {

/// The nanoseconds in one millisecond.
pub const NANOS_PER_MILLI: u64 = 1_000_000;

/// The nanoseconds in one second.
pub const NANOS_PER_SECOND: u64 = 1_000_000_000;

/// An absolute instant, in nanoseconds since a fixed epoch.
#[derive(Clone, Copy, Debug, PartialEq, Eq, Structural)]
pub struct Timestamp {
    pub nanos: u64,
}

impl Timestamp {
    /// The instant `nanos` nanoseconds after the epoch.
    pub fn from_nanos(nanos: u64) -> (r: Timestamp)
        ensures
            r.nanos == nanos,
    {
        Timestamp { nanos }
    }

    /// The last representable instant, used where nothing is pending.
    pub fn max() -> (r: Timestamp)
        ensures
            r.nanos == u64::MAX,
    {
        Timestamp { nanos: u64::MAX }
    }

    /// The time from `earlier` to `self`, absent when `earlier` comes later.
    pub fn duration_since(self, earlier: Timestamp) -> (r: Option<u64>)
        ensures
            r == (if earlier.nanos <= self.nanos {
                Some((self.nanos - earlier.nanos) as u64)
            } else {
                None::<u64>
            }),
    {
        if earlier.nanos <= self.nanos {
            Some(self.nanos - earlier.nanos)
        } else {
            None
        }
    }

    /// The instant `duration` nanoseconds later, or the last instant when that
    /// does not fit.
    pub fn saturating_add(self, duration: u64) -> (r: Timestamp)
        ensures
            r.nanos == (if self.nanos + duration > u64::MAX {
                u64::MAX as int
            } else {
                self.nanos + duration
            }),
    {
        Timestamp { nanos: self.nanos.saturating_add(duration) }
    }

    /// The earlier of two instants.
    pub fn earliest(self, other: Timestamp) -> (r: Timestamp)
        ensures
            r.nanos == (if self.nanos <= other.nanos {
                self.nanos
            } else {
                other.nanos
            }),
    {
        if self.nanos <= other.nanos {
            self
        } else {
            other
        }
    }
}

} // verus!
