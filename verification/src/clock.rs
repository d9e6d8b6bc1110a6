//! The clock that the owned-record engine is handed, and one that is set by
//! hand.

use vstd::prelude::*;

verus! {

/// The source of timestamps. Its readings never decrease.
pub trait Clock {
    /// The latest reading that the clock has given; no later one is smaller.
    spec fn reading(&self) -> u64;

    /// The current timestamp.
    fn now(&mut self) -> (timestamp: u64)
        ensures
            timestamp >= old(self).reading(),
            final(self).reading() == timestamp,
    ;
}

/// A clock that is moved by hand, and only forward.
pub struct ManualClock {
    current: u64,
}

impl ManualClock {
    /// A clock that reads `start`.
    pub fn new(start: u64) -> (clock: Self)
        ensures
            clock.reading() == start,
    {
        ManualClock { current: start }
    }

    /// Moves the clock forward by `seconds`, stopping at the largest
    /// timestamp there is.
    pub fn advance(&mut self, seconds: u64)
        ensures
            final(self).reading() == if old(self).reading() + seconds <= u64::MAX {
                (old(self).reading() + seconds) as u64
            } else {
                u64::MAX
            },
    {
        self.current = self.current.saturating_add(seconds);
    }
}

impl Clock for ManualClock {
    closed spec fn reading(&self) -> u64 {
        self.current
    }

    fn now(&mut self) -> (timestamp: u64) {
        self.current
    }
}

} // verus!
