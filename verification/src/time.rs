//! Logical time for the control loop.

use crate::watering::ds::{saturate, saturate_i128};
use vstd::prelude::*;

verus! {

/// A source of the current time as a Unix UTC timestamp. The loop reads the
/// time from it once per pass and asks it to move on by a second at the end.
pub trait TimeProvider {
    /// The time that the provider shows.
    spec fn time(&self) -> int;

    /// The current time.
    fn now(&self) -> (r: i64)
        ensures
            r == self.time(),
    ;

    /// Lets `seconds` pass.
    fn advance_time(&mut self, seconds: i64);

    /// Sets the time, where the provider's time can be set.
    fn set(&mut self, new_time: i64);
}

/// A clock that shows the time it was given and moves only when told to.
#[derive(Debug)]
pub struct MockTimeProvider {
    current_time: i64,
}

impl MockTimeProvider {
    pub fn new(start_time: i64) -> (r: Self)
        ensures
            r.time() == start_time,
    {
        Self { current_time: start_time }
    }
}

impl TimeProvider for MockTimeProvider {
    closed spec fn time(&self) -> int {
        self.current_time as int
    }

    fn now(&self) -> (r: i64) {
        self.current_time
    }

    /// Moves the clock on by `seconds`; it stops at the ends of the range of
    /// timestamps.
    fn advance_time(&mut self, seconds: i64)
        ensures
            final(self).time() == saturate(old(self).time() + seconds),
    {
        self.current_time = saturate_i128(self.current_time as i128 + seconds as i128);
    }

    fn set(&mut self, new_time: i64)
        ensures
            final(self).time() == new_time,
    {
        self.current_time = new_time;
    }
}

} // verus!
