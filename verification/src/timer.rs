//! One counter: an event count and a running total.

use vstd::prelude::*;
use crate::status::Status;

verus! {

/// One counter. It starts at zero and only ever moves by [`Timer::add`].
pub struct Timer {
    count: u64,
    total: u64,
}

impl View for Timer {
    type V = Status;

    /// What the counter holds.
    closed spec fn view(&self) -> Status {
        Status { count: self.count, total: self.total }
    }
}

impl Default for Timer {
    /// A counter that has recorded nothing.
    fn default() -> (timer: Timer)
        ensures
            timer@ == Status::zero(),
    {
        Timer { count: 0, total: 0 }
    }
}

impl Timer {
    /// Records one event of size `amount`: the count rises by one and the
    /// total by `amount`, whatever the amount is, zero included. Each cell
    /// wraps around on overflow.
    pub fn add(&mut self, amount: u64)
        ensures
            final(self)@ == old(self)@.recorded(amount),
    {
        self.count = self.count.wrapping_add(1);
        self.total = self.total.wrapping_add(amount);
    }

    /// Reads the counter. The counter is left as it was.
    pub fn status_nonatomic(&self) -> (status: Status)
        ensures
            status == self@,
    {
        Status { count: self.count, total: self.total }
    }
}

} // verus!
