use vstd::prelude::*;

verus! {

/// Number of polls after which a `CounterFuture` reports completion.
pub const READY_AFTER: i32 = 5;

/// A future that counts how often it has been polled and becomes ready on
/// the fifth poll.
pub struct CounterFuture {
    counter: i32,
}

/// Outcome of one poll of a `CounterFuture`.
#[derive(PartialEq, Eq, Structural, Clone, Copy, Debug)]
pub enum CounterPoll {
    Pending,
    Ready,
}

impl CounterFuture {
    pub closed spec fn count(&self) -> int {
        self.counter as int
    }

    pub fn new() -> (r: CounterFuture)
        ensures
            r.count() == 0,
    {
        CounterFuture { counter: 0 }
    }

    pub fn counter(&self) -> (r: i32)
        ensures
            r == self.count(),
    {
        self.counter
    }

    /// Records one poll: the count goes up by one, saturating at `i32::MAX`,
    /// and the future is ready once the count has reached `READY_AFTER`.
    pub fn poll_step(&mut self) -> (r: CounterPoll)
        ensures
            final(self).count() == if old(self).count() < i32::MAX { old(self).count() + 1 } else { old(self).count() },
            r == (if final(self).count() < READY_AFTER { CounterPoll::Pending } else { CounterPoll::Ready }),
    {
        if self.counter < i32::MAX {
            self.counter = self.counter + 1;
        }
        if self.counter < READY_AFTER {
            CounterPoll::Pending
        } else {
            CounterPoll::Ready
        }
    }
}

} // verus!
