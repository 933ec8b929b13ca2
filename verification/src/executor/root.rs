//! Readiness of the future that an executor runs to completion.

use vstd::prelude::*;

verus! {

/// Whether the root future has to be polled. A wakeup sets it, a poll clears it.
#[derive(Debug, Clone, Copy, PartialEq, Eq, Structural)]
pub struct RootWaker {
    /// Whether the root future was woken since its last poll began.
    pub ready: bool,
}

impl RootWaker {
    /// A root future that was never polled is ready.
    pub fn new() -> (root: Self)
        ensures
            root.ready,
    {
        RootWaker { ready: true }
    }

    /// Returns whether the root future is ready and clears that.
    pub fn take_ready(&mut self) -> (was_ready: bool)
        ensures
            was_ready == old(self).ready,
            !final(self).ready,
    {
        let was_ready = self.ready;
        self.ready = false;
        was_ready
    }

    /// Returns whether the root future is ready.
    pub fn is_ready(&self) -> (ready: bool)
        ensures
            ready == self.ready,
    {
        self.ready
    }

    /// Marks the root future as ready. Returns true: the reactor has to be woken
    /// each time.
    pub fn mark_ready(&mut self) -> (wake_reactor: bool)
        ensures
            final(self).ready,
            wake_reactor,
    {
        self.ready = true;
        true
    }
}

} // verus!
