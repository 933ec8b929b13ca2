//! Cumulative counters of scheduler activity.

use vstd::prelude::*;

verus! {

/// Cumulative counts of what an executor has done since startup.
#[derive(Debug, Clone, Copy, PartialEq, Eq, Structural)]
pub struct SchedulerCounters {
    /// Tasks accepted.
    pub total_spawned_tasks: u64,
    /// Tasks completed, panicked or cancelled.
    pub total_completed_tasks: u64,
    /// Task polls.
    pub total_task_polls: u64,
    /// Ready-poll batches that consumed the full budget.
    pub ready_poll_budget_exhaustions: u64,
    /// Idle driver events.
    pub total_driver_events: u64,
    /// Driver events with readiness.
    pub total_readiness_events: u64,
    /// Readiness events with a readable descriptor.
    pub total_readable_events: u64,
    /// Readiness events with a writable descriptor.
    pub total_writable_events: u64,
    /// Driver events with completions.
    pub total_completion_events: u64,
    /// Batches of dispatched completions.
    pub total_completion_dispatch_batches: u64,
    /// Dispatched completions.
    pub total_dispatched_completions: u64,
    /// Completion batches that consumed the full budget.
    pub completion_dispatch_budget_exhaustions: u64,
}

impl Default for SchedulerCounters {
    fn default() -> (counters: Self)
        ensures
            counters == zero_counters(),
    {
        SchedulerCounters {
            total_spawned_tasks: 0,
            total_completed_tasks: 0,
            total_task_polls: 0,
            ready_poll_budget_exhaustions: 0,
            total_driver_events: 0,
            total_readiness_events: 0,
            total_readable_events: 0,
            total_writable_events: 0,
            total_completion_events: 0,
            total_completion_dispatch_batches: 0,
            total_dispatched_completions: 0,
            completion_dispatch_budget_exhaustions: 0,
        }
    }
}

/// Counters of an executor that has done nothing.
pub open spec fn zero_counters() -> SchedulerCounters {
    SchedulerCounters {
        total_spawned_tasks: 0,
        total_completed_tasks: 0,
        total_task_polls: 0,
        ready_poll_budget_exhaustions: 0,
        total_driver_events: 0,
        total_readiness_events: 0,
        total_readable_events: 0,
        total_writable_events: 0,
        total_completion_events: 0,
        total_completion_dispatch_batches: 0,
        total_dispatched_completions: 0,
        completion_dispatch_budget_exhaustions: 0,
    }
}

/// `count`, and one more where `event` happened.
pub open spec fn counted(count: u64, event: bool) -> u64 {
    if event {
        (count + 1) as u64
    } else {
        count
    }
}

impl SchedulerCounters {
    /// Whether no counter is at the end of its range, so that any single event
    /// can still be counted.
    pub open spec fn has_room(&self) -> bool {
        &&& self.total_spawned_tasks < u64::MAX
        &&& self.total_completed_tasks < u64::MAX
        &&& self.total_task_polls < u64::MAX
        &&& self.ready_poll_budget_exhaustions < u64::MAX
        &&& self.total_driver_events < u64::MAX
        &&& self.total_readiness_events < u64::MAX
        &&& self.total_readable_events < u64::MAX
        &&& self.total_writable_events < u64::MAX
        &&& self.total_completion_events < u64::MAX
        &&& self.total_completion_dispatch_batches < u64::MAX
        &&& self.total_dispatched_completions < u64::MAX
        &&& self.completion_dispatch_budget_exhaustions < u64::MAX
    }

    /// Whether a driver event with the given kinds of progress can be counted.
    pub open spec fn has_event_room(
        &self,
        readiness: bool,
        readable: bool,
        writable: bool,
        completion: bool,
    ) -> bool {
        &&& self.total_driver_events < u64::MAX
        &&& readiness ==> self.total_readiness_events < u64::MAX
        &&& readiness && readable ==> self.total_readable_events < u64::MAX
        &&& readiness && writable ==> self.total_writable_events < u64::MAX
        &&& completion ==> self.total_completion_events < u64::MAX
    }

    /// The counters after a driver event with the given kinds of progress.
    pub open spec fn after_driver_event(
        &self,
        readiness: bool,
        readable: bool,
        writable: bool,
        completion: bool,
    ) -> SchedulerCounters {
        SchedulerCounters {
            total_driver_events: (self.total_driver_events + 1) as u64,
            total_readiness_events: counted(self.total_readiness_events, readiness),
            total_readable_events: counted(self.total_readable_events, readiness && readable),
            total_writable_events: counted(self.total_writable_events, readiness && writable),
            total_completion_events: counted(self.total_completion_events, completion),
            ..*self
        }
    }

    /// Tests whether any single event can still be counted.
    pub fn can_count(&self) -> (can: bool)
        ensures
            can == self.has_room(),
    {
        self.total_spawned_tasks < u64::MAX && self.total_completed_tasks < u64::MAX
            && self.total_task_polls < u64::MAX && self.ready_poll_budget_exhaustions < u64::MAX
            && self.total_driver_events < u64::MAX && self.total_readiness_events < u64::MAX
            && self.total_readable_events < u64::MAX && self.total_writable_events < u64::MAX
            && self.total_completion_events < u64::MAX && self.total_completion_dispatch_batches
            < u64::MAX && self.total_dispatched_completions < u64::MAX
            && self.completion_dispatch_budget_exhaustions < u64::MAX
    }

    /// Counts an accepted task.
    pub fn record_spawned_task(&mut self)
        requires
            old(self).total_spawned_tasks < u64::MAX,
        ensures
            *final(self) == (SchedulerCounters {
                total_spawned_tasks: (old(self).total_spawned_tasks + 1) as u64,
                ..*old(self)
            }),
    {
        self.total_spawned_tasks = self.total_spawned_tasks + 1;
    }

    /// Counts a finished task.
    pub fn record_completed_task(&mut self)
        requires
            old(self).total_completed_tasks < u64::MAX,
        ensures
            *final(self) == (SchedulerCounters {
                total_completed_tasks: (old(self).total_completed_tasks + 1) as u64,
                ..*old(self)
            }),
    {
        self.total_completed_tasks = self.total_completed_tasks + 1;
    }

    /// Counts a batch of `polled` task polls, and whether it used up the budget.
    pub fn record_ready_poll_batch(&mut self, polled: usize, exhausted_budget: bool)
        requires
            old(self).total_task_polls + polled <= u64::MAX,
            exhausted_budget ==> old(self).ready_poll_budget_exhaustions < u64::MAX,
        ensures
            *final(self) == (SchedulerCounters {
                total_task_polls: (old(self).total_task_polls + polled) as u64,
                ready_poll_budget_exhaustions: counted(
                    old(self).ready_poll_budget_exhaustions,
                    exhausted_budget,
                ),
                ..*old(self)
            }),
    {
        self.total_task_polls = self.total_task_polls + polled as u64;
        if exhausted_budget {
            self.ready_poll_budget_exhaustions = self.ready_poll_budget_exhaustions + 1;
        }
    }

    /// Counts a batch of `dispatched` completions, and whether it used up the
    /// budget.
    pub fn record_completion_dispatch_batch(&mut self, dispatched: usize, exhausted_budget: bool)
        requires
            old(self).total_completion_dispatch_batches < u64::MAX,
            old(self).total_dispatched_completions + dispatched <= u64::MAX,
            exhausted_budget ==> old(self).completion_dispatch_budget_exhaustions < u64::MAX,
        ensures
            *final(self) == (SchedulerCounters {
                total_completion_dispatch_batches: (old(self).total_completion_dispatch_batches
                    + 1) as u64,
                total_dispatched_completions: (old(self).total_dispatched_completions
                    + dispatched) as u64,
                completion_dispatch_budget_exhaustions: counted(
                    old(self).completion_dispatch_budget_exhaustions,
                    exhausted_budget,
                ),
                ..*old(self)
            }),
    {
        self.total_completion_dispatch_batches = self.total_completion_dispatch_batches + 1;
        self.total_dispatched_completions = self.total_dispatched_completions + dispatched as u64;
        if exhausted_budget {
            self.completion_dispatch_budget_exhaustions = self.completion_dispatch_budget_exhaustions
                + 1;
        }
    }

    /// Counts a driver event of a readiness-only driver.
    pub fn record_readiness_driver_event(&mut self, readable: bool, writable: bool)
        requires
            old(self).has_event_room(true, readable, writable, false),
        ensures
            *final(self) == (SchedulerCounters {
                total_driver_events: (old(self).total_driver_events + 1) as u64,
                total_readiness_events: (old(self).total_readiness_events + 1) as u64,
                total_readable_events: counted(old(self).total_readable_events, readable),
                total_writable_events: counted(old(self).total_writable_events, writable),
                ..*old(self)
            }),
    {
        self.record_driver_event(true, readable, writable, false);
    }

    /// Counts a driver event, and which kinds of progress it brought. Directions
    /// count only where there was readiness.
    pub fn record_driver_event(
        &mut self,
        readiness: bool,
        readable: bool,
        writable: bool,
        completion: bool,
    )
        requires
            old(self).has_event_room(readiness, readable, writable, completion),
        ensures
            *final(self) == old(self).after_driver_event(
                readiness,
                readable,
                writable,
                completion,
            ),
    {
        self.total_driver_events = self.total_driver_events + 1;
        if readiness {
            self.total_readiness_events = self.total_readiness_events + 1;
            if readable {
                self.total_readable_events = self.total_readable_events + 1;
            }
            if writable {
                self.total_writable_events = self.total_writable_events + 1;
            }
        }
        if completion {
            self.total_completion_events = self.total_completion_events + 1;
        }
    }
}

/// A counter goes up by one where its event came, and stays where it did not.
pub proof fn counter_goes_up_by_one(count: u64, event: bool)
    requires
        count < u64::MAX,
    ensures
        counted(count, event) - count == if event {
            1int
        } else {
            0int
        },
{
}

/// A new executor has counted nothing.
pub proof fn nothing_is_counted_at_first()
    ensures
        ({
            let zero = zero_counters();
            &&& zero.total_spawned_tasks == 0 && zero.total_completed_tasks == 0
            &&& zero.total_task_polls == 0 && zero.ready_poll_budget_exhaustions == 0
            &&& zero.total_driver_events == 0 && zero.total_readiness_events == 0
            &&& zero.total_readable_events == 0 && zero.total_writable_events == 0
            &&& zero.total_completion_events == 0 && zero.total_completion_dispatch_batches == 0
            &&& zero.total_dispatched_completions == 0
            &&& zero.completion_dispatch_budget_exhaustions == 0
        }),
{
}

/// An event counts as readiness, and then as what it found ready, and as completions,
/// each where it brought them; every event counts once as such.
pub proof fn driver_event_counts_for_what_it_brought(
    counters: SchedulerCounters,
    readiness: bool,
    readable: bool,
    writable: bool,
    completion: bool,
)
    requires
        counters.has_event_room(readiness, readable, writable, completion),
    ensures
        ({
            let after = counters.after_driver_event(readiness, readable, writable, completion);
            let one = |event: bool|
                if event {
                    1int
                } else {
                    0int
                };
            &&& after.total_driver_events - counters.total_driver_events == 1
            &&& after.total_readiness_events - counters.total_readiness_events == one(readiness)
            &&& after.total_readable_events - counters.total_readable_events == one(
                readiness && readable,
            )
            &&& after.total_writable_events - counters.total_writable_events == one(
                readiness && writable,
            )
            &&& after.total_completion_events - counters.total_completion_events == one(completion)
            &&& after.total_spawned_tasks == counters.total_spawned_tasks
            &&& after.total_completed_tasks == counters.total_completed_tasks
            &&& after.total_task_polls == counters.total_task_polls
        }),
{
}

} // verus!
