//! Everything an executor schedules: tasks, timers and readiness waiters.
//!
//! Where an operation gives the executor's driver a reason to look again, it
//! says so in its result, and the caller wakes the reactor.

use vstd::prelude::*;

use crate::executor::counters::{counted, zero_counters, SchedulerCounters};
use crate::executor::io_interest::{
    interest_ids, interest_wakers, is_registered, is_taken, on_any, on_none, other_id,
    other_interest, unique_fds, IoInterest, ReadinessInterests,
};
use crate::executor::scheduling_group::ExecutorId;
use crate::executor::snapshot::{
    build_executor_snapshot, live, sort_by_id, ExecutorSnapshot, ExecutorSnapshotParts,
    READY_POLL_BUDGET,
};
use crate::executor::spawn_error::SpawnError;
use crate::executor::task::Task;
use crate::executor::task_set::{
    empty_task_set, is_minimum_runtime, is_next_group, summarizes, total_queued, GroupView,
    SchedulerTaskSet, TaskSetView,
};
use crate::executor::task_state::{after_wakeup, TaskState};
use crate::executor::timer::{
    due, is_first_timer, is_next_deadline, no_timer, not_due, other_timer, timer_wakers,
    TimerEntry, TimerSet,
};
use crate::executor::types::{SchedulingGroupId, TaskId, TaskSnapshot, TaskWait};
use crate::os::dispatcher::IoUringDispatcherSnapshot;
use crate::time::{elapsed, Duration, Instant};

verus! {

/// State of one executor. `W` is whatever wakes a waiter.
pub struct Scheduler<W> {
    /// Identity of the executor.
    pub id: ExecutorId,
    /// Tasks and ready queues.
    pub tasks: SchedulerTaskSet,
    /// Pending timers.
    pub timers: TimerSet<W>,
    /// Readiness waiters.
    pub io_interests: ReadinessInterests<W>,
    /// Last known state of the completion ring, if one is installed.
    pub io_uring: Option<IoUringDispatcherSnapshot>,
    /// Cumulative counters.
    pub counters: SchedulerCounters,
}

/// What scheduling a task came to.
pub struct Scheduled {
    /// Whether the task was accepted. A task that needs no queue entry counts as
    /// accepted.
    pub result: Result<(), SpawnError>,
    /// Whether the reactor has to be woken.
    pub wake_reactor: bool,
}

/// What registering a waiter came to.
pub struct Registered {
    /// What the current task now waits for.
    pub wait: TaskWait,
    /// Whether the reactor has to be woken.
    pub wake_reactor: bool,
}

impl<W> Scheduler<W> {
    /// The invariants of the parts.
    pub open spec fn wf(&self) -> bool {
        self.tasks.wf() && self.timers.wf()
    }

    /// Whether one more task can be accepted and counted.
    pub open spec fn has_room(&self) -> bool {
        &&& self.tasks@.task_count < usize::MAX
        &&& total_queued(self.tasks@.groups) < usize::MAX
        &&& self.counters.total_spawned_tasks < u64::MAX
    }

    /// Tests whether one more task can be accepted and counted.
    pub fn can_schedule(&self) -> (can: bool)
        requires
            self.wf(),
        ensures
            can == self.has_room(),
    {
        self.tasks.task_count < usize::MAX && self.tasks.ready_queue_len() < usize::MAX
            && self.counters.total_spawned_tasks < u64::MAX
    }

    /// An executor that accepts tasks and has none.
    pub fn new(id: ExecutorId) -> (scheduler: Self)
        ensures
            scheduler.wf(),
            scheduler.id == id,
            scheduler.tasks@ == empty_task_set(),
            total_queued(scheduler.tasks@.groups) == 0,
            scheduler.timers.timers@ == Seq::<TimerEntry<W>>::empty(),
            scheduler.timers.next_id == 0,
            scheduler.io_interests.reads.interests@ == Seq::<IoInterest<W>>::empty(),
            scheduler.io_interests.reads.ready@ == Seq::<usize>::empty(),
            scheduler.io_interests.reads.next_id == 0,
            scheduler.io_interests.writes.interests@ == Seq::<IoInterest<W>>::empty(),
            scheduler.io_interests.writes.ready@ == Seq::<usize>::empty(),
            scheduler.io_interests.writes.next_id == 0,
            scheduler.io_uring is None,
            scheduler.counters == zero_counters(),
    {
        proof {
            reveal_with_fuel(total_queued, 2);
        }
        Scheduler {
            id,
            tasks: SchedulerTaskSet::new(),
            timers: TimerSet::new(),
            io_interests: ReadinessInterests::new(),
            io_uring: None,
            counters: SchedulerCounters::default(),
        }
    }

    /// Identity of the executor.
    pub fn id(&self) -> (id: ExecutorId)
        ensures
            id == self.id,
    {
        self.id
    }

    /// Hands out the next task identifier.
    pub fn allocate_task_id(&mut self) -> (id: TaskId)
        requires
            old(self).wf(),
        ensures
            final(self).wf(),
            id == TaskId(old(self).tasks@.next_task_id),
            *final(self) == (Scheduler { tasks: final(self).tasks, ..*old(self) }),
            final(self).tasks@ == (TaskSetView {
                next_task_id: if old(self).tasks@.next_task_id == usize::MAX {
                    0
                } else {
                    (old(self).tasks@.next_task_id + 1) as usize
                },
                ..old(self).tasks@
            }),
    {
        self.tasks.allocate_task_id()
    }

    /// Adds a scheduling group, which starts at the least virtual runtime.
    pub fn create_scheduling_group(&mut self, name: String, shares: u32) -> (id: SchedulingGroupId)
        requires
            old(self).wf(),
            shares > 0,
        ensures
            final(self).wf(),
            id.0 == old(self).tasks@.groups.len(),
            *final(self) == (Scheduler { tasks: final(self).tasks, ..*old(self) }),
            exists|m: u128|
                #![trigger is_minimum_runtime(old(self).tasks@.groups, m)]
                is_minimum_runtime(old(self).tasks@.groups, m) && final(self).tasks@ == (
                TaskSetView {
                    groups: old(self).tasks@.groups.push(
                        GroupView {
                            id,
                            name: name@,
                            shares,
                            virtual_runtime: m,
                            total_polls: 0,
                            total_poll_time: 0,
                            queue: Seq::empty(),
                        },
                    ),
                    ..old(self).tasks@
                }),
    {
        self.tasks.create_scheduling_group(name, shares)
    }

    /// Counts one more spawner handle.
    pub fn add_spawner(&mut self)
        requires
            old(self).wf(),
            old(self).tasks@.spawner_count < usize::MAX,
        ensures
            final(self).wf(),
            *final(self) == (Scheduler { tasks: final(self).tasks, ..*old(self) }),
            final(self).tasks@ == (TaskSetView {
                spawner_count: (old(self).tasks@.spawner_count + 1) as usize,
                ..old(self).tasks@
            }),
    {
        self.tasks.add_spawner();
    }

    /// Counts a spawner handle off. Returns whether the reactor has to be woken:
    /// when the last one is gone.
    pub fn remove_spawner(&mut self) -> (wake_reactor: bool)
        requires
            old(self).wf(),
        ensures
            final(self).wf(),
            *final(self) == (Scheduler { tasks: final(self).tasks, ..*old(self) }),
            final(self).tasks@ == (TaskSetView {
                spawner_count: if old(self).tasks@.spawner_count == 0 {
                    0
                } else {
                    (old(self).tasks@.spawner_count - 1) as usize
                },
                ..old(self).tasks@
            }),
            wake_reactor == (final(self).tasks@.spawner_count == 0),
    {
        self.tasks.remove_spawner()
    }

    /// Accepts a new task. A task that is queued already or has ended is left as
    /// it is.
    pub fn schedule<F, H>(&mut self, task: &mut Task<F, H>, now: Instant) -> (scheduled: Scheduled)
        requires
            old(self).wf(),
            old(self).has_room(),
        ensures
            final(self).wf(),
            ({
                let queues = !old(task).state.queued && old(task).state.is_live();
                let accepts = old(self).tasks@.accepts(old(task).scheduling_group_id);
                let woken = Task { state: after_wakeup(old(task).state, now), ..*old(task) };
                &&& scheduled.wake_reactor == (queues && accepts)
                &&& scheduled.result == if queues && !accepts {
                    Err::<(), SpawnError>(SpawnError::Closed)
                } else {
                    Ok::<(), SpawnError>(())
                }
                &&& !queues ==> *final(self) == *old(self) && *final(task) == *old(task)
                &&& queues && !accepts ==> *final(task) == (Task {
                    state: TaskState { queued: false, ..woken.state },
                    ..woken
                }) && final(self).tasks@ == old(self).tasks@ && *final(self) == (Scheduler {
                    tasks: final(self).tasks,
                    ..*old(self)
                })
                &&& queues && accepts ==> *final(task) == woken && *final(self) == (Scheduler {
                    tasks: final(self).tasks,
                    counters: SchedulerCounters {
                        total_spawned_tasks: (old(self).counters.total_spawned_tasks + 1) as u64,
                        ..old(self).counters
                    },
                    ..*old(self)
                }) && final(self).tasks@ == (TaskSetView {
                    task_count: (old(self).tasks@.task_count + 1) as usize,
                    tasks: old(self).tasks@.tasks.push(old(task).id),
                    ..old(self).tasks@.enqueued(old(task).scheduling_group_id, old(task).id)
                })
            }),
    {
        if !task.mark_queued(now) {
            return Scheduled { result: Ok(()), wake_reactor: false };
        }
        match self.tasks.schedule_new(task) {
            Err(error) => Scheduled { result: Err(error), wake_reactor: false },
            Ok(()) => {
                self.counters.record_spawned_task();
                Scheduled { result: Ok(()), wake_reactor: true }
            },
        }
    }

    /// Queues a task that was woken. A task that is queued already or has ended
    /// is left as it is.
    pub fn schedule_existing<F, H>(&mut self, task: &mut Task<F, H>, now: Instant) -> (scheduled:
        Scheduled)
        requires
            old(self).wf(),
            total_queued(old(self).tasks@.groups) < usize::MAX,
        ensures
            final(self).wf(),
            *final(self) == (Scheduler { tasks: final(self).tasks, ..*old(self) }),
            ({
                let queues = !old(task).state.queued && old(task).state.is_live();
                let accepts = old(self).tasks@.accepts(old(task).scheduling_group_id);
                let woken = Task { state: after_wakeup(old(task).state, now), ..*old(task) };
                &&& scheduled.wake_reactor == (queues && accepts)
                &&& scheduled.result == if queues && !accepts {
                    Err::<(), SpawnError>(SpawnError::Closed)
                } else {
                    Ok::<(), SpawnError>(())
                }
                &&& !queues ==> final(self).tasks@ == old(self).tasks@ && *final(task) == *old(task)
                &&& queues && !accepts ==> final(self).tasks@ == old(self).tasks@ && *final(task)
                    == (Task { state: TaskState { queued: false, ..woken.state }, ..woken })
                &&& queues && accepts ==> *final(task) == woken
                    && final(self).tasks@
                    == old(self).tasks@.enqueued(old(task).scheduling_group_id, old(task).id)
            }),
    {
        if !task.mark_queued(now) {
            return Scheduled { result: Ok(()), wake_reactor: false };
        }
        match self.tasks.schedule_existing(task) {
            Err(error) => Scheduled { result: Err(error), wake_reactor: false },
            Ok(()) => Scheduled { result: Ok(()), wake_reactor: true },
        }
    }

    /// Takes the next task to poll.
    pub fn next_task(&mut self) -> (task: Option<TaskId>)
        requires
            old(self).wf(),
        ensures
            final(self).wf(),
            *final(self) == (Scheduler { tasks: final(self).tasks, ..*old(self) }),
            task is None <==> total_queued(old(self).tasks@.groups) == 0,
            task is None ==> final(self).tasks@ == old(self).tasks@,
            task is Some ==> exists|i: int|
                #![trigger is_next_group(old(self).tasks@.groups, i)]
                is_next_group(old(self).tasks@.groups, i) && task == Some(
                    old(self).tasks@.groups[i].queue[0],
                ) && final(self).tasks@ == (TaskSetView {
                    groups: old(self).tasks@.groups.update(
                        i,
                        GroupView {
                            queue: old(self).tasks@.groups[i].queue.drop_first(),
                            ..old(self).tasks@.groups[i]
                        },
                    ),
                    ..old(self).tasks@
                }),
    {
        self.tasks.next_task()
    }

    /// Whether nothing is left to run and nobody can add to it.
    pub fn is_drained(&self) -> (drained: bool)
        requires
            self.wf(),
        ensures
            drained == self.tasks@.drained(),
    {
        self.tasks.is_drained()
    }

    /// Whether any task is ready.
    pub fn has_ready_tasks(&self) -> (ready: bool)
        requires
            self.wf(),
        ensures
            ready == (total_queued(self.tasks@.groups) > 0),
    {
        self.tasks.has_ready_tasks()
    }

    /// Closes the executor: no timers, no waiters, no queued tasks, and no new
    /// ones. Returns the tasks whose futures have to be dropped. The reactor has
    /// to be woken afterwards.
    pub fn close(&mut self) -> (tasks: Vec<TaskId>)
        requires
            old(self).wf(),
        ensures
            final(self).wf(),
            tasks@ == old(self).tasks@.tasks,
            final(self).id == old(self).id,
            final(self).io_uring == old(self).io_uring,
            final(self).counters == old(self).counters,
            final(self).timers.timers@ == Seq::<TimerEntry<W>>::empty(),
            final(self).timers.next_id == old(self).timers.next_id,
            final(self).io_interests.reads.interests@ == Seq::<IoInterest<W>>::empty(),
            final(self).io_interests.reads.ready@ == Seq::<usize>::empty(),
            final(self).io_interests.reads.next_id == old(self).io_interests.reads.next_id,
            final(self).io_interests.writes.interests@ == Seq::<IoInterest<W>>::empty(),
            final(self).io_interests.writes.ready@ == Seq::<usize>::empty(),
            final(self).io_interests.writes.next_id == old(self).io_interests.writes.next_id,
            final(self).tasks@ == (TaskSetView {
                accepting: false,
                task_count: 0,
                tasks: Seq::empty(),
                groups: old(self).tasks@.groups.map_values(
                    |g: GroupView| GroupView { queue: Seq::empty(), ..g },
                ),
                ..old(self).tasks@
            }),
            total_queued(final(self).tasks@.groups) == 0,
    {
        self.timers.clear();
        self.io_interests.clear();
        self.tasks.close()
    }

    /// Summarizes the executor. `live_tasks` holds the summary of each task in
    /// the books, or nothing for one that is dropped.
    pub fn snapshot(&self, live_tasks: Vec<Option<TaskSnapshot>>) -> (snapshot: ExecutorSnapshot)
        requires
            self.wf(),
        ensures
            snapshot.accepting == self.tasks@.accepting,
            snapshot.spawner_count == self.tasks@.spawner_count,
            snapshot.task_count == self.tasks@.task_count,
            snapshot.ready_queue_len == total_queued(self.tasks@.groups),
            snapshot.scheduling_groups.len() == self.tasks@.groups.len(),
            forall|i: int|
                0 <= i < self.tasks@.groups.len() ==> summarizes(
                    #[trigger] snapshot.scheduling_groups@[i],
                    self.tasks@.groups[i],
                ),
            snapshot.timer_count == self.timers.timers@.len(),
            snapshot.read_interest_count == self.io_interests.reads.interests@.len(),
            snapshot.write_interest_count == self.io_interests.writes.interests@.len(),
            snapshot.io_uring == self.io_uring,
            snapshot.ready_poll_budget == READY_POLL_BUDGET,
            snapshot.total_spawned_tasks == self.counters.total_spawned_tasks,
            snapshot.total_completed_tasks == self.counters.total_completed_tasks,
            snapshot.total_task_polls == self.counters.total_task_polls,
            snapshot.ready_poll_budget_exhaustions == self.counters.ready_poll_budget_exhaustions,
            snapshot.total_driver_events == self.counters.total_driver_events,
            snapshot.total_readiness_events == self.counters.total_readiness_events,
            snapshot.total_readable_events == self.counters.total_readable_events,
            snapshot.total_writable_events == self.counters.total_writable_events,
            snapshot.total_completion_events == self.counters.total_completion_events,
            snapshot.tasks@ == sort_by_id(live(live_tasks@)),
    {
        build_executor_snapshot(
            ExecutorSnapshotParts {
                tasks: self.tasks.snapshot(),
                live_tasks,
                timer_count: self.timers.len(),
                counters: self.counters,
                read_interest_count: self.io_interests.read_len(),
                write_interest_count: self.io_interests.write_len(),
                io_uring: self.io_uring,
            },
        )
    }

    /// Counts a finished task off. Returns whether the reactor has to be woken:
    /// when the executor is drained by that.
    pub fn finish_task(&mut self) -> (wake_reactor: bool)
        requires
            old(self).wf(),
            old(self).counters.total_completed_tasks < u64::MAX,
        ensures
            final(self).wf(),
            final(self).tasks@ == (TaskSetView {
                task_count: if old(self).tasks@.task_count == 0 {
                    0
                } else {
                    (old(self).tasks@.task_count - 1) as usize
                },
                ..old(self).tasks@
            }),
            wake_reactor == final(self).tasks@.drained(),
            *final(self) == (Scheduler {
                tasks: final(self).tasks,
                counters: SchedulerCounters {
                    total_completed_tasks: (old(self).counters.total_completed_tasks + 1) as u64,
                    ..old(self).counters
                },
                ..*old(self)
            }),
    {
        let wake_reactor = self.tasks.finish_task();
        self.counters.record_completed_task();
        wake_reactor
    }

    /// Takes a dropped task out of the books.
    pub fn forget_task(&mut self, id: TaskId)
        requires
            old(self).wf(),
        ensures
            final(self).wf(),
            *final(self) == (Scheduler { tasks: final(self).tasks, ..*old(self) }),
            final(self).tasks@ == (TaskSetView {
                tasks: old(self).tasks@.tasks.filter(|t: TaskId| t != id),
                ..old(self).tasks@
            }),
    {
        self.tasks.forget_task(id);
    }

    /// Counts a batch of task polls.
    pub fn record_ready_poll_batch(&mut self, polled: usize, exhausted_budget: bool)
        requires
            old(self).wf(),
            old(self).counters.total_task_polls + polled <= u64::MAX,
            exhausted_budget ==> old(self).counters.ready_poll_budget_exhaustions < u64::MAX,
        ensures
            final(self).wf(),
            *final(self) == (Scheduler {
                counters: SchedulerCounters {
                    total_task_polls: (old(self).counters.total_task_polls + polled) as u64,
                    ready_poll_budget_exhaustions: counted(
                        old(self).counters.ready_poll_budget_exhaustions,
                        exhausted_budget,
                    ),
                    ..old(self).counters
                },
                ..*old(self)
            }),
    {
        self.counters.record_ready_poll_batch(polled, exhausted_budget);
    }

    /// Counts a batch of dispatched completions.
    pub fn record_completion_dispatch_batch(&mut self, dispatched: usize, exhausted_budget: bool)
        requires
            old(self).wf(),
            old(self).counters.total_completion_dispatch_batches < u64::MAX,
            old(self).counters.total_dispatched_completions + dispatched <= u64::MAX,
            exhausted_budget ==> old(self).counters.completion_dispatch_budget_exhaustions
                < u64::MAX,
        ensures
            final(self).wf(),
            *final(self) == (Scheduler {
                counters: SchedulerCounters {
                    total_completion_dispatch_batches: (old(self).counters.total_completion_dispatch_batches + 1) as u64,
                    total_dispatched_completions: (old(self).counters.total_dispatched_completions
                        + dispatched) as u64,
                    completion_dispatch_budget_exhaustions: counted(
                        old(self).counters.completion_dispatch_budget_exhaustions,
                        exhausted_budget,
                    ),
                    ..old(self).counters
                },
                ..*old(self)
            }),
    {
        self.counters.record_completion_dispatch_batch(dispatched, exhausted_budget);
    }

    /// Charges a poll to a group.
    pub fn record_task_poll(&mut self, group_id: SchedulingGroupId, poll_duration: Duration)
        requires
            old(self).wf(),
            old(self).tasks.can_charge(group_id, poll_duration),
        ensures
            final(self).wf(),
            *final(self) == (Scheduler { tasks: final(self).tasks, ..*old(self) }),
            final(self).tasks@ == old(self).tasks@.charged(group_id, poll_duration),
    {
        self.tasks.record_task_poll(group_id, poll_duration);
    }

    /// Counts a driver event.
    pub fn record_driver_event(
        &mut self,
        readiness: bool,
        readable: bool,
        writable: bool,
        completion: bool,
    )
        requires
            old(self).wf(),
            old(self).counters.has_event_room(readiness, readable, writable, completion),
        ensures
            final(self).wf(),
            *final(self) == (Scheduler {
                counters: old(self).counters.after_driver_event(
                    readiness,
                    readable,
                    writable,
                    completion,
                ),
                ..*old(self)
            }),
    {
        self.counters.record_driver_event(readiness, readable, writable, completion);
    }

    /// Notes the state of the completion ring.
    pub fn record_io_uring_snapshot(&mut self, snapshot: Option<IoUringDispatcherSnapshot>)
        ensures
            *final(self) == (Scheduler { io_uring: snapshot, ..*old(self) }),
    {
        self.io_uring = snapshot;
    }

    /// Hands out the next timer identifier.
    pub fn allocate_timer_id(&mut self) -> (id: usize)
        requires
            old(self).wf(),
        ensures
            final(self).wf(),
            id == old(self).timers.next_id,
            *final(self) == (Scheduler { timers: final(self).timers, ..*old(self) }),
            final(self).timers.timers == old(self).timers.timers,
            final(self).timers.next_id == if old(self).timers.next_id == usize::MAX {
                0
            } else {
                (old(self).timers.next_id + 1) as usize
            },
    {
        self.timers.allocate_id()
    }

    /// Sets a timer. The reactor has to be woken where the earliest deadline
    /// moved forward.
    pub fn register_timer(&mut self, id: usize, deadline: Instant, waker: W) -> (registered:
        Registered)
        requires
            old(self).wf(),
        ensures
            final(self).wf(),
            *final(self) == (Scheduler { timers: final(self).timers, ..*old(self) }),
            registered.wait == (TaskWait::Timer { deadline }),
            registered.wake_reactor == forall|i: int|
                0 <= i < old(self).timers.timers@.len() ==> deadline < (
                #[trigger] old(self).timers.timers@[i]).deadline,
            final(self).timers.next_id == old(self).timers.next_id,
            no_timer(old(self).timers.timers@, id)
                ==> final(self).timers.timers@
                == old(self).timers.timers@.push(TimerEntry { id, deadline, waker }),
            forall|i: int|
                #![trigger is_first_timer(old(self).timers.timers@, id, i)]
                is_first_timer(old(self).timers.timers@, id, i) ==> final(self).timers.timers@
                    == old(self).timers.timers@.update(i, TimerEntry { id, deadline, waker }),
    {
        let wake_reactor = self.timers.register(id, deadline, waker);
        Registered { wait: TaskWait::Timer { deadline }, wake_reactor }
    }

    /// Forgets a timer.
    pub fn remove_timer(&mut self, id: usize)
        requires
            old(self).wf(),
        ensures
            final(self).wf(),
            *final(self) == (Scheduler { timers: final(self).timers, ..*old(self) }),
            final(self).timers.next_id == old(self).timers.next_id,
            final(self).timers.timers@ == old(self).timers.timers@.filter(other_timer(id)),
    {
        self.timers.remove(id);
    }

    /// Takes out the timers that are due and returns the wakers to wake.
    pub fn wake_expired_timers(&mut self, now: Instant) -> (wakers: Vec<W>)
        requires
            old(self).wf(),
        ensures
            final(self).wf(),
            *final(self) == (Scheduler { timers: final(self).timers, ..*old(self) }),
            final(self).timers.next_id == old(self).timers.next_id,
            wakers@ == timer_wakers(old(self).timers.timers@.filter(due(now))),
            final(self).timers.timers@ == old(self).timers.timers@.filter(not_due(now)),
    {
        self.timers.expired(now)
    }

    /// Time left until the next timer is due.
    pub fn time_until_next_timer(&self, now: Instant) -> (left: Option<Duration>)
        ensures
            left is None <==> self.timers.timers@.len() == 0,
            forall|next: Instant|
                #![trigger is_next_deadline(self.timers.timers@, Some(next))]
                is_next_deadline(self.timers.timers@, Some(next)) ==> left == Some(
                    elapsed(next, now),
                ),
    {
        self.timers.time_until_next(now)
    }

    /// Hands out the next reader identifier.
    pub fn allocate_read_interest_id(&mut self) -> (id: usize)
        requires
            old(self).wf(),
        ensures
            final(self).wf(),
            id == old(self).io_interests.reads.next_id,
            *final(self) == (Scheduler { io_interests: final(self).io_interests, ..*old(self) }),
            final(self).io_interests.writes == old(self).io_interests.writes,
            final(self).io_interests.reads.interests == old(self).io_interests.reads.interests,
            final(self).io_interests.reads.ready == old(self).io_interests.reads.ready,
            final(self).io_interests.reads.next_id == if old(self).io_interests.reads.next_id
                == usize::MAX {
                0
            } else {
                (old(self).io_interests.reads.next_id + 1) as usize
            },
    {
        self.io_interests.allocate_read_id()
    }

    /// Lets a reader wait for `fd`. The reactor has to be woken.
    pub fn register_read_interest(&mut self, id: usize, fd: i32, waker: W) -> (registered:
        Registered)
        requires
            old(self).wf(),
        ensures
            final(self).wf(),
            *final(self) == (Scheduler { io_interests: final(self).io_interests, ..*old(self) }),
            registered.wait == (TaskWait::Readable { fd }),
            registered.wake_reactor,
            is_registered(
                old(self).io_interests.reads.interests@,
                final(self).io_interests.reads.interests@,
                IoInterest { id, fd, waker },
            ),
            final(self).io_interests.reads.ready == old(self).io_interests.reads.ready,
            final(self).io_interests.reads.next_id == old(self).io_interests.reads.next_id,
            final(self).io_interests.writes == old(self).io_interests.writes,
    {
        self.io_interests.register_read(id, fd, waker);
        Registered { wait: TaskWait::Readable { fd }, wake_reactor: true }
    }

    /// Forgets a reader.
    pub fn remove_read_interest(&mut self, id: usize)
        requires
            old(self).wf(),
        ensures
            final(self).wf(),
            *final(self) == (Scheduler { io_interests: final(self).io_interests, ..*old(self) }),
            final(self).io_interests.writes == old(self).io_interests.writes,
            final(self).io_interests.reads.next_id == old(self).io_interests.reads.next_id,
            final(self).io_interests.reads.interests@
                == old(self).io_interests.reads.interests@.filter(other_interest(id)),
            final(self).io_interests.reads.ready@ == old(self).io_interests.reads.ready@.filter(
                other_id(id),
            ),
    {
        self.io_interests.remove_read(id);
    }

    /// The descriptors that readers wait on, each once.
    pub fn read_interest_fds(&self) -> (fds: Vec<i32>)
        ensures
            fds@ == unique_fds(self.io_interests.reads.interests@),
    {
        self.io_interests.read_fds()
    }

    /// Takes out the readers on one of `readable` and returns the wakers to wake.
    pub fn wake_readable_fds(&mut self, readable: &[i32]) -> (wakers: Vec<W>)
        requires
            old(self).wf(),
        ensures
            final(self).wf(),
            *final(self) == (Scheduler { io_interests: final(self).io_interests, ..*old(self) }),
            final(self).io_interests.writes == old(self).io_interests.writes,
            final(self).io_interests.reads.next_id == old(self).io_interests.reads.next_id,
            wakers@ == interest_wakers(
                old(self).io_interests.reads.interests@.filter(on_any(readable@)),
            ),
            final(self).io_interests.reads.interests@
                == old(self).io_interests.reads.interests@.filter(on_none(readable@)),
            final(self).io_interests.reads.ready@ == old(self).io_interests.reads.ready@
                + interest_ids(old(self).io_interests.reads.interests@.filter(on_any(readable@))),
    {
        self.io_interests.wake_readable(readable)
    }

    /// Whether a reader was found ready.
    pub fn take_ready_read_interest(&mut self, id: usize) -> (was_ready: bool)
        requires
            old(self).wf(),
        ensures
            final(self).wf(),
            *final(self) == (Scheduler { io_interests: final(self).io_interests, ..*old(self) }),
            was_ready == old(self).io_interests.reads.ready@.contains(id),
            !was_ready ==> *final(self) == *old(self),
            was_ready ==> is_taken(
                old(self).io_interests.reads.ready@,
                final(self).io_interests.reads.ready@,
                id,
            ),
            final(self).io_interests.reads.interests == old(self).io_interests.reads.interests,
            final(self).io_interests.reads.next_id == old(self).io_interests.reads.next_id,
            final(self).io_interests.writes == old(self).io_interests.writes,
    {
        self.io_interests.take_ready_read(id)
    }

    /// Hands out the next writer identifier.
    pub fn allocate_write_interest_id(&mut self) -> (id: usize)
        requires
            old(self).wf(),
        ensures
            final(self).wf(),
            id == old(self).io_interests.writes.next_id,
            *final(self) == (Scheduler { io_interests: final(self).io_interests, ..*old(self) }),
            final(self).io_interests.reads == old(self).io_interests.reads,
            final(self).io_interests.writes.interests == old(self).io_interests.writes.interests,
            final(self).io_interests.writes.ready == old(self).io_interests.writes.ready,
            final(self).io_interests.writes.next_id == if old(self).io_interests.writes.next_id
                == usize::MAX {
                0
            } else {
                (old(self).io_interests.writes.next_id + 1) as usize
            },
    {
        self.io_interests.allocate_write_id()
    }

    /// Lets a writer wait for `fd`. The reactor has to be woken.
    pub fn register_write_interest(&mut self, id: usize, fd: i32, waker: W) -> (registered:
        Registered)
        requires
            old(self).wf(),
        ensures
            final(self).wf(),
            *final(self) == (Scheduler { io_interests: final(self).io_interests, ..*old(self) }),
            registered.wait == (TaskWait::Writable { fd }),
            registered.wake_reactor,
            is_registered(
                old(self).io_interests.writes.interests@,
                final(self).io_interests.writes.interests@,
                IoInterest { id, fd, waker },
            ),
            final(self).io_interests.writes.ready == old(self).io_interests.writes.ready,
            final(self).io_interests.writes.next_id == old(self).io_interests.writes.next_id,
            final(self).io_interests.reads == old(self).io_interests.reads,
    {
        self.io_interests.register_write(id, fd, waker);
        Registered { wait: TaskWait::Writable { fd }, wake_reactor: true }
    }

    /// Forgets a writer.
    pub fn remove_write_interest(&mut self, id: usize)
        requires
            old(self).wf(),
        ensures
            final(self).wf(),
            *final(self) == (Scheduler { io_interests: final(self).io_interests, ..*old(self) }),
            final(self).io_interests.reads == old(self).io_interests.reads,
            final(self).io_interests.writes.next_id == old(self).io_interests.writes.next_id,
            final(self).io_interests.writes.interests@
                == old(self).io_interests.writes.interests@.filter(other_interest(id)),
            final(self).io_interests.writes.ready@ == old(self).io_interests.writes.ready@.filter(
                other_id(id),
            ),
    {
        self.io_interests.remove_write(id);
    }

    /// The descriptors that writers wait on, each once.
    pub fn write_interest_fds(&self) -> (fds: Vec<i32>)
        ensures
            fds@ == unique_fds(self.io_interests.writes.interests@),
    {
        self.io_interests.write_fds()
    }

    /// Takes out the writers on one of `writable` and returns the wakers to wake.
    pub fn wake_writable_fds(&mut self, writable: &[i32]) -> (wakers: Vec<W>)
        requires
            old(self).wf(),
        ensures
            final(self).wf(),
            *final(self) == (Scheduler { io_interests: final(self).io_interests, ..*old(self) }),
            final(self).io_interests.reads == old(self).io_interests.reads,
            final(self).io_interests.writes.next_id == old(self).io_interests.writes.next_id,
            wakers@ == interest_wakers(
                old(self).io_interests.writes.interests@.filter(on_any(writable@)),
            ),
            final(self).io_interests.writes.interests@
                == old(self).io_interests.writes.interests@.filter(on_none(writable@)),
            final(self).io_interests.writes.ready@ == old(self).io_interests.writes.ready@
                + interest_ids(old(self).io_interests.writes.interests@.filter(on_any(writable@))),
    {
        self.io_interests.wake_writable(writable)
    }

    /// Whether a writer was found ready.
    pub fn take_ready_write_interest(&mut self, id: usize) -> (was_ready: bool)
        requires
            old(self).wf(),
        ensures
            final(self).wf(),
            *final(self) == (Scheduler { io_interests: final(self).io_interests, ..*old(self) }),
            was_ready == old(self).io_interests.writes.ready@.contains(id),
            !was_ready ==> *final(self) == *old(self),
            was_ready ==> is_taken(
                old(self).io_interests.writes.ready@,
                final(self).io_interests.writes.ready@,
                id,
            ),
            final(self).io_interests.writes.interests == old(self).io_interests.writes.interests,
            final(self).io_interests.writes.next_id == old(self).io_interests.writes.next_id,
            final(self).io_interests.reads == old(self).io_interests.reads,
    {
        self.io_interests.take_ready_write(id)
    }
}

/// A scheduler has room for a task exactly where none of its counts is at its end.
pub proof fn room_is_left_below_every_count<W>(scheduler: Scheduler<W>)
    ensures
        !scheduler.has_room() <==> scheduler.tasks@.task_count == usize::MAX || total_queued(
            scheduler.tasks@.groups,
        ) >= usize::MAX || scheduler.counters.total_spawned_tasks == u64::MAX,
{
}

} // verus!
