//! Task lifecycle state machine.
//!
//! [`TaskState`] tracks the current phase of a spawned task: waiting,
//! queued, polling, or completed (including cancelled and panicked).
//! Cancellation is cooperative: a polling task finishes its current poll
//! before the cancellation takes effect. The state machine also records
//! cumulative poll count, accumulated poll time, and key timestamps for
//! observability snapshots.
//!
//! `F` is the task's future and `H` the handler of its panic payload. Both are
//! only moved, never called.

use vstd::prelude::*;

use crate::executor::types::{SchedulingGroupId, TaskId, TaskSnapshot, TaskStatus, TaskWait};
use crate::time::{Duration, Instant, TotalDuration};

verus! {

/// Lifecycle state of one spawned task.
pub struct TaskState<F, H> {
    /// The task's future, while it is neither being polled nor finished.
    pub future: Option<F>,
    /// Handler owed the payload of a panicking poll.
    pub panic_handler: Option<H>,
    /// Whether the task is in a ready queue.
    pub queued: bool,
    /// Whether the future is out for a poll.
    pub polling: bool,
    /// Whether someone asked for the task to be cancelled.
    pub cancel_requested: bool,
    /// Whether the task reached its end.
    pub completed: bool,
    /// Number of polls started.
    pub poll_count: u64,
    /// Time spent in finished polls.
    pub total_poll_time: TotalDuration,
    /// What the current or last poll registered interest in.
    pub waiting_for: Option<TaskWait>,
    /// When the task was last queued.
    pub last_scheduled_at: Option<Instant>,
    /// When the last poll started.
    pub last_poll_started_at: Option<Instant>,
    /// When the last poll finished.
    pub last_poll_finished_at: Option<Instant>,
}

/// The state that ends a task that is not being polled: no future, no queue
/// entry, nothing waited for.
pub open spec fn ended<F, H>(s: TaskState<F, H>) -> TaskState<F, H> {
    TaskState { future: None, queued: false, completed: true, waiting_for: None, ..s }
}

/// The state after a poll of length `duration` ended at `finished_at`, before
/// its outcome is looked at.
pub open spec fn poll_over<F, H>(
    s: TaskState<F, H>,
    duration: Duration,
    finished_at: Instant,
) -> TaskState<F, H> {
    TaskState {
        polling: false,
        total_poll_time: (s.total_poll_time + duration) as TotalDuration,
        last_poll_finished_at: Some(finished_at),
        ..s
    }
}

/// The state after the future is handed out for a poll that starts at `at`.
pub open spec fn after_take<F, H>(s: TaskState<F, H>, at: Instant) -> TaskState<F, H> {
    if s.future is Some {
        TaskState {
            queued: false,
            future: None,
            polling: true,
            waiting_for: None,
            last_poll_started_at: Some(at),
            poll_count: (s.poll_count + 1) as u64,
            ..s
        }
    } else {
        TaskState { queued: false, ..s }
    }
}

/// The state after a wakeup at `now`: queued, unless it is so already or the
/// task has ended.
pub open spec fn after_wakeup<F, H>(s: TaskState<F, H>, now: Instant) -> TaskState<F, H> {
    if !s.queued && s.is_live() {
        TaskState { queued: true, waiting_for: None, last_scheduled_at: Some(now), ..s }
    } else {
        s
    }
}

/// The state after someone asked for the cancellation.
pub open spec fn after_cancel<F, H>(s: TaskState<F, H>) -> TaskState<F, H> {
    if !s.is_live() {
        s
    } else if s.polling {
        TaskState { cancel_requested: true, ..s }
    } else {
        ended(TaskState { cancel_requested: true, ..s })
    }
}

/// The state after the executor went away.
pub open spec fn after_drop<F, H>(s: TaskState<F, H>) -> TaskState<F, H> {
    if s.polling {
        TaskState { cancel_requested: true, ..s }
    } else {
        ended(TaskState { cancel_requested: true, ..s })
    }
}

/// The state after the running poll registered interest in `wait`.
pub open spec fn after_wait<F, H>(s: TaskState<F, H>, wait: TaskWait) -> TaskState<F, H> {
    if s.polling && !s.completed {
        TaskState { waiting_for: Some(wait), ..s }
    } else {
        s
    }
}

impl<F, H> TaskState<F, H> {
    /// Whether the task can still run: it has its future, or a poll holds it.
    pub open spec fn is_live(&self) -> bool {
        self.future is Some || self.polling
    }

    /// The coarse status shown in snapshots.
    pub open spec fn status(&self) -> TaskStatus {
        if self.completed && self.cancel_requested {
            TaskStatus::Cancelled
        } else if self.completed {
            TaskStatus::Completed
        } else if self.polling {
            TaskStatus::Polling
        } else if self.queued {
            TaskStatus::Queued
        } else {
            TaskStatus::Waiting
        }
    }

    /// What holds of a task from its creation on, between calls made in the
    /// order of the lifecycle: a poll takes the future out, a finished task has
    /// none, and the poll time fits the number of polls.
    pub open spec fn wf(&self) -> bool {
        &&& self.polling ==> self.future is None && !self.completed
        &&& self.completed <==> !self.is_live()
        &&& self.total_poll_time <= self.poll_count * u64::MAX
        &&& self.polling ==> self.total_poll_time <= (self.poll_count - 1) * u64::MAX
        &&& self.last_poll_started_at is Some <==> self.poll_count > 0
        &&& self.polling ==> self.poll_count > 0
        &&& self.completed ==> self.waiting_for is None
    }

    /// A task that has not been scheduled yet.
    pub fn new(future: F, panic_handler: Option<H>) -> (s: Self)
        ensures
            s.wf(),
            s == (TaskState {
                future: Some(future),
                panic_handler,
                queued: false,
                polling: false,
                cancel_requested: false,
                completed: false,
                poll_count: 0,
                total_poll_time: 0,
                waiting_for: None,
                last_scheduled_at: None,
                last_poll_started_at: None,
                last_poll_finished_at: None,
            }),
    {
        TaskState {
            future: Some(future),
            panic_handler,
            queued: false,
            polling: false,
            cancel_requested: false,
            completed: false,
            poll_count: 0,
            total_poll_time: 0,
            waiting_for: None,
            last_scheduled_at: None,
            last_poll_started_at: None,
            last_poll_finished_at: None,
        }
    }

    /// Hands out the future for a poll that starts now, or nothing where the
    /// task has no future to poll. Either way the task leaves the ready queue.
    pub fn take_future_for_poll(&mut self, poll_started_at: Instant) -> (future: Option<F>)
        requires
            old(self).future is Some ==> old(self).poll_count < u64::MAX,
        ensures
            future == old(self).future,
            *final(self) == after_take(*old(self), poll_started_at),
            old(self).wf() ==> final(self).wf(),
    {
        self.queued = false;
        let future = self.future.take();
        if future.is_some() {
            self.polling = true;
            self.waiting_for = None;
            self.last_poll_started_at = Some(poll_started_at);
            self.poll_count = self.poll_count + 1;
        }
        future
    }

    /// Ends the poll that completed the future.
    pub fn finish_ready(&mut self, poll_duration: Duration, poll_finished_at: Instant)
        requires
            old(self).total_poll_time + poll_duration <= u128::MAX,
        ensures
            *final(self) == (TaskState {
                completed: true,
                waiting_for: None,
                ..poll_over(*old(self), poll_duration, poll_finished_at)
            }),
            old(self).wf() && old(self).polling ==> final(self).wf(),
    {
        self.polling = false;
        self.completed = true;
        self.waiting_for = None;
        self.total_poll_time = self.total_poll_time + poll_duration as u128;
        self.last_poll_finished_at = Some(poll_finished_at);
    }

    /// Ends a poll that left the future pending. Returns whether the task is
    /// cancelled by that: the future is kept only where no one asked for the
    /// cancellation while it was polled.
    pub fn finish_pending(
        &mut self,
        future: F,
        poll_duration: Duration,
        poll_finished_at: Instant,
    ) -> (cancelled: bool)
        requires
            old(self).total_poll_time + poll_duration <= u128::MAX,
        ensures
            cancelled == old(self).cancel_requested,
            cancelled ==> *final(self) == (TaskState {
                completed: true,
                waiting_for: None,
                ..poll_over(*old(self), poll_duration, poll_finished_at)
            }),
            !cancelled ==> *final(self) == (TaskState {
                future: Some(future),
                waiting_for: match old(self).waiting_for {
                    Some(wait) => Some(wait),
                    None => Some(TaskWait::Unknown),
                },
                ..poll_over(*old(self), poll_duration, poll_finished_at)
            }),
            old(self).wf() && old(self).polling ==> final(self).wf(),
    {
        self.polling = false;
        self.total_poll_time = self.total_poll_time + poll_duration as u128;
        self.last_poll_finished_at = Some(poll_finished_at);
        if self.waiting_for.is_none() {
            self.waiting_for = Some(TaskWait::Unknown);
        }
        if self.cancel_requested {
            self.completed = true;
            self.waiting_for = None;
            true
        } else {
            self.future = Some(future);
            false
        }
    }

    /// Ends a poll that panicked. Returns the panic handler the first time.
    pub fn finish_panicked(&mut self, poll_duration: Duration, poll_finished_at: Instant) -> (handler:
        Option<H>)
        requires
            old(self).total_poll_time + poll_duration <= u128::MAX,
        ensures
            handler == old(self).panic_handler,
            *final(self) == (TaskState {
                future: None,
                completed: true,
                waiting_for: None,
                panic_handler: None,
                ..poll_over(*old(self), poll_duration, poll_finished_at)
            }),
            old(self).wf() && old(self).polling ==> final(self).wf(),
    {
        self.polling = false;
        self.future = None;
        self.completed = true;
        self.waiting_for = None;
        self.total_poll_time = self.total_poll_time + poll_duration as u128;
        self.last_poll_finished_at = Some(poll_finished_at);
        self.panic_handler.take()
    }

    /// Marks the task as queued. Returns whether the caller has to queue it:
    /// not where it is queued already, and not where it has ended.
    pub fn mark_queued(&mut self, now: Instant) -> (newly_queued: bool)
        ensures
            newly_queued == (!old(self).queued && old(self).is_live()),
            *final(self) == after_wakeup(*old(self), now),
            old(self).wf() ==> final(self).wf(),
    {
        if self.queued || (self.future.is_none() && !self.polling) {
            return false;
        }
        self.queued = true;
        self.waiting_for = None;
        self.last_scheduled_at = Some(now);
        true
    }

    /// Asks for the task's cancellation. Returns nothing where it has ended,
    /// otherwise whether it ended here: a task that is being polled ends when
    /// that poll does.
    pub fn cancel(&mut self) -> (ended_now: Option<bool>)
        ensures
            ended_now == if old(self).is_live() {
                Some(!old(self).polling)
            } else {
                None
            },
            *final(self) == after_cancel(*old(self)),
            old(self).wf() ==> final(self).wf(),
    {
        if self.future.is_none() && !self.polling {
            return None;
        }
        self.cancel_requested = true;
        if self.polling {
            Some(false)
        } else {
            self.future = None;
            self.queued = false;
            self.completed = true;
            self.waiting_for = None;
            Some(true)
        }
    }

    /// Drops the task's future when its executor goes away.
    pub fn drop_future(&mut self)
        ensures
            *final(self) == after_drop(*old(self)),
            old(self).wf() ==> final(self).wf(),
    {
        self.cancel_requested = true;
        if !self.polling {
            self.future = None;
            self.queued = false;
            self.completed = true;
            self.waiting_for = None;
        }
    }

    /// Forgets the queue entry, after a scheduler refused it.
    pub fn clear_queued(&mut self)
        ensures
            *final(self) == (TaskState { queued: false, ..*old(self) }),
            old(self).wf() ==> final(self).wf(),
    {
        self.queued = false;
    }

    /// Records what the running poll registered interest in. Outside a poll it
    /// changes nothing.
    pub fn set_waiting_for(&mut self, waiting_for: TaskWait)
        ensures
            *final(self) == after_wait(*old(self), waiting_for),
            old(self).wf() ==> final(self).wf(),
    {
        if self.polling && !self.completed {
            self.waiting_for = Some(waiting_for);
        }
    }

    /// Owned summary of the task.
    pub fn snapshot(
        &self,
        id: TaskId,
        name: Option<String>,
        scheduling_group_id: SchedulingGroupId,
        created_at: Instant,
    ) -> (snapshot: TaskSnapshot)
        ensures
            snapshot == (TaskSnapshot {
                id,
                name,
                scheduling_group_id,
                scheduling_group_name: None,
                status: self.status(),
                waiting_for: self.waiting_for,
                poll_count: self.poll_count,
                total_poll_time: self.total_poll_time,
                created_at,
                last_scheduled_at: self.last_scheduled_at,
                last_poll_started_at: self.last_poll_started_at,
                last_poll_finished_at: self.last_poll_finished_at,
            }),
    {
        let status = if self.completed && self.cancel_requested {
            TaskStatus::Cancelled
        } else if self.completed {
            TaskStatus::Completed
        } else if self.polling {
            TaskStatus::Polling
        } else if self.queued {
            TaskStatus::Queued
        } else {
            TaskStatus::Waiting
        };
        TaskSnapshot {
            id,
            name,
            scheduling_group_id,
            scheduling_group_name: None,
            status,
            waiting_for: self.waiting_for,
            poll_count: self.poll_count,
            total_poll_time: self.total_poll_time,
            created_at,
            last_scheduled_at: self.last_scheduled_at,
            last_poll_started_at: self.last_poll_started_at,
            last_poll_finished_at: self.last_poll_finished_at,
        }
    }
}

/// A task's status is the first of these that holds: it has ended, by cancellation or
/// otherwise; a poll is running; it is queued; else it waits.
pub proof fn status_tells_what_the_task_does<F, H>(s: TaskState<F, H>)
    requires
        s.wf(),
    ensures
        s.status() == TaskStatus::Cancelled <==> s.completed && s.cancel_requested,
        s.status() == TaskStatus::Completed <==> s.completed && !s.cancel_requested,
        s.status() == TaskStatus::Polling <==> s.polling,
        s.status() == TaskStatus::Queued <==> !s.completed && !s.polling && s.queued,
        s.status() == TaskStatus::Waiting <==> !s.completed && !s.polling && !s.queued,
        s.is_live() <==> s.future is Some || s.polling,
        s.is_live() <==> !s.completed,
{
}

/// A wakeup queues a task that has not ended and is not queued, at that instant, and ends
/// its wait; on any other task it does nothing. It touches no poll record and no future.
pub proof fn wakeup_queues_a_live_task<F, H>(s: TaskState<F, H>, now: Instant)
    requires
        s.wf(),
    ensures
        ({
            let woken = after_wakeup(s, now);
            &&& s.completed || s.queued ==> woken == s
            &&& !s.completed && !s.queued ==> woken.queued && woken.waiting_for is None
                && woken.last_scheduled_at == Some(now)
            &&& woken.future == s.future && woken.polling == s.polling && woken.completed
                == s.completed && woken.cancel_requested == s.cancel_requested
                && woken.panic_handler == s.panic_handler
            &&& woken.poll_count == s.poll_count && woken.total_poll_time == s.total_poll_time
                && woken.last_poll_started_at == s.last_poll_started_at
                && woken.last_poll_finished_at == s.last_poll_finished_at
        }),
{
}

/// A cancellation, and the end of the executor, end a task that is not being polled at
/// once: its future is dropped and it leaves the queue. One that is being polled is only
/// marked. The poll record stays.
pub proof fn cancellation_drops_the_future<F, H>(s: TaskState<F, H>)
    requires
        s.wf(),
    ensures
        ({
            let end = after_cancel(s);
            let dropped = after_drop(s);
            &&& s.completed ==> end == s
            &&& !s.completed ==> end.cancel_requested && end == dropped
            &&& dropped.cancel_requested
            &&& s.polling ==> dropped.polling && !dropped.completed && dropped.queued == s.queued
                && dropped.waiting_for == s.waiting_for
            &&& !s.polling ==> dropped.completed && dropped.future is None && !dropped.queued
                && dropped.waiting_for is None
            &&& dropped.poll_count == s.poll_count && dropped.total_poll_time == s.total_poll_time
                && dropped.panic_handler == s.panic_handler && dropped.last_scheduled_at
                == s.last_scheduled_at && dropped.last_poll_started_at == s.last_poll_started_at
                && dropped.last_poll_finished_at == s.last_poll_finished_at
        }),
{
}

/// What a task waits for is noted while it is polled, and at no other time.
pub proof fn wait_is_noted_during_a_poll<F, H>(s: TaskState<F, H>, wait: TaskWait)
    requires
        s.wf(),
    ensures
        s.polling ==> after_wait(s, wait).waiting_for == Some(wait),
        !s.polling ==> after_wait(s, wait) == s,
        after_wait(s, wait).future == s.future && after_wait(s, wait).queued == s.queued
            && after_wait(s, wait).polling == s.polling && after_wait(s, wait).completed
            == s.completed && after_wait(s, wait).cancel_requested == s.cancel_requested
            && after_wait(s, wait).poll_count == s.poll_count && after_wait(
            s,
            wait,
        ).total_poll_time == s.total_poll_time,
{
}

/// A poll takes the future of a task that has one, and is counted; a task without one
/// only leaves the queue.
pub proof fn poll_takes_the_future<F, H>(s: TaskState<F, H>, at: Instant)
    requires
        s.wf(),
        s.poll_count < u64::MAX,
    ensures
        ({
            let taken = after_take(s, at);
            &&& taken.future is None && !taken.queued
            &&& s.future is Some ==> taken.polling && taken.poll_count == s.poll_count + 1
                && taken.last_poll_started_at == Some(at) && taken.waiting_for is None
            &&& s.future is None ==> taken.polling == s.polling && taken.poll_count == s.poll_count
                && taken.last_poll_started_at == s.last_poll_started_at && taken.waiting_for
                == s.waiting_for
            &&& taken.completed == s.completed && taken.cancel_requested == s.cancel_requested
                && taken.total_poll_time == s.total_poll_time && taken.last_scheduled_at
                == s.last_scheduled_at && taken.last_poll_finished_at == s.last_poll_finished_at
                && taken.panic_handler == s.panic_handler
        }),
{
}

/// The end of a poll adds its length to the time polled and is on record.
pub proof fn poll_length_is_added_up<F, H>(
    s: TaskState<F, H>,
    duration: Duration,
    finished_at: Instant,
)
    requires
        s.total_poll_time + duration <= u128::MAX,
    ensures
        poll_over(s, duration, finished_at).total_poll_time - s.total_poll_time == duration,
        poll_over(s, duration, finished_at).last_poll_finished_at == Some(finished_at),
        !poll_over(s, duration, finished_at).polling,
        poll_over(s, duration, finished_at).poll_count == s.poll_count,
        poll_over(s, duration, finished_at).queued == s.queued,
        poll_over(s, duration, finished_at).future == s.future,
{
}

} // verus!
