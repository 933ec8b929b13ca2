//! A spawned task: its identity and its lifecycle state.

use vstd::prelude::*;

use crate::executor::task_state::{
    after_cancel, after_drop, after_take, after_wait, after_wakeup, poll_over, TaskState,
};
use crate::executor::types::{SchedulingGroupId, TaskId, TaskSnapshot, TaskStatus, TaskWait};
use crate::time::{elapsed, saturating_duration_since, Duration, Instant};

verus! {

/// One spawned task. `F` is its future, `H` its panic handler.
pub struct Task<F, H> {
    /// Executor-local identifier.
    pub id: TaskId,
    /// Name supplied by the spawner.
    pub name: Option<String>,
    /// Group whose ready queue holds the task.
    pub scheduling_group_id: SchedulingGroupId,
    /// When the task was created.
    pub created_at: Instant,
    /// Lifecycle state.
    pub state: TaskState<F, H>,
}

/// How one poll of a task's future ended.
pub enum PollOutcome<F> {
    /// The future completed.
    Ready,
    /// The future is still pending and is handed back.
    Pending(F),
    /// The poll panicked and the future is gone.
    Panicked,
}

/// What the caller owes the scheduler and the panic handler after a poll.
pub struct PollReport<H> {
    /// Group to charge for the poll.
    pub scheduling_group_id: SchedulingGroupId,
    /// Time the poll took.
    pub poll_duration: Duration,
    /// Whether the task reached its end, so that the scheduler counts it off.
    pub finished: bool,
    /// Whether the reactor has to be woken.
    pub wake_reactor: bool,
    /// Handler owed the panic payload.
    pub panic_handler: Option<H>,
}

/// What a request to cancel a task came to.
#[derive(Debug, Clone, Copy, PartialEq, Eq, Structural)]
pub struct CancelReport {
    /// Whether there was a running task to cancel.
    pub accepted: bool,
    /// Whether the task reached its end, so that the scheduler counts it off.
    pub finished: bool,
    /// Whether the reactor has to be woken.
    pub wake_reactor: bool,
}

/// The optional name `b` has the text of the optional name `a`.
pub open spec fn same_name(a: Option<String>, b: Option<String>) -> bool {
    match (a, b) {
        (None, None) => true,
        (Some(x), Some(y)) => x@ == y@,
        _ => false,
    }
}

/// Copies an optional name.
pub fn clone_name(name: &Option<String>) -> (copy: Option<String>)
    ensures
        same_name(*name, copy),
{
    match name {
        None => None,
        Some(text) => Some(text.clone()),
    }
}

/// The task state after a poll that began at `started_at` and ended at
/// `finished_at` with `outcome`.
pub open spec fn state_after_poll<F, H>(
    s: TaskState<F, H>,
    outcome: PollOutcome<F>,
    started_at: Instant,
    finished_at: Instant,
) -> TaskState<F, H> {
    let over = poll_over(s, elapsed(finished_at, started_at), finished_at);
    match outcome {
        PollOutcome::Ready => TaskState { completed: true, waiting_for: None, ..over },
        PollOutcome::Pending(future) => if s.cancel_requested {
            TaskState { completed: true, waiting_for: None, ..over }
        } else {
            TaskState {
                future: Some(future),
                waiting_for: match s.waiting_for {
                    Some(wait) => Some(wait),
                    None => Some(TaskWait::Unknown),
                },
                ..over
            }
        },
        PollOutcome::Panicked => TaskState {
            future: None,
            completed: true,
            waiting_for: None,
            panic_handler: None,
            ..over
        },
    }
}

impl<F, H> Task<F, H> {
    /// What holds of a task between calls made in the order of its lifecycle.
    pub open spec fn wf(&self) -> bool {
        self.state.wf()
    }

    /// A task of the default group or of another one, not scheduled yet.
    pub fn new_in_group(
        id: TaskId,
        name: Option<String>,
        scheduling_group_id: SchedulingGroupId,
        future: F,
        panic_handler: Option<H>,
        created_at: Instant,
    ) -> (task: Self)
        ensures
            task.wf(),
            task.id == id,
            task.name == name,
            task.scheduling_group_id == scheduling_group_id,
            task.created_at == created_at,
            task.state == (TaskState {
                future: Some(future),
                panic_handler,
                queued: false,
                polling: false,
                cancel_requested: false,
                completed: false,
                poll_count: 0,
                total_poll_time: 0,
                waiting_for: None,
                last_scheduled_at: None,
                last_poll_started_at: None,
                last_poll_finished_at: None,
            }),
    {
        Task {
            id,
            name,
            scheduling_group_id,
            created_at,
            state: TaskState::new(future, panic_handler),
        }
    }

    /// Group whose ready queue holds the task.
    pub fn scheduling_group_id(&self) -> (id: SchedulingGroupId)
        ensures
            id == self.scheduling_group_id,
    {
        self.scheduling_group_id
    }

    /// Starts a poll: hands out the future, or nothing where the task has ended
    /// or another poll holds the future. The task leaves the ready queue.
    pub fn begin_poll(&mut self, poll_started_at: Instant) -> (future: Option<F>)
        requires
            old(self).wf(),
            old(self).state.poll_count < u64::MAX,
        ensures
            final(self).wf(),
            future == old(self).state.future,
            *final(self) == (Task { state: after_take(old(self).state, poll_started_at), ..*old(self) }),
    {
        self.state.take_future_for_poll(poll_started_at)
    }

    /// Ends the poll that `begin_poll` started at `poll_started_at`: a task that
    /// completed, panicked, or was cancelled while it was polled has reached its
    /// end; one that is pending gets its future back.
    pub fn finish_poll(
        &mut self,
        outcome: PollOutcome<F>,
        poll_started_at: Instant,
        poll_finished_at: Instant,
    ) -> (report: PollReport<H>)
        requires
            old(self).wf(),
            old(self).state.polling,
        ensures
            final(self).wf(),
            *final(self) == (Task {
                state: state_after_poll(
                    old(self).state,
                    outcome,
                    poll_started_at,
                    poll_finished_at,
                ),
                ..*old(self)
            }),
            report == (PollReport {
                scheduling_group_id: old(self).scheduling_group_id,
                poll_duration: elapsed(poll_finished_at, poll_started_at),
                finished: !(outcome is Pending) || old(self).state.cancel_requested,
                wake_reactor: outcome is Pending && old(self).state.cancel_requested,
                panic_handler: if outcome is Panicked {
                    old(self).state.panic_handler
                } else {
                    None
                },
            }),
            report.finished == final(self).state.completed,
    {
        let poll_duration: Duration = saturating_duration_since(poll_finished_at, poll_started_at);
        let scheduling_group_id = self.scheduling_group_id;
        match outcome {
            PollOutcome::Ready => {
                self.state.finish_ready(poll_duration, poll_finished_at);
                PollReport {
                    scheduling_group_id,
                    poll_duration,
                    finished: true,
                    wake_reactor: false,
                    panic_handler: None,
                }
            },
            PollOutcome::Pending(future) => {
                let cancelled = self.state.finish_pending(future, poll_duration, poll_finished_at);
                PollReport {
                    scheduling_group_id,
                    poll_duration,
                    finished: cancelled,
                    wake_reactor: cancelled,
                    panic_handler: None,
                }
            },
            PollOutcome::Panicked => {
                let panic_handler = self.state.finish_panicked(poll_duration, poll_finished_at);
                PollReport {
                    scheduling_group_id,
                    poll_duration,
                    finished: true,
                    wake_reactor: false,
                    panic_handler,
                }
            },
        }
    }

    /// Marks the task as queued; false where it is queued already or has ended.
    pub fn mark_queued(&mut self, now: Instant) -> (newly_queued: bool)
        ensures
            newly_queued == (!old(self).state.queued && old(self).state.is_live()),
            *final(self) == (Task { state: after_wakeup(old(self).state, now), ..*old(self) }),
            old(self).wf() ==> final(self).wf(),
    {
        self.state.mark_queued(now)
    }

    /// Asks for the task's cancellation: it ends here, or, where a poll holds
    /// its future, when that poll ends. A task that has ended is left alone.
    pub fn cancel(&mut self) -> (report: CancelReport)
        ensures
            report == (CancelReport {
                accepted: old(self).state.is_live(),
                finished: old(self).state.is_live() && !old(self).state.polling,
                wake_reactor: old(self).state.is_live(),
            }),
            *final(self) == (Task { state: after_cancel(old(self).state), ..*old(self) }),
            old(self).wf() ==> final(self).wf(),
    {
        match self.state.cancel() {
            None => CancelReport { accepted: false, finished: false, wake_reactor: false },
            Some(finished) => CancelReport { accepted: true, finished, wake_reactor: true },
        }
    }

    /// Drops the task's future when its executor goes away.
    pub fn drop_future(&mut self)
        ensures
            *final(self) == (Task { state: after_drop(old(self).state), ..*old(self) }),
            old(self).wf() ==> final(self).wf(),
    {
        self.state.drop_future();
    }

    /// Forgets the queue entry, after a scheduler refused it.
    pub fn clear_queued(&mut self)
        ensures
            *final(self) == (Task {
                state: TaskState { queued: false, ..old(self).state },
                ..*old(self)
            }),
            old(self).wf() ==> final(self).wf(),
    {
        self.state.clear_queued();
    }

    /// Records what the running poll registered interest in.
    pub fn set_waiting_for(&mut self, waiting_for: TaskWait)
        ensures
            *final(self) == (Task { state: after_wait(old(self).state, waiting_for), ..*old(self) }),
            old(self).wf() ==> final(self).wf(),
    {
        self.state.set_waiting_for(waiting_for);
    }

    /// Owned summary of the task.
    pub fn snapshot(&self) -> (snapshot: TaskSnapshot)
        ensures
            same_name(self.name, snapshot.name),
            snapshot == (TaskSnapshot {
                id: self.id,
                name: snapshot.name,
                scheduling_group_id: self.scheduling_group_id,
                scheduling_group_name: None,
                status: self.state.status(),
                waiting_for: self.state.waiting_for,
                poll_count: self.state.poll_count,
                total_poll_time: self.state.total_poll_time,
                created_at: self.created_at,
                last_scheduled_at: self.state.last_scheduled_at,
                last_poll_started_at: self.state.last_poll_started_at,
                last_poll_finished_at: self.state.last_poll_finished_at,
            }),
    {
        self.state.snapshot(
            self.id,
            clone_name(&self.name),
            self.scheduling_group_id,
            self.created_at,
        )
    }
}

/// A task that has ended stays as it is: no poll gets a future, no wakeup queues
/// it, no cancellation is accepted and no wait interest is recorded.
pub proof fn ended_task_is_final<F, H>(
    s: TaskState<F, H>,
    at: Instant,
    wait: TaskWait,
)
    requires
        s.wf(),
        s.completed,
    ensures
        s.future is None,
        after_take(s, at) == (TaskState { queued: false, ..s }),
        after_wakeup(s, at) == s,
        after_cancel(s) == s,
        after_wait(s, wait) == s,
        after_take(s, at).status() == s.status(),
{
}

/// Cancellation is cooperative: while a poll holds the future, a cancellation
/// leaves the task polling, and the poll's end is then the task's end, whatever
/// the poll came to. A future that is still pending is not kept.
pub proof fn cancellation_waits_for_the_poll<F, H>(
    s: TaskState<F, H>,
    outcome: PollOutcome<F>,
    started_at: Instant,
    finished_at: Instant,
)
    requires
        s.wf(),
        s.polling,
    ensures
        after_cancel(s).polling,
        after_cancel(s).wf(),
        ({
            let end = state_after_poll(after_cancel(s), outcome, started_at, finished_at);
            end.completed && end.future is None && end.status() == TaskStatus::Cancelled
        }),
{
}

/// A task that is cancelled outside a poll is cancelled at once, and a second
/// cancellation changes nothing.
pub proof fn cancellation_outside_a_poll_is_immediate<F, H>(s: TaskState<F, H>)
    requires
        s.wf(),
        s.is_live(),
        !s.polling,
    ensures
        after_cancel(s).status() == TaskStatus::Cancelled,
        !after_cancel(s).is_live(),
        after_cancel(after_cancel(s)) == after_cancel(s),
{
}

/// Wakeups before the next poll share one queue entry: only the first of two
/// asks the caller to queue the task.
pub proof fn repeated_wakeups_queue_once<F, H>(s: TaskState<F, H>, first: Instant, second: Instant)
    requires
        s.wf(),
    ensures
        after_wakeup(after_wakeup(s, first), second) == after_wakeup(s, first),
{
}

/// A pending poll hands the future back untouched and leaves the task waiting,
/// with the interest it registered last or else an unknown one.
pub proof fn pending_poll_keeps_the_future<F, H>(
    s: TaskState<F, H>,
    future: F,
    wait: Option<TaskWait>,
    at: Instant,
    finished_at: Instant,
)
    requires
        s.wf(),
        s.future == Some(future),
        s.poll_count < u64::MAX,
        !s.cancel_requested,
    ensures
        ({
            let polling = match wait {
                Some(wait) => after_wait(after_take(s, at), wait),
                None => after_take(s, at),
            };
            let end = state_after_poll(polling, PollOutcome::Pending(future), at, finished_at);
            &&& end.future == Some(future)
            &&& end.waiting_for == Some(
                match wait {
                    Some(wait) => wait,
                    None => TaskWait::Unknown,
                },
            )
            &&& end.status() == TaskStatus::Waiting
            &&& end.poll_count == s.poll_count + 1
        }),
{
}

/// A wakeup during a poll is not lost: a poll that ends pending leaves the task
/// queued, with its future.
pub proof fn wakeup_during_a_poll_queues_the_task<F, H>(
    s: TaskState<F, H>,
    future: F,
    at: Instant,
    woken_at: Instant,
    finished_at: Instant,
)
    requires
        s.wf(),
        s.future == Some(future),
        s.poll_count < u64::MAX,
        !s.cancel_requested,
    ensures
        ({
            let woken = after_wakeup(after_take(s, at), woken_at);
            let end = state_after_poll(woken, PollOutcome::Pending(future), at, finished_at);
            &&& end.queued
            &&& end.future == Some(future)
            &&& end.status() == TaskStatus::Queued
            &&& end.last_scheduled_at == Some(woken_at)
            &&& end.poll_count == s.poll_count + 1
        }),
{
}

/// A poll from start to end is counted once, takes the time between its two instants, and
/// leaves both on record. Whatever it comes to, it does not touch when the task was last
/// queued, nor whether it is.
pub proof fn poll_is_counted_and_timed<F, H>(
    s: TaskState<F, H>,
    outcome: PollOutcome<F>,
    started_at: Instant,
    finished_at: Instant,
)
    requires
        s.wf(),
        s.future is Some,
        s.poll_count < u64::MAX,
    ensures
        ({
            let polling = after_take(s, started_at);
            let end = state_after_poll(polling, outcome, started_at, finished_at);
            &&& polling.polling && polling.future is None && !polling.queued
            &&& polling.last_poll_started_at == Some(started_at)
            &&& polling.waiting_for is None
            &&& polling.total_poll_time == s.total_poll_time
            &&& polling.last_scheduled_at == s.last_scheduled_at
            &&& polling.last_poll_finished_at == s.last_poll_finished_at
            &&& polling.cancel_requested == s.cancel_requested
            &&& polling.panic_handler == s.panic_handler
            &&& !end.polling && !end.queued
            &&& end.poll_count == s.poll_count + 1
            &&& finished_at >= started_at ==> end.total_poll_time == s.total_poll_time + (
            finished_at - started_at)
            &&& finished_at < started_at ==> end.total_poll_time == s.total_poll_time
            &&& end.last_poll_started_at == Some(started_at)
            &&& end.last_poll_finished_at == Some(finished_at)
            &&& end.last_scheduled_at == s.last_scheduled_at
            &&& end.cancel_requested == s.cancel_requested
        }),
{
    assert(s.total_poll_time <= s.poll_count * u64::MAX);
    assert(s.poll_count * u64::MAX <= u64::MAX * u64::MAX) by (nonlinear_arith)
        requires
            s.poll_count <= u64::MAX,
    ;
}

/// A poll ends the task where its future completed or panicked, or where the task was
/// cancelled meanwhile; otherwise the task has its future back. The handler of a panic
/// is used up by the panic and by nothing else.
pub proof fn poll_ends_the_task_or_keeps_its_future<F, H>(
    s: TaskState<F, H>,
    outcome: PollOutcome<F>,
    started_at: Instant,
    finished_at: Instant,
)
    requires
        s.wf(),
        s.polling,
    ensures
        ({
            let end = state_after_poll(s, outcome, started_at, finished_at);
            &&& end.completed <==> !(outcome is Pending) || s.cancel_requested
            &&& end.completed ==> end.future is None && end.waiting_for is None
            &&& !end.completed ==> outcome == PollOutcome::Pending(end.future->0) && end.future is Some
                && end.waiting_for == Some(
                match s.waiting_for {
                    Some(wait) => wait,
                    None => TaskWait::Unknown,
                },
            )
            &&& outcome is Panicked ==> end.panic_handler is None
            &&& !(outcome is Panicked) ==> end.panic_handler == s.panic_handler
            &&& end.queued == s.queued
            &&& end.status() == if s.cancel_requested {
                TaskStatus::Cancelled
            } else if !(outcome is Pending) {
                TaskStatus::Completed
            } else if s.queued {
                TaskStatus::Queued
            } else {
                TaskStatus::Waiting
            }
        }),
{
}

/// A copied name is the name: absent where it was, and else the same text.
pub proof fn copied_name_is_the_name(name: Option<String>, copy: Option<String>)
    requires
        same_name(name, copy),
    ensures
        name is None <==> copy is None,
        name is Some ==> copy->0@ == name->0@,
{
}

} // verus!
