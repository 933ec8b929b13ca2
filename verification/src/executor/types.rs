//! Identifiers and owned snapshots of executor state.

use vstd::prelude::*;

use crate::time::{elapsed, saturating_duration_since, Duration, Instant, TotalDuration};

verus! {

/// Identifier assigned to an executor scheduling group.
#[must_use]
#[derive(Debug, Clone, Copy, PartialEq, Eq, Structural, Hash, PartialOrd, Ord)]
pub struct SchedulingGroupId(pub usize);

/// Number of the default scheduling group used by ordinary spawns.
pub const DEFAULT_SCHEDULING_GROUP_ID: usize = 0;

/// Relative weight assigned to the default scheduling group.
pub const DEFAULT_SCHEDULING_GROUP_SHARES: u32 = 100;

/// Identifier assigned to a task when it is spawned.
#[must_use]
#[derive(Debug, Clone, Copy, PartialEq, Eq, Structural, Hash, PartialOrd, Ord)]
pub struct TaskId(pub usize);

/// Coarse lifecycle state for a task in an executor snapshot.
#[must_use]
#[derive(Debug, Clone, Copy, PartialEq, Eq, Structural)]
pub enum TaskStatus {
    /// The task is in the ready queue.
    Queued,
    /// The task is currently being polled.
    Polling,
    /// The task is pending and waiting for another wakeup.
    Waiting,
    /// The task completed normally.
    Completed,
    /// The task was canceled before completing.
    Cancelled,
}

/// What a pending task last registered interest in.
#[must_use]
#[derive(Debug, Clone, Copy, PartialEq, Eq, Structural)]
pub enum TaskWait {
    /// The task yielded or is waiting on an opaque waker.
    Unknown,
    /// The task is waiting for an executor timer.
    Timer {
        /// The instant at which the timer becomes ready.
        deadline: Instant,
    },
    /// The task is waiting for a file descriptor to become readable.
    Readable {
        /// File descriptor registered for readability.
        fd: i32,
    },
    /// The task is waiting for a file descriptor to become writable.
    Writable {
        /// File descriptor registered for writability.
        fd: i32,
    },
}

/// Owned point-in-time summary of one task.
#[must_use]
#[derive(Debug, Clone)]
pub struct TaskSnapshot {
    /// Executor-local task identifier.
    pub id: TaskId,
    /// Optional human-readable task name supplied by the spawner.
    pub name: Option<String>,
    /// Scheduling group the task belongs to.
    pub scheduling_group_id: SchedulingGroupId,
    /// Name of the scheduling group the task belongs to, if known.
    pub scheduling_group_name: Option<String>,
    /// Current coarse task lifecycle state.
    pub status: TaskStatus,
    /// Last wait interest registered by the task, if known.
    pub waiting_for: Option<TaskWait>,
    /// Number of times the task future has been polled.
    pub poll_count: u64,
    /// Total wall-clock time spent polling the task.
    pub total_poll_time: TotalDuration,
    /// When the task was created.
    pub created_at: Instant,
    /// When the task was last placed on the ready queue.
    pub last_scheduled_at: Option<Instant>,
    /// When the task's most recent poll started.
    pub last_poll_started_at: Option<Instant>,
    /// When the task's most recent poll finished.
    pub last_poll_finished_at: Option<Instant>,
}

/// The time from `earlier` to `now`, where there is an `earlier`.
pub open spec fn elapsed_since(now: Instant, earlier: Option<Instant>) -> Option<Duration> {
    match earlier {
        Some(instant) => Some(elapsed(now, instant)),
        None => None,
    }
}

fn duration_since_option(now: Instant, earlier: Option<Instant>) -> (d: Option<Duration>)
    ensures
        d == elapsed_since(now, earlier),
{
    match earlier {
        Some(instant) => Some(saturating_duration_since(now, instant)),
        None => None,
    }
}

impl TaskSnapshot {
    /// When the task entered the state that `status` names: a timestamp of the
    /// last change into it, or the creation time where there is none.
    pub open spec fn entered_state_at(&self) -> Instant {
        let entered = match self.status {
            TaskStatus::Queued => self.last_scheduled_at,
            TaskStatus::Polling => self.last_poll_started_at,
            TaskStatus::Waiting | TaskStatus::Completed | TaskStatus::Cancelled =>
                self.last_poll_finished_at,
        };
        match entered {
            Some(instant) => instant,
            None => self.created_at,
        }
    }

    /// Returns how long the task had existed at `now`.
    pub fn age_at(&self, now: Instant) -> (d: Duration)
        ensures
            d == elapsed(now, self.created_at),
    {
        saturating_duration_since(now, self.created_at)
    }

    /// Returns how long ago the task was last queued, if it has been queued.
    pub fn time_since_last_scheduled_at(&self, now: Instant) -> (d: Option<Duration>)
        ensures
            d == elapsed_since(now, self.last_scheduled_at),
    {
        duration_since_option(now, self.last_scheduled_at)
    }

    /// Returns how long ago the task's most recent poll started, if it has
    /// been polled.
    pub fn time_since_last_poll_started_at(&self, now: Instant) -> (d: Option<Duration>)
        ensures
            d == elapsed_since(now, self.last_poll_started_at),
    {
        duration_since_option(now, self.last_poll_started_at)
    }

    /// Returns how long ago the task's most recent poll finished, if a poll
    /// has finished.
    pub fn time_since_last_poll_finished_at(&self, now: Instant) -> (d: Option<Duration>)
        ensures
            d == elapsed_since(now, self.last_poll_finished_at),
    {
        duration_since_option(now, self.last_poll_finished_at)
    }

    /// Returns how long the task had been in its current coarse state at
    /// `now`.
    pub fn state_duration_at(&self, now: Instant) -> (d: Duration)
        ensures
            d == elapsed(now, self.entered_state_at()),
    {
        let entered = match self.status {
            TaskStatus::Queued => self.last_scheduled_at,
            TaskStatus::Polling => self.last_poll_started_at,
            TaskStatus::Waiting | TaskStatus::Completed | TaskStatus::Cancelled => {
                self.last_poll_finished_at
            },
        };
        let entered_state_at: Instant = match entered {
            Some(instant) => instant,
            None => self.created_at,
        };
        saturating_duration_since(now, entered_state_at)
    }
}

/// Owned point-in-time summary of one scheduling group.
#[must_use]
#[derive(Debug, Clone, PartialEq, Eq)]
pub struct SchedulingGroupSnapshot {
    /// Executor-local scheduling group identifier.
    pub id: SchedulingGroupId,
    /// Human-readable group name.
    pub name: String,
    /// Relative scheduling weight.
    pub shares: u32,
    /// Number of ready tasks currently queued in this group.
    pub ready_queue_len: usize,
    /// Weighted virtual runtime accumulated by this group.
    pub virtual_runtime: u128,
    /// Number of polls charged to this group.
    pub total_polls: u64,
    /// Total wall-clock poll time charged to this group.
    pub total_poll_time: TotalDuration,
}

/// The time since an instant is there where the instant is, and leads from it to now.
pub proof fn time_since_leads_to_now(now: Instant, earlier: Option<Instant>)
    ensures
        elapsed_since(now, earlier) is Some <==> earlier is Some,
        earlier matches Some(instant) ==> (instant <= now ==> instant + elapsed_since(
            now,
            earlier,
        )->0 == now) && (instant > now ==> elapsed_since(now, earlier)->0 == 0),
{
}

/// A task entered its state when it was last queued, when its poll began, or when its
/// last poll ended, whichever made that state; where that never happened, when it was
/// created.
pub proof fn state_was_entered_when_it_was_made(task: TaskSnapshot)
    ensures
        task.status == TaskStatus::Queued ==> task.entered_state_at() == (
        match task.last_scheduled_at {
            Some(instant) => instant,
            None => task.created_at,
        }),
        task.status == TaskStatus::Polling ==> task.entered_state_at() == (
        match task.last_poll_started_at {
            Some(instant) => instant,
            None => task.created_at,
        }),
        task.status != TaskStatus::Queued && task.status != TaskStatus::Polling
            ==> task.entered_state_at() == (match task.last_poll_finished_at {
            Some(instant) => instant,
            None => task.created_at,
        }),
{
}

} // verus!
