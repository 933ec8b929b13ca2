//! The executor's loop, as decisions.
//!
//! A loop polls ready tasks in batches, wakes what has expired, and waits for an
//! event only when nothing is ready. [`RunLoop`] decides what comes next;
//! polling and waiting happen outside.

use vstd::prelude::*;

use crate::executor::counters::{counted, SchedulerCounters};
use crate::executor::root::RootWaker;
use crate::executor::scheduler::Scheduler;
use crate::executor::snapshot::READY_POLL_BUDGET;
use crate::executor::task_set::{is_next_group, total_queued, GroupView, TaskSetView};
use crate::executor::types::{SchedulingGroupId, TaskId};
use crate::time::Duration;

verus! {

/// When a loop ends.
#[derive(Debug, Clone, Copy, PartialEq, Eq, Structural)]
pub enum RunMode {
    /// When all spawners and runnable tasks are gone.
    UntilDrained,
    /// When the root future completes.
    UntilRoot,
}

/// Where a loop stands.
#[derive(Debug, Clone, Copy, PartialEq, Eq, Structural)]
pub enum RunPhase {
    /// At the top.
    Start,
    /// Ready work has to be driven next.
    Drive,
    /// Ready work was driven.
    Driven,
}

/// What the caller does next.
#[derive(Debug, Clone, Copy, PartialEq, Eq, Structural)]
pub enum RunAction {
    /// Poll the root future. Where it completes, the loop is over.
    PollRoot,
    /// Poll a batch of ready tasks, wake expired timers and dispatch completions.
    DriveReadyWork,
    /// Wait for a driver event, apply it and wake expired timers.
    WaitForEvent,
    /// Leave the loop.
    Stop,
}

/// An executor loop.
#[derive(Debug, Clone, Copy, PartialEq, Eq, Structural)]
pub struct RunLoop {
    /// When it ends.
    pub mode: RunMode,
    /// Where it stands.
    pub phase: RunPhase,
}

/// What a loop does next, from whether the root future is ready, whether a task
/// is, and whether the executor is drained.
pub open spec fn run_decision(
    run: RunLoop,
    root_ready: bool,
    tasks_ready: bool,
    drained: bool,
) -> (RunAction, RunPhase) {
    match run.phase {
        RunPhase::Drive => (RunAction::DriveReadyWork, RunPhase::Driven),
        RunPhase::Start => if run.mode == RunMode::UntilRoot && root_ready {
            (RunAction::PollRoot, RunPhase::Drive)
        } else {
            (RunAction::DriveReadyWork, RunPhase::Driven)
        },
        RunPhase::Driven => match run.mode {
            RunMode::UntilDrained => if drained {
                (RunAction::Stop, RunPhase::Driven)
            } else if tasks_ready {
                (RunAction::DriveReadyWork, RunPhase::Driven)
            } else {
                (RunAction::WaitForEvent, RunPhase::Start)
            },
            RunMode::UntilRoot => if root_ready {
                (RunAction::PollRoot, RunPhase::Drive)
            } else if tasks_ready {
                (RunAction::DriveReadyWork, RunPhase::Driven)
            } else {
                (RunAction::WaitForEvent, RunPhase::Start)
            },
        },
    }
}

impl RunLoop {
    /// A loop at its top.
    pub fn new(mode: RunMode) -> (run: Self)
        ensures
            run == (RunLoop { mode, phase: RunPhase::Start }),
    {
        RunLoop { mode, phase: RunPhase::Start }
    }

    /// Decides what comes next. Deciding to poll the root future takes its
    /// readiness.
    pub fn next_action<W>(&mut self, root: &mut RootWaker, scheduler: &Scheduler<W>) -> (action:
        RunAction)
        requires
            scheduler.wf(),
        ensures
            ({
                let decision = run_decision(
                    *old(self),
                    old(root).ready,
                    total_queued(scheduler.tasks@.groups) > 0,
                    scheduler.tasks@.drained(),
                );
                &&& action == decision.0
                &&& *final(self) == (RunLoop { mode: old(self).mode, phase: decision.1 })
                &&& final(root).ready == (old(root).ready && action != RunAction::PollRoot)
            }),
    {
        match self.phase {
            RunPhase::Drive => {
                self.phase = RunPhase::Driven;
                RunAction::DriveReadyWork
            },
            RunPhase::Start => { self.top(root) },
            RunPhase::Driven => {
                match self.mode {
                    RunMode::UntilDrained => {
                        if scheduler.is_drained() {
                            return RunAction::Stop;
                        }
                        if scheduler.has_ready_tasks() {
                            return RunAction::DriveReadyWork;
                        }
                        self.phase = RunPhase::Start;
                        RunAction::WaitForEvent
                    },
                    RunMode::UntilRoot => {
                        if root.is_ready() || scheduler.has_ready_tasks() {
                            return self.top(root);
                        }
                        self.phase = RunPhase::Start;
                        RunAction::WaitForEvent
                    },
                }
            },
        }
    }

    fn top(&mut self, root: &mut RootWaker) -> (action: RunAction)
        ensures
            final(self).mode == old(self).mode,
            old(self).mode == RunMode::UntilRoot && old(root).ready ==> action
                == RunAction::PollRoot && final(self).phase == RunPhase::Drive
                    && !final(root).ready,
            !(old(self).mode == RunMode::UntilRoot && old(root).ready) ==> action
                == RunAction::DriveReadyWork && final(self).phase == RunPhase::Driven
                    && final(root).ready == old(root).ready,
    {
        match self.mode {
            RunMode::UntilRoot => {
                if root.take_ready() {
                    self.phase = RunPhase::Drive;
                    return RunAction::PollRoot;
                }
            },
            RunMode::UntilDrained => {},
        }
        self.phase = RunPhase::Driven;
        RunAction::DriveReadyWork
    }
}

/// One batch of ready tasks.
#[derive(Debug, Clone, Copy, PartialEq, Eq, Structural)]
pub struct ReadyBatch {
    /// Tasks taken so far.
    pub polled: usize,
}

impl ReadyBatch {
    /// No more is taken than the budget allows.
    pub open spec fn wf(&self) -> bool {
        self.polled <= READY_POLL_BUDGET
    }

    /// A batch that has taken nothing.
    pub fn new() -> (batch: Self)
        ensures
            batch.wf(),
            batch.polled == 0,
    {
        ReadyBatch { polled: 0 }
    }

    /// Takes the next task to poll, unless the budget is used up or no task is
    /// ready.
    pub fn next<W>(&mut self, scheduler: &mut Scheduler<W>) -> (task: Option<TaskId>)
        requires
            old(self).wf(),
            old(scheduler).wf(),
        ensures
            final(self).wf(),
            final(scheduler).wf(),
            *final(scheduler) == (Scheduler { tasks: final(scheduler).tasks, ..*old(scheduler) }),
            task is Some <==> old(self).polled < READY_POLL_BUDGET && total_queued(
                old(scheduler).tasks@.groups,
            ) > 0,
            task is None ==> *final(self) == *old(self)
                && final(scheduler).tasks@ == old(scheduler).tasks@,
            task is Some ==> final(self).polled == old(self).polled + 1 && exists|i: int|
                #![trigger is_next_group(old(scheduler).tasks@.groups, i)]
                is_next_group(old(scheduler).tasks@.groups, i) && task == Some(
                    old(scheduler).tasks@.groups[i].queue[0],
                ) && final(scheduler).tasks@ == (TaskSetView {
                    groups: old(scheduler).tasks@.groups.update(
                        i,
                        GroupView {
                            queue: old(scheduler).tasks@.groups[i].queue.drop_first(),
                            ..old(scheduler).tasks@.groups[i]
                        },
                    ),
                    ..old(scheduler).tasks@
                }),
    {
        if self.polled >= READY_POLL_BUDGET {
            return None;
        }
        match scheduler.next_task() {
            None => None,
            Some(task) => {
                self.polled = self.polled + 1;
                Some(task)
            },
        }
    }

    /// Charges the poll of a task of this batch to its group.
    pub fn record_poll<W>(
        &self,
        scheduler: &mut Scheduler<W>,
        group_id: SchedulingGroupId,
        poll_duration: Duration,
    )
        requires
            old(scheduler).wf(),
            old(scheduler).tasks.can_charge(group_id, poll_duration),
        ensures
            final(scheduler).wf(),
            *final(scheduler) == (Scheduler { tasks: final(scheduler).tasks, ..*old(scheduler) }),
            final(scheduler).tasks@ == old(scheduler).tasks@.charged(group_id, poll_duration),
    {
        scheduler.record_task_poll(group_id, poll_duration);
    }

    /// Counts the batch: its polls, and whether it used up the budget with tasks
    /// still ready.
    pub fn finish<W>(self, scheduler: &mut Scheduler<W>)
        requires
            self.wf(),
            old(scheduler).wf(),
            old(scheduler).counters.total_task_polls + self.polled <= u64::MAX,
            self.polled == READY_POLL_BUDGET && total_queued(old(scheduler).tasks@.groups) > 0
                ==> old(scheduler).counters.ready_poll_budget_exhaustions < u64::MAX,
        ensures
            final(scheduler).wf(),
            *final(scheduler) == (Scheduler {
                counters: SchedulerCounters {
                    total_task_polls: (old(scheduler).counters.total_task_polls
                        + self.polled) as u64,
                    ready_poll_budget_exhaustions: counted(
                        old(scheduler).counters.ready_poll_budget_exhaustions,
                        self.polled == READY_POLL_BUDGET && total_queued(
                            old(scheduler).tasks@.groups,
                        ) > 0,
                    ),
                    ..old(scheduler).counters
                },
                ..*old(scheduler)
            }),
    {
        let exhausted = self.polled == READY_POLL_BUDGET && scheduler.has_ready_tasks();
        scheduler.record_ready_poll_batch(self.polled, exhausted);
    }
}

/// A loop waits only when nothing is ready, stops only when the executor is
/// drained, and polls the root future only when it was woken.
pub proof fn loop_never_waits_on_ready_work(
    run: RunLoop,
    root_ready: bool,
    tasks_ready: bool,
    drained: bool,
)
    ensures
        ({
            let action = run_decision(run, root_ready, tasks_ready, drained).0;
            &&& action == RunAction::WaitForEvent ==> !tasks_ready && (run.mode
                == RunMode::UntilRoot ==> !root_ready)
            &&& action == RunAction::Stop ==> drained && run.mode == RunMode::UntilDrained
            &&& action == RunAction::PollRoot ==> root_ready && run.mode == RunMode::UntilRoot
        }),
{
}

/// What a loop does next: at its top it polls the root future where it drives one that is
/// ready; it drives ready work before it looks at anything else; and once that is done it
/// stops where it may, goes on where something is ready, and waits where nothing is.
pub proof fn loop_goes_round(
    run: RunLoop,
    root_ready: bool,
    tasks_ready: bool,
    drained: bool,
)
    ensures
        ({
            let (action, phase) = run_decision(run, root_ready, tasks_ready, drained);
            let root = run.mode == RunMode::UntilRoot && root_ready;
            let over = run.mode == RunMode::UntilDrained && drained;
            &&& action == RunAction::PollRoot <==> root && run.phase != RunPhase::Drive
            &&& action == RunAction::Stop <==> over && run.phase == RunPhase::Driven
            &&& action == RunAction::WaitForEvent <==> run.phase == RunPhase::Driven && !root
                && !over && !tasks_ready
            &&& action == RunAction::DriveReadyWork ==> phase == RunPhase::Driven
            &&& action == RunAction::PollRoot ==> phase == RunPhase::Drive
            &&& action == RunAction::WaitForEvent ==> phase == RunPhase::Start
            &&& action == RunAction::Stop ==> phase == RunPhase::Driven
        }),
{
}

/// A batch takes no more than 64 tasks, so timers and events are looked at in between
/// however many tasks are ready.
pub proof fn batch_leaves_room_for_events(batch: ReadyBatch)
    ensures
        batch.wf() <==> batch.polled <= 64,
{
}

} // verus!
