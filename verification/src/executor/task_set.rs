//! The tasks of one executor and their weighted ready queues.
//!
//! Each scheduling group has a ready queue and a virtual runtime, which grows
//! by the time its tasks are polled, scaled down by the group's shares. The next
//! task comes from the group with the least virtual runtime.

use std::collections::VecDeque;

use vstd::prelude::*;

use crate::executor::spawn_error::SpawnError;
use crate::executor::task::Task;
use crate::executor::task_state::TaskState;
use crate::executor::types::{
    SchedulingGroupId, SchedulingGroupSnapshot, TaskId, DEFAULT_SCHEDULING_GROUP_ID,
    DEFAULT_SCHEDULING_GROUP_SHARES,
};
use crate::time::{Duration, TotalDuration};

verus! {

/// One scheduling group with its ready queue.
pub struct SchedulerGroup {
    /// Position of the group in the set.
    pub id: SchedulingGroupId,
    /// Human-readable name.
    pub name: String,
    /// Relative scheduling weight.
    pub shares: u32,
    /// Weighted runtime charged so far.
    pub virtual_runtime: u128,
    /// Number of polls charged.
    pub total_polls: u64,
    /// Poll time charged.
    pub total_poll_time: TotalDuration,
    /// Ready tasks, oldest first.
    pub queue: VecDeque<TaskId>,
}

/// What a scheduling group holds.
#[verifier::ext_equal]
pub struct GroupView {
    pub id: SchedulingGroupId,
    pub name: Seq<char>,
    pub shares: u32,
    pub virtual_runtime: u128,
    pub total_polls: u64,
    pub total_poll_time: TotalDuration,
    pub queue: Seq<TaskId>,
}

impl View for SchedulerGroup {
    type V = GroupView;

    open spec fn view(&self) -> GroupView {
        GroupView {
            id: self.id,
            name: self.name@,
            shares: self.shares,
            virtual_runtime: self.virtual_runtime,
            total_polls: self.total_polls,
            total_poll_time: self.total_poll_time,
            queue: self.queue@,
        }
    }
}

/// Task bookkeeping of one executor.
pub struct SchedulerTaskSet {
    /// Scheduling groups, by identifier.
    pub groups: Vec<SchedulerGroup>,
    /// Every task accepted and not yet dropped from the books.
    pub tasks: Vec<TaskId>,
    /// Whether tasks are still accepted.
    pub accepting: bool,
    /// Number of live spawner handles.
    pub spawner_count: usize,
    /// Number of unfinished tasks.
    pub task_count: usize,
    /// Identifier of the next task.
    pub next_task_id: usize,
}

/// What a task set holds.
#[verifier::ext_equal]
pub struct TaskSetView {
    pub groups: Seq<GroupView>,
    pub tasks: Seq<TaskId>,
    pub accepting: bool,
    pub spawner_count: usize,
    pub task_count: usize,
    pub next_task_id: usize,
}

/// Point-in-time copy of a task set's books.
pub struct SchedulerTaskSnapshot {
    /// Whether tasks are still accepted.
    pub accepting: bool,
    /// Number of live spawner handles.
    pub spawner_count: usize,
    /// Number of unfinished tasks.
    pub task_count: usize,
    /// Number of tasks in all ready queues.
    pub ready_queue_len: usize,
    /// Summaries of the scheduling groups, by identifier.
    pub groups: Vec<SchedulingGroupSnapshot>,
    /// Every task in the books.
    pub tasks: Vec<TaskId>,
}

/// A task set that accepts tasks and has none: with the default group, which was
/// not charged for anything, and one spawner.
pub open spec fn empty_task_set() -> TaskSetView {
    TaskSetView {
        groups: seq![
            GroupView {
                id: SchedulingGroupId(DEFAULT_SCHEDULING_GROUP_ID),
                name: "default"@,
                shares: DEFAULT_SCHEDULING_GROUP_SHARES,
                virtual_runtime: 0,
                total_polls: 0,
                total_poll_time: 0,
                queue: Seq::empty(),
            },
        ],
        tasks: Seq::empty(),
        accepting: true,
        spawner_count: 1,
        task_count: 0,
        next_task_id: 0,
    }
}

/// Number of ready tasks in all groups.
pub open spec fn total_queued(groups: Seq<GroupView>) -> nat
    decreases groups.len(),
{
    if groups.len() == 0 {
        0
    } else {
        total_queued(groups.drop_last()) + groups.last().queue.len()
    }
}

/// Whether group `a` runs before group `b`: less virtual runtime, or as much
/// and the smaller identifier.
pub open spec fn runs_before(a: GroupView, b: GroupView) -> bool {
    a.virtual_runtime < b.virtual_runtime || (a.virtual_runtime == b.virtual_runtime && a.id.0
        < b.id.0)
}

/// Whether group `i` is the one to take the next task from: it has a ready task
/// and runs before every other group that has one.
pub open spec fn is_next_group(groups: Seq<GroupView>, i: int) -> bool {
    &&& 0 <= i < groups.len()
    &&& groups[i].queue.len() > 0
    &&& forall|j: int|
        0 <= j < groups.len() && j != i && (#[trigger] groups[j]).queue.len() > 0 ==> runs_before(
            groups[i],
            groups[j],
        )
}

/// Virtual runtime that a poll of length `duration` costs a group with `shares`.
pub open spec fn poll_charge(shares: u32, duration: Duration) -> int {
    (if duration == 0 {
        1int
    } else {
        duration as int
    }) * (DEFAULT_SCHEDULING_GROUP_SHARES as int) / (shares as int)
}

/// `m` is the least virtual runtime of any group.
pub open spec fn is_minimum_runtime(groups: Seq<GroupView>, m: u128) -> bool {
    &&& exists|i: int| 0 <= i < groups.len() && (#[trigger] groups[i]).virtual_runtime == m
    &&& forall|i: int| 0 <= i < groups.len() ==> m <= (#[trigger] groups[i]).virtual_runtime
}

impl TaskSetView {
    /// Group identifiers are positions, shares are positive, there is a default
    /// group, and the ready queues can be counted.
    pub open spec fn wf(&self) -> bool {
        &&& 0 < self.groups.len() <= usize::MAX
        &&& forall|i: int|
            0 <= i < self.groups.len() ==> (#[trigger] self.groups[i]).id == SchedulingGroupId(
                i as usize,
            ) && self.groups[i].shares > 0
        &&& total_queued(self.groups) <= usize::MAX
    }

    /// Whether tasks can be queued in the group.
    pub open spec fn accepts(&self, id: SchedulingGroupId) -> bool {
        self.accepting && id.0 < self.groups.len()
    }

    /// The set with `task` at the end of the ready queue of group `id`.
    pub open spec fn enqueued(&self, id: SchedulingGroupId, task: TaskId) -> TaskSetView {
        TaskSetView {
            groups: self.groups.update(
                id.0 as int,
                GroupView {
                    queue: self.groups[id.0 as int].queue.push(task),
                    ..self.groups[id.0 as int]
                },
            ),
            ..*self
        }
    }

    /// The set after a poll of that length is charged to group `id`.
    pub open spec fn charged(&self, id: SchedulingGroupId, duration: Duration) -> TaskSetView {
        if id.0 < self.groups.len() {
            let group = self.groups[id.0 as int];
            TaskSetView {
                groups: self.groups.update(
                    id.0 as int,
                    GroupView {
                        total_poll_time: (group.total_poll_time + duration) as u128,
                        total_polls: (group.total_polls + 1) as u64,
                        virtual_runtime: (group.virtual_runtime + poll_charge(
                            group.shares,
                            duration,
                        )) as u128,
                        ..group
                    },
                ),
                ..*self
            }
        } else {
            *self
        }
    }

    /// Whether nothing is left to run and nobody can add to it.
    pub open spec fn drained(&self) -> bool {
        total_queued(self.groups) == 0 && self.spawner_count == 0 && self.task_count == 0
    }
}

impl View for SchedulerTaskSet {
    type V = TaskSetView;

    open spec fn view(&self) -> TaskSetView {
        TaskSetView {
            groups: self.groups@.map_values(|g: SchedulerGroup| g@),
            tasks: self.tasks@,
            accepting: self.accepting,
            spawner_count: self.spawner_count,
            task_count: self.task_count,
            next_task_id: self.next_task_id,
        }
    }
}

/// Replacing one queue changes the total by the difference in length.
proof fn lemma_total_after_update(groups: Seq<GroupView>, i: int, g: GroupView)
    requires
        0 <= i < groups.len(),
    ensures
        total_queued(groups.update(i, g)) == total_queued(groups) - groups[i].queue.len()
            + g.queue.len(),
    decreases groups.len(),
{
    let updated = groups.update(i, g);
    if i < groups.len() - 1 {
        assert(updated.drop_last() =~= groups.drop_last().update(i, g));
        lemma_total_after_update(groups.drop_last(), i, g);
    } else {
        assert(updated.drop_last() =~= groups.drop_last());
    }
}

/// The total is zero exactly where every queue is empty.
proof fn lemma_total_zero(groups: Seq<GroupView>)
    ensures
        total_queued(groups) == 0 <==> forall|i: int|
            0 <= i < groups.len() ==> (#[trigger] groups[i]).queue.len() == 0,
    decreases groups.len(),
{
    if groups.len() > 0 {
        lemma_total_zero(groups.drop_last());
        assert forall|i: int| 0 <= i < groups.len() - 1 implies #[trigger] groups[i]
            == groups.drop_last()[i] by {}
        if total_queued(groups) == 0 {
            assert forall|i: int| 0 <= i < groups.len() implies (#[trigger] groups[i]).queue.len()
                == 0 by {
                if i < groups.len() - 1 {
                    assert(groups.drop_last()[i].queue.len() == 0);
                }
            }
        } else if total_queued(groups.drop_last()) != 0 {
            let j = choose|j: int|
                0 <= j < groups.drop_last().len() && (#[trigger] groups.drop_last()[j]).queue.len()
                    != 0;
            assert(groups[j].queue.len() != 0);
        } else {
            assert(groups[groups.len() - 1].queue.len() != 0);
        }
    }
}

/// Adding a group with an empty queue leaves the total as it is.
proof fn lemma_total_after_push(groups: Seq<GroupView>, g: GroupView)
    ensures
        total_queued(groups.push(g)) == total_queued(groups) + g.queue.len(),
{
    assert(groups.push(g).drop_last() =~= groups);
}

impl SchedulerTaskSet {
    /// The set's invariant, over its view.
    pub open spec fn wf(&self) -> bool {
        self@.wf()
    }

    /// A set that accepts tasks, with the default group and one spawner.
    pub fn new() -> (set: Self)
        ensures
            set.wf(),
            set@ == empty_task_set(),
    {
        let mut groups: Vec<SchedulerGroup> = Vec::new();
        groups.push(
            SchedulerGroup {
                id: SchedulingGroupId(DEFAULT_SCHEDULING_GROUP_ID),
                name: "default".to_owned(),
                shares: DEFAULT_SCHEDULING_GROUP_SHARES,
                virtual_runtime: 0,
                total_polls: 0,
                total_poll_time: 0,
                queue: VecDeque::new(),
            },
        );
        let set = SchedulerTaskSet {
            groups,
            tasks: Vec::new(),
            accepting: true,
            spawner_count: 1,
            task_count: 0,
            next_task_id: 0,
        };
        proof {
            reveal_with_fuel(total_queued, 2);
            assert(set@.groups =~= seq![set@.groups[0]]);
        }
        set
    }

    /// Hands out the next task identifier, wrapping around at the end of the
    /// range.
    pub fn allocate_task_id(&mut self) -> (id: TaskId)
        requires
            old(self).wf(),
        ensures
            final(self).wf(),
            id == TaskId(old(self)@.next_task_id),
            final(self)@ == (TaskSetView {
                next_task_id: if old(self)@.next_task_id == usize::MAX {
                    0
                } else {
                    (old(self)@.next_task_id + 1) as usize
                },
                ..old(self)@
            }),
    {
        let id: usize = self.next_task_id;
        self.next_task_id = id.wrapping_add(1);
        TaskId(id)
    }

    /// Adds a group. It starts at the least virtual runtime of the groups there
    /// are, so that it neither starves nor waits for them.
    pub fn create_scheduling_group(&mut self, name: String, shares: u32) -> (id: SchedulingGroupId)
        requires
            old(self).wf(),
            shares > 0,
        ensures
            final(self).wf(),
            id == SchedulingGroupId(old(self)@.groups.len() as usize),
            id.0 == old(self)@.groups.len(),
            exists|m: u128|
                #![trigger is_minimum_runtime(old(self)@.groups, m)]
                is_minimum_runtime(old(self)@.groups, m) && final(self)@ == (TaskSetView {
                    groups: old(self)@.groups.push(
                        GroupView {
                            id,
                            name: name@,
                            shares,
                            virtual_runtime: m,
                            total_polls: 0,
                            total_poll_time: 0,
                            queue: Seq::empty(),
                        },
                    ),
                    ..old(self)@
                }),
    {
        let id = SchedulingGroupId(self.groups.len());
        let virtual_runtime: u128 = self.minimum_virtual_runtime();
        let group = SchedulerGroup {
            id,
            name,
            shares,
            virtual_runtime,
            total_polls: 0,
            total_poll_time: 0,
            queue: VecDeque::new(),
        };
        self.groups.push(group);
        proof {
            lemma_total_after_push(old(self)@.groups, group@);
            assert(self@.groups =~= old(self)@.groups.push(group@));
            assert(self@.groups.len() == self.groups.len());
        }
        id
    }

    /// Counts one more spawner handle.
    pub fn add_spawner(&mut self)
        requires
            old(self).wf(),
            old(self)@.spawner_count < usize::MAX,
        ensures
            final(self).wf(),
            final(self)@ == (TaskSetView {
                spawner_count: (old(self)@.spawner_count + 1) as usize,
                ..old(self)@
            }),
    {
        self.spawner_count = self.spawner_count + 1;
    }

    /// Counts a spawner handle off. Returns whether none is left.
    pub fn remove_spawner(&mut self) -> (none_left: bool)
        requires
            old(self).wf(),
        ensures
            final(self).wf(),
            final(self)@ == (TaskSetView {
                spawner_count: if old(self)@.spawner_count == 0 {
                    0
                } else {
                    (old(self)@.spawner_count - 1) as usize
                },
                ..old(self)@
            }),
            none_left == (final(self)@.spawner_count == 0),
    {
        self.spawner_count = self.spawner_count.saturating_sub(1);
        self.spawner_count == 0
    }

    /// Accepts a new task into the books and its group's ready queue. Where the
    /// set is closed or has no such group, the task's queue mark is cleared and
    /// nothing else changes.
    pub fn schedule_new<F, H>(&mut self, task: &mut Task<F, H>) -> (result: Result<(), SpawnError>)
        requires
            old(self).wf(),
            old(self)@.task_count < usize::MAX,
            total_queued(old(self)@.groups) < usize::MAX,
        ensures
            final(self).wf(),
            result is Ok <==> old(self)@.accepts(old(task).scheduling_group_id),
            result is Err ==> result == Err::<(), SpawnError>(SpawnError::Closed),
            result is Err ==> final(self)@ == old(self)@ && *final(task) == (Task {
                state: TaskState { queued: false, ..old(task).state },
                ..*old(task)
            }),
            result is Ok ==> *final(task) == *old(task) && final(self)@ == (TaskSetView {
                task_count: (old(self)@.task_count + 1) as usize,
                tasks: old(self)@.tasks.push(old(task).id),
                ..old(self)@.enqueued(old(task).scheduling_group_id, old(task).id)
            }),
    {
        if !self.accepting {
            task.clear_queued();
            return Err(SpawnError::Closed);
        }
        match self.group_index(task.scheduling_group_id()) {
            None => {
                task.clear_queued();
                Err(SpawnError::Closed)
            },
            Some(group_idx) => {
                self.task_count = self.task_count + 1;
                self.tasks.push(task.id);
                self.push_ready(group_idx, task.id);
                Ok(())
            },
        }
    }

    /// Queues a task that is in the books already, in its group's ready queue.
    /// Refusals are those of `schedule_new`.
    pub fn schedule_existing<F, H>(&mut self, task: &mut Task<F, H>) -> (result: Result<
        (),
        SpawnError,
    >)
        requires
            old(self).wf(),
            total_queued(old(self)@.groups) < usize::MAX,
        ensures
            final(self).wf(),
            result is Ok <==> old(self)@.accepts(old(task).scheduling_group_id),
            result is Err ==> result == Err::<(), SpawnError>(SpawnError::Closed),
            result is Err ==> final(self)@ == old(self)@ && *final(task) == (Task {
                state: TaskState { queued: false, ..old(task).state },
                ..*old(task)
            }),
            result is Ok ==> *final(task) == *old(task) && final(self)@ == old(self)@.enqueued(
                old(task).scheduling_group_id,
                old(task).id,
            ),
    {
        if !self.accepting {
            task.clear_queued();
            return Err(SpawnError::Closed);
        }
        match self.group_index(task.scheduling_group_id()) {
            None => {
                task.clear_queued();
                Err(SpawnError::Closed)
            },
            Some(group_idx) => {
                self.push_ready(group_idx, task.id);
                Ok(())
            },
        }
    }

    fn push_ready(&mut self, group_idx: usize, task: TaskId)
        requires
            old(self).wf(),
            group_idx < old(self)@.groups.len(),
            total_queued(old(self)@.groups) < usize::MAX,
        ensures
            final(self).wf(),
            final(self)@ == old(self)@.enqueued(SchedulingGroupId(group_idx), task),
    {
        self.groups[group_idx].queue.push_back(task);
        proof {
            let old_group = old(self)@.groups[group_idx as int];
            let new_group = GroupView { queue: old_group.queue.push(task), ..old_group };
            lemma_total_after_update(old(self)@.groups, group_idx as int, new_group);
            assert(self@.groups =~= old(self)@.groups.update(group_idx as int, new_group));
        }
    }

    /// Takes the next task to poll: the oldest ready task of the group with the
    /// least virtual runtime, ties going to the older group.
    pub fn next_task(&mut self) -> (task: Option<TaskId>)
        requires
            old(self).wf(),
        ensures
            final(self).wf(),
            task is None <==> total_queued(old(self)@.groups) == 0,
            task is None ==> final(self)@ == old(self)@,
            task is Some ==> exists|i: int|
                #![trigger is_next_group(old(self)@.groups, i)]
                is_next_group(old(self)@.groups, i) && task == Some(
                    old(self)@.groups[i].queue[0],
                ) && final(self)@ == (TaskSetView {
                    groups: old(self)@.groups.update(
                        i,
                        GroupView {
                            queue: old(self)@.groups[i].queue.drop_first(),
                            ..old(self)@.groups[i]
                        },
                    ),
                    ..old(self)@
                }),
    {
        let mut best: Option<usize> = None;
        let mut i: usize = 0;
        while i < self.groups.len()
            invariant
                self.wf(),
                self@ == old(self)@,
                i <= self.groups.len(),
                best is None ==> forall|j: int|
                    0 <= j < i ==> (#[trigger] self@.groups[j]).queue.len() == 0,
                best is Some ==> best->0 < i && self@.groups[best->0 as int].queue.len() > 0
                    && forall|j: int|
                    0 <= j < i && j != best->0 && (#[trigger] self@.groups[j]).queue.len() > 0
                        ==> runs_before(self@.groups[best->0 as int], self@.groups[j]),
            decreases self.groups.len() - i,
        {
            let ready: usize = self.groups[i].queue.len();
            assert(self@.groups[i as int].queue.len() == ready);
            if ready > 0 {
                match best {
                    None => {
                        best = Some(i);
                    },
                    Some(b) => {
                        assert(self@.groups[b as int] == self.groups@[b as int]@);
                        assert(self@.groups[i as int] == self.groups@[i as int]@);
                        if self.groups[i].virtual_runtime < self.groups[b].virtual_runtime {
                            best = Some(i);
                        }
                    },
                }
            }
            i = i + 1;
        }
        proof {
            lemma_total_zero(self@.groups);
        }
        match best {
            None => None,
            Some(b) => {
                let task = self.groups[b].queue.pop_front();
                proof {
                    let groups = old(self)@.groups;
                    let new_group = GroupView {
                        queue: groups[b as int].queue.drop_first(),
                        ..groups[b as int]
                    };
                    lemma_total_after_update(groups, b as int, new_group);
                    assert(is_next_group(groups, b as int));
                    assert(groups[b as int].queue.subrange(1, groups[b as int].queue.len() as int)
                        =~= groups[b as int].queue.drop_first());
                    assert(self@.groups =~= groups.update(b as int, new_group));
                }
                task
            },
        }
    }

    /// Whether a poll of that length can be charged to the group without the
    /// group's totals leaving their ranges. An unknown group takes no charge.
    pub open spec fn can_charge(&self, group_id: SchedulingGroupId, poll_duration: Duration) -> bool {
        group_id.0 < self@.groups.len() ==> {
            let group = self@.groups[group_id.0 as int];
            &&& group.total_poll_time + poll_duration <= u128::MAX
            &&& group.total_polls < u64::MAX
            &&& group.virtual_runtime + poll_charge(group.shares, poll_duration) <= u128::MAX
        }
    }

    /// Tests whether `record_task_poll` can take the charge.
    pub fn can_record_task_poll(&self, group_id: SchedulingGroupId, poll_duration: Duration) -> (can:
        bool)
        requires
            self.wf(),
        ensures
            can == self.can_charge(group_id, poll_duration),
    {
        match self.group_index(group_id) {
            None => true,
            Some(idx) => {
                assert(self@.groups[idx as int] == self.groups@[idx as int]@);
                let group = &self.groups[idx];
                let charge: u128 = weighted_runtime(group.shares, poll_duration);
                group.total_poll_time <= u128::MAX - poll_duration as u128 && group.total_polls
                    < u64::MAX && group.virtual_runtime <= u128::MAX - charge
            },
        }
    }

    /// Charges a poll to a group: its totals grow, and its virtual runtime grows
    /// by the weighted length of the poll, counting an instantaneous poll as one
    /// nanosecond. An unknown group takes no charge.
    pub fn record_task_poll(&mut self, group_id: SchedulingGroupId, poll_duration: Duration)
        requires
            old(self).wf(),
            old(self).can_charge(group_id, poll_duration),
        ensures
            final(self).wf(),
            final(self)@ == old(self)@.charged(group_id, poll_duration),
    {
        match self.group_index(group_id) {
            None => {},
            Some(idx) => {
                assert(self@.groups[idx as int] == self.groups@[idx as int]@);
                let shares: u32 = self.groups[idx].shares;
                let charge: u128 = weighted_runtime(shares, poll_duration);
                let total_poll_time: u128 = self.groups[idx].total_poll_time
                    + poll_duration as u128;
                let total_polls: u64 = self.groups[idx].total_polls + 1;
                let virtual_runtime: u128 = self.groups[idx].virtual_runtime + charge;
                self.groups[idx].total_poll_time = total_poll_time;
                self.groups[idx].total_polls = total_polls;
                self.groups[idx].virtual_runtime = virtual_runtime;
                proof {
                    let group = old(self)@.groups[idx as int];
                    let new_group = GroupView {
                        total_poll_time,
                        total_polls,
                        virtual_runtime,
                        ..group
                    };
                    lemma_total_after_update(old(self)@.groups, idx as int, new_group);
                    assert(self@.groups =~= old(self)@.groups.update(idx as int, new_group));
                }
            },
        }
    }

    /// Whether nothing is left to run and nobody can add to it.
    pub fn is_drained(&self) -> (drained: bool)
        requires
            self.wf(),
        ensures
            drained == self@.drained(),
    {
        self.ready_queue_len() == 0 && self.spawner_count == 0 && self.task_count == 0
    }

    /// Whether any task is ready.
    pub fn has_ready_tasks(&self) -> (ready: bool)
        requires
            self.wf(),
        ensures
            ready == (total_queued(self@.groups) > 0),
    {
        self.ready_queue_len() > 0
    }

    /// Stops accepting tasks, empties every ready queue and hands out the tasks
    /// in the books.
    pub fn close(&mut self) -> (closed: Vec<TaskId>)
        requires
            old(self).wf(),
        ensures
            final(self).wf(),
            closed@ == old(self)@.tasks,
            final(self)@ == (TaskSetView {
                accepting: false,
                task_count: 0,
                tasks: Seq::empty(),
                groups: old(self)@.groups.map_values(
                    |g: GroupView| GroupView { queue: Seq::empty(), ..g },
                ),
                ..old(self)@
            }),
            total_queued(final(self)@.groups) == 0,
    {
        self.accepting = false;
        self.task_count = 0;
        let ghost before = self@.groups;
        let mut i: usize = 0;
        while i < self.groups.len()
            invariant
                i <= self.groups.len(),
                self.groups.len() == before.len(),
                before == old(self)@.groups,
                !self.accepting,
                self.task_count == 0,
                self.tasks == old(self).tasks,
                self.spawner_count == old(self).spawner_count,
                self.next_task_id == old(self).next_task_id,
                forall|j: int|
                    0 <= j < i ==> (#[trigger] self.groups@[j])@ == (GroupView {
                        queue: Seq::empty(),
                        ..before[j]
                    }),
                forall|j: int| i <= j < before.len() ==> (#[trigger] self.groups@[j])@ == before[j],
            decreases self.groups.len() - i,
        {
            self.groups[i].queue.clear();
            i = i + 1;
        }
        let mut tasks: Vec<TaskId> = Vec::new();
        core::mem::swap(&mut tasks, &mut self.tasks);
        proof {
            let cleared = before.map_values(|g: GroupView| GroupView { queue: Seq::empty(), ..g });
            assert(self@.groups =~= cleared);
            lemma_total_zero(self@.groups);
        }
        tasks
    }

    /// Counts a finished task off. Returns whether the set is drained by that.
    pub fn finish_task(&mut self) -> (drained: bool)
        requires
            old(self).wf(),
        ensures
            final(self).wf(),
            final(self)@ == (TaskSetView {
                task_count: if old(self)@.task_count == 0 {
                    0
                } else {
                    (old(self)@.task_count - 1) as usize
                },
                ..old(self)@
            }),
            drained == final(self)@.drained(),
    {
        self.task_count = self.task_count.saturating_sub(1);
        self.is_drained()
    }

    /// Takes a dropped task out of the books. Queue entries are not touched.
    pub fn forget_task(&mut self, id: TaskId)
        requires
            old(self).wf(),
        ensures
            final(self).wf(),
            final(self)@ == (TaskSetView {
                tasks: old(self)@.tasks.filter(|t: TaskId| t != id),
                ..old(self)@
            }),
    {
        let mut kept: Vec<TaskId> = Vec::new();
        let mut i: usize = 0;
        let ghost keep = |t: TaskId| t != id;
        proof {
            assert(self.tasks@.take(0).filter(keep) =~= Seq::empty()) by {
                reveal(Seq::filter);
            }
        }
        while i < self.tasks.len()
            invariant
                *self == *old(self),
                i <= self.tasks.len(),
                keep == (|t: TaskId| t != id),
                kept@ == self.tasks@.take(i as int).filter(keep),
            decreases self.tasks.len() - i,
        {
            proof {
                assert(self.tasks@.take(i + 1).drop_last() =~= self.tasks@.take(i as int));
                reveal(Seq::filter);
            }
            if self.tasks[i] != id {
                kept.push(self.tasks[i]);
            }
            i = i + 1;
        }
        assert(self.tasks@.take(i as int) =~= self.tasks@);
        self.tasks = kept;
    }

    /// Copies the books.
    pub fn snapshot(&self) -> (snapshot: SchedulerTaskSnapshot)
        requires
            self.wf(),
        ensures
            snapshot.accepting == self@.accepting,
            snapshot.spawner_count == self@.spawner_count,
            snapshot.task_count == self@.task_count,
            snapshot.ready_queue_len == total_queued(self@.groups),
            snapshot.tasks@ == self@.tasks,
            snapshot.groups.len() == self@.groups.len(),
            forall|i: int|
                0 <= i < self@.groups.len() ==> summarizes(
                    #[trigger] snapshot.groups@[i],
                    self@.groups[i],
                ),
    {
        let mut tasks: Vec<TaskId> = Vec::new();
        let mut i: usize = 0;
        while i < self.tasks.len()
            invariant
                i <= self.tasks.len(),
                tasks@ == self.tasks@.take(i as int),
            decreases self.tasks.len() - i,
        {
            tasks.push(self.tasks[i]);
            i = i + 1;
            assert(tasks@ =~= self.tasks@.take(i as int));
        }
        assert(self.tasks@.take(i as int) =~= self.tasks@);
        SchedulerTaskSnapshot {
            accepting: self.accepting,
            spawner_count: self.spawner_count,
            task_count: self.task_count,
            ready_queue_len: self.ready_queue_len(),
            groups: self.group_snapshots(),
            tasks,
        }
    }

    fn group_index(&self, id: SchedulingGroupId) -> (idx: Option<usize>)
        requires
            self.wf(),
        ensures
            idx == if id.0 < self@.groups.len() {
                Some(id.0)
            } else {
                None
            },
    {
        if id.0 < self.groups.len() {
            assert(self@.groups[id.0 as int].id == SchedulingGroupId(id.0));
            Some(id.0)
        } else {
            None
        }
    }

    /// Number of ready tasks in all groups.
    pub fn ready_queue_len(&self) -> (len: usize)
        requires
            self.wf(),
        ensures
            len == total_queued(self@.groups),
    {
        let mut total: usize = 0;
        let mut i: usize = 0;
        let ghost groups = self@.groups;
        proof {
            assert(groups.take(0) =~= Seq::empty());
        }
        while i < self.groups.len()
            invariant
                i <= self.groups.len(),
                groups == self@.groups,
                total == total_queued(groups.take(i as int)),
                total_queued(groups) <= usize::MAX,
            decreases self.groups.len() - i,
        {
            proof {
                assert(groups.take(i + 1).drop_last() =~= groups.take(i as int));
                assert(groups.take(i + 1).last() == self.groups@[i as int]@);
                lemma_total_prefix(groups, i + 1);
            }
            total = total + self.groups[i].queue.len();
            i = i + 1;
        }
        assert(groups.take(i as int) =~= groups);
        total
    }

    fn minimum_virtual_runtime(&self) -> (minimum: u128)
        requires
            self.wf(),
        ensures
            is_minimum_runtime(self@.groups, minimum),
    {
        let mut minimum: u128 = self.groups[0].virtual_runtime;
        let mut i: usize = 1;
        assert(self@.groups[0].virtual_runtime == minimum);
        while i < self.groups.len()
            invariant
                1 <= i <= self.groups.len(),
                exists|j: int|
                    0 <= j < self@.groups.len() && (#[trigger] self@.groups[j]).virtual_runtime
                        == minimum,
                forall|j: int| 0 <= j < i
                    ==> minimum <= (#[trigger] self@.groups[j]).virtual_runtime,
            decreases self.groups.len() - i,
        {
            assert(self@.groups[i as int] == self.groups@[i as int]@);
            if self.groups[i].virtual_runtime < minimum {
                minimum = self.groups[i].virtual_runtime;
            }
            i = i + 1;
        }
        minimum
    }

    fn group_snapshots(&self) -> (snapshots: Vec<SchedulingGroupSnapshot>)
        ensures
            snapshots.len() == self@.groups.len(),
            forall|i: int|
                0 <= i < self@.groups.len() ==> summarizes(
                    #[trigger] snapshots@[i],
                    self@.groups[i],
                ),
    {
        let mut snapshots: Vec<SchedulingGroupSnapshot> = Vec::new();
        let mut i: usize = 0;
        while i < self.groups.len()
            invariant
                i <= self.groups.len(),
                snapshots.len() == i,
                forall|j: int|
                    0 <= j < i ==> summarizes(#[trigger] snapshots@[j], self@.groups[j]),
            decreases self.groups.len() - i,
        {
            let group = &self.groups[i];
            assert(self@.groups[i as int] == self.groups@[i as int]@);
            snapshots.push(
                SchedulingGroupSnapshot {
                    id: group.id,
                    name: group.name.clone(),
                    shares: group.shares,
                    ready_queue_len: group.queue.len(),
                    virtual_runtime: group.virtual_runtime,
                    total_polls: group.total_polls,
                    total_poll_time: group.total_poll_time,
                },
            );
            i = i + 1;
        }
        snapshots
    }
}

/// `snapshot` is the summary of `group`.
pub open spec fn summarizes(snapshot: SchedulingGroupSnapshot, group: GroupView) -> bool {
    &&& snapshot.id == group.id
    &&& snapshot.name@ == group.name
    &&& snapshot.shares == group.shares
    &&& snapshot.ready_queue_len == group.queue.len()
    &&& snapshot.virtual_runtime == group.virtual_runtime
    &&& snapshot.total_polls == group.total_polls
    &&& snapshot.total_poll_time == group.total_poll_time
}

/// The first groups have no more ready tasks than all of them.
proof fn lemma_total_prefix(groups: Seq<GroupView>, n: int)
    requires
        0 <= n <= groups.len(),
    ensures
        total_queued(groups.take(n)) <= total_queued(groups),
    decreases groups.len() - n,
{
    if n == groups.len() {
        assert(groups.take(n) =~= groups);
    } else {
        lemma_total_prefix(groups, n + 1);
        assert(groups.take(n + 1).drop_last() =~= groups.take(n));
    }
}

fn weighted_runtime(shares: u32, poll_duration: Duration) -> (charge: u128)
    requires
        shares > 0,
    ensures
        charge == poll_charge(shares, poll_duration),
        charge * shares <= (if poll_duration > 1 { poll_duration as int } else { 1 }) * 100,
        (if poll_duration > 1 { poll_duration as int } else { 1 }) * 100 < (charge + 1) * shares,
{
    proof {
        poll_costs_its_weighted_length(shares, poll_duration);
    }
    let nanos: u128 = if poll_duration == 0 {
        1
    } else {
        poll_duration as u128
    };
    let weight: u128 = DEFAULT_SCHEDULING_GROUP_SHARES as u128;
    assert(nanos * weight <= 0xffff_ffff_ffff_ffff * 100) by (nonlinear_arith)
        requires
            nanos <= 0xffff_ffff_ffff_ffff,
            weight == 100,
    ;
    nanos * weight / (shares as u128)
}

/// At most one group is next.
pub proof fn next_group_is_unique(groups: Seq<GroupView>, i: int, j: int)
    requires
        is_next_group(groups, i),
        is_next_group(groups, j),
    ensures
        i == j,
{
    if i != j {
        assert(runs_before(groups[i], groups[j]));
        assert(runs_before(groups[j], groups[i]));
    }
}

/// There is a next group exactly where some task is ready.
pub proof fn next_group_exists(set: TaskSetView)
    requires
        set.wf(),
        total_queued(set.groups) > 0,
    ensures
        exists|i: int| is_next_group(set.groups, i),
{
    lemma_total_zero(set.groups);
    let k = choose|k: int|
        0 <= k < set.groups.len() && (#[trigger] set.groups[k]).queue.len() != 0;
    let i = lemma_first_of(set, set.groups.len() as int, k);
    assert(is_next_group(set.groups, i));
}

/// Among the first `n` groups, one of which has a ready task, one runs before
/// all others that have one.
proof fn lemma_first_of(set: TaskSetView, n: int, k: int) -> (best: int)
    requires
        set.wf(),
        0 <= k < n <= set.groups.len(),
        set.groups[k].queue.len() > 0,
    ensures
        0 <= best < n,
        set.groups[best].queue.len() > 0,
        forall|j: int|
            0 <= j < n && j != best && (#[trigger] set.groups[j]).queue.len() > 0 ==> runs_before(
                set.groups[best],
                set.groups[j],
            ),
    decreases n,
{
    let last = n - 1;
    if k == last && forall|j: int| 0 <= j < last ==> (#[trigger] set.groups[j]).queue.len() == 0 {
        last
    } else {
        let k2 = if k < last {
            k
        } else {
            choose|j: int| 0 <= j < last && (#[trigger] set.groups[j]).queue.len() != 0
        };
        let best = lemma_first_of(set, last, k2);
        if set.groups[last].queue.len() > 0 && set.groups[last].virtual_runtime
            < set.groups[best].virtual_runtime {
            last
        } else {
            best
        }
    }
}

/// A group's tasks are taken in the order in which they were queued: the second
/// of two tasks queued in an empty group comes out after the first.
pub proof fn group_queue_is_fifo(
    set: TaskSetView,
    group: SchedulingGroupId,
    first: TaskId,
    second: TaskId,
)
    requires
        set.wf(),
        group.0 < set.groups.len(),
        set.groups[group.0 as int].queue.len() == 0,
    ensures
        ({
            let queue = set.enqueued(group, first).enqueued(group, second).groups[group.0 as int].queue;
            queue[0] == first && queue.drop_first()[0] == second && queue.len() == 2
        }),
{
}

/// A group with more shares is charged no more for the same poll.
pub proof fn more_shares_cost_less(fewer: u32, more: u32, duration: Duration)
    requires
        0 < fewer <= more,
    ensures
        poll_charge(more, duration) <= poll_charge(fewer, duration),
{
    let nanos = if duration == 0 {
        1int
    } else {
        duration as int
    };
    vstd::arithmetic::div_mod::lemma_div_is_ordered_by_denominator(
        nanos * (DEFAULT_SCHEDULING_GROUP_SHARES as int),
        fewer as int,
        more as int,
    );
}

/// The least virtual runtime is one number, so a late group starts level with
/// the group that has run least.
pub proof fn minimum_runtime_is_unique(groups: Seq<GroupView>, a: u128, b: u128)
    requires
        is_minimum_runtime(groups, a),
        is_minimum_runtime(groups, b),
    ensures
        a == b,
{
}

/// Whether the virtual runtimes of any two groups with ready tasks differ by no
/// more than `spread`.
pub open spec fn runtimes_within(groups: Seq<GroupView>, spread: int) -> bool {
    forall|i: int, j: int|
        0 <= i < groups.len() && 0 <= j < groups.len() && (#[trigger] groups[i]).queue.len() > 0
            && (#[trigger] groups[j]).queue.len() > 0 ==> groups[i].virtual_runtime
            - groups[j].virtual_runtime <= spread
}

/// Groups that stay ready share the time by their weights: as long as no poll is
/// charged more than `spread`, their virtual runtimes stay within `spread` of each
/// other.
pub proof fn ready_groups_stay_close(
    set: TaskSetView,
    next: int,
    duration: Duration,
    spread: int,
)
    requires
        set.wf(),
        is_next_group(set.groups, next),
        runtimes_within(set.groups, spread),
        poll_charge(set.groups[next].shares, duration) <= spread,
        set.groups[next].virtual_runtime + poll_charge(set.groups[next].shares, duration)
            <= u128::MAX,
    ensures
        runtimes_within(set.charged(set.groups[next].id, duration).groups, spread),
{
    let after = set.charged(set.groups[next].id, duration).groups;
    assert forall|i: int, j: int|
        0 <= i < after.len() && 0 <= j < after.len() && (#[trigger] after[i]).queue.len() > 0 && (
        #[trigger] after[j]).queue.len() > 0 implies after[i].virtual_runtime
        - after[j].virtual_runtime <= spread by {
        assert(set.groups[i].queue.len() > 0);
        assert(set.groups[j].queue.len() > 0);
        assert(set.groups[i].virtual_runtime - set.groups[j].virtual_runtime <= spread);
        if i == next && j != next {
            assert(runs_before(set.groups[next], set.groups[j]));
        }
    }
}

/// What a poll costs is its length in nanoseconds, one at least, weighed by the
/// group's shares against the hundred of the default group, and rounded down. So
/// a hundred shares pay for the length itself.
pub proof fn poll_costs_its_weighted_length(shares: u32, duration: Duration)
    requires
        shares > 0,
    ensures
        ({
            let nanos = if duration > 1 {
                duration as int
            } else {
                1
            };
            let charge = poll_charge(shares, duration);
            &&& charge * shares <= nanos * 100
            &&& nanos * 100 < (charge + 1) * shares
            &&& shares == 100 ==> charge == nanos
        }),
{
    let nanos = if duration == 0 {
        1int
    } else {
        duration as int
    };
    vstd::arithmetic::div_mod::lemma_fundamental_div_mod(nanos * 100, shares as int);
    vstd::arithmetic::div_mod::lemma_mod_bound(nanos * 100, shares as int);
    let charge = (nanos * 100) / (shares as int);
    assert((shares as int) * charge == charge * (shares as int)) by (nonlinear_arith);
    assert((charge + 1) * (shares as int) == charge * (shares as int) + shares as int)
        by (nonlinear_arith);
    if shares == 100 {
        assert(charge * 100 <= nanos * 100 < charge * 100 + 100);
    }
}

/// At equal shares a poll that takes `times` as long costs `times` as much, but for
/// what is lost in rounding, and exactly as much where nothing is.
pub proof fn longer_polls_cost_in_proportion(
    shares: u32,
    short: Duration,
    long: Duration,
    times: nat,
)
    requires
        shares > 0,
        short > 0,
        times > 0,
        long == times * short,
    ensures
        times * poll_charge(shares, short) <= poll_charge(shares, long),
        poll_charge(shares, long) < times * (poll_charge(shares, short) + 1),
        (short as int * 100) % (shares as int) == 0 ==> poll_charge(shares, long) == times
            * poll_charge(shares, short),
{
    let a = poll_charge(shares, short);
    let b = poll_charge(shares, long);
    let s = shares as int;
    let x = short as int;
    let k = times as int;
    assert(k * x >= 1) by (nonlinear_arith)
        requires
            k >= 1,
            x >= 1,
    ;
    poll_costs_its_weighted_length(shares, short);
    poll_costs_its_weighted_length(shares, long);
    assert((k * x) * 100 == k * (x * 100)) by (nonlinear_arith);
    assert(k * a < b + 1) by (nonlinear_arith)
        requires
            a * s <= x * 100,
            k * (x * 100) < (b + 1) * s,
            s > 0,
            k > 0,
    ;
    assert(b < k * (a + 1)) by (nonlinear_arith)
        requires
            x * 100 < (a + 1) * s,
            b * s <= k * (x * 100),
            s > 0,
            k > 0,
    ;
    if (x * 100) % s == 0 {
        vstd::arithmetic::div_mod::lemma_fundamental_div_mod(x * 100, s);
        assert(b <= k * a) by (nonlinear_arith)
            requires
                x * 100 == s * a,
                b * s <= k * (x * 100),
                s > 0,
        ;
    }
}

/// A charge adds one poll, the poll's length and its weighted cost to the books of
/// the group that ran, and touches nothing else: no other group, no queue, no task.
pub proof fn charge_is_booked_to_the_group_that_ran(
    set: TaskSetView,
    id: SchedulingGroupId,
    duration: Duration,
)
    requires
        set.wf(),
        id.0 < set.groups.len(),
        set.groups[id.0 as int].virtual_runtime + poll_charge(
            set.groups[id.0 as int].shares,
            duration,
        ) <= u128::MAX,
        set.groups[id.0 as int].total_polls < u64::MAX,
        set.groups[id.0 as int].total_poll_time + duration <= u128::MAX,
    ensures
        ({
            let before = set.groups[id.0 as int];
            let booked = set.charged(id, duration);
            let after = booked.groups[id.0 as int];
            let charge = after.virtual_runtime - before.virtual_runtime;
            let nanos = if duration > 1 {
                duration as int
            } else {
                1
            };
            &&& after.total_polls == before.total_polls + 1
            &&& after.total_poll_time == before.total_poll_time + duration
            &&& charge * before.shares <= nanos * 100
            &&& nanos * 100 < (charge + 1) * before.shares
            &&& after.id == before.id && after.name == before.name && after.shares
                == before.shares && after.queue == before.queue
            &&& booked.groups.len() == set.groups.len()
            &&& forall|j: int|
                0 <= j < set.groups.len() && j != id.0 ==> #[trigger] booked.groups[j]
                    == set.groups[j]
            &&& booked.tasks == set.tasks && booked.accepting == set.accepting
                && booked.spawner_count == set.spawner_count && booked.task_count
                == set.task_count && booked.next_task_id == set.next_task_id
        }),
{
    poll_costs_its_weighted_length(set.groups[id.0 as int].shares, duration);
}

/// The next task comes from the group that has run least, by its virtual runtime,
/// and from the oldest such group where several have run as little. Only groups with
/// a ready task count.
pub proof fn next_group_has_run_least(set: TaskSetView, i: int)
    requires
        set.wf(),
    ensures
        is_next_group(set.groups, i) <==> {
            &&& 0 <= i < set.groups.len()
            &&& set.groups[i].queue.len() > 0
            &&& forall|j: int|
                0 <= j < set.groups.len() && (#[trigger] set.groups[j]).queue.len() > 0
                    ==> set.groups[i].virtual_runtime <= set.groups[j].virtual_runtime && (
                set.groups[i].virtual_runtime == set.groups[j].virtual_runtime ==> i <= j)
        },
{
    if 0 <= i < set.groups.len() {
        assert(set.groups[i].id == SchedulingGroupId(i as usize));
        assert forall|j: int|
            0 <= j < set.groups.len() && j != i implies (#[trigger] set.groups[j]).id.0 == j by {}
        if set.groups[i].queue.len() > 0 && !is_next_group(set.groups, i) {
            let j = choose|j: int|
                0 <= j < set.groups.len() && j != i && (#[trigger] set.groups[j]).queue.len() > 0
                    && !runs_before(set.groups[i], set.groups[j]);
            assert(set.groups[j].id.0 == j);
        }
        if is_next_group(set.groups, i) {
            assert forall|j: int|
                0 <= j < set.groups.len() && (#[trigger] set.groups[j]).queue.len() > 0 implies
                set.groups[i].virtual_runtime <= set.groups[j].virtual_runtime && (
            set.groups[i].virtual_runtime == set.groups[j].virtual_runtime ==> i <= j) by {
                if j != i {
                    assert(runs_before(set.groups[i], set.groups[j]));
                }
            }
        }
    }
}

/// A late group starts level with the group that has run least.
pub proof fn least_runtime_is_reached_and_never_undercut(groups: Seq<GroupView>, m: u128)
    ensures
        is_minimum_runtime(groups, m) <==> {
            &&& groups.map_values(|g: GroupView| g.virtual_runtime).contains(m)
            &&& forall|i: int|
                0 <= i < groups.len() ==> !((#[trigger] groups[i]).virtual_runtime < m)
        },
{
    let runtimes = groups.map_values(|g: GroupView| g.virtual_runtime);
    if is_minimum_runtime(groups, m) {
        let i = choose|i: int| 0 <= i < groups.len() && (#[trigger] groups[i]).virtual_runtime == m;
        assert(runtimes[i] == m);
    }
    if runtimes.contains(m) {
        let i = choose|i: int| 0 <= i < runtimes.len() && #[trigger] runtimes[i] == m;
        assert(groups[i].virtual_runtime == m);
    }
}

/// A task that is queued is ready: it stands last in the queue of its own group, one
/// more task is ready in all, and the other queues and the books stay as they were.
pub proof fn queued_task_waits_its_turn(set: TaskSetView, id: SchedulingGroupId, task: TaskId)
    requires
        id.0 < set.groups.len(),
    ensures
        ({
            let queued = set.enqueued(id, task);
            let before = set.groups[id.0 as int];
            let after = queued.groups[id.0 as int];
            &&& after.queue.len() == before.queue.len() + 1
            &&& after.queue.last() == task
            &&& after.queue.drop_last() == before.queue
            &&& after.virtual_runtime == before.virtual_runtime && after.total_polls
                == before.total_polls && after.total_poll_time == before.total_poll_time
                && after.shares == before.shares && after.id == before.id && after.name
                == before.name
            &&& queued.groups.len() == set.groups.len()
            &&& forall|j: int|
                0 <= j < set.groups.len() && j != id.0 ==> #[trigger] queued.groups[j]
                    == set.groups[j]
            &&& total_queued(queued.groups) == total_queued(set.groups) + 1
            &&& queued.tasks == set.tasks && queued.accepting == set.accepting
                && queued.spawner_count == set.spawner_count && queued.task_count
                == set.task_count && queued.next_task_id == set.next_task_id
        }),
{
    let queued = set.enqueued(id, task);
    lemma_total_after_update(set.groups, id.0 as int, queued.groups[id.0 as int]);
    assert(queued.groups[id.0 as int].queue.drop_last() =~= set.groups[id.0 as int].queue);
}

/// The number of ready tasks is that of the queues set end to end.
pub proof fn ready_tasks_are_those_in_the_queues(groups: Seq<GroupView>)
    ensures
        total_queued(groups) == groups.map_values(|g: GroupView| g.queue).flatten().len(),
    decreases groups.len(),
{
    let queues = groups.map_values(|g: GroupView| g.queue);
    if groups.len() > 0 {
        ready_tasks_are_those_in_the_queues(groups.drop_last());
        assert(queues.drop_last() =~= groups.drop_last().map_values(|g: GroupView| g.queue));
        queues.lemma_flatten_and_flatten_alt_are_equivalent();
        queues.drop_last().lemma_flatten_and_flatten_alt_are_equivalent();
    }
}

/// An executor is drained exactly where every queue is empty, no task is unfinished
/// and no spawner is left to add one.
pub proof fn drained_set_has_nothing_to_come(set: TaskSetView)
    ensures
        set.drained() <==> {
            &&& forall|i: int|
                0 <= i < set.groups.len() ==> (#[trigger] set.groups[i]).queue.len() == 0
            &&& set.task_count == 0
            &&& set.spawner_count == 0
        },
{
    lemma_total_zero(set.groups);
}

/// A closed set takes no task; an open one takes tasks in every group that exists and
/// in no other.
pub proof fn open_set_accepts_in_any_group(set: TaskSetView, id: SchedulingGroupId)
    ensures
        !set.accepting ==> !set.accepts(id),
        id.0 >= set.groups.len() ==> !set.accepts(id),
        set.accepting && id.0 < set.groups.len() ==> set.accepts(id),
{
}

/// A snapshot tells a group's name and weight, how many of its tasks are ready and
/// what it was charged, as they stand.
pub proof fn summary_shows_the_books(snapshot: SchedulingGroupSnapshot, group: GroupView)
    requires
        summarizes(snapshot, group),
    ensures
        snapshot.id == group.id && snapshot.name@ == group.name && snapshot.shares == group.shares,
        snapshot.ready_queue_len == 0 <==> group.queue == Seq::<TaskId>::empty(),
        snapshot.ready_queue_len == group.queue.len(),
        snapshot.virtual_runtime == group.virtual_runtime && snapshot.total_polls
            == group.total_polls && snapshot.total_poll_time == group.total_poll_time,
{
    if snapshot.ready_queue_len == 0 {
        assert(group.queue =~= Seq::<TaskId>::empty());
    }
}

/// A new set is open, has one spawner, no task and one group: the default one, first of
/// all, with a hundred shares, nothing charged and an empty queue.
pub proof fn new_set_has_the_default_group()
    ensures
        ({
            let set = empty_task_set();
            &&& set.accepting && set.spawner_count == 1 && set.task_count == 0 && set.next_task_id
                == 0
            &&& set.tasks.len() == 0
            &&& set.groups.len() == 1
            &&& set.groups[0].id.0 == 0 && set.groups[0].shares == 100 && set.groups[0].name
                == "default"@
            &&& set.groups[0].virtual_runtime == 0 && set.groups[0].total_polls == 0
                && set.groups[0].total_poll_time == 0
            &&& set.groups[0].queue.len() == 0
            &&& !set.drained()
        }),
{
}

/// A poll can be charged where the group's books do not run over; to a group that does not
/// exist nothing is charged, so it always can.
pub proof fn charge_fits_the_books(
    set: SchedulerTaskSet,
    id: SchedulingGroupId,
    duration: Duration,
)
    ensures
        id.0 >= set@.groups.len() ==> set.can_charge(id, duration) && set@.charged(id, duration)
            == set@,
        id.0 < set@.groups.len() ==> {
            let group = set@.groups[id.0 as int];
            set.can_charge(id, duration) <==> group.total_polls < u64::MAX && group.total_poll_time
                + duration <= u128::MAX && group.virtual_runtime + poll_charge(
                group.shares,
                duration,
            ) <= u128::MAX
        },
{
}

/// A set shows its groups, each with its own queue and its own books, and its tasks as they
/// are.
pub proof fn set_shows_its_groups(set: SchedulerTaskSet, i: int)
    requires
        0 <= i < set.groups@.len(),
    ensures
        set@.groups.len() == set.groups@.len(),
        ({
            let shown = set@.groups[i];
            let group = set.groups@[i];
            &&& shown.id == group.id && shown.name == group.name@ && shown.shares == group.shares
            &&& shown.virtual_runtime == group.virtual_runtime && shown.total_polls
                == group.total_polls && shown.total_poll_time == group.total_poll_time
            &&& shown.queue == group.queue@
        }),
        set@.tasks == set.tasks@ && set@.accepting == set.accepting && set@.spawner_count
            == set.spawner_count && set@.task_count == set.task_count && set@.next_task_id
            == set.next_task_id,
{
}

} // verus!
