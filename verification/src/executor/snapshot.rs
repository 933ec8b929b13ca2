//! Owned point-in-time summary of an executor.

use vstd::prelude::*;

use crate::executor::counters::SchedulerCounters;
use crate::executor::task_set::SchedulerTaskSnapshot;
use crate::executor::types::{SchedulingGroupSnapshot, TaskSnapshot};
use crate::os::dispatcher::IoUringDispatcherSnapshot;

verus! {

/// Maximum number of ready tasks polled before timers and readiness are checked.
pub const READY_POLL_BUDGET: usize = 64;

/// Owned point-in-time summary of one executor.
#[must_use]
pub struct ExecutorSnapshot {
    /// Whether this executor still accepts new tasks.
    pub accepting: bool,
    /// Number of live spawner handles.
    pub spawner_count: usize,
    /// Number of tasks the scheduler still considers unfinished.
    pub task_count: usize,
    /// Number of tasks currently queued for polling.
    pub ready_queue_len: usize,
    /// Owned snapshots of executor scheduling groups.
    pub scheduling_groups: Vec<SchedulingGroupSnapshot>,
    /// Number of registered timers.
    pub timer_count: usize,
    /// Number of registered read-readiness interests.
    pub read_interest_count: usize,
    /// Number of registered write-readiness interests.
    pub write_interest_count: usize,
    /// Snapshot of the executor-owned `io_uring` dispatcher, if installed.
    pub io_uring: Option<IoUringDispatcherSnapshot>,
    /// Maximum number of ready tasks polled before timers and readiness are checked.
    pub ready_poll_budget: usize,
    /// Number of tasks accepted by this executor since startup.
    pub total_spawned_tasks: u64,
    /// Number of tasks that have completed, panicked, or been canceled since startup.
    pub total_completed_tasks: u64,
    /// Number of spawned task polls performed since startup.
    pub total_task_polls: u64,
    /// Number of ready-poll batches that consumed the full ready-poll budget.
    pub ready_poll_budget_exhaustions: u64,
    /// Number of idle driver events observed by the executor.
    pub total_driver_events: u64,
    /// Number of readiness driver events observed by the executor.
    pub total_readiness_events: u64,
    /// Number of readiness driver events that reported at least one readable fd.
    pub total_readable_events: u64,
    /// Number of readiness driver events that reported at least one writable fd.
    pub total_writable_events: u64,
    /// Number of completion driver events observed by the executor.
    pub total_completion_events: u64,
    /// Owned snapshots for tasks that are still externally observable.
    pub tasks: Vec<TaskSnapshot>,
}

/// What an executor snapshot is built from.
pub struct ExecutorSnapshotParts {
    /// Copy of the task set's books.
    pub tasks: SchedulerTaskSnapshot,
    /// Summary of each task in those books, or nothing for one that is dropped.
    pub live_tasks: Vec<Option<TaskSnapshot>>,
    /// Number of registered timers.
    pub timer_count: usize,
    /// Cumulative counters.
    pub counters: SchedulerCounters,
    /// Number of registered read-readiness interests.
    pub read_interest_count: usize,
    /// Number of registered write-readiness interests.
    pub write_interest_count: usize,
    /// Snapshot of the `io_uring` dispatcher, if installed.
    pub io_uring: Option<IoUringDispatcherSnapshot>,
}

/// The summaries of the tasks that are not dropped, in order.
pub open spec fn live(tasks: Seq<Option<TaskSnapshot>>) -> Seq<TaskSnapshot>
    decreases tasks.len(),
{
    if tasks.len() == 0 {
        Seq::empty()
    } else {
        match tasks.last() {
            Some(task) => live(tasks.drop_last()).push(task),
            None => live(tasks.drop_last()),
        }
    }
}

/// `s` with `x` put behind every task whose identifier is not greater.
pub open spec fn insert_by_id(s: Seq<TaskSnapshot>, x: TaskSnapshot) -> Seq<TaskSnapshot>
    decreases s.len(),
{
    if s.len() == 0 {
        seq![x]
    } else if s.last().id.0 <= x.id.0 {
        s.push(x)
    } else {
        insert_by_id(s.drop_last(), x).push(s.last())
    }
}

/// The tasks in the order of their identifiers; equal ones stay in order.
pub open spec fn sort_by_id(s: Seq<TaskSnapshot>) -> Seq<TaskSnapshot>
    decreases s.len(),
{
    if s.len() == 0 {
        Seq::empty()
    } else {
        insert_by_id(sort_by_id(s.drop_last()), s.last())
    }
}

/// Identifiers never decrease along the sequence.
pub open spec fn is_sorted_by_id(s: Seq<TaskSnapshot>) -> bool {
    forall|i: int, j: int|
        0 <= i <= j < s.len() ==> (#[trigger] s[i]).id.0 <= (#[trigger] s[j]).id.0
}

/// Insertion puts `x` at `k`, where everything from `k` on is greater and what
/// is before it is not.
proof fn lemma_insert_position(s: Seq<TaskSnapshot>, x: TaskSnapshot, k: int)
    requires
        0 <= k <= s.len(),
        k > 0 ==> s[k - 1].id.0 <= x.id.0,
        forall|i: int| k <= i < s.len() ==> (#[trigger] s[i]).id.0 > x.id.0,
    ensures
        insert_by_id(s, x) == s.insert(k, x),
    decreases s.len(),
{
    if k == s.len() {
        assert(s.insert(k, x) =~= s.push(x));
        if s.len() == 0 {
            assert(seq![x] =~= s.push(x));
        }
    } else {
        let front = s.drop_last();
        assert forall|i: int| k <= i < front.len() implies (#[trigger] front[i]).id.0 > x.id.0 by {
            assert(front[i] == s[i]);
        }
        lemma_insert_position(front, x, k);
        assert(front.insert(k, x).push(s.last()) =~= s.insert(k, x));
        assert(s.last() == s[s.len() - 1]);
    }
}

/// Insertion keeps order and adds exactly the one task.
proof fn lemma_insert_by_id(s: Seq<TaskSnapshot>, x: TaskSnapshot)
    requires
        is_sorted_by_id(s),
    ensures
        is_sorted_by_id(insert_by_id(s, x)),
        insert_by_id(s, x).to_multiset() == s.to_multiset().insert(x),
        insert_by_id(s, x).len() == s.len() + 1,
        s.len() > 0 ==> insert_by_id(s, x).last().id.0 == (if s.last().id.0 <= x.id.0 {
            x.id.0
        } else {
            s.last().id.0
        }),
    decreases s.len(),
{
    broadcast use vstd::seq_lib::group_to_multiset_ensures;

    if s.len() == 0 {
        assert(seq![x] =~= s.push(x));
    } else if s.last().id.0 <= x.id.0 {
        assert(s.last() == s[s.len() - 1]);
    } else {
        let front = s.drop_last();
        assert forall|i: int, j: int| 0 <= i <= j < front.len() implies (#[trigger] front[i]).id.0
            <= (#[trigger] front[j]).id.0 by {
            assert(front[i] == s[i] && front[j] == s[j]);
        }
        lemma_insert_by_id(front, x);
        let grown = insert_by_id(front, x);
        assert(grown.len() > 0);
        if front.len() == 0 {
            assert(grown =~= seq![x]);
        } else {
            assert(front.last() == s[s.len() - 2]);
        }
        assert(grown.last().id.0 <= s.last().id.0);
        let pushed = grown.push(s.last());
        assert forall|i: int, j: int| 0 <= i <= j < pushed.len() implies (
        #[trigger] pushed[i]).id.0 <= (#[trigger] pushed[j]).id.0 by {
            if i < grown.len() {
                assert(grown[i].id.0 <= grown[grown.len() - 1].id.0);
                if j < grown.len() {
                    assert(grown[i].id.0 <= grown[j].id.0);
                }
            }
        }
        assert(s =~= front.push(s.last()));
        assert(pushed.to_multiset() =~= s.to_multiset().insert(x));
    }
}

/// A snapshot lists its tasks by identifier and leaves none out: the tasks come
/// in order, and they are those that are not dropped.
pub proof fn snapshot_tasks_are_ordered(tasks: Seq<TaskSnapshot>)
    ensures
        is_sorted_by_id(sort_by_id(tasks)),
        sort_by_id(tasks).to_multiset() == tasks.to_multiset(),
        sort_by_id(tasks).len() == tasks.len(),
    decreases tasks.len(),
{
    broadcast use vstd::seq_lib::group_to_multiset_ensures;

    if tasks.len() > 0 {
        snapshot_tasks_are_ordered(tasks.drop_last());
        lemma_insert_by_id(sort_by_id(tasks.drop_last()), tasks.last());
        assert(tasks =~= tasks.drop_last().push(tasks.last()));
    }
}

fn insert_task(tasks: &mut Vec<TaskSnapshot>, task: TaskSnapshot)
    ensures
        final(tasks)@ == insert_by_id(old(tasks)@, task),
{
    let mut k: usize = tasks.len();
    while k > 0 && tasks[k - 1].id.0 > task.id.0
        invariant
            k <= tasks.len(),
            tasks@ == old(tasks)@,
            forall|i: int| k <= i < tasks.len() ==> (#[trigger] tasks@[i]).id.0 > task.id.0,
        decreases k,
    {
        k = k - 1;
    }
    proof {
        lemma_insert_position(tasks@, task, k as int);
    }
    tasks.insert(k, task);
}

/// Builds an executor snapshot: the books and counters as they are, and the
/// summaries of the tasks that are not dropped, by identifier.
pub fn build_executor_snapshot(parts: ExecutorSnapshotParts) -> (snapshot: ExecutorSnapshot)
    ensures
        snapshot.accepting == parts.tasks.accepting,
        snapshot.spawner_count == parts.tasks.spawner_count,
        snapshot.task_count == parts.tasks.task_count,
        snapshot.ready_queue_len == parts.tasks.ready_queue_len,
        snapshot.scheduling_groups == parts.tasks.groups,
        snapshot.timer_count == parts.timer_count,
        snapshot.read_interest_count == parts.read_interest_count,
        snapshot.write_interest_count == parts.write_interest_count,
        snapshot.io_uring == parts.io_uring,
        snapshot.ready_poll_budget == READY_POLL_BUDGET,
        snapshot.total_spawned_tasks == parts.counters.total_spawned_tasks,
        snapshot.total_completed_tasks == parts.counters.total_completed_tasks,
        snapshot.total_task_polls == parts.counters.total_task_polls,
        snapshot.ready_poll_budget_exhaustions == parts.counters.ready_poll_budget_exhaustions,
        snapshot.total_driver_events == parts.counters.total_driver_events,
        snapshot.total_readiness_events == parts.counters.total_readiness_events,
        snapshot.total_readable_events == parts.counters.total_readable_events,
        snapshot.total_writable_events == parts.counters.total_writable_events,
        snapshot.total_completion_events == parts.counters.total_completion_events,
        snapshot.tasks@ == sort_by_id(live(parts.live_tasks@)),
{
    let mut tasks: Vec<TaskSnapshot> = Vec::new();
    let ghost all = parts.live_tasks@;
    assert(all.take(0) =~= Seq::empty());
    for task in it: parts.live_tasks
        invariant
            it.seq() == all,
            tasks@ == sort_by_id(live(all.take(it.index() as int))),
    {
        proof {
            let i = it.index() as int;
            assert(all.take(i + 1).drop_last() =~= all.take(i));
            assert(all.take(i + 1).last() == all[i]);
            let before = live(all.take(i));
            if let Some(snapshot) = all[i] {
                assert(before.push(snapshot).drop_last() =~= before);
            }
        }
        match task {
            Some(snapshot) => {
                insert_task(&mut tasks, snapshot);
            },
            None => {},
        }
    }
    assert(all.take(all.len() as int) =~= all);
    ExecutorSnapshot {
        accepting: parts.tasks.accepting,
        spawner_count: parts.tasks.spawner_count,
        task_count: parts.tasks.task_count,
        ready_queue_len: parts.tasks.ready_queue_len,
        scheduling_groups: parts.tasks.groups,
        timer_count: parts.timer_count,
        read_interest_count: parts.read_interest_count,
        write_interest_count: parts.write_interest_count,
        io_uring: parts.io_uring,
        ready_poll_budget: READY_POLL_BUDGET,
        total_spawned_tasks: parts.counters.total_spawned_tasks,
        total_completed_tasks: parts.counters.total_completed_tasks,
        total_task_polls: parts.counters.total_task_polls,
        ready_poll_budget_exhaustions: parts.counters.ready_poll_budget_exhaustions,
        total_driver_events: parts.counters.total_driver_events,
        total_readiness_events: parts.counters.total_readiness_events,
        total_readable_events: parts.counters.total_readable_events,
        total_writable_events: parts.counters.total_writable_events,
        total_completion_events: parts.counters.total_completion_events,
        tasks,
    }
}

/// Tasks come in the order of their identifiers, the least first, and none is lost or
/// made up.
pub proof fn tasks_come_by_identifier(tasks: Seq<TaskSnapshot>, task: TaskSnapshot)
    ensures
        forall|i: int, j: int|
            0 <= i < j < sort_by_id(tasks).len() ==> (#[trigger] sort_by_id(tasks)[i]).id.0 <= (
            #[trigger] sort_by_id(tasks)[j]).id.0,
        sort_by_id(tasks).contains(task) <==> tasks.contains(task),
        sort_by_id(tasks).len() == tasks.len(),
{
    snapshot_tasks_are_ordered(tasks);
    let sorted = sort_by_id(tasks);
    vstd::seq_lib::to_multiset_contains(sorted, task);
    vstd::seq_lib::to_multiset_contains(tasks, task);
}

/// The tasks that are still there are kept, in order, and those that are gone are left
/// out.
pub proof fn live_tasks_keep_their_order(tasks: Seq<Option<TaskSnapshot>>)
    ensures
        live(tasks) == tasks.filter(|task: Option<TaskSnapshot>| task is Some).map_values(
            |task: Option<TaskSnapshot>| task->0,
        ),
    decreases tasks.len(),
{
    reveal(Seq::filter);
    let kept = |task: Option<TaskSnapshot>| task is Some;
    let taken = |task: Option<TaskSnapshot>| task->0;
    if tasks.len() == 0 {
        assert(tasks.filter(kept).map_values(taken) =~= Seq::<TaskSnapshot>::empty());
    } else {
        live_tasks_keep_their_order(tasks.drop_last());
        assert(tasks.filter(kept).map_values(taken) =~= live(tasks));
    }
}

} // verus!
