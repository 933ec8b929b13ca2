//! Spawning tasks onto an executor.

use vstd::prelude::*;

use crate::executor::counters::SchedulerCounters;
use crate::executor::scheduler::Scheduler;
use crate::executor::scheduling_group::{SchedulingGroup, SchedulingGroupError};
use crate::executor::spawn_error::SpawnError;
use crate::executor::task::Task;
use crate::executor::task_set::{is_minimum_runtime, GroupView, TaskSetView};
use crate::executor::task_state::TaskState;
use crate::executor::types::{SchedulingGroupId, TaskId, DEFAULT_SCHEDULING_GROUP_ID};
use crate::time::Instant;

verus! {

/// Creates an executor-local scheduling group with a relative weight, which must
/// be positive.
pub fn create_scheduling_group<W>(scheduler: &mut Scheduler<W>, name: String, shares: u32) -> (result:
    Result<SchedulingGroup, SchedulingGroupError>)
    requires
        old(scheduler).wf(),
    ensures
        final(scheduler).wf(),
        result is Err <==> shares == 0,
        result is Err ==> result == Err::<SchedulingGroup, SchedulingGroupError>(
            SchedulingGroupError::ZeroShares,
        ) && *final(scheduler) == *old(scheduler),
        result matches Ok(group) ==> {
            &&& group.executor_id == Some(old(scheduler).id)
            &&& group.id.0 == old(scheduler).tasks@.groups.len()
            &&& group.name@ == name@
            &&& group.shares == shares
            &&& *final(scheduler) == (Scheduler {
                tasks: final(scheduler).tasks,
                ..*old(scheduler)
            })
            &&& exists|m: u128|
                #![trigger is_minimum_runtime(old(scheduler).tasks@.groups, m)]
                is_minimum_runtime(old(scheduler).tasks@.groups, m) && final(scheduler).tasks@ == (
                TaskSetView {
                    groups: old(scheduler).tasks@.groups.push(
                        GroupView {
                            id: group.id,
                            name: name@,
                            shares,
                            virtual_runtime: m,
                            total_polls: 0,
                            total_poll_time: 0,
                            queue: Seq::empty(),
                        },
                    ),
                    ..old(scheduler).tasks@
                })
        },
{
    if shares == 0 {
        return Err(SchedulingGroupError::ZeroShares);
    }
    let id = scheduler.create_scheduling_group(name.clone(), shares);
    Ok(SchedulingGroup::new(scheduler.id(), id, name, shares))
}

/// Refuses a group that belongs to another executor.
pub fn ensure_group_belongs_to_executor<W>(scheduler: &Scheduler<W>, group: &SchedulingGroup) -> (result:
    Result<(), SpawnError>)
    ensures
        result == if group.executor_id is None || group.executor_id == Some(scheduler.id) {
            Ok::<(), SpawnError>(())
        } else {
            Err::<(), SpawnError>(SpawnError::SchedulingGroupExecutorMismatch)
        },
{
    if group.belongs_to(scheduler.id()) {
        Ok(())
    } else {
        Err(SpawnError::SchedulingGroupExecutorMismatch)
    }
}

/// The next task identifier after one was handed out.
pub open spec fn next_task_id(id: usize) -> usize {
    if id == usize::MAX {
        0
    } else {
        (id + 1) as usize
    }
}

/// A task as it stands right after it was accepted at `now`.
pub open spec fn spawned_task<F, H>(
    id: usize,
    name: Option<String>,
    group: SchedulingGroupId,
    future: F,
    panic_handler: Option<H>,
    now: Instant,
) -> Task<F, H> {
    Task {
        id: TaskId(id),
        name,
        scheduling_group_id: group,
        created_at: now,
        state: TaskState {
            future: Some(future),
            panic_handler,
            queued: true,
            polling: false,
            cancel_requested: false,
            completed: false,
            poll_count: 0,
            total_poll_time: 0,
            waiting_for: None,
            last_scheduled_at: Some(now),
            last_poll_started_at: None,
            last_poll_finished_at: None,
        },
    }
}

/// What spawning into `group` comes to: a task at the end of the group's ready
/// queue, in the books and counted; or nothing but a spent identifier, where the
/// executor is closed or has no such group.
pub open spec fn spawn_result<W, F, H>(
    before: Scheduler<W>,
    after: Scheduler<W>,
    name: Option<String>,
    group: SchedulingGroupId,
    future: F,
    panic_handler: Option<H>,
    now: Instant,
    result: Result<Task<F, H>, SpawnError>,
) -> bool {
    let id = before.tasks@.next_task_id;
    let allocated = TaskSetView { next_task_id: next_task_id(id), ..before.tasks@ };
    &&& result is Ok <==> before.tasks@.accepts(group)
    &&& result matches Ok(task) ==> task == spawned_task(
        id,
        name,
        group,
        future,
        panic_handler,
        now,
    ) && after.tasks@ == (TaskSetView {
        task_count: (before.tasks@.task_count + 1) as usize,
        tasks: before.tasks@.tasks.push(TaskId(id)),
        ..allocated.enqueued(group, TaskId(id))
    }) && after == (Scheduler {
        tasks: after.tasks,
        counters: SchedulerCounters {
            total_spawned_tasks: (before.counters.total_spawned_tasks + 1) as u64,
            ..before.counters
        },
        ..before
    })
    &&& result matches Err(error) ==> error == SpawnError::Closed && after.tasks@ == allocated
        && after == (Scheduler { tasks: after.tasks, ..before })
}

/// Spawns a future into the group with that identifier. On success the reactor
/// has to be woken.
pub fn spawn_with_panic_handler<W, F, H>(
    scheduler: &mut Scheduler<W>,
    name: Option<String>,
    group: SchedulingGroupId,
    future: F,
    panic_handler: Option<H>,
    now: Instant,
) -> (result: Result<Task<F, H>, SpawnError>)
    requires
        old(scheduler).wf(),
        old(scheduler).has_room(),
    ensures
        final(scheduler).wf(),
        spawn_result(
            *old(scheduler),
            *final(scheduler),
            name,
            group,
            future,
            panic_handler,
            now,
            result,
        ),
        result matches Ok(task) ==> task.wf(),
{
    let id = scheduler.allocate_task_id();
    let mut task = Task::new_in_group(id, name, group, future, panic_handler, now);
    match scheduler.schedule(&mut task, now).result {
        Ok(()) => Ok(task),
        Err(error) => Err(error),
    }
}

/// Spawns a future into the default group.
pub fn spawn<W, F, H>(scheduler: &mut Scheduler<W>, future: F, now: Instant) -> (result: Result<
    Task<F, H>,
    SpawnError,
>)
    requires
        old(scheduler).wf(),
        old(scheduler).has_room(),
    ensures
        final(scheduler).wf(),
        spawn_result(
            *old(scheduler),
            *final(scheduler),
            None,
            SchedulingGroupId(DEFAULT_SCHEDULING_GROUP_ID),
            future,
            None::<H>,
            now,
            result,
        ),
        result matches Ok(task) ==> task.wf(),
{
    let group = SchedulingGroup::default();
    spawn_with_panic_handler(scheduler, None, group.id(), future, None, now)
}

/// Spawns a named future into the default group.
pub fn spawn_named<W, F, H>(
    scheduler: &mut Scheduler<W>,
    name: String,
    future: F,
    now: Instant,
) -> (result: Result<Task<F, H>, SpawnError>)
    requires
        old(scheduler).wf(),
        old(scheduler).has_room(),
    ensures
        final(scheduler).wf(),
        spawn_result(
            *old(scheduler),
            *final(scheduler),
            Some(name),
            SchedulingGroupId(DEFAULT_SCHEDULING_GROUP_ID),
            future,
            None::<H>,
            now,
            result,
        ),
        result matches Ok(task) ==> task.wf(),
{
    let group = SchedulingGroup::default();
    spawn_with_panic_handler(scheduler, Some(name), group.id(), future, None, now)
}

/// Spawns a future into a group, which must belong to this executor.
pub fn spawn_in_group<W, F, H>(
    scheduler: &mut Scheduler<W>,
    group: &SchedulingGroup,
    name: Option<String>,
    future: F,
    panic_handler: Option<H>,
    now: Instant,
) -> (result: Result<Task<F, H>, SpawnError>)
    requires
        old(scheduler).wf(),
        old(scheduler).has_room(),
    ensures
        final(scheduler).wf(),
        group.executor_id is Some && group.executor_id != Some(old(scheduler).id) ==> result
            == Err::<Task<F, H>, SpawnError>(SpawnError::SchedulingGroupExecutorMismatch)
            && *final(scheduler) == *old(scheduler),
        group.executor_id is None || group.executor_id == Some(old(scheduler).id) ==> spawn_result(
            *old(scheduler),
            *final(scheduler),
            name,
            group.id,
            future,
            panic_handler,
            now,
            result,
        ),
        result matches Ok(task) ==> task.wf(),
{
    match ensure_group_belongs_to_executor(scheduler, group) {
        Err(error) => Err(error),
        Ok(()) => spawn_with_panic_handler(scheduler, name, group.id(), future, panic_handler, now),
    }
}

/// A closed executor accepts no task: the spawn fails, and nothing is queued,
/// counted or put in the books.
pub proof fn closed_executor_accepts_nothing<W, F, H>(
    before: Scheduler<W>,
    after: Scheduler<W>,
    name: Option<String>,
    group: SchedulingGroupId,
    future: F,
    panic_handler: Option<H>,
    now: Instant,
    result: Result<Task<F, H>, SpawnError>,
)
    requires
        !before.tasks@.accepting,
        spawn_result(before, after, name, group, future, panic_handler, now, result),
    ensures
        result == Err::<Task<F, H>, SpawnError>(SpawnError::Closed),
        after.tasks@.groups == before.tasks@.groups,
        after.tasks@.tasks == before.tasks@.tasks,
        after.tasks@.task_count == before.tasks@.task_count,
        after.counters == before.counters,
{
}

/// Identifiers count up from one task to the next and begin again at zero when they are
/// used up.
pub proof fn task_identifiers_count_up(id: usize)
    ensures
        id < usize::MAX ==> next_task_id(id) == id + 1,
        id == usize::MAX ==> next_task_id(id) == 0,
{
}

/// A spawned task stands last in the ready queue of its group and in the books, is one
/// unfinished task more and one spawned task more, and has the name, the future and the
/// group it was given and an identifier of its own. It is refused exactly where the
/// executor is closed or has no such group; then only the identifier is used up.
pub proof fn spawned_task_is_queued_in_its_group<W, F, H>(
    before: Scheduler<W>,
    after: Scheduler<W>,
    name: Option<String>,
    group: SchedulingGroupId,
    future: F,
    panic_handler: Option<H>,
    now: Instant,
    result: Result<Task<F, H>, SpawnError>,
)
    requires
        before.tasks@.task_count < usize::MAX,
        before.counters.total_spawned_tasks < u64::MAX,
        spawn_result(before, after, name, group, future, panic_handler, now, result),
    ensures
        result is Ok <==> before.tasks@.accepting && group.0 < before.tasks@.groups.len(),
        result matches Err(error) ==> error == SpawnError::Closed && after.tasks@.groups
            == before.tasks@.groups && after.tasks@.tasks == before.tasks@.tasks
            && after.tasks@.task_count == before.tasks@.task_count && after.counters
            == before.counters,
        result matches Ok(task) ==> {
            let queue = after.tasks@.groups[group.0 as int].queue;
            &&& task.id.0 == before.tasks@.next_task_id
            &&& task.name == name && task.scheduling_group_id == group && task.created_at == now
            &&& task.state.future == Some(future) && task.state.panic_handler == panic_handler
            &&& task.state.queued && task.state.last_scheduled_at == Some(now)
            &&& !task.state.polling && !task.state.completed && !task.state.cancel_requested
            &&& task.state.poll_count == 0 && task.state.total_poll_time == 0
                && task.state.waiting_for is None && task.state.last_poll_started_at is None
                && task.state.last_poll_finished_at is None
            &&& queue.len() == before.tasks@.groups[group.0 as int].queue.len() + 1
            &&& queue.last() == task.id
            &&& queue.drop_last() == before.tasks@.groups[group.0 as int].queue
            &&& forall|j: int|
                0 <= j < before.tasks@.groups.len() && j != group.0
                    ==> #[trigger] after.tasks@.groups[j] == before.tasks@.groups[j]
            &&& after.tasks@.tasks == before.tasks@.tasks.push(task.id)
            &&& after.tasks@.task_count == before.tasks@.task_count + 1
            &&& after.counters.total_spawned_tasks == before.counters.total_spawned_tasks + 1
        },
        after.tasks@.next_task_id != before.tasks@.next_task_id,
        after.tasks@.accepting == before.tasks@.accepting && after.tasks@.spawner_count
            == before.tasks@.spawner_count,
        after.timers == before.timers && after.io_interests == before.io_interests && after.id
            == before.id,
{
    if result is Ok {
        assert(after.tasks@.groups[group.0 as int].queue.drop_last()
            =~= before.tasks@.groups[group.0 as int].queue);
    }
}

} // verus!
