//! The parts of the executor: tasks, groups, timers, interests and counters.

use sitas::executor::backpressure::{BackpressureGuard, BackpressureTask};
use sitas::executor::future::yield_now;
use sitas::executor::counters::SchedulerCounters;
use sitas::executor::io_interest::{InterestSet, ReadinessInterests};
use sitas::executor::root::RootWaker;
use sitas::executor::scheduler::Scheduler;
use sitas::executor::scheduling_group::{ExecutorId, SchedulingGroup, SchedulingGroupError};
use sitas::executor::snapshot::{
    build_executor_snapshot, ExecutorSnapshotParts, READY_POLL_BUDGET,
};
use sitas::executor::spawn_error::SpawnError;
use sitas::executor::spawner;
use sitas::executor::scope::TaskScope;
use sitas::executor::task::{CancelReport, PollOutcome, Task};
use sitas::executor::task_set::{SchedulerTaskSet, SchedulerTaskSnapshot};
use sitas::executor::task_state::TaskState;
use sitas::executor::timer::TimerSet;
use sitas::executor::types::{
    SchedulingGroupId, TaskId, TaskSnapshot, TaskStatus, TaskWait, DEFAULT_SCHEDULING_GROUP_ID,
    DEFAULT_SCHEDULING_GROUP_SHARES,
};

const DEFAULT_GROUP: SchedulingGroupId = SchedulingGroupId(DEFAULT_SCHEDULING_GROUP_ID);

fn ms(n: u64) -> u64 {
    n * 1_000_000
}

// Backpressure.

#[test]
fn backpressure_guard_try_acquire_limits_capacity() {
    let mut guard = BackpressureGuard::<u8>::new(2);

    let p1 = guard.try_acquire().unwrap();
    let p2 = guard.try_acquire().unwrap();
    assert!(guard.try_acquire().is_none());

    guard.release(p1);
    let p3 = guard.try_acquire().unwrap();
    guard.release(p2);
    guard.release(p3);

    assert_eq!(guard.in_flight(), 0);
}

#[test]
fn backpressure_guard_acquire_awaits_capacity() {
    let mut guard = BackpressureGuard::<&str>::new(1);
    let p1 = guard.try_acquire().unwrap();

    let acquire = guard.acquire();
    assert!(acquire.poll(&mut guard, "second").is_none());
    assert!(acquire.poll(&mut guard, "second").is_none());

    assert_eq!(guard.release(p1), vec!["second"]);
    let p2 = acquire.poll(&mut guard, "second").unwrap();
    assert_eq!(p2.in_flight(&guard), 1);
}

#[test]
fn acquirer_is_woken_with_the_waker_of_its_last_poll() {
    let mut guard = BackpressureGuard::<&str>::new(1);
    let held = guard.try_acquire().unwrap();
    let moved = guard.acquire();
    let other = guard.acquire();
    assert!(moved.poll(&mut guard, "a").is_none());
    assert!(other.poll(&mut guard, "other").is_none());
    assert!(moved.poll(&mut guard, "b").is_none());
    assert_eq!(held.in_flight(&guard), 1);
    assert_eq!(guard.release(held), vec!["b", "other"]);
    assert_eq!(guard.in_flight(), 0);
    let held = moved.poll(&mut guard, "c").unwrap();
    assert_eq!(guard.available(), 0);
    assert!(guard.release(held).is_empty());
}

#[test]
fn waiter_that_loses_the_race_is_woken_again() {
    let mut guard = BackpressureGuard::<&str>::new(1);
    let p1 = guard.try_acquire().unwrap();
    let first = guard.acquire();
    let second = guard.acquire();
    assert!(first.poll(&mut guard, "first").is_none());
    assert!(second.poll(&mut guard, "second").is_none());
    assert_eq!(guard.release(p1), vec!["first", "second"]);
    let p2 = first.poll(&mut guard, "first").unwrap();
    assert!(second.poll(&mut guard, "second").is_none());
    assert_eq!(guard.release(p2), vec!["second"]);
    assert!(second.poll(&mut guard, "second").is_some());
}

#[test]
fn backpressure_task_holds_permit() {
    let mut guard = BackpressureGuard::<u8>::new(1);
    let permit = guard.try_acquire().unwrap();
    assert!(guard.try_acquire().is_none());

    let mut task = BackpressureTask::new(42, permit);
    assert!(guard.try_acquire().is_none());
    assert_eq!(*task.inner(), 42);
    *task.inner_mut() = 43;

    let (future, woken) = task.into_inner(&mut guard);
    assert_eq!(future, 43);
    assert!(woken.is_empty());
    let _permit = guard.try_acquire().unwrap();
    assert_eq!(guard.in_flight(), 1);
}

#[test]
fn backpressure_guard_capacity_must_be_positive() {
    let guard = BackpressureGuard::<u8>::new(5);
    assert_eq!(guard.capacity(), 5);
    assert_eq!(guard.available(), 5);
}

#[test]
fn yield_wakes_itself_once() {
    let mut future = yield_now();
    let first = future.poll("waker");
    assert_eq!((first.ready, first.woken), (false, Some("waker")));
    let second = future.poll("waker");
    assert_eq!((second.ready, second.woken), (true, None));
}

// Counters.

#[test]
fn task_lifecycle_counters_accumulate() {
    let mut counters = SchedulerCounters::default();

    assert!(counters.can_count());
    counters.record_spawned_task();
    counters.record_spawned_task();
    counters.record_completed_task();

    assert_eq!(counters.total_spawned_tasks, 2);
    assert_eq!(counters.total_completed_tasks, 1);
}

#[test]
fn ready_poll_batch_counts_polls_and_budget_exhaustions() {
    let mut counters = SchedulerCounters::default();

    counters.record_ready_poll_batch(3, false);
    counters.record_ready_poll_batch(5, true);

    assert_eq!(counters.total_task_polls, 8);
    assert_eq!(counters.ready_poll_budget_exhaustions, 1);
}

#[test]
fn readiness_events_count_driver_and_direction_progress() {
    let mut counters = SchedulerCounters::default();

    counters.record_readiness_driver_event(true, false);
    counters.record_readiness_driver_event(false, true);
    counters.record_readiness_driver_event(true, true);
    counters.record_readiness_driver_event(false, false);

    assert_eq!(counters.total_driver_events, 4);
    assert_eq!(counters.total_readiness_events, 4);
    assert_eq!(counters.total_readable_events, 2);
    assert_eq!(counters.total_writable_events, 2);
}

#[test]
fn combined_driver_event_counts_one_wait_with_split_progress() {
    let mut counters = SchedulerCounters::default();

    counters.record_driver_event(true, true, false, true);

    assert_eq!(counters.total_driver_events, 1);
    assert_eq!(counters.total_readiness_events, 1);
    assert_eq!(counters.total_readable_events, 1);
    assert_eq!(counters.total_writable_events, 0);
    assert_eq!(counters.total_completion_events, 1);
}

#[test]
fn completion_dispatch_batches_count_completions_and_budget_exhaustions() {
    let mut counters = SchedulerCounters::default();

    counters.record_completion_dispatch_batch(3, false);
    counters.record_completion_dispatch_batch(5, true);

    assert_eq!(counters.total_completion_dispatch_batches, 2);
    assert_eq!(counters.total_dispatched_completions, 8);
    assert_eq!(counters.completion_dispatch_budget_exhaustions, 1);
}

// Interests.

#[test]
fn interest_ids_are_allocated_monotonically() {
    let mut set = InterestSet::<u8>::new();

    assert_eq!(set.allocate_id(), 0);
    assert_eq!(set.allocate_id(), 1);
    assert_eq!(set.allocate_id(), 2);
}

#[test]
fn interest_set_reports_unique_fds_but_wakes_all_waiters() {
    let mut set = InterestSet::new();

    set.register(0, 10, 'a');
    set.register(1, 10, 'b');
    set.register(2, 11, 'c');

    assert_eq!(set.fds(), vec![10, 11]);

    let wakers = set.wake_ready(&[10]);
    assert_eq!(wakers.len(), 2);
    assert_eq!(wakers, vec!['a', 'b']);
    assert!(set.take_ready(0));
    assert!(set.take_ready(1));
    assert!(!set.take_ready(2));
    assert_eq!(set.fds(), vec![11]);
}

#[test]
fn registering_existing_interest_replaces_its_fd() {
    let mut set = InterestSet::new();

    set.register(0, 10, ());
    set.register(0, 11, ());

    assert_eq!(set.len(), 1);
    assert_eq!(set.fds(), vec![11]);
    assert_eq!(set.wake_ready(&[10]).len(), 0);
    assert!(!set.take_ready(0));
    assert_eq!(set.wake_ready(&[11]).len(), 1);
    assert!(set.take_ready(0));
}

#[test]
fn remove_drops_pending_and_ready_interest() {
    let mut set = InterestSet::new();

    set.register(0, 10, ());
    set.register(1, 11, ());
    set.remove(0);

    assert_eq!(set.len(), 1);
    assert_eq!(set.fds(), vec![11]);

    assert_eq!(set.wake_ready(&[11]).len(), 1);
    set.remove(1);
    assert!(!set.take_ready(1));
    assert_eq!(set.len(), 0);
}

#[test]
fn clear_drops_pending_and_ready_interests() {
    let mut set = InterestSet::new();

    set.register(0, 10, ());
    set.register(1, 11, ());
    assert_eq!(set.wake_ready(&[10]).len(), 1);
    set.clear();

    assert_eq!(set.len(), 0);
    assert_eq!(set.fds(), Vec::<i32>::new());
    assert!(!set.take_ready(0));
    assert!(!set.take_ready(1));
}

#[test]
fn readiness_interests_keep_read_and_write_sets_separate() {
    let mut interests = ReadinessInterests::new();
    let read_id = interests.allocate_read_id();
    let write_id = interests.allocate_write_id();

    interests.register_read(read_id, 10, ());
    interests.register_write(write_id, 10, ());

    assert_eq!(interests.read_len(), 1);
    assert_eq!(interests.write_len(), 1);
    assert_eq!(interests.read_fds(), vec![10]);
    assert_eq!(interests.write_fds(), vec![10]);

    assert_eq!(interests.wake_readable(&[10]).len(), 1);
    assert!(interests.take_ready_read(read_id));
    assert!(!interests.take_ready_write(write_id));
    assert_eq!(interests.write_len(), 1);

    assert_eq!(interests.wake_writable(&[10]).len(), 1);
    assert!(interests.take_ready_write(write_id));
}

#[test]
fn readiness_interests_clear_both_directions() {
    let mut interests = ReadinessInterests::new();

    interests.register_read(0, 10, ());
    interests.register_write(0, 11, ());
    assert_eq!(interests.wake_readable(&[10]).len(), 1);
    assert_eq!(interests.wake_writable(&[11]).len(), 1);

    interests.clear();

    assert_eq!(interests.read_len(), 0);
    assert_eq!(interests.write_len(), 0);
    assert!(!interests.take_ready_read(0));
    assert!(!interests.take_ready_write(0));
}

// The root future's waker.

#[test]
fn root_waker_starts_ready_and_take_ready_clears_it() {
    let mut root = RootWaker::new();

    assert!(root.is_ready());
    assert!(root.take_ready());
    assert!(!root.is_ready());
    assert!(!root.take_ready());
}

#[test]
fn wake_by_ref_marks_root_ready() {
    let mut root = RootWaker::new();
    assert!(root.take_ready());

    assert!(root.mark_ready());

    assert!(root.is_ready());
    assert!(root.take_ready());
}

#[test]
fn wake_marks_root_ready() {
    let mut root = RootWaker::new();
    assert!(root.take_ready());

    root.mark_ready();

    assert!(root.is_ready());
    assert!(root.take_ready());
}

// Snapshots.

fn snapshot_parts(
    task_snapshot: SchedulerTaskSnapshot,
    live_tasks: Vec<Option<TaskSnapshot>>,
) -> ExecutorSnapshotParts {
    let counters = SchedulerCounters {
        total_spawned_tasks: 10,
        total_completed_tasks: 8,
        total_task_polls: 24,
        ready_poll_budget_exhaustions: 2,
        total_driver_events: 6,
        total_readiness_events: 4,
        total_readable_events: 3,
        total_writable_events: 2,
        total_completion_events: 2,
        ..SchedulerCounters::default()
    };

    ExecutorSnapshotParts {
        tasks: task_snapshot,
        live_tasks,
        timer_count: 3,
        counters,
        read_interest_count: 5,
        write_interest_count: 7,
        io_uring: None,
    }
}

#[test]
fn snapshot_builder_copies_scheduler_fields_and_counters() {
    let task_snapshot = SchedulerTaskSnapshot {
        accepting: false,
        spawner_count: 2,
        task_count: 4,
        ready_queue_len: 1,
        groups: Vec::new(),
        tasks: Vec::new(),
    };

    let snapshot = build_executor_snapshot(snapshot_parts(task_snapshot, Vec::new()));

    assert!(!snapshot.accepting);
    assert_eq!(snapshot.spawner_count, 2);
    assert_eq!(snapshot.task_count, 4);
    assert_eq!(snapshot.ready_queue_len, 1);
    assert_eq!(snapshot.timer_count, 3);
    assert_eq!(snapshot.ready_poll_budget, READY_POLL_BUDGET);
    assert_eq!(snapshot.total_spawned_tasks, 10);
    assert_eq!(snapshot.total_completed_tasks, 8);
    assert_eq!(snapshot.total_task_polls, 24);
    assert_eq!(snapshot.ready_poll_budget_exhaustions, 2);
    assert_eq!(snapshot.total_driver_events, 6);
    assert_eq!(snapshot.read_interest_count, 5);
    assert_eq!(snapshot.write_interest_count, 7);
    assert_eq!(snapshot.total_readiness_events, 4);
    assert_eq!(snapshot.total_readable_events, 3);
    assert_eq!(snapshot.total_writable_events, 2);
    assert_eq!(snapshot.total_completion_events, 2);
    assert!(snapshot.io_uring.is_none());
}

#[test]
fn snapshot_builder_filters_dropped_tasks_and_sorts_live_tasks_by_id() {
    let high = task(9);
    let low = task(1);

    let task_snapshot = SchedulerTaskSnapshot {
        accepting: true,
        spawner_count: 1,
        task_count: 2,
        ready_queue_len: 0,
        groups: Vec::new(),
        tasks: vec![TaskId(9), TaskId(5), TaskId(1)],
    };
    let live = vec![Some(high.snapshot()), None, Some(low.snapshot())];

    let snapshot = build_executor_snapshot(snapshot_parts(task_snapshot, live));

    assert_eq!(snapshot.tasks.len(), 2);
    assert_eq!(snapshot.tasks[0].id, TaskId(1));
    assert_eq!(snapshot.tasks[1].id, TaskId(9));
}

// Task set.

fn task(id: usize) -> Task<u8, u8> {
    task_in_group(id, DEFAULT_GROUP)
}

fn task_in_group(id: usize, group_id: SchedulingGroupId) -> Task<u8, u8> {
    Task::new_in_group(TaskId(id), None, group_id, 0, None, 0)
}

#[test]
fn task_ids_are_allocated_monotonically() {
    let mut tasks = SchedulerTaskSet::new();

    assert_eq!(tasks.allocate_task_id(), TaskId(0));
    assert_eq!(tasks.allocate_task_id(), TaskId(1));
    assert_eq!(tasks.allocate_task_id(), TaskId(2));
}

#[test]
fn new_tasks_are_counted_and_queued_in_order() {
    let mut tasks = SchedulerTaskSet::new();
    let mut first = task(0);
    let mut second = task(1);

    tasks.schedule_new(&mut first).unwrap();
    tasks.schedule_new(&mut second).unwrap();

    assert_eq!(tasks.snapshot().task_count, 2);
    assert_eq!(tasks.snapshot().ready_queue_len, 2);
    assert_eq!(tasks.snapshot().groups[0].ready_queue_len, 2);
    assert_eq!(tasks.next_task().unwrap(), first.id);
    assert_eq!(tasks.next_task().unwrap(), second.id);
    assert!(tasks.next_task().is_none());
}

#[test]
fn existing_tasks_are_requeued_without_changing_task_count() {
    let mut tasks = SchedulerTaskSet::new();
    let mut task = task(0);

    tasks.schedule_new(&mut task).unwrap();
    tasks.schedule_existing(&mut task).unwrap();

    assert_eq!(tasks.snapshot().task_count, 1);
    assert_eq!(tasks.snapshot().ready_queue_len, 2);
}

#[test]
fn finishing_tasks_and_dropping_spawners_drains_the_set() {
    let mut tasks = SchedulerTaskSet::new();
    let mut task = task(0);

    tasks.schedule_new(&mut task).unwrap();
    assert!(tasks.next_task().is_some());

    assert!(!tasks.finish_task());
    assert!(!tasks.is_drained());
    assert!(tasks.remove_spawner());
    assert!(tasks.is_drained());
}

#[test]
fn closing_stops_accepting_and_returns_observable_tasks() {
    let mut tasks = SchedulerTaskSet::new();
    let mut task = task(0);
    assert!(task.mark_queued(0));

    tasks.schedule_new(&mut task).unwrap();
    let closed = tasks.close();

    assert_eq!(closed.len(), 1);
    assert_eq!(closed[0], task.id);
    assert!(!tasks.snapshot().accepting);
    assert_eq!(tasks.snapshot().task_count, 0);
    assert_eq!(tasks.snapshot().ready_queue_len, 0);

    assert!(tasks.schedule_new(&mut task).is_err());
    assert!(task.mark_queued(0));
}

#[test]
fn scheduling_groups_are_reported_in_snapshots() {
    let mut tasks = SchedulerTaskSet::new();
    let group_id = tasks.create_scheduling_group("bulk".to_string(), 25);
    let mut task = task_in_group(1, group_id);

    tasks.schedule_new(&mut task).unwrap();
    let snapshot = tasks.snapshot();

    assert_eq!(snapshot.groups.len(), 2);
    assert_eq!(snapshot.groups[0].name, "default");
    assert_eq!(snapshot.groups[0].shares, DEFAULT_SCHEDULING_GROUP_SHARES);
    assert_eq!(snapshot.groups[1].id, group_id);
    assert_eq!(snapshot.groups[1].name, "bulk");
    assert_eq!(snapshot.groups[1].shares, 25);
    assert_eq!(snapshot.groups[1].ready_queue_len, 1);
    assert_eq!(snapshot.groups[1].total_polls, 0);
}

#[test]
fn weighted_selection_prefers_lower_virtual_runtime() {
    let mut tasks = SchedulerTaskSet::new();
    let low_share = tasks.create_scheduling_group("low".to_string(), 10);
    let high_share = tasks.create_scheduling_group("high".to_string(), 100);

    let mut first_low = task_in_group(1, low_share);
    let mut first_high = task_in_group(2, high_share);
    tasks.schedule_new(&mut first_low).unwrap();
    tasks.schedule_new(&mut first_high).unwrap();

    assert_eq!(tasks.next_task().unwrap(), first_low.id);
    tasks.record_task_poll(low_share, ms(1));
    assert_eq!(tasks.snapshot().groups[low_share.0].total_polls, 1);

    let mut second_low = task_in_group(3, low_share);
    let mut second_high = task_in_group(4, high_share);
    tasks.schedule_new(&mut second_low).unwrap();
    tasks.schedule_new(&mut second_high).unwrap();

    assert_eq!(tasks.next_task().unwrap(), first_high.id);
    tasks.record_task_poll(high_share, ms(1));
    assert_eq!(tasks.next_task().unwrap(), second_high.id);
}

#[test]
fn late_created_group_starts_at_current_minimum_virtual_runtime() {
    let mut tasks = SchedulerTaskSet::new();
    let first_group = tasks.create_scheduling_group("first".to_string(), 100);

    tasks.record_task_poll(DEFAULT_GROUP, ms(2));
    tasks.record_task_poll(first_group, ms(1));

    let late_group = tasks.create_scheduling_group("late".to_string(), 100);
    let snapshot = tasks.snapshot();
    let first_vruntime = snapshot
        .groups
        .iter()
        .find(|group| group.id == first_group)
        .unwrap()
        .virtual_runtime;
    let late_vruntime = snapshot
        .groups
        .iter()
        .find(|group| group.id == late_group)
        .unwrap()
        .virtual_runtime;

    assert_eq!(first_vruntime, late_vruntime);

    let mut first_task = task_in_group(1, first_group);
    let mut late_task = task_in_group(2, late_group);
    tasks.schedule_new(&mut first_task).unwrap();
    tasks.schedule_new(&mut late_task).unwrap();

    assert_eq!(tasks.next_task().unwrap(), first_task.id);
}

#[test]
fn more_shares_cost_less_virtual_runtime() {
    let mut tasks = SchedulerTaskSet::new();
    let small = tasks.create_scheduling_group("small".to_string(), 10);
    let large = tasks.create_scheduling_group("large".to_string(), 1000);
    tasks.record_task_poll(small, ms(1));
    tasks.record_task_poll(large, ms(1));
    let snapshot = tasks.snapshot();
    assert_eq!(
        snapshot.groups[small.0].virtual_runtime,
        100 * snapshot.groups[large.0].virtual_runtime
    );
    assert_eq!(snapshot.groups[small.0].total_poll_time, ms(1) as u128);
}

// Task state.

fn task_snapshot(state: &TaskState<u8, u8>) -> TaskSnapshot {
    state.snapshot(TaskId(7), Some("task".to_string()), DEFAULT_GROUP, 0)
}

#[test]
fn new_task_state_starts_waiting_with_future() {
    let state = TaskState::new(0, None);
    let snapshot = task_snapshot(&state);

    assert_eq!(snapshot.id, TaskId(7));
    assert_eq!(snapshot.name.as_deref(), Some("task"));
    assert_eq!(snapshot.scheduling_group_id, DEFAULT_GROUP);
    assert_eq!(snapshot.scheduling_group_name, None);
    assert_eq!(snapshot.status, TaskStatus::Waiting);
    assert_eq!(snapshot.waiting_for, None);
    assert_eq!(snapshot.poll_count, 0);
}

#[test]
fn queued_state_records_schedule_time_once_until_polled() {
    let mut state = TaskState::new(0, None);
    let scheduled_at = ms(3);

    assert!(state.mark_queued(scheduled_at));
    assert!(!state.mark_queued(scheduled_at));

    let snapshot = task_snapshot(&state);
    assert_eq!(snapshot.status, TaskStatus::Queued);
    assert_eq!(snapshot.last_scheduled_at, Some(scheduled_at));
}

#[test]
fn polling_state_tracks_wait_interest_and_pending_snapshot() {
    let mut state = TaskState::new(0, None);
    let poll_started_at = ms(3);
    let future = state
        .take_future_for_poll(poll_started_at)
        .expect("future should be available");
    let deadline = poll_started_at + ms(10);

    state.set_waiting_for(TaskWait::Timer { deadline });
    let snapshot = task_snapshot(&state);
    assert_eq!(snapshot.status, TaskStatus::Polling);
    assert_eq!(snapshot.waiting_for, Some(TaskWait::Timer { deadline }));
    assert_eq!(snapshot.poll_count, 1);
    assert_eq!(snapshot.last_poll_started_at, Some(poll_started_at));

    let poll_finished_at = poll_started_at + ms(1);
    assert!(!state.finish_pending(future, poll_finished_at - poll_started_at, poll_finished_at));

    let snapshot = task_snapshot(&state);
    assert_eq!(snapshot.status, TaskStatus::Waiting);
    assert_eq!(snapshot.waiting_for, Some(TaskWait::Timer { deadline }));
    assert_eq!(snapshot.last_poll_finished_at, Some(poll_finished_at));
}

#[test]
fn pending_without_wait_interest_records_unknown_wait() {
    let mut state = TaskState::new(0, None);
    let poll_started_at = ms(3);
    let future = state
        .take_future_for_poll(poll_started_at)
        .expect("future should be available");
    let poll_finished_at = poll_started_at + ms(1);

    assert!(!state.finish_pending(future, poll_finished_at - poll_started_at, poll_finished_at));

    assert_eq!(task_snapshot(&state).waiting_for, Some(TaskWait::Unknown));
}

#[test]
fn cancellation_while_polling_finishes_after_pending_result() {
    let mut state = TaskState::new(0, None);
    let poll_started_at = ms(3);
    let future = state
        .take_future_for_poll(poll_started_at)
        .expect("future should be available");

    assert_eq!(state.cancel(), Some(false));

    let poll_finished_at = poll_started_at + ms(1);
    assert!(state.finish_pending(future, poll_finished_at - poll_started_at, poll_finished_at));

    let snapshot = task_snapshot(&state);
    assert_eq!(snapshot.status, TaskStatus::Cancelled);
    assert_eq!(snapshot.waiting_for, None);
}

#[test]
fn cancellation_before_polling_drops_future_immediately() {
    let mut state = TaskState::new(0, None);

    assert_eq!(state.cancel(), Some(true));
    assert_eq!(state.cancel(), None);
    assert!(state.take_future_for_poll(ms(3)).is_none());
    assert_eq!(task_snapshot(&state).status, TaskStatus::Cancelled);
}

#[test]
fn ready_and_panicked_states_complete_task() {
    let mut ready = TaskState::new(0, None);
    let started = ms(3);
    let _future = ready.take_future_for_poll(started).expect("future should be available");
    let finished = started + ms(1);
    ready.finish_ready(finished - started, finished);
    assert_eq!(task_snapshot(&ready).status, TaskStatus::Completed);

    let mut panicked = TaskState::new(0, Some(1));
    let _future = panicked.take_future_for_poll(started).expect("future should be available");
    assert!(panicked.finish_panicked(finished - started, finished).is_some());
    assert_eq!(task_snapshot(&panicked).status, TaskStatus::Completed);
    assert!(panicked.finish_panicked(finished - started, finished).is_none());
}

#[test]
fn poll_reports_say_what_to_do_next() {
    let mut task = Task::<&str, &str>::new_in_group(
        TaskId(0),
        None,
        DEFAULT_GROUP,
        "future",
        Some("handler"),
        0,
    );
    let future = task.begin_poll(10).unwrap();
    let report = task.finish_poll(PollOutcome::Pending(future), 10, 14);
    assert!(!report.finished);
    assert_eq!(report.poll_duration, 4);
    let _future = task.begin_poll(20).unwrap();
    let report = task.finish_poll(PollOutcome::Panicked, 20, 21);
    assert!(report.finished);
    assert_eq!(report.panic_handler, Some("handler"));
    assert!(task.begin_poll(30).is_none());
    assert!(!task.cancel().accepted);
}

#[test]
fn wakeup_during_a_poll_leaves_the_task_queued() {
    let mut task =
        Task::<&str, &str>::new_in_group(TaskId(2), None, DEFAULT_GROUP, "future", None, 0);
    let future = task.begin_poll(10).unwrap();
    assert!(task.mark_queued(12));
    assert!(!task.mark_queued(13));
    let report = task.finish_poll(PollOutcome::Pending(future), 10, 14);
    assert!(!report.finished);
    assert_eq!(task.snapshot().status, TaskStatus::Queued);
    assert_eq!(task.state.last_scheduled_at, Some(12));
    assert_eq!(task.begin_poll(20), Some("future"));
}

// Task snapshots.

fn worker_snapshot(status: TaskStatus) -> TaskSnapshot {
    let created_at = ms(100);
    TaskSnapshot {
        id: TaskId(7),
        name: Some(String::from("worker")),
        scheduling_group_id: DEFAULT_GROUP,
        scheduling_group_name: Some(String::from("default")),
        status,
        waiting_for: None,
        poll_count: 3,
        total_poll_time: ms(2) as u128,
        created_at,
        last_scheduled_at: Some(created_at + ms(10)),
        last_poll_started_at: Some(created_at + ms(20)),
        last_poll_finished_at: Some(created_at + ms(30)),
    }
}

#[test]
fn task_snapshot_duration_helpers_report_elapsed_times() {
    let task = worker_snapshot(TaskStatus::Waiting);
    let now = task.created_at + ms(45);

    assert_eq!(task.age_at(now), ms(45));
    assert_eq!(task.time_since_last_scheduled_at(now), Some(ms(35)));
    assert_eq!(task.time_since_last_poll_started_at(now), Some(ms(25)));
    assert_eq!(task.time_since_last_poll_finished_at(now), Some(ms(15)));
    assert_eq!(task.age_at(0), 0);
}

#[test]
fn task_snapshot_state_duration_uses_current_state_timestamp() {
    let queued = worker_snapshot(TaskStatus::Queued);
    let now = queued.created_at + ms(45);
    assert_eq!(queued.state_duration_at(now), ms(35));

    let polling = worker_snapshot(TaskStatus::Polling);
    let now = polling.created_at + ms(45);
    assert_eq!(polling.state_duration_at(now), ms(25));

    for status in [TaskStatus::Waiting, TaskStatus::Completed, TaskStatus::Cancelled] {
        let task = worker_snapshot(status);
        let now = task.created_at + ms(45);
        assert_eq!(task.state_duration_at(now), ms(15));
    }
}

#[test]
fn task_snapshot_state_duration_falls_back_to_created_at() {
    let created_at = ms(100);
    let task = TaskSnapshot {
        id: TaskId(7),
        name: None,
        scheduling_group_id: DEFAULT_GROUP,
        scheduling_group_name: None,
        status: TaskStatus::Queued,
        waiting_for: None,
        poll_count: 0,
        total_poll_time: 0,
        created_at,
        last_scheduled_at: None,
        last_poll_started_at: None,
        last_poll_finished_at: None,
    };
    let now = created_at + ms(5);

    assert_eq!(task.state_duration_at(now), ms(5));
}

// Timers.

#[test]
fn timers_split_at_the_present() {
    let mut timers = TimerSet::new();
    assert_eq!(timers.next_deadline(), None);
    assert!(timers.register(0, 30, "late"));
    assert!(timers.register(1, 10, "early"));
    assert!(!timers.register(2, 20, "middle"));
    assert_eq!(timers.next_deadline(), Some(10));
    assert_eq!(timers.time_until_next(4), Some(6));
    assert_eq!(timers.time_until_next(40), Some(0));
    let woken = timers.expired(20);
    assert_eq!(woken.len(), 2);
    assert!(woken.contains(&"early") && woken.contains(&"middle"));
    assert_eq!(timers.len(), 1);
    timers.remove(0);
    assert_eq!(timers.len(), 0);
}

// Groups.

#[test]
fn scheduling_groups_belong_to_one_executor() {
    let mut next = 0;
    let first = ExecutorId::allocate(&mut next);
    let second = ExecutorId::allocate(&mut next);
    assert_ne!(first, second);
    let group = SchedulingGroup::new(first, SchedulingGroupId(3), "bulk".to_string(), 25);
    assert!(group.belongs_to(first));
    assert!(!group.belongs_to(second));
    assert_eq!((group.id(), group.name(), group.shares()), (SchedulingGroupId(3), "bulk", 25));
    let default = SchedulingGroup::default();
    assert!(default.belongs_to(first) && default.belongs_to(second));
    assert_eq!(default.shares(), DEFAULT_SCHEDULING_GROUP_SHARES);
    assert_eq!(
        SchedulingGroupError::ZeroShares.message(),
        "scheduling group shares must be greater than zero"
    );
    assert_eq!(SpawnError::Closed.message(), "executor is not accepting tasks");
    assert_eq!(
        SpawnError::SchedulingGroupExecutorMismatch.message(),
        "scheduling group belongs to a different executor"
    );
}

// Spawning.

#[test]
fn groups_of_another_executor_are_refused() {
    let mut next = 0;
    let mut scheduler = Scheduler::<u8>::new(ExecutorId::allocate(&mut next));
    let mut other = Scheduler::<u8>::new(ExecutorId::allocate(&mut next));
    assert!(scheduler.can_schedule());
    let group =
        spawner::create_scheduling_group(&mut scheduler, "bulk".to_string(), 25).unwrap();
    assert_eq!(
        spawner::create_scheduling_group(&mut scheduler, "none".to_string(), 0),
        Err(SchedulingGroupError::ZeroShares)
    );
    let refused: Result<Task<u8, u8>, SpawnError> =
        spawner::spawn_in_group(&mut other, &group, None, 1, None, 0);
    assert!(matches!(refused, Err(SpawnError::SchedulingGroupExecutorMismatch)));
    let task: Task<u8, u8> =
        spawner::spawn_in_group(&mut scheduler, &group, Some("t".to_string()), 1, Some(2), 5)
            .unwrap();
    assert_eq!(task.scheduling_group_id(), group.id());
    assert_eq!(task.snapshot().name.as_deref(), Some("t"));
    let named: Task<u8, u8> =
        spawner::spawn_named(&mut scheduler, "named".to_string(), 1, 6).unwrap();
    assert_eq!((named.id, named.created_at), (TaskId(1), 6));
    let plain: Task<u8, u8> = spawner::spawn(&mut scheduler, 1, 7).unwrap();
    assert_eq!(plain.snapshot().status, TaskStatus::Queued);
    let snapshot = scheduler.snapshot(vec![Some(plain.snapshot())]);
    assert_eq!((snapshot.task_count, snapshot.ready_queue_len), (3, 3));
    assert_eq!(snapshot.scheduling_groups[group.id().0].ready_queue_len, 1);
    assert_eq!(snapshot.total_spawned_tasks, 3);
    scheduler.record_io_uring_snapshot(None);
    assert!(scheduler.tasks.can_record_task_poll(group.id(), ms(1)));
    assert_eq!(scheduler.close().len(), 3);
    let closed: Result<Task<u8, u8>, SpawnError> = spawner::spawn(&mut scheduler, 1, 8);
    assert!(matches!(closed, Err(SpawnError::Closed)));
    assert_eq!(scheduler.snapshot(Vec::new()).total_spawned_tasks, 3);
}

#[test]
fn backpressure_guard_has_a_text() {
    let mut guard = BackpressureGuard::<u8>::new(12);
    let permit = guard.try_acquire().unwrap();
    assert_eq!(guard.to_text(), "BackpressureGuard(1/12)");
    guard.release(permit);
}

#[test]
fn groups_that_stay_ready_share_by_weight() {
    let mut tasks = SchedulerTaskSet::new();
    let light = tasks.create_scheduling_group("light".to_string(), 100);
    let heavy = tasks.create_scheduling_group("heavy".to_string(), 300);
    for id in 0..400 {
        tasks.schedule_new(&mut task_in_group(id, light)).unwrap();
        tasks.schedule_new(&mut task_in_group(1000 + id, heavy)).unwrap();
    }
    let mut polls = [0, 0];
    for _ in 0..400 {
        let id = tasks.next_task().unwrap();
        let group = if id.0 < 1000 { light } else { heavy };
        polls[if group == light { 0 } else { 1 }] += 1;
        tasks.record_task_poll(group, ms(3));
        let groups = tasks.snapshot().groups;
        let (a, b) = (groups[light.0].virtual_runtime, groups[heavy.0].virtual_runtime);
        assert!(a.abs_diff(b) <= ms(3) as u128);
    }
    assert_eq!(polls, [100, 300]);
}

#[test]
fn closed_scope_is_stopped_and_has_no_children() {
    let mut scope = TaskScope::<u8, &str>::new();
    scope.adopt(1);
    scope.adopt(2);
    let token = scope.stop_token();
    assert!(!token.poll(&mut scope.stop_source, "child", |a: &&str, b: &&str| a == b));
    let report = |accepted| CancelReport { accepted, finished: accepted, wake_reactor: false };
    assert_eq!(scope.abort_all(&vec![report(true), report(false)]), 1);

    let (woken, join) = scope.shutdown_timeout(10, 5);
    assert_eq!(woken, vec!["child"]);
    assert_eq!((join.deadline, join.waiting), (15, vec![1, 2]));
    assert!(scope.is_stopped());
    assert!(token.poll(&mut scope.stop_source, "child", |a: &&str, b: &&str| a == b));
    assert!(scope.stop().is_none());
    let (woken, children) = scope.close();
    assert!(woken.is_empty() && children.is_empty());
}
