//! Work on shards: shard-local values, placement, CPU affinity and the TCP server.

use std::sync::Mutex;

use sitas::executor::join::JoinError;
use sitas::executor::spawn_error::SpawnError;
use sitas::executor::task::CancelReport;
use sitas::io_error::{ErrorKind, IoError};
use sitas::net::SocketAddr;
use sitas::error::ShardError;
use sitas::endian::ByteOrder;
use sitas::platform::{Host, Platform};
use sitas::shard::ShardId;
use sitas::shard_local::{
    shard_local_task_name, shard_local_worker_name, ShardLocal, ShardLocalAccessError,
    ShardLocalWorkerTimeoutError, ShardLocalWorkers, StoppableShardLocalWorkers,
};
use sitas::sharded_executor::affinity::{
    affinity_applied, apply_to_current_thread, available_cpu_ids, AffinityStep, CpuId,
    CpuPlacement, CpuPlacementStatus, CpuSet,
};
use sitas::sharded_executor::join::{
    join_all_shards, reduce_outputs, BoundedShardJoin, ShardJoinStep, ShardedJoinError,
    ShardedJoinHandle, ShardedJoinTimeoutError, ShardedOperationError, TimedJoin,
};
use sitas::sharded_executor::placement::{
    current_executor_shard, ShardContext, ShardedExecutor, ShardedSpawnError,
};
use sitas::sharded_tcp::config::{
    ShardedTcpConfig, ShardedTcpIncomingCpu, ShardedTcpStartError,
};
use sitas::sharded_tcp::connections::{
    connection_counts, hash_addr_to_shard, AcceptLoop, AcceptStep, ConnectionPermit,
};
use sitas::sharded_tcp::events::{
    ShardedTcpEvent, ShardedTcpEventRecorder, ShardedTcpEventSink, ShardedTcpServerSnapshot,
    ShardedTcpServerStats,
};
use sitas::sharded_tcp::listener::{ListenStep, ListenerSetup};
use sitas::sharded_tcp::server::{
    accept_task_name, single_listener, AcceptMode, PerShardListeners, ShardedTcpConnection,
    ShardedTcpServer, ShardedTcpServerHandle,
};

const LINUX: Host = Host { platform: Platform::Linux, byte_order: ByteOrder::Little };
const OTHER_UNIX: Host = Host { platform: Platform::OtherUnix, byte_order: ByteOrder::Little };
const LOCALHOST: SocketAddr = SocketAddr::V4 { ip: [127, 0, 0, 1], port: 0 };

type Joined<T> = Result<(ShardId, T), ShardedJoinError<&'static str>>;

/// Runs an operation on every shard, each in the context of its own shard.
fn on_all<T, R>(
    local: &mut ShardLocal<T>,
    mut operation: impl FnMut(ShardId, &mut T) -> R,
) -> Vec<Joined<R>> {
    let mut results = Vec::new();
    for shard in 0..local.shard_count() {
        let mut context = ShardContext::new();
        context.enter(ShardId(shard));
        let output = local
            .with_current(current_executor_shard(&context), |shard_id, value| {
                operation(shard_id, value)
            })
            .unwrap();
        results.push(Ok(output));
    }
    results
}

// Shard-local values.

#[test]
fn shard_local_values_are_accessed_on_owning_shards() {
    let mut local = ShardLocal::new(3, |shard_id: ShardId| shard_id.0);

    let handles = on_all(&mut local, |shard_id, value| {
        *value += 10;
        (shard_id, *value)
    });
    let outputs = join_all_shards(handles).unwrap();

    assert_eq!(
        outputs,
        vec![
            (ShardId(0), (ShardId(0), 10)),
            (ShardId(1), (ShardId(1), 11)),
            (ShardId(2), (ShardId(2), 12))
        ]
    );
}

#[test]
fn shard_local_rejects_invalid_shard() {
    let local = ShardLocal::new(1, |_| 0usize);

    let error = local.cell_for(ShardId(3)).expect_err("invalid shard should fail");

    assert_eq!(error, ShardedSpawnError::InvalidShardId(3));
    assert_eq!(local.cell_for(ShardId(0)), Ok(ShardId(0)));
}

#[test]
fn shard_local_map_reduce_runs_on_owning_shards() {
    let mut local = ShardLocal::new(4, |shard_id: ShardId| shard_id.0);

    let outputs = join_all_shards(on_all(&mut local, |shard_id, value| {
        *value += 1;
        shard_id.0 + *value
    }))
    .unwrap();
    let total = reduce_outputs(outputs, 0usize, |sum, _shard_id, value| sum + value);

    assert_eq!(total, 16);
}

#[test]
fn cloned_shard_local_handle_shares_shard_values() {
    let local = Mutex::new(ShardLocal::new(2, |_| 0usize));
    let task_local = &local;

    let outputs = join_all_shards(on_all(&mut task_local.lock().unwrap(), |_shard_id, value| {
        *value += 5;
        *value
    }))
    .unwrap();
    let remote_total = reduce_outputs(outputs, 0usize, |sum, _shard_id, value| sum + value);

    assert_eq!(remote_total, 10);

    let values =
        join_all_shards(on_all(&mut local.lock().unwrap(), |_shard_id, value| *value)).unwrap();
    assert_eq!(values, vec![(ShardId(0), 5), (ShardId(1), 5)]);
}

#[test]
fn with_current_accesses_current_shard_without_submission() {
    let mut local = ShardLocal::new(3, |_| 0usize);

    let output = local
        .with_current(Some(ShardId(2)), |shard_id, value| {
            *value += 11;
            (shard_id, *value)
        })
        .unwrap();

    assert_eq!(output, (ShardId(2), (ShardId(2), 11)));

    let values = join_all_shards(on_all(&mut local, |_shard_id, value| *value)).unwrap();
    assert_eq!(values, vec![(ShardId(0), 0), (ShardId(1), 0), (ShardId(2), 11)]);
}

#[test]
fn with_current_rejects_non_shard_thread() {
    let mut local = ShardLocal::new(1, |_| 0usize);
    let mut context = ShardContext::new();
    context.enter(ShardId(0));
    context.leave();

    let error = local
        .with_current(current_executor_shard(&context), |_shard_id, value| {
            *value += 1;
            *value
        })
        .expect_err("non-shard caller should fail");

    assert_eq!(error, ShardLocalAccessError::NotOnShard);
    assert_eq!(error.message(), "not running on a sharded executor thread");

    let error = local.with_current(Some(ShardId(4)), |_, value| *value).unwrap_err();
    assert_eq!(error, ShardLocalAccessError::InvalidShardId(4));
    assert_eq!(error.message(), "invalid shard id: 4");
    assert_eq!(local.values, vec![0]);
}

fn workers(shards: usize) -> ShardLocalWorkers<usize> {
    ShardLocalWorkers {
        handles: (0..shards).map(|i| ShardedJoinHandle::new(ShardId(i), i)).collect(),
    }
}

#[test]
fn shard_local_workers_run_on_each_owning_shard() {
    let mut local = ShardLocal::new(4, |shard_id: ShardId| shard_id.0);
    let workers = workers(4);

    assert_eq!(workers.len(), 4);
    assert!(!workers.is_empty());
    assert_eq!(
        workers.shard_ids(),
        vec![ShardId(0), ShardId(1), ShardId(2), ShardId(3)]
    );

    let outputs = workers
        .into_handles()
        .into_iter()
        .map(|handle| {
            let expected_shard = handle.shard_id();
            let output = local.with_current(Some(expected_shard), |current_shard, value| {
                assert_eq!(current_shard, expected_shard);
                *value += 100;
                *value
            });
            handle.join::<_, &str>(Ok(output.unwrap()))
        })
        .collect();
    assert_eq!(
        join_all_shards(outputs).unwrap(),
        vec![
            (ShardId(0), (ShardId(0), 100)),
            (ShardId(1), (ShardId(1), 101)),
            (ShardId(2), (ShardId(2), 102)),
            (ShardId(3), (ShardId(3), 103))
        ]
    );

    let values = join_all_shards(on_all(&mut local, |_shard_id, value| *value)).unwrap();
    assert_eq!(
        values,
        vec![
            (ShardId(0), 100),
            (ShardId(1), 101),
            (ShardId(2), 102),
            (ShardId(3), 103)
        ]
    );
}

#[test]
fn shard_local_workers_can_reduce_outputs() {
    let mut local = ShardLocal::new(3, |shard_id: ShardId| shard_id.0 + 1);

    let outputs = workers(3)
        .into_handles()
        .into_iter()
        .map(|handle| {
            let output = local.with_current(Some(handle.shard_id()), |_current_shard, value| {
                *value *= 10;
                *value
            });
            handle.join::<_, &str>(Ok(output.unwrap()))
        })
        .collect();

    let total = reduce_outputs(
        join_all_shards(outputs).unwrap(),
        0usize,
        |sum, _shard_id, output: (ShardId, usize)| {
            let (_current_shard, value) = output;
            sum + value
        },
    );

    assert_eq!(total, 60);
}

fn stoppable(shards: usize) -> StoppableShardLocalWorkers<usize, &'static str> {
    let (mut workers, _token) = StoppableShardLocalWorkers::new();
    assert!(workers.is_empty());
    for i in 0..shards {
        workers.adopt(ShardedJoinHandle::new(ShardId(i), i));
    }
    workers
}

#[test]
fn stoppable_shard_local_workers_stop_and_join() {
    let mut local = ShardLocal::new(3, |_| 0usize);
    let mut workers = stoppable(3);

    assert_eq!(workers.len(), 3);
    assert_eq!(workers.shard_ids(), vec![ShardId(0), ShardId(1), ShardId(2)]);
    assert!(!workers.is_stopped());
    assert!(workers.stop().is_some());
    assert!(workers.stop().is_none());
    assert!(workers.is_stopped());

    let outputs = workers
        .into_workers()
        .into_handles()
        .into_iter()
        .map(|handle| {
            let (_, value) = local
                .with_current(Some(handle.shard_id()), |_current_shard, value| {
                    *value += 1;
                    *value
                })
                .unwrap();
            handle.join::<_, &str>(Ok(value))
        })
        .collect();
    assert_eq!(
        join_all_shards(outputs).unwrap(),
        vec![(ShardId(0), 1), (ShardId(1), 1), (ShardId(2), 1)]
    );
}

#[test]
fn stoppable_shard_local_workers_can_stop_and_reduce() {
    let mut local = ShardLocal::new(2, |_| 0usize);
    let mut workers = stoppable(2);
    workers.stop();
    let outputs = workers
        .into_workers()
        .into_handles()
        .into_iter()
        .map(|handle| {
            let (_, value) = local
                .with_current(Some(handle.shard_id()), |_current_shard, value| {
                    *value += 5;
                    *value
                })
                .unwrap();
            handle.join::<_, &str>(Ok(value))
        })
        .collect();
    let total = reduce_outputs(
        join_all_shards(outputs).unwrap(),
        0usize,
        |sum, _shard_id, value| sum + value,
    );

    assert_eq!(total, 10);
}

#[test]
fn stoppable_shard_local_workers_can_stop_and_join_with_timeout() {
    let mut workers = stoppable(2);
    workers.stop();
    let handles = workers.into_workers().into_handles();
    let mut join = BoundedShardJoin::<usize, usize>::new(handles, 0, 1_000);
    for now in [0, 10] {
        assert!(matches!(
            join.next(now),
            ShardJoinStep::Await { remaining } if remaining == 1_000 - now
        ));
        assert!(join.joined(TimedJoin::<usize, &str>::Joined(Ok(2))).is_none());
    }
    match join.next(20) {
        ShardJoinStep::Finished { outputs } => {
            assert_eq!(outputs, vec![(ShardId(0), 2), (ShardId(1), 2)]);
        }
        _ => panic!("every worker has finished"),
    }
}

#[test]
fn stoppable_shard_local_worker_timeout_aborts_uncooperative_workers() {
    let mut workers = stoppable(2);
    workers.stop();
    let handles = workers.into_workers().into_handles();
    let mut join = BoundedShardJoin::<usize, usize>::new(handles, 0, 5);
    assert!(matches!(join.next(0), ShardJoinStep::Await { remaining: 5 }));
    let end = join
        .joined(TimedJoin::<usize, &str>::TimedOut)
        .expect("uncooperative workers should time out");
    assert_eq!(end.abort.iter().map(|handle| handle.handle).collect::<Vec<_>>(), vec![0, 1]);
    let error = ShardLocalWorkerTimeoutError::from(end.error);

    assert!(error.is_timed_out());
    assert!(!error.is_join_error());
    assert!(matches!(error.shard_id(), ShardId(0) | ShardId(1)));
    assert_eq!(error.message(), "shard-local worker on shard 0 timed out");
}

#[test]
fn late_bounded_join_gives_up_on_all_workers() {
    let mut join =
        BoundedShardJoin::<usize, usize>::new(workers(3).into_handles(), 0, 5);
    assert!(matches!(join.next(0), ShardJoinStep::Await { .. }));
    assert!(join.joined(TimedJoin::<usize, &str>::Joined(Ok(7))).is_none());
    match join.next(5) {
        ShardJoinStep::TimedOut { shard_id, abort } => {
            assert_eq!(shard_id, ShardId(1));
            assert_eq!(abort.len(), 2);
        }
        _ => panic!("no time is left"),
    }
}

#[test]
fn failed_worker_ends_the_join() {
    let mut join =
        BoundedShardJoin::<usize, usize>::new(workers(2).into_handles(), 0, 5);
    assert!(matches!(join.next(0), ShardJoinStep::Await { .. }));
    let end = join.joined(TimedJoin::Joined(Err(JoinError::Panic("boom")))).unwrap();
    assert!(end.abort.is_empty());
    let error = ShardLocalWorkerTimeoutError::from(end.error);
    assert!(error.is_join_error());
    assert_eq!(error.shard_id(), ShardId(0));
    assert_eq!(error.message(), "task on shard 0 failed: task panicked");
}

#[test]
fn workers_have_names_and_count_their_aborts() {
    assert_eq!(shard_local_task_name(ShardId(3)), "shard-local-3");
    assert_eq!(shard_local_worker_name(ShardId(12)), "shard-local-worker-12");
    let report = |accepted| CancelReport { accepted, finished: accepted, wake_reactor: accepted };
    assert_eq!(
        workers(3).abort_all(&vec![report(true), report(false), report(true)]),
        2
    );
}

// Joins.

#[test]
fn join_outcomes_are_tagged_with_their_shard() {
    let handle = || ShardedJoinHandle::new(ShardId(2), "task");
    assert_eq!(handle().join::<_, &str>(Ok(5)), Ok((ShardId(2), 5)));
    let error = handle().join::<u8, &str>(Err(JoinError::Cancelled)).unwrap_err();
    assert_eq!(error.shard_id(), ShardId(2));
    assert!(error.error().is_cancelled());
    assert_eq!(error.message(), "task on shard 2 failed: task was cancelled");
    assert_eq!(
        ShardedOperationError::Join(error.clone()).message(),
        "task on shard 2 failed: task was cancelled"
    );
    assert!(error.into_error().is_cancelled());
    let (result, abort) = handle().join_timeout(TimedJoin::<u8, &str>::TimedOut);
    assert_eq!(abort, Some("task"));
    let error = result.unwrap_err();
    assert!(error.is_timed_out());
    assert_eq!(error.message(), "task on shard 2 timed out");
    let (result, abort) = handle().join_timeout(TimedJoin::Joined(Err(JoinError::Panic("x"))));
    assert_eq!(abort, None);
    assert!(matches!(
        Result::<(ShardId, u8), _>::unwrap_err(result),
        ShardedJoinTimeoutError::Join(error) if error.shard_id == ShardId(2)
    ));
    let (result, abort) = handle().join_timeout::<_, &str>(TimedJoin::Joined(Ok(1)));
    assert_eq!((result, abort), (Ok((ShardId(2), 1)), None));
}

#[test]
fn join_all_fails_with_the_first_failure() {
    let failure = |shard| ShardedJoinError { shard_id: ShardId(shard), error: JoinError::Panic("x") };
    let results: Vec<Joined<u8>> =
        vec![Ok((ShardId(0), 1)), Err(failure(1)), Err(failure(2))];
    assert_eq!(join_all_shards(results), Err(failure(1)));
}

// Placement of work.

#[test]
fn start_rejects_zero_shards() {
    assert_eq!(
        ShardedExecutor::<u8>::start(Vec::new()).err().unwrap().message(),
        "shard count must be greater than zero"
    );
    assert_eq!(
        ShardedExecutor::start(vec![Some(1u8), None]).err(),
        Some(ShardError::ThreadJoinFailed)
    );
}

#[test]
fn spawn_on_runs_task_on_requested_shard() {
    let runtime = ShardedExecutor::start(vec![Some('a'), Some('b'), Some('c')]).unwrap();
    assert_eq!(runtime.shard_count(), 3);
    let seen = (0..runtime.shard_count())
        .map(|shard_idx| {
            let spawner = runtime.spawner_for(ShardId(shard_idx)).unwrap();
            let mut context = ShardContext::new();
            context.enter(ShardId(shard_idx));
            runtime.spawn_on(ShardId(shard_idx), Ok(())).unwrap();
            (*spawner, current_executor_shard(&context))
        })
        .collect::<Vec<_>>();

    assert_eq!(
        seen,
        vec![
            ('a', Some(ShardId(0))),
            ('b', Some(ShardId(1))),
            ('c', Some(ShardId(2)))
        ]
    );
}

#[test]
fn spawn_with_handle_on_returns_task_output() {
    let runtime = ShardedExecutor::start(vec![Some('a'), Some('b')]).unwrap();
    let handle = runtime.spawn_on(ShardId(1), Ok(42)).unwrap();
    assert_eq!(handle, 42);
    assert_eq!(
        runtime.spawn_on::<u8>(ShardId(1), Err(SpawnError::Closed)),
        Err(ShardedSpawnError::Spawn(SpawnError::Closed))
    );
}

#[test]
fn spawn_on_rejects_invalid_shard() {
    let runtime = ShardedExecutor::start(vec![Some('a')]).unwrap();
    let error = runtime
        .spawn_on(ShardId(7), Ok(()))
        .expect_err("invalid shard should fail");

    assert_eq!(error, ShardedSpawnError::InvalidShardId(7));
    assert_eq!(error.message(), "invalid shard id: 7");
}

#[test]
fn spawn_on_rejects_stopped_shard() {
    let mut runtime = ShardedExecutor::start(vec![Some('a')]).unwrap();

    assert_eq!(runtime.shutdown(), vec!['a']);
    assert!(runtime.shutdown().is_empty());
    let error = runtime
        .spawn_on(ShardId(0), Ok(()))
        .expect_err("stopped shard should fail");

    assert_eq!(error, ShardedSpawnError::Stopped(ShardId(0)));
    assert_eq!(error.message(), "executor shard 0 has stopped");
    assert_eq!(
        ShardedOperationError::<u8>::Submit(error).message(),
        "executor shard 0 has stopped"
    );
    assert_eq!(
        ShardedSpawnError::Spawn(SpawnError::Closed).message(),
        "executor is not accepting tasks"
    );
}

// CPUs.

#[test]
fn cpu_placement_names_a_cpu_for_each_shard() {
    let available = vec![CpuId(2), CpuId(4)];
    assert_eq!(CpuPlacement::Unpinned.cpu_for_shard(0, &available), None);
    assert_eq!(CpuPlacement::Sequential.cpu_for_shard(3, &available), Some(CpuId(4)));
    assert_eq!(CpuPlacement::Sequential.cpu_for_shard(3, &[]), Some(CpuId(3)));
    let explicit = CpuPlacement::Explicit(vec![CpuId(4), CpuId(9)]);
    assert_eq!(explicit.cpu_for_shard(1, &available), Some(CpuId(9)));
    assert_eq!(explicit.cpu_for_shard(2, &available), None);
    assert!(explicit.validate(2));
    assert!(!explicit.validate(3));
    assert!(CpuPlacement::Sequential.validate(100));
    assert_eq!(explicit.validate_against_available_cpus(1, &available), Ok(()));
    assert_eq!(
        explicit.validate_against_available_cpus(2, &available),
        Err("CPU 9 is not in the process available CPU set [CpuId(2), CpuId(4)]".to_string())
    );
    assert_eq!(
        explicit.validate_against_available_cpus(3, &available),
        Err("explicit placement provides 2 CPUs for 3 shards".to_string())
    );
    assert_eq!(
        CpuPlacement::Explicit(vec![CpuId(0)]).validate_against_available_cpus(1, &[]),
        Err("CPU 0 is not in the process available CPU set []".to_string())
    );
}

#[test]
fn cpu_sets_hold_one_bit_per_cpu() {
    let mut set = CpuSet::empty();
    assert!(set.set(CpuId(0)));
    assert!(set.set(CpuId(65)));
    assert!(set.set(CpuId(1023)));
    assert!(!set.set(CpuId(1024)));
    assert_eq!((set.bits[0], set.bits[1], set.bits[15]), (1, 2, 1 << 63));
    assert!(set.contains(65));
    assert!(!set.contains(64));
    assert!(!set.contains(5000));
    assert_eq!(set.cpu_ids(), vec![CpuId(0), CpuId(65), CpuId(1023)]);
    assert_eq!(
        available_cpu_ids(Some(set), Some(4)),
        vec![CpuId(0), CpuId(65), CpuId(1023)]
    );
    assert_eq!(available_cpu_ids(None, Some(3)), vec![CpuId(0), CpuId(1), CpuId(2)]);
    assert_eq!(available_cpu_ids(None, None), vec![CpuId(0)]);
}

#[test]
fn cpu_placement_status_says_what_happened() {
    assert!(matches!(
        apply_to_current_thread(Platform::Linux, None),
        AffinityStep::Finished(CpuPlacementStatus::Unpinned)
    ));
    match apply_to_current_thread(Platform::Linux, Some(CpuId(7))) {
        AffinityStep::Bind { cpu, set } => {
            assert_eq!(cpu, CpuId(7));
            assert_eq!(set.cpu_ids(), vec![CpuId(7)]);
        }
        AffinityStep::Finished(_) => panic!("the thread has to be bound"),
    }
    match apply_to_current_thread(Platform::Linux, Some(CpuId(1024))) {
        AffinityStep::Finished(status) => {
            assert_eq!(
                status.message(),
                "failed to pin to CPU 1024: CPU index exceeds supported CPU_SETSIZE 1024"
            );
            assert_eq!(status.requested_cpu(), Some(CpuId(1024)));
        }
        AffinityStep::Bind { .. } => panic!("no set covers that CPU"),
    }
    let applied = affinity_applied(CpuId(7), None);
    assert!(applied.is_applied());
    assert_eq!(applied.message(), "pinned to CPU 7");
    let failed = affinity_applied(CpuId(7), Some("no".to_string()));
    assert!(!failed.is_applied());
    assert_eq!(failed.message(), "failed to pin to CPU 7: no");
    match apply_to_current_thread(Platform::OtherUnix, Some(CpuId(1))) {
        AffinityStep::Finished(status) => assert_eq!(
            status.message(),
            "CPU 1 requested but unsupported: hard CPU affinity is only implemented on Linux"
        ),
        AffinityStep::Bind { .. } => panic!("only Linux binds threads"),
    }
    let unsupported =
        CpuPlacementStatus::Unsupported { requested: None, reason: "why".to_string() };
    assert_eq!(unsupported.message(), "unsupported: why");
    assert_eq!(unsupported.requested_cpu(), None);
    assert_eq!(CpuPlacementStatus::Unpinned.message(), "unpinned");
}

// TCP server.

#[derive(Default)]
struct RecordingSink {
    events: Mutex<Vec<ShardedTcpEvent>>,
}

impl ShardedTcpEventSink for RecordingSink {
    fn record(&self, event: ShardedTcpEvent) {
        self.events.lock().unwrap().push(event);
    }
}

struct PanickingSink;

impl ShardedTcpEventSink for PanickingSink {
    fn record(&self, _event: ShardedTcpEvent) {
        panic!("sink panic");
    }
}

#[test]
fn connection_permit_enforces_per_shard_limit() {
    let mut counts = connection_counts(1);
    let first = ConnectionPermit::try_acquire(&mut counts, ShardId(0), 1);
    let second = ConnectionPermit::try_acquire(&mut counts, ShardId(0), 1);

    assert!(first.is_some());
    assert!(second.is_none());
    first.unwrap().release(&mut counts);
    assert!(ConnectionPermit::try_acquire(&mut counts, ShardId(0), 1).is_some());
    assert!(ConnectionPermit::try_acquire(&mut counts, ShardId(5), 1).is_none());
}

#[test]
fn incoming_cpu_policy_maps_shards_to_available_cpus() {
    let available = vec![CpuId(2), CpuId(4)];

    assert_eq!(ShardedTcpIncomingCpu::Disabled.cpu_for_shard(0, &available), None);
    assert_eq!(
        ShardedTcpIncomingCpu::SequentialAvailable.cpu_for_shard(0, &available),
        Some(CpuId(2))
    );
    assert_eq!(
        ShardedTcpIncomingCpu::SequentialAvailable.cpu_for_shard(2, &available),
        Some(CpuId(2))
    );
    assert_eq!(
        ShardedTcpIncomingCpu::Explicit(vec![CpuId(7)]).cpu_for_shard(0, &available),
        Some(CpuId(7))
    );
    assert_eq!(
        ShardedTcpIncomingCpu::Explicit(vec![CpuId(7)]).cpu_for_shard(1, &available),
        None
    );
}

#[test]
fn event_recorder_updates_snapshot_and_custom_sink() {
    let sink = RecordingSink::default();
    let mut recorder =
        ShardedTcpEventRecorder::new(ShardedTcpServerStats::default(), Some(&sink));
    let event = ShardedTcpEvent::ConnectionLimitRejected { shard_id: ShardId(0) };

    if let Some(sink) = recorder.record(event) {
        sink.record(event);
    }

    assert_eq!(
        recorder.stats.snapshot(),
        ShardedTcpServerSnapshot {
            connection_limit_rejections: 1,
            accept_errors: 0,
            handler_submit_errors: 0,
        }
    );
    assert_eq!(sink.events.lock().unwrap().as_slice(), &[event]);
}

#[test]
fn event_recorder_isolates_sink_panics() {
    let mut recorder =
        ShardedTcpEventRecorder::new(ShardedTcpServerStats::default(), Some(PanickingSink));

    // The counters are up to date before the sink is called.
    let sink: Option<&PanickingSink> = recorder.record(ShardedTcpEvent::AcceptError {
        shard_id: Some(ShardId(0)),
        kind: ErrorKind::ConnectionAborted,
    });
    assert!(sink.is_some());

    assert_eq!(
        recorder.stats.snapshot(),
        ShardedTcpServerSnapshot {
            connection_limit_rejections: 0,
            accept_errors: 1,
            handler_submit_errors: 0,
        }
    );
}

#[test]
fn server_handle_stops_accept_loop() {
    let (mut handle, token) = ShardedTcpServerHandle::<&str, ()>::new(None);
    assert_eq!(
        handle.snapshot(),
        ShardedTcpServerSnapshot {
            connection_limit_rejections: 0,
            accept_errors: 0,
            handler_submit_errors: 0,
        }
    );
    assert!(!token.poll(&mut handle.stop_source, "accept loop", |a, b| a == b));
    assert_eq!(handle.stop(), Some(vec!["accept loop"]));
    assert!(handle.is_stopped());
    assert_eq!(handle.stop(), None);
}

#[test]
fn server_start_rejects_zero_connection_limit() {
    let server =
        ShardedTcpServer::new(LOCALHOST, ShardedTcpConfig::<()>::new().with_max_connections(0));

    let result = server.start(Platform::Linux, 1);

    assert!(matches!(
        result,
        Err(ShardedTcpStartError::InvalidConfig(
            "max_connections_per_shard must be greater than zero"
        ))
    ));
}

#[test]
fn server_start_rejects_explicit_incoming_cpu_that_does_not_cover_shards() {
    let server = ShardedTcpServer::new(
        LOCALHOST,
        ShardedTcpConfig::<()>::new()
            .with_reuse_port(false)
            .with_incoming_cpu(ShardedTcpIncomingCpu::Explicit(vec![CpuId(0)])),
    );

    let result = server.start(Platform::Linux, 2);

    assert!(matches!(
        result,
        Err(ShardedTcpStartError::InvalidConfig(
            "incoming CPU placement must provide a CPU for every shard"
        ))
    ));
    assert_eq!(
        result.unwrap_err().message(""),
        "invalid TCP server config: incoming CPU placement must provide a CPU for every shard"
    );
    assert_eq!(server.start(Platform::Linux, 1).unwrap(), AcceptMode::Single);
}

#[test]
fn server_start_reports_listener_bind_error() {
    let error = single_listener::<i32>(Err(IoError::from_raw_os_error(Platform::Linux, 98))).unwrap_err();

    assert!(matches!(error, ShardedTcpStartError::Listen { shard_id: None, .. }));
    assert_eq!(error.message("in use"), "failed to create TCP listener: in use");
    assert_eq!(single_listener(Ok(3)).unwrap(), 3);
}

#[test]
fn server_configuration_has_defaults() {
    let config = ShardedTcpConfig::new()
        .with_backlog(7)
        .with_event_sink("sink")
        .with_shared_event_sink("shared");
    assert_eq!(config.max_connections_per_shard, 128);
    assert!(config.reuse_port);
    assert_eq!(config.incoming_cpu, ShardedTcpIncomingCpu::Disabled);
    assert_eq!(config.backlog, 7);
    assert_eq!(config.event_sink, Some("shared"));
    let server = ShardedTcpServer::new(LOCALHOST, config);
    assert_eq!(server.start(Platform::Linux, 3).unwrap(), AcceptMode::PerShard);
    assert_eq!(server.start(Platform::OtherUnix, 3).unwrap(), AcceptMode::Single);
    assert_eq!(accept_task_name(ShardId(4)), "tcp-accept-4");
}

#[test]
fn accept_loop_limits_and_routes_connections() {
    let mut counts = connection_counts(2);
    let accept = AcceptLoop { shard_id: None, shard_count: 2, limit: 1 };
    assert_eq!(hash_addr_to_shard(7, 2), ShardId(1));
    let permit = match accept.accepted(&mut counts, 7) {
        AcceptStep::Serve { permit } => permit,
        AcceptStep::Reject { .. } => panic!("there is room"),
    };
    assert_eq!(permit.shard_id, ShardId(1));
    match accept.accepted(&mut counts, 9) {
        AcceptStep::Reject { event } => {
            assert_eq!(
                event,
                ShardedTcpEvent::ConnectionLimitRejected { shard_id: ShardId(1) }
            );
        }
        AcceptStep::Serve { .. } => panic!("the shard is full"),
    }
    let refused = accept.submitted(
        &mut counts,
        permit,
        Err(ShardedSpawnError::Stopped(ShardId(1))),
    );
    assert!(refused.permit.is_none());
    assert_eq!(
        refused.event,
        Some(ShardedTcpEvent::HandlerSubmitError {
            shard_id: ShardId(1),
            error: ShardedSpawnError::Stopped(ShardId(1)),
        })
    );
    assert_eq!(counts.counts, vec![0, 0]);
    let own = AcceptLoop { shard_id: Some(ShardId(0)), shard_count: 2, limit: 1 };
    let permit = match own.accepted(&mut counts, 7) {
        AcceptStep::Serve { permit } => permit,
        AcceptStep::Reject { .. } => panic!("there is room"),
    };
    let kept = own.submitted(&mut counts, permit, Ok(()));
    assert!(kept.permit.is_some() && kept.event.is_none());
    assert_eq!(counts.counts, vec![1, 0]);
    assert_eq!(
        own.failed(ErrorKind::ConnectionAborted),
        ShardedTcpEvent::AcceptError {
            shard_id: Some(ShardId(0)),
            kind: ErrorKind::ConnectionAborted,
        }
    );
}

#[test]
fn refused_accept_task_stops_the_others() {
    let (mut handle, token) = ShardedTcpServerHandle::<&str, ()>::new(None);
    assert!(handle.accept_submitted(Ok(())).is_ok());
    assert!(!token.poll(&mut handle.stop_source, "first", |a, b| a == b));
    let refused =
        handle.accept_submitted(Err(ShardedSpawnError::Stopped(ShardId(1)))).err().unwrap();
    assert_eq!(refused.woken, vec!["first"]);
    assert!(matches!(
        refused.error,
        ShardedTcpStartError::Spawn(ShardedSpawnError::Stopped(ShardId(1)))
    ));
    assert!(handle.is_stopped());
    handle.record(ShardedTcpEvent::HandlerSubmitError {
        shard_id: ShardId(0),
        error: ShardedSpawnError::Stopped(ShardId(0)),
    });
    assert_eq!(handle.snapshot().handler_submit_errors, 1);
}

#[test]
fn listeners_share_the_port_of_the_first() {
    let mut start = PerShardListeners::<i32>::new(
        LOCALHOST,
        2,
        ShardedTcpIncomingCpu::SequentialAvailable,
        vec![CpuId(5)],
    );
    let request = start.next().unwrap();
    assert_eq!(request.shard_id, ShardId(0));
    assert_eq!(request.incoming_cpu, Some(CpuId(5)));
    assert!(matches!(request.addr, SocketAddr::V4 { port: 0, .. }));
    assert!(start.created(Ok(10)).unwrap());
    start.bound(Ok(SocketAddr::V4 { ip: [127, 0, 0, 1], port: 4242 })).unwrap();
    let request = start.next().unwrap();
    assert_eq!(request.shard_id, ShardId(1));
    assert!(matches!(request.addr, SocketAddr::V4 { port: 4242, .. }));
    assert!(!start.created(Ok(11)).unwrap());
    assert!(start.next().is_none());
    assert_eq!(start.listeners, vec![(ShardId(0), 10), (ShardId(1), 11)]);

    let fixed = SocketAddr::V4 { ip: [127, 0, 0, 1], port: 80 };
    let mut start =
        PerShardListeners::<i32>::new(fixed, 2, ShardedTcpIncomingCpu::Disabled, Vec::new());
    assert!(!start.created(Ok(10)).unwrap());
    let error = start.created(Err(IoError::from_raw_os_error(Platform::Linux, 98))).unwrap_err();
    assert_eq!(
        error.message("in use"),
        "failed to create TCP listener for shard 1: in use"
    );
}

#[test]
fn listener_setup_makes_its_calls_in_order() {
    let addr = SocketAddr::V4 { ip: [127, 0, 0, 1], port: 80 };
    let mut setup = ListenerSetup::new(LINUX, addr, 128, true, Some(CpuId(3))).unwrap();
    assert!(matches!(
        setup.start(),
        ListenStep::Socket { domain: 2, socket_type } if socket_type == 1 | 0o2000000
    ));
    assert!(matches!(setup.advance(Ok(9)), ListenStep::GetFlags { fd: 9 }));
    assert!(matches!(
        setup.advance(Ok(2)),
        ListenStep::SetFlags { fd: 9, flags } if flags == 2 | 0o4000
    ));
    assert!(matches!(
        setup.advance(Ok(0)),
        ListenStep::SetOption { fd: 9, level: 1, name: 2, value: 1 }
    ));
    assert!(matches!(
        setup.advance(Ok(0)),
        ListenStep::SetOption { fd: 9, level: 1, name: 15, value: 1 }
    ));
    assert!(matches!(
        setup.advance(Ok(0)),
        ListenStep::SetOption { fd: 9, level: 1, name: 49, value: 3 }
    ));
    match setup.advance(Ok(0)) {
        ListenStep::Bind { fd, address } => {
            assert_eq!(fd, 9);
            assert_eq!(address[..8], [2, 0, 0, 80, 127, 0, 0, 1]);
        }
        _ => panic!("the socket has to be bound"),
    }
    assert!(matches!(setup.advance(Ok(0)), ListenStep::Listen { fd: 9, backlog: 128 }));
    assert!(matches!(setup.advance(Ok(0)), ListenStep::Ready { fd: 9 }));
}

#[test]
fn listener_setup_on_other_systems() {
    let mut setup =
        ListenerSetup::new(OTHER_UNIX, LOCALHOST, 128, true, Some(CpuId(3))).unwrap();
    assert!(matches!(setup.start(), ListenStep::Socket { domain: 2, socket_type: 1 }));
    setup.advance(Ok(9));
    assert!(matches!(setup.advance(Ok(2)), ListenStep::SetFlags { fd: 9, flags: 6 }));
    assert!(matches!(
        setup.advance(Ok(0)),
        ListenStep::SetDescriptorFlags { fd: 9, flags: 1 }
    ));
    assert!(matches!(
        setup.advance(Ok(0)),
        ListenStep::SetOption { fd: 9, level: 0xffff, name: 4, value: 1 }
    ));
    assert!(matches!(
        setup.advance(Ok(0)),
        ListenStep::SetOption { fd: 9, level: 0xffff, name: 0x200, value: 1 }
    ));
    assert!(matches!(setup.advance(Ok(0)), ListenStep::Bind { fd: 9, .. }));
}

#[test]
fn listener_setup_closes_the_socket_on_failure() {
    let addr = SocketAddr::V6 { ip: [0; 16], port: 80, flowinfo: 0, scope_id: 0 };
    let mut setup = ListenerSetup::new(LINUX, addr, 1, false, None).unwrap();
    assert!(matches!(setup.start(), ListenStep::Socket { domain: 10, .. }));
    setup.advance(Ok(9));
    setup.advance(Ok(0));
    setup.advance(Ok(0));
    assert!(matches!(setup.advance(Ok(0)), ListenStep::Bind { fd: 9, .. }));
    match setup.advance(Err(98)) {
        ListenStep::Close { fd, error } => {
            assert_eq!((fd, error.kind()), (9, ErrorKind::AddrInUse));
        }
        _ => panic!("the socket has to be closed"),
    }
    let mut setup = ListenerSetup::new(LINUX, addr, 1, false, None).unwrap();
    setup.start();
    assert!(matches!(
        setup.advance(Err(24)),
        ListenStep::Failed(error) if error.raw_os_error() == Some(24)
    ));
}

#[test]
fn listener_setup_refuses_numbers_that_do_not_fit() {
    let error = ListenerSetup::new(LINUX, LOCALHOST, u32::MAX, false, None).unwrap_err();
    assert_eq!(error.kind(), ErrorKind::InvalidInput);
    assert_eq!(error.message, "TCP backlog does not fit platform c_int");
    let mut setup =
        ListenerSetup::new(LINUX, LOCALHOST, 1, false, Some(CpuId(0x8000_0000))).unwrap();
    setup.start();
    setup.advance(Ok(9));
    setup.advance(Ok(0));
    setup.advance(Ok(0));
    match setup.advance(Ok(0)) {
        ListenStep::Close { fd, error } => {
            assert_eq!(fd, 9);
            assert_eq!(error.message, "SO_INCOMING_CPU value does not fit platform c_int");
        }
        _ => panic!("the CPU does not fit"),
    }
}

#[test]
fn kernel_tls_is_attached_by_name() {
    let connection =
        ShardedTcpConnection { stream: (), remote_addr: LOCALHOST, shard_id: ShardId(0) };
    let refused = connection.enable_kernel_tls_ulp(Platform::OtherUnix);
    assert!(matches!(refused, Err(error) if error.kind() == ErrorKind::Unsupported));
    let option = connection.enable_kernel_tls_ulp(Platform::Linux).unwrap();
    assert_eq!((option.level, option.name), (6, 31));
    assert_eq!(option.value, b"tls\0");
}
