//! Placing work on the shards of a runtime.

use vstd::prelude::*;

use crate::error::ShardError;
use crate::executor::spawn_error::SpawnError;
use crate::shard::ShardId;
use crate::text::{decimal, numbered, with_number};

verus! {

/// Which shard a thread runs.
#[derive(Debug, Clone, Copy, PartialEq, Eq, Structural)]
pub struct ShardContext {
    /// The shard, on a shard thread.
    pub shard: Option<ShardId>,
}

impl ShardContext {
    /// The context of a thread that runs no shard.
    pub fn new() -> (context: Self)
        ensures
            context.shard is None,
    {
        ShardContext { shard: None }
    }

    /// Notes that the thread starts to run a shard.
    pub fn enter(&mut self, shard: ShardId)
        ensures
            final(self).shard == Some(shard),
    {
        self.shard = Some(shard);
    }

    /// Notes that the thread no longer runs a shard.
    pub fn leave(&mut self)
        ensures
            final(self).shard is None,
    {
        self.shard = None;
    }
}

/// Returns the shard that polls the current task, where the thread runs one.
pub fn current_executor_shard(context: &ShardContext) -> (shard: Option<ShardId>)
    ensures
        shard == context.shard,
{
    context.shard
}

/// Error returned when work cannot be placed on a sharded executor.
#[derive(Debug, Clone, Copy, PartialEq, Eq, Structural)]
pub enum ShardedSpawnError {
    /// A caller addressed a shard index that does not exist.
    InvalidShardId(usize),
    /// The addressed shard has already stopped.
    Stopped(ShardId),
    /// The addressed shard executor rejected the task.
    Spawn(SpawnError),
}

impl ShardedSpawnError {
    /// The text of the error.
    pub open spec fn text(&self) -> Seq<char> {
        match self {
            ShardedSpawnError::InvalidShardId(id) => "invalid shard id: "@ + decimal(*id as nat),
            ShardedSpawnError::Stopped(shard_id) => "executor shard "@ + decimal(shard_id.0 as nat)
                + " has stopped"@,
            ShardedSpawnError::Spawn(error) => error.text(),
        }
    }

    /// Human-readable text of the error.
    pub fn message(&self) -> (text: String)
        ensures
            text@ == self.text(),
    {
        match self {
            ShardedSpawnError::InvalidShardId(id) => numbered("invalid shard id: ", *id),
            ShardedSpawnError::Stopped(shard_id) => {
                with_number("executor shard ", shard_id.0, " has stopped")
            },
            ShardedSpawnError::Spawn(error) => error.message(),
        }
    }
}

/// One shard of a runtime. `S` is a spawner.
pub struct AsyncShard<S> {
    /// The shard.
    pub shard_id: ShardId,
    /// Its spawner, until it is stopped.
    pub spawner: Option<S>,
}

/// A small shard-per-thread async runtime.
///
/// Dropping or stopping the runtime drops the spawners it owns, which lets idle
/// executor threads drain and exit.
pub struct ShardedExecutor<S> {
    /// The shards, in order.
    pub shards: Vec<AsyncShard<S>>,
}

/// What starting shards comes to, where `started` says for each whether its
/// thread came up.
pub open spec fn start_error<S>(started: Seq<Option<S>>) -> Option<ShardError> {
    if started.len() == 0 {
        Some(ShardError::InvalidShardCount)
    } else if exists|i: int| 0 <= i < started.len() && (#[trigger] started[i]) is None {
        Some(ShardError::ThreadJoinFailed)
    } else {
        None
    }
}

/// What placing work on a shard returns, where `spawned` is what the shard's own
/// spawner says.
pub open spec fn spawn_outcome<S, T>(
    spawners: Seq<Option<S>>,
    shard_id: ShardId,
    spawned: Result<T, SpawnError>,
) -> Result<T, ShardedSpawnError> {
    if shard_id.0 >= spawners.len() {
        Err(ShardedSpawnError::InvalidShardId(shard_id.0))
    } else if spawners[shard_id.0 as int] is None {
        Err(ShardedSpawnError::Stopped(shard_id))
    } else {
        match spawned {
            Ok(value) => Ok(value),
            Err(error) => Err(ShardedSpawnError::Spawn(error)),
        }
    }
}

impl<S> ShardedExecutor<S> {
    /// There is a shard, and each knows its place.
    pub open spec fn wf(&self) -> bool {
        &&& self.shards@.len() > 0
        &&& forall|i: int|
            0 <= i < self.shards@.len() ==> (#[trigger] self.shards@[i]).shard_id.0 == i
    }

    /// The spawners of the shards.
    pub open spec fn spawners(&self) -> Seq<Option<S>> {
        self.shards@.map_values(|shard: AsyncShard<S>| shard.spawner)
    }

    /// Starts a runtime from the spawners of its shards, one for each thread that
    /// came up.
    pub fn start(started: Vec<Option<S>>) -> (result: Result<Self, ShardError>)
        ensures
            match start_error(started@) {
                Some(error) => result == Err::<Self, ShardError>(error),
                None => result is Ok && result->Ok_0.wf() && result->Ok_0.spawners() == started@,
            },
    {
        if started.len() == 0 {
            return Err(ShardError::InvalidShardCount);
        }
        let ghost all = started@;
        let n: usize = started.len();
        let mut shards: Vec<AsyncShard<S>> = Vec::new();
        for spawner in it: started
            invariant
                it.seq() == all,
                n == all.len(),
                n > 0,
                all == started@,
                shards@.len() == it.index(),
                forall|i: int|
                    0 <= i < shards@.len() ==> (#[trigger] shards@[i]).shard_id.0 == i
                        && shards@[i].spawner == all[i] && all[i] is Some,
        {
            if spawner.is_none() {
                assert(all[it.index() as int] is None);
                return Err(ShardError::ThreadJoinFailed);
            }
            let shard_id = ShardId(shards.len());
            shards.push(AsyncShard { shard_id, spawner });
        }
        let runtime = ShardedExecutor { shards };
        proof {
            assert forall|i: int| 0 <= i < all.len() implies (#[trigger] all[i]) is Some by {
                assert(shards@[i].spawner == all[i]);
            }
            assert(runtime.spawners() =~= all);
        }
        Ok(runtime)
    }

    /// Returns the number of async executor shards.
    pub fn shard_count(&self) -> (count: usize)
        ensures
            count == self.spawners().len(),
    {
        self.shards.len()
    }

    /// The spawner of a shard.
    pub fn spawner_for(&self, shard_id: ShardId) -> (result: Result<&S, ShardedSpawnError>)
        ensures
            match result {
                Ok(spawner) => shard_id.0 < self.spawners().len()
                    && self.spawners()[shard_id.0 as int] == Some(*spawner),
                Err(error) => if shard_id.0 >= self.spawners().len() {
                    error == ShardedSpawnError::InvalidShardId(shard_id.0)
                } else {
                    self.spawners()[shard_id.0 as int] is None && error
                        == ShardedSpawnError::Stopped(shard_id)
                },
            },
    {
        if shard_id.0 >= self.shards.len() {
            return Err(ShardedSpawnError::InvalidShardId(shard_id.0));
        }
        match &self.shards[shard_id.0].spawner {
            Some(spawner) => Ok(spawner),
            None => Err(ShardedSpawnError::Stopped(shard_id)),
        }
    }

    /// What placing work on a shard returns. `spawned` is what the shard's own
    /// spawner said, and counts only where the shard has one.
    pub fn spawn_on<T>(&self, shard_id: ShardId, spawned: Result<T, SpawnError>) -> (result: Result<
        T,
        ShardedSpawnError,
    >)
        ensures
            result == spawn_outcome(self.spawners(), shard_id, spawned),
    {
        match self.spawner_for(shard_id) {
            Err(error) => Err(error),
            Ok(_) => match spawned {
                Ok(value) => Ok(value),
                Err(error) => Err(ShardedSpawnError::Spawn(error)),
            },
        }
    }

    /// Takes the spawners out, to be dropped, when the runtime stops. The runtime
    /// stays inspectable.
    pub fn shutdown(&mut self) -> (spawners: Vec<S>)
        ensures
            old(self).wf() ==> final(self).wf(),
            final(self).spawners() == no_spawners::<S>(old(self).spawners().len()),
            spawners@ == present(old(self).spawners()),
    {
        let mut spawners: Vec<S> = Vec::new();
        let mut i: usize = 0;
        let ghost before = self.shards@;
        let ghost all = self.spawners();
        assert(all.take(0) =~= Seq::empty());
        while i < self.shards.len()
            invariant
                i <= self.shards@.len(),
                self.shards@.len() == before.len(),
                all.len() == before.len(),
                forall|k: int| 0 <= k < before.len() ==> all[k] == (#[trigger] before[k]).spawner,
                forall|k: int|
                    0 <= k < before.len() ==> (#[trigger] self.shards@[k]).shard_id
                        == before[k].shard_id,
                forall|k: int| 0 <= k < i ==> (#[trigger] self.shards@[k]).spawner is None,
                forall|k: int| i <= k < before.len() ==> #[trigger] self.shards@[k] == before[k],
                spawners@ == present(all.take(i as int)),
            decreases self.shards@.len() - i,
        {
            proof {
                assert(all.take(i + 1).drop_last() =~= all.take(i as int));
                assert(all[i as int] == before[i as int].spawner);
                assert(self.shards@[i as int] == before[i as int]);
            }
            match self.shards[i].spawner.take() {
                Some(spawner) => {
                    spawners.push(spawner);
                },
                None => {},
            }
            i = i + 1;
        }
        proof {
            assert(all.take(all.len() as int) =~= all);
            assert(self.spawners() =~= no_spawners(all.len()));
            if old(self).wf() {
                assert forall|k: int| 0 <= k < self.shards@.len() implies (
                #[trigger] self.shards@[k]).shard_id.0 == k by {
                    assert(before[k].shard_id.0 == k);
                }
            }
        }
        spawners
    }
}

/// Shards without spawners.
pub open spec fn no_spawners<S>(shard_count: nat) -> Seq<Option<S>> {
    Seq::new(shard_count, |i: int| None)
}

/// A runtime that was shut down takes no work on any of its shards.
pub proof fn stopped_runtime_takes_no_work<S, T>(
    shard_count: nat,
    shard_id: ShardId,
    spawned: Result<T, SpawnError>,
)
    requires
        shard_id.0 < shard_count,
    ensures
        spawn_outcome(no_spawners::<S>(shard_count), shard_id, spawned) == Err::<
            T,
            ShardedSpawnError,
        >(ShardedSpawnError::Stopped(shard_id)),
{
}

/// The values that are there, in order.
pub open spec fn present<S>(values: Seq<Option<S>>) -> Seq<S>
    decreases values.len(),
{
    if values.len() == 0 {
        Seq::empty()
    } else {
        match values.last() {
            Some(value) => present(values.drop_last()).push(value),
            None => present(values.drop_last()),
        }
    }
}

/// A runtime starts exactly where it has a shard and every shard has started.
pub proof fn runtime_starts_with_all_its_shards<S>(started: Seq<Option<S>>)
    ensures
        start_error(started) is None <==> started.len() > 0 && forall|i: int|
            0 <= i < started.len() ==> (#[trigger] started[i]) is Some,
        started.len() == 0 ==> start_error(started) == Some(ShardError::InvalidShardCount),
        started.len() > 0 && start_error(started) is Some ==> start_error(started) == Some(
            ShardError::ThreadJoinFailed,
        ),
{
}

/// A task goes to the shard that was asked for. It is refused where there is no such
/// shard or where it has stopped, and fails where that shard's executor refuses it; the
/// error says which, and of which shard.
pub proof fn task_goes_to_a_running_shard<S, T>(
    spawners: Seq<Option<S>>,
    shard_id: ShardId,
    spawned: Result<T, SpawnError>,
)
    ensures
        ({
            let outcome = spawn_outcome(spawners, shard_id, spawned);
            let known = shard_id.0 < spawners.len();
            let running = known && spawners[shard_id.0 as int] is Some;
            &&& outcome is Ok <==> running && spawned is Ok
            &&& outcome matches Ok(value) ==> spawned == Ok::<T, SpawnError>(value)
            &&& !known <==> outcome == Err::<T, ShardedSpawnError>(
                ShardedSpawnError::InvalidShardId(shard_id.0),
            )
            &&& known && !running <==> outcome == Err::<T, ShardedSpawnError>(
                ShardedSpawnError::Stopped(shard_id),
            )
            &&& running ==> (spawned matches Err(error) ==> outcome == Err::<T, ShardedSpawnError>(
                ShardedSpawnError::Spawn(error),
            ))
        }),
{
}

/// The spawners that are left are those of the shards that still have one, in the order
/// of the shards.
pub proof fn present_values_keep_their_order<S>(values: Seq<Option<S>>)
    ensures
        present(values) == values.filter(|value: Option<S>| value is Some).map_values(
            |value: Option<S>| value->0,
        ),
    decreases values.len(),
{
    reveal(Seq::filter);
    let kept = |value: Option<S>| value is Some;
    let taken = |value: Option<S>| value->0;
    if values.len() == 0 {
        assert(values.filter(kept).map_values(taken) =~= Seq::<S>::empty());
    } else {
        present_values_keep_their_order(values.drop_last());
        assert(values.filter(kept).map_values(taken) =~= present(values));
    }
}

/// A task that no shard takes is reported with the shard that was asked for, or with the
/// words of the executor that refused it.
pub proof fn refused_task_is_reported(id: usize, shard_id: ShardId, error: SpawnError)
    ensures
        ShardedSpawnError::InvalidShardId(id).text() == "invalid shard id: "@ + decimal(id as nat),
        ShardedSpawnError::Stopped(shard_id).text() == "executor shard "@ + decimal(
            shard_id.0 as nat,
        ) + " has stopped"@,
        ShardedSpawnError::Spawn(error).text() == error.text(),
{
}

} // verus!
