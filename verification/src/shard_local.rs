//! Shard-local state for the shard-per-thread async runtime.
//!
//! A [`ShardLocal`] owns one value per shard. Each value is accessed on the shard
//! that owns it and nowhere else.

use vstd::prelude::*;

use crate::executor::scope::{accepted_count, count_aborted};
use crate::executor::sync::{stop_pair, StopSource, StopToken};
use crate::executor::task::CancelReport;
use crate::shard::ShardId;
use crate::sharded_executor::join::{
    ShardedJoinError, ShardedJoinHandle, ShardedJoinTimeoutError,
};
use crate::sharded_executor::placement::ShardedSpawnError;
use crate::text::{decimal, decimal_text_reads_back, numbered, with_number};

verus! {

/// Error returned when shard-local state cannot be accessed directly from the
/// current thread.
#[derive(Debug, Clone, Copy, PartialEq, Eq, Structural)]
pub enum ShardLocalAccessError {
    /// The caller is not currently running on a sharded executor thread.
    NotOnShard,
    /// The current shard id is outside this shard-local handle's shard set.
    InvalidShardId(usize),
}

impl ShardLocalAccessError {
    /// Human-readable text of the error.
    pub fn message(&self) -> (text: String)
        ensures
            text@ == match self {
                ShardLocalAccessError::NotOnShard => "not running on a sharded executor thread"@,
                ShardLocalAccessError::InvalidShardId(shard_id) => "invalid shard id: "@ + decimal(
                    *shard_id as nat,
                ),
            },
    {
        match self {
            ShardLocalAccessError::NotOnShard => {
                "not running on a sharded executor thread".to_owned()
            },
            ShardLocalAccessError::InvalidShardId(shard_id) => {
                numbered("invalid shard id: ", *shard_id)
            },
        }
    }
}

/// One value per shard.
pub struct ShardLocal<T> {
    /// The values, by shard.
    pub values: Vec<T>,
}

/// The name of a task that works on a shard's value.
pub open spec fn task_name(shard_id: ShardId) -> Seq<char> {
    "shard-local-"@ + decimal(shard_id.0 as nat)
}

/// The name of a shard's worker.
pub open spec fn worker_name(shard_id: ShardId) -> Seq<char> {
    "shard-local-worker-"@ + decimal(shard_id.0 as nat)
}

/// The name of a task that works on a shard's value.
pub fn shard_local_task_name(shard_id: ShardId) -> (name: String)
    ensures
        name@ == task_name(shard_id),
{
    numbered("shard-local-", shard_id.0)
}

/// The name of a shard's worker, where the caller gives none.
pub fn shard_local_worker_name(shard_id: ShardId) -> (name: String)
    ensures
        name@ == worker_name(shard_id),
{
    numbered("shard-local-worker-", shard_id.0)
}

impl<T> ShardLocal<T> {
    /// Creates one value per shard.
    pub fn new<MakeValue: Fn(ShardId) -> T>(shard_count: usize, make_value: MakeValue) -> (local:
        Self)
        requires
            forall|shard_id: ShardId| #[trigger] make_value.requires((shard_id,)),
        ensures
            local.values@.len() == shard_count,
            forall|i: int|
                0 <= i < shard_count ==> make_value.ensures(
                    (ShardId(i as usize),),
                    #[trigger] local.values@[i],
                ),
    {
        let mut values: Vec<T> = Vec::new();
        let mut i: usize = 0;
        while i < shard_count
            invariant
                i <= shard_count,
                values@.len() == i,
                forall|shard_id: ShardId| #[trigger] make_value.requires((shard_id,)),
                forall|k: int|
                    0 <= k < i ==> make_value.ensures(
                        (ShardId(k as usize),),
                        #[trigger] values@[k],
                    ),
            decreases shard_count - i,
        {
            let value = make_value(ShardId(i));
            values.push(value);
            i = i + 1;
        }
        ShardLocal { values }
    }

    /// Returns the number of shard-local values.
    pub fn shard_count(&self) -> (count: usize)
        ensures
            count == self.values@.len(),
    {
        self.values.len()
    }

    /// Whether the value of a shard can be accessed from a thread, and otherwise
    /// why not. `current` is the shard that the thread runs.
    pub open spec fn access(&self, current: Option<ShardId>) -> Result<
        ShardId,
        ShardLocalAccessError,
    > {
        match current {
            None => Err(ShardLocalAccessError::NotOnShard),
            Some(shard_id) => if shard_id.0 < self.values@.len() {
                Ok(shard_id)
            } else {
                Err(ShardLocalAccessError::InvalidShardId(shard_id.0))
            },
        }
    }

    /// Runs `operation` directly against the value owned by the shard that the
    /// thread runs. The other values stay as they are.
    pub fn with_current<R, F: FnOnce(ShardId, &mut T) -> R>(
        &mut self,
        current: Option<ShardId>,
        operation: F,
    ) -> (result: Result<(ShardId, R), ShardLocalAccessError>)
        requires
            forall|shard_id: ShardId, value: &mut T|
                #[trigger] operation.requires((shard_id, value)),
        ensures
            old(self).access(current) matches Err(error) ==> result == Err::<
                (ShardId, R),
                ShardLocalAccessError,
            >(error) && *final(self) == *old(self),
            old(self).access(current) matches Ok(shard_id) ==> {
                &&& result is Ok
                &&& result->Ok_0.0 == shard_id
                &&& final(self).values@.len() == old(self).values@.len()
                &&& forall|i: int|
                    0 <= i < old(self).values@.len() && i != shard_id.0
                        ==> #[trigger] final(self).values@[i] == old(self).values@[i]
            },
            result matches Ok(pair) ==> exists|value: &mut T|
                {
                    &&& #[trigger] operation.ensures((pair.0, value), pair.1)
                    &&& *value == old(self).values@[(pair.0).0 as int]
                    &&& *final(value) == final(self).values@[(pair.0).0 as int]
                },
    {
        let shard_id = match current {
            None => {
                return Err(ShardLocalAccessError::NotOnShard);
            },
            Some(shard_id) => shard_id,
        };
        if shard_id.0 >= self.values.len() {
            return Err(ShardLocalAccessError::InvalidShardId(shard_id.0));
        }
        let output = operation(shard_id, &mut self.values[shard_id.0]);
        let result: Result<(ShardId, R), ShardLocalAccessError> = Ok((shard_id, output));
        assert(result->Ok_0.0 == shard_id);
        assert(result->Ok_0.1 == output);
        result
    }

    /// The shard on which an operation against a shard's value has to run.
    pub fn cell_for(&self, shard_id: ShardId) -> (result: Result<ShardId, ShardedSpawnError>)
        ensures
            result == if shard_id.0 < self.values@.len() {
                Ok::<ShardId, ShardedSpawnError>(shard_id)
            } else {
                Err::<ShardId, ShardedSpawnError>(ShardedSpawnError::InvalidShardId(shard_id.0))
            },
    {
        if shard_id.0 < self.values.len() {
            Ok(shard_id)
        } else {
            Err(ShardedSpawnError::InvalidShardId(shard_id.0))
        }
    }
}

/// Join handles of one shard-local worker per shard. `H` is the handle of a task.
pub struct ShardLocalWorkers<H> {
    /// The handles, in shard order.
    pub handles: Vec<ShardedJoinHandle<H>>,
}

impl<H> ShardLocalWorkers<H> {
    /// Returns the number of worker handles.
    pub fn len(&self) -> (len: usize)
        ensures
            len == self.handles@.len(),
    {
        self.handles.len()
    }

    /// Returns true when there are no worker handles.
    pub fn is_empty(&self) -> (empty: bool)
        ensures
            empty == (self.handles@.len() == 0),
    {
        self.handles.len() == 0
    }

    /// The shards of the workers.
    pub open spec fn shards(&self) -> Seq<ShardId> {
        self.handles@.map_values(|handle: ShardedJoinHandle<H>| handle.shard_id)
    }

    /// Returns the shard ids represented by this worker set.
    pub fn shard_ids(&self) -> (ids: Vec<ShardId>)
        ensures
            ids@ == self.shards(),
    {
        let mut ids: Vec<ShardId> = Vec::new();
        let mut i: usize = 0;
        while i < self.handles.len()
            invariant
                i <= self.handles@.len(),
                ids@ == self.shards().take(i as int),
            decreases self.handles@.len() - i,
        {
            ids.push(self.handles[i].shard_id());
            i = i + 1;
            assert(ids@ =~= self.shards().take(i as int));
        }
        assert(self.shards().take(i as int) =~= self.shards());
        ids
    }

    /// Consumes this worker set and returns the underlying shard-tagged handles.
    pub fn into_handles(self) -> (handles: Vec<ShardedJoinHandle<H>>)
        ensures
            handles == self.handles,
    {
        self.handles
    }

    /// Counts the newly aborted workers, from what aborting each came to.
    pub fn abort_all(&self, reports: &Vec<CancelReport>) -> (aborted: usize)
        requires
            reports@.len() == self.handles@.len(),
        ensures
            aborted == accepted_count(reports@),
            aborted <= self.handles@.len(),
    {
        count_aborted(reports)
    }
}

/// Error returned when a shard-local worker set fails or times out. `P` is the
/// payload of a panic.
#[derive(Debug, Clone, PartialEq, Eq)]
pub enum ShardLocalWorkerTimeoutError<P> {
    /// A worker failed while being joined.
    Join(ShardedJoinError<P>),
    /// The timeout elapsed and still-owned workers were aborted.
    TimedOut {
        /// Shard whose worker timed out.
        shard_id: ShardId,
    },
}

impl<P> ShardLocalWorkerTimeoutError<P> {
    /// Returns the shard whose worker failed or timed out.
    pub fn shard_id(&self) -> (shard_id: ShardId)
        ensures
            shard_id == match self {
                ShardLocalWorkerTimeoutError::Join(error) => error.shard_id,
                ShardLocalWorkerTimeoutError::TimedOut { shard_id } => *shard_id,
            },
    {
        match self {
            ShardLocalWorkerTimeoutError::Join(error) => error.shard_id(),
            ShardLocalWorkerTimeoutError::TimedOut { shard_id } => *shard_id,
        }
    }

    /// Returns true if shutdown timed out.
    pub fn is_timed_out(&self) -> (timed_out: bool)
        ensures
            timed_out == (self is TimedOut),
    {
        matches!(self, ShardLocalWorkerTimeoutError::TimedOut { .. })
    }

    /// Returns true if a worker failed while being joined.
    pub fn is_join_error(&self) -> (join_error: bool)
        ensures
            join_error == (self is Join),
    {
        matches!(self, ShardLocalWorkerTimeoutError::Join(_))
    }

    /// Human-readable text of the error.
    pub fn message(&self) -> (text: String)
        ensures
            text@ == match self {
                ShardLocalWorkerTimeoutError::Join(error) => error.text(),
                ShardLocalWorkerTimeoutError::TimedOut { shard_id } =>
                    "shard-local worker on shard "@ + decimal(shard_id.0 as nat) + " timed out"@,
            },
    {
        match self {
            ShardLocalWorkerTimeoutError::Join(error) => error.message(),
            ShardLocalWorkerTimeoutError::TimedOut { shard_id } => {
                with_number("shard-local worker on shard ", shard_id.0, " timed out")
            },
        }
    }
}

impl<P> From<ShardedJoinTimeoutError<P>> for ShardLocalWorkerTimeoutError<P> {
    fn from(error: ShardedJoinTimeoutError<P>) -> (converted: Self) {
        match error {
            ShardedJoinTimeoutError::Join(error) => ShardLocalWorkerTimeoutError::Join(error),
            ShardedJoinTimeoutError::TimedOut { shard_id } => {
                ShardLocalWorkerTimeoutError::TimedOut { shard_id }
            },
        }
    }
}

impl<P> vstd::std_specs::convert::FromSpecImpl<ShardedJoinTimeoutError<P>> for ShardLocalWorkerTimeoutError<P> {
    open spec fn obeys_from_spec() -> bool {
        true
    }

    open spec fn from_spec(error: ShardedJoinTimeoutError<P>) -> Self {
        match error {
            ShardedJoinTimeoutError::Join(error) => ShardLocalWorkerTimeoutError::Join(error),
            ShardedJoinTimeoutError::TimedOut { shard_id } => {
                ShardLocalWorkerTimeoutError::TimedOut { shard_id }
            },
        }
    }
}

/// Join handles of one shard-local worker per shard that share a stop signal. `W`
/// is a waker.
pub struct StoppableShardLocalWorkers<H, W> {
    /// Requests stop.
    pub stop_source: StopSource<W>,
    /// The workers.
    pub workers: ShardLocalWorkers<H>,
}

impl<H, W> StoppableShardLocalWorkers<H, W> {
    /// A set without workers, and the token that each worker gets.
    pub fn new() -> (result: (Self, StopToken))
        ensures
            result.0.stop_source.wf(),
            !result.0.stop_source.signal.raised,
            result.0.workers.handles@.len() == 0,
    {
        let (stop_source, token) = stop_pair();
        (
            StoppableShardLocalWorkers {
                stop_source,
                workers: ShardLocalWorkers { handles: Vec::new() },
            },
            token,
        )
    }

    /// Takes on a worker that was started.
    pub fn adopt(&mut self, handle: ShardedJoinHandle<H>)
        ensures
            final(self).stop_source == old(self).stop_source,
            final(self).workers.handles@ == old(self).workers.handles@.push(handle),
    {
        self.workers.handles.push(handle);
    }

    /// Returns the number of worker handles.
    pub fn len(&self) -> (len: usize)
        ensures
            len == self.workers.handles@.len(),
    {
        self.workers.len()
    }

    /// Returns true when there are no worker handles.
    pub fn is_empty(&self) -> (empty: bool)
        ensures
            empty == (self.workers.handles@.len() == 0),
    {
        self.workers.is_empty()
    }

    /// Returns true if cooperative stop has already been requested.
    pub fn is_stopped(&self) -> (stopped: bool)
        ensures
            stopped == self.stop_source.signal.raised,
    {
        self.stop_source.is_stopped()
    }

    /// Requests cooperative stop for all workers. Returns the workers to wake, or
    /// nothing where stop was requested before.
    pub fn stop(&mut self) -> (woken: Option<Vec<W>>)
        ensures
            final(self).workers == old(self).workers,
            old(self).stop_source.wf() ==> final(self).stop_source.wf(),
            final(self).stop_source.signal.raised,
            woken is None <==> old(self).stop_source.signal.raised,
            old(self).stop_source.signal.raised ==> *final(self) == *old(self),
            woken matches Some(wakers) ==> wakers@ == old(self).stop_source.signal.wakers@
                && final(self).stop_source.signal.wakers@ == Seq::<W>::empty(),
    {
        self.stop_source.stop()
    }

    /// Returns the shard ids represented by this worker set.
    pub fn shard_ids(&self) -> (ids: Vec<ShardId>)
        ensures
            ids@ == self.workers.shards(),
    {
        self.workers.shard_ids()
    }

    /// Consumes this value and returns the non-stoppable worker join set.
    pub fn into_workers(self) -> (workers: ShardLocalWorkers<H>)
        ensures
            workers == self.workers,
    {
        self.workers
    }
}

/// A thread reaches the value of the shard that it runs and no other. Off the shards it
/// reaches none; on a shard without a value it learns that shard's number.
pub proof fn thread_reaches_its_own_shard<T>(local: ShardLocal<T>, current: Option<ShardId>)
    ensures
        local.access(current) is Ok <==> current is Some && (current->0).0 < local.values@.len(),
        local.access(current) matches Ok(shard_id) ==> current == Some(shard_id),
        current is None ==> local.access(current) == Err::<ShardId, ShardLocalAccessError>(
            ShardLocalAccessError::NotOnShard,
        ),
        current matches Some(shard_id) ==> (shard_id.0 >= local.values@.len() ==> local.access(
            current,
        ) == Err::<ShardId, ShardLocalAccessError>(
            ShardLocalAccessError::InvalidShardId(shard_id.0),
        )),
{
}

/// There is one shard for each worker, that of its handle, in the order of the handles.
pub proof fn workers_name_their_shards<H>(workers: ShardLocalWorkers<H>)
    ensures
        workers.shards().len() == workers.handles@.len(),
        forall|i: int|
            0 <= i < workers.handles@.len() ==> #[trigger] workers.shards()[i]
                == workers.handles@[i].shard_id,
{
}

/// Tasks and workers are named by their shards, so that different shards have different
/// names.
pub proof fn shards_have_names_of_their_own(first: ShardId, second: ShardId)
    ensures
        task_name(first) == task_name(second) ==> first == second,
        worker_name(first) == worker_name(second) ==> first == second,
        "shard-local-"@.is_prefix_of(task_name(first)),
        "shard-local-worker-"@.is_prefix_of(worker_name(first)),
        task_name(first).skip("shard-local-"@.len() as int) == decimal(first.0 as nat),
        worker_name(first).skip("shard-local-worker-"@.len() as int) == decimal(first.0 as nat),
{
    decimal_text_reads_back(first.0 as nat);
    decimal_text_reads_back(second.0 as nat);
    assert(task_name(first).skip("shard-local-"@.len() as int) =~= decimal(first.0 as nat));
    assert(task_name(second).skip("shard-local-"@.len() as int) =~= decimal(second.0 as nat));
    assert(worker_name(first).skip("shard-local-worker-"@.len() as int) =~= decimal(
        first.0 as nat,
    ));
    assert(worker_name(second).skip("shard-local-worker-"@.len() as int) =~= decimal(
        second.0 as nat,
    ));
    assert(task_name(first).take("shard-local-"@.len() as int) =~= "shard-local-"@);
    assert(worker_name(first).take("shard-local-worker-"@.len() as int)
        =~= "shard-local-worker-"@);
}

} // verus!
