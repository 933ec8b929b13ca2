//! Handles on sharded services for use inside async tasks.
//!
//! Each call of a task is a submission to the service and a wait for the reply
//! that does not block the thread.

use vstd::prelude::*;

use crate::counter::ShardedCounter;
use crate::error::ShardError;
use crate::kv::sharded::ShardedKv;
use crate::runtime::DEFAULT_MAILBOX_CAPACITY;
use crate::service::ServiceView;

verus! {

/// A borrowed store for use in tasks.
pub struct AsyncShardedKv<'a, R> {
    /// The store.
    pub kv: &'a ShardedKv<R>,
}

impl<'a, R> AsyncShardedKv<'a, R> {
    /// Wraps a shared reference to a store.
    pub fn new(kv: &'a ShardedKv<R>) -> (wrapped: Self)
        ensures
            wrapped.kv == kv,
    {
        AsyncShardedKv { kv }
    }

    /// The store.
    pub fn inner(&self) -> (kv: &ShardedKv<R>)
        ensures
            kv == self.kv,
    {
        self.kv
    }
}

/// A store owned by tasks. It is shut down when the handle goes away.
pub struct OwnedAsyncShardedKv<R> {
    /// The store, until it is handed out.
    pub kv: Option<ShardedKv<R>>,
}

impl<R> OwnedAsyncShardedKv<R> {
    /// Starts a store with `shard_count` shards and the default mailbox capacity.
    pub fn start(shard_count: usize) -> (result: Result<Self, ShardError>)
        ensures
            shard_count == 0 ==> result == Err::<Self, ShardError>(ShardError::InvalidShardCount),
            shard_count > 0 ==> result is Ok,
            result matches Ok(owned) ==> owned.kv is Some && owned.kv->0.wf()
                && owned.kv->0.service@.mailboxes.len() == shard_count
                && owned.kv->0.service@.mailbox_capacity == DEFAULT_MAILBOX_CAPACITY
                && !owned.kv->0.service@.stopped && forall|i: int|
                0 <= i < shard_count ==> (
                #[trigger] owned.kv->0.service@.mailboxes[i]).queue.len() == 0
                    && owned.kv->0.service@.mailboxes[i].open,
    {
        match ShardedKv::start(shard_count) {
            Ok(kv) => Ok(OwnedAsyncShardedKv { kv: Some(kv) }),
            Err(error) => Err(error),
        }
    }

    /// The store for use in tasks.
    pub fn as_async(&self) -> (wrapped: AsyncShardedKv<'_, R>)
        requires
            self.kv is Some,
        ensures
            Some(*wrapped.kv) == self.kv,
    {
        AsyncShardedKv::new(self.inner())
    }

    /// Hands the store out.
    pub fn into_inner(self) -> (kv: ShardedKv<R>)
        requires
            self.kv is Some,
        ensures
            Some(kv) == self.kv,
    {
        self.kv.unwrap()
    }

    /// The store.
    pub fn inner(&self) -> (kv: &ShardedKv<R>)
        requires
            self.kv is Some,
        ensures
            Some(*kv) == self.kv,
    {
        self.kv.as_ref().unwrap()
    }

    /// Begins shutdown of a store that was not handed out. Says whether its shards
    /// are to be stopped and joined.
    pub fn release(&mut self) -> (begun: bool)
        ensures
            begun == (old(self).kv is Some && !old(self).kv->0.service@.stopped),
            final(self).kv is Some == old(self).kv is Some,
            old(self).kv is Some && old(self).kv->0.wf() ==> final(self).kv->0.wf(),
            old(self).kv is Some ==> final(self).kv->0.service@ == (ServiceView {
                stopped: true,
                ..old(self).kv->0.service@
            }),
    {
        match &mut self.kv {
            Some(kv) => kv.begin_shutdown(),
            None => false,
        }
    }
}

/// A borrowed counter for use in tasks.
pub struct AsyncShardedCounter<'a, R> {
    /// The counter.
    pub counter: &'a ShardedCounter<R>,
}

impl<'a, R> AsyncShardedCounter<'a, R> {
    /// Wraps a shared reference to a counter.
    pub fn new(counter: &'a ShardedCounter<R>) -> (wrapped: Self)
        ensures
            wrapped.counter == counter,
    {
        AsyncShardedCounter { counter }
    }

    /// The counter.
    pub fn inner(&self) -> (counter: &ShardedCounter<R>)
        ensures
            counter == self.counter,
    {
        self.counter
    }
}

} // verus!
