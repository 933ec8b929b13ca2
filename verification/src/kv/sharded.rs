//! The sharded key-value store: routing of keys to shards.

use vstd::prelude::*;

use crate::error::ShardError;
use crate::kv::command::{
    after, after_all, answers, commands, overwrites, put_is_read_back, KvCommand, KvResponse,
};
use crate::kv::reply::{merged_keys_are_those_listed, merges, total};
use crate::kv::store::{lists_keys, lookup, text_of};
use crate::placement::{key_goes_where_its_hash_goes, shard_for_hash, shard_of, text_hash};
use crate::runtime::{validated, RuntimeSnapshot, ShardConfig, DEFAULT_MAILBOX_CAPACITY};
use crate::service::{request_each, to_all, Broadcast, Request, Service, ServiceView};
use crate::shard::ShardId;
use crate::strings::texts;

verus! {

/// Configuration for starting a [`ShardedKv`] instance.
///
/// The shard mailbox capacity is per shard. A caller waits while the mailbox that
/// it sends to is full.
#[derive(Debug, Clone, Copy, PartialEq, Eq, Structural)]
pub struct ShardedKvConfig {
    /// Number of shard threads to start.
    pub shard_count: usize,
    /// Maximum pending commands per shard mailbox.
    pub mailbox_capacity: usize,
}

impl ShardedKvConfig {
    /// Creates a config with the default bounded mailbox capacity.
    pub fn new(shard_count: usize) -> (config: Self)
        ensures
            config == (ShardedKvConfig { shard_count, mailbox_capacity: DEFAULT_MAILBOX_CAPACITY }),
    {
        ShardedKvConfig::from(ShardConfig::new(shard_count))
    }

    /// Sets the bounded mailbox capacity per shard.
    pub fn with_mailbox_capacity(self, mailbox_capacity: usize) -> (config: Self)
        ensures
            config == (ShardedKvConfig { mailbox_capacity, ..self }),
    {
        ShardedKvConfig { mailbox_capacity, ..self }
    }

    /// The configuration of the shards.
    pub open spec fn shard_config(self) -> ShardConfig {
        ShardConfig { shard_count: self.shard_count, mailbox_capacity: self.mailbox_capacity }
    }

    /// The configuration of the shards, where they can be started with it.
    pub fn runtime_config(self) -> (result: Result<ShardConfig, ShardError>)
        ensures
            result == validated(self.shard_config()),
    {
        ShardConfig {
            shard_count: self.shard_count,
            mailbox_capacity: self.mailbox_capacity,
        }.validate()
    }
}

impl From<ShardConfig> for ShardedKvConfig {
    fn from(config: ShardConfig) -> (converted: Self) {
        ShardedKvConfig {
            shard_count: config.shard_count,
            mailbox_capacity: config.mailbox_capacity,
        }
    }
}

impl vstd::std_specs::convert::FromSpecImpl<ShardConfig> for ShardedKvConfig {
    open spec fn obeys_from_spec() -> bool {
        true
    }

    open spec fn from_spec(config: ShardConfig) -> Self {
        ShardedKvConfig {
            shard_count: config.shard_count,
            mailbox_capacity: config.mailbox_capacity,
        }
    }
}

/// A sharded key-value store. `R` says where the reply to a command goes.
///
/// The store routes commands; each shard takes them from its mailbox and serves
/// them on its own state.
pub struct ShardedKv<R> {
    /// The shards.
    pub service: Service<KvCommand, R>,
}

fn len_requests<R>(replies: Vec<R>) -> (requests: Vec<Request<KvCommand, R>>)
    ensures
        requests@ == to_all(KvCommand::Len, replies@),
{
    let make = || -> (command: KvCommand)
        ensures
            command == KvCommand::Len,
        { KvCommand::Len };
    let requests = request_each(make, replies);
    assert(requests@ =~= to_all(KvCommand::Len, replies@));
    requests
}

fn keys_requests<R>(replies: Vec<R>) -> (requests: Vec<Request<KvCommand, R>>)
    ensures
        requests@ == to_all(KvCommand::Keys, replies@),
{
    let make = || -> (command: KvCommand)
        ensures
            command == KvCommand::Keys,
        { KvCommand::Keys };
    let requests = request_each(make, replies);
    assert(requests@ =~= to_all(KvCommand::Keys, replies@));
    requests
}

impl<R> ShardedKv<R> {
    /// There is a shard, and the mailboxes are bounded.
    pub open spec fn wf(&self) -> bool {
        self.service.wf()
    }

    /// The shard of a key.
    pub open spec fn owner(&self, key: Seq<char>) -> ShardId {
        shard_of(key, self.service@.mailboxes.len() as usize)
    }

    /// Starts a store with `shard_count` shards and the default mailbox capacity.
    pub fn start(shard_count: usize) -> (result: Result<Self, ShardError>)
        ensures
            shard_count == 0 ==> result == Err::<Self, ShardError>(ShardError::InvalidShardCount),
            shard_count > 0 ==> result is Ok,
            result matches Ok(kv) ==> kv.wf() && kv.service@.mailboxes.len() == shard_count
                && kv.service@.mailbox_capacity == DEFAULT_MAILBOX_CAPACITY && !kv.service@.stopped
                && forall|i: int|
                0 <= i < shard_count ==> (#[trigger] kv.service@.mailboxes[i]).queue.len() == 0
                    && kv.service@.mailboxes[i].open,
    {
        ShardedKv::start_with_config(ShardedKvConfig::new(shard_count))
    }

    /// Starts a store from an explicit configuration.
    pub fn start_with_config(config: ShardedKvConfig) -> (result: Result<Self, ShardError>)
        ensures
            validated(config.shard_config()) matches Err(error) ==> result == Err::<
                Self,
                ShardError,
            >(error),
            validated(config.shard_config()) is Ok ==> result is Ok,
            result matches Ok(kv) ==> kv.wf() && kv.service@.mailboxes.len() == config.shard_count
                && kv.service@.mailbox_capacity == config.mailbox_capacity && !kv.service@.stopped
                && forall|i: int|
                0 <= i < config.shard_count ==> (#[trigger] kv.service@.mailboxes[i]).queue.len()
                    == 0 && kv.service@.mailboxes[i].open,
    {
        let config = match config.runtime_config() {
            Ok(config) => config,
            Err(error) => {
                return Err(error);
            },
        };
        match Service::start(config) {
            Ok(service) => Ok(ShardedKv { service }),
            Err(error) => Err(error),
        }
    }

    /// Number of shards.
    pub fn shard_count(&self) -> (count: usize)
        ensures
            count == self.service@.mailboxes.len(),
    {
        self.service.shard_count()
    }

    /// Capacity of each mailbox.
    pub fn mailbox_capacity(&self) -> (capacity: usize)
        ensures
            capacity == self.service@.mailbox_capacity,
    {
        self.service.mailbox_capacity()
    }

    /// The shape of the store.
    pub fn runtime_snapshot(&self) -> (snapshot: RuntimeSnapshot)
        ensures
            snapshot.shard_count == self.service@.mailboxes.len(),
            snapshot.mailbox_capacity == self.service@.mailbox_capacity,
            snapshot.stopped == self.service@.stopped,
    {
        self.service.runtime_snapshot()
    }

    /// The shard that owns `key`.
    pub fn shard_for_key(&self, key: &str) -> (shard: ShardId)
        requires
            self.wf(),
        ensures
            shard == self.owner(key@),
            shard.0 < self.service@.mailboxes.len(),
    {
        let count: usize = self.shard_count();
        shard_for_hash(key, count)
    }

    /// Whether a command for a key does not have to wait for room.
    pub fn is_ready_for_key(&self, key: &str) -> (ready: bool)
        requires
            self.wf(),
        ensures
            ready == self.service@.ready(self.owner(key@).0 as int),
    {
        self.service.is_ready(self.shard_for_key(key))
    }

    /// Enqueues a put command on the shard that owns the key,
    /// once there is room.
    pub fn submit_put(
        &mut self,
        key: String,
        value: String,
        reply: R,
    ) -> (result: Result<(), ShardError>)
        requires
            old(self).wf(),
            old(self).service@.ready(old(self).owner(key@).0 as int),
        ensures
            final(self).wf(),
            old(self).service@.submits(
                old(self).owner(key@),
                (Request { command: (KvCommand::Put { key, value }), reply }),
                result,
                final(self).service@,
            ),
    {
        let shard = self.shard_for_key(key.as_str());
        self.service.submit(shard, Request { command: KvCommand::Put { key, value }, reply })
    }

    /// Enqueues a put command on the shard that owns the key,
    /// without waiting for room.
    pub fn try_submit_put(
        &mut self,
        key: String,
        value: String,
        reply: R,
    ) -> (result: Result<(), ShardError>)
        requires
            old(self).wf(),
        ensures
            final(self).wf(),
            old(self).service@.try_submits(
                old(self).owner(key@),
                (Request { command: (KvCommand::Put { key, value }), reply }),
                result,
                final(self).service@,
            ),
    {
        let shard = self.shard_for_key(key.as_str());
        self.service.try_submit(shard, Request { command: KvCommand::Put { key, value }, reply })
    }

    /// Enqueues an atomic compare-and-put command on the shard that owns the key,
    /// once there is room.
    pub fn submit_compare_and_put(
        &mut self,
        key: String,
        expected: Option<String>,
        value: String,
        reply: R,
    ) -> (result: Result<(), ShardError>)
        requires
            old(self).wf(),
            old(self).service@.ready(old(self).owner(key@).0 as int),
        ensures
            final(self).wf(),
            old(self).service@.submits(
                old(self).owner(key@),
                (Request { command: (KvCommand::CompareAndPut { key, expected, value }), reply }),
                result,
                final(self).service@,
            ),
    {
        let shard = self.shard_for_key(key.as_str());
        let command = KvCommand::CompareAndPut { key, expected, value };
        self.service.submit(shard, Request { command, reply })
    }

    /// Enqueues an atomic compare-and-put command on the shard that owns the key,
    /// without waiting for room.
    pub fn try_submit_compare_and_put(
        &mut self,
        key: String,
        expected: Option<String>,
        value: String,
        reply: R,
    ) -> (result: Result<(), ShardError>)
        requires
            old(self).wf(),
        ensures
            final(self).wf(),
            old(self).service@.try_submits(
                old(self).owner(key@),
                (Request { command: (KvCommand::CompareAndPut { key, expected, value }), reply }),
                result,
                final(self).service@,
            ),
    {
        let shard = self.shard_for_key(key.as_str());
        let command = KvCommand::CompareAndPut { key, expected, value };
        self.service.try_submit(shard, Request { command, reply })
    }

    /// Enqueues a get-or-put command on the shard that owns the key,
    /// once there is room.
    pub fn submit_get_or_put(
        &mut self,
        key: String,
        value: String,
        reply: R,
    ) -> (result: Result<(), ShardError>)
        requires
            old(self).wf(),
            old(self).service@.ready(old(self).owner(key@).0 as int),
        ensures
            final(self).wf(),
            old(self).service@.submits(
                old(self).owner(key@),
                (Request { command: (KvCommand::GetOrPut { key, value }), reply }),
                result,
                final(self).service@,
            ),
    {
        let shard = self.shard_for_key(key.as_str());
        self.service.submit(shard, Request { command: KvCommand::GetOrPut { key, value }, reply })
    }

    /// Enqueues a get-or-put command on the shard that owns the key,
    /// without waiting for room.
    pub fn try_submit_get_or_put(
        &mut self,
        key: String,
        value: String,
        reply: R,
    ) -> (result: Result<(), ShardError>)
        requires
            old(self).wf(),
        ensures
            final(self).wf(),
            old(self).service@.try_submits(
                old(self).owner(key@),
                (Request { command: (KvCommand::GetOrPut { key, value }), reply }),
                result,
                final(self).service@,
            ),
    {
        let shard = self.shard_for_key(key.as_str());
        let command = KvCommand::GetOrPut { key, value };
        self.service.try_submit(shard, Request { command, reply })
    }

    /// Enqueues a get command on the shard that owns the key,
    /// once there is room.
    pub fn submit_get(
        &mut self,
        key: String,
        reply: R,
    ) -> (result: Result<(), ShardError>)
        requires
            old(self).wf(),
            old(self).service@.ready(old(self).owner(key@).0 as int),
        ensures
            final(self).wf(),
            old(self).service@.submits(
                old(self).owner(key@),
                (Request { command: (KvCommand::Get { key }), reply }),
                result,
                final(self).service@,
            ),
    {
        let shard = self.shard_for_key(key.as_str());
        self.service.submit(shard, Request { command: KvCommand::Get { key }, reply })
    }

    /// Enqueues a get command on the shard that owns the key,
    /// without waiting for room.
    pub fn try_submit_get(
        &mut self,
        key: String,
        reply: R,
    ) -> (result: Result<(), ShardError>)
        requires
            old(self).wf(),
        ensures
            final(self).wf(),
            old(self).service@.try_submits(
                old(self).owner(key@),
                (Request { command: (KvCommand::Get { key }), reply }),
                result,
                final(self).service@,
            ),
    {
        let shard = self.shard_for_key(key.as_str());
        self.service.try_submit(shard, Request { command: KvCommand::Get { key }, reply })
    }

    /// Enqueues a delete command on the shard that owns the key,
    /// once there is room.
    pub fn submit_delete(
        &mut self,
        key: String,
        reply: R,
    ) -> (result: Result<(), ShardError>)
        requires
            old(self).wf(),
            old(self).service@.ready(old(self).owner(key@).0 as int),
        ensures
            final(self).wf(),
            old(self).service@.submits(
                old(self).owner(key@),
                (Request { command: (KvCommand::Delete { key }), reply }),
                result,
                final(self).service@,
            ),
    {
        let shard = self.shard_for_key(key.as_str());
        self.service.submit(shard, Request { command: KvCommand::Delete { key }, reply })
    }

    /// Enqueues a delete command on the shard that owns the key,
    /// without waiting for room.
    pub fn try_submit_delete(
        &mut self,
        key: String,
        reply: R,
    ) -> (result: Result<(), ShardError>)
        requires
            old(self).wf(),
        ensures
            final(self).wf(),
            old(self).service@.try_submits(
                old(self).owner(key@),
                (Request { command: (KvCommand::Delete { key }), reply }),
                result,
                final(self).service@,
            ),
    {
        let shard = self.shard_for_key(key.as_str());
        self.service.try_submit(shard, Request { command: KvCommand::Delete { key }, reply })
    }

    /// Enqueues a length command on one shard, once there is room.
    pub fn submit_len_on_shard(&mut self, shard_id: ShardId, reply: R) -> (result: Result<
        (),
        ShardError,
    >)
        requires
            old(self).wf(),
            old(self).service@.ready(shard_id.0 as int),
        ensures
            final(self).wf(),
            old(self).service@.submits(
                shard_id,
                (Request { command: KvCommand::Len, reply }),
                result,
                final(self).service@,
            ),
    {
        self.service.submit(shard_id, Request { command: KvCommand::Len, reply })
    }

    /// Enqueues a length command on one shard, without waiting for room.
    pub fn try_submit_len_on_shard(&mut self, shard_id: ShardId, reply: R) -> (result: Result<
        (),
        ShardError,
    >)
        requires
            old(self).wf(),
        ensures
            final(self).wf(),
            old(self).service@.try_submits(
                shard_id,
                (Request { command: KvCommand::Len, reply }),
                result,
                final(self).service@,
            ),
    {
        self.service.try_submit(shard_id, Request { command: KvCommand::Len, reply })
    }

    /// Enqueues a keys command on one shard, once there is room.
    pub fn submit_keys_on_shard(&mut self, shard_id: ShardId, reply: R) -> (result: Result<
        (),
        ShardError,
    >)
        requires
            old(self).wf(),
            old(self).service@.ready(shard_id.0 as int),
        ensures
            final(self).wf(),
            old(self).service@.submits(
                shard_id,
                (Request { command: KvCommand::Keys, reply }),
                result,
                final(self).service@,
            ),
    {
        self.service.submit(shard_id, Request { command: KvCommand::Keys, reply })
    }

    /// Enqueues a keys command on one shard, without waiting for room.
    pub fn try_submit_keys_on_shard(&mut self, shard_id: ShardId, reply: R) -> (result: Result<
        (),
        ShardError,
    >)
        requires
            old(self).wf(),
        ensures
            final(self).wf(),
            old(self).service@.try_submits(
                shard_id,
                (Request { command: KvCommand::Keys, reply }),
                result,
                final(self).service@,
            ),
    {
        self.service.try_submit(shard_id, Request { command: KvCommand::Keys, reply })
    }

    /// Begins to enqueue length commands on all shards, each once there is room.
    pub fn submit_total_len(&self, replies: Vec<R>) -> (result: Result<
        Broadcast<KvCommand, R>,
        ShardError,
    >)
        requires
            replies@.len() == self.service@.mailboxes.len(),
        ensures
            self.service@.begins_broadcast(to_all(KvCommand::Len, replies@), result),
    {
        self.service.submit_all(len_requests(replies))
    }

    /// Enqueues length commands on all shards, without waiting for room. Commands
    /// accepted ahead of a full mailbox stay; they are read-only.
    pub fn try_submit_total_len(&mut self, replies: Vec<R>) -> (result: Result<(), ShardError>)
        requires
            old(self).wf(),
            replies@.len() == old(self).service@.mailboxes.len(),
        ensures
            final(self).wf(),
            old(self).service@.submits_all(
                to_all(KvCommand::Len, replies@),
                old(self).service@.try_send_results(),
                result,
                final(self).service@,
            ),
    {
        let requests = len_requests(replies);
        self.service.try_submit_all(requests)
    }

    /// Begins to enqueue snapshot commands on all shards, each once there is room.
    pub fn submit_shard_snapshots(&self, replies: Vec<R>) -> (result: Result<
        Broadcast<KvCommand, R>,
        ShardError,
    >)
        requires
            replies@.len() == self.service@.mailboxes.len(),
        ensures
            self.service@.begins_broadcast(to_all(KvCommand::Len, replies@), result),
    {
        self.service.submit_all(len_requests(replies))
    }

    /// Enqueues snapshot commands on all shards, without waiting for room. Commands
    /// accepted ahead of a full mailbox stay; they are read-only.
    pub fn try_submit_shard_snapshots(&mut self, replies: Vec<R>) -> (result: Result<(), ShardError>)
        requires
            old(self).wf(),
            replies@.len() == old(self).service@.mailboxes.len(),
        ensures
            final(self).wf(),
            old(self).service@.submits_all(
                to_all(KvCommand::Len, replies@),
                old(self).service@.try_send_results(),
                result,
                final(self).service@,
            ),
    {
        let requests = len_requests(replies);
        self.service.try_submit_all(requests)
    }

    /// Begins to enqueue key commands on all shards, each once there is room.
    pub fn submit_all_keys(&self, replies: Vec<R>) -> (result: Result<
        Broadcast<KvCommand, R>,
        ShardError,
    >)
        requires
            replies@.len() == self.service@.mailboxes.len(),
        ensures
            self.service@.begins_broadcast(to_all(KvCommand::Keys, replies@), result),
    {
        self.service.submit_all(keys_requests(replies))
    }

    /// Enqueues key commands on all shards, without waiting for room. Commands
    /// accepted ahead of a full mailbox stay; they are read-only.
    pub fn try_submit_all_keys(&mut self, replies: Vec<R>) -> (result: Result<(), ShardError>)
        requires
            old(self).wf(),
            replies@.len() == old(self).service@.mailboxes.len(),
        ensures
            final(self).wf(),
            old(self).service@.submits_all(
                to_all(KvCommand::Keys, replies@),
                old(self).service@.try_send_results(),
                result,
                final(self).service@,
            ),
    {
        let requests = keys_requests(replies);
        self.service.try_submit_all(requests)
    }

    /// Enqueues a command about a key on the shard that owns the key, where there is
    /// room. Otherwise the request comes back, to be tried again when the shard has
    /// taken one.
    pub fn submit_if_ready(&mut self, command: KvCommand, reply: R) -> (result: Result<
        Result<(), ShardError>,
        Request<KvCommand, R>,
    >)
        requires
            old(self).wf(),
            command_key(command) is Some,
        ensures
            final(self).wf(),
            ({
                let owner = old(self).owner(command_key(command)->0);
                if old(self).service@.ready(owner.0 as int) {
                    &&& result is Ok
                    &&& old(self).service@.submits(
                        owner,
                        (Request { command, reply }),
                        result->Ok_0,
                        final(self).service@,
                    )
                } else {
                    &&& result == Err::<Result<(), ShardError>, Request<KvCommand, R>>(
                        (Request { command, reply }),
                    )
                    &&& final(self).service@ == old(self).service@
                }
            }),
    {
        let ready = match &command {
            KvCommand::Get { key } => self.is_ready_for_key(key.as_str()),
            KvCommand::Put { key, value: _ } => self.is_ready_for_key(key.as_str()),
            KvCommand::CompareAndPut { key, expected: _, value: _ } => {
                self.is_ready_for_key(key.as_str())
            },
            KvCommand::GetOrPut { key, value: _ } => self.is_ready_for_key(key.as_str()),
            KvCommand::Delete { key } => self.is_ready_for_key(key.as_str()),
            _ => false,
        };
        if !ready {
            return Err(Request { command, reply });
        }
        match command {
            KvCommand::Get { key } => Ok(self.submit_get(key, reply)),
            KvCommand::Put { key, value } => Ok(self.submit_put(key, value, reply)),
            KvCommand::CompareAndPut { key, expected, value } => {
                Ok(self.submit_compare_and_put(key, expected, value, reply))
            },
            KvCommand::GetOrPut { key, value } => Ok(self.submit_get_or_put(key, value, reply)),
            KvCommand::Delete { key } => Ok(self.submit_delete(key, reply)),
            command => Err(Request { command, reply }),
        }
    }

    /// Begins shutdown. Says whether it had not begun before: then every shard is
    /// to be stopped and joined.
    pub fn begin_shutdown(&mut self) -> (begun: bool)
        ensures
            begun == !old(self).service@.stopped,
            final(self).service@ == (ServiceView { stopped: true, ..old(self).service@ }),
            old(self).wf() ==> final(self).wf(),
    {
        self.service.begin_shutdown()
    }

    /// Enqueues the stop command on one shard, once there is room.
    pub fn send_stop(&mut self, shard_id: ShardId, reply: R) -> (result: Result<(), ShardError>)
        requires
            old(self).wf(),
            shard_id.0 < old(self).service@.mailboxes.len(),
            old(self).service@.mailboxes[shard_id.0 as int].open
                ==> !old(self).service@.mailboxes[shard_id.0 as int].full(),
        ensures
            final(self).wf(),
            result == if old(self).service@.mailboxes[shard_id.0 as int].open {
                Ok::<(), ShardError>(())
            } else {
                Err::<(), ShardError>(ShardError::ShardStopped)
            },
            final(self).service@ == if result is Ok {
                old(self).service@.sent(
                    shard_id.0 as int,
                    (Request { command: KvCommand::Stop, reply }),
                )
            } else {
                old(self).service@
            },
    {
        self.service.send_stop(shard_id, Request { command: KvCommand::Stop, reply })
    }
}

/// Whether every key is on the shard that owns it.
pub open spec fn placed(stores: Seq<Map<Seq<char>, Seq<char>>>) -> bool {
    forall|i: int, key: Seq<char>|
        0 <= i < stores.len() && #[trigger] stores[i].contains_key(key) ==> shard_of(
            key,
            stores.len() as usize,
        ).0 == i
}

/// What a store holds as a whole: of each key what the shard that owns it holds.
pub open spec fn whole(stores: Seq<Map<Seq<char>, Seq<char>>>) -> Map<Seq<char>, Seq<char>> {
    Map::new(
        |key: Seq<char>|
            stores[shard_of(key, stores.len() as usize).0 as int].contains_key(key),
        |key: Seq<char>| stores[shard_of(key, stores.len() as usize).0 as int][key],
    )
}

/// The key that a command is about.
pub open spec fn command_key(command: KvCommand) -> Option<Seq<char>> {
    match command {
        KvCommand::Get { key } => Some(key@),
        KvCommand::Put { key, value } => Some(key@),
        KvCommand::CompareAndPut { key, expected, value } => Some(key@),
        KvCommand::GetOrPut { key, value } => Some(key@),
        KvCommand::Delete { key } => Some(key@),
        _ => None,
    }
}

/// The sharded store behaves as one map: a command about a key, served by the shard
/// that owns the key, does to the whole what it would do to one map, and gets the
/// same answer.
pub proof fn sharded_store_is_one_map(
    stores: Seq<Map<Seq<char>, Seq<char>>>,
    command: KvCommand,
    response: KvResponse,
)
    requires
        0 < stores.len() <= usize::MAX,
        placed(stores),
        command_key(command) is Some,
    ensures
        ({
            let owner = shard_of(command_key(command)->0, stores.len() as usize).0 as int;
            let served = stores.update(owner, after(stores[owner], command));
            &&& placed(served)
            &&& whole(served) == after(whole(stores), command)
            &&& answers(stores[owner], command, response) <==> answers(
                whole(stores),
                command,
                response,
            )
        }),
{
    let key = command_key(command)->0;
    let owner = shard_of(key, stores.len() as usize).0 as int;
    let served = stores.update(owner, after(stores[owner], command));
    assert(lookup(stores[owner], key) == lookup(whole(stores), key));
    assert forall|i: int, k: Seq<char>|
        0 <= i < served.len() && #[trigger] served[i].contains_key(k) implies shard_of(
        k,
        served.len() as usize,
    ).0 == i by {
        if i == owner && k != key {
            assert(stores[i].contains_key(k));
        } else if i != owner {
            assert(stores[i].contains_key(k));
        }
    }
    assert(whole(served) =~= after(whole(stores), command)) by {
        assert forall|k: Seq<char>| whole(served).contains_key(k) == after(
            whole(stores),
            command,
        ).contains_key(k) by {}
    }
}

/// A get that is accepted after a put of the same key reads what the put wrote:
/// both go to the mailbox of the shard that owns the key, which is served in
/// order. `ahead` are requests accepted in between; none of them overwrites the
/// key.
pub proof fn get_reads_the_put_before_it<R>(
    service: ServiceView<KvCommand, R>,
    put: Request<KvCommand, R>,
    put_accepted: ServiceView<KvCommand, R>,
    ahead: Seq<Request<KvCommand, R>>,
    get: Request<KvCommand, R>,
    get_sent: ServiceView<KvCommand, R>,
    get_accepted: ServiceView<KvCommand, R>,
    store: Map<Seq<char>, Seq<char>>,
    response: KvResponse,
)
    requires
        0 < service.mailboxes.len() <= usize::MAX,
        put.command is Put,
        get.command is Get,
        get.command->Get_key@ == put.command->Put_key@,
        ({
            let key = put.command->Put_key@;
            let owner = shard_of(key, service.mailboxes.len() as usize);
            let accepted = Ok::<(), ShardError>(());
            let queue = commands(get_accepted.mailboxes[owner.0 as int].queue);
            &&& service.submits(owner, put, accepted, put_accepted)
            &&& get_sent.mailboxes.len() == service.mailboxes.len()
            &&& get_sent.mailboxes[owner.0 as int].queue
                == put_accepted.mailboxes[owner.0 as int].queue + ahead
            &&& forall|i: int|
                0 <= i < ahead.len() ==> !overwrites((#[trigger] ahead[i]).command, key)
            &&& get_sent.submits(owner, get, accepted, get_accepted)
            &&& answers(after_all(store, queue.drop_last()), queue.last(), response)
        }),
    ensures
        response is Value,
        text_of(response->Value_0) == Some(put.command->Put_value@),
{
    let key = put.command->Put_key@;
    let owner = shard_of(key, service.mailboxes.len() as usize).0 as int;
    let before = service.mailboxes[owner].queue;
    let requests = get_accepted.mailboxes[owner].queue;
    let queue = commands(requests);
    let at = before.len() as int;
    let last = at + 1 + ahead.len();
    assert(requests =~= before.push(put) + ahead.push(get));
    assert(queue[at] == put.command);
    assert(queue[last] == get.command);
    assert(queue.take(last) =~= queue.drop_last());
    assert forall|i: int| at < i < last implies !overwrites(#[trigger] queue[i], key) by {
        assert(queue[i] == ahead[i - at - 1].command);
    }
    put_is_read_back(store, queue, at, last, response);
}

/// The keys on the first `n` shards.
pub open spec fn keys_of_first(stores: Seq<Map<Seq<char>, Seq<char>>>, n: nat) -> Set<Seq<char>>
    decreases n,
{
    if n == 0 {
        Set::empty()
    } else {
        keys_of_first(stores, (n - 1) as nat) + stores[n - 1].dom()
    }
}

proof fn lemma_keys_of_first(stores: Seq<Map<Seq<char>, Seq<char>>>, lens: Seq<usize>, n: nat)
    requires
        placed(stores),
        n <= stores.len(),
        lens.len() == stores.len(),
        forall|i: int|
            0 <= i < stores.len() ==> (#[trigger] stores[i]).dom().finite() && lens[i]
                == stores[i].len(),
    ensures
        keys_of_first(stores, n).finite(),
        keys_of_first(stores, n).len() == total(lens.take(n as int)),
        forall|key: Seq<char>|
            #[trigger] keys_of_first(stores, n).contains(key) <==> exists|i: int|
                0 <= i < n && (#[trigger] stores[i]).contains_key(key),
    decreases n,
{
    if n > 0 {
        let m = (n - 1) as nat;
        lemma_keys_of_first(stores, lens, m);
        let before = keys_of_first(stores, m);
        let last = stores[n - 1].dom();
        assert(before.disjoint(last)) by {
            assert forall|key: Seq<char>| !(before.contains(key) && last.contains(key)) by {
                if before.contains(key) && last.contains(key) {
                    let i = choose|i: int| 0 <= i < m && (#[trigger] stores[i]).contains_key(key);
                    assert(stores[n - 1].contains_key(key));
                }
            }
        }
        vstd::set_lib::lemma_set_disjoint_lens(before, last);
        assert(stores[n - 1].dom().finite());
        assert(lens.take(n as int).drop_last() =~= lens.take(m as int));
        assert forall|key: Seq<char>| #[trigger] keys_of_first(stores, n).contains(
            key,
        ) <==> exists|i: int| 0 <= i < n && (#[trigger] stores[i]).contains_key(key) by {
            if last.contains(key) {
                assert(stores[n - 1].contains_key(key));
            }
            if before.contains(key) {
                let i = choose|i: int| 0 <= i < m && (#[trigger] stores[i]).contains_key(key);
                assert(stores[i].contains_key(key));
            }
            if exists|i: int| 0 <= i < n && (#[trigger] stores[i]).contains_key(key) {
                let i = choose|i: int| 0 <= i < n && (#[trigger] stores[i]).contains_key(key);
                if i < m {
                    assert(before.contains(key));
                }
            }
        }
    } else {
        assert(lens.take(0) =~= Seq::empty());
    }
}

/// The total length is the number of keys in the store as a whole.
pub proof fn total_len_counts_every_key(
    stores: Seq<Map<Seq<char>, Seq<char>>>,
    lens: Seq<usize>,
)
    requires
        0 < stores.len() <= usize::MAX,
        placed(stores),
        lens.len() == stores.len(),
        forall|i: int|
            0 <= i < stores.len() ==> answers(
                #[trigger] stores[i],
                KvCommand::Len,
                KvResponse::Len(lens[i]),
            ),
    ensures
        whole(stores).dom().finite(),
        total(lens) == whole(stores).len(),
{
    assert forall|i: int| 0 <= i < stores.len() implies (#[trigger] stores[i]).dom().finite()
        && lens[i] == stores[i].len() by {
        assert(answers(stores[i], KvCommand::Len, KvResponse::Len(lens[i])));
    }
    let n = stores.len();
    lemma_keys_of_first(stores, lens, n);
    assert(lens.take(n as int) =~= lens);
    assert forall|key: Seq<char>| #[trigger] whole(stores).dom().contains(key) == keys_of_first(
        stores,
        n,
    ).contains(key) by {
        let owner = shard_of(key, n as usize).0 as int;
        if whole(stores).contains_key(key) {
            assert(stores[owner].contains_key(key));
        }
        if keys_of_first(stores, n).contains(key) {
            let i = choose|i: int| 0 <= i < n && (#[trigger] stores[i]).contains_key(key);
            assert(stores[i].contains_key(key));
        }
    }
    assert(whole(stores).dom() =~= keys_of_first(stores, n));
}

/// The merged key lists of all shards list the keys of the store as a whole.
pub proof fn all_keys_lists_every_key(
    stores: Seq<Map<Seq<char>, Seq<char>>>,
    lists: Seq<Vec<String>>,
    keys: Seq<Seq<char>>,
)
    requires
        0 < stores.len() <= usize::MAX,
        placed(stores),
        lists.len() == stores.len(),
        forall|i: int|
            0 <= i < stores.len() ==> answers(
                #[trigger] stores[i],
                KvCommand::Keys,
                KvResponse::Keys(lists[i]),
            ),
        merges(keys, lists),
    ensures
        lists_keys(keys, whole(stores)),
{
    merged_keys_are_those_listed(keys, lists);
    assert forall|i: int| 0 <= i < lists.len() implies lists_keys(
        texts((#[trigger] lists[i])@),
        stores[i],
    ) by {
        assert(answers(stores[i], KvCommand::Keys, KvResponse::Keys(lists[i])));
    }
    assert forall|i: int, j: int, key: Seq<char>|
        0 <= i < j < lists.len() && #[trigger] texts(lists[i]@).contains(key) implies !(
    #[trigger] texts(lists[j]@).contains(key)) by {
        assert(lists_keys(texts(lists[i]@), stores[i]));
        assert(lists_keys(texts(lists[j]@), stores[j]));
        assert(stores[i].contains_key(key));
        if texts(lists[j]@).contains(key) {
            assert(stores[j].contains_key(key));
        }
    }
    assert(keys.no_duplicates());
    assert forall|key: Seq<char>| #[trigger] keys.contains(key) <==> whole(stores).contains_key(
        key,
    ) by {
        let owner = shard_of(key, stores.len() as usize).0 as int;
        if keys.contains(key) {
            let i = choose|i: int| 0 <= i < lists.len()
                && texts((#[trigger] lists[i])@).contains(key);
            assert(lists_keys(texts(lists[i]@), stores[i]));
            assert(stores[i].contains_key(key));
        }
        if whole(stores).contains_key(key) {
            assert(stores[owner].contains_key(key));
            assert(lists_keys(texts(lists[owner]@), stores[owner]));
            assert(texts(lists[owner]@).contains(key));
        }
    }
}

/// A key belongs to the shard that is the remainder of its hash value among the shards
/// of the store: to one, always the same, and to one that there is.
pub proof fn key_belongs_to_the_shard_of_its_hash<R>(kv: ShardedKv<R>, key: Seq<char>)
    requires
        kv.wf(),
        kv.service@.mailboxes.len() <= usize::MAX,
    ensures
        kv.owner(key).0 < kv.service@.mailboxes.len(),
        kv.owner(key).0 as int == (text_hash(key) as usize) as int
            % kv.service@.mailboxes.len() as int,
{
    key_goes_where_its_hash_goes(key, key, kv.service@.mailboxes.len() as usize);
}

/// The whole store holds what the shards hold, each for its own keys.
pub proof fn whole_store_is_the_union_of_the_shards(
    stores: Seq<Map<Seq<char>, Seq<char>>>,
    key: Seq<char>,
)
    requires
        0 < stores.len() <= usize::MAX,
        placed(stores),
    ensures
        whole(stores).contains_key(key) <==> exists|i: int|
            0 <= i < stores.len() && (#[trigger] stores[i]).contains_key(key),
        forall|i: int|
            0 <= i < stores.len() && (#[trigger] stores[i]).contains_key(key) ==> whole(stores)[key]
                == stores[i][key],
{
    let owner = shard_of(key, stores.len() as usize).0 as int;
    if whole(stores).contains_key(key) {
        assert(stores[owner].contains_key(key));
    }
}

/// Shards are started as many and with mailboxes as large as the configuration says.
pub proof fn shards_are_started_as_configured(config: ShardedKvConfig)
    ensures
        config.shard_config().shard_count == config.shard_count,
        config.shard_config().mailbox_capacity == config.mailbox_capacity,
{
}

} // verus!
