//! Key-value store, counter, mailboxes, replies and streams.

use sitas::async_service::{AsyncShardedCounter, AsyncShardedKv, OwnedAsyncShardedKv};
use sitas::counter::{
    run_counter_shard, CounterCommand, CounterResponse, CounterService, CounterShardSnapshot,
    CounterShardSnapshotsReply, CounterTotalReply, ShardedCounter, ShardedCounterConfig,
};
use sitas::error::ShardError;
use sitas::kv::command::{run_kv_shard, KvCommand, KvResponse};
use sitas::kv::reply::{
    KvAllKeysReply, KvDeleteManyReply, KvGetManyReply, KvShardSnapshotsReply, KvTotalLenReply,
};
use sitas::kv::sharded::{ShardedKv, ShardedKvConfig};
use sitas::kv::store::KvService;
use sitas::placement::{shard_for_hash, shard_for_hash_value};
use sitas::runtime::{
    bounded_mailbox, join_all, stop_and_join, Reply, ShardConfig, DEFAULT_MAILBOX_CAPACITY,
};
use sitas::service::{Broadcast, Request, Service};
use sitas::shard::{ShardId, ShardSnapshot};
use sitas::stream_reply::{stream_channel, StreamError, StreamPoll, StreamProducer};
use sitas::strings::{is_text_le, sort_strings};

fn text(s: &str) -> String {
    s.to_string()
}

fn delivered<T>(value: T) -> Reply<T> {
    let mut reply = Reply::new();
    reply.deliver(value);
    reply
}

fn failed<T>() -> Reply<T> {
    let mut reply = Reply::new();
    reply.disconnect();
    reply
}

// Configuration.

fn send_all<C, R>(mut begun: Broadcast<C, R>, service: &mut Service<C, R>) {
    while !begun.is_done() {
        assert!(begun.is_ready(service));
        begun.advance(service).unwrap();
    }
}

#[test]
fn shard_config_uses_default_mailbox_capacity() {
    let config = ShardConfig::new(3);

    assert_eq!(config.shard_count, 3);
    assert_eq!(config.mailbox_capacity, DEFAULT_MAILBOX_CAPACITY);
}

#[test]
fn shard_config_rejects_zero_shards() {
    assert_eq!(ShardConfig::new(0).validate().unwrap_err(), ShardError::InvalidShardCount);
}

#[test]
fn shard_config_rejects_zero_mailbox_capacity() {
    assert_eq!(
        ShardConfig::new(1).with_mailbox_capacity(0).validate().unwrap_err(),
        ShardError::InvalidMailboxCapacity
    );
}

#[test]
fn valid_shard_config_is_kept() {
    let config = ShardConfig::new(2).with_mailbox_capacity(7);
    assert_eq!(config.validate(), Ok(config));
}

#[test]
fn sharded_kv_config_uses_default_mailbox_capacity() {
    let config = ShardedKvConfig::new(4);

    assert_eq!(config.shard_count, 4);
    assert_eq!(config.mailbox_capacity, DEFAULT_MAILBOX_CAPACITY);
}

#[test]
fn sharded_kv_config_accepts_custom_mailbox_capacity() {
    let config = ShardedKvConfig::new(4).with_mailbox_capacity(8);

    assert_eq!(config.shard_count, 4);
    assert_eq!(config.mailbox_capacity, 8);
}

#[test]
fn counter_config_uses_default_mailbox_capacity() {
    let config = ShardedCounterConfig::new(3);

    assert_eq!(config.shard_count, 3);
    assert_eq!(config.mailbox_capacity, DEFAULT_MAILBOX_CAPACITY);
}

#[test]
fn services_refuse_to_start_without_shards_or_room() {
    assert_eq!(ShardedKv::<u8>::start(0).err(), Some(ShardError::InvalidShardCount));
    assert_eq!(ShardedCounter::<u8>::start(0).err(), Some(ShardError::InvalidShardCount));
    let config = ShardedKvConfig::new(1).with_mailbox_capacity(0);
    assert_eq!(
        ShardedKv::<u8>::start_with_config(config).err(),
        Some(ShardError::InvalidMailboxCapacity)
    );
    assert_eq!(
        ShardedKvConfig::from(ShardConfig::new(5)).runtime_config(),
        Ok(ShardConfig::new(5))
    );
}

#[test]
fn shard_errors_have_texts() {
    assert_eq!(ShardError::InvalidShardId(7).message(), "invalid shard id: 7");
    assert_eq!(ShardError::InvalidShardId(1024).message(), "invalid shard id: 1024");
    assert_eq!(ShardError::MailboxFull.message(), "shard mailbox is full");
    assert_eq!(
        ShardError::CpuPlacementFailed(text("no CPU 3")).message(),
        "required CPU placement failed: no CPU 3"
    );
    assert_eq!(
        ShardError::InvalidShardCount.message(),
        "shard count must be greater than zero"
    );
    assert_eq!(
        ShardError::InvalidMailboxCapacity.message(),
        "mailbox capacity must be greater than zero"
    );
    assert_eq!(
        ShardError::InvalidCpuPlacement.message(),
        "CPU placement must provide a CPU for every shard"
    );
    assert_eq!(ShardError::SendFailed.message(), "failed to send command to shard");
    assert_eq!(ShardError::ReplyFailed.message(), "failed to receive reply from shard");
    assert_eq!(ShardError::ReplyTimeout.message(), "timed out waiting for shard reply");
    assert_eq!(ShardError::ShardStopped.message(), "shard has stopped");
    assert_eq!(ShardError::ThreadJoinFailed.message(), "failed to join shard thread");
}

// Mailboxes and replies.

#[test]
fn mailbox_is_first_in_first_out_and_bounded() {
    let mut mailbox = bounded_mailbox::<u32>(2);
    assert_eq!(mailbox.try_send(1), Ok(()));
    assert_eq!(mailbox.try_send(2), Ok(()));
    assert_eq!(mailbox.try_send(3), Err(ShardError::MailboxFull));
    assert_eq!(mailbox.recv(), Some(1));
    assert_eq!(mailbox.send(4), Ok(()));
    assert_eq!(mailbox.recv(), Some(2));
    assert_eq!(mailbox.recv(), Some(4));
    assert_eq!(mailbox.recv(), None);
}

#[test]
fn closed_mailbox_refuses_and_hands_back_its_commands() {
    let mut mailbox = bounded_mailbox::<u32>(2);
    mailbox.try_send(1).unwrap();
    let dropped = mailbox.close();
    assert_eq!(dropped.into_iter().collect::<Vec<_>>(), vec![1]);
    assert_eq!(mailbox.try_send(2), Err(ShardError::SendFailed));
    assert_eq!(mailbox.send(2), Err(ShardError::SendFailed));
    assert_eq!(mailbox.send_stopped(2), Err(ShardError::ShardStopped));
}

#[test]
fn reply_is_handed_out_once() {
    let mut reply = Reply::new();
    assert_eq!(reply.try_wait(), Ok(None));
    reply.deliver(5u8);
    reply.deliver(6u8);
    assert_eq!(reply.try_wait(), Ok(Some(5)));
    assert_eq!(reply.try_wait(), Ok(None));
    assert!(!reply.is_settled());
    reply.disconnect();
    assert_eq!(reply.try_wait(), Err(ShardError::ReplyFailed));
    assert_eq!(reply.try_wait(), Err(ShardError::ReplyFailed));
    assert_eq!(failed::<u8>().wait(), Err(ShardError::ReplyFailed));
    assert_eq!(Reply::<u8>::new().wait_timeout(), Err(ShardError::ReplyTimeout));
    assert_eq!(delivered(9u8).wait(), Ok(9));
}

#[test]
fn stopping_reports_the_last_failed_stop_and_then_the_join() {
    assert_eq!(join_all(&[true, true]), Ok(()));
    assert_eq!(join_all(&[true, false, true]), Err(ShardError::ThreadJoinFailed));
    let joined = Err(ShardError::ThreadJoinFailed);
    assert_eq!(stop_and_join(vec![Ok(()), Ok(())], joined.clone()), joined);
    assert_eq!(
        stop_and_join(
            vec![Err(ShardError::ShardStopped), Err(ShardError::ReplyFailed), Ok(())],
            joined
        ),
        Err(ShardError::ReplyFailed)
    );
}

// Placement.

#[test]
fn placement_follows_the_hash() {
    assert_eq!(shard_for_hash_value(17, 5), ShardId(2));
    for n in 1..6 {
        let shard = shard_for_hash("alpha", n);
        assert!(shard.0 < n);
        assert_eq!(shard, shard_for_hash("alpha", n));
    }
    let spread = (0..64).map(|i| shard_for_hash(&format!("key-{i}"), 4).0).collect::<Vec<_>>();
    for shard in 0..4 {
        assert!(spread.contains(&shard));
    }
}

// Texts.

#[test]
fn texts_are_ordered_by_their_bytes() {
    assert!(is_text_le("alpha", "beta"));
    assert!(!is_text_le("beta", "alpha"));
    assert!(is_text_le("", ""));
    assert!(is_text_le("a", "ab"));
    assert!(!is_text_le("ab", "a"));
    assert!(is_text_le("Z", "a"));
    assert!(is_text_le("z", "\u{e9}"));
    let sorted = sort_strings(vec![text("b"), text("a"), text("b"), text("")]);
    assert_eq!(sorted, vec![text(""), text("a"), text("b"), text("b")]);
}

// Key-value state.

#[test]
fn kv_service_starts_empty() {
    let service = KvService::new();

    assert_eq!(service.len(), 0);
}

#[test]
fn kv_service_put_get_delete_round_trip() {
    let mut service = KvService::new();

    service.put("alpha".to_string(), "one".to_string());

    assert_eq!(service.len(), 1);
    assert_eq!(service.get("alpha".to_string()), Some("one".to_string()));
    assert_eq!(service.delete("alpha".to_string()), Some("one".to_string()));
    assert_eq!(service.get("alpha".to_string()), None);
    assert_eq!(service.len(), 0);
}

#[test]
fn kv_service_overwrite_does_not_increase_len() {
    let mut service = KvService::new();

    service.put("alpha".to_string(), "one".to_string());
    service.put("alpha".to_string(), "updated".to_string());

    assert_eq!(service.len(), 1);
    assert_eq!(service.get("alpha".to_string()), Some("updated".to_string()));
}

#[test]
fn kv_service_compare_and_put_is_atomic_local_logic() {
    let mut service = KvService::new();

    assert!(service.compare_and_put("alpha".to_string(), None, "one".to_string()));
    assert_eq!(service.get("alpha".to_string()), Some("one".to_string()));
    assert!(!service.compare_and_put(
        "alpha".to_string(),
        Some("wrong".to_string()),
        "two".to_string()
    ));
    assert_eq!(service.get("alpha".to_string()), Some("one".to_string()));
    assert!(service.compare_and_put(
        "alpha".to_string(),
        Some("one".to_string()),
        "two".to_string()
    ));
    assert_eq!(service.get("alpha".to_string()), Some("two".to_string()));
}

#[test]
fn kv_service_get_or_put_returns_existing_or_inserted_value() {
    let mut service = KvService::new();

    assert_eq!(
        service.get_or_put("alpha".to_string(), "one".to_string()),
        "one".to_string()
    );
    assert_eq!(
        service.get_or_put("alpha".to_string(), "two".to_string()),
        "one".to_string()
    );
    assert_eq!(service.get("alpha".to_string()), Some("one".to_string()));
    assert_eq!(service.len(), 1);
}

#[test]
fn kv_service_keys_are_sorted_owned_values() {
    let mut service = KvService::new();

    service.put("gamma".to_string(), "three".to_string());
    service.put("alpha".to_string(), "one".to_string());
    service.put("beta".to_string(), "two".to_string());

    assert_eq!(
        service.keys(),
        vec!["alpha".to_string(), "beta".to_string(), "gamma".to_string()]
    );
}

#[test]
fn kv_service_delete_keeps_other_keys() {
    let mut service = KvService::new();
    service.put(text("a"), text("1"));
    service.put(text("b"), text("2"));
    service.put(text("c"), text("3"));
    assert_eq!(service.delete(text("a")), Some(text("1")));
    assert_eq!(service.delete(text("a")), None);
    assert_eq!(service.get(text("b")), Some(text("2")));
    assert_eq!(service.get(text("c")), Some(text("3")));
    assert!(!service.compare_and_put(text("b"), None, text("9")));
    assert!(!service.compare_and_put(text("x"), Some(text("1")), text("9")));
}

// Serving commands.

fn kv_request(command: KvCommand, reply: u32) -> Request<KvCommand, u32> {
    Request { command, reply }
}

#[test]
fn kv_shard_serves_until_stop() {
    let mut service = KvService::new();
    let run = run_kv_shard(
        &mut service,
        vec![
            kv_request(KvCommand::Put { key: text("k"), value: text("v") }, 1),
            kv_request(KvCommand::Get { key: text("other") }, 2),
            kv_request(KvCommand::Get { key: text("k") }, 3),
            kv_request(KvCommand::Len, 4),
            kv_request(KvCommand::Keys, 5),
            kv_request(KvCommand::Stop, 6),
            kv_request(KvCommand::Delete { key: text("k") }, 7),
        ],
    );
    assert!(run.stopped);
    assert_eq!(run.answered.iter().map(|pair| pair.0).collect::<Vec<_>>(), vec![1, 2, 3, 4, 5, 6]);
    assert!(matches!(run.answered[0].1, KvResponse::Done));
    assert!(matches!(run.answered[1].1, KvResponse::Value(None)));
    assert!(matches!(&run.answered[2].1, KvResponse::Value(Some(v)) if v == "v"));
    assert!(matches!(run.answered[3].1, KvResponse::Len(1)));
    assert!(matches!(&run.answered[4].1, KvResponse::Keys(keys) if keys == &vec![text("k")]));
    assert!(matches!(run.answered[5].1, KvResponse::Done));
    assert_eq!(run.dropped.len(), 1);
    assert_eq!(run.dropped[0].reply, 7);
    assert_eq!(service.get(text("k")), Some(text("v")));
}

#[test]
fn kv_shard_without_stop_goes_on() {
    let mut service = KvService::new();
    let run = run_kv_shard(
        &mut service,
        vec![
            kv_request(KvCommand::GetOrPut { key: text("k"), value: text("1") }, 1),
            kv_request(
                KvCommand::CompareAndPut {
                    key: text("k"),
                    expected: Some(text("1")),
                    value: text("2"),
                },
                2,
            ),
            kv_request(
                KvCommand::CompareAndPut {
                    key: text("k"),
                    expected: Some(text("1")),
                    value: text("3"),
                },
                3,
            ),
            kv_request(KvCommand::Delete { key: text("k") }, 4),
            kv_request(KvCommand::Get { key: text("k") }, 5),
        ],
    );
    assert!(!run.stopped);
    assert!(run.dropped.is_empty());
    assert!(matches!(&run.answered[0].1, KvResponse::Stored(v) if v == "1"));
    assert!(matches!(run.answered[1].1, KvResponse::Replaced(true)));
    assert!(matches!(run.answered[2].1, KvResponse::Replaced(false)));
    assert!(matches!(&run.answered[3].1, KvResponse::Value(Some(v)) if v == "2"));
    assert!(matches!(run.answered[4].1, KvResponse::Value(None)));
}

// A sharded store whose shards are served by the test.

struct Cluster {
    kv: ShardedKv<usize>,
    stores: Vec<KvService>,
    replies: Vec<Reply<KvResponse>>,
}

impl Cluster {
    fn start(shards: usize, capacity: usize) -> Self {
        let config = ShardedKvConfig::new(shards).with_mailbox_capacity(capacity);
        Cluster {
            kv: ShardedKv::start_with_config(config).unwrap(),
            stores: (0..shards).map(|_| KvService::new()).collect(),
            replies: Vec::new(),
        }
    }

    fn slot(&mut self) -> usize {
        self.replies.push(Reply::new());
        self.replies.len() - 1
    }

    fn serve(&mut self) {
        for shard in 0..self.stores.len() {
            while let Some(request) = self.kv.service.recv(ShardId(shard)) {
                let run = run_kv_shard(&mut self.stores[shard], vec![request]);
                for (slot, response) in run.answered {
                    self.replies[slot].deliver(response);
                }
                if run.stopped {
                    for request in self.kv.service.close(ShardId(shard)) {
                        self.replies[request.reply].disconnect();
                    }
                }
            }
        }
    }

    fn take(&mut self, slot: usize) -> Result<KvResponse, ShardError> {
        self.serve();
        let reply = core::mem::replace(&mut self.replies[slot], Reply::new());
        reply.wait_timeout()
    }

    fn put(&mut self, key: &str, value: &str) -> Result<(), ShardError> {
        let slot = self.slot();
        self.kv.submit_put(text(key), text(value), slot)?;
        self.take(slot).map(|_| ())
    }

    fn get(&mut self, key: &str) -> Result<Option<String>, ShardError> {
        let slot = self.slot();
        self.kv.submit_get(text(key), slot)?;
        match self.take(slot)? {
            KvResponse::Value(value) => Ok(value),
            _ => panic!("a get is answered with a value"),
        }
    }

    fn delete(&mut self, key: &str) -> Result<Option<String>, ShardError> {
        let slot = self.slot();
        self.kv.submit_delete(text(key), slot)?;
        match self.take(slot)? {
            KvResponse::Value(value) => Ok(value),
            _ => panic!("a delete is answered with a value"),
        }
    }

    fn len_replies(&mut self) -> Vec<Reply<usize>> {
        let slots = (0..self.stores.len()).map(|_| self.slot()).collect::<Vec<_>>();
        let begun = self.kv.submit_total_len(slots.clone()).unwrap();
        send_all(begun, &mut self.kv.service);
        slots
            .into_iter()
            .map(|slot| match self.take(slot) {
                Ok(KvResponse::Len(len)) => delivered(len),
                _ => panic!("a length request is answered with a length"),
            })
            .collect()
    }
}

#[test]
fn sharded_kv_reads_what_was_put() {
    let mut cluster = Cluster::start(2, 4);
    cluster.put("alpha", "one").unwrap();
    assert_eq!(cluster.get("alpha").unwrap(), Some(text("one")));
    assert_eq!(cluster.get("beta").unwrap(), None);
    cluster.put("alpha", "two").unwrap();
    assert_eq!(cluster.get("alpha").unwrap(), Some(text("two")));
    assert_eq!(cluster.delete("alpha").unwrap(), Some(text("two")));
    assert_eq!(cluster.get("alpha").unwrap(), None);
}

#[test]
fn sharded_kv_is_one_map() {
    let mut cluster = Cluster::start(3, 8);
    let keys = (0..20).map(|i| format!("key-{i:02}")).collect::<Vec<_>>();
    for key in &keys {
        cluster.put(key, "v").unwrap();
    }
    for (shard, store) in cluster.stores.iter().enumerate() {
        for key in store.keys() {
            assert_eq!(cluster.kv.shard_for_key(&key), ShardId(shard));
        }
    }
    let lens = cluster.len_replies();
    assert_eq!(KvTotalLenReply::new(lens).wait(), Ok(20));
    let lists = cluster.stores.iter().map(|store| delivered(store.keys())).collect::<Vec<_>>();
    assert_eq!(KvAllKeysReply::new(lists).wait(), Ok(keys));
    let numbered = cluster
        .len_replies()
        .into_iter()
        .enumerate()
        .map(|(i, reply)| (ShardId(i), reply))
        .collect::<Vec<_>>();
    let snapshots = KvShardSnapshotsReply::new(numbered).wait().unwrap();
    assert_eq!(snapshots.len(), 3);
    for (i, snapshot) in snapshots.iter().enumerate() {
        assert_eq!(
            *snapshot,
            ShardSnapshot { shard_id: ShardId(i), len: cluster.stores[i].len() }
        );
    }
}

#[test]
fn stopped_sharded_kv_refuses_commands() {
    let mut cluster = Cluster::start(1, 2);
    assert!(!cluster.kv.runtime_snapshot().stopped);
    assert!(cluster.kv.begin_shutdown());
    assert!(!cluster.kv.begin_shutdown());
    let snapshot = cluster.kv.runtime_snapshot();
    assert_eq!(
        (snapshot.shard_count, snapshot.mailbox_capacity, snapshot.stopped),
        (1, 2, true)
    );
    assert_eq!(cluster.get("alpha"), Err(ShardError::ShardStopped));
    assert_eq!(
        cluster.kv.try_submit_len_on_shard(ShardId(0), 0),
        Err(ShardError::ShardStopped)
    );
    assert!(matches!(cluster.kv.submit_total_len(vec![0]), Err(ShardError::ShardStopped)));
    let slot = cluster.slot();
    assert_eq!(cluster.kv.send_stop(ShardId(0), slot), Ok(()));
    assert!(matches!(cluster.take(slot), Ok(KvResponse::Done)));
    assert_eq!(cluster.kv.send_stop(ShardId(0), slot), Err(ShardError::ShardStopped));
}

#[test]
fn sharded_kv_rejects_unknown_shards() {
    let mut cluster = Cluster::start(2, 2);
    assert_eq!(
        cluster.kv.submit_len_on_shard(ShardId(2), 0),
        Err(ShardError::InvalidShardId(2))
    );
    assert_eq!(
        cluster.kv.try_submit_keys_on_shard(ShardId(9), 0),
        Err(ShardError::InvalidShardId(9))
    );
}

#[test]
fn requests_to_all_shards_stop_at_the_first_refusal() {
    let mut kv = ShardedKv::<u32>::start_with_config(ShardedKvConfig::new(3).with_mailbox_capacity(1))
        .unwrap();
    kv.try_submit_len_on_shard(ShardId(1), 0).unwrap();
    assert_eq!(kv.try_submit_all_keys(vec![1, 2, 3]), Err(ShardError::MailboxFull));
    assert_eq!(kv.service.recv(ShardId(0)).map(|request| request.reply), Some(1));
    assert_eq!(kv.service.recv(ShardId(1)).map(|request| request.reply), Some(0));
    assert!(kv.service.recv(ShardId(2)).is_none());
}

#[test]
fn kv_try_methods_return_mailbox_full_without_waiting_for_capacity() {
    let mut kv =
        ShardedKv::<u32>::start_with_config(ShardedKvConfig::new(1).with_mailbox_capacity(1))
            .unwrap();

    // The shard is busy, and its mailbox holds one command.
    kv.try_submit_len_on_shard(ShardId(0), 0).unwrap();
    assert!(!kv.service.is_ready(ShardId(0)));
    assert!(!kv.is_ready_for_key("alpha"));

    assert_eq!(
        kv.try_submit_put("alpha".to_string(), "one".to_string(), 1),
        Err(ShardError::MailboxFull)
    );
    assert_eq!(kv.try_submit_get("alpha".to_string(), 2), Err(ShardError::MailboxFull));
    assert_eq!(kv.try_submit_delete("alpha".to_string(), 3), Err(ShardError::MailboxFull));
    assert_eq!(
        kv.try_submit_len_on_shard(ShardId(0), 4),
        Err(ShardError::MailboxFull)
    );
    assert_eq!(kv.try_submit_total_len(vec![5]), Err(ShardError::MailboxFull));
}

#[test]
fn reply_wait_timeout_returns_timeout_when_shard_has_not_replied() {
    let mut kv =
        ShardedKv::<u32>::start_with_config(ShardedKvConfig::new(1).with_mailbox_capacity(2))
            .unwrap();
    let reply: Reply<usize> = Reply::new();

    kv.submit_len_on_shard(ShardId(0), 0).unwrap();

    assert_eq!(reply.wait_timeout(), Err(ShardError::ReplyTimeout));
}

#[test]
fn gathered_replies_fail_with_the_first_failure() {
    let total = |replies| KvTotalLenReply::new(replies).wait_timeout();
    assert_eq!(total(vec![delivered(1), delivered(2)]), Ok(3));
    assert_eq!(total(Vec::new()), Ok(0));
    assert_eq!(
        total(vec![delivered(1), failed(), Reply::new()]),
        Err(ShardError::ReplyFailed)
    );
    assert_eq!(
        total(vec![delivered(1), Reply::new(), failed()]),
        Err(ShardError::ReplyTimeout)
    );
    assert_eq!(
        KvTotalLenReply::new(vec![failed(), Reply::new()]).wait(),
        Err(ShardError::ReplyFailed)
    );
}

#[test]
fn multi_key_replies_keep_the_input_order() {
    let pairs = || {
        vec![
            (text("b"), delivered(Some(text("2")))),
            (text("a"), delivered(None)),
        ]
    };
    let expected = vec![(text("b"), Some(text("2"))), (text("a"), None)];
    assert_eq!(KvGetManyReply::new(pairs()).wait(), Ok(expected.clone()));
    assert_eq!(KvGetManyReply::new(pairs()).wait_timeout(), Ok(expected.clone()));
    assert_eq!(KvDeleteManyReply::new(pairs()).wait(), Ok(expected.clone()));
    assert_eq!(KvDeleteManyReply::new(pairs()).wait_timeout(), Ok(expected));
    let mut late = pairs();
    late.push((text("c"), Reply::new()));
    assert_eq!(KvGetManyReply::new(late).wait_timeout(), Err(ShardError::ReplyTimeout));
}

#[test]
fn all_keys_are_merged_in_order() {
    let reply = KvAllKeysReply::new(vec![
        delivered(vec![text("b"), text("d")]),
        delivered(Vec::new()),
        delivered(vec![text("a"), text("c")]),
    ]);
    assert_eq!(reply.wait(), Ok(vec![text("a"), text("b"), text("c"), text("d")]));
    let reply = KvAllKeysReply::new(vec![delivered(vec![text("b")]), Reply::new()]);
    assert_eq!(reply.wait_timeout(), Err(ShardError::ReplyTimeout));
}

// Counter.

#[test]
fn counter_service_adds_and_gets_values() {
    let mut service = CounterService::default();

    assert_eq!(service.get(), 0);
    assert_eq!(service.add(5), 5);
    assert_eq!(service.add(-2), 3);
    assert_eq!(service.get(), 3);
}

#[test]
fn counter_shard_serves_until_stop() {
    let mut service = CounterService::default();
    let run = run_counter_shard(
        &mut service,
        vec![
            Request { command: CounterCommand::Add { delta: 5 }, reply: 1 },
            Request { command: CounterCommand::Get, reply: 2 },
            Request { command: CounterCommand::Stop, reply: 3 },
            Request { command: CounterCommand::Add { delta: 1 }, reply: 4 },
        ],
    );
    assert_eq!(
        run.answered,
        vec![
            (1, CounterResponse::Value(5)),
            (2, CounterResponse::Value(5)),
            (3, CounterResponse::Done),
        ]
    );
    assert!(run.stopped);
    assert_eq!(run.dropped.len(), 1);
    assert_eq!(service.get(), 5);
    assert!(service.can_apply(&CounterCommand::Add { delta: i64::MAX - 5 }));
    assert!(!service.can_apply(&CounterCommand::Add { delta: i64::MAX - 4 }));
}

#[test]
fn counter_try_methods_return_mailbox_full_without_waiting_for_capacity() {
    let mut counter = ShardedCounter::<u32>::start_with_config(
        ShardedCounterConfig::new(1).with_mailbox_capacity(1),
    )
    .unwrap();

    // The shard is busy, and its mailbox holds one command.
    counter.try_submit_get_on_shard(ShardId(0), 0).unwrap();

    assert_eq!(
        counter.try_submit_add_on_shard(ShardId(0), 1, 1),
        Err(ShardError::MailboxFull)
    );
    assert_eq!(
        counter.try_submit_get_on_shard(ShardId(0), 2),
        Err(ShardError::MailboxFull)
    );
    assert_eq!(counter.try_submit_total(vec![3]), Err(ShardError::MailboxFull));
    assert_eq!(counter.try_submit_shard_snapshots(vec![4]), Err(ShardError::MailboxFull));
}

#[test]
fn counter_reply_wait_timeout_returns_timeout_when_shard_has_not_replied() {
    let mut counter = ShardedCounter::<u32>::start_with_config(
        ShardedCounterConfig::new(1).with_mailbox_capacity(2),
    )
    .unwrap();
    let reply: Reply<i64> = Reply::new();

    counter.submit_get_on_shard(ShardId(0), 0).unwrap();

    assert_eq!(reply.wait_timeout(), Err(ShardError::ReplyTimeout));
}

#[test]
fn counter_total_reply_wait_timeout_returns_timeout_when_shard_has_not_replied() {
    let mut counter = ShardedCounter::<u32>::start_with_config(
        ShardedCounterConfig::new(1).with_mailbox_capacity(2),
    )
    .unwrap();

    let begun = counter.submit_total(vec![0]).unwrap();
    send_all(begun, &mut counter.service);
    let reply = CounterTotalReply::new(vec![Reply::new()]);

    assert_eq!(reply.wait_timeout(), Err(ShardError::ReplyTimeout));
}

#[test]
fn counter_total_and_snapshots_come_from_every_shard() {
    let mut counter = ShardedCounter::<usize>::start(2).unwrap();
    assert_eq!(counter.shard_count(), 2);
    assert_eq!(counter.mailbox_capacity(), DEFAULT_MAILBOX_CAPACITY);
    counter.submit_add_on_shard(ShardId(0), 7, 0).unwrap();
    counter.submit_add_on_shard(ShardId(1), -3, 1).unwrap();
    let begun = counter.submit_total(vec![2, 3]).unwrap();
    send_all(begun, &mut counter.service);
    let mut values = vec![0i64; 4];
    for shard in 0..2 {
        let mut service = CounterService::default();
        while let Some(request) = counter.service.recv(ShardId(shard)) {
            for (slot, response) in run_counter_shard(&mut service, vec![request]).answered {
                match response {
                    CounterResponse::Value(value) => values[slot] = value,
                    CounterResponse::Done => unreachable!(),
                }
            }
        }
    }
    assert_eq!(values, vec![7, -3, 7, -3]);
    let total = CounterTotalReply::new(vec![delivered(values[2]), delivered(values[3])]);
    assert_eq!(total.wait(), Ok(4));
    let snapshots = CounterShardSnapshotsReply::new(vec![
        (ShardId(0), delivered(values[2])),
        (ShardId(1), delivered(values[3])),
    ]);
    assert_eq!(
        snapshots.wait(),
        Ok(vec![
            CounterShardSnapshot { shard_id: ShardId(0), value: 7 },
            CounterShardSnapshot { shard_id: ShardId(1), value: -3 },
        ])
    );
    let late = CounterShardSnapshotsReply::new(vec![(ShardId(0), Reply::new())]);
    assert_eq!(late.wait_timeout(), Err(ShardError::ReplyTimeout));
}

// Streams.

#[test]
fn stream_reply_collects_all_values() {
    let (mut state, sender, reply) = stream_channel::<i32, ()>();

    sender.send(&mut state, 1).result.unwrap();
    sender.send(&mut state, 2).result.unwrap();
    sender.send(&mut state, 3).result.unwrap();
    sender.close(&mut state);

    let result = reply.collect(&mut state).unwrap();
    assert_eq!(result, vec![1, 2, 3]);
}

#[test]
fn stream_reply_recv_batch_limits_items() {
    let (mut state, sender, mut reply) = stream_channel::<i32, ()>();

    sender.send(&mut state, 1).result.unwrap();
    sender.send(&mut state, 2).result.unwrap();
    sender.send(&mut state, 3).result.unwrap();
    sender.send(&mut state, 4).result.unwrap();
    sender.close(&mut state);

    let batch = reply.recv_batch(&mut state, 2).unwrap();
    assert_eq!(batch, vec![1, 2]);

    let batch = reply.recv_batch(&mut state, 2).unwrap();
    assert_eq!(batch, vec![3, 4]);

    let batch = reply.recv_batch(&mut state, 10).unwrap();
    assert!(batch.is_empty());
    assert_eq!(sender.send(&mut state, 5).result, Err(StreamError::ReceiverDropped));
}

#[test]
fn stream_reply_recv_returns_none_after_completion() {
    let (mut state, sender, mut reply) = stream_channel::<i32, ()>();

    sender.send(&mut state, 42).result.unwrap();
    sender.close(&mut state);

    assert_eq!(reply.recv(&mut state).unwrap(), Some(42));
    assert_eq!(reply.recv(&mut state).unwrap(), None);
}

#[test]
fn stream_reply_fold_accumulates_all_values() {
    let (mut state, sender, reply) = stream_channel::<i32, ()>();

    sender.send(&mut state, 1).result.unwrap();
    sender.send(&mut state, 2).result.unwrap();
    sender.send(&mut state, 3).result.unwrap();
    sender.close(&mut state);

    let sum = reply.fold(&mut state, 0, |acc, v| acc + v).unwrap();
    assert_eq!(sum, 6);
}

#[test]
fn stream_reply_handles_empty_stream() {
    let (mut state, sender, reply) = stream_channel::<i32, ()>();
    sender.close(&mut state);

    let result = reply.collect(&mut state).unwrap();
    assert!(result.is_empty());
}

#[test]
fn stream_sender_rejects_after_receiver_drop() {
    let (mut state, sender, reply) = stream_channel::<i32, ()>();
    reply.release(&mut state);

    assert_eq!(sender.send(&mut state, 1).result, Err(StreamError::ReceiverDropped));
}

#[test]
fn stream_future_integrates_with_executor_waker() {
    let (mut state, sender, reply) = stream_channel::<i32, &str>();
    let mut future = reply.into_async();

    assert!(matches!(future.poll(&mut state, "reader"), StreamPoll::Pending));
    assert_eq!(sender.send(&mut state, 10).wake, Some("reader"));
    assert_eq!(sender.send(&mut state, 20).wake, None);
    assert_eq!(sender.close(&mut state), None);

    match future.poll(&mut state, "reader") {
        StreamPoll::Ready(Ok(Some(result))) => assert_eq!(result, vec![10, 20]),
        _ => panic!("the values are there"),
    }
}

#[test]
fn stream_future_handles_empty_stream() {
    let (mut state, sender, reply) = stream_channel::<i32, &str>();
    let mut future = reply.into_async();
    assert!(matches!(future.poll(&mut state, "reader"), StreamPoll::Pending));
    assert_eq!(sender.close(&mut state), Some("reader"));

    match future.poll(&mut state, "reader") {
        StreamPoll::Ready(result) => assert_eq!(result.unwrap(), None),
        StreamPoll::Pending => panic!("the stream is exhausted"),
    }
}

#[test]
fn stream_try_recv_tells_a_pause_from_the_end() {
    let producer = StreamProducer::<i32, ()>::new();
    let (mut state, sender, mut reply) = (producer.state, producer.sender, producer.reply);
    assert!(reply.must_wait(&state));
    assert_eq!(reply.try_recv(&mut state, 8), Ok(None));
    sender.send(&mut state, 1).result.unwrap();
    sender.send(&mut state, 2).result.unwrap();
    assert_eq!(reply.try_recv(&mut state, 1), Ok(Some(vec![1])));
    sender.close(&mut state);
    assert!(!reply.is_done(&state));
    assert_eq!(reply.try_recv(&mut state, 8), Ok(Some(vec![2])));
    assert!(reply.is_done(&state));
    assert_eq!(reply.try_recv(&mut state, 8), Err(StreamError::SenderDropped));
}

#[test]
fn stream_errors_have_texts() {
    assert_eq!(StreamError::SenderDropped.message(), "stream sender dropped unexpectedly");
    assert_eq!(StreamError::ReceiverDropped.message(), "stream receiver dropped early");
}

#[test]
fn reply_state_tells_a_reply_from_a_failure() {
    let mut reply = Reply::new();
    assert!(!reply.is_settled());
    reply.disconnect();
    reply.deliver(1u8);
    assert!(reply.is_settled());
    assert_eq!(reply.try_wait(), Err(ShardError::ReplyFailed));
}

#[test]
fn reply_outlives_its_sender() {
    let mut reply = Reply::new();
    reply.deliver(1u8);
    reply.disconnect();
    assert!(reply.is_settled());
    assert_eq!(reply.try_wait(), Ok(Some(1)));
    assert_eq!(reply.try_wait(), Err(ShardError::ReplyFailed));
}

#[test]
fn requests_to_all_shards_wait_for_each_mailbox_in_turn() {
    let mut counter = ShardedCounter::<u32>::start_with_config(
        ShardedCounterConfig::new(3).with_mailbox_capacity(1),
    )
    .unwrap();
    counter.submit_add_on_shard(ShardId(1), 1, 10).unwrap();
    let mut begun = counter.submit_total(vec![0, 1, 2]).unwrap();

    assert!(begun.is_ready(&counter.service));
    begun.advance(&mut counter.service).unwrap();
    assert!(!begun.is_ready(&counter.service));
    assert_eq!(counter.service.recv(ShardId(0)).unwrap().reply, 0);
    assert!(!begun.is_ready(&counter.service));
    assert_eq!(counter.service.recv(ShardId(1)).unwrap().reply, 10);
    begun.advance(&mut counter.service).unwrap();
    assert_eq!(counter.service.recv(ShardId(1)).unwrap().reply, 1);

    counter.service.close(ShardId(2));
    assert!(begun.is_ready(&counter.service));
    assert_eq!(begun.advance(&mut counter.service), Err(ShardError::SendFailed));
    assert!(begun.is_done());
}

#[test]
fn commands_reach_the_shard_that_owns_the_key() {
    let mut kv = ShardedKv::<u32>::start(3).unwrap();
    let owner = kv.shard_for_key("alpha");
    let key = || text("alpha");
    kv.submit_put(key(), text("1"), 1).unwrap();
    kv.submit_compare_and_put(key(), None, text("2"), 2).unwrap();
    kv.try_submit_compare_and_put(key(), Some(text("1")), text("3"), 3).unwrap();
    kv.submit_get_or_put(key(), text("4"), 4).unwrap();
    kv.try_submit_get_or_put(key(), text("5"), 5).unwrap();
    kv.submit_keys_on_shard(owner, 6).unwrap();
    let mut store = KvService::new();
    let mut requests = Vec::new();
    while let Some(request) = kv.service.recv(owner) {
        requests.push(request);
    }
    let run = run_kv_shard(&mut store, requests);
    assert_eq!(
        run.answered.iter().map(|pair| pair.0).collect::<Vec<_>>(),
        vec![1, 2, 3, 4, 5, 6]
    );
    assert!(matches!(run.answered[1].1, KvResponse::Replaced(false)));
    assert!(matches!(run.answered[2].1, KvResponse::Replaced(true)));
    assert!(matches!(&run.answered[3].1, KvResponse::Stored(value) if value == "3"));
    assert!(matches!(&run.answered[5].1, KvResponse::Keys(keys) if keys.len() == 1));
    let begun = kv.submit_all_keys(vec![7, 8, 9]).unwrap();
    send_all(begun, &mut kv.service);
    for shard in 0..3 {
        let request = kv.service.recv(ShardId(shard)).unwrap();
        assert!(matches!(request.command, KvCommand::Keys));
        assert_eq!(request.reply, 7 + shard as u32);
    }
}

#[test]
fn async_handles_lend_their_services() {
    let mut owned = OwnedAsyncShardedKv::<u32>::start(2).unwrap();
    assert_eq!(owned.as_async().inner().shard_count(), 2);
    assert_eq!(owned.inner().mailbox_capacity(), DEFAULT_MAILBOX_CAPACITY);
    assert!(owned.release());
    assert!(!owned.release());
    let kv = owned.into_inner();
    assert!(AsyncShardedKv::new(&kv).inner().runtime_snapshot().stopped);
    assert_eq!(
        OwnedAsyncShardedKv::<u32>::start(0).err(),
        Some(ShardError::InvalidShardCount)
    );
    let counter = ShardedCounter::<u32>::start(1).unwrap();
    assert_eq!(AsyncShardedCounter::new(&counter).inner().shard_count(), 1);
}

#[test]
fn commands_wait_for_room_in_the_mailbox_of_their_key() {
    let config = ShardedKvConfig::new(1).with_mailbox_capacity(1);
    let mut kv = ShardedKv::<u32>::start_with_config(config).unwrap();
    let put = KvCommand::Put { key: text("k"), value: text("v") };
    assert!(matches!(kv.submit_if_ready(put, 1), Ok(Ok(()))));
    let get = KvCommand::Get { key: text("k") };
    let waiting = match kv.submit_if_ready(get, 2) {
        Err(request) => request,
        Ok(_) => panic!("the mailbox is full"),
    };
    assert_eq!(waiting.reply, 2);
    assert_eq!(kv.service.recv(ShardId(0)).map(|request| request.reply), Some(1));
    assert!(matches!(kv.submit_if_ready(waiting.command, waiting.reply), Ok(Ok(()))));
    kv.begin_shutdown();
    for command in [
        KvCommand::Delete { key: text("k") },
        KvCommand::GetOrPut { key: text("k"), value: text("v") },
        KvCommand::CompareAndPut { key: text("k"), expected: None, value: text("v") },
    ] {
        assert!(matches!(
            kv.submit_if_ready(command, 3),
            Ok(Err(ShardError::ShardStopped))
        ));
    }
}
