//! Typed reply handles for key-value store operations.

use vstd::prelude::*;

use crate::error::ShardError;
use crate::kv::store::lemma_sorted_keeps;
use crate::runtime::{Reply, ReplyState};
use crate::service::{
    gather, gather_keyed, gathered, gathers_all_or_the_first_failure, keyed, keyed_states, settles,
    states,
};
use crate::shard::{ShardId, ShardSnapshot};
use crate::strings::{is_sorted, sort_strings, sorted_texts_never_step_back, text_le, texts};

verus! {

/// Reply handle for an accepted key-value command.
pub type KvReply<T> = Reply<T>;

/// The sum of lengths.
pub open spec fn total(lens: Seq<usize>) -> nat
    decreases lens.len(),
{
    if lens.len() == 0 {
        0
    } else {
        total(lens.drop_last()) + lens.last() as nat
    }
}

proof fn lemma_total_grows(lens: Seq<usize>, n: int)
    requires
        0 <= n <= lens.len(),
    ensures
        total(lens.take(n)) <= total(lens),
    decreases lens.len(),
{
    if n < lens.len() {
        assert(lens.drop_last().take(n) =~= lens.take(n));
        lemma_total_grows(lens.drop_last(), n);
    } else {
        assert(lens.take(n) =~= lens);
    }
}

/// What the replies to a length request come to.
pub open spec fn total_of(states: Seq<ReplyState<usize>>) -> Result<nat, ShardError> {
    match gathered(states) {
        Ok(lens) => Ok(total(lens)),
        Err(error) => Err(error),
    }
}

/// Reply handle for a total length request across all shards.
pub struct KvTotalLenReply {
    /// The replies, by shard.
    pub replies: Vec<KvReply<usize>>,
}

impl KvTotalLenReply {
    /// Gathers the replies of all shards.
    pub fn new(replies: Vec<KvReply<usize>>) -> (reply: Self)
        ensures
            reply.replies == replies,
    {
        KvTotalLenReply { replies }
    }

    /// Returns the sum of the lengths, once the wait for them is over.
    pub fn wait(self) -> (result: Result<usize, ShardError>)
        requires
            settles(states(self.replies@)),
            total_of(states(self.replies@)) matches Ok(sum) ==> sum <= usize::MAX,
        ensures
            match total_of(states(self.replies@)) {
                Ok(sum) => result is Ok && result->Ok_0 == sum,
                Err(error) => result == Err::<usize, ShardError>(error),
            },
    {
        self.wait_timeout()
    }

    /// Returns the sum of the lengths, or a timeout where one has not come in
    /// time.
    pub fn wait_timeout(self) -> (result: Result<usize, ShardError>)
        requires
            total_of(states(self.replies@)) matches Ok(sum) ==> sum <= usize::MAX,
        ensures
            match total_of(states(self.replies@)) {
                Ok(sum) => result is Ok && result->Ok_0 == sum,
                Err(error) => result == Err::<usize, ShardError>(error),
            },
    {
        let lens = match gather(self.replies) {
            Ok(lens) => lens,
            Err(error) => {
                return Err(error);
            },
        };
        let mut sum: usize = 0;
        let mut i: usize = 0;
        assert(lens@.take(0) =~= Seq::empty());
        while i < lens.len()
            invariant
                i <= lens.len(),
                sum == total(lens@.take(i as int)),
                total(lens@) <= usize::MAX,
            decreases lens.len() - i,
        {
            proof {
                assert(lens@.take(i + 1).drop_last() =~= lens@.take(i as int));
                lemma_total_grows(lens@, i + 1);
            }
            sum = sum + lens[i];
            i = i + 1;
        }
        assert(lens@.take(lens@.len() as int) =~= lens@);
        Ok(sum)
    }
}

/// Summaries made of numbered lengths.
pub open spec fn snapshots(pairs: Seq<(ShardId, usize)>) -> Seq<ShardSnapshot> {
    pairs.map_values(|pair: (ShardId, usize)| ShardSnapshot { shard_id: pair.0, len: pair.1 })
}

/// Reply handle for a per-shard snapshot request.
pub struct KvShardSnapshotsReply {
    /// The replies, each with its shard.
    pub replies: Vec<(ShardId, KvReply<usize>)>,
}

impl KvShardSnapshotsReply {
    /// Gathers the replies of all shards.
    pub fn new(replies: Vec<(ShardId, KvReply<usize>)>) -> (reply: Self)
        ensures
            reply.replies == replies,
    {
        KvShardSnapshotsReply { replies }
    }

    /// What the replies come to: the summaries in the order of the replies.
    pub open spec fn outcome(&self) -> Result<Seq<ShardSnapshot>, ShardError> {
        match gathered(keyed_states(self.replies@)) {
            Ok(lens) => Ok(snapshots(keyed(self.replies@, lens))),
            Err(error) => Err(error),
        }
    }

    /// Returns the summaries in shard order, once the wait for them is over.
    pub fn wait(self) -> (result: Result<Vec<ShardSnapshot>, ShardError>)
        requires
            settles(keyed_states(self.replies@)),
        ensures
            match result {
                Ok(list) => self.outcome() == Ok::<Seq<ShardSnapshot>, ShardError>(list@),
                Err(error) => self.outcome() == Err::<Seq<ShardSnapshot>, ShardError>(error),
            },
    {
        self.wait_timeout()
    }

    /// Returns the summaries in shard order, or a timeout where one has not come
    /// in time.
    pub fn wait_timeout(self) -> (result: Result<Vec<ShardSnapshot>, ShardError>)
        ensures
            match result {
                Ok(list) => self.outcome() == Ok::<Seq<ShardSnapshot>, ShardError>(list@),
                Err(error) => self.outcome() == Err::<Seq<ShardSnapshot>, ShardError>(error),
            },
    {
        let pairs = match gather_keyed(self.replies) {
            Ok(pairs) => pairs,
            Err(error) => {
                return Err(error);
            },
        };
        let mut list: Vec<ShardSnapshot> = Vec::new();
        let mut i: usize = 0;
        while i < pairs.len()
            invariant
                i <= pairs.len(),
                list@ == snapshots(pairs@.take(i as int)),
            decreases pairs.len() - i,
        {
            list.push(ShardSnapshot { shard_id: pairs[i].0, len: pairs[i].1 });
            i = i + 1;
            assert(list@ =~= snapshots(pairs@.take(i as int)));
        }
        assert(pairs@.take(pairs@.len() as int) =~= pairs@);
        Ok(list)
    }
}

/// The keys of all lists, one list behind the other.
pub open spec fn all_texts(lists: Seq<Vec<String>>) -> Seq<Seq<char>>
    decreases lists.len(),
{
    if lists.len() == 0 {
        Seq::empty()
    } else {
        all_texts(lists.drop_last()) + texts(lists.last()@)
    }
}

/// Whether `keys` are the keys of all lists in order.
pub open spec fn merges(keys: Seq<Seq<char>>, lists: Seq<Vec<String>>) -> bool {
    is_sorted(keys) && keys.to_multiset() == all_texts(lists).to_multiset()
}

/// Reply handle for an all-keys request across all shards.
pub struct KvAllKeysReply {
    /// The replies, by shard.
    pub replies: Vec<KvReply<Vec<String>>>,
}

impl KvAllKeysReply {
    /// Gathers the replies of all shards.
    pub fn new(replies: Vec<KvReply<Vec<String>>>) -> (reply: Self)
        ensures
            reply.replies == replies,
    {
        KvAllKeysReply { replies }
    }

    /// Returns the keys of all shards in order, once the wait for them is over.
    pub fn wait(self) -> (result: Result<Vec<String>, ShardError>)
        requires
            settles(states(self.replies@)),
        ensures
            match gathered(states(self.replies@)) {
                Ok(lists) => result is Ok && merges(texts(result->Ok_0@), lists),
                Err(error) => result == Err::<Vec<String>, ShardError>(error),
            },
    {
        self.wait_timeout()
    }

    /// Returns the keys of all shards in order, or a timeout where those of one
    /// have not come in time.
    pub fn wait_timeout(self) -> (result: Result<Vec<String>, ShardError>)
        ensures
            match gathered(states(self.replies@)) {
                Ok(lists) => result is Ok && merges(texts(result->Ok_0@), lists),
                Err(error) => result == Err::<Vec<String>, ShardError>(error),
            },
    {
        let lists = match gather(self.replies) {
            Ok(lists) => lists,
            Err(error) => {
                return Err(error);
            },
        };
        let ghost all = lists@;
        let mut keys: Vec<String> = Vec::new();
        proof {
            assert(all.take(0) =~= Seq::empty());
            assert(texts(keys@) =~= all_texts(all.take(0)));
        }
        for list in it: lists
            invariant
                it.seq() == all,
                texts(keys@) == all_texts(all.take(it.index() as int)),
        {
            let mut list = list;
            let ghost before = keys@;
            let ghost i = it.index() as int;
            keys.append(&mut list);
            proof {
                assert(all.take(i + 1).drop_last() =~= all.take(i));
                assert(texts(keys@) =~= texts(before) + texts(all[i]@));
            }
        }
        assert(all.take(all.len() as int) =~= all);
        Ok(sort_strings(keys))
    }
}

/// Reply handle for a multi-key get request.
pub struct KvGetManyReply {
    /// The replies, each with its key, in the order in which the keys were given.
    pub replies: Vec<(String, KvReply<Option<String>>)>,
}

impl KvGetManyReply {
    /// Gathers the replies for several keys.
    pub fn new(replies: Vec<(String, KvReply<Option<String>>)>) -> (reply: Self)
        ensures
            reply.replies == replies,
    {
        KvGetManyReply { replies }
    }

    /// Returns keys and values in input order, once the wait for them is over.
    pub fn wait(self) -> (result: Result<Vec<(String, Option<String>)>, ShardError>)
        requires
            settles(keyed_states(self.replies@)),
        ensures
            match gathered(keyed_states(self.replies@)) {
                Ok(values) => result is Ok && result->Ok_0@ == keyed(self.replies@, values)
                    && values.len() == self.replies@.len(),
                Err(error) => result == Err::<Vec<(String, Option<String>)>, ShardError>(error),
            },
    {
        gather_keyed(self.replies)
    }

    /// Returns keys and values in input order, or a timeout where a value has not
    /// come in time.
    pub fn wait_timeout(self) -> (result: Result<Vec<(String, Option<String>)>, ShardError>)
        ensures
            match gathered(keyed_states(self.replies@)) {
                Ok(values) => result is Ok && result->Ok_0@ == keyed(self.replies@, values)
                    && values.len() == self.replies@.len(),
                Err(error) => result == Err::<Vec<(String, Option<String>)>, ShardError>(error),
            },
    {
        gather_keyed(self.replies)
    }
}

/// Reply handle for a multi-key delete request.
pub struct KvDeleteManyReply {
    /// The replies, each with its key, in the order in which the keys were given.
    pub replies: Vec<(String, KvReply<Option<String>>)>,
}

impl KvDeleteManyReply {
    /// Gathers the replies for several keys.
    pub fn new(replies: Vec<(String, KvReply<Option<String>>)>) -> (reply: Self)
        ensures
            reply.replies == replies,
    {
        KvDeleteManyReply { replies }
    }

    /// Returns keys and previous values in input order, once the wait for them is
    /// over.
    pub fn wait(self) -> (result: Result<Vec<(String, Option<String>)>, ShardError>)
        requires
            settles(keyed_states(self.replies@)),
        ensures
            match gathered(keyed_states(self.replies@)) {
                Ok(values) => result is Ok && result->Ok_0@ == keyed(self.replies@, values)
                    && values.len() == self.replies@.len(),
                Err(error) => result == Err::<Vec<(String, Option<String>)>, ShardError>(error),
            },
    {
        gather_keyed(self.replies)
    }

    /// Returns keys and previous values in input order, or a timeout where one has
    /// not come in time.
    pub fn wait_timeout(self) -> (result: Result<Vec<(String, Option<String>)>, ShardError>)
        ensures
            match gathered(keyed_states(self.replies@)) {
                Ok(values) => result is Ok && result->Ok_0@ == keyed(self.replies@, values)
                    && values.len() == self.replies@.len(),
                Err(error) => result == Err::<Vec<(String, Option<String>)>, ShardError>(error),
            },
    {
        gather_keyed(self.replies)
    }
}

/// The merged keys are those of the lists, and none twice where the lists have
/// none in common and none twice.
pub proof fn merged_keys_are_those_listed(keys: Seq<Seq<char>>, lists: Seq<Vec<String>>)
    requires
        merges(keys, lists),
    ensures
        forall|key: Seq<char>|
            #[trigger] keys.contains(key) <==> exists|i: int|
                0 <= i < lists.len() && texts((#[trigger] lists[i])@).contains(key),
        (forall|i: int|
            0 <= i < lists.len() ==> texts((#[trigger] lists[i])@).no_duplicates()) && (forall|
            i: int,
            j: int,
            key: Seq<char>,
        |
            0 <= i < j < lists.len() && #[trigger] texts(lists[i]@).contains(key)
                ==> !(#[trigger] texts(lists[j]@).contains(key))) ==> keys.no_duplicates(),
{
    lemma_sorted_keeps(keys, all_texts(lists));
    lemma_all_texts(lists);
    assert forall|key: Seq<char>| #[trigger] keys.contains(key) <==> exists|i: int|
        0 <= i < lists.len() && texts((#[trigger] lists[i])@).contains(key) by {
        assert(keys.contains(key) == all_texts(lists).contains(key));
    }
}

proof fn lemma_all_texts(lists: Seq<Vec<String>>)
    ensures
        forall|key: Seq<char>|
            #[trigger] all_texts(lists).contains(key) <==> exists|i: int|
                0 <= i < lists.len() && texts((#[trigger] lists[i])@).contains(key),
        (forall|i: int|
            0 <= i < lists.len() ==> texts((#[trigger] lists[i])@).no_duplicates()) && (forall|
            i: int,
            j: int,
            key: Seq<char>,
        |
            0 <= i < j < lists.len() && #[trigger] texts(lists[i]@).contains(key)
                ==> !(#[trigger] texts(lists[j]@).contains(key))) ==> all_texts(
            lists,
        ).no_duplicates(),
    decreases lists.len(),
{
    if lists.len() > 0 {
        let rest = lists.drop_last();
        let n = lists.len() - 1;
        let last = texts(lists.last()@);
        lemma_all_texts(rest);
        let all = all_texts(lists);
        assert(all == all_texts(rest) + last);
        assert forall|key: Seq<char>| #[trigger] all.contains(key) <==> exists|i: int|
            0 <= i < lists.len() && texts((#[trigger] lists[i])@).contains(key) by {
            if all.contains(key) {
                let k = all.index_of(key);
                if k < all_texts(rest).len() {
                    assert(all_texts(rest)[k] == key);
                    assert(all_texts(rest).contains(key));
                    let i = choose|i: int|
                        0 <= i < rest.len() && texts((#[trigger] rest[i])@).contains(key);
                    assert(texts(lists[i]@).contains(key));
                } else {
                    assert(last[k - all_texts(rest).len()] == key);
                    assert(texts(lists[n]@).contains(key));
                }
            }
            if exists|i: int|
                0 <= i < lists.len() && texts((#[trigger] lists[i])@).contains(key) {
                let i = choose|i: int|
                    0 <= i < lists.len() && texts((#[trigger] lists[i])@).contains(key);
                if i < n {
                    assert(texts(rest[i]@).contains(key));
                    assert(all_texts(rest).contains(key));
                    let k = all_texts(rest).index_of(key);
                    assert(all[k] == key);
                } else {
                    let k = last.index_of(key);
                    assert(all[all_texts(rest).len() + k] == key);
                }
            }
        }
        if (forall|i: int| 0 <= i < lists.len() ==> texts((#[trigger] lists[i])@).no_duplicates())
            && (forall|i: int, j: int, key: Seq<char>|
            0 <= i < j < lists.len() && #[trigger] texts(lists[i]@).contains(key)
                ==> !(#[trigger] texts(lists[j]@).contains(key))) {
            assert forall|i: int| 0 <= i < rest.len() implies texts(
                (#[trigger] rest[i])@,
            ).no_duplicates() by {
                assert(texts(lists[i]@).no_duplicates());
            }
            assert forall|i: int, j: int, key: Seq<char>|
                0 <= i < j < rest.len() && #[trigger] texts(rest[i]@).contains(key) implies !(
            #[trigger] texts(rest[j]@).contains(key)) by {
                assert(texts(lists[i]@).contains(key));
                assert(!texts(lists[j]@).contains(key));
            }
            assert(texts(lists[n]@).no_duplicates());
            assert forall|a: int, b: int|
                0 <= a < all.len() && 0 <= b < all.len() && a != b implies all[a] != all[b] by {
                let m = all_texts(rest).len() as int;
                let lo = if a < b { a } else { b };
                let hi = if a < b { b } else { a };
                if lo < m && hi >= m && all[lo] == all[hi] {
                    let key = all[lo];
                    assert(all_texts(rest)[lo] == key);
                    assert(all_texts(rest).contains(key));
                    let i = choose|i: int|
                        0 <= i < rest.len() && texts((#[trigger] rest[i])@).contains(key);
                    assert(last[hi - m] == key);
                    assert(texts(lists[i]@).contains(key));
                    assert(texts(lists[n]@).contains(key));
                } else if hi < m {
                    assert(all_texts(rest)[lo] != all_texts(rest)[hi]);
                } else if lo >= m {
                    assert(last[lo - m] != last[hi - m]);
                }
            }
        }
    } else {
        assert(all_texts(lists) =~= Seq::empty());
    }
}

/// The total length is the sum of what every reply brought, or the failure of the first
/// reply that brought nothing.
pub proof fn total_len_adds_every_reply(replies: Seq<KvReply<usize>>)
    ensures
        match total_of(states(replies)) {
            Ok(sum) => {
                &&& forall|i: int| 0 <= i < replies.len() ==> (#[trigger] replies[i]).value is Some
                &&& sum == replies.fold_left(
                    0int,
                    |sum: int, reply: KvReply<usize>| sum + reply.value->0,
                )
            },
            Err(error) => exists|i: int|
                0 <= i < replies.len() && (#[trigger] replies[i]).value is None && (error
                    == if replies[i].sender_alive {
                    ShardError::ReplyTimeout
                } else {
                    ShardError::ReplyFailed
                }),
        },
{
    let all = states(replies);
    gathers_all_or_the_first_failure(all);
    match gathered(all) {
        Ok(lens) => {
            assert forall|i: int| 0 <= i < replies.len() implies #[trigger] replies[i].value == Some(
                lens[i],
            ) by {
                assert(all[i] == ReplyState::Delivered(lens[i]));
            }
            lemma_total_of_replies(replies, lens);
        },
        Err(error) => {
            let i = choose|i: int|
                0 <= i < all.len() && !(#[trigger] all[i] is Delivered) && (error
                    == if all[i] is Pending {
                    ShardError::ReplyTimeout
                } else {
                    ShardError::ReplyFailed
                });
            assert(replies[i].state() == all[i]);
        },
    }
}

proof fn lemma_total_of_replies(replies: Seq<KvReply<usize>>, lens: Seq<usize>)
    requires
        replies.len() == lens.len(),
        forall|i: int| 0 <= i < replies.len() ==> #[trigger] replies[i].value == Some(lens[i]),
    ensures
        total(lens) == replies.fold_left(
            0int,
            |sum: int, reply: KvReply<usize>| sum + reply.value->0,
        ),
    decreases replies.len(),
{
    if replies.len() > 0 {
        assert forall|i: int| 0 <= i < replies.len() - 1 implies #[trigger] replies.drop_last()[i].value
            == Some(lens.drop_last()[i]) by {
            assert(replies[i].value == Some(lens[i]));
        }
        lemma_total_of_replies(replies.drop_last(), lens.drop_last());
        assert(replies[replies.len() - 1].value == Some(lens[replies.len() - 1]));
    }
}

/// Each summary carries the length of the shard that it names: the one that its reply
/// brought. There is one summary for each shard, or the failure of a reply.
pub proof fn summaries_name_their_shards(reply: KvShardSnapshotsReply)
    ensures
        match reply.outcome() {
            Ok(list) => {
                &&& list.len() == reply.replies@.len()
                &&& forall|i: int|
                    0 <= i < list.len() ==> (#[trigger] list[i]).shard_id == reply.replies@[i].0
                        && reply.replies@[i].1.value == Some(list[i].len)
            },
            Err(error) => exists|i: int|
                0 <= i < reply.replies@.len() && (#[trigger] reply.replies@[i]).1.value is None && (
                error == if reply.replies@[i].1.sender_alive {
                    ShardError::ReplyTimeout
                } else {
                    ShardError::ReplyFailed
                }),
        },
{
    let all = keyed_states(reply.replies@);
    gathers_all_or_the_first_failure(all);
    match gathered(all) {
        Ok(lens) => {
            assert forall|i: int| 0 <= i < lens.len() implies reply.replies@[i].1.value == Some(
                #[trigger] lens[i],
            ) by {
                assert(all[i] == ReplyState::Delivered(lens[i]));
            }
        },
        Err(error) => {
            let i = choose|i: int|
                0 <= i < all.len() && !(#[trigger] all[i] is Delivered) && (error
                    == if all[i] is Pending {
                    ShardError::ReplyTimeout
                } else {
                    ShardError::ReplyFailed
                });
            assert(reply.replies@[i].1.state() == all[i]);
        },
    }
}

/// The keys of all shards come out in order, as many as all lists hold together.
pub proof fn merged_keys_are_in_order(keys: Seq<Seq<char>>, lists: Seq<Vec<String>>)
    requires
        merges(keys, lists),
    ensures
        forall|i: int|
            0 < i < keys.len() ==> text_le(keys[i - 1], #[trigger] keys[i]),
        keys.len() == lists.fold_left(0int, |sum: int, list: Vec<String>| sum + list@.len()),
        forall|key: Seq<char>|
            keys.to_multiset().count(key) == #[trigger] all_texts(lists).to_multiset().count(key),
{
    sorted_texts_never_step_back(keys);
    broadcast use vstd::seq_lib::group_to_multiset_ensures;
    assert(keys.len() == keys.to_multiset().len());
    assert(all_texts(lists).len() == all_texts(lists).to_multiset().len());
    lemma_length_of_lists(lists);
}

proof fn lemma_length_of_lists(lists: Seq<Vec<String>>)
    ensures
        all_texts(lists).len() == lists.fold_left(
            0int,
            |sum: int, list: Vec<String>| sum + list@.len(),
        ),
    decreases lists.len(),
{
    if lists.len() > 0 {
        lemma_length_of_lists(lists.drop_last());
    }
}

} // verus!
