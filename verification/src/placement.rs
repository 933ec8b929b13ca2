//! Placement of keys on shards.

use std::collections::hash_map::DefaultHasher;
use std::hash::{Hash, Hasher};

use vstd::prelude::*;
use vstd::std_specs::hash::DefaultHasherAdditionalSpecFns;

use crate::shard::ShardId;

verus! {

/// What the `Hash` implementation of `str` writes to a hasher for a text: the
/// writes depend on the text alone.
pub uninterp spec fn text_hash_writes(text: Seq<char>) -> Seq<Seq<u8>>;

/// Feeds a text to a hasher with `<str as Hash>::hash`. Claimed of it: it appends
/// to what was written to the hasher before, and what it appends is a function of
/// the text. Which bytes these are is left unsaid.
#[verifier::external_body]
fn hash_text(text: &str, state: &mut DefaultHasher)
    ensures
        final(state)@ == old(state)@ + text_hash_writes(text@),
{
    text.hash(state);
}

/// The default hash of a text.
pub open spec fn text_hash(text: Seq<char>) -> u64 {
    DefaultHasher::spec_finish(text_hash_writes(text))
}

/// The shard for a hash value: its remainder among the shards.
pub open spec fn shard_of_hash(hash: u64, shard_count: usize) -> ShardId {
    ShardId(((hash as usize) % shard_count) as usize)
}

/// The shard for a key.
pub open spec fn shard_of(key: Seq<char>, shard_count: usize) -> ShardId {
    shard_of_hash(text_hash(key), shard_count)
}

/// Routes a hash value to a shard.
pub fn shard_for_hash_value(hash: u64, shard_count: usize) -> (shard: ShardId)
    requires
        shard_count > 0,
    ensures
        shard == shard_of_hash(hash, shard_count),
        shard.0 < shard_count,
{
    ShardId((hash as usize) % shard_count)
}

/// Routes a key to a shard using the default hasher of the standard library.
///
/// This is a simple placement strategy, not a stable consistent-hashing contract.
pub fn shard_for_hash(key: &str, shard_count: usize) -> (shard: ShardId)
    requires
        shard_count > 0,
    ensures
        shard == shard_of(key@, shard_count),
        shard.0 < shard_count,
{
    let mut hasher = DefaultHasher::new();
    hash_text(key, &mut hasher);
    assert(hasher@ =~= text_hash_writes(key@));
    shard_for_hash_value(hasher.finish(), shard_count)
}

/// A key has one shard, and there is such a shard.
pub proof fn every_key_has_a_shard(key: Seq<char>, shard_count: usize)
    requires
        shard_count > 0,
    ensures
        shard_of(key, shard_count).0 < shard_count,
{
}

/// A hash value goes to the shard that is its remainder among the shards. So every
/// shard has hash values of its own, and two hash values share a shard exactly where
/// they leave the same remainder.
pub proof fn hashes_spread_over_all_shards(hash: u64, other: u64, shard_count: usize)
    requires
        shard_count > 0,
    ensures
        shard_of_hash(hash, shard_count).0 as int == (hash as usize) as int % shard_count as int,
        (hash as usize) < shard_count ==> shard_of_hash(hash, shard_count).0 == hash as usize,
        forall|shard: usize|
            shard < shard_count ==> (#[trigger] shard_of_hash(shard as u64, shard_count)).0
                == shard,
        shard_of_hash(hash, shard_count) == shard_of_hash(other, shard_count) <==> (
        hash as usize) as int % shard_count as int == (other as usize) as int
            % shard_count as int,
{
    vstd::arithmetic::div_mod::lemma_mod_bound((hash as usize) as int, shard_count as int);
    vstd::arithmetic::div_mod::lemma_mod_bound((other as usize) as int, shard_count as int);
    if (hash as usize) < shard_count {
        vstd::arithmetic::div_mod::lemma_small_mod((hash as usize) as nat, shard_count as nat);
    }
    assert forall|shard: usize| shard < shard_count implies (#[trigger] shard_of_hash(
        shard as u64,
        shard_count,
    )).0 == shard by {
        vstd::arithmetic::div_mod::lemma_small_mod(shard as nat, shard_count as nat);
    }
}

/// A key goes where the hash value of what it writes to a default hasher goes, so keys
/// of one hash value share a shard.
pub proof fn key_goes_where_its_hash_goes(key: Seq<char>, other: Seq<char>, shard_count: usize)
    requires
        shard_count > 0,
    ensures
        shard_of(key, shard_count).0 as int == (DefaultHasher::spec_finish(
            text_hash_writes(key),
        ) as usize) as int % shard_count as int,
        text_hash_writes(key) == text_hash_writes(other) ==> shard_of(key, shard_count)
            == shard_of(other, shard_count),
{
    hashes_spread_over_all_shards(text_hash(key), text_hash(other), shard_count);
}

} // verus!
