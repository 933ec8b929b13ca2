//! Shard identity and per-shard summaries.

use vstd::prelude::*;

verus! {

/// Identifier of a shard: its position among the shards of a service.
#[derive(Debug, Clone, Copy, PartialEq, Eq, Structural, Hash, PartialOrd, Ord)]
pub struct ShardId(pub usize);

/// Owned summary of one shard of a key-value store.
#[must_use]
#[derive(Debug, Clone, Copy, PartialEq, Eq, Structural)]
pub struct ShardSnapshot {
    /// The shard.
    pub shard_id: ShardId,
    /// Number of keys on it.
    pub len: usize,
}

} // verus!
