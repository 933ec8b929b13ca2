//! Shard-per-thread async executor runtime.
//!
//! Each shard owns one executor that runs on one thread. Callers place work with a
//! [`ShardId`], and spawned tasks stay on that shard for their whole lifetime.

pub mod affinity;
pub mod join;
pub mod placement;
