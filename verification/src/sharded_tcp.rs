//! Network-facing sharded TCP service.
//!
//! Where each shard has its own listener, the kernel distributes connections
//! across shards. Otherwise one accept loop routes each connection to a shard by
//! the hash of the remote address.

pub mod config;
pub mod connections;
pub mod events;
pub mod listener;
pub mod server;
