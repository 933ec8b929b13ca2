//! A sharded key-value store: each shard owns the keys that hash to it and serves
//! typed commands from its mailbox.

pub mod command;
pub mod reply;
pub mod sharded;
pub mod store;
