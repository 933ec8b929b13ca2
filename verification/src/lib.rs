//! Shard-per-core services and the executor beneath them, as plain state machines.
//!
//! Every concurrent object of the runtime (task state, ready queues, timers,
//! readiness interests, completion rings, mailboxes, streams, permits) is a
//! plain value here, with methods whose contracts say exactly what they return
//! and how they change the value. A program puts these values behind locks,
//! wakers, sockets and threads.

pub mod async_service;
pub mod counter;
pub mod endian;
pub mod error;
pub mod executor;
pub mod io_error;
pub mod kv;
pub mod net;
pub mod os;
pub mod placement;
pub mod platform;
pub mod runtime;
pub mod seq_util;
pub mod service;
pub mod shard;
pub mod shard_local;
pub mod sharded_executor;
pub mod sharded_tcp;
pub mod stream_reply;
pub mod strings;
pub mod text;
pub mod time;
