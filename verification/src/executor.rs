//! Single-threaded executor: tasks, scheduling, timers and readiness.

pub mod backpressure;
pub mod counters;
pub mod driver;
pub mod future;
pub mod io_interest;
pub mod join;
pub mod root;
pub mod run;
pub mod scheduler;
pub mod scheduling_group;
pub mod scope;
pub mod snapshot;
pub mod spawn_error;
pub mod spawner;
pub mod sync;
pub mod task;
pub mod task_set;
pub mod task_state;
pub mod tcp;
pub mod timer;
pub mod types;
pub mod udp;
pub mod unix_io;
pub mod uring;
