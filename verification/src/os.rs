//! Operating system reactor: readiness backends and completion rings.

pub mod completions;
pub mod dispatcher;
pub mod epoll;
pub mod event;
pub mod interest;
pub mod kqueue;
pub mod reactor;
pub mod sqe;
pub mod uring;
