//! What a wait on the operating system reports.

use vstd::prelude::*;

verus! {

/// Readiness that one wait reported.
#[derive(Debug, Clone, PartialEq, Eq)]
pub struct OsEvent {
    /// Whether the reactor was woken from outside.
    pub woke: bool,
    /// Descriptors found readable.
    pub readable: Vec<i32>,
    /// Descriptors found writable.
    pub writable: Vec<i32>,
}

impl OsEvent {
    /// A wait that reported nothing.
    pub fn empty() -> (event: Self)
        ensures
            !event.woke,
            event.readable@ == Seq::<i32>::empty(),
            event.writable@ == Seq::<i32>::empty(),
    {
        OsEvent { woke: false, readable: Vec::new(), writable: Vec::new() }
    }
}

} // verus!
