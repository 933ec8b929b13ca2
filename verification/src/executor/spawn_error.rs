//! Why a spawn is refused.

use vstd::prelude::*;

verus! {

/// Error returned when a task cannot be spawned.
#[derive(Debug, Clone, Copy, PartialEq, Eq, Structural)]
pub enum SpawnError {
    /// The executor no longer accepts tasks.
    Closed,
    /// The scheduling group handle belongs to a different executor.
    SchedulingGroupExecutorMismatch,
}

impl SpawnError {
    /// The text of the error.
    pub open spec fn text(&self) -> Seq<char> {
        match self {
            SpawnError::Closed => "executor is not accepting tasks"@,
            SpawnError::SchedulingGroupExecutorMismatch =>
                "scheduling group belongs to a different executor"@,
        }
    }

    /// Human-readable text of the error.
    pub fn message(&self) -> (text: String)
        ensures
            text@ == self.text(),
    {
        match self {
            SpawnError::Closed => "executor is not accepting tasks".to_owned(),
            SpawnError::SchedulingGroupExecutorMismatch =>
                "scheduling group belongs to a different executor".to_owned(),
        }
    }
}

/// A refused spawn says why.
pub proof fn spawn_error_says_why()
    ensures
        SpawnError::Closed.text() == "executor is not accepting tasks"@,
        SpawnError::SchedulingGroupExecutorMismatch.text()
            == "scheduling group belongs to a different executor"@,
{
}

} // verus!
