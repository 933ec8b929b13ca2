//! Handles naming the weighted scheduling groups of an executor.

use vstd::prelude::*;

use crate::executor::types::{
    SchedulingGroupId, DEFAULT_SCHEDULING_GROUP_ID, DEFAULT_SCHEDULING_GROUP_SHARES,
};

verus! {

/// Identity of one executor within the process.
#[derive(Debug, Clone, Copy, PartialEq, Eq, Structural)]
pub struct ExecutorId(pub usize);

impl ExecutorId {
    /// Takes the identifier that `next` holds and moves `next` on, wrapping
    /// around at the end of its range.
    pub fn allocate(next: &mut usize) -> (id: ExecutorId)
        ensures
            id == ExecutorId(*old(next)),
            *final(next) == if *old(next) == usize::MAX {
                0
            } else {
                *old(next) + 1
            },
    {
        let id: usize = *next;
        *next = id.wrapping_add(1);
        ExecutorId(id)
    }
}

/// Handle naming a scheduling group inside one executor.
///
/// Scheduling groups are executor-local. A group handle should be used only
/// with the executor that created it, except for the default group handle,
/// which names the built-in default group in any executor.
#[must_use]
#[derive(Debug, Clone, PartialEq, Eq)]
pub struct SchedulingGroup {
    /// The executor that created the group; none for the default group handle.
    pub executor_id: Option<ExecutorId>,
    /// Executor-local identifier.
    pub id: SchedulingGroupId,
    /// Human-readable name.
    pub name: String,
    /// Relative scheduling weight.
    pub shares: u32,
}

impl SchedulingGroup {
    /// A handle of the group `id` of the executor `executor_id`.
    pub fn new(executor_id: ExecutorId, id: SchedulingGroupId, name: String, shares: u32) -> (group:
        Self)
        ensures
            group == (SchedulingGroup { executor_id: Some(executor_id), id, name, shares }),
    {
        SchedulingGroup { executor_id: Some(executor_id), id, name, shares }
    }

    /// Returns this group's executor-local identifier.
    pub fn id(&self) -> (id: SchedulingGroupId)
        ensures
            id == self.id,
    {
        self.id
    }

    /// Returns this group's human-readable name.
    pub fn name(&self) -> (name: &str)
        ensures
            name@ == self.name@,
    {
        self.name.as_str()
    }

    /// Returns this group's relative scheduling weight.
    pub fn shares(&self) -> (shares: u32)
        ensures
            shares == self.shares,
    {
        self.shares
    }

    /// Whether the group may be used with the executor: always for the default
    /// group handle, otherwise only with the executor that created it.
    pub fn belongs_to(&self, executor_id: ExecutorId) -> (belongs: bool)
        ensures
            belongs == (self.executor_id is None || self.executor_id == Some(executor_id)),
    {
        match self.executor_id {
            None => true,
            Some(owner) => owner == executor_id,
        }
    }
}

impl Default for SchedulingGroup {
    fn default() -> (group: Self)
        ensures
            group.executor_id is None,
            group.id == SchedulingGroupId(DEFAULT_SCHEDULING_GROUP_ID),
            group.name@ == "default"@,
            group.shares == DEFAULT_SCHEDULING_GROUP_SHARES,
    {
        SchedulingGroup {
            executor_id: None,
            id: SchedulingGroupId(DEFAULT_SCHEDULING_GROUP_ID),
            name: "default".to_owned(),
            shares: DEFAULT_SCHEDULING_GROUP_SHARES,
        }
    }
}

/// Error returned when a scheduling group cannot be created.
#[derive(Debug, Clone, PartialEq, Eq, Structural)]
pub enum SchedulingGroupError {
    /// Scheduling group shares must be greater than zero.
    ZeroShares,
}

impl SchedulingGroupError {
    /// Human-readable text of the error.
    pub fn message(&self) -> (text: String)
        ensures
            text@ == "scheduling group shares must be greater than zero"@,
    {
        "scheduling group shares must be greater than zero".to_owned()
    }
}

} // verus!
