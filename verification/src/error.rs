//! Errors of sharded services.

use vstd::prelude::*;

use crate::text::{decimal, joined, numbered};

verus! {

/// Errors returned by shard lifecycle and mailbox operations.
#[derive(Debug, Clone, PartialEq, Eq)]
pub enum ShardError {
    /// A sharded service cannot be started with zero shards.
    InvalidShardCount,
    /// A caller addressed a shard index that does not exist.
    InvalidShardId(usize),
    /// A bounded shard mailbox was configured with zero capacity.
    InvalidMailboxCapacity,
    /// A sharded executor CPU placement policy does not cover all shards.
    InvalidCpuPlacement,
    /// Required CPU placement could not be applied.
    CpuPlacementFailed(String),
    /// A non-blocking send found the target shard mailbox full.
    MailboxFull,
    /// Sending a command to a shard mailbox failed.
    SendFailed,
    /// Waiting for a command reply failed.
    ReplyFailed,
    /// Timed out while waiting for a command reply.
    ReplyTimeout,
    /// The target shard had already stopped.
    ShardStopped,
    /// A shard thread panicked or otherwise could not be joined.
    ThreadJoinFailed,
}

impl ShardError {
    /// The text of the error.
    pub open spec fn text(&self) -> Seq<char> {
        match self {
            ShardError::InvalidShardCount => "shard count must be greater than zero"@,
            ShardError::InvalidShardId(id) => "invalid shard id: "@ + decimal(*id as nat),
            ShardError::InvalidMailboxCapacity => "mailbox capacity must be greater than zero"@,
            ShardError::InvalidCpuPlacement =>
                "CPU placement must provide a CPU for every shard"@,
            ShardError::CpuPlacementFailed(reason) => "required CPU placement failed: "@ + reason@,
            ShardError::MailboxFull => "shard mailbox is full"@,
            ShardError::SendFailed => "failed to send command to shard"@,
            ShardError::ReplyFailed => "failed to receive reply from shard"@,
            ShardError::ReplyTimeout => "timed out waiting for shard reply"@,
            ShardError::ShardStopped => "shard has stopped"@,
            ShardError::ThreadJoinFailed => "failed to join shard thread"@,
        }
    }

    /// Human-readable text of the error.
    pub fn message(&self) -> (text: String)
        ensures
            text@ == self.text(),
    {
        match self {
            ShardError::InvalidShardCount => "shard count must be greater than zero".to_owned(),
            ShardError::InvalidShardId(id) => numbered("invalid shard id: ", *id),
            ShardError::InvalidMailboxCapacity => {
                "mailbox capacity must be greater than zero".to_owned()
            },
            ShardError::InvalidCpuPlacement => {
                "CPU placement must provide a CPU for every shard".to_owned()
            },
            ShardError::CpuPlacementFailed(reason) => {
                joined("required CPU placement failed: ", reason.as_str())
            },
            ShardError::MailboxFull => "shard mailbox is full".to_owned(),
            ShardError::SendFailed => "failed to send command to shard".to_owned(),
            ShardError::ReplyFailed => "failed to receive reply from shard".to_owned(),
            ShardError::ReplyTimeout => "timed out waiting for shard reply".to_owned(),
            ShardError::ShardStopped => "shard has stopped".to_owned(),
            ShardError::ThreadJoinFailed => "failed to join shard thread".to_owned(),
        }
    }
}

/// Each error says in its own words what went wrong, with the number or the reason that it
/// carries.
pub proof fn error_says_what_went_wrong(id: usize, reason: String)
    ensures
        ShardError::InvalidShardCount.text() == "shard count must be greater than zero"@,
        ShardError::InvalidShardId(id).text() == "invalid shard id: "@ + decimal(id as nat),
        ShardError::InvalidMailboxCapacity.text() == "mailbox capacity must be greater than zero"@,
        ShardError::InvalidCpuPlacement.text()
            == "CPU placement must provide a CPU for every shard"@,
        ShardError::CpuPlacementFailed(reason).text() == "required CPU placement failed: "@
            + reason@,
        ShardError::MailboxFull.text() == "shard mailbox is full"@,
        ShardError::SendFailed.text() == "failed to send command to shard"@,
        ShardError::ReplyFailed.text() == "failed to receive reply from shard"@,
        ShardError::ReplyTimeout.text() == "timed out waiting for shard reply"@,
        ShardError::ShardStopped.text() == "shard has stopped"@,
        ShardError::ThreadJoinFailed.text() == "failed to join shard thread"@,
{
}

} // verus!
