//! Configuration of the server.

use vstd::prelude::*;

use crate::io_error::IoError;
use crate::shard::ShardId;
use crate::sharded_executor::affinity::CpuId;
use crate::sharded_executor::placement::ShardedSpawnError;
use crate::text::{decimal, joined, with_number};

verus! {

/// Policy for applying Linux `SO_INCOMING_CPU` to sharded TCP listeners.
#[derive(Debug, Clone, PartialEq, Eq)]
pub enum ShardedTcpIncomingCpu {
    /// Do not set `SO_INCOMING_CPU`.
    Disabled,
    /// Assign shard `N` to the CPU at `N % len` of the available CPUs.
    SequentialAvailable,
    /// Use the explicit CPU id for each shard.
    Explicit(Vec<CpuId>),
}

impl Default for ShardedTcpIncomingCpu {
    fn default() -> (policy: Self)
        ensures
            policy is Disabled,
    {
        ShardedTcpIncomingCpu::Disabled
    }
}

impl ShardedTcpIncomingCpu {
    /// The CPU of a shard's listener.
    pub open spec fn cpu_of(&self, shard_idx: usize, available_cpus: Seq<CpuId>) -> Option<CpuId> {
        match self {
            ShardedTcpIncomingCpu::Disabled => None,
            ShardedTcpIncomingCpu::SequentialAvailable => if available_cpus.len() == 0 {
                Some(CpuId(shard_idx))
            } else {
                Some(available_cpus[shard_idx as int % available_cpus.len() as int])
            },
            ShardedTcpIncomingCpu::Explicit(cpus) => if shard_idx < cpus@.len() {
                Some(cpus@[shard_idx as int])
            } else {
                None
            },
        }
    }

    /// The CPU for a shard's listener, where the policy names one.
    pub fn cpu_for_shard(&self, shard_idx: usize, available_cpus: &[CpuId]) -> (cpu: Option<CpuId>)
        ensures
            cpu == self.cpu_of(shard_idx, available_cpus@),
    {
        match self {
            ShardedTcpIncomingCpu::Disabled => None,
            ShardedTcpIncomingCpu::SequentialAvailable => {
                if available_cpus.len() == 0 {
                    Some(CpuId(shard_idx))
                } else {
                    Some(available_cpus[shard_idx % available_cpus.len()])
                }
            },
            ShardedTcpIncomingCpu::Explicit(cpus) => {
                if shard_idx < cpus.len() {
                    Some(cpus[shard_idx])
                } else {
                    None
                }
            },
        }
    }
}

/// Configuration for a sharded TCP server. `S` is a handle on an event sink.
pub struct ShardedTcpConfig<S> {
    /// Maximum concurrent connections per shard.
    pub max_connections_per_shard: usize,
    /// Whether to use `SO_REUSEPORT` (Linux only, enables per-shard accept).
    pub reuse_port: bool,
    /// Linux `SO_INCOMING_CPU` placement for listener sockets.
    pub incoming_cpu: ShardedTcpIncomingCpu,
    /// Connection backlog.
    pub backlog: u32,
    /// Optional structured event sink for server-level runtime events.
    pub event_sink: Option<S>,
}

/// The configuration that a server has where nothing is set.
pub open spec fn default_config<S>() -> ShardedTcpConfig<S> {
    ShardedTcpConfig {
        max_connections_per_shard: 128,
        reuse_port: true,
        incoming_cpu: ShardedTcpIncomingCpu::Disabled,
        backlog: 128,
        event_sink: None,
    }
}

impl<S> Default for ShardedTcpConfig<S> {
    fn default() -> (config: Self)
        ensures
            config == default_config::<S>(),
    {
        ShardedTcpConfig {
            max_connections_per_shard: 128,
            reuse_port: true,
            incoming_cpu: ShardedTcpIncomingCpu::Disabled,
            backlog: 128,
            event_sink: None,
        }
    }
}

impl<S> ShardedTcpConfig<S> {
    /// Creates a new config with default settings.
    pub fn new() -> (config: Self)
        ensures
            config == default_config::<S>(),
    {
        ShardedTcpConfig::default()
    }

    /// Sets the maximum concurrent connections per shard.
    pub fn with_max_connections(self, max: usize) -> (config: Self)
        ensures
            config == (ShardedTcpConfig { max_connections_per_shard: max, ..self }),
    {
        ShardedTcpConfig { max_connections_per_shard: max, ..self }
    }

    /// Sets whether to use `SO_REUSEPORT`.
    pub fn with_reuse_port(self, reuse: bool) -> (config: Self)
        ensures
            config == (ShardedTcpConfig { reuse_port: reuse, ..self }),
    {
        ShardedTcpConfig { reuse_port: reuse, ..self }
    }

    /// Sets Linux `SO_INCOMING_CPU` placement for listener sockets.
    pub fn with_incoming_cpu(self, incoming_cpu: ShardedTcpIncomingCpu) -> (config: Self)
        ensures
            config == (ShardedTcpConfig { incoming_cpu, ..self }),
    {
        ShardedTcpConfig { incoming_cpu, ..self }
    }

    /// Sets the TCP backlog.
    pub fn with_backlog(self, backlog: u32) -> (config: Self)
        ensures
            config == (ShardedTcpConfig { backlog, ..self }),
    {
        ShardedTcpConfig { backlog, ..self }
    }

    /// Sets a structured event sink for server-level runtime events.
    pub fn with_event_sink(self, sink: S) -> (config: Self)
        ensures
            config == (ShardedTcpConfig { event_sink: Some(sink), ..self }),
    {
        ShardedTcpConfig { event_sink: Some(sink), ..self }
    }

    /// Sets a shared structured event sink for server-level runtime events.
    pub fn with_shared_event_sink(self, sink: S) -> (config: Self)
        ensures
            config == (ShardedTcpConfig { event_sink: Some(sink), ..self }),
    {
        self.with_event_sink(sink)
    }

    /// Why a server with so many shards cannot be started, if it cannot.
    pub open spec fn problem(&self, shard_count: usize) -> Option<Seq<char>> {
        if self.max_connections_per_shard == 0 {
            Some("max_connections_per_shard must be greater than zero"@)
        } else if self.incoming_cpu matches ShardedTcpIncomingCpu::Explicit(cpus) && cpus@.len()
            < shard_count {
            Some("incoming CPU placement must provide a CPU for every shard"@)
        } else {
            None
        }
    }

    /// Refuses a configuration that a server with so many shards cannot be started
    /// with.
    pub fn validate(&self, shard_count: usize) -> (result: Result<(), ShardedTcpStartError>)
        ensures
            match self.problem(shard_count) {
                None => result is Ok,
                Some(text) => result matches Err(ShardedTcpStartError::InvalidConfig(message))
                    && message@ == text,
            },
    {
        if self.max_connections_per_shard == 0 {
            return Err(
                ShardedTcpStartError::InvalidConfig(
                    "max_connections_per_shard must be greater than zero",
                ),
            );
        }
        match &self.incoming_cpu {
            ShardedTcpIncomingCpu::Explicit(cpus) => {
                if cpus.len() < shard_count {
                    return Err(
                        ShardedTcpStartError::InvalidConfig(
                            "incoming CPU placement must provide a CPU for every shard",
                        ),
                    );
                }
            },
            _ => {},
        }
        Ok(())
    }
}

/// Error returned when a sharded TCP server cannot be started.
#[derive(Debug)]
pub enum ShardedTcpStartError {
    /// The configuration is invalid.
    InvalidConfig(&'static str),
    /// A listener could not be created for the accept path.
    Listen {
        /// The shard that would own this listener, or `None` for the single-accept
        /// path.
        shard_id: Option<ShardId>,
        /// The underlying error.
        source: IoError,
    },
    /// The accept task could not be submitted to a shard executor.
    Spawn(ShardedSpawnError),
}

impl ShardedTcpStartError {
    /// Human-readable text of the error. `source_text` is the text of the error
    /// underneath, where a listener could not be created.
    pub fn message(&self, source_text: &str) -> (text: String)
        ensures
            text@ == match self {
                ShardedTcpStartError::InvalidConfig(message) => "invalid TCP server config: "@
                    + message@,
                ShardedTcpStartError::Listen { shard_id: Some(shard_id), source } =>
                    "failed to create TCP listener for shard "@ + decimal(shard_id.0 as nat) + ": "@
                    + source_text@,
                ShardedTcpStartError::Listen { shard_id: None, source } =>
                    "failed to create TCP listener: "@ + source_text@,
                ShardedTcpStartError::Spawn(error) => error.text(),
            },
    {
        match self {
            ShardedTcpStartError::InvalidConfig(message) => {
                joined("invalid TCP server config: ", message)
            },
            ShardedTcpStartError::Listen { shard_id: Some(shard_id), source } => {
                let start = with_number(
                    "failed to create TCP listener for shard ",
                    shard_id.0,
                    ": ",
                );
                joined(start.as_str(), source_text)
            },
            ShardedTcpStartError::Listen { shard_id: None, source } => {
                joined("failed to create TCP listener: ", source_text)
            },
            ShardedTcpStartError::Spawn(error) => error.message(),
        }
    }
}

impl From<ShardedSpawnError> for ShardedTcpStartError {
    fn from(error: ShardedSpawnError) -> (converted: Self) {
        ShardedTcpStartError::Spawn(error)
    }
}

impl vstd::std_specs::convert::FromSpecImpl<ShardedSpawnError> for ShardedTcpStartError {
    open spec fn obeys_from_spec() -> bool {
        true
    }

    open spec fn from_spec(error: ShardedSpawnError) -> Self {
        ShardedTcpStartError::Spawn(error)
    }
}

/// A configuration can be used exactly where every shard may have a connection and a
/// list of CPUs, if there is one, has one for every shard.
pub proof fn usable_configuration_has_no_problem<S>(
    config: ShardedTcpConfig<S>,
    shard_count: usize,
)
    ensures
        config.problem(shard_count) is None <==> {
            &&& config.max_connections_per_shard > 0
            &&& config.incoming_cpu matches ShardedTcpIncomingCpu::Explicit(cpus) ==> cpus@.len()
                >= shard_count
        },
        config.max_connections_per_shard == 0 ==> config.problem(shard_count) == Some(
            "max_connections_per_shard must be greater than zero"@,
        ),
        config.max_connections_per_shard > 0 && config.problem(shard_count) is Some
            ==> config.problem(shard_count) == Some(
            "incoming CPU placement must provide a CPU for every shard"@,
        ),
{
}

/// Each listener is tied to the CPU that is meant for its shard: none where that is off;
/// the one listed at the shard's own place; or the available ones in turn, beginning
/// again with the first when they are used up, and the CPU of the shard's own number
/// where it is not known which are available.
pub proof fn incoming_cpu_goes_by_the_shard(
    shard_idx: usize,
    rounds: nat,
    later: usize,
    cpus: Vec<CpuId>,
    available_cpus: Seq<CpuId>,
)
    requires
        later == shard_idx + rounds * available_cpus.len(),
    ensures
        ShardedTcpIncomingCpu::Disabled.cpu_of(shard_idx, available_cpus) is None,
        ShardedTcpIncomingCpu::Explicit(cpus).cpu_of(shard_idx, available_cpus) is Some
            <==> shard_idx < cpus@.len(),
        shard_idx < cpus@.len() ==> ShardedTcpIncomingCpu::Explicit(cpus).cpu_of(
            shard_idx,
            available_cpus,
        ) == Some(cpus@[shard_idx as int]),
        available_cpus.len() == 0 ==> ShardedTcpIncomingCpu::SequentialAvailable.cpu_of(
            shard_idx,
            available_cpus,
        ) == Some(CpuId(shard_idx)),
        shard_idx < available_cpus.len() ==> ShardedTcpIncomingCpu::SequentialAvailable.cpu_of(
            shard_idx,
            available_cpus,
        ) == Some(available_cpus[shard_idx as int])
            && ShardedTcpIncomingCpu::SequentialAvailable.cpu_of(later, available_cpus) == Some(
            available_cpus[shard_idx as int],
        ),
{
    if shard_idx < available_cpus.len() {
        let n = available_cpus.len() as int;
        vstd::arithmetic::div_mod::lemma_small_mod(shard_idx as nat, n as nat);
        vstd::arithmetic::div_mod::lemma_mod_multiples_vanish(rounds as int, shard_idx as int, n);
        assert(n * (rounds as int) + shard_idx == shard_idx + rounds * n) by (nonlinear_arith);
    }
}

/// What is not configured is 128 connections to a shard and a backlog of 128, a port that
/// the shards share, no CPUs and no sink; a server of any size can be started with it.
pub proof fn default_configuration_is_usable<S>(shard_count: usize)
    ensures
        default_config::<S>().problem(shard_count) is None,
        default_config::<S>().max_connections_per_shard == 128,
        default_config::<S>().backlog == 128,
        default_config::<S>().reuse_port,
        default_config::<S>().incoming_cpu is Disabled,
        default_config::<S>().event_sink is None,
{
}

} // verus!
