//! Starting and stopping the server.

use vstd::prelude::*;

use crate::executor::sync::{stop_pair, StopSource, StopToken};
use crate::io_error::{ErrorKind, IoError};
use crate::net::SocketAddr;
use crate::platform::Platform;
use crate::shard::ShardId;
use crate::sharded_executor::affinity::CpuId;
use crate::sharded_executor::placement::ShardedSpawnError;
use crate::sharded_tcp::config::{ShardedTcpConfig, ShardedTcpIncomingCpu, ShardedTcpStartError};
use crate::sharded_tcp::events::{
    counted, zero_counts, ShardedTcpEvent, ShardedTcpEventRecorder, ShardedTcpServerSnapshot,
    ShardedTcpServerStats,
};
use crate::sharded_tcp::listener::{kernel_tls_option, BytesOption, SOL_TCP, TCP_ULP};
use crate::text::{decimal, numbered};

verus! {

/// A TCP connection routed to a specific shard. `T` is the stream.
#[derive(Debug)]
pub struct ShardedTcpConnection<T> {
    /// The accepted TCP stream.
    pub stream: T,
    /// The remote address of the peer.
    pub remote_addr: SocketAddr,
    /// The shard this connection was routed to.
    pub shard_id: ShardId,
}

impl<T> ShardedTcpConnection<T> {
    /// The option that attaches the kernel's TLS to the stream. Refused where the
    /// platform is not Linux.
    ///
    /// It only attaches the protocol. The handshake and the keys are left to the
    /// connection handler.
    pub fn enable_kernel_tls_ulp(&self, platform: Platform) -> (result: Result<
        BytesOption,
        IoError,
    >)
        ensures
            match platform {
                Platform::Linux => result matches Ok(option) && option.level == SOL_TCP
                    && option.name == TCP_ULP && option.value@ == seq![0x74u8, 0x6cu8, 0x73u8, 0u8],
                Platform::OtherUnix => result matches Err(error) && error.says(
                    ErrorKind::Unsupported,
                    "Linux kTLS TCP ULP is only available on Linux"@,
                ),
            },
    {
        kernel_tls_option(platform)
    }
}

/// The port of an address.
pub open spec fn port_of(addr: SocketAddr) -> u16 {
    match addr {
        SocketAddr::V4 { ip, port } => port,
        SocketAddr::V6 { ip, port, flowinfo, scope_id } => port,
    }
}

fn port(addr: &SocketAddr) -> (port: u16)
    ensures
        port == port_of(*addr),
{
    match addr {
        SocketAddr::V4 { port, .. } => *port,
        SocketAddr::V6 { port, .. } => *port,
    }
}

/// How connections are accepted.
#[derive(Debug, Clone, Copy, PartialEq, Eq, Structural)]
pub enum AcceptMode {
    /// Each shard has its own listener.
    PerShard,
    /// One listener on the first shard distributes connections.
    Single,
}

/// A sharded TCP server. `S` is a handle on an event sink.
pub struct ShardedTcpServer<S> {
    /// The address to listen at.
    pub bind_addr: SocketAddr,
    /// The configuration.
    pub config: ShardedTcpConfig<S>,
}

impl<S> ShardedTcpServer<S> {
    /// Creates a new server that binds to `bind_addr`.
    pub fn new(bind_addr: SocketAddr, config: ShardedTcpConfig<S>) -> (server: Self)
        ensures
            server == (ShardedTcpServer { bind_addr, config }),
    {
        ShardedTcpServer { bind_addr, config }
    }

    /// Checks the configuration and says how connections are accepted: each shard
    /// listens where that is asked for and the platform is Linux, and otherwise only
    /// the first.
    pub fn start(&self, platform: Platform, shard_count: usize) -> (result: Result<
        AcceptMode,
        ShardedTcpStartError,
    >)
        ensures
            match self.config.problem(shard_count) {
                None => result == Ok::<AcceptMode, ShardedTcpStartError>(
                    if platform is Linux && self.config.reuse_port {
                        AcceptMode::PerShard
                    } else {
                        AcceptMode::Single
                    },
                ),
                Some(text) => result matches Err(ShardedTcpStartError::InvalidConfig(message))
                    && message@ == text,
            },
    {
        match self.config.validate(shard_count) {
            Ok(()) => {},
            Err(error) => {
                return Err(error);
            },
        }
        match platform {
            Platform::Linux if self.config.reuse_port => Ok(AcceptMode::PerShard),
            _ => Ok(AcceptMode::Single),
        }
    }
}

/// A listener to be created.
#[derive(Debug, Clone, Copy)]
pub struct ListenerRequest {
    /// The shard that owns it.
    pub shard_id: ShardId,
    /// The address to listen at.
    pub addr: SocketAddr,
    /// The CPU whose connections it gets.
    pub incoming_cpu: Option<CpuId>,
}

/// Creates one listener for each shard. `L` is a listener.
pub struct PerShardListeners<L> {
    /// The address asked for.
    pub bind_addr: SocketAddr,
    /// The address that listeners bind to: where any port was asked for, the one
    /// that the first listener got.
    pub listener_addr: SocketAddr,
    /// Number of shards.
    pub shard_count: usize,
    /// CPU policy.
    pub incoming_cpu: ShardedTcpIncomingCpu,
    /// Available CPUs.
    pub available_cpus: Vec<CpuId>,
    /// The listeners so far, in shard order.
    pub listeners: Vec<(ShardId, L)>,
    /// Whether the address of the first listener is awaited.
    pub awaiting_addr: bool,
}

impl<L> PerShardListeners<L> {
    /// The listeners are in shard order, and the address differs from the one asked
    /// for only where any port was asked for.
    pub open spec fn wf(&self) -> bool {
        &&& self.listeners@.len() <= self.shard_count
        &&& forall|i: int|
            0 <= i < self.listeners@.len() ==> ((#[trigger] self.listeners@[i]).0).0 == i
        &&& port_of(self.bind_addr) != 0 || self.listeners@.len() == 0 ==> self.listener_addr
            == self.bind_addr && !self.awaiting_addr
        &&& self.awaiting_addr ==> self.listeners@.len() == 1
    }

    /// Begins with no listener.
    pub fn new(
        bind_addr: SocketAddr,
        shard_count: usize,
        incoming_cpu: ShardedTcpIncomingCpu,
        available_cpus: Vec<CpuId>,
    ) -> (start: Self)
        ensures
            start.wf(),
            start.bind_addr == bind_addr,
            start.listener_addr == bind_addr,
            start.shard_count == shard_count,
            start.incoming_cpu == incoming_cpu,
            start.available_cpus == available_cpus,
            start.listeners@.len() == 0,
    {
        PerShardListeners {
            bind_addr,
            listener_addr: bind_addr,
            shard_count,
            incoming_cpu,
            available_cpus,
            listeners: Vec::new(),
            awaiting_addr: false,
        }
    }

    /// The next listener to be created, or nothing where every shard has one.
    pub fn next(&self) -> (request: Option<ListenerRequest>)
        requires
            self.wf(),
            !self.awaiting_addr,
        ensures
            request is Some <==> self.listeners@.len() < self.shard_count,
            request matches Some(request) ==> {
                let i = self.listeners@.len() as usize;
                request == (ListenerRequest {
                    shard_id: ShardId(i),
                    addr: self.listener_addr,
                    incoming_cpu: self.incoming_cpu.cpu_of(i, self.available_cpus@),
                })
            },
    {
        let i: usize = self.listeners.len();
        if i >= self.shard_count {
            return None;
        }
        Some(
            ListenerRequest {
                shard_id: ShardId(i),
                addr: self.listener_addr,
                incoming_cpu: self.incoming_cpu.cpu_for_shard(i, self.available_cpus.as_slice()),
            },
        )
    }

    /// Takes the listener that was created. Says whether its address is needed: of
    /// the first listener, where any port was asked for.
    pub fn created(&mut self, result: Result<L, IoError>) -> (outcome: Result<
        bool,
        ShardedTcpStartError,
    >)
        requires
            old(self).wf(),
            !old(self).awaiting_addr,
            old(self).listeners@.len() < old(self).shard_count,
        ensures
            final(self).wf(),
            final(self).bind_addr == old(self).bind_addr,
            final(self).listener_addr == old(self).listener_addr,
            final(self).shard_count == old(self).shard_count,
            final(self).incoming_cpu == old(self).incoming_cpu,
            final(self).available_cpus == old(self).available_cpus,
            ({
                let shard_id = ShardId(old(self).listeners@.len() as usize);
                let needed = shard_id.0 == 0 && port_of(old(self).bind_addr) == 0;
                match result {
                    Ok(listener) => {
                        &&& outcome == Ok::<bool, ShardedTcpStartError>(needed)
                        &&& final(self).listeners@ == old(self).listeners@.push(
                            (shard_id, listener),
                        )
                        &&& final(self).awaiting_addr == needed
                    },
                    Err(source) => {
                        &&& outcome == Err::<bool, ShardedTcpStartError>(
                            (ShardedTcpStartError::Listen { shard_id: Some(shard_id), source }),
                        )
                        &&& *final(self) == *old(self)
                    },
                }
            }),
    {
        let shard_id = ShardId(self.listeners.len());
        match result {
            Ok(listener) => {
                self.listeners.push((shard_id, listener));
                self.awaiting_addr = shard_id.0 == 0 && port(&self.bind_addr) == 0;
                Ok(self.awaiting_addr)
            },
            Err(source) => Err(ShardedTcpStartError::Listen { shard_id: Some(shard_id), source }),
        }
    }

    /// Takes the address of the first listener, which the others bind to.
    pub fn bound(&mut self, result: Result<SocketAddr, IoError>) -> (outcome: Result<
        (),
        ShardedTcpStartError,
    >)
        requires
            old(self).wf(),
            old(self).awaiting_addr,
        ensures
            final(self).wf(),
            final(self).bind_addr == old(self).bind_addr,
            final(self).shard_count == old(self).shard_count,
            final(self).incoming_cpu == old(self).incoming_cpu,
            final(self).available_cpus == old(self).available_cpus,
            final(self).listeners == old(self).listeners,
            !final(self).awaiting_addr,
            match result {
                Ok(addr) => {
                    &&& outcome is Ok
                    &&& final(self).listener_addr == addr
                },
                Err(source) => {
                    &&& outcome == Err::<(), ShardedTcpStartError>(
                        (ShardedTcpStartError::Listen { shard_id: Some(ShardId(0)), source }),
                    )
                    &&& final(self).listener_addr == old(self).listener_addr
                },
            },
    {
        self.awaiting_addr = false;
        match result {
            Ok(addr) => {
                self.listener_addr = addr;
                Ok(())
            },
            Err(source) => Err(
                ShardedTcpStartError::Listen { shard_id: Some(ShardId(0)), source },
            ),
        }
    }
}

/// The outcome of creating the one listener of a server that accepts on one shard.
pub fn single_listener<L>(result: Result<L, IoError>) -> (outcome: Result<L, ShardedTcpStartError>)
    ensures
        outcome == match result {
            Ok(listener) => Ok::<L, ShardedTcpStartError>(listener),
            Err(source) => Err::<L, ShardedTcpStartError>(
                (ShardedTcpStartError::Listen { shard_id: None, source }),
            ),
        },
{
    match result {
        Ok(listener) => Ok(listener),
        Err(source) => Err(ShardedTcpStartError::Listen { shard_id: None, source }),
    }
}

/// The name of a shard's accept task.
pub fn accept_task_name(shard_id: ShardId) -> (name: String)
    ensures
        name@ == "tcp-accept-"@ + decimal(shard_id.0 as nat),
{
    numbered("tcp-accept-", shard_id.0)
}

/// A start that was given up.
pub struct RefusedStart<W> {
    /// Why.
    pub error: ShardedTcpStartError,
    /// Accept loops to be woken so that they stop.
    pub woken: Vec<W>,
}

/// Handle for a running server. `W` is a waker, `S` a handle on an event sink.
pub struct ShardedTcpServerHandle<W, S> {
    /// Requests the accept loops to stop.
    pub stop_source: StopSource<W>,
    /// Counts events.
    pub recorder: ShardedTcpEventRecorder<S>,
}

impl<W, S> ShardedTcpServerHandle<W, S> {
    /// The handle of a server whose accept loops are about to start, and the token
    /// that each of them gets.
    pub fn new(event_sink: Option<S>) -> (result: (Self, StopToken))
        ensures
            result.0.stop_source.wf(),
            !result.0.stop_source.signal.raised,
            result.0.stop_source.signal.wakers@ == Seq::<W>::empty(),
            result.0.recorder.stats.counts == zero_counts(),
            result.0.recorder.event_sink == event_sink,
    {
        let (stop_source, token) = stop_pair();
        let recorder = ShardedTcpEventRecorder::new(ShardedTcpServerStats::default(), event_sink);
        (ShardedTcpServerHandle { stop_source, recorder }, token)
    }

    /// Goes on after an accept task was submitted. One that was refused stops those
    /// submitted before it.
    pub fn accept_submitted(&mut self, result: Result<(), ShardedSpawnError>) -> (outcome: Result<
        (),
        RefusedStart<W>,
    >)
        ensures
            final(self).recorder == old(self).recorder,
            match result {
                Ok(()) => outcome is Ok && *final(self) == *old(self),
                Err(error) => {
                    &&& outcome is Err
                    &&& outcome->Err_0.error == ShardedTcpStartError::Spawn(error)
                    &&& final(self).stop_source.signal.raised
                    &&& outcome->Err_0.woken@ == if old(self).stop_source.signal.raised {
                        Seq::<W>::empty()
                    } else {
                        old(self).stop_source.signal.wakers@
                    }
                    &&& final(self).stop_source.signal.wakers@ == if old(
                        self,
                    ).stop_source.signal.raised {
                        old(self).stop_source.signal.wakers@
                    } else {
                        Seq::<W>::empty()
                    }
                },
            },
    {
        match result {
            Ok(()) => Ok(()),
            Err(error) => {
                let woken = match self.stop_source.stop() {
                    Some(woken) => woken,
                    None => Vec::new(),
                };
                Err(RefusedStart { error: ShardedTcpStartError::from(error), woken })
            },
        }
    }

    /// Requests all accept loops to stop. Returns the loops to wake, or nothing where
    /// stop was requested before.
    pub fn stop(&mut self) -> (woken: Option<Vec<W>>)
        ensures
            final(self).recorder == old(self).recorder,
            old(self).stop_source.wf() ==> final(self).stop_source.wf(),
            final(self).stop_source.signal.raised,
            woken is None <==> old(self).stop_source.signal.raised,
            old(self).stop_source.signal.raised ==> *final(self) == *old(self),
            woken matches Some(wakers) ==> wakers@ == old(self).stop_source.signal.wakers@
                && final(self).stop_source.signal.wakers@ == Seq::<W>::empty(),
    {
        self.stop_source.stop()
    }

    /// Returns whether stop has already been requested.
    pub fn is_stopped(&self) -> (stopped: bool)
        ensures
            stopped == self.stop_source.signal.raised,
    {
        self.stop_source.is_stopped()
    }

    /// Counts an event and returns the sink that it then goes to.
    pub fn record(&mut self, event: ShardedTcpEvent) -> (sink: Option<&S>)
        ensures
            final(self).stop_source == old(self).stop_source,
            final(self).recorder.stats.counts == counted(old(self).recorder.stats.counts, event),
            final(self).recorder.event_sink == old(self).recorder.event_sink,
            match sink {
                Some(sink) => old(self).recorder.event_sink == Some(*sink),
                None => old(self).recorder.event_sink is None,
            },
    {
        self.recorder.record(event)
    }

    /// Returns an owned snapshot of server-level accept-loop counters.
    pub fn snapshot(&self) -> (snapshot: ShardedTcpServerSnapshot)
        ensures
            snapshot == self.recorder.stats.counts,
    {
        self.recorder.stats.snapshot()
    }
}

/// The port of an address does not depend on the rest of it.
pub proof fn port_is_that_of_the_address(
    ip: [u8; 4],
    ip6: [u8; 16],
    port: u16,
    flowinfo: u32,
    scope_id: u32,
)
    ensures
        port_of((SocketAddr::V4 { ip, port })) == port,
        port_of((SocketAddr::V6 { ip: ip6, port, flowinfo, scope_id })) == port,
{
}

} // verus!
