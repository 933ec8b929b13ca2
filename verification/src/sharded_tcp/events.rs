//! Structured events and counters of the server.

use vstd::prelude::*;

use crate::io_error::ErrorKind;
use crate::shard::ShardId;
use crate::sharded_executor::placement::ShardedSpawnError;

verus! {

/// Structured event emitted by a sharded TCP server.
#[allow(inconsistent_fields)]
#[derive(Debug, Clone, Copy, PartialEq, Eq, Structural)]
pub enum ShardedTcpEvent {
    /// An accepted connection was dropped because its target shard was already at
    /// the configured connection limit.
    ConnectionLimitRejected {
        /// The target shard for the connection.
        shard_id: ShardId,
    },
    /// An accept-loop error stopped an accept task.
    AcceptError {
        /// The shard that owned the failing listener, or `None` for the
        /// single-accept path.
        shard_id: Option<ShardId>,
        /// The kind of the accept failure.
        kind: ErrorKind,
    },
    /// An accepted connection's handler could not be submitted.
    HandlerSubmitError {
        /// The target shard for the handler.
        shard_id: ShardId,
        /// The submit error returned by the sharded executor.
        error: ShardedSpawnError,
    },
}

/// Sink for structured [`ShardedTcpEvent`] values.
pub trait ShardedTcpEventSink {
    /// Records one server event.
    fn record(&self, event: ShardedTcpEvent);
}

/// Owned observability snapshot for a sharded TCP server.
#[derive(Debug, Clone, Copy, PartialEq, Eq, Structural)]
pub struct ShardedTcpServerSnapshot {
    /// Number of accepted connections dropped because their target shard was
    /// already at the configured connection limit.
    pub connection_limit_rejections: u64,
    /// Number of accept-loop errors that stopped an accept task.
    pub accept_errors: u64,
    /// Number of accepted connections whose handler could not be submitted.
    pub handler_submit_errors: u64,
}

/// The counters of a server. They wrap around.
#[derive(Debug)]
pub struct ShardedTcpServerStats {
    /// The counts so far.
    pub counts: ShardedTcpServerSnapshot,
}

/// One more than `n`, wrapping around.
pub open spec fn next_count(n: u64) -> u64 {
    if n == u64::MAX {
        0
    } else {
        (n + 1) as u64
    }
}

/// The counts after an event.
pub open spec fn counted(
    counts: ShardedTcpServerSnapshot,
    event: ShardedTcpEvent,
) -> ShardedTcpServerSnapshot {
    match event {
        ShardedTcpEvent::ConnectionLimitRejected { shard_id } => ShardedTcpServerSnapshot {
            connection_limit_rejections: next_count(counts.connection_limit_rejections),
            ..counts
        },
        ShardedTcpEvent::AcceptError { shard_id, kind } => ShardedTcpServerSnapshot {
            accept_errors: next_count(counts.accept_errors),
            ..counts
        },
        ShardedTcpEvent::HandlerSubmitError { shard_id, error } => ShardedTcpServerSnapshot {
            handler_submit_errors: next_count(counts.handler_submit_errors),
            ..counts
        },
    }
}

/// Counts of which nothing has been counted.
pub open spec fn zero_counts() -> ShardedTcpServerSnapshot {
    ShardedTcpServerSnapshot {
        connection_limit_rejections: 0,
        accept_errors: 0,
        handler_submit_errors: 0,
    }
}

impl Default for ShardedTcpServerStats {
    fn default() -> (stats: Self)
        ensures
            stats.counts == zero_counts(),
    {
        ShardedTcpServerStats {
            counts: ShardedTcpServerSnapshot {
                connection_limit_rejections: 0,
                accept_errors: 0,
                handler_submit_errors: 0,
            },
        }
    }
}

impl ShardedTcpServerStats {
    /// Counts an event.
    pub fn record(&mut self, event: ShardedTcpEvent)
        ensures
            final(self).counts == counted(old(self).counts, event),
    {
        match event {
            ShardedTcpEvent::ConnectionLimitRejected { .. } => {
                self.counts.connection_limit_rejections =
                self.counts.connection_limit_rejections.wrapping_add(1);
            },
            ShardedTcpEvent::AcceptError { .. } => {
                self.counts.accept_errors = self.counts.accept_errors.wrapping_add(1);
            },
            ShardedTcpEvent::HandlerSubmitError { .. } => {
                self.counts.handler_submit_errors =
                self.counts.handler_submit_errors.wrapping_add(1);
            },
        }
    }

    /// The counts so far.
    pub fn snapshot(&self) -> (snapshot: ShardedTcpServerSnapshot)
        ensures
            snapshot == self.counts,
    {
        self.counts
    }
}

/// Counts events and says who is to hear of them. `S` is a handle on a sink.
pub struct ShardedTcpEventRecorder<S> {
    /// The counters.
    pub stats: ShardedTcpServerStats,
    /// The sink, if there is one.
    pub event_sink: Option<S>,
}

impl<S> ShardedTcpEventRecorder<S> {
    /// Records on `stats` and to a sink.
    pub fn new(stats: ShardedTcpServerStats, event_sink: Option<S>) -> (recorder: Self)
        ensures
            recorder == (ShardedTcpEventRecorder { stats, event_sink }),
    {
        ShardedTcpEventRecorder { stats, event_sink }
    }

    /// Counts an event and returns the sink that the event then goes to. The
    /// counters are up to date before the sink hears of it, so that they are right
    /// whatever becomes of the sink.
    pub fn record(&mut self, event: ShardedTcpEvent) -> (sink: Option<&S>)
        ensures
            final(self).stats.counts == counted(old(self).stats.counts, event),
            final(self).event_sink == old(self).event_sink,
            match sink {
                Some(sink) => old(self).event_sink == Some(*sink),
                None => old(self).event_sink is None,
            },
    {
        self.stats.record(event);
        self.event_sink.as_ref()
    }
}

/// The counts after several events.
pub open spec fn counted_all(
    counts: ShardedTcpServerSnapshot,
    events: Seq<ShardedTcpEvent>,
) -> ShardedTcpServerSnapshot
    decreases events.len(),
{
    if events.len() == 0 {
        counts
    } else {
        counted(counted_all(counts, events.drop_last()), events.last())
    }
}

/// Number of events of each kind.
pub open spec fn tally(events: Seq<ShardedTcpEvent>) -> (nat, nat, nat)
    decreases events.len(),
{
    if events.len() == 0 {
        (0, 0, 0)
    } else {
        let (rejections, accept, submit) = tally(events.drop_last());
        match events.last() {
            ShardedTcpEvent::ConnectionLimitRejected { shard_id } => (
                rejections + 1,
                accept,
                submit,
            ),
            ShardedTcpEvent::AcceptError { shard_id, kind } => (rejections, accept + 1, submit),
            ShardedTcpEvent::HandlerSubmitError { shard_id, error } => (
                rejections,
                accept,
                submit + 1,
            ),
        }
    }
}

/// The counters of a new server say how many events of each kind there were.
pub proof fn counters_count_events(events: Seq<ShardedTcpEvent>)
    requires
        events.len() <= u64::MAX,
    ensures
        ({
            let counts = counted_all(zero_counts(), events);
            &&& counts.connection_limit_rejections == tally(events).0
            &&& counts.accept_errors == tally(events).1
            &&& counts.handler_submit_errors == tally(events).2
            &&& tally(events).0 + tally(events).1 + tally(events).2 == events.len()
        }),
    decreases events.len(),
{
    if events.len() > 0 {
        counters_count_events(events.drop_last());
    }
}

/// Each counter counts the events of its own kind, from the first on, wrapping around at
/// the end of its range.
pub proof fn each_event_is_counted_as_its_kind(
    counts: ShardedTcpServerSnapshot,
    event: ShardedTcpEvent,
)
    ensures
        ({
            let after = counted(counts, event);
            let range = u64::MAX as int + 1;
            &&& after.connection_limit_rejections as int == (
            counts.connection_limit_rejections + if event is ConnectionLimitRejected {
                1int
            } else {
                0
            }) % range
            &&& after.accept_errors as int == (counts.accept_errors + if event is AcceptError {
                1int
            } else {
                0
            }) % range
            &&& after.handler_submit_errors as int == (
            counts.handler_submit_errors + if event is HandlerSubmitError {
                1int
            } else {
                0
            }) % range
        }),
        zero_counts().connection_limit_rejections == 0 && zero_counts().accept_errors == 0
            && zero_counts().handler_submit_errors == 0,
{
}

/// The counters after several events are the numbers of the events of each kind.
pub proof fn counters_count_each_kind(events: Seq<ShardedTcpEvent>)
    requires
        events.len() <= u64::MAX,
    ensures
        ({
            let counts = counted_all(zero_counts(), events);
            &&& counts.connection_limit_rejections == events.filter(
                |event: ShardedTcpEvent| event is ConnectionLimitRejected,
            ).len()
            &&& counts.accept_errors == events.filter(
                |event: ShardedTcpEvent| event is AcceptError,
            ).len()
            &&& counts.handler_submit_errors == events.filter(
                |event: ShardedTcpEvent| event is HandlerSubmitError,
            ).len()
        }),
    decreases events.len(),
{
    reveal(Seq::filter);
    if events.len() > 0 {
        counters_count_each_kind(events.drop_last());
        counters_count_events(events.drop_last());
    }
}

} // verus!
