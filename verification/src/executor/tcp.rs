//! Accept loops: how many connections to take, when to stop, and how the
//! handlers' outcomes become the server's.
//!
//! Accepting, spawning and waiting happen outside: a server says what to do
//! next and takes what came of it.

use vstd::prelude::*;

use crate::executor::join::JoinError;
use crate::executor::scope::{BoundedJoin, TaskScopeError};
use crate::executor::spawn_error::SpawnError;
use crate::executor::sync::Notify;
use crate::io_error::{ErrorKind, IoError};
use crate::time::Duration;

verus! {

/// How a server ends its handlers once it takes no more connections.
#[derive(Debug, Clone, Copy, PartialEq, Eq, Structural)]
pub enum TcpHandlerShutdown {
    /// Waits for all of them.
    Wait,
    /// Waits for so long, then aborts them.
    Timeout(Duration),
}

/// When a server stops taking connections.
#[derive(Debug, Clone, Copy, PartialEq, Eq, Structural)]
pub enum ServeMode {
    /// After so many connections.
    Count(usize),
    /// When no connection came for some time.
    UntilIdle,
    /// When it is told to.
    UntilStopped,
}

/// What came of the last accept.
pub enum ServeEvent {
    /// A connection came and its handler was spawned.
    Spawned,
    /// A connection came and its handler could not be spawned.
    SpawnRefused(SpawnError),
    /// Accepting failed.
    AcceptFailed(IoError),
    /// The server was told to stop.
    Stopped,
}

/// What a server does next.
pub enum ServeStep {
    /// Accept a connection.
    Accept,
    /// Give up with this error.
    Fail(IoError),
    /// Wait for the handlers.
    Join,
}

/// A server that accepts connections and spawns a handler for each.
#[derive(Debug, Clone, Copy, PartialEq, Eq, Structural)]
pub struct TcpServe {
    /// When it stops.
    pub mode: ServeMode,
    /// Connections handled so far.
    pub accepted: usize,
}

impl TcpServe {
    /// A server that has accepted nothing.
    pub fn new(mode: ServeMode) -> (serve: Self)
        ensures
            serve == (TcpServe { mode, accepted: 0 }),
    {
        TcpServe { mode, accepted: 0 }
    }

    /// Whether the server has all the connections it takes.
    pub open spec fn full(&self) -> bool {
        self.mode matches ServeMode::Count(n) && self.accepted >= n
    }

    /// The next step while nothing went wrong.
    pub fn next(&self) -> (step: ServeStep)
        ensures
            self.full() ==> step is Join,
            !self.full() ==> step is Accept,
    {
        match self.mode {
            ServeMode::Count(n) => {
                if self.accepted >= n {
                    ServeStep::Join
                } else {
                    ServeStep::Accept
                }
            },
            _ => ServeStep::Accept,
        }
    }

    /// Takes what came of an accept. A spawned handler counts. A refused spawn
    /// and a failed accept end the server, except that running into the idle
    /// limit is how a server that waits for idleness stops.
    pub fn on_event(&mut self, event: ServeEvent) -> (step: ServeStep)
        requires
            event is Spawned ==> old(self).accepted < usize::MAX,
        ensures
            final(self).mode == old(self).mode,
            final(self).accepted == if event is Spawned {
                (old(self).accepted + 1) as usize
            } else {
                old(self).accepted
            },
            match event {
                ServeEvent::Spawned => if final(self).full() {
                    step is Join
                } else {
                    step is Accept
                },
                ServeEvent::SpawnRefused(error) => step is Fail && spawn_io(error, step->0),
                ServeEvent::AcceptFailed(error) => if old(self).mode is UntilIdle && error.kind
                    == ErrorKind::TimedOut {
                    step is Join
                } else {
                    step == ServeStep::Fail(error)
                },
                ServeEvent::Stopped => step is Join,
            },
    {
        match event {
            ServeEvent::Spawned => {
                self.accepted = self.accepted + 1;
                self.next()
            },
            ServeEvent::SpawnRefused(error) => ServeStep::Fail(spawn_error_to_io(error)),
            ServeEvent::AcceptFailed(error) => {
                match self.mode {
                    ServeMode::UntilIdle => {
                        if error.kind == ErrorKind::TimedOut {
                            ServeStep::Join
                        } else {
                            ServeStep::Fail(error)
                        }
                    },
                    _ => ServeStep::Fail(error),
                }
            },
            ServeEvent::Stopped => ServeStep::Join,
        }
    }

    /// The server's outcome, from that of its handlers.
    pub fn finish(&self, joined: Result<(), IoError>) -> (result: Result<usize, IoError>)
        ensures
            result == match joined {
                Ok(()) => Ok::<usize, IoError>(self.accepted),
                Err(error) => Err(error),
            },
    {
        match joined {
            Ok(()) => Ok(self.accepted),
            Err(error) => Err(error),
        }
    }
}

/// `io` is the I/O error that stands for the refused spawn.
pub open spec fn spawn_io(error: SpawnError, io: IoError) -> bool {
    io.says(
        ErrorKind::BrokenPipe,
        match error {
            SpawnError::Closed => "executor is not accepting tasks"@,
            SpawnError::SchedulingGroupExecutorMismatch =>
                "scheduling group belongs to a different executor"@,
        },
    )
}

/// The I/O error that stands for a refused spawn.
pub fn spawn_error_to_io(error: SpawnError) -> (io: IoError)
    ensures
        spawn_io(error, io),
{
    IoError::new(ErrorKind::BrokenPipe, error.message().as_str())
}

/// The I/O error that stands for a task without an output.
pub fn join_error_to_io<P>(error: JoinError<P>) -> (io: IoError)
    ensures
        io.says(ErrorKind::BrokenPipe, error.text()),
{
    IoError::new(ErrorKind::BrokenPipe, error.message().as_str())
}

/// The I/O error of handlers that did not finish in time.
pub fn tcp_shutdown_timeout_io() -> (io: IoError)
    ensures
        io.says(ErrorKind::TimedOut, "TCP handler shutdown timed out"@),
{
    IoError::new(ErrorKind::TimedOut, "TCP handler shutdown timed out")
}

/// The I/O error that stands for a scope that could not shut down.
pub fn task_scope_error_to_io<P>(error: TaskScopeError<P>) -> (io: IoError)
    ensures
        match error {
            TaskScopeError::Join(error) => io.says(ErrorKind::BrokenPipe, error.text()),
            TaskScopeError::TimedOut => io.says(
                ErrorKind::TimedOut,
                "task scope shutdown timed out"@,
            ),
        },
{
    match error {
        TaskScopeError::Join(error) => join_error_to_io(error),
        TaskScopeError::TimedOut => IoError::new(
            ErrorKind::TimedOut,
            "task scope shutdown timed out",
        ),
    }
}

/// How the wait for one handler ended.
pub enum HandlerOutcome<P> {
    /// The handler returned this.
    Finished(Result<(), IoError>),
    /// The handler's task has no output.
    Failed(JoinError<P>),
    /// The deadline passed first.
    TimedOut,
}

/// What is left to do when the handlers are joined.
pub struct HandlersEnd<C> {
    /// The outcome.
    pub result: Result<(), IoError>,
    /// Handlers to abort, in order.
    pub abort: Vec<C>,
}

/// The outcome of one handler, as an I/O result.
pub fn handler_result<P>(outcome: Result<Result<(), IoError>, JoinError<P>>) -> (result: Result<
    (),
    IoError,
>)
    ensures
        match outcome {
            Ok(inner) => result == inner,
            Err(error) => result is Err && result->Err_0.says(
                ErrorKind::BrokenPipe,
                error.text(),
            ),
        },
{
    match outcome {
        Ok(inner) => inner,
        Err(error) => Err(join_error_to_io(error)),
    }
}

/// Goes on after the wait for the current handler ended. A handler that returned
/// success lets the wait go on. One that failed ends it; the others are left
/// running. A deadline that passed ends it, and the current handler and all
/// others are aborted.
pub fn tcp_handler_joined<C, P>(join: &mut BoundedJoin<C>, outcome: HandlerOutcome<P>) -> (end:
    Option<HandlersEnd<C>>)
    requires
        old(join).current is Some,
    ensures
        final(join).deadline == old(join).deadline,
        final(join).current is None,
        match outcome {
            HandlerOutcome::Finished(Ok(())) => end is None
                && final(join).waiting == old(join).waiting,
            HandlerOutcome::Finished(Err(error)) => end is Some && end->0.result == Err::<
                (),
                IoError,
            >(error) && end->0.abort@ == Seq::<C>::empty() && final(join).waiting
                == old(join).waiting,
            HandlerOutcome::Failed(error) => end is Some && end->0.result is Err
                && end->0.result->Err_0.says(ErrorKind::BrokenPipe, error.text())
                && end->0.abort@ == Seq::<C>::empty() && final(join).waiting == old(join).waiting,
            HandlerOutcome::TimedOut => end is Some && end->0.result is Err
                && end->0.result->Err_0.says(
                ErrorKind::TimedOut,
                "TCP handler shutdown timed out"@,
            ) && end->0.abort@ == seq![old(join).current->0] + old(join).waiting@
                && final(join).waiting@ == Seq::<C>::empty(),
        },
{
    match outcome {
        HandlerOutcome::Finished(Ok(())) => {
            join.child_finished();
            None
        },
        HandlerOutcome::Finished(Err(error)) => {
            join.child_finished();
            Some(HandlersEnd { result: Err(error), abort: Vec::new() })
        },
        HandlerOutcome::Failed(error) => {
            join.child_finished();
            Some(HandlersEnd { result: Err(join_error_to_io(error)), abort: Vec::new() })
        },
        HandlerOutcome::TimedOut => {
            let abort = join.give_up();
            Some(HandlersEnd { result: Err(tcp_shutdown_timeout_io()), abort })
        },
    }
}

/// The first error that a handler of a scoped server reported, and the signal
/// that stops the server's accept loop. `W` is whatever wakes a waiter.
pub struct HandlerErrors<W> {
    /// The first error.
    pub stored: Option<IoError>,
    /// Raised with it.
    pub notify: Notify<W>,
}

impl<W> HandlerErrors<W> {
    /// No error so far.
    pub fn new() -> (errors: Self)
        ensures
            errors.stored is None,
            !errors.notify.signal.raised,
            errors.notify.signal.wakers@ == Seq::<W>::empty(),
    {
        HandlerErrors { stored: None, notify: Notify::new() }
    }

    /// Takes a handler's outcome. The first error is kept, and every error
    /// raises the signal. Returns the waiters to wake.
    pub fn record(&mut self, outcome: Result<(), IoError>) -> (woken: Vec<W>)
        ensures
            outcome is Ok ==> *final(self) == *old(self) && woken@ == Seq::<W>::empty(),
            outcome matches Err(error) ==> final(self).notify.signal.raised && final(self).stored
                == (match old(self).stored {
                Some(first) => Some(first),
                None => Some(error),
            }) && woken@ == (if old(self).notify.signal.raised {
                Seq::<W>::empty()
            } else {
                old(self).notify.signal.wakers@
            }) && final(self).notify.signal.wakers@ == (if old(self).notify.signal.raised {
                old(self).notify.signal.wakers@
            } else {
                Seq::<W>::empty()
            }),
    {
        match outcome {
            Ok(()) => Vec::new(),
            Err(error) => {
                if self.stored.is_none() {
                    self.stored = Some(error);
                }
                match self.notify.notify_waiters() {
                    Some(woken) => woken,
                    None => Vec::new(),
                }
            },
        }
    }

    /// Takes the first error.
    pub fn take(&mut self) -> (error: Option<IoError>)
        ensures
            error == old(self).stored,
            final(self).stored is None,
            final(self).notify == old(self).notify,
    {
        self.stored.take()
    }
}

/// The outcome of a scoped server. With a shutdown deadline a handler's error
/// goes before what the shutdown came to; without one it is the other way round.
/// Without any error it is the number of connections.
pub open spec fn scoped_outcome(
    shutdown: TcpHandlerShutdown,
    shutdown_result: Result<(), IoError>,
    handler_error: Option<IoError>,
    accepted: usize,
) -> Result<usize, IoError> {
    match (shutdown_result, handler_error) {
        (Ok(()), None) => Ok(accepted),
        (Ok(()), Some(error)) => Err(error),
        (Err(error), None) => Err(error),
        (Err(error), Some(first)) => if shutdown is Timeout {
            Err(first)
        } else {
            Err(error)
        },
    }
}

/// The outcome of a scoped server, from its shutdown and its handlers' first
/// error.
pub fn scoped_result(
    shutdown: TcpHandlerShutdown,
    shutdown_result: Result<(), IoError>,
    handler_error: Option<IoError>,
    accepted: usize,
) -> (result: Result<usize, IoError>)
    ensures
        result == scoped_outcome(shutdown, shutdown_result, handler_error, accepted),
{
    match handler_error {
        Some(first) => {
            match shutdown {
                TcpHandlerShutdown::Timeout(_) => Err(first),
                TcpHandlerShutdown::Wait => {
                    match shutdown_result {
                        Err(error) => Err(error),
                        Ok(()) => Err(first),
                    }
                },
            }
        },
        None => {
            match shutdown_result {
                Err(error) => Err(error),
                Ok(()) => Ok(accepted),
            }
        },
    }
}

/// A server that takes so many connections has all of them exactly when it took that
/// many; one that runs until it is idle or stopped never has.
pub proof fn only_a_counted_server_fills_up(accepted: usize, n: usize)
    ensures
        (TcpServe { mode: ServeMode::Count(n), accepted }).full() <==> accepted >= n,
        !(TcpServe { mode: ServeMode::UntilIdle, accepted }).full(),
        !(TcpServe { mode: ServeMode::UntilStopped, accepted }).full(),
{
}

/// A scoped server reports the number of its connections exactly where neither a handler
/// nor the shutdown failed. With one failure it reports that one; with both it reports
/// the handler's where the shutdown had a deadline, and the shutdown's where it had none.
pub proof fn scoped_server_reports_a_failure(
    shutdown: TcpHandlerShutdown,
    shutdown_result: Result<(), IoError>,
    handler_error: Option<IoError>,
    accepted: usize,
)
    ensures
        ({
            let outcome = scoped_outcome(shutdown, shutdown_result, handler_error, accepted);
            &&& outcome is Ok <==> shutdown_result is Ok && handler_error is None
            &&& outcome is Ok ==> outcome->Ok_0 == accepted
            &&& outcome is Err ==> handler_error == Some(outcome->Err_0) || shutdown_result
                == Err::<(), IoError>(outcome->Err_0)
            &&& handler_error is Some && shutdown is Timeout ==> outcome->Err_0 == handler_error->0
            &&& shutdown_result is Err && shutdown is Wait ==> outcome->Err_0
                == shutdown_result->Err_0
        }),
{
}

/// A refused spawn is a broken pipe to its connection, with the refusal's own words.
pub proof fn refused_spawn_is_a_broken_pipe(error: SpawnError, io: IoError)
    requires
        spawn_io(error, io),
    ensures
        io.kind == ErrorKind::BrokenPipe,
        io.raw_os_error is None,
        error is Closed ==> io.message@ == "executor is not accepting tasks"@,
        error is SchedulingGroupExecutorMismatch ==> io.message@
            == "scheduling group belongs to a different executor"@,
{
}

} // verus!
