//! Handing a spawned task's output to whoever waits for it.

use vstd::prelude::*;

use crate::executor::task::{CancelReport, Task};
use crate::executor::task_state::after_cancel;

verus! {

/// Error returned when a spawned task did not produce a value. `P` is the
/// payload of a panic.
#[derive(Debug, Clone, PartialEq, Eq)]
pub enum JoinError<P> {
    /// The task was aborted before it completed.
    Cancelled,
    /// The task panicked while it was being polled.
    Panic(P),
}

impl<P> JoinError<P> {
    /// Returns true if the task was aborted before completion.
    pub fn is_cancelled(&self) -> (cancelled: bool)
        ensures
            cancelled == (self is Cancelled),
    {
        matches!(self, JoinError::Cancelled)
    }

    /// Returns true if the task panicked while it was being polled.
    pub fn is_panic(&self) -> (panicked: bool)
        ensures
            panicked == (self is Panic),
    {
        matches!(self, JoinError::Panic(_))
    }

    /// Consumes the error and returns the panic payload if the task panicked.
    pub fn into_panic(self) -> (payload: Option<P>)
        ensures
            payload == match self {
                JoinError::Cancelled => None,
                JoinError::Panic(payload) => Some(payload),
            },
    {
        match self {
            JoinError::Cancelled => None,
            JoinError::Panic(payload) => Some(payload),
        }
    }

    /// The text of the error.
    pub open spec fn text(&self) -> Seq<char> {
        match self {
            JoinError::Cancelled => "task was cancelled"@,
            JoinError::Panic(_) => "task panicked"@,
        }
    }

    /// Human-readable text of the error.
    pub fn message(&self) -> (text: String)
        ensures
            text@ == self.text(),
    {
        match self {
            JoinError::Cancelled => "task was cancelled".to_owned(),
            JoinError::Panic(_) => "task panicked".to_owned(),
        }
    }
}

/// What a task and its join handle share.
pub struct JoinState<T, P, W> {
    /// Outcome of the task, until the handle takes it.
    pub result: Option<Result<T, JoinError<P>>>,
    /// Who waits for it.
    pub waker: Option<W>,
}

/// What aborting a task through its handle came to.
pub struct AbortReport<W> {
    /// What the cancellation came to.
    pub cancel: CancelReport,
    /// Who waited for the outcome and has to be woken.
    pub woken: Option<W>,
}

/// The state after the outcome is known: the first outcome counts until it is
/// taken.
pub open spec fn completed<T, P, W>(
    state: JoinState<T, P, W>,
    result: Result<T, JoinError<P>>,
) -> JoinState<T, P, W> {
    if state.result is Some {
        state
    } else {
        JoinState { result: Some(result), waker: None }
    }
}

/// Stores the outcome of a task, unless one is stored, and returns the waiter to
/// wake.
pub fn complete_join<T, P, W>(
    state: &mut JoinState<T, P, W>,
    result: Result<T, JoinError<P>>,
) -> (woken: Option<W>)
    ensures
        *final(state) == completed(*old(state), result),
        woken == if old(state).result is Some {
            None
        } else {
            old(state).waker
        },
{
    if state.result.is_some() {
        None
    } else {
        state.result = Some(result);
        state.waker.take()
    }
}

/// Waits for a spawned task.
pub struct JoinHandle<T, P, W> {
    /// What the handle shares with the task.
    pub state: JoinState<T, P, W>,
}

impl<T, P, W> JoinHandle<T, P, W> {
    /// A handle of a task that has no outcome yet.
    pub fn new() -> (handle: Self)
        ensures
            handle.state == (JoinState::<T, P, W> { result: None, waker: None }),
    {
        JoinHandle { state: JoinState { result: None, waker: None } }
    }

    /// Takes the outcome, or leaves `waker` to be woken when it is there.
    pub fn poll(&mut self, waker: W) -> (result: Option<Result<T, JoinError<P>>>)
        ensures
            result == old(self).state.result,
            final(self).state.result is None,
            final(self).state.waker == if result is Some {
                old(self).state.waker
            } else {
                Some(waker)
            },
    {
        match self.state.result.take() {
            Some(result) => Some(result),
            None => {
                self.state.waker = Some(waker);
                None
            },
        }
    }

    /// Stores the outcome that the task reports.
    pub fn complete(&mut self, result: Result<T, JoinError<P>>) -> (woken: Option<W>)
        ensures
            final(self).state == completed(old(self).state, result),
            woken == if old(self).state.result is Some {
                None
            } else {
                old(self).state.waker
            },
    {
        complete_join(&mut self.state, result)
    }

    /// Aborts the task if it has not completed yet. After that the outcome is
    /// that it was cancelled, unless there was one already.
    pub fn abort<F, H>(&mut self, task: &mut Task<F, H>) -> (report: AbortReport<W>)
        ensures
            *final(task) == (Task { state: after_cancel(old(task).state), ..*old(task) }),
            report.cancel == (CancelReport {
                accepted: old(task).state.is_live(),
                finished: old(task).state.is_live() && !old(task).state.polling,
                wake_reactor: old(task).state.is_live(),
            }),
            !report.cancel.accepted ==> *final(self) == *old(self) && report.woken is None,
            report.cancel.accepted ==> final(self).state == completed(
                old(self).state,
                Err(JoinError::Cancelled),
            ) && report.woken == if old(self).state.result is Some {
                None
            } else {
                old(self).state.waker
            },
    {
        let cancel = task.cancel();
        if !cancel.accepted {
            return AbortReport { cancel, woken: None };
        }
        let woken = complete_join(&mut self.state, Err(JoinError::Cancelled));
        AbortReport { cancel, woken }
    }
}

/// The first outcome is the one that counts: a task that completes after it was
/// aborted, or is aborted after it completed, keeps what came first.
pub proof fn first_outcome_counts<T, P, W>(
    state: JoinState<T, P, W>,
    first: Result<T, JoinError<P>>,
    second: Result<T, JoinError<P>>,
)
    ensures
        completed(completed(state, first), second) == completed(state, first),
        state.result is None ==> completed(state, first).result == Some(first),
{
}

/// An outcome is kept until it is taken, and the waiter that was there is woken for it
/// and for nothing later. An outcome that comes second changes nothing.
pub proof fn outcome_is_kept_for_the_waiter<T, P, W>(
    state: JoinState<T, P, W>,
    result: Result<T, JoinError<P>>,
)
    ensures
        state.result is None ==> completed(state, result).result == Some(result) && completed(
            state,
            result,
        ).waker is None,
        state.result is Some ==> completed(state, result) == state,
{
}

/// A join error says whether the task was cancelled or panicked, whatever it panicked with.
pub proof fn join_error_says_how_the_task_ended<P>(payload: P)
    ensures
        JoinError::<P>::Cancelled.text() == "task was cancelled"@,
        JoinError::Panic(payload).text() == "task panicked"@,
{
}

} // verus!
