//! Grouped child tasks with cooperative shutdown.
//!
//! [`TaskScope`] owns a set of spawned tasks and a shared stop signal. Closing a
//! scope signals stop and aborts the children it still owns. A shutdown with a
//! deadline waits for the children one by one and aborts what is left when the
//! deadline passes.

use vstd::prelude::*;

use crate::executor::join::JoinError;
use crate::executor::sync::{Signal, StopSource, StopToken};
use crate::executor::task::CancelReport;
use crate::text::joined;
use crate::time::{elapsed, saturating_duration_since, Duration, Instant};

verus! {

/// Error returned when a task scope cannot shut down cleanly. `P` is the payload
/// of a panic.
#[derive(Debug, Clone, PartialEq, Eq)]
pub enum TaskScopeError<P> {
    /// A child task failed while the scope was waiting for shutdown.
    Join(JoinError<P>),
    /// The shutdown deadline elapsed before all child tasks completed.
    TimedOut,
}

impl<P> TaskScopeError<P> {
    /// Returns true if shutdown timed out.
    pub fn is_timed_out(&self) -> (timed_out: bool)
        ensures
            timed_out == (self is TimedOut),
    {
        matches!(self, TaskScopeError::TimedOut)
    }

    /// Returns true if a child task failed while shutting down.
    pub fn is_join_error(&self) -> (join_error: bool)
        ensures
            join_error == (self is Join),
    {
        matches!(self, TaskScopeError::Join(_))
    }

    /// Human-readable text of the error.
    pub fn message(&self) -> (text: String)
        ensures
            text@ == match self {
                TaskScopeError::Join(error) => "task scope child failed: "@ + error.text(),
                TaskScopeError::TimedOut => "task scope shutdown timed out"@,
            },
    {
        match self {
            TaskScopeError::Join(error) => {
                joined("task scope child failed: ", error.message().as_str())
            },
            TaskScopeError::TimedOut => "task scope shutdown timed out".to_owned(),
        }
    }
}

/// Children that are waited for one by one, the last one first, until a
/// deadline.
pub struct BoundedJoin<C> {
    /// When waiting ends.
    pub deadline: Instant,
    /// Children not yet waited for.
    pub waiting: Vec<C>,
    /// The child that is waited for.
    pub current: Option<C>,
}

/// What a bounded join does next.
pub enum JoinStep<C> {
    /// Wait for the current child, at most for this long.
    Await {
        /// Time left until the deadline.
        remaining: Duration,
    },
    /// Every child has finished.
    Finished,
    /// The deadline has passed; these children have to be aborted, in order.
    TimedOut {
        /// Children to abort.
        abort: Vec<C>,
    },
}

impl<C> BoundedJoin<C> {
    /// Waits for `children` for at most `duration` from `now` on.
    pub fn new(children: Vec<C>, now: Instant, duration: Duration) -> (join: Self)
        requires
            now + duration <= u64::MAX,
        ensures
            join.deadline == now + duration,
            join.waiting == children,
            join.current is None,
    {
        BoundedJoin { deadline: now + duration, waiting: children, current: None }
    }

    /// Goes on to the next child: the last one that was not waited for. Where no
    /// time is left, that child and all others have to be aborted.
    pub fn next(&mut self, now: Instant) -> (step: JoinStep<C>)
        requires
            old(self).current is None,
        ensures
            final(self).deadline == old(self).deadline,
            ({
                let waiting = old(self).waiting@;
                let left = elapsed(old(self).deadline, now);
                if waiting.len() == 0 {
                    &&& step is Finished
                    &&& final(self).waiting@ == waiting
                    &&& final(self).current is None
                } else if left == 0 {
                    &&& step is TimedOut
                    &&& step->abort@ == seq![waiting.last()] + waiting.drop_last()
                    &&& final(self).waiting@ == Seq::<C>::empty()
                    &&& final(self).current is None
                } else {
                    &&& step == (JoinStep::<C>::Await { remaining: left })
                    &&& final(self).waiting@ == waiting.drop_last()
                    &&& final(self).current == Some(waiting.last())
                }
            }),
    {
        match self.waiting.pop() {
            None => JoinStep::Finished,
            Some(child) => {
                let remaining: Duration = saturating_duration_since(self.deadline, now);
                if remaining == 0 {
                    self.current = Some(child);
                    JoinStep::TimedOut { abort: self.give_up() }
                } else {
                    self.current = Some(child);
                    JoinStep::Await { remaining }
                }
            },
        }
    }

    /// Notes that the current child has finished.
    pub fn child_finished(&mut self)
        ensures
            final(self).current is None,
            final(self).waiting == old(self).waiting,
            final(self).deadline == old(self).deadline,
    {
        self.current = None;
    }

    /// Ends the wait: returns every child that has not finished, the current one
    /// first.
    pub fn give_up(&mut self) -> (abort: Vec<C>)
        ensures
            final(self).deadline == old(self).deadline,
            final(self).current is None,
            final(self).waiting@ == Seq::<C>::empty(),
            abort@ == match old(self).current {
                Some(child) => seq![child] + old(self).waiting@,
                None => old(self).waiting@,
            },
    {
        let mut abort: Vec<C> = Vec::new();
        match self.current.take() {
            Some(child) => {
                abort.push(child);
            },
            None => {},
        }
        let ghost first = abort@;
        abort.append(&mut self.waiting);
        assert(abort@ =~= first + old(self).waiting@);
        abort
    }
}

/// How the wait for one child ended.
pub enum ChildOutcome<P> {
    /// The child completed.
    Finished,
    /// The child failed.
    Failed(JoinError<P>),
    /// The deadline passed first.
    TimedOut,
}

/// What is left to do when a scope has shut down.
pub struct ScopeEnd<C, P> {
    /// The outcome.
    pub result: Result<(), TaskScopeError<P>>,
    /// Children to abort, in order.
    pub abort: Vec<C>,
}

/// Owns a group of spawned tasks and a shared cooperative stop signal. `C` is a
/// handle of a child and `W` whatever wakes a waiter.
pub struct TaskScope<C, W> {
    /// Tells the children to stop.
    pub stop_source: StopSource<W>,
    /// Children owned by the scope.
    pub handles: Vec<C>,
}

impl<C, W> TaskScope<C, W> {
    /// Creates a new scope without children.
    pub fn new() -> (scope: Self)
        ensures
            !scope.stop_source.signal.raised,
            scope.stop_source.signal.wakers@ == Seq::<W>::empty(),
            scope.handles@ == Seq::<C>::empty(),
    {
        TaskScope { stop_source: StopSource { signal: Signal::new() }, handles: Vec::new() }
    }

    /// Returns a token for the scope's stop signal.
    pub fn stop_token(&self) -> (token: StopToken)
        ensures
            token == (StopToken {  }),
    {
        StopToken {  }
    }

    /// Returns true if this scope has already been asked to stop.
    pub fn is_stopped(&self) -> (stopped: bool)
        ensures
            stopped == self.stop_source.signal.raised,
    {
        self.stop_source.is_stopped()
    }

    /// Requests cooperative stop for tasks in this scope. Returns the waiters to
    /// wake, or nothing where stop was requested before.
    pub fn stop(&mut self) -> (woken: Option<Vec<W>>)
        ensures
            final(self).stop_source.signal.raised,
            final(self).handles == old(self).handles,
            woken is None <==> old(self).stop_source.signal.raised,
            old(self).stop_source.signal.raised ==> *final(self) == *old(self),
            old(self).stop_source.wf() ==> final(self).stop_source.wf(),
            woken matches Some(wakers) ==> wakers@ == old(self).stop_source.signal.wakers@
                && final(self).stop_source.signal.wakers@ == Seq::<W>::empty(),
    {
        self.stop_source.stop()
    }

    /// Takes a spawned child into the scope.
    pub fn adopt(&mut self, child: C)
        ensures
            final(self).handles@ == old(self).handles@.push(child),
            final(self).stop_source == old(self).stop_source,
    {
        self.handles.push(child);
    }

    /// Counts the newly aborted children, from what aborting each came to.
    pub fn abort_all(&self, reports: &Vec<CancelReport>) -> (aborted: usize)
        requires
            reports@.len() == self.handles@.len(),
        ensures
            aborted == accepted_count(reports@),
            aborted <= self.handles@.len(),
    {
        count_aborted(reports)
    }

    /// Requests stop and starts to wait for the children for at most `duration`.
    /// Returns the waiters to wake and the wait. The stop signal stays.
    pub fn shutdown_timeout(&mut self, now: Instant, duration: Duration) -> (result: (
        Vec<W>,
        BoundedJoin<C>,
    ))
        requires
            now + duration <= u64::MAX,
        ensures
            old(self).closes(result.0@, *final(self)),
            result.1.deadline == now + duration,
            result.1.waiting@ == old(self).handles@,
            result.1.current is None,
    {
        let (woken, children) = self.close();
        (woken, BoundedJoin::new(children, now, duration))
    }

    /// Whether a scope is stopped and has no children any more, and `woken` are the
    /// waiters that it woke.
    pub open spec fn closes(&self, woken: Seq<W>, after: Self) -> bool {
        &&& after.stop_source.signal.raised
        &&& after.handles@ == Seq::<C>::empty()
        &&& self.stop_source.wf() ==> after.stop_source.wf()
        &&& if self.stop_source.signal.raised {
            woken == Seq::<W>::empty() && after.stop_source == self.stop_source
        } else {
            woken == self.stop_source.signal.wakers@ && after.stop_source.signal.wakers@
                == Seq::<W>::empty()
        }
    }

    /// Closes the scope: requests stop and returns the waiters to wake and the
    /// children to abort. The stop signal stays.
    pub fn close(&mut self) -> (result: (Vec<W>, Vec<C>))
        ensures
            old(self).closes(result.0@, *final(self)),
            result.1@ == old(self).handles@,
    {
        let woken = match self.stop() {
            Some(wakers) => wakers,
            None => Vec::new(),
        };
        let mut children: Vec<C> = Vec::new();
        core::mem::swap(&mut children, &mut self.handles);
        (woken, children)
    }
}

/// Goes on with a scope's shutdown after the wait for the current child ended.
/// A child that finished lets the shutdown go on. A child that failed ends it,
/// and the children not yet waited for are aborted. A deadline that passed ends
/// it, and the current child is aborted too.
pub fn scope_child_joined<C, P>(join: &mut BoundedJoin<C>, outcome: ChildOutcome<P>) -> (end: Option<
    ScopeEnd<C, P>,
>)
    requires
        old(join).current is Some,
    ensures
        final(join).deadline == old(join).deadline,
        final(join).current is None,
        match outcome {
            ChildOutcome::Finished => end is None && final(join).waiting == old(join).waiting,
            ChildOutcome::Failed(error) => end is Some && end->0.result == Err::<
                (),
                TaskScopeError<P>,
            >(TaskScopeError::Join(error)) && end->0.abort@ == old(join).waiting@
                && final(join).waiting@ == Seq::<C>::empty(),
            ChildOutcome::TimedOut => end is Some && end->0.result == Err::<
                (),
                TaskScopeError<P>,
            >(TaskScopeError::TimedOut)
                && end->0.abort@ == seq![old(join).current->0] + old(join).waiting@
                && final(join).waiting@ == Seq::<C>::empty(),
        },
{
    match outcome {
        ChildOutcome::Finished => {
            join.child_finished();
            None
        },
        ChildOutcome::Failed(error) => {
            join.child_finished();
            let abort = join.give_up();
            Some(ScopeEnd { result: Err(TaskScopeError::Join(error)), abort })
        },
        ChildOutcome::TimedOut => {
            let abort = join.give_up();
            Some(ScopeEnd { result: Err(TaskScopeError::TimedOut), abort })
        },
    }
}

/// Number of cancellations that were accepted.
pub open spec fn accepted_count(reports: Seq<CancelReport>) -> nat
    decreases reports.len(),
{
    if reports.len() == 0 {
        0
    } else {
        accepted_count(reports.drop_last()) + if reports.last().accepted {
            1nat
        } else {
            0
        }
    }
}

/// Counts the children whose abort was accepted.
pub fn count_aborted(reports: &Vec<CancelReport>) -> (count: usize)
    ensures
        count == accepted_count(reports@),
        count <= reports@.len(),
{
    let mut count: usize = 0;
    let mut i: usize = 0;
    assert(reports@.take(0) =~= Seq::empty());
    while i < reports.len()
        invariant
            i <= reports.len(),
            count <= i,
            count == accepted_count(reports@.take(i as int)),
        decreases reports.len() - i,
    {
        proof {
            assert(reports@.take(i + 1).drop_last() =~= reports@.take(i as int));
        }
        if reports[i].accepted {
            count = count + 1;
        }
        i = i + 1;
    }
    assert(reports@.take(i as int) =~= reports@);
    count
}

/// Waits for children in order: the outcome is that of the first child that
/// failed, or success where none did.
pub open spec fn joined_in_order<T, E>(results: Seq<Result<T, E>>) -> Result<(), E>
    decreases results.len(),
{
    if results.len() == 0 {
        Ok(())
    } else {
        match results[0] {
            Err(error) => Err(error),
            Ok(_) => joined_in_order(results.drop_first()),
        }
    }
}

/// The outcome of waiting for all children in order, from their outcomes.
pub fn join_in_order<T, E>(results: Vec<Result<T, E>>) -> (result: Result<(), E>)
    ensures
        result == joined_in_order(results@),
{
    let ghost all = results@;
    assert(all.skip(0) =~= all);
    for child in it: results
        invariant
            it.seq() == all,
            joined_in_order(all) == joined_in_order(all.skip(it.index() as int)),
    {
        proof {
            let i = it.index() as int;
            assert(all.skip(i)[0] == all[i]);
            assert(all.skip(i).drop_first() =~= all.skip(i + 1));
        }
        match child {
            Err(error) => {
                return Err(error);
            },
            Ok(_) => {},
        }
    }
    assert(all.skip(all.len() as int) =~= Seq::empty());
    Ok(())
}

/// Each accepted abort is counted once, and nothing else is.
pub proof fn accepted_aborts_are_counted(reports: Seq<CancelReport>)
    ensures
        accepted_count(reports) == reports.filter(|report: CancelReport| report.accepted).len(),
    decreases reports.len(),
{
    reveal(Seq::filter);
    if reports.len() > 0 {
        accepted_aborts_are_counted(reports.drop_last());
    }
}

/// A scope joins its tasks in order and stops at the first that failed, whose error it
/// has; it succeeds exactly where all of them did.
pub proof fn scope_fails_with_its_first_failure<T, E>(results: Seq<Result<T, E>>)
    ensures
        match joined_in_order(results) {
            Ok(_) => forall|i: int| 0 <= i < results.len() ==> (#[trigger] results[i]) is Ok,
            Err(error) => exists|i: int|
                0 <= i < results.len() && #[trigger] results[i] == Err::<T, E>(error) && forall|
                    j: int,
                |
                    0 <= j < i ==> (#[trigger] results[j]) is Ok,
        },
    decreases results.len(),
{
    if results.len() > 0 {
        let rest = results.drop_first();
        scope_fails_with_its_first_failure(rest);
        match results[0] {
            Err(error) => {
                assert(results[0] == Err::<T, E>(error));
            },
            Ok(_) => {
                match joined_in_order(rest) {
                    Ok(_) => {
                        assert forall|i: int| 0 <= i < results.len() implies (
                        #[trigger] results[i]) is Ok by {
                            if i > 0 {
                                assert(rest[i - 1] is Ok);
                            }
                        }
                    },
                    Err(error) => {
                        let i = choose|i: int|
                            0 <= i < rest.len() && #[trigger] rest[i] == Err::<T, E>(error)
                                && forall|j: int| 0 <= j < i ==> (#[trigger] rest[j]) is Ok;
                        assert(results[i + 1] == rest[i]);
                        assert forall|j: int| 0 <= j < i + 1 implies (
                        #[trigger] results[j]) is Ok by {
                            if j > 0 {
                                assert(rest[j - 1] is Ok);
                            }
                        }
                    },
                }
            },
        }
    }
}

/// A scope that closes has asked its children to stop and owns none of them any more.
/// Every waiter for the stop is woken, the first time it is asked for; later there is
/// nobody to wake.
pub proof fn closing_scope_wakes_its_waiters_once<C, W>(
    scope: TaskScope<C, W>,
    woken: Seq<W>,
    closed: TaskScope<C, W>,
    woken_again: Seq<W>,
    closed_again: TaskScope<C, W>,
)
    requires
        scope.closes(woken, closed),
        closed.closes(woken_again, closed_again),
    ensures
        closed.stop_source.signal.raised && closed_again.stop_source.signal.raised,
        closed.handles@.len() == 0 && closed_again.handles@.len() == 0,
        !scope.stop_source.signal.raised ==> woken == scope.stop_source.signal.wakers@
            && closed.stop_source.signal.wakers@.len() == 0,
        scope.stop_source.signal.raised ==> woken.len() == 0,
        woken_again.len() == 0,
        scope.stop_source.wf() ==> closed.stop_source.wf(),
{
}

} // verus!
