//! Waiting for tasks on shards.

use std::collections::VecDeque;

use vstd::prelude::*;

use crate::executor::join::{completed, AbortReport, JoinError, JoinHandle};
use crate::executor::task::{CancelReport, Task};
use crate::executor::task_state::after_cancel;
use crate::shard::ShardId;
use crate::sharded_executor::placement::ShardedSpawnError;
use crate::text::{decimal, joined, with_number};
use crate::time::{elapsed, saturating_duration_since, Duration, Instant};

verus! {

/// Join handle tagged with the shard on which the task is running. `H` is the
/// handle of the task.
pub struct ShardedJoinHandle<H> {
    /// The shard.
    pub shard_id: ShardId,
    /// The task's handle.
    pub handle: H,
}

/// How a wait with a deadline ended.
pub enum TimedJoin<T, P> {
    /// The task ended in time.
    Joined(Result<T, JoinError<P>>),
    /// The deadline passed.
    TimedOut,
}

impl<H> ShardedJoinHandle<H> {
    /// Tags a handle with its shard.
    pub fn new(shard_id: ShardId, handle: H) -> (tagged: Self)
        ensures
            tagged == (ShardedJoinHandle { shard_id, handle }),
    {
        ShardedJoinHandle { shard_id, handle }
    }

    /// Returns the shard on which the task is running.
    pub fn shard_id(&self) -> (shard_id: ShardId)
        ensures
            shard_id == self.shard_id,
    {
        self.shard_id
    }

    /// Tags the outcome of the task with its shard.
    pub fn join<T, P>(self, outcome: Result<T, JoinError<P>>) -> (result: Result<
        (ShardId, T),
        ShardedJoinError<P>,
    >)
        ensures
            result == tag(self.shard_id, outcome),
    {
        match outcome {
            Ok(output) => Ok((self.shard_id, output)),
            Err(error) => Err(ShardedJoinError { shard_id: self.shard_id, error }),
        }
    }

    /// Tags the outcome of a wait with a deadline. The handle comes back where the
    /// task has to be aborted.
    pub fn join_timeout<T, P>(self, outcome: TimedJoin<T, P>) -> (result: (
        Result<(ShardId, T), ShardedJoinTimeoutError<P>>,
        Option<H>,
    ))
        ensures
            match outcome {
                TimedJoin::Joined(joined) => result.1 is None && match tag(self.shard_id, joined) {
                    Ok(output) => result.0 == Ok::<(ShardId, T), ShardedJoinTimeoutError<P>>(
                        output,
                    ),
                    Err(error) => result.0 == Err::<(ShardId, T), ShardedJoinTimeoutError<P>>(
                        ShardedJoinTimeoutError::Join(error),
                    ),
                },
                TimedJoin::TimedOut => result.1 == Some(self.handle) && result.0 == Err::<
                    (ShardId, T),
                    ShardedJoinTimeoutError<P>,
                >((ShardedJoinTimeoutError::TimedOut { shard_id: self.shard_id })),
            },
    {
        match outcome {
            TimedJoin::Joined(Ok(output)) => (Ok((self.shard_id, output)), None),
            TimedJoin::Joined(Err(error)) => (
                Err(
                    ShardedJoinTimeoutError::Join(
                        ShardedJoinError { shard_id: self.shard_id, error },
                    ),
                ),
                None,
            ),
            TimedJoin::TimedOut => (
                Err(ShardedJoinTimeoutError::TimedOut { shard_id: self.shard_id }),
                Some(self.handle),
            ),
        }
    }
}

impl<T, P, W> ShardedJoinHandle<JoinHandle<T, P, W>> {
    /// Aborts the task if it has not completed yet.
    pub fn abort<F, H>(&mut self, task: &mut Task<F, H>) -> (report: AbortReport<W>)
        ensures
            final(self).shard_id == old(self).shard_id,
            *final(task) == (Task { state: after_cancel(old(task).state), ..*old(task) }),
            report.cancel == (CancelReport {
                accepted: old(task).state.is_live(),
                finished: old(task).state.is_live() && !old(task).state.polling,
                wake_reactor: old(task).state.is_live(),
            }),
            !report.cancel.accepted ==> final(self).handle == old(self).handle
                && report.woken is None,
            report.cancel.accepted ==> final(self).handle.state == completed(
                old(self).handle.state,
                Err(JoinError::Cancelled),
            ) && report.woken == if old(self).handle.state.result is Some {
                None
            } else {
                old(self).handle.state.waker
            },
    {
        self.handle.abort(task)
    }
}

/// An outcome with its shard.
pub open spec fn tag<T, P>(shard_id: ShardId, outcome: Result<T, JoinError<P>>) -> Result<
    (ShardId, T),
    ShardedJoinError<P>,
> {
    match outcome {
        Ok(output) => Ok((shard_id, output)),
        Err(error) => Err(ShardedJoinError { shard_id, error }),
    }
}

/// Error returned when a shard-tagged join handle fails. `P` is the payload of a
/// panic.
#[derive(Debug, Clone, PartialEq, Eq)]
pub struct ShardedJoinError<P> {
    /// The shard whose task failed.
    pub shard_id: ShardId,
    /// Why it failed.
    pub error: JoinError<P>,
}

impl<P> ShardedJoinError<P> {
    /// Returns the shard whose task failed.
    pub fn shard_id(&self) -> (shard_id: ShardId)
        ensures
            shard_id == self.shard_id,
    {
        self.shard_id
    }

    /// Returns the underlying join error.
    pub fn error(&self) -> (error: &JoinError<P>)
        ensures
            *error == self.error,
    {
        &self.error
    }

    /// Consumes this error and returns the underlying join error.
    pub fn into_error(self) -> (error: JoinError<P>)
        ensures
            error == self.error,
    {
        self.error
    }

    /// The text of the error.
    pub open spec fn text(&self) -> Seq<char> {
        "task on shard "@ + decimal(self.shard_id.0 as nat) + " failed: "@ + self.error.text()
    }

    /// Human-readable text of the error.
    pub fn message(&self) -> (text: String)
        ensures
            text@ == self.text(),
    {
        let start = with_number("task on shard ", self.shard_id.0, " failed: ");
        joined(start.as_str(), self.error.message().as_str())
    }
}

/// Error returned when a shard-tagged join handle fails or times out.
#[derive(Debug, Clone, PartialEq, Eq)]
pub enum ShardedJoinTimeoutError<P> {
    /// The task failed while being joined.
    Join(ShardedJoinError<P>),
    /// The timeout elapsed and the task was aborted.
    TimedOut {
        /// Shard whose task timed out.
        shard_id: ShardId,
    },
}

impl<P> ShardedJoinTimeoutError<P> {
    /// The shard whose task failed or timed out.
    pub open spec fn shard(&self) -> ShardId {
        match self {
            ShardedJoinTimeoutError::Join(error) => error.shard_id,
            ShardedJoinTimeoutError::TimedOut { shard_id } => *shard_id,
        }
    }

    /// Returns the shard whose task failed or timed out.
    pub fn shard_id(&self) -> (shard_id: ShardId)
        ensures
            shard_id == self.shard(),
    {
        match self {
            ShardedJoinTimeoutError::Join(error) => error.shard_id(),
            ShardedJoinTimeoutError::TimedOut { shard_id } => *shard_id,
        }
    }

    /// Returns true if the join timed out.
    pub fn is_timed_out(&self) -> (timed_out: bool)
        ensures
            timed_out == (self is TimedOut),
    {
        matches!(self, ShardedJoinTimeoutError::TimedOut { .. })
    }

    /// Returns true if the task failed while being joined.
    pub fn is_join_error(&self) -> (join_error: bool)
        ensures
            join_error == (self is Join),
    {
        matches!(self, ShardedJoinTimeoutError::Join(_))
    }

    /// Human-readable text of the error.
    pub fn message(&self) -> (text: String)
        ensures
            text@ == match self {
                ShardedJoinTimeoutError::Join(error) => error.text(),
                ShardedJoinTimeoutError::TimedOut { shard_id } => "task on shard "@ + decimal(
                    shard_id.0 as nat,
                ) + " timed out"@,
            },
    {
        match self {
            ShardedJoinTimeoutError::Join(error) => error.message(),
            ShardedJoinTimeoutError::TimedOut { shard_id } => {
                with_number("task on shard ", shard_id.0, " timed out")
            },
        }
    }
}

/// Error returned by higher-level sharded operations.
#[derive(Debug, Clone, PartialEq, Eq)]
pub enum ShardedOperationError<P> {
    /// Failed while submitting work to a shard.
    Submit(ShardedSpawnError),
    /// Failed while joining shard work.
    Join(ShardedJoinError<P>),
}

impl<P> ShardedOperationError<P> {
    /// Human-readable text of the error.
    pub fn message(&self) -> (text: String)
        ensures
            text@ == match self {
                ShardedOperationError::Submit(error) => error.text(),
                ShardedOperationError::Join(error) => error.text(),
            },
    {
        match self {
            ShardedOperationError::Submit(error) => error.message(),
            ShardedOperationError::Join(error) => error.message(),
        }
    }
}

/// The outputs in order, or the first failure.
pub open spec fn all_joined<T, P>(results: Seq<Result<(ShardId, T), ShardedJoinError<P>>>) -> Result<
    Seq<(ShardId, T)>,
    ShardedJoinError<P>,
>
    decreases results.len(),
{
    if results.len() == 0 {
        Ok(Seq::empty())
    } else {
        match all_joined(results.drop_last()) {
            Err(error) => Err(error),
            Ok(outputs) => match results.last() {
                Ok(output) => Ok(outputs.push(output)),
                Err(error) => Err(error),
            },
        }
    }
}

proof fn lemma_joined_prefix<T, P>(
    results: Seq<Result<(ShardId, T), ShardedJoinError<P>>>,
    n: int,
    error: ShardedJoinError<P>,
)
    requires
        0 <= n <= results.len(),
        all_joined(results.take(n)) == Err::<Seq<(ShardId, T)>, ShardedJoinError<P>>(error),
    ensures
        all_joined(results) == Err::<Seq<(ShardId, T)>, ShardedJoinError<P>>(error),
    decreases results.len(),
{
    if n < results.len() {
        assert(results.drop_last().take(n) =~= results.take(n));
        lemma_joined_prefix(results.drop_last(), n, error);
    } else {
        assert(results.take(n) =~= results);
    }
}

/// The outcome of waiting for shard-tagged tasks in input order, from the
/// outcomes: those behind the first failure do not count.
pub fn join_all_shards<T, P>(results: Vec<Result<(ShardId, T), ShardedJoinError<P>>>) -> (result:
    Result<Vec<(ShardId, T)>, ShardedJoinError<P>>)
    ensures
        match all_joined(results@) {
            Ok(outputs) => result is Ok && result->Ok_0@ == outputs,
            Err(error) => result == Err::<Vec<(ShardId, T)>, ShardedJoinError<P>>(error),
        },
{
    let ghost all = results@;
    let mut outputs: Vec<(ShardId, T)> = Vec::new();
    assert(all.take(0) =~= Seq::empty());
    for one in it: results
        invariant
            it.seq() == all,
            all == results@,
            all_joined(all.take(it.index() as int)) == Ok::<
                Seq<(ShardId, T)>,
                ShardedJoinError<P>,
            >(outputs@),
    {
        let ghost i = it.index() as int;
        assert(all.take(i + 1).drop_last() =~= all.take(i));
        match one {
            Ok(output) => {
                outputs.push(output);
            },
            Err(error) => {
                proof {
                    lemma_joined_prefix(all, i + 1, error);
                }
                return Err(error);
            },
        }
    }
    assert(all.take(all.len() as int) =~= all);
    Ok(outputs)
}

/// Tasks on shards that are waited for in order until a deadline.
pub struct BoundedShardJoin<H, T> {
    /// When waiting ends.
    pub deadline: Instant,
    /// Tasks not yet waited for.
    pub waiting: VecDeque<ShardedJoinHandle<H>>,
    /// The task that is waited for.
    pub current: Option<ShardedJoinHandle<H>>,
    /// Outputs of the tasks that have finished, in order.
    pub outputs: Vec<(ShardId, T)>,
}

/// What a bounded join does next.
pub enum ShardJoinStep<H, T> {
    /// Wait for the current task, at most for this long.
    Await {
        /// Time left until the deadline.
        remaining: Duration,
    },
    /// Every task has finished.
    Finished {
        /// The outputs in order.
        outputs: Vec<(ShardId, T)>,
    },
    /// The deadline has passed.
    TimedOut {
        /// Shard of the task that was waited for.
        shard_id: ShardId,
        /// Tasks to abort, in order.
        abort: Vec<ShardedJoinHandle<H>>,
    },
}

/// How a bounded join ends early.
pub struct ShardJoinEnd<H, P> {
    /// Why it ends.
    pub error: ShardedJoinTimeoutError<P>,
    /// Tasks to abort, in order.
    pub abort: Vec<ShardedJoinHandle<H>>,
}

impl<H, T> BoundedShardJoin<H, T> {
    /// Waits for tasks for at most `duration` from `now` on.
    pub fn new(handles: Vec<ShardedJoinHandle<H>>, now: Instant, duration: Duration) -> (join: Self)
        requires
            now + duration <= u64::MAX,
        ensures
            join.deadline == now + duration,
            join.waiting@ == handles@,
            join.current is None,
            join.outputs@ == Seq::<(ShardId, T)>::empty(),
    {
        let ghost all = handles@;
        let mut waiting: VecDeque<ShardedJoinHandle<H>> = VecDeque::new();
        for handle in it: handles
            invariant
                it.seq() == all,
                waiting@ == all.take(it.index() as int),
        {
            waiting.push_back(handle);
            assert(waiting@ =~= all.take(it.index() + 1));
        }
        assert(all.take(all.len() as int) =~= all);
        BoundedShardJoin { deadline: now + duration, waiting, current: None, outputs: Vec::new() }
    }

    /// Goes on to the next task. Where no time is left, that task and all behind it
    /// have to be aborted.
    pub fn next(&mut self, now: Instant) -> (step: ShardJoinStep<H, T>)
        requires
            old(self).current is None,
        ensures
            final(self).deadline == old(self).deadline,
            ({
                let waiting = old(self).waiting@;
                let left = elapsed(old(self).deadline, now);
                if waiting.len() == 0 {
                    &&& step is Finished
                    &&& step->outputs@ == old(self).outputs@
                    &&& final(self).waiting@ == waiting
                    &&& final(self).current is None
                    &&& final(self).outputs@ == Seq::<(ShardId, T)>::empty()
                } else if left == 0 {
                    &&& step is TimedOut
                    &&& step->TimedOut_shard_id == waiting[0].shard_id
                    &&& step->abort@ == waiting
                    &&& final(self).waiting@ == Seq::<ShardedJoinHandle<H>>::empty()
                    &&& final(self).current is None
                    &&& final(self).outputs == old(self).outputs
                } else {
                    &&& step == (ShardJoinStep::<H, T>::Await { remaining: left })
                    &&& final(self).waiting@ == waiting.drop_first()
                    &&& final(self).current == Some(waiting[0])
                    &&& final(self).outputs == old(self).outputs
                }
            }),
    {
        match self.waiting.pop_front() {
            None => {
                let mut outputs: Vec<(ShardId, T)> = Vec::new();
                core::mem::swap(&mut outputs, &mut self.outputs);
                ShardJoinStep::Finished { outputs }
            },
            Some(handle) => {
                let remaining: Duration = saturating_duration_since(self.deadline, now);
                let shard_id = handle.shard_id;
                let ghost first = handle;
                self.current = Some(handle);
                assert(self.waiting@ =~= old(self).waiting@.drop_first());
                if remaining == 0 {
                    let abort = self.give_up();
                    assert(abort@ =~= old(self).waiting@);
                    ShardJoinStep::TimedOut { shard_id, abort }
                } else {
                    ShardJoinStep::Await { remaining }
                }
            },
        }
    }

    /// Ends the wait: returns every task that has not finished, the current one
    /// first.
    pub fn give_up(&mut self) -> (abort: Vec<ShardedJoinHandle<H>>)
        ensures
            final(self).deadline == old(self).deadline,
            final(self).outputs == old(self).outputs,
            final(self).current is None,
            final(self).waiting@ == Seq::<ShardedJoinHandle<H>>::empty(),
            abort@ == match old(self).current {
                Some(handle) => seq![handle] + old(self).waiting@,
                None => old(self).waiting@,
            },
    {
        let mut abort: Vec<ShardedJoinHandle<H>> = Vec::new();
        match self.current.take() {
            Some(handle) => {
                abort.push(handle);
            },
            None => {},
        }
        let ghost first = abort@;
        let ghost all = self.waiting@;
        assert(first + all.take(0) =~= first);
        while self.waiting.len() > 0
            invariant
                self.deadline == old(self).deadline,
                self.outputs == old(self).outputs,
                self.current is None,
                self.waiting@.len() <= all.len(),
                self.waiting@ == all.skip(all.len() - self.waiting@.len()),
                abort@ == first + all.take(all.len() - self.waiting@.len()),
            decreases self.waiting@.len(),
        {
            let ghost n = all.len() - self.waiting@.len();
            match self.waiting.pop_front() {
                Some(handle) => {
                    abort.push(handle);
                    proof {
                        assert(self.waiting@ =~= all.skip(n + 1));
                        assert(abort@ =~= first + all.take(n + 1));
                    }
                },
                None => {},
            }
        }
        proof {
            assert(all.take(all.len() as int) =~= all);
            assert(abort@ =~= first + all);
        }
        abort
    }

    /// Goes on after the wait for the current task ended. A task that finished lets
    /// the join go on; one that failed ends it; a deadline that passed ends it, and
    /// every task that has not finished is aborted.
    pub fn joined<P>(&mut self, outcome: TimedJoin<T, P>) -> (end: Option<ShardJoinEnd<H, P>>)
        requires
            old(self).current is Some,
        ensures
            final(self).deadline == old(self).deadline,
            final(self).current is None,
            ({
                let shard_id = old(self).current->0.shard_id;
                match outcome {
                    TimedJoin::Joined(Ok(output)) => {
                        &&& end is None
                        &&& final(self).waiting == old(self).waiting
                        &&& final(self).outputs@ == old(self).outputs@.push((shard_id, output))
                    },
                    TimedJoin::Joined(Err(error)) => {
                        &&& end is Some
                        &&& end->0.error == ShardedJoinTimeoutError::Join(
                            (ShardedJoinError { shard_id, error }),
                        )
                        &&& end->0.abort@ == Seq::<ShardedJoinHandle<H>>::empty()
                        &&& final(self).waiting == old(self).waiting
                        &&& final(self).outputs == old(self).outputs
                    },
                    TimedJoin::TimedOut => {
                        &&& end is Some
                        &&& end->0.error == (ShardedJoinTimeoutError::<P>::TimedOut { shard_id })
                        &&& end->0.abort@ == seq![old(self).current->0] + old(self).waiting@
                        &&& final(self).waiting@ == Seq::<ShardedJoinHandle<H>>::empty()
                        &&& final(self).outputs == old(self).outputs
                    },
                }
            }),
    {
        match outcome {
            TimedJoin::Joined(Ok(output)) => {
                let handle = self.current.take().unwrap();
                self.outputs.push((handle.shard_id, output));
                None
            },
            TimedJoin::Joined(Err(error)) => {
                let handle = self.current.take().unwrap();
                let error = ShardedJoinError { shard_id: handle.shard_id, error };
                Some(
                    ShardJoinEnd { error: ShardedJoinTimeoutError::Join(error), abort: Vec::new() },
                )
            },
            TimedJoin::TimedOut => {
                let shard_id = match &self.current {
                    Some(handle) => handle.shard_id,
                    None => ShardId(0),
                };
                let abort = self.give_up();
                Some(ShardJoinEnd { error: ShardedJoinTimeoutError::TimedOut { shard_id }, abort })
            },
        }
    }
}

/// Whether `result` comes of reducing shard-tagged outputs from the first to the
/// last.
pub open spec fn reduces<Acc, T, F: Fn(Acc, ShardId, T) -> Acc>(
    reduce: F,
    initial: Acc,
    outputs: Seq<(ShardId, T)>,
    result: Acc,
) -> bool
    decreases outputs.len(),
{
    if outputs.len() == 0 {
        result == initial
    } else {
        exists|before: Acc|
            reduces(reduce, initial, outputs.drop_last(), before) && #[trigger] reduce.ensures(
                (before, outputs.last().0, outputs.last().1),
                result,
            )
    }
}

/// Reduces shard-tagged outputs into one value, in order.
pub fn reduce_outputs<Acc, T, F: Fn(Acc, ShardId, T) -> Acc>(
    outputs: Vec<(ShardId, T)>,
    initial: Acc,
    reduce: F,
) -> (result: Acc)
    requires
        forall|acc: Acc, shard_id: ShardId, output: T|
            #[trigger] reduce.requires((acc, shard_id, output)),
    ensures
        reduces(reduce, initial, outputs@, result),
{
    let ghost all = outputs@;
    let ghost first = initial;
    let mut acc = initial;
    assert(all.take(0) =~= Seq::empty());
    for pair in it: outputs
        invariant
            it.seq() == all,
            forall|acc: Acc, shard_id: ShardId, output: T|
                #[trigger] reduce.requires((acc, shard_id, output)),
            reduces(reduce, first, all.take(it.index() as int), acc),
    {
        let ghost before = acc;
        let (shard_id, output) = pair;
        acc = reduce(acc, shard_id, output);
        proof {
            let i = it.index() as int;
            assert(all.take(i + 1).drop_last() =~= all.take(i));
            let last = all.take(i + 1).last();
            assert(reduce.ensures((before, last.0, last.1), acc));
        }
    }
    assert(all.take(all.len() as int) =~= all);
    acc
}

/// Joining all tasks gives every output with the shard that it came from, in order, or
/// the error of the first task that failed.
pub proof fn join_of_all_is_every_output_or_the_first_error<T, P>(
    results: Seq<Result<(ShardId, T), ShardedJoinError<P>>>,
)
    ensures
        match all_joined(results) {
            Ok(outputs) => {
                &&& outputs.len() == results.len()
                &&& forall|i: int|
                    0 <= i < results.len() ==> #[trigger] results[i] == Ok::<
                        (ShardId, T),
                        ShardedJoinError<P>,
                    >(outputs[i])
            },
            Err(error) => exists|i: int|
                0 <= i < results.len() && #[trigger] results[i] == Err::<
                    (ShardId, T),
                    ShardedJoinError<P>,
                >(error) && forall|j: int| 0 <= j < i ==> (#[trigger] results[j]) is Ok,
        },
    decreases results.len(),
{
    if results.len() > 0 {
        let front = results.drop_last();
        let last = results.len() - 1;
        join_of_all_is_every_output_or_the_first_error(front);
        match all_joined(front) {
            Err(error) => {
                let i = choose|i: int|
                    0 <= i < front.len() && #[trigger] front[i] == Err::<
                        (ShardId, T),
                        ShardedJoinError<P>,
                    >(error) && forall|j: int| 0 <= j < i ==> (#[trigger] front[j]) is Ok;
                assert(results[i] == front[i]);
                assert forall|j: int| 0 <= j < i implies (#[trigger] results[j]) is Ok by {
                    assert(front[j] is Ok);
                }
            },
            Ok(outputs) => {
                assert forall|j: int| 0 <= j < last implies #[trigger] results[j] == Ok::<
                    (ShardId, T),
                    ShardedJoinError<P>,
                >(outputs[j]) by {
                    assert(front[j] == results[j]);
                }
                assert(results.last() == results[last]);
            },
        }
    }
}

/// What a task came to is handed on as it is, with the shard that it ran on.
pub proof fn outcome_is_tagged_with_its_shard<T, P>(
    shard_id: ShardId,
    outcome: Result<T, JoinError<P>>,
)
    ensures
        tag(shard_id, outcome) is Ok <==> outcome is Ok,
        tag(shard_id, outcome) matches Ok(pair) ==> pair.0 == shard_id && outcome == Ok::<
            T,
            JoinError<P>,
        >(pair.1),
        tag(shard_id, outcome) matches Err(failure) ==> failure.shard_id == shard_id && outcome
            == Err::<T, JoinError<P>>(failure.error),
{
}

/// Reducing with a function that computes `step` gives what folding the outputs with
/// `step`, first to last, gives.
pub proof fn reduction_takes_outputs_first_to_last<Acc, T, F: Fn(Acc, ShardId, T) -> Acc>(
    reduce: F,
    step: spec_fn(Acc, ShardId, T) -> Acc,
    initial: Acc,
    outputs: Seq<(ShardId, T)>,
    result: Acc,
)
    requires
        forall|acc: Acc, shard_id: ShardId, output: T, out: Acc| #[trigger]
            reduce.ensures((acc, shard_id, output), out) ==> out == step(acc, shard_id, output),
        reduces(reduce, initial, outputs, result),
    ensures
        result == outputs.fold_left(
            initial,
            |acc: Acc, output: (ShardId, T)| step(acc, output.0, output.1),
        ),
    decreases outputs.len(),
{
    if outputs.len() > 0 {
        let before = choose|before: Acc|
            reduces(reduce, initial, outputs.drop_last(), before) && #[trigger] reduce.ensures(
                (before, outputs.last().0, outputs.last().1),
                result,
            );
        reduction_takes_outputs_first_to_last(reduce, step, initial, outputs.drop_last(), before);
    }
}

/// A failed or late join names the shard that it was for.
pub proof fn late_join_names_its_shard<P>(failure: ShardedJoinError<P>, late: ShardId)
    ensures
        ShardedJoinTimeoutError::Join(failure).shard() == failure.shard_id,
        (ShardedJoinTimeoutError::<P>::TimedOut { shard_id: late }).shard() == late,
{
}

/// A failed task is reported with the number of its shard and with what became of it.
pub proof fn failed_task_is_reported_with_its_shard<P>(failure: ShardedJoinError<P>)
    ensures
        failure.text() == "task on shard "@ + decimal(failure.shard_id.0 as nat) + " failed: "@ + (
        match failure.error {
            JoinError::Cancelled => "task was cancelled"@,
            JoinError::Panic(_) => "task panicked"@,
        }),
{
}

} // verus!
