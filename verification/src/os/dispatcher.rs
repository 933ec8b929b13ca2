//! Dispatches tracked completions to whoever waits for them.

use std::collections::HashMap;

use vstd::prelude::*;

use crate::io_error::{ErrorKind, IoError};
use crate::os::completions::{dispatches, no_tracked, operation_completion};
use crate::os::sqe::{IORING_OP_READ, IORING_OP_WRITE};
use crate::os::uring::{
    buffer_entry, cancel_entry, is_first, is_tracked, kind_counts, nop_entry, of_tracked,
    timeout_result, tracked_buffer_result, tracked_result, untimed, untracked, IoUring,
    IoUringCompletion, IoUringOperationCompletion, IoUringOperationId, IoUringOperationKind,
    IoUringOperationState, IoUringSnapshot, RingStep, RingView,
};

verus! {

broadcast use vstd::std_specs::hash::group_hash_axioms;

/// Dispatches tracked `io_uring` completions to registered wakers.
///
/// It owns an [`IoUring`], lets callers register interest in tracked operation
/// ids, and stores completed operations until the future or executor consumes
/// them. `W` is whatever wakes a waiter.
pub struct IoUringDispatcher<W> {
    /// The ring.
    pub ring: IoUring,
    /// Who waits, by operation tag.
    pub waiters: HashMap<u64, W>,
    /// Dispatched completions not yet taken, by operation tag.
    pub completions: HashMap<u64, IoUringOperationCompletion>,
    /// Buffers of abandoned operations, by operation tag.
    pub deferred_buffers: HashMap<u64, Vec<u8>>,
}

/// What a dispatcher holds beside its ring.
#[verifier::ext_equal]
pub struct DispatchView<W> {
    pub waiters: Map<u64, W>,
    pub completions: Map<u64, IoUringOperationCompletion>,
    pub deferred: Map<u64, Vec<u8>>,
}

/// What a pass over a queue of completions comes to.
pub struct Dispatch {
    /// Completions of tracked operations, in order.
    pub done: Seq<IoUringOperationCompletion>,
    /// The other completions, in order.
    pub rest: Seq<IoUringCompletion>,
    /// The operations still tracked.
    pub operations: Map<u64, IoUringOperationState>,
}

/// The pass over `queue`: each completion of an operation that is still tracked
/// ends that operation, until `limit` of them are done, and every other
/// completion is kept.
pub open spec fn dispatch_pass(
    queue: Seq<IoUringCompletion>,
    operations: Map<u64, IoUringOperationState>,
    limit: nat,
) -> Dispatch
    decreases queue.len(),
{
    if queue.len() == 0 || limit == 0 {
        Dispatch { done: Seq::empty(), rest: queue, operations }
    } else if is_tracked(operations, queue[0].user_data) {
        let later = dispatch_pass(
            queue.drop_first(),
            untracked(operations, queue[0].user_data),
            (limit - 1) as nat,
        );
        Dispatch {
            done: seq![operation_completion(operations, queue[0])] + later.done,
            ..later
        }
    } else {
        let later = dispatch_pass(queue.drop_first(), operations, limit);
        Dispatch { rest: seq![queue[0]] + later.rest, ..later }
    }
}

/// The dispatcher after one completion: that of an abandoned operation only
/// frees its buffer, any other is stored and its waiter leaves.
pub open spec fn delivered<W>(
    v: DispatchView<W>,
    done: IoUringOperationCompletion,
) -> DispatchView<W> {
    let id = done.operation.0;
    if v.deferred.contains_key(id) {
        DispatchView { deferred: v.deferred.remove(id), ..v }
    } else {
        DispatchView {
            completions: v.completions.insert(id, done),
            waiters: v.waiters.remove(id),
            ..v
        }
    }
}

/// The wakers that one completion wakes: that of its waiter, if there is one.
pub open spec fn woken_by<W>(v: DispatchView<W>, done: IoUringOperationCompletion) -> Seq<W> {
    let id = done.operation.0;
    if !v.deferred.contains_key(id) && v.waiters.contains_key(id) {
        seq![v.waiters[id]]
    } else {
        Seq::empty()
    }
}

/// The dispatcher after several completions, in order.
pub open spec fn delivered_all<W>(
    v: DispatchView<W>,
    done: Seq<IoUringOperationCompletion>,
) -> DispatchView<W>
    decreases done.len(),
{
    if done.len() == 0 {
        v
    } else {
        delivered(delivered_all(v, done.drop_last()), done.last())
    }
}

/// The wakers that several completions wake, in order.
pub open spec fn woken_by_all<W>(
    v: DispatchView<W>,
    done: Seq<IoUringOperationCompletion>,
) -> Seq<W>
    decreases done.len(),
{
    if done.len() == 0 {
        Seq::empty()
    } else {
        woken_by_all(v, done.drop_last()) + woken_by(
            delivered_all(v, done.drop_last()),
            done.last(),
        )
    }
}

/// The completions dispatched by a pass over everything drained and posted.
pub open spec fn dispatched_done(ring: RingView, limit: nat) -> Seq<IoUringOperationCompletion> {
    dispatch_pass(ring.drained().completions, ring.operations, limit).done
}

/// The ring after a pass over everything drained and posted. A pass that may
/// dispatch nothing does not even drain.
pub open spec fn dispatched_ring(ring: RingView, limit: nat) -> RingView {
    let pass = dispatch_pass(ring.drained().completions, ring.operations, limit);
    if limit == 0 {
        ring
    } else {
        RingView { completions: pass.rest, operations: pass.operations, ..ring.drained() }
    }
}

/// Completions that belong to no tracked operation are passed over.
proof fn lemma_pass_over(
    front: Seq<IoUringCompletion>,
    queue: Seq<IoUringCompletion>,
    operations: Map<u64, IoUringOperationState>,
    limit: nat,
)
    requires
        forall|i: int|
            0 <= i < front.len() ==> !is_tracked(operations, (#[trigger] front[i]).user_data),
    ensures
        ({
            let whole = dispatch_pass(front + queue, operations, limit);
            let part = dispatch_pass(queue, operations, limit);
            &&& whole.done == part.done
            &&& whole.rest == front + part.rest
            &&& whole.operations == part.operations
        }),
    decreases front.len(),
{
    let part = dispatch_pass(queue, operations, limit);
    if front.len() == 0 {
        assert(front + queue =~= queue);
        assert(front + part.rest =~= part.rest);
    } else {
        let tail = front.drop_first();
        assert forall|i: int| 0 <= i < tail.len() implies !is_tracked(
            operations,
            (#[trigger] tail[i]).user_data,
        ) by {
            assert(tail[i] == front[i + 1]);
        }
        lemma_pass_over(tail, queue, operations, limit);
        assert((front + queue).drop_first() =~= tail + queue);
        assert(!is_tracked(operations, front[0].user_data));
        assert(seq![front[0]] + (tail + part.rest) =~= front + part.rest);
    }
}

/// Handing out the first completion of a tracked operation and going on gives
/// the same as one pass.
proof fn lemma_pass_step(ring: RingView, i: int, limit: nat)
    requires
        limit > 0,
        is_first(ring.completions, of_tracked(ring.operations), i),
    ensures
        ({
            let c = ring.completions[i];
            let whole = dispatch_pass(ring.completions, ring.operations, limit);
            let later = dispatch_pass(
                ring.completions.remove(i),
                untracked(ring.operations, c.user_data),
                (limit - 1) as nat,
            );
            &&& whole.done == seq![operation_completion(ring.operations, c)] + later.done
            &&& whole.rest == later.rest
            &&& whole.operations == later.operations
        }),
{
    let queue = ring.completions;
    let operations = ring.operations;
    let c = queue[i];
    let front = queue.take(i);
    let tail = queue.skip(i + 1);
    let fewer = untracked(operations, c.user_data);
    assert(queue =~= front + (seq![c] + tail));
    assert(queue.remove(i) =~= front + tail);
    assert forall|j: int| 0 <= j < front.len() implies !is_tracked(
        operations,
        (#[trigger] front[j]).user_data,
    ) by {
        assert(front[j] == queue[j]);
        assert(!of_tracked(operations)(queue[j]));
    }
    assert forall|j: int| 0 <= j < front.len() implies !is_tracked(
        fewer,
        (#[trigger] front[j]).user_data,
    ) by {
        assert(!is_tracked(operations, front[j].user_data));
    }
    lemma_pass_over(front, seq![c] + tail, operations, limit);
    lemma_pass_over(front, tail, fewer, (limit - 1) as nat);
    assert(of_tracked(operations)(c));
    assert((seq![c] + tail).drop_first() =~= tail);
    assert((seq![c] + tail)[0] == c);
}

/// A queue without completions of tracked operations is left as it is.
proof fn lemma_pass_nothing(ring: RingView, limit: nat)
    requires
        no_tracked(ring),
    ensures
        dispatch_pass(ring.completions, ring.operations, limit) == (Dispatch {
            done: Seq::empty(),
            rest: ring.completions,
            operations: ring.operations,
        }),
{
    lemma_pass_over(ring.completions, Seq::empty(), ring.operations, limit);
    assert(ring.completions + Seq::<IoUringCompletion>::empty() =~= ring.completions);
}

impl<W> IoUringDispatcher<W> {
    /// What the dispatcher holds beside its ring.
    pub open spec fn board(&self) -> DispatchView<W> {
        DispatchView {
            waiters: self.waiters@,
            completions: self.completions@,
            deferred: self.deferred_buffers@,
        }
    }

    /// The invariant of the ring.
    pub open spec fn wf(&self) -> bool {
        self.ring.wf()
    }

    /// Creates a dispatcher around an existing ring.
    pub fn new(ring: IoUring) -> (dispatcher: Self)
        ensures
            dispatcher.ring == ring,
            dispatcher.board() == (DispatchView::<W> {
                waiters: Map::empty(),
                completions: Map::empty(),
                deferred: Map::empty(),
            }),
    {
        IoUringDispatcher {
            ring,
            waiters: HashMap::new(),
            completions: HashMap::new(),
            deferred_buffers: HashMap::new(),
        }
    }

    /// Returns shared access to the owned ring.
    pub fn ring(&self) -> (ring: &IoUring)
        ensures
            *ring == self.ring,
    {
        &self.ring
    }

    /// Returns mutable access to the owned ring for queuing operations.
    pub fn ring_mut(&mut self) -> (ring: &mut IoUring)
        ensures
            *ring == old(self).ring,
            *final(self) == (IoUringDispatcher { ring: *final(ring), ..*old(self) }),
    {
        &mut self.ring
    }

    /// Registers or replaces the waker for a tracked operation.
    ///
    /// Returns `true` if the operation has already completed locally. In that
    /// case the waker is not stored and the caller can consume the completion
    /// immediately.
    pub fn register_waker(&mut self, operation: IoUringOperationId, waker: W) -> (completed: bool)
        ensures
            final(self).ring == old(self).ring,
            completed == old(self).board().completions.contains_key(operation.0),
            completed ==> final(self).board() == old(self).board(),
            !completed ==> final(self).board() == (DispatchView {
                waiters: old(self).board().waiters.insert(operation.0, waker),
                ..old(self).board()
            }),
    {
        if self.completions.contains_key(&operation.0) {
            return true;
        }
        let _ = self.waiters.insert(operation.0, waker);
        false
    }

    /// Removes any registered waker for an operation.
    pub fn clear_waker(&mut self, operation: IoUringOperationId) -> (waker: Option<W>)
        ensures
            final(self).ring == old(self).ring,
            waker is Some <==> old(self).board().waiters.contains_key(operation.0),
            waker is Some ==> waker == Some(old(self).board().waiters[operation.0]),
            final(self).board() == (DispatchView {
                waiters: old(self).board().waiters.remove(operation.0),
                ..old(self).board()
            }),
    {
        self.waiters.remove(&operation.0)
    }

    /// Returns and removes a completed tracked operation, if available.
    pub fn take_completion(&mut self, operation: IoUringOperationId) -> (completion: Option<
        IoUringOperationCompletion,
    >)
        ensures
            final(self).ring == old(self).ring,
            completion is Some <==> old(self).board().completions.contains_key(operation.0),
            completion is Some ==> completion == Some(
                old(self).board().completions[operation.0],
            ),
            final(self).board() == (DispatchView {
                completions: old(self).board().completions.remove(operation.0),
                ..old(self).board()
            }),
    {
        self.completions.remove(&operation.0)
    }

    /// Keeps an abandoned owned I/O buffer alive until its kernel operation
    /// completes.
    ///
    /// If the completion has already been dispatched, both the completion and
    /// buffer are discarded immediately because no future remains to consume
    /// them.
    pub fn defer_buffer_drop(&mut self, operation: IoUringOperationId, buffer: Vec<u8>)
        ensures
            final(self).ring == old(self).ring,
            ({
                let before = old(self).board();
                let id = operation.0;
                final(self).board() == (DispatchView {
                    waiters: before.waiters.remove(id),
                    completions: before.completions.remove(id),
                    deferred: if before.completions.contains_key(id) {
                        before.deferred
                    } else {
                        before.deferred.insert(id, buffer)
                    },
                })
            }),
    {
        let _ = self.clear_waker(operation);
        match self.completions.remove(&operation.0) {
            Some(_) => {},
            None => {
                let _ = self.deferred_buffers.insert(operation.0, buffer);
            },
        }
    }

    /// Stores one completion, or frees the buffer it was waited for with.
    fn deliver(&mut self, completion: IoUringOperationCompletion) -> (woken: Option<W>)
        ensures
            final(self).ring == old(self).ring,
            final(self).board() == delivered(old(self).board(), completion),
            match woken {
                Some(waker) => woken_by(old(self).board(), completion) == seq![waker],
                None => woken_by(old(self).board(), completion) == Seq::<W>::empty(),
            },
    {
        let operation: u64 = completion.operation.0;
        match self.deferred_buffers.remove(&operation) {
            Some(_) => None,
            None => {
                assert(self.deferred_buffers@ =~= old(self).deferred_buffers@);
                let _ = self.completions.insert(operation, completion);
                self.waiters.remove(&operation)
            },
        }
    }

    /// Dispatches all available tracked completions: those of abandoned
    /// operations free their buffers, the others are stored and their waiters
    /// leave. Returns the number of completions dispatched and the wakers to
    /// wake.
    pub fn dispatch_available(&mut self) -> (result: (usize, Vec<W>))
        requires
            old(self).wf(),
        ensures
            final(self).wf(),
            final(self).ring.sq_mask == old(self).ring.sq_mask,
            final(self).ring.cq_mask == old(self).ring.cq_mask,
            ({
                let done = dispatched_done(old(self).ring@, usize::MAX as nat);
                &&& result.0 == done.len()
                &&& result.1@ == woken_by_all(old(self).board(), done)
                &&& final(self).board() == delivered_all(old(self).board(), done)
                &&& final(self).ring@ == dispatched_ring(old(self).ring@, usize::MAX as nat)
            }),
    {
        self.dispatch_available_limit(usize::MAX)
    }

    /// Dispatches available tracked completions, at most `limit` of them.
    pub fn dispatch_available_limit(&mut self, limit: usize) -> (result: (usize, Vec<W>))
        requires
            old(self).wf(),
        ensures
            final(self).wf(),
            final(self).ring.sq_mask == old(self).ring.sq_mask,
            final(self).ring.cq_mask == old(self).ring.cq_mask,
            result.0 <= limit,
            ({
                let done = dispatched_done(old(self).ring@, limit as nat);
                &&& result.0 == done.len()
                &&& result.1@ == woken_by_all(old(self).board(), done)
                &&& final(self).board() == delivered_all(old(self).board(), done)
                &&& final(self).ring@ == dispatched_ring(old(self).ring@, limit as nat)
            }),
    {
        let mut dispatched: usize = 0;
        let mut woken: Vec<W> = Vec::new();
        let ghost whole = dispatch_pass(
            self.ring@.drained().completions,
            self.ring@.operations,
            limit as nat,
        );
        let ghost base = self.ring@.drained();
        let ghost mut so_far: Seq<IoUringOperationCompletion> = Seq::empty();
        proof {
            assert(so_far + whole.done =~= whole.done);
        }
        while dispatched < limit
            invariant_except_break
                dispatched == 0 ==> self.ring@ == old(self).ring@,
                dispatched > 0 ==> self.ring@ == self.ring@.drained(),
                ({
                    let now = self.ring@.drained();
                    let pass = dispatch_pass(
                        now.completions,
                        now.operations,
                        (limit - dispatched) as nat,
                    );
                    &&& so_far + pass.done == whole.done
                    &&& pass.rest == whole.rest
                    &&& pass.operations == whole.operations
                    &&& now == (RingView {
                        completions: now.completions,
                        operations: now.operations,
                        ..base
                    })
                }),
            invariant
                self.wf(),
                self.ring.sq_mask == old(self).ring.sq_mask,
                self.ring.cq_mask == old(self).ring.cq_mask,
                base == old(self).ring@.drained(),
                whole == dispatch_pass(base.completions, base.operations, limit as nat),
                dispatched == so_far.len(),
                dispatched <= limit,
                self.board() == delivered_all(old(self).board(), so_far),
                woken@ == woken_by_all(old(self).board(), so_far),
            ensures
                so_far == whole.done,
                self.ring@ == dispatched_ring(old(self).ring@, limit as nat),
            decreases limit - dispatched,
        {
            let ghost before = self.ring@.drained();
            let ghost left = (limit - dispatched) as nat;
            match self.ring.try_operation_completion() {
                None => {
                    proof {
                        lemma_pass_nothing(before, left);
                        assert(so_far + Seq::<IoUringOperationCompletion>::empty() =~= so_far);
                        assert(self.ring@ =~= dispatched_ring(old(self).ring@, limit as nat));
                        assert(self.ring@ =~= self.ring@.drained()) by {
                            assert(self.ring@.completions + self.ring@.posted
                                =~= self.ring@.completions);
                        }
                    }
                    break;
                },
                Some(completion) => {
                    proof {
                        let i = choose|i: int|
                            #![trigger before.completions[i]]
                            dispatches(before, i, completion, self.ring@);
                        lemma_pass_step(before, i, left);
                        let now = self.ring@;
                        let pass = dispatch_pass(
                            now.completions,
                            now.operations,
                            (left - 1) as nat,
                        );
                        assert(now.drained() =~= now) by {
                            assert(now.completions + now.posted =~= now.completions);
                        }
                        assert(so_far + (seq![completion] + pass.done) =~= so_far.push(completion)
                            + pass.done);
                        assert(so_far.push(completion).drop_last() =~= so_far);
                        so_far = so_far.push(completion);
                    }
                    match self.deliver(completion) {
                        Some(waker) => {
                            woken.push(waker);
                        },
                        None => {},
                    }
                    assert(woken@ =~= woken_by_all(old(self).board(), so_far));
                    dispatched = dispatched + 1;
                    proof {
                        if dispatched == limit {
                            assert(so_far + Seq::<IoUringOperationCompletion>::empty() =~= so_far);
                        }
                    }
                },
            }
        }
        (dispatched, woken)
    }

    /// Starts or continues a wait for completions: once `min_complete` of them
    /// are drained, dispatches the tracked ones, and returns how many those are
    /// and the wakers to wake. Before that the ring has to be entered.
    pub fn wait_and_dispatch(&mut self, min_complete: usize) -> (step: RingStep<(usize, Vec<W>)>)
        requires
            old(self).wf(),
            old(self).ring@.completions.len() + old(self).ring@.posted.len() <= usize::MAX,
        ensures
            final(self).wf(),
            final(self).ring.sq_mask == old(self).ring.sq_mask,
            final(self).ring.cq_mask == old(self).ring.cq_mask,
            waited_and_dispatched(
                old(self).ring@,
                old(self).board(),
                min_complete,
                step,
                final(self).ring@,
                final(self).board(),
            ),
    {
        match self.ring.wait_completions(min_complete) {
            RingStep::Enter { to_submit, min_complete } => RingStep::Enter {
                to_submit,
                min_complete,
            },
            RingStep::Done(Err(error)) => RingStep::Done(Err(error)),
            RingStep::Done(Ok(_)) => {
                proof {
                    let drained = old(self).ring@.drained();
                    assert(drained.drained() =~= drained) by {
                        assert(drained.completions + drained.posted =~= drained.completions);
                    }
                }
                RingStep::Done(Ok(self.dispatch_available()))
            },
        }
    }

    /// Returns a local dispatcher snapshot.
    pub fn snapshot(&self) -> (snapshot: IoUringDispatcherSnapshot)
        ensures
            snapshot.ring.pending_submissions == self.ring@.pending_submissions,
            snapshot.ring.pending_completions == self.ring@.completions.len(),
            snapshot.ring.tracked_operations == self.ring@.operations.len(),
            snapshot.ring.operation_kinds == kind_counts(self.ring@.operations),
            snapshot.registered_wakers == self.board().waiters.len(),
            snapshot.completed_operations == self.board().completions.len(),
            snapshot.deferred_buffers == self.board().deferred.len(),
    {
        IoUringDispatcherSnapshot {
            ring: self.ring.snapshot(),
            registered_wakers: self.waiters.len(),
            completed_operations: self.completions.len(),
            deferred_buffers: self.deferred_buffers.len(),
        }
    }
}

/// What a wait for `min_complete` completions with dispatch comes to: too large
/// a count is refused; too few completions are drained and the ring has to be
/// entered; enough of them are dispatched.
pub open spec fn waited_and_dispatched<W>(
    ring: RingView,
    board: DispatchView<W>,
    min_complete: usize,
    step: RingStep<(usize, Vec<W>)>,
    ring_after: RingView,
    board_after: DispatchView<W>,
) -> bool {
    let available = ring.completions.len() + ring.posted.len();
    let done = dispatched_done(ring, usize::MAX as nat);
    if min_complete > u32::MAX {
        &&& ring_after == ring
        &&& board_after == board
        &&& step matches RingStep::Done(Err(error)) && error.says(
            ErrorKind::InvalidInput,
            "io_uring completion wait count exceeds u32::MAX"@,
        )
    } else if available < min_complete {
        &&& ring_after == ring.drained()
        &&& board_after == board
        &&& step == (RingStep::<(usize, Vec<W>)>::Enter {
            to_submit: ring.pending_submissions,
            min_complete: (min_complete - available) as u32,
        })
    } else {
        &&& ring_after == dispatched_ring(ring, usize::MAX as nat)
        &&& board_after == delivered_all(board, done)
        &&& step matches RingStep::Done(Ok(dispatched)) && dispatched.0 == done.len()
            && dispatched.1@ == woken_by_all(board, done)
    }
}

/// What polling for a tracked operation comes to.
pub struct OperationPoll<W> {
    /// The completion, once it is there.
    pub completion: Option<IoUringOperationCompletion>,
    /// Wakers of other operations that completed meanwhile.
    pub woken: Vec<W>,
    /// Number of completions dispatched.
    pub dispatched: usize,
}

/// The dispatcher after a poll for `operation` found it pending or complete.
pub open spec fn polled<W>(
    dispatched: DispatchView<W>,
    operation: IoUringOperationId,
    waker: W,
) -> DispatchView<W> {
    if dispatched.completions.contains_key(operation.0) {
        DispatchView { completions: dispatched.completions.remove(operation.0), ..dispatched }
    } else {
        DispatchView { waiters: dispatched.waiters.insert(operation.0, waker), ..dispatched }
    }
}

/// The operation that a queued future waits for, or why there is none.
pub open spec fn awaited(result: Result<IoUringOperationFuture, IoError>) -> Result<
    IoUringOperationId,
    IoError,
> {
    match result {
        Ok(future) => Ok(future.operation),
        Err(error) => Err(error),
    }
}

/// Waits for a tracked operation to be dispatched.
#[derive(Debug, Clone, Copy, PartialEq, Eq, Structural)]
pub struct IoUringOperationFuture {
    /// The operation waited for.
    pub operation: IoUringOperationId,
}

impl IoUringOperationFuture {
    /// Waits for `operation`.
    pub fn new(operation: IoUringOperationId) -> (future: Self)
        ensures
            future.operation == operation,
    {
        IoUringOperationFuture { operation }
    }

    /// Queues a tracked no-op operation and waits for its completion.
    pub fn queue_nop<W>(dispatcher: &mut IoUringDispatcher<W>) -> (result: Result<
        Self,
        IoError,
    >)
        requires
            old(dispatcher).wf(),
        ensures
            final(dispatcher).wf(),
            final(dispatcher).board() == old(dispatcher).board(),
            final(dispatcher).ring.sq_mask == old(dispatcher).ring.sq_mask,
            final(dispatcher).ring.cq_mask == old(dispatcher).ring.cq_mask,
            tracked_result(
                old(dispatcher).ring@,
                old(dispatcher).ring.sq_mask,
                untimed(IoUringOperationKind::Nop),
                nop_entry(0),
                awaited(result),
                final(dispatcher).ring@,
            ),
    {
        match dispatcher.ring.queue_nop_operation() {
            Ok(operation) => Ok(Self::new(operation)),
            Err(error) => Err(error),
        }
    }

    /// Queues a tracked relative timeout of `secs` seconds and `subsec_nanos`
    /// nanoseconds and waits for its completion. The ring owns `storage`, which
    /// lies at `storage_addr`, until then.
    pub fn queue_timeout<W>(
        dispatcher: &mut IoUringDispatcher<W>,
        secs: u64,
        subsec_nanos: u32,
        storage: Box<[i64; 2]>,
        storage_addr: u64,
    ) -> (result: Result<Self, IoError>)
        requires
            old(dispatcher).wf(),
        ensures
            final(dispatcher).wf(),
            final(dispatcher).board() == old(dispatcher).board(),
            final(dispatcher).ring.sq_mask == old(dispatcher).ring.sq_mask,
            final(dispatcher).ring.cq_mask == old(dispatcher).ring.cq_mask,
            timeout_result(
                old(dispatcher).ring@,
                old(dispatcher).ring.sq_mask,
                secs,
                subsec_nanos,
                storage_addr,
                awaited(result),
                final(dispatcher).ring@,
            ),
    {
        let queued = dispatcher.ring.queue_timeout_operation(
            secs,
            subsec_nanos,
            storage,
            storage_addr,
        );
        match queued {
            Ok(operation) => Ok(Self::new(operation)),
            Err(error) => Err(error),
        }
    }

    /// Queues a tracked cancellation request and waits for the completion of that
    /// request.
    pub fn queue_cancel<W>(dispatcher: &mut IoUringDispatcher<W>, target: IoUringOperationId) -> (result: Result<
        Self,
        IoError,
    >)
        requires
            old(dispatcher).wf(),
        ensures
            final(dispatcher).wf(),
            final(dispatcher).board() == old(dispatcher).board(),
            final(dispatcher).ring.sq_mask == old(dispatcher).ring.sq_mask,
            final(dispatcher).ring.cq_mask == old(dispatcher).ring.cq_mask,
            tracked_result(
                old(dispatcher).ring@,
                old(dispatcher).ring.sq_mask,
                untimed(IoUringOperationKind::Cancel { target }),
                cancel_entry(target.0, 0),
                awaited(result),
                final(dispatcher).ring@,
            ),
    {
        match dispatcher.ring.queue_cancel_operation(target) {
            Ok(operation) => Ok(Self::new(operation)),
            Err(error) => Err(error),
        }
    }

    /// Returns the operation id this future waits for.
    pub fn operation(&self) -> (operation: IoUringOperationId)
        ensures
            operation == self.operation,
    {
        self.operation
    }

    /// Dispatches what is available, and takes this operation's completion or
    /// leaves `waker` for it.
    pub fn poll<W>(&self, dispatcher: &mut IoUringDispatcher<W>, waker: W) -> (poll: OperationPoll<
        W,
    >)
        requires
            old(dispatcher).wf(),
        ensures
            final(dispatcher).wf(),
            final(dispatcher).ring.sq_mask == old(dispatcher).ring.sq_mask,
            final(dispatcher).ring.cq_mask == old(dispatcher).ring.cq_mask,
            ({
                let done = dispatched_done(old(dispatcher).ring@, usize::MAX as nat);
                let dispatched = delivered_all(old(dispatcher).board(), done);
                let id = self.operation.0;
                &&& poll.dispatched == done.len()
                &&& poll.woken@ == woken_by_all(old(dispatcher).board(), done)
                &&& poll.completion is Some <==> dispatched.completions.contains_key(id)
                &&& poll.completion is Some ==> poll.completion == Some(
                    dispatched.completions[id],
                )
                &&& final(dispatcher).board() == polled(dispatched, self.operation, waker)
                &&& final(dispatcher).ring@ == dispatched_ring(
                    old(dispatcher).ring@,
                    usize::MAX as nat,
                )
            }),
    {
        let (dispatched, woken) = dispatcher.dispatch_available();
        match dispatcher.take_completion(self.operation) {
            Some(completion) => OperationPoll { completion: Some(completion), woken, dispatched },
            None => {
                proof {
                    let id = self.operation.0;
                    assert(dispatcher.board().completions =~= dispatcher.board().completions.remove(
                        id,
                    ));
                }
                let _ = dispatcher.register_waker(self.operation, waker);
                OperationPoll { completion: None, woken, dispatched }
            },
        }
    }

    /// Gives up waiting.
    pub fn release<W>(&self, dispatcher: &mut IoUringDispatcher<W>)
        ensures
            final(dispatcher).ring == old(dispatcher).ring,
            final(dispatcher).board() == (DispatchView {
                waiters: old(dispatcher).board().waiters.remove(self.operation.0),
                ..old(dispatcher).board()
            }),
    {
        let _ = dispatcher.clear_waker(self.operation);
    }
}

/// Result of an owned-buffer `io_uring` read.
#[must_use]
#[derive(Debug, Clone, PartialEq, Eq)]
pub struct IoUringReadCompletion {
    /// Completion metadata for the read operation.
    pub completion: IoUringOperationCompletion,
    /// Buffer owned by the read operation.
    pub buffer: Vec<u8>,
}

/// Result of an owned-buffer `io_uring` write.
#[must_use]
#[derive(Debug, Clone, PartialEq, Eq)]
pub struct IoUringWriteCompletion {
    /// Completion metadata for the write operation.
    pub completion: IoUringOperationCompletion,
    /// Buffer owned by the write operation.
    pub buffer: Vec<u8>,
}

/// The dispatcher after whoever waited for operation `id` gave up, holding
/// `buffer` or no buffer any more.
pub open spec fn released<W>(
    before: DispatchView<W>,
    id: u64,
    buffer: Option<Vec<u8>>,
) -> DispatchView<W> {
    let unwatched = DispatchView { waiters: before.waiters.remove(id), ..before };
    match buffer {
        None => unwatched,
        Some(bytes) => DispatchView {
            completions: before.completions.remove(id),
            deferred: if before.completions.contains_key(id) {
                before.deferred
            } else {
                before.deferred.insert(id, bytes)
            },
            ..unwatched
        },
    }
}

/// A tracked read that owns its buffer.
///
/// The buffer is kept until the completion is observed. Giving up while pending
/// hands it to the dispatcher, which frees it after the completion.
pub struct IoUringReadFuture {
    /// The operation waited for.
    pub operation: IoUringOperationFuture,
    /// The buffer, until it is given back.
    pub buffer: Option<Vec<u8>>,
}

impl IoUringReadFuture {
    /// Waits for `operation`, keeping its buffer.
    pub fn new(operation: IoUringOperationId, buffer: Vec<u8>) -> (future: Self)
        ensures
            future.operation.operation == operation,
            future.buffer == Some(buffer),
    {
        IoUringReadFuture {
            operation: IoUringOperationFuture::new(operation),
            buffer: Some(buffer),
        }
    }

    /// Queues a tracked read into an owned buffer, which lies at `buffer_addr`.
    /// The buffer is dropped where the read cannot be queued.
    pub fn queue<W>(
        dispatcher: &mut IoUringDispatcher<W>,
        fd: i32,
        buffer: Vec<u8>,
        buffer_addr: u64,
        offset: u64,
    ) -> (result: Result<Self, IoError>)
        requires
            old(dispatcher).wf(),
        ensures
            final(dispatcher).wf(),
            final(dispatcher).board() == old(dispatcher).board(),
            final(dispatcher).ring.sq_mask == old(dispatcher).ring.sq_mask,
            final(dispatcher).ring.cq_mask == old(dispatcher).ring.cq_mask,
            result matches Ok(future) ==> future.buffer == Some(buffer),
            tracked_buffer_result(
                old(dispatcher).ring@,
                old(dispatcher).ring.sq_mask,
                IoUringOperationKind::Read,
                buffer_entry(IORING_OP_READ, fd, buffer_addr, buffer@.len() as usize, offset),
                buffer@.len() as usize,
                (match result {
                    Ok(future) => Ok::<IoUringOperationId, IoError>(future.operation.operation),
                    Err(error) => Err(error),
                }),
                final(dispatcher).ring@,
            ),
    {
        match dispatcher.ring.queue_read_operation(fd, buffer_addr, buffer.len(), offset) {
            Ok(operation) => Ok(Self::new(operation, buffer)),
            Err(error) => Err(error),
        }
    }

    /// Returns the operation id this future waits for.
    pub fn operation(&self) -> (operation: IoUringOperationId)
        ensures
            operation == self.operation.operation,
    {
        self.operation.operation()
    }

    /// Dispatches what is available, and gives the buffer back with this
    /// operation's completion or leaves `waker` for it. Returns the result, the
    /// wakers of other operations that completed, and how many completed.
    pub fn poll<W>(&mut self, dispatcher: &mut IoUringDispatcher<W>, waker: W) -> (result: (
        Option<IoUringReadCompletion>,
        Vec<W>,
        usize,
    ))
        requires
            old(dispatcher).wf(),
            old(self).buffer is Some,
        ensures
            final(dispatcher).wf(),
            final(dispatcher).ring.sq_mask == old(dispatcher).ring.sq_mask,
            final(dispatcher).ring.cq_mask == old(dispatcher).ring.cq_mask,
            final(self).operation == old(self).operation,
            ({
                let done = dispatched_done(old(dispatcher).ring@, usize::MAX as nat);
                let dispatched = delivered_all(old(dispatcher).board(), done);
                let id = old(self).operation.operation.0;
                let complete = dispatched.completions.contains_key(id);
                &&& result.2 == done.len()
                &&& result.1@ == woken_by_all(old(dispatcher).board(), done)
                &&& result.0 is Some <==> complete
                &&& complete ==> result.0->0.completion == dispatched.completions[id] && Some(
                    result.0->0.buffer,
                ) == old(self).buffer && final(self).buffer is None
                &&& !complete ==> final(self).buffer == old(self).buffer
                &&& final(dispatcher).board() == polled(
                    dispatched,
                    old(self).operation.operation,
                    waker,
                )
                &&& final(dispatcher).ring@ == dispatched_ring(
                    old(dispatcher).ring@,
                    usize::MAX as nat,
                )
            }),
    {
        let poll = self.operation.poll(dispatcher, waker);
        match poll.completion {
            None => (None, poll.woken, poll.dispatched),
            Some(completion) => {
                let buffer = self.buffer.take().unwrap();
                (Some(IoUringReadCompletion { completion, buffer }), poll.woken, poll.dispatched)
            },
        }
    }

    /// Gives up: a buffer that is still held goes to the dispatcher.
    pub fn release<W>(&mut self, dispatcher: &mut IoUringDispatcher<W>)
        ensures
            final(self).buffer is None,
            final(self).operation == old(self).operation,
            final(dispatcher).ring == old(dispatcher).ring,
            final(dispatcher).board() == released(
                old(dispatcher).board(),
                old(self).operation.operation.0,
                old(self).buffer,
            ),
    {
        match self.buffer.take() {
            None => {},
            Some(buffer) => {
                dispatcher.defer_buffer_drop(self.operation.operation, buffer);
            },
        }
        self.operation.release(dispatcher);
        proof {
            let id = old(self).operation.operation.0;
            let waiters = old(dispatcher).board().waiters;
            assert(waiters.remove(id).remove(id) =~= waiters.remove(id));
        }
    }
}

/// A tracked write that owns its buffer.
///
/// The buffer is kept until the completion is observed. Giving up while pending
/// hands it to the dispatcher, which frees it after the completion.
pub struct IoUringWriteFuture {
    /// The operation waited for.
    pub operation: IoUringOperationFuture,
    /// The buffer, until it is given back.
    pub buffer: Option<Vec<u8>>,
}

impl IoUringWriteFuture {
    /// Waits for `operation`, keeping its buffer.
    pub fn new(operation: IoUringOperationId, buffer: Vec<u8>) -> (future: Self)
        ensures
            future.operation.operation == operation,
            future.buffer == Some(buffer),
    {
        IoUringWriteFuture {
            operation: IoUringOperationFuture::new(operation),
            buffer: Some(buffer),
        }
    }

    /// Queues a tracked write of an owned buffer, which lies at `buffer_addr`.
    /// The buffer is dropped where the write cannot be queued.
    pub fn queue<W>(
        dispatcher: &mut IoUringDispatcher<W>,
        fd: i32,
        buffer: Vec<u8>,
        buffer_addr: u64,
        offset: u64,
    ) -> (result: Result<Self, IoError>)
        requires
            old(dispatcher).wf(),
        ensures
            final(dispatcher).wf(),
            final(dispatcher).board() == old(dispatcher).board(),
            final(dispatcher).ring.sq_mask == old(dispatcher).ring.sq_mask,
            final(dispatcher).ring.cq_mask == old(dispatcher).ring.cq_mask,
            result matches Ok(future) ==> future.buffer == Some(buffer),
            tracked_buffer_result(
                old(dispatcher).ring@,
                old(dispatcher).ring.sq_mask,
                IoUringOperationKind::Write,
                buffer_entry(IORING_OP_WRITE, fd, buffer_addr, buffer@.len() as usize, offset),
                buffer@.len() as usize,
                (match result {
                    Ok(future) => Ok::<IoUringOperationId, IoError>(future.operation.operation),
                    Err(error) => Err(error),
                }),
                final(dispatcher).ring@,
            ),
    {
        match dispatcher.ring.queue_write_operation(fd, buffer_addr, buffer.len(), offset) {
            Ok(operation) => Ok(Self::new(operation, buffer)),
            Err(error) => Err(error),
        }
    }

    /// Returns the operation id this future waits for.
    pub fn operation(&self) -> (operation: IoUringOperationId)
        ensures
            operation == self.operation.operation,
    {
        self.operation.operation()
    }

    /// Dispatches what is available, and gives the buffer back with this
    /// operation's completion or leaves `waker` for it. Returns the result, the
    /// wakers of other operations that completed, and how many completed.
    pub fn poll<W>(&mut self, dispatcher: &mut IoUringDispatcher<W>, waker: W) -> (result: (
        Option<IoUringWriteCompletion>,
        Vec<W>,
        usize,
    ))
        requires
            old(dispatcher).wf(),
            old(self).buffer is Some,
        ensures
            final(dispatcher).wf(),
            final(dispatcher).ring.sq_mask == old(dispatcher).ring.sq_mask,
            final(dispatcher).ring.cq_mask == old(dispatcher).ring.cq_mask,
            final(self).operation == old(self).operation,
            ({
                let done = dispatched_done(old(dispatcher).ring@, usize::MAX as nat);
                let dispatched = delivered_all(old(dispatcher).board(), done);
                let id = old(self).operation.operation.0;
                let complete = dispatched.completions.contains_key(id);
                &&& result.2 == done.len()
                &&& result.1@ == woken_by_all(old(dispatcher).board(), done)
                &&& result.0 is Some <==> complete
                &&& complete ==> result.0->0.completion == dispatched.completions[id] && Some(
                    result.0->0.buffer,
                ) == old(self).buffer && final(self).buffer is None
                &&& !complete ==> final(self).buffer == old(self).buffer
                &&& final(dispatcher).board() == polled(
                    dispatched,
                    old(self).operation.operation,
                    waker,
                )
                &&& final(dispatcher).ring@ == dispatched_ring(
                    old(dispatcher).ring@,
                    usize::MAX as nat,
                )
            }),
    {
        let poll = self.operation.poll(dispatcher, waker);
        match poll.completion {
            None => (None, poll.woken, poll.dispatched),
            Some(completion) => {
                let buffer = self.buffer.take().unwrap();
                (Some(IoUringWriteCompletion { completion, buffer }), poll.woken, poll.dispatched)
            },
        }
    }

    /// Gives up: a buffer that is still held goes to the dispatcher.
    pub fn release<W>(&mut self, dispatcher: &mut IoUringDispatcher<W>)
        ensures
            final(self).buffer is None,
            final(self).operation == old(self).operation,
            final(dispatcher).ring == old(dispatcher).ring,
            final(dispatcher).board() == released(
                old(dispatcher).board(),
                old(self).operation.operation.0,
                old(self).buffer,
            ),
    {
        match self.buffer.take() {
            None => {},
            Some(buffer) => {
                dispatcher.defer_buffer_drop(self.operation.operation, buffer);
            },
        }
        self.operation.release(dispatcher);
        proof {
            let id = old(self).operation.operation.0;
            let waiters = old(dispatcher).board().waiters;
            assert(waiters.remove(id).remove(id) =~= waiters.remove(id));
        }
    }
}

/// Completions that belong to no tracked operation keep their order and are
/// never handed to a waiter; together with the dispatched ones they are all
/// there was.
pub proof fn untracked_completions_are_kept(
    queue: Seq<IoUringCompletion>,
    operations: Map<u64, IoUringOperationState>,
    limit: nat,
)
    ensures
        ({
            let pass = dispatch_pass(queue, operations, limit);
            &&& pass.done.len() + pass.rest.len() == queue.len()
            &&& pass.done.len() <= limit
            &&& (forall|i: int|
                0 <= i < queue.len() ==> !is_tracked(operations, (#[trigger] queue[i]).user_data))
                ==> pass.rest == queue && pass.operations == operations
        }),
    decreases queue.len(),
{
    if queue.len() > 0 && limit > 0 {
        let tail = queue.drop_first();
        if is_tracked(operations, queue[0].user_data) {
            untracked_completions_are_kept(
                tail,
                untracked(operations, queue[0].user_data),
                (limit - 1) as nat,
            );
        } else {
            untracked_completions_are_kept(tail, operations, limit);
            if forall|i: int|
                0 <= i < queue.len() ==> !is_tracked(operations, (#[trigger] queue[i]).user_data) {
                assert forall|i: int| 0 <= i < tail.len() implies !is_tracked(
                    operations,
                    (#[trigger] tail[i]).user_data,
                ) by {
                    assert(tail[i] == queue[i + 1]);
                }
                assert(seq![queue[0]] + tail =~= queue);
            }
        }
    }
}

/// A waiter is woken by its operation's completion, which is then there to take
/// once.
pub proof fn completion_wakes_its_waiter<W>(
    v: DispatchView<W>,
    done: IoUringOperationCompletion,
    waker: W,
)
    requires
        v.waiters.contains_key(done.operation.0),
        v.waiters[done.operation.0] == waker,
        !v.deferred.contains_key(done.operation.0),
    ensures
        woken_by(v, done) == seq![waker],
        delivered(v, done).completions[done.operation.0] == done,
        !delivered(v, done).waiters.contains_key(done.operation.0),
        !polled(delivered(v, done), done.operation, waker).completions.contains_key(
            done.operation.0,
        ),
{
}

/// A buffer that was given up while its operation was pending stays until the
/// completion comes, which frees it and wakes nobody.
pub proof fn deferred_buffer_waits_for_completion<W>(
    v: DispatchView<W>,
    done: IoUringOperationCompletion,
    other: IoUringOperationCompletion,
)
    requires
        v.deferred.contains_key(done.operation.0),
        other.operation != done.operation,
    ensures
        delivered(v, other).deferred.contains_key(done.operation.0),
        delivered(v, other).deferred[done.operation.0] == v.deferred[done.operation.0],
        !delivered(v, done).deferred.contains_key(done.operation.0),
        delivered(v, done).completions == v.completions,
        woken_by(v, done) == Seq::<W>::empty(),
{
}

/// Read-only locally observable state for an [`IoUringDispatcher`].
#[must_use]
#[derive(Debug, Clone, Copy, PartialEq, Eq, Structural)]
pub struct IoUringDispatcherSnapshot {
    /// Snapshot of the owned raw ring.
    pub ring: IoUringSnapshot,
    /// Number of operations with registered task wakers.
    pub registered_wakers: usize,
    /// Number of completed tracked operations buffered for consumption.
    pub completed_operations: usize,
    /// Number of abandoned owned buffers waiting for kernel completion.
    pub deferred_buffers: usize,
}

/// A completion goes to its own operation and touches no other: what others wait for, have
/// received or have left behind stays.
pub proof fn completion_touches_its_operation_alone<W>(
    v: DispatchView<W>,
    done: IoUringOperationCompletion,
    other: u64,
)
    requires
        other != done.operation.0,
    ensures
        ({
            let after = delivered(v, done);
            &&& after.waiters.contains_key(other) <==> v.waiters.contains_key(other)
            &&& v.waiters.contains_key(other) ==> after.waiters[other] == v.waiters[other]
            &&& after.completions.contains_key(other) <==> v.completions.contains_key(other)
            &&& v.completions.contains_key(other) ==> after.completions[other]
                == v.completions[other]
            &&& after.deferred.contains_key(other) <==> v.deferred.contains_key(other)
            &&& v.deferred.contains_key(other) ==> after.deferred[other] == v.deferred[other]
        }),
{
}

/// A completion is kept for its operation until it is taken, whether or not somebody waits,
/// and wakes whoever does; where only the buffer was left behind, the buffer goes and
/// nothing is kept.
pub proof fn completion_is_kept_until_taken<W>(
    v: DispatchView<W>,
    done: IoUringOperationCompletion,
)
    ensures
        ({
            let id = done.operation.0;
            let after = delivered(v, done);
            let woken = woken_by(v, done);
            &&& !v.deferred.contains_key(id) ==> after.completions.contains_key(id)
                && after.completions[id] == done && !after.waiters.contains_key(id)
            &&& v.deferred.contains_key(id) ==> !after.deferred.contains_key(id)
                && after.completions == v.completions && after.waiters == v.waiters
            &&& woken.len() <= 1
            &&& woken.len() == 1 <==> v.waiters.contains_key(id) && !v.deferred.contains_key(id)
            &&& woken.len() == 1 ==> woken[0] == v.waiters[id]
        }),
{
}

/// Completions are delivered one after the other, and each wakes its waiter in turn.
pub proof fn completions_are_delivered_in_turn<W>(
    v: DispatchView<W>,
    done: Seq<IoUringOperationCompletion>,
    next: IoUringOperationCompletion,
)
    ensures
        delivered_all(v, Seq::empty()) == v,
        woken_by_all(v, Seq::empty()) == Seq::<W>::empty(),
        delivered_all(v, done.push(next)) == delivered(delivered_all(v, done), next),
        woken_by_all(v, done.push(next)) == woken_by_all(v, done) + woken_by(
            delivered_all(v, done),
            next,
        ),
{
    assert(done.push(next).drop_last() =~= done);
}

/// Polling an operation takes its completion where it has come, and otherwise leaves the
/// waker for it; nothing is done to another operation.
pub proof fn poll_takes_the_completion_or_waits<W>(
    board: DispatchView<W>,
    operation: IoUringOperationId,
    waker: W,
    other: u64,
)
    requires
        other != operation.0,
    ensures
        ({
            let after = polled(board, operation, waker);
            let complete = board.completions.contains_key(operation.0);
            &&& !after.completions.contains_key(operation.0)
            &&& complete ==> after.waiters == board.waiters
            &&& !complete ==> after.waiters.contains_key(operation.0)
                && after.waiters[operation.0] == waker && after.completions == board.completions
            &&& after.completions.contains_key(other) <==> board.completions.contains_key(other)
            &&& board.completions.contains_key(other) ==> after.completions[other]
                == board.completions[other]
            &&& after.waiters.contains_key(other) <==> board.waiters.contains_key(other)
            &&& board.waiters.contains_key(other) ==> after.waiters[other] == board.waiters[other]
            &&& after.deferred == board.deferred
        }),
{
}

/// Giving up an operation wakes nobody for it any more. A buffer that the kernel may still
/// use is kept for it until its completion; one whose completion has come is not, and that
/// completion is dropped.
pub proof fn given_up_buffer_is_kept_for_the_kernel<W>(
    before: DispatchView<W>,
    id: u64,
    buffer: Vec<u8>,
    other: u64,
)
    requires
        other != id,
    ensures
        ({
            let after = released(before, id, Some(buffer));
            let complete = before.completions.contains_key(id);
            &&& !after.waiters.contains_key(id)
            &&& !after.completions.contains_key(id)
            &&& !complete ==> after.deferred.contains_key(id) && after.deferred[id] == buffer
            &&& complete ==> after.deferred == before.deferred
            &&& after.deferred.contains_key(other) <==> before.deferred.contains_key(other)
            &&& after.completions.contains_key(other) <==> before.completions.contains_key(other)
            &&& after.waiters.contains_key(other) <==> before.waiters.contains_key(other)
            &&& before.waiters.contains_key(other) ==> after.waiters[other] == before.waiters[other]
        }),
        ({
            let after = released(before, id, None);
            &&& !after.waiters.contains_key(id)
            &&& after.completions == before.completions && after.deferred == before.deferred
            &&& after.waiters.contains_key(other) <==> before.waiters.contains_key(other)
        }),
{
}

/// A pass hands out completions of remembered operations only, each as it was posted and
/// with its operation's kind, in the order in which they were posted, and forgets those
/// operations; it leaves a completion of a remembered operation behind only when it has
/// handed out as many as it may. What it does not hand out it keeps, in order. The law gives
/// the places in the queue of both.
pub proof fn pass_hands_out_tracked_completions(
    queue: Seq<IoUringCompletion>,
    operations: Map<u64, IoUringOperationState>,
    limit: nat,
) -> (places: (Seq<int>, Seq<int>))
    ensures
        ({
            let (from, kept) = places;
            let pass = dispatch_pass(queue, operations, limit);
            &&& from.len() == pass.done.len()
            &&& forall|k: int|
                0 <= k < from.len() ==> {
                    let i = #[trigger] from[k];
                    &&& 0 <= i < queue.len()
                    &&& operations.contains_key(queue[i].user_data)
                    &&& pass.done[k].operation.0 == queue[i].user_data
                    &&& pass.done[k].result == queue[i].result
                    &&& pass.done[k].flags == queue[i].flags
                    &&& pass.done[k].kind == operations[queue[i].user_data].kind
                    &&& !pass.operations.contains_key(queue[i].user_data)
                }
            &&& forall|k: int, m: int|
                0 <= k < m < from.len() ==> #[trigger] from[k] < #[trigger] from[m]
            &&& pass.done.len() <= limit
            &&& pass.done.len() < limit ==> forall|r: int|
                0 <= r < pass.rest.len() ==> !pass.operations.contains_key(
                    (#[trigger] pass.rest[r]).user_data,
                )
            &&& pass.operations.dom().subset_of(operations.dom())
            &&& forall|id: u64| #[trigger]
                pass.operations.contains_key(id) ==> pass.operations[id] == operations[id]
            &&& pass.done.len() + pass.rest.len() == queue.len()
            &&& kept.len() == pass.rest.len()
            &&& forall|r: int|
                0 <= r < kept.len() ==> 0 <= #[trigger] kept[r] < queue.len() && pass.rest[r]
                    == queue[kept[r]]
            &&& forall|r: int, m: int|
                0 <= r < m < kept.len() ==> #[trigger] kept[r] < #[trigger] kept[m]
            &&& forall|k: int, r: int|
                0 <= k < from.len() && 0 <= r < kept.len() ==> #[trigger] from[k]
                    != #[trigger] kept[r]
        }),
    decreases queue.len(),
{
    let pass = dispatch_pass(queue, operations, limit);
    if queue.len() == 0 || limit == 0 {
        (Seq::empty(), Seq::new(queue.len(), |i: int| i))
    } else if is_tracked(operations, queue[0].user_data) {
        let rest = queue.drop_first();
        let fewer = untracked(operations, queue[0].user_data);
        let later = dispatch_pass(rest, fewer, (limit - 1) as nat);
        let (after, behind) = pass_hands_out_tracked_completions(rest, fewer, (limit - 1) as nat);
        let kept = behind.map_values(|i: int| i + 1);
        let from = seq![0int] + after.map_values(|i: int| i + 1);
        assert forall|k: int| 0 <= k < from.len() implies {
            let i = #[trigger] from[k];
            &&& 0 <= i < queue.len()
            &&& operations.contains_key(queue[i].user_data)
            &&& pass.done[k].operation.0 == queue[i].user_data
            &&& pass.done[k].result == queue[i].result
            &&& pass.done[k].flags == queue[i].flags
            &&& pass.done[k].kind == operations[queue[i].user_data].kind
            &&& !pass.operations.contains_key(queue[i].user_data)
        } by {
            if k > 0 {
                let i = after[k - 1];
                assert(from[k] == i + 1);
                assert(rest[i] == queue[i + 1]);
                assert(pass.done[k] == later.done[k - 1]);
            } else {
                assert(!fewer.contains_key(queue[0].user_data));
                assert(!later.operations.dom().contains(queue[0].user_data));
            }
        }
        assert forall|k: int, m: int| 0 <= k < m < from.len() implies #[trigger] from[k]
            < #[trigger] from[m] by {
            if k > 0 {
                assert(after[k - 1] < after[m - 1]);
            } else {
                assert(after[m - 1] >= 0);
            }
        }
        assert forall|id: u64| #[trigger] pass.operations.contains_key(id) implies pass.operations[id]
            == operations[id] by {
            assert(later.operations.contains_key(id));
            assert(fewer.dom().contains(id));
        }
        assert(pass.operations.dom().subset_of(operations.dom()));
        assert forall|r: int| 0 <= r < kept.len() implies 0 <= #[trigger] kept[r] < queue.len()
            && pass.rest[r] == queue[kept[r]] by {
            assert(rest[behind[r]] == queue[behind[r] + 1]);
        }
        assert forall|r: int, m: int| 0 <= r < m < kept.len() implies #[trigger] kept[r]
            < #[trigger] kept[m] by {
            assert(behind[r] < behind[m]);
        }
        assert forall|k: int, r: int| 0 <= k < from.len() && 0 <= r
            < kept.len() implies #[trigger] from[k] != #[trigger] kept[r] by {
            if k > 0 {
                assert(after[k - 1] != behind[r]);
            } else {
                assert(behind[r] >= 0);
            }
        }
        (from, kept)
    } else {
        let rest = queue.drop_first();
        let later = dispatch_pass(rest, operations, limit);
        let (after, behind) = pass_hands_out_tracked_completions(rest, operations, limit);
        let kept = seq![0int] + behind.map_values(|i: int| i + 1);
        let from = after.map_values(|i: int| i + 1);
        assert forall|k: int| 0 <= k < from.len() implies {
            let i = #[trigger] from[k];
            &&& 0 <= i < queue.len()
            &&& operations.contains_key(queue[i].user_data)
            &&& pass.done[k].operation.0 == queue[i].user_data
            &&& pass.done[k].result == queue[i].result
            &&& pass.done[k].flags == queue[i].flags
            &&& pass.done[k].kind == operations[queue[i].user_data].kind
            &&& !pass.operations.contains_key(queue[i].user_data)
        } by {
            let i = after[k];
            assert(from[k] == i + 1);
            assert(rest[i] == queue[i + 1]);
        }
        assert forall|k: int, m: int| 0 <= k < m < from.len() implies #[trigger] from[k]
            < #[trigger] from[m] by {
            assert(after[k] < after[m]);
        }
        if pass.done.len() < limit {
            assert forall|r: int| 0 <= r < pass.rest.len() implies !pass.operations.contains_key(
                (#[trigger] pass.rest[r]).user_data,
            ) by {
                if r > 0 {
                    assert(pass.rest[r] == later.rest[r - 1]);
                } else {
                    assert(!operations.dom().contains(queue[0].user_data));
                    assert(!pass.operations.dom().contains(queue[0].user_data));
                }
            }
        }
        assert forall|r: int| 0 <= r < kept.len() implies 0 <= #[trigger] kept[r] < queue.len()
            && pass.rest[r] == queue[kept[r]] by {
            if r > 0 {
                assert(rest[behind[r - 1]] == queue[behind[r - 1] + 1]);
                assert(pass.rest[r] == later.rest[r - 1]);
            }
        }
        assert forall|r: int, m: int| 0 <= r < m < kept.len() implies #[trigger] kept[r]
            < #[trigger] kept[m] by {
            if r > 0 {
                assert(behind[r - 1] < behind[m - 1]);
            } else {
                assert(behind[m - 1] >= 0);
            }
        }
        assert forall|k: int, r: int| 0 <= k < from.len() && 0 <= r
            < kept.len() implies #[trigger] from[k] != #[trigger] kept[r] by {
            if r > 0 {
                assert(after[k] != behind[r - 1]);
            } else {
                assert(after[k] >= 0);
            }
        }
        (from, kept)
    }
}

/// Dispatching drains the ring and then passes over all its completions, up to the limit;
/// without a limit above zero it does nothing.
pub proof fn dispatching_drains_the_ring_first(ring: RingView, limit: nat)
    ensures
        ({
            let queue = ring.completions + ring.posted;
            let pass = dispatch_pass(queue, ring.operations, limit);
            &&& dispatched_done(ring, limit) == pass.done
            &&& limit > 0 ==> dispatched_ring(ring, limit).completions == pass.rest
                && dispatched_ring(ring, limit).operations == pass.operations && dispatched_ring(
                ring,
                limit,
            ).posted.len() == 0
            &&& limit == 0 ==> dispatched_ring(ring, limit) == ring && dispatched_done(
                ring,
                limit,
            ).len() == 0
            &&& dispatched_ring(ring, limit).sqes == ring.sqes && dispatched_ring(
                ring,
                limit,
            ).pending_submissions == ring.pending_submissions && dispatched_ring(
                ring,
                limit,
            ).next_operation == ring.next_operation
        }),
{
}

/// A wait dispatches once as many completions have come as it wants, and otherwise asks the
/// kernel for those that are missing; one that wants more than can be asked for is refused.
pub proof fn wait_dispatches_when_enough_have_come<W>(
    ring: RingView,
    board: DispatchView<W>,
    min_complete: usize,
    step: RingStep<(usize, Vec<W>)>,
    ring_after: RingView,
    board_after: DispatchView<W>,
)
    requires
        waited_and_dispatched(ring, board, min_complete, step, ring_after, board_after),
    ensures
        ({
            let come = ring.completions.len() + ring.posted.len();
            let done = dispatched_done(ring, usize::MAX as nat);
            &&& step is Enter <==> min_complete <= u32::MAX && come < min_complete
            &&& step is Enter ==> step->min_complete + come == min_complete && step->to_submit
                == ring.pending_submissions && board_after == board
            &&& min_complete > u32::MAX ==> step is Done && step->Done_0 is Err && ring_after == ring
                && board_after == board
            &&& min_complete <= u32::MAX && come >= min_complete ==> step is Done
                && step->Done_0 is Ok && step->Done_0->Ok_0.0 == done.len()
                && step->Done_0->Ok_0.1@ == woken_by_all(board, done) && board_after
                == delivered_all(board, done)
        }),
{
}

/// What is waited for is the operation that was queued, or the error of queueing it.
pub proof fn wait_is_for_the_queued_operation(result: Result<IoUringOperationFuture, IoError>)
    ensures
        awaited(result) is Ok <==> result is Ok,
        result matches Ok(future) ==> awaited(result)->Ok_0 == future.operation,
        result matches Err(error) ==> awaited(result)->Err_0 == error,
{
}

} // verus!
