//! Completion ring: queued submissions, drained completions and the operations
//! that wait for theirs.
//!
//! [`IoUring`] holds a copy of the two queues that the kernel maps. Whoever owns
//! the mapping copies completion entries and the queue positions in before a
//! call, and submission entries and positions out after it. System calls are
//! made outside: a method says which call to make next, and takes its result.

use std::collections::{HashMap, VecDeque};

use vstd::prelude::*;

use crate::io_error::{ErrorKind, IoError};
use crate::os::sqe::{KernelTimespec, Sqe, IORING_OP_READ, IORING_OP_WRITE};

verus! {

broadcast use vstd::std_specs::hash::group_hash_axioms;

/// First tag of tracked operations. Tags below it are left to callers.
pub const OPERATION_USER_DATA_BASE: u64 = 0x8000_0000_0000_0000;

/// One `io_uring` completion queue entry.
#[must_use]
#[derive(Debug, Clone, Copy, PartialEq, Eq, Structural)]
pub struct IoUringCompletion {
    /// Caller-provided operation tag.
    pub user_data: u64,
    /// Operation result.
    pub result: i32,
    /// Kernel completion flags.
    pub flags: u32,
}

/// Identifier for a tracked `io_uring` operation.
#[must_use]
#[derive(Debug, Clone, Copy, PartialEq, Eq, Structural, Hash)]
pub struct IoUringOperationId(pub u64);

impl IoUringOperationId {
    /// Returns the raw `user_data` value placed in the submission entry.
    pub fn raw(self) -> (raw: u64)
        ensures
            raw == self.0,
    {
        self.0
    }
}

/// Kind of tracked operation submitted through [`IoUring`].
#[must_use]
#[derive(Debug, Clone, Copy, PartialEq, Eq, Structural)]
pub enum IoUringOperationKind {
    /// No-op operation.
    Nop,
    /// Read operation.
    Read,
    /// Write operation.
    Write,
    /// Relative timeout operation.
    Timeout,
    /// Cancellation request for another tracked operation.
    Cancel {
        /// Target operation requested for cancellation.
        target: IoUringOperationId,
    },
}

/// Counts of tracked operations by kind in an [`IoUringSnapshot`].
#[must_use]
#[derive(Debug, Clone, Copy, PartialEq, Eq, Structural)]
pub struct IoUringOperationKindCounts {
    /// Number of tracked no-op operations.
    pub nops: usize,
    /// Number of tracked read operations.
    pub reads: usize,
    /// Number of tracked write operations.
    pub writes: usize,
    /// Number of tracked timeout operations.
    pub timeouts: usize,
    /// Number of tracked cancellation operations.
    pub cancellations: usize,
}

impl Default for IoUringOperationKindCounts {
    fn default() -> (counts: Self)
        ensures
            counts == (IoUringOperationKindCounts {
                nops: 0,
                reads: 0,
                writes: 0,
                timeouts: 0,
                cancellations: 0,
            }),
    {
        IoUringOperationKindCounts { nops: 0, reads: 0, writes: 0, timeouts: 0, cancellations: 0 }
    }
}

impl IoUringOperationKindCounts {
    /// Number of operations counted.
    pub open spec fn total(&self) -> int {
        self.nops + self.reads + self.writes + self.timeouts + self.cancellations
    }

    /// These counts and one more operation of `kind`.
    pub open spec fn plus(&self, kind: IoUringOperationKind) -> IoUringOperationKindCounts {
        match kind {
            IoUringOperationKind::Nop => IoUringOperationKindCounts {
                nops: (self.nops + 1) as usize,
                ..*self
            },
            IoUringOperationKind::Read => IoUringOperationKindCounts {
                reads: (self.reads + 1) as usize,
                ..*self
            },
            IoUringOperationKind::Write => IoUringOperationKindCounts {
                writes: (self.writes + 1) as usize,
                ..*self
            },
            IoUringOperationKind::Timeout => IoUringOperationKindCounts {
                timeouts: (self.timeouts + 1) as usize,
                ..*self
            },
            IoUringOperationKind::Cancel { .. } => IoUringOperationKindCounts {
                cancellations: (self.cancellations + 1) as usize,
                ..*self
            },
        }
    }

    /// Counts one more operation of `kind`.
    pub fn add(&mut self, kind: IoUringOperationKind)
        requires
            old(self).total() < usize::MAX,
        ensures
            *final(self) == old(self).plus(kind),
            final(self).total() == old(self).total() + 1,
    {
        match kind {
            IoUringOperationKind::Nop => {
                self.nops = self.nops + 1;
            },
            IoUringOperationKind::Read => {
                self.reads = self.reads + 1;
            },
            IoUringOperationKind::Write => {
                self.writes = self.writes + 1;
            },
            IoUringOperationKind::Timeout => {
                self.timeouts = self.timeouts + 1;
            },
            IoUringOperationKind::Cancel { .. } => {
                self.cancellations = self.cancellations + 1;
            },
        }
    }
}

/// Read-only locally observable state for an [`IoUring`] instance.
#[must_use]
#[derive(Debug, Clone, Copy, PartialEq, Eq, Structural)]
pub struct IoUringSnapshot {
    /// Entries queued locally but not yet submitted to the kernel.
    pub pending_submissions: u32,
    /// Completions drained into the local completion queue but not yet consumed.
    pub pending_completions: usize,
    /// Tracked operations whose completions have not yet been consumed.
    pub tracked_operations: usize,
    /// Tracked operations grouped by operation kind.
    pub operation_kinds: IoUringOperationKindCounts,
}

/// Completion for a tracked `io_uring` operation.
#[must_use]
#[derive(Debug, Clone, Copy, PartialEq, Eq, Structural)]
pub struct IoUringOperationCompletion {
    /// Operation id returned when the operation was queued.
    pub operation: IoUringOperationId,
    /// Kind of operation that completed.
    pub kind: IoUringOperationKind,
    /// Operation result.
    pub result: i32,
    /// Kernel completion flags.
    pub flags: u32,
}

/// What the ring keeps of a tracked operation until its completion is consumed.
#[derive(Debug)]
pub struct IoUringOperationState {
    /// Its kind.
    pub kind: IoUringOperationKind,
    /// Length of a timeout, which the kernel reads where it lies: seconds, and
    /// nanoseconds beyond them.
    pub timeout: Option<Box<[i64; 2]>>,
}

/// The next thing to do in an exchange with the kernel.
pub enum RingStep<T> {
    /// Enter the ring: submit `to_submit` entries and, where `min_complete` is
    /// not zero, wait for so many completions.
    Enter {
        /// Entries to submit.
        to_submit: u32,
        /// Completions to wait for.
        min_complete: u32,
    },
    /// The exchange is over.
    Done(Result<T, IoError>),
}

/// The slot that a running position `at` refers to.
pub open spec fn slot(at: u32, mask: u32) -> int {
    (at & mask) as int
}

/// The position `n` after `at`, wrapping around.
pub open spec fn advance(at: u32, n: nat) -> u32 {
    ((at + n) % 4294967296) as u32
}

/// How far `to` is ahead of `from`, wrapping around.
pub open spec fn distance(from: u32, to: u32) -> nat {
    if to >= from {
        (to - from) as nat
    } else {
        (to - from + 4294967296) as nat
    }
}

/// The entries of a queue from `head` on, `n` of them.
pub open spec fn queue_entries(
    cqes: Seq<IoUringCompletion>,
    head: u32,
    n: nat,
    mask: u32,
) -> Seq<IoUringCompletion> {
    Seq::new(n, |i: int| cqes[slot(advance(head, i as nat), mask)])
}

/// Whether an operation with that tag is tracked.
pub open spec fn is_tracked(operations: Map<u64, IoUringOperationState>, user_data: u64) -> bool {
    operations.contains_key(user_data)
}

/// The operations without the one with that tag.
pub open spec fn untracked(operations: Map<u64, IoUringOperationState>, user_data: u64) -> Map<
    u64,
    IoUringOperationState,
> {
    operations.remove(user_data)
}

/// What is kept of an operation without a timeout.
pub open spec fn untimed(kind: IoUringOperationKind) -> IoUringOperationState {
    IoUringOperationState { kind, timeout: None }
}

/// Number of operations among `ids` whose kind is a wanted one.
pub open spec fn count_kind(
    operations: Map<u64, IoUringOperationState>,
    ids: Set<u64>,
    wanted: spec_fn(IoUringOperationKind) -> bool,
) -> usize {
    ids.filter(|id: u64| wanted(operations[id].kind)).len() as usize
}

/// The counts of the operations among `ids` by kind.
pub open spec fn kind_counts_among(
    operations: Map<u64, IoUringOperationState>,
    ids: Set<u64>,
) -> IoUringOperationKindCounts {
    IoUringOperationKindCounts {
        nops: count_kind(operations, ids, |kind: IoUringOperationKind| kind is Nop),
        reads: count_kind(operations, ids, |kind: IoUringOperationKind| kind is Read),
        writes: count_kind(operations, ids, |kind: IoUringOperationKind| kind is Write),
        timeouts: count_kind(operations, ids, |kind: IoUringOperationKind| kind is Timeout),
        cancellations: count_kind(operations, ids, |kind: IoUringOperationKind| kind is Cancel),
    }
}

/// The counts of operations by kind.
pub open spec fn kind_counts(
    operations: Map<u64, IoUringOperationState>,
) -> IoUringOperationKindCounts {
    kind_counts_among(operations, operations.dom())
}

proof fn lemma_count_kind(
    operations: Map<u64, IoUringOperationState>,
    ids: Set<u64>,
    id: u64,
    wanted: spec_fn(IoUringOperationKind) -> bool,
)
    requires
        ids.finite(),
        ids.len() < usize::MAX,
        !ids.contains(id),
    ensures
        count_kind(operations, ids, wanted) <= ids.len(),
        count_kind(operations, ids.insert(id), wanted) == count_kind(operations, ids, wanted) + if (
        wanted(operations[id].kind)) {
            1int
        } else {
            0int
        },
{
    let is_wanted = |id: u64| wanted(operations[id].kind);
    let before = ids.filter(is_wanted);
    let after = ids.insert(id).filter(is_wanted);
    ids.lemma_len_filter(is_wanted);
    if wanted(operations[id].kind) {
        assert(after =~= before.insert(id));
    } else {
        assert(after =~= before);
    }
}

proof fn lemma_count_none(
    operations: Map<u64, IoUringOperationState>,
    wanted: spec_fn(IoUringOperationKind) -> bool,
)
    ensures
        count_kind(operations, Set::empty(), wanted) == 0,
{
    let none = Set::<u64>::empty();
    assert(none.filter(|id: u64| wanted(operations[id].kind)) =~= none);
}

pub(crate) proof fn lemma_no_kinds(operations: Map<u64, IoUringOperationState>)
    ensures
        kind_counts_among(operations, Set::empty()) == (IoUringOperationKindCounts {
            nops: 0,
            reads: 0,
            writes: 0,
            timeouts: 0,
            cancellations: 0,
        }),
{
    lemma_count_none(operations, |kind: IoUringOperationKind| kind is Nop);
    lemma_count_none(operations, |kind: IoUringOperationKind| kind is Read);
    lemma_count_none(operations, |kind: IoUringOperationKind| kind is Write);
    lemma_count_none(operations, |kind: IoUringOperationKind| kind is Timeout);
    lemma_count_none(operations, |kind: IoUringOperationKind| kind is Cancel);
}

/// One more operation counts under its kind.
pub(crate) proof fn lemma_kind_counts(
    operations: Map<u64, IoUringOperationState>,
    ids: Set<u64>,
    id: u64,
)
    requires
        ids.finite(),
        ids.len() < usize::MAX,
        !ids.contains(id),
    ensures
        kind_counts_among(operations, ids.insert(id)) == kind_counts_among(operations, ids).plus(
            operations[id].kind,
        ),
{
    lemma_count_kind(operations, ids, id, |kind: IoUringOperationKind| kind is Nop);
    lemma_count_kind(operations, ids, id, |kind: IoUringOperationKind| kind is Read);
    lemma_count_kind(operations, ids, id, |kind: IoUringOperationKind| kind is Write);
    lemma_count_kind(operations, ids, id, |kind: IoUringOperationKind| kind is Timeout);
    lemma_count_kind(operations, ids, id, |kind: IoUringOperationKind| kind is Cancel);
}

/// `i` is the first completion in the queue that satisfies `wanted`.
pub open spec fn is_first(
    queue: Seq<IoUringCompletion>,
    wanted: spec_fn(IoUringCompletion) -> bool,
    i: int,
) -> bool {
    &&& 0 <= i < queue.len()
    &&& wanted(queue[i])
    &&& forall|j: int| 0 <= j < i ==> !wanted(#[trigger] queue[j])
}

/// Picks the completions tagged `user_data`.
pub open spec fn tagged(user_data: u64) -> spec_fn(IoUringCompletion) -> bool {
    |c: IoUringCompletion| c.user_data == user_data
}

/// Picks the completions of tracked operations.
pub open spec fn of_tracked(operations: Map<u64, IoUringOperationState>) -> spec_fn(
    IoUringCompletion,
) -> bool {
    |c: IoUringCompletion| is_tracked(operations, c.user_data)
}

/// A submission and completion ring.
pub struct IoUring {
    /// Submissions the kernel has taken, as a running position.
    pub sq_head: u32,
    /// Submissions queued, as a running position.
    pub sq_tail: u32,
    /// Number of submission slots less one.
    pub sq_mask: u32,
    /// Submission slots.
    pub sqes: Vec<Sqe>,
    /// Completions consumed, as a running position.
    pub cq_head: u32,
    /// Completions the kernel has posted, as a running position.
    pub cq_tail: u32,
    /// Number of completion slots less one.
    pub cq_mask: u32,
    /// Completion slots.
    pub cqes: Vec<IoUringCompletion>,
    /// Completions taken from the ring and not yet consumed.
    pub completions: VecDeque<IoUringCompletion>,
    /// Operations whose completion has not been consumed, by tag.
    pub operations: HashMap<u64, IoUringOperationState>,
    /// Number of tracked operations so far.
    pub next_operation: u64,
    /// Entries queued and not yet submitted.
    pub pending_submissions: u32,
}

/// What a ring holds: the sizes of the two queues, the submission side, the posted
/// and the drained completions, and the tracked operations.
#[verifier::ext_equal]
pub struct RingView {
    pub sq_mask: u32,
    pub cq_mask: u32,
    pub sq_head: u32,
    pub sq_tail: u32,
    pub sqes: Seq<Sqe>,
    pub posted: Seq<IoUringCompletion>,
    pub completions: Seq<IoUringCompletion>,
    pub operations: Map<u64, IoUringOperationState>,
    pub next_operation: u64,
    pub pending_submissions: u32,
}

impl RingView {
    /// The view after every posted completion is drained into the local queue.
    pub open spec fn drained(&self) -> RingView {
        RingView {
            posted: Seq::empty(),
            completions: self.completions + self.posted,
            ..*self
        }
    }

    /// Number of entries in the submission queue.
    pub open spec fn queued(&self) -> nat {
        distance(self.sq_head, self.sq_tail)
    }
}

impl View for IoUring {
    type V = RingView;

    open spec fn view(&self) -> RingView {
        RingView {
            sq_mask: self.sq_mask,
            cq_mask: self.cq_mask,
            sq_head: self.sq_head,
            sq_tail: self.sq_tail,
            sqes: self.sqes@,
            posted: queue_entries(
                self.cqes@,
                self.cq_head,
                distance(self.cq_head, self.cq_tail),
                self.cq_mask,
            ),
            completions: self.completions@,
            operations: self.operations@,
            next_operation: self.next_operation,
            pending_submissions: self.pending_submissions,
        }
    }
}

/// A masked position is no larger than the mask.
pub(crate) proof fn lemma_slot_in_range(at: u32, mask: u32)
    ensures
        0 <= slot(at, mask) <= mask,
{
    assert(at & mask <= mask) by (bit_vector);
}

/// Taking the first entry of a queue leaves the others.
pub(crate) proof fn lemma_pop_front(cqes: Seq<IoUringCompletion>, head: u32, tail: u32, mask: u32)
    requires
        head != tail,
    ensures
        distance(advance(head, 1), tail) == distance(head, tail) - 1,
        queue_entries(cqes, head, distance(head, tail), mask)[0] == cqes[slot(head, mask)],
        queue_entries(cqes, advance(head, 1), distance(advance(head, 1), tail), mask)
            == queue_entries(cqes, head, distance(head, tail), mask).drop_first(),
{
    let n = distance(head, tail);
    assert(advance(head, 0) == head);
    let after = queue_entries(cqes, advance(head, 1), (n - 1) as nat, mask);
    let before = queue_entries(cqes, head, n, mask);
    assert forall|i: int| 0 <= i < n - 1 implies after[i] == before.drop_first()[i] by {
        assert(advance(advance(head, 1), i as nat) == advance(head, (i + 1) as nat));
    }
    assert(after =~= before.drop_first());
}

impl IoUring {
    /// Slots match the masks, and tracked operations have distinct tags below
    /// the next one to hand out.
    pub open spec fn wf(&self) -> bool {
        &&& self.sq_mask < u32::MAX
        &&& self.cq_mask < u32::MAX
        &&& self.sqes@.len() == self.sq_mask + 1
        &&& self.cqes@.len() == self.cq_mask + 1
        &&& operations_wf(self.operations@, self.next_operation)
    }

    /// A ring over the given numbers of slots. The slots of the two queues are
    /// empty.
    pub fn new(sq_mask: u32, cq_mask: u32) -> (ring: Self)
        requires
            sq_mask < u32::MAX,
            cq_mask < u32::MAX,
        ensures
            ring.wf(),
            ring.sq_mask == sq_mask,
            ring.cq_mask == cq_mask,
            ring@.sq_head == 0,
            ring@.sq_tail == 0,
            ring@.posted == Seq::<IoUringCompletion>::empty(),
            ring@.completions == Seq::<IoUringCompletion>::empty(),
            ring@.operations == Map::<u64, IoUringOperationState>::empty(),
            ring@.next_operation == 0,
            ring@.pending_submissions == 0,
    {
        let mut sqes: Vec<Sqe> = Vec::new();
        let mut i: u32 = 0;
        while i < sq_mask
            invariant
                i <= sq_mask,
                sqes.len() == i,
            decreases sq_mask - i,
        {
            sqes.push(Sqe::nop(0));
            i = i + 1;
        }
        sqes.push(Sqe::nop(0));
        let mut cqes: Vec<IoUringCompletion> = Vec::new();
        let mut j: u32 = 0;
        while j < cq_mask
            invariant
                j <= cq_mask,
                cqes.len() == j,
            decreases cq_mask - j,
        {
            cqes.push(IoUringCompletion { user_data: 0, result: 0, flags: 0 });
            j = j + 1;
        }
        cqes.push(IoUringCompletion { user_data: 0, result: 0, flags: 0 });
        let ring = IoUring {
            sq_head: 0,
            sq_tail: 0,
            sq_mask,
            sqes,
            cq_head: 0,
            cq_tail: 0,
            cq_mask,
            cqes,
            completions: VecDeque::new(),
            operations: HashMap::new(),
            next_operation: 0,
            pending_submissions: 0,
        };
        assert(ring@.posted =~= Seq::empty());
        ring
    }

    /// Copies a completion that the kernel posted into the ring. Returns false,
    /// with the ring as it was, where every slot is taken.
    pub fn post_completion(&mut self, completion: IoUringCompletion) -> (posted: bool)
        requires
            old(self).wf(),
            is_power_mask(old(self).cq_mask),
            distance(old(self).cq_head, old(self).cq_tail) <= old(self).cq_mask + 1,
        ensures
            final(self).wf(),
            final(self).sq_mask == old(self).sq_mask,
            final(self).cq_mask == old(self).cq_mask,
            distance(final(self).cq_head, final(self).cq_tail) <= final(self).cq_mask + 1,
            posted == (old(self)@.posted.len() <= old(self).cq_mask),
            !posted ==> final(self)@ == old(self)@,
            posted ==> final(self)@ == (RingView {
                posted: old(self)@.posted.push(completion),
                ..old(self)@
            }),
    {
        let used: u32 = self.cq_tail.wrapping_sub(self.cq_head);
        assert(used == distance(self.cq_head, self.cq_tail));
        if used > self.cq_mask {
            return false;
        }
        let index: u32 = self.cq_tail & self.cq_mask;
        proof {
            lemma_slot_in_range(self.cq_tail, self.cq_mask);
        }
        self.cqes.set(index as usize, completion);
        self.cq_tail = self.cq_tail.wrapping_add(1);
        proof {
            let n = used as nat;
            assert(distance(self.cq_head, self.cq_tail) == n + 1);
            assert(advance(self.cq_head, n) == old(self).cq_tail);
            assert forall|i: int| 0 <= i < n implies slot(
                #[trigger] advance(self.cq_head, i as nat),
                self.cq_mask,
            ) != index by {
                lemma_distinct_slots(self.cq_head, i as nat, n, self.cq_mask);
            }
            assert(self@.posted =~= old(self)@.posted.push(completion)) by {
                assert forall|i: int| 0 <= i < n implies self@.posted[i]
                    == old(self)@.posted[i] by {
                    lemma_slot_in_range(advance(self.cq_head, i as nat), self.cq_mask);
                }
            }
        }
        true
    }

    /// Takes the next submission slot, or fails where all are taken. The caller
    /// fills the slot.
    pub fn prepare_sqe(&mut self, sqe: Sqe) -> (result: Result<u32, IoError>)
        requires
            old(self).wf(),
        ensures
            final(self).wf(),
            final(self).sq_mask == old(self).sq_mask,
            final(self).cq_mask == old(self).cq_mask,
            result is Ok <==> old(self)@.queued() <= old(self).sq_mask,
            result matches Err(error) ==> error.says(
                ErrorKind::WouldBlock,
                "io_uring submission queue is full"@,
            ) && final(self)@ == old(self)@,
            result matches Ok(index) ==> index == slot(old(self).sq_tail, old(self).sq_mask)
                && final(self)@ == (RingView {
                sqes: old(self)@.sqes.update(index as int, sqe),
                sq_tail: advance(old(self)@.sq_tail, 1),
                ..old(self)@
            }),
    {
        let tail: u32 = self.sq_tail;
        let head: u32 = self.sq_head;
        let mask: u32 = self.sq_mask;
        let used: u32 = tail.wrapping_sub(head);
        assert(used == distance(head, tail));
        if used > mask {
            return Err(IoError::new(ErrorKind::WouldBlock, "io_uring submission queue is full"));
        }
        let index: u32 = tail & mask;
        proof {
            lemma_slot_in_range(tail, mask);
        }
        self.sqes.set(index as usize, sqe);
        self.sq_tail = tail.wrapping_add(1);
        assert(self@ =~= RingView {
            sqes: old(self)@.sqes.update(index as int, sqe),
            sq_tail: advance(old(self)@.sq_tail, 1),
            ..old(self)@
        });
        Ok(index)
    }

    /// Counts the prepared entry as pending.
    pub fn finish_sqe(&mut self) -> (result: Result<(), IoError>)
        requires
            old(self).wf(),
        ensures
            final(self).wf(),
            final(self).sq_mask == old(self).sq_mask,
            final(self).cq_mask == old(self).cq_mask,
            result is Ok <==> old(self)@.pending_submissions < u32::MAX,
            result matches Err(error) ==> error.says(
                ErrorKind::Other,
                "io_uring pending submission count overflow"@,
            ) && final(self)@ == old(self)@,
            result is Ok ==> final(self)@ == (RingView {
                pending_submissions: (old(self)@.pending_submissions + 1) as u32,
                ..old(self)@
            }),
    {
        match self.pending_submissions.checked_add(1) {
            None => Err(
                IoError::new(ErrorKind::Other, "io_uring pending submission count overflow"),
            ),
            Some(count) => {
                self.pending_submissions = count;
                Ok(())
            },
        }
    }

    /// Queues an entry: it takes a slot and is pending until submitted.
    pub fn queue(&mut self, sqe: Sqe) -> (result: Result<u32, IoError>)
        requires
            old(self).wf(),
        ensures
            final(self).wf(),
            final(self).sq_mask == old(self).sq_mask,
            final(self).cq_mask == old(self).cq_mask,
            queue_result(old(self)@, old(self).sq_mask, sqe, result, final(self)@),
    {
        match self.prepare_sqe(sqe) {
            Err(error) => Err(error),
            Ok(index) => {
                match self.finish_sqe() {
                    Err(error) => Err(error),
                    Ok(()) => Ok(index),
                }
            },
        }
    }

    /// Queues a no-op operation tagged with `user_data`.
    ///
    /// Queued operations are not visible to the kernel until they are submitted.
    pub fn queue_nop(&mut self, user_data: u64) -> (result: Result<u32, IoError>)
        requires
            old(self).wf(),
        ensures
            final(self).wf(),
            final(self).sq_mask == old(self).sq_mask,
            final(self).cq_mask == old(self).cq_mask,
            queue_result(old(self)@, old(self).sq_mask, nop_entry(user_data), result, final(self)@),
    {
        self.queue(Sqe::nop(user_data))
    }

    /// Queues a read or write of a buffer. Fails where the length is out of
    /// range or no slot is free.
    pub fn queue_buffer_operation(
        &mut self,
        opcode: u8,
        fd: i32,
        buffer_addr: u64,
        buffer_len: usize,
        offset: u64,
        user_data: u64,
    ) -> (result: Result<u32, IoError>)
        requires
            old(self).wf(),
            opcode == IORING_OP_READ || opcode == IORING_OP_WRITE,
        ensures
            final(self).wf(),
            final(self).sq_mask == old(self).sq_mask,
            final(self).cq_mask == old(self).cq_mask,
            buffer_len > u32::MAX ==> final(self)@ == old(self)@ && (result matches Err(error)
                && error.says(
                ErrorKind::InvalidInput,
                if opcode == IORING_OP_READ {
                    "io_uring read buffer length exceeds u32::MAX"@
                } else {
                    "io_uring write buffer length exceeds u32::MAX"@
                },
            )),
            buffer_len <= u32::MAX ==> queue_result(
                old(self)@,
                old(self).sq_mask,
                (Sqe {
                    opcode,
                    fd,
                    offset,
                    addr: buffer_addr,
                    len: buffer_len as u32,
                    user_data,
                }),
                result,
                final(self)@,
            ),
    {
        if buffer_len > u32::MAX as usize {
            if opcode == IORING_OP_READ {
                return Err(
                    IoError::new(
                        ErrorKind::InvalidInput,
                        "io_uring read buffer length exceeds u32::MAX",
                    ),
                );
            }
            return Err(
                IoError::new(
                    ErrorKind::InvalidInput,
                    "io_uring write buffer length exceeds u32::MAX",
                ),
            );
        }
        self.queue(
            Sqe { opcode, fd, offset, addr: buffer_addr, len: buffer_len as u32, user_data },
        )
    }

    /// Queues one read operation tagged with `user_data`, into the `buffer_len`
    /// bytes at `buffer_addr`. The caller keeps the buffer in place until the
    /// completion is observed.
    pub fn queue_read(
        &mut self,
        fd: i32,
        buffer_addr: u64,
        buffer_len: usize,
        offset: u64,
        user_data: u64,
    ) -> (result: Result<u32, IoError>)
        requires
            old(self).wf(),
        ensures
            final(self).wf(),
            final(self).sq_mask == old(self).sq_mask,
            final(self).cq_mask == old(self).cq_mask,
            buffer_len > u32::MAX ==> final(self)@ == old(self)@ && (result matches Err(error)
                && error.says(
                ErrorKind::InvalidInput,
                "io_uring read buffer length exceeds u32::MAX"@,
            )),
            buffer_len <= u32::MAX ==> queue_result(
                old(self)@,
                old(self).sq_mask,
                (Sqe {
                    user_data,
                    ..buffer_entry(IORING_OP_READ, fd, buffer_addr, buffer_len, offset)
                }),
                result,
                final(self)@,
            ),
    {
        self.queue_buffer_operation(IORING_OP_READ, fd, buffer_addr, buffer_len, offset, user_data)
    }

    /// Queues one write operation tagged with `user_data`, of the `buffer_len`
    /// bytes at `buffer_addr`. The caller keeps the buffer in place until the
    /// completion is observed.
    pub fn queue_write(
        &mut self,
        fd: i32,
        buffer_addr: u64,
        buffer_len: usize,
        offset: u64,
        user_data: u64,
    ) -> (result: Result<u32, IoError>)
        requires
            old(self).wf(),
        ensures
            final(self).wf(),
            final(self).sq_mask == old(self).sq_mask,
            final(self).cq_mask == old(self).cq_mask,
            buffer_len > u32::MAX ==> final(self)@ == old(self)@ && (result matches Err(error)
                && error.says(
                ErrorKind::InvalidInput,
                "io_uring write buffer length exceeds u32::MAX"@,
            )),
            buffer_len <= u32::MAX ==> queue_result(
                old(self)@,
                old(self).sq_mask,
                (Sqe {
                    user_data,
                    ..buffer_entry(IORING_OP_WRITE, fd, buffer_addr, buffer_len, offset)
                }),
                result,
                final(self)@,
            ),
    {
        self.queue_buffer_operation(IORING_OP_WRITE, fd, buffer_addr, buffer_len, offset, user_data)
    }

    /// Hands out the identifier of a new tracked operation. The identifiers are
    /// used once.
    pub fn allocate_operation(
        &mut self,
        kind: IoUringOperationKind,
        timeout: Option<Box<[i64; 2]>>,
    ) -> (result: Result<IoUringOperationId, IoError>)
        requires
            old(self).wf(),
        ensures
            final(self).wf(),
            final(self).sq_mask == old(self).sq_mask,
            final(self).cq_mask == old(self).cq_mask,
            result is Ok <==> old(self)@.next_operation != OPERATION_USER_DATA_BASE,
            result matches Err(error) ==> error.says(
                ErrorKind::Other,
                "io_uring operation id space exhausted"@,
            ) && final(self)@ == old(self)@,
            result matches Ok(id) ==> id == next_id(old(self)@) && !is_tracked(
                old(self)@.operations,
                id.0,
            ) && final(self)@ == with_operation(
                old(self)@,
                IoUringOperationState { kind, timeout },
            ),
    {
        if self.next_operation == OPERATION_USER_DATA_BASE {
            return Err(IoError::new(ErrorKind::Other, "io_uring operation id space exhausted"));
        }
        let next: u64 = self.next_operation;
        let tag: u64 = OPERATION_USER_DATA_BASE | next;
        proof {
            lemma_tag_is_sum(next);
        }
        let id = IoUringOperationId(tag);
        self.next_operation = next + 1;
        let _ = self.operations.insert(tag, IoUringOperationState { kind, timeout });
        Ok(id)
    }

    pub(crate) fn forget_operation(&mut self, operation: IoUringOperationId)
        requires
            old(self).wf(),
        ensures
            final(self).wf(),
            final(self).sq_mask == old(self).sq_mask,
            final(self).cq_mask == old(self).cq_mask,
            final(self)@ == (RingView {
                operations: untracked(old(self)@.operations, operation.0),
                ..old(self)@
            }),
    {
        let _ = self.operations.remove(&operation.0);
    }

    /// Tracks an operation and queues its entry. Where no slot is free the
    /// operation is forgotten again, but its identifier stays used.
    fn queue_tracked(
        &mut self,
        kind: IoUringOperationKind,
        timeout: Option<Box<[i64; 2]>>,
        template: Sqe,
    ) -> (result: Result<IoUringOperationId, IoError>)
        requires
            old(self).wf(),
        ensures
            final(self).wf(),
            final(self).sq_mask == old(self).sq_mask,
            final(self).cq_mask == old(self).cq_mask,
            tracked_result(
                old(self)@,
                old(self).sq_mask,
                IoUringOperationState { kind, timeout },
                template,
                result,
                final(self)@,
            ),
    {
        let ghost state = IoUringOperationState { kind, timeout };
        match self.allocate_operation(kind, timeout) {
            Err(error) => Err(error),
            Ok(operation) => {
                let ghost allocated = self@;
                match self.queue(Sqe { user_data: operation.0, ..template }) {
                    Err(error) => {
                        self.forget_operation(operation);
                        proof {
                            let before = old(self)@;
                            lemma_untrack_new(before, state);
                            let spent = RingView {
                                next_operation: (before.next_operation + 1) as u64,
                                ..before
                            };
                            if before.queued() > old(self).sq_mask {
                                assert(self@ =~= spent);
                            } else {
                                assert(self@ =~= with_slot(
                                    spent,
                                    old(self).sq_mask,
                                    Sqe { user_data: operation.0, ..template },
                                ));
                            }
                        }
                        Err(error)
                    },
                    Ok(_) => Ok(operation),
                }
            },
        }
    }

    /// Queues a tracked no-op operation and returns its operation id.
    pub fn queue_nop_operation(&mut self) -> (result: Result<IoUringOperationId, IoError>)
        requires
            old(self).wf(),
        ensures
            final(self).wf(),
            final(self).sq_mask == old(self).sq_mask,
            final(self).cq_mask == old(self).cq_mask,
            tracked_result(
                old(self)@,
                old(self).sq_mask,
                untimed(IoUringOperationKind::Nop),
                nop_entry(0),
                result,
                final(self)@,
            ),
    {
        self.queue_tracked(IoUringOperationKind::Nop, None, Sqe::nop(0))
    }

    /// Queues a tracked relative timeout operation of `secs` seconds and
    /// `subsec_nanos` nanoseconds and returns its operation id.
    ///
    /// `storage` lies at `storage_addr`. The length is written to it, and the ring
    /// owns it until the completion for the returned operation id is observed.
    pub fn queue_timeout_operation(
        &mut self,
        secs: u64,
        subsec_nanos: u32,
        storage: Box<[i64; 2]>,
        storage_addr: u64,
    ) -> (result: Result<IoUringOperationId, IoError>)
        requires
            old(self).wf(),
        ensures
            final(self).wf(),
            final(self).sq_mask == old(self).sq_mask,
            final(self).cq_mask == old(self).cq_mask,
            timeout_result(
                old(self)@,
                old(self).sq_mask,
                secs,
                subsec_nanos,
                storage_addr,
                result,
                final(self)@,
            ),
    {
        match KernelTimespec::from_duration(secs, subsec_nanos) {
            Err(error) => Err(error),
            Ok(length) => {
                let mut timeout = storage;
                *timeout = [length.tv_sec, length.tv_nsec];
                self.queue_tracked(
                    IoUringOperationKind::Timeout,
                    Some(timeout),
                    Sqe::timeout(storage_addr, 0),
                )
            },
        }
    }

    /// Queues a cancellation request for a tracked operation.
    ///
    /// The returned operation id identifies the cancellation request itself.
    /// The target operation remains tracked until its own completion is
    /// observed.
    pub fn queue_cancel_operation(&mut self, target: IoUringOperationId) -> (result: Result<
        IoUringOperationId,
        IoError,
    >)
        requires
            old(self).wf(),
        ensures
            final(self).wf(),
            final(self).sq_mask == old(self).sq_mask,
            final(self).cq_mask == old(self).cq_mask,
            tracked_result(
                old(self)@,
                old(self).sq_mask,
                untimed(IoUringOperationKind::Cancel { target }),
                cancel_entry(target.0, 0),
                result,
                final(self)@,
            ),
    {
        self.queue_tracked(
            IoUringOperationKind::Cancel { target },
            None,
            Sqe::cancel(target.raw(), 0),
        )
    }

    /// Tracks a read or write and queues its entry. Where the length is out of
    /// range or no slot is free the operation is forgotten again, but its
    /// identifier stays used.
    fn queue_tracked_buffer(
        &mut self,
        kind: IoUringOperationKind,
        opcode: u8,
        fd: i32,
        buffer_addr: u64,
        buffer_len: usize,
        offset: u64,
    ) -> (result: Result<IoUringOperationId, IoError>)
        requires
            old(self).wf(),
            opcode == IORING_OP_READ || opcode == IORING_OP_WRITE,
        ensures
            final(self).wf(),
            final(self).sq_mask == old(self).sq_mask,
            final(self).cq_mask == old(self).cq_mask,
            tracked_buffer_result(
                old(self)@,
                old(self).sq_mask,
                kind,
                buffer_entry(opcode, fd, buffer_addr, buffer_len, offset),
                buffer_len,
                result,
                final(self)@,
            ),
    {
        match self.allocate_operation(kind, None) {
            Err(error) => Err(error),
            Ok(operation) => {
                let queued = self.queue_buffer_operation(
                    opcode,
                    fd,
                    buffer_addr,
                    buffer_len,
                    offset,
                    operation.0,
                );
                match queued {
                    Err(error) => {
                        self.forget_operation(operation);
                        proof {
                            let before = old(self)@;
                            lemma_untrack_new(before, untimed(kind));
                            let spent = RingView {
                                next_operation: (before.next_operation + 1) as u64,
                                ..before
                            };
                            if before.queued() > old(self).sq_mask || buffer_len > u32::MAX {
                                assert(self@ =~= spent);
                            } else {
                                assert(self@ =~= with_slot(
                                    spent,
                                    old(self).sq_mask,
                                    Sqe {
                                        user_data: operation.0,
                                        ..buffer_entry(opcode, fd, buffer_addr, buffer_len, offset)
                                    },
                                ));
                            }
                        }
                        Err(error)
                    },
                    Ok(_) => Ok(operation),
                }
            },
        }
    }

    /// Queues a tracked read into the `buffer_len` bytes at `buffer_addr`. The
    /// caller keeps the buffer in place until the completion is observed.
    pub fn queue_read_operation(
        &mut self,
        fd: i32,
        buffer_addr: u64,
        buffer_len: usize,
        offset: u64,
    ) -> (result: Result<IoUringOperationId, IoError>)
        requires
            old(self).wf(),
        ensures
            final(self).wf(),
            final(self).sq_mask == old(self).sq_mask,
            final(self).cq_mask == old(self).cq_mask,
            tracked_buffer_result(
                old(self)@,
                old(self).sq_mask,
                IoUringOperationKind::Read,
                buffer_entry(IORING_OP_READ, fd, buffer_addr, buffer_len, offset),
                buffer_len,
                result,
                final(self)@,
            ),
    {
        self.queue_tracked_buffer(
            IoUringOperationKind::Read,
            IORING_OP_READ,
            fd,
            buffer_addr,
            buffer_len,
            offset,
        )
    }

    /// Queues a tracked write of the `buffer_len` bytes at `buffer_addr`. The
    /// caller keeps the buffer in place until the completion is observed.
    pub fn queue_write_operation(
        &mut self,
        fd: i32,
        buffer_addr: u64,
        buffer_len: usize,
        offset: u64,
    ) -> (result: Result<IoUringOperationId, IoError>)
        requires
            old(self).wf(),
        ensures
            final(self).wf(),
            final(self).sq_mask == old(self).sq_mask,
            final(self).cq_mask == old(self).cq_mask,
            tracked_buffer_result(
                old(self)@,
                old(self).sq_mask,
                IoUringOperationKind::Write,
                buffer_entry(IORING_OP_WRITE, fd, buffer_addr, buffer_len, offset),
                buffer_len,
                result,
                final(self)@,
            ),
    {
        self.queue_tracked_buffer(
            IoUringOperationKind::Write,
            IORING_OP_WRITE,
            fd,
            buffer_addr,
            buffer_len,
            offset,
        )
    }

    /// Forgets a tracked operation whose submission failed.
    pub fn abandon_operation(&mut self, operation: IoUringOperationId)
        requires
            old(self).wf(),
        ensures
            final(self).wf(),
            final(self).sq_mask == old(self).sq_mask,
            final(self).cq_mask == old(self).cq_mask,
            final(self)@ == (RingView {
                operations: untracked(old(self)@.operations, operation.0),
                ..old(self)@
            }),
    {
        self.forget_operation(operation);
    }
}

/// The entry of a read or write, not yet tagged.
pub open spec fn buffer_entry(
    opcode: u8,
    fd: i32,
    buffer_addr: u64,
    buffer_len: usize,
    offset: u64,
) -> Sqe {
    Sqe { opcode, fd, offset, addr: buffer_addr, len: buffer_len as u32, user_data: 0 }
}

/// What queueing a tracked read or write comes to: as `tracked_result`, unless
/// the length is out of range.
pub open spec fn tracked_buffer_result(
    before: RingView,
    mask: u32,
    kind: IoUringOperationKind,
    template: Sqe,
    buffer_len: usize,
    result: Result<IoUringOperationId, IoError>,
    after: RingView,
) -> bool {
    if buffer_len <= u32::MAX {
        tracked_result(before, mask, untimed(kind), template, result, after)
    } else if before.next_operation == OPERATION_USER_DATA_BASE {
        after == before && (result matches Err(error) && error.says(
            ErrorKind::Other,
            "io_uring operation id space exhausted"@,
        ))
    } else {
        after == (RingView { next_operation: (before.next_operation + 1) as u64, ..before }) && (
        result matches Err(error) && error.says(
            ErrorKind::InvalidInput,
            if template.opcode == IORING_OP_READ {
                "io_uring read buffer length exceeds u32::MAX"@
            } else {
                "io_uring write buffer length exceeds u32::MAX"@
            },
        ))
    }
}

/// What queueing a timeout comes to: a length out of range is refused; otherwise
/// as `tracked_result`, where the ring keeps the length.
pub open spec fn timeout_result(
    before: RingView,
    mask: u32,
    secs: u64,
    subsec_nanos: u32,
    storage_addr: u64,
    result: Result<IoUringOperationId, IoError>,
    after: RingView,
) -> bool {
    if secs > i64::MAX {
        after == before && (result matches Err(error) && error.says(
            ErrorKind::InvalidInput,
            "io_uring timeout seconds exceed i64::MAX"@,
        ))
    } else {
        let length = [secs as i64, subsec_nanos as i64];
        tracked_result(
            before,
            mask,
            IoUringOperationState {
                kind: IoUringOperationKind::Timeout,
                timeout: Some(Box::new(length)),
            },
            timeout_entry(storage_addr, 0),
            result,
            after,
        )
    }
}

/// Every tag is that of an operation handed out so far.
pub open spec fn operations_wf(
    operations: Map<u64, IoUringOperationState>,
    next_operation: u64,
) -> bool {
    &&& next_operation <= OPERATION_USER_DATA_BASE
    &&& forall|id: u64| #[trigger]
        operations.contains_key(id) ==> OPERATION_USER_DATA_BASE <= id < OPERATION_USER_DATA_BASE
            + next_operation
}

/// Whether the mask selects the low bits of a position.
pub open spec fn is_power_mask(mask: u32) -> bool {
    mask & ((mask + 1) as u32) == 0
}

/// The identifier of the next tracked operation.
pub open spec fn next_id(ring: RingView) -> IoUringOperationId {
    IoUringOperationId((OPERATION_USER_DATA_BASE + ring.next_operation) as u64)
}

/// Operation identifiers grow, so that a ring hands out none twice.
pub proof fn operation_ids_are_used_once(earlier: RingView, later: RingView)
    requires
        earlier.next_operation < later.next_operation < OPERATION_USER_DATA_BASE,
    ensures
        next_id(earlier) != next_id(later),
        next_id(earlier).0 < next_id(later).0,
{
}

/// The ring with one more tracked operation.
pub open spec fn with_operation(ring: RingView, state: IoUringOperationState) -> RingView {
    RingView {
        next_operation: (ring.next_operation + 1) as u64,
        operations: ring.operations.insert(next_id(ring).0, state),
        ..ring
    }
}

/// The entry of a no-op.
pub open spec fn nop_entry(user_data: u64) -> Sqe {
    Sqe { opcode: 0, fd: 0, offset: 0, addr: 0, len: 0, user_data }
}

/// The entry of a timeout.
pub open spec fn timeout_entry(timeout_addr: u64, user_data: u64) -> Sqe {
    Sqe { opcode: 11, fd: 0, offset: 0, addr: timeout_addr, len: 1, user_data }
}

/// The entry of a cancellation request.
pub open spec fn cancel_entry(target_user_data: u64, user_data: u64) -> Sqe {
    Sqe { opcode: 14, fd: (-1) as i32, offset: 0, addr: target_user_data, len: 0, user_data }
}

/// The ring with one more slot taken, by an entry that does not count as pending.
pub open spec fn with_slot(ring: RingView, mask: u32, sqe: Sqe) -> RingView {
    RingView {
        sqes: ring.sqes.update(slot(ring.sq_tail, mask), sqe),
        sq_tail: advance(ring.sq_tail, 1),
        ..ring
    }
}

/// The ring with one more entry queued.
pub open spec fn with_entry(ring: RingView, mask: u32, sqe: Sqe) -> RingView {
    RingView {
        pending_submissions: (ring.pending_submissions + 1) as u32,
        ..with_slot(ring, mask, sqe)
    }
}

/// What queueing `sqe` comes to: its slot; or a full queue; or a count of
/// pending entries that cannot grow, where the slot is taken nevertheless.
pub open spec fn queue_result(
    before: RingView,
    mask: u32,
    sqe: Sqe,
    result: Result<u32, IoError>,
    after: RingView,
) -> bool {
    let full = before.queued() > mask;
    let uncounted = before.pending_submissions == u32::MAX;
    &&& result is Ok <==> !full && !uncounted
    &&& result matches Ok(index) ==> index == slot(before.sq_tail, mask) && after == with_entry(
        before,
        mask,
        sqe,
    )
    &&& full ==> after == before && (result matches Err(error) && error.says(
        ErrorKind::WouldBlock,
        "io_uring submission queue is full"@,
    ))
    &&& !full && uncounted ==> after == with_slot(before, mask, sqe) && (result matches Err(error)
        && error.says(ErrorKind::Other, "io_uring pending submission count overflow"@))
}

/// What queueing a tracked operation comes to: its identifier, with the entry
/// queued under that tag; or no identifiers left; or what queueing the entry
/// failed with, where the operation is not tracked but its identifier is spent.
pub open spec fn tracked_result(
    before: RingView,
    mask: u32,
    state: IoUringOperationState,
    template: Sqe,
    result: Result<IoUringOperationId, IoError>,
    after: RingView,
) -> bool {
    let exhausted = before.next_operation == OPERATION_USER_DATA_BASE;
    let full = before.queued() > mask;
    let uncounted = before.pending_submissions == u32::MAX;
    let sqe = Sqe { user_data: next_id(before).0, ..template };
    let spent = RingView { next_operation: (before.next_operation + 1) as u64, ..before };
    &&& result is Ok <==> !exhausted && !full && !uncounted
    &&& result matches Ok(id) ==> id == next_id(before) && after == with_entry(
        with_operation(before, state),
        mask,
        sqe,
    )
    &&& exhausted ==> after == before && (result matches Err(error) && error.says(
        ErrorKind::Other,
        "io_uring operation id space exhausted"@,
    ))
    &&& !exhausted && full ==> after == spent && (result matches Err(error) && error.says(
        ErrorKind::WouldBlock,
        "io_uring submission queue is full"@,
    ))
    &&& !exhausted && !full && uncounted ==> after == with_slot(spent, mask, sqe) && (
    result matches Err(error) && error.says(
        ErrorKind::Other,
        "io_uring pending submission count overflow"@,
    ))
}

/// Two positions less than a queue apart fall into different slots.
proof fn lemma_distinct_slots(head: u32, i: nat, n: nat, mask: u32)
    requires
        i < n <= mask,
        is_power_mask(mask),
    ensures
        slot(advance(head, i), mask) != slot(advance(head, n), mask),
{
    let a = advance(head, i);
    let b = advance(head, n);
    let d = (n - i) as u32;
    assert(b == (a + d) % 4294967296);
    assert(a & mask != b & mask) by (bit_vector)
        requires
            b == (a + d) % 4294967296,
            0 < d <= mask,
            mask & ((mask + 1) as u32) == 0,
    ;
}

/// A tag is the base plus the number of the operation.
proof fn lemma_tag_is_sum(next: u64)
    requires
        next < OPERATION_USER_DATA_BASE,
    ensures
        OPERATION_USER_DATA_BASE | next == OPERATION_USER_DATA_BASE + next,
{
    assert(0x8000_0000_0000_0000u64 | next == 0x8000_0000_0000_0000u64 + next) by (bit_vector)
        requires
            next < 0x8000_0000_0000_0000u64,
    ;
}

/// Forgetting the newest operation gives the operations from before it.
proof fn lemma_untrack_new(ring: RingView, state: IoUringOperationState)
    requires
        operations_wf(ring.operations, ring.next_operation),
        ring.next_operation < OPERATION_USER_DATA_BASE,
    ensures
        untracked(with_operation(ring, state).operations, next_id(ring).0) == ring.operations,
{
    assert(!ring.operations.contains_key(next_id(ring).0));
    assert(untracked(with_operation(ring, state).operations, next_id(ring).0)
        =~= ring.operations);
}

/// The ring keeps the length of a timeout until the completion is observed:
/// other operations that are tracked, queued, completed or forgotten leave it where
/// it is, and so do completions that are drained.
pub proof fn timeout_waits_for_completion(
    ring: RingView,
    mask: u32,
    timeout: IoUringOperationId,
    state: IoUringOperationState,
    sqe: Sqe,
    other: IoUringOperationId,
)
    requires
        operations_wf(ring.operations, ring.next_operation),
        ring.next_operation < OPERATION_USER_DATA_BASE,
        is_tracked(ring.operations, timeout.0),
        other != timeout,
    ensures
        with_operation(ring, state).operations[timeout.0] == ring.operations[timeout.0],
        with_entry(ring, mask, sqe).operations[timeout.0] == ring.operations[timeout.0],
        ring.drained().operations[timeout.0] == ring.operations[timeout.0],
        is_tracked(untracked(ring.operations, other.0), timeout.0),
        untracked(ring.operations, other.0)[timeout.0] == ring.operations[timeout.0],
        !is_tracked(untracked(ring.operations, timeout.0), timeout.0),
{
    assert(timeout.0 != next_id(ring).0);
}

/// Positions wrap around without losing count: going on by the distance between two
/// positions leads from one to the other, and the distance of two positions is how far one
/// went on to reach the other.
pub proof fn positions_wrap_around(from: u32, to: u32, n: nat)
    ensures
        distance(from, to) < 4294967296,
        advance(from, distance(from, to)) == to,
        n < 4294967296 ==> distance(from, advance(from, n)) == n,
        advance(advance(from, n), 1) == advance(from, n + 1),
        advance(from, 0) == from,
{
}

/// Positions less than a queue apart fall into different slots, all of them in the queue.
pub proof fn slots_are_not_shared(head: u32, i: nat, n: nat, mask: u32)
    requires
        i < n <= mask,
        is_power_mask(mask),
    ensures
        slot(advance(head, i), mask) != slot(advance(head, n), mask),
        0 <= slot(advance(head, i), mask) <= mask,
        0 <= slot(advance(head, n), mask) <= mask,
{
    lemma_distinct_slots(head, i, n, mask);
    lemma_slot_in_range(advance(head, i), mask);
    lemma_slot_in_range(advance(head, n), mask);
}

/// The entries of a queue are those in its slots from the head on, one for each position
/// up to the tail.
pub proof fn queue_is_read_from_its_head(
    cqes: Seq<IoUringCompletion>,
    head: u32,
    n: nat,
    mask: u32,
)
    ensures
        queue_entries(cqes, head, n, mask).len() == n,
        n > 0 ==> queue_entries(cqes, head, n, mask)[0] == cqes[(head & mask) as int],
        queue_entries(cqes, head, n + 1, mask) == queue_entries(cqes, head, n, mask).push(
            cqes[slot(advance(head, n), mask)],
        ),
{
    assert(advance(head, 0) == head);
    assert(queue_entries(cqes, head, n + 1, mask) =~= queue_entries(cqes, head, n, mask).push(
        cqes[slot(advance(head, n), mask)],
    ));
}

/// An entry is queued where there is a free slot and it can be counted: it then stands in
/// the slot of the old tail, which is its index, and is one entry more to submit; the other
/// slots, the completions and the operations stay. A full queue refuses it and stays as it
/// is.
pub proof fn entry_is_queued_in_the_next_slot(
    before: RingView,
    mask: u32,
    sqe: Sqe,
    result: Result<u32, IoError>,
    after: RingView,
)
    requires
        mask < u32::MAX,
        before.sqes.len() == mask + 1,
        queue_result(before, mask, sqe, result, after),
    ensures
        result is Ok <==> distance(before.sq_head, before.sq_tail) <= mask
            && before.pending_submissions < u32::MAX,
        result matches Ok(index) ==> {
            &&& index == before.sq_tail & mask
            &&& after.sqes.len() == before.sqes.len()
            &&& after.sqes[index as int] == sqe
            &&& forall|i: int|
                0 <= i < before.sqes.len() && i != index ==> #[trigger] after.sqes[i]
                    == before.sqes[i]
            &&& after.sq_head == before.sq_head
            &&& distance(after.sq_head, after.sq_tail) == distance(before.sq_head, before.sq_tail)
                + 1
            &&& after.pending_submissions == before.pending_submissions + 1
            &&& after.posted == before.posted && after.completions == before.completions
            &&& after.operations == before.operations && after.next_operation
                == before.next_operation
        },
        distance(before.sq_head, before.sq_tail) > mask ==> after == before && result is Err
            && result->Err_0.kind == ErrorKind::WouldBlock,
{
    lemma_slot_in_range(before.sq_tail, mask);
}

/// An operation that is accepted gets a tag of its own, above those of callers and never
/// given out before; its entry carries that tag and is otherwise what was asked for, and
/// the ring remembers the operation under it. Where the queue is full nothing is queued or
/// remembered; where the tags are used up nothing changes.
pub proof fn accepted_operation_is_remembered(
    before: RingView,
    mask: u32,
    state: IoUringOperationState,
    template: Sqe,
    result: Result<IoUringOperationId, IoError>,
    after: RingView,
)
    requires
        mask < u32::MAX,
        before.sqes.len() == mask + 1,
        operations_wf(before.operations, before.next_operation),
        tracked_result(before, mask, state, template, result, after),
    ensures
        result is Ok <==> before.next_operation < 0x8000_0000_0000_0000u64 && distance(
            before.sq_head,
            before.sq_tail,
        ) <= mask && before.pending_submissions < u32::MAX,
        result matches Ok(id) ==> {
            let entry = after.sqes[(before.sq_tail & mask) as int];
            &&& id.0 == 0x8000_0000_0000_0000u64 + before.next_operation
            &&& !before.operations.contains_key(id.0)
            &&& after.operations.contains_key(id.0) && after.operations[id.0] == state
            &&& forall|other: u64|
                other != id.0 ==> (#[trigger] after.operations.contains_key(other)
                    <==> before.operations.contains_key(other)) && (before.operations.contains_key(
                    other,
                ) ==> after.operations[other] == before.operations[other])
            &&& after.next_operation == before.next_operation + 1
            &&& entry.user_data == id.0
            &&& entry.opcode == template.opcode && entry.fd == template.fd && entry.offset
                == template.offset && entry.addr == template.addr && entry.len == template.len
            &&& after.pending_submissions == before.pending_submissions + 1
            &&& after.posted == before.posted && after.completions == before.completions
            &&& operations_wf(after.operations, after.next_operation)
        },
        result is Err ==> after.operations == before.operations,
        before.next_operation == 0x8000_0000_0000_0000u64 ==> after == before,
        before.next_operation < 0x8000_0000_0000_0000u64 && distance(
            before.sq_head,
            before.sq_tail,
        ) > mask ==> after.sqes == before.sqes && after.sq_tail == before.sq_tail
            && after.pending_submissions == before.pending_submissions && result->Err_0.kind
            == ErrorKind::WouldBlock,
{
    lemma_slot_in_range(before.sq_tail, mask);
    assert(operations_wf(before.operations, before.next_operation));
    if result is Ok {
        assert(!before.operations.contains_key(next_id(before).0));
    }
}

/// A buffer that is too long for one entry is refused, and no entry is queued for it; any
/// other is queued as an operation of its kind.
pub proof fn long_buffer_is_refused(
    before: RingView,
    mask: u32,
    kind: IoUringOperationKind,
    template: Sqe,
    buffer_len: usize,
    result: Result<IoUringOperationId, IoError>,
    after: RingView,
)
    requires
        tracked_buffer_result(before, mask, kind, template, buffer_len, result, after),
    ensures
        buffer_len <= u32::MAX ==> tracked_result(
            before,
            mask,
            IoUringOperationState { kind, timeout: None },
            template,
            result,
            after,
        ),
        buffer_len > u32::MAX ==> {
            &&& result is Err
            &&& after.sqes == before.sqes && after.operations == before.operations
            &&& after.sq_tail == before.sq_tail && after.pending_submissions
                == before.pending_submissions
            &&& before.next_operation < 0x8000_0000_0000_0000u64 ==> result->Err_0.kind
                == ErrorKind::InvalidInput
        },
{
}

/// A timeout keeps its length, in seconds and nanoseconds, with the operation; a length
/// whose seconds do not fit is refused and nothing changes.
pub proof fn timeout_keeps_its_length(
    before: RingView,
    mask: u32,
    secs: u64,
    subsec_nanos: u32,
    storage_addr: u64,
    result: Result<IoUringOperationId, IoError>,
    after: RingView,
)
    requires
        timeout_result(before, mask, secs, subsec_nanos, storage_addr, result, after),
    ensures
        secs > i64::MAX ==> result is Err && result->Err_0.kind == ErrorKind::InvalidInput && after
            == before,
        secs <= i64::MAX && before.next_operation <= 0x8000_0000_0000_0000u64 ==> (result is Ok
            <==> before.next_operation < 0x8000_0000_0000_0000u64 && distance(
            before.sq_head,
            before.sq_tail,
        ) <= mask && before.pending_submissions < u32::MAX),
        secs <= i64::MAX ==> (result matches Ok(id) ==> {
            let state = after.operations[id.0];
            &&& after.operations.contains_key(id.0)
            &&& state.kind is Timeout
            &&& state.timeout is Some
            &&& (*state.timeout->0)[0] == secs
            &&& (*state.timeout->0)[1] == subsec_nanos
        }),
{
}

/// Entries say what the kernel has to do: with which descriptor, where in the file, with
/// which memory and how much of it; a timeout names where its length lies, and a
/// cancellation names the tag of what it cancels.
pub proof fn entries_say_what_to_do(
    opcode: u8,
    fd: i32,
    addr: u64,
    len: usize,
    offset: u64,
    user_data: u64,
)
    requires
        len <= u32::MAX,
    ensures
        ({
            let entry = buffer_entry(opcode, fd, addr, len, offset);
            entry.opcode == opcode && entry.fd == fd && entry.addr == addr && entry.len == len
                && entry.offset == offset
        }),
        ({
            let entry = nop_entry(user_data);
            entry.opcode == 0 && entry.user_data == user_data
        }),
        ({
            let entry = timeout_entry(addr, user_data);
            entry.opcode == 11 && entry.addr == addr && entry.len == 1 && entry.offset == 0
                && entry.user_data == user_data
        }),
        ({
            let entry = cancel_entry(addr, user_data);
            entry.opcode == 14 && entry.addr == addr && entry.fd == -1 && entry.user_data
                == user_data
        }),
{
}

/// Draining takes what the kernel has posted behind what was taken before, loses none of
/// it and touches nothing else.
pub proof fn draining_keeps_completions_in_order(ring: RingView)
    ensures
        ring.drained().posted.len() == 0,
        ring.drained().completions.len() == ring.completions.len() + ring.posted.len(),
        ring.drained().completions.take(ring.completions.len() as int) == ring.completions,
        ring.drained().completions.skip(ring.completions.len() as int) == ring.posted,
        ring.drained().operations == ring.operations,
        ring.drained().sqes == ring.sqes && ring.drained().sq_tail == ring.sq_tail
            && ring.drained().sq_head == ring.sq_head,
        ring.drained().pending_submissions == ring.pending_submissions,
        ring.drained().next_operation == ring.next_operation,
        ring.queued() == distance(ring.sq_head, ring.sq_tail),
{
    assert(ring.drained().completions.take(ring.completions.len() as int) =~= ring.completions);
    assert(ring.drained().completions.skip(ring.completions.len() as int) =~= ring.posted);
}

/// Operations are counted by what they are, each once.
pub proof fn each_operation_is_counted_once(operations: Map<u64, IoUringOperationState>)
    requires
        operations.dom().finite(),
        operations.dom().len() <= usize::MAX,
    ensures
        ({
            let counts = kind_counts(operations);
            &&& counts.nops == operations.dom().filter(|id: u64| operations[id].kind is Nop).len()
            &&& counts.reads == operations.dom().filter(|id: u64| operations[id].kind is Read).len()
            &&& counts.writes == operations.dom().filter(
                |id: u64| operations[id].kind is Write,
            ).len()
            &&& counts.timeouts == operations.dom().filter(
                |id: u64| operations[id].kind is Timeout,
            ).len()
            &&& counts.cancellations == operations.dom().filter(
                |id: u64| operations[id].kind is Cancel,
            ).len()
            &&& counts.total() == counts.nops + counts.reads + counts.writes + counts.timeouts
                + counts.cancellations
        }),
{
    let ids = operations.dom();
    let nop = |id: u64| operations[id].kind is Nop;
    let read = |id: u64| operations[id].kind is Read;
    let write = |id: u64| operations[id].kind is Write;
    let timeout = |id: u64| operations[id].kind is Timeout;
    let cancel = |id: u64| operations[id].kind is Cancel;
    ids.lemma_len_filter(nop);
    ids.lemma_len_filter(read);
    ids.lemma_len_filter(write);
    ids.lemma_len_filter(timeout);
    ids.lemma_len_filter(cancel);
    let is_nop = |kind: IoUringOperationKind| kind is Nop;
    let is_read = |kind: IoUringOperationKind| kind is Read;
    let is_write = |kind: IoUringOperationKind| kind is Write;
    let is_timeout = |kind: IoUringOperationKind| kind is Timeout;
    let is_cancel = |kind: IoUringOperationKind| kind is Cancel;
    assert((|id: u64| is_nop(operations[id].kind)) =~= nop);
    assert((|id: u64| is_read(operations[id].kind)) =~= read);
    assert((|id: u64| is_write(operations[id].kind)) =~= write);
    assert((|id: u64| is_timeout(operations[id].kind)) =~= timeout);
    assert((|id: u64| is_cancel(operations[id].kind)) =~= cancel);
}

/// One more operation adds one to the count of its own kind and to no other.
pub proof fn count_goes_up_for_the_kind(
    counts: IoUringOperationKindCounts,
    kind: IoUringOperationKind,
)
    requires
        counts.total() < usize::MAX,
    ensures
        ({
            let after = counts.plus(kind);
            let one = |came: bool|
                if came {
                    1int
                } else {
                    0int
                };
            &&& after.nops - counts.nops == one(kind is Nop)
            &&& after.reads - counts.reads == one(kind is Read)
            &&& after.writes - counts.writes == one(kind is Write)
            &&& after.timeouts - counts.timeouts == one(kind is Timeout)
            &&& after.cancellations - counts.cancellations == one(kind is Cancel)
            &&& after.total() == counts.total() + 1
        }),
{
}

/// A completion is found by its tag: the first that has it, and some where any has it.
pub proof fn first_completion_is_found(queue: Seq<IoUringCompletion>, user_data: u64, i: int)
    ensures
        is_first(queue, tagged(user_data), i) <==> {
            &&& 0 <= i < queue.len()
            &&& queue[i].user_data == user_data
            &&& forall|j: int| 0 <= j < i ==> (#[trigger] queue[j]).user_data != user_data
        },
        (exists|j: int| 0 <= j < queue.len() && (#[trigger] queue[j]).user_data == user_data)
            ==> exists|k: int| is_first(queue, tagged(user_data), k),
    decreases queue.len(),
{
    if exists|j: int| 0 <= j < queue.len() && (#[trigger] queue[j]).user_data == user_data {
        let j = choose|j: int| 0 <= j < queue.len() && (#[trigger] queue[j]).user_data == user_data;
        let front = queue.drop_last();
        if exists|k: int| 0 <= k < front.len() && (#[trigger] front[k]).user_data == user_data {
            first_completion_is_found(front, user_data, 0);
            let k = choose|k: int| is_first(front, tagged(user_data), k);
            first_completion_is_found(front, user_data, k);
            assert forall|p: int| 0 <= p < k implies !tagged(user_data)(#[trigger] queue[p]) by {
                assert(front[p] == queue[p]);
            }
            assert(is_first(queue, tagged(user_data), k));
        } else {
            let last = queue.len() - 1;
            if j < last {
                assert(front[j].user_data == user_data);
            }
            assert forall|p: int| 0 <= p < last implies !tagged(user_data)(#[trigger] queue[p]) by {
                assert(front[p] == queue[p]);
            }
            assert(is_first(queue, tagged(user_data), last));
        }
    }
}

/// An operation is remembered until it is forgotten, and forgetting one leaves the others.
pub proof fn operation_is_forgotten_alone(
    operations: Map<u64, IoUringOperationState>,
    user_data: u64,
    other: u64,
)
    ensures
        is_tracked(operations, user_data) <==> operations.dom().contains(user_data),
        !is_tracked(untracked(operations, user_data), user_data),
        other != user_data ==> (is_tracked(untracked(operations, user_data), other)
            <==> is_tracked(operations, other)) && (is_tracked(operations, other) ==> untracked(
            operations,
            user_data,
        )[other] == operations[other]),
{
}

/// A ring shows what the kernel has posted and was not taken, oldest first: one completion
/// for each position from the head of the queue to its tail, from the slot of that
/// position.
pub proof fn ring_shows_what_was_posted(ring: IoUring, i: nat)
    requires
        i < distance(ring.cq_head, ring.cq_tail),
    ensures
        ring@.posted.len() == distance(ring.cq_head, ring.cq_tail),
        ring@.posted[i as int] == ring.cqes@[(advance(ring.cq_head, i) & ring.cq_mask) as int],
        ring@.completions == ring.completions@ && ring@.operations == ring.operations@,
        ring@.sqes == ring.sqes@ && ring@.sq_head == ring.sq_head && ring@.sq_tail == ring.sq_tail,
        ring@.pending_submissions == ring.pending_submissions && ring@.next_operation
            == ring.next_operation,
{
}

/// A mask of ones from the lowest bit up is that of a queue whose length is a power of two.
pub proof fn queue_lengths_are_powers_of_two(bits: u32)
    requires
        bits < 32,
    ensures
        is_power_mask(((1u32 << bits) - 1) as u32),
{
    let mask = ((1u32 << bits) - 1) as u32;
    assert(mask & ((mask + 1) as u32) == 0) by (bit_vector)
        requires
            mask == ((1u32 << bits) - 1) as u32,
            bits < 32,
    ;
}

} // verus!
