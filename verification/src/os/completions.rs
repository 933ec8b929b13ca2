//! The completion side of a ring, and the exchanges with the kernel that submit
//! entries and wait for completions.

use vstd::prelude::*;
use vstd::std_specs::iter::IteratorSpec;

use crate::io_error::{ErrorKind, IoError, EINTR};
use crate::os::uring::{
    advance, distance, is_first, is_tracked, kind_counts, kind_counts_among, lemma_kind_counts,
    lemma_no_kinds, lemma_pop_front, lemma_slot_in_range, of_tracked, tagged, untracked, IoUring,
    IoUringCompletion, IoUringOperationCompletion, IoUringOperationId, IoUringOperationKind,
    IoUringOperationKindCounts, IoUringOperationState, IoUringSnapshot, RingStep, RingView,
};
use crate::platform::Platform;

verus! {

broadcast use vstd::std_specs::hash::group_hash_axioms;

/// The completion of a tracked operation, from the entry in the queue.
pub open spec fn operation_completion(
    operations: Map<u64, IoUringOperationState>,
    c: IoUringCompletion,
) -> IoUringOperationCompletion {
    IoUringOperationCompletion {
        operation: IoUringOperationId(c.user_data),
        kind: operations[c.user_data].kind,
        result: c.result,
        flags: c.flags,
    }
}

/// The number of entries that are still pending after the kernel took some.
pub open spec fn left_pending(pending: u32, submitted: u32) -> u32 {
    if submitted >= pending {
        0
    } else {
        (pending - submitted) as u32
    }
}

/// What entering the ring to submit comes to.
pub open spec fn submit_result(
    before: RingView,
    entered: Result<u32, i32>,
    result: Result<u32, IoError>,
    after: RingView,
) -> bool {
    match entered {
        Err(code) => after == before && (result matches Err(error) && error.is_os(Platform::Linux, code)),
        Ok(taken) => if taken == 0 {
            after == before && (result matches Err(error) && error.says(
                ErrorKind::WouldBlock,
                "io_uring accepted no pending submissions"@,
            ))
        } else {
            let left = left_pending(before.pending_submissions, taken);
            result == Ok::<u32, IoError>((before.pending_submissions - left) as u32) && after == (
            RingView { pending_submissions: left, ..before })
        },
    }
}

/// A tracked operation ends with `completion`, taken from the queues; or there
/// is no such operation, and the completion is lost.
pub open spec fn ended_with(
    before: RingView,
    operation: IoUringOperationId,
    completion: IoUringCompletion,
    step: RingStep<IoUringOperationCompletion>,
    after: RingView,
) -> bool {
    let taken = RingView { completions: after.completions, posted: after.posted, ..before };
    if is_tracked(before.operations, operation.0) {
        &&& step == RingStep::Done(
            Ok::<IoUringOperationCompletion, IoError>(
                operation_completion(before.operations, completion),
            ),
        )
        &&& after == (RingView { operations: untracked(before.operations, operation.0), ..taken })
    } else {
        &&& step matches RingStep::Done(Err(error)) && error.says(
            ErrorKind::NotFound,
            "io_uring completion does not match a tracked operation"@,
        )
        &&& after == taken
    }
}

/// What an exchange that waits for completions does next, when the local queue
/// holds `available` of them.
pub open spec fn wait_step(ring: RingView, target: u32, step: RingStep<usize>) -> bool {
    if ring.completions.len() >= target {
        step == RingStep::<usize>::Done(Ok(ring.completions.len() as usize))
    } else {
        step == RingStep::<usize>::Enter {
            to_submit: ring.pending_submissions,
            min_complete: (target - ring.completions.len()) as u32,
        }
    }
}

impl IoUring {
    /// Returns the number of entries queued but not yet submitted to the kernel.
    pub fn pending_submissions(&self) -> (count: u32)
        ensures
            count == self@.pending_submissions,
    {
        self.pending_submissions
    }

    /// Returns the number of completions already drained into the local queue.
    ///
    /// This does not look at the posted completions. Drain them first when a
    /// fresh sample is needed.
    pub fn pending_completions(&self) -> (count: usize)
        ensures
            count == self@.completions.len(),
    {
        self.completions.len()
    }

    /// Returns the number of tracked operations whose completions have not yet
    /// been consumed.
    pub fn tracked_operations(&self) -> (count: usize)
        ensures
            count == self@.operations.len(),
    {
        self.operations.len()
    }

    /// Returns a read-only snapshot of locally tracked ring state.
    pub fn snapshot(&self) -> (snapshot: IoUringSnapshot)
        ensures
            snapshot == (IoUringSnapshot {
                pending_submissions: self@.pending_submissions,
                pending_completions: self@.completions.len() as usize,
                tracked_operations: self@.operations.len() as usize,
                operation_kinds: kind_counts(self@.operations),
            }),
            snapshot.pending_completions == self@.completions.len(),
            snapshot.tracked_operations == self@.operations.len(),
            snapshot.operation_kinds.total() == self@.operations.len(),
    {
        let mut operation_kinds = IoUringOperationKindCounts::default();
        let keys = self.operations.keys();
        let ghost all = keys.remaining();
        let ghost mut seen: Set<u64> = Set::empty();
        let count: usize = self.operations.len();
        proof {
            lemma_no_kinds(self.operations@);
        }
        for id in it: keys
            invariant
                it.seq() == all,
                all.no_duplicates(),
                all.len() == count,
                all.unref().to_set() == self.operations@.dom(),
                seen == all.unref().take(it.index() as int).to_set(),
                seen.finite(),
                seen.len() == it.index(),
                operation_kinds == kind_counts_among(self.operations@, seen),
                operation_kinds.total() == it.index(),
        {
            let ghost i = it.index() as int;
            proof {
                let ids = all.unref();
                assert(ids[i] == *id);
                assert(ids.to_set().contains(*id));
                if ids.take(i).contains(*id) {
                    let k = choose|k: int| 0 <= k < i && ids.take(i)[k] == *id;
                    assert(all[k] == all[i]);
                }
                assert(ids.take(i + 1) =~= ids.take(i).push(*id));
                ids.take(i).lemma_push_to_set_commute(*id);
                assert(ids.take(i + 1).to_set() =~= seen.insert(*id));
                lemma_kind_counts(self.operations@, seen, *id);
            }
            match self.operations.get(id) {
                Some(state) => {
                    operation_kinds.add(state.kind);
                },
                None => {},
            }
            proof {
                seen = seen.insert(*id);
            }
        }
        assert(all.unref().take(all.len() as int) =~= all.unref());
        IoUringSnapshot {
            pending_submissions: self.pending_submissions,
            pending_completions: self.completions.len(),
            tracked_operations: self.operations.len(),
            operation_kinds,
        }
    }

    /// Takes the oldest completion that the kernel posted.
    pub fn pop_ring_completion(&mut self) -> (completion: Option<IoUringCompletion>)
        requires
            old(self).wf(),
        ensures
            final(self).wf(),
            final(self).sq_mask == old(self).sq_mask,
            final(self).cq_mask == old(self).cq_mask,
            old(self)@.posted.len() == 0 ==> completion is None && final(self)@ == old(self)@,
            old(self)@.posted.len() > 0 ==> completion == Some(old(self)@.posted[0])
                && final(self)@ == (RingView { posted: old(self)@.posted.drop_first(), ..old(self)@ }),
    {
        let head: u32 = self.cq_head;
        let tail: u32 = self.cq_tail;
        if head == tail {
            return None;
        }
        let mask: u32 = self.cq_mask;
        let index: u32 = head & mask;
        proof {
            lemma_slot_in_range(head, mask);
            lemma_pop_front(self.cqes@, head, tail, mask);
        }
        let completion = self.cqes[index as usize];
        self.cq_head = head.wrapping_add(1);
        assert(self.cq_head == advance(head, 1));
        assert(self@ =~= RingView { posted: old(self)@.posted.drop_first(), ..old(self)@ });
        Some(completion)
    }

    /// Drains all posted completions into the local queue and returns their
    /// number. It does not submit pending entries.
    pub fn drain_completions(&mut self) -> (drained: usize)
        requires
            old(self).wf(),
        ensures
            final(self).wf(),
            final(self).sq_mask == old(self).sq_mask,
            final(self).cq_mask == old(self).cq_mask,
            drained == old(self)@.posted.len(),
            final(self)@ == old(self)@.drained(),
    {
        let mut drained: usize = 0;
        let ghost posted = self@.posted;
        assert(self@.completions =~= old(self)@.completions + posted.take(0));
        assert(posted.skip(0) =~= posted);
        assert(posted.len() == distance(self.cq_head, self.cq_tail));
        loop
            invariant
                self.wf(),
                self.sq_mask == old(self).sq_mask,
                self.cq_mask == old(self).cq_mask,
                posted == old(self)@.posted,
                drained <= posted.len() <= u32::MAX,
                self@ == (RingView {
                    posted: posted.skip(drained as int),
                    completions: old(self)@.completions + posted.take(drained as int),
                    ..old(self)@
                }),
            ensures
                drained == posted.len(),
            decreases posted.len() - drained,
        {
            match self.pop_ring_completion() {
                None => {
                    break;
                },
                Some(completion) => {
                    self.completions.push_back(completion);
                    proof {
                        assert(completion == posted[drained as int]);
                        assert(posted.skip(drained as int).drop_first() =~= posted.skip(
                            drained + 1,
                        ));
                        assert(posted.take(drained as int).push(completion) =~= posted.take(
                            drained + 1,
                        ));
                        assert(self@.completions =~= old(self)@.completions + posted.take(
                            drained + 1,
                        ));
                    }
                    drained = drained + 1;
                    assert(self@ =~= RingView {
                        posted: posted.skip(drained as int),
                        completions: old(self)@.completions + posted.take(drained as int),
                        ..old(self)@
                    });
                },
            }
        }
        assert(self@ =~= old(self)@.drained()) by {
            assert(posted.take(posted.len() as int) =~= posted);
            assert(posted.skip(posted.len() as int) =~= Seq::empty());
        }
        drained
    }

    /// Returns one already available completion, if any: the oldest drained one,
    /// else the oldest posted one.
    pub fn try_completion(&mut self) -> (completion: Option<IoUringCompletion>)
        requires
            old(self).wf(),
        ensures
            final(self).wf(),
            final(self).sq_mask == old(self).sq_mask,
            final(self).cq_mask == old(self).cq_mask,
            ({
                let before = old(self)@;
                let all = before.completions + before.posted;
                &&& all.len() == 0 ==> completion is None && final(self)@ == before
                &&& all.len() > 0 ==> completion == Some(all[0])
                &&& before.completions.len() > 0 ==> final(self)@ == (RingView {
                    completions: before.completions.drop_first(),
                    ..before
                })
                &&& before.completions.len() == 0 && all.len() > 0 ==> final(self)@ == (RingView {
                    posted: before.posted.drop_first(),
                    ..before
                })
            }),
    {
        match self.completions.pop_front() {
            Some(completion) => {
                assert(self@ =~= RingView {
                    completions: old(self)@.completions.drop_first(),
                    ..old(self)@
                });
                Some(completion)
            },
            None => {
                assert(self@ =~= old(self)@);
                self.pop_ring_completion()
            },
        }
    }

    /// Takes the oldest drained completion tagged `user_data`. The others keep
    /// their order.
    pub fn take_drained(&mut self, user_data: u64) -> (completion: Option<IoUringCompletion>)
        requires
            old(self).wf(),
        ensures
            final(self).wf(),
            final(self).sq_mask == old(self).sq_mask,
            final(self).cq_mask == old(self).cq_mask,
            completion is None ==> final(self)@ == old(self)@ && forall|i: int|
                0 <= i < old(self)@.completions.len()
                    ==> (#[trigger] old(self)@.completions[i]).user_data != user_data,
            completion is Some ==> exists|i: int|
                #![trigger old(self)@.completions[i]]
                is_first(old(self)@.completions, tagged(user_data), i) && completion == Some(
                    old(self)@.completions[i],
                ) && final(self)@ == (RingView {
                    completions: old(self)@.completions.remove(i),
                    ..old(self)@
                }),
    {
        let mut i: usize = 0;
        while i < self.completions.len()
            invariant
                *self == *old(self),
                self.wf(),
                i <= self.completions.len(),
                forall|j: int|
                    0 <= j < i ==> (#[trigger] self@.completions[j]).user_data != user_data,
            decreases self.completions.len() - i,
        {
            if self.completions[i].user_data == user_data {
                let completion = self.completions.remove(i);
                proof {
                    assert(is_first(old(self)@.completions, tagged(user_data), i as int));
                    assert(self@ =~= RingView {
                        completions: old(self)@.completions.remove(i as int),
                        ..old(self)@
                    });
                }
                return completion;
            }
            i = i + 1;
        }
        None
    }

    /// Starts or continues a wait for the completion tagged `user_data`: takes
    /// posted completions until it comes, keeping the others in the local queue.
    /// Where none is left, the ring has to be entered for one more.
    pub fn wait_for_completion(&mut self, user_data: u64) -> (step: RingStep<IoUringCompletion>)
        requires
            old(self).wf(),
        ensures
            final(self).wf(),
            final(self).sq_mask == old(self).sq_mask,
            final(self).cq_mask == old(self).cq_mask,
            ({
                let before = old(self)@;
                let all = before.completions + before.posted;
                let absent = forall|i: int|
                    0 <= i < all.len() ==> (#[trigger] all[i]).user_data != user_data;
                &&& absent ==> step == (RingStep::<IoUringCompletion>::Enter {
                    to_submit: before.pending_submissions,
                    min_complete: 1,
                }) && final(self)@ == before.drained()
                &&& !absent ==> exists|i: int|
                    #![trigger all[i]]
                    is_first(all, tagged(user_data), i) && step == RingStep::<
                        IoUringCompletion,
                    >::Done(Ok(all[i])) && final(self)@.completions + final(self)@.posted
                        == all.remove(i) && final(self)@ == (RingView {
                        completions: final(self)@.completions,
                        posted: final(self)@.posted,
                        ..before
                    })
            }),
    {
        let ghost before = self@;
        let ghost all = before.completions + before.posted;
        match self.take_drained(user_data) {
            Some(completion) => {
                proof {
                    let i = choose|i: int|
                        #![trigger before.completions[i]]
                        is_first(before.completions, tagged(user_data), i) && Some(completion)
                            == Some(before.completions[i]) && self@ == (RingView {
                            completions: before.completions.remove(i),
                            ..before
                        });
                    assert(all[i] == before.completions[i]);
                    assert forall|j: int| 0 <= j < i implies !tagged(user_data)(
                        #[trigger] all[j],
                    ) by {
                        assert(all[j] == before.completions[j]);
                    }
                    assert(is_first(all, tagged(user_data), i));
                    assert(self@.completions + self@.posted =~= all.remove(i));
                }
                return RingStep::Done(Ok(completion));
            },
            None => {},
        }
        let ghost n = before.completions.len() as int;
        let ghost mut taken: int = 0;
        proof {
            assert(before.posted.skip(0) =~= before.posted);
            assert(before.completions + before.posted.take(0) =~= before.completions);
            assert(self@.posted.len() == distance(self.cq_head, self.cq_tail));
        }
        loop
            invariant
                self.wf(),
                self.sq_mask == old(self).sq_mask,
                self.cq_mask == old(self).cq_mask,
                before == old(self)@,
                all == before.completions + before.posted,
                n == before.completions.len(),
                0 <= taken <= before.posted.len(),
                self@ == (RingView {
                    completions: before.completions + before.posted.take(taken),
                    posted: before.posted.skip(taken),
                    ..before
                }),
                forall|j: int| 0 <= j < n + taken ==> (#[trigger] all[j]).user_data != user_data,
            ensures
                taken == before.posted.len(),
            decreases before.posted.len() - taken,
        {
            match self.pop_ring_completion() {
                None => {
                    break;
                },
                Some(completion) => {
                    proof {
                        assert(before.posted.skip(taken)[0] == before.posted[taken]);
                        assert(all[n + taken] == completion);
                        assert(before.posted.skip(taken).drop_first() =~= before.posted.skip(
                            taken + 1,
                        ));
                    }
                    if completion.user_data == user_data {
                        proof {
                            assert(is_first(all, tagged(user_data), n + taken));
                            assert(self@.completions + self@.posted =~= all.remove(n + taken));
                        }
                        return RingStep::Done(Ok(completion));
                    }
                    self.completions.push_back(completion);
                    proof {
                        assert(self@.completions =~= before.completions + before.posted.take(
                            taken + 1,
                        ));
                        taken = taken + 1;
                        assert(self@ =~= RingView {
                            completions: before.completions + before.posted.take(taken),
                            posted: before.posted.skip(taken),
                            ..before
                        });
                    }
                },
            }
        }
        proof {
            assert(before.posted.take(taken) =~= before.posted);
            assert(before.posted.skip(taken) =~= Seq::empty());
            assert(self@ =~= before.drained());
        }
        RingStep::Enter { to_submit: self.pending_submissions, min_complete: 1 }
    }

    /// Starts or continues a wait for one completion: takes the oldest one, or
    /// says that the ring has to be entered for one.
    pub fn wait_completion(&mut self) -> (step: RingStep<IoUringCompletion>)
        requires
            old(self).wf(),
        ensures
            final(self).wf(),
            final(self).sq_mask == old(self).sq_mask,
            final(self).cq_mask == old(self).cq_mask,
            ({
                let before = old(self)@;
                let all = before.completions + before.posted;
                &&& all.len() == 0 ==> final(self)@ == before && step == (RingStep::<
                    IoUringCompletion,
                >::Enter { to_submit: before.pending_submissions, min_complete: 1 })
                &&& all.len() > 0 ==> step == RingStep::<IoUringCompletion>::Done(Ok(all[0]))
                &&& before.completions.len() > 0 ==> final(self)@ == (RingView {
                    completions: before.completions.drop_first(),
                    ..before
                })
                &&& before.completions.len() == 0 && all.len() > 0 ==> final(self)@ == (RingView {
                    posted: before.posted.drop_first(),
                    ..before
                })
            }),
    {
        match self.try_completion() {
            Some(completion) => RingStep::Done(Ok(completion)),
            None => RingStep::Enter { to_submit: self.pending_submissions, min_complete: 1 },
        }
    }

    /// Takes the result of entering the ring to wait: the entries that the
    /// kernel took are no longer pending. An interrupted call is simply made
    /// again; any other failure ends the wait.
    pub fn entered_to_wait(&mut self, entered: Result<u32, i32>) -> (result: Result<(), IoError>)
        requires
            old(self).wf(),
        ensures
            final(self).wf(),
            final(self).sq_mask == old(self).sq_mask,
            final(self).cq_mask == old(self).cq_mask,
            match entered {
                Ok(submitted) => result is Ok && final(self)@ == (RingView {
                    pending_submissions: left_pending(old(self)@.pending_submissions, submitted),
                    ..old(self)@
                }),
                Err(code) => final(self)@ == old(self)@ && if code == EINTR {
                    result is Ok
                } else {
                    result matches Err(error) && error.is_os(Platform::Linux, code)
                },
            },
    {
        match entered {
            Ok(submitted) => {
                self.pending_submissions = self.pending_submissions.saturating_sub(submitted);
                Ok(())
            },
            Err(code) => {
                if code == EINTR {
                    Ok(())
                } else {
                    Err(IoError::from_raw_os_error(Platform::Linux, code))
                }
            },
        }
    }

    /// Starts or continues a wait until `min_complete` completions are drained:
    /// drains what is posted, and says whether that is enough. Where it is not,
    /// the ring has to be entered, which also submits the pending entries.
    pub fn wait_completions(&mut self, min_complete: usize) -> (step: RingStep<usize>)
        requires
            old(self).wf(),
            old(self)@.completions.len() + old(self)@.posted.len() <= usize::MAX,
        ensures
            final(self).wf(),
            final(self).sq_mask == old(self).sq_mask,
            final(self).cq_mask == old(self).cq_mask,
            min_complete > u32::MAX ==> final(self)@ == old(self)@ && (step matches RingStep::Done(
                Err(error),
            ) && error.says(
                ErrorKind::InvalidInput,
                "io_uring completion wait count exceeds u32::MAX"@,
            )),
            min_complete <= u32::MAX ==> final(self)@ == old(self)@.drained() && wait_step(
                old(self)@.drained(),
                min_complete as u32,
                step,
            ),
    {
        if min_complete > u32::MAX as usize {
            return RingStep::Done(
                Err(
                    IoError::new(
                        ErrorKind::InvalidInput,
                        "io_uring completion wait count exceeds u32::MAX",
                    ),
                ),
            );
        }
        let _ = self.drain_completions();
        let available: usize = self.completions.len();
        if available >= min_complete {
            RingStep::Done(Ok(available))
        } else {
            RingStep::Enter {
                to_submit: self.pending_submissions,
                min_complete: (min_complete - available) as u32,
            }
        }
    }

    /// The next step of a submission of all pending entries, `submitted` of
    /// which the kernel has taken so far.
    pub fn submit_pending(&self, submitted: u32) -> (step: RingStep<u32>)
        ensures
            self@.pending_submissions > 0 ==> step == (RingStep::<u32>::Enter {
                to_submit: self@.pending_submissions,
                min_complete: 0,
            }),
            self@.pending_submissions == 0 ==> step == RingStep::<u32>::Done(Ok(submitted)),
    {
        if self.pending_submissions > 0 {
            RingStep::Enter { to_submit: self.pending_submissions, min_complete: 0 }
        } else {
            RingStep::Done(Ok(submitted))
        }
    }

    /// Takes the result of entering the ring to submit, and returns how many
    /// entries the kernel took. It fails where the call failed or the kernel
    /// took none, which would otherwise repeat forever.
    pub fn entered_to_submit(&mut self, entered: Result<u32, i32>) -> (result: Result<u32, IoError>)
        requires
            old(self).wf(),
            old(self)@.pending_submissions > 0,
        ensures
            final(self).wf(),
            final(self).sq_mask == old(self).sq_mask,
            final(self).cq_mask == old(self).cq_mask,
            submit_result(old(self)@, entered, result, final(self)@),
            result is Ok ==> final(self)@.pending_submissions < old(self)@.pending_submissions,
    {
        match entered {
            Err(code) => Err(IoError::from_raw_os_error(Platform::Linux, code)),
            Ok(taken) => {
                if taken == 0 {
                    return Err(
                        IoError::new(
                            ErrorKind::WouldBlock,
                            "io_uring accepted no pending submissions",
                        ),
                    );
                }
                let requested: u32 = self.pending_submissions;
                let accepted: u32 = if taken < requested {
                    taken
                } else {
                    requested
                };
                self.pending_submissions = requested - accepted;
                Ok(accepted)
            },
        }
    }

    /// Notes how far the kernel has read the submission queue.
    pub fn set_sq_head(&mut self, sq_head: u32)
        requires
            old(self).wf(),
        ensures
            final(self).wf(),
            final(self).sq_mask == old(self).sq_mask,
            final(self).cq_mask == old(self).cq_mask,
            final(self)@ == (RingView { sq_head, ..old(self)@ }),
    {
        self.sq_head = sq_head;
    }

    /// Ends a tracked operation with its completion. Fails where no such
    /// operation is tracked.
    pub fn complete_operation(
        &mut self,
        operation: IoUringOperationId,
        completion: IoUringCompletion,
    ) -> (result: Result<IoUringOperationCompletion, IoError>)
        requires
            old(self).wf(),
        ensures
            final(self).wf(),
            final(self).sq_mask == old(self).sq_mask,
            final(self).cq_mask == old(self).cq_mask,
            result is Ok <==> is_tracked(old(self)@.operations, operation.0),
            result matches Ok(done) ==> done == (IoUringOperationCompletion {
                operation,
                kind: old(self)@.operations[operation.0].kind,
                result: completion.result,
                flags: completion.flags,
            }) && final(self)@ == (RingView {
                operations: untracked(old(self)@.operations, operation.0),
                ..old(self)@
            }),
            result matches Err(error) ==> final(self)@ == old(self)@ && error.says(
                ErrorKind::NotFound,
                "io_uring completion does not match a tracked operation"@,
            ),
    {
        match self.operation_kind(operation.0) {
            None => Err(
                IoError::new(
                    ErrorKind::NotFound,
                    "io_uring completion does not match a tracked operation",
                ),
            ),
            Some(kind) => {
                self.forget_operation(operation);
                Ok(
                    IoUringOperationCompletion {
                        operation,
                        kind,
                        result: completion.result,
                        flags: completion.flags,
                    },
                )
            },
        }
    }

    /// Starts or continues a wait for the completion of a tracked operation, and
    /// ends the operation with it. Where the completion is not there yet, the ring
    /// has to be entered.
    pub fn wait_operation_completion(&mut self, operation: IoUringOperationId) -> (step: RingStep<
        IoUringOperationCompletion,
    >)
        requires
            old(self).wf(),
        ensures
            final(self).wf(),
            final(self).sq_mask == old(self).sq_mask,
            final(self).cq_mask == old(self).cq_mask,
            ({
                let before = old(self)@;
                let all = before.completions + before.posted;
                let absent = forall|i: int|
                    0 <= i < all.len() ==> (#[trigger] all[i]).user_data != operation.0;
                &&& absent ==> step == (RingStep::<IoUringOperationCompletion>::Enter {
                    to_submit: before.pending_submissions,
                    min_complete: 1,
                }) && final(self)@ == before.drained()
                &&& !absent ==> exists|i: int|
                    #![trigger all[i]]
                    is_first(all, tagged(operation.0), i) && final(self)@.completions
                        + final(self)@.posted == all.remove(i) && ended_with(
                        before,
                        operation,
                        all[i],
                        step,
                        final(self)@,
                    )
            }),
    {
        match self.wait_for_completion(operation.raw()) {
            RingStep::Enter { to_submit, min_complete } => RingStep::Enter {
                to_submit,
                min_complete,
            },
            RingStep::Done(Err(error)) => RingStep::Done(Err(error)),
            RingStep::Done(Ok(completion)) => RingStep::Done(
                self.complete_operation(operation, completion),
            ),
        }
    }

    fn operation_kind(&self, user_data: u64) -> (kind: Option<IoUringOperationKind>)
        ensures
            kind is Some <==> is_tracked(self@.operations, user_data),
            kind is Some ==> kind == Some(self@.operations[user_data].kind),
    {
        match self.operations.get(&user_data) {
            Some(state) => Some(state.kind),
            None => None,
        }
    }

    /// Returns one completed tracked operation, if any, without blocking.
    ///
    /// Completions of untracked entries are kept, in order, for
    /// `try_completion` and `wait_for_completion`.
    pub fn try_operation_completion(&mut self) -> (completion: Option<IoUringOperationCompletion>)
        requires
            old(self).wf(),
        ensures
            final(self).wf(),
            final(self).sq_mask == old(self).sq_mask,
            final(self).cq_mask == old(self).cq_mask,
            completion is None ==> final(self)@ == old(self)@.drained() && no_tracked(
                old(self)@.drained(),
            ),
            completion is Some ==> exists|i: int|
                #![trigger old(self)@.drained().completions[i]]
                dispatches(old(self)@.drained(), i, completion->0, final(self)@),
    {
        let _ = self.drain_completions();
        let ghost before = self@;
        let mut i: usize = 0;
        while i < self.completions.len()
            invariant
                self.wf(),
                self@ == before,
                before == old(self)@.drained(),
                self.sq_mask == old(self).sq_mask,
                self.cq_mask == old(self).cq_mask,
                i <= self.completions.len(),
                forall|j: int|
                    0 <= j < i ==> !is_tracked(
                        before.operations,
                        (#[trigger] before.completions[j]).user_data,
                    ),
            decreases self.completions.len() - i,
        {
            let user_data: u64 = self.completions[i].user_data;
            match self.operation_kind(user_data) {
                None => {},
                Some(kind) => {
                    let completion = self.completions[i];
                    let _ = self.completions.remove(i);
                    self.forget_operation(IoUringOperationId(user_data));
                    let done = IoUringOperationCompletion {
                        operation: IoUringOperationId(user_data),
                        kind,
                        result: completion.result,
                        flags: completion.flags,
                    };
                    proof {
                        assert(completion == before.completions[i as int]);
                        assert(is_first(before.completions, of_tracked(before.operations), i as int));
                        assert(self@ =~= RingView {
                            completions: before.completions.remove(i as int),
                            operations: untracked(before.operations, user_data),
                            ..before
                        });
                        assert(dispatches(before, i as int, done, self@));
                    }
                    return Some(done);
                },
            }
            i = i + 1;
        }
        None
    }
}

/// No drained completion is that of a tracked operation.
pub open spec fn no_tracked(ring: RingView) -> bool {
    forall|i: int|
        0 <= i < ring.completions.len() ==> !is_tracked(
            ring.operations,
            (#[trigger] ring.completions[i]).user_data,
        )
}

/// The first drained completion of a tracked operation is number `i`; it is
/// handed out as `done`, which ends the operation and leaves every other
/// completion in its order.
pub open spec fn dispatches(
    before: RingView,
    i: int,
    done: IoUringOperationCompletion,
    after: RingView,
) -> bool {
    &&& is_first(before.completions, of_tracked(before.operations), i)
    &&& done == operation_completion(before.operations, before.completions[i])
    &&& after == (RingView {
        completions: before.completions.remove(i),
        operations: untracked(before.operations, before.completions[i].user_data),
        ..before
    })
}

/// A completion is handed out as the kernel posted it, with the operation that it is of and
/// that operation's kind.
pub proof fn completion_is_handed_out_as_posted(
    operations: Map<u64, IoUringOperationState>,
    posted: IoUringCompletion,
)
    ensures
        ({
            let done = operation_completion(operations, posted);
            &&& done.operation.0 == posted.user_data
            &&& done.result == posted.result
            &&& done.flags == posted.flags
            &&& done.kind == operations[posted.user_data].kind
        }),
{
}

/// What the kernel took of the entries to submit is what was there less what is left, and
/// it takes no more than there were.
pub proof fn entries_are_taken_or_left(pending: u32, submitted: u32)
    ensures
        left_pending(pending, submitted) <= pending,
        submitted <= pending ==> left_pending(pending, submitted) + submitted == pending,
        submitted >= pending ==> left_pending(pending, submitted) == 0,
{
}

/// A submission reports how many of the waiting entries the kernel took, and those no
/// longer wait. Where it took none, or failed, that is an error and all of them still wait.
/// Nothing else of the ring changes.
pub proof fn submission_reports_what_was_taken(
    before: RingView,
    entered: Result<u32, i32>,
    result: Result<u32, IoError>,
    after: RingView,
)
    requires
        submit_result(before, entered, result, after),
    ensures
        result is Ok <==> entered is Ok && entered->Ok_0 > 0,
        result matches Ok(taken) ==> {
            &&& taken + after.pending_submissions == before.pending_submissions
            &&& entered->Ok_0 <= before.pending_submissions ==> taken == entered->Ok_0
            &&& entered->Ok_0 > before.pending_submissions ==> taken == before.pending_submissions
        },
        result is Err ==> after == before,
        entered matches Err(code) ==> result->Err_0.raw_os_error == Some(code),
        entered == Ok::<u32, i32>(0) ==> result->Err_0.kind == ErrorKind::WouldBlock,
        after.sqes == before.sqes && after.sq_head == before.sq_head && after.sq_tail
            == before.sq_tail && after.posted == before.posted && after.completions
            == before.completions && after.operations == before.operations
            && after.next_operation == before.next_operation,
{
}

/// A wait is over when as many completions as it wants have come, and says how many there
/// are; otherwise the kernel is asked for those that are missing, and gets the entries that
/// still wait.
pub proof fn wait_asks_for_what_is_missing(ring: RingView, target: u32, step: RingStep<usize>)
    requires
        ring.completions.len() <= usize::MAX,
        wait_step(ring, target, step),
    ensures
        step is Done <==> ring.completions.len() >= target,
        step is Done ==> step->Done_0 is Ok && step->Done_0->Ok_0 == ring.completions.len(),
        step is Enter <==> ring.completions.len() < target,
        step is Enter ==> ring.completions.len() + step->min_complete == target && step->to_submit
            == ring.pending_submissions,
{
}

/// The completion of a remembered operation ends it: the operation is forgotten and its
/// completion handed out. A completion of anything else is an error, and no operation is
/// forgotten.
pub proof fn completion_ends_its_operation(
    before: RingView,
    operation: IoUringOperationId,
    completion: IoUringCompletion,
    step: RingStep<IoUringOperationCompletion>,
    after: RingView,
)
    requires
        completion.user_data == operation.0,
        ended_with(before, operation, completion, step, after),
    ensures
        step is Done,
        step->Done_0 is Ok <==> before.operations.contains_key(operation.0),
        step->Done_0 matches Ok(done) ==> {
            &&& done.operation == operation
            &&& done.result == completion.result && done.flags == completion.flags
            &&& done.kind == before.operations[operation.0].kind
            &&& after.operations == before.operations.remove(operation.0)
        },
        step->Done_0 is Err ==> after.operations == before.operations
            && step->Done_0->Err_0.kind == ErrorKind::NotFound,
        after.sqes == before.sqes && after.sq_tail == before.sq_tail && after.pending_submissions
            == before.pending_submissions && after.next_operation == before.next_operation,
{
}

/// Dispatching takes the first completion of a remembered operation out of the queue and
/// forgets the operation; the others stay in order. There is nothing to dispatch exactly
/// where no completion is of a remembered operation.
pub proof fn dispatch_takes_the_first_tracked(
    before: RingView,
    i: int,
    done: IoUringOperationCompletion,
    after: RingView,
)
    requires
        dispatches(before, i, done, after),
    ensures
        0 <= i < before.completions.len(),
        before.operations.contains_key(before.completions[i].user_data),
        forall|j: int|
            0 <= j < i ==> !before.operations.contains_key(
                (#[trigger] before.completions[j]).user_data,
            ),
        done.operation.0 == before.completions[i].user_data && done.result
            == before.completions[i].result && done.flags == before.completions[i].flags,
        after.completions == before.completions.take(i) + before.completions.skip(i + 1),
        after.operations == before.operations.remove(before.completions[i].user_data),
        after.posted == before.posted && after.sqes == before.sqes && after.pending_submissions
            == before.pending_submissions,
        !no_tracked(before),
{
    assert(after.completions =~= before.completions.take(i) + before.completions.skip(i + 1));
    assert(of_tracked(before.operations)(before.completions[i]));
}

} // verus!
