//! Waiters for file descriptor readiness.

use vstd::prelude::*;

use crate::seq_util::{lemma_filter_contains, lemma_filter_none, lemma_filter_step};

verus! {

/// One waiter on a file descriptor. `W` is whatever wakes it.
pub struct IoInterest<W> {
    /// Identifier that the waiter allocated.
    pub id: usize,
    /// File descriptor waited on.
    pub fd: i32,
    /// Wakes the waiter.
    pub waker: W,
}

/// Waiters of one direction: those still pending and those found ready and not
/// yet told.
pub struct InterestSet<W> {
    /// Pending waiters, in the order of their registration.
    pub interests: Vec<IoInterest<W>>,
    /// Identifiers of waiters found ready.
    pub ready: Vec<usize>,
    /// Identifier of the next waiter.
    pub next_id: usize,
}

/// `i` is the first waiter with that identifier.
pub open spec fn is_first_interest<W>(interests: Seq<IoInterest<W>>, id: usize, i: int) -> bool {
    &&& 0 <= i < interests.len()
    &&& interests[i].id == id
    &&& forall|j: int| 0 <= j < i ==> (#[trigger] interests[j]).id != id
}

/// No waiter has that identifier.
pub open spec fn no_interest<W>(interests: Seq<IoInterest<W>>, id: usize) -> bool {
    forall|j: int| 0 <= j < interests.len() ==> (#[trigger] interests[j]).id != id
}

/// The interests after the waiter `id` asked for `fd`.
pub open spec fn is_registered<W>(
    before: Seq<IoInterest<W>>,
    after: Seq<IoInterest<W>>,
    entry: IoInterest<W>,
) -> bool {
    &&& no_interest(before, entry.id) ==> after == before.push(entry)
    &&& forall|i: int|
        #![trigger is_first_interest(before, entry.id, i)]
        is_first_interest(before, entry.id, i) ==> after == before.update(i, entry)
}

/// Picks the waiters on a descriptor among `fds`.
pub open spec fn on_any<W>(fds: Seq<i32>) -> spec_fn(IoInterest<W>) -> bool {
    |x: IoInterest<W>| fds.contains(x.fd)
}

/// Picks the waiters on a descriptor not among `fds`.
pub open spec fn on_none<W>(fds: Seq<i32>) -> spec_fn(IoInterest<W>) -> bool {
    |x: IoInterest<W>| !fds.contains(x.fd)
}

/// Picks the waiters with another identifier.
pub open spec fn other_interest<W>(id: usize) -> spec_fn(IoInterest<W>) -> bool {
    |x: IoInterest<W>| x.id != id
}

/// Picks the identifiers other than `id`.
pub open spec fn other_id(id: usize) -> spec_fn(usize) -> bool {
    |x: usize| x != id
}

/// The wakers of waiters, in order.
pub open spec fn interest_wakers<W>(interests: Seq<IoInterest<W>>) -> Seq<W> {
    interests.map_values(|x: IoInterest<W>| x.waker)
}

/// The identifiers of waiters, in order.
pub open spec fn interest_ids<W>(interests: Seq<IoInterest<W>>) -> Seq<usize> {
    interests.map_values(|x: IoInterest<W>| x.id)
}

/// The descriptors waited on, each once, in the order of their first waiter.
pub open spec fn unique_fds<W>(interests: Seq<IoInterest<W>>) -> Seq<i32>
    decreases interests.len(),
{
    if interests.len() == 0 {
        Seq::empty()
    } else {
        let front = unique_fds(interests.drop_last());
        if front.contains(interests.last().fd) {
            front
        } else {
            front.push(interests.last().fd)
        }
    }
}

/// The ready list after the entry of `id` that comes first is taken out, the
/// last entry filling its place.
pub open spec fn is_taken(before: Seq<usize>, after: Seq<usize>, id: usize) -> bool {
    forall|p: int|
        #![trigger before[p]]
        0 <= p < before.len() && before[p] == id && (forall|q: int|
            0 <= q < p ==> #[trigger] before[q] != id) ==> after == before.update(
            p,
            before.last(),
        ).drop_last()
}

/// Whether `fds` holds `fd`.
pub fn contains_fd(fds: &[i32], fd: i32) -> (found: bool)
    ensures
        found == fds@.contains(fd),
{
    let mut i: usize = 0;
    while i < fds.len()
        invariant
            i <= fds.len(),
            forall|j: int| 0 <= j < i ==> fds@[j] != fd,
        decreases fds.len() - i,
    {
        if fds[i] == fd {
            assert(fds@[i as int] == fd);
            return true;
        }
        i = i + 1;
    }
    false
}

impl<W> InterestSet<W> {
    /// A set without waiters.
    pub fn new() -> (set: Self)
        ensures
            set.interests@ == Seq::<IoInterest<W>>::empty(),
            set.ready@ == Seq::<usize>::empty(),
            set.next_id == 0,
    {
        InterestSet { interests: Vec::new(), ready: Vec::new(), next_id: 0 }
    }

    /// Hands out the next identifier, wrapping around at the end of the range.
    pub fn allocate_id(&mut self) -> (id: usize)
        ensures
            id == old(self).next_id,
            final(self).interests == old(self).interests,
            final(self).ready == old(self).ready,
            final(self).next_id == if old(self).next_id == usize::MAX {
                0
            } else {
                (old(self).next_id + 1) as usize
            },
    {
        let id: usize = self.next_id;
        self.next_id = id.wrapping_add(1);
        id
    }

    /// Lets the waiter `id` wait for `fd`, replacing what it waited for before.
    pub fn register(&mut self, id: usize, fd: i32, waker: W)
        ensures
            is_registered(
                old(self).interests@,
                final(self).interests@,
                IoInterest { id, fd, waker },
            ),
            final(self).ready == old(self).ready,
            final(self).next_id == old(self).next_id,
    {
        let mut i: usize = 0;
        while i < self.interests.len() && self.interests[i].id != id
            invariant
                i <= self.interests.len(),
                *self == *old(self),
                forall|j: int| 0 <= j < i ==> (#[trigger] self.interests@[j]).id != id,
            decreases self.interests.len() - i,
        {
            i = i + 1;
        }
        let entry = IoInterest { id, fd, waker };
        if i < self.interests.len() {
            assert(old(self).interests@[i as int].id == id);
            self.interests.set(i, entry);
            assert forall|k: int| #[trigger] is_first_interest(old(self).interests@, id, k) implies k
                == i by {
                if k < i {
                    assert(old(self).interests@[k].id != id);
                } else if k > i {
                    assert(old(self).interests@[i as int].id != id);
                }
            }
        } else {
            self.interests.push(entry);
        }
    }

    /// Forgets the waiter `id`, pending or ready.
    pub fn remove(&mut self, id: usize)
        ensures
            final(self).interests@ == old(self).interests@.filter(other_interest(id)),
            final(self).ready@ == old(self).ready@.filter(other_id(id)),
            final(self).next_id == old(self).next_id,
    {
        let mut drained: Vec<IoInterest<W>> = Vec::new();
        core::mem::swap(&mut drained, &mut self.interests);
        let ghost all = drained@;
        let mut kept: Vec<IoInterest<W>> = Vec::new();
        proof {
            lemma_filter_none(all, other_interest(id));
            lemma_filter_none(self.ready@, other_id(id));
        }
        for interest in it: drained
            invariant
                it.seq() == all,
                kept@ == all.take(it.index() as int).filter(other_interest(id)),
        {
            proof {
                lemma_filter_step(all, it.index() as int, other_interest(id));
            }
            if interest.id != id {
                kept.push(interest);
            }
        }
        assert(all.take(all.len() as int) =~= all);
        self.interests = kept;
        let mut ready: Vec<usize> = Vec::new();
        let mut i: usize = 0;
        while i < self.ready.len()
            invariant
                i <= self.ready.len(),
                ready@ == self.ready@.take(i as int).filter(other_id(id)),
            decreases self.ready.len() - i,
        {
            proof {
                lemma_filter_step(self.ready@, i as int, other_id(id));
            }
            if self.ready[i] != id {
                ready.push(self.ready[i]);
            }
            i = i + 1;
        }
        assert(self.ready@.take(i as int) =~= self.ready@);
        self.ready = ready;
    }

    /// Forgets every waiter. Identifiers go on from where they were.
    pub fn clear(&mut self)
        ensures
            final(self).interests@ == Seq::<IoInterest<W>>::empty(),
            final(self).ready@ == Seq::<usize>::empty(),
            final(self).next_id == old(self).next_id,
    {
        self.interests.clear();
        self.ready.clear();
    }

    /// The descriptors waited on, each once.
    pub fn fds(&self) -> (fds: Vec<i32>)
        ensures
            fds@ == unique_fds(self.interests@),
    {
        let mut fds: Vec<i32> = Vec::new();
        let mut i: usize = 0;
        assert(self.interests@.take(0) =~= Seq::empty());
        while i < self.interests.len()
            invariant
                i <= self.interests.len(),
                fds@ == unique_fds(self.interests@.take(i as int)),
            decreases self.interests.len() - i,
        {
            proof {
                assert(self.interests@.take(i + 1).drop_last() =~= self.interests@.take(i as int));
            }
            let fd: i32 = self.interests[i].fd;
            if !contains_fd(fds.as_slice(), fd) {
                fds.push(fd);
            }
            i = i + 1;
        }
        assert(self.interests@.take(i as int) =~= self.interests@);
        fds
    }

    /// Number of pending waiters.
    pub fn len(&self) -> (len: usize)
        ensures
            len == self.interests@.len(),
    {
        self.interests.len()
    }

    /// Takes out every waiter on one of `ready_fds`, notes it as ready and
    /// returns its waker, all in the order of registration.
    pub fn wake_ready(&mut self, ready_fds: &[i32]) -> (wakers: Vec<W>)
        ensures
            wakers@ == interest_wakers(old(self).interests@.filter(on_any(ready_fds@))),
            final(self).interests@ == old(self).interests@.filter(on_none(ready_fds@)),
            final(self).ready@ == old(self).ready@ + interest_ids(
                old(self).interests@.filter(on_any(ready_fds@)),
            ),
            final(self).next_id == old(self).next_id,
    {
        let mut drained: Vec<IoInterest<W>> = Vec::new();
        core::mem::swap(&mut drained, &mut self.interests);
        let ghost all = drained@;
        let ghost fds = ready_fds@;
        let ghost old_ready = self.ready@;
        let mut wakers: Vec<W> = Vec::new();
        let mut pending: Vec<IoInterest<W>> = Vec::new();
        proof {
            lemma_filter_none(all, on_any(fds));
            lemma_filter_none(all, on_none(fds));
        }
        for interest in it: drained
            invariant
                it.seq() == all,
                fds == ready_fds@,
                self.next_id == old(self).next_id,
                wakers@ == interest_wakers(all.take(it.index() as int).filter(on_any(fds))),
                pending@ == all.take(it.index() as int).filter(on_none(fds)),
                self.ready@ == old_ready + interest_ids(
                    all.take(it.index() as int).filter(on_any(fds)),
                ),
        {
            proof {
                lemma_filter_step(all, it.index() as int, on_any(fds));
                lemma_filter_step(all, it.index() as int, on_none(fds));
            }
            if contains_fd(ready_fds, interest.fd) {
                self.ready.push(interest.id);
                wakers.push(interest.waker);
            } else {
                pending.push(interest);
            }
        }
        assert(all.take(all.len() as int) =~= all);
        self.interests = pending;
        wakers
    }

    /// Whether the waiter `id` was found ready. It is told so once for each time
    /// it was found ready.
    pub fn take_ready(&mut self, id: usize) -> (was_ready: bool)
        ensures
            was_ready == old(self).ready@.contains(id),
            !was_ready ==> *final(self) == *old(self),
            was_ready ==> is_taken(old(self).ready@, final(self).ready@, id),
            final(self).interests == old(self).interests,
            final(self).next_id == old(self).next_id,
    {
        let mut i: usize = 0;
        while i < self.ready.len()
            invariant
                i <= self.ready.len(),
                *self == *old(self),
                forall|j: int| 0 <= j < i ==> self.ready@[j] != id,
            decreases self.ready.len() - i,
        {
            if self.ready[i] == id {
                assert(old(self).ready@[i as int] == id);
                let _ = self.ready.swap_remove(i);
                assert(is_taken(old(self).ready@, self.ready@, id));
                return true;
            }
            i = i + 1;
        }
        false
    }
}

/// Waiters of both directions.
pub struct ReadinessInterests<W> {
    /// Waiters for readability.
    pub reads: InterestSet<W>,
    /// Waiters for writability.
    pub writes: InterestSet<W>,
}

impl<W> ReadinessInterests<W> {
    /// No waiters in either direction.
    pub fn new() -> (interests: Self)
        ensures
            interests.reads.interests@ == Seq::<IoInterest<W>>::empty(),
            interests.reads.ready@ == Seq::<usize>::empty(),
            interests.reads.next_id == 0,
            interests.writes.interests@ == Seq::<IoInterest<W>>::empty(),
            interests.writes.ready@ == Seq::<usize>::empty(),
            interests.writes.next_id == 0,
    {
        ReadinessInterests { reads: InterestSet::new(), writes: InterestSet::new() }
    }

    /// Forgets every waiter in both directions.
    pub fn clear(&mut self)
        ensures
            final(self).reads.interests@ == Seq::<IoInterest<W>>::empty(),
            final(self).reads.ready@ == Seq::<usize>::empty(),
            final(self).reads.next_id == old(self).reads.next_id,
            final(self).writes.interests@ == Seq::<IoInterest<W>>::empty(),
            final(self).writes.ready@ == Seq::<usize>::empty(),
            final(self).writes.next_id == old(self).writes.next_id,
    {
        self.reads.clear();
        self.writes.clear();
    }

    /// Number of pending readers.
    pub fn read_len(&self) -> (len: usize)
        ensures
            len == self.reads.interests@.len(),
    {
        self.reads.len()
    }

    /// Number of pending writers.
    pub fn write_len(&self) -> (len: usize)
        ensures
            len == self.writes.interests@.len(),
    {
        self.writes.len()
    }

    /// Hands out the next reader identifier.
    pub fn allocate_read_id(&mut self) -> (id: usize)
        ensures
            id == old(self).reads.next_id,
            final(self).writes == old(self).writes,
            final(self).reads.interests == old(self).reads.interests,
            final(self).reads.ready == old(self).reads.ready,
            final(self).reads.next_id == if old(self).reads.next_id == usize::MAX {
                0
            } else {
                (old(self).reads.next_id + 1) as usize
            },
    {
        self.reads.allocate_id()
    }

    /// Lets the reader `id` wait for `fd`.
    pub fn register_read(&mut self, id: usize, fd: i32, waker: W)
        ensures
            is_registered(
                old(self).reads.interests@,
                final(self).reads.interests@,
                IoInterest { id, fd, waker },
            ),
            final(self).reads.ready == old(self).reads.ready,
            final(self).reads.next_id == old(self).reads.next_id,
            final(self).writes == old(self).writes,
    {
        self.reads.register(id, fd, waker);
    }

    /// Forgets the reader `id`.
    pub fn remove_read(&mut self, id: usize)
        ensures
            final(self).reads.interests@ == old(self).reads.interests@.filter(other_interest(id)),
            final(self).reads.ready@ == old(self).reads.ready@.filter(other_id(id)),
            final(self).reads.next_id == old(self).reads.next_id,
            final(self).writes == old(self).writes,
    {
        self.reads.remove(id);
    }

    /// The descriptors that readers wait on, each once.
    pub fn read_fds(&self) -> (fds: Vec<i32>)
        ensures
            fds@ == unique_fds(self.reads.interests@),
    {
        self.reads.fds()
    }

    /// Takes out the readers on one of `readable` and returns their wakers.
    pub fn wake_readable(&mut self, readable: &[i32]) -> (wakers: Vec<W>)
        ensures
            wakers@ == interest_wakers(old(self).reads.interests@.filter(on_any(readable@))),
            final(self).reads.interests@ == old(self).reads.interests@.filter(on_none(readable@)),
            final(self).reads.ready@ == old(self).reads.ready@ + interest_ids(
                old(self).reads.interests@.filter(on_any(readable@)),
            ),
            final(self).reads.next_id == old(self).reads.next_id,
            final(self).writes == old(self).writes,
    {
        self.reads.wake_ready(readable)
    }

    /// Whether the reader `id` was found ready.
    pub fn take_ready_read(&mut self, id: usize) -> (was_ready: bool)
        ensures
            was_ready == old(self).reads.ready@.contains(id),
            !was_ready ==> *final(self) == *old(self),
            was_ready ==> is_taken(old(self).reads.ready@, final(self).reads.ready@, id),
            final(self).reads.interests == old(self).reads.interests,
            final(self).reads.next_id == old(self).reads.next_id,
            final(self).writes == old(self).writes,
    {
        self.reads.take_ready(id)
    }

    /// Hands out the next writer identifier.
    pub fn allocate_write_id(&mut self) -> (id: usize)
        ensures
            id == old(self).writes.next_id,
            final(self).reads == old(self).reads,
            final(self).writes.interests == old(self).writes.interests,
            final(self).writes.ready == old(self).writes.ready,
            final(self).writes.next_id == if old(self).writes.next_id == usize::MAX {
                0
            } else {
                (old(self).writes.next_id + 1) as usize
            },
    {
        self.writes.allocate_id()
    }

    /// Lets the writer `id` wait for `fd`.
    pub fn register_write(&mut self, id: usize, fd: i32, waker: W)
        ensures
            is_registered(
                old(self).writes.interests@,
                final(self).writes.interests@,
                IoInterest { id, fd, waker },
            ),
            final(self).writes.ready == old(self).writes.ready,
            final(self).writes.next_id == old(self).writes.next_id,
            final(self).reads == old(self).reads,
    {
        self.writes.register(id, fd, waker);
    }

    /// Forgets the writer `id`.
    pub fn remove_write(&mut self, id: usize)
        ensures
            final(self).writes.interests@ == old(self).writes.interests@.filter(other_interest(id)),
            final(self).writes.ready@ == old(self).writes.ready@.filter(other_id(id)),
            final(self).writes.next_id == old(self).writes.next_id,
            final(self).reads == old(self).reads,
    {
        self.writes.remove(id);
    }

    /// The descriptors that writers wait on, each once.
    pub fn write_fds(&self) -> (fds: Vec<i32>)
        ensures
            fds@ == unique_fds(self.writes.interests@),
    {
        self.writes.fds()
    }

    /// Takes out the writers on one of `writable` and returns their wakers.
    pub fn wake_writable(&mut self, writable: &[i32]) -> (wakers: Vec<W>)
        ensures
            wakers@ == interest_wakers(old(self).writes.interests@.filter(on_any(writable@))),
            final(self).writes.interests@ == old(self).writes.interests@.filter(on_none(writable@)),
            final(self).writes.ready@ == old(self).writes.ready@ + interest_ids(
                old(self).writes.interests@.filter(on_any(writable@)),
            ),
            final(self).writes.next_id == old(self).writes.next_id,
            final(self).reads == old(self).reads,
    {
        self.writes.wake_ready(writable)
    }

    /// Whether the writer `id` was found ready.
    pub fn take_ready_write(&mut self, id: usize) -> (was_ready: bool)
        ensures
            was_ready == old(self).writes.ready@.contains(id),
            !was_ready ==> *final(self) == *old(self),
            was_ready ==> is_taken(old(self).writes.ready@, final(self).writes.ready@, id),
            final(self).writes.interests == old(self).writes.interests,
            final(self).writes.next_id == old(self).writes.next_id,
            final(self).reads == old(self).reads,
    {
        self.writes.take_ready(id)
    }
}

/// A descriptor is reported exactly where someone waits on it, and once.
pub proof fn reported_fds_are_those_waited_on<W>(interests: Seq<IoInterest<W>>, fd: i32)
    ensures
        unique_fds(interests).contains(fd) <==> exists|i: int|
            0 <= i < interests.len() && (#[trigger] interests[i]).fd == fd,
        unique_fds(interests).no_duplicates(),
    decreases interests.len(),
{
    if interests.len() > 0 {
        let front = interests.drop_last();
        let last = interests.last().fd;
        reported_fds_are_those_waited_on(front, fd);
        let reported = unique_fds(front);
        if exists|i: int| 0 <= i < interests.len() && (#[trigger] interests[i]).fd == fd {
            let i = choose|i: int| 0 <= i < interests.len() && (#[trigger] interests[i]).fd == fd;
            if i < interests.len() - 1 {
                assert(front[i].fd == fd);
            }
        }
        if reported.contains(fd) {
            let i = choose|i: int| 0 <= i < front.len() && (#[trigger] front[i]).fd == fd;
            assert(interests[i].fd == fd);
        }
        assert(interests[interests.len() - 1].fd == last);
        if !reported.contains(last) {
            let pushed = reported.push(last);
            assert(pushed[pushed.len() - 1] == last);
            if reported.contains(fd) {
                let i = choose|i: int| 0 <= i < reported.len() && reported[i] == fd;
                assert(pushed[i] == fd);
            }
            if pushed.contains(fd) && fd != last {
                let i = choose|i: int| 0 <= i < pushed.len() && pushed[i] == fd;
                assert(reported[i] == fd);
            }
            assert forall|i: int, j: int|
                0 <= i < pushed.len() && 0 <= j < pushed.len() && i != j implies pushed[i]
                != pushed[j] by {
                if i == reported.len() {
                    assert(reported.contains(pushed[j]));
                } else if j == reported.len() {
                    assert(reported.contains(pushed[i]));
                } else {
                    assert(reported[i] != reported[j]);
                }
            }
        }
    }
}

/// Every waiter on a ready descriptor is woken and noted as ready, and no other
/// waiter is touched.
pub proof fn readiness_wakes_every_waiter<W>(
    interests: Seq<IoInterest<W>>,
    ready: Seq<i32>,
    x: IoInterest<W>,
)
    requires
        interests.contains(x),
    ensures
        ready.contains(x.fd) ==> interests.filter(on_any(ready)).contains(x) && interest_wakers(
            interests.filter(on_any(ready)),
        ).contains(x.waker) && interest_ids(interests.filter(on_any(ready))).contains(x.id),
        !ready.contains(x.fd) ==> interests.filter(on_none(ready)).contains(x),
        interests.filter(on_any(ready)).len() + interests.filter(on_none(ready)).len()
            == interests.len(),
{
    lemma_filter_contains(interests, on_any(ready), x);
    lemma_filter_contains(interests, on_none(ready), x);
    crate::seq_util::lemma_filter_partition(interests, on_any(ready));
    assert(on_none::<W>(ready) =~= (|y: IoInterest<W>| !on_any::<W>(ready)(y)));
    if ready.contains(x.fd) {
        let woken = interests.filter(on_any(ready));
        let i = choose|i: int| 0 <= i < woken.len() && woken[i] == x;
        assert(interest_wakers(woken)[i] == x.waker);
        assert(interest_ids(woken)[i] == x.id);
    }
}

/// A waiter that is registered is there with its descriptor and its waker, and every
/// waiter of another identifier stays. One that was there already waits with what it now
/// gives, in its old place.
pub proof fn waiter_is_registered_beside_the_others<W>(
    before: Seq<IoInterest<W>>,
    after: Seq<IoInterest<W>>,
    entry: IoInterest<W>,
    x: IoInterest<W>,
)
    requires
        is_registered(before, after, entry),
    ensures
        after.contains(entry),
        x.id != entry.id ==> (after.contains(x) <==> before.contains(x)),
        (forall|i: int| 0 <= i < before.len() ==> (#[trigger] before[i]).id != entry.id)
            ==> after.len() == before.len() + 1,
        (exists|i: int| 0 <= i < before.len() && (#[trigger] before[i]).id == entry.id)
            ==> after.len() == before.len(),
{
    waiter_is_found_by_its_identifier(before, entry.id);
    if no_interest(before, entry.id) {
        assert(after == before.push(entry));
        assert(after[before.len() as int] == entry);
        if before.contains(x) {
            let i = choose|i: int| 0 <= i < before.len() && before[i] == x;
            assert(after[i] == x);
        }
    } else {
        let i = choose|i: int| is_first_interest(before, entry.id, i);
        assert(after == before.update(i, entry));
        assert(after[i] == entry);
        assert(before[i].id == entry.id);
        if before.contains(x) {
            let k = choose|k: int| 0 <= k < before.len() && before[k] == x;
            if k != i {
                assert(after[k] == x);
            }
        }
        if after.contains(x) {
            let k = choose|k: int| 0 <= k < after.len() && after[k] == x;
            if k != i {
                assert(before[k] == x);
            }
        }
    }
}

/// A waiter is found by its identifier: either no waiter has it, or there is a first one
/// that does.
pub proof fn waiter_is_found_by_its_identifier<W>(interests: Seq<IoInterest<W>>, id: usize)
    ensures
        no_interest(interests, id) <==> !interests.map_values(|x: IoInterest<W>| x.id).contains(id),
        !no_interest(interests, id) ==> exists|i: int| is_first_interest(interests, id, i),
    decreases interests.len(),
{
    let ids = interests.map_values(|x: IoInterest<W>| x.id);
    if ids.contains(id) {
        let i = choose|i: int| 0 <= i < ids.len() && ids[i] == id;
        assert(interests[i].id == id);
    }
    if !no_interest(interests, id) {
        let j = choose|j: int| 0 <= j < interests.len() && (#[trigger] interests[j]).id == id;
        assert(ids[j] == id);
        let front = interests.drop_last();
        waiter_is_found_by_its_identifier(front, id);
        if no_interest(front, id) {
            let last = interests.len() - 1;
            if j < last {
                assert(front[j].id == id);
            }
            assert forall|k: int| 0 <= k < last implies (#[trigger] interests[k]).id != id by {
                assert(front[k].id != id);
            }
            assert(is_first_interest(interests, id, last));
        } else {
            let i = choose|i: int| is_first_interest(front, id, i);
            assert forall|k: int| 0 <= k < i implies (#[trigger] interests[k]).id != id by {
                assert(front[k].id != id);
            }
            assert(is_first_interest(interests, id, i));
        }
    }
}

/// Forgetting a waiter leaves the others, waiting or ready, and not that one.
pub proof fn waiter_is_forgotten_alone<W>(
    interests: Seq<IoInterest<W>>,
    ready: Seq<usize>,
    id: usize,
    x: IoInterest<W>,
    other: usize,
)
    ensures
        interests.filter(other_interest(id)).contains(x) <==> interests.contains(x) && x.id != id,
        ready.filter(other_id(id)).contains(other) <==> ready.contains(other) && other != id,
{
    crate::seq_util::lemma_filter_contains(interests, other_interest(id), x);
    crate::seq_util::lemma_filter_contains(ready, other_id(id), other);
}

/// Readiness wakes exactly the waiters on a ready descriptor, each with its own waker and
/// its own identifier marked ready, in the order in which they wait; the others go on
/// waiting.
pub proof fn readiness_wakes_only_its_waiters<W>(
    interests: Seq<IoInterest<W>>,
    ready: Seq<i32>,
    x: IoInterest<W>,
)
    ensures
        interests.filter(on_any(ready)).contains(x) <==> interests.contains(x) && ready.contains(
            x.fd,
        ),
        interests.filter(on_none(ready)).contains(x) <==> interests.contains(x)
            && !ready.contains(x.fd),
        ({
            let woken = interests.filter(|x: IoInterest<W>| ready.contains(x.fd));
            &&& interest_wakers(interests.filter(on_any(ready))).len() == woken.len()
            &&& interest_ids(interests.filter(on_any(ready))).len() == woken.len()
            &&& forall|i: int|
                0 <= i < woken.len() ==> #[trigger] woken[i].waker == interest_wakers(
                    interests.filter(on_any(ready)),
                )[i] && woken[i].id == interest_ids(interests.filter(on_any(ready)))[i]
        }),
{
    crate::seq_util::lemma_filter_contains(interests, on_any(ready), x);
    crate::seq_util::lemma_filter_contains(interests, on_none(ready), x);
    assert(on_any::<W>(ready) =~= (|x: IoInterest<W>| ready.contains(x.fd)));
}

/// Taking a waiter's readiness takes one mark of it and no other mark.
pub proof fn readiness_is_taken_once(before: Seq<usize>, after: Seq<usize>, id: usize)
    requires
        before.contains(id),
        is_taken(before, after, id),
    ensures
        after.len() == before.len() - 1,
        after.to_multiset() == before.to_multiset().remove(id),
{
    let p = lemma_first_mark(before, id);
    let last = before.len() - 1;
    let swapped = before.update(p, before.last());
    assert(after == swapped.drop_last());
    broadcast use vstd::seq_lib::group_to_multiset_ensures;
    assert(swapped =~= before.remove(p).insert(p, before.last()));
    assert(swapped.drop_last() =~= swapped.remove(last));
    vstd::seq_lib::to_multiset_insert(before.remove(p), p, before.last());
    assert(swapped.to_multiset() =~= before.to_multiset().remove(id).insert(before.last()));
    assert(after.to_multiset() =~= swapped.to_multiset().remove(before.last()));
    assert(after.to_multiset() =~= before.to_multiset().remove(id));
}

proof fn lemma_first_mark(marks: Seq<usize>, id: usize) -> (p: int)
    requires
        marks.contains(id),
    ensures
        0 <= p < marks.len(),
        marks[p] == id,
        forall|q: int| 0 <= q < p ==> #[trigger] marks[q] != id,
    decreases marks.len(),
{
    let j = choose|j: int| 0 <= j < marks.len() && marks[j] == id;
    let front = marks.drop_last();
    if front.contains(id) {
        let p = lemma_first_mark(front, id);
        assert forall|q: int| 0 <= q < p implies #[trigger] marks[q] != id by {
            assert(front[q] != id);
        }
        p
    } else {
        if j < marks.len() - 1 {
            assert(front[j] == id);
        }
        assert forall|q: int| 0 <= q < marks.len() - 1 implies #[trigger] marks[q] != id by {
            assert(front[q] == marks[q]);
            if marks[q] == id {
                assert(front.contains(id));
            }
        }
        marks.len() - 1
    }
}

/// Descriptors are reported in the order of their first waiters.
pub proof fn fds_come_in_the_order_of_their_waiters<W>(
    interests: Seq<IoInterest<W>>,
    more: Seq<IoInterest<W>>,
)
    ensures
        unique_fds(interests).is_prefix_of(unique_fds(interests + more)),
        interests.len() > 0 ==> unique_fds(interests).len() > 0 && unique_fds(interests)[0]
            == interests[0].fd,
    decreases more.len(), interests.len(),
{
    if more.len() == 0 {
        assert(interests + more =~= interests);
    } else {
        let whole = interests + more;
        assert(whole.drop_last() =~= interests + more.drop_last());
        fds_come_in_the_order_of_their_waiters(interests, more.drop_last());
    }
    if interests.len() == 1 {
        reveal_with_fuel(unique_fds, 2);
        assert(interests.drop_last() =~= Seq::<IoInterest<W>>::empty());
        assert(unique_fds(interests) =~= seq![interests[0].fd]);
    } else if interests.len() > 1 {
        let front = interests.drop_last();
        fds_come_in_the_order_of_their_waiters(front, Seq::empty());
        assert(front[0] == interests[0]);
    }
}

} // verus!
