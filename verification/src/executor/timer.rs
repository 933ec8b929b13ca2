//! Pending timers of one executor.

use vstd::prelude::*;

use crate::seq_util::{lemma_filter_none, lemma_filter_step};
use crate::time::{elapsed, saturating_duration_since, Duration, Instant};

verus! {

/// One pending timer. `W` is whatever wakes its owner.
pub struct TimerEntry<W> {
    /// Identifier that its owner allocated.
    pub id: usize,
    /// When the timer becomes due.
    pub deadline: Instant,
    /// Wakes the owner.
    pub waker: W,
}

/// Pending timers, in the order of their registration.
pub struct TimerSet<W> {
    /// The timers.
    pub timers: Vec<TimerEntry<W>>,
    /// Identifier of the next timer.
    pub next_id: usize,
}

/// `i` is the first timer with that identifier.
pub open spec fn is_first_timer<W>(timers: Seq<TimerEntry<W>>, id: usize, i: int) -> bool {
    &&& 0 <= i < timers.len()
    &&& timers[i].id == id
    &&& forall|j: int| 0 <= j < i ==> (#[trigger] timers[j]).id != id
}

/// No timer has that identifier.
pub open spec fn no_timer<W>(timers: Seq<TimerEntry<W>>, id: usize) -> bool {
    forall|j: int| 0 <= j < timers.len() ==> (#[trigger] timers[j]).id != id
}

/// Picks the timers that are due at `now`.
pub open spec fn due<W>(now: Instant) -> spec_fn(TimerEntry<W>) -> bool {
    |t: TimerEntry<W>| t.deadline <= now
}

/// Picks the timers that are not yet due at `now`.
pub open spec fn not_due<W>(now: Instant) -> spec_fn(TimerEntry<W>) -> bool {
    |t: TimerEntry<W>| t.deadline > now
}

/// Picks the timers with another identifier.
pub open spec fn other_timer<W>(id: usize) -> spec_fn(TimerEntry<W>) -> bool {
    |t: TimerEntry<W>| t.id != id
}

/// The wakers of timers, in order.
pub open spec fn timer_wakers<W>(timers: Seq<TimerEntry<W>>) -> Seq<W> {
    timers.map_values(|t: TimerEntry<W>| t.waker)
}

/// `next` is the earliest deadline, where there is a timer at all.
pub open spec fn is_next_deadline<W>(timers: Seq<TimerEntry<W>>, next: Option<Instant>) -> bool {
    match next {
        None => timers.len() == 0,
        Some(deadline) => {
            &&& exists|i: int| 0 <= i < timers.len() && (#[trigger] timers[i]).deadline == deadline
            &&& forall|i: int|
                0 <= i < timers.len() ==> deadline <= (#[trigger] timers[i]).deadline
        },
    }
}

impl<W> TimerSet<W> {
    /// No two timers share an identifier.
    pub open spec fn wf(&self) -> bool {
        forall|i: int, j: int|
            0 <= i < j < self.timers.len() ==> (#[trigger] self.timers@[i]).id != (
            #[trigger] self.timers@[j]).id
    }

    /// A set without timers.
    pub fn new() -> (set: Self)
        ensures
            set.wf(),
            set.timers@ == Seq::<TimerEntry<W>>::empty(),
            set.next_id == 0,
    {
        TimerSet { timers: Vec::new(), next_id: 0 }
    }

    /// Forgets every timer. Identifiers go on from where they were.
    pub fn clear(&mut self)
        ensures
            final(self).wf(),
            final(self).timers@ == Seq::<TimerEntry<W>>::empty(),
            final(self).next_id == old(self).next_id,
    {
        self.timers.clear();
    }

    /// Hands out the next identifier, wrapping around at the end of the range.
    pub fn allocate_id(&mut self) -> (id: usize)
        ensures
            id == old(self).next_id,
            final(self).timers == old(self).timers,
            final(self).next_id == if old(self).next_id == usize::MAX {
                0
            } else {
                (old(self).next_id + 1) as usize
            },
    {
        let id: usize = self.next_id;
        self.next_id = id.wrapping_add(1);
        id
    }

    /// Number of pending timers.
    pub fn len(&self) -> (len: usize)
        ensures
            len == self.timers@.len(),
    {
        self.timers.len()
    }

    /// Sets the timer `id` to `deadline`, replacing what it was set to before.
    /// Returns whether the earliest deadline is now this one and was later, or
    /// absent, before: a driver that waits has to be told.
    pub fn register(&mut self, id: usize, deadline: Instant, waker: W) -> (earlier: bool)
        ensures
            old(self).wf() ==> final(self).wf(),
            final(self).next_id == old(self).next_id,
            no_timer(old(self).timers@, id) ==> final(self).timers@ == old(self).timers@.push(
                TimerEntry { id, deadline, waker },
            ),
            forall|i: int|
                #![trigger is_first_timer(old(self).timers@, id, i)]
                is_first_timer(old(self).timers@, id, i) ==> final(self).timers@
                    == old(self).timers@.update(i, TimerEntry { id, deadline, waker }),
            earlier == forall|i: int|
                0 <= i < old(self).timers@.len() ==> deadline < (#[trigger] old(
                    self,
                ).timers@[i]).deadline,
    {
        let previous_next = self.next_deadline();
        let mut i: usize = 0;
        while i < self.timers.len() && self.timers[i].id != id
            invariant
                i <= self.timers.len(),
                self.timers == old(self).timers,
                self.next_id == old(self).next_id,
                forall|j: int| 0 <= j < i ==> (#[trigger] self.timers@[j]).id != id,
            decreases self.timers.len() - i,
        {
            i = i + 1;
        }
        let entry = TimerEntry { id, deadline, waker };
        if i < self.timers.len() {
            assert(is_first_timer(old(self).timers@, id, i as int));
            self.timers.set(i, entry);
            assert forall|k: int| #[trigger] is_first_timer(old(self).timers@, id, k) implies k
                == i by {
                if k < i {
                    assert(old(self).timers@[k].id != id);
                } else if k > i {
                    assert(old(self).timers@[i as int].id != id);
                }
            }
        } else {
            self.timers.push(entry);
        }
        match previous_next {
            None => true,
            Some(previous) => deadline < previous,
        }
    }

    /// Forgets the timer `id`.
    pub fn remove(&mut self, id: usize)
        ensures
            old(self).wf() ==> final(self).wf(),
            final(self).next_id == old(self).next_id,
            final(self).timers@ == old(self).timers@.filter(other_timer(id)),
    {
        let mut drained: Vec<TimerEntry<W>> = Vec::new();
        core::mem::swap(&mut drained, &mut self.timers);
        let ghost all = drained@;
        proof {
            lemma_filter_none(all, other_timer(id));
        }
        let mut kept: Vec<TimerEntry<W>> = Vec::new();
        for timer in it: drained
            invariant
                it.seq() == all,
                kept@ == all.take(it.index() as int).filter(other_timer(id)),
        {
            proof {
                lemma_filter_step(all, it.index() as int, other_timer(id));
            }
            if timer.id != id {
                kept.push(timer);
            }
        }
        proof {
            assert(all.take(all.len() as int) =~= all);
            lemma_filter_keeps_distinct(all, other_timer(id));
        }
        self.timers = kept;
    }

    /// Takes out the timers that are due at `now` and returns their wakers in
    /// the order of registration. The others stay, in order.
    pub fn expired(&mut self, now: Instant) -> (wakers: Vec<W>)
        ensures
            old(self).wf() ==> final(self).wf(),
            final(self).next_id == old(self).next_id,
            wakers@ == timer_wakers(old(self).timers@.filter(due(now))),
            final(self).timers@ == old(self).timers@.filter(not_due(now)),
    {
        let mut drained: Vec<TimerEntry<W>> = Vec::new();
        core::mem::swap(&mut drained, &mut self.timers);
        let ghost all = drained@;
        proof {
            lemma_filter_none(all, due(now));
            lemma_filter_none(all, not_due(now));
        }
        let mut expired: Vec<W> = Vec::new();
        let mut pending: Vec<TimerEntry<W>> = Vec::new();
        for timer in it: drained
            invariant
                it.seq() == all,
                expired@ == timer_wakers(all.take(it.index() as int).filter(due(now))),
                pending@ == all.take(it.index() as int).filter(not_due(now)),
        {
            proof {
                lemma_filter_step(all, it.index() as int, due(now));
                lemma_filter_step(all, it.index() as int, not_due(now));
            }
            if timer.deadline <= now {
                expired.push(timer.waker);
            } else {
                pending.push(timer);
            }
        }
        proof {
            assert(all.take(all.len() as int) =~= all);
            lemma_filter_keeps_distinct(all, not_due(now));
        }
        self.timers = pending;
        expired
    }

    /// Time left at `now` until the earliest deadline, zero where it has passed.
    pub fn time_until_next(&self, now: Instant) -> (left: Option<Duration>)
        ensures
            left is None <==> self.timers@.len() == 0,
            forall|next: Instant|
                #![trigger is_next_deadline(self.timers@, Some(next))]
                is_next_deadline(self.timers@, Some(next)) ==> left == Some(elapsed(next, now)),
    {
        match self.next_deadline() {
            None => None,
            Some(deadline) => Some(saturating_duration_since(deadline, now)),
        }
    }

    /// The earliest deadline, where there is a timer.
    pub fn next_deadline(&self) -> (next: Option<Instant>)
        ensures
            is_next_deadline(self.timers@, next),
    {
        let mut next: Option<Instant> = None;
        let mut i: usize = 0;
        while i < self.timers.len()
            invariant
                i <= self.timers.len(),
                is_next_deadline(self.timers@.take(i as int), next),
            decreases self.timers.len() - i,
        {
            let deadline: Instant = self.timers[i].deadline;
            let ghost before = next;
            let earlier = match next {
                None => true,
                Some(previous) => deadline < previous,
            };
            if earlier {
                next = Some(deadline);
            }
            proof {
                let part = self.timers@.take(i as int);
                let more = self.timers@.take(i + 1);
                assert(more =~= part.push(self.timers@[i as int]));
                if earlier {
                    assert(more[i as int].deadline == deadline);
                } else {
                    let k = choose|k: int|
                        0 <= k < part.len() && (#[trigger] part[k]).deadline == before->0;
                    assert(more[k].deadline == before->0);
                }
                assert forall|k: int| 0 <= k < more.len() implies next->0 <= (
                #[trigger] more[k]).deadline by {
                    if k < i {
                        assert(more[k] == part[k]);
                    }
                }
            }
            i = i + 1;
        }
        assert(self.timers@.take(i as int) =~= self.timers@);
        next
    }
}

/// Filtering keeps identifiers distinct.
proof fn lemma_filter_keeps_distinct<W>(
    s: Seq<TimerEntry<W>>,
    keep: spec_fn(TimerEntry<W>) -> bool,
)
    ensures
        (forall|i: int, j: int|
            0 <= i < j < s.len() ==> (#[trigger] s[i]).id != (#[trigger] s[j]).id) ==> (forall|
            i: int,
            j: int,
        |
            0 <= i < j < s.filter(keep).len() ==> (#[trigger] s.filter(keep)[i]).id != (
            #[trigger] s.filter(keep)[j]).id),
    decreases s.len(),
{
    reveal(Seq::filter);
    if s.len() > 0 {
        let front = s.drop_last();
        lemma_filter_keeps_distinct(front, keep);
        let kept = front.filter(keep);
        if keep(s.last()) && (forall|i: int, j: int|
            0 <= i < j < s.len() ==> (#[trigger] s[i]).id != (#[trigger] s[j]).id) {
            assert forall|i: int, j: int| 0 <= i < j < front.len() implies (#[trigger] front[i]).id
                != (#[trigger] front[j]).id by {
                assert(s[i].id != s[j].id);
            }
            assert forall|i: int| 0 <= i < kept.len() implies (#[trigger] kept[i]).id
                != s.last().id by {
                crate::seq_util::lemma_filter_contains(front, keep, kept[i]);
                assert(kept.contains(kept[i]));
                let k = choose|k: int| 0 <= k < front.len() && front[k] == kept[i];
                assert(s[k].id != s[s.len() - 1].id);
            }
        } else {
            if forall|i: int, j: int|
                0 <= i < j < s.len() ==> (#[trigger] s[i]).id != (#[trigger] s[j]).id {
                assert forall|i: int, j: int| 0 <= i < j < front.len() implies (
                #[trigger] front[i]).id != (#[trigger] front[j]).id by {
                    assert(s[i].id != s[j].id);
                }
            }
        }
    }
}

/// No timer is lost and none fires early: each timer is either woken or kept,
/// by whether it is due.
pub proof fn expiry_splits_timers<W>(timers: Seq<TimerEntry<W>>, now: Instant, t: TimerEntry<W>)
    requires
        timers.contains(t),
    ensures
        timers.filter(due(now)).contains(t) <==> t.deadline <= now,
        timers.filter(not_due(now)).contains(t) <==> t.deadline > now,
        timers.filter(due(now)).len() + timers.filter(not_due(now)).len() == timers.len(),
{
    crate::seq_util::lemma_filter_contains(timers, due(now), t);
    crate::seq_util::lemma_filter_contains(timers, not_due(now), t);
    crate::seq_util::lemma_filter_partition(timers, due(now));
    assert(not_due::<W>(now) =~= (|x: TimerEntry<W>| !due::<W>(now)(x)));
}

/// The earliest deadline is one instant.
pub proof fn next_deadline_is_unique<W>(
    timers: Seq<TimerEntry<W>>,
    a: Option<Instant>,
    b: Option<Instant>,
)
    requires
        is_next_deadline(timers, a),
        is_next_deadline(timers, b),
    ensures
        a == b,
{
}

/// A timer is found by its identifier: either no timer has it, or there is a first one
/// that does.
pub proof fn timer_is_found_by_its_identifier<W>(timers: Seq<TimerEntry<W>>, id: usize)
    ensures
        no_timer(timers, id) <==> !timers.map_values(|t: TimerEntry<W>| t.id).contains(id),
        !no_timer(timers, id) ==> exists|i: int| is_first_timer(timers, id, i),
        forall|i: int| #[trigger]
            is_first_timer(timers, id, i) ==> 0 <= i < timers.len() && timers[i].id == id
                && !timers.take(i).map_values(|t: TimerEntry<W>| t.id).contains(id),
    decreases timers.len(),
{
    let ids = timers.map_values(|t: TimerEntry<W>| t.id);
    if ids.contains(id) {
        let i = choose|i: int| 0 <= i < ids.len() && ids[i] == id;
        assert(timers[i].id == id);
    }
    if !no_timer(timers, id) {
        let j = choose|j: int| 0 <= j < timers.len() && (#[trigger] timers[j]).id == id;
        assert(ids[j] == id);
        let front = timers.drop_last();
        timer_is_found_by_its_identifier(front, id);
        if no_timer(front, id) {
            let last = timers.len() - 1;
            if j < last {
                assert(front[j].id == id);
            }
            assert forall|k: int| 0 <= k < last implies (#[trigger] timers[k]).id != id by {
                assert(front[k].id != id);
            }
            assert(is_first_timer(timers, id, last));
        } else {
            let i = choose|i: int| is_first_timer(front, id, i);
            assert forall|k: int| 0 <= k < i implies (#[trigger] timers[k]).id != id by {
                assert(front[k].id != id);
            }
            assert(is_first_timer(timers, id, i));
        }
    }
    assert forall|i: int| #[trigger] is_first_timer(timers, id, i) implies !timers.take(
        i,
    ).map_values(|t: TimerEntry<W>| t.id).contains(id) by {
        let before = timers.take(i).map_values(|t: TimerEntry<W>| t.id);
        if before.contains(id) {
            let k = choose|k: int| 0 <= k < before.len() && before[k] == id;
            assert(timers[k].id == id);
        }
    }
}

/// Taking a timer back leaves every other timer, and not that one.
pub proof fn timer_is_taken_back_alone<W>(timers: Seq<TimerEntry<W>>, id: usize, t: TimerEntry<W>)
    ensures
        timers.filter(other_timer(id)).contains(t) <==> timers.contains(t) && t.id != id,
{
    crate::seq_util::lemma_filter_contains(timers, other_timer(id), t);
}

/// When time has come to `now`, the waiters of exactly the timers whose deadline has come
/// are woken, one for each, in the order of the timers.
pub proof fn expiry_wakes_each_waiter_that_is_due<W>(timers: Seq<TimerEntry<W>>, now: Instant)
    ensures
        timer_wakers(timers.filter(due(now))).len() == timers.filter(
            |t: TimerEntry<W>| t.deadline <= now,
        ).len(),
        forall|i: int|
            0 <= i < timers.filter(due(now)).len() ==> #[trigger] timer_wakers(
                timers.filter(due(now)),
            )[i] == timers.filter(|t: TimerEntry<W>| t.deadline <= now)[i].waker,
        timers.filter(not_due(now)) == timers.filter(|t: TimerEntry<W>| !(t.deadline <= now)),
{
    assert(due::<W>(now) =~= (|t: TimerEntry<W>| t.deadline <= now));
    assert(not_due::<W>(now) =~= (|t: TimerEntry<W>| !(t.deadline <= now)));
}

/// The next deadline is that of some timer, and no timer has an earlier one; there is
/// none exactly where there is no timer. Nothing is due before it, and then something is.
pub proof fn nothing_is_due_before_the_next_deadline<W>(
    timers: Seq<TimerEntry<W>>,
    next: Option<Instant>,
    now: Instant,
    t: TimerEntry<W>,
)
    requires
        is_next_deadline(timers, next),
    ensures
        next is None <==> timers.len() == 0,
        next matches Some(deadline) ==> {
            &&& now < deadline && timers.contains(t) ==> now < t.deadline
            &&& timers.contains(t) ==> deadline <= t.deadline
            &&& timers.map_values(|t: TimerEntry<W>| t.deadline).contains(deadline)
        },
{
    if next is Some {
        let deadline = next->0;
        let i = choose|i: int| 0 <= i < timers.len() && (#[trigger] timers[i]).deadline == deadline;
        assert(timers.map_values(|t: TimerEntry<W>| t.deadline)[i] == deadline);
    }
}

} // verus!
