//! Limit on the number of tasks in flight.
//!
//! [`BackpressureGuard`] is a counting semaphore: a spawner takes a permit
//! before it spawns, waits where none is left, and the permit goes back when the
//! task is over.

use vstd::prelude::*;
use vstd::string::*;

use crate::text::{decimal, push_decimal};

verus! {

/// One waiter for a permit.
pub struct PermitWaiter<W> {
    /// Which acquirer waits.
    pub ticket: usize,
    /// Wakes it.
    pub waker: W,
}

/// Limits the number of in-flight spawned tasks. `W` is whatever wakes a waiter.
pub struct BackpressureGuard<W> {
    capacity: usize,
    in_flight: usize,
    waiters: Vec<PermitWaiter<W>>,
    next_ticket: usize,
    ledger: Ghost<PermitLedger>,
}

/// Which permits a guard has handed out.
pub ghost struct PermitLedger {
    /// Tells the guard from others. Nothing is known of it but that a permit
    /// carries that of its guard.
    pub id: int,
    /// The permits that were not given back.
    pub live: Set<nat>,
    /// Number of permits handed out so far, which is the serial of the next one.
    pub issued: nat,
}

/// What a guard holds.
#[verifier::ext_equal]
pub ghost struct GuardView<W> {
    /// Number of permits.
    pub capacity: usize,
    /// Number of permits taken.
    pub in_flight: usize,
    /// Who waits for a permit.
    pub waiters: Seq<PermitWaiter<W>>,
    /// Ticket of the next acquirer.
    pub next_ticket: usize,
    /// Which permits were handed out.
    pub ledger: PermitLedger,
}

impl<W> View for BackpressureGuard<W> {
    type V = GuardView<W>;

    closed spec fn view(&self) -> GuardView<W> {
        GuardView {
            capacity: self.capacity,
            in_flight: self.in_flight,
            waiters: self.waiters@,
            next_ticket: self.next_ticket,
            ledger: self.ledger@,
        }
    }
}

/// Whether an acquirer is among the waiters.
pub open spec fn is_waiting<W>(waiters: Seq<PermitWaiter<W>>, ticket: usize) -> bool {
    exists|i: int| 0 <= i < waiters.len() && (#[trigger] waiters[i]).ticket == ticket
}

/// Whether `i` is the place of an acquirer among the waiters.
pub open spec fn waits_at<W>(waiters: Seq<PermitWaiter<W>>, ticket: usize, i: int) -> bool {
    &&& 0 <= i < waiters.len()
    &&& waiters[i].ticket == ticket
    &&& forall|j: int| 0 <= j < i ==> (#[trigger] waiters[j]).ticket != ticket
}

/// The waiters with one that waits now: in its place with the new waker where it
/// waited before, else at the end.
pub open spec fn registered<W>(
    waiters: Seq<PermitWaiter<W>>,
    waiter: PermitWaiter<W>,
) -> Seq<PermitWaiter<W>> {
    if is_waiting(waiters, waiter.ticket) {
        waiters.update(choose|i: int| waits_at(waiters, waiter.ticket, i), waiter)
    } else {
        waiters.push(waiter)
    }
}

/// The wakers of waiters, in order.
pub open spec fn waiter_wakers<W>(waiters: Seq<PermitWaiter<W>>) -> Seq<W> {
    waiters.map_values(|x: PermitWaiter<W>| x.waker)
}

impl<W> GuardView<W> {
    /// There is a permit at all; as many are taken as live, and no more than
    /// there are; and no acquirer waits twice.
    pub open spec fn wf(&self) -> bool {
        &&& self.capacity > 0
        &&& self.ledger.live.finite()
        &&& self.in_flight == self.ledger.live.len()
        &&& self.in_flight <= self.capacity
        &&& forall|serial: nat| #[trigger]
            self.ledger.live.contains(serial) ==> serial < self.ledger.issued
        &&& forall|i: int, j: int|
            0 <= i < j < self.waiters.len() ==> (#[trigger] self.waiters[i]).ticket != (
            #[trigger] self.waiters[j]).ticket
    }

    /// Whether the permit is a live one of this guard.
    pub open spec fn holds(&self, permit: Permit) -> bool {
        permit.guard_id() == self.ledger.id && self.ledger.live.contains(permit.serial())
    }

    /// Whether a permit is left.
    pub open spec fn has_room(&self) -> bool {
        self.in_flight < self.capacity
    }

    /// The guard after one more permit is taken.
    pub open spec fn granted(&self) -> GuardView<W> {
        GuardView {
            in_flight: (self.in_flight + 1) as usize,
            ledger: PermitLedger {
                live: self.ledger.live.insert(self.ledger.issued),
                issued: self.ledger.issued + 1,
                ..self.ledger
            },
            ..*self
        }
    }

    /// The guard after a live permit is given back.
    pub open spec fn given_back(&self, serial: nat) -> GuardView<W> {
        GuardView {
            in_flight: (self.in_flight - 1) as usize,
            waiters: Seq::empty(),
            ledger: PermitLedger { live: self.ledger.live.remove(serial), ..self.ledger },
            ..*self
        }
    }

    /// The guard after an acquirer found no permit left.
    pub open spec fn waited_by(&self, waiter: PermitWaiter<W>) -> GuardView<W> {
        GuardView { waiters: registered(self.waiters, waiter), ..*self }
    }

    /// The guard after one more acquirer was made.
    pub open spec fn ticketed(&self) -> GuardView<W> {
        GuardView {
            next_ticket: if self.next_ticket == usize::MAX {
                0
            } else {
                (self.next_ticket + 1) as usize
            },
            ..*self
        }
    }
}

impl<W> BackpressureGuard<W> {
    /// The invariant of what the guard holds.
    pub open spec fn wf(&self) -> bool {
        self@.wf()
    }

    /// Creates a new backpressure guard with a maximum number of in-flight
    /// tasks.
    pub fn new(capacity: usize) -> (guard: Self)
        requires
            capacity > 0,
        ensures
            guard.wf(),
            guard@ == (GuardView::<W> {
                capacity,
                in_flight: 0,
                waiters: Seq::empty(),
                next_ticket: 0,
                ledger: PermitLedger { id: guard@.ledger.id, live: Set::empty(), issued: 0 },
            }),
    {
        let ghost ledger = PermitLedger { id: arbitrary(), live: Set::empty(), issued: 0 };
        BackpressureGuard {
            capacity,
            in_flight: 0,
            waiters: Vec::new(),
            next_ticket: 0,
            ledger: Ghost(ledger),
        }
    }

    /// Returns the configured capacity.
    pub fn capacity(&self) -> (capacity: usize)
        ensures
            capacity == self@.capacity,
    {
        self.capacity
    }

    /// Returns the current number of in-flight tasks.
    pub fn in_flight(&self) -> (in_flight: usize)
        ensures
            in_flight == self@.in_flight,
    {
        self.in_flight
    }

    /// Returns the number of available permits.
    pub fn available(&self) -> (available: usize)
        requires
            self.wf(),
        ensures
            available == self@.capacity - self@.in_flight,
    {
        self.capacity - self.in_flight
    }

    /// Attempts to acquire a permit without waiting: there is one exactly where
    /// the limit is not reached.
    pub fn try_acquire(&mut self) -> (permit: Option<Permit>)
        requires
            old(self).wf(),
        ensures
            final(self).wf(),
            permit is Some <==> old(self)@.has_room(),
            permit matches Some(permit) ==> final(self)@ == old(self)@.granted()
                && final(self)@.holds(permit) && permit.serial() == old(self)@.ledger.issued,
            permit is None ==> final(self)@ == old(self)@,
    {
        if self.in_flight >= self.capacity {
            return None;
        }
        self.in_flight = self.in_flight + 1;
        let ghost before = self.ledger@;
        proof {
            self.ledger@ = PermitLedger {
                live: before.live.insert(before.issued),
                issued: before.issued + 1,
                ..before
            };
            lemma_granted_wf(old(self)@);
        }
        Some(Permit { guard_id: Ghost(before.id), serial: Ghost(before.issued) })
    }

    /// Returns an acquirer that waits for a permit if necessary.
    pub fn acquire(&mut self) -> (acquire: AcquirePermit)
        ensures
            acquire.ticket == old(self)@.next_ticket,
            final(self)@ == old(self)@.ticketed(),
            old(self).wf() ==> final(self).wf(),
    {
        let ticket: usize = self.next_ticket;
        self.next_ticket = ticket.wrapping_add(1);
        AcquirePermit { ticket }
    }

    /// Takes a permit back. Returns every waiter to wake: each of them tries
    /// again.
    pub fn release(&mut self, permit: Permit) -> (woken: Vec<W>)
        requires
            old(self).wf(),
            old(self)@.holds(permit),
        ensures
            final(self).wf(),
            final(self)@ == old(self)@.given_back(permit.serial()),
            woken@ == waiter_wakers(old(self)@.waiters),
    {
        proof {
            live_permit_is_counted(self@, permit);
        }
        self.in_flight = self.in_flight - 1;
        let mut waiters: Vec<PermitWaiter<W>> = Vec::new();
        core::mem::swap(&mut waiters, &mut self.waiters);
        let ghost all = waiters@;
        let mut woken: Vec<W> = Vec::new();
        for waiter in it: waiters
            invariant
                it.seq() == all,
                woken@ == waiter_wakers(all.take(it.index() as int)),
        {
            woken.push(waiter.waker);
            assert(woken@ =~= waiter_wakers(all.take(it.index() + 1)));
        }
        assert(all.take(all.len() as int) =~= all);
        proof {
            let before = self.ledger@;
            self.ledger@ = PermitLedger { live: before.live.remove(permit.serial()), ..before };
            assert(self@ =~= old(self)@.given_back(permit.serial()));
        }
        woken
    }

    /// The guard as text: permits taken and permits in all.
    pub fn to_text(&self) -> (text: String)
        ensures
            text@ == "BackpressureGuard("@ + decimal(self@.in_flight as nat) + "/"@ + decimal(
                self@.capacity as nat,
            ) + ")"@,
    {
        let mut text = "BackpressureGuard(".to_owned();
        push_decimal(&mut text, self.in_flight as u64);
        text.append("/");
        push_decimal(&mut text, self.capacity as u64);
        text.append(")");
        text
    }
}

/// A permit that tracks one in-flight task. It goes back to its guard when the
/// task is over.
#[must_use]
pub struct Permit {
    guard_id: Ghost<int>,
    serial: Ghost<nat>,
}

impl Permit {
    /// The guard that the permit is of.
    pub closed spec fn guard_id(&self) -> int {
        self.guard_id@
    }

    /// Tells the permit from the others of its guard.
    pub closed spec fn serial(&self) -> nat {
        self.serial@
    }

    /// Returns the current in-flight count of its guard (including this permit).
    pub fn in_flight<W>(&self, guard: &BackpressureGuard<W>) -> (in_flight: usize)
        requires
            guard.wf(),
            guard@.holds(*self),
        ensures
            in_flight == guard@.in_flight,
            in_flight >= 1,
    {
        proof {
            live_permit_is_counted(guard@, *self);
        }
        guard.in_flight()
    }
}

/// Waits for a permit.
#[derive(Debug)]
pub struct AcquirePermit {
    /// Tells this acquirer from others.
    pub ticket: usize,
}

impl AcquirePermit {
    /// Takes a permit where one is left. Otherwise this acquirer is among the
    /// waiters afterwards, once, and `waker` is woken when a permit goes back.
    pub fn poll<W>(&self, guard: &mut BackpressureGuard<W>, waker: W) -> (permit: Option<Permit>)
        requires
            old(guard).wf(),
        ensures
            final(guard).wf(),
            permit is Some <==> old(guard)@.has_room(),
            permit matches Some(permit) ==> final(guard)@ == old(guard)@.granted()
                && final(guard)@.holds(permit) && permit.serial() == old(guard)@.ledger.issued,
            permit is None ==> final(guard)@ == old(guard)@.waited_by(
                PermitWaiter { ticket: self.ticket, waker },
            ),
    {
        match guard.try_acquire() {
            Some(permit) => Some(permit),
            None => {
                let ghost waiter = PermitWaiter { ticket: self.ticket, waker };
                let mut i: usize = 0;
                while i < guard.waiters.len()
                    invariant
                        i <= guard.waiters.len(),
                        guard@ == old(guard)@,
                        guard.wf(),
                        !old(guard)@.has_room(),
                        waiter == (PermitWaiter { ticket: self.ticket, waker }),
                        forall|j: int|
                            0 <= j < i ==> (#[trigger] guard.waiters@[j]).ticket != self.ticket,
                    decreases guard.waiters.len() - i,
                {
                    if guard.waiters[i].ticket == self.ticket {
                        proof {
                            lemma_waits_at(guard@.waiters, self.ticket, i as int);
                        }
                        guard.waiters.set(i, PermitWaiter { ticket: self.ticket, waker });
                        proof {
                            assert(guard@ =~= old(guard)@.waited_by(waiter));
                            lemma_waited_wf(old(guard)@, waiter);
                        }
                        return None;
                    }
                    i = i + 1;
                }
                guard.waiters.push(PermitWaiter { ticket: self.ticket, waker });
                proof {
                    assert(guard@ =~= old(guard)@.waited_by(waiter));
                    lemma_waited_wf(old(guard)@, waiter);
                }
                None
            },
        }
    }
}

proof fn lemma_granted_wf<W>(guard: GuardView<W>)
    requires
        guard.wf(),
        guard.has_room(),
    ensures
        guard.granted().wf(),
{
    let after = guard.granted();
    assert(!guard.ledger.live.contains(guard.ledger.issued));
    assert forall|serial: nat| #[trigger] after.ledger.live.contains(serial) implies serial
        < after.ledger.issued by {
        if serial != guard.ledger.issued {
            assert(guard.ledger.live.contains(serial));
        }
    }
}

proof fn lemma_waits_at<W>(waiters: Seq<PermitWaiter<W>>, ticket: usize, i: int)
    requires
        waits_at(waiters, ticket, i),
    ensures
        is_waiting(waiters, ticket),
        (choose|k: int| waits_at(waiters, ticket, k)) == i,
{
    let k = choose|k: int| waits_at(waiters, ticket, k);
    if k < i {
        assert(waiters[k].ticket != ticket);
    } else if i < k {
        assert(waiters[i].ticket != ticket);
    }
}

proof fn lemma_first_waiting<W>(waiters: Seq<PermitWaiter<W>>, ticket: usize)
    requires
        is_waiting(waiters, ticket),
    ensures
        waits_at(waiters, ticket, choose|k: int| waits_at(waiters, ticket, k)),
    decreases waiters.len(),
{
    let front = waiters.drop_last();
    if is_waiting(front, ticket) {
        lemma_first_waiting(front, ticket);
        let k = choose|k: int| waits_at(front, ticket, k);
        assert forall|j: int| 0 <= j < k implies (#[trigger] waiters[j]).ticket != ticket by {
            assert(front[j].ticket != ticket);
        }
        assert(waits_at(waiters, ticket, k));
    } else {
        let k = waiters.len() - 1;
        assert forall|j: int| 0 <= j < k implies (#[trigger] waiters[j]).ticket != ticket by {
            assert(front[j] == waiters[j]);
        }
        assert(waits_at(waiters, ticket, k));
    }
}

proof fn lemma_waited_wf<W>(guard: GuardView<W>, waiter: PermitWaiter<W>)
    requires
        guard.wf(),
    ensures
        guard.waited_by(waiter).wf(),
{
    let before = guard.waiters;
    let after = registered(before, waiter);
    if is_waiting(before, waiter.ticket) {
        lemma_first_waiting(before, waiter.ticket);
    }
    assert forall|i: int, j: int| 0 <= i < j < after.len() implies (#[trigger] after[i]).ticket
        != (#[trigger] after[j]).ticket by {
        if j < before.len() {
            assert(before[i].ticket != before[j].ticket);
        }
    }
}

/// A spawned task that holds its permit for its lifetime.
pub struct BackpressureTask<F> {
    /// The task's future.
    pub future: F,
    /// The permit.
    pub permit: Permit,
}

impl<F> BackpressureTask<F> {
    /// Creates a new backpressure task, consuming the permit.
    pub fn new(future: F, permit: Permit) -> (task: Self)
        ensures
            task.future == future,
            task.permit == permit,
    {
        BackpressureTask { future, permit }
    }

    /// Returns a reference to the inner future.
    pub fn inner(&self) -> (future: &F)
        ensures
            *future == self.future,
    {
        &self.future
    }

    /// Returns a mutable reference to the inner future.
    pub fn inner_mut(&mut self) -> (future: &mut F)
        ensures
            *future == old(self).future,
            *final(self) == (BackpressureTask { future: *final(future), ..*old(self) }),
    {
        &mut self.future
    }

    /// Consumes this wrapper and returns the inner future. The permit is
    /// released immediately, and the waiters to wake are returned.
    pub fn into_inner<W>(self, guard: &mut BackpressureGuard<W>) -> (result: (F, Vec<W>))
        requires
            old(guard).wf(),
            old(guard)@.holds(self.permit),
        ensures
            result.0 == self.future,
            result.1@ == waiter_wakers(old(guard)@.waiters),
            final(guard).wf(),
            final(guard)@ == old(guard)@.given_back(self.permit.serial()),
    {
        let woken = guard.release(self.permit);
        (self.future, woken)
    }
}

/// What happens to a guard, seen from outside.
pub ghost enum GuardStep<W> {
    /// A permit was asked for without waiting.
    TryAcquire,
    /// An acquirer was made.
    Acquire,
    /// An acquirer was polled with a waker.
    Poll(PermitWaiter<W>),
    /// A permit was given back.
    GiveBack(nat),
}

impl<W> GuardStep<W> {
    /// Whether the step hands out a permit.
    pub open spec fn grants(&self, guard: GuardView<W>) -> bool {
        (*self is TryAcquire || *self is Poll) && guard.has_room()
    }

    /// The guard after the step. Only a live permit can be given back.
    pub open spec fn done(&self, guard: GuardView<W>) -> GuardView<W> {
        match *self {
            GuardStep::TryAcquire => if guard.has_room() {
                guard.granted()
            } else {
                guard
            },
            GuardStep::Acquire => guard.ticketed(),
            GuardStep::Poll(waiter) => if guard.has_room() {
                guard.granted()
            } else {
                guard.waited_by(waiter)
            },
            GuardStep::GiveBack(serial) => if guard.ledger.live.contains(serial) {
                guard.given_back(serial)
            } else {
                guard
            },
        }
    }
}

/// The guard after steps.
pub open spec fn guard_after<W>(start: GuardView<W>, steps: Seq<GuardStep<W>>) -> GuardView<W>
    decreases steps.len(),
{
    if steps.len() == 0 {
        start
    } else {
        steps.last().done(guard_after(start, steps.drop_last()))
    }
}

/// The permits handed out in steps.
pub open spec fn permits_granted<W>(start: GuardView<W>, steps: Seq<GuardStep<W>>) -> Set<nat>
    decreases steps.len(),
{
    if steps.len() == 0 {
        Set::empty()
    } else {
        let before = guard_after(start, steps.drop_last());
        let granted = permits_granted(start, steps.drop_last());
        if steps.last().grants(before) {
            granted.insert(before.ledger.issued)
        } else {
            granted
        }
    }
}

/// The live permits given back in steps.
pub open spec fn permits_given_back<W>(start: GuardView<W>, steps: Seq<GuardStep<W>>) -> Set<nat>
    decreases steps.len(),
{
    if steps.len() == 0 {
        Set::empty()
    } else {
        let before = guard_after(start, steps.drop_last());
        let given_back = permits_given_back(start, steps.drop_last());
        match steps.last() {
            GuardStep::GiveBack(serial) => if before.ledger.live.contains(serial) {
                given_back.insert(serial)
            } else {
                given_back
            },
            _ => given_back,
        }
    }
}

/// After any steps the number in flight is the number of live permits: those that
/// were handed out and not given back. It stays within the capacity.
pub proof fn in_flight_counts_live_permits<W>(start: GuardView<W>, steps: Seq<GuardStep<W>>)
    requires
        start.wf(),
        start.ledger.live == Set::<nat>::empty(),
    ensures
        guard_after(start, steps).wf(),
        guard_after(start, steps).ledger.live == permits_granted(start, steps).difference(
            permits_given_back(start, steps),
        ),
        guard_after(start, steps).in_flight == permits_granted(start, steps).difference(
            permits_given_back(start, steps),
        ).len(),
        guard_after(start, steps).in_flight <= guard_after(start, steps).capacity,
        guard_after(start, steps).capacity == start.capacity,
{
    lemma_steps(start, steps);
}

proof fn lemma_steps<W>(start: GuardView<W>, steps: Seq<GuardStep<W>>)
    requires
        start.wf(),
        start.ledger.live == Set::<nat>::empty(),
    ensures
        guard_after(start, steps).wf(),
        guard_after(start, steps).capacity == start.capacity,
        guard_after(start, steps).ledger.live == permits_granted(start, steps).difference(
            permits_given_back(start, steps),
        ),
        forall|serial: nat| #[trigger]
            permits_granted(start, steps).contains(serial) ==> serial < guard_after(
                start,
                steps,
            ).ledger.issued,
        permits_given_back(start, steps).subset_of(permits_granted(start, steps)),
    decreases steps.len(),
{
    let after = guard_after(start, steps);
    if steps.len() > 0 {
        let front = steps.drop_last();
        lemma_steps(start, front);
        let before = guard_after(start, front);
        match steps.last() {
            GuardStep::Poll(waiter) => {
                lemma_waited_wf(before, waiter);
            },
            GuardStep::GiveBack(serial) => {
                if before.ledger.live.contains(serial) {
                    assert(before.ledger.live.len() >= 1);
                }
            },
            _ => {},
        }
    }
    assert(after.ledger.live =~= permits_granted(start, steps).difference(
        permits_given_back(start, steps),
    ));
}

/// While a permit lives, the number in flight counts it.
pub proof fn live_permit_is_counted<W>(guard: GuardView<W>, permit: Permit)
    requires
        guard.wf(),
        guard.holds(permit),
    ensures
        guard.in_flight >= 1,
        guard.in_flight == guard.ledger.live.remove(permit.serial()).len() + 1,
{
}

/// A permit that goes back can be taken again: after a guard at its limit gets one
/// permit back, exactly one can be acquired.
pub proof fn released_permit_is_available<W>(full: GuardView<W>, permit: Permit)
    requires
        full.wf(),
        !full.has_room(),
        full.holds(permit),
    ensures
        full.given_back(permit.serial()).has_room(),
        !full.given_back(permit.serial()).granted().has_room(),
{
    live_permit_is_counted(full, permit);
}

/// The waiters after others were polled in turn and found no permit left.
pub open spec fn all_registered<W>(
    waiters: Seq<PermitWaiter<W>>,
    others: Seq<PermitWaiter<W>>,
) -> Seq<PermitWaiter<W>>
    decreases others.len(),
{
    if others.len() == 0 {
        waiters
    } else {
        registered(all_registered(waiters, others.drop_last()), others.last())
    }
}

/// Whoever was polled and found no permit left is woken by the next permit that
/// goes back, with the waker of that poll: whatever waker an earlier poll had
/// left, and whoever else was polled in between.
pub proof fn pending_acquirer_is_woken<W>(
    waiters: Seq<PermitWaiter<W>>,
    waiter: PermitWaiter<W>,
    others: Seq<PermitWaiter<W>>,
)
    requires
        forall|i: int| 0 <= i < others.len() ==> (#[trigger] others[i]).ticket != waiter.ticket,
    ensures
        waiter_wakers(all_registered(registered(waiters, waiter), others)).contains(waiter.waker),
{
    let all = all_registered(registered(waiters, waiter), others);
    lemma_stays_registered(waiters, waiter, others);
    let i = choose|i: int| 0 <= i < all.len() && all[i] == waiter;
    assert(waiter_wakers(all)[i] == waiter.waker);
}

proof fn lemma_stays_registered<W>(
    waiters: Seq<PermitWaiter<W>>,
    waiter: PermitWaiter<W>,
    others: Seq<PermitWaiter<W>>,
)
    requires
        forall|i: int| 0 <= i < others.len() ==> (#[trigger] others[i]).ticket != waiter.ticket,
    ensures
        all_registered(registered(waiters, waiter), others).contains(waiter),
    decreases others.len(),
{
    if others.len() == 0 {
        let after = registered(waiters, waiter);
        if is_waiting(waiters, waiter.ticket) {
            lemma_first_waiting(waiters, waiter.ticket);
            let i = choose|i: int| waits_at(waiters, waiter.ticket, i);
            assert(after[i] == waiter);
        } else {
            assert(after[waiters.len() as int] == waiter);
        }
    } else {
        let front = others.drop_last();
        assert forall|i: int| 0 <= i < front.len() implies (#[trigger] front[i]).ticket
            != waiter.ticket by {
            assert(others[i].ticket != waiter.ticket);
        }
        lemma_stays_registered(waiters, waiter, front);
        let before = all_registered(registered(waiters, waiter), front);
        let other = others.last();
        assert(other == others[others.len() - 1]);
        let i = choose|i: int| 0 <= i < before.len() && before[i] == waiter;
        if is_waiting(before, other.ticket) {
            lemma_first_waiting(before, other.ticket);
        }
        assert(registered(before, other)[i] == waiter);
    }
}

/// Whoever waits when a permit goes back is woken.
pub proof fn release_wakes_every_waiter<W>(waiters: Seq<PermitWaiter<W>>, i: int)
    requires
        0 <= i < waiters.len(),
    ensures
        waiter_wakers(waiters).contains(waiters[i].waker),
{
    assert(waiter_wakers(waiters)[i] == waiters[i].waker);
}

/// A permit is there exactly while fewer are out than the capacity; each that is granted
/// is one more out, and each that goes back one less. Granting one touches no waiter, and
/// a permit that goes back leaves none waiting: all of them were woken.
pub proof fn permits_are_granted_up_to_the_capacity<W>(guard: GuardView<W>, serial: nat)
    requires
        guard.wf(),
    ensures
        guard.has_room() <==> guard.in_flight < guard.capacity,
        guard.has_room() ==> {
            let after = guard.granted();
            &&& after.in_flight == guard.in_flight + 1
            &&& after.capacity == guard.capacity && after.waiters == guard.waiters
                && after.next_ticket == guard.next_ticket
            &&& after.ledger.live.contains(guard.ledger.issued)
            &&& !guard.ledger.live.contains(guard.ledger.issued)
            &&& after.ledger.live.remove(guard.ledger.issued) == guard.ledger.live
        },
        guard.ledger.live.contains(serial) ==> {
            let after = guard.given_back(serial);
            &&& after.in_flight == guard.in_flight - 1
            &&& after.capacity == guard.capacity && after.next_ticket == guard.next_ticket
            &&& after.waiters.len() == 0
            &&& !after.ledger.live.contains(serial)
        },
{
    if guard.ledger.live.contains(serial) {
        assert(guard.ledger.live.remove(serial).len() == guard.ledger.live.len() - 1);
    }
    if guard.ledger.live.contains(guard.ledger.issued) {
        assert(guard.ledger.issued < guard.ledger.issued);
    }
    assert(guard.granted().ledger.live.remove(guard.ledger.issued) =~= guard.ledger.live);
}

/// An acquirer that finds no permit is among the waiters afterwards, with the waker that it
/// gave last; the other waiters stay, and so do the permits. Each acquirer has a ticket of
/// its own, until the tickets begin again.
pub proof fn acquirer_waits_beside_the_others<W>(
    guard: GuardView<W>,
    waiter: PermitWaiter<W>,
    other: PermitWaiter<W>,
)
    requires
        guard.wf(),
    ensures
        ({
            let after = guard.waited_by(waiter);
            &&& after.waiters.contains(waiter)
            &&& other.ticket != waiter.ticket ==> (after.waiters.contains(other)
                <==> guard.waiters.contains(other))
            &&& after.waiters.contains(other) && other.ticket == waiter.ticket ==> other == waiter
            &&& after.in_flight == guard.in_flight && after.capacity == guard.capacity
                && after.next_ticket == guard.next_ticket && after.ledger == guard.ledger
        }),
        guard.next_ticket < usize::MAX ==> guard.ticketed().next_ticket == guard.next_ticket + 1,
        guard.ticketed().waiters == guard.waiters && guard.ticketed().in_flight == guard.in_flight
            && guard.ticketed().capacity == guard.capacity && guard.ticketed().ledger
            == guard.ledger,
        waiter_wakers(guard.waiters).len() == guard.waiters.len(),
        forall|i: int|
            0 <= i < guard.waiters.len() ==> #[trigger] waiter_wakers(guard.waiters)[i]
                == guard.waiters[i].waker,
{
    let before = guard.waiters;
    let after = registered(before, waiter);
    lemma_waited_wf(guard, waiter);
    if is_waiting(before, waiter.ticket) {
        lemma_first_waiting(before, waiter.ticket);
        let k = choose|k: int| waits_at(before, waiter.ticket, k);
        assert(after[k] == waiter);
        if before.contains(other) {
            let i = choose|i: int| 0 <= i < before.len() && before[i] == other;
            if i != k {
                assert(after[i] == other);
            }
        }
        if after.contains(other) {
            let i = choose|i: int| 0 <= i < after.len() && after[i] == other;
            if i != k {
                assert(before[i] == other);
                if i < k {
                    assert(after[i].ticket != after[k].ticket);
                } else {
                    assert(after[k].ticket != after[i].ticket);
                }
            }
        }
    } else {
        assert(after[before.len() as int] == waiter);
        if before.contains(other) {
            let i = choose|i: int| 0 <= i < before.len() && before[i] == other;
            assert(after[i] == other);
        }
        if after.contains(other) {
            let i = choose|i: int| 0 <= i < after.len() && after[i] == other;
            if i < before.len() {
                assert(before[i] == other);
            }
        }
    }
}

} // verus!
