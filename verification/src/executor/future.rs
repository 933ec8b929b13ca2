//! Timers, timeouts, races and yields, as state that is polled.

use vstd::prelude::*;

use crate::executor::scheduler::{Registered, Scheduler};
use crate::executor::timer::{
    is_first_timer, no_timer, other_timer, timer_is_found_by_its_identifier,
    timer_is_taken_back_alone, TimerEntry, TimerSet,
};
use crate::executor::types::TaskWait;
use crate::time::{Duration, Instant};

verus! {

/// Returns a sleeper whose deadline is `duration` after `now`.
pub fn sleep(now: Instant, duration: Duration) -> (sleep: Sleep)
    requires
        now + duration <= u64::MAX,
    ensures
        sleep == (Sleep { deadline: (now + duration) as u64, timer_id: None }),
{
    Sleep { deadline: now + duration, timer_id: None }
}

/// Waits for a deadline.
#[derive(Debug, Clone, Copy, PartialEq, Eq, Structural)]
pub struct Sleep {
    /// When the wait is over.
    pub deadline: Instant,
    /// The timer that stands for this wait, once it has one.
    pub timer_id: Option<usize>,
}

/// What polling a [`Sleep`] came to.
pub enum SleepPoll {
    /// The deadline has passed.
    Ready,
    /// The timer is set.
    Pending(Registered),
}

/// The timers after timer `id` is set.
pub open spec fn timer_set<W>(
    before: Seq<TimerEntry<W>>,
    after: Seq<TimerEntry<W>>,
    entry: TimerEntry<W>,
) -> bool {
    &&& no_timer(before, entry.id) ==> after == before.push(entry)
    &&& forall|i: int|
        #![trigger is_first_timer(before, entry.id, i)]
        is_first_timer(before, entry.id, i) ==> after == before.update(i, entry)
}

/// Whether a sleep has ended: its timer, if it had one, is gone.
pub open spec fn sleep_over<W>(
    before: Sleep,
    after: Sleep,
    timers: TimerSet<W>,
    left: TimerSet<W>,
) -> bool {
    &&& after == (Sleep { timer_id: None, ..before })
    &&& left.next_id == timers.next_id
    &&& left.timers@ == match before.timer_id {
        Some(id) => timers.timers@.filter(other_timer(id)),
        None => timers.timers@,
    }
}

/// Whether a sleep waits: it has a timer, a new one where it had none, and the
/// reactor is woken where no other timer ends as soon.
pub open spec fn sleep_waits<W>(
    before: Sleep,
    after: Sleep,
    timers: TimerSet<W>,
    set: TimerSet<W>,
    waker: W,
    registered: Registered,
) -> bool {
    let id = match before.timer_id {
        Some(id) => id,
        None => timers.next_id,
    };
    &&& after == (Sleep { timer_id: Some(id), ..before })
    &&& timer_set(
        timers.timers@,
        set.timers@,
        TimerEntry { id, deadline: before.deadline, waker },
    )
    &&& registered.wait == (TaskWait::Timer { deadline: before.deadline })
    &&& registered.wake_reactor == forall|i: int|
        0 <= i < timers.timers@.len() ==> before.deadline < (
        #[trigger] timers.timers@[i]).deadline
    &&& set.next_id == if before.timer_id is Some {
        timers.next_id
    } else if timers.next_id == usize::MAX {
        0
    } else {
        (timers.next_id + 1) as usize
    }
}

impl Sleep {
    /// Ends the wait where `now` has reached the deadline, taking the timer
    /// back; otherwise sets the timer, with an identifier allocated once.
    pub fn poll<W>(&mut self, scheduler: &mut Scheduler<W>, now: Instant, waker: W) -> (poll:
        SleepPoll)
        requires
            old(scheduler).wf(),
        ensures
            final(scheduler).wf(),
            *final(scheduler) == (Scheduler { timers: final(scheduler).timers, ..*old(scheduler) }),
            final(self).deadline == old(self).deadline,
            poll is Ready <==> now >= old(self).deadline,
            poll is Ready ==> sleep_over(
                *old(self),
                *final(self),
                old(scheduler).timers,
                final(scheduler).timers,
            ),
            poll matches SleepPoll::Pending(registered) ==> sleep_waits(
                *old(self),
                *final(self),
                old(scheduler).timers,
                final(scheduler).timers,
                waker,
                registered,
            ),
    {
        if now >= self.deadline {
            match self.timer_id.take() {
                Some(timer_id) => {
                    scheduler.remove_timer(timer_id);
                },
                None => {},
            }
            return SleepPoll::Ready;
        }
        let timer_id: usize = match self.timer_id {
            Some(timer_id) => timer_id,
            None => {
                let timer_id: usize = scheduler.allocate_timer_id();
                self.timer_id = Some(timer_id);
                timer_id
            },
        };
        SleepPoll::Pending(scheduler.register_timer(timer_id, self.deadline, waker))
    }

    /// Gives up the wait, taking back a timer that is set.
    pub fn release<W>(&self, scheduler: &mut Scheduler<W>)
        requires
            old(scheduler).wf(),
        ensures
            final(scheduler).wf(),
            *final(scheduler) == (Scheduler { timers: final(scheduler).timers, ..*old(scheduler) }),
            final(scheduler).timers.next_id == old(scheduler).timers.next_id,
            final(scheduler).timers.timers@ == match self.timer_id {
                Some(id) => old(scheduler).timers.timers@.filter(other_timer(id)),
                None => old(scheduler).timers.timers@,
            },
    {
        match self.timer_id {
            Some(timer_id) => {
                scheduler.remove_timer(timer_id);
            },
            None => {},
        }
    }
}

/// Error returned when the deadline of a timeout wins the race.
#[derive(Debug, Clone, Copy, PartialEq, Eq, Structural)]
pub struct TimeoutError {}

impl TimeoutError {
    /// Human-readable text of the error.
    pub fn message(&self) -> (text: String)
        ensures
            text@ == "future timed out"@,
    {
        "future timed out".to_owned()
    }
}

/// A future that is waited for until a deadline.
pub struct Timeout<F> {
    /// The future.
    pub future: F,
    /// The deadline.
    pub sleep: Sleep,
}

/// Returns a timeout that ends the wait for `future` `duration` after `now`.
pub fn timeout<F>(now: Instant, duration: Duration, future: F) -> (timeout: Timeout<F>)
    requires
        now + duration <= u64::MAX,
    ensures
        timeout.future == future,
        timeout.sleep == (Sleep { deadline: (now + duration) as u64, timer_id: None }),
{
    Timeout { future, sleep: sleep(now, duration) }
}

/// What polling a [`Timeout`] came to.
pub enum TimeoutPoll<T> {
    /// It ended: with the future's output, or because the deadline passed.
    Ready(Result<T, TimeoutError>),
    /// Both are pending; the timer is set.
    Pending(Registered),
}

impl<F> Timeout<F> {
    /// Goes on after the future was polled: its output ends the wait, whether or
    /// not the deadline has passed; else the deadline does.
    pub fn poll<T, W>(
        &mut self,
        output: Option<T>,
        scheduler: &mut Scheduler<W>,
        now: Instant,
        waker: W,
    ) -> (poll: TimeoutPoll<T>)
        requires
            old(scheduler).wf(),
        ensures
            final(scheduler).wf(),
            *final(scheduler) == (Scheduler { timers: final(scheduler).timers, ..*old(scheduler) }),
            final(self).future == old(self).future,
            final(self).sleep.deadline == old(self).sleep.deadline,
            output matches Some(value) ==> poll == TimeoutPoll::<T>::Ready(Ok(value))
                && *final(scheduler) == *old(scheduler) && *final(self) == *old(self),
            output is None && now >= old(self).sleep.deadline ==> poll == TimeoutPoll::<T>::Ready(
                Err(TimeoutError {  }),
            ) && sleep_over(
                old(self).sleep,
                final(self).sleep,
                old(scheduler).timers,
                final(scheduler).timers,
            ),
            output is None && now < old(self).sleep.deadline ==> (
            poll matches TimeoutPoll::Pending(registered) && sleep_waits(
                old(self).sleep,
                final(self).sleep,
                old(scheduler).timers,
                final(scheduler).timers,
                waker,
                registered,
            )),
    {
        match output {
            Some(value) => TimeoutPoll::Ready(Ok(value)),
            None => {
                match self.sleep.poll(scheduler, now, waker) {
                    SleepPoll::Ready => TimeoutPoll::Ready(Err(TimeoutError {  })),
                    SleepPoll::Pending(registered) => TimeoutPoll::Pending(registered),
                }
            },
        }
    }
}

/// Output of a race.
#[derive(Debug, Clone, Copy, PartialEq, Eq)]
pub enum RaceOutput<A, B> {
    /// The first future completed before the second future.
    First(A),
    /// The second future completed before the first future.
    Second(B),
}

/// Two futures of which the one that completes first wins.
pub struct Race<A, B> {
    /// The first future, until the race is over.
    pub first: Option<A>,
    /// The second future, until the race is over.
    pub second: Option<B>,
}

/// Returns a race between two futures.
pub fn race<A, B>(first: A, second: B) -> (race: Race<A, B>)
    ensures
        race == (Race { first: Some(first), second: Some(second) }),
{
    Race { first: Some(first), second: Some(second) }
}

impl<A, B> Race<A, B> {
    /// Goes on after the first future was polled: its output ends the race, and
    /// both futures are dropped. Otherwise the second one is polled next.
    pub fn first_polled<X, Y>(&mut self, output: Option<X>) -> (won: Option<RaceOutput<X, Y>>)
        ensures
            output matches Some(value) ==> won == Some(RaceOutput::<X, Y>::First(value))
                && *final(self) == (Race::<A, B> { first: None, second: None }),
            output is None ==> won is None && *final(self) == *old(self),
    {
        match output {
            Some(value) => {
                self.second = None;
                self.first = None;
                Some(RaceOutput::First(value))
            },
            None => None,
        }
    }

    /// Goes on after the second future was polled: its output ends the race, and
    /// both futures are dropped. Otherwise both are pending.
    pub fn second_polled<X, Y>(&mut self, output: Option<Y>) -> (won: Option<RaceOutput<X, Y>>)
        ensures
            output matches Some(value) ==> won == Some(RaceOutput::<X, Y>::Second(value))
                && *final(self) == (Race::<A, B> { first: None, second: None }),
            output is None ==> won is None && *final(self) == *old(self),
    {
        match output {
            Some(value) => {
                self.first = None;
                self.second = None;
                Some(RaceOutput::Second(value))
            },
            None => None,
        }
    }
}

/// Yields once before completing.
#[derive(Debug, Clone, Copy, PartialEq, Eq, Structural)]
pub struct YieldNow {
    /// Whether it has yielded.
    pub yielded: bool,
}

/// Returns a future that yields once before completing.
pub fn yield_now() -> (future: YieldNow)
    ensures
        !future.yielded,
{
    YieldNow { yielded: false }
}

/// What polling a yield came to.
pub struct YieldPoll<W> {
    /// Whether it is complete.
    pub ready: bool,
    /// The waker to wake at once.
    pub woken: Option<W>,
}

impl YieldNow {
    /// Pending the first time, with its own waker to be woken at once; complete
    /// from then on, with none.
    pub fn poll<W>(&mut self, waker: W) -> (poll: YieldPoll<W>)
        ensures
            final(self).yielded,
            poll == if old(self).yielded {
                YieldPoll { ready: true, woken: None }
            } else {
                YieldPoll { ready: false, woken: Some(waker) }
            },
    {
        if self.yielded {
            YieldPoll { ready: true, woken: None }
        } else {
            self.yielded = true;
            YieldPoll { ready: false, woken: Some(waker) }
        }
    }
}

/// A timer that is set is there with its deadline and its waiter, alone of its identifier
/// if it was, and every timer of another identifier stays.
pub proof fn timer_is_set_beside_the_others<W>(
    before: Seq<TimerEntry<W>>,
    after: Seq<TimerEntry<W>>,
    entry: TimerEntry<W>,
    t: TimerEntry<W>,
)
    requires
        timer_set(before, after, entry),
    ensures
        after.contains(entry),
        t.id != entry.id ==> (after.contains(t) <==> before.contains(t)),
        (forall|i: int, j: int|
            0 <= i < j < before.len() ==> (#[trigger] before[i]).id != (#[trigger] before[j]).id)
            && after.contains(t) && t.id == entry.id ==> t == entry,
{
    timer_is_found_by_its_identifier(before, entry.id);
    if no_timer(before, entry.id) {
        assert(after == before.push(entry));
        assert(after[before.len() as int] == entry);
        if before.contains(t) {
            let i = choose|i: int| 0 <= i < before.len() && before[i] == t;
            assert(after[i] == t);
        }
    } else {
        let i = choose|i: int| is_first_timer(before, entry.id, i);
        assert(after == before.update(i, entry));
        assert(after[i] == entry);
        if before.contains(t) {
            let k = choose|k: int| 0 <= k < before.len() && before[k] == t;
            if k != i {
                assert(after[k] == t);
            }
        }
        if after.contains(t) {
            let k = choose|k: int| 0 <= k < after.len() && after[k] == t;
            if k != i {
                assert(before[k] == t);
                if k < i {
                    assert(before[k].id != before[i].id || k == i);
                }
            }
        }
    }
}

/// A sleep that waits has one timer, with the sleep's deadline and the waiter, under the
/// identifier it had or the next free one; the executor's wait is cut short exactly where
/// that deadline comes before every other. A sleep that is over has taken its timer back.
pub proof fn sleep_keeps_one_timer<W>(
    sleep: Sleep,
    waiting: Sleep,
    timers: TimerSet<W>,
    set: TimerSet<W>,
    waker: W,
    registered: Registered,
    over: Sleep,
    left: TimerSet<W>,
    t: TimerEntry<W>,
)
    requires
        timers.wf(),
        sleep_waits(sleep, waiting, timers, set, waker, registered),
        sleep_over(waiting, over, set, left),
    ensures
        waiting.deadline == sleep.deadline && over.deadline == sleep.deadline,
        waiting.timer_id is Some && over.timer_id is None,
        sleep.timer_id is Some ==> waiting.timer_id == sleep.timer_id && set.next_id
            == timers.next_id,
        sleep.timer_id is None ==> waiting.timer_id == Some(timers.next_id) && (timers.next_id
            < usize::MAX ==> set.next_id == timers.next_id + 1),
        set.timers@.contains(t) && waiting.timer_id == Some(t.id) <==> t == (TimerEntry {
            id: waiting.timer_id->0,
            deadline: sleep.deadline,
            waker,
        }),
        waiting.timer_id != Some(t.id) ==> (set.timers@.contains(t) <==> timers.timers@.contains(
            t,
        )),
        registered.wait == (TaskWait::Timer { deadline: sleep.deadline }),
        timers.timers@.len() == 0 ==> registered.wake_reactor,
        timers.timers@.contains(t) && t.deadline <= sleep.deadline ==> !registered.wake_reactor,
        left.timers@.contains(t) <==> timers.timers@.contains(t) && waiting.timer_id != Some(t.id),
        left.next_id == set.next_id,
{
    let id = waiting.timer_id->0;
    let entry = TimerEntry { id, deadline: sleep.deadline, waker };
    timer_is_set_beside_the_others(timers.timers@, set.timers@, entry, t);
    timer_is_taken_back_alone(set.timers@, id, t);
}

} // verus!
