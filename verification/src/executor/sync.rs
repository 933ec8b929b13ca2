//! One-shot signals that tasks can wait for: cooperative stop and notification.

use vstd::prelude::*;

verus! {

/// Whether `same` told of some waker in `wakers` that it wakes what `waker` wakes.
pub open spec fn found_same<W, P: Fn(&W, &W) -> bool>(
    wakers: Seq<W>,
    waker: W,
    same: P,
) -> bool {
    exists|i: int|
        0 <= i < wakers.len() && same.ensures((&#[trigger] wakers[i], &waker), true)
}

/// Whether `same` told of every waker in `wakers` that it wakes something else.
pub open spec fn all_different<W, P: Fn(&W, &W) -> bool>(
    wakers: Seq<W>,
    waker: W,
    same: P,
) -> bool {
    forall|i: int|
        0 <= i < wakers.len() ==> same.ensures((&#[trigger] wakers[i], &waker), false)
}

/// Adds `waker` to those to wake, unless one of them wakes the same already.
/// Returns whether it was added.
pub fn register_waker<W, P: Fn(&W, &W) -> bool>(wakers: &mut Vec<W>, waker: W, same: P) -> (added:
    bool)
    requires
        forall|a: W, b: W| #[trigger] same.requires((&a, &b)),
    ensures
        added ==> all_different(old(wakers)@, waker, same) && final(wakers)@ == old(wakers)@.push(
            waker,
        ),
        !added ==> found_same(old(wakers)@, waker, same) && final(wakers)@ == old(wakers)@,
{
    let mut i: usize = 0;
    while i < wakers.len()
        invariant
            i <= wakers.len(),
            wakers@ == old(wakers)@,
            forall|a: W, b: W| #[trigger] same.requires((&a, &b)),
            forall|j: int|
                0 <= j < i ==> same.ensures((&#[trigger] wakers@[j], &waker), false),
        decreases wakers.len() - i,
    {
        if same(&wakers[i], &waker) {
            assert(same.ensures((&wakers@[i as int], &waker), true));
            return false;
        }
        i = i + 1;
    }
    wakers.push(waker);
    true
}

/// A signal that is raised once and stays raised. `W` is whatever wakes a waiter.
pub struct Signal<W> {
    /// Whether the signal is raised.
    pub raised: bool,
    /// Who waits for it.
    pub wakers: Vec<W>,
}

impl<W> Signal<W> {
    /// Nobody waits for a signal that is raised.
    pub open spec fn wf(&self) -> bool {
        self.raised ==> self.wakers@.len() == 0
    }

    /// A signal that is not raised and that nobody waits for.
    pub fn new() -> (signal: Self)
        ensures
            signal.wf(),
            !signal.raised,
            signal.wakers@ == Seq::<W>::empty(),
    {
        Signal { raised: false, wakers: Vec::new() }
    }

    /// Raises the signal. Returns the waiters to wake, or nothing where it was
    /// raised before.
    pub fn raise(&mut self) -> (woken: Option<Vec<W>>)
        ensures
            old(self).wf() ==> final(self).wf(),
            final(self).raised,
            woken is None <==> old(self).raised,
            old(self).raised ==> *final(self) == *old(self),
            woken matches Some(wakers) ==> wakers@ == old(self).wakers@ && final(self).wakers@
                == Seq::<W>::empty(),
    {
        if self.raised {
            return None;
        }
        self.raised = true;
        let mut wakers: Vec<W> = Vec::new();
        core::mem::swap(&mut wakers, &mut self.wakers);
        Some(wakers)
    }

    /// Returns whether the signal is raised, and otherwise lets `waker` wait for
    /// it.
    pub fn poll<P: Fn(&W, &W) -> bool>(&mut self, waker: W, same: P) -> (ready: bool)
        requires
            forall|a: W, b: W| #[trigger] same.requires((&a, &b)),
        ensures
            old(self).wf() ==> final(self).wf(),
            ready == old(self).raised,
            final(self).raised == old(self).raised,
            ready ==> *final(self) == *old(self),
            !ready ==> {
                ||| all_different(old(self).wakers@, waker, same)
                    && final(self).wakers@ == old(self).wakers@.push(waker)
                ||| found_same(old(self).wakers@, waker, same)
                    && final(self).wakers@ == old(self).wakers@
            },
    {
        if self.raised {
            true
        } else {
            let _ = register_waker(&mut self.wakers, waker, same);
            false
        }
    }
}

/// Creates a source/token pair used to stop async operations cooperatively.
pub fn stop_pair<W>() -> (pair: (StopSource<W>, StopToken))
    ensures
        pair.0.wf(),
        !pair.0.signal.raised,
        pair.0.signal.wakers@ == Seq::<W>::empty(),
{
    (StopSource { signal: Signal::new() }, StopToken {  })
}

/// Holds the stop signal and requests cooperative stop.
pub struct StopSource<W> {
    /// Raised once stop is requested.
    pub signal: Signal<W>,
}

/// Waits for the stop signal that its source holds.
#[derive(Debug, Clone, Copy, PartialEq, Eq, Structural)]
pub struct StopToken {}

impl<W> StopSource<W> {
    /// The invariant of the signal.
    pub open spec fn wf(&self) -> bool {
        self.signal.wf()
    }

    /// Requests stop. Returns the tasks to wake, or nothing where stop was
    /// requested before.
    pub fn stop(&mut self) -> (woken: Option<Vec<W>>)
        ensures
            old(self).wf() ==> final(self).wf(),
            final(self).signal.raised,
            woken is None <==> old(self).signal.raised,
            old(self).signal.raised ==> *final(self) == *old(self),
            woken matches Some(wakers) ==> wakers@ == old(self).signal.wakers@
                && final(self).signal.wakers@ == Seq::<W>::empty(),
    {
        self.signal.raise()
    }

    /// Returns true if stop has already been requested.
    pub fn is_stopped(&self) -> (stopped: bool)
        ensures
            stopped == self.signal.raised,
    {
        self.signal.raised
    }
}

impl StopToken {
    /// Returns true if stop has already been requested from the source.
    pub fn is_stopped<W>(&self, source: &StopSource<W>) -> (stopped: bool)
        ensures
            stopped == source.signal.raised,
    {
        source.is_stopped()
    }

    /// Returns whether stop is requested, and otherwise lets `waker` wait for it.
    pub fn poll<W, P: Fn(&W, &W) -> bool>(
        &self,
        source: &mut StopSource<W>,
        waker: W,
        same: P,
    ) -> (ready: bool)
        requires
            forall|a: W, b: W| #[trigger] same.requires((&a, &b)),
        ensures
            old(source).wf() ==> final(source).wf(),
            ready == old(source).signal.raised,
            final(source).signal.raised == old(source).signal.raised,
            ready ==> *final(source) == *old(source),
            !ready ==> {
                ||| all_different(old(source).signal.wakers@, waker, same)
                    && final(source).signal.wakers@ == old(source).signal.wakers@.push(waker)
                ||| found_same(old(source).signal.wakers@, waker, same)
                    && final(source).signal.wakers@ == old(source).signal.wakers@
            },
    {
        source.signal.poll(waker, same)
    }
}

/// One-shot async notification primitive.
///
/// `Notify` starts unnotified. [`Notify::notify_waiters`] marks it as notified
/// and wakes all current waiters. Once notified, [`Notified`] completes
/// immediately.
pub struct Notify<W> {
    /// Raised once notified.
    pub signal: Signal<W>,
}

/// Waits for the event that its [`Notify`] holds.
#[derive(Debug, Clone, Copy, PartialEq, Eq, Structural)]
pub struct Notified {}

impl<W> Notify<W> {
    /// The invariant of the signal.
    pub open spec fn wf(&self) -> bool {
        self.signal.wf()
    }

    /// Creates an unnotified event.
    pub fn new() -> (notify: Self)
        ensures
            notify.wf(),
            !notify.signal.raised,
            notify.signal.wakers@ == Seq::<W>::empty(),
    {
        Notify { signal: Signal::new() }
    }

    /// Returns a waiter for this event.
    pub fn notified(&self) -> (notified: Notified)
        ensures
            notified == (Notified {  }),
    {
        Notified {  }
    }

    /// Marks this event as notified. Returns the waiters to wake, or nothing
    /// where it was notified before.
    pub fn notify_waiters(&mut self) -> (woken: Option<Vec<W>>)
        ensures
            old(self).wf() ==> final(self).wf(),
            final(self).signal.raised,
            woken is None <==> old(self).signal.raised,
            old(self).signal.raised ==> *final(self) == *old(self),
            woken matches Some(wakers) ==> wakers@ == old(self).signal.wakers@
                && final(self).signal.wakers@ == Seq::<W>::empty(),
    {
        self.signal.raise()
    }

    /// Returns true if this event has already been notified.
    pub fn is_notified(&self) -> (notified: bool)
        ensures
            notified == self.signal.raised,
    {
        self.signal.raised
    }
}

impl Notified {
    /// Returns whether the event is notified, and otherwise lets `waker` wait
    /// for it.
    pub fn poll<W, P: Fn(&W, &W) -> bool>(
        &self,
        notify: &mut Notify<W>,
        waker: W,
        same: P,
    ) -> (ready: bool)
        requires
            forall|a: W, b: W| #[trigger] same.requires((&a, &b)),
        ensures
            old(notify).wf() ==> final(notify).wf(),
            ready == old(notify).signal.raised,
            final(notify).signal.raised == old(notify).signal.raised,
            ready ==> *final(notify) == *old(notify),
            !ready ==> {
                ||| all_different(old(notify).signal.wakers@, waker, same)
                    && final(notify).signal.wakers@ == old(notify).signal.wakers@.push(waker)
                ||| found_same(old(notify).signal.wakers@, waker, same)
                    && final(notify).signal.wakers@ == old(notify).signal.wakers@
            },
    {
        notify.signal.poll(waker, same)
    }
}

/// Where `same` decides between wakers as `alike` does, a waker counts as known exactly
/// where one alike is among those to wake, and as new exactly where none is.
pub proof fn waker_is_known_or_new<W, P: Fn(&W, &W) -> bool>(
    wakers: Seq<W>,
    waker: W,
    same: P,
    alike: spec_fn(W, W) -> bool,
)
    requires
        forall|a: W, b: W, is_same: bool| #[trigger]
            same.ensures((&a, &b), is_same) <==> is_same == alike(a, b),
    ensures
        found_same(wakers, waker, same) <==> exists|i: int|
            0 <= i < wakers.len() && alike(#[trigger] wakers[i], waker),
        all_different(wakers, waker, same) <==> !found_same(wakers, waker, same),
{
    if exists|i: int| 0 <= i < wakers.len() && alike(#[trigger] wakers[i], waker) {
        let i = choose|i: int| 0 <= i < wakers.len() && alike(#[trigger] wakers[i], waker);
        assert(same.ensures((&wakers[i], &waker), true));
    }
    if found_same(wakers, waker, same) {
        let i = choose|i: int|
            0 <= i < wakers.len() && same.ensures((&#[trigger] wakers[i], &waker), true);
        assert(alike(wakers[i], waker));
        assert(!same.ensures((&wakers[i], &waker), false));
    } else {
        assert forall|i: int| 0 <= i < wakers.len() implies same.ensures(
            (&#[trigger] wakers[i], &waker),
            false,
        ) by {
            assert(!same.ensures((&wakers[i], &waker), true));
        }
    }
}

} // verus!
