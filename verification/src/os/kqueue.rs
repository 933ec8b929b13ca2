//! Readiness through `kqueue`: descriptors are registered for one wait only.

use std::collections::HashMap;

use vstd::prelude::*;

use crate::io_error::IoError;
use crate::os::event::OsEvent;
use crate::os::interest::FdInterest;
use crate::platform::Platform;

verus! {

broadcast use vstd::std_specs::hash::group_hash_axioms;

/// Filter that reports readability.
pub const EVFILT_READ: i16 = -1;

/// Filter that reports writability.
pub const EVFILT_WRITE: i16 = -2;

/// Change flag: add the filter.
pub const EV_ADD: u16 = 0x0001;

/// Change flag: delete the filter.
pub const EV_DELETE: u16 = 0x0002;

/// Change flag: enable the filter.
pub const EV_ENABLE: u16 = 0x0004;

/// Event flag: error.
pub const EV_ERROR: u16 = 0x4000;

/// Event flag: end of file.
pub const EV_EOF: u16 = 0x8000;

/// Token of the descriptor that wakes the reactor.
pub const WAKE_TOKEN: u64 = 0;

/// One event that a wait reported, or one change to submit.
#[derive(Debug, Clone, Copy, PartialEq, Eq, Structural)]
pub struct Kevent {
    /// The descriptor.
    pub fd: i32,
    /// The filter.
    pub filter: i16,
    /// Flags.
    pub flags: u16,
    /// Token of the descriptor.
    pub token: u64,
}

/// Length of a wait.
#[derive(Debug, Clone, Copy, PartialEq, Eq, Structural)]
pub struct Timespec {
    /// Whole seconds.
    pub tv_sec: i64,
    /// Nanoseconds beyond them.
    pub tv_nsec: i64,
}

/// The timespec of a duration of `secs` seconds and `subsec_nanos` nanoseconds,
/// as many seconds as it can hold.
pub fn duration_to_timespec(secs: u64, subsec_nanos: u32) -> (spec: Timespec)
    ensures
        spec.tv_sec == if secs > i64::MAX {
            i64::MAX as int
        } else {
            secs as int
        },
        spec.tv_nsec == subsec_nanos,
{
    let tv_sec: i64 = if secs > i64::MAX as u64 {
        i64::MAX
    } else {
        secs as i64
    };
    Timespec { tv_sec, tv_nsec: subsec_nanos as i64 }
}

/// The changes that register an interest under a token: one for each direction.
pub open spec fn registration(interest: FdInterest, token: u64) -> Seq<Kevent> {
    let add = EV_ADD | EV_ENABLE;
    (if interest.read {
        seq![Kevent { fd: interest.fd, filter: EVFILT_READ, flags: add, token }]
    } else {
        Seq::empty()
    }) + (if interest.write {
        seq![Kevent { fd: interest.fd, filter: EVFILT_WRITE, flags: add, token }]
    } else {
        Seq::empty()
    })
}

/// The changes that undo the registration of an interest.
pub open spec fn deregistration(interest: FdInterest) -> Seq<Kevent> {
    (if interest.read {
        seq![Kevent { fd: interest.fd, filter: EVFILT_READ, flags: EV_DELETE, token: 0 }]
    } else {
        Seq::empty()
    }) + (if interest.write {
        seq![Kevent { fd: interest.fd, filter: EVFILT_WRITE, flags: EV_DELETE, token: 0 }]
    } else {
        Seq::empty()
    })
}

fn changes(interest: FdInterest, flags: u16, token: u64) -> (list: Vec<Kevent>)
    ensures
        list@ == (if interest.read {
            seq![Kevent { fd: interest.fd, filter: EVFILT_READ, flags, token }]
        } else {
            Seq::<Kevent>::empty()
        }) + (if interest.write {
            seq![Kevent { fd: interest.fd, filter: EVFILT_WRITE, flags, token }]
        } else {
            Seq::<Kevent>::empty()
        }),
{
    let mut list: Vec<Kevent> = Vec::new();
    if interest.read {
        list.push(Kevent { fd: interest.fd, filter: EVFILT_READ, flags, token });
    }
    if interest.write {
        list.push(Kevent { fd: interest.fd, filter: EVFILT_WRITE, flags, token });
    }
    list
}

/// The changes that register an interest under a token.
pub fn registration_changes(interest: FdInterest, token: u64) -> (list: Vec<Kevent>)
    ensures
        list@ == registration(interest, token),
{
    changes(interest, EV_ADD | EV_ENABLE, token)
}

/// The changes that undo the registration of an interest.
pub fn deregistration_changes(interest: FdInterest) -> (list: Vec<Kevent>)
    ensures
        list@ == deregistration(interest),
{
    changes(interest, EV_DELETE, 0)
}

/// The interests that tokens stand for during a wait.
pub struct KqueueRegistry {
    /// Token of the next interest.
    pub next_token: u64,
    /// The interests.
    pub interests: HashMap<u64, FdInterest>,
}

impl KqueueRegistry {
    /// Tokens were handed out, and that of the waking descriptor is none of them.
    pub open spec fn wf(&self) -> bool {
        &&& self.next_token >= 1
        &&& forall|token: u64| #[trigger]
            self.interests@.contains_key(token) ==> token < self.next_token
    }

    /// No interests.
    pub fn new() -> (registry: Self)
        ensures
            registry.wf(),
            registry.next_token == 1,
            registry.interests@ == Map::<u64, FdInterest>::empty(),
    {
        KqueueRegistry { next_token: 1, interests: HashMap::new() }
    }

    /// Notes the descriptor that wakes the reactor.
    pub fn insert_wake(&mut self, fd: i32)
        requires
            old(self).wf(),
        ensures
            final(self).wf(),
            final(self).next_token == old(self).next_token,
            final(self).interests@ == old(self).interests@.insert(
                WAKE_TOKEN,
                FdInterest { fd, read: true, write: false },
            ),
    {
        let _ = self.interests.insert(WAKE_TOKEN, FdInterest { fd, read: true, write: false });
    }

    /// Notes an interest for one wait, under a token not used before.
    pub fn insert_temporary(&mut self, interest: FdInterest) -> (token: u64)
        requires
            old(self).wf(),
            old(self).next_token < u64::MAX,
        ensures
            final(self).wf(),
            token == old(self).next_token,
            token != WAKE_TOKEN,
            !old(self).interests@.contains_key(token),
            final(self).next_token == old(self).next_token + 1,
            final(self).interests@ == old(self).interests@.insert(token, interest),
    {
        let token: u64 = self.next_token;
        self.next_token = token + 1;
        let _ = self.interests.insert(token, interest);
        token
    }

    /// Forgets an interest.
    pub fn remove(&mut self, token: u64) -> (interest: Option<FdInterest>)
        requires
            old(self).wf(),
        ensures
            final(self).wf(),
            final(self).next_token == old(self).next_token,
            final(self).interests@ == old(self).interests@.remove(token),
            interest is Some <==> old(self).interests@.contains_key(token),
            interest is Some ==> interest == Some(old(self).interests@[token]),
    {
        self.interests.remove(&token)
    }

    /// The interest that a token stands for.
    pub fn get(&self, token: u64) -> (interest: Option<FdInterest>)
        ensures
            interest is Some <==> self.interests@.contains_key(token),
            interest is Some ==> interest == Some(self.interests@[token]),
    {
        match self.interests.get(&token) {
            Some(interest) => Some(*interest),
            None => None,
        }
    }
}

/// The interests of one wait: they are registered one after another, and forgotten
/// again when the wait ends or one of them is refused.
pub struct KqueueRegistration {
    /// The interests.
    pub interests: Vec<FdInterest>,
    /// Tokens of the interests that are registered.
    pub tokens: Vec<u64>,
    /// Token of the interest whose registration is under way.
    pub awaited: Option<u64>,
}

/// A registration that was given up.
pub struct KqueueRefusal {
    /// Why.
    pub error: IoError,
    /// The changes that undo what was registered. Whether they work does not
    /// matter.
    pub undo: Vec<Kevent>,
}

/// The changes that undo the registration of interests, in order.
pub open spec fn deregistrations(interests: Seq<FdInterest>) -> Seq<Kevent>
    decreases interests.len(),
{
    if interests.len() == 0 {
        Seq::empty()
    } else {
        deregistrations(interests.drop_last()) + deregistration(interests.last())
    }
}

impl KqueueRegistration {
    /// The tokens are distinct, and the registry holds the interest of each.
    pub open spec fn wf(&self, interests: Map<u64, FdInterest>) -> bool {
        &&& self.tokens@.len() <= self.interests@.len()
        &&& self.tokens@.no_duplicates()
        &&& forall|i: int|
            0 <= i < self.tokens@.len() ==> interests.contains_key(#[trigger] self.tokens@[i])
                && interests[self.tokens@[i]] == self.interests@[i]
        &&& self.awaited matches Some(token) ==> self.tokens@.len() < self.interests@.len()
            && !self.tokens@.contains(token) && interests.contains_key(token) && interests[token]
            == self.interests@[self.tokens@.len() as int]
    }

    /// Nothing is registered yet.
    pub fn new(interests: Vec<FdInterest>) -> (registration: Self)
        ensures
            registration.interests == interests,
            registration.tokens@ == Seq::<u64>::empty(),
            registration.awaited is None,
            forall|held: Map<u64, FdInterest>| #[trigger] registration.wf(held),
    {
        KqueueRegistration { interests, tokens: Vec::new(), awaited: None }
    }

    /// Goes on to the next interest: the changes that register it, to be made in
    /// order up to the first that fails; nothing where all are registered.
    pub fn next(&mut self, registry: &mut KqueueRegistry) -> (changes: Option<Vec<Kevent>>)
        requires
            old(registry).wf(),
            old(registry).next_token < u64::MAX,
            old(self).wf(old(registry).interests@),
            old(self).awaited is None,
        ensures
            final(registry).wf(),
            final(self).wf(final(registry).interests@),
            final(self).interests == old(self).interests,
            final(self).tokens == old(self).tokens,
            ({
                let n = old(self).tokens@.len() as int;
                let token = old(registry).next_token;
                if n < old(self).interests@.len() {
                    let interest = old(self).interests@[n];
                    &&& changes matches Some(list) && list@ == registration(interest, token)
                    &&& final(self).awaited == Some(token)
                    &&& final(registry).next_token == token + 1
                    &&& final(registry).interests@ == old(registry).interests@.insert(
                        token,
                        interest,
                    )
                } else {
                    &&& changes is None
                    &&& final(self).awaited is None
                    &&& *final(registry) == *old(registry)
                }
            }),
    {
        let n: usize = self.tokens.len();
        if n >= self.interests.len() {
            return None;
        }
        let interest = self.interests[n];
        let token: u64 = registry.insert_temporary(interest);
        self.awaited = Some(token);
        proof {
            if self.tokens@.contains(token) {
                let k = choose|k: int| 0 <= k < n && self.tokens@[k] == token;
                assert(old(registry).interests@.contains_key(self.tokens@[k]));
            }
        }
        Some(registration_changes(interest, token))
    }

    /// Goes on after the changes for an interest were made, or one of them failed:
    /// then the interest is forgotten and everything registered before is undone.
    pub fn registered(&mut self, registry: &mut KqueueRegistry, result: Result<(), i32>) -> (outcome:
        Result<(), KqueueRefusal>)
        requires
            old(registry).wf(),
            old(self).wf(old(registry).interests@),
            old(self).awaited is Some,
        ensures
            final(registry).wf(),
            final(registry).next_token == old(registry).next_token,
            final(self).wf(final(registry).interests@),
            final(self).interests == old(self).interests,
            final(self).awaited is None,
            match result {
                Ok(()) => {
                    &&& outcome is Ok
                    &&& final(self).tokens@ == old(self).tokens@.push(old(self).awaited->0)
                    &&& *final(registry) == *old(registry)
                },
                Err(code) => {
                    &&& outcome matches Err(refusal) && refusal.error.is_os(
                        Platform::OtherUnix,
                        code,
                    ) && refusal.undo@ == deregistrations(
                        old(self).interests@.take(old(self).tokens@.len() as int),
                    )
                    &&& final(self).tokens@ == Seq::<u64>::empty()
                    &&& final(registry).interests@ == old(registry).interests@.remove(
                        old(self).awaited->0,
                    ).remove_keys(old(self).tokens@.to_set())
                },
            },
    {
        let token: u64 = match self.awaited.take() {
            Some(token) => token,
            None => 0,
        };
        match result {
            Ok(()) => {
                let ghost before = self.tokens@;
                self.tokens.push(token);
                proof {
                    assert forall|i: int, j: int|
                        0 <= i < self.tokens@.len() && 0 <= j < self.tokens@.len() && i
                            != j implies self.tokens@[i] != self.tokens@[j] by {
                        if i == before.len() {
                            assert(before.contains(before[j]));
                        } else if j == before.len() {
                            assert(before.contains(before[i]));
                        }
                    }
                }
                Ok(())
            },
            Err(code) => {
                let _ = registry.remove(token);
                proof {
                    assert forall|i: int| 0 <= i < self.tokens@.len() implies #[trigger]
                        self.tokens@[i] != token by {
                        assert(self.tokens@.contains(self.tokens@[i]));
                    }
                }
                let undo = self.release(registry);
                Err(
                    KqueueRefusal {
                        error: IoError::from_raw_os_error(Platform::OtherUnix, code),
                        undo,
                    },
                )
            },
        }
    }

    /// Ends the wait: forgets every interest and returns the changes that undo the
    /// registrations. Whether they work does not matter.
    pub fn release(&mut self, registry: &mut KqueueRegistry) -> (undo: Vec<Kevent>)
        requires
            old(registry).wf(),
            old(self).wf(old(registry).interests@),
            old(self).awaited is None,
        ensures
            final(registry).wf(),
            final(registry).next_token == old(registry).next_token,
            final(registry).interests@ == old(registry).interests@.remove_keys(
                old(self).tokens@.to_set(),
            ),
            final(self).interests == old(self).interests,
            final(self).tokens@ == Seq::<u64>::empty(),
            final(self).awaited is None,
            undo@ == deregistrations(old(self).interests@.take(old(self).tokens@.len() as int)),
    {
        let ghost tokens = self.tokens@;
        let ghost all = self.interests@;
        let ghost held = registry.interests@;
        let mut undo: Vec<Kevent> = Vec::new();
        let mut i: usize = 0;
        proof {
            assert(tokens.take(0).to_set() =~= Set::empty());
            assert(held.remove_keys(Set::empty()) =~= held);
            assert(all.take(0) =~= Seq::empty());
        }
        while i < self.tokens.len()
            invariant
                *self == *old(self),
                tokens == self.tokens@,
                all == self.interests@,
                i <= tokens.len() <= all.len(),
                tokens.no_duplicates(),
                registry.wf(),
                registry.next_token == old(registry).next_token,
                registry.interests@ == held.remove_keys(tokens.take(i as int).to_set()),
                forall|k: int|
                    0 <= k < tokens.len() ==> held.contains_key(#[trigger] tokens[k])
                        && held[tokens[k]] == all[k],
                undo@ == deregistrations(all.take(i as int)),
            decreases tokens.len() - i,
        {
            let token: u64 = self.tokens[i];
            proof {
                let seen = tokens.take(i as int);
                if seen.contains(token) {
                    let k = choose|k: int| 0 <= k < seen.len() && seen[k] == token;
                    assert(tokens[k] == tokens[i as int]);
                }
                assert(tokens.take(i + 1) =~= seen.push(token));
                seen.lemma_push_to_set_commute(token);
                assert(all.take(i + 1).drop_last() =~= all.take(i as int));
                assert(held.contains_key(tokens[i as int]));
            }
            match registry.remove(token) {
                Some(interest) => {
                    let mut list = deregistration_changes(interest);
                    undo.append(&mut list);
                },
                None => {},
            }
            proof {
                assert(registry.interests@ =~= held.remove_keys(
                    tokens.take(i + 1).to_set(),
                ));
            }
            i = i + 1;
        }
        proof {
            assert(tokens.take(i as int) =~= tokens);
        }
        self.tokens = Vec::new();
        undo
    }
}

/// The registry's interests with those of a wait.
pub open spec fn with_interests(
    held: Map<u64, FdInterest>,
    tokens: Seq<u64>,
    interests: Seq<FdInterest>,
) -> Map<u64, FdInterest>
    decreases tokens.len(),
{
    if tokens.len() == 0 {
        held
    } else {
        with_interests(held, tokens.drop_last(), interests).insert(
            tokens.last(),
            interests[tokens.len() - 1],
        )
    }
}

/// A wait leaves no trace in the registry: forgetting the interests that it
/// registered under new tokens gives what was held before.
pub proof fn wait_leaves_no_trace(
    held: Map<u64, FdInterest>,
    tokens: Seq<u64>,
    interests: Seq<FdInterest>,
)
    requires
        tokens.len() <= interests.len(),
        forall|i: int| 0 <= i < tokens.len() ==> !held.contains_key(#[trigger] tokens[i]),
    ensures
        with_interests(held, tokens, interests).remove_keys(tokens.to_set()) == held,
    decreases tokens.len(),
{
    if tokens.len() == 0 {
        assert(tokens.to_set() =~= Set::empty());
        assert(held.remove_keys(Set::empty()) =~= held);
    } else {
        let front = tokens.drop_last();
        assert forall|i: int| 0 <= i < front.len() implies !held.contains_key(
            #[trigger] front[i],
        ) by {
            assert(tokens[i] == front[i]);
        }
        wait_leaves_no_trace(held, front, interests);
        let last = tokens.last();
        assert(!held.contains_key(tokens[tokens.len() - 1]));
        assert(tokens =~= front.push(last));
        front.lemma_push_to_set_commute(last);
        let less = with_interests(held, front, interests);
        assert(less.insert(last, interests[tokens.len() - 1]).remove_keys(
            front.to_set().insert(last),
        ) =~= less.remove_keys(front.to_set()).remove(last));
        assert(held.remove(last) =~= held);
    }
}

/// Whether the event says that something went wrong or came to its end.
pub open spec fn is_error(event: Kevent) -> bool {
    event.flags & (EV_ERROR | EV_EOF) != 0
}

/// The descriptors that one event makes ready: once for its filter, and once
/// more where it reports an error or the end.
pub open spec fn ready_by(event: Kevent, interest: FdInterest, filter: i16, wanted: bool) -> Seq<
    i32,
> {
    (if wanted && event.filter == filter {
        seq![interest.fd]
    } else {
        Seq::empty()
    }) + (if wanted && is_error(event) {
        seq![interest.fd]
    } else {
        Seq::empty()
    })
}

/// The descriptors that events found readable.
pub open spec fn readable_of(interests: Map<u64, FdInterest>, events: Seq<Kevent>) -> Seq<i32>
    decreases events.len(),
{
    if events.len() == 0 {
        Seq::empty()
    } else {
        let event = events.last();
        let front = readable_of(interests, events.drop_last());
        if event.token == WAKE_TOKEN {
            front
        } else {
            let interest = interests[event.token];
            front + ready_by(event, interest, EVFILT_READ, interest.read)
        }
    }
}

/// The descriptors that events found writable.
pub open spec fn writable_of(interests: Map<u64, FdInterest>, events: Seq<Kevent>) -> Seq<i32>
    decreases events.len(),
{
    if events.len() == 0 {
        Seq::empty()
    } else {
        let event = events.last();
        let front = writable_of(interests, events.drop_last());
        if event.token == WAKE_TOKEN {
            front
        } else {
            let interest = interests[event.token];
            front + ready_by(event, interest, EVFILT_WRITE, interest.write)
        }
    }
}

/// Whether the waking descriptor is among the events.
pub open spec fn wake_of(events: Seq<Kevent>) -> bool {
    exists|i: int| 0 <= i < events.len() && (#[trigger] events[i]).token == WAKE_TOKEN
}

/// Whether the wake-ups have to be drained before the events are read.
pub fn needs_drain(events: &[Kevent]) -> (drain: bool)
    ensures
        drain == wake_of(events@),
{
    let mut i: usize = 0;
    while i < events.len()
        invariant
            i <= events.len(),
            forall|k: int| 0 <= k < i ==> (#[trigger] events@[k]).token != WAKE_TOKEN,
        decreases events.len() - i,
    {
        if events[i].token == WAKE_TOKEN {
            assert(events@[i as int].token == WAKE_TOKEN);
            return true;
        }
        i = i + 1;
    }
    false
}

fn push_ready(fds: &mut Vec<i32>, event: Kevent, interest: FdInterest, filter: i16, wanted: bool)
    ensures
        final(fds)@ == old(fds)@ + ready_by(event, interest, filter, wanted),
{
    if wanted && event.filter == filter {
        fds.push(interest.fd);
    }
    if wanted && event.flags & (EV_ERROR | EV_EOF) != 0 {
        fds.push(interest.fd);
    }
    assert(fds@ =~= old(fds)@ + ready_by(event, interest, filter, wanted));
}

/// Reads the events of a wait. `drained` tells whether draining found a wake-up.
pub fn decode_events(registry: &KqueueRegistry, events: &[Kevent], drained: bool) -> (event: OsEvent)
    requires
        forall|i: int|
            0 <= i < events@.len() && (#[trigger] events@[i]).token != WAKE_TOKEN
                ==> registry.interests@.contains_key(events@[i].token),
    ensures
        event.woke == (wake_of(events@) && drained),
        event.readable@ == readable_of(registry.interests@, events@),
        event.writable@ == writable_of(registry.interests@, events@),
{
    let woke = needs_drain(events) && drained;
    let mut readable: Vec<i32> = Vec::new();
    let mut writable: Vec<i32> = Vec::new();
    let ghost interests = registry.interests@;
    let mut i: usize = 0;
    assert(events@.take(0) =~= Seq::empty());
    while i < events.len()
        invariant
            i <= events.len(),
            interests == registry.interests@,
            readable@ == readable_of(interests, events@.take(i as int)),
            writable@ == writable_of(interests, events@.take(i as int)),
            forall|k: int|
                0 <= k < events@.len() && (#[trigger] events@[k]).token != WAKE_TOKEN
                    ==> interests.contains_key(events@[k].token),
        decreases events.len() - i,
    {
        assert(events@.take(i + 1).drop_last() =~= events@.take(i as int));
        let event = events[i];
        assert(event == events@[i as int]);
        if event.token != WAKE_TOKEN {
            match registry.get(event.token) {
                Some(interest) => {
                    push_ready(&mut readable, event, interest, EVFILT_READ, interest.read);
                    push_ready(&mut writable, event, interest, EVFILT_WRITE, interest.write);
                },
                None => {},
            }
        }
        i = i + 1;
    }
    assert(events@.take(i as int) =~= events@);
    OsEvent { woke, readable, writable }
}

/// An interest is registered by one change for reads and one for writes, each where it is
/// wanted, under the interest's token; and is taken back by as many changes, for the same
/// descriptor and the same directions.
pub proof fn interest_is_registered_by_direction(interest: FdInterest, token: u64, i: int)
    ensures
        ({
            let add = registration(interest, token);
            let delete = deregistration(interest);
            let n = (if interest.read {
                1int
            } else {
                0
            }) + (if interest.write {
                1int
            } else {
                0
            });
            &&& add.len() == n && delete.len() == n
            &&& 0 <= i < n ==> {
                &&& add[i].fd == interest.fd && delete[i].fd == interest.fd
                &&& add[i].token == token
                &&& add[i].flags == 5 && delete[i].flags == 2
                &&& add[i].filter == delete[i].filter
                &&& add[i].filter == -1 || add[i].filter == -2
            }
            &&& interest.read <==> exists|k: int| 0 <= k < n && (#[trigger] add[k]).filter == -1
            &&& interest.write <==> exists|k: int| 0 <= k < n && (#[trigger] add[k]).filter == -2
        }),
{
    assert(1u16 | 4u16 == 5u16) by (bit_vector);
    let add = registration(interest, token);
    if interest.read {
        assert(add[0].filter == -1);
    }
    if interest.write {
        assert(add[add.len() - 1].filter == -2);
    }
}

/// What is taken back for several interests is what is taken back for each, in order.
pub proof fn interests_are_taken_back_in_turn(first: Seq<FdInterest>, second: Seq<FdInterest>)
    ensures
        deregistrations(first + second) == deregistrations(first) + deregistrations(second),
        deregistrations(Seq::<FdInterest>::empty()) == Seq::<Kevent>::empty(),
        first.len() == 1 ==> deregistrations(first) == deregistration(first[0]),
    decreases second.len(),
{
    if first.len() == 1 {
        reveal_with_fuel(deregistrations, 2);
        assert(first.drop_last() =~= Seq::<FdInterest>::empty());
        assert(deregistrations(first) =~= deregistration(first[0]));
    }
    if second.len() == 0 {
        assert(first + second =~= first);
        assert(deregistrations(first) + deregistrations(second) =~= deregistrations(first));
    } else {
        assert((first + second).drop_last() =~= first + second.drop_last());
        assert((first + second).last() == second.last());
        interests_are_taken_back_in_turn(first, second.drop_last());
        assert(deregistrations(first + second) =~= deregistrations(first) + deregistrations(
            second,
        ));
    }
}

/// A descriptor is reported readable exactly where an event that is not the wake-up is
/// about it, reads were asked for, and the event is for reads or says that something went
/// wrong or ended.
pub proof fn readable_is_what_events_say(
    interests: Map<u64, FdInterest>,
    events: Seq<Kevent>,
    fd: i32,
)
    ensures
        readable_of(interests, events).contains(fd) <==> exists|i: int|
            0 <= i < events.len() && (#[trigger] events[i]).token != 0
                && interests[events[i].token].fd == fd && interests[events[i].token].read && (
            events[i].filter == -1 || events[i].flags & 0xc000 != 0),
    decreases events.len(),
{
    if events.len() > 0 {
        let front = events.drop_last();
        let last = events.len() - 1;
        readable_is_what_events_say(interests, front, fd);
        let event = events[last];
        assert(events.last() == event);
        let interest = interests[event.token];
        let before = readable_of(interests, front);
        let more = ready_by(event, interest, EVFILT_READ, interest.read);
        lemma_ready_by(event, interest, EVFILT_READ, interest.read, fd);
        lemma_contains_either(before, more, fd);
        if readable_of(interests, events).contains(fd) {
            if before.contains(fd) {
                let i = choose|i: int|
                    0 <= i < front.len() && (#[trigger] front[i]).token != 0
                        && interests[front[i].token].fd == fd && interests[front[i].token].read && (
                    front[i].filter == -1 || front[i].flags & 0xc000 != 0);
                assert(events[i] == front[i]);
            } else {
                assert(events[last].token != 0);
            }
        }
        if exists|i: int|
            0 <= i < events.len() && (#[trigger] events[i]).token != 0
                && interests[events[i].token].fd == fd && interests[events[i].token].read && (
            events[i].filter == -1 || events[i].flags & 0xc000 != 0) {
            let i = choose|i: int|
                0 <= i < events.len() && (#[trigger] events[i]).token != 0
                    && interests[events[i].token].fd == fd && interests[events[i].token].read && (
                events[i].filter == -1 || events[i].flags & 0xc000 != 0);
            if i < last {
                assert(front[i] == events[i]);
            }
        }
    }
}

/// A descriptor is reported writable exactly where an event that is not the wake-up is
/// about it, writes were asked for, and the event is for writes or says that something
/// went wrong or ended.
pub proof fn writable_is_what_events_say(
    interests: Map<u64, FdInterest>,
    events: Seq<Kevent>,
    fd: i32,
)
    ensures
        writable_of(interests, events).contains(fd) <==> exists|i: int|
            0 <= i < events.len() && (#[trigger] events[i]).token != 0
                && interests[events[i].token].fd == fd && interests[events[i].token].write && (
            events[i].filter == -2 || events[i].flags & 0xc000 != 0),
    decreases events.len(),
{
    if events.len() > 0 {
        let front = events.drop_last();
        let last = events.len() - 1;
        writable_is_what_events_say(interests, front, fd);
        let event = events[last];
        assert(events.last() == event);
        let interest = interests[event.token];
        let before = writable_of(interests, front);
        let more = ready_by(event, interest, EVFILT_WRITE, interest.write);
        lemma_ready_by(event, interest, EVFILT_WRITE, interest.write, fd);
        lemma_contains_either(before, more, fd);
        if writable_of(interests, events).contains(fd) {
            if before.contains(fd) {
                let i = choose|i: int|
                    0 <= i < front.len() && (#[trigger] front[i]).token != 0
                        && interests[front[i].token].fd == fd && interests[front[i].token].write
                        && (front[i].filter == -2 || front[i].flags & 0xc000 != 0);
                assert(events[i] == front[i]);
            } else {
                assert(events[last].token != 0);
            }
        }
        if exists|i: int|
            0 <= i < events.len() && (#[trigger] events[i]).token != 0
                && interests[events[i].token].fd == fd && interests[events[i].token].write && (
            events[i].filter == -2 || events[i].flags & 0xc000 != 0) {
            let i = choose|i: int|
                0 <= i < events.len() && (#[trigger] events[i]).token != 0
                    && interests[events[i].token].fd == fd && interests[events[i].token].write && (
                events[i].filter == -2 || events[i].flags & 0xc000 != 0);
            if i < last {
                assert(front[i] == events[i]);
            }
        }
    }
}

proof fn lemma_ready_by(event: Kevent, interest: FdInterest, filter: i16, wanted: bool, fd: i32)
    ensures
        ready_by(event, interest, filter, wanted).contains(fd) <==> wanted && interest.fd == fd && (
        event.filter == filter || event.flags & 0xc000 != 0),
{
    assert(0x4000u16 | 0x8000u16 == 0xc000u16) by (bit_vector);
    let list = ready_by(event, interest, filter, wanted);
    if wanted && (event.filter == filter || is_error(event)) {
        assert(list[0] == interest.fd);
    }
}

proof fn lemma_contains_either(a: Seq<i32>, b: Seq<i32>, fd: i32)
    ensures
        (a + b).contains(fd) <==> a.contains(fd) || b.contains(fd),
{
    let both = a + b;
    if a.contains(fd) {
        let i = choose|i: int| 0 <= i < a.len() && a[i] == fd;
        assert(both[i] == fd);
    }
    if b.contains(fd) {
        let i = choose|i: int| 0 <= i < b.len() && b[i] == fd;
        assert(both[a.len() + i] == fd);
    }
    if both.contains(fd) {
        let i = choose|i: int| 0 <= i < both.len() && both[i] == fd;
        if i < a.len() {
            assert(a[i] == fd);
        } else {
            assert(b[i - a.len()] == fd);
        }
    }
}

/// A wake-up has come exactly where an event is about it.
pub proof fn any_wake_up_event_counts(events: Seq<Kevent>)
    ensures
        wake_of(events) <==> events.map_values(|event: Kevent| event.token).contains(0),
{
    let tokens = events.map_values(|event: Kevent| event.token);
    if wake_of(events) {
        let i = choose|i: int| 0 <= i < events.len() && (#[trigger] events[i]).token == WAKE_TOKEN;
        assert(tokens[i] == 0);
    }
    if tokens.contains(0) {
        let i = choose|i: int| 0 <= i < tokens.len() && tokens[i] == 0;
        assert(events[i].token == WAKE_TOKEN);
    }
}

/// Each token stands for the interest it was given for; what was held under another token
/// stays.
pub proof fn tokens_stand_for_their_interests(
    held: Map<u64, FdInterest>,
    tokens: Seq<u64>,
    interests: Seq<FdInterest>,
    token: u64,
)
    requires
        tokens.len() <= interests.len(),
        tokens.no_duplicates(),
    ensures
        forall|i: int|
            0 <= i < tokens.len() ==> with_interests(held, tokens, interests).contains_key(
                #[trigger] tokens[i],
            ) && with_interests(held, tokens, interests)[tokens[i]] == interests[i],
        !tokens.contains(token) ==> (with_interests(held, tokens, interests).contains_key(token)
            <==> held.contains_key(token)) && (held.contains_key(token) ==> with_interests(
            held,
            tokens,
            interests,
        )[token] == held[token]),
    decreases tokens.len(),
{
    if tokens.len() > 0 {
        let front = tokens.drop_last();
        let last = tokens.len() - 1;
        assert forall|i: int, j: int| 0 <= i < front.len() && 0 <= j < front.len() && i
            != j implies front[i] != front[j] by {
            assert(tokens[i] != tokens[j]);
        }
        tokens_stand_for_their_interests(held, front, interests, token);
        assert forall|i: int| 0 <= i < tokens.len() implies with_interests(
            held,
            tokens,
            interests,
        ).contains_key(#[trigger] tokens[i]) && with_interests(held, tokens, interests)[tokens[i]]
            == interests[i] by {
            if i < last {
                assert(front[i] == tokens[i]);
                assert(tokens[i] != tokens[last]);
            }
        }
        if !tokens.contains(token) {
            assert(tokens[last] != token);
            if front.contains(token) {
                let i = choose|i: int| 0 <= i < front.len() && front[i] == token;
                assert(tokens[i] == token);
            }
        }
    }
}

/// Descriptors are reported in the order of the events about them: a later event moves none
/// of them, and adds its own once for its direction and once for an error or an end.
pub proof fn reports_come_in_the_order_of_events(
    interests: Map<u64, FdInterest>,
    events: Seq<Kevent>,
    event: Kevent,
)
    ensures
        readable_of(interests, events).is_prefix_of(readable_of(interests, events.push(event))),
        writable_of(interests, events).is_prefix_of(writable_of(interests, events.push(event))),
        event.token != 0 && interests[event.token].read ==> readable_of(
            interests,
            events.push(event),
        ).len() == readable_of(interests, events).len() + (if event.filter == -1 {
            1int
        } else {
            0
        }) + (if event.flags & 0xc000 != 0 {
            1int
        } else {
            0
        }),
        event.token != 0 && interests[event.token].write ==> writable_of(
            interests,
            events.push(event),
        ).len() == writable_of(interests, events).len() + (if event.filter == -2 {
            1int
        } else {
            0
        }) + (if event.flags & 0xc000 != 0 {
            1int
        } else {
            0
        }),
{
    assert(0x4000u16 | 0x8000u16 == 0xc000u16) by (bit_vector);
    assert(events.push(event).drop_last() =~= events);
    let read = readable_of(interests, events);
    let write = writable_of(interests, events);
    assert(readable_of(interests, events.push(event)).take(read.len() as int) =~= read);
    assert(writable_of(interests, events.push(event)).take(write.len() as int) =~= write);
}

} // verus!
