//! Readiness through `epoll`: which descriptors are registered, what has to
//! change before a wait, and what the reported events mean.

use std::collections::HashMap;

use vstd::prelude::*;
use vstd::seq_lib::lemma_seq_contains_after_push;
use vstd::std_specs::iter::IteratorSpec;

use crate::executor::io_interest::contains_fd;
use crate::os::event::OsEvent;
use crate::os::interest::{contains_interest, distinct_fds, watches, FdInterest};

verus! {

broadcast use vstd::std_specs::hash::group_hash_axioms;

/// Event bit: readable.
pub const EPOLLIN: u32 = 0x0001;

/// Event bit: writable.
pub const EPOLLOUT: u32 = 0x0004;

/// Event bit: error.
pub const EPOLLERR: u32 = 0x0008;

/// Event bit: hang-up.
pub const EPOLLHUP: u32 = 0x0010;

/// Token of the descriptor that wakes the reactor.
pub const WAKE_TOKEN: u64 = 0;

/// The event bits to register for an interest.
pub fn interest_events(interest: FdInterest) -> (events: u32)
    ensures
        events == (if interest.read {
            EPOLLIN as int
        } else {
            0
        }) + (if interest.write {
            EPOLLOUT as int
        } else {
            0
        }),
{
    match (interest.read, interest.write) {
        (true, true) => 5,
        (true, false) => EPOLLIN,
        (false, true) => EPOLLOUT,
        (false, false) => 0,
    }
}

/// A registered descriptor.
#[derive(Debug, Clone, Copy, PartialEq, Eq, Structural)]
pub struct EpollEntry {
    /// Token that its events carry.
    pub token: u64,
    /// What it is registered for.
    pub interest: FdInterest,
}

/// The descriptors registered with `epoll`, and the one that wakes the reactor.
pub struct EpollRegistry {
    /// Token of the next descriptor.
    pub next_token: u64,
    /// What the tokens stand for.
    pub by_token: HashMap<u64, FdInterest>,
    /// The tokens of the descriptors, beside the one that wakes the reactor.
    pub by_fd: HashMap<i32, u64>,
}

/// A change to make before an interest can be waited for.
#[derive(Debug, Clone, Copy, PartialEq, Eq, Structural)]
pub enum EpollChange {
    /// The descriptor is registered as wanted.
    Keep,
    /// The descriptor is registered for other directions.
    Modify {
        /// Its token.
        token: u64,
    },
    /// The descriptor is not registered.
    Add {
        /// Token to register it with.
        token: u64,
    },
}

/// One event that a wait reported.
#[derive(Debug, Clone, Copy, PartialEq, Eq, Structural)]
pub struct EpollEvent {
    /// Event bits.
    pub events: u32,
    /// Token of the descriptor.
    pub data: u64,
}

/// The registered descriptors that are still of interest.
pub open spec fn kept(
    registered: Map<i32, EpollEntry>,
    interests: Seq<FdInterest>,
) -> Map<i32, EpollEntry> {
    registered.restrict(Set::new(|fd: i32| watches(interests, fd)))
}

/// The change that an interest asks for.
pub open spec fn change_for(
    registered: Map<i32, EpollEntry>,
    next_token: u64,
    interest: FdInterest,
) -> EpollChange {
    if registered.contains_key(interest.fd) {
        if registered[interest.fd].interest == interest {
            EpollChange::Keep
        } else {
            EpollChange::Modify { token: registered[interest.fd].token }
        }
    } else {
        EpollChange::Add { token: next_token }
    }
}

/// Number of the first `n` interests whose descriptors are not registered.
pub open spec fn newcomers(
    registered: Map<i32, EpollEntry>,
    interests: Seq<FdInterest>,
    n: nat,
) -> nat
    decreases n,
{
    if n == 0 {
        0
    } else if registered.contains_key(interests[n - 1].fd) {
        newcomers(registered, interests, (n - 1) as nat)
    } else {
        newcomers(registered, interests, (n - 1) as nat) + 1
    }
}

/// The registered descriptors after the change was made.
pub open spec fn changed(
    registered: Map<i32, EpollEntry>,
    interest: FdInterest,
    change: EpollChange,
) -> Map<i32, EpollEntry> {
    match change {
        EpollChange::Keep => registered,
        EpollChange::Modify { token } => registered.insert(
            interest.fd,
            EpollEntry { token, interest },
        ),
        EpollChange::Add { token } => registered.insert(
            interest.fd,
            EpollEntry { token, interest },
        ),
    }
}

impl EpollRegistry {
    /// Descriptors and tokens stand for each other, and the tokens were handed
    /// out.
    pub open spec fn wf(&self) -> bool {
        &&& self.next_token >= 1
        &&& forall|fd: i32| #[trigger]
            self.by_fd@.contains_key(fd) ==> {
                let token = self.by_fd@[fd];
                &&& 1 <= token < self.next_token
                &&& self.by_token@.contains_key(token)
                &&& self.by_token@[token].fd == fd
            }
        &&& forall|token: u64| #[trigger]
            self.by_token@.contains_key(token) && token != WAKE_TOKEN ==> {
                let fd = self.by_token@[token].fd;
                &&& self.by_fd@.contains_key(fd)
                &&& self.by_fd@[fd] == token
            }
    }

    /// The registered descriptors.
    pub open spec fn registered(&self) -> Map<i32, EpollEntry> {
        Map::new(
            |fd: i32| self.by_fd@.contains_key(fd),
            |fd: i32|
                EpollEntry {
                    token: self.by_fd@[fd],
                    interest: self.by_token@[self.by_fd@[fd]],
                },
        )
    }

    /// The interest noted for the descriptor that wakes the reactor.
    pub open spec fn wake(&self) -> Option<FdInterest> {
        if self.by_token@.contains_key(WAKE_TOKEN) {
            Some(self.by_token@[WAKE_TOKEN])
        } else {
            None
        }
    }

    /// Nothing is registered.
    pub fn new() -> (registry: Self)
        ensures
            registry.wf(),
            registry.next_token == 1,
            registry.registered() == Map::<i32, EpollEntry>::empty(),
            registry.wake() is None,
    {
        let registry = EpollRegistry {
            next_token: 1,
            by_token: HashMap::new(),
            by_fd: HashMap::new(),
        };
        assert(registry.registered() =~= Map::empty());
        registry
    }

    /// Notes the descriptor that wakes the reactor.
    pub fn insert_wake(&mut self, fd: i32)
        requires
            old(self).wf(),
        ensures
            final(self).wf(),
            final(self).next_token == old(self).next_token,
            final(self).registered() == old(self).registered(),
            final(self).wake() == Some(FdInterest { fd, read: true, write: false }),
    {
        let _ = self.by_token.insert(WAKE_TOKEN, FdInterest { fd, read: true, write: false });
        assert(self.registered() =~= old(self).registered());
    }

    /// The registered descriptors, in no particular order.
    pub fn interest_fds(&self) -> (fds: Vec<i32>)
        ensures
            fds@.no_duplicates(),
            forall|fd: i32| #[trigger] fds@.contains(fd) <==> self.registered().contains_key(fd),
    {
        let keys = self.by_fd.keys();
        let ghost all = keys.remaining();
        let mut fds: Vec<i32> = Vec::new();
        for fd in it: keys
            invariant
                it.seq() == all,
                fds@.len() == it.index(),
                forall|k: int| 0 <= k < fds@.len() ==> #[trigger] fds@[k] == *all[k],
        {
            fds.push(*fd);
        }
        proof {
            assert(fds@ =~= all.unref());
            assert forall|fd: i32| #[trigger] fds@.contains(fd)
                <==> self.registered().contains_key(fd) by {
                assert(all.unref().to_set().contains(fd) <==> self.by_fd@.contains_key(fd));
            }
            assert forall|i: int, j: int| 0 <= i < fds@.len() && 0 <= j < fds@.len() && i
                != j implies fds@[i] != fds@[j] by {
                assert(all[i] != all[j]);
            }
        }
        fds
    }

    /// Forgets a descriptor and returns what it was registered for.
    pub fn remove_fd(&mut self, fd: i32) -> (interest: Option<FdInterest>)
        requires
            old(self).wf(),
        ensures
            final(self).wf(),
            final(self).next_token == old(self).next_token,
            final(self).registered() == old(self).registered().remove(fd),
            final(self).wake() == old(self).wake(),
            interest is Some <==> old(self).registered().contains_key(fd),
            interest is Some ==> interest == Some(old(self).registered()[fd].interest),
    {
        match self.by_fd.remove(&fd) {
            None => {
                assert(self.registered() =~= old(self).registered().remove(fd));
                None
            },
            Some(token) => {
                let interest = self.by_token.remove(&token);
                proof {
                    assert(old(self).by_fd@.contains_key(fd));
                    assert(self.registered() =~= old(self).registered().remove(fd));
                    assert forall|token: u64| #[trigger] self.by_token@.contains_key(token)
                        && token != WAKE_TOKEN implies {
                        let fd = self.by_token@[token].fd;
                        &&& self.by_fd@.contains_key(fd)
                        &&& self.by_fd@[fd] == token
                    } by {
                        assert(old(self).by_token@.contains_key(token));
                    }
                }
                interest
            },
        }
    }

    /// Forgets the descriptors that are no longer of interest, and returns them
    /// so that they can be deleted, each once. Whether a deletion works does not
    /// matter.
    pub fn remove_stale(&mut self, interests: &[FdInterest]) -> (stale: Vec<i32>)
        requires
            old(self).wf(),
        ensures
            final(self).wf(),
            final(self).next_token == old(self).next_token,
            final(self).wake() == old(self).wake(),
            final(self).registered() == kept(old(self).registered(), interests@),
            stale@.no_duplicates(),
            forall|fd: i32|
                #[trigger] stale@.contains(fd) <==> old(self).registered().contains_key(fd)
                    && !watches(interests@, fd),
    {
        let fds = self.interest_fds();
        let ghost before = self.registered();
        let mut stale: Vec<i32> = Vec::new();
        let mut i: usize = 0;
        while i < fds.len()
            invariant
                i <= fds.len(),
                self.wf(),
                self.next_token == old(self).next_token,
                self.wake() == old(self).wake(),
                before == old(self).registered(),
                fds@.no_duplicates(),
                forall|fd: i32| #[trigger] fds@.contains(fd) <==> before.contains_key(fd),
                stale@.no_duplicates(),
                forall|fd: i32|
                    #[trigger] stale@.contains(fd) <==> fds@.take(i as int).contains(fd)
                        && !watches(interests@, fd),
                self.registered() == before.remove_keys(stale@.to_set()),
            decreases fds.len() - i,
        {
            let fd: i32 = fds[i];
            let ghost gone = stale@;
            proof {
                let seen = fds@.take(i as int);
                assert(fds@.contains(fd));
                if seen.contains(fd) {
                    let k = choose|k: int| 0 <= k < seen.len() && seen[k] == fd;
                    assert(fds@[k] == fds@[i as int]);
                }
                assert(!gone.contains(fd));
                assert forall|x: i32| #[trigger] fds@.take(i + 1).contains(x) <==> seen.contains(
                    x,
                ) || x == fd by {
                    let next = fds@.take(i + 1);
                    assert(next =~= seen.push(fd));
                    lemma_seq_contains_after_push(seen, fd, x);
                }
            }
            if !contains_interest(interests, fd) {
                let _ = self.remove_fd(fd);
                stale.push(fd);
                proof {
                    assert forall|x: i32| #[trigger] stale@.contains(x) <==> gone.contains(x) || x
                        == fd by {
                        lemma_seq_contains_after_push(gone, fd, x);
                    }
                    assert(stale@.to_set() =~= gone.to_set().insert(fd));
                    assert(self.registered() =~= before.remove_keys(stale@.to_set()));
                }
            }
            i = i + 1;
        }
        proof {
            assert(fds@.take(i as int) =~= fds@);
            assert(self.registered() =~= kept(before, interests@));
        }
        stale
    }

    /// The token of a descriptor.
    pub fn token_for_fd(&self, fd: i32) -> (token: Option<u64>)
        ensures
            token == if self.registered().contains_key(fd) {
                Some(self.registered()[fd].token)
            } else {
                None
            },
    {
        match self.by_fd.get(&fd) {
            Some(token) => Some(*token),
            None => None,
        }
    }

    /// The change that an interest asks for. A token for a new descriptor is
    /// spent whether or not its registration works.
    pub fn plan(&mut self, interest: FdInterest) -> (change: EpollChange)
        requires
            old(self).wf(),
            old(self).next_token < u64::MAX,
        ensures
            final(self).wf(),
            final(self).registered() == old(self).registered(),
            final(self).wake() == old(self).wake(),
            change == change_for(old(self).registered(), old(self).next_token, interest),
            final(self).next_token == if change is Add {
                (old(self).next_token + 1) as u64
            } else {
                old(self).next_token
            },
            change matches EpollChange::Add { token } ==> !final(self).by_token@.contains_key(token)
                && token < final(self).next_token && token >= 1,
    {
        match self.token_for_fd(interest.fd) {
            Some(token) => {
                assert(self.by_fd@.contains_key(interest.fd));
                match self.get(token) {
                    Some(noted) if noted == interest => EpollChange::Keep,
                    _ => EpollChange::Modify { token },
                }
            },
            None => {
                let token: u64 = self.next_token;
                proof {
                    if self.by_token@.contains_key(token) {
                        assert(self.by_fd@.contains_key(self.by_token@[token].fd));
                    }
                }
                self.next_token = token + 1;
                assert(self.registered() =~= old(self).registered());
                EpollChange::Add { token }
            },
        }
    }

    /// Notes that a planned change was made.
    pub fn commit(&mut self, interest: FdInterest, change: EpollChange)
        requires
            old(self).wf(),
            change matches EpollChange::Modify { token } ==> old(self).registered().contains_key(
                interest.fd,
            ) && old(self).registered()[interest.fd].token == token,
            change matches EpollChange::Add { token } ==> !old(self).registered().contains_key(
                interest.fd,
            ) && !old(self).by_token@.contains_key(token) && 1 <= token < old(self).next_token,
        ensures
            final(self).wf(),
            final(self).next_token == old(self).next_token,
            final(self).wake() == old(self).wake(),
            final(self).registered() == changed(old(self).registered(), interest, change),
    {
        match change {
            EpollChange::Keep => {},
            EpollChange::Modify { token } => {
                assert(self.by_fd@.contains_key(interest.fd));
                let _ = self.by_token.insert(token, interest);
                proof {
                    assert(self.by_fd@ =~= old(self).by_fd@.insert(interest.fd, token));
                    lemma_noted(old(self), self, token, interest);
                }
            },
            EpollChange::Add { token } => {
                let _ = self.by_fd.insert(interest.fd, token);
                let _ = self.by_token.insert(token, interest);
                proof {
                    lemma_noted(old(self), self, token, interest);
                }
            },
        }
    }

    /// The interest that a token stands for.
    pub fn get(&self, token: u64) -> (interest: Option<FdInterest>)
        ensures
            interest is Some <==> self.by_token@.contains_key(token),
            interest is Some ==> interest == Some(self.by_token@[token]),
    {
        match self.by_token.get(&token) {
            Some(interest) => Some(*interest),
            None => None,
        }
    }

    /// Makes the registry hold exactly the interests, where every change works.
    /// Returns the stale descriptors and, for each interest, the change made.
    pub fn reconcile(&mut self, interests: &[FdInterest]) -> (result: (Vec<i32>, Vec<EpollChange>))
        requires
            old(self).wf(),
            distinct_fds(interests@),
            old(self).next_token + interests@.len() <= u64::MAX,
        ensures
            final(self).wf(),
            final(self).wake() == old(self).wake(),
            result.0@.no_duplicates(),
            result.1@.len() == interests@.len(),
            forall|i: int|
                0 <= i < interests@.len() ==> #[trigger] result.1@[i] == change_for(
                    old(self).registered(),
                    (old(self).next_token + newcomers(
                        old(self).registered(),
                        interests@,
                        i as nat,
                    )) as u64,
                    interests@[i],
                ),
            forall|fd: i32|
                #[trigger] result.0@.contains(fd) <==> old(self).registered().contains_key(fd)
                    && !watches(interests@, fd),
            forall|fd: i32| #[trigger]
                final(self).registered().contains_key(fd) <==> watches(interests@, fd),
            forall|i: int|
                0 <= i < interests@.len() ==> final(self).registered()[(
                #[trigger] interests@[i]).fd].interest == interests@[i],
            forall|fd: i32|
                watches(interests@, fd) && old(self).registered().contains_key(fd)
                    ==> #[trigger] final(self).registered()[fd].token
                        == old(self).registered()[fd].token,
            forall|i: int|
                0 <= i < interests@.len() && (#[trigger] result.1@[i]) is Add
                    ==> final(self).registered()[interests@[i].fd].token
                    == result.1@[i]->Add_token,
            final(self).next_token == old(self).next_token + newcomers(
                old(self).registered(),
                interests@,
                interests@.len(),
            ),
    {
        let stale = self.remove_stale(interests);
        let ghost base = self.registered();
        let mut changes: Vec<EpollChange> = Vec::new();
        let mut i: usize = 0;
        while i < interests.len()
            invariant
                self.wf(),
                self.wake() == old(self).wake(),
                i <= interests.len(),
                changes.len() == i,
                distinct_fds(interests@),
                base == kept(old(self).registered(), interests@),
                self.next_token == old(self).next_token + newcomers(
                    old(self).registered(),
                    interests@,
                    i as nat,
                ),
                self.next_token <= old(self).next_token + i,
                forall|k: int|
                    0 <= k < i && (#[trigger] changes@[k]) is Add
                        ==> self.registered()[interests@[k].fd].token == changes@[k]->Add_token,
                old(self).next_token + interests@.len() <= u64::MAX,
                forall|fd: i32| #[trigger]
                    self.registered().contains_key(fd) ==> watches(interests@, fd),
                forall|fd: i32|
                    base.contains_key(fd) ==> #[trigger] self.registered().contains_key(fd)
                        && self.registered()[fd].token == base[fd].token,
                forall|k: int|
                    0 <= k < i ==> self.registered().contains_key((#[trigger] interests@[k]).fd)
                        && self.registered()[interests@[k].fd].interest == interests@[k],
                forall|k: int|
                    0 <= k < i ==> #[trigger] changes@[k] == change_for(
                        old(self).registered(),
                        (old(self).next_token + newcomers(
                            old(self).registered(),
                            interests@,
                            k as nat,
                        )) as u64,
                        interests@[k],
                    ),
                forall|k: int|
                    i <= k < interests@.len() ==> (self.registered().contains_key((
                    #[trigger] interests@[k]).fd) <==> base.contains_key(interests@[k].fd)) && (
                    base.contains_key(interests@[k].fd) ==> self.registered()[interests@[k].fd]
                        == base[interests@[k].fd]),
            decreases interests.len() - i,
        {
            let interest = interests[i];
            let ghost before = self.registered();
            assert(interests@[i as int].fd == interest.fd);
            assert(watches(interests@, interest.fd));
            let change = self.plan(interest);
            self.commit(interest, change);
            changes.push(change);
            proof {
                assert forall|k: int| 0 <= k < i + 1 implies self.registered().contains_key((
                #[trigger] interests@[k]).fd) && self.registered()[interests@[k].fd].interest
                    == interests@[k] by {
                    if k < i {
                        assert(interests@[k].fd != interests@[i as int].fd);
                    }
                }
                assert forall|k: int| 0 <= k < i + 1 && (
                #[trigger] changes@[k]) is Add implies self.registered()[interests@[k].fd].token
                    == changes@[k]->Add_token by {
                    if k < i {
                        assert(interests@[k].fd != interests@[i as int].fd);
                    }
                }
                assert forall|k: int| i + 1 <= k < interests@.len() implies (
                self.registered().contains_key((#[trigger] interests@[k]).fd)
                    <==> base.contains_key(interests@[k].fd)) && (base.contains_key(
                    interests@[k].fd,
                ) ==> self.registered()[interests@[k].fd] == base[interests@[k].fd]) by {
                    assert(interests@[i as int].fd != interests@[k].fd);
                }
            }
            i = i + 1;
        }
        proof {
            assert forall|fd: i32| watches(interests@, fd) implies #[trigger]
                self.registered().contains_key(fd) by {
                let k = choose|k: int|
                    0 <= k < interests@.len() && (#[trigger] interests@[k]).fd == fd;
                assert(self.registered().contains_key(interests@[k].fd));
            }
        }
        (stale, changes)
    }
}

/// Noting an interest under a token of its own keeps the invariant.
proof fn lemma_noted(
    before: &EpollRegistry,
    after: &EpollRegistry,
    token: u64,
    interest: FdInterest,
)
    requires
        before.wf(),
        1 <= token < before.next_token,
        after.next_token == before.next_token,
        after.by_fd@ == before.by_fd@.insert(interest.fd, token),
        after.by_token@ == before.by_token@.insert(token, interest),
        before.by_token@.contains_key(token) ==> before.by_token@[token].fd == interest.fd,
        before.by_fd@.contains_key(interest.fd) ==> before.by_fd@[interest.fd] == token,
    ensures
        after.wf(),
        after.wake() == before.wake(),
        after.registered() == before.registered().insert(
            interest.fd,
            EpollEntry { token, interest },
        ),
{
    assert forall|fd: i32| #[trigger] after.by_fd@.contains_key(fd) implies {
        let token = after.by_fd@[fd];
        &&& 1 <= token < after.next_token
        &&& after.by_token@.contains_key(token)
        &&& after.by_token@[token].fd == fd
    } by {
        if fd != interest.fd {
            assert(before.by_fd@.contains_key(fd));
        }
    }
    assert forall|t: u64| #[trigger] after.by_token@.contains_key(t) && t != WAKE_TOKEN implies {
        let fd = after.by_token@[t].fd;
        &&& after.by_fd@.contains_key(fd)
        &&& after.by_fd@[fd] == t
    } by {
        if t != token {
            assert(before.by_token@.contains_key(t));
        }
    }
    assert forall|fd: i32| #[trigger] before.by_fd@.contains_key(fd) && fd
        != interest.fd implies before.by_fd@[fd] != token by {
        if before.by_fd@[fd] == token {
            assert(before.by_token@[token].fd == fd);
        }
    }
    assert(after.registered() =~= before.registered().insert(
        interest.fd,
        EpollEntry { token, interest },
    ));
}

/// Whether the event says that the reactor was woken.
pub open spec fn is_wake(event: EpollEvent) -> bool {
    event.data == WAKE_TOKEN && event.events & EPOLLIN != 0
}

/// `fds` with `fd`, once.
pub open spec fn with_unique(fds: Seq<i32>, fd: i32) -> Seq<i32> {
    if fds.contains(fd) {
        fds
    } else {
        fds.push(fd)
    }
}

/// The descriptors found readable after one more event.
pub open spec fn readable_after(
    fds: Seq<i32>,
    interests: Map<u64, FdInterest>,
    event: EpollEvent,
) -> Seq<i32> {
    let interest = interests[event.data];
    if event.data != WAKE_TOKEN && interest.read && event.events & 0x19 != 0 {
        with_unique(fds, interest.fd)
    } else {
        fds
    }
}

/// The descriptors found writable after one more event.
pub open spec fn writable_after(
    fds: Seq<i32>,
    interests: Map<u64, FdInterest>,
    event: EpollEvent,
) -> Seq<i32> {
    let interest = interests[event.data];
    if event.data != WAKE_TOKEN && interest.write && event.events & 0x1c != 0 {
        with_unique(fds, interest.fd)
    } else {
        fds
    }
}

/// The descriptors that events found readable.
pub open spec fn readable_of(interests: Map<u64, FdInterest>, events: Seq<EpollEvent>) -> Seq<i32>
    decreases events.len(),
{
    if events.len() == 0 {
        Seq::empty()
    } else {
        readable_after(readable_of(interests, events.drop_last()), interests, events.last())
    }
}

/// The descriptors that events found writable.
pub open spec fn writable_of(interests: Map<u64, FdInterest>, events: Seq<EpollEvent>) -> Seq<i32>
    decreases events.len(),
{
    if events.len() == 0 {
        Seq::empty()
    } else {
        writable_after(writable_of(interests, events.drop_last()), interests, events.last())
    }
}

/// Whether the last event of the waking descriptor says that the reactor was
/// woken.
pub open spec fn wake_of(events: Seq<EpollEvent>) -> bool
    decreases events.len(),
{
    if events.len() == 0 {
        false
    } else if events.last().data == WAKE_TOKEN {
        is_wake(events.last())
    } else {
        wake_of(events.drop_last())
    }
}

/// Whether the wake-ups have to be drained before the events are read.
pub fn needs_drain(events: &[EpollEvent]) -> (drain: bool)
    ensures
        drain == wake_of(events@),
{
    let mut drain = false;
    let mut i: usize = 0;
    assert(events@.take(0) =~= Seq::empty());
    while i < events.len()
        invariant
            i <= events.len(),
            drain == wake_of(events@.take(i as int)),
        decreases events.len() - i,
    {
        assert(events@.take(i + 1).drop_last() =~= events@.take(i as int));
        let event = events[i];
        if event.data == WAKE_TOKEN {
            drain = event.events & EPOLLIN != 0;
        }
        i = i + 1;
    }
    assert(events@.take(i as int) =~= events@);
    drain
}

/// Reads the events of a wait: a descriptor is readable or writable where that
/// was asked for and the event says so, or says that something went wrong.
/// `drained` tells whether draining found a wake-up.
pub fn decode_events(registry: &EpollRegistry, events: &[EpollEvent], drained: bool) -> (event:
    OsEvent)
    requires
        forall|i: int|
            0 <= i < events@.len() && (#[trigger] events@[i]).data != WAKE_TOKEN
                ==> registry.by_token@.contains_key(events@[i].data),
    ensures
        event.woke == (wake_of(events@) && drained),
        event.readable@ == readable_of(registry.by_token@, events@),
        event.writable@ == writable_of(registry.by_token@, events@),
{
    let woke = needs_drain(events) && drained;
    let mut readable: Vec<i32> = Vec::new();
    let mut writable: Vec<i32> = Vec::new();
    let ghost interests = registry.by_token@;
    let mut i: usize = 0;
    assert(events@.take(0) =~= Seq::empty());
    while i < events.len()
        invariant
            i <= events.len(),
            interests == registry.by_token@,
            readable@ == readable_of(interests, events@.take(i as int)),
            writable@ == writable_of(interests, events@.take(i as int)),
            forall|k: int|
                0 <= k < events@.len() && (#[trigger] events@[k]).data != WAKE_TOKEN
                    ==> interests.contains_key(events@[k].data),
        decreases events.len() - i,
    {
        assert(events@.take(i + 1).drop_last() =~= events@.take(i as int));
        let event = events[i];
        assert(event == events@[i as int]);
        if event.data != WAKE_TOKEN {
            match registry.get(event.data) {
                Some(interest) => {
                    if interest.read && event.events & 0x19 != 0 {
                        push_unique_fd(&mut readable, interest.fd);
                    }
                    if interest.write && event.events & 0x1c != 0 {
                        push_unique_fd(&mut writable, interest.fd);
                    }
                },
                None => {},
            }
        }
        i = i + 1;
    }
    assert(events@.take(i as int) =~= events@);
    OsEvent { woke, readable, writable }
}

/// Adds a descriptor, once.
pub fn push_unique_fd(fds: &mut Vec<i32>, fd: i32)
    ensures
        final(fds)@ == with_unique(old(fds)@, fd),
{
    if !contains_fd(fds.as_slice(), fd) {
        fds.push(fd);
    }
}

/// The bits that make a descriptor readable are those of input, error and
/// hang-up, and those that make it writable are output, error and hang-up.
pub proof fn ready_bits()
    ensures
        EPOLLIN | EPOLLERR | EPOLLHUP == 0x19,
        EPOLLOUT | EPOLLERR | EPOLLHUP == 0x1c,
{
    assert(0x0001u32 | 0x0008u32 | 0x0010u32 == 0x19u32) by (bit_vector);
    assert(0x0004u32 | 0x0008u32 | 0x0010u32 == 0x1cu32) by (bit_vector);
}

/// A descriptor is reported readable exactly where an event that is not the wake-up is
/// about it, reads were asked for, and the event has the bit of input, error or hang-up.
/// It is reported once.
pub proof fn readable_is_what_events_say(
    interests: Map<u64, FdInterest>,
    events: Seq<EpollEvent>,
    fd: i32,
)
    ensures
        readable_of(interests, events).contains(fd) <==> exists|i: int|
            0 <= i < events.len() && (#[trigger] events[i]).data != 0 && interests[events[i].data].fd
                == fd && interests[events[i].data].read && events[i].events & 0x19 != 0,
        readable_of(interests, events).no_duplicates(),
    decreases events.len(),
{
    if events.len() > 0 {
        let front = events.drop_last();
        let last = events.len() - 1;
        readable_is_what_events_say(interests, front, fd);
        let before = readable_of(interests, front);
        let event = events[last];
        let interest = interests[event.data];
        assert(events.last() == event);
        lemma_with_unique(before, interest.fd, fd);
        if readable_of(interests, events).contains(fd) {
            if before.contains(fd) {
                let i = choose|i: int|
                    0 <= i < front.len() && (#[trigger] front[i]).data != 0
                        && interests[front[i].data].fd == fd && interests[front[i].data].read
                        && front[i].events & 0x19 != 0;
                assert(events[i] == front[i]);
            } else {
                assert(events[last].data != 0);
            }
        }
        if exists|i: int|
            0 <= i < events.len() && (#[trigger] events[i]).data != 0 && interests[events[i].data].fd
                == fd && interests[events[i].data].read && events[i].events & 0x19 != 0 {
            let i = choose|i: int|
                0 <= i < events.len() && (#[trigger] events[i]).data != 0
                    && interests[events[i].data].fd == fd && interests[events[i].data].read
                    && events[i].events & 0x19 != 0;
            if i < last {
                assert(front[i] == events[i]);
            }
        }
    }
}

/// A descriptor is reported writable exactly where an event that is not the wake-up is
/// about it, writes were asked for, and the event has the bit of output, error or hang-up.
/// It is reported once.
pub proof fn writable_is_what_events_say(
    interests: Map<u64, FdInterest>,
    events: Seq<EpollEvent>,
    fd: i32,
)
    ensures
        writable_of(interests, events).contains(fd) <==> exists|i: int|
            0 <= i < events.len() && (#[trigger] events[i]).data != 0 && interests[events[i].data].fd
                == fd && interests[events[i].data].write && events[i].events & 0x1c != 0,
        writable_of(interests, events).no_duplicates(),
    decreases events.len(),
{
    if events.len() > 0 {
        let front = events.drop_last();
        let last = events.len() - 1;
        writable_is_what_events_say(interests, front, fd);
        let before = writable_of(interests, front);
        let event = events[last];
        let interest = interests[event.data];
        assert(events.last() == event);
        lemma_with_unique(before, interest.fd, fd);
        if writable_of(interests, events).contains(fd) {
            if before.contains(fd) {
                let i = choose|i: int|
                    0 <= i < front.len() && (#[trigger] front[i]).data != 0
                        && interests[front[i].data].fd == fd && interests[front[i].data].write
                        && front[i].events & 0x1c != 0;
                assert(events[i] == front[i]);
            } else {
                assert(events[last].data != 0);
            }
        }
        if exists|i: int|
            0 <= i < events.len() && (#[trigger] events[i]).data != 0 && interests[events[i].data].fd
                == fd && interests[events[i].data].write && events[i].events & 0x1c != 0 {
            let i = choose|i: int|
                0 <= i < events.len() && (#[trigger] events[i]).data != 0
                    && interests[events[i].data].fd == fd && interests[events[i].data].write
                    && events[i].events & 0x1c != 0;
            if i < last {
                assert(front[i] == events[i]);
            }
        }
    }
}

proof fn lemma_with_unique(fds: Seq<i32>, added: i32, fd: i32)
    ensures
        with_unique(fds, added).contains(fd) <==> fds.contains(fd) || fd == added,
        fds.no_duplicates() ==> with_unique(fds, added).no_duplicates(),
{
    let with = with_unique(fds, added);
    if !fds.contains(added) {
        assert(with[fds.len() as int] == added);
        if fds.contains(fd) {
            let i = choose|i: int| 0 <= i < fds.len() && fds[i] == fd;
            assert(with[i] == fd);
        }
        if with.contains(fd) && fd != added {
            let i = choose|i: int| 0 <= i < with.len() && with[i] == fd;
            assert(fds[i] == fd);
        }
    }
}

/// A descriptor is added to a list once, at its end, and nothing leaves the list.
pub proof fn descriptor_is_listed_once(fds: Seq<i32>, added: i32)
    ensures
        with_unique(fds, added).contains(added),
        fds.is_prefix_of(with_unique(fds, added)),
        fds.contains(added) ==> with_unique(fds, added) == fds,
        !fds.contains(added) ==> with_unique(fds, added).len() == fds.len() + 1,
{
    lemma_with_unique(fds, added, added);
}

/// A wake-up has come exactly where the last event about it has the bit of input.
pub proof fn last_wake_up_event_counts(events: Seq<EpollEvent>)
    ensures
        wake_of(events) <==> exists|i: int|
            0 <= i < events.len() && (#[trigger] events[i]).data == 0 && events[i].events & 1 != 0
                && forall|j: int| i < j < events.len() ==> (#[trigger] events[j]).data != 0,
    decreases events.len(),
{
    if events.len() > 0 {
        let front = events.drop_last();
        let last = events.len() - 1;
        last_wake_up_event_counts(front);
        if events[last].data != 0 {
            if wake_of(front) {
                let i = choose|i: int|
                    0 <= i < front.len() && (#[trigger] front[i]).data == 0 && front[i].events & 1
                        != 0 && forall|j: int|
                        i < j < front.len() ==> (#[trigger] front[j]).data != 0;
                assert(events[i] == front[i]);
                assert forall|j: int| i < j < events.len() implies (#[trigger] events[j]).data
                    != 0 by {
                    if j < last {
                        assert(front[j].data != 0);
                    }
                }
            }
            if exists|i: int|
                0 <= i < events.len() && (#[trigger] events[i]).data == 0 && events[i].events & 1
                    != 0 && forall|j: int|
                    i < j < events.len() ==> (#[trigger] events[j]).data != 0 {
                let i = choose|i: int|
                    0 <= i < events.len() && (#[trigger] events[i]).data == 0 && events[i].events
                        & 1 != 0 && forall|j: int|
                        i < j < events.len() ==> (#[trigger] events[j]).data != 0;
                assert(front[i] == events[i]);
                assert forall|j: int| i < j < front.len() implies (#[trigger] front[j]).data
                    != 0 by {
                    assert(events[j].data != 0);
                }
            }
        }
    }
}

/// A descriptor that is registered with the wanted interest is left as it is; one that is
/// registered with another interest keeps its token; one that is not registered gets the
/// next token. Afterwards it is registered with the wanted interest, and the others as
/// they were.
pub proof fn change_registers_the_wanted_interest(
    registered: Map<i32, EpollEntry>,
    next_token: u64,
    interest: FdInterest,
)
    ensures
        ({
            let change = change_for(registered, next_token, interest);
            let after = changed(registered, interest, change);
            let known = registered.contains_key(interest.fd);
            let before = registered[interest.fd];
            &&& change is Add <==> !known
            &&& change is Modify <==> known && before.interest != interest
            &&& change is Keep <==> known && before.interest == interest
            &&& change is Add ==> change->Add_token == next_token
            &&& change is Modify ==> change->Modify_token == before.token
            &&& after.contains_key(interest.fd) && after[interest.fd].interest == interest
            &&& known ==> after[interest.fd].token == before.token
            &&& !known ==> after[interest.fd].token == next_token
            &&& change is Keep ==> after == registered
            &&& forall|fd: i32|
                fd != interest.fd ==> (#[trigger] after.contains_key(fd) <==> registered.contains_key(
                    fd,
                )) && (registered.contains_key(fd) ==> after[fd] == registered[fd])
        }),
{
}

/// What stays registered when interests go are the descriptors that an interest is still
/// about, as they were.
pub proof fn registrations_without_an_interest_go(
    registered: Map<i32, EpollEntry>,
    interests: Seq<FdInterest>,
    fd: i32,
)
    ensures
        kept(registered, interests).contains_key(fd) <==> registered.contains_key(fd) && exists|
            i: int,
        |
            0 <= i < interests.len() && (#[trigger] interests[i]).fd == fd,
        kept(registered, interests).contains_key(fd) ==> kept(registered, interests)[fd]
            == registered[fd],
{
}

/// The newcomers are the interests in descriptors that are not registered.
pub proof fn newcomers_are_not_registered(
    registered: Map<i32, EpollEntry>,
    interests: Seq<FdInterest>,
    n: nat,
)
    requires
        n <= interests.len(),
    ensures
        newcomers(registered, interests, n) == interests.take(n as int).filter(
            |interest: FdInterest| !registered.contains_key(interest.fd),
        ).len(),
    decreases n,
{
    reveal(Seq::filter);
    if n > 0 {
        newcomers_are_not_registered(registered, interests, (n - 1) as nat);
        assert(interests.take(n as int).drop_last() =~= interests.take(n - 1));
        assert(interests.take(n as int).last() == interests[n - 1]);
    }
}

/// A registry holds for each descriptor its token and the interest under that token, and
/// apart from them the wake-up.
pub proof fn registry_finds_interests_by_token(registry: EpollRegistry, fd: i32)
    requires
        registry.wf(),
    ensures
        registry.registered().contains_key(fd) <==> registry.by_fd@.contains_key(fd),
        registry.registered().contains_key(fd) ==> {
            let entry = registry.registered()[fd];
            &&& entry.token == registry.by_fd@[fd]
            &&& registry.by_token@.contains_key(entry.token)
            &&& entry.interest == registry.by_token@[entry.token]
            &&& entry.interest.fd == fd
            &&& entry.token != 0
        },
        registry.wake() is Some <==> registry.by_token@.contains_key(0),
        registry.wake() matches Some(interest) ==> interest == registry.by_token@[0],
{
}

/// Descriptors are reported in the order of the first events about them: a later event
/// moves none of them and adds at most its own.
pub proof fn reports_come_in_the_order_of_events(
    interests: Map<u64, FdInterest>,
    events: Seq<EpollEvent>,
    event: EpollEvent,
)
    ensures
        readable_of(interests, events).is_prefix_of(readable_of(interests, events.push(event))),
        writable_of(interests, events).is_prefix_of(writable_of(interests, events.push(event))),
        readable_of(interests, events.push(event)).len() <= readable_of(interests, events).len() + 1,
        writable_of(interests, events.push(event)).len() <= writable_of(interests, events).len() + 1,
{
    assert(events.push(event).drop_last() =~= events);
}

} // verus!
