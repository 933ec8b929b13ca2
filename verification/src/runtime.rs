//! What sharded services share: configuration, mailboxes, replies and the set
//! of shards.
//!
//! A mailbox and a reply are plain values; a program puts each behind a lock and
//! waits outside, as the comments on the waiting operations say.

use std::collections::VecDeque;

use vstd::prelude::*;

use crate::error::ShardError;
use crate::shard::ShardId;

verus! {

/// Default number of pending commands each shard mailbox can hold.
pub const DEFAULT_MAILBOX_CAPACITY: usize = 1024;

/// Runtime shard configuration shared by sharded services.
#[derive(Debug, Clone, Copy, PartialEq, Eq, Structural)]
pub struct ShardConfig {
    /// Number of shard threads to start.
    pub shard_count: usize,
    /// Maximum pending commands per shard mailbox.
    pub mailbox_capacity: usize,
}

/// Whether a service can be started with this configuration, and otherwise why
/// not.
pub open spec fn validated(config: ShardConfig) -> Result<ShardConfig, ShardError> {
    if config.shard_count == 0 {
        Err(ShardError::InvalidShardCount)
    } else if config.mailbox_capacity == 0 {
        Err(ShardError::InvalidMailboxCapacity)
    } else {
        Ok(config)
    }
}

impl ShardConfig {
    /// Creates a config with the default bounded mailbox capacity.
    pub fn new(shard_count: usize) -> (config: Self)
        ensures
            config == (ShardConfig { shard_count, mailbox_capacity: DEFAULT_MAILBOX_CAPACITY }),
    {
        ShardConfig { shard_count, mailbox_capacity: DEFAULT_MAILBOX_CAPACITY }
    }

    /// Sets the bounded mailbox capacity per shard.
    pub fn with_mailbox_capacity(self, mailbox_capacity: usize) -> (config: Self)
        ensures
            config == (ShardConfig { mailbox_capacity, ..self }),
    {
        ShardConfig { mailbox_capacity, ..self }
    }

    /// Refuses a configuration without shards or without room in the mailboxes.
    pub fn validate(self) -> (result: Result<ShardConfig, ShardError>)
        ensures
            result == validated(self),
    {
        if self.shard_count == 0 {
            return Err(ShardError::InvalidShardCount);
        }
        if self.mailbox_capacity == 0 {
            return Err(ShardError::InvalidMailboxCapacity);
        }
        Ok(self)
    }
}

/// Owned snapshot of a running shard set's runtime shape.
#[must_use]
#[derive(Debug, Clone, Copy, PartialEq, Eq, Structural)]
pub struct RuntimeSnapshot {
    /// Number of shard threads in the service.
    pub shard_count: usize,
    /// Maximum pending commands per shard mailbox.
    pub mailbox_capacity: usize,
    /// Whether the service handle has begun shutdown.
    pub stopped: bool,
}

/// How far the exchange over a reply has come.
pub ghost enum ReplyState<T> {
    /// No reply is there, and one may still come.
    Pending,
    /// A reply is there.
    Delivered(T),
    /// No reply is there, and none will come.
    Disconnected,
}

/// A one-shot reply for an accepted shard command.
pub struct Reply<T> {
    /// The reply, where it came and was not taken.
    pub value: Option<T>,
    /// Whether the shard still holds the other end.
    pub sender_alive: bool,
}

/// What a finished wait for a reply returns.
pub open spec fn waited<T>(state: ReplyState<T>) -> Result<T, ShardError> {
    match state {
        ReplyState::Delivered(value) => Ok(value),
        ReplyState::Disconnected => Err(ShardError::ReplyFailed),
        ReplyState::Pending => Err(ShardError::ReplyTimeout),
    }
}

impl<T> Reply<T> {
    /// How far the exchange has come.
    pub open spec fn state(&self) -> ReplyState<T> {
        match self.value {
            Some(value) => ReplyState::Delivered(value),
            None => if self.sender_alive {
                ReplyState::Pending
            } else {
                ReplyState::Disconnected
            },
        }
    }

    /// A reply that has not come.
    pub fn new() -> (reply: Self)
        ensures
            reply == (Reply::<T> { value: None, sender_alive: true }),
    {
        Reply { value: None, sender_alive: true }
    }

    /// Whether a wait for the reply would be over.
    pub open spec fn settled(&self) -> bool {
        !(self.state() is Pending)
    }

    /// Whether a wait for the reply would be over.
    pub fn is_settled(&self) -> (settled: bool)
        ensures
            settled == self.settled(),
    {
        self.value.is_some() || !self.sender_alive
    }

    /// Notes the shard's reply. A second one is dropped while the first is there,
    /// and so is one from a sender that is gone.
    pub fn deliver(&mut self, value: T)
        ensures
            *final(self) == if old(self).state() is Pending {
                Reply { value: Some(value), ..*old(self) }
            } else {
                *old(self)
            },
    {
        if self.value.is_none() && self.sender_alive {
            self.value = Some(value);
        }
    }

    /// Notes that the shard dropped its end. A reply that came before stays.
    pub fn disconnect(&mut self)
        ensures
            *final(self) == (Reply { sender_alive: false, ..*old(self) }),
    {
        self.sender_alive = false;
    }

    /// Returns the reply, once the wait for it is over.
    pub fn wait(self) -> (result: Result<T, ShardError>)
        requires
            self.settled(),
        ensures
            result == waited(self.state()),
    {
        match self.value {
            Some(value) => Ok(value),
            None => Err(ShardError::ReplyFailed),
        }
    }

    /// Returns the reply, or a timeout where the time for it is over and it has
    /// not come.
    pub fn wait_timeout(self) -> (result: Result<T, ShardError>)
        ensures
            result == waited(self.state()),
    {
        match self.value {
            Some(value) => Ok(value),
            None => if self.sender_alive {
                Err(ShardError::ReplyTimeout)
            } else {
                Err(ShardError::ReplyFailed)
            },
        }
    }

    /// Looks for the reply once. Nothing where none is there but the shard still
    /// holds the other end; a reply is handed out once.
    pub fn try_wait(&mut self) -> (result: Result<Option<T>, ShardError>)
        ensures
            *final(self) == (Reply::<T> { value: None, ..*old(self) }),
            result == match old(self).state() {
                ReplyState::Pending => Ok::<Option<T>, ShardError>(None),
                ReplyState::Delivered(value) => Ok::<Option<T>, ShardError>(Some(value)),
                ReplyState::Disconnected => Err::<Option<T>, ShardError>(ShardError::ReplyFailed),
            },
    {
        match self.value.take() {
            Some(value) => Ok(Some(value)),
            None => if self.sender_alive {
                Ok(None)
            } else {
                Err(ShardError::ReplyFailed)
            },
        }
    }
}

/// A reply that was taken is not there again, and what the next look finds is up
/// to the sender: nothing yet while it lives, a failure once it is gone.
pub proof fn reply_is_taken_once<T>(before: Reply<T>, taken: Reply<T>)
    requires
        before.state() is Delivered,
        taken == (Reply::<T> { value: None, ..before }),
    ensures
        taken.state() is Pending <==> before.sender_alive,
        taken.state() is Disconnected <==> !before.sender_alive,
{
}

/// A bounded queue of commands for one shard.
pub struct ShardMailbox<C> {
    /// Commands not yet taken, oldest first.
    pub queue: VecDeque<C>,
    /// Number of commands it holds at most.
    pub capacity: usize,
    /// Whether the shard still takes commands.
    pub open: bool,
}

/// What a mailbox holds.
#[verifier::ext_equal]
pub struct MailboxView<C> {
    pub queue: Seq<C>,
    pub capacity: usize,
    pub open: bool,
}

impl<C> View for ShardMailbox<C> {
    type V = MailboxView<C>;

    open spec fn view(&self) -> MailboxView<C> {
        MailboxView { queue: self.queue@, capacity: self.capacity, open: self.open }
    }
}

impl<C> MailboxView<C> {
    /// Whether no command fits.
    pub open spec fn full(&self) -> bool {
        self.queue.len() >= self.capacity
    }

    /// The mailbox with one more command.
    pub open spec fn with(&self, command: C) -> MailboxView<C> {
        MailboxView { queue: self.queue.push(command), ..*self }
    }

    /// What a send that does not wait returns.
    pub open spec fn try_send_result(&self) -> Result<(), ShardError> {
        if !self.open {
            Err(ShardError::SendFailed)
        } else if self.full() {
            Err(ShardError::MailboxFull)
        } else {
            Ok(())
        }
    }
}

/// Creates an empty mailbox for `capacity` commands.
pub fn bounded_mailbox<C>(capacity: usize) -> (mailbox: ShardMailbox<C>)
    ensures
        mailbox@ == (MailboxView::<C> { queue: Seq::empty(), capacity, open: true }),
        mailbox.wf(),
{
    ShardMailbox { queue: VecDeque::new(), capacity, open: true }
}

impl<C> ShardMailbox<C> {
    /// No more commands than fit, and none in a closed mailbox.
    pub open spec fn wf(&self) -> bool {
        self@.queue.len() <= self@.capacity && (!self@.open ==> self@.queue.len() == 0)
    }

    /// Whether a send would have to wait for room.
    pub fn is_full(&self) -> (full: bool)
        ensures
            full == self@.full(),
    {
        self.queue.len() >= self.capacity
    }

    /// Sends a command, once there is room for it or the shard is gone.
    pub fn send(&mut self, command: C) -> (result: Result<(), ShardError>)
        requires
            old(self).wf(),
            old(self)@.open ==> !old(self)@.full(),
        ensures
            final(self).wf(),
            result == if old(self)@.open {
                Ok::<(), ShardError>(())
            } else {
                Err::<(), ShardError>(ShardError::SendFailed)
            },
            final(self)@ == if old(self)@.open {
                old(self)@.with(command)
            } else {
                old(self)@
            },
    {
        if self.open {
            self.queue.push_back(command);
            Ok(())
        } else {
            Err(ShardError::SendFailed)
        }
    }

    /// Sends a command whose loss means that the shard has stopped.
    pub fn send_stopped(&mut self, command: C) -> (result: Result<(), ShardError>)
        requires
            old(self).wf(),
            old(self)@.open ==> !old(self)@.full(),
        ensures
            final(self).wf(),
            result == if old(self)@.open {
                Ok::<(), ShardError>(())
            } else {
                Err::<(), ShardError>(ShardError::ShardStopped)
            },
            final(self)@ == if old(self)@.open {
                old(self)@.with(command)
            } else {
                old(self)@
            },
    {
        match self.send(command) {
            Ok(()) => Ok(()),
            Err(_) => Err(ShardError::ShardStopped),
        }
    }

    /// Sends a command without waiting for room.
    pub fn try_send(&mut self, command: C) -> (result: Result<(), ShardError>)
        requires
            old(self).wf(),
        ensures
            final(self).wf(),
            result == old(self)@.try_send_result(),
            final(self)@ == if result is Ok {
                old(self)@.with(command)
            } else {
                old(self)@
            },
    {
        if !self.open {
            return Err(ShardError::SendFailed);
        }
        if self.is_full() {
            return Err(ShardError::MailboxFull);
        }
        self.queue.push_back(command);
        Ok(())
    }

    /// Takes the oldest command.
    pub fn recv(&mut self) -> (command: Option<C>)
        requires
            old(self).wf(),
        ensures
            final(self).wf(),
            old(self)@.queue.len() == 0 ==> command is None && final(self)@ == old(self)@,
            old(self)@.queue.len() > 0 ==> command == Some(old(self)@.queue[0]) && final(self)@ == (
            MailboxView { queue: old(self)@.queue.drop_first(), ..old(self)@ }),
    {
        let command = self.queue.pop_front();
        assert(old(self)@.queue.len() > 0 ==> self@.queue =~= old(self)@.queue.drop_first());
        command
    }

    /// Closes the mailbox when its shard ends. Commands not taken are dropped.
    pub fn close(&mut self) -> (dropped: VecDeque<C>)
        ensures
            final(self).wf(),
            dropped@ == old(self)@.queue,
            final(self)@ == (MailboxView::<C> {
                queue: Seq::empty(),
                capacity: old(self)@.capacity,
                open: false,
            }),
    {
        let mut dropped: VecDeque<C> = VecDeque::new();
        core::mem::swap(&mut dropped, &mut self.queue);
        self.open = false;
        dropped
    }
}

/// The shards of a service. `H` is the handle of one shard.
pub struct ShardSet<H> {
    /// The handles, by shard.
    pub handles: Vec<H>,
    /// Capacity of each mailbox.
    pub mailbox_capacity: usize,
}

impl<H> ShardSet<H> {
    /// Number of shards.
    pub fn len(&self) -> (len: usize)
        ensures
            len == self.handles@.len(),
    {
        self.handles.len()
    }

    /// Capacity of each mailbox.
    pub fn mailbox_capacity(&self) -> (capacity: usize)
        ensures
            capacity == self.mailbox_capacity,
    {
        self.mailbox_capacity
    }

    /// The shape of the service.
    pub fn snapshot(&self, stopped: bool) -> (snapshot: RuntimeSnapshot)
        ensures
            snapshot.shard_count == self.handles@.len(),
            snapshot.mailbox_capacity == self.mailbox_capacity,
            snapshot.stopped == stopped,
    {
        RuntimeSnapshot {
            shard_count: self.len(),
            mailbox_capacity: self.mailbox_capacity,
            stopped,
        }
    }

    /// The shard at a position.
    pub fn get(&self, index: usize) -> (handle: Option<&H>)
        ensures
            handle is Some <==> index < self.handles@.len(),
            handle is Some ==> *handle->0 == self.handles@[index as int],
    {
        if index < self.handles.len() {
            Some(&self.handles[index])
        } else {
            None
        }
    }

    /// The shard with an identifier.
    pub fn get_by_id(&self, shard_id: ShardId) -> (handle: Result<&H, ShardError>)
        ensures
            handle is Ok <==> shard_id.0 < self.handles@.len(),
            handle matches Ok(h) ==> *h == self.handles@[shard_id.0 as int],
            handle matches Err(error) ==> error == ShardError::InvalidShardId(shard_id.0),
    {
        match self.get(shard_id.0) {
            Some(handle) => Ok(handle),
            None => Err(ShardError::InvalidShardId(shard_id.0)),
        }
    }
}

/// The last failure among results, if there is one.
pub open spec fn last_failure(results: Seq<Result<(), ShardError>>) -> Option<ShardError>
    decreases results.len(),
{
    if results.len() == 0 {
        None
    } else {
        match results.last() {
            Err(error) => Some(error),
            Ok(()) => last_failure(results.drop_last()),
        }
    }
}

/// The outcome of joining threads: a failure where any could not be joined.
pub fn join_all(joined: &[bool]) -> (result: Result<(), ShardError>)
    ensures
        result == if forall|i: int| 0 <= i < joined@.len() ==> #[trigger] joined@[i] {
            Ok::<(), ShardError>(())
        } else {
            Err::<(), ShardError>(ShardError::ThreadJoinFailed)
        },
{
    let mut i: usize = 0;
    let mut failed = false;
    while i < joined.len()
        invariant
            i <= joined.len(),
            failed == exists|k: int| 0 <= k < i && !(#[trigger] joined@[k]),
        decreases joined.len() - i,
    {
        if !joined[i] {
            failed = true;
            assert(!joined@[i as int]);
        }
        i = i + 1;
    }
    if failed {
        Err(ShardError::ThreadJoinFailed)
    } else {
        Ok(())
    }
}

/// The outcome of stopping every shard and joining the threads: the last failed
/// stop goes before what the join came to.
pub fn stop_and_join(stops: Vec<Result<(), ShardError>>, joined: Result<(), ShardError>) -> (result:
    Result<(), ShardError>)
    ensures
        result == match last_failure(stops@) {
            Some(error) => Err::<(), ShardError>(error),
            None => joined,
        },
{
    let ghost all = stops@;
    let mut failure: Option<ShardError> = None;
    assert(all.take(0) =~= Seq::empty());
    for stop in it: stops
        invariant
            it.seq() == all,
            failure == last_failure(all.take(it.index() as int)),
    {
        proof {
            assert(all.take(it.index() + 1).drop_last() =~= all.take(it.index() as int));
        }
        match stop {
            Err(error) => {
                failure = Some(error);
            },
            Ok(()) => {},
        }
    }
    assert(all.take(all.len() as int) =~= all);
    match failure {
        Some(error) => Err(error),
        None => joined,
    }
}

/// Commands come out of a mailbox in the order in which they went in: a send
/// leaves the commands ahead of it where they are.
pub proof fn mailbox_is_fifo<C>(mailbox: MailboxView<C>, command: C)
    requires
        mailbox.queue.len() > 0,
    ensures
        mailbox.with(command).queue[0] == mailbox.queue[0],
        mailbox.with(command).queue.drop_first() == mailbox.queue.drop_first().push(command),
{
    assert(mailbox.with(command).queue.drop_first() =~= mailbox.queue.drop_first().push(command));
}

/// A mailbox holds no more commands than its capacity, whatever is sent without
/// waiting.
pub proof fn mailbox_is_bounded<C>(mailbox: MailboxView<C>, command: C)
    requires
        mailbox.queue.len() <= mailbox.capacity,
        mailbox.try_send_result() is Ok,
    ensures
        mailbox.with(command).queue.len() <= mailbox.capacity,
{
}

/// A configuration is valid exactly where it asks for a shard and for room in the
/// mailboxes, and is then used as it is. Without a shard that is what is reported, even
/// where there is no room either.
pub proof fn valid_configuration_is_used_as_it_is(config: ShardConfig)
    ensures
        validated(config) is Ok <==> config.shard_count > 0 && config.mailbox_capacity > 0,
        validated(config) matches Ok(used) ==> used.shard_count == config.shard_count
            && used.mailbox_capacity == config.mailbox_capacity,
        config.shard_count == 0 ==> validated(config) == Err::<ShardConfig, ShardError>(
            ShardError::InvalidShardCount,
        ),
        config.shard_count > 0 && config.mailbox_capacity == 0 ==> validated(config) == Err::<
            ShardConfig,
            ShardError,
        >(ShardError::InvalidMailboxCapacity),
{
}

/// A reply that came is handed out as it came. One that has not come yet is a timeout;
/// one that cannot come any more, since its sender is gone, is a failed reply. The wait
/// for a reply is over in the first and the last case.
pub proof fn reply_is_handed_out_as_it_came<T>(reply: Reply<T>)
    ensures
        match reply.value {
            Some(value) => waited(reply.state()) == Ok::<T, ShardError>(value) && reply.settled(),
            None => if reply.sender_alive {
                waited(reply.state()) == Err::<T, ShardError>(ShardError::ReplyTimeout)
                    && !reply.settled()
            } else {
                waited(reply.state()) == Err::<T, ShardError>(ShardError::ReplyFailed)
                    && reply.settled()
            },
        },
{
}

/// A mailbox takes a command at once exactly where it is open and holds fewer than its
/// capacity; otherwise it says which of the two fails, the closing first. The command
/// stands last in it.
pub proof fn mailbox_takes_commands_up_to_its_capacity<C>(mailbox: MailboxView<C>, command: C)
    ensures
        mailbox.full() <==> mailbox.queue.len() >= mailbox.capacity,
        mailbox.try_send_result() is Ok <==> mailbox.open && mailbox.queue.len()
            < mailbox.capacity,
        !mailbox.open ==> mailbox.try_send_result() == Err::<(), ShardError>(
            ShardError::SendFailed,
        ),
        mailbox.open && mailbox.queue.len() >= mailbox.capacity ==> mailbox.try_send_result()
            == Err::<(), ShardError>(ShardError::MailboxFull),
        mailbox.with(command).queue.len() == mailbox.queue.len() + 1,
        mailbox.with(command).queue.last() == command,
        mailbox.with(command).queue.drop_last() == mailbox.queue,
        mailbox.with(command).capacity == mailbox.capacity,
        mailbox.with(command).open == mailbox.open,
{
    assert(mailbox.with(command).queue.drop_last() =~= mailbox.queue);
}

/// The failure that is reported of several is that of the last one that failed; there is
/// none exactly where all succeeded.
pub proof fn last_failure_is_reported(results: Seq<Result<(), ShardError>>)
    ensures
        match last_failure(results) {
            None => forall|i: int| 0 <= i < results.len() ==> (#[trigger] results[i]) is Ok,
            Some(error) => exists|i: int|
                0 <= i < results.len() && #[trigger] results[i] == Err::<(), ShardError>(error)
                    && forall|j: int| i < j < results.len() ==> (#[trigger] results[j]) is Ok,
        },
    decreases results.len(),
{
    if results.len() > 0 {
        let front = results.drop_last();
        let last = results.len() - 1;
        last_failure_is_reported(front);
        match results.last() {
            Err(error) => {
                assert(results[last] == Err::<(), ShardError>(error));
            },
            Ok(()) => {
                match last_failure(front) {
                    None => {
                        assert forall|i: int| 0 <= i < results.len() implies (
                        #[trigger] results[i]) is Ok by {
                            if i < last {
                                assert(front[i] is Ok);
                            }
                        }
                    },
                    Some(error) => {
                        let i = choose|i: int|
                            0 <= i < front.len() && #[trigger] front[i] == Err::<(), ShardError>(
                                error,
                            ) && forall|j: int| i < j < front.len() ==> (#[trigger] front[j]) is Ok;
                        assert(results[i] == front[i]);
                        assert forall|j: int| i < j < results.len() implies (
                        #[trigger] results[j]) is Ok by {
                            if j < last {
                                assert(front[j] is Ok);
                            }
                        }
                    },
                }
            },
        }
    }
}

/// A mailbox shows its commands, oldest first, its capacity and whether it is open; where
/// no capacity is asked for it is 1024.
pub proof fn mailbox_shows_what_it_holds<C>(mailbox: ShardMailbox<C>)
    ensures
        mailbox@.queue == mailbox.queue@,
        mailbox@.capacity == mailbox.capacity,
        mailbox@.open == mailbox.open,
        DEFAULT_MAILBOX_CAPACITY == 1024,
{
}

} // verus!
