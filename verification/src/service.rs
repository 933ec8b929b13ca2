//! What runs a service on shards: a mailbox for each shard, the routing of
//! requests to them, and the collection of replies.

use std::collections::VecDeque;

use vstd::prelude::*;

use crate::error::ShardError;
use crate::runtime::{
    bounded_mailbox, validated, waited, MailboxView, Reply, ReplyState, RuntimeSnapshot,
    ShardConfig, ShardMailbox, ShardSet,
};
use crate::shard::ShardId;

verus! {

/// A command for a shard and where its reply goes.
pub struct Request<C, R> {
    /// The command.
    pub command: C,
    /// Where the reply goes.
    pub reply: R,
}

/// Access to one shard.
pub struct ShardHandle<C, R> {
    /// The shard.
    pub id: ShardId,
    /// Requests it has not taken.
    pub mailbox: ShardMailbox<Request<C, R>>,
}

/// The shards of a running service.
pub struct Service<C, R> {
    /// The shards, in order.
    pub shards: ShardSet<ShardHandle<C, R>>,
    /// Whether shutdown has begun.
    pub stopped: bool,
}

/// The sending of one request to each shard, in shard order.
pub struct Broadcast<C, R> {
    /// The requests not yet sent.
    pub requests: VecDeque<Request<C, R>>,
    /// The shard that the first of them goes to.
    pub next: usize,
}

/// The same command for each shard.
pub open spec fn to_all<C, R>(command: C, replies: Seq<R>) -> Seq<Request<C, R>> {
    Seq::new(replies.len(), |i: int| Request { command, reply: replies[i] })
}

/// Makes a command for each reply.
pub fn request_each<C, R, F: Fn() -> C>(make: F, replies: Vec<R>) -> (requests: Vec<Request<C, R>>)
    requires
        make.requires(()),
    ensures
        requests@.len() == replies@.len(),
        forall|i: int|
            0 <= i < requests@.len() ==> make.ensures((), (#[trigger] requests@[i]).command)
                && requests@[i].reply == replies@[i],
{
    let ghost all = replies@;
    let mut requests: Vec<Request<C, R>> = Vec::new();
    for reply in it: replies
        invariant
            it.seq() == all,
            all == replies@,
            make.requires(()),
            requests@.len() == it.index(),
            forall|i: int|
                0 <= i < requests@.len() ==> make.ensures((), (#[trigger] requests@[i]).command)
                    && requests@[i].reply == all[i],
    {
        requests.push(Request { command: make(), reply });
    }
    requests
}

/// What a service holds.
#[verifier::ext_equal]
pub struct ServiceView<C, R> {
    /// The mailboxes, by shard.
    pub mailboxes: Seq<MailboxView<Request<C, R>>>,
    /// Capacity of each mailbox.
    pub mailbox_capacity: usize,
    /// Whether shutdown has begun.
    pub stopped: bool,
}

/// The number of successes that results begin with.
pub open spec fn leading_successes(results: Seq<Result<(), ShardError>>) -> nat
    decreases results.len(),
{
    if results.len() == 0 || results[0] is Err {
        0
    } else {
        1 + leading_successes(results.drop_first())
    }
}

/// The first failure among results, or success.
pub open spec fn first_failure(results: Seq<Result<(), ShardError>>) -> Result<(), ShardError> {
    if leading_successes(results) < results.len() {
        results[leading_successes(results) as int]
    } else {
        Ok(())
    }
}

proof fn lemma_leading_successes(results: Seq<Result<(), ShardError>>, n: int)
    requires
        0 <= n <= results.len(),
        forall|i: int| 0 <= i < n ==> (#[trigger] results[i]) is Ok,
        n < results.len() ==> results[n] is Err,
    ensures
        leading_successes(results) == n,
    decreases n,
{
    if n > 0 {
        let rest = results.drop_first();
        assert forall|i: int| 0 <= i < n - 1 implies (#[trigger] rest[i]) is Ok by {
            assert(results[i + 1] is Ok);
        }
        assert(results[0] is Ok);
        lemma_leading_successes(rest, n - 1);
    }
}

impl<C, R> View for Service<C, R> {
    type V = ServiceView<C, R>;

    open spec fn view(&self) -> ServiceView<C, R> {
        ServiceView {
            mailboxes: Seq::new(
                self.shards.handles@.len(),
                |i: int| self.shards.handles@[i].mailbox@,
            ),
            mailbox_capacity: self.shards.mailbox_capacity,
            stopped: self.stopped,
        }
    }
}

impl<C, R> ServiceView<C, R> {
    /// The service with one more request in the mailbox of a shard.
    pub open spec fn sent(self, shard: int, request: Request<C, R>) -> Self {
        ServiceView {
            mailboxes: self.mailboxes.update(shard, self.mailboxes[shard].with(request)),
            ..self
        }
    }

    /// The service with one more request in each of the first `n` mailboxes.
    pub open spec fn sent_to_first(self, requests: Seq<Request<C, R>>, n: nat) -> Self {
        ServiceView {
            mailboxes: Seq::new(
                self.mailboxes.len(),
                |i: int|
                    if i < n {
                        self.mailboxes[i].with(requests[i])
                    } else {
                        self.mailboxes[i]
                    },
            ),
            ..self
        }
    }

    /// What a send to a mailbox returns, once there is room.
    pub open spec fn send_result(self, shard: int) -> Result<(), ShardError> {
        if self.mailboxes[shard].open {
            Ok(())
        } else {
            Err(ShardError::SendFailed)
        }
    }

    /// Whether a request to a shard is taken up, and otherwise why not, where
    /// `result` is what the mailbox says.
    pub open spec fn routed(self, shard: ShardId, result: Result<(), ShardError>) -> Result<
        (),
        ShardError,
    > {
        if self.stopped {
            Err(ShardError::ShardStopped)
        } else if shard.0 >= self.mailboxes.len() {
            Err(ShardError::InvalidShardId(shard.0))
        } else {
            result
        }
    }

    /// Whether a request to a shard does not have to wait for room.
    pub open spec fn ready(self, shard: int) -> bool {
        self.stopped || shard >= self.mailboxes.len() || !self.mailboxes[shard].open
            || !self.mailboxes[shard].full()
    }

    /// What a request to a shard comes to.
    pub open spec fn submits(
        self,
        shard: ShardId,
        request: Request<C, R>,
        result: Result<(), ShardError>,
        after: Self,
    ) -> bool {
        &&& result == self.routed(shard, self.send_result(shard.0 as int))
        &&& after == if result is Ok {
            self.sent(shard.0 as int, request)
        } else {
            self
        }
    }

    /// What a request to a shard comes to that does not wait for room.
    pub open spec fn try_submits(
        self,
        shard: ShardId,
        request: Request<C, R>,
        result: Result<(), ShardError>,
        after: Self,
    ) -> bool {
        &&& result == self.routed(shard, self.mailboxes[shard.0 as int].try_send_result())
        &&& after == if result is Ok {
            self.sent(shard.0 as int, request)
        } else {
            self
        }
    }

    /// What each mailbox says to a send that does not wait.
    pub open spec fn try_send_results(self) -> Seq<Result<(), ShardError>> {
        Seq::new(self.mailboxes.len(), |i: int| self.mailboxes[i].try_send_result())
    }

    /// What beginning to send a request to each shard comes to.
    pub open spec fn begins_broadcast(
        self,
        requests: Seq<Request<C, R>>,
        result: Result<Broadcast<C, R>, ShardError>,
    ) -> bool {
        if self.stopped {
            result == Err::<Broadcast<C, R>, ShardError>(ShardError::ShardStopped)
        } else {
            result matches Ok(broadcast) && broadcast.next == 0 && broadcast.requests@ == requests
        }
    }

    /// What requests to all shards come to: they are taken up in shard order
    /// until a mailbox refuses its own.
    pub open spec fn submits_all(
        self,
        requests: Seq<Request<C, R>>,
        results: Seq<Result<(), ShardError>>,
        result: Result<(), ShardError>,
        after: Self,
    ) -> bool {
        if self.stopped {
            result == Err::<(), ShardError>(ShardError::ShardStopped) && after == self
        } else {
            result == first_failure(results) && after == self.sent_to_first(
                requests,
                leading_successes(results),
            )
        }
    }
}

impl<C, R> Service<C, R> {
    /// There is a shard, each knows its place, and the mailboxes are bounded.
    pub open spec fn wf(&self) -> bool {
        &&& self.shards.handles@.len() > 0
        &&& self.shards.mailbox_capacity > 0
        &&& forall|i: int|
            0 <= i < self.shards.handles@.len() ==> {
                &&& (#[trigger] self.shards.handles@[i]).id.0 == i
                &&& self.shards.handles@[i].mailbox.wf()
                &&& self.shards.handles@[i].mailbox.capacity == self.shards.mailbox_capacity
            }
    }

    /// Starts a service with empty mailboxes.
    pub fn start(config: ShardConfig) -> (result: Result<Self, ShardError>)
        ensures
            validated(config) matches Err(error) ==> result == Err::<Self, ShardError>(error),
            validated(config) is Ok ==> result is Ok,
            result matches Ok(service) ==> service.wf() && service@ == (ServiceView::<C, R> {
                mailboxes: Seq::new(
                    config.shard_count as nat,
                    |i: int|
                        MailboxView {
                            queue: Seq::empty(),
                            capacity: config.mailbox_capacity,
                            open: true,
                        },
                ),
                mailbox_capacity: config.mailbox_capacity,
                stopped: false,
            }),
    {
        let config = match config.validate() {
            Ok(config) => config,
            Err(error) => {
                return Err(error);
            },
        };
        let mut handles: Vec<ShardHandle<C, R>> = Vec::new();
        let mut i: usize = 0;
        while i < config.shard_count
            invariant
                i <= config.shard_count,
                handles@.len() == i,
                forall|k: int|
                    0 <= k < i ==> {
                        &&& (#[trigger] handles@[k]).id.0 == k
                        &&& handles@[k].mailbox.wf()
                        &&& handles@[k].mailbox@ == (MailboxView::<Request<C, R>> {
                            queue: Seq::empty(),
                            capacity: config.mailbox_capacity,
                            open: true,
                        })
                    },
            decreases config.shard_count - i,
        {
            let mailbox = bounded_mailbox(config.mailbox_capacity);
            handles.push(ShardHandle { id: ShardId(i), mailbox });
            i = i + 1;
        }
        let service = Service {
            shards: ShardSet { handles, mailbox_capacity: config.mailbox_capacity },
            stopped: false,
        };
        proof {
            assert forall|k: int| 0 <= k < service.shards.handles@.len() implies {
                &&& (#[trigger] service.shards.handles@[k]).id.0 == k
                &&& service.shards.handles@[k].mailbox.wf()
                &&& service.shards.handles@[k].mailbox.capacity
                    == service.shards.mailbox_capacity
            } by {
                let mailbox = service.shards.handles@[k].mailbox;
                assert(mailbox@.capacity == config.mailbox_capacity);
            }
            assert(service@.mailboxes =~= Seq::new(
                config.shard_count as nat,
                |i: int|
                    MailboxView {
                        queue: Seq::empty(),
                        capacity: config.mailbox_capacity,
                        open: true,
                    },
            ));
        }
        Ok(service)
    }

    /// Number of shards.
    pub fn shard_count(&self) -> (count: usize)
        ensures
            count == self@.mailboxes.len(),
    {
        self.shards.len()
    }

    /// Capacity of each mailbox.
    pub fn mailbox_capacity(&self) -> (capacity: usize)
        ensures
            capacity == self@.mailbox_capacity,
    {
        self.shards.mailbox_capacity()
    }

    /// The shape of the service.
    pub fn runtime_snapshot(&self) -> (snapshot: RuntimeSnapshot)
        ensures
            snapshot.shard_count == self@.mailboxes.len(),
            snapshot.mailbox_capacity == self@.mailbox_capacity,
            snapshot.stopped == self@.stopped,
    {
        self.shards.snapshot(self.stopped)
    }

    /// Whether a request to a shard does not have to wait for room.
    pub fn is_ready(&self, shard: ShardId) -> (ready: bool)
        ensures
            ready == self@.ready(shard.0 as int),
    {
        if self.stopped {
            return true;
        }
        match self.shards.get(shard.0) {
            None => true,
            Some(handle) => !handle.mailbox.open || !handle.mailbox.is_full(),
        }
    }

    /// Refuses work after shutdown has begun.
    pub fn ensure_running(&self) -> (result: Result<(), ShardError>)
        ensures
            result == if self@.stopped {
                Err::<(), ShardError>(ShardError::ShardStopped)
            } else {
                Ok::<(), ShardError>(())
            },
    {
        if self.stopped {
            Err(ShardError::ShardStopped)
        } else {
            Ok(())
        }
    }

    proof fn lemma_sent(before: &Self, after: &Self, shard: int, request: Request<C, R>)
        requires
            0 <= shard < before.shards.handles@.len(),
            after.shards.handles@.len() == before.shards.handles@.len(),
            after.shards.mailbox_capacity == before.shards.mailbox_capacity,
            after.stopped == before.stopped,
            after.shards.handles@[shard].mailbox@ == before.shards.handles@[shard].mailbox@.with(
                request,
            ),
            forall|i: int|
                0 <= i < before.shards.handles@.len() && i != shard
                    ==> #[trigger] after.shards.handles@[i] == before.shards.handles@[i],
        ensures
            after@ == before@.sent(shard, request),
    {
        assert(after@.mailboxes =~= before@.sent(shard, request).mailboxes);
    }

    /// Sends a request to a shard, once there is room for it.
    pub fn submit(&mut self, shard: ShardId, request: Request<C, R>) -> (result: Result<
        (),
        ShardError,
    >)
        requires
            old(self).wf(),
            old(self)@.ready(shard.0 as int),
        ensures
            final(self).wf(),
            old(self)@.submits(shard, request, result, final(self)@),
    {
        match self.ensure_running() {
            Ok(()) => {},
            Err(error) => {
                return Err(error);
            },
        }
        match self.shards.get_by_id(shard) {
            Ok(_) => {},
            Err(error) => {
                return Err(error);
            },
        }
        let result = self.shards.handles[shard.0].mailbox.send(request);
        proof {
            if result is Ok {
                Self::lemma_sent(old(self), self, shard.0 as int, request);
            } else {
                assert(self@.mailboxes =~= old(self)@.mailboxes);
            }
        }
        result
    }

    /// Sends a request to a shard without waiting for room.
    pub fn try_submit(&mut self, shard: ShardId, request: Request<C, R>) -> (result: Result<
        (),
        ShardError,
    >)
        requires
            old(self).wf(),
        ensures
            final(self).wf(),
            old(self)@.try_submits(shard, request, result, final(self)@),
    {
        match self.ensure_running() {
            Ok(()) => {},
            Err(error) => {
                return Err(error);
            },
        }
        match self.shards.get_by_id(shard) {
            Ok(_) => {},
            Err(error) => {
                return Err(error);
            },
        }
        let result = self.shards.handles[shard.0].mailbox.try_send(request);
        proof {
            if result is Ok {
                Self::lemma_sent(old(self), self, shard.0 as int, request);
            } else {
                assert(self@.mailboxes =~= old(self)@.mailboxes);
            }
        }
        result
    }

    /// Begins to send one request to each shard, in shard order. Each is sent once
    /// its mailbox has room.
    pub fn submit_all(&self, requests: Vec<Request<C, R>>) -> (result: Result<
        Broadcast<C, R>,
        ShardError,
    >)
        requires
            requests@.len() == self@.mailboxes.len(),
        ensures
            self@.begins_broadcast(requests@, result),
    {
        match self.ensure_running() {
            Ok(()) => {},
            Err(error) => {
                return Err(error);
            },
        }
        let ghost all = requests@;
        let mut queue: VecDeque<Request<C, R>> = VecDeque::new();
        for request in it: requests
            invariant
                it.seq() == all,
                queue@ == all.take(it.index() as int),
        {
            queue.push_back(request);
            assert(queue@ =~= all.take(it.index() + 1));
        }
        assert(all.take(all.len() as int) =~= all);
        Ok(Broadcast { requests: queue, next: 0 })
    }

    /// Sends one request to each shard without waiting for room. Requests ahead of
    /// a refused one stay accepted.
    pub fn try_submit_all(&mut self, requests: Vec<Request<C, R>>) -> (result: Result<
        (),
        ShardError,
    >)
        requires
            old(self).wf(),
            requests@.len() == old(self)@.mailboxes.len(),
        ensures
            final(self).wf(),
            old(self)@.submits_all(requests@, old(self)@.try_send_results(), result, final(self)@),
    {
        match self.ensure_running() {
            Ok(()) => {},
            Err(error) => {
                return Err(error);
            },
        }
        let ghost before = self@;
        let ghost all = requests@;
        let ghost results = before.try_send_results();
        proof {
            assert(before.sent_to_first(all, 0).mailboxes =~= before.mailboxes);
        }
        let n: usize = requests.len();
        let mut i: usize = 0;
        for request in it: requests
            invariant
                it.seq() == all,
                n == all.len(),
                all.len() == before.mailboxes.len(),
                results == before.try_send_results(),
                !before.stopped,
                i == it.index(),
                i <= all.len(),
                self.wf(),
                self@ == before.sent_to_first(all, i as nat),
                before == old(self)@,
                all == requests@,
                forall|k: int| 0 <= k < i ==> (#[trigger] results[k]) is Ok,
        {
            proof {
                assert(self@.mailboxes[i as int] == before.mailboxes[i as int]);
            }
            let result = self.try_submit(ShardId(i), request);
            if result.is_err() {
                proof {
                    assert(results[i as int] == result);
                    lemma_leading_successes(results, i as int);
                }
                return result;
            }
            proof {
                assert(results[i as int] is Ok);
                assert(self@.mailboxes =~= before.sent_to_first(all, (i + 1) as nat).mailboxes);
            }
            i = i + 1;
        }
        proof {
            lemma_leading_successes(results, results.len() as int);
        }
        Ok(())
    }

    /// Begins shutdown. Says whether it had not begun before: then every shard is
    /// to be stopped.
    pub fn begin_shutdown(&mut self) -> (begun: bool)
        ensures
            begun == !old(self)@.stopped,
            final(self)@ == (ServiceView { stopped: true, ..old(self)@ }),
            old(self).wf() ==> final(self).wf(),
    {
        let begun = !self.stopped;
        self.stopped = true;
        assert(self@.mailboxes =~= old(self)@.mailboxes);
        begun
    }

    /// Sends the request to stop to a shard, once there is room for it.
    pub fn send_stop(&mut self, shard: ShardId, request: Request<C, R>) -> (result: Result<
        (),
        ShardError,
    >)
        requires
            old(self).wf(),
            shard.0 < old(self)@.mailboxes.len(),
            old(self)@.mailboxes[shard.0 as int].open
                ==> !old(self)@.mailboxes[shard.0 as int].full(),
        ensures
            final(self).wf(),
            result == if old(self)@.mailboxes[shard.0 as int].open {
                Ok::<(), ShardError>(())
            } else {
                Err::<(), ShardError>(ShardError::ShardStopped)
            },
            final(self)@ == if result is Ok {
                old(self)@.sent(shard.0 as int, request)
            } else {
                old(self)@
            },
    {
        let result = self.shards.handles[shard.0].mailbox.send_stopped(request);
        proof {
            if result is Ok {
                Self::lemma_sent(old(self), self, shard.0 as int, request);
            } else {
                assert(self@.mailboxes =~= old(self)@.mailboxes);
            }
        }
        result
    }

    /// Takes the oldest request to a shard.
    pub fn recv(&mut self, shard: ShardId) -> (request: Option<Request<C, R>>)
        requires
            old(self).wf(),
            shard.0 < old(self)@.mailboxes.len(),
        ensures
            final(self).wf(),
            ({
                let i = shard.0 as int;
                let mailbox = old(self)@.mailboxes[i];
                if mailbox.queue.len() == 0 {
                    request is None && final(self)@ == old(self)@
                } else {
                    request == Some(mailbox.queue[0]) && final(self)@ == (ServiceView {
                        mailboxes: old(self)@.mailboxes.update(
                            i,
                            MailboxView { queue: mailbox.queue.drop_first(), ..mailbox },
                        ),
                        ..old(self)@
                    })
                }
            }),
    {
        let request = self.shards.handles[shard.0].mailbox.recv();
        proof {
            let i = shard.0 as int;
            let mailbox = old(self)@.mailboxes[i];
            if mailbox.queue.len() == 0 {
                assert(self@.mailboxes =~= old(self)@.mailboxes);
            } else {
                assert(self@.mailboxes =~= old(self)@.mailboxes.update(
                    i,
                    MailboxView { queue: mailbox.queue.drop_first(), ..mailbox },
                ));
            }
        }
        request
    }

    /// Closes the mailbox of a shard that has ended and hands back the requests
    /// that it did not take.
    pub fn close(&mut self, shard: ShardId) -> (dropped: VecDeque<Request<C, R>>)
        requires
            old(self).wf(),
            shard.0 < old(self)@.mailboxes.len(),
        ensures
            final(self).wf(),
            dropped@ == old(self)@.mailboxes[shard.0 as int].queue,
            final(self)@ == (ServiceView {
                mailboxes: old(self)@.mailboxes.update(
                    shard.0 as int,
                    MailboxView {
                        queue: Seq::empty(),
                        capacity: old(self)@.mailbox_capacity,
                        open: false,
                    },
                ),
                ..old(self)@
            }),
    {
        let dropped = self.shards.handles[shard.0].mailbox.close();
        proof {
            assert(self@.mailboxes =~= old(self)@.mailboxes.update(
                shard.0 as int,
                MailboxView {
                    queue: Seq::empty(),
                    capacity: old(self)@.mailbox_capacity,
                    open: false,
                },
            ));
        }
        dropped
    }
}

/// A service accepts nothing after its shutdown has begun.
pub proof fn stopped_service_accepts_nothing<C, R>(
    service: ServiceView<C, R>,
    shard: ShardId,
    request: Request<C, R>,
    result: Result<(), ShardError>,
    after: ServiceView<C, R>,
)
    requires
        service.stopped,
        service.submits(shard, request, result, after) || service.try_submits(
            shard,
            request,
            result,
            after,
        ),
    ensures
        result == Err::<(), ShardError>(ShardError::ShardStopped),
        after == service,
{
}

/// A request to one shard leaves the mailboxes of the others as they are.
pub proof fn request_reaches_one_shard<C, R>(
    service: ServiceView<C, R>,
    shard: ShardId,
    request: Request<C, R>,
    result: Result<(), ShardError>,
    after: ServiceView<C, R>,
    other: int,
)
    requires
        service.submits(shard, request, result, after) || service.try_submits(
            shard,
            request,
            result,
            after,
        ),
        0 <= other < service.mailboxes.len(),
        other != shard.0,
    ensures
        after.mailboxes.len() == service.mailboxes.len(),
        after.mailboxes[other] == service.mailboxes[other],
{
}

impl<C, R> Broadcast<C, R> {
    /// Whether the requests left are those for the last shards of the service.
    pub open spec fn fits(&self, service: ServiceView<C, R>) -> bool {
        self.next + self.requests@.len() == service.mailboxes.len()
    }

    /// Whether the next request does not have to wait for room: where there is
    /// none left, or the mailbox takes it or is closed.
    pub open spec fn ready(&self, service: ServiceView<C, R>) -> bool {
        self.requests@.len() > 0 && service.mailboxes[self.next as int].open
            ==> !service.mailboxes[self.next as int].full()
    }

    /// Whether every request was sent.
    pub fn is_done(&self) -> (done: bool)
        ensures
            done == (self.requests@.len() == 0),
    {
        self.requests.len() == 0
    }

    /// Whether the next request does not have to wait for room.
    pub fn is_ready(&self, service: &Service<C, R>) -> (ready: bool)
        requires
            service.wf(),
            self.fits(service@),
        ensures
            ready == self.ready(service@),
    {
        if self.requests.len() == 0 {
            return true;
        }
        let handle = &service.shards.handles[self.next];
        !handle.mailbox.open || !handle.mailbox.is_full()
    }

    /// Sends the next request, once its mailbox has room. A closed mailbox ends the
    /// sending: the requests ahead stay accepted, the others are dropped.
    pub fn advance(&mut self, service: &mut Service<C, R>) -> (result: Result<(), ShardError>)
        requires
            old(service).wf(),
            old(self).fits(old(service)@),
            old(self).ready(old(service)@),
        ensures
            final(service).wf(),
            ({
                let i = old(self).next as int;
                let left = old(self).requests@;
                if left.len() == 0 {
                    &&& result is Ok
                    &&& final(service)@ == old(service)@
                    &&& final(self).requests@ == left
                    &&& final(self).next == i
                } else if old(service)@.mailboxes[i].open {
                    &&& result is Ok
                    &&& final(service)@ == old(service)@.sent(i, left[0])
                    &&& final(self).requests@ == left.drop_first()
                    &&& final(self).next == i + 1
                    &&& final(self).fits(final(service)@)
                } else {
                    &&& result == Err::<(), ShardError>(ShardError::SendFailed)
                    &&& final(service)@ == old(service)@
                    &&& final(self).requests@ == Seq::<Request<C, R>>::empty()
                    &&& final(self).next == i
                }
            }),
    {
        match self.requests.pop_front() {
            None => Ok(()),
            Some(request) => {
                let shard: usize = self.next;
                let shard_count: usize = service.shard_count();
                assert(shard < shard_count);
                let result = service.shards.handles[shard].mailbox.send(request);
                proof {
                    if result is Ok {
                        Service::lemma_sent(old(service), service, shard as int, request);
                    } else {
                        assert(service@.mailboxes =~= old(service)@.mailboxes);
                    }
                }
                match result {
                    Ok(()) => {
                        self.next = shard + 1;
                        Ok(())
                    },
                    Err(error) => {
                        self.requests.clear();
                        Err(error)
                    },
                }
            },
        }
    }
}

/// The service after the first `n` requests were sent in turn.
pub open spec fn sent_in_turn<C, R>(
    service: ServiceView<C, R>,
    requests: Seq<Request<C, R>>,
    n: nat,
) -> ServiceView<C, R>
    decreases n,
{
    if n == 0 {
        service
    } else {
        sent_in_turn(service, requests, (n - 1) as nat).sent(n - 1, requests[n - 1])
    }
}

/// Sending to each shard in turn puts into each mailbox its own request, behind
/// what it held.
pub proof fn broadcast_reaches_every_shard<C, R>(
    service: ServiceView<C, R>,
    requests: Seq<Request<C, R>>,
    n: nat,
)
    requires
        requests.len() == service.mailboxes.len(),
        n <= requests.len(),
    ensures
        sent_in_turn(service, requests, n) == service.sent_to_first(requests, n),
    decreases n,
{
    if n > 0 {
        broadcast_reaches_every_shard(service, requests, (n - 1) as nat);
    }
    assert(sent_in_turn(service, requests, n).mailboxes =~= service.sent_to_first(
        requests,
        n,
    ).mailboxes);
}

/// How far the exchanges over replies have come.
pub open spec fn states<T>(replies: Seq<Reply<T>>) -> Seq<ReplyState<T>> {
    replies.map_values(|reply: Reply<T>| reply.state())
}

/// How far the exchanges over the replies in pairs have come.
pub open spec fn keyed_states<K, T>(replies: Seq<(K, Reply<T>)>) -> Seq<ReplyState<T>> {
    replies.map_values(|pair: (K, Reply<T>)| pair.1.state())
}

/// The values of replies, or the failure of the first that has none.
pub open spec fn gathered<T>(states: Seq<ReplyState<T>>) -> Result<Seq<T>, ShardError>
    decreases states.len(),
{
    if states.len() == 0 {
        Ok(Seq::empty())
    } else {
        match gathered(states.drop_last()) {
            Err(error) => Err(error),
            Ok(values) => match waited(states.last()) {
                Ok(value) => Ok(values.push(value)),
                Err(error) => Err(error),
            },
        }
    }
}

/// Whether a wait for all replies in turn is over: none ahead of the first failed
/// one is pending.
pub open spec fn settles<T>(states: Seq<ReplyState<T>>) -> bool {
    forall|i: int|
        0 <= i < states.len() && (#[trigger] states[i]) is Pending ==> exists|j: int|
            0 <= j < i && (#[trigger] states[j]) is Disconnected
}

proof fn lemma_gathered_prefix<T>(states: Seq<ReplyState<T>>, n: int, error: ShardError)
    requires
        0 <= n <= states.len(),
        gathered(states.take(n)) == Err::<Seq<T>, ShardError>(error),
    ensures
        gathered(states) == Err::<Seq<T>, ShardError>(error),
    decreases states.len(),
{
    if n < states.len() {
        assert(states.drop_last().take(n) =~= states.take(n));
        lemma_gathered_prefix(states.drop_last(), n, error);
    } else {
        assert(states.take(n) =~= states);
    }
}

/// A wait for replies that is over does not end in a timeout.
pub proof fn settled_replies_do_not_time_out<T>(states: Seq<ReplyState<T>>)
    requires
        settles(states),
    ensures
        gathered(states) != Err::<Seq<T>, ShardError>(ShardError::ReplyTimeout),
    decreases states.len(),
{
    if states.len() > 0 {
        let rest = states.drop_last();
        assert(settles(rest)) by {
            assert forall|i: int| 0 <= i < rest.len()
                && (#[trigger] rest[i]) is Pending implies exists|
                j: int,
            | 0 <= j < i && (#[trigger] rest[j]) is Disconnected by {
                assert(states[i] is Pending);
                let j = choose|j: int| 0 <= j < i && (#[trigger] states[j]) is Disconnected;
                assert(rest[j] is Disconnected);
            }
        }
        settled_replies_do_not_time_out(rest);
        if states.last() is Pending {
            let last = states.len() - 1;
            assert(states[last] is Pending);
            let j = choose|j: int| 0 <= j < last && (#[trigger] states[j]) is Disconnected;
            failed_reply_fails_the_wait(rest, j);
        }
    }
}

/// One failed reply fails the wait for all.
pub proof fn failed_reply_fails_the_wait<T>(states: Seq<ReplyState<T>>, failed: int)
    requires
        0 <= failed < states.len(),
        !(states[failed] is Delivered),
    ensures
        gathered(states) is Err,
    decreases states.len(),
{
    if failed < states.len() - 1 {
        failed_reply_fails_the_wait(states.drop_last(), failed);
    }
}

/// Gathering replies that have all come gives their values in order.
pub proof fn delivered_replies_are_gathered<T>(values: Seq<T>)
    ensures
        gathered(values.map_values(|value: T| ReplyState::Delivered(value))) == Ok::<
            Seq<T>,
            ShardError,
        >(values),
    decreases values.len(),
{
    let states = values.map_values(|value: T| ReplyState::Delivered(value));
    if values.len() > 0 {
        delivered_replies_are_gathered(values.drop_last());
        assert(states.drop_last() =~= values.drop_last().map_values(
            |value: T| ReplyState::Delivered(value),
        ));
        assert(values.drop_last().push(values.last()) =~= values);
    } else {
        assert(values =~= Seq::empty());
    }
}

/// Takes the values of replies in order, up to the first failure. A reply that
/// has not come counts as timed out.
pub fn gather<T>(replies: Vec<Reply<T>>) -> (result: Result<Vec<T>, ShardError>)
    ensures
        match result {
            Ok(values) => gathered(states(replies@)) == Ok::<Seq<T>, ShardError>(values@),
            Err(error) => gathered(states(replies@)) == Err::<Seq<T>, ShardError>(error),
        },
{
    let ghost all = states(replies@);
    let ghost given = replies@;
    let mut values: Vec<T> = Vec::new();
    assert(all.take(0) =~= Seq::empty());
    for reply in it: replies
        invariant
            it.seq() == given,
            given == replies@,
            all == states(given),
            gathered(all.take(it.index() as int)) == Ok::<Seq<T>, ShardError>(values@),
    {
        let ghost i = it.index() as int;
        proof {
            assert(all.take(i + 1).drop_last() =~= all.take(i));
            assert(all.take(i + 1).last() == reply.state());
        }
        match reply.wait_timeout() {
            Ok(value) => {
                values.push(value);
            },
            Err(error) => {
                proof {
                    lemma_gathered_prefix(all, i + 1, error);
                }
                return Err(error);
            },
        }
    }
    assert(all.take(all.len() as int) =~= all);
    Ok(values)
}

/// Pairs of the same keys with other values.
pub open spec fn keyed<K, T, U>(pairs: Seq<(K, T)>, values: Seq<U>) -> Seq<(K, U)> {
    Seq::new(values.len(), |i: int| (pairs[i].0, values[i]))
}

/// Takes the values of replies in order, each with its key, up to the first
/// failure. A reply that has not come counts as timed out.
pub fn gather_keyed<K, T>(replies: Vec<(K, Reply<T>)>) -> (result: Result<
    Vec<(K, T)>,
    ShardError,
>)
    ensures
        match gathered(keyed_states(replies@)) {
            Ok(values) => result is Ok && result->Ok_0@ == keyed(replies@, values)
                && values.len() == replies@.len(),
            Err(error) => result == Err::<Vec<(K, T)>, ShardError>(error),
        },
{
    let ghost all = keyed_states(replies@);
    let ghost given = replies@;
    let ghost mut values: Seq<T> = Seq::empty();
    let mut pairs: Vec<(K, T)> = Vec::new();
    proof {
        assert(all.take(0) =~= Seq::empty());
        assert(pairs@ =~= keyed(given, values));
    }
    for pair in it: replies
        invariant
            it.seq() == given,
            given == replies@,
            all == keyed_states(given),
            values.len() == it.index(),
            gathered(all.take(it.index() as int)) == Ok::<Seq<T>, ShardError>(values),
            pairs@ == keyed(given, values),
    {
        let ghost i = it.index() as int;
        proof {
            assert(all.take(i + 1).drop_last() =~= all.take(i));
            assert(all.take(i + 1).last() == pair.1.state());
        }
        let (key, reply) = pair;
        match reply.wait_timeout() {
            Ok(value) => {
                pairs.push((key, value));
                proof {
                    values = values.push(value);
                    assert(pairs@ =~= keyed(given, values));
                }
            },
            Err(error) => {
                proof {
                    lemma_gathered_prefix(all, i + 1, error);
                }
                return Err(error);
            },
        }
    }
    assert(all.take(all.len() as int) =~= all);
    Ok(pairs)
}

/// The gathered replies are all the values, in the order of the replies, or the failure
/// of the first reply that brought no value: a timeout where it may still come, a failed
/// reply where it cannot.
pub proof fn gathers_all_or_the_first_failure<T>(states: Seq<ReplyState<T>>)
    ensures
        match gathered(states) {
            Ok(values) => {
                &&& values.len() == states.len()
                &&& forall|i: int|
                    0 <= i < states.len() ==> #[trigger] states[i] == ReplyState::Delivered(
                        values[i],
                    )
            },
            Err(error) => exists|i: int|
                0 <= i < states.len() && !(#[trigger] states[i] is Delivered) && (forall|j: int|
                    0 <= j < i ==> (#[trigger] states[j]) is Delivered) && (error
                    == if states[i] is Pending {
                    ShardError::ReplyTimeout
                } else {
                    ShardError::ReplyFailed
                }),
        },
    decreases states.len(),
{
    if states.len() > 0 {
        let front = states.drop_last();
        gathers_all_or_the_first_failure(front);
        assert forall|i: int| 0 <= i < front.len() implies #[trigger] states[i] == front[i] by {}
        match gathered(front) {
            Err(error) => {
                let i = choose|i: int|
                    0 <= i < front.len() && !(#[trigger] front[i] is Delivered) && (forall|j: int|
                        0 <= j < i ==> (#[trigger] front[j]) is Delivered) && (error
                        == if front[i] is Pending {
                        ShardError::ReplyTimeout
                    } else {
                        ShardError::ReplyFailed
                    });
                assert(states[i] == front[i]);
                assert forall|j: int| 0 <= j < i implies (#[trigger] states[j]) is Delivered by {
                    assert(front[j] is Delivered);
                }
            },
            Ok(values) => {
                assert forall|j: int| 0 <= j < front.len() implies (
                #[trigger] states[j]) is Delivered by {
                    assert(front[j] == ReplyState::Delivered(values[j]));
                }
                assert(states.last() == states[states.len() - 1]);
            },
        }
    }
}

/// Gathering looks at every reply, in order, and at nothing else of it than its value
/// and its sender: a value that came is delivered, one that has not come is pending
/// while its sender lives and lost when it does not.
pub proof fn replies_are_read_in_order<K, T>(replies: Seq<Reply<T>>, pairs: Seq<(K, Reply<T>)>)
    ensures
        states(replies).len() == replies.len(),
        forall|i: int|
            0 <= i < replies.len() ==> match #[trigger] states(replies)[i] {
                ReplyState::Delivered(value) => replies[i].value == Some(value),
                _ => replies[i].value is None,
            },
        forall|i: int|
            0 <= i < replies.len() ==> ((#[trigger] states(replies)[i]) is Pending
                <==> replies[i].value is None && replies[i].sender_alive),
        forall|i: int|
            0 <= i < replies.len() ==> ((#[trigger] states(replies)[i]) is Disconnected
                <==> replies[i].value is None && !replies[i].sender_alive),
        keyed_states(pairs) == states(pairs.map_values(|pair: (K, Reply<T>)| pair.1)),
{
    assert(keyed_states(pairs) =~= states(pairs.map_values(|pair: (K, Reply<T>)| pair.1)));
}

/// Each gathered value stays with the key under which it was asked for.
pub proof fn values_stay_with_their_keys<K, T, U>(pairs: Seq<(K, T)>, values: Seq<U>)
    requires
        pairs.len() == values.len(),
    ensures
        keyed(pairs, values).map_values(|pair: (K, U)| pair.0) == pairs.map_values(
            |pair: (K, T)| pair.0,
        ),
        keyed(pairs, values).map_values(|pair: (K, U)| pair.1) == values,
{
    assert(keyed(pairs, values).map_values(|pair: (K, U)| pair.0) =~= pairs.map_values(
        |pair: (K, T)| pair.0,
    ));
    assert(keyed(pairs, values).map_values(|pair: (K, U)| pair.1) =~= values);
}

/// A request that is accepted stands last in the mailbox of the shard it was sent to.
/// It is accepted where the service runs, the shard exists and its mailbox is open; to
/// be accepted at once it also needs room. What is refused leaves nothing behind, and
/// the refusal says why: the service was stopped, there is no such shard, the mailbox is
/// closed, or it is full.
pub proof fn submission_is_accepted_or_says_why<C, R>(
    service: ServiceView<C, R>,
    shard: ShardId,
    request: Request<C, R>,
    result: Result<(), ShardError>,
    after: ServiceView<C, R>,
    at_once: bool,
)
    requires
        at_once ==> service.try_submits(shard, request, result, after),
        !at_once ==> service.submits(shard, request, result, after),
    ensures
        ({
            let known = shard.0 < service.mailboxes.len();
            let mailbox = service.mailboxes[shard.0 as int];
            let room = mailbox.queue.len() < mailbox.capacity;
            &&& result is Ok <==> !service.stopped && known && mailbox.open && (at_once ==> room)
            &&& service.stopped ==> result == Err::<(), ShardError>(ShardError::ShardStopped)
            &&& !service.stopped && !known ==> result == Err::<(), ShardError>(
                ShardError::InvalidShardId(shard.0),
            )
            &&& !service.stopped && known && !mailbox.open ==> result == Err::<(), ShardError>(
                ShardError::SendFailed,
            )
            &&& !service.stopped && known && mailbox.open && at_once && !room ==> result == Err::<
                (),
                ShardError,
            >(ShardError::MailboxFull)
            &&& result is Err ==> after == service
            &&& result is Ok ==> {
                let filled = after.mailboxes[shard.0 as int];
                &&& filled.queue.len() == mailbox.queue.len() + 1
                &&& filled.queue.last() == request
                &&& filled.queue.drop_last() == mailbox.queue
                &&& filled.open == mailbox.open && filled.capacity == mailbox.capacity
                &&& after.stopped == service.stopped
                &&& after.mailbox_capacity == service.mailbox_capacity
                &&& after.mailboxes.len() == service.mailboxes.len()
            }
        }),
{
    if result is Ok {
        let mailbox = service.mailboxes[shard.0 as int];
        assert(after.mailboxes[shard.0 as int].queue.drop_last() =~= mailbox.queue);
    }
}

/// A request need not wait where the service would refuse it anyway or where the shard's
/// mailbox has room.
pub proof fn full_open_mailbox_makes_wait<C, R>(service: ServiceView<C, R>, shard: int)
    requires
        0 <= shard,
    ensures
        !service.ready(shard) <==> {
            &&& !service.stopped
            &&& shard < service.mailboxes.len()
            &&& service.mailboxes[shard].open
            &&& service.mailboxes[shard].queue.len() >= service.mailboxes[shard].capacity
        },
{
}

/// Sending stops at the first failure, which is the outcome; all before it were
/// successes.
pub proof fn first_failure_is_the_outcome(results: Seq<Result<(), ShardError>>)
    ensures
        ({
            let n = leading_successes(results) as int;
            &&& n <= results.len()
            &&& forall|i: int| 0 <= i < n ==> (#[trigger] results[i]) is Ok
            &&& n < results.len() ==> results[n] is Err && first_failure(results) == results[n]
            &&& n == results.len() ==> first_failure(results) is Ok
        }),
    decreases results.len(),
{
    if results.len() > 0 && results[0] is Ok {
        let rest = results.drop_first();
        first_failure_is_the_outcome(rest);
        let n = leading_successes(results) as int;
        assert forall|i: int| 0 <= i < n implies (#[trigger] results[i]) is Ok by {
            if i > 0 {
                assert(rest[i - 1] == results[i]);
            }
        }
    }
}

/// A request to all shards, sent at once, reaches the shards in order up to the first
/// that cannot take it, each with its own reply, and no shard from there on; a stopped
/// service takes none. It succeeds exactly where every mailbox is open and has room.
pub proof fn request_to_all_reaches_those_before_a_failure<C, R>(
    service: ServiceView<C, R>,
    command: C,
    replies: Seq<R>,
    result: Result<(), ShardError>,
    after: ServiceView<C, R>,
    i: int,
)
    requires
        replies.len() == service.mailboxes.len(),
        service.submits_all(to_all(command, replies), service.try_send_results(), result, after),
        0 <= i < service.mailboxes.len(),
    ensures
        service.stopped ==> result == Err::<(), ShardError>(ShardError::ShardStopped) && after
            == service,
        result is Ok <==> !service.stopped && forall|j: int|
            0 <= j < service.mailboxes.len() ==> (#[trigger] service.mailboxes[j]).open
                && service.mailboxes[j].queue.len() < service.mailboxes[j].capacity,
        after.mailboxes.len() == service.mailboxes.len(),
        !service.stopped && (forall|j: int|
            0 <= j <= i ==> (#[trigger] service.mailboxes[j]).open
                && service.mailboxes[j].queue.len() < service.mailboxes[j].capacity)
            ==> after.mailboxes[i].queue == service.mailboxes[i].queue.push(
            Request { command, reply: replies[i] },
        ) && after.mailboxes[i].open && after.mailboxes[i].capacity
            == service.mailboxes[i].capacity,
        (exists|j: int|
            0 <= j <= i && !((#[trigger] service.mailboxes[j]).open
                && service.mailboxes[j].queue.len() < service.mailboxes[j].capacity))
            ==> after.mailboxes[i] == service.mailboxes[i],
{
    let results = service.try_send_results();
    first_failure_is_the_outcome(results);
    let n = leading_successes(results) as int;
    assert forall|j: int| 0 <= j < results.len() implies (#[trigger] service.mailboxes[j].open
        && service.mailboxes[j].queue.len() < service.mailboxes[j].capacity) == results[j] is Ok by {
        assert(results[j] == service.mailboxes[j].try_send_result());
    }
    if !service.stopped {
        if exists|j: int|
            0 <= j <= i && !((#[trigger] service.mailboxes[j]).open
                && service.mailboxes[j].queue.len() < service.mailboxes[j].capacity) {
            let j = choose|j: int|
                0 <= j <= i && !((#[trigger] service.mailboxes[j]).open
                    && service.mailboxes[j].queue.len() < service.mailboxes[j].capacity);
            assert(results[j] is Err);
            assert(n <= j);
        } else if n <= i {
            assert(results[n] is Err);
            assert(!(service.mailboxes[n].open && service.mailboxes[n].queue.len()
                < service.mailboxes[n].capacity));
        }
        if n < results.len() {
            assert(!(service.mailboxes[n].open && service.mailboxes[n].queue.len()
                < service.mailboxes[n].capacity));
        }
    }
}

/// A broadcast begins with all its requests still to be sent, the first shard first,
/// where the service runs.
pub proof fn broadcast_begins_at_the_first_shard<C, R>(
    service: ServiceView<C, R>,
    command: C,
    replies: Seq<R>,
    result: Result<Broadcast<C, R>, ShardError>,
)
    requires
        replies.len() == service.mailboxes.len(),
        service.begins_broadcast(to_all(command, replies), result),
    ensures
        result is Ok <==> !service.stopped,
        result matches Err(error) ==> error == ShardError::ShardStopped,
        result matches Ok(broadcast) ==> broadcast.next == 0 && broadcast.requests@.len()
            == service.mailboxes.len() && broadcast.fits(service) && forall|i: int|
            0 <= i < replies.len() ==> (#[trigger] broadcast.requests@[i]).command == command
                && broadcast.requests@[i].reply == replies[i],
{
}

/// What is sent to a shard stands last in that shard's mailbox; the other mailboxes, and
/// what is ahead of it, stay as they were.
pub proof fn sent_request_stands_last<C, R>(
    service: ServiceView<C, R>,
    shard: int,
    request: Request<C, R>,
)
    requires
        0 <= shard < service.mailboxes.len(),
    ensures
        ({
            let sent = service.sent(shard, request);
            let before = service.mailboxes[shard];
            let after = sent.mailboxes[shard];
            &&& after.queue.len() == before.queue.len() + 1
            &&& after.queue.last() == request
            &&& after.queue.drop_last() == before.queue
            &&& after.open == before.open && after.capacity == before.capacity
            &&& sent.mailboxes.len() == service.mailboxes.len()
            &&& forall|j: int|
                0 <= j < service.mailboxes.len() && j != shard ==> #[trigger] sent.mailboxes[j]
                    == service.mailboxes[j]
            &&& sent.stopped == service.stopped && sent.mailbox_capacity
                == service.mailbox_capacity
        }),
{
    assert(service.sent(shard, request).mailboxes[shard].queue.drop_last()
        =~= service.mailboxes[shard].queue);
}

/// A broadcast waits exactly where its next request goes to an open mailbox without
/// room.
pub proof fn broadcast_waits_for_room<C, R>(
    broadcast: Broadcast<C, R>,
    service: ServiceView<C, R>,
)
    requires
        broadcast.fits(service),
    ensures
        !broadcast.ready(service) <==> {
            let mailbox = service.mailboxes[broadcast.next as int];
            &&& broadcast.next < service.mailboxes.len()
            &&& mailbox.open
            &&& mailbox.queue.len() >= mailbox.capacity
        },
{
}

/// A service shows the mailbox of every shard, by its number, and whether it was stopped.
pub proof fn service_shows_its_mailboxes<C, R>(service: Service<C, R>, shard: int)
    requires
        0 <= shard < service.shards.handles@.len(),
    ensures
        service@.mailboxes.len() == service.shards.handles@.len(),
        service@.mailboxes[shard] == service.shards.handles@[shard].mailbox@,
        service@.mailbox_capacity == service.shards.mailbox_capacity,
        service@.stopped == service.stopped,
{
}

} // verus!
