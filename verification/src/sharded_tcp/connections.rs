//! Connection limits and the decisions of an accept loop.

use vstd::prelude::*;

use crate::io_error::ErrorKind;
use crate::placement::{hashes_spread_over_all_shards, shard_for_hash_value, shard_of_hash};
use crate::shard::ShardId;
use crate::sharded_executor::placement::ShardedSpawnError;
use crate::sharded_tcp::events::ShardedTcpEvent;

verus! {

/// Number of open connections of each shard.
pub struct ConnectionCounts {
    /// The numbers, by shard.
    pub counts: Vec<usize>,
}

/// Counters without connections.
pub fn connection_counts(shard_count: usize) -> (counts: ConnectionCounts)
    ensures
        counts.counts@ == Seq::new(shard_count as nat, |i: int| 0usize),
{
    let mut counts: Vec<usize> = Vec::new();
    let mut i: usize = 0;
    while i < shard_count
        invariant
            i <= shard_count,
            counts@ == Seq::new(i as nat, |i: int| 0usize),
        decreases shard_count - i,
    {
        counts.push(0);
        i = i + 1;
        assert(counts@ =~= Seq::new(i as nat, |i: int| 0usize));
    }
    ConnectionCounts { counts }
}

/// The right to serve one connection on a shard.
#[derive(Debug)]
pub struct ConnectionPermit {
    /// The shard.
    pub shard_id: ShardId,
}

/// Whether a shard can take another connection.
pub open spec fn has_room(counts: Seq<usize>, shard_id: ShardId, limit: usize) -> bool {
    shard_id.0 < counts.len() && counts[shard_id.0 as int] < limit
}

/// The counters after a shard took a connection.
pub open spec fn taken(counts: Seq<usize>, shard_id: ShardId) -> Seq<usize> {
    counts.update(shard_id.0 as int, (counts[shard_id.0 as int] + 1) as usize)
}

/// The counters after a connection of a shard ended.
pub open spec fn given_back(counts: Seq<usize>, shard_id: ShardId) -> Seq<usize> {
    if shard_id.0 < counts.len() {
        counts.update(shard_id.0 as int, (counts[shard_id.0 as int] - 1) as usize)
    } else {
        counts
    }
}

impl ConnectionPermit {
    /// Counts a connection of a shard that is below its limit.
    pub fn try_acquire(counts: &mut ConnectionCounts, shard_id: ShardId, limit: usize) -> (permit:
        Option<ConnectionPermit>)
        ensures
            permit is Some <==> has_room(old(counts).counts@, shard_id, limit),
            permit matches Some(permit) ==> permit.shard_id == shard_id,
            final(counts).counts@ == if permit is Some {
                taken(old(counts).counts@, shard_id)
            } else {
                old(counts).counts@
            },
    {
        if shard_id.0 >= counts.counts.len() {
            return None;
        }
        let current: usize = counts.counts[shard_id.0];
        if current >= limit {
            return None;
        }
        counts.counts[shard_id.0] = current + 1;
        Some(ConnectionPermit { shard_id })
    }

    /// Gives the place back when the connection ends.
    pub fn release(self, counts: &mut ConnectionCounts)
        requires
            self.shard_id.0 < old(counts).counts@.len()
                ==> old(counts).counts@[self.shard_id.0 as int] > 0,
        ensures
            final(counts).counts@ == given_back(old(counts).counts@, self.shard_id),
    {
        if self.shard_id.0 < counts.counts.len() {
            let current: usize = counts.counts[self.shard_id.0];
            counts.counts[self.shard_id.0] = current - 1;
        }
    }
}

/// No shard goes over its limit.
pub open spec fn within_limit(counts: Seq<usize>, limit: usize) -> bool {
    forall|i: int| 0 <= i < counts.len() ==> #[trigger] counts[i] <= limit
}

/// Connections stay within the limit of their shard.
pub proof fn connections_stay_within_limit(counts: Seq<usize>, shard_id: ShardId, limit: usize)
    requires
        within_limit(counts, limit),
    ensures
        has_room(counts, shard_id, limit) ==> within_limit(taken(counts, shard_id), limit),
        (shard_id.0 < counts.len() ==> counts[shard_id.0 as int] > 0) ==> within_limit(
            given_back(counts, shard_id),
            limit,
        ),
{
}

/// A connection that ends makes room for another, and the counters are as before.
pub proof fn ended_connection_makes_room(counts: Seq<usize>, shard_id: ShardId, limit: usize)
    requires
        has_room(counts, shard_id, limit),
    ensures
        given_back(taken(counts, shard_id), shard_id) == counts,
        has_room(given_back(taken(counts, shard_id), shard_id), shard_id, limit),
{
    assert(given_back(taken(counts, shard_id), shard_id) =~= counts);
}

/// What happens to the connections of a server.
pub ghost enum ConnectionStep {
    /// A connection to a shard was accepted.
    Accepted(ShardId),
    /// A served connection of a shard ended.
    Ended(ShardId),
}

/// The counters after steps. A connection over the limit is not counted, and only
/// one that is served can end.
pub open spec fn counts_after(start: Seq<usize>, limit: usize, steps: Seq<ConnectionStep>) -> Seq<
    usize,
>
    decreases steps.len(),
{
    if steps.len() == 0 {
        start
    } else {
        let before = counts_after(start, limit, steps.drop_last());
        match steps.last() {
            ConnectionStep::Accepted(shard_id) => if has_room(before, shard_id, limit) {
                taken(before, shard_id)
            } else {
                before
            },
            ConnectionStep::Ended(shard_id) => if is_serving(before, shard_id) {
                given_back(before, shard_id)
            } else {
                before
            },
        }
    }
}

/// Whether a shard serves a connection.
pub open spec fn is_serving(counts: Seq<usize>, shard_id: ShardId) -> bool {
    shard_id.0 < counts.len() && counts[shard_id.0 as int] > 0
}

/// Number of connections of a shard that were taken in and did not end.
pub open spec fn served(
    start: Seq<usize>,
    limit: usize,
    steps: Seq<ConnectionStep>,
    shard_id: ShardId,
) -> int
    decreases steps.len(),
{
    if steps.len() == 0 {
        0
    } else {
        let before = counts_after(start, limit, steps.drop_last());
        let count = served(start, limit, steps.drop_last(), shard_id);
        match steps.last() {
            ConnectionStep::Accepted(to) => if to == shard_id && has_room(before, to, limit) {
                count + 1
            } else {
                count
            },
            ConnectionStep::Ended(of) => if of == shard_id && is_serving(before, of) {
                count - 1
            } else {
                count
            },
        }
    }
}

/// From counters without connections on, the counter of a shard is the number of
/// connections that it serves, and stays within the limit.
pub proof fn counters_count_served_connections(
    start: Seq<usize>,
    limit: usize,
    steps: Seq<ConnectionStep>,
    shard_id: ShardId,
)
    requires
        forall|i: int| 0 <= i < start.len() ==> #[trigger] start[i] == 0,
        shard_id.0 < start.len(),
    ensures
        counts_after(start, limit, steps).len() == start.len(),
        counts_after(start, limit, steps)[shard_id.0 as int] == served(
            start,
            limit,
            steps,
            shard_id,
        ),
        counts_after(start, limit, steps)[shard_id.0 as int] <= limit,
    decreases steps.len(),
{
    if steps.len() > 0 {
        counters_count_served_connections(start, limit, steps.drop_last(), shard_id);
    }
}

/// What an accept loop does with an accepted connection.
pub enum AcceptStep {
    /// Submit the handler to the shard; it holds the permit.
    Serve {
        /// The right to serve the connection, with its shard.
        permit: ConnectionPermit,
    },
    /// Drop the connection and record the event.
    Reject {
        /// The event.
        event: ShardedTcpEvent,
    },
}

/// What came of submitting a handler.
pub struct SubmitOutcome {
    /// The permit, held by the handler that was submitted.
    pub permit: Option<ConnectionPermit>,
    /// The event to record where the handler was refused.
    pub event: Option<ShardedTcpEvent>,
}

/// The decisions of one accept loop.
#[derive(Debug, Clone, Copy, PartialEq, Eq, Structural)]
pub struct AcceptLoop {
    /// The shard that owns the listener, or `None` where one loop accepts for all.
    pub shard_id: Option<ShardId>,
    /// Number of shards.
    pub shard_count: usize,
    /// Maximum concurrent connections per shard.
    pub limit: usize,
}

/// Routes a connection to a shard by the hash of its remote address.
pub fn hash_addr_to_shard(addr_hash: u64, shard_count: usize) -> (shard: ShardId)
    requires
        shard_count > 0,
    ensures
        shard == shard_of_hash(addr_hash, shard_count),
        shard.0 < shard_count,
{
    shard_for_hash_value(addr_hash, shard_count)
}

impl AcceptLoop {
    /// The shard of a connection: the one that owns the listener, or the one that
    /// the hash of the remote address names.
    pub open spec fn target(&self, addr_hash: u64) -> ShardId {
        match self.shard_id {
            Some(shard_id) => shard_id,
            None => shard_of_hash(addr_hash, self.shard_count),
        }
    }

    /// Decides on an accepted connection.
    pub fn accepted(&self, counts: &mut ConnectionCounts, addr_hash: u64) -> (step: AcceptStep)
        requires
            self.shard_count > 0,
        ensures
            if has_room(old(counts).counts@, self.target(addr_hash), self.limit) {
                &&& step is Serve
                &&& step->permit.shard_id == self.target(addr_hash)
                &&& final(counts).counts@ == taken(old(counts).counts@, self.target(addr_hash))
            } else {
                &&& step == (AcceptStep::Reject {
                    event: (ShardedTcpEvent::ConnectionLimitRejected {
                        shard_id: self.target(addr_hash),
                    }),
                })
                &&& final(counts).counts@ == old(counts).counts@
            },
            self.shard_id is None && step is Serve ==> step->permit.shard_id.0 as int == (
            addr_hash as usize) as int % self.shard_count as int,
            self.shard_id is Some && step is Serve ==> step->permit.shard_id == self.shard_id->0,
    {
        let target = match self.shard_id {
            Some(shard_id) => shard_id,
            None => hash_addr_to_shard(addr_hash, self.shard_count),
        };
        match ConnectionPermit::try_acquire(counts, target, self.limit) {
            Some(permit) => AcceptStep::Serve { permit },
            None => AcceptStep::Reject {
                event: ShardedTcpEvent::ConnectionLimitRejected { shard_id: target },
            },
        }
    }

    /// Goes on after a handler was submitted, or refused: then the connection's
    /// place is given back.
    pub fn submitted(
        &self,
        counts: &mut ConnectionCounts,
        permit: ConnectionPermit,
        result: Result<(), ShardedSpawnError>,
    ) -> (outcome: SubmitOutcome)
        requires
            permit.shard_id.0 < old(counts).counts@.len()
                ==> old(counts).counts@[permit.shard_id.0 as int] > 0,
        ensures
            match result {
                Ok(()) => {
                    &&& outcome.permit == Some(permit)
                    &&& outcome.event is None
                    &&& final(counts).counts@ == old(counts).counts@
                },
                Err(error) => {
                    &&& outcome.permit is None
                    &&& outcome.event == Some(
                        (ShardedTcpEvent::HandlerSubmitError { shard_id: permit.shard_id, error }),
                    )
                    &&& final(counts).counts@ == given_back(old(counts).counts@, permit.shard_id)
                },
            },
    {
        match result {
            Ok(()) => SubmitOutcome { permit: Some(permit), event: None },
            Err(error) => {
                let shard_id = permit.shard_id;
                permit.release(counts);
                SubmitOutcome {
                    permit: None,
                    event: Some(ShardedTcpEvent::HandlerSubmitError { shard_id, error }),
                }
            },
        }
    }

    /// The event that ends the loop after an accept failed.
    pub fn failed(&self, kind: ErrorKind) -> (event: ShardedTcpEvent)
        ensures
            event == (ShardedTcpEvent::AcceptError { shard_id: self.shard_id, kind }),
    {
        ShardedTcpEvent::AcceptError { shard_id: self.shard_id, kind }
    }
}

/// A loop that accepts for all shards sends every connection to one of them.
pub proof fn single_accept_routes_to_a_shard(accept: AcceptLoop, addr_hash: u64)
    requires
        accept.shard_count > 0,
        accept.shard_id is None,
    ensures
        accept.target(addr_hash).0 < accept.shard_count,
{
}

/// A listener of one shard keeps its connections on that shard. A single listener for
/// all shards sends a connection to the shard that is the remainder of its address
/// hash among the shards: so every shard is the target of some address hash, and
/// connections of one remainder stay together.
pub proof fn single_accept_spreads_by_hash(accept: AcceptLoop, addr_hash: u64, other: u64)
    requires
        accept.shard_count > 0,
    ensures
        accept.shard_id matches Some(shard_id) ==> accept.target(addr_hash) == shard_id,
        accept.shard_id is None ==> {
            let n = accept.shard_count as int;
            &&& accept.target(addr_hash).0 as int == (addr_hash as usize) as int % n
            &&& forall|shard: usize|
                shard < accept.shard_count ==> (#[trigger] accept.target(shard as u64)).0 == shard
            &&& accept.target(addr_hash) == accept.target(other) <==> (addr_hash as usize) as int
                % n == (other as usize) as int % n
        },
{
    hashes_spread_over_all_shards(addr_hash, other, accept.shard_count);
    if accept.shard_id is None {
        assert forall|shard: usize| shard < accept.shard_count implies (#[trigger] accept.target(
            shard as u64,
        )).0 == shard by {
            hashes_spread_over_all_shards(shard as u64, other, accept.shard_count);
            vstd::arithmetic::div_mod::lemma_small_mod(
                shard as nat,
                accept.shard_count as nat,
            );
        }
    }
}

/// A connection that is served takes one place on its own shard and none on another;
/// when it ends, that one place is free again. Without a free place, or without such
/// a shard, there is no room.
pub proof fn connection_takes_one_place(counts: Seq<usize>, shard_id: ShardId, limit: usize)
    ensures
        shard_id.0 >= counts.len() ==> !has_room(counts, shard_id, limit) && given_back(
            counts,
            shard_id,
        ) == counts,
        shard_id.0 < counts.len() ==> {
            let n = counts[shard_id.0 as int];
            &&& n < limit ==> has_room(counts, shard_id, limit)
            &&& n >= limit ==> !has_room(counts, shard_id, limit)
            &&& n < usize::MAX ==> taken(counts, shard_id)[shard_id.0 as int] == n + 1
            &&& n > 0 ==> given_back(counts, shard_id)[shard_id.0 as int] == n - 1
            &&& taken(counts, shard_id).len() == counts.len()
            &&& given_back(counts, shard_id).len() == counts.len()
            &&& forall|other: int|
                0 <= other < counts.len() && other != shard_id.0 ==> #[trigger] taken(
                    counts,
                    shard_id,
                )[other] == counts[other]
            &&& forall|other: int|
                0 <= other < counts.len() && other != shard_id.0 ==> #[trigger] given_back(
                    counts,
                    shard_id,
                )[other] == counts[other]
        },
{
}

/// An accepted connection takes a place on its shard where one is free, an ended one gives
/// its place back, and no other shard's places change.
pub proof fn history_moves_one_place_at_a_time(
    start: Seq<usize>,
    limit: usize,
    steps: Seq<ConnectionStep>,
    step: ConnectionStep,
)
    requires
        forall|i: int| 0 <= i < start.len() ==> #[trigger] start[i] == 0,
    ensures
        ({
            let before = counts_after(start, limit, steps);
            let after = counts_after(start, limit, steps.push(step));
            let shard = match step {
                ConnectionStep::Accepted(shard_id) => shard_id.0 as int,
                ConnectionStep::Ended(shard_id) => shard_id.0 as int,
            };
            &&& before.len() == start.len() && after.len() == start.len()
            &&& forall|i: int|
                0 <= i < start.len() && i != shard ==> #[trigger] after[i] == before[i]
            &&& shard < start.len() && step is Accepted ==> after[shard] - before[shard] == if (
            before[shard] < limit) {
                1int
            } else {
                0int
            }
            &&& shard < start.len() && step is Ended ==> before[shard] - after[shard] == if (
            before[shard] > 0) {
                1int
            } else {
                0int
            }
        }),
{
    assert(steps.push(step).drop_last() =~= steps);
    if start.len() > 0 {
        counters_count_served_connections(start, limit, steps, ShardId(0));
    } else {
        lemma_no_shards(start, limit, steps);
        lemma_no_shards(start, limit, steps.push(step));
    }
}

proof fn lemma_no_shards(start: Seq<usize>, limit: usize, steps: Seq<ConnectionStep>)
    requires
        start.len() == 0,
    ensures
        counts_after(start, limit, steps).len() == 0,
    decreases steps.len(),
{
    if steps.len() > 0 {
        lemma_no_shards(start, limit, steps.drop_last());
    }
}

} // verus!
