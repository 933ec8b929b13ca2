//! A sharded counter: each shard owns one number.

use vstd::prelude::*;

use crate::error::ShardError;
use crate::runtime::{
    validated, Reply, ReplyState, RuntimeSnapshot, ShardConfig, DEFAULT_MAILBOX_CAPACITY,
};
use crate::service::{
    gather, gather_keyed, gathered, gathers_all_or_the_first_failure, keyed, keyed_states,
    request_each, settles, states, to_all, Broadcast, Request, Service, ServiceView,
};
use crate::shard::ShardId;

verus! {

/// Configuration for starting a [`ShardedCounter`] instance.
#[derive(Debug, Clone, Copy, PartialEq, Eq, Structural)]
pub struct ShardedCounterConfig {
    /// Number of shard threads to start.
    pub shard_count: usize,
    /// Maximum pending commands per shard mailbox.
    pub mailbox_capacity: usize,
}

impl ShardedCounterConfig {
    /// Creates a config with the default bounded mailbox capacity.
    pub fn new(shard_count: usize) -> (config: Self)
        ensures
            config == (ShardedCounterConfig {
                shard_count,
                mailbox_capacity: DEFAULT_MAILBOX_CAPACITY,
            }),
    {
        ShardedCounterConfig::from(ShardConfig::new(shard_count))
    }

    /// Sets the bounded mailbox capacity per shard.
    pub fn with_mailbox_capacity(self, mailbox_capacity: usize) -> (config: Self)
        ensures
            config == (ShardedCounterConfig { mailbox_capacity, ..self }),
    {
        ShardedCounterConfig { mailbox_capacity, ..self }
    }

    /// The configuration of the shards.
    pub open spec fn shard_config(self) -> ShardConfig {
        ShardConfig { shard_count: self.shard_count, mailbox_capacity: self.mailbox_capacity }
    }

    /// The configuration of the shards, where they can be started with it.
    pub fn runtime_config(self) -> (result: Result<ShardConfig, ShardError>)
        ensures
            result == validated(self.shard_config()),
    {
        ShardConfig {
            shard_count: self.shard_count,
            mailbox_capacity: self.mailbox_capacity,
        }.validate()
    }
}

impl From<ShardConfig> for ShardedCounterConfig {
    fn from(config: ShardConfig) -> (converted: Self) {
        ShardedCounterConfig {
            shard_count: config.shard_count,
            mailbox_capacity: config.mailbox_capacity,
        }
    }
}

impl vstd::std_specs::convert::FromSpecImpl<ShardConfig> for ShardedCounterConfig {
    open spec fn obeys_from_spec() -> bool {
        true
    }

    open spec fn from_spec(config: ShardConfig) -> Self {
        ShardedCounterConfig {
            shard_count: config.shard_count,
            mailbox_capacity: config.mailbox_capacity,
        }
    }
}

/// Reply handle for an accepted counter command.
pub type CounterReply<T> = Reply<T>;

/// A point-in-time, owned summary of one counter shard.
#[must_use]
#[derive(Debug, Clone, Copy, PartialEq, Eq, Structural)]
pub struct CounterShardSnapshot {
    /// The shard this snapshot describes.
    pub shard_id: ShardId,
    /// Current counter value on the shard when the snapshot command ran.
    pub value: i64,
}

/// The sum of counter values.
pub open spec fn sum(values: Seq<i64>) -> int
    decreases values.len(),
{
    if values.len() == 0 {
        0
    } else {
        sum(values.drop_last()) + values.last()
    }
}

/// Whether values can be summed from the first to the last within `i64`.
pub open spec fn sum_fits(values: Seq<i64>) -> bool {
    forall|n: int|
        0 <= n <= values.len() ==> i64::MIN <= #[trigger] sum(values.take(n)) <= i64::MAX
}

/// Reply handle for a total counter request across all shards.
pub struct CounterTotalReply {
    /// The replies, by shard.
    pub replies: Vec<CounterReply<i64>>,
}

impl CounterTotalReply {
    /// Gathers the replies of all shards.
    pub fn new(replies: Vec<CounterReply<i64>>) -> (reply: Self)
        ensures
            reply.replies == replies,
    {
        CounterTotalReply { replies }
    }

    /// Returns the sum of the values, once the wait for them is over.
    pub fn wait(self) -> (result: Result<i64, ShardError>)
        requires
            settles(states(self.replies@)),
            gathered(states(self.replies@)) matches Ok(values) ==> sum_fits(values),
        ensures
            match gathered(states(self.replies@)) {
                Ok(values) => result is Ok && result->Ok_0 == sum(values),
                Err(error) => result == Err::<i64, ShardError>(error),
            },
    {
        self.wait_timeout()
    }

    /// Returns the sum of the values, or a timeout where one has not come in
    /// time.
    pub fn wait_timeout(self) -> (result: Result<i64, ShardError>)
        requires
            gathered(states(self.replies@)) matches Ok(values) ==> sum_fits(values),
        ensures
            match gathered(states(self.replies@)) {
                Ok(values) => result is Ok && result->Ok_0 == sum(values),
                Err(error) => result == Err::<i64, ShardError>(error),
            },
    {
        let values = match gather(self.replies) {
            Ok(values) => values,
            Err(error) => {
                return Err(error);
            },
        };
        let mut total: i64 = 0;
        let mut i: usize = 0;
        assert(values@.take(0) =~= Seq::empty());
        while i < values.len()
            invariant
                i <= values.len(),
                total == sum(values@.take(i as int)),
                sum_fits(values@),
            decreases values.len() - i,
        {
            proof {
                assert(values@.take(i + 1).drop_last() =~= values@.take(i as int));
                assert(i64::MIN <= sum(values@.take(i + 1)) <= i64::MAX);
            }
            total = total + values[i];
            i = i + 1;
        }
        assert(values@.take(values@.len() as int) =~= values@);
        Ok(total)
    }
}

/// Summaries made of numbered values.
pub open spec fn counter_snapshots(pairs: Seq<(ShardId, i64)>) -> Seq<CounterShardSnapshot> {
    pairs.map_values(
        |pair: (ShardId, i64)| CounterShardSnapshot { shard_id: pair.0, value: pair.1 },
    )
}

/// Reply handle for a per-shard counter snapshot request.
pub struct CounterShardSnapshotsReply {
    /// The replies, each with its shard.
    pub replies: Vec<(ShardId, CounterReply<i64>)>,
}

impl CounterShardSnapshotsReply {
    /// Gathers the replies of all shards.
    pub fn new(replies: Vec<(ShardId, CounterReply<i64>)>) -> (reply: Self)
        ensures
            reply.replies == replies,
    {
        CounterShardSnapshotsReply { replies }
    }

    /// What the replies come to: the summaries in the order of the replies.
    pub open spec fn outcome(&self) -> Result<Seq<CounterShardSnapshot>, ShardError> {
        match gathered(keyed_states(self.replies@)) {
            Ok(values) => Ok(counter_snapshots(keyed(self.replies@, values))),
            Err(error) => Err(error),
        }
    }

    /// Returns the summaries in shard order, once the wait for them is over.
    pub fn wait(self) -> (result: Result<Vec<CounterShardSnapshot>, ShardError>)
        requires
            settles(keyed_states(self.replies@)),
        ensures
            match result {
                Ok(list) => self.outcome() == Ok::<Seq<CounterShardSnapshot>, ShardError>(list@),
                Err(error) => self.outcome() == Err::<Seq<CounterShardSnapshot>, ShardError>(error),
            },
    {
        self.wait_timeout()
    }

    /// Returns the summaries in shard order, or a timeout where one has not come
    /// in time.
    pub fn wait_timeout(self) -> (result: Result<Vec<CounterShardSnapshot>, ShardError>)
        ensures
            match result {
                Ok(list) => self.outcome() == Ok::<Seq<CounterShardSnapshot>, ShardError>(list@),
                Err(error) => self.outcome() == Err::<Seq<CounterShardSnapshot>, ShardError>(error),
            },
    {
        let pairs = match gather_keyed(self.replies) {
            Ok(pairs) => pairs,
            Err(error) => {
                return Err(error);
            },
        };
        let mut list: Vec<CounterShardSnapshot> = Vec::new();
        let mut i: usize = 0;
        while i < pairs.len()
            invariant
                i <= pairs.len(),
                list@ == counter_snapshots(pairs@.take(i as int)),
            decreases pairs.len() - i,
        {
            list.push(CounterShardSnapshot { shard_id: pairs[i].0, value: pairs[i].1 });
            i = i + 1;
            assert(list@ =~= counter_snapshots(pairs@.take(i as int)));
        }
        assert(pairs@.take(pairs@.len() as int) =~= pairs@);
        Ok(list)
    }
}

/// Shard-local counter state.
#[derive(Debug)]
pub struct CounterService {
    /// The number.
    pub value: i64,
}

impl Default for CounterService {
    fn default() -> (service: Self)
        ensures
            service.value == 0,
    {
        CounterService { value: 0 }
    }
}

impl CounterService {
    /// Whether `delta` can be added.
    pub open spec fn fits(&self, delta: i64) -> bool {
        i64::MIN <= self.value + delta <= i64::MAX
    }

    /// Adds to the number and returns it.
    pub fn add(&mut self, delta: i64) -> (value: i64)
        requires
            old(self).fits(delta),
        ensures
            value == old(self).value + delta,
            final(self).value == value,
    {
        self.value = self.value + delta;
        self.value
    }

    /// The number.
    pub fn get(&self) -> (value: i64)
        ensures
            value == self.value,
    {
        self.value
    }

    /// Whether a command can be served without overflow.
    pub fn can_apply(&self, command: &CounterCommand) -> (can: bool)
        ensures
            can == can_serve(self.value as int, *command),
    {
        match command {
            CounterCommand::Add { delta } => self.value.checked_add(*delta).is_some(),
            _ => true,
        }
    }

    /// Serves a command.
    pub fn apply(&mut self, command: CounterCommand) -> (response: CounterResponse)
        requires
            can_serve(old(self).value as int, command),
        ensures
            final(self).value == counter_after(old(self).value as int, command),
            response == counter_response(old(self).value as int, command),
            command is Stop ==> response is Done,
            !(command is Stop) ==> response == CounterResponse::Value(final(self).value),
    {
        match command {
            CounterCommand::Add { delta } => CounterResponse::Value(self.add(delta)),
            CounterCommand::Get => CounterResponse::Value(self.get()),
            CounterCommand::Stop => CounterResponse::Done,
        }
    }
}

/// A command for a counter shard.
#[derive(Debug, Clone, Copy, PartialEq, Eq, Structural)]
pub enum CounterCommand {
    /// Adds to the number.
    Add {
        /// What is added.
        delta: i64,
    },
    /// Reads the number.
    Get,
    /// Ends the shard.
    Stop,
}

/// The reply of a counter shard.
#[derive(Debug, Clone, Copy, PartialEq, Eq, Structural)]
pub enum CounterResponse {
    /// The number after the command.
    Value(i64),
    /// The command was carried out, to a stop.
    Done,
}

/// The number after a command.
pub open spec fn counter_after(value: int, command: CounterCommand) -> int {
    match command {
        CounterCommand::Add { delta } => value + delta,
        _ => value,
    }
}

/// The number after several commands.
pub open spec fn counter_after_all(value: int, commands: Seq<CounterCommand>) -> int
    decreases commands.len(),
{
    if commands.len() == 0 {
        value
    } else {
        counter_after(counter_after_all(value, commands.drop_last()), commands.last())
    }
}

/// Whether the number stays within `i64`.
pub open spec fn can_serve(value: int, command: CounterCommand) -> bool {
    i64::MIN <= counter_after(value, command) <= i64::MAX
}

/// The reply to a command.
pub open spec fn counter_response(value: int, command: CounterCommand) -> CounterResponse {
    match command {
        CounterCommand::Stop => CounterResponse::Done,
        _ => CounterResponse::Value(counter_after(value, command) as i64),
    }
}

/// The number of commands that a shard serves: it ends with the first stop.
pub open spec fn counter_served(commands: Seq<CounterCommand>) -> nat
    decreases commands.len(),
{
    if commands.len() == 0 {
        0
    } else if commands[0] is Stop {
        1
    } else {
        1 + counter_served(commands.drop_first())
    }
}

/// The commands of requests.
pub open spec fn counter_commands<R>(requests: Seq<Request<CounterCommand, R>>) -> Seq<
    CounterCommand,
> {
    requests.map_values(|request: Request<CounterCommand, R>| request.command)
}

proof fn lemma_counter_served(commands: Seq<CounterCommand>, n: int)
    requires
        0 <= n <= commands.len(),
        forall|i: int| 0 <= i < n ==> !((#[trigger] commands[i]) is Stop),
        n < commands.len() ==> commands[n] is Stop,
    ensures
        counter_served(commands) == if n < commands.len() {
            n + 1
        } else {
            n
        },
    decreases n,
{
    if n > 0 {
        let rest = commands.drop_first();
        assert(!(commands[0] is Stop));
        assert forall|i: int| 0 <= i < n - 1 implies !((#[trigger] rest[i]) is Stop) by {
            assert(!(commands[i + 1] is Stop));
        }
        lemma_counter_served(rest, n - 1);
    }
}

/// What came of a run of requests on a shard.
pub struct CounterRun<R> {
    /// Where replies go, and the replies, in the order of the requests.
    pub answered: Vec<(R, CounterResponse)>,
    /// Requests behind the stop, which get no reply.
    pub dropped: Vec<Request<CounterCommand, R>>,
    /// Whether the shard ends.
    pub stopped: bool,
}

/// Serves requests in order until one stops the shard.
pub fn run_counter_shard<R>(
    service: &mut CounterService,
    requests: Vec<Request<CounterCommand, R>>,
) -> (run: CounterRun<R>)
    requires
        forall|i: int|
            0 <= i < counter_served(counter_commands(requests@)) ==> can_serve(
                counter_after_all(
                    old(service).value as int,
                    #[trigger] counter_commands(requests@).take(i),
                ),
                counter_commands(requests@)[i],
            ),
    ensures
        ({
            let all = counter_commands(requests@);
            let n = counter_served(all);
            &&& n <= all.len()
            &&& final(service).value == counter_after_all(
                old(service).value as int,
                all.take(n as int),
            )
            &&& run.answered@.len() == n
            &&& forall|i: int|
                0 <= i < n ==> #[trigger] run.answered@[i] == (
                    requests@[i].reply,
                    counter_response(
                        counter_after_all(old(service).value as int, all.take(i)),
                        all[i],
                    ),
                )
            &&& run.dropped@ == requests@.skip(n as int)
            &&& run.stopped == (n > 0 && all[n - 1] is Stop)
        }),
{
    let ghost given = requests@;
    let ghost all = counter_commands(given);
    let ghost first = service.value as int;
    let mut answered: Vec<(R, CounterResponse)> = Vec::new();
    let mut dropped: Vec<Request<CounterCommand, R>> = Vec::new();
    let mut stopped = false;
    proof {
        assert(all.take(0) =~= Seq::empty());
        assert(dropped@ =~= given.subrange(0, 0));
    }
    for request in it: requests
        invariant
            it.seq() == given,
            all == counter_commands(given),
            answered@.len() <= it.index(),
            !stopped ==> answered@.len() == it.index(),
            service.value == counter_after_all(first, all.take(answered@.len() as int)),
            forall|i: int|
                0 <= i < answered@.len() ==> #[trigger] answered@[i] == (
                    given[i].reply,
                    counter_response(counter_after_all(first, all.take(i)), all[i]),
                ),
            dropped@ == given.subrange(answered@.len() as int, it.index() as int),
            forall|i: int|
                0 <= i < answered@.len() - (if stopped { 1int } else { 0int }) ==> !((
                #[trigger] all[i]) is Stop),
            stopped ==> answered@.len() > 0 && all[answered@.len() - 1] is Stop,
            forall|i: int|
                0 <= i < counter_served(all) ==> can_serve(
                    counter_after_all(first, #[trigger] all.take(i)),
                    all[i],
                ),
    {
        let ghost i = it.index() as int;
        if stopped {
            dropped.push(request);
            assert(dropped@ =~= given.subrange(answered@.len() as int, i + 1));
        } else {
            let Request { command, reply } = request;
            proof {
                assert(all.take(i + 1).drop_last() =~= all.take(i));
                assert(all[i] == command);
                lemma_counter_served_more(all, i);
                assert(can_serve(counter_after_all(first, all.take(i)), all[i]));
            }
            match command {
                CounterCommand::Stop => {
                    stopped = true;
                },
                _ => {},
            }
            let response = service.apply(command);
            answered.push((reply, response));
            assert(dropped@ =~= given.subrange(answered@.len() as int, i + 1));
        }
    }
    proof {
        if stopped {
            lemma_counter_served(all, answered@.len() - 1);
        } else {
            lemma_counter_served(all, all.len() as int);
        }
        assert(given.subrange(answered@.len() as int, given.len() as int) =~= given.skip(
            answered@.len() as int,
        ));
    }
    CounterRun { answered, dropped, stopped }
}

proof fn lemma_counter_served_more(commands: Seq<CounterCommand>, n: int)
    requires
        0 <= n < commands.len(),
        forall|i: int| 0 <= i < n ==> !((#[trigger] commands[i]) is Stop),
    ensures
        n < counter_served(commands),
    decreases n,
{
    if n > 0 {
        let rest = commands.drop_first();
        assert(!(commands[0] is Stop));
        assert forall|i: int| 0 <= i < n - 1 implies !((#[trigger] rest[i]) is Stop) by {
            assert(!(commands[i + 1] is Stop));
        }
        lemma_counter_served_more(rest, n - 1);
    }
}

/// A sharded counter. `R` says where the reply to a command goes.
pub struct ShardedCounter<R> {
    /// The shards.
    pub service: Service<CounterCommand, R>,
}

fn get_requests<R>(replies: Vec<R>) -> (requests: Vec<Request<CounterCommand, R>>)
    ensures
        requests@ == to_all(CounterCommand::Get, replies@),
{
    let make = || -> (command: CounterCommand)
        ensures
            command == CounterCommand::Get,
        { CounterCommand::Get };
    let requests = request_each(make, replies);
    assert(requests@ =~= to_all(CounterCommand::Get, replies@));
    requests
}

impl<R> ShardedCounter<R> {
    /// There is a shard, and the mailboxes are bounded.
    pub open spec fn wf(&self) -> bool {
        self.service.wf()
    }

    /// Starts a counter with `shard_count` shards and the default mailbox capacity.
    pub fn start(shard_count: usize) -> (result: Result<Self, ShardError>)
        ensures
            shard_count == 0 ==> result == Err::<Self, ShardError>(ShardError::InvalidShardCount),
            shard_count > 0 ==> result is Ok,
            result matches Ok(counter) ==> counter.wf() && counter.service@.mailboxes.len()
                == shard_count && counter.service@.mailbox_capacity == DEFAULT_MAILBOX_CAPACITY
                && !counter.service@.stopped && forall|i: int|
                0 <= i < shard_count ==> (#[trigger] counter.service@.mailboxes[i]).queue.len() == 0
                    && counter.service@.mailboxes[i].open,
    {
        ShardedCounter::start_with_config(ShardedCounterConfig::new(shard_count))
    }

    /// Starts a counter from an explicit configuration.
    pub fn start_with_config(config: ShardedCounterConfig) -> (result: Result<Self, ShardError>)
        ensures
            validated(config.shard_config()) matches Err(error) ==> result == Err::<
                Self,
                ShardError,
            >(error),
            validated(config.shard_config()) is Ok ==> result is Ok,
            result matches Ok(counter) ==> counter.wf() && counter.service@.mailboxes.len()
                == config.shard_count && counter.service@.mailbox_capacity
                == config.mailbox_capacity && !counter.service@.stopped && forall|i: int|
                0 <= i < config.shard_count ==> (
                #[trigger] counter.service@.mailboxes[i]).queue.len() == 0
                    && counter.service@.mailboxes[i].open,
    {
        let config = match config.runtime_config() {
            Ok(config) => config,
            Err(error) => {
                return Err(error);
            },
        };
        match Service::start(config) {
            Ok(service) => Ok(ShardedCounter { service }),
            Err(error) => Err(error),
        }
    }

    /// Number of shards.
    pub fn shard_count(&self) -> (count: usize)
        ensures
            count == self.service@.mailboxes.len(),
    {
        self.service.shard_count()
    }

    /// Capacity of each mailbox.
    pub fn mailbox_capacity(&self) -> (capacity: usize)
        ensures
            capacity == self.service@.mailbox_capacity,
    {
        self.service.mailbox_capacity()
    }

    /// The shape of the counter.
    pub fn runtime_snapshot(&self) -> (snapshot: RuntimeSnapshot)
        ensures
            snapshot.shard_count == self.service@.mailboxes.len(),
            snapshot.mailbox_capacity == self.service@.mailbox_capacity,
            snapshot.stopped == self.service@.stopped,
    {
        self.service.runtime_snapshot()
    }

    /// Enqueues an add command on one shard, once there is room.
    pub fn submit_add_on_shard(
        &mut self,
        shard_id: ShardId,
        delta: i64,
        reply: R,
    ) -> (result: Result<(), ShardError>)
        requires
            old(self).wf(),
            old(self).service@.ready(shard_id.0 as int),
        ensures
            final(self).wf(),
            old(self).service@.submits(
                shard_id,
                (Request { command: (CounterCommand::Add { delta }), reply }),
                result,
                final(self).service@,
            ),
    {
        self.service.submit(shard_id, Request { command: CounterCommand::Add { delta }, reply })
    }

    /// Enqueues an add command on one shard, without waiting for room.
    pub fn try_submit_add_on_shard(
        &mut self,
        shard_id: ShardId,
        delta: i64,
        reply: R,
    ) -> (result: Result<(), ShardError>)
        requires
            old(self).wf(),
        ensures
            final(self).wf(),
            old(self).service@.try_submits(
                shard_id,
                (Request { command: (CounterCommand::Add { delta }), reply }),
                result,
                final(self).service@,
            ),
    {
        self.service.try_submit(shard_id, Request { command: CounterCommand::Add { delta }, reply })
    }

    /// Enqueues a get command on one shard, once there is room.
    pub fn submit_get_on_shard(
        &mut self,
        shard_id: ShardId,
        reply: R,
    ) -> (result: Result<(), ShardError>)
        requires
            old(self).wf(),
            old(self).service@.ready(shard_id.0 as int),
        ensures
            final(self).wf(),
            old(self).service@.submits(
                shard_id,
                (Request { command: CounterCommand::Get, reply }),
                result,
                final(self).service@,
            ),
    {
        self.service.submit(shard_id, Request { command: CounterCommand::Get, reply })
    }

    /// Enqueues a get command on one shard, without waiting for room.
    pub fn try_submit_get_on_shard(
        &mut self,
        shard_id: ShardId,
        reply: R,
    ) -> (result: Result<(), ShardError>)
        requires
            old(self).wf(),
        ensures
            final(self).wf(),
            old(self).service@.try_submits(
                shard_id,
                (Request { command: CounterCommand::Get, reply }),
                result,
                final(self).service@,
            ),
    {
        self.service.try_submit(shard_id, Request { command: CounterCommand::Get, reply })
    }

    /// Begins to enqueue get commands on all shards, each once there is room.
    pub fn submit_total(&self, replies: Vec<R>) -> (result: Result<
        Broadcast<CounterCommand, R>,
        ShardError,
    >)
        requires
            replies@.len() == self.service@.mailboxes.len(),
        ensures
            self.service@.begins_broadcast(to_all(CounterCommand::Get, replies@), result),
    {
        self.service.submit_all(get_requests(replies))
    }

    /// Enqueues get commands on all shards, without waiting for room. Commands
    /// accepted ahead of a full mailbox stay; they are read-only.
    pub fn try_submit_total(&mut self, replies: Vec<R>) -> (result: Result<(), ShardError>)
        requires
            old(self).wf(),
            replies@.len() == old(self).service@.mailboxes.len(),
        ensures
            final(self).wf(),
            old(self).service@.submits_all(
                to_all(CounterCommand::Get, replies@),
                old(self).service@.try_send_results(),
                result,
                final(self).service@,
            ),
    {
        let requests = get_requests(replies);
        self.service.try_submit_all(requests)
    }

    /// Begins to enqueue snapshot commands on all shards, each once there is room.
    pub fn submit_shard_snapshots(&self, replies: Vec<R>) -> (result: Result<
        Broadcast<CounterCommand, R>,
        ShardError,
    >)
        requires
            replies@.len() == self.service@.mailboxes.len(),
        ensures
            self.service@.begins_broadcast(to_all(CounterCommand::Get, replies@), result),
    {
        self.service.submit_all(get_requests(replies))
    }

    /// Enqueues snapshot commands on all shards, without waiting for room. Commands
    /// accepted ahead of a full mailbox stay; they are read-only.
    pub fn try_submit_shard_snapshots(&mut self, replies: Vec<R>) -> (result: Result<(), ShardError>)
        requires
            old(self).wf(),
            replies@.len() == old(self).service@.mailboxes.len(),
        ensures
            final(self).wf(),
            old(self).service@.submits_all(
                to_all(CounterCommand::Get, replies@),
                old(self).service@.try_send_results(),
                result,
                final(self).service@,
            ),
    {
        let requests = get_requests(replies);
        self.service.try_submit_all(requests)
    }

    /// Begins shutdown. Says whether it had not begun before: then every shard is
    /// to be stopped and joined.
    pub fn begin_shutdown(&mut self) -> (begun: bool)
        ensures
            begun == !old(self).service@.stopped,
            final(self).service@ == (ServiceView { stopped: true, ..old(self).service@ }),
            old(self).wf() ==> final(self).wf(),
    {
        self.service.begin_shutdown()
    }

    /// Enqueues the stop command on one shard, once there is room.
    pub fn send_stop(&mut self, shard_id: ShardId, reply: R) -> (result: Result<(), ShardError>)
        requires
            old(self).wf(),
            shard_id.0 < old(self).service@.mailboxes.len(),
            old(self).service@.mailboxes[shard_id.0 as int].open
                ==> !old(self).service@.mailboxes[shard_id.0 as int].full(),
        ensures
            final(self).wf(),
            result == if old(self).service@.mailboxes[shard_id.0 as int].open {
                Ok::<(), ShardError>(())
            } else {
                Err::<(), ShardError>(ShardError::ShardStopped)
            },
            final(self).service@ == if result is Ok {
                old(self).service@.sent(
                    shard_id.0 as int,
                    (Request { command: CounterCommand::Stop, reply }),
                )
            } else {
                old(self).service@
            },
    {
        self.service.send_stop(shard_id, Request { command: CounterCommand::Stop, reply })
    }
}

/// The sum of the numbers added by commands.
pub open spec fn deltas(commands: Seq<CounterCommand>) -> int
    decreases commands.len(),
{
    if commands.len() == 0 {
        0
    } else {
        deltas(commands.drop_last()) + match commands.last() {
            CounterCommand::Add { delta } => delta as int,
            _ => 0,
        }
    }
}

/// A counter holds what it began with and everything added since.
pub proof fn counter_sums_what_was_added(value: int, commands: Seq<CounterCommand>)
    ensures
        counter_after_all(value, commands) == value + deltas(commands),
    decreases commands.len(),
{
    if commands.len() > 0 {
        counter_sums_what_was_added(value, commands.drop_last());
    }
}

/// Adding to one shard raises the total by as much.
pub proof fn add_raises_the_total(values: Seq<i64>, shard: int, delta: i64)
    requires
        0 <= shard < values.len(),
        i64::MIN <= values[shard] + delta <= i64::MAX,
    ensures
        sum(values.update(shard, (values[shard] + delta) as i64)) == sum(values) + delta,
    decreases values.len(),
{
    let updated = values.update(shard, (values[shard] + delta) as i64);
    if shard == values.len() - 1 {
        assert(updated.drop_last() =~= values.drop_last());
    } else {
        add_raises_the_total(values.drop_last(), shard, delta);
        assert(updated.drop_last() =~= values.drop_last().update(
            shard,
            (values[shard] + delta) as i64,
        ));
    }
}

/// The reply to an add or a get is the number that is held after it: the one that the
/// shard began with, and the sum of what was added up to and including that command.
pub proof fn reply_is_the_number_held_after_it(value: int, commands: Seq<CounterCommand>, i: int)
    requires
        0 <= i < commands.len(),
        !(commands[i] is Stop),
        can_serve(counter_after_all(value, commands.take(i)), commands[i]),
    ensures
        ({
            let added = |sum: int, command: CounterCommand|
                match command {
                    CounterCommand::Add { delta } => sum + delta,
                    CounterCommand::Get => sum,
                    CounterCommand::Stop => sum,
                };
            let reply = counter_response(counter_after_all(value, commands.take(i)), commands[i]);
            &&& reply is Value
            &&& reply->Value_0 == commands.take(i + 1).fold_left(value, added)
            &&& reply->Value_0 == value + commands.take(i + 1).fold_left(0int, added)
        }),
{
    assert(commands.take(i + 1).drop_last() =~= commands.take(i));
    lemma_sum_of_added(value, commands.take(i + 1));
    lemma_sum_of_added(0, commands.take(i + 1));
    counter_sums_what_was_added(value, commands.take(i + 1));
}

proof fn lemma_sum_of_added(value: int, commands: Seq<CounterCommand>)
    ensures
        commands.fold_left(
            value,
            |sum: int, command: CounterCommand|
                match command {
                    CounterCommand::Add { delta } => sum + delta,
                    CounterCommand::Get => sum,
                    CounterCommand::Stop => sum,
                },
        ) == value + deltas(commands),
    decreases commands.len(),
{
    if commands.len() > 0 {
        lemma_sum_of_added(value, commands.drop_last());
    }
}

/// Two adds one after the other are answered with numbers that lie apart by what the
/// second adds, and a get answers what the command before it answered. A stop is
/// answered with no number and changes none.
pub proof fn replies_follow_on_each_other(value: int, first: i64, second: i64)
    requires
        i64::MIN <= value <= i64::MAX,
        i64::MIN <= value + first <= i64::MAX,
        i64::MIN <= value + first + second <= i64::MAX,
    ensures
        ({
            let add = CounterCommand::Add { delta: first };
            let next = CounterCommand::Add { delta: second };
            let after = counter_after(value, add);
            &&& can_serve(value, add) && can_serve(after, next)
            &&& counter_response(value, add) == CounterResponse::Value((value + first) as i64)
            &&& counter_response(after, next)->Value_0 - counter_response(value, add)->Value_0
                == second
            &&& counter_response(after, CounterCommand::Get) == counter_response(value, add)
            &&& counter_after(value, CounterCommand::Get) == value
            &&& counter_response(value, CounterCommand::Get) == CounterResponse::Value(
                value as i64,
            )
            &&& counter_after(value, CounterCommand::Stop) == value
            &&& counter_response(value, CounterCommand::Stop) == CounterResponse::Done
        }),
{
}

/// A command can be served exactly where the number that it leaves fits: a get and a
/// stop always can.
pub proof fn only_overflow_is_refused(value: i64, delta: i64)
    ensures
        can_serve(value as int, CounterCommand::Add { delta }) <==> i64::MIN <= value + delta
            <= i64::MAX,
        can_serve(value as int, CounterCommand::Get),
        can_serve(value as int, CounterCommand::Stop),
{
}

/// A shard serves every command up to and including the first stop, and all of them
/// where none is a stop.
pub proof fn counter_serves_up_to_the_stop(commands: Seq<CounterCommand>)
    ensures
        ({
            let n = counter_served(commands) as int;
            &&& n <= commands.len()
            &&& forall|i: int| 0 <= i < n - 1 ==> (#[trigger] commands[i]) != CounterCommand::Stop
            &&& n < commands.len() ==> n > 0 && commands[n - 1] == CounterCommand::Stop
        }),
    decreases commands.len(),
{
    if commands.len() > 0 && !(commands[0] is Stop) {
        let rest = commands.drop_first();
        counter_serves_up_to_the_stop(rest);
        let n = counter_served(commands) as int;
        assert forall|i: int| 0 <= i < n - 1 implies (#[trigger] commands[i])
            != CounterCommand::Stop by {
            if i > 0 {
                assert(rest[i - 1] == commands[i]);
            }
        }
    }
}

/// The total of the shards' numbers is what comes of adding them one after the other,
/// in any order.
pub proof fn total_adds_every_value(values: Seq<i64>, value: i64)
    ensures
        sum(values) == values.fold_left(0int, |total: int, value: i64| total + value),
        sum(values.push(value)) == sum(values) + value,
        sum(seq![value] + values) == sum(values) + value,
        sum(Seq::<i64>::empty()) == 0,
    decreases values.len(),
{
    assert(values.push(value).drop_last() =~= values);
    let with = seq![value] + values;
    if values.len() > 0 {
        total_adds_every_value(values.drop_last(), value);
        assert(with.drop_last() =~= seq![value] + values.drop_last());
        assert(with.last() == values.last());
    } else {
        reveal_with_fuel(sum, 2);
        assert(with =~= seq![value]);
        assert(with.drop_last() =~= Seq::<i64>::empty());
    }
}

/// Each summary carries the number of the shard that it names: the one that its reply
/// brought. There is one summary for each shard, or the failure of a reply.
pub proof fn counter_summaries_name_their_shards(reply: CounterShardSnapshotsReply)
    ensures
        match reply.outcome() {
            Ok(list) => {
                &&& list.len() == reply.replies@.len()
                &&& forall|i: int|
                    0 <= i < list.len() ==> (#[trigger] list[i]).shard_id == reply.replies@[i].0
                        && reply.replies@[i].1.value == Some(list[i].value)
            },
            Err(error) => exists|i: int|
                0 <= i < reply.replies@.len() && (#[trigger] reply.replies@[i]).1.value is None && (
                error == if reply.replies@[i].1.sender_alive {
                    ShardError::ReplyTimeout
                } else {
                    ShardError::ReplyFailed
                }),
        },
{
    let states = keyed_states(reply.replies@);
    gathers_all_or_the_first_failure(states);
    match gathered(states) {
        Ok(values) => {
            assert forall|i: int| 0 <= i < values.len() implies reply.replies@[i].1.value == Some(
                #[trigger] values[i],
            ) by {
                assert(states[i] == ReplyState::Delivered(values[i]));
            }
        },
        Err(error) => {
            let i = choose|i: int|
                0 <= i < states.len() && !(#[trigger] states[i] is Delivered) && (error
                    == if states[i] is Pending {
                    ShardError::ReplyTimeout
                } else {
                    ShardError::ReplyFailed
                });
            assert(reply.replies@[i].1.state() == states[i]);
        },
    }
}

/// Shards are started as many and with mailboxes as large as the configuration says.
pub proof fn counter_shards_are_started_as_configured(config: ShardedCounterConfig)
    ensures
        config.shard_config().shard_count == config.shard_count,
        config.shard_config().mailbox_capacity == config.mailbox_capacity,
{
}

/// Commands are served in the order of their requests, one for each.
pub proof fn commands_are_those_of_the_requests<R>(requests: Seq<Request<CounterCommand, R>>)
    ensures
        counter_commands(requests).len() == requests.len(),
        forall|i: int|
            0 <= i < requests.len() ==> #[trigger] counter_commands(requests)[i]
                == requests[i].command,
{
}

/// Numbers can be added up where no sum on the way leaves the range, which is so where they
/// are few enough or small enough.
pub proof fn small_sums_fit(values: Seq<i64>, bound: nat)
    requires
        forall|i: int| 0 <= i < values.len() ==> -bound <= #[trigger] values[i] <= bound,
        bound * values.len() <= i64::MAX,
    ensures
        sum_fits(values),
{
    assert forall|n: int| 0 <= n <= values.len() implies i64::MIN <= #[trigger] sum(values.take(n))
        <= i64::MAX by {
        lemma_sum_bound(values, bound, n as nat);
        assert(bound * n <= bound * values.len()) by (nonlinear_arith)
            requires
                n <= values.len(),
        ;
    }
}

proof fn lemma_sum_bound(values: Seq<i64>, bound: nat, n: nat)
    requires
        n <= values.len(),
        forall|i: int| 0 <= i < values.len() ==> -bound <= #[trigger] values[i] <= bound,
    ensures
        -(bound * n) <= sum(values.take(n as int)) <= bound * n,
    decreases n,
{
    if n > 0 {
        lemma_sum_bound(values, bound, (n - 1) as nat);
        assert(values.take(n as int).drop_last() =~= values.take(n - 1));
        assert(values.take(n as int).last() == values[n - 1]);
        assert(bound * n == bound * (n - 1) + bound) by (nonlinear_arith)
            requires
                n > 0,
        ;
    }
}

} // verus!
