//! Streaming reply channels for sharded services.
//!
//! A stream delivers a sequence of owned values followed by a completion signal.
//! [`StreamState`] is what sender and receiver share; a program puts it behind a
//! lock, and the two handles work on it. `W` is a waker.

use vstd::prelude::*;

verus! {

/// Error returned when a streaming reply is dropped before completion.
#[derive(Debug, Clone, Copy, PartialEq, Eq, Structural)]
pub enum StreamError {
    /// The stream sender was dropped before all values were consumed.
    SenderDropped,
    /// The stream receiver was dropped while the sender was still producing.
    ReceiverDropped,
}

impl StreamError {
    /// The text of the error.
    pub open spec fn text(&self) -> Seq<char> {
        match self {
            StreamError::SenderDropped => "stream sender dropped unexpectedly"@,
            StreamError::ReceiverDropped => "stream receiver dropped early"@,
        }
    }

    /// Human-readable text of the error.
    pub fn message(&self) -> (text: String)
        ensures
            text@ == self.text(),
    {
        match self {
            StreamError::SenderDropped => "stream sender dropped unexpectedly".to_owned(),
            StreamError::ReceiverDropped => "stream receiver dropped early".to_owned(),
        }
    }
}

/// What the two sides of a stream share.
pub struct StreamState<T, W> {
    /// Values sent and not received, oldest first.
    pub values: Vec<T>,
    /// Whether more values can be expected.
    pub sender_alive: bool,
    /// Whether values are no longer accepted.
    pub done: bool,
    /// Waker of a receiver that waits for a value.
    pub waker: Option<W>,
}

/// The sending side of a streaming reply channel.
#[derive(Debug, Clone, Copy, PartialEq, Eq, Structural)]
pub struct StreamSender {}

/// The receiving side of a streaming reply channel.
#[must_use]
#[derive(Debug, Clone, Copy, PartialEq, Eq, Structural)]
pub struct StreamReply {}

/// What a send came to.
pub struct StreamSent<W> {
    /// Whether the value was accepted.
    pub result: Result<(), StreamError>,
    /// The waiting receiver, to be woken.
    pub wake: Option<W>,
}

/// Creates a streaming reply channel: the shared state and its two sides.
pub fn stream_channel<T, W>() -> (channel: (StreamState<T, W>, StreamSender, StreamReply))
    ensures
        channel.0.values@ == Seq::<T>::empty(),
        channel.0.sender_alive,
        !channel.0.done,
        channel.0.waker is None,
{
    (
        StreamState { values: Vec::new(), sender_alive: true, done: false, waker: None },
        StreamSender {  },
        StreamReply {  },
    )
}

fn take_waker<T, W>(state: &mut StreamState<T, W>) -> (waker: Option<W>)
    ensures
        waker == old(state).waker,
        final(state).waker is None,
        final(state).values == old(state).values,
        final(state).sender_alive == old(state).sender_alive,
        final(state).done == old(state).done,
{
    let mut waker: Option<W> = None;
    core::mem::swap(&mut waker, &mut state.waker);
    waker
}

impl StreamSender {
    /// Pushes one value to the stream receiver. Refused where the consumer has
    /// already stopped receiving.
    pub fn send<T, W>(&self, state: &mut StreamState<T, W>, value: T) -> (sent: StreamSent<W>)
        ensures
            final(state).sender_alive == old(state).sender_alive,
            final(state).done == old(state).done,
            old(state).done ==> {
                &&& sent.result == Err::<(), StreamError>(StreamError::ReceiverDropped)
                &&& sent.wake is None
                &&& *final(state) == *old(state)
            },
            !old(state).done ==> {
                &&& sent.result == Ok::<(), StreamError>(())
                &&& sent.wake == old(state).waker
                &&& final(state).waker is None
                &&& final(state).values@ == old(state).values@.push(value)
            },
    {
        if state.done {
            return StreamSent { result: Err(StreamError::ReceiverDropped), wake: None };
        }
        state.values.push(value);
        let wake = take_waker(state);
        StreamSent { result: Ok(()), wake }
    }

    /// Signals completion when a sender goes away. Returns the waiting receiver, to
    /// be woken.
    pub fn close<T, W>(self, state: &mut StreamState<T, W>) -> (wake: Option<W>)
        ensures
            wake == old(state).waker,
            final(state).waker is None,
            final(state).values == old(state).values,
            !final(state).sender_alive,
            final(state).done == old(state).done,
    {
        state.sender_alive = false;
        take_waker(state)
    }
}

/// The number of values in a batch.
pub open spec fn batch_len(available: nat, max_items: usize) -> nat {
    if available < max_items {
        available
    } else {
        max_items as nat
    }
}

impl<T, W> StreamState<T, W> {
    /// Whether a receiver has to wait: there is no value and one may come.
    pub open spec fn must_wait(&self) -> bool {
        self.values@.len() == 0 && self.sender_alive
    }

    /// Whether all values have been received and none will come.
    pub open spec fn exhausted(&self) -> bool {
        self.values@.len() == 0 && !self.sender_alive
    }

    /// Takes the oldest values, at most `max_items`.
    fn take_batch(&mut self, max_items: usize) -> (batch: Vec<T>)
        ensures
            batch@ == old(self).values@.take(batch_len(old(self).values@.len(), max_items) as int),
            final(self).values@ == old(self).values@.skip(batch_len(old(self).values@.len(), max_items) as int),
            final(self).sender_alive == old(self).sender_alive,
            final(self).done == old(self).done,
            final(self).waker == old(self).waker,
    {
        let available: usize = self.values.len();
        let count: usize = if available < max_items {
            available
        } else {
            max_items
        };
        let mut rest = self.values.split_off(count);
        core::mem::swap(&mut rest, &mut self.values);
        proof {
            assert(rest@ =~= old(self).values@.take(count as int));
            assert(self.values@ =~= old(self).values@.skip(count as int));
        }
        rest
    }
}

impl StreamReply {
    /// Whether a receiver has to wait for a value or the end.
    pub fn must_wait<T, W>(&self, state: &StreamState<T, W>) -> (wait: bool)
        ensures
            wait == state.must_wait(),
    {
        state.values.len() == 0 && state.sender_alive
    }

    /// Returns all available values up to `max_items`, once there is one or none
    /// will come.
    ///
    /// Returns an empty vector when the sender is dropped and no values remain;
    /// from then on no value is accepted.
    pub fn recv_batch<T, W>(&mut self, state: &mut StreamState<T, W>, max_items: usize) -> (result:
        Result<Vec<T>, StreamError>)
        requires
            !old(state).must_wait(),
        ensures
            result is Ok,
            result->Ok_0@ == old(state).values@.take(batch_len(old(state).values@.len(), max_items) as int),
            final(state).values@
                == old(state).values@.skip(batch_len(old(state).values@.len(), max_items) as int),
            final(state).sender_alive == old(state).sender_alive,
            final(state).done == (old(state).done || old(state).exhausted()),
            final(state).waker == old(state).waker,
    {
        if state.values.len() > 0 {
            return Ok(state.take_batch(max_items));
        }
        state.done = true;
        let batch: Vec<T> = Vec::new();
        proof {
            assert(batch@ =~= old(state).values@.take(0));
            assert(state.values@ =~= old(state).values@.skip(0));
        }
        Ok(batch)
    }

    /// Returns the next value, once there is one or none will come. Nothing where
    /// none will come.
    pub fn recv<T, W>(&mut self, state: &mut StreamState<T, W>) -> (result: Result<
        Option<T>,
        StreamError,
    >)
        requires
            !old(state).must_wait(),
        ensures
            result is Ok,
            old(state).values@.len() > 0 ==> {
                &&& result->Ok_0 == Some(old(state).values@[0])
                &&& final(state).values@ == old(state).values@.drop_first()
            },
            old(state).values@.len() == 0 ==> {
                &&& result->Ok_0 is None
                &&& final(state).values@ == old(state).values@
            },
            final(state).sender_alive == old(state).sender_alive,
            final(state).done == (old(state).done || old(state).exhausted()),
            final(state).waker == old(state).waker,
    {
        match self.recv_batch(state, 1) {
            Ok(batch) => {
                let mut batch = batch;
                let ghost whole = batch@;
                let value = batch.pop();
                proof {
                    if old(state).values@.len() > 0 {
                        assert(whole =~= seq![old(state).values@[0]]);
                        assert(state.values@ =~= old(state).values@.drop_first());
                    } else {
                        assert(whole.len() == 0);
                        assert(state.values@ =~= old(state).values@);
                    }
                }
                Ok(value)
            },
            Err(error) => Err(error),
        }
    }

    /// Looks for values without waiting: nothing where there are none but the
    /// sender is alive, and an error where the sender is gone and no values remain.
    pub fn try_recv<T, W>(&mut self, state: &mut StreamState<T, W>, max_items: usize) -> (result:
        Result<Option<Vec<T>>, StreamError>)
        ensures
            old(state).values@.len() > 0 ==> {
                &&& result is Ok
                &&& result->Ok_0 is Some
                &&& result->Ok_0->0@ == old(state).values@.take(
                    batch_len(old(state).values@.len(), max_items) as int,
                )
                &&& final(state).values@ == old(state).values@.skip(
                    batch_len(old(state).values@.len(), max_items) as int,
                )
            },
            old(state).must_wait() ==> result == Ok::<Option<Vec<T>>, StreamError>(None)
                && *final(state) == *old(state),
            old(state).exhausted() ==> result == Err::<Option<Vec<T>>, StreamError>(
                StreamError::SenderDropped,
            ) && *final(state) == *old(state),
            final(state).sender_alive == old(state).sender_alive,
            final(state).done == old(state).done,
            final(state).waker == old(state).waker,
    {
        if state.values.len() > 0 {
            return Ok(Some(state.take_batch(max_items)));
        }
        if !state.sender_alive {
            return Err(StreamError::SenderDropped);
        }
        Ok(None)
    }

    /// Collects all remaining values, once the sender is gone.
    pub fn collect<T, W>(self, state: &mut StreamState<T, W>) -> (result: Result<
        Vec<T>,
        StreamError,
    >)
        requires
            !old(state).sender_alive,
        ensures
            result is Ok,
            result->Ok_0@ == old(state).values@,
            final(state).values@ == Seq::<T>::empty(),
            !final(state).sender_alive,
            final(state).done,
            final(state).waker == old(state).waker,
    {
        let mut reply = self;
        let mut all: Vec<T> = Vec::new();
        let ghost given = state.values@;
        loop
            invariant
                all@ + state.values@ == given,
                !state.sender_alive,
                given == old(state).values@,
                state.waker == old(state).waker,
            ensures
                state.values@.len() == 0,
                state.done,
            decreases state.values@.len(),
        {
            let available: usize = state.values.len();
            let ghost left = state.values@;
            let ghost had = all@;
            let batch = match reply.recv_batch(state, usize::MAX) {
                Ok(batch) => batch,
                Err(error) => {
                    return Err(error);
                },
            };
            if batch.is_empty() {
                proof {
                    if left.len() > 0 {
                        assert(left.take(left.len() as int).len() > 0);
                    }
                }
                break;
            }
            let mut batch = batch;
            all.append(&mut batch);
            proof {
                assert(left.len() == available);
                assert(left.skip(left.len() as int).len() == 0);
                assert(all@ + state.values@ =~= had + left);
            }
        }
        proof {
            assert(all@ =~= given);
            assert(state.values@ =~= Seq::<T>::empty());
        }
        reply.release(state);
        Ok(all)
    }

    /// Folds all remaining values into an accumulator, once the sender is gone.
    pub fn fold<T, W, Acc, F: Fn(Acc, T) -> Acc>(
        self,
        state: &mut StreamState<T, W>,
        acc: Acc,
        f: F,
    ) -> (result: Result<Acc, StreamError>)
        requires
            !old(state).sender_alive,
            forall|a: Acc, value: T| #[trigger] f.requires((a, value)),
        ensures
            result is Ok,
            folds(f, acc, old(state).values@, result->Ok_0),
            final(state).values@ == Seq::<T>::empty(),
            !final(state).sender_alive,
            final(state).done,
            final(state).waker == old(state).waker,
    {
        let values = match self.collect(state) {
            Ok(values) => values,
            Err(error) => {
                return Err(error);
            },
        };
        let ghost all = values@;
        let ghost first = acc;
        let mut acc = acc;
        assert(all.take(0) =~= Seq::empty());
        for value in it: values
            invariant
                it.seq() == all,
                forall|a: Acc, value: T| #[trigger] f.requires((a, value)),
                folds(f, first, all.take(it.index() as int), acc),
        {
            let ghost before = acc;
            acc = f(acc, value);
            proof {
                let i = it.index() as int;
                assert(all.take(i + 1).drop_last() =~= all.take(i));
                assert(f.ensures((before, all.take(i + 1).last()), acc));
            }
        }
        assert(all.take(all.len() as int) =~= all);
        Ok(acc)
    }

    /// Whether all values have been received and the sender is done.
    pub fn is_done<T, W>(&self, state: &StreamState<T, W>) -> (done: bool)
        ensures
            done == state.exhausted(),
    {
        !state.sender_alive && state.values.len() == 0
    }

    /// Refuses further values when the receiver goes away.
    pub fn release<T, W>(self, state: &mut StreamState<T, W>)
        ensures
            final(state).done,
            !final(state).sender_alive,
            final(state).values == old(state).values,
            final(state).waker == old(state).waker,
    {
        state.done = true;
        state.sender_alive = false;
    }

    /// The receiver as a future that yields one batch at a time.
    pub fn into_async(self) -> (future: StreamFuture)
        ensures
            future.reply == self,
    {
        StreamFuture { reply: self }
    }
}

/// Whether `result` comes of folding values with `f` from the first to the last.
pub open spec fn folds<Acc, T, F: Fn(Acc, T) -> Acc>(
    f: F,
    first: Acc,
    values: Seq<T>,
    result: Acc,
) -> bool
    decreases values.len(),
{
    if values.len() == 0 {
        result == first
    } else {
        exists|before: Acc|
            folds(f, first, values.drop_last(), before) && #[trigger] f.ensures(
                (before, values.last()),
                result,
            )
    }
}

/// A poll of a stream.
pub enum StreamPoll<T> {
    /// A batch, or nothing where the stream is exhausted.
    Ready(Result<Option<Vec<T>>, StreamError>),
    /// No value yet; the waker is noted.
    Pending,
}

/// A stream reply that is polled.
#[must_use]
#[derive(Debug, Clone, Copy, PartialEq, Eq, Structural)]
pub struct StreamFuture {
    /// The receiving side.
    pub reply: StreamReply,
}

impl StreamFuture {
    /// Takes what has come, or notes the waker where nothing has.
    pub fn poll<T, W>(&mut self, state: &mut StreamState<T, W>, waker: W) -> (poll: StreamPoll<T>)
        ensures
            old(state).values@.len() > 0 ==> {
                &&& poll matches StreamPoll::Ready(Ok(Some(batch)))
                &&& poll->Ready_0->Ok_0->0@ == old(state).values@
                &&& final(state).values@ == Seq::<T>::empty()
                &&& final(state).waker == old(state).waker
            },
            old(state).exhausted() ==> poll == StreamPoll::<T>::Ready(Ok(None)) && *final(state)
                == *old(state),
            old(state).must_wait() ==> {
                &&& poll is Pending
                &&& final(state).waker == Some(waker)
                &&& final(state).values@ == old(state).values@
            },
            final(state).sender_alive == old(state).sender_alive,
            final(state).done == old(state).done,
    {
        let available: usize = state.values.len();
        match self.reply.try_recv(state, usize::MAX) {
            Ok(Some(batch)) => {
                proof {
                    assert(old(state).values@.len() == available);
                    assert(batch@ =~= old(state).values@);
                    assert(state.values@ =~= Seq::<T>::empty());
                }
                StreamPoll::Ready(Ok(Some(batch)))
            },
            Ok(None) => {
                state.waker = Some(waker);
                StreamPoll::Pending
            },
            Err(StreamError::SenderDropped) => StreamPoll::Ready(Ok(None)),
            Err(error) => StreamPoll::Ready(Err(error)),
        }
    }
}

/// A shard-local streaming producer: the stream with both its ends.
pub struct StreamProducer<T, W> {
    /// What the ends share.
    pub state: StreamState<T, W>,
    /// The sending end used by the shard to push values.
    pub sender: StreamSender,
    /// The receiving end returned to the caller.
    pub reply: StreamReply,
}

impl<T, W> StreamProducer<T, W> {
    /// Creates a new streaming producer/reply pair.
    pub fn new() -> (producer: Self)
        ensures
            producer.state.values@ == Seq::<T>::empty(),
            producer.state.sender_alive,
            !producer.state.done,
            producer.state.waker is None,
    {
        let (state, sender, reply) = stream_channel();
        StreamProducer { state, sender, reply }
    }
}

impl<T, W> Default for StreamProducer<T, W> {
    fn default() -> (producer: Self)
        ensures
            producer.state.values@ == Seq::<T>::empty(),
            producer.state.sender_alive,
            !producer.state.done,
            producer.state.waker is None,
    {
        StreamProducer::new()
    }
}

/// What happens on a stream, seen from outside.
pub enum StreamStep<T> {
    /// A value was accepted.
    Sent(T),
    /// At most so many values were taken.
    Received(usize),
}

/// Values taken and values left after steps on a stream.
pub open spec fn stream_after<T>(steps: Seq<StreamStep<T>>) -> (Seq<T>, Seq<T>)
    decreases steps.len(),
{
    if steps.len() == 0 {
        (Seq::empty(), Seq::empty())
    } else {
        let (received, left) = stream_after(steps.drop_last());
        match steps.last() {
            StreamStep::Sent(value) => (received, left.push(value)),
            StreamStep::Received(max_items) => {
                let n = batch_len(left.len(), max_items) as int;
                (received + left.take(n), left.skip(n))
            },
        }
    }
}

/// The values sent in steps on a stream.
pub open spec fn stream_sent<T>(steps: Seq<StreamStep<T>>) -> Seq<T>
    decreases steps.len(),
{
    if steps.len() == 0 {
        Seq::empty()
    } else {
        match steps.last() {
            StreamStep::Sent(value) => stream_sent(steps.drop_last()).push(value),
            StreamStep::Received(max_items) => stream_sent(steps.drop_last()),
        }
    }
}

/// A stream delivers every value once and in the order in which it was sent: what
/// was received and what is left are what was sent.
pub proof fn stream_delivers_in_order<T>(steps: Seq<StreamStep<T>>)
    ensures
        stream_after(steps).0 + stream_after(steps).1 == stream_sent(steps),
    decreases steps.len(),
{
    if steps.len() > 0 {
        stream_delivers_in_order(steps.drop_last());
        let (received, left) = stream_after(steps.drop_last());
        match steps.last() {
            StreamStep::Sent(value) => {
                assert(received + left.push(value) =~= (received + left).push(value));
            },
            StreamStep::Received(max_items) => {
                let n = batch_len(left.len(), max_items) as int;
                assert(received + left.take(n) + left.skip(n) =~= received + left);
            },
        }
    } else {
        assert(stream_after(steps).0 + stream_after(steps).1 =~= stream_sent(steps));
    }
}

/// A batch is as large as it can be: all there is, or as much as was asked for. Together
/// with what is left it is what there was, in order.
pub proof fn batch_is_as_large_as_it_can_be<T>(values: Seq<T>, max_items: usize)
    ensures
        ({
            let n = batch_len(values.len(), max_items) as int;
            &&& n <= values.len() && n <= max_items
            &&& n == values.len() || n == max_items
            &&& values.take(n) + values.skip(n) == values
            &&& values.len() > 0 && max_items > 0 ==> n > 0
        }),
{
    let n = batch_len(values.len(), max_items) as int;
    assert(values.take(n) + values.skip(n) =~= values);
}

/// A receiver finds values, waits for one, or learns that none will come: always exactly
/// one of the three.
pub proof fn receiver_reads_waits_or_ends<T, W>(state: StreamState<T, W>)
    ensures
        state.values@.len() > 0 ==> !state.must_wait() && !state.exhausted(),
        state.values@.len() == 0 && state.sender_alive ==> state.must_wait()
            && !state.exhausted(),
        state.values@.len() == 0 && !state.sender_alive ==> !state.must_wait()
            && state.exhausted(),
{
}

/// Folding with a function that computes `step` gives what folding the values with
/// `step`, first to last, gives.
pub proof fn fold_takes_values_first_to_last<Acc, T, F: Fn(Acc, T) -> Acc>(
    f: F,
    step: spec_fn(Acc, T) -> Acc,
    first: Acc,
    values: Seq<T>,
    result: Acc,
)
    requires
        forall|acc: Acc, value: T, out: Acc| #[trigger]
            f.ensures((acc, value), out) ==> out == step(acc, value),
        folds(f, first, values, result),
    ensures
        result == values.fold_left(first, step),
    decreases values.len(),
{
    if values.len() > 0 {
        let before = choose|before: Acc|
            folds(f, first, values.drop_last(), before) && #[trigger] f.ensures(
                (before, values.last()),
                result,
            );
        fold_takes_values_first_to_last(f, step, first, values.drop_last(), before);
    }
}

/// A receipt takes the oldest values that were sent and not received, at most as many as
/// it asks for; a value that is sent is received behind all that were sent before it.
pub proof fn receipt_takes_the_oldest_values<T>(
    steps: Seq<StreamStep<T>>,
    value: T,
    max_items: usize,
)
    ensures
        ({
            let (received, left) = stream_after(steps);
            let sent = stream_after(steps.push(StreamStep::Sent(value)));
            let taken = stream_after(steps.push(StreamStep::Received(max_items)));
            &&& sent.0 == received && sent.1 == left.push(value)
            &&& received.is_prefix_of(taken.0)
            &&& taken.0 + taken.1 == received + left
            &&& taken.0.len() - received.len() <= max_items
            &&& taken.1.len() > 0 ==> taken.0.len() - received.len() == max_items
        }),
{
    assert(steps.push(StreamStep::Sent(value)).drop_last() =~= steps);
    assert(steps.push(StreamStep::Received(max_items)).drop_last() =~= steps);
    let (received, left) = stream_after(steps);
    let n = batch_len(left.len(), max_items) as int;
    assert((received + left.take(n)) + left.skip(n) =~= received + left);
    assert((received + left.take(n)).take(received.len() as int) =~= received);
}

/// A stream error says which side is gone.
pub proof fn stream_error_says_which_side_is_gone()
    ensures
        StreamError::SenderDropped.text() == "stream sender dropped unexpectedly"@,
        StreamError::ReceiverDropped.text() == "stream receiver dropped early"@,
{
}

} // verus!
