//! Reads and writes at an offset through the executor's completion ring.

use vstd::prelude::*;

use crate::endian::push_bytes;
use crate::io_error::{ErrorKind, IoError};
use crate::os::dispatcher::{
    delivered_all, dispatched_done, dispatched_ring, polled, released, woken_by_all,
    IoUringDispatcher, IoUringDispatcherSnapshot, IoUringOperationFuture,
};
use crate::os::sqe::{IORING_OP_READ, IORING_OP_WRITE};
use crate::os::uring::{
    buffer_entry, tracked_buffer_result, IoUring, IoUringOperationId, IoUringOperationKind,
};
use crate::platform::Platform;

verus! {

/// Submission slots of an executor's ring.
pub const EXECUTOR_IO_URING_ENTRIES: u32 = 256;

/// Completions that an executor dispatches at a time.
pub const EXECUTOR_IO_URING_COMPLETION_BUDGET: usize = 64;

/// Waits that an executor spends on outstanding completions when it ends.
pub const EXECUTOR_IO_URING_SHUTDOWN_DRAIN_WAITS: usize = 8;

/// The number of the operating system error that a negative result stands for: the
/// negated result, which wraps around where it is out of range.
pub open spec fn error_number(result: i32) -> i32 {
    if result == i32::MIN {
        result
    } else {
        (-result) as i32
    }
}

/// The number that a completion reports; a negative result is the negated number
/// of an operating system error.
pub fn completion_result_to_usize(result: i32) -> (outcome: Result<usize, IoError>)
    ensures
        result >= 0 ==> outcome == Ok::<usize, IoError>(result as usize),
        result < 0 ==> outcome is Err && outcome->Err_0.is_os(
            Platform::Linux,
            error_number(result),
        ),
{
    if result < 0 {
        let number: i32 = if result == i32::MIN {
            result
        } else {
            -result
        };
        return Err(IoError::from_raw_os_error(Platform::Linux, number));
    }
    Ok(result as usize)
}

/// The I/O error of a thread without a completion ring.
pub fn unavailable() -> (error: IoError)
    ensures
        error.says(ErrorKind::Unsupported, "executor io_uring backend is unavailable"@),
{
    IoError::new(ErrorKind::Unsupported, "executor io_uring backend is unavailable")
}

/// Whether an executor has to watch its ring while it waits: where someone waits
/// for a completion or entries are not submitted yet.
pub fn should_wait(snapshot: Option<IoUringDispatcherSnapshot>) -> (wait: bool)
    ensures
        wait == match snapshot {
            Some(s) => s.registered_wakers > 0 || s.ring.pending_submissions > 0,
            None => false,
        },
{
    match snapshot {
        Some(s) => s.registered_wakers > 0 || s.ring.pending_submissions > 0,
        None => false,
    }
}

/// Whether an executor that ends goes on waiting for outstanding completions,
/// after `waits` waits: only where nobody waits for one any more, operations are
/// under way, and its waits are not used up.
pub fn should_drain(snapshot: IoUringDispatcherSnapshot, waits: usize) -> (drain: bool)
    ensures
        drain == (snapshot.registered_wakers == 0 && snapshot.ring.tracked_operations > 0 && waits
            < EXECUTOR_IO_URING_SHUTDOWN_DRAIN_WAITS),
{
    snapshot.registered_wakers == 0 && snapshot.ring.tracked_operations > 0 && waits
        < EXECUTOR_IO_URING_SHUTDOWN_DRAIN_WAITS
}

/// Dispatches a budget's worth of completions. Returns their number, the wakers
/// to wake, and whether the budget was used up.
pub fn dispatch_budget<W>(dispatcher: &mut IoUringDispatcher<W>) -> (result: (
    usize,
    Vec<W>,
    bool,
))
    requires
        old(dispatcher).wf(),
    ensures
        final(dispatcher).wf(),
        final(dispatcher).ring.sq_mask == old(dispatcher).ring.sq_mask,
        final(dispatcher).ring.cq_mask == old(dispatcher).ring.cq_mask,
        ({
            let limit = EXECUTOR_IO_URING_COMPLETION_BUDGET as nat;
            let done = dispatched_done(old(dispatcher).ring@, limit);
            &&& result.0 == done.len()
            &&& result.1@ == woken_by_all(old(dispatcher).board(), done)
            &&& result.2 == (done.len() == limit)
            &&& final(dispatcher).board() == delivered_all(old(dispatcher).board(), done)
            &&& final(dispatcher).ring@ == dispatched_ring(old(dispatcher).ring@, limit)
        }),
{
    let (dispatched, woken) = dispatcher.dispatch_available_limit(
        EXECUTOR_IO_URING_COMPLETION_BUDGET,
    );
    (dispatched, woken, dispatched == EXECUTOR_IO_URING_COMPLETION_BUDGET)
}

/// Reads exactly `len` bytes from `offset` on, however short the single reads
/// are.
pub struct ReadExactAt {
    /// Where the read starts.
    pub offset: u64,
    /// Number of bytes wanted.
    pub len: usize,
    /// Bytes read so far.
    pub output: Vec<u8>,
}

/// One read to make.
#[derive(Debug, Clone, Copy, PartialEq, Eq, Structural)]
pub struct ReadRequest {
    /// Where to read.
    pub offset: u64,
    /// How much at most.
    pub len: usize,
}

impl ReadExactAt {
    /// No more is read than is wanted.
    pub open spec fn wf(&self) -> bool {
        self.output@.len() <= self.len
    }

    /// Starts a read of `len` bytes at `offset`.
    pub fn new(offset: u64, len: usize) -> (read: Self)
        ensures
            read.wf(),
            read.offset == offset,
            read.len == len,
            read.output@ == Seq::<u8>::empty(),
    {
        ReadExactAt { offset, len, output: Vec::new() }
    }

    /// The next read: behind what was read, for what is missing; nothing where
    /// everything is there. A further read has to start within the range of
    /// offsets.
    pub fn next(&self) -> (request: Option<ReadRequest>)
        requires
            self.wf(),
            self.output@.len() < self.len ==> self.offset + self.output@.len() <= u64::MAX,
        ensures
            request == if self.output@.len() < self.len {
                Some(
                    ReadRequest {
                        offset: (self.offset + self.output@.len()) as u64,
                        len: (self.len - self.output@.len()) as usize,
                    },
                )
            } else {
                None
            },
    {
        if self.output.len() < self.len {
            Some(
                ReadRequest {
                    offset: self.offset + self.output.len() as u64,
                    len: self.len - self.output.len(),
                },
            )
        } else {
            None
        }
    }

    /// Takes what a read returned. The end of the data before everything is
    /// there is an error.
    pub fn on_read(&mut self, bytes: &[u8]) -> (result: Result<(), IoError>)
        requires
            old(self).wf(),
            bytes@.len() <= old(self).len - old(self).output@.len(),
        ensures
            final(self).wf(),
            final(self).offset == old(self).offset,
            final(self).len == old(self).len,
            final(self).output@ == old(self).output@ + bytes@,
            result is Err <==> bytes@.len() == 0,
            result matches Err(error) ==> error.says(
                ErrorKind::UnexpectedEof,
                "io_uring read reached EOF before filling the requested buffer"@,
            ),
    {
        if bytes.len() == 0 {
            assert(self.output@ + bytes@ =~= self.output@);
            return Err(
                IoError::new(
                    ErrorKind::UnexpectedEof,
                    "io_uring read reached EOF before filling the requested buffer",
                ),
            );
        }
        push_bytes(&mut self.output, bytes);
        Ok(())
    }
}

/// Writes a whole buffer from `offset` on, however short the single writes are.
pub struct WriteAllAt {
    /// Where the next write starts.
    pub offset: u64,
    /// What is left to write.
    pub buffer: Vec<u8>,
}

/// Completion returned by a single write operation.
#[must_use]
#[derive(Debug, Clone, PartialEq, Eq)]
pub struct WriteAtUringCompletion {
    /// Number of bytes accepted by the kernel.
    pub bytes: usize,
    /// Original owned write buffer.
    pub buffer: Vec<u8>,
}

/// What is left of a buffer after its first `written` bytes were written.
pub open spec fn left_to_write(buffer: Seq<u8>, written: nat) -> Seq<u8> {
    if written >= buffer.len() {
        Seq::empty()
    } else {
        buffer.skip(written as int)
    }
}

/// Short writes lose and repeat nothing: what was written and what is left make up
/// the buffer, and less is left than before.
pub proof fn short_writes_cover_the_buffer(buffer: Seq<u8>, written: nat)
    requires
        0 < written <= buffer.len(),
    ensures
        buffer.take(written as int) + left_to_write(buffer, written) == buffer,
        left_to_write(buffer, written).len() < buffer.len(),
{
    assert(buffer.take(written as int) + left_to_write(buffer, written) =~= buffer);
}

impl WriteAllAt {
    /// Starts a write of `buffer` at `offset`.
    pub fn new(offset: u64, buffer: Vec<u8>) -> (write: Self)
        ensures
            write.offset == offset,
            write.buffer == buffer,
    {
        WriteAllAt { offset, buffer }
    }

    /// Whether everything is written.
    pub fn is_done(&self) -> (done: bool)
        ensures
            done == (self.buffer@.len() == 0),
    {
        self.buffer.len() == 0
    }

    /// Takes what a write of the buffer came to: what was not written is left,
    /// behind what was. A kernel that takes nothing is an error.
    pub fn on_write(&mut self, completion: WriteAtUringCompletion) -> (result: Result<(), IoError>)
        requires
            old(self).offset + completion.bytes <= u64::MAX,
        ensures
            result is Err <==> completion.bytes == 0,
            result matches Err(error) ==> *final(self) == *old(self) && error.says(
                ErrorKind::WriteZero,
                "io_uring write accepted zero bytes"@,
            ),
            result is Ok ==> final(self).offset == old(self).offset + completion.bytes,
            result is Ok ==> final(self).buffer@ == left_to_write(
                completion.buffer@,
                completion.bytes as nat,
            ),
    {
        let written: usize = completion.bytes;
        if written == 0 {
            return Err(IoError::new(ErrorKind::WriteZero, "io_uring write accepted zero bytes"));
        }
        self.offset = self.offset + written as u64;
        let mut rest: Vec<u8> = Vec::new();
        let mut i: usize = written;
        let ghost all = completion.buffer@;
        while i < completion.buffer.len()
            invariant
                written <= i,
                all == completion.buffer@,
                i > written ==> i <= all.len(),
                written < all.len() ==> i <= all.len() && rest@ == all.subrange(
                    written as int,
                    i as int,
                ),
                written >= all.len() ==> i == written && rest@ == Seq::<u8>::empty(),
            decreases completion.buffer.len() - i,
        {
            rest.push(completion.buffer[i]);
            i = i + 1;
            assert(rest@ =~= all.subrange(written as int, i as int));
        }
        assert(written < all.len() ==> rest@ =~= all.skip(written as int));
        self.buffer = rest;
        Ok(())
    }
}

/// What polling a read or write at an offset came to.
pub struct UringPoll<T, W> {
    /// The outcome, once it is there.
    pub ready: Option<Result<T, IoError>>,
    /// Wakers of other operations that completed meanwhile.
    pub woken: Vec<W>,
}

/// One read at an offset that owns its buffer.
pub struct ReadAtUring {
    /// Descriptor to read from.
    pub fd: i32,
    /// Where to read.
    pub offset: u64,
    /// The buffer, until it is given back.
    pub buffer: Option<Vec<u8>>,
    /// The operation, once it is queued.
    pub operation: Option<IoUringOperationId>,
}

/// Returns a read of up to `buffer.len()` bytes from `fd` at `offset`.
pub fn read_at_uring(fd: i32, offset: u64, buffer: Vec<u8>) -> (read: ReadAtUring)
    ensures
        read == (ReadAtUring { fd, offset, buffer: Some(buffer), operation: None }),
{
    ReadAtUring { fd, offset, buffer: Some(buffer), operation: None }
}

impl ReadAtUring {
    /// Queues the read, once. `buffer_addr` is where the buffer lies; the caller
    /// keeps it there until the completion is observed.
    pub fn ensure_queued(&mut self, ring: &mut IoUring, buffer_addr: u64) -> (result: Result<
        (),
        IoError,
    >)
        requires
            old(ring).wf(),
            old(self).buffer is Some,
        ensures
            final(ring).wf(),
            final(ring).sq_mask == old(ring).sq_mask,
            final(ring).cq_mask == old(ring).cq_mask,
            final(self).fd == old(self).fd,
            final(self).offset == old(self).offset,
            final(self).buffer == old(self).buffer,
            old(self).operation is Some ==> result is Ok && *final(ring) == *old(ring)
                && *final(self) == *old(self),
            old(self).operation is None ==> tracked_buffer_result(
                old(ring)@,
                old(ring).sq_mask,
                IoUringOperationKind::Read,
                buffer_entry(
                    IORING_OP_READ,
                    old(self).fd,
                    buffer_addr,
                    old(self).buffer->0@.len() as usize,
                    old(self).offset,
                ),
                old(self).buffer->0@.len() as usize,
                (match result {
                    Ok(()) => Ok::<IoUringOperationId, IoError>(final(self).operation->0),
                    Err(error) => Err(error),
                }),
                final(ring)@,
            ),
            result is Ok ==> final(self).operation is Some,
            result is Err ==> final(self).operation is None,
    {
        if self.operation.is_some() {
            return Ok(());
        }
        let len: usize = match &self.buffer {
            Some(buffer) => buffer.len(),
            None => 0,
        };
        match ring.queue_read_operation(self.fd, buffer_addr, len, self.offset) {
            Ok(operation) => {
                self.operation = Some(operation);
                Ok(())
            },
            Err(error) => Err(error),
        }
    }

    /// Takes the completion of the queued read where it is there: the buffer,
    /// cut to what was read, or the error. Otherwise leaves `waker` for it.
    pub fn poll<W>(&mut self, dispatcher: &mut IoUringDispatcher<W>, waker: W) -> (poll: UringPoll<
        Vec<u8>,
        W,
    >)
        requires
            old(dispatcher).wf(),
            old(self).operation is Some,
            old(self).buffer is Some,
        ensures
            final(dispatcher).wf(),
            final(dispatcher).ring.sq_mask == old(dispatcher).ring.sq_mask,
            final(dispatcher).ring.cq_mask == old(dispatcher).ring.cq_mask,
            final(self).fd == old(self).fd,
            final(self).offset == old(self).offset,
            ({
                let done = dispatched_done(old(dispatcher).ring@, usize::MAX as nat);
                let board = delivered_all(old(dispatcher).board(), done);
                let id = (old(self).operation->0).0;
                let complete = board.completions.contains_key(id);
                let result = board.completions[id].result;
                &&& poll.woken@ == woken_by_all(old(dispatcher).board(), done)
                &&& final(dispatcher).board() == polled(board, old(self).operation->0, waker)
                &&& final(dispatcher).ring@ == dispatched_ring(
                    old(dispatcher).ring@,
                    usize::MAX as nat,
                )
                &&& poll.ready is Some <==> complete
                &&& complete && result >= 0 ==> poll.ready->0 is Ok && poll.ready->0->Ok_0@
                    == truncated(old(self).buffer->0@, result as nat) && final(self).buffer is None
                    && final(self).operation is None
                &&& complete && result < 0 ==> poll.ready->0 is Err && poll.ready->0->Err_0.is_os(
                    Platform::Linux,
                    error_number(result),
                ) && *final(self) == *old(self)
                &&& !complete ==> *final(self) == *old(self)
            }),
    {
        let operation = IoUringOperationFuture::new(self.operation.unwrap());
        let polled_operation = operation.poll(dispatcher, waker);
        match polled_operation.completion {
            None => UringPoll { ready: None, woken: polled_operation.woken },
            Some(completion) => {
                match completion_result_to_usize(completion.result) {
                    Err(error) => UringPoll {
                        ready: Some(Err(error)),
                        woken: polled_operation.woken,
                    },
                    Ok(read) => {
                        let mut buffer = self.buffer.take().unwrap();
                        buffer.truncate(read);
                        self.operation = None;
                        UringPoll { ready: Some(Ok(buffer)), woken: polled_operation.woken }
                    },
                }
            },
        }
    }

    /// Gives up: the buffer of a read that is queued goes to the dispatcher.
    pub fn release<W>(&mut self, dispatcher: &mut IoUringDispatcher<W>)
        ensures
            final(dispatcher).ring == old(dispatcher).ring,
            final(self).fd == old(self).fd,
            final(self).offset == old(self).offset,
            final(self).buffer is None,
            final(self).operation == old(self).operation,
            final(dispatcher).board() == match (old(self).operation, old(self).buffer) {
                (Some(operation), Some(buffer)) => released(
                    old(dispatcher).board(),
                    operation.0,
                    Some(buffer),
                ),
                _ => old(dispatcher).board(),
            },
    {
        match (self.operation, self.buffer.take()) {
            (Some(operation), Some(buffer)) => {
                dispatcher.defer_buffer_drop(operation, buffer);
            },
            _ => {},
        }
    }
}

/// The first `n` bytes, or all where there are fewer.
pub open spec fn truncated(bytes: Seq<u8>, n: nat) -> Seq<u8> {
    if n <= bytes.len() {
        bytes.take(n as int)
    } else {
        bytes
    }
}

/// One write at an offset that owns its buffer.
pub struct WriteAtUring {
    /// Descriptor to write to.
    pub fd: i32,
    /// Where to write.
    pub offset: u64,
    /// The buffer, until it is given back.
    pub buffer: Option<Vec<u8>>,
    /// The operation, once it is queued.
    pub operation: Option<IoUringOperationId>,
}

/// Returns a single write of `buffer` to `fd` at `offset`.
pub fn write_at_uring(fd: i32, offset: u64, buffer: Vec<u8>) -> (write: WriteAtUring)
    ensures
        write == (WriteAtUring { fd, offset, buffer: Some(buffer), operation: None }),
{
    WriteAtUring { fd, offset, buffer: Some(buffer), operation: None }
}

impl WriteAtUring {
    /// Queues the write, once. `buffer_addr` is where the buffer lies; the caller
    /// keeps it there until the completion is observed.
    pub fn ensure_queued(&mut self, ring: &mut IoUring, buffer_addr: u64) -> (result: Result<
        (),
        IoError,
    >)
        requires
            old(ring).wf(),
            old(self).buffer is Some,
        ensures
            final(ring).wf(),
            final(ring).sq_mask == old(ring).sq_mask,
            final(ring).cq_mask == old(ring).cq_mask,
            final(self).fd == old(self).fd,
            final(self).offset == old(self).offset,
            final(self).buffer == old(self).buffer,
            old(self).operation is Some ==> result is Ok && *final(ring) == *old(ring)
                && *final(self) == *old(self),
            old(self).operation is None ==> tracked_buffer_result(
                old(ring)@,
                old(ring).sq_mask,
                IoUringOperationKind::Write,
                buffer_entry(
                    IORING_OP_WRITE,
                    old(self).fd,
                    buffer_addr,
                    old(self).buffer->0@.len() as usize,
                    old(self).offset,
                ),
                old(self).buffer->0@.len() as usize,
                (match result {
                    Ok(()) => Ok::<IoUringOperationId, IoError>(final(self).operation->0),
                    Err(error) => Err(error),
                }),
                final(ring)@,
            ),
            result is Ok ==> final(self).operation is Some,
            result is Err ==> final(self).operation is None,
    {
        if self.operation.is_some() {
            return Ok(());
        }
        let len: usize = match &self.buffer {
            Some(buffer) => buffer.len(),
            None => 0,
        };
        match ring.queue_write_operation(self.fd, buffer_addr, len, self.offset) {
            Ok(operation) => {
                self.operation = Some(operation);
                Ok(())
            },
            Err(error) => Err(error),
        }
    }

    /// Takes the completion of the queued write where it is there: the number of
    /// bytes taken and the buffer, or the error. Otherwise leaves `waker` for it.
    pub fn poll<W>(&mut self, dispatcher: &mut IoUringDispatcher<W>, waker: W) -> (poll: UringPoll<
        WriteAtUringCompletion,
        W,
    >)
        requires
            old(dispatcher).wf(),
            old(self).operation is Some,
            old(self).buffer is Some,
        ensures
            final(dispatcher).wf(),
            final(dispatcher).ring.sq_mask == old(dispatcher).ring.sq_mask,
            final(dispatcher).ring.cq_mask == old(dispatcher).ring.cq_mask,
            final(self).fd == old(self).fd,
            final(self).offset == old(self).offset,
            ({
                let done = dispatched_done(old(dispatcher).ring@, usize::MAX as nat);
                let board = delivered_all(old(dispatcher).board(), done);
                let id = (old(self).operation->0).0;
                let complete = board.completions.contains_key(id);
                let result = board.completions[id].result;
                &&& poll.woken@ == woken_by_all(old(dispatcher).board(), done)
                &&& final(dispatcher).board() == polled(board, old(self).operation->0, waker)
                &&& final(dispatcher).ring@ == dispatched_ring(
                    old(dispatcher).ring@,
                    usize::MAX as nat,
                )
                &&& poll.ready is Some <==> complete
                &&& complete && result >= 0 ==> poll.ready->0 == Ok::<
                    WriteAtUringCompletion,
                    IoError,
                >(
                    WriteAtUringCompletion {
                        bytes: result as usize,
                        buffer: old(self).buffer->0,
                    },
                ) && final(self).buffer is None && final(self).operation is None
                &&& complete && result < 0 ==> poll.ready->0 is Err && poll.ready->0->Err_0.is_os(
                    Platform::Linux,
                    error_number(result),
                ) && *final(self) == *old(self)
                &&& !complete ==> *final(self) == *old(self)
            }),
    {
        let operation = IoUringOperationFuture::new(self.operation.unwrap());
        let polled_operation = operation.poll(dispatcher, waker);
        match polled_operation.completion {
            None => UringPoll { ready: None, woken: polled_operation.woken },
            Some(completion) => {
                match completion_result_to_usize(completion.result) {
                    Err(error) => UringPoll {
                        ready: Some(Err(error)),
                        woken: polled_operation.woken,
                    },
                    Ok(bytes) => {
                        let buffer = self.buffer.take().unwrap();
                        self.operation = None;
                        UringPoll {
                            ready: Some(Ok(WriteAtUringCompletion { bytes, buffer })),
                            woken: polled_operation.woken,
                        }
                    },
                }
            },
        }
    }

    /// Gives up: the buffer of a write that is queued goes to the dispatcher.
    pub fn release<W>(&mut self, dispatcher: &mut IoUringDispatcher<W>)
        ensures
            final(dispatcher).ring == old(dispatcher).ring,
            final(self).fd == old(self).fd,
            final(self).offset == old(self).offset,
            final(self).buffer is None,
            final(self).operation == old(self).operation,
            final(dispatcher).board() == match (old(self).operation, old(self).buffer) {
                (Some(operation), Some(buffer)) => released(
                    old(dispatcher).board(),
                    operation.0,
                    Some(buffer),
                ),
                _ => old(dispatcher).board(),
            },
    {
        match (self.operation, self.buffer.take()) {
            (Some(operation), Some(buffer)) => {
                dispatcher.defer_buffer_drop(operation, buffer);
            },
            _ => {},
        }
    }
}

/// A negative result of the kernel stands for the error whose number it negates; the least
/// one, which cannot be negated, stands for itself.
pub proof fn negative_result_negates_an_error_number(result: i32)
    requires
        result < 0,
    ensures
        result != i32::MIN ==> error_number(result) + result == 0 && error_number(result) > 0,
        result == i32::MIN ==> error_number(result) == i32::MIN,
{
}

/// What is kept of a read are its first bytes, as many as were read.
pub proof fn read_keeps_the_bytes_that_came(bytes: Seq<u8>, n: nat)
    ensures
        truncated(bytes, n).is_prefix_of(bytes),
        n <= bytes.len() ==> truncated(bytes, n).len() == n,
        n >= bytes.len() ==> truncated(bytes, n) == bytes,
{
    if n == bytes.len() {
        assert(truncated(bytes, n) =~= bytes);
    }
}

/// What is left to write are the last bytes, as many as were not written.
pub proof fn write_leaves_the_bytes_behind_it(buffer: Seq<u8>, written: nat)
    ensures
        written <= buffer.len() ==> left_to_write(buffer, written).len() == buffer.len() - written,
        written >= buffer.len() ==> left_to_write(buffer, written).len() == 0,
        forall|i: int|
            0 <= i < left_to_write(buffer, written).len() ==> #[trigger] left_to_write(
                buffer,
                written,
            )[i] == buffer[written + i],
{
}

/// An executor's ring has 256 slots; 64 completions are dispatched at a time, and eight
/// waits are spent on what is outstanding when the executor ends.
pub proof fn ring_budgets_are_bounded()
    ensures
        EXECUTOR_IO_URING_ENTRIES == 256,
        EXECUTOR_IO_URING_COMPLETION_BUDGET == 64,
        EXECUTOR_IO_URING_SHUTDOWN_DRAIN_WAITS == 8,
{
}

} // verus!
