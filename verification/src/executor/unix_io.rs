//! Reads, writes, copies and accepts that wait for readiness where the
//! descriptor would block.
//!
//! The system calls are made outside: an operation takes the result of each and
//! says what to do next.

use vstd::prelude::*;

use crate::executor::future::TimeoutError;
use crate::executor::io_interest::{
    is_registered, is_taken, other_id, other_interest, IoInterest,
};
use crate::executor::scheduler::{Registered, Scheduler};
use crate::executor::types::TaskWait;
use crate::io_error::{ErrorKind, IoError, EINTR};
use crate::platform::{numbers_of, Platform};

verus! {

/// What an I/O operation does next.
pub enum IoStep<T> {
    /// Make the system call again.
    Again,
    /// Wait until the descriptor is ready, then make the system call again.
    AwaitReady,
    /// The operation is over.
    Done(Result<T, IoError>),
}

/// The next step after a system call failed: an interrupted call is made again,
/// one that would block waits for readiness, and any other failure is final.
pub open spec fn after_failure<T>(error: IoError) -> IoStep<T> {
    if error.kind == ErrorKind::Interrupted {
        IoStep::Again
    } else if error.kind == ErrorKind::WouldBlock {
        IoStep::AwaitReady
    } else {
        IoStep::Done(Err(error))
    }
}

fn on_failure<T>(error: IoError) -> (step: IoStep<T>)
    ensures
        step == after_failure::<T>(error),
{
    if error.kind == ErrorKind::Interrupted {
        IoStep::Again
    } else if error.kind == ErrorKind::WouldBlock {
        IoStep::AwaitReady
    } else {
        IoStep::Done(Err(error))
    }
}

/// Fills a buffer of `len` bytes.
#[derive(Debug, Clone, Copy, PartialEq, Eq, Structural)]
pub struct ReadExact {
    /// Length of the buffer.
    pub len: usize,
    /// Bytes read so far.
    pub filled: usize,
}

impl ReadExact {
    /// No more is read than fits.
    pub open spec fn wf(&self) -> bool {
        self.filled <= self.len
    }

    /// Starts with an empty buffer of `len` bytes.
    pub fn new(len: usize) -> (read: Self)
        ensures
            read.wf(),
            read == (ReadExact { len, filled: 0 }),
    {
        ReadExact { len, filled: 0 }
    }

    /// The first step: an empty buffer needs no read.
    pub fn start(&self) -> (step: IoStep<()>)
        requires
            self.wf(),
        ensures
            step == if self.filled < self.len {
                IoStep::<()>::Again
            } else {
                IoStep::<()>::Done(Ok(()))
            },
    {
        if self.filled < self.len {
            IoStep::Again
        } else {
            IoStep::Done(Ok(()))
        }
    }

    /// Takes the result of a read into the rest of the buffer. The end of the
    /// data before the buffer is full is an error.
    pub fn on_read(&mut self, result: Result<usize, IoError>) -> (step: IoStep<()>)
        requires
            old(self).wf(),
            old(self).filled < old(self).len,
            result matches Ok(n) ==> n <= old(self).len - old(self).filled,
        ensures
            final(self).wf(),
            final(self).len == old(self).len,
            match result {
                Ok(n) => final(self).filled == old(self).filled + n && if n == 0 {
                    step matches IoStep::Done(Err(error)) && error.says(
                        ErrorKind::UnexpectedEof,
                        "reader reached EOF before buffer was filled"@,
                    )
                } else if final(self).filled == final(self).len {
                    step == IoStep::<()>::Done(Ok(()))
                } else {
                    step is Again
                },
                Err(error) => *final(self) == *old(self) && step == after_failure::<()>(error),
            },
    {
        match result {
            Ok(n) => {
                if n == 0 {
                    return IoStep::Done(
                        Err(
                            IoError::new(
                                ErrorKind::UnexpectedEof,
                                "reader reached EOF before buffer was filled",
                            ),
                        ),
                    );
                }
                self.filled = self.filled + n;
                self.start()
            },
            Err(error) => on_failure(error),
        }
    }
}

/// Writes a buffer of `len` bytes.
#[derive(Debug, Clone, Copy, PartialEq, Eq, Structural)]
pub struct WriteAll {
    /// Length of the buffer.
    pub len: usize,
    /// Bytes written so far.
    pub written: usize,
}

impl WriteAll {
    /// No more is written than there is.
    pub open spec fn wf(&self) -> bool {
        self.written <= self.len
    }

    /// Starts with nothing written of `len` bytes.
    pub fn new(len: usize) -> (write: Self)
        ensures
            write.wf(),
            write == (WriteAll { len, written: 0 }),
    {
        WriteAll { len, written: 0 }
    }

    /// The first step: an empty buffer needs no write.
    pub fn start(&self) -> (step: IoStep<()>)
        requires
            self.wf(),
        ensures
            step == if self.written < self.len {
                IoStep::<()>::Again
            } else {
                IoStep::<()>::Done(Ok(()))
            },
    {
        if self.written < self.len {
            IoStep::Again
        } else {
            IoStep::Done(Ok(()))
        }
    }

    /// Takes the result of a write of the rest of the buffer. A writer that
    /// takes nothing is an error.
    pub fn on_write(&mut self, result: Result<usize, IoError>) -> (step: IoStep<()>)
        requires
            old(self).wf(),
            old(self).written < old(self).len,
            result matches Ok(n) ==> n <= old(self).len - old(self).written,
        ensures
            final(self).wf(),
            final(self).len == old(self).len,
            match result {
                Ok(n) => final(self).written == old(self).written + n && if n == 0 {
                    step matches IoStep::Done(Err(error)) && error.says(
                        ErrorKind::WriteZero,
                        "writer accepted zero bytes before buffer was written"@,
                    )
                } else if final(self).written == final(self).len {
                    step == IoStep::<()>::Done(Ok(()))
                } else {
                    step is Again
                },
                Err(error) => *final(self) == *old(self) && step == after_failure::<()>(error),
            },
    {
        match result {
            Ok(n) => {
                if n == 0 {
                    return IoStep::Done(
                        Err(
                            IoError::new(
                                ErrorKind::WriteZero,
                                "writer accepted zero bytes before buffer was written",
                            ),
                        ),
                    );
                }
                self.written = self.written + n;
                self.start()
            },
            Err(error) => on_failure(error),
        }
    }
}

/// What a copy does next.
pub enum CopyStep {
    /// Read into the buffer.
    Read,
    /// Wait until the reader is ready, then read.
    AwaitReadable,
    /// Write so many bytes of the buffer.
    Write(usize),
    /// The copy is over.
    Done(Result<u64, IoError>),
}

/// Copies from a reader to a writer until the reader is at its end.
#[derive(Debug, Clone, Copy, PartialEq, Eq, Structural)]
pub struct CopyTransfer {
    /// Length of the buffer.
    pub buffer_len: usize,
    /// Bytes copied so far.
    pub copied: u64,
    /// Bytes that were read and are not written yet.
    pub in_buffer: usize,
}

impl CopyTransfer {
    /// What is read fits the buffer.
    pub open spec fn wf(&self) -> bool {
        0 < self.buffer_len && self.in_buffer <= self.buffer_len
    }

    /// Starts a copy through a buffer, which must not be empty.
    pub fn new(buffer_len: usize) -> (result: Result<CopyTransfer, IoError>)
        ensures
            result is Ok <==> buffer_len > 0,
            result matches Ok(copy) ==> copy.wf() && copy == (CopyTransfer {
                buffer_len,
                copied: 0,
                in_buffer: 0,
            }),
            result matches Err(error) ==> error.says(
                ErrorKind::InvalidInput,
                "copy buffer must not be empty"@,
            ),
    {
        if buffer_len == 0 {
            Err(IoError::new(ErrorKind::InvalidInput, "copy buffer must not be empty"))
        } else {
            Ok(CopyTransfer { buffer_len, copied: 0, in_buffer: 0 })
        }
    }

    /// Takes the result of a read. The end of the data ends the copy with the
    /// number of bytes copied.
    pub fn on_read(&mut self, result: Result<usize, IoError>) -> (step: CopyStep)
        requires
            old(self).wf(),
            old(self).in_buffer == 0,
            result matches Ok(n) ==> n <= old(self).buffer_len,
        ensures
            final(self).wf(),
            final(self).buffer_len == old(self).buffer_len,
            final(self).copied == old(self).copied,
            match result {
                Ok(n) => final(self).in_buffer == n && step == if n == 0 {
                    CopyStep::Done(Ok(old(self).copied))
                } else {
                    CopyStep::Write(n)
                },
                Err(error) => final(self).in_buffer == 0 && step == if error.kind
                    == ErrorKind::Interrupted {
                    CopyStep::Read
                } else if error.kind == ErrorKind::WouldBlock {
                    CopyStep::AwaitReadable
                } else {
                    CopyStep::Done(Err(error))
                },
            },
    {
        match result {
            Ok(n) => {
                self.in_buffer = n;
                if n == 0 {
                    CopyStep::Done(Ok(self.copied))
                } else {
                    CopyStep::Write(n)
                }
            },
            Err(error) => {
                if error.kind == ErrorKind::Interrupted {
                    CopyStep::Read
                } else if error.kind == ErrorKind::WouldBlock {
                    CopyStep::AwaitReadable
                } else {
                    CopyStep::Done(Err(error))
                }
            },
        }
    }

    /// Takes the outcome of writing everything that was read. Only bytes that
    /// were written count as copied.
    pub fn on_written(&mut self, result: Result<(), IoError>) -> (step: CopyStep)
        requires
            old(self).wf(),
            old(self).copied + old(self).in_buffer <= u64::MAX,
        ensures
            final(self).wf(),
            final(self).buffer_len == old(self).buffer_len,
            final(self).in_buffer == 0,
            match result {
                Ok(()) => final(self).copied == old(self).copied + old(self).in_buffer
                    && step is Read,
                Err(error) => final(self).copied == old(self).copied && step == CopyStep::Done(
                    Err(error),
                ),
            },
    {
        let n: usize = self.in_buffer;
        self.in_buffer = 0;
        match result {
            Ok(()) => {
                self.copied = self.copied + n as u64;
                CopyStep::Read
            },
            Err(error) => CopyStep::Done(Err(error)),
        }
    }
}

/// The next step after an accept: a connection is handed out, and failures are
/// treated as those of a read.
pub fn on_accept<T>(result: Result<T, IoError>) -> (step: IoStep<T>)
    ensures
        step == match result {
            Ok(connection) => IoStep::Done(Ok(connection)),
            Err(error) => after_failure::<T>(error),
        },
{
    match result {
        Ok(connection) => IoStep::Done(Ok(connection)),
        Err(error) => on_failure(error),
    }
}

/// The outcome of a connect whose socket became writable: the error that the
/// socket holds, if reading it did not fail itself.
pub fn connect_outcome<T>(stream: T, socket_error: Result<Option<IoError>, IoError>) -> (result: Result<
    T,
    IoError,
>)
    ensures
        result == match socket_error {
            Ok(None) => Ok::<T, IoError>(stream),
            Ok(Some(error)) => Err(error),
            Err(error) => Err(error),
        },
{
    match socket_error {
        Ok(None) => Ok(stream),
        Ok(Some(error)) => Err(error),
        Err(error) => Err(error),
    }
}

/// The outcome of an I/O operation that was waited for until a deadline.
pub fn timeout_io<T>(outcome: Result<Result<T, IoError>, TimeoutError>) -> (result: Result<
    T,
    IoError,
>)
    ensures
        match outcome {
            Ok(inner) => result == inner,
            Err(_) => result is Err && result->Err_0.says(
                ErrorKind::TimedOut,
                "async operation timed out"@,
            ),
        },
{
    match outcome {
        Ok(inner) => inner,
        Err(_) => Err(IoError::new(ErrorKind::TimedOut, "async operation timed out")),
    }
}

/// Waits until a descriptor is readable.
#[derive(Debug, Clone, Copy, PartialEq, Eq, Structural)]
pub struct Readable {
    /// The descriptor.
    pub fd: i32,
    /// The waiter that stands for this wait, once it has one.
    pub interest_id: Option<usize>,
}

/// Waits until a descriptor is writable.
#[derive(Debug, Clone, Copy, PartialEq, Eq, Structural)]
pub struct Writable {
    /// The descriptor.
    pub fd: i32,
    /// The waiter that stands for this wait, once it has one.
    pub interest_id: Option<usize>,
}

/// Returns a wait for `fd` to become readable.
pub fn readable(fd: i32) -> (wait: Readable)
    ensures
        wait == (Readable { fd, interest_id: None }),
{
    Readable { fd, interest_id: None }
}

/// Returns a wait for `fd` to become writable.
pub fn writable(fd: i32) -> (wait: Writable)
    ensures
        wait == (Writable { fd, interest_id: None }),
{
    Writable { fd, interest_id: None }
}

/// The identifier of a wait: the one it has, or the next one.
pub open spec fn wait_id(interest_id: Option<usize>, next: usize) -> usize {
    match interest_id {
        Some(id) => id,
        None => next,
    }
}

/// The next identifier after a wait was polled.
pub open spec fn next_wait_id(interest_id: Option<usize>, next: usize) -> usize {
    if interest_id is Some {
        next
    } else if next == usize::MAX {
        0
    } else {
        (next + 1) as usize
    }
}

impl Readable {
    /// Ends the wait where the descriptor was found readable since the last
    /// poll; otherwise lets `waker` wait, under an identifier allocated once.
    pub fn poll<W>(&mut self, scheduler: &mut Scheduler<W>, waker: W) -> (pending: Option<
        Registered,
    >)
        requires
            old(scheduler).wf(),
        ensures
            final(scheduler).wf(),
            *final(scheduler) == (Scheduler {
                io_interests: final(scheduler).io_interests,
                ..*old(scheduler)
            }),
            final(scheduler).io_interests.writes == old(scheduler).io_interests.writes,
            final(self).fd == old(self).fd,
            ({
                let before = old(scheduler).io_interests.reads;
                let after = final(scheduler).io_interests.reads;
                let id = wait_id(old(self).interest_id, before.next_id);
                &&& final(self).interest_id == Some(id)
                &&& after.next_id == next_wait_id(old(self).interest_id, before.next_id)
                &&& pending is None <==> before.ready@.contains(id)
                &&& pending is None ==> after.interests == before.interests && is_taken(
                    before.ready@,
                    after.ready@,
                    id,
                )
                &&& pending matches Some(registered) ==> registered.wait == (TaskWait::Readable {
                    fd: old(self).fd,
                }) && registered.wake_reactor && after.ready == before.ready && is_registered(
                    before.interests@,
                    after.interests@,
                    IoInterest { id, fd: old(self).fd, waker },
                )
            }),
    {
        let interest_id: usize = match self.interest_id {
            Some(interest_id) => interest_id,
            None => {
                let interest_id: usize = scheduler.allocate_read_interest_id();
                self.interest_id = Some(interest_id);
                interest_id
            },
        };
        if scheduler.take_ready_read_interest(interest_id) {
            return None;
        }
        Some(scheduler.register_read_interest(interest_id, self.fd, waker))
    }

    /// Gives up the wait.
    pub fn release<W>(&self, scheduler: &mut Scheduler<W>)
        requires
            old(scheduler).wf(),
        ensures
            final(scheduler).wf(),
            self.interest_id is None ==> *final(scheduler) == *old(scheduler),
            *final(scheduler) == (Scheduler {
                io_interests: final(scheduler).io_interests,
                ..*old(scheduler)
            }),
            final(scheduler).io_interests.writes == old(scheduler).io_interests.writes,
            final(scheduler).io_interests.reads.next_id == old(scheduler).io_interests.reads.next_id,
            self.interest_id matches Some(id) ==> final(scheduler).io_interests.reads.interests@
                == old(scheduler).io_interests.reads.interests@.filter(other_interest(id))
                && final(scheduler).io_interests.reads.ready@
                    == old(scheduler).io_interests.reads.ready@.filter(other_id(id)),
    {
        match self.interest_id {
            Some(interest_id) => {
                scheduler.remove_read_interest(interest_id);
            },
            None => {},
        }
    }
}

impl Writable {
    /// Ends the wait where the descriptor was found writable since the last
    /// poll; otherwise lets `waker` wait, under an identifier allocated once.
    pub fn poll<W>(&mut self, scheduler: &mut Scheduler<W>, waker: W) -> (pending: Option<
        Registered,
    >)
        requires
            old(scheduler).wf(),
        ensures
            final(scheduler).wf(),
            *final(scheduler) == (Scheduler {
                io_interests: final(scheduler).io_interests,
                ..*old(scheduler)
            }),
            final(scheduler).io_interests.reads == old(scheduler).io_interests.reads,
            final(self).fd == old(self).fd,
            ({
                let before = old(scheduler).io_interests.writes;
                let after = final(scheduler).io_interests.writes;
                let id = wait_id(old(self).interest_id, before.next_id);
                &&& final(self).interest_id == Some(id)
                &&& after.next_id == next_wait_id(old(self).interest_id, before.next_id)
                &&& pending is None <==> before.ready@.contains(id)
                &&& pending is None ==> after.interests == before.interests && is_taken(
                    before.ready@,
                    after.ready@,
                    id,
                )
                &&& pending matches Some(registered) ==> registered.wait == (TaskWait::Writable {
                    fd: old(self).fd,
                }) && registered.wake_reactor && after.ready == before.ready && is_registered(
                    before.interests@,
                    after.interests@,
                    IoInterest { id, fd: old(self).fd, waker },
                )
            }),
    {
        let interest_id: usize = match self.interest_id {
            Some(interest_id) => interest_id,
            None => {
                let interest_id: usize = scheduler.allocate_write_interest_id();
                self.interest_id = Some(interest_id);
                interest_id
            },
        };
        if scheduler.take_ready_write_interest(interest_id) {
            return None;
        }
        Some(scheduler.register_write_interest(interest_id, self.fd, waker))
    }

    /// Gives up the wait.
    pub fn release<W>(&self, scheduler: &mut Scheduler<W>)
        requires
            old(scheduler).wf(),
        ensures
            final(scheduler).wf(),
            self.interest_id is None ==> *final(scheduler) == *old(scheduler),
            *final(scheduler) == (Scheduler {
                io_interests: final(scheduler).io_interests,
                ..*old(scheduler)
            }),
            final(scheduler).io_interests.reads == old(scheduler).io_interests.reads,
            final(scheduler).io_interests.writes.next_id == old(scheduler).io_interests.writes.next_id,
            self.interest_id matches Some(id) ==> final(scheduler).io_interests.writes.interests@
                == old(scheduler).io_interests.writes.interests@.filter(other_interest(id))
                && final(scheduler).io_interests.writes.ready@
                    == old(scheduler).io_interests.writes.ready@.filter(other_id(id)),
    {
        match self.interest_id {
            Some(interest_id) => {
                scheduler.remove_write_interest(interest_id);
            },
            None => {},
        }
    }
}

/// An operation that would block waits for readiness, and one that a signal cut
/// short is made again, on every platform.
pub proof fn blocked_operation_waits<T>(platform: Platform, blocked: IoError, interrupted: IoError)
    requires
        blocked.is_os(platform, numbers_of(platform).would_block),
        interrupted.is_os(platform, EINTR),
    ensures
        after_failure::<T>(blocked) is AwaitReady,
        after_failure::<T>(interrupted) is Again,
{
}

/// A failed call is made again where it was interrupted, waits where it would block, and
/// ends the operation with its own error in every other case.
pub proof fn only_two_failures_are_not_final<T>(error: IoError)
    ensures
        after_failure::<T>(error) is Again <==> error.kind == ErrorKind::Interrupted,
        after_failure::<T>(error) is AwaitReady <==> error.kind == ErrorKind::WouldBlock,
        after_failure::<T>(error) is Done ==> after_failure::<T>(error) == IoStep::<T>::Done(
            Err(error),
        ),
{
}

/// A wait keeps the identifier it has; a new one takes the next, and only then is the
/// next used up.
pub proof fn wait_takes_one_identifier(interest_id: Option<usize>, next: usize)
    ensures
        interest_id matches Some(id) ==> wait_id(interest_id, next) == id && next_wait_id(
            interest_id,
            next,
        ) == next,
        interest_id is None ==> wait_id(interest_id, next) == next && next_wait_id(
            interest_id,
            next,
        ) as int == (next as int + 1) % (usize::MAX as int + 1),
{
    if interest_id is None {
        if next == usize::MAX {
            assert((next as int + 1) % (usize::MAX as int + 1) == 0) by {
                vstd::arithmetic::div_mod::lemma_mod_self_0(usize::MAX as int + 1);
            }
        } else {
            vstd::arithmetic::div_mod::lemma_small_mod(
                (next + 1) as nat,
                (usize::MAX as int + 1) as nat,
            );
        }
    }
}

} // verus!
