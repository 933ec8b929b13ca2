//! The exchanges of a reactor with the operating system that do not depend on
//! the readiness backend: wake-ups, timeouts, polled waits and connects.
//!
//! System calls are made outside; each function takes the result of one and says
//! what comes next.

use vstd::prelude::*;

use crate::io_error::{IoError, EAGAIN, EINTR};
use crate::net::{address_family, bind_bytes, encode_bind_address, family_of, SocketAddr};
use crate::os::event::OsEvent;
use crate::platform::{numbers_of, Host, Platform};
use crate::time::Duration;

verus! {

/// Socket type of streams.
pub const SOCK_STREAM: i32 = 1;

/// Event bit of a polled wait: readable.
pub const POLLIN: i16 = 0x0001;

/// Event bit of a polled wait: writable.
pub const POLLOUT: i16 = 0x0004;

/// Nanoseconds of a millisecond.
pub const NANOS_PER_MILLI: u64 = 1_000_000;

/// The timeout of a wait in whole milliseconds, as far as it can be expressed;
/// a negative one waits forever.
pub fn timeout_to_wait_ms(timeout: Option<Duration>) -> (ms: i32)
    ensures
        ms == match timeout {
            None => -1int,
            Some(duration) => if duration / NANOS_PER_MILLI > i32::MAX {
                i32::MAX as int
            } else {
                (duration / NANOS_PER_MILLI) as int
            },
        },
{
    match timeout {
        Some(duration) => {
            let millis: u64 = duration / NANOS_PER_MILLI;
            if millis > i32::MAX as u64 {
                i32::MAX
            } else {
                millis as i32
            }
        },
        None => -1,
    }
}

/// Whether a number is that of an error that says that the operation would block.
pub open spec fn would_block(platform: Platform, code: i32) -> bool {
    code == EAGAIN || code == numbers_of(platform).would_block
}

fn says_would_block(platform: Platform, code: i32) -> (blocks: bool)
    ensures
        blocks == would_block(platform, code),
{
    code == EAGAIN || code == platform.numbers().would_block
}

/// Whether an error says that the operation would block.
pub fn is_would_block(platform: Platform, error: &IoError) -> (blocks: bool)
    ensures
        blocks == (error.raw_os_error matches Some(code) && would_block(platform, code)),
{
    match error.raw_os_error {
        Some(code) => says_would_block(platform, code),
        None => false,
    }
}

/// What a repeated call does next.
pub enum RetryStep<T> {
    /// Make the call again.
    Again,
    /// The exchange is over.
    Done(Result<T, IoError>),
}

/// After a wait failed: an interrupted one is made again.
pub fn wait_failed(platform: Platform, code: i32) -> (step: RetryStep<OsEvent>)
    ensures
        code == EINTR ==> step is Again,
        code != EINTR ==> step is Done && step->0 is Err && step->0->Err_0.is_os(platform, code),
{
    if code == EINTR {
        RetryStep::Again
    } else {
        RetryStep::Done(Err(IoError::from_raw_os_error(platform, code)))
    }
}

/// Empties the pipe that wakes a reactor.
#[derive(Debug, Clone, Copy, PartialEq, Eq, Structural)]
pub struct DrainWakes {
    /// The system.
    pub platform: Platform,
    /// Whether a wake-up was found.
    pub drained: bool,
}

impl DrainWakes {
    /// Nothing read yet.
    pub fn new(platform: Platform) -> (drain: Self)
        ensures
            drain == (DrainWakes { platform, drained: false }),
    {
        DrainWakes { platform, drained: false }
    }

    /// Takes the result of a read from the pipe: bytes are wake-ups, and there
    /// may be more; an empty pipe ends it.
    pub fn on_read(&mut self, result: Result<usize, i32>) -> (step: RetryStep<bool>)
        ensures
            match result {
                Ok(n) => if n > 0 {
                    step is Again && *final(self) == (DrainWakes { drained: true, ..*old(self) })
                } else {
                    step == RetryStep::<bool>::Done(Ok(old(self).drained))
                        && *final(self) == *old(self)
                },
                Err(code) => *final(self) == *old(self) && if would_block(
                    old(self).platform,
                    code,
                ) {
                    step == RetryStep::<bool>::Done(Ok(old(self).drained))
                } else if code == EINTR {
                    step is Again
                } else {
                    step is Done && step->0 is Err && step->0->Err_0.is_os(old(self).platform, code)
                },
            },
    {
        match result {
            Ok(n) => {
                if n > 0 {
                    self.drained = true;
                    RetryStep::Again
                } else {
                    RetryStep::Done(Ok(self.drained))
                }
            },
            Err(code) => {
                if says_would_block(self.platform, code) {
                    RetryStep::Done(Ok(self.drained))
                } else if code == EINTR {
                    RetryStep::Again
                } else {
                    RetryStep::Done(Err(IoError::from_raw_os_error(self.platform, code)))
                }
            },
        }
    }
}

/// After a byte was written to wake a reactor. A full pipe counts as woken,
/// because the reactor will find the bytes that are there.
pub fn wake_written(platform: Platform, result: Result<usize, i32>) -> (step: RetryStep<()>)
    ensures
        match result {
            Ok(_) => step == RetryStep::<()>::Done(Ok(())),
            Err(code) => if would_block(platform, code) {
                step == RetryStep::<()>::Done(Ok(()))
            } else if code == EINTR {
                step is Again
            } else {
                step is Done && step->0 is Err && step->0->Err_0.is_os(platform, code)
            },
        },
{
    match result {
        Ok(_) => RetryStep::Done(Ok(())),
        Err(code) => {
            if says_would_block(platform, code) {
                RetryStep::Done(Ok(()))
            } else if code == EINTR {
                RetryStep::Again
            } else {
                RetryStep::Done(Err(IoError::from_raw_os_error(platform, code)))
            }
        },
    }
}

/// The flags that make a descriptor non-blocking, from those it has.
pub fn nonblocking_flags(platform: Platform, flags: Result<i32, i32>) -> (result: Result<
    i32,
    IoError,
>)
    ensures
        match flags {
            Ok(flags) => result == Ok::<i32, IoError>(flags | numbers_of(platform).nonblocking),
            Err(code) => result is Err && result->Err_0.is_os(platform, code),
        },
{
    match flags {
        Ok(flags) => Ok(flags | platform.numbers().nonblocking),
        Err(code) => Err(IoError::from_raw_os_error(platform, code)),
    }
}

/// What a TCP connect needs: the family of its socket and the address.
pub struct ConnectRequest {
    /// Address family.
    pub domain: i32,
    /// Socket type.
    pub socket_type: i32,
    /// The address as `connect` reads it.
    pub address: Vec<u8>,
}

/// The calls that start a TCP connection to `address`.
pub fn tcp_connect_start(host: Host, address: &SocketAddr) -> (request: ConnectRequest)
    ensures
        request.domain == family_of(host.platform, address is V4),
        request.socket_type == SOCK_STREAM,
        request.address@ == bind_bytes(host, address@),
{
    ConnectRequest {
        domain: address_family(host.platform, address),
        socket_type: SOCK_STREAM,
        address: encode_bind_address(host, address),
    }
}

/// After the connect call: a connection that is still in progress is as good as
/// one that stands.
pub fn connect_started(platform: Platform, result: Result<(), i32>) -> (outcome: Result<
    (),
    IoError,
>)
    ensures
        match result {
            Ok(()) => outcome is Ok,
            Err(code) => if code == numbers_of(platform).in_progress || would_block(
                platform,
                code,
            ) {
                outcome is Ok
            } else {
                outcome is Err && outcome->Err_0.is_os(platform, code)
            },
        },
{
    match result {
        Ok(()) => Ok(()),
        Err(code) => {
            if code == platform.numbers().in_progress || says_would_block(platform, code) {
                Ok(())
            } else {
                Err(IoError::from_raw_os_error(platform, code))
            }
        },
    }
}

/// The descriptors whose reported bits hold `bit`, in order.
pub open spec fn ready_fds(fds: Seq<i32>, revents: Seq<i16>, bit: i16) -> Seq<i32>
    decreases fds.len(),
{
    if fds.len() == 0 {
        Seq::empty()
    } else {
        let front = ready_fds(fds.drop_last(), revents.drop_last(), bit);
        if revents.last() & bit != 0 {
            front.push(fds.last())
        } else {
            front
        }
    }
}

fn select_ready(fds: &[i32], revents: &[i16], bit: i16) -> (ready: Vec<i32>)
    requires
        fds@.len() == revents@.len(),
    ensures
        ready@ == ready_fds(fds@, revents@, bit),
{
    let mut ready: Vec<i32> = Vec::new();
    let mut i: usize = 0;
    assert(fds@.take(0) =~= Seq::empty());
    while i < fds.len()
        invariant
            i <= fds.len(),
            fds@.len() == revents@.len(),
            ready@ == ready_fds(fds@.take(i as int), revents@.take(i as int), bit),
        decreases fds.len() - i,
    {
        proof {
            assert(fds@.take(i + 1).drop_last() =~= fds@.take(i as int));
            assert(revents@.take(i + 1).drop_last() =~= revents@.take(i as int));
        }
        if revents[i] & bit != 0 {
            ready.push(fds[i]);
        }
        i = i + 1;
    }
    assert(fds@.take(i as int) =~= fds@);
    assert(revents@.take(i as int) =~= revents@);
    ready
}

/// Reads the results of a polled wait: the bits reported for the waking
/// descriptor, for the readers' descriptors and for the writers'. `drained`
/// tells whether draining found a wake-up.
pub fn decode_poll(
    wake_revents: i16,
    read_fds: &[i32],
    read_revents: &[i16],
    write_fds: &[i32],
    write_revents: &[i16],
    drained: bool,
) -> (event: OsEvent)
    requires
        read_fds@.len() == read_revents@.len(),
        write_fds@.len() == write_revents@.len(),
    ensures
        event.woke == (wake_revents & POLLIN != 0 && drained),
        event.readable@ == ready_fds(read_fds@, read_revents@, POLLIN),
        event.writable@ == ready_fds(write_fds@, write_revents@, POLLOUT),
{
    OsEvent {
        woke: wake_revents & POLLIN != 0 && drained,
        readable: select_ready(read_fds, read_revents, POLLIN),
        writable: select_ready(write_fds, write_revents, POLLOUT),
    }
}

/// A call would block where its error says to try again, which is one number on Linux and
/// has a second one elsewhere.
pub proof fn blocking_is_known_by_its_number(platform: Platform, code: i32)
    ensures
        platform == Platform::Linux ==> (would_block(platform, code) <==> code == 11),
        platform == Platform::OtherUnix ==> (would_block(platform, code) <==> code == 11 || code
            == 35),
{
}

/// The descriptors that are reported ready are those whose event has the bit, in order.
pub proof fn ready_descriptors_have_the_bit(fds: Seq<i32>, revents: Seq<i16>, bit: i16)
    requires
        fds.len() == revents.len(),
    ensures
        ready_fds(fds, revents, bit) == fds.zip_with(revents).filter(
            |pair: (i32, i16)| pair.1 & bit != 0,
        ).map_values(|pair: (i32, i16)| pair.0),
        forall|fd: i32|
            #![trigger ready_fds(fds, revents, bit).contains(fd)]
            ready_fds(fds, revents, bit).contains(fd) <==> exists|i: int|
                0 <= i < fds.len() && fds[i] == fd && #[trigger] revents[i] & bit != 0,
    decreases fds.len(),
{
    reveal(Seq::filter);
    let has = |pair: (i32, i16)| pair.1 & bit != 0;
    let fd_of = |pair: (i32, i16)| pair.0;
    let pairs = fds.zip_with(revents);
    if fds.len() == 0 {
        assert(pairs.filter(has).map_values(fd_of) =~= Seq::<i32>::empty());
    } else {
        ready_descriptors_have_the_bit(fds.drop_last(), revents.drop_last(), bit);
        assert(pairs.drop_last() =~= fds.drop_last().zip_with(revents.drop_last()));
        assert(pairs.filter(has).map_values(fd_of) =~= ready_fds(fds, revents, bit));
    }
    let ready = ready_fds(fds, revents, bit);
    assert(ready == pairs.filter(has).map_values(fd_of));
    assert forall|fd: i32| #[trigger] ready.contains(fd) <==> exists|i: int|
        0 <= i < fds.len() && fds[i] == fd && #[trigger] revents[i] & bit != 0 by {
        if ready.contains(fd) {
            let k = choose|k: int| 0 <= k < ready.len() && ready[k] == fd;
            let pair = pairs.filter(has)[k];
            crate::seq_util::lemma_filter_contains(pairs, has, pair);
            assert(pairs.filter(has).contains(pair));
            let i = choose|i: int| 0 <= i < pairs.len() && pairs[i] == pair;
            assert(fds[i] == fd && revents[i] & bit != 0);
        }
        if exists|i: int| 0 <= i < fds.len() && fds[i] == fd && #[trigger] revents[i] & bit != 0 {
            let i = choose|i: int|
                0 <= i < fds.len() && fds[i] == fd && #[trigger] revents[i] & bit != 0;
            crate::seq_util::lemma_filter_contains(pairs, has, pairs[i]);
            assert(pairs.contains(pairs[i]));
            let k = choose|k: int| 0 <= k < pairs.filter(has).len() && pairs.filter(has)[k]
                == pairs[i];
            assert(ready[k] == fd);
        }
    }
}

} // verus!
