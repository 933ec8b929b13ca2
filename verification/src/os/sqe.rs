//! Submission queue entries and the memory layout of a completion ring.

use vstd::prelude::*;

use crate::endian::{
    ne32, ne64, push_bytes, push_ne64, push_zeros, to_ne32, zeros, ByteOrder,
};
use crate::io_error::{ErrorKind, IoError};

verus! {

/// Operation code of a no-op.
pub const IORING_OP_NOP: u8 = 0;

/// Operation code of a relative timeout.
pub const IORING_OP_TIMEOUT: u8 = 11;

/// Operation code of a cancellation request.
pub const IORING_OP_ASYNC_CANCEL: u8 = 14;

/// Operation code of a read.
pub const IORING_OP_READ: u8 = 22;

/// Operation code of a write.
pub const IORING_OP_WRITE: u8 = 23;

/// Number of bytes of a submission queue entry.
pub const SQE_SIZE: usize = 64;

/// Number of bytes of a completion queue entry.
pub const CQE_SIZE: usize = 16;

/// One submission queue entry: the fields this runtime sets. All others are
/// zero.
#[derive(Debug, Clone, Copy, PartialEq, Eq, Structural)]
pub struct Sqe {
    /// Operation code.
    pub opcode: u8,
    /// File descriptor operated on.
    pub fd: i32,
    /// Offset in the file.
    pub offset: u64,
    /// Address of the buffer, of the timeout, or tag of the cancelled operation.
    pub addr: u64,
    /// Length of the buffer, or number of timeouts.
    pub len: u32,
    /// Tag that comes back with the completion.
    pub user_data: u64,
}

impl Sqe {
    /// The entry as it stands in memory: the operation code, the descriptor at
    /// byte 4, the offset at byte 8, the address at byte 16, the length at byte
    /// 24, the tag at byte 32, each in the order of the machine, and zeros
    /// elsewhere.
    pub open spec fn bytes(&self, order: ByteOrder) -> Seq<u8> {
        seq![self.opcode] + zeros(3) + ne32(order, self.fd as u32) + ne64(order, self.offset)
            + ne64(order, self.addr) + ne32(order, self.len) + zeros(4) + ne64(
            order,
            self.user_data,
        ) + zeros(24)
    }

    /// A no-op.
    pub fn nop(user_data: u64) -> (sqe: Sqe)
        ensures
            sqe == (Sqe {
                opcode: IORING_OP_NOP,
                fd: 0,
                offset: 0,
                addr: 0,
                len: 0,
                user_data,
            }),
    {
        Sqe { opcode: IORING_OP_NOP, fd: 0, offset: 0, addr: 0, len: 0, user_data }
    }

    /// A relative timeout, whose length lies at `timeout_addr`. The entry counts
    /// that one length.
    pub fn timeout(timeout_addr: u64, user_data: u64) -> (sqe: Sqe)
        ensures
            sqe == (Sqe {
                opcode: IORING_OP_TIMEOUT,
                fd: 0,
                offset: 0,
                addr: timeout_addr,
                len: 1,
                user_data,
            }),
    {
        Sqe { opcode: IORING_OP_TIMEOUT, fd: 0, offset: 0, addr: timeout_addr, len: 1, user_data }
    }

    /// A request to cancel the operation tagged `target_user_data`.
    pub fn cancel(target_user_data: u64, user_data: u64) -> (sqe: Sqe)
        ensures
            sqe == (Sqe {
                opcode: IORING_OP_ASYNC_CANCEL,
                fd: (-1) as i32,
                offset: 0,
                addr: target_user_data,
                len: 0,
                user_data,
            }),
    {
        Sqe {
            opcode: IORING_OP_ASYNC_CANCEL,
            fd: -1,
            offset: 0,
            addr: target_user_data,
            len: 0,
            user_data,
        }
    }

    /// Lays the entry out as the kernel reads it.
    pub fn to_bytes(&self, order: ByteOrder) -> (bytes: Vec<u8>)
        ensures
            bytes@ == self.bytes(order),
            bytes@.len() == SQE_SIZE,
    {
        let mut bytes: Vec<u8> = Vec::new();
        bytes.push(self.opcode);
        push_zeros(&mut bytes, 3);
        push_bytes(&mut bytes, &to_ne32(order, self.fd as u32));
        push_ne64(&mut bytes, order, self.offset);
        push_ne64(&mut bytes, order, self.addr);
        push_bytes(&mut bytes, &to_ne32(order, self.len));
        push_zeros(&mut bytes, 4);
        push_ne64(&mut bytes, order, self.user_data);
        push_zeros(&mut bytes, 24);
        assert(bytes@ =~= self.bytes(order));
        bytes
    }
}

/// Length of a timeout as the kernel reads it.
#[derive(Debug, Clone, Copy, PartialEq, Eq, Structural)]
pub struct KernelTimespec {
    /// Whole seconds.
    pub tv_sec: i64,
    /// Nanoseconds beyond them.
    pub tv_nsec: i64,
}

impl KernelTimespec {
    /// The timespec of a duration of `secs` seconds and `subsec_nanos`
    /// nanoseconds; refused where the seconds are out of range.
    pub fn from_duration(secs: u64, subsec_nanos: u32) -> (result: Result<KernelTimespec, IoError>)
        ensures
            result is Ok <==> secs <= i64::MAX,
            result matches Ok(spec) ==> spec == (KernelTimespec {
                tv_sec: secs as i64,
                tv_nsec: subsec_nanos as i64,
            }),
            result matches Err(error) ==> error.says(
                ErrorKind::InvalidInput,
                "io_uring timeout seconds exceed i64::MAX"@,
            ),
    {
        if secs > i64::MAX as u64 {
            Err(IoError::new(ErrorKind::InvalidInput, "io_uring timeout seconds exceed i64::MAX"))
        } else {
            Ok(KernelTimespec { tv_sec: secs as i64, tv_nsec: subsec_nanos as i64 })
        }
    }
}

/// What the kernel reports about a new ring, as far as its layout goes.
#[derive(Debug, Clone, Copy, PartialEq, Eq, Structural)]
pub struct RingParams {
    /// Number of submission slots.
    pub sq_entries: u32,
    /// Number of completion slots.
    pub cq_entries: u32,
    /// Offset of the submission index array in the submission ring.
    pub sq_array: u32,
    /// Offset of the completion entries in the completion ring.
    pub cq_cqes: u32,
}

/// Lengths of the three memory areas that a ring maps.
#[derive(Debug, Clone, Copy, PartialEq, Eq, Structural)]
pub struct RingLayout {
    /// Bytes of the submission ring.
    pub sq_ring_len: u64,
    /// Bytes of the completion ring.
    pub cq_ring_len: u64,
    /// Bytes of the submission entries.
    pub sqes_len: u64,
}

/// The lengths of the areas to map for a ring with these parameters.
pub fn ring_layout(params: RingParams) -> (layout: RingLayout)
    ensures
        layout.sq_ring_len == params.sq_array + params.sq_entries * 4,
        layout.cq_ring_len == params.cq_cqes + params.cq_entries * CQE_SIZE,
        layout.sqes_len == params.sq_entries * SQE_SIZE,
{
    RingLayout {
        sq_ring_len: params.sq_array as u64 + params.sq_entries as u64 * 4,
        cq_ring_len: params.cq_cqes as u64 + params.cq_entries as u64 * 16,
        sqes_len: params.sq_entries as u64 * 64,
    }
}

/// An entry takes 64 bytes: the operation in the first, the descriptor from the fifth on,
/// then offset, address and length, the tag from the 33rd on, and zeros elsewhere; numbers
/// stand in the machine's order.
pub proof fn entry_is_laid_out(sqe: Sqe, order: ByteOrder)
    ensures
        ({
            let bytes = sqe.bytes(order);
            &&& bytes.len() == 64
            &&& bytes[0] == sqe.opcode
            &&& bytes.subrange(4, 8) == ne32(order, sqe.fd as u32)
            &&& bytes.subrange(8, 16) == ne64(order, sqe.offset)
            &&& bytes.subrange(16, 24) == ne64(order, sqe.addr)
            &&& bytes.subrange(24, 28) == ne32(order, sqe.len)
            &&& bytes.subrange(32, 40) == ne64(order, sqe.user_data)
            &&& forall|i: int|
                1 <= i < 4 || 28 <= i < 32 || 40 <= i < 64 ==> #[trigger] bytes[i] == 0
        }),
{
    let bytes = sqe.bytes(order);
    assert(bytes.subrange(4, 8) =~= ne32(order, sqe.fd as u32));
    assert(bytes.subrange(8, 16) =~= ne64(order, sqe.offset));
    assert(bytes.subrange(16, 24) =~= ne64(order, sqe.addr));
    assert(bytes.subrange(24, 28) =~= ne32(order, sqe.len));
    assert(bytes.subrange(32, 40) =~= ne64(order, sqe.user_data));
}

} // verus!
