//! The submission and completion rings, against a kernel that the test plays.

use sitas::endian::ByteOrder;
use sitas::executor::uring::{
    completion_result_to_usize, dispatch_budget, read_at_uring, should_drain, should_wait,
    unavailable, write_at_uring, ReadExactAt, WriteAllAt, WriteAtUringCompletion,
    EXECUTOR_IO_URING_COMPLETION_BUDGET,
};
use sitas::io_error::ErrorKind;
use sitas::os::dispatcher::{
    IoUringDispatcher, IoUringOperationFuture, IoUringReadFuture, IoUringWriteFuture,
};
use sitas::os::sqe::{
    ring_layout, KernelTimespec, RingParams, Sqe, IORING_OP_ASYNC_CANCEL, IORING_OP_NOP,
    IORING_OP_READ, IORING_OP_TIMEOUT, IORING_OP_WRITE,
};
use sitas::os::uring::{
    IoUring, IoUringCompletion, IoUringOperationCompletion, IoUringOperationId,
    IoUringOperationKind, RingStep, OPERATION_USER_DATA_BASE,
};

const ETIME: i32 = 62;
const ECANCELED: i32 = 125;
const ENOENT: i32 = 2;
const EINVAL: i32 = 22;

const BUFFER: u64 = 0x1000;
const PIPE: i32 = 3;

#[derive(Default)]
struct Kernel {
    pipe: Vec<u8>,
    memory: Vec<u8>,
    timeouts: Vec<u64>,
    late: Vec<(u64, i32)>,
}

impl Kernel {
    fn post(&self, ring: &mut IoUring, user_data: u64, result: i32) {
        assert!(ring.post_completion(IoUringCompletion { user_data, result, flags: 0 }));
    }

    fn serve(&mut self, ring: &mut IoUring, sqe: Sqe) {
        match sqe.opcode {
            IORING_OP_NOP => self.post(ring, sqe.user_data, 0),
            IORING_OP_READ => {
                let n = self.pipe.len().min(sqe.len as usize);
                self.memory = self.pipe.drain(..n).collect();
                self.post(ring, sqe.user_data, n as i32);
            }
            IORING_OP_WRITE => {
                let n = self.memory.len().min(sqe.len as usize);
                self.pipe.extend_from_slice(&self.memory[..n]);
                self.post(ring, sqe.user_data, n as i32);
            }
            IORING_OP_TIMEOUT if sqe.len != 1 => self.post(ring, sqe.user_data, -EINVAL),
            IORING_OP_TIMEOUT => self.timeouts.push(sqe.user_data),
            IORING_OP_ASYNC_CANCEL => {
                match self.timeouts.iter().position(|target| *target == sqe.addr) {
                    Some(at) => {
                        let target = self.timeouts.remove(at);
                        self.post(ring, sqe.user_data, 0);
                        self.late.push((target, -ECANCELED));
                    }
                    None => self.post(ring, sqe.user_data, -ENOENT),
                }
            }
            other => panic!("unknown operation {other}"),
        }
    }

    fn posted(ring: &IoUring) -> u32 {
        ring.cq_tail.wrapping_sub(ring.cq_head)
    }

    fn enter(&mut self, ring: &mut IoUring, to_submit: u32, min_complete: u32) -> u32 {
        for i in 0..to_submit {
            let head = ring.sq_head;
            let sqe = ring.sqes[(head & ring.sq_mask) as usize];
            ring.set_sq_head(head.wrapping_add(1));
            self.serve(ring, sqe);
            assert!(i < to_submit);
        }
        while Self::posted(ring) < min_complete && !self.late.is_empty() {
            let (user_data, result) = self.late.remove(0);
            self.post(ring, user_data, result);
        }
        while Self::posted(ring) < min_complete && !self.timeouts.is_empty() {
            let expired = self.timeouts.remove(0);
            self.post(ring, expired, -ETIME);
        }
        to_submit
    }

    fn submit_pending(&mut self, ring: &mut IoUring) -> u32 {
        let mut submitted = 0;
        loop {
            match ring.submit_pending(submitted) {
                RingStep::Done(result) => return result.unwrap(),
                RingStep::Enter { to_submit, min_complete } => {
                    let entered = self.enter(ring, to_submit, min_complete);
                    submitted += ring.entered_to_submit(Ok(entered)).unwrap();
                }
            }
        }
    }

    fn wait_completion(&mut self, ring: &mut IoUring) -> IoUringCompletion {
        loop {
            match ring.wait_completion() {
                RingStep::Done(result) => return result.unwrap(),
                RingStep::Enter { to_submit, min_complete } => {
                    let entered = self.enter(ring, to_submit, min_complete);
                    ring.entered_to_wait(Ok(entered)).unwrap();
                }
            }
        }
    }

    fn wait_for_completion(&mut self, ring: &mut IoUring, user_data: u64) -> IoUringCompletion {
        loop {
            match ring.wait_for_completion(user_data) {
                RingStep::Done(result) => return result.unwrap(),
                RingStep::Enter { to_submit, min_complete } => {
                    let entered = self.enter(ring, to_submit, min_complete);
                    ring.entered_to_wait(Ok(entered)).unwrap();
                }
            }
        }
    }

    fn wait_operation_completion(
        &mut self,
        ring: &mut IoUring,
        operation: IoUringOperationId,
    ) -> IoUringOperationCompletion {
        loop {
            match ring.wait_operation_completion(operation) {
                RingStep::Done(result) => return result.unwrap(),
                RingStep::Enter { to_submit, min_complete } => {
                    let entered = self.enter(ring, to_submit, min_complete);
                    ring.entered_to_wait(Ok(entered)).unwrap();
                }
            }
        }
    }

    fn wait_completions(&mut self, ring: &mut IoUring, min_complete: usize) -> usize {
        loop {
            match ring.wait_completions(min_complete) {
                RingStep::Done(result) => return result.unwrap(),
                RingStep::Enter { to_submit, min_complete } => {
                    let entered = self.enter(ring, to_submit, min_complete);
                    ring.entered_to_wait(Ok(entered)).unwrap();
                }
            }
        }
    }

    fn wait_and_dispatch<W>(
        &mut self,
        dispatcher: &mut IoUringDispatcher<W>,
        min_complete: usize,
    ) -> (usize, Vec<W>) {
        loop {
            match dispatcher.wait_and_dispatch(min_complete) {
                RingStep::Done(result) => return result.unwrap(),
                RingStep::Enter { to_submit, min_complete } => {
                    let ring = dispatcher.ring_mut();
                    let entered = self.enter(ring, to_submit, min_complete);
                    ring.entered_to_wait(Ok(entered)).unwrap();
                }
            }
        }
    }
}

fn length() -> Box<[i64; 2]> {
    Box::new([0; 2])
}

fn available_ring() -> IoUring {
    IoUring::new(7, 15)
}

#[test]
fn nop_completion_round_trip() {
    let mut kernel = Kernel::default();
    let mut ring = available_ring();

    ring.queue_nop(0x51_7a_5).unwrap();
    assert_eq!(kernel.submit_pending(&mut ring), 1);
    let completion = kernel.wait_completion(&mut ring);

    assert_eq!(completion.user_data, 0x51_7a_5);
    assert_eq!(completion.result, 0);
}

#[test]
fn queued_nops_submit_as_batch() {
    let mut kernel = Kernel::default();
    let mut ring = available_ring();

    ring.queue_nop(0x51_7a_5_7).unwrap();
    ring.queue_nop(0x51_7a_5_8).unwrap();

    assert_eq!(ring.pending_submissions(), 2);
    assert!(ring.try_completion().is_none());
    assert_eq!(kernel.submit_pending(&mut ring), 2);
    assert_eq!(ring.pending_submissions(), 0);

    let first = kernel.wait_completion(&mut ring);
    let second = kernel.wait_completion(&mut ring);

    assert_eq!(first.result, 0);
    assert_eq!(second.result, 0);
    assert_eq!([first.user_data, second.user_data], [0x51_7a_5_7, 0x51_7a_5_8]);
}

#[test]
fn snapshot_reports_local_operation_state() {
    let mut kernel = Kernel::default();
    let mut ring = available_ring();

    let timeout = ring.queue_timeout_operation(1, 0, length(), BUFFER).unwrap();
    let cancel = ring.queue_cancel_operation(timeout).unwrap();

    let snapshot = ring.snapshot();
    assert_eq!(ring.pending_submissions(), 2);
    assert_eq!(ring.pending_completions(), 0);
    assert_eq!(ring.tracked_operations(), 2);
    assert_eq!(snapshot.pending_submissions, 2);
    assert_eq!(snapshot.pending_completions, 0);
    assert_eq!(snapshot.tracked_operations, 2);
    assert_eq!(snapshot.operation_kinds.timeouts, 1);
    assert_eq!(snapshot.operation_kinds.cancellations, 1);

    let cancel_completion = kernel.wait_operation_completion(&mut ring, cancel);
    let timeout_completion = kernel.wait_operation_completion(&mut ring, timeout);

    assert_eq!(cancel_completion.result, 0);
    assert_eq!(timeout_completion.result, -ECANCELED);
    assert_eq!(ring.snapshot().tracked_operations, 0);
}

#[test]
fn drain_completions_harvests_available_cqes() {
    let mut kernel = Kernel::default();
    let mut ring = available_ring();

    ring.queue_nop(0x51_7a_5_b).unwrap();
    ring.queue_nop(0x51_7a_5_c).unwrap();
    assert_eq!(kernel.submit_pending(&mut ring), 2);

    let first = kernel.wait_completion(&mut ring);
    let drained = ring.drain_completions();
    let second = kernel.wait_completion(&mut ring);

    assert_eq!(first.user_data, 0x51_7a_5_b);
    assert_eq!(first.result, 0);
    assert_eq!(drained, 1);
    assert_eq!(second.user_data, 0x51_7a_5_c);
    assert_eq!(second.result, 0);
}

#[test]
fn wait_completions_submits_and_drains_batch() {
    let mut kernel = Kernel::default();
    let mut ring = available_ring();

    ring.queue_nop(0x51_7a_5_e).unwrap();
    ring.queue_nop(0x51_7a_5_f).unwrap();
    assert_eq!(ring.pending_submissions(), 2);

    assert_eq!(kernel.wait_completions(&mut ring, 2), 2);
    assert_eq!(ring.pending_submissions(), 0);
    assert_eq!(ring.pending_completions(), 2);
    assert_eq!(ring.snapshot().pending_completions, 2);

    let first = kernel.wait_completion(&mut ring);
    let second = kernel.wait_completion(&mut ring);

    assert_eq!(first.user_data, 0x51_7a_5_e);
    assert_eq!(first.result, 0);
    assert_eq!(second.user_data, 0x51_7a_5_f);
    assert_eq!(second.result, 0);
}

#[test]
fn wait_completions_keeps_tracked_and_raw_completions_available() {
    let mut kernel = Kernel::default();
    let mut ring = available_ring();

    ring.queue_nop(0x51_7a_60).unwrap();
    let operation = ring.queue_nop_operation().unwrap();

    assert_eq!(kernel.wait_completions(&mut ring, 2), 2);

    let known = ring.try_operation_completion().unwrap();
    let raw = kernel.wait_completion(&mut ring);

    assert_eq!(known.operation, operation);
    assert_eq!(known.kind, IoUringOperationKind::Nop);
    assert_eq!(known.result, 0);
    assert_eq!(raw.user_data, 0x51_7a_60);
    assert_eq!(raw.result, 0);
}

#[test]
fn wait_completion_submits_queued_operations() {
    let mut kernel = Kernel::default();
    let mut ring = available_ring();

    ring.queue_nop(0x51_7a_5_9).unwrap();
    assert_eq!(ring.pending_submissions(), 1);

    let completion = kernel.wait_completion(&mut ring);

    assert_eq!(completion.user_data, 0x51_7a_5_9);
    assert_eq!(completion.result, 0);
    assert_eq!(ring.pending_submissions(), 0);
}

#[test]
fn tracked_nop_completion_reports_operation_metadata() {
    let mut kernel = Kernel::default();
    let mut ring = available_ring();

    let operation = ring.queue_nop_operation().unwrap();
    assert!(operation.raw() & OPERATION_USER_DATA_BASE != 0);
    assert_eq!(kernel.submit_pending(&mut ring), 1);

    let completion = kernel.wait_operation_completion(&mut ring, operation);

    assert_eq!(completion.operation, operation);
    assert_eq!(completion.kind, IoUringOperationKind::Nop);
    assert_eq!(completion.result, 0);
}

#[test]
fn dispatcher_wakes_registered_operation() {
    let mut kernel = Kernel::default();
    let mut dispatcher = IoUringDispatcher::new(available_ring());

    let operation = dispatcher.ring_mut().queue_nop_operation().unwrap();
    assert!(!dispatcher.register_waker(operation, "waker"));
    assert_eq!(dispatcher.snapshot().registered_wakers, 1);

    let (dispatched, woken) = kernel.wait_and_dispatch(&mut dispatcher, 1);
    assert_eq!(dispatched, 1);

    assert_eq!(woken, vec!["waker"]);
    let completion = dispatcher.take_completion(operation).unwrap();
    assert_eq!(completion.operation, operation);
    assert_eq!(completion.kind, IoUringOperationKind::Nop);
    assert_eq!(completion.result, 0);
    assert_eq!(dispatcher.snapshot().registered_wakers, 0);
    assert_eq!(dispatcher.snapshot().completed_operations, 0);
}

#[test]
fn dispatcher_reports_already_completed_operation() {
    let mut kernel = Kernel::default();
    let mut dispatcher = IoUringDispatcher::new(available_ring());

    let operation = dispatcher.ring_mut().queue_nop_operation().unwrap();
    let (dispatched, woken) = kernel.wait_and_dispatch(&mut dispatcher, 1);
    assert_eq!(dispatched, 1);
    assert!(woken.is_empty());

    assert!(dispatcher.register_waker(operation, "waker"));
    assert_eq!(dispatcher.snapshot().registered_wakers, 0);
    assert_eq!(dispatcher.snapshot().completed_operations, 1);

    let completion = dispatcher.take_completion(operation).unwrap();
    assert_eq!(completion.kind, IoUringOperationKind::Nop);
    assert_eq!(dispatcher.snapshot().completed_operations, 0);
}

#[test]
fn operation_future_registers_and_resolves_after_dispatch() {
    let mut kernel = Kernel::default();
    let mut dispatcher = IoUringDispatcher::new(available_ring());
    let operation = dispatcher.ring_mut().queue_nop_operation().unwrap();
    let future = IoUringOperationFuture::new(operation);

    assert!(future.poll(&mut dispatcher, "waker").completion.is_none());
    assert_eq!(dispatcher.snapshot().registered_wakers, 1);

    assert_eq!(kernel.wait_and_dispatch(&mut dispatcher, 1), (1, vec!["waker"]));

    let completion = future
        .poll(&mut dispatcher, "waker")
        .completion
        .expect("operation future should be ready after dispatch");
    assert_eq!(completion.operation, operation);
    assert_eq!(completion.kind, IoUringOperationKind::Nop);
    assert_eq!(completion.result, 0);
}

#[test]
fn operation_future_can_queue_tracked_nop() {
    let mut kernel = Kernel::default();
    let mut dispatcher = IoUringDispatcher::new(available_ring());
    let future = IoUringOperationFuture::queue_nop(&mut dispatcher).unwrap();
    let operation = future.operation();

    assert!(future.poll(&mut dispatcher, "waker").completion.is_none());
    assert_eq!(kernel.wait_and_dispatch(&mut dispatcher, 1), (1, vec!["waker"]));

    let completion = future
        .poll(&mut dispatcher, "waker")
        .completion
        .expect("queued nop future should be ready after dispatch");
    assert_eq!(completion.operation, operation);
    assert_eq!(completion.kind, IoUringOperationKind::Nop);
    assert_eq!(completion.result, 0);
}

#[test]
fn operation_future_can_queue_tracked_timeout() {
    let mut kernel = Kernel::default();
    let mut dispatcher = IoUringDispatcher::new(available_ring());
    let future = IoUringOperationFuture::queue_timeout(&mut dispatcher, 0, 1_000_000, length(), BUFFER).unwrap();
    let operation = future.operation();

    assert!(future.poll(&mut dispatcher, "waker").completion.is_none());
    assert_eq!(kernel.wait_and_dispatch(&mut dispatcher, 1), (1, vec!["waker"]));

    let completion = future
        .poll(&mut dispatcher, "waker")
        .completion
        .expect("queued timeout future should be ready after dispatch");
    assert_eq!(completion.operation, operation);
    assert_eq!(completion.kind, IoUringOperationKind::Timeout);
    assert_eq!(completion.result, -ETIME);
}

#[test]
fn operation_future_can_queue_tracked_cancel() {
    let mut kernel = Kernel::default();
    let mut dispatcher = IoUringDispatcher::new(available_ring());
    let timeout = dispatcher.ring_mut().queue_timeout_operation(1, 0, length(), BUFFER).unwrap();
    assert_eq!(kernel.submit_pending(dispatcher.ring_mut()), 1);

    let cancel_future = IoUringOperationFuture::queue_cancel(&mut dispatcher, timeout).unwrap();
    let cancel = cancel_future.operation();

    assert!(cancel_future.poll(&mut dispatcher, "waker").completion.is_none());
    assert_eq!(kernel.wait_and_dispatch(&mut dispatcher, 1), (1, vec!["waker"]));

    let cancel_completion = cancel_future
        .poll(&mut dispatcher, "waker")
        .completion
        .expect("queued cancel future should be ready after dispatch");
    assert_eq!(cancel_completion.operation, cancel);
    assert_eq!(cancel_completion.kind, IoUringOperationKind::Cancel { target: timeout });
    assert_eq!(cancel_completion.result, 0);

    let timeout_completion = kernel.wait_operation_completion(dispatcher.ring_mut(), timeout);
    assert_eq!(timeout_completion.kind, IoUringOperationKind::Timeout);
    assert_eq!(timeout_completion.result, -ECANCELED);
}

#[test]
fn owned_read_future_returns_filled_buffer() {
    let mut kernel = Kernel { pipe: b"uring".to_vec(), ..Kernel::default() };
    let mut dispatcher = IoUringDispatcher::new(available_ring());

    let mut future =
        IoUringReadFuture::queue(&mut dispatcher, PIPE, vec![0; 5], BUFFER, u64::MAX).unwrap();
    let operation = future.operation();

    assert!(future.poll(&mut dispatcher, "waker").0.is_none());
    assert_eq!(kernel.wait_and_dispatch(&mut dispatcher, 1), (1, vec!["waker"]));
    future.buffer.as_mut().unwrap().copy_from_slice(&kernel.memory);

    let read = future
        .poll(&mut dispatcher, "waker")
        .0
        .expect("owned read future should be ready after dispatch");
    assert_eq!(read.completion.operation, operation);
    assert_eq!(read.completion.kind, IoUringOperationKind::Read);
    assert_eq!(read.completion.result, 5);
    assert_eq!(&read.buffer, b"uring");
}

#[test]
fn dropping_pending_owned_read_defers_buffer_until_completion() {
    let mut kernel = Kernel { pipe: b"uring".to_vec(), ..Kernel::default() };
    let mut dispatcher = IoUringDispatcher::new(available_ring());

    let mut future =
        IoUringReadFuture::queue(&mut dispatcher, PIPE, vec![0; 5], BUFFER, u64::MAX).unwrap();
    assert!(future.poll(&mut dispatcher, "waker").0.is_none());
    assert_eq!(dispatcher.snapshot().registered_wakers, 1);
    future.release(&mut dispatcher);

    assert_eq!(dispatcher.snapshot().registered_wakers, 0);
    assert_eq!(dispatcher.snapshot().deferred_buffers, 1);

    assert_eq!(kernel.wait_and_dispatch(&mut dispatcher, 1).0, 1);
    assert_eq!(dispatcher.snapshot().deferred_buffers, 0);
    assert_eq!(dispatcher.snapshot().completed_operations, 0);
}

#[test]
fn owned_write_future_returns_written_buffer() {
    let mut kernel = Kernel { memory: b"uring".to_vec(), ..Kernel::default() };
    let mut dispatcher = IoUringDispatcher::new(available_ring());

    let mut future =
        IoUringWriteFuture::queue(&mut dispatcher, PIPE, b"uring".to_vec(), BUFFER, u64::MAX).unwrap();
    let operation = future.operation();

    assert!(future.poll(&mut dispatcher, "waker").0.is_none());
    assert_eq!(kernel.wait_and_dispatch(&mut dispatcher, 1), (1, vec!["waker"]));

    let write = future
        .poll(&mut dispatcher, "waker")
        .0
        .expect("owned write future should be ready after dispatch");

    assert_eq!(write.completion.operation, operation);
    assert_eq!(write.completion.kind, IoUringOperationKind::Write);
    assert_eq!(write.completion.result, 5);
    assert_eq!(&write.buffer, b"uring");
    assert_eq!(&kernel.pipe, b"uring");
}

#[test]
fn dropping_pending_owned_write_defers_buffer_until_completion() {
    let mut kernel = Kernel { memory: b"uring".to_vec(), ..Kernel::default() };
    let mut dispatcher = IoUringDispatcher::new(available_ring());

    let mut future =
        IoUringWriteFuture::queue(&mut dispatcher, PIPE, b"uring".to_vec(), BUFFER, u64::MAX).unwrap();
    assert!(future.poll(&mut dispatcher, "waker").0.is_none());
    assert_eq!(dispatcher.snapshot().registered_wakers, 1);
    future.release(&mut dispatcher);

    assert_eq!(dispatcher.snapshot().registered_wakers, 0);
    assert_eq!(dispatcher.snapshot().deferred_buffers, 1);

    assert_eq!(kernel.wait_and_dispatch(&mut dispatcher, 1).0, 1);
    assert_eq!(dispatcher.snapshot().deferred_buffers, 0);
    assert_eq!(dispatcher.snapshot().completed_operations, 0);
    assert_eq!(&kernel.pipe, b"uring");
}

#[test]
fn dropping_pending_operation_future_clears_registered_waker() {
    let mut dispatcher = IoUringDispatcher::new(available_ring());
    let operation = dispatcher.ring_mut().queue_nop_operation().unwrap();

    let future = IoUringOperationFuture::new(operation);
    assert!(future.poll(&mut dispatcher, "waker").completion.is_none());
    assert_eq!(dispatcher.snapshot().registered_wakers, 1);
    future.release(&mut dispatcher);

    assert_eq!(dispatcher.snapshot().registered_wakers, 0);
}

#[test]
fn tracked_timeout_operation_completes_after_deadline() {
    let mut kernel = Kernel::default();
    let mut ring = available_ring();

    let operation = ring.queue_timeout_operation(0, 1_000_000, length(), BUFFER).unwrap();
    let completion = kernel.wait_operation_completion(&mut ring, operation);

    assert_eq!(completion.operation, operation);
    assert_eq!(completion.kind, IoUringOperationKind::Timeout);
    assert_eq!(completion.result, -ETIME);
}

#[test]
fn timeout_once_waits_for_timeout_completion() {
    let mut kernel = Kernel::default();
    let mut ring = available_ring();

    let operation = ring.queue_timeout_operation(0, 1_000_000, length(), BUFFER).unwrap();
    kernel.submit_pending(&mut ring);
    let completion = kernel.wait_operation_completion(&mut ring, operation);

    assert_eq!(completion.kind, IoUringOperationKind::Timeout);
    assert_eq!(completion.result, -ETIME);
}

#[test]
fn tracked_timeout_can_be_cancelled() {
    let mut kernel = Kernel::default();
    let mut ring = available_ring();

    let timeout = ring.queue_timeout_operation(1, 0, length(), BUFFER).unwrap();
    assert_eq!(kernel.submit_pending(&mut ring), 1);

    let cancel = ring.queue_cancel_operation(timeout).unwrap();
    kernel.submit_pending(&mut ring);
    let first = kernel.wait_operation_completion(&mut ring, cancel);
    let second = kernel.wait_operation_completion(&mut ring, timeout);

    assert_eq!(first.operation, cancel);
    assert_eq!(first.kind, IoUringOperationKind::Cancel { target: timeout });
    assert_eq!(first.result, 0);
    assert_eq!(second.operation, timeout);
    assert_eq!(second.kind, IoUringOperationKind::Timeout);
    assert_eq!(second.result, -ECANCELED);
}

#[test]
fn try_operation_completion_preserves_raw_completions() {
    let mut kernel = Kernel::default();
    let mut ring = available_ring();

    ring.queue_nop(0x51_7a_5_a).unwrap();
    let operation = ring.queue_nop_operation().unwrap();
    assert_eq!(kernel.submit_pending(&mut ring), 2);

    let known = kernel.wait_operation_completion(&mut ring, operation);
    let raw = kernel.wait_completion(&mut ring);

    assert_eq!(known.operation, operation);
    assert_eq!(known.kind, IoUringOperationKind::Nop);
    assert_eq!(raw.user_data, 0x51_7a_5_a);
    assert_eq!(raw.result, 0);
}

#[test]
fn try_operation_completion_scans_past_raw_cqes() {
    let mut kernel = Kernel::default();
    let mut ring = available_ring();

    ring.queue_nop(0x51_7a_5_d).unwrap();
    let operation = ring.queue_nop_operation().unwrap();
    assert_eq!(kernel.submit_pending(&mut ring), 2);

    let raw = kernel.wait_for_completion(&mut ring, 0x51_7a_5_d);
    let known = ring.try_operation_completion().unwrap();

    assert_eq!(raw.user_data, 0x51_7a_5_d);
    assert_eq!(raw.result, 0);
    assert_eq!(known.operation, operation);
    assert_eq!(known.kind, IoUringOperationKind::Nop);
    assert_eq!(known.result, 0);
}

#[test]
fn wait_for_completion_preserves_other_completions() {
    let mut kernel = Kernel::default();
    let mut ring = available_ring();

    ring.queue_nop(0x51_7a_5_4).unwrap();
    kernel.submit_pending(&mut ring);
    ring.queue_nop(0x51_7a_5_5).unwrap();
    kernel.submit_pending(&mut ring);

    let matched = kernel.wait_for_completion(&mut ring, 0x51_7a_5_5);
    let preserved = kernel.wait_completion(&mut ring);

    assert_eq!(matched.user_data, 0x51_7a_5_5);
    assert_eq!(matched.result, 0);
    assert_eq!(preserved.user_data, 0x51_7a_5_4);
    assert_eq!(preserved.result, 0);
}

#[test]
fn try_completion_returns_available_completion_without_blocking() {
    let mut kernel = Kernel::default();
    let mut ring = available_ring();

    assert!(ring.try_completion().is_none());

    ring.queue_nop(0x51_7a_5_6).unwrap();
    kernel.submit_pending(&mut ring);
    let completion = kernel.wait_completion(&mut ring);
    ring.completions.push_back(completion);

    assert_eq!(ring.try_completion().map(|completion| completion.user_data), Some(0x51_7a_5_6));
    assert!(ring.try_completion().is_none());
}

#[test]
fn read_once_reads_from_pipe() {
    let mut kernel = Kernel { pipe: b"uring".to_vec(), ..Kernel::default() };
    let mut ring = available_ring();

    ring.queue_read(PIPE, BUFFER, 5, u64::MAX, 0x51_7a_5_2).unwrap();
    let completion = kernel.wait_for_completion(&mut ring, 0x51_7a_5_2);

    assert_eq!(completion.user_data, 0x51_7a_5_2);
    assert_eq!(completion.result, 5);
    assert_eq!(&kernel.memory, b"uring");
}

#[test]
fn tracked_read_operation_reads_from_pipe() {
    let mut kernel = Kernel { pipe: b"uring".to_vec(), ..Kernel::default() };
    let mut ring = available_ring();

    let operation = ring.queue_read_operation(PIPE, BUFFER, 5, u64::MAX).unwrap();
    let completion = kernel.wait_operation_completion(&mut ring, operation);

    assert_eq!(completion.operation, operation);
    assert_eq!(completion.kind, IoUringOperationKind::Read);
    assert_eq!(completion.result, 5);
    assert_eq!(&kernel.memory, b"uring");
}

#[test]
fn write_once_writes_to_pipe() {
    let mut kernel = Kernel { memory: b"uring".to_vec(), ..Kernel::default() };
    let mut ring = available_ring();

    ring.queue_write(PIPE, BUFFER, 5, u64::MAX, 0x51_7a_5_3).unwrap();
    let completion = kernel.wait_for_completion(&mut ring, 0x51_7a_5_3);

    assert_eq!(completion.user_data, 0x51_7a_5_3);
    assert_eq!(completion.result, 5);
    assert_eq!(&kernel.pipe, b"uring");
}

#[test]
fn tracked_write_operation_writes_to_pipe() {
    let mut kernel = Kernel { memory: b"uring".to_vec(), ..Kernel::default() };
    let mut ring = available_ring();

    let operation = ring.queue_write_operation(PIPE, BUFFER, 5, u64::MAX).unwrap();
    let completion = kernel.wait_operation_completion(&mut ring, operation);

    assert_eq!(completion.operation, operation);
    assert_eq!(completion.kind, IoUringOperationKind::Write);
    assert_eq!(completion.result, 5);
    assert_eq!(&kernel.pipe, b"uring");
}

// Limits of the rings.

#[test]
fn full_submission_ring_refuses_entries_and_wraps_around() {
    let mut kernel = Kernel::default();
    let mut ring = available_ring();
    for round in 0..5u64 {
        for i in 0..8 {
            ring.queue_nop(round * 8 + i).unwrap();
        }
        let refused = ring.queue_nop(99).unwrap_err();
        assert_eq!(refused.kind(), ErrorKind::WouldBlock);
        assert_eq!(kernel.submit_pending(&mut ring), 8);
        for i in 0..8 {
            assert_eq!(kernel.wait_completion(&mut ring).user_data, round * 8 + i);
        }
    }
}

#[test]
fn refused_operation_is_not_tracked() {
    let mut ring = available_ring();
    for _ in 0..8 {
        ring.queue_nop_operation().unwrap();
    }
    assert!(ring.queue_nop_operation().is_err());
    assert_eq!(ring.tracked_operations(), 8);
}

#[test]
fn failed_enter_is_reported_and_an_interrupted_one_is_not() {
    let mut ring = available_ring();
    ring.queue_nop(1).unwrap();
    assert!(ring.entered_to_wait(Err(4)).is_ok());
    assert_eq!(ring.entered_to_wait(Err(22)).unwrap_err().raw_os_error(), Some(22));
    assert_eq!(ring.pending_submissions(), 1);
    let too_many = ring.wait_completions(u32::MAX as usize + 1);
    assert!(matches!(
        too_many,
        RingStep::Done(Err(error)) if error.kind() == ErrorKind::InvalidInput
    ));
}

#[test]
fn dispatch_takes_no_more_than_its_budget() {
    let mut kernel = Kernel::default();
    let mut dispatcher = IoUringDispatcher::<u8>::new(IoUring::new(127, 255));
    for _ in 0..100 {
        dispatcher.ring_mut().queue_nop_operation().unwrap();
    }
    kernel.submit_pending(dispatcher.ring_mut());
    let (dispatched, _, exhausted) = dispatch_budget(&mut dispatcher);
    assert_eq!(dispatched, EXECUTOR_IO_URING_COMPLETION_BUDGET);
    assert!(exhausted);
    let (dispatched, _, exhausted) = dispatch_budget(&mut dispatcher);
    assert_eq!(dispatched, 36);
    assert!(!exhausted);
    assert_eq!(dispatcher.dispatch_available_limit(5).0, 0);
}

#[test]
fn waiting_is_worth_it_only_with_work_in_the_kernel() {
    let mut dispatcher = IoUringDispatcher::<u8>::new(available_ring());
    assert!(!should_wait(None));
    assert!(!should_wait(Some(dispatcher.snapshot())));
    dispatcher.ring_mut().queue_nop_operation().unwrap();
    assert!(should_wait(Some(dispatcher.snapshot())));
}

// Layout.

#[test]
fn submission_entries_have_the_kernel_layout() {
    let sqe = Sqe {
        opcode: IORING_OP_READ,
        fd: 3,
        offset: 0x0102,
        addr: 0x1122_3344_5566_7788,
        len: 5,
        user_data: 0xaabb,
    };
    let bytes = sqe.to_bytes(ByteOrder::Little);
    assert_eq!(bytes.len(), 64);
    assert_eq!(bytes[0], IORING_OP_READ);
    assert_eq!(&bytes[4..8], &[3, 0, 0, 0]);
    assert_eq!(&bytes[8..16], &[2, 1, 0, 0, 0, 0, 0, 0]);
    assert_eq!(&bytes[16..24], &[0x88, 0x77, 0x66, 0x55, 0x44, 0x33, 0x22, 0x11]);
    assert_eq!(&bytes[24..28], &[5, 0, 0, 0]);
    assert_eq!(&bytes[32..40], &[0xbb, 0xaa, 0, 0, 0, 0, 0, 0]);
    assert_eq!(Sqe::nop(7).user_data, 7);
    assert_eq!(Sqe::cancel(5, 7).addr, 5);
    assert_eq!((Sqe::timeout(BUFFER, 7).addr, Sqe::timeout(BUFFER, 7).len), (BUFFER, 1));
    let bytes = sqe.to_bytes(ByteOrder::Big);
    assert_eq!(&bytes[4..8], &[0, 0, 0, 3]);
    assert_eq!(&bytes[8..16], &[0, 0, 0, 0, 0, 0, 1, 2]);
    let layout = ring_layout(RingParams { sq_entries: 8, cq_entries: 16, sq_array: 100, cq_cqes: 64 });
    assert_eq!((layout.sq_ring_len, layout.cq_ring_len, layout.sqes_len), (132, 320, 512));
    let spec = KernelTimespec::from_duration(3, 5).unwrap();
    assert_eq!((spec.tv_sec, spec.tv_nsec), (3, 5));
    assert!(KernelTimespec::from_duration(u64::MAX, 0).is_err());
}

// Transfers.

#[test]
fn completion_results_are_counts_or_errors() {
    assert_eq!(completion_result_to_usize(i32::MIN).unwrap_err().raw_os_error(), Some(i32::MIN));
    assert_eq!(completion_result_to_usize(5).unwrap(), 5);
    assert_eq!(completion_result_to_usize(-22).unwrap_err().raw_os_error(), Some(22));
    assert_eq!(unavailable().kind(), ErrorKind::Unsupported);
}

#[test]
fn read_exact_at_gathers_short_reads() {
    let mut read = ReadExactAt::new(100, 6);
    let request = read.next().unwrap();
    assert_eq!((request.offset, request.len), (100, 6));
    read.on_read(b"abcd").unwrap();
    let request = read.next().unwrap();
    assert_eq!((request.offset, request.len), (104, 2));
    read.on_read(b"ef").unwrap();
    assert!(read.next().is_none());
    assert_eq!(read.output, b"abcdef");

    let mut at_position = ReadExactAt::new(u64::MAX, 3);
    let request = at_position.next().unwrap();
    assert_eq!((request.offset, request.len), (u64::MAX, 3));
    at_position.on_read(b"abc").unwrap();
    assert!(at_position.next().is_none());

    let mut short = ReadExactAt::new(0, 2);
    assert_eq!(short.on_read(b"").unwrap_err().kind(), ErrorKind::UnexpectedEof);
}

#[test]
fn write_all_at_goes_on_behind_short_writes() {
    let mut write = WriteAllAt::new(10, b"abcdef".to_vec());
    write
        .on_write(WriteAtUringCompletion { bytes: 4, buffer: b"abcdef".to_vec() })
        .unwrap();
    assert!(!write.is_done());
    assert_eq!((write.offset, write.buffer.clone()), (14, b"ef".to_vec()));
    write.on_write(WriteAtUringCompletion { bytes: 2, buffer: b"ef".to_vec() }).unwrap();
    assert!(write.is_done());

    let mut stuck = WriteAllAt::new(0, b"a".to_vec());
    let error = stuck
        .on_write(WriteAtUringCompletion { bytes: 0, buffer: b"a".to_vec() })
        .unwrap_err();
    assert_eq!(error.kind(), ErrorKind::WriteZero);
}

#[test]
fn executor_reads_and_writes_through_the_ring() {
    let mut kernel = Kernel { pipe: b"hello".to_vec(), ..Kernel::default() };
    let mut dispatcher = IoUringDispatcher::new(available_ring());
    let mut read = read_at_uring(PIPE, 0, vec![0; 8]);
    read.ensure_queued(dispatcher.ring_mut(), BUFFER).unwrap();
    assert!(read.poll(&mut dispatcher, "reader").ready.is_none());
    kernel.submit_pending(dispatcher.ring_mut());
    let (_, woken) = dispatcher.dispatch_available();
    assert_eq!(woken, vec!["reader"]);
    read.buffer.as_mut().unwrap()[..5].copy_from_slice(&kernel.memory);
    let bytes = read.poll(&mut dispatcher, "reader").ready.unwrap().unwrap();
    assert_eq!(bytes, b"hello");

    let mut write = write_at_uring(PIPE, 0, b"hello".to_vec());
    write.ensure_queued(dispatcher.ring_mut(), BUFFER).unwrap();
    kernel.submit_pending(dispatcher.ring_mut());
    let done = write.poll(&mut dispatcher, "writer").ready.unwrap().unwrap();
    assert_eq!((done.bytes, done.buffer), (5, b"hello".to_vec()));
    assert_eq!(kernel.pipe, b"hello");
}

#[test]
fn abandoned_operation_is_forgotten() {
    let mut ring = available_ring();
    let first = ring.queue_nop_operation().unwrap();
    let second = ring.queue_nop_operation().unwrap();
    assert!(first.raw() < second.raw());
    ring.abandon_operation(first);
    assert_eq!(ring.tracked_operations(), 1);
}

#[test]
fn pending_count_overflow_is_reported() {
    let mut ring = available_ring();
    ring.pending_submissions = u32::MAX;
    let refused = ring.queue_nop(7).unwrap_err();
    assert_eq!(refused.kind(), ErrorKind::Other);
    assert_eq!(refused.message, "io_uring pending submission count overflow");
    assert_eq!(ring.pending_submissions(), u32::MAX);
    assert_eq!(ring.sq_tail, 1);

    let refused = ring.queue_nop_operation().unwrap_err();
    assert_eq!(refused.message, "io_uring pending submission count overflow");
    assert_eq!(ring.tracked_operations(), 0);
    assert_eq!(ring.next_operation, 1);
    assert_eq!(ring.sqes[1].user_data, OPERATION_USER_DATA_BASE);
}

#[test]
fn wait_and_dispatch_refuses_an_oversized_count() {
    let mut dispatcher: IoUringDispatcher<&str> = IoUringDispatcher::new(available_ring());
    match dispatcher.wait_and_dispatch(u32::MAX as usize + 1) {
        RingStep::Done(Err(error)) => {
            assert_eq!(error.kind(), ErrorKind::InvalidInput);
            assert_eq!(error.message, "io_uring completion wait count exceeds u32::MAX");
        }
        _ => panic!("an oversized count should be refused"),
    }
    dispatcher.ring_mut().queue_nop_operation().unwrap();
    match dispatcher.wait_and_dispatch(2) {
        RingStep::Enter { to_submit, min_complete } => {
            assert_eq!((to_submit, min_complete), (1, 2));
        }
        RingStep::Done(_) => panic!("nothing has completed yet"),
    }
}

#[test]
fn completion_of_an_abandoned_operation_is_refused() {
    let mut kernel = Kernel::default();
    let mut ring = available_ring();
    let operation = ring.queue_nop_operation().unwrap();
    kernel.submit_pending(&mut ring);
    ring.abandon_operation(operation);
    match ring.wait_operation_completion(operation) {
        RingStep::Done(Err(error)) => {
            assert_eq!(error.kind(), ErrorKind::NotFound);
            assert_eq!(
                error.message,
                "io_uring completion does not match a tracked operation"
            );
        }
        _ => panic!("the operation is no longer known"),
    }
    assert!(ring.try_completion().is_none());
}

#[test]
fn ring_keeps_the_length_of_a_timeout_until_completion() {
    let mut kernel = Kernel::default();
    let mut ring = available_ring();
    let storage = length();
    let timeout = ring.queue_timeout_operation(2, 30, storage, BUFFER).unwrap();
    let nop = ring.queue_nop_operation().unwrap();
    let kept = |ring: &IoUring| ring.operations[&timeout.raw()].timeout.clone();
    assert_eq!(kept(&ring), Some(Box::new([2, 30])));
    assert_eq!(kernel.wait_operation_completion(&mut ring, nop).kind, IoUringOperationKind::Nop);
    assert_eq!(kept(&ring), Some(Box::new([2, 30])));
    assert_eq!(kernel.wait_operation_completion(&mut ring, timeout).result, -ETIME);
    assert!(!ring.operations.contains_key(&timeout.raw()));

    let refused = ring.queue_timeout_operation(u64::MAX, 0, length(), BUFFER).unwrap_err();
    assert_eq!(refused.kind(), ErrorKind::InvalidInput);
    assert_eq!(ring.tracked_operations(), 0);
}

#[test]
fn ending_executor_drains_only_what_nobody_waits_for() {
    let mut dispatcher = IoUringDispatcher::new(available_ring());
    assert!(!should_drain(dispatcher.snapshot(), 0));
    let operation = dispatcher.ring_mut().queue_nop_operation().unwrap();
    assert!(should_drain(dispatcher.snapshot(), 0));
    assert!(should_drain(dispatcher.snapshot(), 7));
    assert!(!should_drain(dispatcher.snapshot(), 8));
    dispatcher.register_waker(operation, "waker");
    assert!(!should_drain(dispatcher.snapshot(), 0));
}
