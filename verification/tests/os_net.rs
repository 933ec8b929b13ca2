//! Readiness backends, addresses, and the steps of I/O operations.

use std::collections::HashMap;

use sitas::endian::{
    push_bytes, push_ne64, push_zeros, to_be32, to_le32, to_ne16, to_ne32, ByteOrder,
};
use sitas::executor::driver::DriverEvent;
use sitas::executor::future::TimeoutError;
use sitas::executor::join::JoinError;
use sitas::executor::scope::{BoundedJoin, JoinStep, TaskScopeError};
use sitas::executor::spawn_error::SpawnError;
use sitas::executor::tcp::{
    handler_result, scoped_result, spawn_error_to_io, task_scope_error_to_io, tcp_handler_joined,
    tcp_shutdown_timeout_io, HandlerErrors, HandlerOutcome, ServeEvent, ServeMode, ServeStep,
    TcpHandlerShutdown, TcpServe,
};
use sitas::executor::udp::{received, sent, UdpBind, UdpBindStep, UdpSocket};
use sitas::executor::unix_io::{
    connect_outcome, on_accept, timeout_io, CopyStep, CopyTransfer, IoStep, ReadExact, WriteAll,
};
use sitas::io_error::{ErrorKind, IoError};
use sitas::net::{
    decode_sock_name, decode_sockaddr_from_buf, encode_bind_address, encode_sockaddr_to_buf,
    socket_addr_len, SocketAddr,
};
use sitas::os::epoll::{
    decode_events, interest_events, needs_drain, EpollChange, EpollEvent, EpollRegistry, EPOLLIN,
    EPOLLOUT, WAKE_TOKEN,
};
use sitas::os::event::OsEvent;
use sitas::os::interest::{merge_interests, FdInterest};
use sitas::os::kqueue::{self, KqueueRegistration, KqueueRegistry, EVFILT_READ, EVFILT_WRITE};
use sitas::os::reactor::{
    connect_started, decode_poll, is_would_block, nonblocking_flags, tcp_connect_start,
    timeout_to_wait_ms, wait_failed, wake_written, DrainWakes, RetryStep, POLLIN, POLLOUT,
};
use sitas::platform::{Host, Platform};
use sitas::time::saturating_duration_since;

const EAGAIN: i32 = 11;

const LINUX: Host = Host { platform: Platform::Linux, byte_order: ByteOrder::Little };
const BIG_LINUX: Host = Host { platform: Platform::Linux, byte_order: ByteOrder::Big };
const OTHER_UNIX: Host = Host { platform: Platform::OtherUnix, byte_order: ByteOrder::Little };
const EINTR: i32 = 4;

// A reactor over a kernel that the test plays.

struct Reactor {
    registry: EpollRegistry,
    pipe: usize,
    readable: Vec<i32>,
    writable: Vec<i32>,
}

impl Reactor {
    fn new() -> Reactor {
        Reactor {
            registry: EpollRegistry::new(),
            pipe: 0,
            readable: Vec::new(),
            writable: Vec::new(),
        }
    }

    fn wake(&mut self) {
        self.pipe += 1;
        assert!(matches!(wake_written(Platform::Linux, Ok(1)), RetryStep::Done(Ok(()))));
    }

    fn drain(&mut self) -> bool {
        let mut drain = DrainWakes::new(Platform::Linux);
        loop {
            let read = if self.pipe == 0 { Err(EAGAIN) } else { Ok(self.pipe) };
            self.pipe = 0;
            if let RetryStep::Done(result) = drain.on_read(read) {
                return result.unwrap();
            }
        }
    }

    fn wait(&mut self, read_fds: &[i32], write_fds: &[i32]) -> OsEvent {
        let interests = merge_interests(read_fds, write_fds);
        self.registry.reconcile(&interests);
        let mut events = Vec::new();
        if self.pipe > 0 {
            events.push(EpollEvent { events: EPOLLIN, data: WAKE_TOKEN });
        }
        for interest in interests {
            let mut ready = 0;
            if self.readable.contains(&interest.fd) {
                ready |= EPOLLIN;
            }
            if self.writable.contains(&interest.fd) {
                ready |= EPOLLOUT;
            }
            ready &= interest_events(interest);
            if ready != 0 {
                let data = self.registry.token_for_fd(interest.fd).unwrap();
                events.push(EpollEvent { events: ready, data });
            }
        }
        let drained = needs_drain(&events) && self.drain();
        decode_events(&self.registry, &events, drained)
    }
}

#[test]
fn wait_times_out_without_wake() {
    let mut reactor = Reactor::new();

    assert!(!reactor.wait(&[], &[]).woke);
    assert_eq!(timeout_to_wait_ms(Some(1_000_000)), 1);
}

#[test]
fn wake_before_wait_is_observed() {
    let mut reactor = Reactor::new();

    reactor.wake();

    assert!(reactor.wait(&[], &[]).woke);
}

#[test]
fn multiple_wakes_are_coalesced_by_drain() {
    let mut reactor = Reactor::new();

    reactor.wake();
    reactor.wake();

    assert!(reactor.wait(&[], &[]).woke);
    assert!(!reactor.wait(&[], &[]).woke);
}

#[test]
fn wait_readable_times_out_without_fd_readiness() {
    let mut reactor = Reactor::new();

    let event = reactor.wait(&[10], &[]);

    assert!(!event.woke);
    assert!(event.readable.is_empty());
    assert!(event.writable.is_empty());
}

#[test]
fn wait_readable_reports_external_fd_readiness() {
    let mut reactor = Reactor::new();
    reactor.readable.push(10);

    let event = reactor.wait(&[10], &[]);

    assert!(!event.woke);
    assert_eq!(event.readable, vec![10]);
    assert!(event.writable.is_empty());
}

#[test]
fn wait_readable_reports_wake_and_fd_readiness_together() {
    let mut reactor = Reactor::new();
    reactor.readable.push(10);
    reactor.wake();

    let event = reactor.wait(&[10], &[]);

    assert!(event.woke);
    assert_eq!(event.readable, vec![10]);
    assert!(event.writable.is_empty());
}

#[test]
fn wait_writable_reports_external_fd_readiness() {
    let mut reactor = Reactor::new();
    reactor.writable.push(11);

    let event = reactor.wait(&[], &[11]);

    assert!(!event.woke);
    assert!(event.readable.is_empty());
    assert_eq!(event.writable, vec![11]);
}

#[test]
fn wait_io_reports_readable_and_writable_fds_together() {
    let mut reactor = Reactor::new();
    reactor.readable.push(10);
    reactor.writable.push(11);
    reactor.writable.push(13);

    let event = reactor.wait(&[10], &[13]);

    assert!(!event.woke);
    assert_eq!(event.readable, vec![10]);
    assert_eq!(event.writable, vec![13]);
}

#[test]
fn registrations_follow_the_interests() {
    let mut registry = EpollRegistry::new();
    let read = |fd| FdInterest { fd, read: true, write: false };
    let both = |fd| FdInterest { fd, read: true, write: true };
    let (stale, changes) = registry.reconcile(&[read(3), read(4)]);
    assert!(stale.is_empty());
    assert!(matches!(changes[..], [EpollChange::Add { token: 1 }, EpollChange::Add { token: 2 }]));
    let (stale, changes) = registry.reconcile(&[both(4), read(5)]);
    assert_eq!(stale, vec![3]);
    assert!(matches!(
        changes[..],
        [EpollChange::Modify { token: 2 }, EpollChange::Add { token: 3 }]
    ));
    let (stale, changes) = registry.reconcile(&[both(4), read(5)]);
    assert!(stale.is_empty());
    assert!(matches!(changes[..], [EpollChange::Keep, EpollChange::Keep]));
    assert_eq!(registry.get(3).map(|interest| interest.fd), Some(5));
    assert!(registry.get(1).is_none());
    assert_eq!(registry.token_for_fd(5), Some(3));
    assert_eq!(registry.token_for_fd(3), None);
    registry.insert_wake(9);
    assert!(registry.get(WAKE_TOKEN) == Some(read(9)));
    let mut fds = registry.interest_fds();
    fds.sort();
    assert_eq!(fds, vec![4, 5]);
    assert!(registry.remove_fd(4) == Some(both(4)));
    assert!(registry.remove_fd(4).is_none());
    assert!(registry.get(2).is_none());
    assert_eq!(interest_events(both(4)), EPOLLIN | EPOLLOUT);
}

#[test]
fn interests_in_one_descriptor_are_merged() {
    let merged = merge_interests(&[3, 4, 3], &[4, 5]);
    assert_eq!(
        merged.iter().map(|i| (i.fd, i.read, i.write)).collect::<Vec<_>>(),
        vec![(3, true, false), (4, true, true), (5, false, true)]
    );
}

#[test]
fn hang_up_counts_as_readable_and_writable() {
    let mut registry = EpollRegistry::new();
    registry.reconcile(&[FdInterest { fd: 3, read: true, write: true }]);
    let event = decode_events(&registry, &[EpollEvent { events: 0x10, data: 1 }], false);
    assert_eq!((event.readable, event.writable), (vec![3], vec![3]));
}

#[test]
fn kqueue_registrations_name_both_filters() {
    let mut registry = KqueueRegistry::new();
    let interest = FdInterest { fd: 3, read: true, write: true };
    let token = registry.insert_temporary(interest);
    let changes = kqueue::registration_changes(interest, token);
    assert_eq!(
        changes.iter().map(|change| change.filter).collect::<Vec<_>>(),
        vec![EVFILT_READ, EVFILT_WRITE]
    );
    assert_eq!(kqueue::deregistration_changes(interest).len(), 2);
    let events = changes
        .iter()
        .map(|change| kqueue::Kevent { flags: 0, ..*change })
        .collect::<Vec<_>>();
    assert!(!kqueue::needs_drain(&events));
    let event = kqueue::decode_events(&registry, &events, false);
    assert_eq!((event.readable, event.writable), (vec![3], vec![3]));
    assert_eq!(registry.remove(token).map(|interest| interest.fd), Some(3));
    assert!(registry.get(token).is_none());
    let spec = kqueue::duration_to_timespec(2, 7);
    assert_eq!((spec.tv_sec, spec.tv_nsec), (2, 7));
}

#[test]
fn polled_waits_are_decoded() {
    let event = decode_poll(POLLIN, &[3, 4], &[POLLIN, 0], &[5, 6], &[0, POLLOUT], true);
    assert!(event.woke);
    assert_eq!((event.readable, event.writable), (vec![3], vec![6]));
    assert!(!decode_poll(0, &[], &[], &[], &[], true).woke);
}

#[test]
fn driver_events_keep_completions_apart() {
    let mut event = DriverEvent::from_os_event(OsEvent {
        woke: true,
        readable: vec![3, 9],
        writable: Vec::new(),
    });
    event.take_completion(9);
    assert!(event.completion);
    assert_eq!(event.readiness.unwrap().readable, vec![3]);
}

#[test]
fn waits_round_down_and_saturate() {
    assert_eq!(timeout_to_wait_ms(None), -1);
    assert_eq!(timeout_to_wait_ms(Some(0)), 0);
    assert_eq!(timeout_to_wait_ms(Some(2_999_999)), 2);
    assert_eq!(timeout_to_wait_ms(Some(u64::MAX)), i32::MAX);
    assert_eq!(saturating_duration_since(7, 5), 2);
    assert_eq!(saturating_duration_since(5, 7), 0);
}

#[test]
fn interrupted_calls_are_made_again() {
    assert!(matches!(wait_failed(Platform::Linux, EINTR), RetryStep::Again));
    assert!(matches!(
        wait_failed(Platform::Linux, 9),
        RetryStep::Done(Err(error)) if error.raw_os_error() == Some(9)
    ));
    assert!(matches!(wake_written(Platform::Linux, Err(EINTR)), RetryStep::Again));
    assert!(matches!(wake_written(Platform::Linux, Err(EAGAIN)), RetryStep::Done(Ok(()))));
    assert!(matches!(wake_written(Platform::Linux, Err(32)), RetryStep::Done(Err(_))));
    let mut drain = DrainWakes::new(Platform::Linux);
    assert!(matches!(drain.on_read(Err(EINTR)), RetryStep::Again));
    assert!(matches!(drain.on_read(Err(EAGAIN)), RetryStep::Done(Ok(false))));
    assert!(matches!(drain.on_read(Err(9)), RetryStep::Done(Err(_))));
    assert!(is_would_block(Platform::Linux, &IoError::from_raw_os_error(Platform::Linux, EAGAIN)));
    assert_eq!(nonblocking_flags(Platform::Linux, Ok(2)).unwrap(), 2 | 0o4000);
    assert!(nonblocking_flags(Platform::Linux, Err(9)).is_err());
    assert!(!is_would_block(Platform::Linux, &IoError::from_raw_os_error(Platform::Linux, 35)));
    assert!(is_would_block(Platform::OtherUnix, &IoError::from_raw_os_error(Platform::OtherUnix, 35)));
    assert!(is_would_block(Platform::OtherUnix, &IoError::from_raw_os_error(Platform::OtherUnix, EAGAIN)));
    assert_eq!(nonblocking_flags(Platform::OtherUnix, Ok(2)).unwrap(), 2 | 4);
}

#[test]
fn system_errors_have_kinds() {
    let kind = |code| IoError::from_raw_os_error(Platform::Linux, code).kind();
    assert_eq!(kind(EINTR), ErrorKind::Interrupted);
    assert_eq!(kind(EAGAIN), ErrorKind::WouldBlock);
    assert_eq!(kind(98), ErrorKind::AddrInUse);
    assert_eq!(kind(103), ErrorKind::ConnectionAborted);
    assert_eq!(kind(111), ErrorKind::ConnectionRefused);
    assert_eq!(kind(13), ErrorKind::PermissionDenied);
    assert_eq!(kind(12), ErrorKind::OutOfMemory);
    assert_eq!(kind(100), ErrorKind::NetworkDown);
    assert_eq!(kind(113), ErrorKind::HostUnreachable);
    assert_eq!(kind(5), ErrorKind::Uncategorized);

    let kind = |code| IoError::from_raw_os_error(Platform::OtherUnix, code).kind();
    assert_eq!(kind(EINTR), ErrorKind::Interrupted);
    assert_eq!(kind(35), ErrorKind::WouldBlock);
    assert_eq!(kind(11), ErrorKind::Deadlock);
    assert_eq!(kind(48), ErrorKind::AddrInUse);
    assert_eq!(kind(53), ErrorKind::ConnectionAborted);
    assert_eq!(kind(61), ErrorKind::ConnectionRefused);
    assert_eq!(kind(65), ErrorKind::HostUnreachable);
    assert_eq!(kind(111), ErrorKind::Uncategorized);
}

#[test]
fn operations_that_would_block_say_so_on_every_system() {
    for (host, code) in [(LINUX, 11), (OTHER_UNIX, 35)] {
        let empty = received(host, Err(code), &[0; 128]).unwrap_err();
        assert_eq!(empty.kind(), ErrorKind::WouldBlock);
        assert_eq!(empty.raw_os_error(), Some(code));
        assert_eq!(sent(host.platform, Err(code)).unwrap_err().kind(), ErrorKind::WouldBlock);
        let blocked = IoError::from_raw_os_error(host.platform, code);
        assert!(matches!(ReadExact::new(4).on_read(Err(blocked)), IoStep::AwaitReady));
    }
}

// Addresses.

fn v4(last: u8, port: u16) -> SocketAddr {
    SocketAddr::V4 { ip: [127, 0, 0, last], port }
}

fn v6() -> SocketAddr {
    SocketAddr::V6 {
        ip: [0, 1, 2, 3, 4, 5, 6, 7, 8, 9, 10, 11, 12, 13, 14, 15],
        port: 9090,
        flowinfo: 0x0102_0304,
        scope_id: 5,
    }
}

fn text(addr: &SocketAddr) -> String {
    format!("{addr:?}")
}

#[test]
fn peer_addresses_round_trip() {
    for addr in [v4(1, 8080), v6()] {
        let buf = encode_sockaddr_to_buf(LINUX, &addr);
        assert_eq!(buf.len(), 128);
        assert_eq!(text(&decode_sockaddr_from_buf(LINUX, &buf).unwrap()), text(&addr));
    }
    assert!(decode_sockaddr_from_buf(LINUX, &[0; 128]).is_none());
    let buf = encode_sockaddr_to_buf(LINUX, &v6());
    assert_eq!(&buf[..8], &[10, 0, 0x23, 0x82, 1, 2, 3, 4]);
    assert_eq!(&buf[24..28], &[0, 0, 0, 5]);
}

#[test]
fn other_systems_lay_addresses_out_with_their_length() {
    for addr in [v4(1, 8080), v6()] {
        let buf = encode_sockaddr_to_buf(OTHER_UNIX, &addr);
        let read = decode_sockaddr_from_buf(OTHER_UNIX, &buf).unwrap();
        assert_eq!(text(&read), text(&addr));
    }
    let buf = encode_bind_address(BIG_LINUX, &v6());
    assert_eq!(&buf[..8], &[0, 10, 0x23, 0x82, 1, 2, 3, 4]);
    assert_eq!(text(&decode_sock_name(ByteOrder::Big, &v6(), &buf)), text(&v6()));
    let buf = encode_sockaddr_to_buf(BIG_LINUX, &v6());
    assert_eq!(text(&decode_sockaddr_from_buf(BIG_LINUX, &buf).unwrap()), text(&v6()));
    let buf = encode_bind_address(OTHER_UNIX, &v4(1, 8080));
    assert_eq!(&buf[..8], &[16, 2, 0x1f, 0x90, 127, 0, 0, 1]);
    let buf = encode_bind_address(OTHER_UNIX, &v6());
    assert_eq!(&buf[..4], &[28, 30, 0x23, 0x82]);
    assert_eq!(tcp_connect_start(OTHER_UNIX, &v6()).domain, 30);
    assert!(connect_started(Platform::OtherUnix, Err(36)).is_ok());
    let bind = UdpBind::new(OTHER_UNIX, v4(1, 7));
    assert!(matches!(bind.start(), UdpBindStep::Socket { domain: 2, socket_type: 2 }));
    assert!(matches!(bind.on_flags_set(3), UdpBindStep::SetCloseOnExec { fd: 3 }));
    assert!(matches!(bind.on_close_on_exec_set(3), UdpBindStep::SetReuseAddr { fd: 3, level: 0xffff, name: 4 }));
}

#[test]
fn bound_addresses_round_trip() {
    for addr in [v4(1, 8080), v6()] {
        let buf = encode_bind_address(LINUX, &addr);
        assert_eq!(buf.len(), socket_addr_len(&addr) as usize);
        assert_eq!(text(&decode_sock_name(ByteOrder::Little, &addr, &buf)), text(&addr));
    }
    assert_eq!(&encode_bind_address(LINUX, &v6())[4..8], &[4, 3, 2, 1]);
}

#[test]
fn bind_sockaddr_builds_ipv4_address_with_stable_pointer() {
    let bind_addr = encode_bind_address(LINUX, &v4(1, 8080));
    assert_eq!(bind_addr.len(), 16);
    assert_eq!(bind_addr[2..4], 8080u16.to_be_bytes());
}

#[test]
fn bind_sockaddr_builds_ipv6_address_with_stable_pointer() {
    let addr = SocketAddr::V6 {
        ip: [0, 0, 0, 0, 0, 0, 0, 0, 0, 0, 0, 0, 0, 0, 0, 1],
        port: 9090,
        flowinfo: 0,
        scope_id: 0,
    };
    let bind_addr = encode_bind_address(LINUX, &addr);
    assert_eq!(bind_addr.len(), 28);
    assert_eq!(bind_addr[2..4], 9090u16.to_be_bytes());
}

#[test]
fn numbers_have_byte_orders() {
    assert_eq!(to_le32(0x0102_0304), [4, 3, 2, 1]);
    assert_eq!(to_be32(0x0102_0304), [1, 2, 3, 4]);
    assert_eq!(to_ne16(ByteOrder::Little, 0x0102), [2, 1]);
    assert_eq!(to_ne16(ByteOrder::Big, 0x0102), [1, 2]);
    assert_eq!(to_ne32(ByteOrder::Little, 0x0102_0304), [4, 3, 2, 1]);
    assert_eq!(to_ne32(ByteOrder::Big, 0x0102_0304), [1, 2, 3, 4]);
    let mut words = Vec::new();
    push_ne64(&mut words, ByteOrder::Big, 0x0102_0304_0506_0708);
    push_ne64(&mut words, ByteOrder::Little, 0x0102_0304_0506_0708);
    assert_eq!(words, vec![1, 2, 3, 4, 5, 6, 7, 8, 8, 7, 6, 5, 4, 3, 2, 1]);
    let mut buf = vec![9];
    push_bytes(&mut buf, &[1, 2]);
    push_zeros(&mut buf, 2);
    assert_eq!(buf, vec![9, 1, 2, 0, 0]);
}

// UDP, over a network that the test plays.

#[derive(Default)]
struct Network {
    bound: HashMap<Vec<u8>, i32>,
    packets: HashMap<i32, Vec<(Vec<u8>, Vec<u8>)>>,
    next_fd: i32,
}

impl Network {
    fn bind(&mut self, addr: SocketAddr) -> Result<UdpSocket, IoError> {
        let bind = UdpBind::new(LINUX, addr);
        let mut step = bind.start();
        loop {
            step = match step {
                UdpBindStep::Socket { .. } => {
                    self.next_fd += 1;
                    bind.on_socket(Ok(self.next_fd))
                }
                UdpBindStep::GetFlags { fd } => bind.on_flags(fd, 2),
                UdpBindStep::SetFlags { fd, flags } => {
                    assert_eq!(flags, 2 | 0o4000);
                    bind.on_flags_set(fd)
                }
                UdpBindStep::SetCloseOnExec { fd } => bind.on_close_on_exec_set(fd),
                UdpBindStep::SetReuseAddr { fd, .. } => bind.on_reuse_addr_set(fd),
                UdpBindStep::Bind { fd, address } => {
                    let mut address = address;
                    if address[2..4] == [0, 0] {
                        address[3] = 40 + fd as u8;
                    }
                    if self.bound.contains_key(&address) {
                        bind.on_bound(fd, Err(98))
                    } else {
                        self.bound.insert(address, fd);
                        bind.on_bound(fd, Ok(()))
                    }
                }
                UdpBindStep::GetSockName { fd } => {
                    let name =
                        self.bound.iter().find(|(_, owner)| **owner == fd).unwrap().0.clone();
                    bind.on_sock_name(fd, Ok(name))
                }
                UdpBindStep::Close { error, .. } | UdpBindStep::Failed(error) => {
                    return Err(error);
                }
                UdpBindStep::Ready(socket) => return Ok(socket),
            };
        }
    }

    fn send_to(&mut self, from: &UdpSocket, data: &[u8], to: SocketAddr) -> usize {
        let peer = encode_sockaddr_to_buf(LINUX, &to);
        let fd = self.bound[&peer[..16].to_vec()];
        let sender = encode_sockaddr_to_buf(LINUX, &from.local_addr());
        self.packets.entry(fd).or_default().push((data.to_vec(), sender));
        sent(Platform::Linux, Ok(data.len())).unwrap()
    }

    fn recv_from(
        &mut self,
        socket: &UdpSocket,
        buf: &mut [u8],
    ) -> Result<(usize, SocketAddr), IoError> {
        let queue = self.packets.entry(socket.as_raw_fd()).or_default();
        if queue.is_empty() {
            return received(LINUX, Err(EAGAIN), &[0; 128]);
        }
        let (data, sender) = queue.remove(0);
        buf[..data.len()].copy_from_slice(&data);
        received(LINUX, Ok(data.len()), &sender)
    }
}

#[test]
fn udp_socket_bind_and_send_recv() {
    let mut network = Network::default();
    let a = network.bind(v4(1, 0)).unwrap();
    let b = network.bind(v4(1, 0)).unwrap();
    let b_addr = b.local_addr();
    let a_addr = a.local_addr();

    let msg = b"hello udp";
    let sent = network.send_to(&a, msg, b_addr);
    assert_eq!(sent, msg.len());

    let mut buf = [0u8; 1024];
    let (n, from_addr) = network.recv_from(&b, &mut buf).unwrap();
    assert_eq!(&buf[..n], msg);
    assert_eq!(text(&from_addr), text(&a_addr));
}

#[test]
fn udp_pair_communicates() {
    let mut network = Network::default();
    let a = network.bind(v4(1, 0)).unwrap();
    let b = network.bind(v4(1, 0)).unwrap();
    let a_addr = a.local_addr();

    network.send_to(&b, b"ping", a_addr);
    let mut buf = [0u8; 1024];
    let (n, _from) = network.recv_from(&a, &mut buf).unwrap();
    assert_eq!(&buf[..n], b"ping");
}

#[test]
fn udp_would_block_on_empty_socket() {
    let mut network = Network::default();
    let a = network.bind(v4(1, 0)).unwrap();
    let mut buf = [0u8; 1024];
    let result = network.recv_from(&a, &mut buf);
    assert!(result.is_err());
    assert_eq!(result.unwrap_err().kind(), ErrorKind::WouldBlock);
}

#[test]
fn udp_bind_reports_failures() {
    let mut network = Network::default();
    network.bind(v4(1, 7)).unwrap();
    assert_eq!(network.bind(v4(1, 7)).unwrap_err().kind(), ErrorKind::AddrInUse);
    let bind = UdpBind::new(LINUX, v4(1, 7));
    assert!(matches!(bind.on_socket(Err(24)), UdpBindStep::Failed(_)));
    assert!(matches!(bind.on_flags(3, -1), UdpBindStep::SetReuseAddr { fd: 3, level: 1, name: 2 }));
    assert!(matches!(bind.on_sock_name(3, Err(9)), UdpBindStep::Close { fd: 3, .. }));
    assert!(received(LINUX, Ok(1), &[0; 128]).is_err());
    assert_eq!(sent(Platform::Linux, Err(EAGAIN)).unwrap_err().kind(), ErrorKind::WouldBlock);
}

// Streams.

fn would_block() -> IoError {
    IoError::from_raw_os_error(Platform::Linux, EAGAIN)
}

#[test]
fn read_exact_async_waits_until_buffer_is_filled() {
    let mut read = ReadExact::new(5);
    assert!(matches!(read.start(), IoStep::Again));
    assert!(matches!(read.on_read(Err(would_block())), IoStep::AwaitReady));
    assert!(matches!(read.on_read(Ok(2)), IoStep::Again));
    assert!(matches!(read.on_read(Err(IoError::from_raw_os_error(Platform::Linux, EINTR))), IoStep::Again));
    assert!(matches!(read.on_read(Ok(3)), IoStep::Done(Ok(()))));
    assert!(matches!(ReadExact::new(0).start(), IoStep::Done(Ok(()))));
}

#[test]
fn read_exact_async_returns_unexpected_eof() {
    let mut read = ReadExact::new(5);
    assert!(matches!(
        read.on_read(Ok(0)),
        IoStep::Done(Err(error)) if error.kind() == ErrorKind::UnexpectedEof
    ));
    let mut read = ReadExact::new(5);
    assert!(matches!(
        read.on_read(Err(IoError::from_raw_os_error(Platform::Linux, 104))),
        IoStep::Done(Err(error)) if error.raw_os_error() == Some(104)
    ));
}

#[test]
fn read_exact_timeout_async_returns_timed_out() {
    let result = timeout_io::<()>(Err(TimeoutError {}));
    assert_eq!(result.unwrap_err().kind(), ErrorKind::TimedOut);
    assert_eq!(timeout_io(Ok(Ok(7))).unwrap(), 7);
}

#[test]
fn write_all_async_writes_entire_buffer() {
    let mut write = WriteAll::new(5);
    assert!(matches!(write.start(), IoStep::Again));
    assert!(matches!(write.on_write(Ok(4)), IoStep::Again));
    assert!(matches!(write.on_write(Err(would_block())), IoStep::AwaitReady));
    assert!(matches!(write.on_write(Ok(1)), IoStep::Done(Ok(()))));
    let mut stuck = WriteAll::new(5);
    assert!(matches!(
        stuck.on_write(Ok(0)),
        IoStep::Done(Err(error)) if error.kind() == ErrorKind::WriteZero
    ));
}

#[test]
fn copy_async_copies_until_reader_eof() {
    let mut copy = CopyTransfer::new(4).unwrap();
    assert!(matches!(copy.on_read(Err(would_block())), CopyStep::AwaitReadable));
    assert!(matches!(copy.on_read(Ok(4)), CopyStep::Write(4)));
    assert!(matches!(copy.on_written(Ok(())), CopyStep::Read));
    assert!(matches!(copy.on_read(Ok(2)), CopyStep::Write(2)));
    assert!(matches!(copy.on_written(Ok(())), CopyStep::Read));
    assert!(matches!(copy.on_read(Ok(0)), CopyStep::Done(Ok(6))));
}

#[test]
fn copy_async_rejects_empty_buffer() {
    assert_eq!(CopyTransfer::new(0).err().unwrap().kind(), ErrorKind::InvalidInput);
}

#[test]
fn accept_and_connect_outcomes() {
    assert!(matches!(on_accept::<u8>(Err(would_block())), IoStep::AwaitReady));
    assert!(matches!(on_accept(Ok(3)), IoStep::Done(Ok(3))));
    assert!(matches!(on_accept::<u8>(Err(IoError::from_raw_os_error(Platform::Linux, EINTR))), IoStep::Again));
    assert_eq!(connect_outcome(3, Ok(None)).unwrap(), 3);
    let refused = IoError::from_raw_os_error(Platform::Linux, 111);
    assert_eq!(
        connect_outcome(3, Ok(Some(refused))).unwrap_err().kind(),
        ErrorKind::ConnectionRefused
    );
    assert!(connect_started(Platform::Linux, Err(115)).is_ok());
    assert!(connect_started(Platform::Linux, Err(111)).is_err());
    let request = tcp_connect_start(LINUX, &v4(1, 80));
    assert_eq!(request.domain, 2);
    assert_eq!(request.address.len(), 16);
}

// Serving.

#[test]
fn serve_tcp_n_spawns_handlers_for_accepted_streams() {
    let mut serve = TcpServe::new(ServeMode::Count(2));
    assert!(matches!(serve.next(), ServeStep::Accept));
    assert!(matches!(serve.on_event(ServeEvent::Spawned), ServeStep::Accept));
    assert!(matches!(serve.on_event(ServeEvent::Spawned), ServeStep::Join));
    assert_eq!(serve.finish(Ok(())).unwrap(), 2);
}

#[test]
fn serve_tcp_n_returns_handler_error() {
    let mut serve = TcpServe::new(ServeMode::Count(1));
    serve.on_event(ServeEvent::Spawned);
    let failed = handler_result::<&str>(Ok(Err(IoError::from_raw_os_error(Platform::Linux, 104))));
    assert_eq!(serve.finish(failed).unwrap_err().kind(), ErrorKind::ConnectionReset);
}

#[test]
fn serve_tcp_n_timeout_aborts_uncooperative_handler() {
    let mut join = BoundedJoin::new(vec!["first", "second"], 0, 5);
    assert!(matches!(join.next(0), JoinStep::Await { remaining: 5 }));
    let end = tcp_handler_joined(&mut join, HandlerOutcome::<&str>::TimedOut).unwrap();
    assert_eq!(end.abort, vec!["second", "first"]);
    assert_eq!(end.result.unwrap_err().kind(), ErrorKind::TimedOut);
}

#[test]
fn serve_tcp_until_idle_stops_after_idle_timeout() {
    let mut serve = TcpServe::new(ServeMode::UntilIdle);
    assert!(matches!(serve.on_event(ServeEvent::Spawned), ServeStep::Accept));
    let idle = timeout_io::<()>(Err(TimeoutError {})).unwrap_err();
    assert!(matches!(serve.on_event(ServeEvent::AcceptFailed(idle)), ServeStep::Join));
    assert_eq!(serve.finish(Ok(())).unwrap(), 1);
    let mut counted = TcpServe::new(ServeMode::Count(3));
    let failed = IoError::from_raw_os_error(Platform::Linux, 103);
    assert!(matches!(
        counted.on_event(ServeEvent::AcceptFailed(failed)),
        ServeStep::Fail(error) if error.kind() == ErrorKind::ConnectionAborted
    ));
}

#[test]
fn serve_tcp_until_stopped_stops_after_stop_signal() {
    let mut serve = TcpServe::new(ServeMode::UntilStopped);
    assert!(matches!(serve.next(), ServeStep::Accept));
    assert!(matches!(serve.on_event(ServeEvent::Spawned), ServeStep::Accept));
    assert!(matches!(serve.on_event(ServeEvent::Stopped), ServeStep::Join));
    assert_eq!(serve.finish(Ok(())).unwrap(), 1);
    assert!(matches!(
        serve.on_event(ServeEvent::SpawnRefused(SpawnError::Closed)),
        ServeStep::Fail(_)
    ));
}

#[test]
fn serve_tcp_until_stopped_scoped_returns_handler_error() {
    let mut errors = HandlerErrors::<&str>::new();
    assert!(errors.record(Ok(())).is_empty());
    errors.record(Err(IoError::from_raw_os_error(Platform::Linux, 104)));
    errors.record(Err(IoError::from_raw_os_error(Platform::Linux, 103)));
    let stored = errors.take().unwrap();
    assert_eq!(stored.kind(), ErrorKind::ConnectionReset);
    assert_eq!(
        scoped_result(TcpHandlerShutdown::Wait, Ok(()), Some(stored), 3).unwrap_err().kind(),
        ErrorKind::ConnectionReset
    );
    assert_eq!(scoped_result(TcpHandlerShutdown::Wait, Ok(()), None, 3).unwrap(), 3);
}

#[test]
fn service_errors_become_io_errors() {
    assert_eq!(spawn_error_to_io(SpawnError::Closed).kind(), ErrorKind::BrokenPipe);
    assert_eq!(tcp_shutdown_timeout_io().kind(), ErrorKind::TimedOut);
    assert_eq!(
        task_scope_error_to_io::<&str>(TaskScopeError::TimedOut).kind(),
        ErrorKind::TimedOut
    );
    let panicked = handler_result::<&str>(Err(JoinError::Panic("boom")));
    assert_eq!(panicked.unwrap_err().kind(), ErrorKind::BrokenPipe);
}

#[test]
fn kqueue_wakes_have_their_own_token() {
    let mut registry = KqueueRegistry::new();
    registry.insert_wake(7);
    let wake = kqueue::Kevent { fd: 7, filter: EVFILT_READ, flags: 0, token: kqueue::WAKE_TOKEN };
    assert!(kqueue::needs_drain(&[wake]));
    let event = kqueue::decode_events(&registry, &[wake], true);
    assert!(event.woke);
    assert!(event.readable.is_empty());
}

#[test]
fn kqueue_interests_are_registered_for_one_wait() {
    let mut registry = KqueueRegistry::new();
    registry.insert_wake(7);
    let read = FdInterest { fd: 3, read: true, write: false };
    let both = FdInterest { fd: 4, read: true, write: true };
    let mut wait = KqueueRegistration::new(vec![read, both]);
    let changes = wait.next(&mut registry).unwrap();
    assert_eq!(changes.len(), 1);
    assert_eq!((changes[0].fd, changes[0].token), (3, 1));
    assert!(wait.registered(&mut registry, Ok(())).is_ok());
    assert_eq!(wait.next(&mut registry).unwrap().len(), 2);
    assert!(wait.registered(&mut registry, Ok(())).is_ok());
    assert!(wait.next(&mut registry).is_none());
    assert_eq!(wait.tokens, vec![1, 2]);
    assert!(registry.get(2) == Some(both));
    let undo = wait.release(&mut registry);
    assert_eq!(undo.iter().map(|change| change.fd).collect::<Vec<_>>(), vec![3, 4, 4]);
    assert!(undo.iter().all(|change| change.flags == kqueue::EV_DELETE));
    assert!(registry.get(1).is_none() && registry.get(2).is_none());
    assert!(registry.get(0).is_some());
}

#[test]
fn refused_kqueue_interest_undoes_the_earlier_ones() {
    let mut registry = KqueueRegistry::new();
    let read = |fd| FdInterest { fd, read: true, write: false };
    let mut wait = KqueueRegistration::new(vec![read(3), read(4), read(5)]);
    wait.next(&mut registry).unwrap();
    assert!(wait.registered(&mut registry, Ok(())).is_ok());
    wait.next(&mut registry).unwrap();
    let refusal = wait.registered(&mut registry, Err(22)).err().unwrap();
    assert_eq!(refusal.error.kind(), ErrorKind::InvalidInput);
    assert_eq!(refusal.undo.iter().map(|change| change.fd).collect::<Vec<_>>(), vec![3]);
    assert!(registry.interests.is_empty());
    assert_eq!(registry.next_token, 3);
}
