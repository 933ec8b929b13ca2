//! UDP sockets: how one is made, and what its calls' results mean.
//!
//! System calls are made outside; [`UdpBind`] says which one comes next.

use vstd::prelude::*;

use crate::io_error::{ErrorKind, IoError};
use crate::net::{
    address_family, address_len, bind_bytes, decode_sock_name, decode_sockaddr_from_buf, decoded,
    decoded_name, encode_bind_address, family_of, SocketAddr, SOCKADDR_BUF_LEN,
};
use crate::platform::{numbers_of, Host, Platform};

verus! {

/// Socket type of datagrams.
pub const SOCK_DGRAM: i32 = 2;

/// A non-blocking UDP socket.
#[derive(Debug, Clone, Copy)]
pub struct UdpSocket {
    /// Its descriptor.
    pub fd: i32,
    /// The address it is bound to.
    pub local_addr: SocketAddr,
}

impl UdpSocket {
    /// Returns the raw file descriptor.
    pub fn as_raw_fd(&self) -> (fd: i32)
        ensures
            fd == self.fd,
    {
        self.fd
    }

    /// Returns the local address this socket is bound to.
    pub fn local_addr(&self) -> (addr: SocketAddr)
        ensures
            addr == self.local_addr,
    {
        self.local_addr
    }
}

/// The next call that makes a bound UDP socket.
pub enum UdpBindStep {
    /// Create a socket.
    Socket {
        /// Address family.
        domain: i32,
        /// Socket type and flags.
        socket_type: i32,
    },
    /// Read the descriptor's flags.
    GetFlags {
        /// The descriptor.
        fd: i32,
    },
    /// Set the descriptor's flags. Whether that works does not matter.
    SetFlags {
        /// The descriptor.
        fd: i32,
        /// The flags.
        flags: i32,
    },
    /// Let the descriptor be closed when another program is executed. Whether that
    /// works does not matter.
    SetCloseOnExec {
        /// The descriptor.
        fd: i32,
    },
    /// Let the address be used again, by an option that is set to one. Whether that
    /// works does not matter.
    SetReuseAddr {
        /// The descriptor.
        fd: i32,
        /// Level of the option.
        level: i32,
        /// The option.
        name: i32,
    },
    /// Bind the socket.
    Bind {
        /// The descriptor.
        fd: i32,
        /// The address as `bind` reads it.
        address: Vec<u8>,
    },
    /// Ask for the address that the socket is bound to.
    GetSockName {
        /// The descriptor.
        fd: i32,
    },
    /// Close the descriptor and give up.
    Close {
        /// The descriptor.
        fd: i32,
        /// Why.
        error: IoError,
    },
    /// No socket was made.
    Failed(IoError),
    /// The socket is ready.
    Ready(UdpSocket),
}

/// Makes a UDP socket bound to an address.
#[derive(Debug, Clone, Copy)]
pub struct UdpBind {
    /// The machine.
    pub host: Host,
    /// The address asked for.
    pub addr: SocketAddr,
}

impl UdpBind {
    /// Binds a socket to `addr`.
    pub fn new(host: Host, addr: SocketAddr) -> (bind: Self)
        ensures
            bind == (UdpBind { host, addr }),
    {
        UdpBind { host, addr }
    }

    /// First, a datagram socket of the address's family.
    pub fn start(&self) -> (step: UdpBindStep)
        ensures
            step == (UdpBindStep::Socket {
                domain: family_of(self.host.platform, self.addr is V4),
                socket_type: SOCK_DGRAM | numbers_of(self.host.platform).close_on_exec,
            }),
    {
        UdpBindStep::Socket {
            domain: address_family(self.host.platform, &self.addr),
            socket_type: SOCK_DGRAM | self.host.platform.numbers().close_on_exec,
        }
    }

    /// The step behind the flags: elsewhere than on Linux the descriptor is still to
    /// be closed when another program is executed.
    pub open spec fn behind_flags(&self, fd: i32) -> UdpBindStep {
        match self.host.platform {
            Platform::Linux => self.reuses(fd),
            Platform::OtherUnix => UdpBindStep::SetCloseOnExec { fd },
        }
    }

    /// The step that lets the address be used again.
    pub open spec fn reuses(&self, fd: i32) -> UdpBindStep {
        let numbers = numbers_of(self.host.platform);
        UdpBindStep::SetReuseAddr { fd, level: numbers.sol_socket, name: numbers.reuse_addr }
    }

    /// After the socket is created, or not.
    pub fn on_socket(&self, result: Result<i32, i32>) -> (step: UdpBindStep)
        ensures
            match result {
                Ok(fd) => step == (UdpBindStep::GetFlags { fd }),
                Err(code) => step is Failed && step->Failed_0.is_os(self.host.platform, code),
            },
    {
        match result {
            Ok(fd) => UdpBindStep::GetFlags { fd },
            Err(code) => UdpBindStep::Failed(IoError::from_raw_os_error(self.host.platform, code)),
        }
    }

    /// After the flags are read: they are set again with the non-blocking flag,
    /// unless they could not be read.
    pub fn on_flags(&self, fd: i32, flags: i32) -> (step: UdpBindStep)
        ensures
            step == if flags >= 0 {
                (UdpBindStep::SetFlags {
                    fd,
                    flags: flags | numbers_of(self.host.platform).nonblocking,
                })
            } else {
                self.behind_flags(fd)
            },
    {
        if flags >= 0 {
            UdpBindStep::SetFlags { fd, flags: flags | self.host.platform.numbers().nonblocking }
        } else {
            self.on_flags_set(fd)
        }
    }

    /// After the flags are set.
    pub fn on_flags_set(&self, fd: i32) -> (step: UdpBindStep)
        ensures
            step == self.behind_flags(fd),
    {
        match self.host.platform {
            Platform::Linux => self.on_close_on_exec_set(fd),
            Platform::OtherUnix => UdpBindStep::SetCloseOnExec { fd },
        }
    }

    /// After the descriptor is to be closed when another program is executed.
    pub fn on_close_on_exec_set(&self, fd: i32) -> (step: UdpBindStep)
        ensures
            step == self.reuses(fd),
    {
        let numbers = self.host.platform.numbers();
        UdpBindStep::SetReuseAddr { fd, level: numbers.sol_socket, name: numbers.reuse_addr }
    }

    /// After the address may be used again: bind.
    pub fn on_reuse_addr_set(&self, fd: i32) -> (step: UdpBindStep)
        ensures
            step is Bind,
            step->Bind_fd == fd,
            step->address@ == bind_bytes(self.host, self.addr@),
    {
        UdpBindStep::Bind { fd, address: encode_bind_address(self.host, &self.addr) }
    }

    /// After the bind. A socket that cannot be bound is closed.
    pub fn on_bound(&self, fd: i32, result: Result<(), i32>) -> (step: UdpBindStep)
        ensures
            match result {
                Ok(()) => step == (UdpBindStep::GetSockName { fd }),
                Err(code) => step is Close && step->Close_fd == fd && step->error.is_os(self.host.platform, code),
            },
    {
        match result {
            Ok(()) => UdpBindStep::GetSockName { fd },
            Err(code) => UdpBindStep::Close { fd, error: IoError::from_raw_os_error(self.host.platform, code) },
        }
    }

    /// After the socket's address is known. Without it the socket is closed.
    pub fn on_sock_name(&self, fd: i32, result: Result<Vec<u8>, i32>) -> (step: UdpBindStep)
        requires
            result matches Ok(name) ==> name@.len() == address_len(self.addr is V4),
        ensures
            match result {
                Ok(name) => step is Ready && step->Ready_0.fd == fd && step->Ready_0.local_addr@
                    == decoded_name(
                    self.host.byte_order,
                    self.addr is V4,
                    name@,
                ),
                Err(code) => step is Close && step->Close_fd == fd && step->error.is_os(self.host.platform, code),
            },
    {
        match result {
            Ok(name) => UdpBindStep::Ready(
                UdpSocket {
                    fd,
                    local_addr: decode_sock_name(
                        self.host.byte_order,
                        &self.addr,
                        name.as_slice(),
                    ),
                },
            ),
            Err(code) => UdpBindStep::Close { fd, error: IoError::from_raw_os_error(self.host.platform, code) },
        }
    }
}

/// What a receive came to: the number of bytes and the sender, whose address is
/// in `address`. Where no datagram is waiting, it would block.
pub fn received(host: Host, result: Result<usize, i32>, address: &[u8]) -> (outcome: Result<
    (usize, SocketAddr),
    IoError,
>)
    requires
        address@.len() == SOCKADDR_BUF_LEN,
    ensures
        outcome is Ok <==> result is Ok && decoded(host, address@) is Some,
        outcome matches Ok(received) ==> received.0 == result->Ok_0 && Some(received.1@) == decoded(
            host,
            address@,
        ),
        outcome matches Err(error) ==> match result {
            Err(code) => error.is_os(host.platform, code),
            Ok(_) => error.says(ErrorKind::AddrNotAvailable, "invalid address"@),
        },
        result == Err::<usize, i32>(numbers_of(host.platform).would_block) ==> outcome is Err
            && outcome->Err_0.kind == ErrorKind::WouldBlock,
{
    match result {
        Err(code) => Err(IoError::from_raw_os_error(host.platform, code)),
        Ok(n) => {
            match decode_sockaddr_from_buf(host, address) {
                Some(addr) => Ok((n, addr)),
                None => Err(IoError::new(ErrorKind::AddrNotAvailable, "invalid address")),
            }
        },
    }
}

/// What a send came to: the number of bytes.
pub fn sent(platform: Platform, result: Result<usize, i32>) -> (outcome: Result<usize, IoError>)
    ensures
        match result {
            Ok(n) => outcome == Ok::<usize, IoError>(n),
            Err(code) => outcome is Err && outcome->Err_0.is_os(platform, code),
        },
        result == Err::<usize, i32>(numbers_of(platform).would_block) ==> outcome->Err_0.kind
            == ErrorKind::WouldBlock,
{
    match result {
        Ok(n) => Ok(n),
        Err(code) => Err(IoError::from_raw_os_error(platform, code)),
    }
}

/// Behind the flags the address may be used again: on Linux at once, elsewhere after the
/// descriptor is to be closed when another program is executed. Both are done to the same
/// descriptor.
pub proof fn address_may_be_used_again(bind: UdpBind, fd: i32)
    ensures
        bind.host.platform == Platform::Linux ==> bind.behind_flags(fd) == (
        UdpBindStep::SetReuseAddr { fd, level: 1, name: 2 }),
        bind.host.platform == Platform::OtherUnix ==> bind.behind_flags(fd) == (
        UdpBindStep::SetCloseOnExec { fd }) && bind.reuses(fd) == (UdpBindStep::SetReuseAddr {
            fd,
            level: 0xffff,
            name: 4,
        }),
        bind.host.platform == Platform::Linux ==> bind.reuses(fd) == bind.behind_flags(fd),
{
}

} // verus!
