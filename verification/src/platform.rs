//! What differs between the systems that the library runs on.

use vstd::prelude::*;

use crate::endian::ByteOrder;

verus! {

/// A Unix system, as far as its interface differs.
#[derive(Debug, Clone, Copy, PartialEq, Eq, Structural)]
pub enum Platform {
    /// Linux.
    Linux,
    /// Another Unix, with the interface and the error numbers of macOS.
    OtherUnix,
}

/// The machine that a program runs on, as far as memory layouts depend on it.
#[derive(Debug, Clone, Copy, PartialEq, Eq, Structural)]
pub struct Host {
    /// The system.
    pub platform: Platform,
    /// The order in which the machine keeps the bytes of a number.
    pub byte_order: ByteOrder,
}

/// Numbers of a platform's interface.
#[derive(Debug, Clone, Copy, PartialEq, Eq, Structural)]
pub struct PlatformNumbers {
    /// Address family of IPv6.
    pub inet6: i32,
    /// Flag that makes a descriptor non-blocking.
    pub nonblocking: i32,
    /// Flag of a new socket that closes it when another program is executed; none
    /// where that takes a call of its own.
    pub close_on_exec: i32,
    /// Number of the error "operation now in progress".
    pub in_progress: i32,
    /// Number of the error "operation would block", beside "try again".
    pub would_block: i32,
    /// Level of options of a socket.
    pub sol_socket: i32,
    /// Option that lets an address be used again.
    pub reuse_addr: i32,
    /// Option that lets several sockets listen at one address.
    pub reuse_port: i32,
}

/// The numbers of a platform's interface.
pub open spec fn numbers_of(platform: Platform) -> PlatformNumbers {
    match platform {
        Platform::Linux => PlatformNumbers {
            inet6: 10,
            nonblocking: 0o4000,
            close_on_exec: 0o2000000,
            in_progress: 115,
            would_block: 11,
            sol_socket: 1,
            reuse_addr: 2,
            reuse_port: 15,
        },
        Platform::OtherUnix => PlatformNumbers {
            inet6: 30,
            nonblocking: 0x0004,
            close_on_exec: 0,
            in_progress: 36,
            would_block: 35,
            sol_socket: 0xffff,
            reuse_addr: 0x0004,
            reuse_port: 0x0200,
        },
    }
}

impl Platform {
    /// The numbers of the platform's interface.
    pub fn numbers(self) -> (numbers: PlatformNumbers)
        ensures
            numbers == numbers_of(self),
    {
        match self {
            Platform::Linux => PlatformNumbers {
                inet6: 10,
                nonblocking: 0o4000,
                close_on_exec: 0o2000000,
                in_progress: 115,
                would_block: 11,
                sol_socket: 1,
                reuse_addr: 2,
                reuse_port: 15,
            },
            Platform::OtherUnix => PlatformNumbers {
                inet6: 30,
                nonblocking: 0x0004,
                close_on_exec: 0,
                in_progress: 36,
                would_block: 35,
                sol_socket: 0xffff,
                reuse_addr: 0x0004,
                reuse_port: 0x0200,
            },
        }
    }
}

/// The numbers are those of the system in question. The two errors
/// that a caller tells apart have different numbers, and so have the two options.
pub proof fn platform_numbers_can_be_told_apart(platform: Platform)
    ensures
        ({
            let numbers = numbers_of(platform);
            &&& numbers.in_progress != numbers.would_block
            &&& numbers.reuse_addr != numbers.reuse_port
            &&& platform == Platform::Linux ==> numbers.inet6 == 10 && numbers.sol_socket == 1
                && numbers.would_block == 11 && numbers.in_progress == 115 && numbers.reuse_addr
                == 2 && numbers.reuse_port == 15 && numbers.nonblocking == 2048
                && numbers.close_on_exec == 524288
            &&& platform == Platform::OtherUnix ==> numbers.inet6 == 30 && numbers.sol_socket
                == 65535 && numbers.would_block == 35 && numbers.in_progress == 36
                && numbers.reuse_addr == 4 && numbers.reuse_port == 512 && numbers.nonblocking == 4
                && numbers.close_on_exec == 0
        }),
{
}

} // verus!
