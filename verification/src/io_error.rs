//! Errors of I/O operations.

use vstd::prelude::*;

use crate::platform::{numbers_of, Platform};

verus! {

/// Category of an I/O error.
#[derive(Debug, Clone, Copy, PartialEq, Eq, Structural)]
pub enum ErrorKind {
    /// Something that was looked for does not exist.
    NotFound,
    /// The operation is not permitted.
    PermissionDenied,
    /// Nobody accepts connections at the address.
    ConnectionRefused,
    /// The peer reset the connection.
    ConnectionReset,
    /// The host cannot be reached.
    HostUnreachable,
    /// The network of the host cannot be reached.
    NetworkUnreachable,
    /// The connection ended before it was accepted.
    ConnectionAborted,
    /// There is no connection.
    NotConnected,
    /// An address is already in use.
    AddrInUse,
    /// An address cannot be had or made out.
    AddrNotAvailable,
    /// The network is down.
    NetworkDown,
    /// The other end is gone.
    BrokenPipe,
    /// Something is there already.
    AlreadyExists,
    /// The operation cannot go on now.
    WouldBlock,
    /// Something is not the directory that it should be.
    NotADirectory,
    /// Something is a directory that should be none.
    IsADirectory,
    /// A directory should be empty and is not.
    DirectoryNotEmpty,
    /// The filesystem cannot be written to.
    ReadOnlyFilesystem,
    /// A network file handle is out of date.
    StaleNetworkFileHandle,
    /// A parameter is not acceptable.
    InvalidInput,
    /// Data does not have the form that was expected.
    InvalidData,
    /// The time allowed for the operation is over.
    TimedOut,
    /// The peer took no more data.
    WriteZero,
    /// There is no room left on the storage.
    StorageFull,
    /// There are no positions to go to.
    NotSeekable,
    /// A quota is used up.
    QuotaExceeded,
    /// A file would be larger than is supported.
    FileTooLarge,
    /// A resource is in use.
    ResourceBusy,
    /// A program file is in use.
    ExecutableFileBusy,
    /// The operation would wait for itself.
    Deadlock,
    /// A link or rename would cross devices.
    CrossesDevices,
    /// There are too many links to a file.
    TooManyLinks,
    /// A file name is not acceptable.
    InvalidFilename,
    /// A program has too many arguments.
    ArgumentListTooLong,
    /// A signal cut the operation short.
    Interrupted,
    /// The operation is not supported.
    Unsupported,
    /// The data ended before it was complete.
    UnexpectedEof,
    /// There is not enough memory.
    OutOfMemory,
    /// An error of a program that falls under none of these.
    Other,
    /// An error of the system that falls under none of these.
    Uncategorized,
}

/// Number of the operating system error "interrupted system call", on every
/// platform.
pub const EINTR: i32 = 4;

/// Number of the operating system error "try again" on Linux.
pub const EAGAIN: i32 = 11;

/// An I/O error: either one that the operating system reported, or one that
/// this library reports with a message.
#[derive(Debug, Clone)]
pub struct IoError {
    /// Category.
    pub kind: ErrorKind,
    /// Number of the operating system error.
    pub raw_os_error: Option<i32>,
    /// Message of an error of this library; empty for one of the system.
    pub message: String,
}

/// The category of an operating system error, by its number: the low numbers mean
/// the same everywhere, but for "try again" and "deadlock", which trade places.
pub open spec fn os_error_kind(platform: Platform, code: i32) -> ErrorKind {
    match code {
        1 => ErrorKind::PermissionDenied,
        2 => ErrorKind::NotFound,
        4 => ErrorKind::Interrupted,
        7 => ErrorKind::ArgumentListTooLong,
        12 => ErrorKind::OutOfMemory,
        13 => ErrorKind::PermissionDenied,
        16 => ErrorKind::ResourceBusy,
        17 => ErrorKind::AlreadyExists,
        18 => ErrorKind::CrossesDevices,
        20 => ErrorKind::NotADirectory,
        21 => ErrorKind::IsADirectory,
        22 => ErrorKind::InvalidInput,
        26 => ErrorKind::ExecutableFileBusy,
        27 => ErrorKind::FileTooLarge,
        28 => ErrorKind::StorageFull,
        29 => ErrorKind::NotSeekable,
        30 => ErrorKind::ReadOnlyFilesystem,
        31 => ErrorKind::TooManyLinks,
        32 => ErrorKind::BrokenPipe,
        _ => match platform {
            Platform::Linux => match code {
                11 => ErrorKind::WouldBlock,
                35 => ErrorKind::Deadlock,
                36 => ErrorKind::InvalidFilename,
                38 => ErrorKind::Unsupported,
                39 => ErrorKind::DirectoryNotEmpty,
                95 => ErrorKind::Unsupported,
                98 => ErrorKind::AddrInUse,
                99 => ErrorKind::AddrNotAvailable,
                100 => ErrorKind::NetworkDown,
                101 => ErrorKind::NetworkUnreachable,
                103 => ErrorKind::ConnectionAborted,
                104 => ErrorKind::ConnectionReset,
                107 => ErrorKind::NotConnected,
                110 => ErrorKind::TimedOut,
                111 => ErrorKind::ConnectionRefused,
                113 => ErrorKind::HostUnreachable,
                116 => ErrorKind::StaleNetworkFileHandle,
                122 => ErrorKind::QuotaExceeded,
                _ => ErrorKind::Uncategorized,
            },
            Platform::OtherUnix => match code {
                11 => ErrorKind::Deadlock,
                35 => ErrorKind::WouldBlock,
                48 => ErrorKind::AddrInUse,
                49 => ErrorKind::AddrNotAvailable,
                50 => ErrorKind::NetworkDown,
                51 => ErrorKind::NetworkUnreachable,
                53 => ErrorKind::ConnectionAborted,
                54 => ErrorKind::ConnectionReset,
                57 => ErrorKind::NotConnected,
                60 => ErrorKind::TimedOut,
                61 => ErrorKind::ConnectionRefused,
                63 => ErrorKind::InvalidFilename,
                65 => ErrorKind::HostUnreachable,
                66 => ErrorKind::DirectoryNotEmpty,
                69 => ErrorKind::QuotaExceeded,
                70 => ErrorKind::StaleNetworkFileHandle,
                78 => ErrorKind::Unsupported,
                102 => ErrorKind::Unsupported,
                _ => ErrorKind::Uncategorized,
            },
        },
    }
}

fn kind_of(platform: Platform, code: i32) -> (kind: ErrorKind)
    ensures
        kind == os_error_kind(platform, code),
{
    match code {
        1 => ErrorKind::PermissionDenied,
        2 => ErrorKind::NotFound,
        4 => ErrorKind::Interrupted,
        7 => ErrorKind::ArgumentListTooLong,
        12 => ErrorKind::OutOfMemory,
        13 => ErrorKind::PermissionDenied,
        16 => ErrorKind::ResourceBusy,
        17 => ErrorKind::AlreadyExists,
        18 => ErrorKind::CrossesDevices,
        20 => ErrorKind::NotADirectory,
        21 => ErrorKind::IsADirectory,
        22 => ErrorKind::InvalidInput,
        26 => ErrorKind::ExecutableFileBusy,
        27 => ErrorKind::FileTooLarge,
        28 => ErrorKind::StorageFull,
        29 => ErrorKind::NotSeekable,
        30 => ErrorKind::ReadOnlyFilesystem,
        31 => ErrorKind::TooManyLinks,
        32 => ErrorKind::BrokenPipe,
        _ => match platform {
            Platform::Linux => match code {
                11 => ErrorKind::WouldBlock,
                35 => ErrorKind::Deadlock,
                36 => ErrorKind::InvalidFilename,
                38 => ErrorKind::Unsupported,
                39 => ErrorKind::DirectoryNotEmpty,
                95 => ErrorKind::Unsupported,
                98 => ErrorKind::AddrInUse,
                99 => ErrorKind::AddrNotAvailable,
                100 => ErrorKind::NetworkDown,
                101 => ErrorKind::NetworkUnreachable,
                103 => ErrorKind::ConnectionAborted,
                104 => ErrorKind::ConnectionReset,
                107 => ErrorKind::NotConnected,
                110 => ErrorKind::TimedOut,
                111 => ErrorKind::ConnectionRefused,
                113 => ErrorKind::HostUnreachable,
                116 => ErrorKind::StaleNetworkFileHandle,
                122 => ErrorKind::QuotaExceeded,
                _ => ErrorKind::Uncategorized,
            },
            Platform::OtherUnix => match code {
                11 => ErrorKind::Deadlock,
                35 => ErrorKind::WouldBlock,
                48 => ErrorKind::AddrInUse,
                49 => ErrorKind::AddrNotAvailable,
                50 => ErrorKind::NetworkDown,
                51 => ErrorKind::NetworkUnreachable,
                53 => ErrorKind::ConnectionAborted,
                54 => ErrorKind::ConnectionReset,
                57 => ErrorKind::NotConnected,
                60 => ErrorKind::TimedOut,
                61 => ErrorKind::ConnectionRefused,
                63 => ErrorKind::InvalidFilename,
                65 => ErrorKind::HostUnreachable,
                66 => ErrorKind::DirectoryNotEmpty,
                69 => ErrorKind::QuotaExceeded,
                70 => ErrorKind::StaleNetworkFileHandle,
                78 => ErrorKind::Unsupported,
                102 => ErrorKind::Unsupported,
                _ => ErrorKind::Uncategorized,
            },
        },
    }
}

impl IoError {
    /// Whether this is the library's error of that kind, with that message.
    pub open spec fn says(&self, kind: ErrorKind, message: Seq<char>) -> bool {
        self.kind == kind && self.raw_os_error is None && self.message@ == message
    }

    /// Whether this is the operating system error with that number.
    pub open spec fn is_os(&self, platform: Platform, code: i32) -> bool {
        self.kind == os_error_kind(platform, code) && self.raw_os_error == Some(code) && self.message@
            == Seq::<char>::empty()
    }

    /// An error of this library.
    pub fn new(kind: ErrorKind, message: &str) -> (error: IoError)
        ensures
            error.says(kind, message@),
    {
        IoError { kind, raw_os_error: None, message: message.to_owned() }
    }

    /// The operating system error with the given number.
    pub fn from_raw_os_error(platform: Platform, code: i32) -> (error: IoError)
        ensures
            error.is_os(platform, code),
    {
        let kind = kind_of(platform, code);
        IoError { kind, raw_os_error: Some(code), message: String::new() }
    }

    /// Category of the error.
    pub fn kind(&self) -> (kind: ErrorKind)
        ensures
            kind == self.kind,
    {
        self.kind
    }

    /// Number of the operating system error, where it is one.
    pub fn raw_os_error(&self) -> (code: Option<i32>)
        ensures
            code == self.raw_os_error,
    {
        self.raw_os_error
    }
}

/// On every platform the number of "operation would block" stands for an operation
/// that cannot go on now, so that whoever goes by the category waits.
pub proof fn would_block_is_told(platform: Platform)
    ensures
        os_error_kind(platform, numbers_of(platform).would_block) == ErrorKind::WouldBlock,
        os_error_kind(platform, EINTR) == ErrorKind::Interrupted,
{
}

/// An error of the system keeps its number, by which its kind is found, and an error of
/// the library has a text and no number.
pub proof fn error_tells_where_it_comes_from(
    system: IoError,
    own: IoError,
    platform: Platform,
    code: i32,
    kind: ErrorKind,
    message: Seq<char>,
)
    requires
        system.is_os(platform, code),
        own.says(kind, message),
    ensures
        system.raw_os_error == Some(code) && system.kind == os_error_kind(platform, code)
            && system.message@.len() == 0,
        own.raw_os_error is None && own.kind == kind && own.message@ == message,
{
}

/// The kinds that network code tells apart have each a number of its own on each system:
/// no other number is read as one of them.
pub proof fn network_errors_are_told_apart(platform: Platform, code: i32)
    ensures
        ({
            let kind = os_error_kind(platform, code);
            let linux = platform == Platform::Linux;
            &&& kind == ErrorKind::Interrupted <==> code == 4
            &&& kind == ErrorKind::InvalidInput <==> code == 22
            &&& kind == ErrorKind::BrokenPipe <==> code == 32
            &&& kind == ErrorKind::PermissionDenied <==> code == 1 || code == 13
            &&& kind == ErrorKind::NotFound <==> code == 2
            &&& kind == ErrorKind::AlreadyExists <==> code == 17
            &&& linux ==> {
                &&& kind == ErrorKind::WouldBlock <==> code == 11
                &&& kind == ErrorKind::AddrInUse <==> code == 98
                &&& kind == ErrorKind::AddrNotAvailable <==> code == 99
                &&& kind == ErrorKind::NetworkDown <==> code == 100
                &&& kind == ErrorKind::NetworkUnreachable <==> code == 101
                &&& kind == ErrorKind::ConnectionAborted <==> code == 103
                &&& kind == ErrorKind::ConnectionReset <==> code == 104
                &&& kind == ErrorKind::NotConnected <==> code == 107
                &&& kind == ErrorKind::TimedOut <==> code == 110
                &&& kind == ErrorKind::ConnectionRefused <==> code == 111
                &&& kind == ErrorKind::HostUnreachable <==> code == 113
                &&& kind == ErrorKind::Unsupported <==> code == 38 || code == 95
            }
            &&& !linux ==> {
                &&& kind == ErrorKind::WouldBlock <==> code == 35
                &&& kind == ErrorKind::AddrInUse <==> code == 48
                &&& kind == ErrorKind::AddrNotAvailable <==> code == 49
                &&& kind == ErrorKind::NetworkDown <==> code == 50
                &&& kind == ErrorKind::NetworkUnreachable <==> code == 51
                &&& kind == ErrorKind::ConnectionAborted <==> code == 53
                &&& kind == ErrorKind::ConnectionReset <==> code == 54
                &&& kind == ErrorKind::NotConnected <==> code == 57
                &&& kind == ErrorKind::TimedOut <==> code == 60
                &&& kind == ErrorKind::ConnectionRefused <==> code == 61
                &&& kind == ErrorKind::HostUnreachable <==> code == 65
                &&& kind == ErrorKind::Unsupported <==> code == 78 || code == 102
            }
        }),
{
}

} // verus!
