//! How a listening socket is made.
//!
//! System calls are made outside; [`ListenerSetup`] says which one comes next.

use vstd::prelude::*;

use crate::io_error::{ErrorKind, IoError};
use crate::net::{address_family, bind_bytes, encode_bind_address, family_of, SocketAddr};
use crate::os::reactor::SOCK_STREAM;
use crate::platform::{numbers_of, Host, Platform};
use crate::sharded_executor::affinity::CpuId;

verus! {

/// Descriptor flag that closes a descriptor when another program is executed.
pub const FD_CLOEXEC: i32 = 1;

/// Option that names the CPU whose connections a socket gets.
pub const SO_INCOMING_CPU: i32 = 49;

/// Level of options of TCP.
pub const SOL_TCP: i32 = 6;

/// Option that attaches a protocol on top of TCP.
pub const TCP_ULP: i32 = 31;

/// The next call that makes a listening socket.
pub enum ListenStep {
    /// Create a socket.
    Socket {
        /// Address family.
        domain: i32,
        /// Socket type and flags.
        socket_type: i32,
    },
    /// Read the descriptor's flags.
    GetFlags {
        /// The descriptor.
        fd: i32,
    },
    /// Set the descriptor's flags.
    SetFlags {
        /// The descriptor.
        fd: i32,
        /// The flags.
        flags: i32,
    },
    /// Set the flags of the descriptor itself.
    SetDescriptorFlags {
        /// The descriptor.
        fd: i32,
        /// The flags.
        flags: i32,
    },
    /// Set an option to a number.
    SetOption {
        /// The descriptor.
        fd: i32,
        /// Level of the option.
        level: i32,
        /// The option.
        name: i32,
        /// Its value.
        value: i32,
    },
    /// Bind the socket.
    Bind {
        /// The descriptor.
        fd: i32,
        /// The address as `bind` reads it.
        address: Vec<u8>,
    },
    /// Let the socket listen.
    Listen {
        /// The descriptor.
        fd: i32,
        /// Connection backlog.
        backlog: i32,
    },
    /// The socket listens.
    Ready {
        /// The descriptor.
        fd: i32,
    },
    /// Close the descriptor and give up.
    Close {
        /// The descriptor.
        fd: i32,
        /// Why.
        error: IoError,
    },
    /// No socket was made.
    Failed(IoError),
}

/// The call whose result is awaited.
#[derive(Debug, Clone, Copy, PartialEq, Eq, Structural)]
pub enum ListenStage {
    /// The socket is created.
    Socket,
    /// The flags are read.
    GetFlags(i32),
    /// The flags are set.
    SetFlags(i32),
    /// The flags of the descriptor itself are set.
    SetDescriptorFlags(i32),
    /// The address may be used again.
    ReuseAddr(i32),
    /// Several sockets may listen.
    ReusePort(i32),
    /// The CPU is named.
    IncomingCpu(i32),
    /// The socket is bound.
    Bind(i32),
    /// The socket listens.
    Listen(i32),
    /// Nothing is awaited.
    Over,
}

/// Makes a listening socket.
#[derive(Debug, Clone, Copy)]
pub struct ListenerSetup {
    /// The machine.
    pub host: Host,
    /// The address to listen at.
    pub addr: SocketAddr,
    /// Connection backlog.
    pub backlog: i32,
    /// Whether other sockets may listen at the same address.
    pub reuse_port: bool,
    /// The CPU whose connections the socket gets.
    pub incoming_cpu: Option<CpuId>,
    /// The call whose result is awaited.
    pub stage: ListenStage,
}

/// Whether a number fits the type of socket options.
pub open spec fn fits_c_int(value: nat) -> bool {
    value <= i32::MAX
}

impl ListenerSetup {
    /// Sets up a listener. Refused where the backlog does not fit the platform's
    /// integers.
    pub fn new(
        host: Host,
        addr: SocketAddr,
        backlog: u32,
        reuse_port: bool,
        incoming_cpu: Option<CpuId>,
    ) -> (result: Result<Self, IoError>)
        ensures
            result is Ok <==> fits_c_int(backlog as nat),
            result matches Ok(setup) ==> setup == (ListenerSetup {
                host,
                addr,
                backlog: backlog as i32,
                reuse_port,
                incoming_cpu,
                stage: ListenStage::Over,
            }),
            result matches Err(error) ==> error.says(
                ErrorKind::InvalidInput,
                "TCP backlog does not fit platform c_int"@,
            ),
    {
        if backlog > 0x7fff_ffff {
            return Err(
                IoError::new(ErrorKind::InvalidInput, "TCP backlog does not fit platform c_int"),
            );
        }
        Ok(
            ListenerSetup {
                host,
                addr,
                backlog: backlog as i32,
                reuse_port,
                incoming_cpu,
                stage: ListenStage::Over,
            },
        )
    }

    /// First, a stream socket of the address's family.
    pub fn start(&mut self) -> (step: ListenStep)
        ensures
            *final(self) == (ListenerSetup { stage: ListenStage::Socket, ..*old(self) }),
            step == (ListenStep::Socket {
                domain: family_of(old(self).host.platform, old(self).addr is V4),
                socket_type: SOCK_STREAM | numbers_of(old(self).host.platform).close_on_exec,
            }),
    {
        self.stage = ListenStage::Socket;
        ListenStep::Socket {
            domain: address_family(self.host.platform, &self.addr),
            socket_type: SOCK_STREAM | self.host.platform.numbers().close_on_exec,
        }
    }

    /// Whether the step binds the socket.
    pub open spec fn binds(&self, fd: i32, step: ListenStep, after: ListenStage) -> bool {
        &&& step matches ListenStep::Bind { fd: bound, address } && bound == fd && address@
            == bind_bytes(self.host, self.addr@)
        &&& after == ListenStage::Bind(fd)
    }

    /// The CPU that the socket is told.
    pub open spec fn named_cpu(&self) -> Option<CpuId> {
        match self.host.platform {
            Platform::Linux => self.incoming_cpu,
            Platform::OtherUnix => None,
        }
    }

    /// Whether the step lets the address be used again.
    pub open spec fn reuses(&self, fd: i32, step: ListenStep, after: ListenStage) -> bool {
        &&& step == (ListenStep::SetOption {
            fd,
            level: numbers_of(self.host.platform).sol_socket,
            name: numbers_of(self.host.platform).reuse_addr,
            value: 1,
        })
        &&& after == ListenStage::ReuseAddr(fd)
    }

    /// Whether the step is the one behind the options for the address and the port:
    /// it names the CPU where one is asked for and the platform is Linux, and
    /// otherwise binds.
    pub open spec fn places(&self, fd: i32, step: ListenStep, after: ListenStage) -> bool {
        match self.named_cpu() {
            None => self.binds(fd, step, after),
            Some(cpu) => if fits_c_int(cpu.0 as nat) {
                &&& step == (ListenStep::SetOption {
                    fd,
                    level: numbers_of(self.host.platform).sol_socket,
                    name: SO_INCOMING_CPU,
                    value: cpu.0 as i32,
                })
                &&& after == ListenStage::IncomingCpu(fd)
            } else {
                &&& step matches ListenStep::Close { fd: closed, error } && closed == fd
                    && error.says(
                    ErrorKind::InvalidInput,
                    "SO_INCOMING_CPU value does not fit platform c_int"@,
                )
                &&& after == ListenStage::Over
            },
        }
    }

    /// Whether the step follows from the result of the call that was awaited: the
    /// next call after a success; after a failure an end, with the descriptor
    /// closed where there is one.
    pub open spec fn follows(
        &self,
        result: Result<i32, i32>,
        step: ListenStep,
        after: ListenStage,
    ) -> bool {
        match (self.stage, result) {
            (ListenStage::Socket, Ok(fd)) => step == (ListenStep::GetFlags { fd }) && after
                == ListenStage::GetFlags(fd),
            (ListenStage::Socket, Err(code)) => step matches ListenStep::Failed(error)
                && error.is_os(self.host.platform, code) && after == ListenStage::Over,
            (ListenStage::GetFlags(fd), Ok(flags)) => step == (ListenStep::SetFlags {
                fd,
                flags: flags | numbers_of(self.host.platform).nonblocking,
            }) && after == ListenStage::SetFlags(fd),
            (ListenStage::SetFlags(fd), Ok(_)) => match self.host.platform {
                Platform::Linux => self.reuses(fd, step, after),
                Platform::OtherUnix => step == (ListenStep::SetDescriptorFlags {
                    fd,
                    flags: FD_CLOEXEC,
                }) && after == ListenStage::SetDescriptorFlags(fd),
            },
            (ListenStage::SetDescriptorFlags(fd), Ok(_)) => self.reuses(fd, step, after),
            (ListenStage::ReuseAddr(fd), Ok(_)) => if self.reuse_port {
                step == (ListenStep::SetOption {
                    fd,
                    level: numbers_of(self.host.platform).sol_socket,
                    name: numbers_of(self.host.platform).reuse_port,
                    value: 1,
                }) && after == ListenStage::ReusePort(fd)
            } else {
                self.places(fd, step, after)
            },
            (ListenStage::ReusePort(fd), Ok(_)) => self.places(fd, step, after),
            (ListenStage::IncomingCpu(fd), Ok(_)) => self.binds(fd, step, after),
            (ListenStage::Bind(fd), Ok(_)) => step == (ListenStep::Listen {
                fd,
                backlog: self.backlog,
            }) && after == ListenStage::Listen(fd),
            (ListenStage::Listen(fd), Ok(_)) => step == (ListenStep::Ready { fd }) && after
                == ListenStage::Over,
            (ListenStage::GetFlags(fd), Err(code)) => closes(
                self.host.platform,
                fd,
                code,
                step,
                after,
            ),
            (ListenStage::SetFlags(fd), Err(code)) => closes(
                self.host.platform,
                fd,
                code,
                step,
                after,
            ),
            (ListenStage::SetDescriptorFlags(fd), Err(code)) => closes(
                self.host.platform,
                fd,
                code,
                step,
                after,
            ),
            (ListenStage::ReuseAddr(fd), Err(code)) => closes(
                self.host.platform,
                fd,
                code,
                step,
                after,
            ),
            (ListenStage::ReusePort(fd), Err(code)) => closes(
                self.host.platform,
                fd,
                code,
                step,
                after,
            ),
            (ListenStage::IncomingCpu(fd), Err(code)) => closes(
                self.host.platform,
                fd,
                code,
                step,
                after,
            ),
            (ListenStage::Bind(fd), Err(code)) => closes(
                self.host.platform,
                fd,
                code,
                step,
                after,
            ),
            (ListenStage::Listen(fd), Err(code)) => closes(
                self.host.platform,
                fd,
                code,
                step,
                after,
            ),
            (ListenStage::Over, _) => false,
        }
    }

    fn bind_step(&mut self, fd: i32) -> (step: ListenStep)
        ensures
            *final(self) == (ListenerSetup { stage: final(self).stage, ..*old(self) }),
            old(self).binds(fd, step, final(self).stage),
    {
        self.stage = ListenStage::Bind(fd);
        ListenStep::Bind { fd, address: encode_bind_address(self.host, &self.addr) }
    }

    fn reuse_step(&mut self, fd: i32) -> (step: ListenStep)
        ensures
            *final(self) == (ListenerSetup { stage: final(self).stage, ..*old(self) }),
            old(self).reuses(fd, step, final(self).stage),
    {
        self.stage = ListenStage::ReuseAddr(fd);
        let numbers = self.host.platform.numbers();
        ListenStep::SetOption {
            fd,
            level: numbers.sol_socket,
            name: numbers.reuse_addr,
            value: 1,
        }
    }

    fn place_step(&mut self, fd: i32) -> (step: ListenStep)
        ensures
            *final(self) == (ListenerSetup { stage: final(self).stage, ..*old(self) }),
            old(self).places(fd, step, final(self).stage),
    {
        let named = match self.host.platform {
            Platform::Linux => self.incoming_cpu,
            Platform::OtherUnix => None,
        };
        match named {
            None => self.bind_step(fd),
            Some(cpu) => {
                if cpu.0 > 0x7fff_ffff {
                    self.stage = ListenStage::Over;
                    return ListenStep::Close {
                        fd,
                        error: IoError::new(
                            ErrorKind::InvalidInput,
                            "SO_INCOMING_CPU value does not fit platform c_int",
                        ),
                    };
                }
                self.stage = ListenStage::IncomingCpu(fd);
                ListenStep::SetOption {
                    fd,
                    level: self.host.platform.numbers().sol_socket,
                    name: SO_INCOMING_CPU,
                    value: cpu.0 as i32,
                }
            },
        }
    }

    fn close_step(&mut self, fd: i32, code: i32) -> (step: ListenStep)
        ensures
            *final(self) == (ListenerSetup { stage: final(self).stage, ..*old(self) }),
            closes(old(self).host.platform, fd, code, step, final(self).stage),
    {
        self.stage = ListenStage::Over;
        ListenStep::Close { fd, error: IoError::from_raw_os_error(self.host.platform, code) }
    }

    /// Goes on with the result of the call that was awaited: what it returned, or
    /// the number of the system's error.
    pub fn advance(&mut self, result: Result<i32, i32>) -> (step: ListenStep)
        requires
            !(old(self).stage is Over),
        ensures
            *final(self) == (ListenerSetup { stage: final(self).stage, ..*old(self) }),
            old(self).follows(result, step, final(self).stage),
    {
        match (self.stage, result) {
            (ListenStage::Socket, Ok(fd)) => {
                self.stage = ListenStage::GetFlags(fd);
                ListenStep::GetFlags { fd }
            },
            (ListenStage::Socket, Err(code)) => {
                self.stage = ListenStage::Over;
                ListenStep::Failed(IoError::from_raw_os_error(self.host.platform, code))
            },
            (ListenStage::GetFlags(fd), Ok(flags)) => {
                self.stage = ListenStage::SetFlags(fd);
                ListenStep::SetFlags { fd, flags: flags | self.host.platform.numbers().nonblocking }
            },
            (ListenStage::SetFlags(fd), Ok(_)) => {
                match self.host.platform {
                    Platform::Linux => self.reuse_step(fd),
                    Platform::OtherUnix => {
                        self.stage = ListenStage::SetDescriptorFlags(fd);
                        ListenStep::SetDescriptorFlags { fd, flags: FD_CLOEXEC }
                    },
                }
            },
            (ListenStage::SetDescriptorFlags(fd), Ok(_)) => self.reuse_step(fd),
            (ListenStage::ReuseAddr(fd), Ok(_)) => {
                if self.reuse_port {
                    self.stage = ListenStage::ReusePort(fd);
                    let numbers = self.host.platform.numbers();
                    ListenStep::SetOption {
                        fd,
                        level: numbers.sol_socket,
                        name: numbers.reuse_port,
                        value: 1,
                    }
                } else {
                    self.place_step(fd)
                }
            },
            (ListenStage::ReusePort(fd), Ok(_)) => self.place_step(fd),
            (ListenStage::IncomingCpu(fd), Ok(_)) => self.bind_step(fd),
            (ListenStage::Bind(fd), Ok(_)) => {
                self.stage = ListenStage::Listen(fd);
                ListenStep::Listen { fd, backlog: self.backlog }
            },
            (ListenStage::Listen(fd), Ok(_)) => {
                self.stage = ListenStage::Over;
                ListenStep::Ready { fd }
            },
            (ListenStage::GetFlags(fd), Err(code)) => self.close_step(fd, code),
            (ListenStage::SetFlags(fd), Err(code)) => self.close_step(fd, code),
            (ListenStage::SetDescriptorFlags(fd), Err(code)) => self.close_step(fd, code),
            (ListenStage::ReuseAddr(fd), Err(code)) => self.close_step(fd, code),
            (ListenStage::ReusePort(fd), Err(code)) => self.close_step(fd, code),
            (ListenStage::IncomingCpu(fd), Err(code)) => self.close_step(fd, code),
            (ListenStage::Bind(fd), Err(code)) => self.close_step(fd, code),
            (ListenStage::Listen(fd), Err(code)) => self.close_step(fd, code),
            (ListenStage::Over, _) => self.start(),
        }
    }
}

/// Whether the step closes the descriptor after a system error.
pub open spec fn closes(
    platform: Platform,
    fd: i32,
    code: i32,
    step: ListenStep,
    after: ListenStage,
) -> bool {
    &&& step matches ListenStep::Close { fd: closed, error } && closed == fd && error.is_os(
        platform,
        code,
    )
    &&& after == ListenStage::Over
}

/// The descriptor that a setup owns.
pub open spec fn owned_fd(stage: ListenStage) -> Option<i32> {
    match stage {
        ListenStage::GetFlags(fd) => Some(fd),
        ListenStage::SetFlags(fd) => Some(fd),
        ListenStage::SetDescriptorFlags(fd) => Some(fd),
        ListenStage::ReuseAddr(fd) => Some(fd),
        ListenStage::ReusePort(fd) => Some(fd),
        ListenStage::IncomingCpu(fd) => Some(fd),
        ListenStage::Bind(fd) => Some(fd),
        ListenStage::Listen(fd) => Some(fd),
        _ => None,
    }
}

/// A setup loses no descriptor: while it goes on it keeps the one it owns, and
/// when it ends it hands that one out or has it closed.
pub proof fn setup_loses_no_descriptor(
    setup: ListenerSetup,
    result: Result<i32, i32>,
    step: ListenStep,
    after: ListenStage,
)
    requires
        owned_fd(setup.stage) is Some,
        setup.follows(result, step, after),
    ensures
        owned_fd(after) == owned_fd(setup.stage) || after is Over && (step == (ListenStep::Ready {
            fd: owned_fd(setup.stage)->0,
        }) || (step matches ListenStep::Close { fd, error } && fd == owned_fd(setup.stage)->0)),
{
}

/// An option of a socket that is set to bytes.
pub struct BytesOption {
    /// Level of the option.
    pub level: i32,
    /// The option.
    pub name: i32,
    /// Its value.
    pub value: Vec<u8>,
}

/// The option that attaches the kernel's TLS to a TCP stream: the protocol name,
/// ended by a zero byte. Refused where the platform is not Linux.
pub fn kernel_tls_option(platform: Platform) -> (result: Result<BytesOption, IoError>)
    ensures
        match platform {
            Platform::Linux => result matches Ok(option) && option.level == SOL_TCP && option.name
                == TCP_ULP && option.value@ == seq![0x74u8, 0x6cu8, 0x73u8, 0u8],
            Platform::OtherUnix => result matches Err(error) && error.says(
                ErrorKind::Unsupported,
                "Linux kTLS TCP ULP is only available on Linux"@,
            ),
        },
{
    match platform {
        Platform::Linux => {
            let mut value: Vec<u8> = Vec::new();
            value.push(0x74);
            value.push(0x6c);
            value.push(0x73);
            value.push(0);
            assert(value@ =~= seq![0x74u8, 0x6cu8, 0x73u8, 0u8]);
            Ok(BytesOption { level: SOL_TCP, name: TCP_ULP, value })
        },
        Platform::OtherUnix => Err(
            IoError::new(
                ErrorKind::Unsupported,
                "Linux kTLS TCP ULP is only available on Linux",
            ),
        ),
    }
}

/// A listening socket is made non-blocking without losing a flag it has; its address may
/// be used again, and its port where that was asked for; then its CPU is named, where one
/// was and the system knows such a thing; then it is bound, and listens with the backlog
/// that was asked for. It is ready when the last of these has succeeded, and each is done
/// to the one descriptor that was made.
pub proof fn setup_leaves_out_no_step(
    setup: ListenerSetup,
    value: i32,
    step: ListenStep,
    after: ListenStage,
)
    requires
        setup.follows(Ok::<i32, i32>(value), step, after),
    ensures
        ({
            let linux = setup.host.platform == Platform::Linux;
            let level: i32 = if linux {
                1
            } else {
                0xffff
            };
            let cpu = if linux {
                setup.incoming_cpu
            } else {
                None
            };
            let port_done = match setup.stage {
                ListenStage::ReuseAddr(fd) => !setup.reuse_port,
                ListenStage::ReusePort(fd) => true,
                _ => false,
            };
            let fd = match setup.stage {
                ListenStage::Socket => value,
                _ => owned_fd(setup.stage)->0,
            };
            &&& setup.stage is Socket ==> step == (ListenStep::GetFlags { fd }) && after
                == ListenStage::GetFlags(fd)
            &&& setup.stage is GetFlags ==> {
                &&& step is SetFlags && step->SetFlags_fd == fd
                &&& linux ==> step->SetFlags_flags == value | 0o4000
                &&& !linux ==> step->SetFlags_flags == value | 4
                &&& after == ListenStage::SetFlags(fd)
            }
            &&& setup.stage is SetFlags && !linux ==> step == (ListenStep::SetDescriptorFlags {
                fd,
                flags: 1,
            }) && after == ListenStage::SetDescriptorFlags(fd)
            &&& (setup.stage is SetFlags && linux || setup.stage is SetDescriptorFlags) ==> step
                == (ListenStep::SetOption {
                fd,
                level,
                name: if linux {
                    2
                } else {
                    4
                },
                value: 1,
            }) && after == ListenStage::ReuseAddr(fd)
            &&& setup.stage is ReuseAddr && setup.reuse_port ==> step == (ListenStep::SetOption {
                fd,
                level,
                name: if linux {
                    15
                } else {
                    0x200
                },
                value: 1,
            }) && after == ListenStage::ReusePort(fd)
            &&& port_done && cpu is Some && (cpu->0).0 <= 0x7fff_ffff ==> step == (
            ListenStep::SetOption { fd, level: 1, name: 49, value: (cpu->0).0 as i32 }) && after
                == ListenStage::IncomingCpu(fd)
            &&& port_done && cpu is Some && (cpu->0).0 > 0x7fff_ffff ==> step is Close
                && step->Close_fd == fd && step->error.kind == ErrorKind::InvalidInput && after
                == ListenStage::Over
            &&& (port_done && cpu is None || setup.stage is IncomingCpu) ==> step is Bind
                && step->Bind_fd == fd && step->address@ == bind_bytes(setup.host, setup.addr@)
                && after == ListenStage::Bind(fd)
            &&& setup.stage is Bind ==> step == (ListenStep::Listen { fd, backlog: setup.backlog })
                && after == ListenStage::Listen(fd)
            &&& setup.stage is Listen <==> step == (ListenStep::Ready { fd })
            &&& setup.stage is Listen ==> after == ListenStage::Over
        }),
{
}

/// The first call that fails ends the setup with the error of that call, and the
/// descriptor is closed where there is one.
pub proof fn failed_setup_closes_its_descriptor(
    setup: ListenerSetup,
    code: i32,
    step: ListenStep,
    after: ListenStage,
)
    requires
        setup.follows(Err::<i32, i32>(code), step, after),
    ensures
        after == ListenStage::Over,
        setup.stage is Socket ==> step is Failed && step->Failed_0.is_os(
            setup.host.platform,
            code,
        ),
        !(setup.stage is Socket) ==> step is Close && step->error.is_os(setup.host.platform, code)
            && owned_fd(setup.stage) == Some(step->Close_fd),
{
}

} // verus!
