//! Socket addresses and their form in memory.
//!
//! An address begins with its family: on Linux two bytes in the order of the
//! machine, elsewhere the length of the address and one byte. Then come the port in
//! network order and the address.

use vstd::prelude::*;

use crate::endian::{
    be16, be32, bytes_count_by_256, bytes_round_trip, from_be16, from_be32, from_ne16, from_ne32,
    ne16, ne32, push_bytes, push_zeros, to_be32, to_ne16, to_ne32, zeros, ByteOrder,
};
use crate::platform::{numbers_of, Host, Platform};

verus! {

/// Address family of IPv4.
pub const AF_INET: i32 = 2;

/// Length of the buffer that holds any address.
pub const SOCKADDR_BUF_LEN: usize = 128;

/// An IP address with a port.
#[allow(inconsistent_fields)]
#[derive(Debug, Clone, Copy)]
pub enum SocketAddr {
    /// IPv4.
    V4 {
        /// Octets of the address.
        ip: [u8; 4],
        /// Port.
        port: u16,
    },
    /// IPv6.
    V6 {
        /// Octets of the address.
        ip: [u8; 16],
        /// Port.
        port: u16,
        /// Flow information.
        flowinfo: u32,
        /// Scope identifier.
        scope_id: u32,
    },
}

/// An address, by its octets.
#[verifier::ext_equal]
pub enum AddrView {
    V4 { ip: Seq<u8>, port: u16 },
    V6 { ip: Seq<u8>, port: u16, flowinfo: u32, scope_id: u32 },
}

impl View for SocketAddr {
    type V = AddrView;

    open spec fn view(&self) -> AddrView {
        match self {
            SocketAddr::V4 { ip, port } => AddrView::V4 { ip: ip@, port: *port },
            SocketAddr::V6 { ip, port, flowinfo, scope_id } => AddrView::V6 {
                ip: ip@,
                port: *port,
                flowinfo: *flowinfo,
                scope_id: *scope_id,
            },
        }
    }
}

/// The family of an address.
pub open spec fn family_of(platform: Platform, v4: bool) -> i32 {
    if v4 {
        AF_INET
    } else {
        numbers_of(platform).inet6
    }
}

/// The two bytes that an address begins with.
pub open spec fn family_bytes(host: Host, v4: bool) -> Seq<u8> {
    let family = family_of(host.platform, v4);
    match host.platform {
        Platform::Linux => ne16(host.byte_order, family as u16),
        Platform::OtherUnix => seq![
            if v4 {
                16u8
            } else {
                28u8
            },
            family as u8,
        ],
    }
}

/// The buffer that stands for an address in a call that names a peer: family,
/// port, and for IPv6 the flow information and the scope in network order.
pub open spec fn sockaddr_bytes(host: Host, addr: AddrView) -> Seq<u8> {
    let head = family_bytes(host, addr is V4);
    match addr {
        AddrView::V4 { ip, port } => head + be16(port) + ip + zeros(120),
        AddrView::V6 { ip, port, flowinfo, scope_id } => head + be16(port) + be32(flowinfo) + ip
            + be32(scope_id) + zeros(100),
    }
}

/// The address that a socket is bound to, as `bind` reads it: as above, but with
/// flow information and scope in the order of the machine, and without padding.
pub open spec fn bind_bytes(host: Host, addr: AddrView) -> Seq<u8> {
    let head = family_bytes(host, addr is V4);
    match addr {
        AddrView::V4 { ip, port } => head + be16(port) + ip + zeros(8),
        AddrView::V6 { ip, port, flowinfo, scope_id } => head + be16(port) + ne32(
            host.byte_order,
            flowinfo,
        ) + ip + ne32(host.byte_order, scope_id),
    }
}

/// Length of an address in memory.
pub open spec fn address_len(v4: bool) -> nat {
    if v4 {
        16
    } else {
        28
    }
}

/// The family that a buffer names.
pub open spec fn named_family(host: Host, buf: Seq<u8>) -> int {
    match host.platform {
        Platform::Linux => from_ne16(host.byte_order, buf[0], buf[1]) as int,
        Platform::OtherUnix => buf[1] as int,
    }
}

/// The address in a buffer that a call filled, if its family is known.
pub open spec fn decoded(host: Host, buf: Seq<u8>) -> Option<AddrView> {
    let family = named_family(host, buf);
    let port = from_be16(buf[2], buf[3]);
    if family == family_of(host.platform, true) {
        Some(AddrView::V4 { ip: buf.subrange(4, 8), port })
    } else if family == family_of(host.platform, false) {
        Some(
            AddrView::V6 {
                ip: buf.subrange(8, 24),
                port,
                flowinfo: from_be32(buf[4], buf[5], buf[6], buf[7]),
                scope_id: from_be32(buf[24], buf[25], buf[26], buf[27]),
            },
        )
    } else {
        None
    }
}

/// The family of an address.
pub fn address_family(platform: Platform, addr: &SocketAddr) -> (family: i32)
    ensures
        family == family_of(platform, addr is V4),
{
    match addr {
        SocketAddr::V4 { .. } => AF_INET,
        SocketAddr::V6 { .. } => platform.numbers().inet6,
    }
}

/// The length of an address in memory.
pub fn socket_addr_len(addr: &SocketAddr) -> (len: u32)
    ensures
        len == address_len(addr is V4),
        forall|host: Host| len == (#[trigger] bind_bytes(host, addr@)).len(),
{
    match addr {
        SocketAddr::V4 { .. } => 16,
        SocketAddr::V6 { .. } => 28,
    }
}

fn push_head(buf: &mut Vec<u8>, host: Host, addr: &SocketAddr, port: u16)
    ensures
        final(buf)@ == old(buf)@ + family_bytes(host, addr is V4) + be16(port),
{
    let family: i32 = address_family(host.platform, addr);
    match host.platform {
        Platform::Linux => {
            push_bytes(buf, &to_ne16(host.byte_order, family as u16));
        },
        Platform::OtherUnix => {
            buf.push(socket_addr_len(addr) as u8);
            buf.push(family as u8);
        },
    }
    buf.push((port / 256) as u8);
    buf.push((port % 256) as u8);
    assert(buf@ =~= old(buf)@ + family_bytes(host, addr is V4) + be16(port));
}

/// Lays an address out in a buffer for a call that names a peer.
pub fn encode_sockaddr_to_buf(host: Host, addr: &SocketAddr) -> (buf: Vec<u8>)
    ensures
        buf@ == sockaddr_bytes(host, addr@),
        buf@.len() == SOCKADDR_BUF_LEN,
{
    let mut buf: Vec<u8> = Vec::new();
    match addr {
        SocketAddr::V4 { ip, port } => {
            push_head(&mut buf, host, addr, *port);
            push_bytes(&mut buf, ip);
            push_zeros(&mut buf, 120);
        },
        SocketAddr::V6 { ip, port, flowinfo, scope_id } => {
            push_head(&mut buf, host, addr, *port);
            push_bytes(&mut buf, &to_be32(*flowinfo));
            push_bytes(&mut buf, ip);
            push_bytes(&mut buf, &to_be32(*scope_id));
            push_zeros(&mut buf, 100);
        },
    }
    assert(buf@ =~= sockaddr_bytes(host, addr@));
    buf
}

/// Lays an address out for `bind`.
pub fn encode_bind_address(host: Host, addr: &SocketAddr) -> (buf: Vec<u8>)
    ensures
        buf@ == bind_bytes(host, addr@),
{
    let mut buf: Vec<u8> = Vec::new();
    match addr {
        SocketAddr::V4 { ip, port } => {
            push_head(&mut buf, host, addr, *port);
            push_bytes(&mut buf, ip);
            push_zeros(&mut buf, 8);
        },
        SocketAddr::V6 { ip, port, flowinfo, scope_id } => {
            push_head(&mut buf, host, addr, *port);
            push_bytes(&mut buf, &to_ne32(host.byte_order, *flowinfo));
            push_bytes(&mut buf, ip);
            push_bytes(&mut buf, &to_ne32(host.byte_order, *scope_id));
        },
    }
    assert(buf@ =~= bind_bytes(host, addr@));
    buf
}

fn read_be16(buf: &[u8], at: usize) -> (x: u16)
    requires
        at + 2 <= buf@.len(),
    ensures
        x == from_be16(buf@[at as int], buf@[at + 1]),
{
    256 * (buf[at] as u16) + buf[at + 1] as u16
}

fn read_be32(buf: &[u8], at: usize) -> (x: u32)
    requires
        at + 4 <= buf@.len(),
    ensures
        x == from_be32(buf@[at as int], buf@[at + 1], buf@[at + 2], buf@[at + 3]),
{
    16777216 * (buf[at] as u32) + 65536 * (buf[at + 1] as u32) + 256 * (buf[at + 2] as u32) + buf[at
        + 3] as u32
}

fn read_ne32(order: ByteOrder, buf: &[u8], at: usize) -> (x: u32)
    requires
        at + 4 <= buf@.len(),
    ensures
        x == from_ne32(order, buf@[at as int], buf@[at + 1], buf@[at + 2], buf@[at + 3]),
{
    match order {
        ByteOrder::Little => buf[at] as u32 + 256 * (buf[at + 1] as u32) + 65536 * (buf[at
            + 2] as u32) + 16777216 * (buf[at + 3] as u32),
        ByteOrder::Big => read_be32(buf, at),
    }
}

fn read4(buf: &[u8], at: usize) -> (bytes: [u8; 4])
    requires
        at + 4 <= buf@.len(),
    ensures
        bytes@ == buf@.subrange(at as int, at + 4),
{
    let bytes = [buf[at], buf[at + 1], buf[at + 2], buf[at + 3]];
    assert(bytes@ =~= buf@.subrange(at as int, at + 4));
    bytes
}

fn read16(buf: &[u8], at: usize) -> (bytes: [u8; 16])
    requires
        at + 16 <= buf@.len(),
    ensures
        bytes@ == buf@.subrange(at as int, at + 16),
{
    let bytes = [
        buf[at],
        buf[at + 1],
        buf[at + 2],
        buf[at + 3],
        buf[at + 4],
        buf[at + 5],
        buf[at + 6],
        buf[at + 7],
        buf[at + 8],
        buf[at + 9],
        buf[at + 10],
        buf[at + 11],
        buf[at + 12],
        buf[at + 13],
        buf[at + 14],
        buf[at + 15],
    ];
    assert(bytes@ =~= buf@.subrange(at as int, at + 16));
    bytes
}

/// Reads the address in a buffer that a call filled. Nothing comes of a family
/// that is neither IPv4 nor IPv6.
pub fn decode_sockaddr_from_buf(host: Host, buf: &[u8]) -> (addr: Option<SocketAddr>)
    requires
        buf@.len() == SOCKADDR_BUF_LEN,
    ensures
        addr is Some <==> decoded(host, buf@) is Some,
        addr is Some ==> Some(addr->0@) == decoded(host, buf@),
{
    let platform = host.platform;
    let family: i32 = match platform {
        Platform::Linux => match host.byte_order {
            ByteOrder::Little => buf[0] as i32 + 256 * (buf[1] as i32),
            ByteOrder::Big => 256 * (buf[0] as i32) + buf[1] as i32,
        },
        Platform::OtherUnix => buf[1] as i32,
    };
    if family == AF_INET {
        Some(SocketAddr::V4 { ip: read4(buf, 4), port: read_be16(buf, 2) })
    } else if family == platform.numbers().inet6 {
        Some(
            SocketAddr::V6 {
                ip: read16(buf, 8),
                port: read_be16(buf, 2),
                flowinfo: read_be32(buf, 4),
                scope_id: read_be32(buf, 24),
            },
        )
    } else {
        None
    }
}

/// The address of family `v4` or IPv6 that `getsockname` left in a buffer, flow
/// information and scope in the order of the machine.
pub open spec fn decoded_name(order: ByteOrder, v4: bool, buf: Seq<u8>) -> AddrView {
    if v4 {
        AddrView::V4 { ip: buf.subrange(4, 8), port: from_be16(buf[2], buf[3]) }
    } else {
        AddrView::V6 {
            ip: buf.subrange(8, 24),
            port: from_be16(buf[2], buf[3]),
            flowinfo: from_ne32(order, buf[4], buf[5], buf[6], buf[7]),
            scope_id: from_ne32(order, buf[24], buf[25], buf[26], buf[27]),
        }
    }
}

/// Reads the address that a bound socket reports, which has the family of the
/// address it was bound to.
pub fn decode_sock_name(order: ByteOrder, requested: &SocketAddr, buf: &[u8]) -> (addr: SocketAddr)
    requires
        buf@.len() == address_len(requested is V4),
    ensures
        addr@ == decoded_name(order, requested is V4, buf@),
{
    match requested {
        SocketAddr::V4 { .. } => {
            SocketAddr::V4 { ip: read4(buf, 4), port: read_be16(buf, 2) }
        },
        SocketAddr::V6 { .. } => {
            SocketAddr::V6 {
                ip: read16(buf, 8),
                port: read_be16(buf, 2),
                flowinfo: read_ne32(order, buf, 4),
                scope_id: read_ne32(order, buf, 24),
            }
        },
    }
}

/// Whether an address has as many octets as its family asks for.
pub open spec fn addr_wf(addr: AddrView) -> bool {
    match addr {
        AddrView::V4 { ip, port } => ip.len() == 4,
        AddrView::V6 { ip, port, flowinfo, scope_id } => ip.len() == 16,
    }
}

proof fn lemma_family(host: Host, v4: bool, buf: Seq<u8>)
    requires
        buf.len() >= 2,
        buf[0] == family_bytes(host, v4)[0],
        buf[1] == family_bytes(host, v4)[1],
    ensures
        named_family(host, buf) == family_of(host.platform, v4),
        family_of(host.platform, true) != family_of(host.platform, false),
{
    bytes_round_trip(host.byte_order, family_of(host.platform, v4) as u16, 0);
}

/// An address that is laid out and read back is the same address.
pub proof fn address_round_trip(host: Host, addr: AddrView)
    requires
        addr_wf(addr),
    ensures
        decoded(host, sockaddr_bytes(host, addr)) == Some(addr),
{
    let buf = sockaddr_bytes(host, addr);
    let head = family_bytes(host, addr is V4);
    assert(buf[0] == head[0] && buf[1] == head[1]);
    lemma_family(host, addr is V4, buf);
    match addr {
        AddrView::V4 { ip, port } => {
            bytes_round_trip(host.byte_order, port, 0);
            assert(buf[2] == be16(port)[0] && buf[3] == be16(port)[1]);
            assert(buf.subrange(4, 8) =~= ip);
        },
        AddrView::V6 { ip, port, flowinfo, scope_id } => {
            bytes_round_trip(host.byte_order, port, flowinfo);
            bytes_round_trip(host.byte_order, port, scope_id);
            let flow = be32(flowinfo);
            let scope = be32(scope_id);
            assert(buf[2] == be16(port)[0] && buf[3] == be16(port)[1]);
            assert(buf[4] == flow[0] && buf[5] == flow[1] && buf[6] == flow[2]
                && buf[7] == flow[3]);
            assert(buf.subrange(8, 24) =~= ip);
            assert(buf[24] == scope[0] && buf[25] == scope[1] && buf[26] == scope[2] && buf[27]
                == scope[3]);
        },
    }
}

/// An address that a socket is bound to and that the socket reports unchanged is
/// read back as the same address.
pub proof fn bound_address_round_trip(host: Host, addr: AddrView)
    requires
        addr_wf(addr),
    ensures
        decoded_name(host.byte_order, addr is V4, bind_bytes(host, addr)) == addr,
{
    let buf = bind_bytes(host, addr);
    match addr {
        AddrView::V4 { ip, port } => {
            bytes_round_trip(host.byte_order, port, 0);
            assert(buf[2] == be16(port)[0] && buf[3] == be16(port)[1]);
            assert(buf.subrange(4, 8) =~= ip);
        },
        AddrView::V6 { ip, port, flowinfo, scope_id } => {
            bytes_round_trip(host.byte_order, port, flowinfo);
            bytes_round_trip(host.byte_order, port, scope_id);
            let flow = ne32(host.byte_order, flowinfo);
            let scope = ne32(host.byte_order, scope_id);
            assert(buf[2] == be16(port)[0] && buf[3] == be16(port)[1]);
            assert(buf[4] == flow[0] && buf[5] == flow[1] && buf[6] == flow[2]
                && buf[7] == flow[3]);
            assert(buf.subrange(8, 24) =~= ip);
            assert(buf[24] == scope[0] && buf[25] == scope[1] && buf[26] == scope[2] && buf[27]
                == scope[3]);
        },
    }
}

/// An address that is handed to a ring or read back takes 128 bytes: the family, the port
/// with its high byte first, and the octets of the address; the port stands in the third
/// and fourth byte, four octets follow it directly, and sixteen octets stand behind four
/// bytes of flow information and before four of the scope.
pub proof fn address_is_laid_out(host: Host, addr: AddrView)
    requires
        addr_wf(addr),
    ensures
        ({
            let bytes = sockaddr_bytes(host, addr);
            &&& bytes.len() == 128
            &&& match addr {
                AddrView::V4 { ip, port } => {
                    &&& 256 * bytes[2] + bytes[3] == port
                    &&& bytes.subrange(4, 8) == ip
                    &&& forall|i: int| 8 <= i < 128 ==> #[trigger] bytes[i] == 0
                },
                AddrView::V6 { ip, port, flowinfo, scope_id } => {
                    &&& 256 * bytes[2] + bytes[3] == port
                    &&& 16777216 * bytes[4] + 65536 * bytes[5] + 256 * bytes[6] + bytes[7]
                        == flowinfo
                    &&& bytes.subrange(8, 24) == ip
                    &&& 16777216 * bytes[24] + 65536 * bytes[25] + 256 * bytes[26] + bytes[27]
                        == scope_id
                    &&& forall|i: int| 28 <= i < 128 ==> #[trigger] bytes[i] == 0
                },
            }
        }),
{
    let bytes = sockaddr_bytes(host, addr);
    match addr {
        AddrView::V4 { ip, port } => {
            assert(bytes.subrange(4, 8) =~= ip);
            assert(bytes[2] == be16(port)[0] && bytes[3] == be16(port)[1]);
        },
        AddrView::V6 { ip, port, flowinfo, scope_id } => {
            assert(bytes.subrange(8, 24) =~= ip);
            assert(bytes[2] == be16(port)[0] && bytes[3] == be16(port)[1]);
            assert(bytes[4] == be32(flowinfo)[0] && bytes[5] == be32(flowinfo)[1] && bytes[6]
                == be32(flowinfo)[2] && bytes[7] == be32(flowinfo)[3]);
            assert(bytes[24] == be32(scope_id)[0] && bytes[25] == be32(scope_id)[1] && bytes[26]
                == be32(scope_id)[2] && bytes[27] == be32(scope_id)[3]);
            bytes_count_by_256(port, flowinfo, 0, host.byte_order);
            bytes_count_by_256(port, scope_id, 0, host.byte_order);
        },
    }
}

/// An address that a socket is bound to takes 16 bytes, or 28 with sixteen octets, laid
/// out in the same way but for flow information and scope, which stand in the machine's
/// own order.
pub proof fn bound_address_is_laid_out(host: Host, addr: AddrView)
    requires
        addr_wf(addr),
    ensures
        ({
            let bytes = bind_bytes(host, addr);
            &&& bytes.len() == address_len(addr is V4)
            &&& match addr {
                AddrView::V4 { ip, port } => {
                    &&& bytes.len() == 16
                    &&& 256 * bytes[2] + bytes[3] == port
                    &&& bytes.subrange(4, 8) == ip
                    &&& forall|i: int| 8 <= i < 16 ==> #[trigger] bytes[i] == 0
                },
                AddrView::V6 { ip, port, flowinfo, scope_id } => {
                    &&& bytes.len() == 28
                    &&& 256 * bytes[2] + bytes[3] == port
                    &&& bytes.subrange(4, 8) == ne32(host.byte_order, flowinfo)
                    &&& bytes.subrange(8, 24) == ip
                    &&& bytes.subrange(24, 28) == ne32(host.byte_order, scope_id)
                },
            }
        }),
{
    let bytes = bind_bytes(host, addr);
    match addr {
        AddrView::V4 { ip, port } => {
            assert(bytes.subrange(4, 8) =~= ip);
            assert(bytes[2] == be16(port)[0] && bytes[3] == be16(port)[1]);
        },
        AddrView::V6 { ip, port, flowinfo, scope_id } => {
            assert(bytes.subrange(8, 24) =~= ip);
            assert(bytes.subrange(4, 8) =~= ne32(host.byte_order, flowinfo));
            assert(bytes.subrange(24, 28) =~= ne32(host.byte_order, scope_id));
            assert(bytes[2] == be16(port)[0] && bytes[3] == be16(port)[1]);
        },
    }
}

/// The first two bytes name the family, 2 for four octets: on Linux as one number in the
/// machine's order, with 10 for sixteen octets; elsewhere as the length of the address and
/// one byte, with 30 for sixteen octets.
pub proof fn address_begins_with_its_family(host: Host, v4: bool)
    ensures
        ({
            let bytes = family_bytes(host, v4);
            let number = from_ne16(host.byte_order, bytes[0], bytes[1]);
            &&& bytes.len() == 2
            &&& host.platform == Platform::Linux ==> number == if v4 {
                2u16
            } else {
                10u16
            }
            &&& host.platform == Platform::OtherUnix ==> bytes[1] == if v4 {
                2u8
            } else {
                30u8
            }
            &&& host.platform == Platform::OtherUnix ==> bytes[0] == if v4 {
                16u8
            } else {
                28u8
            }
        }),
{
    bytes_round_trip(host.byte_order, family_of(host.platform, v4) as u16, 0);
}

/// An address is read from the bytes exactly where the family that they name is one of the
/// two, and is then of that family.
pub proof fn address_is_read_by_its_family(host: Host, buf: Seq<u8>)
    requires
        buf.len() >= 28,
    ensures
        ({
            let family = if host.platform == Platform::Linux {
                from_ne16(host.byte_order, buf[0], buf[1]) as int
            } else {
                buf[1] as int
            };
            let six: int = if host.platform == Platform::Linux {
                10
            } else {
                30
            };
            &&& decoded(host, buf) is Some <==> family == 2 || family == six
            &&& family == 2 ==> decoded(host, buf)->0 is V4 && decoded(host, buf)->0->V4_ip
                == buf.subrange(4, 8) && decoded(host, buf)->0->V4_port == 256 * buf[2] + buf[3]
            &&& family == six ==> decoded(host, buf)->0 is V6 && decoded(host, buf)->0->V6_ip
                == buf.subrange(8, 24) && decoded(host, buf)->0->V6_port == 256 * buf[2] + buf[3]
        }),
{
}

/// The family of an address with four octets is 2 everywhere; that of one with sixteen is
/// the system's own.
pub proof fn family_is_that_of_the_octets(platform: Platform, v4: bool)
    ensures
        v4 ==> family_of(platform, v4) == 2,
        !v4 && platform == Platform::Linux ==> family_of(platform, v4) == 10,
        !v4 && platform == Platform::OtherUnix ==> family_of(platform, v4) == 30,
{
}

/// An address shows its octets, its port and, with sixteen octets, its flow information and
/// scope, as they are.
pub proof fn address_shows_its_parts(
    four: [u8; 4],
    sixteen: [u8; 16],
    port: u16,
    flowinfo: u32,
    scope_id: u32,
)
    ensures
        (SocketAddr::V4 { ip: four, port })@ == (AddrView::V4 { ip: four@, port }),
        (SocketAddr::V6 { ip: sixteen, port, flowinfo, scope_id })@ == (AddrView::V6 {
            ip: sixteen@,
            port,
            flowinfo,
            scope_id,
        }),
{
}

} // verus!
