//! Where a datagram is sent, and into which buffer replies are received.

use vstd::prelude::*;

use crate::address::{
    mapped, socket_addr_v6, to_ipv6_mapped, unmap, unmapped, SocketAddr, SocketAddrV6,
};

verus! {

/// What the IP stack of this machine supports.
#[derive(Debug, Clone, Copy, PartialEq, Eq, Structural)]
pub struct IpStackCapabilities {
    pub support_ipv4: bool,
    pub support_ipv6: bool,
    pub support_ipv4_mapped_ipv6: bool,
}

/// The address that a datagram for `addr` is sent to. Where IPv4-mapped addresses are supported,
/// an IPv4 address is sent to in its mapped form; where they are not, or IPv6 is not, a mapped
/// address is sent to as the IPv4 one.
pub open spec fn outbound_addr(caps: IpStackCapabilities, addr: SocketAddr) -> SocketAddr {
    match addr {
        SocketAddr::V4(v4) => if caps.support_ipv4_mapped_ipv6 {
            socket_addr_v6(mapped(v4.ip), v4.port)
        } else {
            addr
        },
        SocketAddr::V6(_) => if caps.support_ipv6 && caps.support_ipv4_mapped_ipv6 {
            addr
        } else {
            unmapped(addr)
        },
    }
}

/// The address that a datagram for `original` is sent to.
pub fn outbound_target(caps: IpStackCapabilities, original: SocketAddr) -> (target: SocketAddr)
    ensures
        target == outbound_addr(caps, original),
{
    match original {
        SocketAddr::V4(v4) => {
            // If IPv4-mapped-IPv6 is supported, all sockets are created in IPv6.
            if caps.support_ipv4_mapped_ipv6 {
                SocketAddr::V6(
                    SocketAddrV6 {
                        ip: to_ipv6_mapped(v4.ip),
                        port: v4.port,
                        flowinfo: 0,
                        scope_id: 0,
                    },
                )
            } else {
                original
            }
        },
        SocketAddr::V6(_) => {
            // If IPv6 is not supported, try to map it back to IPv4.
            if !caps.support_ipv6 || !caps.support_ipv4_mapped_ipv6 {
                unmap(original)
            } else {
                original
            }
        },
    }
}

/// `shadowsocks::relay::udprelay::MAXIMUM_UDP_PAYLOAD_SIZE`.
///
/// Trusted: the constant is 65536.
#[verifier::external_body]
fn maximum_udp_payload_size() -> (size: usize)
    ensures
        size == 65536,
{
    shadowsocks::relay::udprelay::MAXIMUM_UDP_PAYLOAD_SIZE
}

/// Makes room for a datagram in a receive buffer that has never been used.
pub fn prepare_receive_buffer(buf: &mut Vec<u8>)
    ensures
        old(buf)@.len() == 0 ==> final(buf)@ == Seq::new(65536, |i: int| 0u8),
        old(buf)@.len() > 0 ==> final(buf)@ == old(buf)@,
{
    if buf.is_empty() {
        buf.resize(maximum_udp_payload_size(), 0u8);
        assert(buf@ =~= Seq::new(65536, |i: int| 0u8));
    }
}

} // verus!
