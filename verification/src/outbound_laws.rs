//! Laws of the outbound addresses.

use vstd::prelude::*;

use crate::address::{
    family_of, is_mapped, last_four, mapped, mapped_prefix, unmapped, AddrFamily, SocketAddr,
    SocketAddrV4, SocketAddrV6,
};
use crate::outbound::{outbound_addr, IpStackCapabilities};

verus! {

/// Mapping an IPv4 address to IPv6 loses nothing.
pub proof fn law_mapping_is_undone(ip: [u8; 4])
    ensures
        is_mapped(mapped(ip)),
        last_four(mapped(ip)) == ip,
{
    assert(mapped(ip)@.take(12) =~= mapped_prefix());
    assert(last_four(mapped(ip)) =~= ip);
}

/// An IPv4-mapped address is the mapped form of the address in its last octets, and of no other.
pub proof fn law_mapped_address_is_a_mapping(ip: [u8; 16])
    requires
        is_mapped(ip),
    ensures
        mapped(last_four(ip)) == ip,
{
    assert forall|i: int| 0 <= i < 16 implies mapped(last_four(ip))[i] == ip[i] by {
        if i < 12 {
            assert(ip@.take(12)[i] == mapped_prefix()[i]);
        }
    }
    assert(mapped(last_four(ip)) =~= ip);
}

/// The address that a datagram is sent to stands for the one that was asked for: a reply from it
/// is reported to the client under the address that the client used, with an IPv4-mapped address as
/// the IPv4 one.
pub proof fn law_reply_comes_from_the_target(caps: IpStackCapabilities, addr: SocketAddr)
    ensures
        unmapped(outbound_addr(caps, addr)) == unmapped(addr),
{
    if let SocketAddr::V4(v4) = addr {
        law_mapping_is_undone(v4.ip);
    }
}

/// Where IPv4-mapped addresses are supported, one IPv6 socket serves all destinations.
pub proof fn law_mapped_stack_needs_ipv6_only(caps: IpStackCapabilities, addr: SocketAddr)
    requires
        caps.support_ipv4_mapped_ipv6,
        addr matches SocketAddr::V6(v6) ==> caps.support_ipv6 || !is_mapped(v6.ip),
    ensures
        family_of(outbound_addr(caps, addr)) == AddrFamily::Ipv6,
{
}

/// Where IPv4-mapped addresses are not supported, none is sent to.
pub proof fn law_unmapped_stack_sees_no_mapped_address(
    caps: IpStackCapabilities,
    addr: SocketAddr,
)
    requires
        !caps.support_ipv4_mapped_ipv6,
    ensures
        outbound_addr(caps, addr) matches SocketAddr::V6(v6) ==> !is_mapped(v6.ip),
{
}

/// The IPv4-mapped form of an address is ten zero octets, two octets `ff`, and then the four octets
/// of the address in their order.
pub proof fn law_mapped_octets(ip: [u8; 4])
    ensures
        mapped(ip)@ == seq![0u8, 0, 0, 0, 0, 0, 0, 0, 0, 0, 0xff, 0xff] + ip@,
{
    assert(mapped(ip)@ =~= seq![0u8, 0, 0, 0, 0, 0, 0, 0, 0, 0, 0xff, 0xff] + ip@);
}

/// An IPv6 address is IPv4-mapped exactly if it starts with ten zero octets and two octets `ff`; the
/// IPv4 address is then in the last four octets, in their order.
pub proof fn law_unmapped_octets(ip: [u8; 16])
    ensures
        is_mapped(ip) <==> ip@.take(12) == seq![0u8, 0, 0, 0, 0, 0, 0, 0, 0, 0, 0xff, 0xff],
        last_four(ip)@ == ip@.skip(12),
{
    assert(mapped_prefix() =~= seq![0u8, 0, 0, 0, 0, 0, 0, 0, 0, 0, 0xff, 0xff]);
    assert(last_four(ip)@ =~= ip@.skip(12));
}

/// Unmapping an address takes the last four octets and the port of an IPv4-mapped one, and keeps
/// every other address, whatever its flow information and scope.
pub proof fn law_unmapped_address(addr: SocketAddr)
    ensures
        addr is V4 ==> unmapped(addr) == addr,
        addr matches SocketAddr::V6(v6) ==> if v6.ip@.take(12) == seq![
            0u8,
            0,
            0,
            0,
            0,
            0,
            0,
            0,
            0,
            0,
            0xff,
            0xff,
        ] {
            unmapped(addr) matches SocketAddr::V4(v4) && v4.ip@ == v6.ip@.skip(12) && v4.port
                == v6.port
        } else {
            unmapped(addr) == addr
        },
{
    if let SocketAddr::V6(v6) = addr {
        law_unmapped_octets(v6.ip);
    }
}

/// An IPv4 target is sent to in its mapped form where that is supported, at the same port, and as it
/// is elsewhere. Nothing else about the stack matters.
pub proof fn law_ipv4_target(caps: IpStackCapabilities, v4: SocketAddrV4)
    ensures
        caps.support_ipv4_mapped_ipv6 ==> (outbound_addr(caps, SocketAddr::V4(v4))
            matches SocketAddr::V6(v6) && v6.ip@ == seq![
            0u8,
            0,
            0,
            0,
            0,
            0,
            0,
            0,
            0,
            0,
            0xff,
            0xff,
        ] + v4.ip@ && v6.port == v4.port && v6.flowinfo == 0 && v6.scope_id == 0),
        !caps.support_ipv4_mapped_ipv6 ==> outbound_addr(caps, SocketAddr::V4(v4))
            == SocketAddr::V4(v4),
{
    law_mapped_octets(v4.ip);
}

/// An IPv6 target is sent to as it is, flow information and scope included, but for a mapped one
/// where mapped addresses or IPv6 are not supported: that is sent to as the IPv4 address in its last
/// four octets, at the same port.
pub proof fn law_ipv6_target(caps: IpStackCapabilities, v6: SocketAddrV6)
    ensures
        if v6.ip@.take(12) == seq![0u8, 0, 0, 0, 0, 0, 0, 0, 0, 0, 0xff, 0xff] && !(
        caps.support_ipv6 && caps.support_ipv4_mapped_ipv6) {
            outbound_addr(caps, SocketAddr::V6(v6)) matches SocketAddr::V4(v4) && v4.ip@
                == v6.ip@.skip(12) && v4.port == v6.port
        } else {
            outbound_addr(caps, SocketAddr::V6(v6)) == SocketAddr::V6(v6)
        },
{
    law_unmapped_address(SocketAddr::V6(v6));
}

/// IPv4 addresses are sent to from IPv4 sockets, and IPv6 ones from IPv6 sockets.
pub proof fn law_family_of_an_address(v4: SocketAddrV4, v6: SocketAddrV6)
    ensures
        family_of(SocketAddr::V4(v4)) == AddrFamily::Ipv4,
        family_of(SocketAddr::V6(v6)) == AddrFamily::Ipv6,
{
}

} // verus!
