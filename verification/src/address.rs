//! Addresses, and the IPv4-mapped form of IPv6 ones.

use vstd::prelude::*;

verus! {

/// An IPv4 address and a port.
#[derive(Debug, Clone, Copy, PartialEq, Eq)]
pub struct SocketAddrV4 {
    pub ip: [u8; 4],
    pub port: u16,
}

/// An IPv6 address and a port, with the flow information and the scope of the socket API.
#[derive(Debug, Clone, Copy, PartialEq, Eq)]
pub struct SocketAddrV6 {
    pub ip: [u8; 16],
    pub port: u16,
    pub flowinfo: u32,
    pub scope_id: u32,
}

/// The address of a socket.
#[derive(Debug, Clone, Copy, PartialEq, Eq)]
pub enum SocketAddr {
    V4(SocketAddrV4),
    V6(SocketAddrV6),
}

/// The family of a socket.
#[derive(Debug, Clone, Copy, PartialEq, Eq, Structural)]
pub enum AddrFamily {
    Ipv4,
    Ipv6,
}

/// Where a datagram goes: a socket address, or a domain name that is still to be resolved.
#[derive(Debug, PartialEq, Eq)]
pub enum Address {
    SocketAddress(SocketAddr),
    DomainNameAddress(String, u16),
}

/// What an [`Address`] says, with the domain name as its characters.
#[verifier::ext_equal]
pub enum AddressView {
    SocketAddress(SocketAddr),
    DomainNameAddress(Seq<char>, u16),
}

impl View for Address {
    type V = AddressView;

    open spec fn view(&self) -> AddressView {
        match self {
            Address::SocketAddress(addr) => AddressView::SocketAddress(*addr),
            Address::DomainNameAddress(name, port) => AddressView::DomainNameAddress(name@, *port),
        }
    }
}

impl Clone for Address {
    fn clone(&self) -> (copy: Self)
        ensures
            copy@ == self@,
    {
        match self {
            Address::SocketAddress(addr) => Address::SocketAddress(*addr),
            Address::DomainNameAddress(name, port) => Address::DomainNameAddress(
                name.clone(),
                *port,
            ),
        }
    }
}

/// An IPv4 socket address.
pub open spec fn socket_addr_v4(ip: [u8; 4], port: u16) -> SocketAddr {
    SocketAddr::V4(SocketAddrV4 { ip, port })
}

/// An IPv6 socket address without flow information and scope.
pub open spec fn socket_addr_v6(ip: [u8; 16], port: u16) -> SocketAddr {
    SocketAddr::V6(SocketAddrV6 { ip, port, flowinfo: 0, scope_id: 0 })
}

/// The family that a socket must have to send to an address.
pub open spec fn family_of(addr: SocketAddr) -> AddrFamily {
    match addr {
        SocketAddr::V4(_) => AddrFamily::Ipv4,
        SocketAddr::V6(_) => AddrFamily::Ipv6,
    }
}

/// The twelve octets in front of an IPv4 address in its IPv4-mapped form, `::ffff:a.b.c.d`.
pub open spec fn mapped_prefix() -> Seq<u8> {
    seq![0u8, 0u8, 0u8, 0u8, 0u8, 0u8, 0u8, 0u8, 0u8, 0u8, 0xffu8, 0xffu8]
}

/// The IPv4-mapped form of an IPv4 address.
pub open spec fn mapped(ip: [u8; 4]) -> [u8; 16] {
    [0, 0, 0, 0, 0, 0, 0, 0, 0, 0, 0xff, 0xff, ip[0], ip[1], ip[2], ip[3]]
}

/// Whether an IPv6 address is the IPv4-mapped form of an IPv4 one.
pub open spec fn is_mapped(ip: [u8; 16]) -> bool {
    ip@.take(12) == mapped_prefix()
}

/// The IPv4 address in the last four octets of an IPv6 one.
pub open spec fn last_four(ip: [u8; 16]) -> [u8; 4] {
    [ip[12], ip[13], ip[14], ip[15]]
}

/// An address with an IPv4-mapped IPv6 address turned back into the IPv4 one; every other
/// address is kept as it is.
pub open spec fn unmapped(addr: SocketAddr) -> SocketAddr {
    match addr {
        SocketAddr::V6(v6) => if is_mapped(v6.ip) {
            socket_addr_v4(last_four(v6.ip), v6.port)
        } else {
            addr
        },
        SocketAddr::V4(_) => addr,
    }
}

impl SocketAddr {
    /// The family that a socket must have to send to this address.
    pub fn family(&self) -> (family: AddrFamily)
        ensures
            family == family_of(*self),
    {
        match self {
            SocketAddr::V4(_) => AddrFamily::Ipv4,
            SocketAddr::V6(_) => AddrFamily::Ipv6,
        }
    }
}

/// The IPv4-mapped form of an IPv4 address.
pub fn to_ipv6_mapped(ip: [u8; 4]) -> (v6: [u8; 16])
    ensures
        v6 == mapped(ip),
{
    let v6: [u8; 16] = [0, 0, 0, 0, 0, 0, 0, 0, 0, 0, 0xff, 0xff, ip[0], ip[1], ip[2], ip[3]];
    assert(v6 =~= mapped(ip));
    v6
}

/// The IPv4 address that an IPv6 one is the mapped form of, if it is one.
pub fn to_ipv4_mapped(ip: &[u8; 16]) -> (v4: Option<[u8; 4]>)
    ensures
        is_mapped(*ip) ==> v4 == Some(last_four(*ip)),
        !is_mapped(*ip) ==> v4 is None,
{
    let mut i: usize = 0;
    while i < 12
        invariant
            i <= 12,
            forall|j: int| 0 <= j < i ==> ip@[j] == mapped_prefix()[j],
        decreases 12 - i,
    {
        let expected: u8 = if i < 10 {
            0
        } else {
            0xff
        };
        if ip[i] != expected {
            assert(ip@.take(12)[i as int] != mapped_prefix()[i as int]);
            return None;
        }
        i = i + 1;
    }
    assert(ip@.take(12) =~= mapped_prefix());
    let v4: [u8; 4] = [ip[12], ip[13], ip[14], ip[15]];
    assert(v4 =~= last_four(*ip));
    Some(v4)
}

/// Turns an IPv4-mapped IPv6 address back into the IPv4 one.
pub fn unmap(addr: SocketAddr) -> (plain: SocketAddr)
    ensures
        plain == unmapped(addr),
{
    if let SocketAddr::V6(v6) = addr {
        if let Some(v4) = to_ipv4_mapped(&v6.ip) {
            return SocketAddr::V4(SocketAddrV4 { ip: v4, port: v6.port });
        }
    }
    addr
}

} // verus!
