//! The request header of UoT v2, `| isConnect u8 | SOCKS5 address |`.

use shadowsocks::relay::socks5;
use vstd::prelude::*;
use vstd::slice::slice_subrange;
use vstd::utf8::{decode_utf8, valid_utf8};

use crate::address::{
    socket_addr_v4, socket_addr_v6, Address, AddressView, SocketAddr, SocketAddrV4, SocketAddrV6,
};
use crate::error::{Eof, UotError, UotErrorView};
use crate::wire::{
    be16_at, from_be16, name_at, octets16_at, octets4_at, read_octets16, Mode, ModeView, Parse,
    Parsed,
};

verus! {

/// SOCKS5 address type of an IPv4 address.
pub const SOCKS5_ADDR_TYPE_IPV4: u8 = 0x01;

/// SOCKS5 address type of a domain name.
pub const SOCKS5_ADDR_TYPE_DOMAIN_NAME: u8 = 0x03;

/// SOCKS5 address type of an IPv6 address.
pub const SOCKS5_ADDR_TYPE_IPV6: u8 = 0x04;

/// The SOCKS5 address that `bytes` start with.
pub open spec fn socks5_address_at(bytes: Seq<u8>) -> Parsed<AddressView> {
    if bytes.len() < 1 {
        Parsed::Incomplete(Eof::Bytes)
    } else if bytes[0] == SOCKS5_ADDR_TYPE_IPV4 {
        if bytes.len() < 1 + 4 + 2 {
            Parsed::Incomplete(Eof::Bytes)
        } else {
            Parsed::Complete(
                AddressView::SocketAddress(
                    socket_addr_v4(octets4_at(bytes, 1), be16_at(bytes, 5)),
                ),
                1 + 4 + 2,
            )
        }
    } else if bytes[0] == SOCKS5_ADDR_TYPE_IPV6 {
        if bytes.len() < 1 + 16 + 2 {
            Parsed::Incomplete(Eof::Bytes)
        } else {
            Parsed::Complete(
                AddressView::SocketAddress(
                    socket_addr_v6(octets16_at(bytes, 1), be16_at(bytes, 17)),
                ),
                1 + 16 + 2,
            )
        }
    } else if bytes[0] == SOCKS5_ADDR_TYPE_DOMAIN_NAME {
        if bytes.len() < 2 || bytes.len() < 2 + bytes[1] + 2 {
            Parsed::Incomplete(Eof::Bytes)
        } else {
            let name = name_at(bytes, 1);
            let used = (2 + bytes[1] + 2) as nat;
            if valid_utf8(name) {
                Parsed::Complete(
                    AddressView::DomainNameAddress(decode_utf8(name), be16_at(bytes, used - 2)),
                    used,
                )
            } else {
                Parsed::Malformed(UotErrorView::AddressDomainInvalidEncoding, used)
            }
        }
    } else {
        Parsed::Malformed(UotErrorView::AddressTypeNotSupported(bytes[0]), 1)
    }
}

/// The mode that a request header asks for: without connect, the address in it is unused.
pub open spec fn requested_mode(is_connect: u8, target: AddressView) -> ModeView {
    if is_connect == 0 {
        ModeView::PerPacket
    } else {
        ModeView::Connected(target)
    }
}

/// The request header that `bytes` start with.
pub open spec fn request_at(bytes: Seq<u8>) -> Parsed<ModeView> {
    if bytes.len() < 1 {
        Parsed::Incomplete(Eof::Number)
    } else {
        match socks5_address_at(bytes.skip(1)) {
            Parsed::Complete(target, used) => Parsed::Complete(
                requested_mode(bytes[0], target),
                1 + used,
            ),
            Parsed::Incomplete(eof) => Parsed::Incomplete(eof),
            Parsed::Malformed(error, used) => Parsed::Malformed(error, 1 + used),
        }
    }
}

/// What the SOCKS5 codec makes of some bytes.
enum Socks5Read {
    /// A domain name and a port.
    Domain(String, u16),
    /// An IP address and a port, in the bytes that encode them.
    Ip(Vec<u8>),
    /// An address type that SOCKS5 does not have.
    AddressTypeNotSupported(u8),
    /// A domain name that is not UTF-8.
    AddressDomainInvalidEncoding,
    /// The bytes end before the address does.
    Unfinished,
}

/// Reads the SOCKS5 address that `bytes` start with, by
/// `shadowsocks::relay::socks5::Address::read_from`; an IP address comes out in the bytes that
/// `Address::write_to_buf` gives it.
///
/// Trusted: `read_from` takes the address type, the address and the port from the front of the
/// bytes, as [`socks5_address_at`] lays them out, and fails with the error named there. A byte
/// slice is always ready to be read, so polling the future once completes it, and the only I/O
/// error is the end of the bytes, met while a run of them is read. `write_to_buf` gives an IP address the bytes it was read from.
#[verifier::external_body]
fn read_socks5_address(bytes: &[u8]) -> (read: Socks5Read)
    ensures
        match socks5_address_at(bytes@) {
            Parsed::Complete(AddressView::DomainNameAddress(name, port), _) => {
                read matches Socks5Read::Domain(n, p) && n@ == name && p == port
            },
            Parsed::Complete(AddressView::SocketAddress(_), used) => {
                read matches Socks5Read::Ip(wire) && wire@ == bytes@.take(used as int)
            },
            Parsed::Malformed(UotErrorView::AddressTypeNotSupported(atyp), _) => {
                read == Socks5Read::AddressTypeNotSupported(atyp)
            },
            Parsed::Malformed(_, _) => read == Socks5Read::AddressDomainInvalidEncoding,
            Parsed::Incomplete(_) => read == Socks5Read::Unfinished,
        },
{
    let mut reader: &[u8] = bytes;
    let mut wire: Vec<u8> = Vec::new();
    let future = socks5::Address::read_from(&mut reader);
    match futures::FutureExt::now_or_never(future) {
        Some(Ok(socks5::Address::DomainNameAddress(name, port))) => Socks5Read::Domain(name, port),
        Some(Ok(address)) => {
            address.write_to_buf(&mut wire);
            Socks5Read::Ip(wire)
        },
        Some(Err(socks5::Error::AddressTypeNotSupported(atyp))) => Socks5Read::AddressTypeNotSupported(atyp),
        Some(Err(socks5::Error::AddressDomainInvalidEncoding)) => Socks5Read::AddressDomainInvalidEncoding,
        _ => Socks5Read::Unfinished,
    }
}

/// The socket address in the bytes that encode it.
fn ip_from_wire(wire: &[u8]) -> (addr: SocketAddr)
    requires
        socks5_address_at(wire@) matches Parsed::Complete(AddressView::SocketAddress(_), _),
    ensures
        socks5_address_at(wire@) matches Parsed::Complete(AddressView::SocketAddress(a), _) && addr
            == a,
{
    if wire[0] == SOCKS5_ADDR_TYPE_IPV4 {
        let ip: [u8; 4] = [wire[1], wire[2], wire[3], wire[4]];
        assert(ip =~= octets4_at(wire@, 1));
        SocketAddr::V4(SocketAddrV4 { ip, port: from_be16(wire[5], wire[6]) })
    } else {
        SocketAddr::V6(
            SocketAddrV6 {
                ip: read_octets16(wire, 1),
                port: from_be16(wire[17], wire[18]),
                flowinfo: 0,
                scope_id: 0,
            },
        )
    }
}

proof fn lemma_ip_alone(bytes: Seq<u8>, addr: SocketAddr, used: nat)
    requires
        socks5_address_at(bytes) == Parsed::Complete(AddressView::SocketAddress(addr), used),
    ensures
        socks5_address_at(bytes.take(used as int)) == socks5_address_at(bytes),
{
    let wire = bytes.take(used as int);
    if bytes[0] == SOCKS5_ADDR_TYPE_IPV4 {
        assert(octets4_at(wire, 1) =~= octets4_at(bytes, 1));
    } else {
        assert(octets16_at(wire, 1) =~= octets16_at(bytes, 1));
    }
}

/// The mode that a request header asks for.
pub fn select_mode(is_connect: u8, target: Address) -> (mode: Mode)
    ensures
        mode@ == requested_mode(is_connect, target@),
{
    if is_connect == 0 {
        Mode::PerPacket
    } else {
        Mode::Connected(target)
    }
}

/// Reads the request header that `bytes` start with.
pub fn parse_v2_request(bytes: &[u8]) -> (parse: Parse<Mode>)
    ensures
        parse@ == request_at(bytes@),
{
    if bytes.len() < 1 {
        return Parse::Incomplete(Eof::Number);
    }
    let is_connect: u8 = bytes[0];
    let rest: &[u8] = slice_subrange(bytes, 1, bytes.len());
    assert(rest@ =~= bytes@.skip(1));
    match read_socks5_address(rest) {
        Socks5Read::Domain(name, port) => {
            let used: usize = 1 + 2 + rest[1] as usize + 2;
            Parse::Complete(select_mode(is_connect, Address::DomainNameAddress(name, port)), used)
        },
        Socks5Read::Ip(wire) => {
            proof {
                if let Parsed::Complete(AddressView::SocketAddress(addr), used) =
                    socks5_address_at(rest@) {
                    lemma_ip_alone(rest@, addr, used);
                }
            }
            let used: usize = 1 + wire.len();
            let target: SocketAddr = ip_from_wire(wire.as_slice());
            Parse::Complete(select_mode(is_connect, Address::SocketAddress(target)), used)
        },
        Socks5Read::AddressTypeNotSupported(atyp) => {
            Parse::Malformed(UotError::AddressTypeNotSupported(atyp), 2)
        },
        Socks5Read::AddressDomainInvalidEncoding => {
            let used: usize = 1 + 2 + rest[1] as usize + 2;
            Parse::Malformed(UotError::AddressDomainInvalidEncoding, used)
        },
        Socks5Read::Unfinished => Parse::Incomplete(Eof::Bytes),
    }
}

} // verus!
