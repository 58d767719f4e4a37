//! Laws of the wire: which byte stands where, in frames and in the request header.

use vstd::prelude::*;
use vstd::utf8::{decode_utf8, encode_utf8, valid_utf8};

use crate::address::{AddressView, SocketAddr, SocketAddrV4, SocketAddrV6};
use crate::error::{Eof, UotErrorView};
use crate::request::{request_at, requested_mode, socks5_address_at};
use crate::request_laws::{law_written_request_is_read_back, request_bytes, socks5_address_bytes};
use crate::wire::{
    frame_address_at, frame_address_bytes, frame_at, frame_bytes, octets16_at, octets4_at,
    utf8_error_text, ModeView, Parsed,
};

verus! {

/// A frame address that starts with `00` holds four octets in their order, and then the port, the
/// higher byte first.
pub proof fn law_ipv4_frame_address(bytes: Seq<u8>)
    requires
        bytes.len() > 0,
        bytes[0] == 0x00,
    ensures
        bytes.len() < 7 ==> frame_address_at(bytes) == Parsed::<AddressView>::Incomplete(
            Eof::Bytes,
        ),
        bytes.len() >= 7 ==> (frame_address_at(bytes) matches Parsed::Complete(
            AddressView::SocketAddress(SocketAddr::V4(v4)),
            used,
        ) && used == 7 && v4.ip@ == bytes.subrange(1, 5) && v4.port == bytes[5] * 256 + bytes[6]),
{
    if bytes.len() >= 7 {
        assert(octets4_at(bytes, 1)@ =~= bytes.subrange(1, 5));
    }
}

/// A frame address that starts with `01` holds sixteen octets in their order, and then the port,
/// the higher byte first.
pub proof fn law_ipv6_frame_address(bytes: Seq<u8>)
    requires
        bytes.len() > 0,
        bytes[0] == 0x01,
    ensures
        bytes.len() < 19 ==> frame_address_at(bytes) == Parsed::<AddressView>::Incomplete(
            Eof::Bytes,
        ),
        bytes.len() >= 19 ==> (frame_address_at(bytes) matches Parsed::Complete(
            AddressView::SocketAddress(SocketAddr::V6(v6)),
            used,
        ) && used == 19 && v6.ip@ == bytes.subrange(1, 17) && v6.port == bytes[17] * 256 + bytes[18]
            && v6.flowinfo == 0 && v6.scope_id == 0),
{
    if bytes.len() >= 19 {
        assert(octets16_at(bytes, 1)@ =~= bytes.subrange(1, 17));
    }
}

/// A frame address that starts with `02` holds the length of a domain name, its bytes, and then the
/// port, the higher byte first. The bytes are UTF-8, or the address is refused.
pub proof fn law_domain_frame_address(bytes: Seq<u8>)
    requires
        bytes.len() > 0,
        bytes[0] == 0x02,
    ensures
        bytes.len() == 1 ==> frame_address_at(bytes) == Parsed::<AddressView>::Incomplete(
            Eof::Number,
        ),
        2 <= bytes.len() < 4 + bytes[1] ==> frame_address_at(bytes) == Parsed::<
            AddressView,
        >::Incomplete(Eof::Bytes),
        2 <= bytes.len() && 4 + bytes[1] <= bytes.len() ==> {
            let name = bytes.subrange(2, 2 + bytes[1]);
            if valid_utf8(name) {
                frame_address_at(bytes) matches Parsed::Complete(
                    AddressView::DomainNameAddress(text, port),
                    used,
                ) && used == 4 + bytes[1] && text == decode_utf8(name) && port == bytes[2 + bytes[1]]
                    * 256 + bytes[3 + bytes[1]]
            } else {
                frame_address_at(bytes) matches Parsed::Malformed(
                    UotErrorView::InvalidDomain(reason),
                    used,
                ) && used == 4 + bytes[1] && reason == utf8_error_text(name)
            }
        },
{
}

/// No address is read from no bytes, and none that starts with another byte than `00`, `01` and
/// `02`.
pub proof fn law_no_frame_address(bytes: Seq<u8>)
    ensures
        bytes.len() == 0 ==> frame_address_at(bytes) == Parsed::<AddressView>::Incomplete(
            Eof::Number,
        ),
        bytes.len() > 0 && bytes[0] > 0x02 ==> frame_address_at(bytes) == Parsed::<
            AddressView,
        >::Malformed(UotErrorView::UnknownAtyp(bytes[0]), 1),
{
}

/// Where frames carry addresses, the length of the payload follows the address, the higher byte
/// first, and then the payload itself.
pub proof fn law_per_packet_frame(bytes: Seq<u8>)
    ensures
        match frame_address_at(bytes) {
            Parsed::Complete(target, used) => {
                let at = used as int;
                let len = bytes[at] * 256 + bytes[at + 1];
                if bytes.len() < at + 2 {
                    frame_at(bytes, ModeView::PerPacket) == Parsed::<
                        (AddressView, Seq<u8>),
                    >::Incomplete(Eof::Number)
                } else if bytes.len() < at + 2 + len {
                    frame_at(bytes, ModeView::PerPacket) == Parsed::<
                        (AddressView, Seq<u8>),
                    >::Incomplete(Eof::Bytes)
                } else {
                    frame_at(bytes, ModeView::PerPacket) == Parsed::Complete(
                        (target, bytes.subrange(at + 2, at + 2 + len)),
                        (at + 2 + len) as nat,
                    )
                }
            },
            Parsed::Incomplete(eof) => frame_at(bytes, ModeView::PerPacket) == Parsed::<
                (AddressView, Seq<u8>),
            >::Incomplete(eof),
            Parsed::Malformed(error, used) => frame_at(bytes, ModeView::PerPacket) == Parsed::<
                (AddressView, Seq<u8>),
            >::Malformed(error, used),
        },
{
}

/// Where the destination is fixed, a frame is the length of the payload, the higher byte first, and
/// then the payload itself, for that destination.
pub proof fn law_connected_frame(bytes: Seq<u8>, target: AddressView)
    ensures
        bytes.len() < 2 ==> frame_at(bytes, ModeView::Connected(target)) == Parsed::<
            (AddressView, Seq<u8>),
        >::Incomplete(Eof::Number),
        2 <= bytes.len() < 2 + bytes[0] * 256 + bytes[1] ==> frame_at(
            bytes,
            ModeView::Connected(target),
        ) == Parsed::<(AddressView, Seq<u8>)>::Incomplete(Eof::Bytes),
        2 <= bytes.len() && 2 + bytes[0] * 256 + bytes[1] <= bytes.len() ==> frame_at(
            bytes,
            ModeView::Connected(target),
        ) == Parsed::Complete(
            (target, bytes.subrange(2, 2 + bytes[0] * 256 + bytes[1])),
            (2 + bytes[0] * 256 + bytes[1]) as nat,
        ),
{
}

/// The bytes of a frame address: its ATYP, the octets or the name in their order, and the port, the
/// higher byte first. Flow information and scope leave no trace.
pub proof fn law_frame_address_bytes(v4: SocketAddrV4, v6: SocketAddrV6, name: Seq<char>, port: u16)
    ensures
        ({
            let bytes = frame_address_bytes(AddressView::SocketAddress(SocketAddr::V4(v4)));
            bytes.len() == 7 && bytes[0] == 0x00 && bytes.subrange(1, 5) == v4.ip@ && bytes[5] * 256
                + bytes[6] == v4.port
        }),
        ({
            let bytes = frame_address_bytes(AddressView::SocketAddress(SocketAddr::V6(v6)));
            bytes.len() == 19 && bytes[0] == 0x01 && bytes.subrange(1, 17) == v6.ip@ && bytes[17]
                * 256 + bytes[18] == v6.port
        }),
        encode_utf8(name).len() <= 255 ==> {
            let bytes = frame_address_bytes(AddressView::DomainNameAddress(name, port));
            let len = encode_utf8(name).len() as int;
            bytes.len() == 4 + len && bytes[0] == 0x02 && bytes[1] == len && bytes.subrange(
                2,
                2 + len,
            ) == encode_utf8(name) && bytes[2 + len] * 256 + bytes[3 + len] == port
        },
{
    let bytes4 = frame_address_bytes(AddressView::SocketAddress(SocketAddr::V4(v4)));
    assert(bytes4.subrange(1, 5) =~= v4.ip@);
    let bytes6 = frame_address_bytes(AddressView::SocketAddress(SocketAddr::V6(v6)));
    assert(bytes6.subrange(1, 17) =~= v6.ip@);
    if encode_utf8(name).len() <= 255 {
        let bytes = frame_address_bytes(AddressView::DomainNameAddress(name, port));
        let len = encode_utf8(name).len() as int;
        assert(bytes.subrange(2, 2 + len) =~= encode_utf8(name));
    }
}

/// The bytes of a frame: the address, unless the destination is fixed, the length of the payload,
/// the higher byte first, and the payload itself.
pub proof fn law_frame_bytes(addr: AddressView, target: AddressView, data: Seq<u8>)
    requires
        data.len() <= 65535,
    ensures
        ({
            let bytes = frame_bytes(ModeView::Connected(target), addr, data);
            bytes.len() == 2 + data.len() && bytes[0] * 256 + bytes[1] == data.len() && bytes.skip(2)
                == data
        }),
        ({
            let bytes = frame_bytes(ModeView::PerPacket, addr, data);
            let at = frame_address_bytes(addr).len() as int;
            bytes.len() == at + 2 + data.len() && bytes.take(at) == frame_address_bytes(addr)
                && bytes[at] * 256 + bytes[at + 1] == data.len() && bytes.skip(at + 2) == data
        }),
{
    let connected = frame_bytes(ModeView::Connected(target), addr, data);
    assert(connected.skip(2) =~= data);
    let bytes = frame_bytes(ModeView::PerPacket, addr, data);
    let at = frame_address_bytes(addr).len() as int;
    assert(bytes.take(at) =~= frame_address_bytes(addr));
    assert(bytes.skip(at + 2) =~= data);
}

/// A SOCKS5 address of type `01` holds four octets in their order, one of type `04` sixteen, and
/// then the port, the higher byte first.
pub proof fn law_socks5_ip_address(bytes: Seq<u8>)
    requires
        bytes.len() > 0,
    ensures
        bytes[0] == 0x01 && bytes.len() < 7 ==> socks5_address_at(bytes) == Parsed::<
            AddressView,
        >::Incomplete(Eof::Bytes),
        bytes[0] == 0x01 && bytes.len() >= 7 ==> (socks5_address_at(bytes) matches Parsed::Complete(
            AddressView::SocketAddress(SocketAddr::V4(v4)),
            used,
        ) && used == 7 && v4.ip@ == bytes.subrange(1, 5) && v4.port == bytes[5] * 256 + bytes[6]),
        bytes[0] == 0x04 && bytes.len() < 19 ==> socks5_address_at(bytes) == Parsed::<
            AddressView,
        >::Incomplete(Eof::Bytes),
        bytes[0] == 0x04 && bytes.len() >= 19 ==> (socks5_address_at(bytes)
            matches Parsed::Complete(AddressView::SocketAddress(SocketAddr::V6(v6)), used) && used
            == 19 && v6.ip@ == bytes.subrange(1, 17) && v6.port == bytes[17] * 256 + bytes[18]
            && v6.flowinfo == 0 && v6.scope_id == 0),
{
    if bytes.len() >= 7 {
        assert(octets4_at(bytes, 1)@ =~= bytes.subrange(1, 5));
    }
    if bytes.len() >= 19 {
        assert(octets16_at(bytes, 1)@ =~= bytes.subrange(1, 17));
    }
}

/// A SOCKS5 address of type `03` holds the length of a domain name, its bytes, which are UTF-8 or
/// refused, and then the port, the higher byte first. Every type but these three is refused.
pub proof fn law_socks5_domain_address(bytes: Seq<u8>)
    ensures
        bytes.len() == 0 ==> socks5_address_at(bytes) == Parsed::<AddressView>::Incomplete(
            Eof::Bytes,
        ),
        bytes.len() > 0 && bytes[0] == 0x03 && (bytes.len() == 1 || bytes.len() < 4 + bytes[1])
            ==> socks5_address_at(bytes) == Parsed::<AddressView>::Incomplete(Eof::Bytes),
        bytes.len() > 1 && bytes[0] == 0x03 && 4 + bytes[1] <= bytes.len() ==> {
            let name = bytes.subrange(2, 2 + bytes[1]);
            if valid_utf8(name) {
                socks5_address_at(bytes) matches Parsed::Complete(
                    AddressView::DomainNameAddress(text, port),
                    used,
                ) && used == 4 + bytes[1] && text == decode_utf8(name) && port == bytes[2 + bytes[1]]
                    * 256 + bytes[3 + bytes[1]]
            } else {
                socks5_address_at(bytes) == Parsed::<AddressView>::Malformed(
                    UotErrorView::AddressDomainInvalidEncoding,
                    (4 + bytes[1]) as nat,
                )
            }
        },
        bytes.len() > 0 && bytes[0] != 0x01 && bytes[0] != 0x03 && bytes[0] != 0x04
            ==> socks5_address_at(bytes) == Parsed::<AddressView>::Malformed(
            UotErrorView::AddressTypeNotSupported(bytes[0]),
            1,
        ),
{
}

/// A request header is one byte, and then a SOCKS5 address. The byte zero selects frames that carry
/// their addresses, and every other byte the address of the header.
pub proof fn law_request_header(bytes: Seq<u8>)
    ensures
        bytes.len() == 0 ==> request_at(bytes) == Parsed::<ModeView>::Incomplete(Eof::Number),
        bytes.len() > 0 ==> match socks5_address_at(bytes.skip(1)) {
            Parsed::Complete(target, used) => request_at(bytes) == Parsed::Complete(
                if bytes[0] == 0 {
                    ModeView::PerPacket
                } else {
                    ModeView::Connected(target)
                },
                1 + used,
            ),
            Parsed::Incomplete(eof) => request_at(bytes) == Parsed::<ModeView>::Incomplete(eof),
            Parsed::Malformed(error, used) => request_at(bytes) == Parsed::<ModeView>::Malformed(
                error,
                1 + used,
            ),
        },
{
}

/// A header asks to connect exactly if its first byte is not zero, for every target alike.
pub proof fn law_every_target_can_be_connected_to(is_connect: u8, target: AddressView)
    ensures
        is_connect == 0 ==> requested_mode(is_connect, target) == ModeView::PerPacket,
        is_connect != 0 ==> requested_mode(is_connect, target) == ModeView::Connected(target),
{
}

/// The bytes of a SOCKS5 address: its type, the octets or the name in their order, and the port, the
/// higher byte first.
pub proof fn law_socks5_address_bytes(
    v4: SocketAddrV4,
    v6: SocketAddrV6,
    name: Seq<char>,
    port: u16,
)
    ensures
        ({
            let bytes = socks5_address_bytes(AddressView::SocketAddress(SocketAddr::V4(v4)));
            bytes.len() == 7 && bytes[0] == 0x01 && bytes.subrange(1, 5) == v4.ip@ && bytes[5] * 256
                + bytes[6] == v4.port
        }),
        ({
            let bytes = socks5_address_bytes(AddressView::SocketAddress(SocketAddr::V6(v6)));
            bytes.len() == 19 && bytes[0] == 0x04 && bytes.subrange(1, 17) == v6.ip@ && bytes[17]
                * 256 + bytes[18] == v6.port
        }),
        encode_utf8(name).len() <= 255 ==> {
            let bytes = socks5_address_bytes(AddressView::DomainNameAddress(name, port));
            let len = encode_utf8(name).len() as int;
            bytes.len() == 4 + len && bytes[0] == 0x03 && bytes[1] == len && bytes.subrange(
                2,
                2 + len,
            ) == encode_utf8(name) && bytes[2 + len] * 256 + bytes[3 + len] == port
        },
{
    let bytes4 = socks5_address_bytes(AddressView::SocketAddress(SocketAddr::V4(v4)));
    assert(bytes4.subrange(1, 5) =~= v4.ip@);
    let bytes6 = socks5_address_bytes(AddressView::SocketAddress(SocketAddr::V6(v6)));
    assert(bytes6.subrange(1, 17) =~= v6.ip@);
    if encode_utf8(name).len() <= 255 {
        let bytes = socks5_address_bytes(AddressView::DomainNameAddress(name, port));
        let len = encode_utf8(name).len() as int;
        assert(bytes.subrange(2, 2 + len) =~= encode_utf8(name));
    }
}

/// A request header that was written is read back with the mode it asks for, whatever follows it:
/// none but a zero byte in front gives up the target, be it an IP address or a domain name, at any
/// port.
pub proof fn law_written_request_selects_its_target(
    is_connect: u8,
    v4: SocketAddrV4,
    v6: SocketAddrV6,
    name: Seq<char>,
    port: u16,
    rest: Seq<u8>,
)
    requires
        encode_utf8(name).len() <= 255,
    ensures
        ({
            let target = AddressView::SocketAddress(SocketAddr::V4(v4));
            request_at(seq![is_connect] + socks5_address_bytes(target) + rest) == Parsed::Complete(
                if is_connect == 0 {
                    ModeView::PerPacket
                } else {
                    ModeView::Connected(target)
                },
                1 + 7,
            )
        }),
        ({
            let target = AddressView::SocketAddress(SocketAddr::V6(v6));
            let seen = AddressView::SocketAddress(
                SocketAddr::V6(
                    SocketAddrV6 { ip: v6.ip, port: v6.port, flowinfo: 0, scope_id: 0 },
                ),
            );
            request_at(seq![is_connect] + socks5_address_bytes(target) + rest) == Parsed::Complete(
                if is_connect == 0 {
                    ModeView::PerPacket
                } else {
                    ModeView::Connected(seen)
                },
                1 + 19,
            )
        }),
        ({
            let target = AddressView::DomainNameAddress(name, port);
            request_at(seq![is_connect] + socks5_address_bytes(target) + rest) == Parsed::Complete(
                if is_connect == 0 {
                    ModeView::PerPacket
                } else {
                    ModeView::Connected(target)
                },
                1 + 4 + encode_utf8(name).len(),
            )
        }),
{
    let target4 = AddressView::SocketAddress(SocketAddr::V4(v4));
    let target6 = AddressView::SocketAddress(SocketAddr::V6(v6));
    let named = AddressView::DomainNameAddress(name, port);
    law_socks5_address_bytes(v4, v6, name, port);
    law_written_request_is_read_back(is_connect, target4, rest);
    law_written_request_is_read_back(is_connect, target6, rest);
    law_written_request_is_read_back(is_connect, named, rest);
    law_every_target_can_be_connected_to(is_connect, target4);
}

/// The bytes of a request header: the byte in front, and then the SOCKS5 address.
pub proof fn law_request_bytes(is_connect: u8, target: AddressView)
    ensures
        request_bytes(is_connect, target).len() == 1 + socks5_address_bytes(target).len(),
        request_bytes(is_connect, target)[0] == is_connect,
        request_bytes(is_connect, target).skip(1) == socks5_address_bytes(target),
{
    assert(request_bytes(is_connect, target).skip(1) =~= socks5_address_bytes(target));
}

} // verus!
