//! The layout of UoT frames.

use vstd::prelude::*;
use vstd::slice::slice_subrange;
use vstd::utf8::{decode_utf8, encode_utf8, valid_utf8};

use crate::address::{
    socket_addr_v4, socket_addr_v6, unmap, unmapped, Address, AddressView, SocketAddr, SocketAddrV4,
    SocketAddrV6,
};
use crate::error::{Eof, UotError, UotErrorView};

verus! {

/// ATYP of an IPv4 address in a frame.
pub const UOT_ATYP_IPV4: u8 = 0x00;

/// ATYP of an IPv6 address in a frame.
pub const UOT_ATYP_IPV6: u8 = 0x01;

/// ATYP of a domain name in a frame.
pub const UOT_ATYP_DOMAIN: u8 = 0x02;

/// How the destination of each datagram is carried.
#[derive(Debug, PartialEq, Eq)]
pub enum Mode {
    /// v1 and v2 non-connect: every frame carries its own destination.
    PerPacket,
    /// v2 connect: the request header fixes the destination, frames carry payloads only.
    Connected(Address),
}

/// What a [`Mode`] says.
#[verifier::ext_equal]
pub enum ModeView {
    PerPacket,
    Connected(AddressView),
}

impl View for Mode {
    type V = ModeView;

    open spec fn view(&self) -> ModeView {
        match self {
            Mode::PerPacket => ModeView::PerPacket,
            Mode::Connected(addr) => ModeView::Connected(addr@),
        }
    }
}

impl Clone for Mode {
    fn clone(&self) -> (copy: Self)
        ensures
            copy@ == self@,
    {
        match self {
            Mode::PerPacket => Mode::PerPacket,
            Mode::Connected(addr) => Mode::Connected(addr.clone()),
        }
    }
}

/// What the bytes received so far say about the next item of a stream.
#[derive(Debug, PartialEq, Eq)]
pub enum Parse<T> {
    /// The item is there, in that many bytes.
    Complete(T, usize),
    /// The item may be there once more bytes have come; if none come, the stream broke off in this.
    Incomplete(Eof),
    /// No further bytes can make an item of these; that many of them were read to see it.
    Malformed(UotError, usize),
}

/// What a [`Parse`] says.
#[verifier::ext_equal]
pub enum Parsed<T> {
    Complete(T, nat),
    Incomplete(Eof),
    Malformed(UotErrorView, nat),
}

impl<T: View> View for Parse<T> {
    type V = Parsed<T::V>;

    open spec fn view(&self) -> Parsed<T::V> {
        match self {
            Parse::Complete(item, used) => Parsed::Complete(item@, *used as nat),
            Parse::Incomplete(eof) => Parsed::Incomplete(*eof),
            Parse::Malformed(error, used) => Parsed::Malformed(error@, *used as nat),
        }
    }
}

/// The text with which the standard library describes why bytes are not UTF-8.
pub uninterp spec fn utf8_error_text(bytes: Seq<u8>) -> Seq<char>;

/// Decodes UTF-8, by `core::str::from_utf8`.
///
/// Trusted: the call succeeds exactly on valid UTF-8 and then gives the characters that the bytes
/// encode; the text of its error depends on the bytes alone.
#[verifier::external_body]
fn text_from_utf8(bytes: &[u8]) -> (decoded: Result<String, String>)
    ensures
        decoded is Ok <==> valid_utf8(bytes@),
        decoded matches Ok(text) ==> text@ == decode_utf8(bytes@),
        decoded matches Err(reason) ==> reason@ == utf8_error_text(bytes@),
{
    match core::str::from_utf8(bytes) {
        Ok(text) => Ok(text.to_owned()),
        Err(err) => Err(err.to_string()),
    }
}

/// A number as two bytes, the higher one first.
pub open spec fn be16(n: u16) -> Seq<u8> {
    seq![(n / 256) as u8, (n % 256) as u8]
}

/// The number in the two bytes at a position, the higher one first.
pub open spec fn be16_at(bytes: Seq<u8>, at: int) -> u16 {
    (bytes[at] * 256 + bytes[at + 1]) as u16
}

/// The four octets at a position.
pub open spec fn octets4_at(bytes: Seq<u8>, at: int) -> [u8; 4] {
    [bytes[at], bytes[at + 1], bytes[at + 2], bytes[at + 3]]
}

/// The sixteen octets at a position.
pub open spec fn octets16_at(bytes: Seq<u8>, at: int) -> [u8; 16] {
    [
        bytes[at],
        bytes[at + 1],
        bytes[at + 2],
        bytes[at + 3],
        bytes[at + 4],
        bytes[at + 5],
        bytes[at + 6],
        bytes[at + 7],
        bytes[at + 8],
        bytes[at + 9],
        bytes[at + 10],
        bytes[at + 11],
        bytes[at + 12],
        bytes[at + 13],
        bytes[at + 14],
        bytes[at + 15],
    ]
}

/// The domain name at a position: its length in one byte, then its bytes.
pub open spec fn name_at(bytes: Seq<u8>, at: int) -> Seq<u8> {
    bytes.subrange(at + 1, at + 1 + bytes[at])
}

/// The address that `bytes` start with: its ATYP, the address and the port.
pub open spec fn frame_address_at(bytes: Seq<u8>) -> Parsed<AddressView> {
    if bytes.len() < 1 {
        Parsed::Incomplete(Eof::Number)
    } else if bytes[0] == UOT_ATYP_IPV4 {
        if bytes.len() < 1 + 4 + 2 {
            Parsed::Incomplete(Eof::Bytes)
        } else {
            Parsed::Complete(
                AddressView::SocketAddress(
                    socket_addr_v4(octets4_at(bytes, 1), be16_at(bytes, 5)),
                ),
                1 + 4 + 2,
            )
        }
    } else if bytes[0] == UOT_ATYP_IPV6 {
        if bytes.len() < 1 + 16 + 2 {
            Parsed::Incomplete(Eof::Bytes)
        } else {
            Parsed::Complete(
                AddressView::SocketAddress(
                    socket_addr_v6(octets16_at(bytes, 1), be16_at(bytes, 17)),
                ),
                1 + 16 + 2,
            )
        }
    } else if bytes[0] == UOT_ATYP_DOMAIN {
        if bytes.len() < 2 {
            Parsed::Incomplete(Eof::Number)
        } else if bytes.len() < 2 + bytes[1] + 2 {
            Parsed::Incomplete(Eof::Bytes)
        } else {
            let name = name_at(bytes, 1);
            let used = (2 + bytes[1] + 2) as nat;
            if valid_utf8(name) {
                Parsed::Complete(
                    AddressView::DomainNameAddress(decode_utf8(name), be16_at(bytes, used - 2)),
                    used,
                )
            } else {
                Parsed::Malformed(UotErrorView::InvalidDomain(utf8_error_text(name)), used)
            }
        }
    } else {
        Parsed::Malformed(UotErrorView::UnknownAtyp(bytes[0]), 1)
    }
}

/// The datagram for `target` whose length and data stand at a position of `bytes`.
pub open spec fn payload_at(bytes: Seq<u8>, at: nat, target: AddressView) -> Parsed<
    (AddressView, Seq<u8>),
> {
    if bytes.len() < at + 2 {
        Parsed::Incomplete(Eof::Number)
    } else if bytes.len() < at + 2 + be16_at(bytes, at as int) {
        Parsed::Incomplete(Eof::Bytes)
    } else {
        let end = at + 2 + be16_at(bytes, at as int);
        Parsed::Complete((target, bytes.subrange(at + 2int, end)), end as nat)
    }
}

/// The frame that `bytes` start with.
pub open spec fn frame_at(bytes: Seq<u8>, mode: ModeView) -> Parsed<(AddressView, Seq<u8>)> {
    match mode {
        ModeView::PerPacket => match frame_address_at(bytes) {
            Parsed::Complete(target, used) => payload_at(bytes, used, target),
            Parsed::Incomplete(eof) => Parsed::Incomplete(eof),
            Parsed::Malformed(error, used) => Parsed::Malformed(error, used),
        },
        ModeView::Connected(target) => payload_at(bytes, 0, target),
    }
}

/// The bytes of a frame address.
pub open spec fn frame_address_bytes(addr: AddressView) -> Seq<u8> {
    match addr {
        AddressView::SocketAddress(SocketAddr::V4(v4)) => seq![UOT_ATYP_IPV4] + v4.ip@ + be16(
            v4.port,
        ),
        AddressView::SocketAddress(SocketAddr::V6(v6)) => seq![UOT_ATYP_IPV6] + v6.ip@ + be16(
            v6.port,
        ),
        AddressView::DomainNameAddress(name, port) => seq![
            UOT_ATYP_DOMAIN,
            encode_utf8(name).len() as u8,
        ] + encode_utf8(name) + be16(port),
    }
}

/// The bytes of a datagram without its address.
pub open spec fn payload_bytes(data: Seq<u8>) -> Seq<u8> {
    be16(data.len() as u16) + data
}

/// The bytes of a frame.
pub open spec fn frame_bytes(mode: ModeView, addr: AddressView, data: Seq<u8>) -> Seq<u8> {
    match mode {
        ModeView::PerPacket => frame_address_bytes(addr) + payload_bytes(data),
        ModeView::Connected(_) => payload_bytes(data),
    }
}

/// The number that two bytes hold, the higher one first.
pub(crate) fn from_be16(high: u8, low: u8) -> (n: u16)
    ensures
        n == high * 256 + low,
{
    high as u16 * 256 + low as u16
}

/// Appends a number as two bytes, the higher one first.
fn push_be16(buf: &mut Vec<u8>, n: u16)
    ensures
        final(buf)@ == old(buf)@ + be16(n),
{
    buf.push((n / 256) as u8);
    buf.push((n % 256) as u8);
    assert(buf@ =~= old(buf)@ + be16(n));
}

/// Appends bytes.
fn push_bytes(buf: &mut Vec<u8>, bytes: &[u8])
    ensures
        final(buf)@ == old(buf)@ + bytes@,
{
    buf.extend_from_slice(bytes);
    assert(buf@ =~= old(buf)@ + bytes@);
}

/// The address that a domain name and a port make, once the name has been decoded or found not
/// to be UTF-8.
pub fn domain_address(decoded: Result<String, String>, port: u16) -> (addr: Result<
    Address,
    UotError,
>)
    ensures
        decoded matches Ok(name) ==> addr matches Ok(a) && a@ == AddressView::DomainNameAddress(
            name@,
            port,
        ),
        decoded matches Err(reason) ==> addr matches Err(e) && e@ == UotErrorView::InvalidDomain(
            reason@,
        ),
{
    match decoded {
        Ok(name) => Ok(Address::DomainNameAddress(name, port)),
        Err(reason) => Err(UotError::InvalidDomain(reason)),
    }
}

/// Reads the address that a frame starts with.
pub fn read_frame_address(bytes: &[u8]) -> (parse: Parse<Address>)
    ensures
        parse@ == frame_address_at(bytes@),
{
    if bytes.len() < 1 {
        return Parse::Incomplete(Eof::Number);
    }
    let atyp: u8 = bytes[0];
    if atyp == UOT_ATYP_IPV4 {
        if bytes.len() < 1 + 4 + 2 {
            return Parse::Incomplete(Eof::Bytes);
        }
        let ip: [u8; 4] = [bytes[1], bytes[2], bytes[3], bytes[4]];
        assert(ip =~= octets4_at(bytes@, 1));
        let port: u16 = from_be16(bytes[5], bytes[6]);
        Parse::Complete(
            Address::SocketAddress(SocketAddr::V4(SocketAddrV4 { ip, port })),
            1 + 4 + 2,
        )
    } else if atyp == UOT_ATYP_IPV6 {
        if bytes.len() < 1 + 16 + 2 {
            return Parse::Incomplete(Eof::Bytes);
        }
        let ip: [u8; 16] = read_octets16(bytes, 1);
        let port: u16 = from_be16(bytes[17], bytes[18]);
        Parse::Complete(
            Address::SocketAddress(
                SocketAddr::V6(SocketAddrV6 { ip, port, flowinfo: 0, scope_id: 0 }),
            ),
            1 + 16 + 2,
        )
    } else if atyp == UOT_ATYP_DOMAIN {
        if bytes.len() < 2 {
            return Parse::Incomplete(Eof::Number);
        }
        let domain_len: usize = bytes[1] as usize;
        if bytes.len() < 2 + domain_len + 2 {
            return Parse::Incomplete(Eof::Bytes);
        }
        let name: &[u8] = slice_subrange(bytes, 2, 2 + domain_len);
        let port: u16 = from_be16(bytes[2 + domain_len], bytes[2 + domain_len + 1]);
        match domain_address(text_from_utf8(name), port) {
            Ok(addr) => Parse::Complete(addr, 2 + domain_len + 2),
            Err(error) => Parse::Malformed(error, 2 + domain_len + 2),
        }
    } else {
        Parse::Malformed(UotError::UnknownAtyp(atyp), 1)
    }
}

/// Reads the sixteen octets at a position.
pub(crate) fn read_octets16(bytes: &[u8], at: usize) -> (ip: [u8; 16])
    requires
        at + 16 <= bytes@.len(),
    ensures
        ip == octets16_at(bytes@, at as int),
{
    let ip: [u8; 16] = [
        bytes[at],
        bytes[at + 1],
        bytes[at + 2],
        bytes[at + 3],
        bytes[at + 4],
        bytes[at + 5],
        bytes[at + 6],
        bytes[at + 7],
        bytes[at + 8],
        bytes[at + 9],
        bytes[at + 10],
        bytes[at + 11],
        bytes[at + 12],
        bytes[at + 13],
        bytes[at + 14],
        bytes[at + 15],
    ];
    assert(ip =~= octets16_at(bytes@, at as int));
    ip
}

/// Reads the length and the data of a datagram at a position.
fn parse_payload(bytes: &[u8], at: usize, target: Address) -> (parse: Parse<(Address, Vec<u8>)>)
    requires
        at <= bytes@.len(),
    ensures
        parse@ == payload_at(bytes@, at as nat, target@),
{
    if bytes.len() - at < 2 {
        return Parse::Incomplete(Eof::Number);
    }
    let payload_len: usize = from_be16(bytes[at], bytes[at + 1]) as usize;
    if bytes.len() - at - 2 < payload_len {
        return Parse::Incomplete(Eof::Bytes);
    }
    let end: usize = at + 2 + payload_len;
    let mut payload: Vec<u8> = Vec::new();
    push_bytes(&mut payload, slice_subrange(bytes, at + 2, end));
    assert(payload@ =~= bytes@.subrange(at + 2, end as int));
    Parse::Complete((target, payload), end)
}

/// Reads the frame that `bytes` start with.
pub fn parse_frame(bytes: &[u8], mode: &Mode) -> (parse: Parse<(Address, Vec<u8>)>)
    ensures
        parse@ == frame_at(bytes@, mode@),
{
    match mode {
        Mode::PerPacket => match read_frame_address(bytes) {
            Parse::Complete(target, used) => parse_payload(bytes, used, target),
            Parse::Incomplete(eof) => Parse::Incomplete(eof),
            Parse::Malformed(error, used) => Parse::Malformed(error, used),
        },
        Mode::Connected(target) => parse_payload(bytes, 0, target.clone()),
    }
}

/// Appends a frame address. It is never a domain in this direction.
pub fn write_frame_address(buf: &mut Vec<u8>, addr: &SocketAddr)
    ensures
        final(buf)@ == old(buf)@ + frame_address_bytes(AddressView::SocketAddress(*addr)),
{
    match addr {
        SocketAddr::V4(v4) => {
            buf.push(UOT_ATYP_IPV4);
            push_bytes(buf, v4.ip.as_slice());
            push_be16(buf, v4.port);
        },
        SocketAddr::V6(v6) => {
            buf.push(UOT_ATYP_IPV6);
            push_bytes(buf, v6.ip.as_slice());
            push_be16(buf, v6.port);
        },
    }
    assert(buf@ =~= old(buf)@ + frame_address_bytes(AddressView::SocketAddress(*addr)));
}

/// Frames a datagram that came from the remote, for the client to read.
///
/// A datagram whose length does not fit the frame is dropped: nothing is framed, and the result
/// is false.
pub fn write_respond_packet(
    frame: &mut Vec<u8>,
    mode: &Mode,
    source_addr: SocketAddr,
    data: &[u8],
) -> (framed: bool)
    ensures
        framed == (data@.len() <= u16::MAX),
        framed ==> final(frame)@ == frame_bytes(
            mode@,
            AddressView::SocketAddress(unmapped(source_addr)),
            data@,
        ),
        !framed ==> final(frame)@ == old(frame)@,
{
    if data.len() > u16::MAX as usize {
        return false;
    }
    let source: SocketAddr = unmap(source_addr);
    frame.clear();
    if let Mode::PerPacket = mode {
        write_frame_address(frame, &source);
    }
    push_be16(frame, data.len() as u16);
    push_bytes(frame, data);
    assert(frame@ =~= frame_bytes(mode@, AddressView::SocketAddress(source), data@));
    true
}

} // verus!
