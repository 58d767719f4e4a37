//! Laws of the frame layout.

use vstd::prelude::*;
use vstd::utf8::encode_utf8;

use crate::address::{socket_addr_v6, AddressView, SocketAddr};
use crate::error::{Eof, UotErrorView};
use crate::wire::{
    be16, be16_at, frame_address_at, frame_address_bytes, frame_at, frame_bytes, name_at,
    octets16_at, octets4_at, payload_at, payload_bytes, ModeView, Parsed, UOT_ATYP_DOMAIN,
};

verus! {

/// The length of the longest frame: an address with the longest domain name, and the longest
/// payload.
pub open spec fn max_frame_len() -> nat {
    2 + 255 + 2 + 2 + 65535
}

/// Whether a frame can hold an address: the length of a domain name has one byte.
pub open spec fn fits_frame(addr: AddressView) -> bool {
    addr matches AddressView::DomainNameAddress(name, _) ==> encode_utf8(name).len() <= 255
}

/// An address as a frame carries it: without flow information and scope.
pub open spec fn as_framed(addr: AddressView) -> AddressView {
    match addr {
        AddressView::SocketAddress(SocketAddr::V6(v6)) => AddressView::SocketAddress(
            socket_addr_v6(v6.ip, v6.port),
        ),
        _ => addr,
    }
}

/// The destination that the reader of a frame sees.
pub open spec fn seen_address(mode: ModeView, addr: AddressView) -> AddressView {
    match mode {
        ModeView::PerPacket => as_framed(addr),
        ModeView::Connected(target) => target,
    }
}

pub(crate) proof fn lemma_be16_read(bytes: Seq<u8>, at: int, n: u16)
    requires
        0 <= at,
        at + 2 <= bytes.len(),
        bytes.subrange(at, at + 2) == be16(n),
    ensures
        be16_at(bytes, at) == n,
{
    assert(bytes.subrange(at, at + 2)[0] == bytes[at]);
    assert(bytes.subrange(at, at + 2)[1] == bytes[at + 1]);
}

proof fn lemma_be16_written(bytes: Seq<u8>, at: int)
    requires
        0 <= at,
        at + 2 <= bytes.len(),
    ensures
        be16(be16_at(bytes, at)) == bytes.subrange(at, at + 2),
{
    assert(be16(be16_at(bytes, at)) =~= bytes.subrange(at, at + 2));
}

/// An address that was written is read back, whatever follows it.
pub proof fn law_written_address_is_read_back(addr: AddressView, rest: Seq<u8>)
    requires
        fits_frame(addr),
    ensures
        frame_address_at(frame_address_bytes(addr) + rest) == Parsed::Complete(
            as_framed(addr),
            frame_address_bytes(addr).len(),
        ),
{
    let bytes = frame_address_bytes(addr) + rest;
    match addr {
        AddressView::SocketAddress(SocketAddr::V4(v4)) => {
            assert(octets4_at(bytes, 1) =~= v4.ip);
            assert(bytes.subrange(5, 7) =~= be16(v4.port));
            lemma_be16_read(bytes, 5, v4.port);
        },
        AddressView::SocketAddress(SocketAddr::V6(v6)) => {
            assert(octets16_at(bytes, 1) =~= v6.ip);
            assert(bytes.subrange(17, 19) =~= be16(v6.port));
            lemma_be16_read(bytes, 17, v6.port);
        },
        AddressView::DomainNameAddress(name, port) => {
            let encoded = encode_utf8(name);
            vstd::utf8::encode_utf8_valid_utf8(name);
            vstd::utf8::encode_utf8_decode_utf8(name);
            assert(name_at(bytes, 1) =~= encoded);
            let at = 2 + encoded.len() as int;
            assert(bytes.subrange(at, at + 2) =~= be16(port));
            lemma_be16_read(bytes, at, port);
        },
    }
}

/// What was read as an address is what writing that address gives.
pub proof fn law_read_address_was_written(bytes: Seq<u8>)
    ensures
        frame_address_at(bytes) matches Parsed::Complete(addr, used) ==> {
            &&& fits_frame(addr)
            &&& as_framed(addr) == addr
            &&& used <= bytes.len()
            &&& bytes.take(used as int) == frame_address_bytes(addr)
        },
{
    if let Parsed::Complete(addr, used) = frame_address_at(bytes) {
        match addr {
            AddressView::SocketAddress(SocketAddr::V4(v4)) => {
                lemma_be16_written(bytes, 5);
                assert(v4.ip@ =~= bytes.subrange(1, 5));
            },
            AddressView::SocketAddress(SocketAddr::V6(v6)) => {
                lemma_be16_written(bytes, 17);
                assert(v6.ip@ =~= bytes.subrange(1, 17));
            },
            AddressView::DomainNameAddress(name, port) => {
                vstd::utf8::decode_utf8_encode_utf8(name_at(bytes, 1));
                lemma_be16_written(bytes, used - 2);
            },
        }
        assert(bytes.take(used as int) =~= frame_address_bytes(addr));
    }
}

proof fn lemma_payload_read(head: Seq<u8>, data: Seq<u8>, rest: Seq<u8>, target: AddressView)
    requires
        data.len() <= u16::MAX,
    ensures
        payload_at(head + (payload_bytes(data) + rest), head.len(), target) == Parsed::Complete(
            (target, data),
            head.len() + payload_bytes(data).len(),
        ),
{
    let bytes = head + (payload_bytes(data) + rest);
    let at = head.len() as int;
    assert(bytes.subrange(at, at + 2) =~= be16(data.len() as u16));
    lemma_be16_read(bytes, at, data.len() as u16);
    assert(bytes.subrange(at + 2, at + 2 + data.len()) =~= data);
}

/// A frame that was written is read back, whatever follows it: the client reads each reply as it
/// was framed, and one read of the stream need not be one datagram.
pub proof fn law_written_frame_is_read_back(
    mode: ModeView,
    addr: AddressView,
    data: Seq<u8>,
    rest: Seq<u8>,
)
    requires
        mode is PerPacket ==> fits_frame(addr),
        data.len() <= u16::MAX,
    ensures
        frame_at(frame_bytes(mode, addr, data) + rest, mode) == Parsed::Complete(
            (seen_address(mode, addr), data),
            frame_bytes(mode, addr, data).len(),
        ),
{
    let tail = payload_bytes(data) + rest;
    match mode {
        ModeView::PerPacket => {
            let head = frame_address_bytes(addr);
            law_written_address_is_read_back(addr, tail);
            lemma_payload_read(head, data, rest, as_framed(addr));
            assert(frame_bytes(mode, addr, data) + rest =~= head + tail);
        },
        ModeView::Connected(target) => {
            lemma_payload_read(seq![], data, rest, target);
            assert(frame_bytes(mode, addr, data) + rest =~= seq![] + tail);
        },
    }
}

/// What was read as a frame is what writing that datagram gives.
pub proof fn law_read_frame_was_written(bytes: Seq<u8>, mode: ModeView)
    ensures
        frame_at(bytes, mode) matches Parsed::Complete((addr, data), used) ==> {
            &&& mode is PerPacket ==> fits_frame(addr)
            &&& seen_address(mode, addr) == addr
            &&& data.len() <= u16::MAX
            &&& used <= bytes.len()
            &&& bytes.take(used as int) == frame_bytes(mode, addr, data)
        },
{
    if let Parsed::Complete((addr, data), used) = frame_at(bytes, mode) {
        law_read_address_was_written(bytes);
        let at = used - 2 - data.len();
        lemma_be16_written(bytes, at);
        assert(be16_at(bytes, at) == data.len() as u16);
        if mode is PerPacket {
            assert(bytes.take(at) == frame_address_bytes(addr));
            assert(bytes.take(used as int) =~= bytes.take(at) + payload_bytes(data));
        } else {
            assert(bytes.take(used as int) =~= payload_bytes(data));
        }
    }
}

proof fn lemma_address_settled(bytes: Seq<u8>, more: Seq<u8>)
    requires
        frame_address_at(bytes) !is Incomplete,
    ensures
        frame_address_at(bytes + more) == frame_address_at(bytes),
{
    let longer = bytes + more;
    assert(longer[0] == bytes[0]);
    if bytes[0] == UOT_ATYP_DOMAIN {
        assert(longer[1] == bytes[1]);
        assert(name_at(longer, 1) =~= name_at(bytes, 1));
    } else if bytes.len() >= 19 {
        assert(octets16_at(longer, 1) =~= octets16_at(bytes, 1));
    }
    if bytes.len() >= 7 {
        assert(octets4_at(longer, 1) =~= octets4_at(bytes, 1));
    }
}

/// Bytes that come later do not change a frame that is already there, nor mend a malformed one.
pub proof fn law_more_bytes_change_no_frame(bytes: Seq<u8>, more: Seq<u8>, mode: ModeView)
    requires
        frame_at(bytes, mode) !is Incomplete,
    ensures
        frame_at(bytes + more, mode) == frame_at(bytes, mode),
{
    let longer = bytes + more;
    if mode is PerPacket {
        lemma_address_settled(bytes, more);
    }
    if let Parsed::Complete((addr, data), used) = frame_at(bytes, mode) {
        let at = used - 2 - data.len();
        assert(longer[at] == bytes[at] && longer[at + 1] == bytes[at + 1]);
        assert(longer.subrange(at + 2, used as int) =~= bytes.subrange(at + 2, used as int));
    }
}

proof fn lemma_frame_has_no_shorter_one(
    part: Seq<u8>,
    rest: Seq<u8>,
    mode: ModeView,
    datagram: (AddressView, Seq<u8>),
)
    requires
        rest.len() > 0,
        frame_at(part + rest, mode) == Parsed::Complete(datagram, (part + rest).len()),
    ensures
        frame_at(part, mode) is Incomplete,
{
    if frame_at(part, mode) !is Incomplete {
        law_more_bytes_change_no_frame(part, rest, mode);
        law_read_frame_was_written(part, mode);
    }
}

/// What a frame breaks off in if only its first `cut` bytes have come: the ATYP, the length of a
/// domain name and the length of the payload are numbers, and all else is a run of bytes.
pub open spec fn frame_eof(mode: ModeView, addr: AddressView, cut: int) -> Eof {
    let head = match mode {
        ModeView::PerPacket => frame_address_bytes(addr).len(),
        ModeView::Connected(_) => 0,
    };
    if head <= cut < head + 2 || cut == 0 || (cut == 1 && addr is DomainNameAddress && mode
        is PerPacket) {
        Eof::Number
    } else {
        Eof::Bytes
    }
}

proof fn lemma_frame_eof(mode: ModeView, addr: AddressView, data: Seq<u8>, cut: int)
    requires
        mode is PerPacket ==> fits_frame(addr),
        data.len() <= u16::MAX,
        0 <= cut < frame_bytes(mode, addr, data).len(),
        frame_at(frame_bytes(mode, addr, data).take(cut), mode) is Incomplete,
    ensures
        frame_at(frame_bytes(mode, addr, data).take(cut), mode) == Parsed::<
            (AddressView, Seq<u8>),
        >::Incomplete(frame_eof(mode, addr, cut)),
{
    let part = frame_bytes(mode, addr, data).take(cut);
    if mode is PerPacket {
        let head = frame_address_bytes(addr);
        if cut >= head.len() {
            law_written_address_is_read_back(addr, part.skip(head.len() as int));
            assert(head + part.skip(head.len() as int) =~= part);
        }
    }
}

/// A part of a frame is no frame: as long as bytes are missing at its end, more are awaited, and if
/// none come, it broke off in what [`frame_eof`] says.
pub proof fn law_partial_frame_is_incomplete(
    mode: ModeView,
    addr: AddressView,
    data: Seq<u8>,
    cut: int,
)
    requires
        mode is PerPacket ==> fits_frame(addr),
        data.len() <= u16::MAX,
        0 <= cut < frame_bytes(mode, addr, data).len(),
    ensures
        frame_at(frame_bytes(mode, addr, data).take(cut), mode) == Parsed::<
            (AddressView, Seq<u8>),
        >::Incomplete(frame_eof(mode, addr, cut)),
{
    let frame = frame_bytes(mode, addr, data);
    law_written_frame_is_read_back(mode, addr, data, seq![]);
    assert(frame + seq![] =~= frame);
    assert(frame.take(cut) + frame.skip(cut) =~= frame);
    lemma_frame_has_no_shorter_one(
        frame.take(cut),
        frame.skip(cut),
        mode,
        (seen_address(mode, addr), data),
    );
    lemma_frame_eof(mode, addr, data, cut);
}

/// The bytes held back for an unfinished frame are bounded.
pub proof fn law_unfinished_frame_is_bounded(bytes: Seq<u8>, mode: ModeView)
    requires
        frame_at(bytes, mode) is Incomplete,
    ensures
        bytes.len() < max_frame_len(),
{
}

/// A frame address starts with one of the three frame ATYPs; every other first byte, the SOCKS5
/// ones for domain names and IPv6 among them, is refused at once.
pub proof fn law_other_atyps_are_refused(bytes: Seq<u8>)
    requires
        bytes.len() >= 1,
        bytes[0] > UOT_ATYP_DOMAIN,
    ensures
        frame_at(bytes, ModeView::PerPacket) == Parsed::<(AddressView, Seq<u8>)>::Malformed(
            UotErrorView::UnknownAtyp(bytes[0]),
            1,
        ),
{
}

} // verus!
