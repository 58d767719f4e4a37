//! Laws of the request header.

use vstd::prelude::*;
use vstd::utf8::encode_utf8;

use crate::address::{AddressView, SocketAddr};
use crate::error::Eof;
use crate::request::{
    request_at, requested_mode, socks5_address_at, SOCKS5_ADDR_TYPE_DOMAIN_NAME,
    SOCKS5_ADDR_TYPE_IPV4, SOCKS5_ADDR_TYPE_IPV6,
};
use crate::wire::{be16, name_at, octets16_at, octets4_at, ModeView, Parsed};
use crate::wire_laws::{as_framed, fits_frame, lemma_be16_read};

verus! {

/// The length of the longest request header: an address with the longest domain name.
pub open spec fn max_request_len() -> nat {
    1 + 2 + 255 + 2
}

/// The bytes of a SOCKS5 address.
pub open spec fn socks5_address_bytes(addr: AddressView) -> Seq<u8> {
    match addr {
        AddressView::SocketAddress(SocketAddr::V4(v4)) => seq![SOCKS5_ADDR_TYPE_IPV4] + v4.ip@
            + be16(v4.port),
        AddressView::SocketAddress(SocketAddr::V6(v6)) => seq![SOCKS5_ADDR_TYPE_IPV6] + v6.ip@
            + be16(v6.port),
        AddressView::DomainNameAddress(name, port) => seq![
            SOCKS5_ADDR_TYPE_DOMAIN_NAME,
            encode_utf8(name).len() as u8,
        ] + encode_utf8(name) + be16(port),
    }
}

/// The bytes of a request header.
pub open spec fn request_bytes(is_connect: u8, target: AddressView) -> Seq<u8> {
    seq![is_connect] + socks5_address_bytes(target)
}

proof fn lemma_socks5_address_read(addr: AddressView, rest: Seq<u8>)
    requires
        fits_frame(addr),
    ensures
        socks5_address_at(socks5_address_bytes(addr) + rest) == Parsed::Complete(
            as_framed(addr),
            socks5_address_bytes(addr).len(),
        ),
{
    let bytes = socks5_address_bytes(addr) + rest;
    match addr {
        AddressView::SocketAddress(SocketAddr::V4(v4)) => {
            assert(octets4_at(bytes, 1) =~= v4.ip);
            assert(bytes.subrange(5, 7) =~= be16(v4.port));
            lemma_be16_read(bytes, 5, v4.port);
        },
        AddressView::SocketAddress(SocketAddr::V6(v6)) => {
            assert(octets16_at(bytes, 1) =~= v6.ip);
            assert(bytes.subrange(17, 19) =~= be16(v6.port));
            lemma_be16_read(bytes, 17, v6.port);
        },
        AddressView::DomainNameAddress(name, port) => {
            let encoded = encode_utf8(name);
            vstd::utf8::encode_utf8_valid_utf8(name);
            vstd::utf8::encode_utf8_decode_utf8(name);
            assert(name_at(bytes, 1) =~= encoded);
            let at = 2 + encoded.len() as int;
            assert(bytes.subrange(at, at + 2) =~= be16(port));
            lemma_be16_read(bytes, at, port);
        },
    }
}

/// A request header that was written is read back, whatever follows it: it selects one fixed
/// destination if it asks to connect, and none if it does not, whatever address it holds.
pub proof fn law_written_request_is_read_back(is_connect: u8, target: AddressView, rest: Seq<u8>)
    requires
        fits_frame(target),
    ensures
        request_at(request_bytes(is_connect, target) + rest) == Parsed::Complete(
            requested_mode(is_connect, as_framed(target)),
            request_bytes(is_connect, target).len(),
        ),
{
    lemma_socks5_address_read(target, rest);
    assert((request_bytes(is_connect, target) + rest).skip(1) =~= socks5_address_bytes(target)
        + rest);
}

/// Bytes that come later do not change a request header that is already there, nor mend a
/// malformed one.
pub proof fn law_more_bytes_change_no_request(bytes: Seq<u8>, more: Seq<u8>)
    requires
        request_at(bytes) !is Incomplete,
    ensures
        request_at(bytes + more) == request_at(bytes),
{
    let short = bytes.skip(1);
    let long = (bytes + more).skip(1);
    assert(long =~= short + more);
    assert(long[0] == short[0]);
    if short[0] == SOCKS5_ADDR_TYPE_DOMAIN_NAME {
        assert(long[1] == short[1]);
        assert(name_at(long, 1) =~= name_at(short, 1));
    } else if short.len() >= 19 {
        assert(octets16_at(long, 1) =~= octets16_at(short, 1));
    }
    if short.len() >= 7 {
        assert(octets4_at(long, 1) =~= octets4_at(short, 1));
    }
}

/// A request header is read from the bytes in front, and from no more than there are.
pub proof fn law_request_is_in_the_bytes(bytes: Seq<u8>)
    ensures
        request_at(bytes) matches Parsed::Complete(_, used) ==> 1 < used <= bytes.len(),
        request_at(bytes) matches Parsed::Malformed(_, used) ==> 1 < used <= bytes.len(),
{
}

/// The bytes held back for an unfinished request header are bounded.
pub proof fn law_unfinished_request_is_bounded(bytes: Seq<u8>)
    requires
        request_at(bytes) is Incomplete,
    ensures
        bytes.len() < max_request_len(),
{
}

/// A part of a request header is none: as long as bytes are missing at its end, more are awaited,
/// and if none come, it broke off in a run of bytes, or in the number that it starts with.
pub proof fn law_partial_request_is_incomplete(is_connect: u8, target: AddressView, cut: int)
    requires
        fits_frame(target),
        0 <= cut < request_bytes(is_connect, target).len(),
    ensures
        request_at(request_bytes(is_connect, target).take(cut)) == Parsed::<ModeView>::Incomplete(
            if cut == 0 {
                Eof::Number
            } else {
                Eof::Bytes
            },
        ),
{
    let header = request_bytes(is_connect, target);
    let part = header.take(cut);
    law_written_request_is_read_back(is_connect, target, seq![]);
    assert(header + seq![] =~= header);
    if request_at(part) !is Incomplete {
        law_more_bytes_change_no_request(part, header.skip(cut));
        assert(part + header.skip(cut) =~= header);
        law_request_is_in_the_bytes(part);
    }
}

} // verus!
