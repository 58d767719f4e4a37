//! Laws of whole tunnels: an uplink, and the downlink that gets its datagrams.

use vstd::prelude::*;

use crate::address::{unmapped, AddressView, SocketAddr};
use crate::downlink::{
    downlink_new, downlink_step, DownlinkActionView, DownlinkEventView, DownlinkView, PhaseView,
};
use crate::downlink_laws::{law_allowed_datagram_is_sent, law_client_reads_the_reply};
use crate::magic::UotVersion;
use crate::outbound::{outbound_addr, IpStackCapabilities};
use crate::outbound_laws::law_reply_comes_from_the_target;
use crate::request::requested_mode;
use crate::request_laws::request_bytes;
use crate::uplink::{uplink_new, UplinkEventView};
use crate::uplink_laws::{
    driven, frames_bytes, law_tunnel_forwards_what_was_framed,
    law_v2_tunnel_forwards_what_was_framed, seen_datagrams, Relayed,
};
use crate::wire::{frame_at, frame_bytes, ModeView, Parsed};
use crate::wire_laws::{as_framed, fits_frame, seen_address};

verus! {

/// What a downlink does in the end with a datagram that is not blocked, if creating a socket and
/// sending succeed and the remote sends the same data back.
pub open spec fn echoed(state: DownlinkView, target: AddressView, data: Seq<u8>) -> (
    DownlinkView,
    DownlinkActionView,
) {
    let packet = DownlinkEventView::Packet(target, data);
    let checking = downlink_step(state, packet).0;
    let allowed = downlink_step(checking, DownlinkEventView::Checked(false)).0;
    let sending = if allowed.phase is Opening {
        downlink_step(allowed, DownlinkEventView::Opened(true)).0
    } else {
        allowed
    };
    let sent = downlink_step(sending, DownlinkEventView::Sent(Some(data.len() as usize))).0;
    match sending.phase {
        PhaseView::Sending(remote, payload, _) => downlink_step(
            sent,
            DownlinkEventView::Received(remote, payload),
        ),
        _ => (sent, DownlinkActionView::Unexpected),
    }
}

/// A datagram that the remote echoes comes back to the client: with its data, and, where frames
/// carry addresses, from the address that it was sent to, with an IPv4-mapped address as the IPv4
/// one.
pub proof fn law_echo_comes_back(
    state: DownlinkView,
    target: SocketAddr,
    data: Seq<u8>,
    rest: Seq<u8>,
)
    requires
        state.phase is Idle,
        data.len() <= u16::MAX,
    ensures
        echoed(state, AddressView::SocketAddress(target), data).1
            matches DownlinkActionView::Write(frame) && frame_at(frame + rest, state.mode)
            == Parsed::Complete(
            (seen_address(state.mode, AddressView::SocketAddress(unmapped(target))), data),
            frame.len(),
        ),
{
    let remote = outbound_addr(state.caps, target);
    let packet = DownlinkEventView::Packet(AddressView::SocketAddress(target), data);
    let checking = downlink_step(state, packet).0;
    let allowed = downlink_step(checking, DownlinkEventView::Checked(false)).0;
    let sending = if allowed.phase is Opening {
        downlink_step(allowed, DownlinkEventView::Opened(true)).0
    } else {
        allowed
    };
    law_allowed_datagram_is_sent(state, target, data);
    law_reply_comes_from_the_target(state.caps, target);
    law_client_reads_the_reply(
        downlink_step(sending, DownlinkEventView::Sent(Some(data.len() as usize))).0,
        remote,
        data,
        rest,
    );
}

proof fn lemma_one_datagram(mode: ModeView, addr: AddressView, data: Seq<u8>)
    ensures
        frames_bytes(mode, seq![(addr, data)]) == frame_bytes(mode, addr, data),
        seen_datagrams(mode, seq![(addr, data)]) == seq![(seen_address(mode, addr), data)],
{
    let one = seq![(addr, data)];
    assert(one.drop_first() =~= seq![]);
    assert(frames_bytes(mode, one.drop_first()) =~= seq![]);
    assert(frames_bytes(mode, one) =~= frame_bytes(mode, addr, data));
    assert(seen_datagrams(mode, one) =~= seq![(seen_address(mode, addr), data)]);
}

/// A tunnel of version 1 relays a datagram to the remote that its frame names, and the echo of
/// the remote back to the client.
pub proof fn law_v1_tunnel_relays_both_ways(
    pieces: Seq<Seq<u8>>,
    caps: IpStackCapabilities,
    target: SocketAddr,
    data: Seq<u8>,
    rest: Seq<u8>,
)
    requires
        data.len() <= u16::MAX,
        pieces.flatten() == frame_bytes(
            ModeView::PerPacket,
            AddressView::SocketAddress(target),
            data,
        ),
    ensures
        driven(uplink_new(UotVersion::V1), UplinkEventView::Start, pieces) == (Relayed {
            datagrams: seq![(as_framed(AddressView::SocketAddress(target)), data)],
            end: Ok(()),
        }),
        echoed(
            downlink_new(ModeView::PerPacket, caps),
            as_framed(AddressView::SocketAddress(target)),
            data,
        ).1 matches DownlinkActionView::Write(frame) && frame_at(frame + rest, ModeView::PerPacket)
            == Parsed::Complete(
            (as_framed(AddressView::SocketAddress(unmapped(target))), data),
            frame.len(),
        ),
{
    let addr = AddressView::SocketAddress(target);
    lemma_one_datagram(ModeView::PerPacket, addr, data);
    law_tunnel_forwards_what_was_framed(seq![(addr, data)], pieces);
    if let AddressView::SocketAddress(framed) = as_framed(addr) {
        law_echo_comes_back(downlink_new(ModeView::PerPacket, caps), framed, data, rest);
    }
}

/// A tunnel of version 2 that asks to connect relays a datagram to the remote that the request
/// header names, and the echo of the remote back to the client.
pub proof fn law_v2_connect_tunnel_relays_both_ways(
    pieces: Seq<Seq<u8>>,
    caps: IpStackCapabilities,
    is_connect: u8,
    target: SocketAddr,
    data: Seq<u8>,
    rest: Seq<u8>,
)
    requires
        is_connect != 0,
        data.len() <= u16::MAX,
        pieces.flatten() == request_bytes(is_connect, AddressView::SocketAddress(target))
            + frame_bytes(
            ModeView::Connected(as_framed(AddressView::SocketAddress(target))),
            AddressView::SocketAddress(target),
            data,
        ),
    ensures
        driven(uplink_new(UotVersion::V2), UplinkEventView::Start, pieces) == (Relayed {
            datagrams: seq![(as_framed(AddressView::SocketAddress(target)), data)],
            end: Ok(()),
        }),
        echoed(
            downlink_new(
                ModeView::Connected(as_framed(AddressView::SocketAddress(target))),
                caps,
            ),
            as_framed(AddressView::SocketAddress(target)),
            data,
        ).1 matches DownlinkActionView::Write(frame) && frame_at(
            frame + rest,
            ModeView::Connected(as_framed(AddressView::SocketAddress(target))),
        ) == Parsed::Complete(
            (as_framed(AddressView::SocketAddress(target)), data),
            frame.len(),
        ),
{
    let addr = AddressView::SocketAddress(target);
    let mode = ModeView::Connected(as_framed(addr));
    assert(requested_mode(is_connect, as_framed(addr)) == mode);
    lemma_one_datagram(mode, addr, data);
    law_v2_tunnel_forwards_what_was_framed(is_connect, addr, seq![(addr, data)], pieces);
    if let AddressView::SocketAddress(framed) = as_framed(addr) {
        law_echo_comes_back(downlink_new(mode, caps), framed, data, rest);
    }
}

/// A tunnel of version 2 that does not ask to connect ignores the address in the request header: it
/// relays a datagram to the remote that its frame names, and the echo of the remote back to the
/// client.
pub proof fn law_v2_non_connect_tunnel_relays_both_ways(
    pieces: Seq<Seq<u8>>,
    caps: IpStackCapabilities,
    unused: AddressView,
    target: SocketAddr,
    data: Seq<u8>,
    rest: Seq<u8>,
)
    requires
        fits_frame(unused),
        data.len() <= u16::MAX,
        pieces.flatten() == request_bytes(0, unused) + frame_bytes(
            ModeView::PerPacket,
            AddressView::SocketAddress(target),
            data,
        ),
    ensures
        driven(uplink_new(UotVersion::V2), UplinkEventView::Start, pieces) == (Relayed {
            datagrams: seq![(as_framed(AddressView::SocketAddress(target)), data)],
            end: Ok(()),
        }),
        echoed(
            downlink_new(ModeView::PerPacket, caps),
            as_framed(AddressView::SocketAddress(target)),
            data,
        ).1 matches DownlinkActionView::Write(frame) && frame_at(frame + rest, ModeView::PerPacket)
            == Parsed::Complete(
            (as_framed(AddressView::SocketAddress(unmapped(target))), data),
            frame.len(),
        ),
{
    let addr = AddressView::SocketAddress(target);
    let mode = ModeView::PerPacket;
    assert(requested_mode(0, as_framed(unused)) == mode);
    lemma_one_datagram(mode, addr, data);
    law_v2_tunnel_forwards_what_was_framed(0, unused, seq![(addr, data)], pieces);
    if let AddressView::SocketAddress(framed) = as_framed(addr) {
        law_echo_comes_back(downlink_new(mode, caps), framed, data, rest);
    }
}

} // verus!
