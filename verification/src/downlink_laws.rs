//! Laws of the downlink: what holds of every run of it.

use vstd::prelude::*;

use crate::address::{family_of, unmapped, AddrFamily, AddressView, SocketAddr};
use crate::downlink::{
    downlink_new, downlink_step, socket_open, with_socket, DownlinkActionView, DownlinkEventView,
    DownlinkView, PhaseView,
};
use crate::outbound::{outbound_addr, IpStackCapabilities};
use crate::outbound_laws::law_reply_comes_from_the_target;
use crate::wire::{frame_at, ModeView, Parsed};
use crate::wire_laws::{as_framed, law_written_frame_is_read_back, seen_address};

verus! {

/// The state of a downlink after these events, in this order.
pub open spec fn downlink_after(state: DownlinkView, events: Seq<DownlinkEventView>) -> DownlinkView
    decreases events.len(),
{
    if events.len() == 0 {
        state
    } else {
        downlink_step(downlink_after(state, events.drop_last()), events.last()).0
    }
}

/// The datagram that is on its way out in a phase, if there is one.
pub open spec fn on_its_way(phase: PhaseView) -> Option<Seq<u8>> {
    match phase {
        PhaseView::Resolving(data) => Some(data),
        PhaseView::Opening(_, data, _) => Some(data),
        PhaseView::Sending(_, data, _) => Some(data),
        _ => None,
    }
}

/// The address that a datagram is on its way to in a phase, if it is known already, and whether it
/// is one of several of a domain name.
pub open spec fn heading_for(phase: PhaseView) -> Option<(SocketAddr, bool)> {
    match phase {
        PhaseView::Opening(target, _, several) => Some((target, several)),
        PhaseView::Sending(target, _, several) => Some((target, several)),
        _ => None,
    }
}

/// Whether event `i` let the datagram pass that is on its way after these events: it said that the
/// target of this datagram is not blocked, and the datagram has been on its way ever since.
pub open spec fn passed_at(
    start: DownlinkView,
    events: Seq<DownlinkEventView>,
    i: int,
    target: AddressView,
    data: Seq<u8>,
) -> bool {
    &&& 0 <= i < events.len()
    &&& events[i] == DownlinkEventView::Checked(false)
    &&& downlink_after(start, events.take(i)).phase == PhaseView::Checking(target, data)
    &&& forall|j: int|
        i < j <= events.len() ==> on_its_way(
            (#[trigger] downlink_after(start, events.take(j))).phase,
        ) == Some(data)
}

/// Whether event `k` gave the address that a datagram is on its way to after these events: it was
/// an address of the domain name that was being looked up, and the datagram has been on its way to
/// it ever since.
pub open spec fn resolved_at(
    start: DownlinkView,
    events: Seq<DownlinkEventView>,
    k: int,
    target: SocketAddr,
) -> bool {
    &&& 0 <= k < events.len()
    &&& downlink_after(start, events.take(k)).phase is Resolving
    &&& events[k] matches DownlinkEventView::Resolved(addr) && outbound_addr(start.caps, addr)
        == target
    &&& forall|j: int|
        k < j <= events.len() ==> heading_for(
            (#[trigger] downlink_after(start, events.take(j))).phase,
        ) == Some((target, true))
}

/// Whether a datagram that event `i` let pass for `target` is on its way there: to that address, or
/// to one that the domain name resolved to since, if it is not being looked up.
pub open spec fn on_course(
    start: DownlinkView,
    events: Seq<DownlinkEventView>,
    i: int,
    target: AddressView,
) -> bool {
    let phase = downlink_after(start, events).phase;
    match target {
        AddressView::SocketAddress(addr) => heading_for(phase) == Some(
            (outbound_addr(start.caps, addr), false),
        ),
        AddressView::DomainNameAddress(name, port) => {
            &&& downlink_step(downlink_after(start, events.take(i)), events[i]).1
                == DownlinkActionView::Resolve(name, port)
            &&& phase is Resolving || (heading_for(phase) matches Some(heading) && heading.1
                && exists|k: int| i < k && resolved_at(start, events, k, heading.0))
        },
    }
}

/// Mode and capabilities are settled when a downlink is set up.
pub proof fn law_downlink_keeps_its_settings(state: DownlinkView, event: DownlinkEventView)
    ensures
        downlink_step(state, event).0.mode == state.mode,
        downlink_step(state, event).0.caps == state.caps,
{
}

/// Only the end of the uplink, without an error, and a failed write to the client, with one, end
/// the tunnel. One unreachable destination, a blocked one, a failed lookup, a failed socket or a
/// datagram that is too large does not.
pub proof fn law_only_the_client_ends_the_tunnel(state: DownlinkView, event: DownlinkEventView)
    requires
        state.phase !is Finished,
    ensures
        downlink_step(state, event).0.phase is Finished <==> {
            ||| state.phase is Idle && event is UplinkDone
            ||| state.phase is Writing && event == DownlinkEventView::Written(false)
        },
        downlink_step(state, event).1 == DownlinkActionView::Finish(true) <==> state.phase is Idle
            && event is UplinkDone,
        downlink_step(state, event).1 == DownlinkActionView::Finish(false) <==> state.phase
            is Writing && event == DownlinkEventView::Written(false),
{
}

/// A tunnel that has ended stays so, and does nothing more.
pub proof fn law_ended_downlink_does_nothing(state: DownlinkView, event: DownlinkEventView)
    requires
        state.phase is Finished,
    ensures
        downlink_step(state, event) == (state, DownlinkActionView::Unexpected),
{
}

/// A datagram for a blocked target is dropped: the downlink is as it was before it came.
pub proof fn law_blocked_datagram_is_dropped(
    state: DownlinkView,
    target: AddressView,
    data: Seq<u8>,
)
    requires
        state.phase is Idle,
    ensures
        ({
            let (checking, check) = downlink_step(state, DownlinkEventView::Packet(target, data));
            &&& check == DownlinkActionView::Check(target)
            &&& downlink_step(checking, DownlinkEventView::Checked(true)) == (
                state,
                DownlinkActionView::Wait,
            )
        }),
{
}

/// A datagram too large to frame is dropped: nothing is written, and the downlink is as it was.
pub proof fn law_oversized_reply_is_dropped(
    state: DownlinkView,
    source: SocketAddr,
    data: Seq<u8>,
)
    requires
        state.phase is Idle,
        data.len() > u16::MAX,
    ensures
        downlink_step(state, DownlinkEventView::Received(source, data)) == (
            state,
            DownlinkActionView::Wait,
        ),
{
}

/// A socket is created only where there is none of its family, and so is reused as long as it
/// lasts.
pub proof fn law_socket_is_reused(state: DownlinkView, event: DownlinkEventView, family: AddrFamily)
    requires
        downlink_step(state, event).1 == DownlinkActionView::Open(family),
    ensures
        !socket_open(state, family),
{
}

/// A socket is gone only after receiving from it has failed, and the other one stays; it is there
/// only after it was created.
pub proof fn law_sockets_change_one_by_one(
    state: DownlinkView,
    event: DownlinkEventView,
    family: AddrFamily,
)
    ensures
        socket_open(state, family) && !socket_open(downlink_step(state, event).0, family)
            ==> state.phase is Idle && event == DownlinkEventView::ReceiveFailed(family)
            && downlink_step(state, event) == (
            with_socket(state, family, false),
            DownlinkActionView::Close(family),
        ),
        !socket_open(state, family) && socket_open(downlink_step(state, event).0, family) ==> {
            &&& event == DownlinkEventView::Opened(true)
            &&& state.phase matches PhaseView::Opening(target, _, _) && family_of(target) == family
        },
{
}

/// Whenever a datagram is being sent, there is a socket of the family of its destination.
pub proof fn law_sending_has_a_socket(
    mode: ModeView,
    caps: IpStackCapabilities,
    events: Seq<DownlinkEventView>,
)
    ensures
        downlink_after(downlink_new(mode, caps), events).phase matches PhaseView::Sending(
            target,
            _,
            _,
        ) ==> socket_open(downlink_after(downlink_new(mode, caps), events), family_of(target)),
    decreases events.len(),
{
    if events.len() > 0 {
        law_sending_has_a_socket(mode, caps, events.drop_last());
    }
}

pub(crate) proof fn lemma_settings_last(start: DownlinkView, events: Seq<DownlinkEventView>)
    ensures
        downlink_after(start, events).mode == start.mode,
        downlink_after(start, events).caps == start.caps,
    decreases events.len(),
{
    if events.len() > 0 {
        lemma_settings_last(start, events.drop_last());
    }
}

proof fn lemma_still_passed(
    start: DownlinkView,
    events: Seq<DownlinkEventView>,
    i: int,
    target: AddressView,
    data: Seq<u8>,
)
    requires
        events.len() > 0,
        passed_at(start, events.drop_last(), i, target, data),
        on_its_way(downlink_after(start, events).phase) == Some(data),
    ensures
        passed_at(start, events, i, target, data),
{
    let earlier = events.drop_last();
    assert(events.take(i) =~= earlier.take(i));
    assert forall|j: int| i < j <= events.len() implies on_its_way(
        (#[trigger] downlink_after(start, events.take(j))).phase,
    ) == Some(data) by {
        if j < events.len() {
            assert(events.take(j) =~= earlier.take(j));
        } else {
            assert(events.take(j) =~= events);
        }
    }
}

proof fn lemma_still_resolved(
    start: DownlinkView,
    events: Seq<DownlinkEventView>,
    k: int,
    target: SocketAddr,
)
    requires
        events.len() > 0,
        resolved_at(start, events.drop_last(), k, target),
        heading_for(downlink_after(start, events).phase) == Some((target, true)),
    ensures
        resolved_at(start, events, k, target),
{
    let earlier = events.drop_last();
    assert(events.take(k) =~= earlier.take(k));
    assert forall|j: int| k < j <= events.len() implies heading_for(
        (#[trigger] downlink_after(start, events.take(j))).phase,
    ) == Some((target, true)) by {
        if j < events.len() {
            assert(events.take(j) =~= earlier.take(j));
        } else {
            assert(events.take(j) =~= events);
        }
    }
}

proof fn lemma_passed_now(
    start: DownlinkView,
    events: Seq<DownlinkEventView>,
    target: AddressView,
    data: Seq<u8>,
)
    requires
        events.len() > 0,
        downlink_after(start, events.drop_last()).phase == PhaseView::Checking(target, data),
        events.last() == DownlinkEventView::Checked(false),
    ensures
        passed_at(start, events, events.len() - 1, target, data),
        on_course(start, events, events.len() - 1, target),
{
    let earlier = events.drop_last();
    let i = events.len() - 1;
    lemma_settings_last(start, earlier);
    assert(events.take(i) =~= earlier);
    assert(events.take(i + 1) =~= events);
}

proof fn lemma_still_on_course(
    start: DownlinkView,
    events: Seq<DownlinkEventView>,
    i: int,
    target: AddressView,
    data: Seq<u8>,
)
    requires
        events.len() > 0,
        passed_at(start, events.drop_last(), i, target, data),
        on_course(start, events.drop_last(), i, target),
        on_its_way(downlink_after(start, events).phase) is Some,
    ensures
        on_course(start, events, i, target),
{
    let earlier = events.drop_last();
    let before = downlink_after(start, earlier);
    let now = downlink_after(start, events);
    lemma_settings_last(start, earlier);
    assert(earlier.take(earlier.len() as int) =~= earlier);
    assert(on_its_way(before.phase) == Some(data));
    assert(events.take(i) =~= earlier.take(i));
    if target is DomainNameAddress {
        if let Some((to, several)) = heading_for(now.phase) {
            if before.phase is Resolving {
                let k = events.len() - 1;
                assert(events.take(k) =~= earlier);
                assert(events.take(k + 1) =~= events);
                assert(resolved_at(start, events, k, to));
            } else {
                let k = choose|k: int| i < k && resolved_at(start, earlier, k, to);
                lemma_still_resolved(start, events, k, to);
            }
        }
    }
}

/// A datagram on its way out is one that the access rules let pass, for its own target, and it goes
/// nowhere else: to that address, or to one that its domain name resolved to after it had passed.
pub proof fn law_only_named_addresses_are_sent_to(
    mode: ModeView,
    caps: IpStackCapabilities,
    events: Seq<DownlinkEventView>,
)
    ensures
        on_its_way(downlink_after(downlink_new(mode, caps), events).phase) matches Some(data)
            ==> exists|i: int, target: AddressView|
            #[trigger] passed_at(downlink_new(mode, caps), events, i, target, data) && on_course(
                downlink_new(mode, caps),
                events,
                i,
                target,
            ),
    decreases events.len(),
{
    let start = downlink_new(mode, caps);
    if events.len() > 0 {
        let earlier = events.drop_last();
        law_only_named_addresses_are_sent_to(mode, caps, earlier);
        if let Some(data) = on_its_way(downlink_after(start, events).phase) {
            let before = downlink_after(start, earlier);
            if let PhaseView::Checking(target, checked) = before.phase {
                assert(checked == data);
                lemma_passed_now(start, events, target, data);
            } else {
                assert(on_its_way(before.phase) == Some(data));
                let (i, target) = choose|i: int, target: AddressView|
                    #[trigger] passed_at(start, earlier, i, target, data) && on_course(
                        start,
                        earlier,
                        i,
                        target,
                    );
                lemma_still_passed(start, events, i, target, data);
                lemma_still_on_course(start, events, i, target, data);
            }
        }
    }
}

/// A datagram on its way out is one that the access rules let pass: they were asked about this
/// datagram and its target, found it not to be blocked, and it has been on its way ever since.
pub proof fn law_only_allowed_datagrams_are_sent(
    mode: ModeView,
    caps: IpStackCapabilities,
    events: Seq<DownlinkEventView>,
)
    ensures
        on_its_way(downlink_after(downlink_new(mode, caps), events).phase) matches Some(data)
            ==> exists|i: int, target: AddressView|
            passed_at(downlink_new(mode, caps), events, i, target, data),
{
    law_only_named_addresses_are_sent_to(mode, caps, events);
}

/// Whether event `i` handed over the datagram that the access rules are asked about after these
/// events: it found the downlink idle, and they have been asked about nothing else since.
pub open spec fn handed_over_at(
    start: DownlinkView,
    events: Seq<DownlinkEventView>,
    i: int,
    target: AddressView,
    data: Seq<u8>,
) -> bool {
    &&& 0 <= i < events.len()
    &&& events[i] == DownlinkEventView::Packet(target, data)
    &&& downlink_after(start, events.take(i)).phase is Idle
    &&& forall|j: int|
        i < j <= events.len() ==> (#[trigger] downlink_after(start, events.take(j))).phase
            == PhaseView::Checking(target, data)
}

/// What the access rules are asked about is what the uplink handed over last.
pub proof fn law_only_handed_over_datagrams_are_checked(
    mode: ModeView,
    caps: IpStackCapabilities,
    events: Seq<DownlinkEventView>,
)
    ensures
        downlink_after(downlink_new(mode, caps), events).phase matches PhaseView::Checking(
            target,
            data,
        ) ==> exists|i: int| handed_over_at(downlink_new(mode, caps), events, i, target, data),
    decreases events.len(),
{
    let start = downlink_new(mode, caps);
    if events.len() > 0 {
        let earlier = events.drop_last();
        law_only_handed_over_datagrams_are_checked(mode, caps, earlier);
        if let PhaseView::Checking(target, data) = downlink_after(start, events).phase {
            let i = if downlink_after(start, earlier).phase is Idle {
                events.len() - 1
            } else {
                choose|i: int| handed_over_at(start, earlier, i, target, data)
            };
            assert(events.take(i) =~= earlier.take(i));
            assert(earlier.take(earlier.len() as int) =~= earlier);
            assert forall|j: int| i < j <= events.len() implies (#[trigger] downlink_after(
                start,
                events.take(j),
            )).phase == PhaseView::Checking(target, data) by {
                if j < events.len() {
                    assert(events.take(j) =~= earlier.take(j));
                } else {
                    assert(events.take(j) =~= events);
                }
            }
            assert(handed_over_at(start, events, i, target, data));
        }
    }
}

/// The client reads a reply as it was received: the data, and, where frames carry addresses, the
/// source, with an IPv4-mapped address as the IPv4 one.
pub proof fn law_client_reads_the_reply(
    state: DownlinkView,
    source: SocketAddr,
    data: Seq<u8>,
    rest: Seq<u8>,
)
    requires
        state.phase is Idle,
        data.len() <= u16::MAX,
    ensures
        downlink_step(state, DownlinkEventView::Received(source, data)).1
            matches DownlinkActionView::Write(frame) && frame_at(frame + rest, state.mode)
            == Parsed::Complete(
            (seen_address(state.mode, AddressView::SocketAddress(unmapped(source))), data),
            frame.len(),
        ),
{
    law_written_frame_is_read_back(
        state.mode,
        AddressView::SocketAddress(unmapped(source)),
        data,
        rest,
    );
}

/// A reply from where a datagram was sent to reaches the client under the address that the client
/// sent the datagram to, with an IPv4-mapped address as the IPv4 one.
pub proof fn law_echo_keeps_the_address(
    state: DownlinkView,
    addr: SocketAddr,
    data: Seq<u8>,
    rest: Seq<u8>,
)
    requires
        state.phase is Idle,
        state.mode is PerPacket,
        data.len() <= u16::MAX,
    ensures
        downlink_step(
            state,
            DownlinkEventView::Received(outbound_addr(state.caps, addr), data),
        ).1 matches DownlinkActionView::Write(frame) && frame_at(frame + rest, state.mode)
            == Parsed::Complete(
            (as_framed(AddressView::SocketAddress(unmapped(addr))), data),
            frame.len(),
        ),
{
    law_reply_comes_from_the_target(state.caps, addr);
    law_client_reads_the_reply(state, outbound_addr(state.caps, addr), data, rest);
}

/// A datagram for a socket address that is not blocked is sent to its outbound address, at once
/// if there is a socket of the family, and after one was created otherwise.
pub proof fn law_allowed_datagram_is_sent(state: DownlinkView, addr: SocketAddr, data: Seq<u8>)
    requires
        state.phase is Idle,
    ensures
        ({
            let target = outbound_addr(state.caps, addr);
            let packet = DownlinkEventView::Packet(AddressView::SocketAddress(addr), data);
            let (allowed, action) = downlink_step(
                downlink_step(state, packet).0,
                DownlinkEventView::Checked(false),
            );
            if socket_open(state, family_of(target)) {
                &&& action == DownlinkActionView::Send(target)
                &&& allowed.phase == PhaseView::Sending(target, data, false)
            } else {
                let (opened, send) = downlink_step(allowed, DownlinkEventView::Opened(true));
                &&& action == DownlinkActionView::Open(family_of(target))
                &&& send == DownlinkActionView::Send(target)
                &&& opened.phase == PhaseView::Sending(target, data, false)
            }
        }),
{
}

/// Where an address of a domain name does not take a datagram, the next one is tried with it.
pub proof fn law_next_address_is_tried(state: DownlinkView, target: SocketAddr, data: Seq<u8>)
    requires
        state.phase == PhaseView::Sending(target, data, true) || state.phase == PhaseView::Opening(
            target,
            data,
            true,
        ),
    ensures
        ({
            let failed = if state.phase is Sending {
                DownlinkEventView::Sent(None)
            } else {
                DownlinkEventView::Opened(false)
            };
            let (next, action) = downlink_step(state, failed);
            &&& action == DownlinkActionView::TryNext
            &&& next.phase == PhaseView::Resolving(data)
        }),
{
}

/// A datagram that was sent is done with, also if fewer bytes of it than expected were sent: no
/// further address is tried.
pub proof fn law_short_send_counts_as_sent(
    state: DownlinkView,
    target: SocketAddr,
    data: Seq<u8>,
    several: bool,
    n: usize,
)
    requires
        state.phase == PhaseView::Sending(target, data, several),
    ensures
        downlink_step(state, DownlinkEventView::Sent(Some(n))) == (
            DownlinkView { phase: PhaseView::Idle, ..state },
            DownlinkActionView::Wait,
        ),
{
}

} // verus!
