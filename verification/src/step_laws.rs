//! Laws of single steps: what each event makes an uplink or a downlink do, and what it leaves as it
//! was.

use vstd::prelude::*;

use crate::address::{unmapped, AddrFamily, AddressView, SocketAddr};
use crate::downlink::{
    downlink_new, downlink_step, socket_open, DownlinkActionView, DownlinkEventView, DownlinkView,
    PhaseView,
};
use crate::downlink_laws::downlink_after;
use crate::error::UotErrorView;
use crate::magic::UotVersion;
use crate::outbound::{outbound_addr, IpStackCapabilities};
use crate::request::request_at;
use crate::stream::{frame_reading, request_reading, Progress};
use crate::uplink::{
    uplink_new, uplink_step, UplinkActionView, UplinkEventView, UplinkStageView, UplinkView,
};
use crate::wire::{frame_at, frame_bytes, ModeView, Parsed};

verus! {

/// An item that is there is read, and what follows it is left. A malformed one is an error. One that
/// is not complete is awaited, unless the stream has ended: then it is an error, and nothing is left.
pub proof fn law_request_reading(bytes: Seq<u8>, closed: bool)
    ensures
        match request_at(bytes) {
            Parsed::Complete(mode, used) => {
                &&& request_reading(bytes, closed).result == Ok::<_, UotErrorView>(
                    Progress::Ready(mode),
                )
                &&& request_reading(bytes, closed).rest == bytes.skip(used as int)
            },
            Parsed::Malformed(error, used) => {
                &&& request_reading(bytes, closed).result == Err::<Progress<ModeView>, _>(error)
                &&& request_reading(bytes, closed).rest == bytes.skip(used as int)
            },
            Parsed::Incomplete(eof) => if closed {
                &&& request_reading(bytes, closed).result == Err::<Progress<ModeView>, _>(
                    UotErrorView::UnexpectedEof(eof),
                )
                &&& request_reading(bytes, closed).rest.len() == 0
            } else {
                &&& request_reading(bytes, closed).result is Ok
                &&& request_reading(bytes, closed).result->Ok_0 is Pending
                &&& request_reading(bytes, closed).rest == bytes
            },
        },
{
}

/// The same of a frame, but that the end of the stream where a frame would start is no error: there
/// is no further datagram.
pub proof fn law_frame_reading(bytes: Seq<u8>, closed: bool, mode: ModeView)
    ensures
        closed && bytes.len() == 0 ==> {
            &&& frame_reading(bytes, closed, mode).result == Ok::<_, UotErrorView>(
                Progress::Ready(None::<(AddressView, Seq<u8>)>),
            )
            &&& frame_reading(bytes, closed, mode).rest.len() == 0
        },
        !(closed && bytes.len() == 0) ==> match frame_at(bytes, mode) {
            Parsed::Complete(datagram, used) => {
                &&& frame_reading(bytes, closed, mode).result == Ok::<_, UotErrorView>(
                    Progress::Ready(Some(datagram)),
                )
                &&& frame_reading(bytes, closed, mode).rest == bytes.skip(used as int)
            },
            Parsed::Malformed(error, used) => {
                &&& frame_reading(bytes, closed, mode).result is Err
                &&& frame_reading(bytes, closed, mode).result->Err_0 == error
                &&& frame_reading(bytes, closed, mode).rest == bytes.skip(used as int)
            },
            Parsed::Incomplete(eof) => if closed {
                &&& frame_reading(bytes, closed, mode).result is Err
                &&& frame_reading(bytes, closed, mode).result->Err_0
                    == UotErrorView::UnexpectedEof(eof)
                &&& frame_reading(bytes, closed, mode).rest.len() == 0
            } else {
                &&& frame_reading(bytes, closed, mode).result is Ok
                &&& frame_reading(bytes, closed, mode).result->Ok_0 is Pending
                &&& frame_reading(bytes, closed, mode).rest == bytes
            },
        },
{
}

/// An uplink starts in the version that was asked for, with nothing read.
pub proof fn law_new_uplink(version: UotVersion)
    ensures
        uplink_new(version).stage == UplinkStageView::Opening(version),
        uplink_new(version).unread.len() == 0,
        !uplink_new(version).closed,
{
}

/// A tunnel of version 1 needs no request header: frames that carry their addresses follow at once,
/// and no byte is lost on the way.
pub proof fn law_v1_uplink_opens(unread: Seq<u8>, closed: bool, bytes: Seq<u8>)
    ensures
        ({
            let state = UplinkView {
                stage: UplinkStageView::Opening(UotVersion::V1),
                unread,
                closed,
            };
            let establish = UplinkActionView::Establish(ModeView::PerPacket);
            let stage = UplinkStageView::Relaying(ModeView::PerPacket);
            &&& uplink_step(state, UplinkEventView::Start) == (
                UplinkView { stage, unread, closed },
                establish,
            )
            &&& uplink_step(state, UplinkEventView::Forwarded(true)) == (
                UplinkView { stage, unread, closed },
                establish,
            )
            &&& uplink_step(state, UplinkEventView::Received(bytes)) == (
                UplinkView { stage, unread: unread + bytes, closed },
                establish,
            )
            &&& uplink_step(state, UplinkEventView::Closed) == (
                UplinkView { stage, unread, closed: true },
                establish,
            )
        }),
{
}

/// A tunnel of version 2 is established in the mode of its request header, as soon as that is there,
/// and fails with the error of the header, if that is malformed or cut off by the end of the stream.
pub proof fn law_v2_uplink_opens(state: UplinkView, event: UplinkEventView)
    requires
        state.stage == UplinkStageView::Opening(UotVersion::V2),
        event != UplinkEventView::Forwarded(false),
    ensures
        ({
            let unread = match event {
                UplinkEventView::Received(bytes) => state.unread + bytes,
                _ => state.unread,
            };
            let closed = state.closed || event is Closed;
            let (next, action) = uplink_step(state, event);
            &&& next.closed == closed
            &&& match request_at(unread) {
                Parsed::Complete(mode, used) => {
                    &&& action == UplinkActionView::Establish(mode)
                    &&& next.stage == UplinkStageView::Relaying(mode)
                    &&& next.unread == unread.skip(used as int)
                },
                Parsed::Malformed(error, used) => {
                    &&& action == UplinkActionView::Finish(Err(error))
                    &&& next.stage is Finished
                },
                Parsed::Incomplete(eof) => if closed {
                    &&& action == UplinkActionView::Finish(Err(UotErrorView::UnexpectedEof(eof)))
                    &&& next.stage is Finished
                } else {
                    &&& action is Read
                    &&& next.stage == state.stage
                    &&& next.unread == unread
                },
            }
        }),
{
    law_request_reading(
        match event {
            UplinkEventView::Received(bytes) => state.unread + bytes,
            _ => state.unread,
        },
        state.closed || event is Closed,
    );
}

/// A tunnel that is established forwards each frame as soon as it is there, with what follows it
/// left to be read. It ends without an error where the stream ends and no frame has begun, and with
/// one where a frame is malformed or cut off by the end of the stream.
pub proof fn law_uplink_relays(state: UplinkView, event: UplinkEventView, mode: ModeView)
    requires
        state.stage == UplinkStageView::Relaying(mode),
        event != UplinkEventView::Forwarded(false),
    ensures
        ({
            let unread = match event {
                UplinkEventView::Received(bytes) => state.unread + bytes,
                _ => state.unread,
            };
            let closed = state.closed || event is Closed;
            let (next, action) = uplink_step(state, event);
            &&& next.closed == closed
            &&& if closed && unread.len() == 0 {
                action == UplinkActionView::Finish(Ok(())) && next.stage is Finished
            } else {
                match frame_at(unread, mode) {
                    Parsed::Complete(datagram, used) => {
                        &&& action == UplinkActionView::Forward(datagram)
                        &&& next.stage == state.stage
                        &&& next.unread == unread.skip(used as int)
                    },
                    Parsed::Malformed(error, used) => {
                        &&& action == UplinkActionView::Finish(Err(error))
                        &&& next.stage is Finished
                    },
                    Parsed::Incomplete(eof) => if closed {
                        &&& action == UplinkActionView::Finish(
                            Err(UotErrorView::UnexpectedEof(eof)),
                        )
                        &&& next.stage is Finished
                    } else {
                        &&& action is Read
                        &&& next.stage == state.stage
                        &&& next.unread == unread
                    },
                }
            }
        }),
{
    law_frame_reading(
        match event {
            UplinkEventView::Received(bytes) => state.unread + bytes,
            _ => state.unread,
        },
        state.closed || event is Closed,
        mode,
    );
}

/// An uplink that has ended, or whose datagram the downlink did not take, ends without an error and
/// stays so.
pub proof fn law_uplink_ends(state: UplinkView, event: UplinkEventView)
    requires
        state.stage is Finished || event == UplinkEventView::Forwarded(false),
    ensures
        uplink_step(state, event).1 == UplinkActionView::Finish(Ok(())),
        uplink_step(state, event).0.stage is Finished,
{
}

/// A downlink starts idle and without sockets.
pub proof fn law_new_downlink(mode: ModeView, caps: IpStackCapabilities)
    ensures
        downlink_new(mode, caps).phase is Idle,
        downlink_new(mode, caps).mode == mode,
        downlink_new(mode, caps).caps == caps,
        !downlink_new(mode, caps).ipv4_open,
        !downlink_new(mode, caps).ipv6_open,
{
}

/// The socket of a family is that of no other.
pub proof fn law_socket_of_a_family(state: DownlinkView)
    ensures
        socket_open(state, AddrFamily::Ipv4) == state.ipv4_open,
        socket_open(state, AddrFamily::Ipv6) == state.ipv6_open,
{
}

/// An idle downlink asks about each datagram of the uplink before anything else, and ends once the
/// uplink is done.
pub proof fn law_idle_downlink_and_the_uplink(
    state: DownlinkView,
    target: AddressView,
    data: Seq<u8>,
)
    requires
        state.phase is Idle,
    ensures
        downlink_step(state, DownlinkEventView::Packet(target, data)) == (
            DownlinkView { phase: PhaseView::Checking(target, data), ..state },
            DownlinkActionView::Check(target),
        ),
        downlink_step(state, DownlinkEventView::UplinkDone) == (
            DownlinkView { phase: PhaseView::Finished, ..state },
            DownlinkActionView::Finish(true),
        ),
{
}

/// An idle downlink frames each reply for the client, in every mode and whichever socket it came
/// from, unless it is too large. Nothing but the phase changes.
pub proof fn law_idle_downlink_and_the_remote(state: DownlinkView, source: SocketAddr, data: Seq<u8>)
    requires
        state.phase is Idle,
    ensures
        data.len() <= 65535 ==> downlink_step(state, DownlinkEventView::Received(source, data)) == (
            DownlinkView { phase: PhaseView::Writing, ..state },
            DownlinkActionView::Write(
                frame_bytes(state.mode, AddressView::SocketAddress(unmapped(source)), data),
            ),
        ),
        data.len() > 65535 ==> downlink_step(state, DownlinkEventView::Received(source, data)) == (
            state,
            DownlinkActionView::Wait,
        ),
{
}

/// Where receiving fails, the socket of that family is dropped, and the other is kept.
pub proof fn law_failed_receive_drops_one_socket(state: DownlinkView)
    requires
        state.phase is Idle,
    ensures
        downlink_step(state, DownlinkEventView::ReceiveFailed(AddrFamily::Ipv4)) == (
            DownlinkView { ipv4_open: false, ..state },
            DownlinkActionView::Close(AddrFamily::Ipv4),
        ),
        downlink_step(state, DownlinkEventView::ReceiveFailed(AddrFamily::Ipv6)) == (
            DownlinkView { ipv6_open: false, ..state },
            DownlinkActionView::Close(AddrFamily::Ipv6),
        ),
{
}

/// After a frame was written a downlink is idle again, in every mode, and ready for the next reply
/// and the next datagram; nothing else changes. Only a failed write ends the tunnel.
pub proof fn law_written_downlink_goes_on(state: DownlinkView)
    requires
        state.phase is Writing,
    ensures
        downlink_step(state, DownlinkEventView::Written(true)) == (
            DownlinkView { phase: PhaseView::Idle, ..state },
            DownlinkActionView::Wait,
        ),
        downlink_step(state, DownlinkEventView::Written(false)) == (
            DownlinkView { phase: PhaseView::Finished, ..state },
            DownlinkActionView::Finish(false),
        ),
{
}

/// A datagram that is blocked leaves the downlink idle; one for a domain name that is not has the
/// name looked up, with its own port. Nothing but the phase changes.
pub proof fn law_checked_downlink(
    state: DownlinkView,
    target: AddressView,
    name: Seq<char>,
    port: u16,
    data: Seq<u8>,
)
    ensures
        state.phase == PhaseView::Checking(target, data) ==> downlink_step(
            state,
            DownlinkEventView::Checked(true),
        ) == (DownlinkView { phase: PhaseView::Idle, ..state }, DownlinkActionView::Wait),
        state.phase == PhaseView::Checking(AddressView::DomainNameAddress(name, port), data)
            ==> downlink_step(state, DownlinkEventView::Checked(false)) == (
            DownlinkView { phase: PhaseView::Resolving(data), ..state },
            DownlinkActionView::Resolve(name, port),
        ),
{
}

/// A datagram that is not blocked is sent to its address, or, where it is for a domain name, to
/// each address that the name resolves to, with any capabilities: at once where there is a socket of
/// the family of the outbound address, and after one was created where there is none.
pub proof fn law_addressed_datagram_is_sent(
    state: DownlinkView,
    addr: SocketAddr,
    data: Seq<u8>,
    several: bool,
)
    requires
        several ==> state.phase == PhaseView::Resolving(data),
        !several ==> state.phase == PhaseView::Checking(AddressView::SocketAddress(addr), data),
    ensures
        ({
            let event = if several {
                DownlinkEventView::Resolved(addr)
            } else {
                DownlinkEventView::Checked(false)
            };
            let target = outbound_addr(state.caps, addr);
            let sending = PhaseView::Sending(target, data, several);
            let opening = PhaseView::Opening(target, data, several);
            let (next, action) = downlink_step(state, event);
            match target {
                SocketAddr::V4(_) => if state.ipv4_open {
                    &&& action == DownlinkActionView::Send(target)
                    &&& next == (DownlinkView { phase: sending, ..state })
                } else {
                    &&& action == DownlinkActionView::Open(AddrFamily::Ipv4)
                    &&& next == (DownlinkView { phase: opening, ..state })
                    &&& downlink_step(next, DownlinkEventView::Opened(true)) == (
                        DownlinkView { phase: sending, ipv4_open: true, ..state },
                        DownlinkActionView::Send(target),
                    )
                },
                SocketAddr::V6(_) => if state.ipv6_open {
                    &&& action == DownlinkActionView::Send(target)
                    &&& next == (DownlinkView { phase: sending, ..state })
                } else {
                    &&& action == DownlinkActionView::Open(AddrFamily::Ipv6)
                    &&& next == (DownlinkView { phase: opening, ..state })
                    &&& downlink_step(next, DownlinkEventView::Opened(true)) == (
                        DownlinkView { phase: sending, ipv6_open: true, ..state },
                        DownlinkActionView::Send(target),
                    )
                },
            }
        }),
{
}

/// A socket that was created is there for the family of the target alone, and the datagram is sent
/// from it.
pub proof fn law_opened_socket_is_used(
    state: DownlinkView,
    target: SocketAddr,
    data: Seq<u8>,
    several: bool,
)
    requires
        state.phase == PhaseView::Opening(target, data, several),
    ensures
        ({
            let phase = PhaseView::Sending(target, data, several);
            downlink_step(state, DownlinkEventView::Opened(true)) == (
                match target {
                    SocketAddr::V4(_) => DownlinkView { phase, ipv4_open: true, ..state },
                    SocketAddr::V6(_) => DownlinkView { phase, ipv6_open: true, ..state },
                },
                DownlinkActionView::Send(target),
            )
        }),
{
}

/// Where a socket cannot be created or a datagram cannot be sent, the next address of the domain
/// name is tried with the same datagram; without a domain name, the datagram is lost and the
/// downlink is idle. The sockets are kept either way.
pub proof fn law_failed_attempt(
    state: DownlinkView,
    target: SocketAddr,
    data: Seq<u8>,
    several: bool,
)
    ensures
        ({
            let failed = if several {
                (
                    DownlinkView { phase: PhaseView::Resolving(data), ..state },
                    DownlinkActionView::TryNext,
                )
            } else {
                (DownlinkView { phase: PhaseView::Idle, ..state }, DownlinkActionView::Wait)
            };
            &&& state.phase == PhaseView::Opening(target, data, several) ==> downlink_step(
                state,
                DownlinkEventView::Opened(false),
            ) == failed
            &&& state.phase == PhaseView::Sending(target, data, several) ==> downlink_step(
                state,
                DownlinkEventView::Sent(None),
            ) == failed
        }),
{
}

/// Where a domain name has no further address, the datagram is lost, and the downlink is idle; where
/// a datagram was sent, it is idle too. Nothing but the phase changes.
pub proof fn law_downlink_is_idle_again(
    state: DownlinkView,
    target: SocketAddr,
    data: Seq<u8>,
    several: bool,
    n: usize,
)
    ensures
        state.phase == PhaseView::Resolving(data) ==> downlink_step(
            state,
            DownlinkEventView::Unresolved,
        ) == (DownlinkView { phase: PhaseView::Idle, ..state }, DownlinkActionView::Wait),
        state.phase == PhaseView::Sending(target, data, several) ==> downlink_step(
            state,
            DownlinkEventView::Sent(Some(n)),
        ) == (DownlinkView { phase: PhaseView::Idle, ..state }, DownlinkActionView::Wait),
{
}

/// An event that a downlink does not wait for changes nothing.
pub proof fn law_unexpected_event(state: DownlinkView, event: DownlinkEventView)
    ensures
        match (state.phase, event) {
            (PhaseView::Idle, DownlinkEventView::Packet(_, _)) => true,
            (PhaseView::Idle, DownlinkEventView::UplinkDone) => true,
            (PhaseView::Idle, DownlinkEventView::Received(_, _)) => true,
            (PhaseView::Idle, DownlinkEventView::ReceiveFailed(_)) => true,
            (PhaseView::Checking(_, _), DownlinkEventView::Checked(_)) => true,
            (PhaseView::Resolving(_), DownlinkEventView::Resolved(_)) => true,
            (PhaseView::Resolving(_), DownlinkEventView::Unresolved) => true,
            (PhaseView::Opening(_, _, _), DownlinkEventView::Opened(_)) => true,
            (PhaseView::Sending(_, _, _), DownlinkEventView::Sent(_)) => true,
            (PhaseView::Writing, DownlinkEventView::Written(_)) => true,
            _ => downlink_step(state, event) == (state, DownlinkActionView::Unexpected),
        },
{
}

/// Replies and the news that they were written, in turn.
pub open spec fn reply_turns(list: Seq<(SocketAddr, Seq<u8>)>) -> Seq<DownlinkEventView> {
    Seq::new(
        2 * list.len(),
        |i: int|
            if i % 2 == 0 {
                DownlinkEventView::Received(list[i / 2].0, list[i / 2].1)
            } else {
                DownlinkEventView::Written(true)
            },
    )
}

/// However many replies have been written, the downlink is as it was before the first, and writes
/// the frame of the next, in every mode.
pub proof fn law_every_reply_is_written(
    state: DownlinkView,
    list: Seq<(SocketAddr, Seq<u8>)>,
    k: int,
)
    requires
        state.phase is Idle,
        forall|i: int| 0 <= i < list.len() ==> (#[trigger] list[i]).1.len() <= 65535,
        0 <= k <= list.len(),
    ensures
        downlink_after(state, reply_turns(list).take(2 * k)) == state,
        k < list.len() ==> {
            &&& reply_turns(list)[2 * k] == DownlinkEventView::Received(list[k].0, list[k].1)
            &&& reply_turns(list)[2 * k + 1] == DownlinkEventView::Written(true)
            &&& downlink_step(
                downlink_after(state, reply_turns(list).take(2 * k)),
                reply_turns(list)[2 * k],
            ).1 == DownlinkActionView::Write(
                frame_bytes(
                    state.mode,
                    AddressView::SocketAddress(unmapped(list[k].0)),
                    list[k].1,
                ),
            )
        },
    decreases k,
{
    let events = reply_turns(list);
    if k == 0 {
        assert(events.take(0) =~= seq![]);
    } else {
        law_every_reply_is_written(state, list, k - 1);
        let (source, data) = list[k - 1];
        assert(data.len() <= 65535);
        assert(events.take(2 * k).drop_last() =~= events.take(2 * k - 1));
        assert(events.take(2 * k - 1).drop_last() =~= events.take(2 * (k - 1)));
        assert(events.take(2 * k).last() == events[2 * k - 1]);
        assert(events.take(2 * k - 1).last() == events[2 * (k - 1)]);
        law_idle_downlink_and_the_remote(state, source, data);
        let writing = DownlinkView { phase: PhaseView::Writing, ..state };
        assert(downlink_after(state, events.take(2 * k - 1)) == writing);
        law_written_downlink_goes_on(writing);
        assert(DownlinkView { phase: PhaseView::Idle, ..writing } == state);
        assert(downlink_after(state, events.take(2 * k)) == state);
    }
    if k < list.len() {
        assert(list[k].1.len() <= 65535);
        law_idle_downlink_and_the_remote(state, list[k].0, list[k].1);
    }
}

/// Datagrams of the uplink that are not blocked, and the news that they were sent, in turn.
pub open spec fn send_turns(list: Seq<(SocketAddr, Seq<u8>)>) -> Seq<DownlinkEventView> {
    Seq::new(
        3 * list.len(),
        |i: int|
            if i % 3 == 0 {
                DownlinkEventView::Packet(
                    AddressView::SocketAddress(list[i / 3].0),
                    list[i / 3].1,
                )
            } else if i % 3 == 1 {
                DownlinkEventView::Checked(false)
            } else {
                DownlinkEventView::Sent(Some(0))
            },
    )
}

/// With both sockets there, however many datagrams have been sent, the downlink is as it was before
/// the first, and sends the next to its outbound address, in every mode and with any capabilities.
pub proof fn law_every_datagram_is_sent(
    state: DownlinkView,
    list: Seq<(SocketAddr, Seq<u8>)>,
    k: int,
)
    requires
        state.phase is Idle,
        state.ipv4_open,
        state.ipv6_open,
        0 <= k <= list.len(),
    ensures
        downlink_after(state, send_turns(list).take(3 * k)) == state,
        k < list.len() ==> {
            let target = outbound_addr(state.caps, list[k].0);
            let asked = downlink_step(state, send_turns(list)[3 * k]).0;
            downlink_step(asked, send_turns(list)[3 * k + 1]) == (
                DownlinkView { phase: PhaseView::Sending(target, list[k].1, false), ..state },
                DownlinkActionView::Send(target),
            )
        },
    decreases k,
{
    let events = send_turns(list);
    if k == 0 {
        assert(events.take(0) =~= seq![]);
    } else {
        law_every_datagram_is_sent(state, list, k - 1);
        assert(events.take(3 * k).drop_last() =~= events.take(3 * k - 1));
        assert(events.take(3 * k - 1).drop_last() =~= events.take(3 * k - 2));
        assert(events.take(3 * k - 2).drop_last() =~= events.take(3 * (k - 1)));
        assert(events.take(3 * k).last() == events[3 * k - 1]);
        assert(events.take(3 * k - 1).last() == events[3 * k - 2]);
        assert(events.take(3 * k - 2).last() == events[3 * (k - 1)]);
        let (addr, data) = list[k - 1];
        let target = outbound_addr(state.caps, addr);
        let asked = DownlinkView {
            phase: PhaseView::Checking(AddressView::SocketAddress(addr), data),
            ..state
        };
        let sending = DownlinkView { phase: PhaseView::Sending(target, data, false), ..state };
        assert(downlink_after(state, events.take(3 * k - 2)) == asked);
        law_addressed_datagram_is_sent(asked, addr, data, false);
        assert(downlink_after(state, events.take(3 * k - 1)) == sending);
        assert(downlink_after(state, events.take(3 * k)) == state);
    }
}

} // verus!
