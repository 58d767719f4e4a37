//! Laws of whole runs of the downlink: what it writes, what it lets pass and what it sends.

use vstd::prelude::*;

use crate::address::{unmapped, AddressView};
use crate::downlink::{
    downlink_new, downlink_step, DownlinkActionView, DownlinkEventView, DownlinkView, PhaseView,
};
use crate::downlink_laws::{downlink_after, lemma_settings_last, on_its_way};
use crate::outbound::IpStackCapabilities;
use crate::uplink_laws::{
    all_fit, frames_bytes, frames_relayed, law_coalesced_frames, lemma_no_frame, seen_datagrams,
    Relayed,
};
use crate::wire::{frame_bytes, ModeView};

verus! {

/// A sequence with one more item at its end, if there is one.
pub open spec fn extended<A>(items: Seq<A>, item: Option<A>) -> Seq<A> {
    match item {
        Some(item) => items.push(item),
        None => items,
    }
}

/// The items for which the verdict at the same place is true.
pub open spec fn selected<A>(items: Seq<A>, verdicts: Seq<bool>) -> Seq<A>
    decreases verdicts.len(),
{
    if verdicts.len() == 0 {
        seq![]
    } else {
        extended(
            selected(items, verdicts.drop_last()),
            if verdicts.last() {
                Some(items[verdicts.len() - 1])
            } else {
                None
            },
        )
    }
}

proof fn lemma_selected_of_more<A>(items: Seq<A>, item: A, verdicts: Seq<bool>)
    requires
        verdicts.len() <= items.len(),
    ensures
        selected(items.push(item), verdicts) == selected(items, verdicts),
    decreases verdicts.len(),
{
    if verdicts.len() > 0 {
        lemma_selected_of_more(items, item, verdicts.drop_last());
    }
}

proof fn lemma_selected_by_more<A>(items: Seq<A>, verdicts: Seq<bool>, verdict: bool)
    ensures
        selected(items, verdicts.push(verdict)) == extended(
            selected(items, verdicts),
            if verdict {
                Some(items[verdicts.len() as int])
            } else {
                None
            },
        ),
{
    assert(verdicts.push(verdict).drop_last() =~= verdicts);
}

/// The reply that an event brings to a downlink, as it is framed: a datagram received while the
/// downlink is idle, if it fits a frame, with an IPv4-mapped source as the IPv4 one.
pub open spec fn reply_of(state: DownlinkView, event: DownlinkEventView) -> Option<
    (AddressView, Seq<u8>),
> {
    match (state.phase, event) {
        (PhaseView::Idle, DownlinkEventView::Received(source, data)) => if data.len() <= u16::MAX {
            Some((AddressView::SocketAddress(unmapped(source)), data))
        } else {
            None
        },
        _ => None,
    }
}

/// The replies that these events bring, in order.
pub open spec fn replies(start: DownlinkView, events: Seq<DownlinkEventView>) -> Seq<
    (AddressView, Seq<u8>),
>
    decreases events.len(),
{
    if events.len() == 0 {
        seq![]
    } else {
        extended(
            replies(start, events.drop_last()),
            reply_of(downlink_after(start, events.drop_last()), events.last()),
        )
    }
}

/// The bytes that a downlink has written to the client in the course of these events.
pub open spec fn written(start: DownlinkView, events: Seq<DownlinkEventView>) -> Seq<u8>
    decreases events.len(),
{
    if events.len() == 0 {
        seq![]
    } else {
        let before = written(start, events.drop_last());
        match downlink_step(downlink_after(start, events.drop_last()), events.last()).1 {
            DownlinkActionView::Write(frame) => before + frame,
            _ => before,
        }
    }
}

proof fn lemma_frames_of_more(
    mode: ModeView,
    datagrams: Seq<(AddressView, Seq<u8>)>,
    addr: AddressView,
    data: Seq<u8>,
)
    ensures
        frames_bytes(mode, datagrams.push((addr, data))) == frames_bytes(mode, datagrams)
            + frame_bytes(mode, addr, data),
    decreases datagrams.len(),
{
    let more = datagrams.push((addr, data));
    let frame = frame_bytes(mode, addr, data);
    if datagrams.len() == 0 {
        assert(frames_bytes(mode, more.drop_first()) =~= seq![]);
        assert(frames_bytes(mode, more) =~= frame);
        assert(frames_bytes(mode, datagrams) + frame =~= frame);
    } else {
        let first = frame_bytes(mode, datagrams.first().0, datagrams.first().1);
        let others = datagrams.drop_first();
        lemma_frames_of_more(mode, others, addr, data);
        assert(more.drop_first() =~= others.push((addr, data)));
        assert(first + (frames_bytes(mode, others) + frame) =~= (first + frames_bytes(mode, others))
            + frame);
    }
}

/// What a downlink writes to the client is the frames of the replies, each once and in the order in
/// which they came, and nothing else.
pub proof fn law_written_are_the_replies(
    mode: ModeView,
    caps: IpStackCapabilities,
    events: Seq<DownlinkEventView>,
)
    ensures
        written(downlink_new(mode, caps), events) == frames_bytes(
            mode,
            replies(downlink_new(mode, caps), events),
        ),
    decreases events.len(),
{
    let start = downlink_new(mode, caps);
    if events.len() > 0 {
        let earlier = events.drop_last();
        law_written_are_the_replies(mode, caps, earlier);
        lemma_settings_last(start, earlier);
        if let Some((addr, data)) = reply_of(downlink_after(start, earlier), events.last()) {
            lemma_frames_of_more(mode, replies(start, earlier), addr, data);
        }
    }
}

proof fn lemma_replies_fit(
    mode: ModeView,
    start: DownlinkView,
    events: Seq<DownlinkEventView>,
)
    ensures
        all_fit(mode, replies(start, events)),
    decreases events.len(),
{
    if events.len() > 0 {
        lemma_replies_fit(mode, start, events.drop_last());
    }
}

/// A client that reads what was written to it gets every reply, each once and in order.
pub proof fn law_client_reads_all_replies(
    mode: ModeView,
    caps: IpStackCapabilities,
    events: Seq<DownlinkEventView>,
)
    ensures
        frames_relayed(written(downlink_new(mode, caps), events), mode) == (Relayed {
            datagrams: seen_datagrams(mode, replies(downlink_new(mode, caps), events)),
            end: Ok(()),
        }),
{
    let start = downlink_new(mode, caps);
    let all = replies(start, events);
    law_written_are_the_replies(mode, caps, events);
    lemma_replies_fit(mode, start, events);
    law_coalesced_frames(mode, all, seq![]);
    lemma_no_frame(seq![], mode);
    assert(frames_bytes(mode, all) + seq![] =~= frames_bytes(mode, all));
    assert(seen_datagrams(mode, all) + seq![] =~= seen_datagrams(mode, all));
}

/// The datagrams that the uplink has handed over to an idle downlink in the course of these events,
/// in order.
pub open spec fn handed_over(start: DownlinkView, events: Seq<DownlinkEventView>) -> Seq<
    (AddressView, Seq<u8>),
>
    decreases events.len(),
{
    if events.len() == 0 {
        seq![]
    } else {
        extended(
            handed_over(start, events.drop_last()),
            match (downlink_after(start, events.drop_last()).phase, events.last()) {
                (PhaseView::Idle, DownlinkEventView::Packet(target, data)) => Some((target, data)),
                _ => None,
            },
        )
    }
}

/// For each datagram that the access rules were asked about, in order, whether they let it pass.
pub open spec fn verdicts(start: DownlinkView, events: Seq<DownlinkEventView>) -> Seq<bool>
    decreases events.len(),
{
    if events.len() == 0 {
        seq![]
    } else {
        extended(
            verdicts(start, events.drop_last()),
            match (downlink_after(start, events.drop_last()).phase, events.last()) {
                (PhaseView::Checking(_, _), DownlinkEventView::Checked(blocked)) => Some(!blocked),
                _ => None,
            },
        )
    }
}

/// The datagrams that started on their way out in the course of these events, with the targets
/// that the access rules were asked about, in order.
pub open spec fn started(start: DownlinkView, events: Seq<DownlinkEventView>) -> Seq<
    (AddressView, Seq<u8>),
>
    decreases events.len(),
{
    if events.len() == 0 {
        seq![]
    } else {
        let before = downlink_after(start, events.drop_last()).phase;
        let now = downlink_after(start, events).phase;
        extended(
            started(start, events.drop_last()),
            match before {
                PhaseView::Checking(target, data) => if on_its_way(now) == Some(data) {
                    Some((target, data))
                } else {
                    None
                },
                _ => None,
            },
        )
    }
}

/// The datagrams that start on their way out are those that the uplink handed over and that are not
/// blocked, each once and in order. Each is asked about once: only one that is still being asked
/// about has no verdict yet.
pub proof fn law_unblocked_datagrams_start(
    mode: ModeView,
    caps: IpStackCapabilities,
    events: Seq<DownlinkEventView>,
)
    ensures
        ({
            let start = downlink_new(mode, caps);
            let handed = handed_over(start, events);
            let judged = verdicts(start, events);
            &&& started(start, events) == selected(handed, judged)
            &&& match downlink_after(start, events).phase {
                PhaseView::Checking(target, data) => handed.len() == judged.len() + 1
                    && handed.last() == (target, data),
                _ => handed.len() == judged.len(),
            }
        }),
    decreases events.len(),
{
    let start = downlink_new(mode, caps);
    if events.len() > 0 {
        let earlier = events.drop_last();
        let handed = handed_over(start, earlier);
        let judged = verdicts(start, earlier);
        law_unblocked_datagrams_start(mode, caps, earlier);
        match (downlink_after(start, earlier).phase, events.last()) {
            (PhaseView::Idle, DownlinkEventView::Packet(target, data)) => {
                lemma_selected_of_more(handed, (target, data), judged);
            },
            (PhaseView::Checking(_, _), DownlinkEventView::Checked(blocked)) => {
                lemma_selected_by_more(handed, judged, !blocked);
            },
            _ => {},
        }
    }
}

/// For each datagram whose way out has ended, in order, whether it was sent.
pub open spec fn outcomes(start: DownlinkView, events: Seq<DownlinkEventView>) -> Seq<bool>
    decreases events.len(),
{
    if events.len() == 0 {
        seq![]
    } else {
        let before = downlink_after(start, events.drop_last()).phase;
        let now = downlink_after(start, events).phase;
        extended(
            outcomes(start, events.drop_last()),
            if on_its_way(before) is Some && on_its_way(now) is None {
                Some(events.last() matches DownlinkEventView::Sent(Some(_)))
            } else {
                None
            },
        )
    }
}

/// The payloads that were sent in the course of these events, in order.
pub open spec fn sent(start: DownlinkView, events: Seq<DownlinkEventView>) -> Seq<Seq<u8>>
    decreases events.len(),
{
    if events.len() == 0 {
        seq![]
    } else {
        extended(
            sent(start, events.drop_last()),
            match (downlink_after(start, events.drop_last()).phase, events.last()) {
                (
                    PhaseView::Sending(_, data, _),
                    DownlinkEventView::Sent(Some(_)),
                ) => Some(data),
                _ => None,
            },
        )
    }
}

/// The payloads of datagrams.
pub open spec fn payloads(datagrams: Seq<(AddressView, Seq<u8>)>) -> Seq<Seq<u8>> {
    datagrams.map_values(|d: (AddressView, Seq<u8>)| d.1)
}

/// What is sent are datagrams that started on their way out, each at most once and in order: those
/// are left out that no address took. Only one that is still on its way has no outcome yet.
pub proof fn law_started_datagrams_are_sent_once(
    mode: ModeView,
    caps: IpStackCapabilities,
    events: Seq<DownlinkEventView>,
)
    ensures
        ({
            let start = downlink_new(mode, caps);
            let out = payloads(started(start, events));
            let ended = outcomes(start, events);
            &&& sent(start, events) == selected(out, ended)
            &&& match on_its_way(downlink_after(start, events).phase) {
                Some(data) => out.len() == ended.len() + 1 && out.last() == data,
                None => out.len() == ended.len(),
            }
        }),
    decreases events.len(),
{
    let start = downlink_new(mode, caps);
    if events.len() > 0 {
        let earlier = events.drop_last();
        let out = payloads(started(start, earlier));
        let ended = outcomes(start, earlier);
        let before = downlink_after(start, earlier).phase;
        let now = downlink_after(start, events).phase;
        law_started_datagrams_are_sent_once(mode, caps, earlier);
        if on_its_way(before) is None {
            if let Some(data) = on_its_way(now) {
                lemma_selected_of_more(out, data, ended);
                assert(payloads(started(start, events)) =~= out.push(data));
            }
        } else if on_its_way(now) is None {
            lemma_selected_by_more(
                out,
                ended,
                events.last() matches DownlinkEventView::Sent(Some(_)),
            );
        }
    }
}

} // verus!
