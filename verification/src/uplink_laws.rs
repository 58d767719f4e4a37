//! Laws of the uplink: what a tunnel forwards depends on the bytes of the client alone.

use vstd::prelude::*;

use crate::address::AddressView;
use crate::error::UotErrorView;
use crate::magic::UotVersion;
use crate::request::{request_at, requested_mode};
use crate::request_laws::{
    law_more_bytes_change_no_request, law_unfinished_request_is_bounded,
    law_written_request_is_read_back, max_request_len, request_bytes,
};
use crate::uplink::{
    uplink_new, uplink_step, uplink_taken, UplinkActionView, UplinkEventView, UplinkStageView,
    UplinkView,
};
use crate::wire::{frame_at, frame_bytes, ModeView, Parsed};
use crate::wire_laws::{
    as_framed, fits_frame, frame_eof, law_more_bytes_change_no_frame, law_partial_frame_is_incomplete,
    law_unfinished_frame_is_bounded, law_written_frame_is_read_back, max_frame_len, seen_address,
};

verus! {

/// What an uplink does with the whole stream of a client: the datagrams that it forwards, in
/// order, and how the tunnel ends.
#[verifier::ext_equal]
pub struct Relayed {
    pub datagrams: Seq<(AddressView, Seq<u8>)>,
    pub end: Result<(), UotErrorView>,
}

/// One more datagram in front.
pub open spec fn after(datagram: (AddressView, Seq<u8>), later: Relayed) -> Relayed {
    Relayed { datagrams: seq![datagram] + later.datagrams, end: later.end }
}

/// What frames that are followed by the end of the stream amount to.
#[verifier::opaque]
pub open spec fn frames_relayed(bytes: Seq<u8>, mode: ModeView) -> Relayed
    decreases bytes.len(),
{
    if bytes.len() == 0 {
        Relayed { datagrams: seq![], end: Ok(()) }
    } else {
        match frame_at(bytes, mode) {
            Parsed::Complete(datagram, used) => after(
                datagram,
                frames_relayed(bytes.skip(used as int), mode),
            ),
            Parsed::Incomplete(eof) => Relayed {
                datagrams: seq![],
                end: Err(UotErrorView::UnexpectedEof(eof)),
            },
            Parsed::Malformed(error, _) => Relayed { datagrams: seq![], end: Err(error) },
        }
    }
}

/// What the whole stream of a client amounts to.
pub open spec fn stream_relayed(bytes: Seq<u8>, version: UotVersion) -> Relayed {
    match version {
        UotVersion::V1 => frames_relayed(bytes, ModeView::PerPacket),
        UotVersion::V2 => match request_at(bytes) {
            Parsed::Complete(mode, used) => frames_relayed(bytes.skip(used as int), mode),
            Parsed::Incomplete(eof) => Relayed {
                datagrams: seq![],
                end: Err(UotErrorView::UnexpectedEof(eof)),
            },
            Parsed::Malformed(error, _) => Relayed { datagrams: seq![], end: Err(error) },
        },
    }
}

/// What is still to be relayed in a state, if `future` is all that is still to come.
pub open spec fn outlook(state: UplinkView, future: Seq<u8>) -> Relayed {
    match state.stage {
        UplinkStageView::Opening(version) => stream_relayed(state.unread + future, version),
        UplinkStageView::Relaying(mode) => frames_relayed(state.unread + future, mode),
        UplinkStageView::Finished => Relayed { datagrams: seq![], end: Ok(()) },
    }
}

/// How many kinds of progress an uplink has left before it must read again.
pub open spec fn stage_rank(state: UplinkView) -> nat {
    if state.stage is Opening {
        1
    } else {
        0
    }
}

/// What an uplink relays from an event on, if `pieces` are what still comes, one by one, before
/// the stream ends, and the downlink takes every datagram.
pub open spec fn driven(
    state: UplinkView,
    event: UplinkEventView,
    pieces: Seq<Seq<u8>>,
) -> Relayed
    decreases
            pieces.len(),
            if uplink_taken(state, event).closed {
                0nat
            } else {
                1nat
            },
            stage_rank(state),
            uplink_taken(state, event).unread.len(),
{
    let (next, action) = uplink_step(state, event);
    match action {
        UplinkActionView::Establish(_) => driven(next, UplinkEventView::Start, pieces),
        UplinkActionView::Forward(datagram) => after(
            datagram,
            driven(next, UplinkEventView::Forwarded(true), pieces),
        ),
        UplinkActionView::Read => if pieces.len() == 0 {
            driven(next, UplinkEventView::Closed, pieces)
        } else {
            driven(next, UplinkEventView::Received(pieces.first()), pieces.drop_first())
        },
        UplinkActionView::Finish(end) => Relayed { datagrams: seq![], end },
    }
}

proof fn lemma_read_again(state: UplinkView, event: UplinkEventView, pieces: Seq<Seq<u8>>)
    requires
        !uplink_taken(state, event).closed,
        uplink_step(state, event) == (uplink_taken(state, event), UplinkActionView::Read),
        pieces.len() == 0 ==> driven(uplink_taken(state, event), UplinkEventView::Closed, pieces)
            == outlook(
            uplink_taken(uplink_taken(state, event), UplinkEventView::Closed),
            pieces.flatten(),
        ),
        pieces.len() > 0 ==> driven(
            uplink_taken(state, event),
            UplinkEventView::Received(pieces.first()),
            pieces.drop_first(),
        ) == outlook(
            uplink_taken(
                uplink_taken(state, event),
                UplinkEventView::Received(pieces.first()),
            ),
            pieces.drop_first().flatten(),
        ),
    ensures
        driven(state, event, pieces) == outlook(uplink_taken(state, event), pieces.flatten()),
{
    let taken = uplink_taken(state, event);
    if pieces.len() > 0 {
        assert((taken.unread + pieces.first()) + pieces.drop_first().flatten() =~= taken.unread
            + pieces.flatten());
    }
}

proof fn lemma_frames_outlook(unread: Seq<u8>, future: Seq<u8>, mode: ModeView)
    ensures
        frame_at(unread, mode) matches Parsed::Complete(datagram, used) ==> {
            &&& 0 < used <= unread.len()
            &&& frames_relayed(unread + future, mode) == after(
                datagram,
                frames_relayed(unread.skip(used as int) + future, mode),
            )
        },
        frame_at(unread, mode) matches Parsed::Malformed(error, _) ==> frames_relayed(
            unread + future,
            mode,
        ) == (Relayed { datagrams: seq![], end: Err(error) }),
        frame_at(unread, mode) matches Parsed::Incomplete(eof) ==> future.len() == 0 && unread.len()
            > 0 ==> frames_relayed(unread + future, mode) == (Relayed {
            datagrams: seq![],
            end: Err(UotErrorView::UnexpectedEof(eof)),
        }),
        unread.len() + future.len() == 0 ==> frames_relayed(unread + future, mode) == (Relayed {
            datagrams: seq![],
            end: Ok(()),
        }),
{
    reveal(frames_relayed);
    if frame_at(unread, mode) !is Incomplete {
        law_more_bytes_change_no_frame(unread, future, mode);
        if let Parsed::Complete(_, used) = frame_at(unread, mode) {
            assert((unread + future).skip(used as int) =~= unread.skip(used as int) + future);
        }
    } else if future.len() == 0 {
        assert(unread + future =~= unread);
    }
}

proof fn lemma_request_outlook(unread: Seq<u8>, future: Seq<u8>)
    ensures
        request_at(unread) matches Parsed::Complete(mode, used) ==> stream_relayed(
            unread + future,
            UotVersion::V2,
        ) == frames_relayed(unread.skip(used as int) + future, mode),
        request_at(unread) matches Parsed::Malformed(error, _) ==> stream_relayed(
            unread + future,
            UotVersion::V2,
        ) == (Relayed { datagrams: seq![], end: Err(error) }),
        request_at(unread) matches Parsed::Incomplete(eof) ==> future.len() == 0 ==> stream_relayed(
            unread + future,
            UotVersion::V2,
        ) == (Relayed { datagrams: seq![], end: Err(UotErrorView::UnexpectedEof(eof)) }),
{
    if request_at(unread) !is Incomplete {
        law_more_bytes_change_no_request(unread, future);
        if let Parsed::Complete(_, used) = request_at(unread) {
            assert((unread + future).skip(used as int) =~= unread.skip(used as int) + future);
        }
    } else if future.len() == 0 {
        assert(unread + future =~= unread);
    }
}

proof fn lemma_driven(state: UplinkView, event: UplinkEventView, pieces: Seq<Seq<u8>>)
    requires
        uplink_taken(state, event).closed ==> pieces.len() == 0,
    ensures
        driven(state, event, pieces) == outlook(uplink_taken(state, event), pieces.flatten()),
    decreases
            pieces.len(),
            if uplink_taken(state, event).closed {
                0nat
            } else {
                1nat
            },
            stage_rank(state),
            uplink_taken(state, event).unread.len(),
{
    let taken = uplink_taken(state, event);
    let future = pieces.flatten();
    let (next, action) = uplink_step(state, event);
    match taken.stage {
        UplinkStageView::Opening(UotVersion::V1) => {
            lemma_driven(next, UplinkEventView::Start, pieces);
        },
        UplinkStageView::Opening(UotVersion::V2) => {
            lemma_request_outlook(taken.unread, future);
            if action is Establish {
                lemma_driven(next, UplinkEventView::Start, pieces);
            }
        },
        UplinkStageView::Relaying(mode) => {
            lemma_frames_outlook(taken.unread, future, mode);
            if action is Forward {
                lemma_driven(next, UplinkEventView::Forwarded(true), pieces);
            }
        },
        UplinkStageView::Finished => {},
    }
    if action is Read {
        if pieces.len() == 0 {
            lemma_driven(next, UplinkEventView::Closed, pieces);
        } else {
            lemma_driven(next, UplinkEventView::Received(pieces.first()), pieces.drop_first());
        }
        lemma_read_again(state, event, pieces);
    }
}

/// However the stream of a client is cut into pieces on its way, the tunnel forwards the same
/// datagrams in the same order and ends in the same way.
pub proof fn law_pieces_do_not_matter(version: UotVersion, pieces: Seq<Seq<u8>>)
    ensures
        driven(uplink_new(version), UplinkEventView::Start, pieces) == stream_relayed(
            pieces.flatten(),
            version,
        ),
{
    lemma_driven(uplink_new(version), UplinkEventView::Start, pieces);
    assert(Seq::<u8>::empty() + pieces.flatten() =~= pieces.flatten());
}

/// The frames of datagrams, one behind the other.
pub open spec fn frames_bytes(mode: ModeView, datagrams: Seq<(AddressView, Seq<u8>)>) -> Seq<u8>
    decreases datagrams.len(),
{
    if datagrams.len() == 0 {
        seq![]
    } else {
        frame_bytes(mode, datagrams.first().0, datagrams.first().1) + frames_bytes(
            mode,
            datagrams.drop_first(),
        )
    }
}

/// Datagrams as the reader of their frames sees them.
pub open spec fn seen_datagrams(
    mode: ModeView,
    datagrams: Seq<(AddressView, Seq<u8>)>,
) -> Seq<(AddressView, Seq<u8>)> {
    datagrams.map_values(|d: (AddressView, Seq<u8>)| (seen_address(mode, d.0), d.1))
}

/// Whether every datagram fits its frame.
pub open spec fn all_fit(mode: ModeView, datagrams: Seq<(AddressView, Seq<u8>)>) -> bool {
    forall|i: int|
        0 <= i < datagrams.len() ==> {
            &&& mode is PerPacket ==> fits_frame((#[trigger] datagrams[i]).0)
            &&& datagrams[i].1.len() <= u16::MAX
        }
}

/// Frames that stand one behind the other are read one by one, and then what follows them is.
pub proof fn law_coalesced_frames(
    mode: ModeView,
    datagrams: Seq<(AddressView, Seq<u8>)>,
    tail: Seq<u8>,
)
    requires
        all_fit(mode, datagrams),
    ensures
        frames_relayed(frames_bytes(mode, datagrams) + tail, mode) == (Relayed {
            datagrams: seen_datagrams(mode, datagrams) + frames_relayed(tail, mode).datagrams,
            end: frames_relayed(tail, mode).end,
        }),
    decreases datagrams.len(),
{
    let bytes = frames_bytes(mode, datagrams) + tail;
    let later = frames_relayed(tail, mode);
    if datagrams.len() == 0 {
        assert(bytes =~= tail);
        assert(seen_datagrams(mode, datagrams) + later.datagrams =~= later.datagrams);
    } else {
        let (addr, data) = datagrams.first();
        let others = datagrams.drop_first();
        let rest = frames_bytes(mode, others) + tail;
        assert(datagrams[0] == (addr, data));
        assert(all_fit(mode, others)) by {
            assert forall|i: int| 0 <= i < others.len() implies {
                &&& mode is PerPacket ==> fits_frame((#[trigger] others[i]).0)
                &&& others[i].1.len() <= u16::MAX
            } by {
                assert(others[i] == datagrams[i + 1]);
            }
        }
        law_coalesced_frames(mode, others, tail);
        lemma_frame_in_front(mode, addr, data, rest);
        assert(bytes =~= frame_bytes(mode, addr, data) + rest);
        lemma_seen_in_front(mode, datagrams, later.datagrams);
    }
}

proof fn lemma_seen_in_front(
    mode: ModeView,
    datagrams: Seq<(AddressView, Seq<u8>)>,
    later: Seq<(AddressView, Seq<u8>)>,
)
    requires
        datagrams.len() > 0,
    ensures
        seen_datagrams(mode, datagrams) + later == seq![
            (seen_address(mode, datagrams.first().0), datagrams.first().1),
        ] + (seen_datagrams(mode, datagrams.drop_first()) + later),
{
    assert(seen_datagrams(mode, datagrams) + later =~= seq![
        (seen_address(mode, datagrams.first().0), datagrams.first().1),
    ] + (seen_datagrams(mode, datagrams.drop_first()) + later));
}

proof fn lemma_frame_in_front(mode: ModeView, addr: AddressView, data: Seq<u8>, rest: Seq<u8>)
    requires
        mode is PerPacket ==> fits_frame(addr),
        data.len() <= u16::MAX,
    ensures
        frames_relayed(frame_bytes(mode, addr, data) + rest, mode) == after(
            (seen_address(mode, addr), data),
            frames_relayed(rest, mode),
        ),
{
    reveal(frames_relayed);
    let frame = frame_bytes(mode, addr, data);
    law_written_frame_is_read_back(mode, addr, data, rest);
    assert((frame + rest).skip(frame.len() as int) =~= rest);
}

pub(crate) proof fn lemma_no_frame(bytes: Seq<u8>, mode: ModeView)
    ensures
        bytes.len() == 0 ==> frames_relayed(bytes, mode) == (Relayed {
            datagrams: seq![],
            end: Ok(()),
        }),
        frame_at(bytes, mode) matches Parsed::Incomplete(eof) ==> bytes.len() > 0 ==> frames_relayed(
            bytes,
            mode,
        ) == (Relayed { datagrams: seq![], end: Err(UotErrorView::UnexpectedEof(eof)) }),
{
    reveal(frames_relayed);
}

/// A tunnel forwards the datagrams that its client framed, each once and in order, however the
/// stream was cut into pieces, and ends without an error when the client closes the stream at a
/// frame boundary.
pub proof fn law_tunnel_forwards_what_was_framed(
    datagrams: Seq<(AddressView, Seq<u8>)>,
    pieces: Seq<Seq<u8>>,
)
    requires
        all_fit(ModeView::PerPacket, datagrams),
        pieces.flatten() == frames_bytes(ModeView::PerPacket, datagrams),
    ensures
        driven(uplink_new(UotVersion::V1), UplinkEventView::Start, pieces) == (Relayed {
            datagrams: seen_datagrams(ModeView::PerPacket, datagrams),
            end: Ok(()),
        }),
{
    let mode = ModeView::PerPacket;
    law_pieces_do_not_matter(UotVersion::V1, pieces);
    law_coalesced_frames(mode, datagrams, seq![]);
    lemma_no_frame(seq![], mode);
    assert(frames_bytes(mode, datagrams) + seq![] =~= frames_bytes(mode, datagrams));
    assert(seen_datagrams(mode, datagrams) + seq![] =~= seen_datagrams(mode, datagrams));
}

/// The same of a tunnel of version 2, in the mode that its request header selects.
pub proof fn law_v2_tunnel_forwards_what_was_framed(
    is_connect: u8,
    target: AddressView,
    datagrams: Seq<(AddressView, Seq<u8>)>,
    pieces: Seq<Seq<u8>>,
)
    requires
        fits_frame(target),
        all_fit(requested_mode(is_connect, as_framed(target)), datagrams),
        pieces.flatten() == request_bytes(is_connect, target) + frames_bytes(
            requested_mode(is_connect, as_framed(target)),
            datagrams,
        ),
    ensures
        driven(uplink_new(UotVersion::V2), UplinkEventView::Start, pieces) == (Relayed {
            datagrams: seen_datagrams(requested_mode(is_connect, as_framed(target)), datagrams),
            end: Ok(()),
        }),
{
    let mode = requested_mode(is_connect, as_framed(target));
    let frames = frames_bytes(mode, datagrams);
    law_header_selects_the_mode(is_connect, target, frames, pieces);
    law_coalesced_frames(mode, datagrams, seq![]);
    lemma_no_frame(seq![], mode);
    assert(frames + seq![] =~= frames);
    assert(seen_datagrams(mode, datagrams) + seq![] =~= seen_datagrams(mode, datagrams));
}

/// Whatever follows the request header of a tunnel of version 2 is relayed in the mode that the
/// header selects, up to the first error in it.
pub proof fn law_header_selects_the_mode(
    is_connect: u8,
    target: AddressView,
    tail: Seq<u8>,
    pieces: Seq<Seq<u8>>,
)
    requires
        fits_frame(target),
        pieces.flatten() == request_bytes(is_connect, target) + tail,
    ensures
        driven(uplink_new(UotVersion::V2), UplinkEventView::Start, pieces) == frames_relayed(
            tail,
            requested_mode(is_connect, as_framed(target)),
        ),
{
    let header = request_bytes(is_connect, target);
    law_pieces_do_not_matter(UotVersion::V2, pieces);
    law_written_request_is_read_back(is_connect, target, tail);
    assert((header + tail).skip(header.len() as int) =~= tail);
}

/// A request header that does not ask to connect has no effect, whatever address it holds: on every
/// stream, well-framed or not, the tunnel does what one of version 1 does without the header.
pub proof fn law_non_connect_header_has_no_effect(
    unused: AddressView,
    with_header: Seq<Seq<u8>>,
    without: Seq<Seq<u8>>,
)
    requires
        fits_frame(unused),
        with_header.flatten() == request_bytes(0, unused) + without.flatten(),
    ensures
        driven(uplink_new(UotVersion::V2), UplinkEventView::Start, with_header) == driven(
            uplink_new(UotVersion::V1),
            UplinkEventView::Start,
            without,
        ),
{
    law_header_selects_the_mode(0, unused, without.flatten(), with_header);
    law_pieces_do_not_matter(UotVersion::V1, without);
}

/// A stream that ends inside a frame still delivers the frames in front of it, and then fails
/// with an unexpected end of file.
pub proof fn law_partial_frame_is_an_error(
    mode: ModeView,
    datagrams: Seq<(AddressView, Seq<u8>)>,
    addr: AddressView,
    data: Seq<u8>,
    cut: int,
)
    requires
        all_fit(mode, datagrams),
        mode is PerPacket ==> fits_frame(addr),
        data.len() <= u16::MAX,
        0 < cut < frame_bytes(mode, addr, data).len(),
    ensures
        frames_relayed(
            frames_bytes(mode, datagrams) + frame_bytes(mode, addr, data).take(cut),
            mode,
        ) == (Relayed {
            datagrams: seen_datagrams(mode, datagrams),
            end: Err(UotErrorView::UnexpectedEof(frame_eof(mode, addr, cut))),
        }),
{
    let part = frame_bytes(mode, addr, data).take(cut);
    law_partial_frame_is_incomplete(mode, addr, data, cut);
    law_coalesced_frames(mode, datagrams, part);
    lemma_no_frame(part, mode);
    assert(seen_datagrams(mode, datagrams) + seq![] =~= seen_datagrams(mode, datagrams));
}

/// Once the downlink has exited, the uplink forwards no further datagram and leaves the error to
/// the downlink; a tunnel that has ended stays so.
pub proof fn law_refused_datagram_ends_the_tunnel(state: UplinkView, event: UplinkEventView)
    requires
        event == UplinkEventView::Forwarded(false) || state.stage is Finished,
    ensures
        uplink_step(state, event).1 == UplinkActionView::Finish(Ok(())),
        uplink_step(state, event).0.stage is Finished,
{
}

/// An uplink that waits for more bytes holds less than one request header, or less than one
/// frame, of its client.
pub proof fn law_waiting_uplink_holds_little(state: UplinkView, event: UplinkEventView)
    requires
        uplink_step(state, event).1 is Read,
    ensures
        uplink_step(state, event).0.stage is Opening ==> uplink_step(state, event).0.unread.len()
            < max_request_len(),
        uplink_step(state, event).0.unread.len() < max_frame_len(),
{
    let taken = uplink_taken(state, event);
    match taken.stage {
        UplinkStageView::Relaying(mode) => law_unfinished_frame_is_bounded(taken.unread, mode),
        _ => law_unfinished_request_is_bounded(taken.unread),
    }
}

/// Nothing is forwarded before the mode is settled, and the mode is settled once.
pub proof fn law_datagrams_follow_the_mode(state: UplinkView, event: UplinkEventView)
    ensures
        uplink_step(state, event).1 is Forward ==> state.stage is Relaying,
        uplink_step(state, event).1 is Establish ==> state.stage is Opening && uplink_step(
            state,
            event,
        ).0.stage is Relaying,
{
}

/// The first thing an uplink does with a stream that it understands is to settle the mode: frames
/// that carry their destinations for version 1, what the request header asks for in version 2.
pub proof fn law_mode_is_settled_first(version: UotVersion, bytes: Seq<u8>)
    requires
        version is V2 ==> request_at(bytes) is Complete,
    ensures
        uplink_step(uplink_new(version), UplinkEventView::Received(bytes)).1
            == UplinkActionView::Establish(
            match version {
                UotVersion::V1 => ModeView::PerPacket,
                UotVersion::V2 => match request_at(bytes) {
                    Parsed::Complete(mode, _) => mode,
                    _ => ModeView::PerPacket,
                },
            },
        ),
{
    assert(Seq::<u8>::empty() + bytes =~= bytes);
}

} // verus!
