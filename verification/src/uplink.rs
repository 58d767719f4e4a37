//! The direction from the client to the remote: what to do with the stream of a client.

use vstd::prelude::*;

use crate::address::{Address, AddressView};
use crate::error::{UotError, UotErrorView};
use crate::magic::UotVersion;
use crate::stream::{
    frame_reading, read_frame, read_v2_request, request_reading, Progress, StreamReader,
};
use crate::wire::{Mode, ModeView};

verus! {

/// What has happened since the last action of an [`Uplink`] was asked for.
#[derive(Debug)]
pub enum UplinkEvent<'a> {
    /// The tunnel is there, or has been set up.
    Start,
    /// Bytes have come from the client.
    Received(&'a [u8]),
    /// The client has closed the stream.
    Closed,
    /// A datagram has been handed over to the downlink; false if the downlink has exited.
    Forwarded(bool),
}

/// What an [`UplinkEvent`] says.
#[verifier::ext_equal]
pub enum UplinkEventView {
    Start,
    Received(Seq<u8>),
    Closed,
    Forwarded(bool),
}

impl<'a> View for UplinkEvent<'a> {
    type V = UplinkEventView;

    open spec fn view(&self) -> UplinkEventView {
        match self {
            UplinkEvent::Start => UplinkEventView::Start,
            UplinkEvent::Received(bytes) => UplinkEventView::Received(bytes@),
            UplinkEvent::Closed => UplinkEventView::Closed,
            UplinkEvent::Forwarded(accepted) => UplinkEventView::Forwarded(*accepted),
        }
    }
}

/// What is to be done next.
#[derive(Debug, PartialEq, Eq)]
pub enum UplinkAction {
    /// Set up the tunnel in this mode.
    Establish(Mode),
    /// Wait for bytes of the client.
    Read,
    /// Hand this datagram over to the downlink.
    Forward(Address, Vec<u8>),
    /// End the tunnel.
    Finish(Result<(), UotError>),
}

/// What an [`UplinkAction`] says.
#[verifier::ext_equal]
pub enum UplinkActionView {
    Establish(ModeView),
    Read,
    Forward((AddressView, Seq<u8>)),
    Finish(Result<(), UotErrorView>),
}

impl View for UplinkAction {
    type V = UplinkActionView;

    open spec fn view(&self) -> UplinkActionView {
        match self {
            UplinkAction::Establish(mode) => UplinkActionView::Establish(mode@),
            UplinkAction::Read => UplinkActionView::Read,
            UplinkAction::Forward(target, data) => UplinkActionView::Forward((target@, data@)),
            UplinkAction::Finish(Ok(())) => UplinkActionView::Finish(Ok(())),
            UplinkAction::Finish(Err(error)) => UplinkActionView::Finish(Err(error@)),
        }
    }
}

/// How far an uplink has come.
#[derive(Debug)]
enum UplinkStage {
    Opening(UotVersion),
    Relaying(Mode),
    Finished,
}

/// How far an uplink has come.
#[verifier::ext_equal]
pub enum UplinkStageView {
    /// The mode of the tunnel is not known yet.
    Opening(UotVersion),
    /// Frames are read.
    Relaying(ModeView),
    /// The tunnel has ended.
    Finished,
}

impl View for UplinkStage {
    type V = UplinkStageView;

    closed spec fn view(&self) -> UplinkStageView {
        match self {
            UplinkStage::Opening(version) => UplinkStageView::Opening(*version),
            UplinkStage::Relaying(mode) => UplinkStageView::Relaying(mode@),
            UplinkStage::Finished => UplinkStageView::Finished,
        }
    }
}

/// The state of an uplink: how far it has come, the bytes that it has not read, and whether more
/// can come.
#[verifier::ext_equal]
pub struct UplinkView {
    pub stage: UplinkStageView,
    pub unread: Seq<u8>,
    pub closed: bool,
}

/// The next state and action of an uplink that has taken in what happened.
pub open spec fn uplink_next(state: UplinkView) -> (UplinkView, UplinkActionView) {
    match state.stage {
        UplinkStageView::Opening(UotVersion::V1) => (
            UplinkView { stage: UplinkStageView::Relaying(ModeView::PerPacket), ..state },
            UplinkActionView::Establish(ModeView::PerPacket),
        ),
        UplinkStageView::Opening(UotVersion::V2) => {
            let read = request_reading(state.unread, state.closed);
            match read.result {
                Ok(Progress::Ready(mode)) => (
                    UplinkView {
                        stage: UplinkStageView::Relaying(mode),
                        unread: read.rest,
                        ..state
                    },
                    UplinkActionView::Establish(mode),
                ),
                Ok(Progress::Pending) => (state, UplinkActionView::Read),
                Err(error) => (
                    UplinkView { stage: UplinkStageView::Finished, unread: read.rest, ..state },
                    UplinkActionView::Finish(Err(error)),
                ),
            }
        },
        UplinkStageView::Relaying(mode) => {
            let read = frame_reading(state.unread, state.closed, mode);
            match read.result {
                Ok(Progress::Ready(Some(datagram))) => (
                    UplinkView { unread: read.rest, ..state },
                    UplinkActionView::Forward(datagram),
                ),
                Ok(Progress::Ready(None)) => (
                    UplinkView { stage: UplinkStageView::Finished, ..state },
                    UplinkActionView::Finish(Ok(())),
                ),
                Ok(Progress::Pending) => (state, UplinkActionView::Read),
                Err(error) => (
                    UplinkView { stage: UplinkStageView::Finished, unread: read.rest, ..state },
                    UplinkActionView::Finish(Err(error)),
                ),
            }
        },
        UplinkStageView::Finished => (state, UplinkActionView::Finish(Ok(()))),
    }
}

/// The state of an uplink that has taken in an event.
pub open spec fn uplink_taken(state: UplinkView, event: UplinkEventView) -> UplinkView {
    match event {
        UplinkEventView::Start => state,
        UplinkEventView::Received(bytes) => UplinkView { unread: state.unread + bytes, ..state },
        UplinkEventView::Closed => UplinkView { closed: true, ..state },
        // If the downlink has exited, it will report the error.
        UplinkEventView::Forwarded(accepted) => if accepted {
            state
        } else {
            UplinkView { stage: UplinkStageView::Finished, ..state }
        },
    }
}

/// The next state and action of an uplink at an event.
pub open spec fn uplink_step(state: UplinkView, event: UplinkEventView) -> (
    UplinkView,
    UplinkActionView,
) {
    uplink_next(uplink_taken(state, event))
}

/// An uplink of which nothing has come.
pub open spec fn uplink_new(version: UotVersion) -> UplinkView {
    UplinkView { stage: UplinkStageView::Opening(version), unread: Seq::empty(), closed: false }
}

/// Client to remote: reads the mode and the datagrams of a tunnel out of the stream of its client.
#[derive(Debug)]
pub struct Uplink {
    reader: StreamReader,
    stage: UplinkStage,
}

impl View for Uplink {
    type V = UplinkView;

    closed spec fn view(&self) -> UplinkView {
        UplinkView {
            stage: self.stage@,
            unread: self.reader.unread(),
            closed: self.reader.is_closed(),
        }
    }
}

impl Uplink {
    /// The uplink of a tunnel of the version that the client asked for.
    pub fn new(version: UotVersion) -> (uplink: Self)
        ensures
            uplink@ == uplink_new(version),
    {
        Uplink { reader: StreamReader::new(), stage: UplinkStage::Opening(version) }
    }

    /// Takes in an event and says what is to be done next.
    pub fn step(&mut self, event: UplinkEvent<'_>) -> (action: UplinkAction)
        ensures
            (final(self)@, action@) == uplink_step(old(self)@, event@),
    {
        match event {
            UplinkEvent::Start => {},
            UplinkEvent::Received(bytes) => {
                self.reader.feed(bytes);
            },
            UplinkEvent::Closed => {
                self.reader.close();
            },
            UplinkEvent::Forwarded(accepted) => {
                if !accepted {
                    self.stage = UplinkStage::Finished;
                }
            },
        }
        self.advance()
    }

    /// What is to be done next.
    fn advance(&mut self) -> (action: UplinkAction)
        ensures
            (final(self)@, action@) == uplink_next(old(self)@),
    {
        match &self.stage {
            UplinkStage::Opening(UotVersion::V1) => {
                self.stage = UplinkStage::Relaying(Mode::PerPacket);
                UplinkAction::Establish(Mode::PerPacket)
            },
            UplinkStage::Opening(UotVersion::V2) => match read_v2_request(&mut self.reader) {
                Ok(Progress::Ready(mode)) => {
                    self.stage = UplinkStage::Relaying(mode.clone());
                    UplinkAction::Establish(mode)
                },
                Ok(Progress::Pending) => UplinkAction::Read,
                Err(error) => {
                    self.stage = UplinkStage::Finished;
                    UplinkAction::Finish(Err(error))
                },
            },
            UplinkStage::Relaying(mode) => match read_frame(&mut self.reader, mode) {
                Ok(Progress::Ready(Some((target, data)))) => UplinkAction::Forward(target, data),
                Ok(Progress::Ready(None)) => {
                    self.stage = UplinkStage::Finished;
                    UplinkAction::Finish(Ok(()))
                },
                Ok(Progress::Pending) => UplinkAction::Read,
                Err(error) => {
                    self.stage = UplinkStage::Finished;
                    UplinkAction::Finish(Err(error))
                },
            },
            UplinkStage::Finished => UplinkAction::Finish(Ok(())),
        }
    }
}

} // verus!
