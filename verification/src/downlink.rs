//! The direction from the remote to the client, and the outbound sockets of a tunnel.
//!
//! The outbound sockets are created lazily, and both directions need them, so the downlink alone
//! has them: it also sends the datagrams that the uplink hands over.

use vstd::prelude::*;

use crate::address::{family_of, unmapped, AddrFamily, Address, AddressView, SocketAddr};
use crate::outbound::{outbound_addr, outbound_target, IpStackCapabilities};
use crate::wire::{frame_bytes, write_respond_packet, Mode, ModeView};

verus! {

/// What has happened since the last action of a [`Downlink`] was asked for.
#[derive(Debug)]
pub enum DownlinkEvent<'a> {
    /// The uplink has handed over a datagram for this target.
    Packet(Address, Vec<u8>),
    /// The uplink is done, no more datagrams will be sent.
    UplinkDone,
    /// The access rules have been asked about the target; true if it is blocked.
    Checked(bool),
    /// The domain name of the target has this address.
    Resolved(SocketAddr),
    /// The domain name of the target has no further address.
    Unresolved,
    /// A socket has been created; false if that failed.
    Opened(bool),
    /// That many bytes of the datagram have been sent; none if that failed.
    Sent(Option<usize>),
    /// A datagram has come from this address.
    Received(SocketAddr, &'a [u8]),
    /// Receiving from the socket of this family has failed.
    ReceiveFailed(AddrFamily),
    /// A frame has been written to the client; false if that failed.
    Written(bool),
}

/// What a [`DownlinkEvent`] says.
#[verifier::ext_equal]
pub enum DownlinkEventView {
    Packet(AddressView, Seq<u8>),
    UplinkDone,
    Checked(bool),
    Resolved(SocketAddr),
    Unresolved,
    Opened(bool),
    Sent(Option<usize>),
    Received(SocketAddr, Seq<u8>),
    ReceiveFailed(AddrFamily),
    Written(bool),
}

impl<'a> View for DownlinkEvent<'a> {
    type V = DownlinkEventView;

    open spec fn view(&self) -> DownlinkEventView {
        match self {
            DownlinkEvent::Packet(target, data) => DownlinkEventView::Packet(target@, data@),
            DownlinkEvent::UplinkDone => DownlinkEventView::UplinkDone,
            DownlinkEvent::Checked(blocked) => DownlinkEventView::Checked(*blocked),
            DownlinkEvent::Resolved(addr) => DownlinkEventView::Resolved(*addr),
            DownlinkEvent::Unresolved => DownlinkEventView::Unresolved,
            DownlinkEvent::Opened(ok) => DownlinkEventView::Opened(*ok),
            DownlinkEvent::Sent(sent) => DownlinkEventView::Sent(*sent),
            DownlinkEvent::Received(source, data) => DownlinkEventView::Received(*source, data@),
            DownlinkEvent::ReceiveFailed(family) => DownlinkEventView::ReceiveFailed(*family),
            DownlinkEvent::Written(ok) => DownlinkEventView::Written(*ok),
        }
    }
}

/// What is to be done next.
#[derive(Debug, PartialEq, Eq)]
pub enum DownlinkAction {
    /// Wait for a datagram of the uplink, or of one of the open sockets.
    Wait,
    /// Ask the access rules whether this target is blocked.
    Check(Address),
    /// Look up this domain name and port, and try its addresses one by one.
    Resolve(String, u16),
    /// Try the next address of the domain name.
    TryNext,
    /// Create a socket of this family.
    Open(AddrFamily),
    /// Send the payload of the downlink to this address, from the socket of its family.
    Send(SocketAddr),
    /// Drop the socket of this family, for it to be created anew.
    Close(AddrFamily),
    /// Write this frame to the client.
    Write(Vec<u8>),
    /// End the tunnel; false if writing to the client failed.
    Finish(bool),
    /// The event is none that was waited for, and changed nothing.
    Unexpected,
}

/// What a [`DownlinkAction`] says.
#[verifier::ext_equal]
pub enum DownlinkActionView {
    Wait,
    Check(AddressView),
    Resolve(Seq<char>, u16),
    TryNext,
    Open(AddrFamily),
    Send(SocketAddr),
    Close(AddrFamily),
    Write(Seq<u8>),
    Finish(bool),
    Unexpected,
}

impl View for DownlinkAction {
    type V = DownlinkActionView;

    open spec fn view(&self) -> DownlinkActionView {
        match self {
            DownlinkAction::Wait => DownlinkActionView::Wait,
            DownlinkAction::Check(target) => DownlinkActionView::Check(target@),
            DownlinkAction::Resolve(name, port) => DownlinkActionView::Resolve(name@, *port),
            DownlinkAction::TryNext => DownlinkActionView::TryNext,
            DownlinkAction::Open(family) => DownlinkActionView::Open(*family),
            DownlinkAction::Send(target) => DownlinkActionView::Send(*target),
            DownlinkAction::Close(family) => DownlinkActionView::Close(*family),
            DownlinkAction::Write(frame) => DownlinkActionView::Write(frame@),
            DownlinkAction::Finish(ok) => DownlinkActionView::Finish(*ok),
            DownlinkAction::Unexpected => DownlinkActionView::Unexpected,
        }
    }
}

/// What a downlink is waiting for.
#[derive(Debug)]
enum Phase {
    Idle,
    Checking(Address, Vec<u8>),
    Resolving(Vec<u8>),
    Opening(SocketAddr, Vec<u8>, bool),
    Sending(SocketAddr, Vec<u8>, bool),
    Writing,
    Finished,
}

/// What a downlink is waiting for.
#[verifier::ext_equal]
pub enum PhaseView {
    /// A datagram, from either side.
    Idle,
    /// Whether the target of a datagram is blocked.
    Checking(AddressView, Seq<u8>),
    /// An address of the domain name that a datagram goes to.
    Resolving(Seq<u8>),
    /// A socket to send a datagram from; the last field tells whether its address is one of
    /// several of a domain name.
    Opening(SocketAddr, Seq<u8>, bool),
    /// The sending of a datagram; the last field is as above.
    Sending(SocketAddr, Seq<u8>, bool),
    /// The writing of a frame.
    Writing,
    /// Nothing any more.
    Finished,
}

impl View for Phase {
    type V = PhaseView;

    closed spec fn view(&self) -> PhaseView {
        match self {
            Phase::Idle => PhaseView::Idle,
            Phase::Checking(target, data) => PhaseView::Checking(target@, data@),
            Phase::Resolving(data) => PhaseView::Resolving(data@),
            Phase::Opening(target, data, several) => PhaseView::Opening(*target, data@, *several),
            Phase::Sending(target, data, several) => PhaseView::Sending(*target, data@, *several),
            Phase::Writing => PhaseView::Writing,
            Phase::Finished => PhaseView::Finished,
        }
    }
}

/// The state of a downlink: how frames are laid out, what the IP stack supports, which sockets
/// there are, and what is waited for.
#[verifier::ext_equal]
pub struct DownlinkView {
    pub mode: ModeView,
    pub caps: IpStackCapabilities,
    pub ipv4_open: bool,
    pub ipv6_open: bool,
    pub phase: PhaseView,
}

/// Whether there is a socket of a family.
pub open spec fn socket_open(state: DownlinkView, family: AddrFamily) -> bool {
    match family {
        AddrFamily::Ipv4 => state.ipv4_open,
        AddrFamily::Ipv6 => state.ipv6_open,
    }
}

/// The state with the socket of a family there, or not.
pub open spec fn with_socket(state: DownlinkView, family: AddrFamily, open: bool) -> DownlinkView {
    match family {
        AddrFamily::Ipv4 => DownlinkView { ipv4_open: open, ..state },
        AddrFamily::Ipv6 => DownlinkView { ipv6_open: open, ..state },
    }
}

/// The state in another phase.
pub open spec fn in_phase(state: DownlinkView, phase: PhaseView) -> DownlinkView {
    DownlinkView { phase, ..state }
}

/// The next state and action when a datagram is to be sent to an address: it is sent if there is
/// a socket of the family, which is created otherwise.
pub open spec fn attempt(
    state: DownlinkView,
    addr: SocketAddr,
    data: Seq<u8>,
    several: bool,
) -> (DownlinkView, DownlinkActionView) {
    let target = outbound_addr(state.caps, addr);
    if socket_open(state, family_of(target)) {
        (
            in_phase(state, PhaseView::Sending(target, data, several)),
            DownlinkActionView::Send(target),
        )
    } else {
        (
            in_phase(state, PhaseView::Opening(target, data, several)),
            DownlinkActionView::Open(family_of(target)),
        )
    }
}

/// The next state and action when a datagram could not be sent to an address: the next address
/// is tried if there may be one, and the datagram is lost otherwise.
pub open spec fn attempt_failed(state: DownlinkView, data: Seq<u8>, several: bool) -> (
    DownlinkView,
    DownlinkActionView,
) {
    if several {
        (in_phase(state, PhaseView::Resolving(data)), DownlinkActionView::TryNext)
    } else {
        (in_phase(state, PhaseView::Idle), DownlinkActionView::Wait)
    }
}

/// The next state and action when a datagram has come from the remote: it is framed for the
/// client, or dropped if it is too large to frame.
pub open spec fn respond(state: DownlinkView, source: SocketAddr, data: Seq<u8>) -> (
    DownlinkView,
    DownlinkActionView,
) {
    if data.len() <= u16::MAX {
        (
            in_phase(state, PhaseView::Writing),
            DownlinkActionView::Write(
                frame_bytes(state.mode, AddressView::SocketAddress(unmapped(source)), data),
            ),
        )
    } else {
        (state, DownlinkActionView::Wait)
    }
}

/// The next state and action of a downlink at an event.
pub open spec fn downlink_step(state: DownlinkView, event: DownlinkEventView) -> (
    DownlinkView,
    DownlinkActionView,
) {
    match (state.phase, event) {
        (PhaseView::Idle, DownlinkEventView::Packet(target, data)) => (
            in_phase(state, PhaseView::Checking(target, data)),
            DownlinkActionView::Check(target),
        ),
        (PhaseView::Idle, DownlinkEventView::UplinkDone) => (
            in_phase(state, PhaseView::Finished),
            DownlinkActionView::Finish(true),
        ),
        (PhaseView::Idle, DownlinkEventView::Received(source, data)) => respond(
            state,
            source,
            data,
        ),
        (PhaseView::Idle, DownlinkEventView::ReceiveFailed(family)) => (
            with_socket(state, family, false),
            DownlinkActionView::Close(family),
        ),
        (PhaseView::Checking(target, data), DownlinkEventView::Checked(blocked)) => if blocked {
            (in_phase(state, PhaseView::Idle), DownlinkActionView::Wait)
        } else {
            match target {
                AddressView::SocketAddress(addr) => attempt(state, addr, data, false),
                AddressView::DomainNameAddress(name, port) => (
                    in_phase(state, PhaseView::Resolving(data)),
                    DownlinkActionView::Resolve(name, port),
                ),
            }
        },
        (PhaseView::Resolving(data), DownlinkEventView::Resolved(addr)) => attempt(
            state,
            addr,
            data,
            true,
        ),
        (PhaseView::Resolving(_), DownlinkEventView::Unresolved) => (
            in_phase(state, PhaseView::Idle),
            DownlinkActionView::Wait,
        ),
        (PhaseView::Opening(target, data, several), DownlinkEventView::Opened(ok)) => if ok {
            (
                in_phase(
                    with_socket(state, family_of(target), true),
                    PhaseView::Sending(target, data, several),
                ),
                DownlinkActionView::Send(target),
            )
        } else {
            attempt_failed(state, data, several)
        },
        // A datagram that was cut short has been sent all the same.
        (PhaseView::Sending(_, data, several), DownlinkEventView::Sent(sent)) => if sent is Some {
            (in_phase(state, PhaseView::Idle), DownlinkActionView::Wait)
        } else {
            attempt_failed(state, data, several)
        },
        (PhaseView::Writing, DownlinkEventView::Written(ok)) => if ok {
            (in_phase(state, PhaseView::Idle), DownlinkActionView::Wait)
        } else {
            (in_phase(state, PhaseView::Finished), DownlinkActionView::Finish(false))
        },
        _ => (state, DownlinkActionView::Unexpected),
    }
}

/// A downlink that has done nothing yet.
pub open spec fn downlink_new(mode: ModeView, caps: IpStackCapabilities) -> DownlinkView {
    DownlinkView { mode, caps, ipv4_open: false, ipv6_open: false, phase: PhaseView::Idle }
}

/// Remote to client: frames the replies, and sends the datagrams of the uplink.
#[derive(Debug)]
pub struct Downlink {
    mode: Mode,
    caps: IpStackCapabilities,
    ipv4_open: bool,
    ipv6_open: bool,
    phase: Phase,
}

impl View for Downlink {
    type V = DownlinkView;

    closed spec fn view(&self) -> DownlinkView {
        DownlinkView {
            mode: self.mode@,
            caps: self.caps,
            ipv4_open: self.ipv4_open,
            ipv6_open: self.ipv6_open,
            phase: self.phase@,
        }
    }
}

impl Downlink {
    /// The downlink of a tunnel in this mode, on an IP stack with these capabilities.
    pub fn new(mode: Mode, caps: IpStackCapabilities) -> (downlink: Self)
        ensures
            downlink@ == downlink_new(mode@, caps),
    {
        Downlink { mode, caps, ipv4_open: false, ipv6_open: false, phase: Phase::Idle }
    }

    /// Whether there is a socket of this family.
    pub fn is_open(&self, family: AddrFamily) -> (open: bool)
        ensures
            open == socket_open(self@, family),
    {
        match family {
            AddrFamily::Ipv4 => self.ipv4_open,
            AddrFamily::Ipv6 => self.ipv6_open,
        }
    }

    /// The datagram that is being sent, if one is.
    pub fn payload(&self) -> (data: Option<&Vec<u8>>)
        ensures
            match self@.phase {
                PhaseView::Sending(_, sent, _) => data matches Some(d) && d@ == sent,
                _ => data is None,
            },
    {
        match &self.phase {
            Phase::Sending(_, data, _) => Some(data),
            _ => None,
        }
    }

    /// Notes that the socket of this family is there, or not.
    fn set_open(&mut self, family: AddrFamily, open: bool)
        ensures
            final(self)@ == with_socket(old(self)@, family, open),
    {
        match family {
            AddrFamily::Ipv4 => {
                self.ipv4_open = open;
            },
            AddrFamily::Ipv6 => {
                self.ipv6_open = open;
            },
        }
    }

    /// Sends a datagram to an address, or first creates the socket for it.
    fn start_attempt(&mut self, addr: SocketAddr, data: Vec<u8>, several: bool) -> (action:
        DownlinkAction)
        ensures
            (final(self)@, action@) == attempt(old(self)@, addr, data@, several),
    {
        let target: SocketAddr = outbound_target(self.caps, addr);
        let family: AddrFamily = target.family();
        if self.is_open(family) {
            self.phase = Phase::Sending(target, data, several);
            DownlinkAction::Send(target)
        } else {
            self.phase = Phase::Opening(target, data, several);
            DownlinkAction::Open(family)
        }
    }

    /// Gives up on an address. One unreachable destination must not tear down the whole tunnel.
    fn fail_attempt(&mut self, data: Vec<u8>, several: bool) -> (action: DownlinkAction)
        ensures
            (final(self)@, action@) == attempt_failed(old(self)@, data@, several),
    {
        if several {
            self.phase = Phase::Resolving(data);
            DownlinkAction::TryNext
        } else {
            self.phase = Phase::Idle;
            DownlinkAction::Wait
        }
    }

    /// Takes in an event and says what is to be done next.
    pub fn step(&mut self, event: DownlinkEvent<'_>) -> (action: DownlinkAction)
        ensures
            (final(self)@, action@) == downlink_step(old(self)@, event@),
    {
        let mut phase: Phase = Phase::Idle;
        std::mem::swap(&mut self.phase, &mut phase);
        match (phase, event) {
            (Phase::Idle, DownlinkEvent::Packet(target, data)) => {
                let action = DownlinkAction::Check(target.clone());
                self.phase = Phase::Checking(target, data);
                action
            },
            (Phase::Idle, DownlinkEvent::UplinkDone) => {
                self.phase = Phase::Finished;
                DownlinkAction::Finish(true)
            },
            (Phase::Idle, DownlinkEvent::Received(source, data)) => {
                let mut frame: Vec<u8> = Vec::new();
                if write_respond_packet(&mut frame, &self.mode, source, data) {
                    self.phase = Phase::Writing;
                    DownlinkAction::Write(frame)
                } else {
                    DownlinkAction::Wait
                }
            },
            (Phase::Idle, DownlinkEvent::ReceiveFailed(family)) => {
                self.set_open(family, false);
                DownlinkAction::Close(family)
            },
            (Phase::Checking(target, data), DownlinkEvent::Checked(blocked)) => {
                if blocked {
                    DownlinkAction::Wait
                } else {
                    match target {
                        Address::SocketAddress(addr) => self.start_attempt(addr, data, false),
                        Address::DomainNameAddress(name, port) => {
                            self.phase = Phase::Resolving(data);
                            DownlinkAction::Resolve(name, port)
                        },
                    }
                }
            },
            (Phase::Resolving(data), DownlinkEvent::Resolved(addr)) => {
                self.start_attempt(addr, data, true)
            },
            (Phase::Resolving(_), DownlinkEvent::Unresolved) => DownlinkAction::Wait,
            (Phase::Opening(target, data, several), DownlinkEvent::Opened(ok)) => {
                if ok {
                    self.set_open(target.family(), true);
                    self.phase = Phase::Sending(target, data, several);
                    DownlinkAction::Send(target)
                } else {
                    self.fail_attempt(data, several)
                }
            },
            (Phase::Sending(_, data, several), DownlinkEvent::Sent(sent)) => {
                if sent.is_some() {
                    DownlinkAction::Wait
                } else {
                    self.fail_attempt(data, several)
                }
            },
            (Phase::Writing, DownlinkEvent::Written(ok)) => {
                if ok {
                    DownlinkAction::Wait
                } else {
                    self.phase = Phase::Finished;
                    DownlinkAction::Finish(false)
                }
            },
            (phase, _) => {
                self.phase = phase;
                DownlinkAction::Unexpected
            },
        }
    }
}

} // verus!
