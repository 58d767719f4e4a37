//! Laws of the views: each says what its value holds, and nothing else.

use vstd::prelude::*;

use crate::address::{AddrFamily, Address, AddressView, SocketAddr};
use crate::downlink::{DownlinkAction, DownlinkActionView, DownlinkEvent, DownlinkEventView};
use crate::error::{Eof, UotError, UotErrorView};
use crate::uplink::{UplinkAction, UplinkActionView, UplinkEvent, UplinkEventView};
use crate::wire::{Mode, ModeView, Parse, Parsed};

verus! {

/// An address says its socket address, or its name and port.
pub proof fn law_address_view(addr: SocketAddr, name: String, port: u16)
    ensures
        Address::SocketAddress(addr)@ == AddressView::SocketAddress(addr),
        Address::DomainNameAddress(name, port)@ == AddressView::DomainNameAddress(name@, port),
{
}

/// A mode says its fixed destination, if it has one.
pub proof fn law_mode_view(target: Address)
    ensures
        Mode::PerPacket@ == ModeView::PerPacket,
        Mode::Connected(target)@ == ModeView::Connected(target@),
{
}

/// An error says its kind and what comes with it.
pub proof fn law_error_view(eof: Eof, atyp: u8, reason: String)
    ensures
        UotError::UnexpectedEof(eof)@ == UotErrorView::UnexpectedEof(eof),
        UotError::UnknownAtyp(atyp)@ == UotErrorView::UnknownAtyp(atyp),
        UotError::InvalidDomain(reason)@ == UotErrorView::InvalidDomain(reason@),
        UotError::AddressTypeNotSupported(atyp)@ == UotErrorView::AddressTypeNotSupported(atyp),
        UotError::AddressDomainInvalidEncoding@ == UotErrorView::AddressDomainInvalidEncoding,
{
}

/// A parse says its item or its error, and the bytes used for it.
pub proof fn law_parse_view<T: View>(item: T, error: UotError, eof: Eof, used: usize)
    ensures
        Parse::Complete(item, used)@ == Parsed::Complete(item@, used as nat),
        Parse::<T>::Incomplete(eof)@ == Parsed::<T::V>::Incomplete(eof),
        Parse::<T>::Malformed(error, used)@ == Parsed::<T::V>::Malformed(error@, used as nat),
{
}

/// An event of an uplink says the bytes that came, or whether a datagram was taken.
pub proof fn law_uplink_event_view(event: UplinkEvent<'_>)
    ensures
        match event {
            UplinkEvent::Start => event@ == UplinkEventView::Start,
            UplinkEvent::Received(bytes) => event@ == UplinkEventView::Received(bytes@),
            UplinkEvent::Closed => event@ == UplinkEventView::Closed,
            UplinkEvent::Forwarded(accepted) => event@ == UplinkEventView::Forwarded(accepted),
        },
{
}

/// An action of an uplink says the mode, the datagram or the end.
pub proof fn law_uplink_action_view(mode: Mode, target: Address, data: Vec<u8>, error: UotError)
    ensures
        UplinkAction::Establish(mode)@ == UplinkActionView::Establish(mode@),
        UplinkAction::Read@ == UplinkActionView::Read,
        UplinkAction::Forward(target, data)@ == UplinkActionView::Forward((target@, data@)),
        UplinkAction::Finish(Ok(()))@ == UplinkActionView::Finish(Ok(())),
        UplinkAction::Finish(Err(error))@ == UplinkActionView::Finish(Err(error@)),
{
}

/// An event of a downlink says what came with it.
pub proof fn law_downlink_event_view(event: DownlinkEvent<'_>)
    ensures
        match event {
            DownlinkEvent::Packet(target, data) => event@ == DownlinkEventView::Packet(
                target@,
                data@,
            ),
            DownlinkEvent::UplinkDone => event@ == DownlinkEventView::UplinkDone,
            DownlinkEvent::Checked(blocked) => event@ == DownlinkEventView::Checked(blocked),
            DownlinkEvent::Resolved(addr) => event@ == DownlinkEventView::Resolved(addr),
            DownlinkEvent::Unresolved => event@ == DownlinkEventView::Unresolved,
            DownlinkEvent::Opened(ok) => event@ == DownlinkEventView::Opened(ok),
            DownlinkEvent::Sent(sent) => event@ == DownlinkEventView::Sent(sent),
            DownlinkEvent::Received(source, data) => event@ == DownlinkEventView::Received(
                source,
                data@,
            ),
            DownlinkEvent::ReceiveFailed(family) => event@ == DownlinkEventView::ReceiveFailed(
                family,
            ),
            DownlinkEvent::Written(ok) => event@ == DownlinkEventView::Written(ok),
        },
{
}

/// An action of a downlink says what it is to be done with.
pub proof fn law_downlink_action_view(
    target: Address,
    name: String,
    port: u16,
    family: AddrFamily,
    addr: SocketAddr,
    frame: Vec<u8>,
    ok: bool,
)
    ensures
        DownlinkAction::Wait@ == DownlinkActionView::Wait,
        DownlinkAction::Check(target)@ == DownlinkActionView::Check(target@),
        DownlinkAction::Resolve(name, port)@ == DownlinkActionView::Resolve(name@, port),
        DownlinkAction::TryNext@ == DownlinkActionView::TryNext,
        DownlinkAction::Open(family)@ == DownlinkActionView::Open(family),
        DownlinkAction::Send(addr)@ == DownlinkActionView::Send(addr),
        DownlinkAction::Close(family)@ == DownlinkActionView::Close(family),
        DownlinkAction::Write(frame)@ == DownlinkActionView::Write(frame@),
        DownlinkAction::Finish(ok)@ == DownlinkActionView::Finish(ok),
        DownlinkAction::Unexpected@ == DownlinkActionView::Unexpected,
{
}

} // verus!
