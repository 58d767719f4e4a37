//! What a tunnel does with its outbound sockets.

use uot::address::{AddrFamily, Address, SocketAddr, SocketAddrV4, SocketAddrV6};
use uot::downlink::{Downlink, DownlinkAction, DownlinkEvent};
use uot::outbound::IpStackCapabilities;
use uot::wire::{parse_frame, Mode, Parse};

fn v4(ip: [u8; 4], port: u16) -> SocketAddr {
    SocketAddr::V4(SocketAddrV4 { ip, port })
}

fn v6(ip: [u8; 16], port: u16) -> SocketAddr {
    SocketAddr::V6(SocketAddrV6 { ip, port, flowinfo: 0, scope_id: 0 })
}

fn plain() -> IpStackCapabilities {
    IpStackCapabilities { support_ipv4: true, support_ipv6: true, support_ipv4_mapped_ipv6: false }
}

fn mapping() -> IpStackCapabilities {
    IpStackCapabilities { support_ipv4_mapped_ipv6: true, ..plain() }
}

fn packet(target: SocketAddr, data: &[u8]) -> DownlinkEvent<'static> {
    DownlinkEvent::Packet(Address::SocketAddress(target), data.to_vec())
}

fn domain_packet(data: &[u8]) -> DownlinkEvent<'static> {
    DownlinkEvent::Packet(Address::DomainNameAddress("example.com".to_owned(), 53), data.to_vec())
}

/// A downlink with a socket of the family of this target.
fn opened(caps: IpStackCapabilities, target: SocketAddr) -> Downlink {
    let mut downlink = Downlink::new(Mode::PerPacket, caps);
    downlink.step(packet(target, b"first"));
    assert!(matches!(downlink.step(DownlinkEvent::Checked(false)), DownlinkAction::Open(_)));
    assert!(matches!(downlink.step(DownlinkEvent::Opened(true)), DownlinkAction::Send(_)));
    assert_eq!(downlink.step(DownlinkEvent::Sent(Some(5))), DownlinkAction::Wait);
    downlink
}

#[test]
fn allowed_datagram_is_sent() {
    let target = v4([1, 2, 3, 4], 5);
    let mut downlink = Downlink::new(Mode::PerPacket, plain());
    assert_eq!(
        downlink.step(packet(target, b"data")),
        DownlinkAction::Check(Address::SocketAddress(target))
    );
    assert_eq!(downlink.payload(), None);
    assert_eq!(
        downlink.step(DownlinkEvent::Checked(false)),
        DownlinkAction::Open(AddrFamily::Ipv4)
    );
    assert!(!downlink.is_open(AddrFamily::Ipv4));
    assert_eq!(downlink.step(DownlinkEvent::Opened(true)), DownlinkAction::Send(target));
    assert!(downlink.is_open(AddrFamily::Ipv4));
    assert!(!downlink.is_open(AddrFamily::Ipv6));
    assert_eq!(downlink.payload(), Some(&b"data".to_vec()));
    assert_eq!(downlink.step(DownlinkEvent::Sent(Some(4))), DownlinkAction::Wait);
    assert_eq!(downlink.payload(), None);
}

#[test]
fn mapping_stack_sends_from_an_ipv6_socket() {
    let mapped = [0, 0, 0, 0, 0, 0, 0, 0, 0, 0, 0xff, 0xff, 1, 2, 3, 4];
    let mut downlink = Downlink::new(Mode::PerPacket, mapping());
    downlink.step(packet(v4([1, 2, 3, 4], 5), b"data"));
    assert_eq!(
        downlink.step(DownlinkEvent::Checked(false)),
        DownlinkAction::Open(AddrFamily::Ipv6)
    );
    assert_eq!(
        downlink.step(DownlinkEvent::Opened(true)),
        DownlinkAction::Send(v6(mapped, 5))
    );
    assert!(downlink.is_open(AddrFamily::Ipv6));
}

#[test]
fn blocked_datagram_is_dropped() {
    let target = v4([1, 2, 3, 4], 5);
    let mut downlink = Downlink::new(Mode::PerPacket, plain());
    downlink.step(packet(target, b"data"));
    assert_eq!(downlink.step(DownlinkEvent::Checked(true)), DownlinkAction::Wait);
    assert_eq!(downlink.payload(), None);
    assert!(!downlink.is_open(AddrFamily::Ipv4));
    // The next one is asked about again.
    assert_eq!(
        downlink.step(packet(target, b"data")),
        DownlinkAction::Check(Address::SocketAddress(target))
    );
}

#[test]
fn equal_datagram_for_a_blocked_target_is_dropped() {
    let allowed = v4([1, 2, 3, 4], 5);
    let blocked = v4([6, 6, 6, 6], 6);
    let mut downlink = opened(plain(), allowed);
    downlink.step(packet(allowed, b"same"));
    assert_eq!(downlink.step(DownlinkEvent::Checked(false)), DownlinkAction::Send(allowed));
    downlink.step(DownlinkEvent::Sent(Some(4)));
    assert_eq!(
        downlink.step(packet(blocked, b"same")),
        DownlinkAction::Check(Address::SocketAddress(blocked))
    );
    assert_eq!(downlink.step(DownlinkEvent::Checked(true)), DownlinkAction::Wait);
    assert_eq!(downlink.payload(), None);
}

#[test]
fn addresses_of_another_name_are_not_tried() {
    let mut downlink = Downlink::new(Mode::PerPacket, plain());
    downlink.step(domain_packet(b"first"));
    downlink.step(DownlinkEvent::Checked(false));
    downlink.step(DownlinkEvent::Resolved(v4([1, 1, 1, 1], 53)));
    downlink.step(DownlinkEvent::Opened(true));
    downlink.step(DownlinkEvent::Sent(Some(5)));
    // The next datagram is looked up anew.
    downlink.step(domain_packet(b"second"));
    assert_eq!(
        downlink.step(DownlinkEvent::Checked(false)),
        DownlinkAction::Resolve("example.com".to_owned(), 53)
    );
    let second = v4([2, 2, 2, 2], 53);
    assert_eq!(downlink.step(DownlinkEvent::Resolved(second)), DownlinkAction::Send(second));
    assert_eq!(downlink.payload(), Some(&b"second".to_vec()));
}

#[test]
fn socket_is_reused() {
    let target = v4([1, 2, 3, 4], 5);
    let mut downlink = opened(plain(), target);
    let other = v4([9, 9, 9, 9], 9);
    downlink.step(packet(other, b"second"));
    assert_eq!(downlink.step(DownlinkEvent::Checked(false)), DownlinkAction::Send(other));
    assert_eq!(downlink.payload(), Some(&b"second".to_vec()));
}

#[test]
fn each_family_has_its_socket() {
    let mut downlink = opened(plain(), v4([1, 2, 3, 4], 5));
    let target = v6([7; 16], 8);
    downlink.step(packet(target, b"second"));
    assert_eq!(
        downlink.step(DownlinkEvent::Checked(false)),
        DownlinkAction::Open(AddrFamily::Ipv6)
    );
    assert_eq!(downlink.step(DownlinkEvent::Opened(true)), DownlinkAction::Send(target));
    assert!(downlink.is_open(AddrFamily::Ipv4));
    assert!(downlink.is_open(AddrFamily::Ipv6));
}

#[test]
fn failed_socket_is_created_anew() {
    let target = v4([1, 2, 3, 4], 5);
    let mut downlink = opened(plain(), target);
    assert_eq!(
        downlink.step(DownlinkEvent::ReceiveFailed(AddrFamily::Ipv4)),
        DownlinkAction::Close(AddrFamily::Ipv4)
    );
    assert!(!downlink.is_open(AddrFamily::Ipv4));
    downlink.step(packet(target, b"second"));
    assert_eq!(
        downlink.step(DownlinkEvent::Checked(false)),
        DownlinkAction::Open(AddrFamily::Ipv4)
    );
}

#[test]
fn unreachable_destination_does_not_end_the_tunnel() {
    let target = v4([1, 2, 3, 4], 5);
    let mut downlink = Downlink::new(Mode::PerPacket, plain());
    downlink.step(packet(target, b"data"));
    downlink.step(DownlinkEvent::Checked(false));
    assert_eq!(downlink.step(DownlinkEvent::Opened(false)), DownlinkAction::Wait);
    assert!(!downlink.is_open(AddrFamily::Ipv4));

    let mut downlink = opened(plain(), target);
    downlink.step(packet(target, b"data"));
    downlink.step(DownlinkEvent::Checked(false));
    assert_eq!(downlink.step(DownlinkEvent::Sent(None)), DownlinkAction::Wait);
    assert!(downlink.is_open(AddrFamily::Ipv4));
}

#[test]
fn addresses_of_a_name_are_tried_in_turn() {
    let mut downlink = Downlink::new(Mode::PerPacket, plain());
    downlink.step(domain_packet(b"query"));
    assert_eq!(
        downlink.step(DownlinkEvent::Checked(false)),
        DownlinkAction::Resolve("example.com".to_owned(), 53)
    );
    let first = v4([1, 1, 1, 1], 53);
    assert_eq!(
        downlink.step(DownlinkEvent::Resolved(first)),
        DownlinkAction::Open(AddrFamily::Ipv4)
    );
    assert_eq!(downlink.step(DownlinkEvent::Opened(true)), DownlinkAction::Send(first));
    assert_eq!(downlink.step(DownlinkEvent::Sent(None)), DownlinkAction::TryNext);
    let second = v6([2; 16], 53);
    assert_eq!(
        downlink.step(DownlinkEvent::Resolved(second)),
        DownlinkAction::Open(AddrFamily::Ipv6)
    );
    assert_eq!(downlink.step(DownlinkEvent::Opened(false)), DownlinkAction::TryNext);
    let third = v4([3, 3, 3, 3], 53);
    assert_eq!(downlink.step(DownlinkEvent::Resolved(third)), DownlinkAction::Send(third));
    assert_eq!(downlink.payload(), Some(&b"query".to_vec()));
    assert_eq!(downlink.step(DownlinkEvent::Sent(Some(5))), DownlinkAction::Wait);
}

#[test]
fn name_without_addresses_loses_the_datagram_only() {
    let mut downlink = Downlink::new(Mode::PerPacket, plain());
    downlink.step(domain_packet(b"query"));
    downlink.step(DownlinkEvent::Checked(false));
    assert_eq!(downlink.step(DownlinkEvent::Unresolved), DownlinkAction::Wait);
    assert_eq!(
        downlink.step(domain_packet(b"again")),
        DownlinkAction::Check(Address::DomainNameAddress("example.com".to_owned(), 53))
    );
}

#[test]
fn replies_are_framed() {
    let target = v4([1, 2, 3, 4], 5);
    let mut downlink = opened(plain(), target);
    assert_eq!(
        downlink.step(DownlinkEvent::Received(target, b"pong")),
        DownlinkAction::Write(vec![0, 1, 2, 3, 4, 0, 5, 0, 4, b'p', b'o', b'n', b'g'])
    );
    assert_eq!(downlink.step(DownlinkEvent::Written(true)), DownlinkAction::Wait);

    let connected = Mode::Connected(Address::SocketAddress(target));
    let mut downlink = Downlink::new(connected, plain());
    assert_eq!(
        downlink.step(DownlinkEvent::Received(target, b"pong")),
        DownlinkAction::Write(vec![0, 4, b'p', b'o', b'n', b'g'])
    );
}

#[test]
fn echo_keeps_the_address() {
    let target = v4([1, 2, 3, 4], 5);
    let mut downlink = Downlink::new(Mode::PerPacket, mapping());
    downlink.step(packet(target, b"ping"));
    downlink.step(DownlinkEvent::Checked(false));
    let outbound = match downlink.step(DownlinkEvent::Opened(true)) {
        DownlinkAction::Send(outbound) => outbound,
        other => panic!("{other:?}"),
    };
    downlink.step(DownlinkEvent::Sent(Some(4)));
    match downlink.step(DownlinkEvent::Received(outbound, b"ping")) {
        DownlinkAction::Write(frame) => assert_eq!(
            parse_frame(&frame, &Mode::PerPacket),
            Parse::Complete((Address::SocketAddress(target), b"ping".to_vec()), frame.len())
        ),
        other => panic!("{other:?}"),
    }
}

#[test]
fn oversized_reply_is_dropped() {
    let target = v4([1, 2, 3, 4], 5);
    let mut downlink = opened(plain(), target);
    let large = vec![0u8; 65536];
    assert_eq!(downlink.step(DownlinkEvent::Received(target, &large)), DownlinkAction::Wait);
    assert!(matches!(
        downlink.step(DownlinkEvent::Received(target, &large[1..])),
        DownlinkAction::Write(_)
    ));
}

#[test]
fn only_the_client_ends_the_tunnel() {
    let target = v4([1, 2, 3, 4], 5);
    let mut downlink = opened(plain(), target);
    assert_eq!(downlink.step(DownlinkEvent::UplinkDone), DownlinkAction::Finish(true));

    let mut downlink = opened(plain(), target);
    downlink.step(DownlinkEvent::Received(target, b"pong"));
    assert_eq!(downlink.step(DownlinkEvent::Written(false)), DownlinkAction::Finish(false));
    // What has ended stays so.
    assert_eq!(downlink.step(DownlinkEvent::UplinkDone), DownlinkAction::Unexpected);
    assert_eq!(downlink.step(packet(target, b"late")), DownlinkAction::Unexpected);
}

#[test]
fn events_out_of_turn_change_nothing() {
    let target = v4([1, 2, 3, 4], 5);
    let mut downlink = Downlink::new(Mode::PerPacket, plain());
    assert_eq!(downlink.step(DownlinkEvent::Checked(false)), DownlinkAction::Unexpected);
    assert_eq!(downlink.step(DownlinkEvent::Opened(true)), DownlinkAction::Unexpected);
    assert_eq!(downlink.step(DownlinkEvent::Written(false)), DownlinkAction::Unexpected);
    downlink.step(packet(target, b"data"));
    assert_eq!(downlink.step(packet(target, b"other")), DownlinkAction::Unexpected);
    assert_eq!(downlink.step(DownlinkEvent::UplinkDone), DownlinkAction::Unexpected);
    assert_eq!(downlink.step(DownlinkEvent::Resolved(target)), DownlinkAction::Unexpected);
    downlink.step(DownlinkEvent::Checked(false));
    downlink.step(DownlinkEvent::Opened(true));
    assert_eq!(downlink.step(DownlinkEvent::Unresolved), DownlinkAction::Unexpected);
    assert_eq!(downlink.payload(), Some(&b"data".to_vec()));
}

#[test]
fn short_send_counts_as_sent() {
    let target = v4([1, 2, 3, 4], 5);
    for n in [0, 1, 3, 4] {
        let mut downlink = opened(plain(), target);
        downlink.step(packet(target, b"data"));
        downlink.step(DownlinkEvent::Checked(false));
        assert_eq!(downlink.step(DownlinkEvent::Sent(Some(n))), DownlinkAction::Wait);

        // Also where the name has further addresses.
        downlink.step(domain_packet(b"data"));
        downlink.step(DownlinkEvent::Checked(false));
        downlink.step(DownlinkEvent::Resolved(target));
        assert_eq!(downlink.step(DownlinkEvent::Sent(Some(n))), DownlinkAction::Wait);
        assert_eq!(downlink.payload(), None);
    }
}

#[test]
fn client_reads_all_replies_in_order() {
    let first = v4([1, 2, 3, 4], 5);
    let second = v6([7; 16], 8);
    let large = vec![0u8; 65536];
    let mut downlink = Downlink::new(Mode::PerPacket, plain());
    let mut written = Vec::new();
    for (source, data) in
        [(first, &b"one"[..]), (second, &b""[..]), (first, &large[..]), (first, &b"two"[..])]
    {
        if let DownlinkAction::Write(frame) = downlink.step(DownlinkEvent::Received(source, data)) {
            written.extend_from_slice(&frame);
            // While a frame is written, nothing else is received.
            assert_eq!(
                downlink.step(DownlinkEvent::Received(second, b"lost")),
                DownlinkAction::Unexpected
            );
            downlink.step(DownlinkEvent::Written(true));
        }
    }
    let mut read = Vec::new();
    while let Parse::Complete(datagram, used) = parse_frame(&written, &Mode::PerPacket) {
        read.push(datagram);
        written.drain(..used);
    }
    assert_eq!(written, b"");
    assert_eq!(
        read,
        [
            (Address::SocketAddress(first), b"one".to_vec()),
            (Address::SocketAddress(second), Vec::new()),
            (Address::SocketAddress(first), b"two".to_vec()),
        ]
    );
}

#[test]
fn unblocked_datagrams_are_sent_once_and_in_order() {
    let target = v4([1, 2, 3, 4], 5);
    let mut downlink = opened(plain(), target);
    let mut sent = Vec::new();
    for (data, blocked, ok) in [
        (&b"a"[..], false, true),
        (&b"b"[..], true, true),
        (&b"c"[..], false, false),
        (&b"a"[..], false, true),
    ] {
        downlink.step(packet(target, data));
        if let DownlinkAction::Send(_) = downlink.step(DownlinkEvent::Checked(blocked)) {
            let payload = downlink.payload().unwrap().clone();
            let n = payload.len();
            if ok {
                sent.push(payload);
            }
            let outcome = if ok { Some(n) } else { None };
            assert_eq!(downlink.step(DownlinkEvent::Sent(outcome)), DownlinkAction::Wait);
        }
    }
    assert_eq!(sent, [b"a".to_vec(), b"a".to_vec()]);
}
