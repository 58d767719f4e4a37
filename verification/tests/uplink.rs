//! What a tunnel does with the stream of its client.

use uot::address::{Address, SocketAddr, SocketAddrV4};
use uot::error::{Eof, UotError};
use uot::magic::UotVersion;
use uot::stream::{read_frame, Progress, StreamReader};
use uot::uplink::{Uplink, UplinkAction, UplinkEvent};
use uot::wire::{write_frame_address, Mode};

fn v4(ip: [u8; 4], port: u16) -> SocketAddr {
    SocketAddr::V4(SocketAddrV4 { ip, port })
}

fn frame(addr: &SocketAddr, payload: &[u8]) -> Vec<u8> {
    let mut bytes = Vec::new();
    write_frame_address(&mut bytes, addr);
    bytes.extend_from_slice(&(payload.len() as u16).to_be_bytes());
    bytes.extend_from_slice(payload);
    bytes
}

/// The mode, the datagrams and the end of a tunnel whose stream comes in these pieces.
fn drive(
    version: UotVersion,
    pieces: &[&[u8]],
) -> (Option<Mode>, Vec<(Address, Vec<u8>)>, Result<(), UotError>) {
    let mut uplink = Uplink::new(version);
    let mut mode = None;
    let mut datagrams = Vec::new();
    let mut pending = pieces.iter();
    let mut event = UplinkEvent::Start;
    loop {
        event = match uplink.step(event) {
            UplinkAction::Establish(established) => {
                mode = Some(established);
                UplinkEvent::Start
            }
            UplinkAction::Read => match pending.next() {
                Some(piece) => UplinkEvent::Received(piece),
                None => UplinkEvent::Closed,
            },
            UplinkAction::Forward(target, data) => {
                datagrams.push((target, data));
                UplinkEvent::Forwarded(true)
            }
            UplinkAction::Finish(end) => return (mode, datagrams, end),
        };
    }
}

#[test]
fn pieces_do_not_matter() {
    let first = v4([1, 2, 3, 4], 5);
    let second = v4([6, 7, 8, 9], 10);
    let mut stream = vec![0, 1, 0, 0, 0, 0, 0, 0];
    stream.extend_from_slice(&frame(&first, b"one"));
    stream.extend_from_slice(&frame(&second, b""));
    stream.extend_from_slice(&frame(&first, b"three"));
    let expected = (
        Some(Mode::PerPacket),
        vec![
            (Address::SocketAddress(first), b"one".to_vec()),
            (Address::SocketAddress(second), Vec::new()),
            (Address::SocketAddress(first), b"three".to_vec()),
        ],
        Ok(()),
    );
    assert_eq!(drive(UotVersion::V2, &[&stream[..]]), expected);
    for size in 1..stream.len() {
        let pieces: Vec<&[u8]> = stream.chunks(size).collect();
        assert_eq!(drive(UotVersion::V2, &pieces), expected);
    }
}

#[test]
fn v1_tunnel_forwards_what_was_framed() {
    let addr = v4([10, 0, 0, 1], 53);
    let mut stream = frame(&addr, b"a");
    stream.extend_from_slice(&frame(&addr, b"b"));
    assert_eq!(
        drive(UotVersion::V1, &[&stream[..]]),
        (
            Some(Mode::PerPacket),
            vec![
                (Address::SocketAddress(addr), b"a".to_vec()),
                (Address::SocketAddress(addr), b"b".to_vec()),
            ],
            Ok(()),
        )
    );
}

#[test]
fn v2_connected_tunnel_forwards_what_was_framed() {
    let target = Address::DomainNameAddress("example.com".to_owned(), 53);
    let stream = b"\x01\x03\x0bexample.com\x00\x35\x00\x03one\x00\x00";
    assert_eq!(
        drive(UotVersion::V2, &[&stream[..]]),
        (
            Some(Mode::Connected(target.clone())),
            vec![(target.clone(), b"one".to_vec()), (target, Vec::new())],
            Ok(()),
        )
    );
}

#[test]
fn non_connect_header_has_no_effect() {
    let header = b"\x00\x03\x0bexample.com\x00\x35";
    let whole = frame(&v4([10, 0, 0, 1], 53), b"whole");
    // Well-framed, cut short, empty, and malformed behind a frame.
    let mut malformed = whole.clone();
    malformed.push(9);
    for stream in [&whole[..], &whole[..9], &[], &malformed[..], &[3, 1]] {
        let mut with_header = header.to_vec();
        with_header.extend_from_slice(stream);
        assert_eq!(drive(UotVersion::V2, &[&with_header[..]]), drive(UotVersion::V1, &[stream]));
    }
}

#[test]
fn stream_that_ends_at_once() {
    assert_eq!(
        drive(UotVersion::V1, &[]),
        (Some(Mode::PerPacket), vec![], Ok(()))
    );
    assert_eq!(
        drive(UotVersion::V2, &[]),
        (None, vec![], Err(UotError::UnexpectedEof(Eof::Number)))
    );
}

#[test]
fn partial_frame_is_an_error_after_the_frames_before_it() {
    let addr = v4([10, 0, 0, 1], 53);
    let whole = frame(&addr, b"whole");
    for cut in 1..whole.len() {
        // Behind the address, the length of the payload is a number.
        let eof = if cut == 7 || cut == 8 { Eof::Number } else { Eof::Bytes };
        let mut stream = whole.clone();
        stream.extend_from_slice(&whole[..cut]);
        assert_eq!(
            drive(UotVersion::V1, &[&stream[..]]),
            (
                Some(Mode::PerPacket),
                vec![(Address::SocketAddress(addr), b"whole".to_vec())],
                Err(UotError::UnexpectedEof(eof)),
            )
        );
    }
}

#[test]
fn malformed_frame_ends_the_tunnel() {
    let addr = v4([10, 0, 0, 1], 53);
    let mut stream = frame(&addr, b"whole");
    stream.push(4);
    stream.extend_from_slice(&frame(&addr, b"never read"));
    assert_eq!(
        drive(UotVersion::V1, &[&stream[..]]),
        (
            Some(Mode::PerPacket),
            vec![(Address::SocketAddress(addr), b"whole".to_vec())],
            Err(UotError::UnknownAtyp(4)),
        )
    );
}

#[test]
fn malformed_request_ends_the_tunnel_before_it_is_established() {
    assert_eq!(
        drive(UotVersion::V2, &[&[1], &[2], &[9, 9]]),
        (None, vec![], Err(UotError::AddressTypeNotSupported(2)))
    );
    assert_eq!(
        drive(UotVersion::V2, &[&[1, 3, 1, 0xFF], &[0, 0]]),
        (None, vec![], Err(UotError::AddressDomainInvalidEncoding))
    );
}

#[test]
fn refused_datagram_ends_the_tunnel() {
    let addr = v4([10, 0, 0, 1], 53);
    let mut stream = frame(&addr, b"a");
    stream.extend_from_slice(&frame(&addr, b"b"));
    let mut uplink = Uplink::new(UotVersion::V1);
    assert_eq!(uplink.step(UplinkEvent::Start), UplinkAction::Establish(Mode::PerPacket));
    assert!(matches!(
        uplink.step(UplinkEvent::Received(&stream)),
        UplinkAction::Forward(_, _)
    ));
    // The downlink has exited; it reports the error.
    assert_eq!(uplink.step(UplinkEvent::Forwarded(false)), UplinkAction::Finish(Ok(())));
    assert_eq!(uplink.step(UplinkEvent::Received(&stream)), UplinkAction::Finish(Ok(())));
}

#[test]
fn waiting_uplink_asks_for_more() {
    let mut uplink = Uplink::new(UotVersion::V2);
    assert_eq!(uplink.step(UplinkEvent::Start), UplinkAction::Read);
    assert_eq!(uplink.step(UplinkEvent::Received(&[0, 1, 2, 3, 4, 5, 0])), UplinkAction::Read);
    assert_eq!(
        uplink.step(UplinkEvent::Received(&[53])),
        UplinkAction::Establish(Mode::PerPacket)
    );
    assert_eq!(uplink.step(UplinkEvent::Start), UplinkAction::Read);
}

#[test]
fn reader_leaves_what_follows_an_item() {
    let addr = v4([10, 0, 0, 1], 53);
    let mut reader = StreamReader::new();
    reader.feed(&frame(&addr, b"a"));
    reader.feed(&[3]);
    assert_eq!(
        read_frame(&mut reader, &Mode::PerPacket),
        Ok(Progress::Ready(Some((Address::SocketAddress(addr), b"a".to_vec()))))
    );
    reader.feed(&frame(&addr, b"b"));
    assert_eq!(read_frame(&mut reader, &Mode::PerPacket), Err(UotError::UnknownAtyp(3)));
    assert_eq!(
        read_frame(&mut reader, &Mode::PerPacket),
        Ok(Progress::Ready(Some((Address::SocketAddress(addr), b"b".to_vec()))))
    );
    assert_eq!(read_frame(&mut reader, &Mode::PerPacket), Ok(Progress::Pending));
    reader.close();
    assert_eq!(read_frame(&mut reader, &Mode::PerPacket), Ok(Progress::Ready(None)));
}
