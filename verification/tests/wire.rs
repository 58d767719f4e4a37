//! The layout of frames.

use uot::address::{Address, SocketAddr, SocketAddrV4, SocketAddrV6};
use uot::error::{Eof, UotError};
use uot::stream::{read_frame, Progress, StreamReader};
use uot::wire::{
    domain_address, parse_frame, read_frame_address, write_frame_address, write_respond_packet,
    Mode, Parse, UOT_ATYP_DOMAIN, UOT_ATYP_IPV4, UOT_ATYP_IPV6,
};

const LOCALHOST_V6: [u8; 16] = [0, 0, 0, 0, 0, 0, 0, 0, 0, 0, 0, 0, 0, 0, 0, 1];

fn v4(ip: [u8; 4], port: u16) -> SocketAddr {
    SocketAddr::V4(SocketAddrV4 { ip, port })
}

fn v6(ip: [u8; 16], port: u16) -> SocketAddr {
    SocketAddr::V6(SocketAddrV6 { ip, port, flowinfo: 0, scope_id: 0 })
}

fn domain(name: &str, port: u16) -> Address {
    Address::DomainNameAddress(name.to_owned(), port)
}

/// `| ATYP | address | port | length | data |`
fn encode_frame(source_addr: &SocketAddr, payload: &[u8]) -> Vec<u8> {
    let mut frame = Vec::new();
    write_frame_address(&mut frame, source_addr);
    frame.extend_from_slice(&(payload.len() as u16).to_be_bytes());
    frame.extend_from_slice(payload);
    frame
}

fn encode_frame_bytes(addr: &[u8], payload: &[u8]) -> Vec<u8> {
    let mut frame = addr.to_vec();
    frame.extend_from_slice(&(payload.len() as u16).to_be_bytes());
    frame.extend_from_slice(payload);
    frame
}

fn whole_stream(data: &[u8]) -> StreamReader {
    let mut reader = StreamReader::new();
    reader.feed(data);
    reader.close();
    reader
}

fn next(reader: &mut StreamReader, mode: &Mode) -> Result<Option<(Address, Vec<u8>)>, UotError> {
    match read_frame(reader, mode) {
        Ok(Progress::Ready(datagram)) => Ok(datagram),
        Ok(Progress::Pending) => panic!("the stream has ended, nothing can be pending"),
        Err(err) => Err(err),
    }
}

fn read_one(data: &[u8], mode: &Mode) -> Result<Option<(Address, Vec<u8>)>, UotError> {
    next(&mut whole_stream(data), mode)
}

#[test]
fn read_frame_address_parses_all_atyps() {
    let ipv4 = [UOT_ATYP_IPV4, 192, 168, 1, 1, 0x1F, 0x90];
    let (addr, payload) =
        read_one(&encode_frame_bytes(&ipv4, b"v4"), &Mode::PerPacket).unwrap().unwrap();
    // 192.168.1.1:8080
    assert_eq!(addr, Address::SocketAddress(v4([192, 168, 1, 1], 8080)));
    assert_eq!(payload, b"v4");

    let mut ipv6 = vec![UOT_ATYP_IPV6];
    ipv6.extend_from_slice(&LOCALHOST_V6);
    ipv6.extend_from_slice(&443u16.to_be_bytes());
    let (addr, payload) =
        read_one(&encode_frame_bytes(&ipv6, b"v6"), &Mode::PerPacket).unwrap().unwrap();
    // [::1]:443
    assert_eq!(addr, Address::SocketAddress(v6(LOCALHOST_V6, 443)));
    assert_eq!(payload, b"v6");

    let mut name = vec![UOT_ATYP_DOMAIN, 11];
    name.extend_from_slice(b"example.com");
    name.extend_from_slice(&53u16.to_be_bytes());
    let (addr, payload) =
        read_one(&encode_frame_bytes(&name, b"dns"), &Mode::PerPacket).unwrap().unwrap();
    assert_eq!(addr, domain("example.com", 53));
    assert_eq!(payload, b"dns");
}

/// The frame ATYPs are not the SOCKS5 ones: `0x01` is IPv6 here, IPv4 in SOCKS5.
#[test]
fn read_frame_address_rejects_socks5_atyps() {
    for atyp in [0x03u8, 0x04u8] {
        let err = read_one(&[atyp, 1, 2, 3, 4, 5, 6, 7, 8], &Mode::PerPacket).unwrap_err();
        let text = err.message();
        assert!(text.contains("unknown uot ATYP"), "{text}");
    }

    // ATYP 0x01 is IPv4 in SOCKS5, IPv6 here
    let mut socks5_ipv4 = vec![0x01u8, 1, 2, 3, 4];
    socks5_ipv4.extend_from_slice(&[0u8; 12]);
    socks5_ipv4.extend_from_slice(&53u16.to_be_bytes());

    let (addr, _) =
        read_one(&encode_frame_bytes(&socks5_ipv4, b""), &Mode::PerPacket).unwrap().unwrap();
    // [102:304::]:53
    let ip = [1, 2, 3, 4, 0, 0, 0, 0, 0, 0, 0, 0, 0, 0, 0, 0];
    assert_eq!(addr, Address::SocketAddress(v6(ip, 53)));
}

#[test]
fn write_frame_address_is_byte_exact() {
    let mut buf = Vec::new();
    write_frame_address(&mut buf, &v4([192, 168, 1, 1], 8080));
    assert_eq!(buf, vec![UOT_ATYP_IPV4, 192, 168, 1, 1, 0x1F, 0x90]);

    let mut expected = vec![UOT_ATYP_IPV6];
    expected.extend_from_slice(&LOCALHOST_V6);
    expected.extend_from_slice(&443u16.to_be_bytes());

    let mut buf = Vec::new();
    write_frame_address(&mut buf, &v6(LOCALHOST_V6, 443));
    assert_eq!(buf, expected);
}

#[test]
fn read_frame_handles_coalesced_frames() {
    let first = v4([192, 168, 1, 1], 8080);
    let second = v6(LOCALHOST_V6, 443);

    // One read is not one datagram: two frames concatenated, plus an empty payload one.
    let mut stream = encode_frame(&first, b"one");
    stream.extend_from_slice(&encode_frame(&second, b"two"));
    stream.extend_from_slice(&encode_frame(&first, b""));

    let mut reader = whole_stream(&stream);
    for expected in [
        (Address::SocketAddress(first), b"one".to_vec()),
        (Address::SocketAddress(second), b"two".to_vec()),
        (Address::SocketAddress(first), Vec::new()),
    ] {
        assert_eq!(next(&mut reader, &Mode::PerPacket).unwrap().unwrap(), expected);
    }

    // Closed at a frame boundary
    assert!(next(&mut reader, &Mode::PerPacket).unwrap().is_none());
}

#[test]
fn read_frame_handles_maximum_payload() {
    let addr = v4([192, 168, 1, 1], 8080);
    let payload = vec![0xABu8; u16::MAX as usize];

    let (_, read_payload) =
        read_one(&encode_frame(&addr, &payload), &Mode::PerPacket).unwrap().unwrap();
    assert_eq!(read_payload, payload);
}

#[test]
fn read_frame_rejects_partial_frame() {
    let addr = v4([192, 168, 1, 1], 8080);
    let frame = encode_frame(&addr, b"truncated");

    for cut in 1..frame.len() {
        let err = read_one(&frame[..cut], &Mode::PerPacket).unwrap_err();
        assert!(matches!(err, UotError::UnexpectedEof(_)), "cut at {cut}");
    }
}

#[test]
fn read_frame_reassembles_fragments() {
    let addr = v4([192, 168, 1, 1], 8080);
    let frame = encode_frame(&addr, b"fragmented payload");

    let mut reader = StreamReader::new();
    let mut datagram = None;
    for chunk in frame.chunks(3) {
        assert_eq!(datagram, None);
        reader.feed(chunk);
        match read_frame(&mut reader, &Mode::PerPacket).unwrap() {
            Progress::Ready(read) => datagram = read,
            Progress::Pending => {}
        }
    }

    let (read_addr, payload) = datagram.unwrap();
    assert_eq!(read_addr, Address::SocketAddress(addr));
    assert_eq!(payload, b"fragmented payload");
}

#[test]
fn read_frame_connected_mode_has_no_address() {
    let target_addr = domain("example.com", 53);
    let mode = Mode::Connected(target_addr.clone());

    let mut stream = Vec::new();
    stream.extend_from_slice(&3u16.to_be_bytes());
    stream.extend_from_slice(b"one");
    stream.extend_from_slice(&0u16.to_be_bytes());

    let mut reader = whole_stream(&stream);
    assert_eq!(
        next(&mut reader, &mode).unwrap().unwrap(),
        (target_addr.clone(), b"one".to_vec())
    );
    assert_eq!(next(&mut reader, &mode).unwrap().unwrap(), (target_addr, Vec::new()));
    assert!(next(&mut reader, &mode).unwrap().is_none());
}

#[test]
fn frame_addresses_end_where_they_end() {
    let mut bytes = vec![UOT_ATYP_DOMAIN, 11];
    bytes.extend_from_slice(b"example.com");
    bytes.extend_from_slice(&[0, 53, 0xAA, 0xBB]);
    assert_eq!(read_frame_address(&bytes), Parse::Complete(domain("example.com", 53), 15));
    assert_eq!(
        read_frame_address(&[UOT_ATYP_IPV4, 1, 2, 3, 4, 0, 7, 9]),
        Parse::Complete(Address::SocketAddress(v4([1, 2, 3, 4], 7)), 7)
    );
    assert_eq!(read_frame_address(&[]), Parse::Incomplete(Eof::Number));
    assert_eq!(
        read_frame_address(&[UOT_ATYP_IPV4, 1, 2, 3, 4, 0]),
        Parse::Incomplete(Eof::Bytes)
    );
    assert_eq!(read_frame_address(&[UOT_ATYP_IPV6; 18]), Parse::Incomplete(Eof::Bytes));
    assert_eq!(read_frame_address(&[UOT_ATYP_DOMAIN]), Parse::Incomplete(Eof::Number));
    assert_eq!(
        read_frame_address(&[UOT_ATYP_DOMAIN, 1, b'a', 0]),
        Parse::Incomplete(Eof::Bytes)
    );
}

#[test]
fn domain_names_may_be_empty_or_of_full_length() {
    assert_eq!(
        read_frame_address(&[UOT_ATYP_DOMAIN, 0, 0x12, 0x34]),
        Parse::Complete(domain("", 0x1234), 4)
    );
    let long = "d".repeat(255);
    let mut bytes = vec![UOT_ATYP_DOMAIN, 255];
    bytes.extend_from_slice(long.as_bytes());
    bytes.extend_from_slice(&[0, 1]);
    assert_eq!(read_frame_address(&bytes), Parse::Complete(domain(&long, 1), 259));
}

#[test]
fn domain_names_are_utf8() {
    let name = "b\u{fc}cher.example";
    let mut bytes = vec![UOT_ATYP_DOMAIN, name.len() as u8];
    bytes.extend_from_slice(name.as_bytes());
    bytes.extend_from_slice(&[0x1F, 0x90]);
    assert_eq!(name.len(), 15);
    assert_eq!(read_frame_address(&bytes), Parse::Complete(domain(name, 8080), 19));
}

#[test]
fn invalid_domain_says_why() {
    let bytes = [UOT_ATYP_DOMAIN, 3, b'a', 0xFF, b'b', 0, 53];
    let reason = "invalid utf-8 sequence of 1 bytes from index 1";
    assert_eq!(
        read_frame_address(&bytes),
        Parse::Malformed(UotError::InvalidDomain(reason.to_owned()), 7)
    );
    let err = read_one(&bytes, &Mode::PerPacket).unwrap_err();
    assert_eq!(
        err.message(),
        "invalid uot domain: invalid utf-8 sequence of 1 bytes from index 1"
    );

    // A character that the length cuts in two.
    let err = read_one(&[UOT_ATYP_DOMAIN, 2, b'a', 0xC3, 0, 53], &Mode::PerPacket).unwrap_err();
    assert_eq!(
        err.message(),
        "invalid uot domain: incomplete utf-8 byte sequence from index 1"
    );
}

#[test]
fn domain_address_takes_what_was_decoded() {
    assert_eq!(domain_address(Ok("a.b".to_owned()), 9), Ok(domain("a.b", 9)));
    assert_eq!(
        domain_address(Err("no".to_owned()), 9),
        Err(UotError::InvalidDomain("no".to_owned()))
    );
}

#[test]
fn unknown_atyps_are_refused_at_once() {
    for atyp in 3..=255u8 {
        assert_eq!(
            parse_frame(&[atyp], &Mode::PerPacket),
            Parse::Malformed(UotError::UnknownAtyp(atyp), 1)
        );
    }
}

#[test]
fn written_frames_are_read_back() {
    let sources = [v4([8, 8, 4, 4], 53), v6([0xfd; 16], 65535), v4([0, 0, 0, 0], 0)];
    for source in sources {
        for data in [&b""[..], &b"x"[..], &[0u8; 300][..]] {
            let mut frame = vec![1, 2, 3];
            assert!(write_respond_packet(&mut frame, &Mode::PerPacket, source, data));
            let len = frame.len();
            frame.extend_from_slice(b"more");
            assert_eq!(
                parse_frame(&frame, &Mode::PerPacket),
                Parse::Complete((Address::SocketAddress(source), data.to_vec()), len)
            );
        }
    }
}

#[test]
fn read_frames_were_written() {
    // Whatever bytes a frame is read from, framing the datagram again gives those bytes.
    let bytes = [UOT_ATYP_IPV4, 9, 8, 7, 6, 0x01, 0x02, 0, 3, 10, 11, 12];
    match parse_frame(&bytes, &Mode::PerPacket) {
        Parse::Complete((Address::SocketAddress(addr), data), used) => {
            let mut frame = Vec::new();
            assert!(write_respond_packet(&mut frame, &Mode::PerPacket, addr, &data));
            assert_eq!(used, bytes.len());
            assert_eq!(frame, bytes);
        }
        other => panic!("{other:?}"),
    }
}

#[test]
fn more_bytes_change_no_frame() {
    let mut bytes = encode_frame(&v4([1, 1, 1, 1], 1), b"abc");
    let alone = parse_frame(&bytes, &Mode::PerPacket);
    bytes.extend_from_slice(&[0xEE; 100]);
    assert_eq!(parse_frame(&bytes, &Mode::PerPacket), alone);

    assert_eq!(
        parse_frame(&[7, 7, 7], &Mode::PerPacket),
        parse_frame(&[7], &Mode::PerPacket)
    );
}

#[test]
fn partial_frames_are_incomplete() {
    let frame = encode_frame(&v6([3; 16], 9), b"payload");
    for cut in 0..frame.len() {
        // ATYP, then 18 bytes of address and port, then the length, then the payload.
        let eof = if cut == 0 || cut == 19 || cut == 20 { Eof::Number } else { Eof::Bytes };
        assert_eq!(parse_frame(&frame[..cut], &Mode::PerPacket), Parse::Incomplete(eof));
    }
    let connected = Mode::Connected(domain("example.com", 53));
    for cut in 0..5 {
        let eof = if cut < 2 { Eof::Number } else { Eof::Bytes };
        assert_eq!(parse_frame(&[0, 3, 1, 2, 3][..cut], &connected), Parse::Incomplete(eof));
    }
}

#[test]
fn partial_frames_break_off_as_tokio_reads_them() {
    // Inside a payload, and inside its length.
    let frame = encode_frame(&v4([192, 168, 1, 1], 8080), b"truncated");
    let err = read_one(&frame[..12], &Mode::PerPacket).unwrap_err();
    assert_eq!(err.message(), "early eof");
    let err = read_one(&frame[..8], &Mode::PerPacket).unwrap_err();
    assert_eq!(err.message(), "unexpected end of file");

    let mut buf = [0u8; 4];
    let mut short: &[u8] = &[1, 2];
    let run = tokio::io::AsyncReadExt::read_exact(&mut short, &mut buf);
    let run = futures::FutureExt::now_or_never(run).unwrap().unwrap_err();
    assert_eq!(run.to_string(), UotError::UnexpectedEof(Eof::Bytes).message());

    let mut short: &[u8] = &[1];
    let number = tokio::io::AsyncReadExt::read_u16(&mut short);
    let number = futures::FutureExt::now_or_never(number).unwrap().unwrap_err();
    assert_eq!(number.to_string(), UotError::UnexpectedEof(Eof::Number).message());
}

#[test]
fn longest_unfinished_frame_is_one_byte_short() {
    let mut bytes = vec![UOT_ATYP_DOMAIN, 255];
    bytes.extend_from_slice(&[b'd'; 255]);
    bytes.extend_from_slice(&[0, 1, 0xFF, 0xFF]);
    bytes.resize(2 + 255 + 2 + 2 + 65535 - 1, 0);
    assert_eq!(parse_frame(&bytes, &Mode::PerPacket), Parse::Incomplete(Eof::Bytes));
    bytes.push(0);
    match parse_frame(&bytes, &Mode::PerPacket) {
        Parse::Complete((_, data), used) => {
            assert_eq!(data.len(), 65535);
            assert_eq!(used, bytes.len());
        }
        other => panic!("{other:?}"),
    }
}

#[test]
fn responses_are_framed_byte_exactly() {
    let mut frame = vec![0xEE; 5];
    let source = v4([10, 0, 0, 1], 0x0102);
    assert!(write_respond_packet(&mut frame, &Mode::PerPacket, source, b"pong"));
    assert_eq!(frame, [UOT_ATYP_IPV4, 10, 0, 0, 1, 1, 2, 0, 4, b'p', b'o', b'n', b'g']);

    let connected = Mode::Connected(domain("example.com", 53));
    assert!(write_respond_packet(&mut frame, &connected, source, b"pong"));
    assert_eq!(frame, [0, 4, b'p', b'o', b'n', b'g']);
}

#[test]
fn responses_name_mapped_sources_by_their_ipv4_address() {
    let mapped = [0, 0, 0, 0, 0, 0, 0, 0, 0, 0, 0xff, 0xff, 1, 2, 3, 4];
    let mut frame = Vec::new();
    assert!(write_respond_packet(&mut frame, &Mode::PerPacket, v6(mapped, 53), b""));
    assert_eq!(frame, [UOT_ATYP_IPV4, 1, 2, 3, 4, 0, 53, 0, 0]);
}

#[test]
fn oversized_responses_are_not_framed() {
    let source = v4([10, 0, 0, 1], 1);
    let mut frame = vec![0xEE; 5];
    assert!(!write_respond_packet(&mut frame, &Mode::PerPacket, source, &[0u8; 65536]));
    assert_eq!(frame, [0xEE; 5]);
    assert!(write_respond_packet(&mut frame, &Mode::PerPacket, source, &[1u8; 65535]));
    assert_eq!(frame.len(), 7 + 2 + 65535);
    assert_eq!(&frame[7..9], &[0xFF, 0xFF]);
}
