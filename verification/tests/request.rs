//! The request header of version 2.

use shadowsocks::relay::socks5::Address as Socks5Address;
use uot::address::{Address, SocketAddr, SocketAddrV4, SocketAddrV6};
use uot::error::{Eof, UotError};
use uot::request::{parse_v2_request, select_mode};
use uot::stream::{read_v2_request, Progress, StreamReader};
use uot::wire::{Mode, Parse};

fn domain(name: &str, port: u16) -> Address {
    Address::DomainNameAddress(name.to_owned(), port)
}

fn header(is_connect: u8, target: &str) -> Vec<u8> {
    let mut request = vec![is_connect];
    target.parse::<Socks5Address>().unwrap().write_to_buf(&mut request);
    request
}

fn read_whole(data: &[u8]) -> Result<Progress<Mode>, UotError> {
    let mut reader = StreamReader::new();
    reader.feed(data);
    reader.close();
    read_v2_request(&mut reader)
}

#[test]
fn read_v2_request_selects_mode() {
    let target_addr = Socks5Address::DomainNameAddress("example.com".to_owned(), 53);

    for (is_connect, connected) in [(1u8, true), (0u8, false)] {
        let mut request = vec![is_connect];
        target_addr.write_to_buf(&mut request);

        match read_whole(&request).unwrap() {
            Progress::Ready(Mode::Connected(addr)) => {
                assert!(connected);
                assert_eq!(addr, domain("example.com", 53));
            }
            Progress::Ready(Mode::PerPacket) => assert!(!connected),
            Progress::Pending => panic!("the stream has ended, nothing can be pending"),
        }
    }
}

#[test]
fn every_nonzero_byte_asks_to_connect() {
    for is_connect in 1..=255u8 {
        assert_eq!(
            select_mode(is_connect, domain("a", 1)),
            Mode::Connected(domain("a", 1))
        );
    }
    assert_eq!(select_mode(0, domain("a", 1)), Mode::PerPacket);
}

#[test]
fn request_addresses_are_socks5_ones() {
    assert_eq!(
        parse_v2_request(&header(1, "192.168.1.1:8080")),
        Parse::Complete(
            Mode::Connected(Address::SocketAddress(SocketAddr::V4(SocketAddrV4 {
                ip: [192, 168, 1, 1],
                port: 8080,
            }))),
            8,
        )
    );
    let mut ip = [0u8; 16];
    ip[0] = 0x20;
    ip[1] = 0x01;
    ip[2] = 0x0d;
    ip[3] = 0xb8;
    ip[15] = 0x35;
    assert_eq!(
        parse_v2_request(&header(2, "[2001:db8::35]:443")),
        Parse::Complete(
            Mode::Connected(Address::SocketAddress(SocketAddr::V6(SocketAddrV6 {
                ip,
                port: 443,
                flowinfo: 0,
                scope_id: 0,
            }))),
            20,
        )
    );
    assert_eq!(
        parse_v2_request(&header(1, "example.com:53")),
        Parse::Complete(Mode::Connected(domain("example.com", 53)), 16)
    );
    assert_eq!(
        parse_v2_request(&[1, 3, 3, b'a', 0xC3, 0xBC, 0, 9, 0xAA]),
        Parse::Complete(Mode::Connected(domain("a\u{fc}", 9)), 8)
    );
    assert_eq!(
        parse_v2_request(&[1, 3, 0, 0, 9]),
        Parse::Complete(Mode::Connected(domain("", 9)), 5)
    );
}

#[test]
fn request_without_connect_ignores_the_address() {
    for target in ["192.168.1.1:8080", "[2001:db8::35]:443", "example.com:53"] {
        let bytes = header(0, target);
        assert_eq!(parse_v2_request(&bytes), Parse::Complete(Mode::PerPacket, bytes.len()));
    }
}

#[test]
fn partial_requests_are_incomplete() {
    for target in ["192.168.1.1:8080", "[2001:db8::35]:443", "example.com:53"] {
        let bytes = header(1, target);
        for cut in 0..bytes.len() {
            let eof = if cut == 0 { Eof::Number } else { Eof::Bytes };
            let err = UotError::UnexpectedEof(eof);
            assert_eq!(parse_v2_request(&bytes[..cut]), Parse::Incomplete(eof));
            if cut > 0 {
                let mut reader = &bytes[1..cut];
                let read = futures::FutureExt::now_or_never(Socks5Address::read_from(&mut reader));
                assert_eq!(read.unwrap().unwrap_err().to_string(), err.message());
            }
            assert_eq!(read_whole(&bytes[..cut]).unwrap_err(), err);
        }
    }
}

#[test]
fn more_bytes_change_no_request() {
    let mut bytes = header(1, "example.com:53");
    let alone = parse_v2_request(&bytes);
    bytes.extend_from_slice(&[0xEE; 40]);
    assert_eq!(parse_v2_request(&bytes), alone);
    assert_eq!(parse_v2_request(&[1, 9, 9, 9]), parse_v2_request(&[1, 9]));
}

#[test]
fn frame_atyps_are_refused_in_requests() {
    for atyp in [0u8, 2, 5, 255] {
        assert_eq!(
            parse_v2_request(&[1, atyp]),
            Parse::Malformed(UotError::AddressTypeNotSupported(atyp), 2)
        );
    }
    assert_eq!(
        read_whole(&[0, 2, 1, 1]).unwrap_err().message(),
        "address type 0x2 not supported"
    );
}

#[test]
fn request_domains_are_utf8() {
    let bytes = [1, 3, 2, 0xFF, b'a', 0, 53, 7];
    assert_eq!(
        parse_v2_request(&bytes),
        Parse::Malformed(UotError::AddressDomainInvalidEncoding, 7)
    );
    assert_eq!(
        read_whole(&bytes).unwrap_err().message(),
        "address domain name must be UTF-8 encoding"
    );
}

#[test]
fn longest_unfinished_request_is_one_byte_short() {
    let mut bytes = vec![1, 3, 255];
    bytes.resize(1 + 2 + 255 + 2 - 1, b'd');
    assert_eq!(parse_v2_request(&bytes), Parse::Incomplete(Eof::Bytes));
    bytes.push(b'd');
    match parse_v2_request(&bytes) {
        Parse::Complete(Mode::Connected(Address::DomainNameAddress(name, port)), used) => {
            assert_eq!(name, "d".repeat(255));
            assert_eq!(port, 0x6464);
            assert_eq!(used, 260);
        }
        other => panic!("{other:?}"),
    }
}

#[test]
fn request_waits_for_its_last_byte() {
    let bytes = header(1, "192.168.1.1:8080");
    let mut reader = StreamReader::new();
    for byte in &bytes[..bytes.len() - 1] {
        reader.feed(&[*byte]);
        assert_eq!(read_v2_request(&mut reader), Ok(Progress::Pending));
    }
    reader.feed(&bytes[bytes.len() - 1..]);
    assert!(matches!(
        read_v2_request(&mut reader),
        Ok(Progress::Ready(Mode::Connected(_)))
    ));
}
