//! Whole tunnels, with a remote that echoes every datagram.

use shadowsocks::relay::socks5::Address as Socks5Address;
use uot::address::{Address, SocketAddr, SocketAddrV4};
use uot::downlink::{Downlink, DownlinkAction, DownlinkEvent};
use uot::magic::UotVersion;
use uot::outbound::IpStackCapabilities;
use uot::stream::{read_frame, Progress, StreamReader};
use uot::uplink::{Uplink, UplinkAction, UplinkEvent};
use uot::wire::{write_frame_address, Mode};

/// Where the remote is that echoes datagrams, 127.0.0.1:40053.
fn echo_addr() -> SocketAddr {
    SocketAddr::V4(SocketAddrV4 { ip: [127, 0, 0, 1], port: 40053 })
}

/// `| ATYP | address | port | length | data |`
fn encode_frame(source_addr: &SocketAddr, payload: &[u8]) -> Vec<u8> {
    let mut frame = Vec::new();
    write_frame_address(&mut frame, source_addr);
    frame.extend_from_slice(&(payload.len() as u16).to_be_bytes());
    frame.extend_from_slice(payload);
    frame
}

/// Lets a downlink send one datagram, and gives back what it writes to the client when the
/// datagram is echoed.
fn echo(downlink: &mut Downlink, target: Address, data: Vec<u8>) -> Vec<u8> {
    let mut action = downlink.step(DownlinkEvent::Packet(target, data));
    let mut echoed = None;
    loop {
        action = match action {
            DownlinkAction::Check(_) => downlink.step(DownlinkEvent::Checked(false)),
            DownlinkAction::Open(_) => downlink.step(DownlinkEvent::Opened(true)),
            DownlinkAction::Send(outbound) => {
                let payload = downlink.payload().unwrap().clone();
                let n = payload.len();
                echoed = Some((outbound, payload));
                downlink.step(DownlinkEvent::Sent(Some(n)))
            }
            DownlinkAction::Wait => {
                let (source, payload) = echoed.take().unwrap();
                downlink.step(DownlinkEvent::Received(source, &payload))
            }
            DownlinkAction::Write(frame) => {
                assert_eq!(downlink.step(DownlinkEvent::Written(true)), DownlinkAction::Wait);
                return frame;
            }
            other => panic!("{other:?}"),
        };
    }
}

/// What the client of a tunnel gets back for its stream.
fn serve(version: UotVersion, support_ipv4_mapped_ipv6: bool, stream: &[u8]) -> StreamReader {
    let caps =
        IpStackCapabilities { support_ipv4: true, support_ipv6: true, support_ipv4_mapped_ipv6 };
    let mut client = StreamReader::new();
    let mut uplink = Uplink::new(version);
    let mut downlink = None;
    let mut unsent = Some(stream);
    let mut event = UplinkEvent::Start;
    loop {
        event = match uplink.step(event) {
            UplinkAction::Establish(mode) => {
                downlink = Some(Downlink::new(mode, caps));
                UplinkEvent::Start
            }
            UplinkAction::Read => match unsent.take() {
                Some(bytes) => UplinkEvent::Received(bytes),
                None => UplinkEvent::Closed,
            },
            UplinkAction::Forward(target, data) => {
                client.feed(&echo(downlink.as_mut().unwrap(), target, data));
                UplinkEvent::Forwarded(true)
            }
            UplinkAction::Finish(end) => {
                assert_eq!(end, Ok(()));
                client.close();
                return client;
            }
        };
    }
}

fn next(client: &mut StreamReader, mode: &Mode) -> Option<(Address, Vec<u8>)> {
    match read_frame(client, mode) {
        Ok(Progress::Ready(datagram)) => datagram,
        other => panic!("{other:?}"),
    }
}

#[test]
fn serve_v1_relays_datagrams() {
    for mapped in [true, false] {
        let stream = encode_frame(&echo_addr(), b"ping");
        let mut client = serve(UotVersion::V1, mapped, &stream);

        let (source_addr, payload) = next(&mut client, &Mode::PerPacket).unwrap();
        assert_eq!(source_addr, Address::SocketAddress(echo_addr()));
        assert_eq!(payload, b"ping");
        assert_eq!(next(&mut client, &Mode::PerPacket), None);
    }
}

#[test]
fn serve_v2_connect_relays_datagrams() {
    for mapped in [true, false] {
        // Request header, then address-less frames
        let mut request = vec![1u8];
        let target: Socks5Address = "127.0.0.1:40053".parse().unwrap();
        target.write_to_buf(&mut request);
        request.extend_from_slice(&4u16.to_be_bytes());
        request.extend_from_slice(b"ping");
        let mut client = serve(UotVersion::V2, mapped, &request);

        let mode = Mode::Connected(Address::SocketAddress(echo_addr()));
        let (_, payload) = next(&mut client, &mode).unwrap();
        assert_eq!(payload, b"ping");
        assert_eq!(next(&mut client, &mode), None);
    }
}

#[test]
fn serve_v2_non_connect_relays_datagrams() {
    for mapped in [true, false] {
        // isConnect = 0, so the header's address is ignored and frames carry their own.
        let mut request = vec![0u8];
        Socks5Address::DomainNameAddress("example.com".to_owned(), 53).write_to_buf(&mut request);
        request.extend_from_slice(&encode_frame(&echo_addr(), b"ping"));
        let mut client = serve(UotVersion::V2, mapped, &request);

        let (source_addr, payload) = next(&mut client, &Mode::PerPacket).unwrap();
        assert_eq!(source_addr, Address::SocketAddress(echo_addr()));
        assert_eq!(payload, b"ping");
        assert_eq!(next(&mut client, &Mode::PerPacket), None);
    }
}
