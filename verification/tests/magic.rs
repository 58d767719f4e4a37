//! Which addresses ask for a tunnel.

use uot::address::{Address, SocketAddr, SocketAddrV4};
use uot::magic::{detect_magic, UotVersion, UOT_V1_MAGIC_ADDRESS, UOT_V2_MAGIC_ADDRESS};

fn domain(name: &str, port: u16) -> Address {
    Address::DomainNameAddress(name.to_owned(), port)
}

#[test]
fn detect_magic_matches_both_versions() {
    assert_eq!(detect_magic(&domain("sp.udp-over-tcp.arpa", 0)), Some(UotVersion::V1));
    assert_eq!(detect_magic(&domain("sp.v2.udp-over-tcp.arpa", 0)), Some(UotVersion::V2));
    // The port is not part of the signal
    assert_eq!(detect_magic(&domain("sp.udp-over-tcp.arpa", 53)), Some(UotVersion::V1));
    assert_eq!(detect_magic(&domain("www.example.com", 0)), None);
    let peer_addr = SocketAddr::V4(SocketAddrV4 { ip: [127, 0, 0, 1], port: 12345 });
    assert_eq!(detect_magic(&Address::SocketAddress(peer_addr)), None);
}

#[test]
fn port_is_no_signal() {
    for port in [0u16, 1, 53, 443, 65535] {
        assert_eq!(detect_magic(&domain("sp.udp-over-tcp.arpa", port)), Some(UotVersion::V1));
        assert_eq!(detect_magic(&domain("sp.v2.udp-over-tcp.arpa", port)), Some(UotVersion::V2));
        assert_eq!(detect_magic(&domain("sp.v3.udp-over-tcp.arpa", port)), None);
    }
}

#[test]
fn only_the_exact_domain_is_magic() {
    assert_eq!(UOT_V1_MAGIC_ADDRESS, "sp.udp-over-tcp.arpa");
    assert_eq!(UOT_V2_MAGIC_ADDRESS, "sp.v2.udp-over-tcp.arpa");
    for name in [
        "",
        "udp-over-tcp.arpa",
        "sp.udp-over-tcp.arpa.",
        "SP.UDP-OVER-TCP.ARPA",
        "sp.udp-over-tcp.arp",
        " sp.udp-over-tcp.arpa",
        "sp.v2.udp-over-tcp.arpa.example.com",
    ] {
        assert_eq!(detect_magic(&domain(name, 0)), None, "{name}");
    }
}
