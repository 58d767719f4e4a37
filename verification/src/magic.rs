//! The magic domains that ask for a UoT tunnel.

use vstd::prelude::*;

use crate::address::{Address, AddressView, SocketAddr};

verus! {

/// Magic domain of UoT v1.
pub const UOT_V1_MAGIC_ADDRESS: &'static str = "sp.udp-over-tcp.arpa";

/// Magic domain of UoT v2.
pub const UOT_V2_MAGIC_ADDRESS: &'static str = "sp.v2.udp-over-tcp.arpa";

/// UoT protocol version, selected by the magic domain that the client requested.
#[derive(Debug, Clone, Copy, PartialEq, Eq, Structural)]
pub enum UotVersion {
    V1,
    V2,
}

/// The version that an address asks for, if it is a magic domain. The port is no part of it.
pub open spec fn magic_version(addr: AddressView) -> Option<UotVersion> {
    match addr {
        AddressView::DomainNameAddress(name, _) => if name == UOT_V1_MAGIC_ADDRESS@ {
            Some(UotVersion::V1)
        } else if name == UOT_V2_MAGIC_ADDRESS@ {
            Some(UotVersion::V2)
        } else {
            None
        },
        AddressView::SocketAddress(_) => None,
    }
}

/// Checks if `addr` is a UoT magic domain, which means that the stream carries UDP datagrams
/// instead of a TCP tunnel.
///
/// Clients use port 0 by convention, but the version is signalled by the domain alone.
pub fn detect_magic(addr: &Address) -> (version: Option<UotVersion>)
    ensures
        version == magic_version(addr@),
{
    match addr {
        Address::DomainNameAddress(name, _) => {
            if *name == UOT_V1_MAGIC_ADDRESS.to_owned() {
                Some(UotVersion::V1)
            } else if *name == UOT_V2_MAGIC_ADDRESS.to_owned() {
                Some(UotVersion::V2)
            } else {
                None
            }
        },
        Address::SocketAddress(_) => None,
    }
}

/// The port of an address is no part of the signal.
pub proof fn law_port_is_no_signal(name: Seq<char>, port: u16, other: u16)
    ensures
        magic_version(AddressView::DomainNameAddress(name, port)) == magic_version(
            AddressView::DomainNameAddress(name, other),
        ),
{
}

/// Each of the two magic domains asks for its own version, and nothing else asks for any.
pub proof fn law_only_magic_domains_ask_for_a_tunnel(addr: AddressView)
    ensures
        magic_version(addr) == Some(UotVersion::V1) <==> (addr
            matches AddressView::DomainNameAddress(name, _) && name == UOT_V1_MAGIC_ADDRESS@),
        magic_version(addr) == Some(UotVersion::V2) <==> (addr
            matches AddressView::DomainNameAddress(name, _) && name == UOT_V2_MAGIC_ADDRESS@),
{
    reveal_strlit("sp.udp-over-tcp.arpa");
    reveal_strlit("sp.v2.udp-over-tcp.arpa");
    assert(UOT_V1_MAGIC_ADDRESS@.len() != UOT_V2_MAGIC_ADDRESS@.len());
}

/// The two magic domains, letter by letter.
pub proof fn law_magic_domains(name: Seq<char>, port: u16, addr: SocketAddr)
    ensures
        magic_version(AddressView::DomainNameAddress(name, port)) == Some(UotVersion::V1) <==> name
            == "sp.udp-over-tcp.arpa"@,
        magic_version(AddressView::DomainNameAddress(name, port)) == Some(UotVersion::V2) <==> name
            == "sp.v2.udp-over-tcp.arpa"@,
        magic_version(AddressView::SocketAddress(addr)) is None,
{
    law_only_magic_domains_ask_for_a_tunnel(AddressView::DomainNameAddress(name, port));
}

} // verus!
