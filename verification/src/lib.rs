//! The server side of UoT (UDP over TCP).
//!
//! A client that asks for one of two magic domains tunnels UDP datagrams inside a TCP stream.
//! This crate holds what such a tunnel decides and computes: how the stream is cut into
//! datagrams, how replies are framed, where a datagram is sent, and what happens when one of the
//! two directions fails. It performs no I/O: callers hand it bytes and events, and carry out the
//! actions that it returns.
//!
//! Frame layouts, on the decrypted stream:
//!
//! ```text
//! v1 (sp.udp-over-tcp.arpa), v2 non-connect:  | ATYP u8 | address | port u16be | length u16be | data |
//! v2 (sp.v2.udp-over-tcp.arpa) connect:       | length u16be | data |
//! ```
//!
//! v2 starts with a request header `| isConnect u8 | SOCKS5 address |`. The ATYP values of the
//! frames are not those of SOCKS5.

pub mod address;
pub mod downlink;
pub mod downlink_laws;
pub mod error;
pub mod error_laws;
pub mod layout_laws;
pub mod magic;
pub mod outbound;
pub mod outbound_laws;
pub mod request;
pub mod request_laws;
pub mod run_laws;
pub mod step_laws;
pub mod stream;
pub mod tunnel_laws;
pub mod uplink;
pub mod uplink_laws;
pub mod view_laws;
pub mod wire;
pub mod wire_laws;
