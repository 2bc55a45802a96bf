//! An encrypted point-to-point IP tunnel: the verified core.
//!
//! The library holds the tunnel's logic: the wire format of its messages, the
//! per-packet pipeline (compression and authenticated encryption), the server's
//! session table with its pool of client ids, the decisions of the server and
//! client event loops, the framing of the TUN device and the IPv4 checksums.
//! Sockets, the TUN device itself and the loops that drive them live outside.

pub mod checksum;
pub mod message;
pub mod codec;
pub mod session;
pub mod server;
pub mod client;
pub mod device;

pub use checksum::{
    IcmpHeader, IpV4Header, TcpHeader, UdpHeader, ipv4_checksum, ipv4_p_hdr_checksum,
    raw_checksum, udp_tcp_checksum,
};
