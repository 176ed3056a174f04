//! Messages between the window and the tunnel task, and the traffic counters
//! of the tunnel device.
use vstd::prelude::*;
use crate::addr::Ipv4;
use crate::text::{parse_uint, parse_uint_spec, str_chars};
use crate::words::{trim_chars, trim_spec};

verus! {

/// What the tunnel tells the window.
#[derive(Debug, Clone)]
pub enum TunnelStatus {
    /// Connecting to the server.
    Connecting,
    /// TLS is up; the HTTP handshake runs.
    Handshaking,
    /// LCP is being negotiated.
    NegotiatingLcp,
    /// PAP or MS-CHAP runs.
    Authenticating,
    /// IPCP is being negotiated.
    NegotiatingIpcp,
    /// The tunnel carries traffic.
    Connected {
        local_ip: Ipv4,
        remote_ip: Ipv4,
        dns: Option<Ipv4>,
        mtu: u16,
        local_mru: u16,
        remote_mru: u16,
        default_gateway: bool,
        remote_network_route: Option<String>,
        additional_routes: Vec<String>,
    },
    /// The tunnel is being closed.
    Disconnecting,
    /// The tunnel is closed.
    Disconnected,
    /// Something failed.
    Error(String),
    /// The server refused the credentials.
    AuthFailed,
    /// Traffic counters of the data phase.
    Stats {
        bytes_tx: u64,
        bytes_rx: u64,
        packets_tx: u64,
        packets_rx: u64,
        oversized_tx: u64,
        oversized_rx: u64,
        max_packet_tx: usize,
        max_packet_rx: usize,
    },
}

/// What the window asks of the tunnel.
#[derive(Debug, Clone, Copy, PartialEq, Eq, Structural)]
pub enum TunnelCommand {
    /// Close the tunnel.
    Disconnect,
    /// Turn the keepalive pings to the gateway on or off.
    ToggleKeepalive(bool),
}

/// Traffic counters of the tunnel device, as sysfs gives them.
#[derive(Debug, Clone, Copy, PartialEq, Eq, Structural)]
pub struct NetStats {
    pub rx_bytes: u64,
    pub tx_bytes: u64,
    pub rx_packets: u64,
    pub tx_packets: u64,
}

impl Default for NetStats {
    fn default() -> (r: Self)
        ensures
            r == (NetStats { rx_bytes: 0, tx_bytes: 0, rx_packets: 0, tx_packets: 0 }),
    {
        NetStats { rx_bytes: 0, tx_bytes: 0, rx_packets: 0, tx_packets: 0 }
    }
}

/// The value of a sysfs counter file: its text trimmed, read as a `u64`.
pub fn parse_stat(content: &str) -> (r: Option<u64>)
    ensures
        match r {
            Some(v) => parse_uint_spec(trim_spec(content@), u64::MAX as nat) == Some(v as nat),
            None => parse_uint_spec(trim_spec(content@), u64::MAX as nat) is None,
        },
{
    let chars = str_chars(content);
    let t = trim_chars(chars.as_slice());
    parse_uint(t.as_slice(), u64::MAX)
}

} // verus!
