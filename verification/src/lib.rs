//! Verified core of a DrayTek SSL VPN client: SSTP framing, PPP framing,
//! PPP control frames and options, the PPP negotiation state machine,
//! LCP/IPCP option handling, PAP / MS-CHAP authentication payloads, the
//! decisions of the negotiation and data phases, the HTTP CONNECT handshake,
//! the privileged helper's command line and commands, profiles and settings,
//! and the decisions of the NetworkManager tray indicator.
pub mod constants;
pub mod error;
pub mod wire;
pub mod ppp_control;
pub mod ppp;
pub mod sstp;
pub mod text;
pub mod fsm;
pub mod addr;
pub mod lcp;
pub mod ipcp;
pub mod auth;
pub mod clock;
pub mod keepalive;
pub mod engine_common;
pub mod negotiate;
pub mod data_plane;
pub mod routing;
pub mod helper;
pub mod privilege;
pub mod words;
pub mod types;
pub mod config;
pub mod logging;
pub mod messages;
pub mod connection;
pub mod status_view;
pub mod icons;
pub mod nm_tray;
