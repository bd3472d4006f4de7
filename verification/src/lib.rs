//! Verified core of the OpenVPN Windows integration: protocol parsing,
//! the Interactive Service wire format, stage tracking and the decisions
//! that drive a connection attempt.

pub mod error;
pub mod management;
pub mod manager;
pub mod openvpn;
pub mod service_client;
pub mod service_ipc;
pub mod text;
pub mod utf16;
