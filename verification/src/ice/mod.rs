//! STUN/ICE/TURN for NAT traversal.
//!
//! - STUN message framing and addresses (RFC 5389)
//! - ICE agent (RFC 8445) for connectivity checks
//! - ICE candidate types and utilities
//! - TURN client (RFC 5766) for relay allocation
//!
//! Nothing here touches a socket: requests come out as bytes, replies go in as bytes.

pub mod agent;
pub mod candidate;
pub mod check;
pub mod laws;
pub mod message_laws;
pub mod pairs;
pub mod setup_laws;
pub mod stun;
pub mod turn;
pub mod turn_client;
pub mod wire;
