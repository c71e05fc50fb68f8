//! RTP (RFC 3550).

pub mod laws;
pub mod packet;
pub mod sequence;
pub mod session;
