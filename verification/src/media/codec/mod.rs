//! Audio codecs.

pub mod g711;
pub mod g722;
pub mod law;
pub mod laws;
