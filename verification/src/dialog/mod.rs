//! SIP dialogs (RFC 3261).

pub mod invite;
pub mod laws;
pub mod manager;
pub mod manager_laws;
pub mod state;
