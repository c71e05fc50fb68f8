//! Gabby: talking to an AI over the phone.

pub mod audio;
pub mod audio_laws;
pub mod call;
pub mod config;
pub mod config_laws;
pub mod outcome;
pub mod pipeline;
pub mod reply;
pub mod reply_laws;
pub mod sdp;
pub mod sdp_laws;
pub mod server;
pub mod server_laws;
pub mod ulaw;
