//! Sans-IO building blocks of a SIP/RTP user agent.

pub mod buf;
pub mod dialog;
pub mod gabby;
pub mod ice;
pub mod media;
pub mod net;
pub mod pcm;
pub mod rtcp;
pub mod rtp;
pub mod sip;
pub mod sip_text;
pub mod sip_text_laws;
pub mod table;
pub mod text;
pub mod text_laws;
pub mod util;
pub mod view_laws;
