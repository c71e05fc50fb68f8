//! Audio on its way: codecs, buffers and files.

pub mod codec;
pub mod jitter;
pub mod jitter_laws;
pub mod playout;
pub mod wav;
pub mod wav_laws;
