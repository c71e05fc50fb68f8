//! G.722 (Wideband) codec implementation.
//!
//! G.722 is a wideband audio codec standardized by ITU-T.
//! - 7 kHz audio bandwidth (wideband)
//! - 16 kHz sample rate input
//! - 64 kbps bitrate
//! - RTP payload type 9
//! - Uses Sub-band ADPCM encoding
//!
//! Note: RTP for G.722 uses a timestamp rate of 8000 Hz despite
//! the 16 kHz sample rate (RFC 3551).

use ezk_g722::libg722::decoder::Decoder;
use ezk_g722::libg722::encoder::Encoder;
use ezk_g722::libg722::Bitrate;
use vstd::prelude::*;

verus! {

/// RTP payload type for G.722.
pub const G722_PAYLOAD_TYPE: u8 = 9;

/// Sample rate for G.722 (16 kHz input/output).
pub const G722_SAMPLE_RATE: u32 = 16000;

/// RTP timestamp rate for G.722 (8 kHz per RFC 3551).
pub const G722_RTP_RATE: u32 = 8000;

/// An encoder of `ezk_g722`, opaque here.
#[verifier::external_type_specification]
#[verifier::external_body]
pub struct ExEncoder(Encoder);

/// A decoder of `ezk_g722`, opaque here.
#[verifier::external_type_specification]
#[verifier::external_body]
pub struct ExDecoder(Decoder);

/// Whether an encoder takes 16 kHz samples and gives a byte for every two.
pub uninterp spec fn encodes_wideband(e: Encoder) -> bool;

/// The samples that an encoder has encoded since it was made.
pub uninterp spec fn encoder_fed(e: Encoder) -> Seq<i16>;

/// What an encoder makes of samples after it has encoded others.
pub uninterp spec fn g722_encoded(before: Seq<i16>, pcm: Seq<i16>) -> Seq<u8>;

/// Whether a decoder gives two 16 kHz samples for every byte.
pub uninterp spec fn decodes_wideband(d: Decoder) -> bool;

/// The bytes that a decoder has decoded since it was made.
pub uninterp spec fn decoder_fed(d: Decoder) -> Seq<u8>;

/// What a decoder makes of bytes after it has decoded others.
pub uninterp spec fn g722_decoded(before: Seq<u8>, data: Seq<u8>) -> Seq<i16>;

/// `Encoder::new` for 64 kbit/s, 16 kHz and unpacked codes: an encoder that has encoded nothing.
#[verifier::external_body]
fn new_encoder() -> (e: Encoder)
    ensures
        encodes_wideband(e),
        encoder_fed(e) == Seq::<i16>::empty(),
{
    Encoder::new(Bitrate::Mode1_64000, false, false)
}

/// `Encoder::encode`: a byte for every two samples. The bytes depend on the samples and on all
/// that were encoded before, however these were divided over the calls; which bytes they are is
/// only named. An odd number of samples is refused with a panic.
#[verifier::external_body]
fn encode_with(e: &mut Encoder, pcm: &[i16]) -> (r: Vec<u8>)
    requires
        encodes_wideband(*old(e)),
        pcm@.len() % 2 == 0,
    ensures
        encodes_wideband(*final(e)),
        encoder_fed(*final(e)) == encoder_fed(*old(e)) + pcm@,
        r@ == g722_encoded(encoder_fed(*old(e)), pcm@),
        r@.len() == pcm@.len() / 2,
{
    e.encode(pcm)
}

/// `Decoder::new` for 64 kbit/s, 16 kHz and unpacked codes: a decoder that has decoded nothing.
#[verifier::external_body]
fn new_decoder() -> (d: Decoder)
    ensures
        decodes_wideband(d),
        decoder_fed(d) == Seq::<u8>::empty(),
{
    Decoder::new(Bitrate::Mode1_64000, false, false)
}

/// `Decoder::decode`: two samples for every byte. The samples depend on the bytes and on all that
/// were decoded before; which samples they are is only named.
#[verifier::external_body]
fn decode_with(d: &mut Decoder, data: &[u8]) -> (r: Vec<i16>)
    requires
        decodes_wideband(*old(d)),
    ensures
        decodes_wideband(*final(d)),
        decoder_fed(*final(d)) == decoder_fed(*old(d)) + data@,
        r@ == g722_decoded(decoder_fed(*old(d)), data@),
        r@.len() == 2 * data@.len(),
{
    d.decode(data)
}

/// G.722 encoder/decoder.
pub struct G722Codec {
    encoder: Encoder,
    decoder: Decoder,
}

impl G722Codec {
    /// Both directions are set up for 64 kbit/s at 16 kHz.
    pub closed spec fn wf(self) -> bool {
        encodes_wideband(self.encoder) && decodes_wideband(self.decoder)
    }

    /// The samples encoded since the codec was made or reset.
    pub closed spec fn encoded(self) -> Seq<i16> {
        encoder_fed(self.encoder)
    }

    /// The bytes decoded since the codec was made or reset.
    pub closed spec fn decoded(self) -> Seq<u8> {
        decoder_fed(self.decoder)
    }

    /// Create a new G.722 codec at 64kbps.
    pub fn new() -> (r: Self)
        ensures
            r.wf(),
            r.encoded() == Seq::<i16>::empty(),
            r.decoded() == Seq::<u8>::empty(),
    {
        G722Codec { encoder: new_encoder(), decoder: new_decoder() }
    }

    /// Get the RTP payload type (9).
    pub fn payload_type(&self) -> (r: u8)
        ensures
            r == 9,
    {
        G722_PAYLOAD_TYPE
    }

    /// Get the codec name.
    pub fn name(&self) -> (r: &'static str)
        ensures
            r@ == "G722"@,
    {
        "G722"
    }

    /// Get the sample rate (16000 Hz).
    pub fn sample_rate(&self) -> (r: u32)
        ensures
            r == 16000,
    {
        G722_SAMPLE_RATE
    }

    /// Get the RTP timestamp rate (8000 Hz per RFC 3551).
    pub fn rtp_rate(&self) -> (r: u32)
        ensures
            r == 8000,
    {
        G722_RTP_RATE
    }

    /// Get samples per 20ms frame (320 at 16kHz).
    pub fn samples_per_frame(&self) -> (r: usize)
        ensures
            r == 320,
    {
        320
    }

    /// Get bytes per 20ms frame (160).
    ///
    /// G.722 compresses 16kHz to 64kbps, so 320 samples -> 160 bytes.
    pub fn bytes_per_frame(&self) -> (r: usize)
        ensures
            r == 160,
    {
        160
    }

    /// Encode 16-bit PCM samples to G.722.
    ///
    /// Input: 16-bit signed linear PCM samples at 16 kHz, an even number of them
    /// Output: G.722 encoded bytes
    pub fn encode(&mut self, pcm: &[i16]) -> (r: Vec<u8>)
        requires
            old(self).wf(),
            pcm@.len() % 2 == 0,
        ensures
            final(self).wf(),
            final(self).encoded() == old(self).encoded() + pcm@,
            final(self).decoded() == old(self).decoded(),
            r@ == g722_encoded(old(self).encoded(), pcm@),
            r@.len() == pcm@.len() / 2,
    {
        encode_with(&mut self.encoder, pcm)
    }

    /// Decode G.722 to 16-bit PCM samples.
    ///
    /// Input: G.722 encoded bytes
    /// Output: 16-bit signed linear PCM samples at 16 kHz
    pub fn decode(&mut self, data: &[u8]) -> (r: Vec<i16>)
        requires
            old(self).wf(),
        ensures
            final(self).wf(),
            final(self).encoded() == old(self).encoded(),
            final(self).decoded() == old(self).decoded() + data@,
            r@ == g722_decoded(old(self).decoded(), data@),
            r@.len() == 2 * data@.len(),
    {
        decode_with(&mut self.decoder, data)
    }

    /// Reset the encoder/decoder state.
    pub fn reset(&mut self)
        ensures
            final(self).wf(),
            final(self).encoded() == Seq::<i16>::empty(),
            final(self).decoded() == Seq::<u8>::empty(),
    {
        self.encoder = new_encoder();
        self.decoder = new_decoder();
    }
}

impl Default for G722Codec {
    fn default() -> (r: Self)
        ensures
            r.wf(),
            r.encoded() == Seq::<i16>::empty(),
            r.decoded() == Seq::<u8>::empty(),
    {
        Self::new()
    }
}

/// Generate a silence frame for G.722.
///
/// Returns 160 bytes (20ms at 64kbps).
pub fn silence_frame() -> (r: Vec<u8>)
    ensures
        r@ == Seq::new(160, |i: int| 0u8),
{
    let mut v: Vec<u8> = Vec::new();
    while v.len() < 160
        invariant
            v@.len() <= 160,
            v@ == Seq::new(v@.len(), |i: int| 0u8),
        decreases 160 - v@.len(),
    {
        v.push(0);
        assert(v@ =~= Seq::new(v@.len(), |i: int| 0u8));
    }
    v
}

} // verus!
