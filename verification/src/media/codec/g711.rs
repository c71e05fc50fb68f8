//! G.711 (PCMU/PCMA) codec implementation.
//!
//! G.711 is the standard telephone audio codec with two variants:
//! - PCMU (mu-law): RTP payload type 0, used in North America/Japan
//! - PCMA (A-law): RTP payload type 8, used in Europe and rest of world
//!
//! Both operate at 8kHz sample rate, 8 bits per sample, resulting in
//! 64 kbit/s bitrate (8000 samples/sec * 8 bits).

use super::law::{expand, scale, segment};
use vstd::prelude::*;

verus! {

/// The magnitude of a sample in steps of so many, where those below zero begin with minus one.
pub open spec fn steps(s: i16, size: int) -> int {
    if s >= 0 {
        s as int / size
    } else {
        (-s - 1) / size
    }
}

/// 128 for a sample below zero.
pub open spec fn sign_bit(s: i16) -> int {
    if s < 0 {
        128
    } else {
        0
    }
}

/// The mu-law code of a sample: its magnitude in steps of 4, biased by 33, gives a segment and a
/// step of it; the bits are inverted.
pub open spec fn ulaw_code(s: i16) -> int {
    let m = steps(s, 4) + 33;
    let seg = segment(4 * m);
    let word = if m >= 8192 {
        127
    } else {
        seg * 16 + m / (2 * scale(seg)) % 16
    };
    255 - (sign_bit(s) + word)
}

/// The A-law code of a sample before some of its bits are inverted: its magnitude in steps of 8
/// gives a segment and a step of it. The first two segments have steps of one size.
pub open spec fn alaw_word(s: i16) -> int {
    let v = steps(s, 8);
    let seg = segment(8 * v);
    let size = if seg == 0 {
        2
    } else {
        scale(seg)
    };
    sign_bit(s) + seg * 16 + v / size % 16
}

/// The A-law code of a sample.
pub open spec fn alaw_code(s: i16) -> u8 {
    (alaw_word(s) as u8) ^ 0xD5
}

/// The sample that an A-law code stands for: the middle of its step.
pub open spec fn alaw_sample(code: u8) -> int {
    let x = (code ^ 0x55) as int;
    let seg = x / 16 % 8;
    let magnitude = if seg == 0 {
        x % 16 * 16 + 8
    } else {
        (x % 16 * 16 + 264) * scale(seg - 1)
    };
    if x >= 128 {
        magnitude
    } else {
        -magnitude
    }
}

/// `audio_codec_algorithms::encode_ulaw`: the mu-law code of a sample.
#[verifier::external_body]
fn ulaw_byte(linear: i16) -> (r: u8)
    ensures
        r == ulaw_code(linear),
{
    audio_codec_algorithms::encode_ulaw(linear)
}

/// `audio_codec_algorithms::decode_ulaw`: the sample that a mu-law code stands for.
#[verifier::external_body]
fn ulaw_linear(encoded: u8) -> (r: i16)
    ensures
        r == expand(encoded),
{
    audio_codec_algorithms::decode_ulaw(encoded)
}

/// `audio_codec_algorithms::encode_alaw`: the A-law code of a sample.
#[verifier::external_body]
fn alaw_byte(linear: i16) -> (r: u8)
    ensures
        r == alaw_code(linear),
{
    audio_codec_algorithms::encode_alaw(linear)
}

/// `audio_codec_algorithms::decode_alaw`: the sample that an A-law code stands for.
#[verifier::external_body]
fn alaw_linear(encoded: u8) -> (r: i16)
    ensures
        r == alaw_sample(encoded),
{
    audio_codec_algorithms::decode_alaw(encoded)
}

/// G.711 codec variant.
#[derive(Debug, Clone, Copy, PartialEq, Eq, Structural)]
pub enum G711Variant {
    /// Mu-law (PCMU), RTP payload type 0.
    MuLaw,
    /// A-law (PCMA), RTP payload type 8.
    ALaw,
}

impl G711Variant {
    /// The code of a sample.
    pub open spec fn code(self, s: i16) -> int {
        match self {
            G711Variant::MuLaw => ulaw_code(s),
            G711Variant::ALaw => alaw_code(s) as int,
        }
    }

    /// The sample that a code stands for.
    pub open spec fn sample(self, code: u8) -> int {
        match self {
            G711Variant::MuLaw => expand(code),
            G711Variant::ALaw => alaw_sample(code),
        }
    }

    /// Get the RTP payload type for this variant.
    pub fn payload_type(&self) -> (r: u8)
        ensures
            r == match self {
                G711Variant::MuLaw => 0u8,
                G711Variant::ALaw => 8u8,
            },
    {
        match self {
            G711Variant::MuLaw => 0,
            G711Variant::ALaw => 8,
        }
    }

    /// Get the codec name.
    pub fn name(&self) -> (r: &'static str)
        ensures
            r@ == match self {
                G711Variant::MuLaw => "PCMU"@,
                G711Variant::ALaw => "PCMA"@,
            },
    {
        match self {
            G711Variant::MuLaw => "PCMU",
            G711Variant::ALaw => "PCMA",
        }
    }
}

/// G.711 encoder/decoder.
#[derive(Debug, Clone, Copy)]
pub struct G711Codec {
    pub variant: G711Variant,
}

impl G711Codec {
    /// Create a new G.711 codec.
    pub fn new(variant: G711Variant) -> (r: Self)
        ensures
            r.variant == variant,
    {
        G711Codec { variant }
    }

    /// Create a PCMU (mu-law) codec.
    pub fn pcmu() -> (r: Self)
        ensures
            r.variant == G711Variant::MuLaw,
    {
        Self::new(G711Variant::MuLaw)
    }

    /// Create a PCMA (A-law) codec.
    pub fn pcma() -> (r: Self)
        ensures
            r.variant == G711Variant::ALaw,
    {
        Self::new(G711Variant::ALaw)
    }

    /// Get the codec variant.
    pub fn variant(&self) -> (r: G711Variant)
        ensures
            r == self.variant,
    {
        self.variant
    }

    /// Get the sample rate (always 8000 Hz).
    pub fn sample_rate(&self) -> (r: u32)
        ensures
            r == 8000,
    {
        8000
    }

    /// Get samples per 20ms frame (160).
    pub fn samples_per_frame(&self) -> (r: usize)
        ensures
            r == 160,
    {
        160
    }

    /// Get bytes per 20ms frame (160).
    pub fn bytes_per_frame(&self) -> (r: usize)
        ensures
            r == 160,
    {
        160
    }

    /// Encode 16-bit PCM samples to G.711.
    ///
    /// Input: 16-bit signed linear PCM samples
    /// Output: 8-bit G.711 encoded bytes
    pub fn encode(&self, pcm: &[i16]) -> (r: Vec<u8>)
        ensures
            r@ == pcm@.map_values(|s: i16| self.variant.code(s) as u8),
    {
        let mut encoded: Vec<u8> = Vec::new();
        let ghost goal = pcm@.map_values(|s: i16| self.variant.code(s) as u8);
        let mut i: usize = 0;
        while i < pcm.len()
            invariant
                i <= pcm@.len(),
                goal == pcm@.map_values(|s: i16| self.variant.code(s) as u8),
                encoded@ == goal.take(i as int),
            decreases pcm@.len() - i,
        {
            encoded.push(self.encode_sample(pcm[i]));
            i = i + 1;
            assert(encoded@ =~= goal.take(i as int));
        }
        assert(goal.take(i as int) =~= goal);
        encoded
    }

    /// Decode G.711 to 16-bit PCM samples.
    ///
    /// Input: 8-bit G.711 encoded bytes
    /// Output: 16-bit signed linear PCM samples
    pub fn decode(&self, data: &[u8]) -> (r: Vec<i16>)
        ensures
            r@ == data@.map_values(|c: u8| self.variant.sample(c) as i16),
    {
        let mut decoded: Vec<i16> = Vec::new();
        let ghost goal = data@.map_values(|c: u8| self.variant.sample(c) as i16);
        let mut i: usize = 0;
        while i < data.len()
            invariant
                i <= data@.len(),
                goal == data@.map_values(|c: u8| self.variant.sample(c) as i16),
                decoded@ == goal.take(i as int),
            decreases data@.len() - i,
        {
            decoded.push(self.decode_sample(data[i]));
            i = i + 1;
            assert(decoded@ =~= goal.take(i as int));
        }
        assert(goal.take(i as int) =~= goal);
        decoded
    }

    /// Encode a single sample.
    pub fn encode_sample(&self, sample: i16) -> (r: u8)
        ensures
            r == self.variant.code(sample),
    {
        match self.variant {
            G711Variant::MuLaw => ulaw_byte(sample),
            G711Variant::ALaw => alaw_byte(sample),
        }
    }

    /// Decode a single sample.
    pub fn decode_sample(&self, byte: u8) -> (r: i16)
        ensures
            r == self.variant.sample(byte),
    {
        match self.variant {
            G711Variant::MuLaw => ulaw_linear(byte),
            G711Variant::ALaw => alaw_linear(byte),
        }
    }
}

/// The code of silence.
pub open spec fn silence_code(variant: G711Variant) -> u8 {
    match variant {
        G711Variant::MuLaw => 0xFF,
        G711Variant::ALaw => 0xD5,
    }
}

/// Generate silence for G.711.
///
/// Returns the appropriate silence byte for the codec variant.
pub fn silence_byte(variant: G711Variant) -> (r: u8)
    ensures
        r == silence_code(variant),
{
    match variant {
        // Mu-law silence (plus zero)
        G711Variant::MuLaw => 0xFF,
        // A-law silence (the least sample above zero)
        G711Variant::ALaw => 0xD5,
    }
}

/// Generate a silence frame.
pub fn silence_frame(variant: G711Variant, samples: usize) -> (r: Vec<u8>)
    ensures
        r@ == Seq::new(samples as nat, |i: int| silence_code(variant)),
{
    let mut v: Vec<u8> = Vec::new();
    let byte: u8 = silence_byte(variant);
    while v.len() < samples
        invariant
            byte == silence_code(variant),
            v@.len() <= samples,
            v@ == Seq::new(v@.len(), |i: int| silence_code(variant)),
        decreases samples - v@.len(),
    {
        v.push(byte);
        assert(v@ =~= Seq::new(v@.len(), |i: int| silence_code(variant)));
    }
    v
}

/// How far a sample may be from what its mu-law code stands for: half a step of its segment, and
/// what was cut off below a step of 4. Samples beyond the last segment are clipped to 32124.
pub open spec fn ulaw_error(s: i16) -> int {
    let m = steps(s, 4) + 33;
    if m >= 8192 {
        644
    } else {
        4 * scale(segment(4 * m)) + 4
    }
}

/// A sample comes back from its mu-law code nearly as it was.
pub proof fn lemma_ulaw_close(s: i16)
    ensures
        0 <= ulaw_code(s) <= 255,
        -ulaw_error(s) <= expand(ulaw_code(s) as u8) - s <= ulaw_error(s),
{
    let m = steps(s, 4) + 33;
    let seg = segment(4 * m);
    let code = ulaw_code(s) as u8;
    let u = 255 - code;
    if m >= 8192 {
        assert(u == sign_bit(s) + 127);
        assert(u % 16 == 15);
        assert(u / 16 % 8 == 7);
        assert((15 * 8 + 132) * scale(7) == 32256);
    } else {
        let k = m / (2 * scale(seg)) % 16;
        assert(u == sign_bit(s) + seg * 16 + k);
        assert(u % 16 == k);
        assert(u / 16 % 8 == seg);
        let back = (k * 8 + 132) * scale(seg);
        if seg == 0 {
            assert(m / 2 == k + 16);
            assert(back == k * 8 + 132);
        } else if seg == 1 {
            assert(m / 4 == k + 16);
            assert(back == (k * 8 + 132) * 2);
        } else if seg == 2 {
            assert(m / 8 == k + 16);
            assert(back == (k * 8 + 132) * 4);
        } else if seg == 3 {
            assert(m / 16 == k + 16);
            assert(back == (k * 8 + 132) * 8);
        } else if seg == 4 {
            assert(m / 32 == k + 16);
            assert(back == (k * 8 + 132) * 16);
        } else if seg == 5 {
            assert(m / 64 == k + 16);
            assert(back == (k * 8 + 132) * 32);
        } else if seg == 6 {
            assert(m / 128 == k + 16);
            assert(back == (k * 8 + 132) * 64);
        } else {
            assert(m / 256 == k + 16);
            assert(back == (k * 8 + 132) * 128);
        }
    }
}

proof fn lemma_alaw_bits(w: u8)
    ensures
        ((w ^ 0xD5u8) ^ 0x55u8) == if w < 128 {
            w + 128
        } else {
            w - 128
        },
{
    assert(((w ^ 0xD5u8) ^ 0x55u8) == if w < 128 {
        w + 128
    } else {
        w - 128
    }) by (bit_vector);
}

/// How far a sample may be from what its A-law code stands for: half a step of its segment.
pub open spec fn alaw_error(s: i16) -> int {
    let seg = segment(8 * steps(s, 8));
    if seg == 0 {
        8
    } else {
        4 * scale(seg)
    }
}

/// A sample comes back from its A-law code within half a step.
pub proof fn lemma_alaw_close(s: i16)
    ensures
        0 <= alaw_word(s) <= 255,
        -alaw_error(s) <= alaw_sample(alaw_code(s)) - s <= alaw_error(s),
{
    let v = steps(s, 8);
    let seg = segment(8 * v);
    let w = alaw_word(s);
    let size = if seg == 0 {
        2
    } else {
        scale(seg)
    };
    let k = v / size % 16;
    assert(0 <= v <= 4095);
    assert(0 <= w <= 255);
    lemma_alaw_bits(w as u8);
    let x = (alaw_code(s) ^ 0x55) as int;
    assert(x == if s < 0 {
        seg * 16 + k
    } else {
        128 + seg * 16 + k
    });
    assert(x % 16 == k);
    assert(x / 16 % 8 == seg);
    if seg == 0 {
        assert(v / 2 == k);
    } else if seg == 1 {
        assert(v / 2 == k + 16);
        assert((k * 16 + 264) * scale(0) == k * 16 + 264);
    } else if seg == 2 {
        assert(v / 4 == k + 16);
        assert((k * 16 + 264) * scale(1) == (k * 16 + 264) * 2);
    } else if seg == 3 {
        assert(v / 8 == k + 16);
        assert((k * 16 + 264) * scale(2) == (k * 16 + 264) * 4);
    } else if seg == 4 {
        assert(v / 16 == k + 16);
        assert((k * 16 + 264) * scale(3) == (k * 16 + 264) * 8);
    } else if seg == 5 {
        assert(v / 32 == k + 16);
        assert((k * 16 + 264) * scale(4) == (k * 16 + 264) * 16);
    } else if seg == 6 {
        assert(v / 64 == k + 16);
        assert((k * 16 + 264) * scale(5) == (k * 16 + 264) * 32);
    } else {
        assert(v / 128 == k + 16);
        assert((k * 16 + 264) * scale(6) == (k * 16 + 264) * 64);
    }
}

/// The code of silence stands for a sample next to zero.
pub proof fn lemma_silence_quiet(variant: G711Variant)
    ensures
        0 <= variant.sample(silence_code(variant)) <= 8,
{
    lemma_alaw_bits(0);
    assert((0u8 ^ 0xD5u8) == 0xD5u8) by (bit_vector);
}

} // verus!
