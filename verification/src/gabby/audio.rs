//! Audio utilities for sample rate conversion and processing.

use crate::text::{concat, white_space};
use vstd::prelude::*;
use vstd::utf8::encode_utf8;

verus! {

/// The framing of a resampler that converts between sample rates in chunks of one size: samples
/// are held back until there is a whole chunk of them.
#[derive(Debug, Clone)]
pub struct Resampler {
    pub input_rate: u32,
    pub output_rate: u32,
    pub chunk_size: usize,
    pub buffer: Vec<i16>,
}

impl Resampler {
    /// Create a new resampler.
    ///
    /// # Arguments
    /// * `from_rate` - Input sample rate
    /// * `to_rate` - Output sample rate
    /// * `chunk_size` - Number of samples to process at once
    pub fn new(from_rate: u32, to_rate: u32, chunk_size: usize) -> (r: Self)
        ensures
            r.input_rate == from_rate,
            r.output_rate == to_rate,
            r.chunk_size == chunk_size,
            r.buffer@ == Seq::<i16>::empty(),
    {
        Resampler { input_rate: from_rate, output_rate: to_rate, chunk_size, buffer: Vec::new() }
    }

    /// Create a resampler for 8kHz to 16kHz conversion (RTP to Vosk): 20 ms at 8 kHz are 160
    /// samples.
    pub fn rtp_to_vosk() -> (r: Self)
        ensures
            r.input_rate == 8000,
            r.output_rate == 16000,
            r.chunk_size == 160,
            r.buffer@ == Seq::<i16>::empty(),
    {
        Self::new(8000, 16000, 160)
    }

    /// Create a resampler for 22kHz to 8kHz conversion (Piper to RTP): about 20 ms at 22 kHz.
    pub fn piper_to_rtp() -> (r: Self)
        ensures
            r.input_rate == 22050,
            r.output_rate == 8000,
            r.chunk_size == 441,
            r.buffer@ == Seq::<i16>::empty(),
    {
        Self::new(22050, 8000, 441)
    }

    /// Create a resampler for 16kHz to 8kHz conversion (Vosk rate to RTP): 20 ms at 16 kHz are
    /// 320 samples.
    pub fn vosk_to_rtp() -> (r: Self)
        ensures
            r.input_rate == 16000,
            r.output_rate == 8000,
            r.chunk_size == 320,
            r.buffer@ == Seq::<i16>::empty(),
    {
        Self::new(16000, 8000, 320)
    }

    /// Takes samples in. Returns the chunks that are complete, in order; what is left waits for
    /// more.
    pub fn process(&mut self, samples: &[i16]) -> (r: Vec<Vec<i16>>)
        requires
            old(self).chunk_size > 0,
        ensures
            *final(self) == (Resampler { buffer: final(self).buffer, ..*old(self) }),
            chunks(
                old(self).buffer@ + samples@,
                old(self).chunk_size as int,
            ) == (chunk_views(r@), final(self).buffer@),
    {
        let mut i: usize = 0;
        assert(self.buffer@ =~= old(self).buffer@ + samples@.take(0));
        while i < samples.len()
            invariant
                i <= samples@.len(),
                *self == (Resampler { buffer: self.buffer, ..*old(self) }),
                self.buffer@ == old(self).buffer@ + samples@.take(i as int),
            decreases samples@.len() - i,
        {
            self.buffer.push(samples[i]);
            i = i + 1;
            assert(self.buffer@ =~= old(self).buffer@ + samples@.take(i as int));
        }
        assert(samples@.take(i as int) =~= samples@);
        let ghost all = self.buffer@;
        let mut out: Vec<Vec<i16>> = Vec::new();
        let size: usize = self.chunk_size;
        assert(chunk_views(out@) + chunks(all, size as int).0 =~= chunks(all, size as int).0);
        while self.buffer.len() >= size
            invariant
                size > 0,
                size == old(self).chunk_size,
                *self == (Resampler { buffer: self.buffer, ..*old(self) }),
                chunks(all, size as int) == (
                    chunk_views(out@) + chunks(self.buffer@, size as int).0,
                    chunks(self.buffer@, size as int).1,
                ),
            decreases self.buffer@.len(),
        {
            let ghost had = self.buffer@;
            let ghost given = chunk_views(out@);
            let rest: Vec<i16> = self.buffer.split_off(size);
            let mut chunk: Vec<i16> = rest;
            std::mem::swap(&mut chunk, &mut self.buffer);
            assert(self.buffer@ =~= had.skip(size as int));
            assert(chunk@ =~= had.take(size as int));
            out.push(chunk);
            assert(chunk_views(out@) =~= given.push(had.take(size as int)));
            assert(given + (seq![had.take(size as int)] + chunks(
                had.skip(size as int),
                size as int,
            ).0) =~= chunk_views(out@) + chunks(self.buffer@, size as int).0);
        }
        assert(chunk_views(out@) + Seq::<Seq<i16>>::empty() =~= chunk_views(out@));
        out
    }

    /// Fills up the last chunk with silence. Returns it, unless nothing was waiting.
    pub fn flush(&mut self) -> (r: Vec<Vec<i16>>)
        requires
            old(self).chunk_size > 0,
            old(self).buffer@.len() <= old(self).chunk_size,
        ensures
            *final(self) == (Resampler { buffer: final(self).buffer, ..*old(self) }),
            final(self).buffer@ == Seq::<i16>::empty(),
            chunk_views(r@) == if old(self).buffer@.len() == 0 {
                Seq::empty()
            } else {
                seq![old(self).buffer@ + silence(old(self).chunk_size - old(self).buffer@.len())]
            },
    {
        if self.buffer.len() == 0 {
            let none: Vec<Vec<i16>> = Vec::new();
            assert(chunk_views(none@) =~= Seq::empty());
            assert(self.buffer@ =~= Seq::empty());
            return none;
        }
        // Pad to chunk size

        assert(self.buffer@ =~= old(self).buffer@ + silence(0));
        while self.buffer.len() < self.chunk_size
            invariant
                *self == (Resampler { buffer: self.buffer, ..*old(self) }),
                old(self).buffer@.len() <= self.buffer@.len() <= self.chunk_size,
                self.buffer@ == old(self).buffer@ + silence(
                    self.buffer@.len() - old(self).buffer@.len(),
                ),
            decreases self.chunk_size - self.buffer@.len(),
        {
            self.buffer.push(0);
            assert(self.buffer@ =~= old(self).buffer@ + silence(
                self.buffer@.len() - old(self).buffer@.len(),
            ));
        }
        let ghost whole = self.buffer@;
        let nothing: Vec<i16> = Vec::new();
        let r: Vec<Vec<i16>> = self.process(nothing.as_slice());
        proof {
            let size = old(self).chunk_size as int;
            assert(whole + nothing@ =~= whole);
            assert(whole.take(size) =~= whole);
            assert(whole.skip(size) =~= Seq::empty());
            assert(chunks(whole.skip(size), size) == (
                Seq::<Seq<i16>>::empty(),
                Seq::<i16>::empty(),
            ));
            assert(seq![whole] + Seq::<Seq<i16>>::empty() =~= seq![whole]);
        }
        r
    }

    /// Reset the resampler state.
    pub fn reset(&mut self)
        ensures
            *final(self) == (Resampler { buffer: final(self).buffer, ..*old(self) }),
            final(self).buffer@ == Seq::<i16>::empty(),
    {
        self.buffer.clear();
    }

    /// Get input sample rate.
    pub fn input_rate(&self) -> (r: u32)
        ensures
            r == self.input_rate,
    {
        self.input_rate
    }

    /// Get output sample rate.
    pub fn output_rate(&self) -> (r: u32)
        ensures
            r == self.output_rate,
    {
        self.output_rate
    }
}

/// What chunks hold.
pub open spec fn chunk_views(chunks: Seq<Vec<i16>>) -> Seq<Seq<i16>> {
    chunks.map_values(|c: Vec<i16>| c@)
}

/// Samples cut into whole chunks, and what is left.
pub open spec fn chunks(s: Seq<i16>, size: int) -> (Seq<Seq<i16>>, Seq<i16>)
    decreases s.len(),
{
    if size <= 0 || s.len() < size {
        (Seq::empty(), s)
    } else {
        let (more, rest) = chunks(s.skip(size), size);
        (seq![s.take(size)] + more, rest)
    }
}

/// Chunks put together again.
pub open spec fn joined(c: Seq<Seq<i16>>) -> Seq<i16>
    decreases c.len(),
{
    if c.len() == 0 {
        Seq::empty()
    } else {
        c[0] + joined(c.skip(1))
    }
}

/// No sample is lost or changed in being cut into chunks, every chunk is whole, and less than a
/// chunk is left.
pub proof fn lemma_chunks(s: Seq<i16>, size: int)
    requires
        size > 0,
    ensures
        joined(chunks(s, size).0) + chunks(s, size).1 == s,
        chunks(s, size).1.len() < size,
        forall|i: int|
            0 <= i < chunks(s, size).0.len() ==> (#[trigger] chunks(s, size).0[i]).len() == size,
    decreases s.len(),
{
    if s.len() >= size {
        let rest = s.skip(size);
        lemma_chunks(rest, size);
        let (more, left) = chunks(rest, size);
        let c = seq![s.take(size)] + more;
        assert(c.skip(1) =~= more);
        assert(s.take(size) + rest =~= s);
        assert(joined(c) + left =~= s.take(size) + (joined(more) + left));
    } else {
        assert(Seq::<i16>::empty() + s =~= s);
    }
}

/// The square of a sample.
pub open spec fn square(s: i16) -> nat {
    (s * s) as nat
}

/// The sum of the squares of samples.
pub open spec fn energy(s: Seq<i16>) -> nat
    decreases s.len(),
{
    if s.len() == 0 {
        0
    } else {
        energy(s.drop_last()) + square(s.last())
    }
}

proof fn lemma_square(s: i16)
    ensures
        0 <= s * s <= 0x4000_0000,
{
    assert(0 <= s * s <= 0x4000_0000) by (nonlinear_arith)
        requires
            -0x8000 <= s <= 0x7FFF,
    ;
}

/// The sum of the squares of samples: what their RMS (Root Mean Square) energy is the root of,
/// once divided by their number.
pub fn sum_of_squares(samples: &[i16]) -> (r: u128)
    ensures
        r == energy(samples@),
{
    let n: usize = samples.len();
    let mut sum: u128 = 0;
    let mut i: usize = 0;
    while i < n
        invariant
            i <= n,
            n == samples@.len(),
            sum == energy(samples@.take(i as int)),
            sum <= i * 0x4000_0000,
        decreases n - i,
    {
        proof {
            lemma_square(samples@[i as int]);
            assert(samples@.take(i + 1).drop_last() =~= samples@.take(i as int));
            assert(samples@.take(i + 1).last() == samples@[i as int]);
        }
        let s: i64 = samples[i] as i64;
        sum = sum + (s * s) as u128;
        i = i + 1;
    }
    assert(samples@.take(n as int) =~= samples@);
    sum
}

/// So many samples of silence.
pub open spec fn silence(n: int) -> Seq<i16> {
    Seq::new(n as nat, |i: int| 0i16)
}

/// Generate silence samples.
pub fn generate_silence(num_samples: usize) -> (r: Vec<i16>)
    ensures
        r@ == silence(num_samples as int),
{
    let mut v: Vec<i16> = Vec::new();
    while v.len() < num_samples
        invariant
            v@.len() <= num_samples,
            v@ == silence(v@.len() as int),
        decreases num_samples - v@.len(),
    {
        v.push(0);
        assert(v@ =~= silence(v@.len() as int));
    }
    v
}

/// Whether a sentence ends with a character: with a full stop, an exclamation mark or a question
/// mark that nothing or white space follows.
pub open spec fn sentence_ends(s: Seq<char>, i: int) -> bool {
    &&& 0 <= i < s.len()
    &&& s[i] == '.' || s[i] == '!' || s[i] == '?'
    &&& i + 1 < s.len() ==> white_space(s[i + 1])
}

/// Find sentence boundary in text for streaming TTS.
///
/// Returns the byte index after the sentence-ending punctuation.
pub fn find_sentence_boundary(text: &str) -> (r: Option<usize>)
    ensures
        match r {
            Some(n) => exists|i: int|
                #[trigger] sentence_ends(text@, i) && (forall|k: int|
                    0 <= k < i ==> !#[trigger] sentence_ends(text@, k)) && n == encode_utf8(
                    text@.take(i + 1),
                ).len() as usize,
            None => forall|i: int| !#[trigger] sentence_ends(text@, i),
        },
{
    let n: usize = text.unicode_len();
    let mut i: usize = 0;
    while i < n
        invariant
            i <= n,
            n == text@.len(),
            forall|k: int| 0 <= k < i ==> !#[trigger] sentence_ends(text@, k),
        decreases n - i,
    {
        let c: char = text.get_char(i);
        if c == '.' || c == '!' || c == '?' {
            if i + 1 == n || text.get_char(i + 1).is_whitespace() {
                assert(sentence_ends(text@, i as int));
                assert(text@.subrange(0, i + 1) =~= text@.take(i + 1));
                return Some(text.substring_char(0, i + 1).len());
            }
        }
        i = i + 1;
    }
    None
}

/// Resampler errors.
#[derive(Debug, Clone)]
pub enum ResamplerError {
    /// Why there is no resampler.
    InitFailed(String),
}

impl ResamplerError {
    /// What the error says.
    pub open spec fn text(self) -> Seq<char> {
        match self {
            ResamplerError::InitFailed(e) => "Failed to initialize resampler: "@ + e@,
        }
    }

    /// What the error says.
    pub fn describe(&self) -> (r: String)
        ensures
            r@ == self.text(),
    {
        match self {
            ResamplerError::InitFailed(e) => concat(
                "Failed to initialize resampler: ",
                e.as_str(),
            ),
        }
    }
}

} // verus!
