//! What the sound of a call goes through: companding, buffers, frames, pieces and loudness.

use crate::buf::{be16, be32};
use crate::gabby::audio::{chunks, energy, joined, sentence_ends, silence, square};
use crate::gabby::call::{
    compressed, expanded, latest, rtp_packet, DEFAULT_CALL_TIMEOUT_SECS, MAX_OUTPUT_BUFFER_SAMPLES,
    MAX_STT_BUFFER_SAMPLES, MAX_VAD_BUFFER_SAMPLES, NANOS_PER_SEC, PCMU_PAYLOAD_TYPE,
    RTP_HEADER_SIZE, SAMPLES_PER_FRAME, STT_CHUNK, VAD_CHUNK,
};
use crate::gabby::ulaw::{biased, compress};
use crate::media::codec::law::{expand, scale, segment};
use crate::text::white_space;
use vstd::prelude::*;

verus! {

/// The sizes that a call goes by: frames of 20 milliseconds at 8000 samples a second; at most 30
/// seconds of sound to be played, 10 to be understood and 5 to be listened to; pieces of 200 and
/// of 100 milliseconds at 16000 a second; and five minutes for a call.
pub proof fn lemma_sizes()
    ensures
        RTP_HEADER_SIZE == 12,
        1000 * SAMPLES_PER_FRAME == 20 * 8000,
        PCMU_PAYLOAD_TYPE == 0,
        MAX_OUTPUT_BUFFER_SAMPLES == 30 * 8000,
        MAX_STT_BUFFER_SAMPLES == 10 * 16000,
        MAX_VAD_BUFFER_SAMPLES == 5 * 16000,
        1000 * STT_CHUNK == 200 * 16000,
        1000 * VAD_CHUNK == 100 * 16000,
        DEFAULT_CALL_TIMEOUT_SECS == 5 * 60,
        NANOS_PER_SEC == 1000 * 1000 * 1000,
{
}

/// Each segment is twice as wide as the one before it, and there are eight.
pub proof fn lemma_segments(m: int, k: int)
    requires
        0 <= k < 7,
    ensures
        scale(0) == 1,
        scale(k + 1) == 2 * scale(k),
        segment(m) == 0 <==> m < 256,
        segment(m) == 7 <==> m >= 16384,
        256 <= m < 32768 ==> 128 * scale(segment(m)) <= m < 256 * scale(segment(m)),
        256 <= m < 16384 ==> segment(2 * m) == segment(m) + 1,
        0 <= segment(m) <= 7,
{
}

/// Codes: 255 stands for silence, and flipping the highest bit for the other sign. In the first
/// segment a step is 8, in each segment twice what it is in the one before, and the loudest code
/// stands for 32124.
pub proof fn lemma_codes(code: u8)
    ensures
        expand(255) == 0,
        expand(127) == 0,
        expand(128) == 32124,
        expand(0) == -32124,
        code < 128 ==> expand(code) == -expand((code + 128) as u8),
        code >= 240 && code < 255 ==> expand(code) == expand((code + 1) as u8) + 8,
        code >= 144 ==> expand((code - 16) as u8) + 132 == 2 * (expand(code) + 132),
        code >= 129 ==> expand((code - 1) as u8) > expand(code),
{
    lemma_scales();
    if code >= 129 {
        lemma_louder(code);
    }
    if code >= 240 && code < 255 {
        let u = 255 - code;
        assert(u / 16 % 8 == 0 && u % 16 == u);
        assert((u - 1) / 16 % 8 == 0 && (u - 1) % 16 == u - 1);
    }
}

proof fn lemma_louder(code: u8)
    requires
        code >= 129,
    ensures
        expand((code - 1) as u8) > expand(code),
{
    lemma_scales();
    let u = 255 - code;
    let v = u + 1;
    let k = u / 16;
    assert(u / 16 % 8 == k);
    let low = u % 16 * 8 + 132;
    assert(expand(code) == low * scale(k) - 132);
    if u % 16 == 15 {
        assert(v / 16 % 8 == k + 1);
        assert(v % 16 == 0);
        assert(expand((code - 1) as u8) == 132 * scale(k + 1) - 132);
        assert(low == 252);
        lemma_segments(0, k);
    } else {
        assert(v / 16 % 8 == k);
        assert(v % 16 == u % 16 + 1);
        assert(expand((code - 1) as u8) == (low + 8) * scale(k) - 132);
        let w = scale(k);
        assert(w >= 1);
        assert((low + 8) * w > low * w) by (nonlinear_arith)
            requires
                w >= 1,
        ;
    }
}

proof fn lemma_scales()
    ensures
        scale(0) == 1,
        scale(1) == 2,
        scale(2) == 4,
        scale(3) == 8,
        scale(4) == 16,
        scale(5) == 32,
        scale(6) == 64,
        scale(7) == 128,
{
}

/// A sample is taken without its sign, held at 32635, and biased by 132.
pub proof fn lemma_biased(s: i16)
    ensures
        -32635 <= s <= 32635 ==> biased(s) == 132 + (if s < 0 {
            -s
        } else {
            s as int
        }),
        !(-32635 <= s <= 32635) ==> biased(s) == 32767,
{
}

/// The code of a negative sample is that of its opposite, less 128; silence is 255, and what is
/// louder never has the greater code.
pub proof fn lemma_compressed_sign(s: i16, t: i16)
    ensures
        s > 0 ==> compress((-s) as i16) == compress(s) - 128,
        compress(0) == 255,
        s >= 0 ==> 128 <= compress(s) <= 255,
        s < 0 ==> 0 <= compress(s) < 128,
        0 <= s <= t ==> compress(t) <= compress(s),
{
    lemma_scales();
    let m = biased(s);
    let n = biased(t);
    lemma_segments(m, 0);
    lemma_segments(n, 0);
    lemma_step(m);
    lemma_step(n);
    assert(biased(0) == 132 && segment(132) == 0 && 132int / 8 == 16);
    assert(compress(0) == 255);
    if 0 <= s <= t {
        assert(m <= n);
        assert(segment(m) <= segment(n));
        if segment(m) == segment(n) {
            lemma_same_segment(m, n);
        }
    }
}

/// Which of the sixteen steps of its segment a magnitude falls in.
proof fn lemma_step(m: int)
    requires
        132 <= m < 32768,
    ensures
        0 <= m / (8 * scale(segment(m))) % 16 < 16,
{
    lemma_scales();
}

proof fn lemma_same_segment(m: int, n: int)
    requires
        132 <= m <= n < 32768,
        segment(m) == segment(n),
    ensures
        m / (8 * scale(segment(m))) % 16 <= n / (8 * scale(segment(n))) % 16,
{
    lemma_scales();
    let k = segment(m);
    let w = 8 * scale(k);
    if k == 0 {
        assert(m / 8 <= n / 8 < 32 && 16 <= m / 8);
    } else if k == 1 {
        assert(16 <= m / 16 <= n / 16 < 32);
    } else if k == 2 {
        assert(16 <= m / 32 <= n / 32 < 32);
    } else if k == 3 {
        assert(16 <= m / 64 <= n / 64 < 32);
    } else if k == 4 {
        assert(16 <= m / 128 <= n / 128 < 32);
    } else if k == 5 {
        assert(16 <= m / 256 <= n / 256 < 32);
    } else if k == 6 {
        assert(16 <= m / 512 <= n / 512 < 32);
    } else {
        assert(16 <= m / 1024 <= n / 1024 < 32);
    }
}

/// Sound is companded sample by sample, in its order.
pub proof fn lemma_sample_by_sample(codes: Seq<u8>, samples: Seq<i16>, i: int)
    ensures
        expanded(codes).len() == codes.len(),
        0 <= i < codes.len() ==> expanded(codes)[i] == expand(codes[i]),
        compressed(samples).len() == samples.len(),
        0 <= i < samples.len() ==> compressed(samples)[i] == compress(samples[i]),
{
    lemma_scales();
    if 0 <= i < codes.len() {
        lemma_expand_range(codes[i]);
    }
    if 0 <= i < samples.len() {
        lemma_compressed_sign(samples[i], 0);
    }
}

proof fn lemma_expand_range(code: u8)
    ensures
        -32768 <= expand(code) <= 32767,
{
    lemma_scales();
    let u = 255 - code;
    let k = u / 16 % 8;
    assert(0 <= k <= 7);
}

/// A frame of sound on the wire: version 2 with nothing else in the first byte, mu-law without a
/// marker in the second, the sequence number, the timestamp and the source, and then the codes.
pub proof fn lemma_frame_bytes(sequence: u16, timestamp: u32, ssrc: u32, samples: Seq<i16>, i: int)
    ensures
        rtp_packet(sequence, timestamp, ssrc, samples).len() == 12 + samples.len(),
        rtp_packet(sequence, timestamp, ssrc, samples)[0] == 0x80,
        rtp_packet(sequence, timestamp, ssrc, samples)[1] == 0,
        rtp_packet(sequence, timestamp, ssrc, samples).subrange(2, 4) == be16(sequence),
        rtp_packet(sequence, timestamp, ssrc, samples).subrange(4, 8) == be32(timestamp),
        rtp_packet(sequence, timestamp, ssrc, samples).subrange(8, 12) == be32(ssrc),
        0 <= i < samples.len() ==> rtp_packet(sequence, timestamp, ssrc, samples)[12 + i]
            == compress(samples[i]),
{
    broadcast use crate::buf::group_be_len;

    lemma_sample_by_sample(Seq::empty(), samples, i);
    let p = rtp_packet(sequence, timestamp, ssrc, samples);
    assert(p.subrange(2, 4) =~= be16(sequence));
    assert(p.subrange(4, 8) =~= be32(timestamp));
    assert(p.subrange(8, 12) =~= be32(ssrc));
}

/// A buffer that is full keeps the newest: what is kept is the end of what there was, as long as
/// the buffer is, and nothing is dropped where all of it fits.
pub proof fn lemma_newest_kept(old: Seq<i16>, new: Seq<i16>, max: int)
    requires
        0 <= max,
    ensures
        old.len() + new.len() <= max ==> latest(old + new, max) == old + new,
        old.len() + new.len() > max ==> latest(old + new, max).len() == max,
        new.len() <= max && old.len() + new.len() > max ==> latest(old + new, max) == old.skip(
            old.len() + new.len() - max,
        ) + new,
        new.len() > max ==> latest(old + new, max) == new.skip(new.len() - max),
{
    if new.len() <= max && old.len() + new.len() > max {
        assert(latest(old + new, max) =~= old.skip(old.len() + new.len() - max) + new);
    }
    if new.len() > max {
        assert(latest(old + new, max) =~= new.skip(new.len() - max));
    }
}

/// Sound is cut into whole pieces in its order, and what is left is shorter than a piece: putting
/// the pieces and what is left together again gives the sound.
pub proof fn lemma_pieces(s: Seq<i16>, size: int)
    requires
        size > 0,
    ensures
        joined(chunks(s, size).0) + chunks(s, size).1 == s,
        chunks(s, size).1.len() < size,
        chunks(s, size).0.len() == s.len() / size as nat,
        forall|i: int|
            0 <= i < chunks(s, size).0.len() ==> (#[trigger] chunks(s, size).0[i]).len() == size,
    decreases s.len(),
{
    if s.len() >= size {
        let rest = s.skip(size);
        lemma_pieces(rest, size);
        let (more, left) = chunks(rest, size);
        let all = seq![s.take(size)] + more;
        assert(all.skip(1) =~= more);
        assert(joined(all) == s.take(size) + joined(more));
        assert(joined(all) + left =~= s.take(size) + (joined(more) + left));
        assert(s =~= s.take(size) + rest);
        assert(s.len() as int / size == 1 + rest.len() as int / size) by (nonlinear_arith)
            requires
                s.len() as int == rest.len() as int + size,
                size > 0,
        ;
    } else {
        assert(joined(chunks(s, size).0) + chunks(s, size).1 =~= s);
        assert(s.len() as int / size == 0) by (nonlinear_arith)
            requires
                0 <= s.len() as int,
                (s.len() as int) < size,
        ;
    }
}

/// Pieces are put together one behind the other.
pub proof fn lemma_joined(pieces: Seq<Seq<i16>>, first: Seq<i16>)
    ensures
        joined(Seq::empty()).len() == 0,
        joined(seq![first] + pieces) == first + joined(pieces),
{
    assert((seq![first] + pieces).skip(1) =~= pieces);
}

/// Energy adds up: that of nothing is none, and each sample adds its square, whatever its sign.
pub proof fn lemma_energy(s: Seq<i16>, a: i16)
    ensures
        energy(Seq::empty()) == 0,
        energy(s.push(a)) == energy(s) + a * a,
        square(a) == a * a,
        a > -32768 ==> square((-a) as i16) == square(a),
{
    assert(s.push(a).drop_last() =~= s);
    assert(0 <= a * a) by (nonlinear_arith);
    assert(a > -32768 ==> (-a) * (-a) == a * a) by (nonlinear_arith);
}

/// Silence is so many zeros, and has no energy.
pub proof fn lemma_silent(n: int)
    requires
        0 <= n,
    ensures
        silence(n).len() == n,
        forall|i: int| 0 <= i < n ==> #[trigger] silence(n)[i] == 0,
        energy(silence(n)) == 0,
    decreases n,
{
    if n > 0 {
        lemma_silent(n - 1);
        assert(silence(n).drop_last() =~= silence(n - 1));
        assert(square(0i16) == 0) by (nonlinear_arith);
    }
}

/// A sentence ends at a full stop, an exclamation mark or a question mark that stands at the end
/// or in front of white space; nowhere else.
pub proof fn lemma_sentence_ends(s: Seq<char>, rest: Seq<char>, c: char)
    ensures
        c == '.' || c == '!' || c == '?' ==> sentence_ends(s.push(c), s.len() as int),
        c != '.' && c != '!' && c != '?' ==> !sentence_ends(s.push(c) + rest, s.len() as int),
        (c == '.' || c == '!' || c == '?') && rest.len() > 0 ==> (sentence_ends(
            s.push(c) + rest,
            s.len() as int,
        ) <==> white_space(rest[0])),
        !sentence_ends(s, s.len() as int),
        !sentence_ends(s, -1),
{
    if rest.len() > 0 {
        assert((s.push(c) + rest)[s.len() as int + 1] == rest[0]);
    }
}

} // verus!
