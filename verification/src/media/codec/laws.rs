//! What the codecs keep of a sample, and the numbers that they are known by.

use crate::media::codec::g711::{
    alaw_code, alaw_sample, alaw_word, sign_bit, silence_code, steps, ulaw_code, G711Variant,
};
use crate::media::codec::g722::{G722_PAYLOAD_TYPE, G722_RTP_RATE, G722_SAMPLE_RATE};
use crate::media::codec::law::{expand, scale, segment};
use vstd::prelude::*;

verus! {

/// G.722 is payload type 9; it takes 16000 samples a second, though its RTP clock runs at 8000.
pub proof fn lemma_g722_numbers()
    ensures
        G722_PAYLOAD_TYPE == 9,
        G722_SAMPLE_RATE == 16000,
        G722_RTP_RATE == 8000,
        G722_SAMPLE_RATE == 2 * G722_RTP_RATE,
{
}

proof fn lemma_scales()
    ensures
        scale(0) == 1,
        scale(1) == 2,
        scale(2) == 4,
        scale(3) == 8,
        scale(4) == 16,
        scale(5) == 32,
        scale(6) == 64,
        scale(7) == 128,
{
}

/// Steps count from zero up on both sides: a negative sample has as many as the positive one that
/// is one less.
pub proof fn lemma_steps(s: i16, size: int)
    requires
        size > 0,
    ensures
        s < 0 ==> steps(s, size) == steps((-s - 1) as i16, size),
        0 <= s < size ==> steps(s, size) == 0,
        s >= 0 ==> size * steps(s, size) <= s < size * (steps(s, size) + 1),
        sign_bit(s) == (if s < 0 {
            128int
        } else {
            0
        }),
{
    if s >= 0 {
        let v = s as int;
        assert(size * (v / size) <= v < size * (v / size + 1)) by (nonlinear_arith)
            requires
                size > 0,
                v >= 0,
        ;
        if s < size {
            assert(v / size == 0) by (nonlinear_arith)
                requires
                    0 <= v < size,
            ;
        }
    }
}

/// Mu-law: silence is 255, the code of a negative sample is 128 less than that of the positive one
/// that is one less, the loudest samples have 128 and 0, and what is louder never has the greater
/// code.
pub proof fn lemma_mu_law(s: i16, t: i16)
    ensures
        ulaw_code(0) == 255,
        ulaw_code(-1i16) == 127,
        ulaw_code(32767) == 128,
        ulaw_code(-32768i16) == 0,
        s < 0 ==> ulaw_code(s) == ulaw_code((-s - 1) as i16) - 128,
        s >= 0 ==> 128 <= ulaw_code(s) <= 255,
        0 <= s <= t ==> ulaw_code(t) <= ulaw_code(s),
{
    lemma_scales();
    if s >= 0 {
        lemma_mu_word(s, if s <= t {
            t
        } else {
            s
        });
    }
    assert(steps(0, 4) == 0 && segment(132) == 0 && 33int / 2 == 16);
    assert(steps(-1i16, 4) == 0);
    assert(steps(32767, 4) == 8191);
    assert(steps(-32768i16, 4) == 8191);
}

proof fn lemma_mu_word(s: i16, t: i16)
    requires
        0 <= s <= t,
    ensures
        128 <= ulaw_code(s) <= 255,
        ulaw_code(t) <= ulaw_code(s),
{
    lemma_scales();
    let m = s as int / 4 + 33;
    let n = t as int / 4 + 33;
    assert(m <= n);
    if n < 8192 {
        assert(segment(4 * m) <= segment(4 * n));
        lemma_mu_step(m);
        lemma_mu_step(n);
        if segment(4 * m) == segment(4 * n) {
            lemma_mu_same(m, n);
        }
    } else if m < 8192 {
        lemma_mu_step(m);
    }
}

proof fn lemma_mu_step(m: int)
    requires
        33 <= m < 8192,
    ensures
        16 <= m / (2 * scale(segment(4 * m))) < 32,
{
    lemma_scales();
    let k = segment(4 * m);
    if k == 0 {
        assert(m < 64 && 16 <= m / 2 < 32);
    } else if k == 1 {
        assert(64 <= m < 128 && 16 <= m / 4 < 32);
    } else if k == 2 {
        assert(128 <= m < 256 && 16 <= m / 8 < 32);
    } else if k == 3 {
        assert(256 <= m < 512 && 16 <= m / 16 < 32);
    } else if k == 4 {
        assert(512 <= m < 1024 && 16 <= m / 32 < 32);
    } else if k == 5 {
        assert(1024 <= m < 2048 && 16 <= m / 64 < 32);
    } else if k == 6 {
        assert(2048 <= m < 4096 && 16 <= m / 128 < 32);
    } else {
        assert(4096 <= m < 8192 && 16 <= m / 256 < 32);
    }
}

proof fn lemma_mu_same(m: int, n: int)
    requires
        33 <= m <= n < 8192,
        segment(4 * m) == segment(4 * n),
    ensures
        m / (2 * scale(segment(4 * m))) <= n / (2 * scale(segment(4 * n))),
{
    lemma_scales();
    let k = segment(4 * m);
    if k == 0 {
        assert(m / 2 <= n / 2);
    } else if k == 1 {
        assert(m / 4 <= n / 4);
    } else if k == 2 {
        assert(m / 8 <= n / 8);
    } else if k == 3 {
        assert(m / 16 <= n / 16);
    } else if k == 4 {
        assert(m / 32 <= n / 32);
    } else if k == 5 {
        assert(m / 64 <= n / 64);
    } else if k == 6 {
        assert(m / 128 <= n / 128);
    } else {
        assert(m / 256 <= n / 256);
    }
}

/// A-law: the word of a sample is its sign, its segment and its step; the word of a negative sample
/// is 128 more than that of the positive one that is one less. On the wire every second bit is
/// flipped, and the sign.
pub proof fn lemma_a_law(s: i16)
    ensures
        alaw_word(0) == 0,
        alaw_word(-1i16) == 128,
        alaw_word(32767) == 127,
        alaw_word(-32768i16) == 255,
        s < 0 ==> alaw_word(s) == alaw_word((-s - 1) as i16) + 128,
        0 <= s < 512 ==> alaw_word(s) == s as int / 16,
        512 <= s < 16384 ==> alaw_word((2 * s) as i16) == alaw_word(s) + 16,
        alaw_code(s) == (alaw_word(s) as u8) ^ 0xd5,
        alaw_code(0) == 0xd5,
        alaw_code(-1i16) == 0x55,
{
    lemma_scales();
    assert(steps(0, 8) == 0);
    assert(steps(-1i16, 8) == 0);
    assert(steps(32767, 8) == 4095 && segment(32760) == 7 && 4095int / 128 == 31);
    assert(steps(-32768i16, 8) == 4095);
    assert(0u8 ^ 0xd5 == 0xd5) by (bit_vector);
    assert(128u8 ^ 0xd5 == 0x55) by (bit_vector);
    if 0 <= s < 512 {
        let v = s as int / 8;
        assert(v < 64);
        if v < 32 {
            assert(segment(8 * v) == 0);
            assert(v / 2 == s as int / 16);
        } else {
            assert(segment(8 * v) == 1);
            assert(v / 2 == s as int / 16);
            assert(v / 2 % 16 == v / 2 - 16);
        }
    }
    if 512 <= s < 16384 {
        lemma_a_doubled(s);
    }
}

proof fn lemma_a_doubled(s: i16)
    requires
        512 <= s < 16384,
    ensures
        alaw_word((2 * s) as i16) == alaw_word(s) + 16,
{
    lemma_scales();
    let v = s as int / 8;
    let w = (2 * s) / 8;
    assert(2 * v <= w <= 2 * v + 1);
    let k = segment(8 * v);
    assert(segment(8 * w) == k + 1);
    if k == 2 {
        assert(w / 8 == v / 4);
    } else if k == 3 {
        assert(w / 16 == v / 8);
    } else if k == 4 {
        assert(w / 32 == v / 16);
    } else if k == 5 {
        assert(w / 64 == v / 32);
    } else {
        assert(k == 6);
        assert(w / 128 == v / 64);
    }
}

/// What an A-law code stands for: 8 and -8 nearest to silence, 16 from one code to the next in the
/// first two segments, and twice as much in each segment from the second on.
pub proof fn lemma_a_law_samples(code: u8, x: u8)
    requires
        x == code ^ 0x55,
    ensures
        x >= 128 ==> alaw_sample(code) > 0,
        x < 128 ==> alaw_sample(code) < 0,
        128 <= x < 160 ==> alaw_sample(code) == 16 * (x - 128) + 8,
        x < 32 ==> alaw_sample(code) == -(16 * x + 8),
        x >= 128 && x < 144 ==> alaw_sample(code) <= 248,
        x == 255 ==> alaw_sample(code) == 32256,
        x == 127 ==> alaw_sample(code) == -32256,
        144 <= x < 240 ==> exists|twin: u8|
            #![trigger alaw_sample(twin)]
            twin ^ 0x55 == x + 16 && alaw_sample(twin) == 2 * alaw_sample(code),
{
    lemma_scales();
    let seg = x as int / 16 % 8;
    if 144 <= x < 240 {
        let y = (x + 16) as u8;
        let twin = y ^ 0x55;
        assert((y ^ 0x55) ^ 0x55 == y) by (bit_vector);
        assert(twin ^ 0x55 == y);
        assert(y as int / 16 % 8 == seg + 1);
        assert(y as int % 16 == x as int % 16);
        assert(alaw_sample(code) == (x as int % 16 * 16 + 264) * scale(seg - 1));
        assert(alaw_sample(twin) == (x as int % 16 * 16 + 264) * scale(seg));
        assert(scale(seg) == 2 * scale(seg - 1));
        let a = x as int % 16 * 16 + 264;
        let b = scale(seg - 1);
        assert(a * (2 * b) == 2 * (a * b)) by (nonlinear_arith);
        assert(alaw_sample(twin) == 2 * alaw_sample(code));
    }
    if seg > 0 {
        let a = x as int % 16 * 16 + 264;
        let b = scale(seg - 1);
        assert(b >= 1);
        assert(a * b > 0) by (nonlinear_arith)
            requires
                a > 0,
                b >= 1,
        ;
    }
}

/// Each variant codes by its own law and decodes by the same; silence is coded as the sample 0.
pub proof fn lemma_variants(s: i16, code: u8)
    ensures
        G711Variant::MuLaw.code(s) == ulaw_code(s),
        G711Variant::ALaw.code(s) == alaw_code(s),
        G711Variant::MuLaw.sample(code) == expand(code),
        G711Variant::ALaw.sample(code) == alaw_sample(code),
        silence_code(G711Variant::MuLaw) == 255,
        silence_code(G711Variant::ALaw) == 0xd5,
        silence_code(G711Variant::MuLaw) == G711Variant::MuLaw.code(0),
        silence_code(G711Variant::ALaw) == G711Variant::ALaw.code(0),
{
    lemma_mu_law(0, 0);
    lemma_a_law(0);
}

} // verus!
