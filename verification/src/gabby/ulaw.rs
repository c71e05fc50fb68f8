//! G.711 mu-law.

use crate::media::codec::law::{expand, scale, segment};
use vstd::prelude::*;

verus! {

fn scale_of(segment: u8) -> (r: i32)
    ensures
        r == scale(segment as int),
{
    match segment {
        0 => 1,
        1 => 2,
        2 => 4,
        3 => 8,
        4 => 16,
        5 => 32,
        6 => 64,
        _ => 128,
    }
}

/// The biased magnitude of a sample, clipped to what a code can hold.
pub open spec fn biased(s: i16) -> int {
    let m = if s < 0 {
        -s
    } else {
        s as int
    };
    (if m > 32635 {
        32635
    } else {
        m
    }) + 132
}

/// The code for a sample.
pub open spec fn compress(s: i16) -> int {
    let m = biased(s);
    let sign: int = if s < 0 {
        128
    } else {
        0
    };
    255 - (sign + segment(m) * 16 + m / (8 * scale(segment(m))) % 16)
}

/// G.711 mu-law decoding (ITU-T G.711)
pub fn decode_ulaw(compressed: u8) -> (r: i16)
    ensures
        r == expand(compressed),
{
    let u: u8 = 255 - compressed;
    let segment: u8 = u / 16 % 8;
    let step: i32 = (u % 16) as i32 * 8 + 132;
    let size: i32 = scale_of(segment);
    assert(132 <= step * size <= 32256) by (nonlinear_arith)
        requires
            132 <= step <= 252,
            1 <= size <= 128,
    ;
    let magnitude: i32 = step * size - 132;
    if u >= 128 {
        (-magnitude) as i16
    } else {
        magnitude as i16
    }
}

/// G.711 mu-law encoding (ITU-T G.711 standard algorithm)
pub fn encode_ulaw(sample: i16) -> (r: u8)
    ensures
        r == compress(sample),
{
    let wide: i32 = sample as i32;
    let sign: i32 = if wide < 0 {
        128
    } else {
        0
    };
    let magnitude: i32 = if wide < 0 {
        -wide
    } else {
        wide
    };
    let clipped: i32 = if magnitude > 32635 {
        32635
    } else {
        magnitude
    };
    let m: i32 = clipped + 132;
    let seg: u8 = if m < 0x100 {
        0
    } else if m < 0x200 {
        1
    } else if m < 0x400 {
        2
    } else if m < 0x800 {
        3
    } else if m < 0x1000 {
        4
    } else if m < 0x2000 {
        5
    } else if m < 0x4000 {
        6
    } else {
        7
    };
    let step: i32 = m / (8 * scale_of(seg)) % 16;
    (255 - (sign + seg as i32 * 16 + step)) as u8
}

proof fn lemma_expand_compress_in(code: u8, seg: int)
    requires
        code != 0x7F,
        seg == (255 - code) / 16 % 8,
    ensures
        -32768 <= expand(code) <= 32767,
        compress(expand(code) as i16) == code,
{
    let u = 255 - code;
    let k = u % 16;
    let size = scale(seg);
    let m = (k * 8 + 132) * size;
    assert(u == (if u >= 128 {
        128int
    } else {
        0
    }) + seg * 16 + k);
    assert(0 <= seg <= 7);
    if seg == 0 {
        assert(m == k * 8 + 132);
        assert(m / 8 % 16 == k);
    } else if seg == 1 {
        assert(m == (k * 8 + 132) * 2);
        assert(m / 16 % 16 == k);
    } else if seg == 2 {
        assert(m == (k * 8 + 132) * 4);
        assert(m / 32 % 16 == k);
    } else if seg == 3 {
        assert(m == (k * 8 + 132) * 8);
        assert(m / 64 % 16 == k);
    } else if seg == 4 {
        assert(m == (k * 8 + 132) * 16);
        assert(m / 128 % 16 == k);
    } else if seg == 5 {
        assert(m == (k * 8 + 132) * 32);
        assert(m / 256 % 16 == k);
    } else if seg == 6 {
        assert(m == (k * 8 + 132) * 64);
        assert(m / 512 % 16 == k);
    } else {
        assert(m == (k * 8 + 132) * 128);
        assert(m / 1024 % 16 == k);
    }
    let s = expand(code) as i16;
    assert(expand(code) == if u >= 128 {
        132 - m
    } else {
        m - 132
    });
    assert(biased(s) == m);
    assert(segment(m) == seg);
    assert(u >= 128 ==> s < 0);
}

/// Every code is the code of the sample that it stands for, except that of minus zero, which
/// stands for the zero that has another code.
pub proof fn lemma_code_round_trip(code: u8)
    ensures
        code != 0x7F ==> compress(expand(code) as i16) == code,
        expand(0x7F) == 0,
        compress(0) == 0xFF,
{
    if code != 0x7F {
        lemma_expand_compress_in(code, (255 - code) as int / 16 % 8);
    }
    lemma_expand_compress_in(0xFF, 0);
}

/// A sample that is not clipped comes back from its code within half a step of its segment.
pub proof fn lemma_sample_round_trip(s: i16)
    requires
        -32635 <= s <= 32635,
    ensures
        0 <= compress(s) <= 255,
        -4 * scale(segment(biased(s))) <= expand(compress(s) as u8) - s,
        expand(compress(s) as u8) - s <= 4 * scale(segment(biased(s))),
{
    let m = biased(s);
    let seg = segment(m);
    let size = scale(seg);
    let k = m / (8 * size) % 16;
    let code = compress(s) as u8;
    let u = 255 - code;
    assert(u == (if s < 0 {
        128int
    } else {
        0
    }) + seg * 16 + k);
    assert(u % 16 == k);
    assert(u / 16 % 8 == seg);
    let back = (k * 8 + 132) * size;
    if seg == 0 {
        assert(m / 8 == k + 16);
        assert(back == k * 8 + 132);
    } else if seg == 1 {
        assert(m / 16 == k + 16);
        assert(back == (k * 8 + 132) * 2);
    } else if seg == 2 {
        assert(m / 32 == k + 16);
        assert(back == (k * 8 + 132) * 4);
    } else if seg == 3 {
        assert(m / 64 == k + 16);
        assert(back == (k * 8 + 132) * 8);
    } else if seg == 4 {
        assert(m / 128 == k + 16);
        assert(back == (k * 8 + 132) * 16);
    } else if seg == 5 {
        assert(m / 256 == k + 16);
        assert(back == (k * 8 + 132) * 32);
    } else if seg == 6 {
        assert(m / 512 == k + 16);
        assert(back == (k * 8 + 132) * 64);
    } else {
        assert(m / 1024 == k + 16);
        assert(back == (k * 8 + 132) * 128);
    }
}

} // verus!
