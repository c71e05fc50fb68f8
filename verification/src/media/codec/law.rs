//! The laws by which G.711 compands: segments, each twice as wide as the one before.

use vstd::prelude::*;

verus! {

/// How wide the steps of a segment are, measured by those of the first.
pub open spec fn scale(segment: int) -> int {
    if segment == 0 {
        1
    } else if segment == 1 {
        2
    } else if segment == 2 {
        4
    } else if segment == 3 {
        8
    } else if segment == 4 {
        16
    } else if segment == 5 {
        32
    } else if segment == 6 {
        64
    } else {
        128
    }
}

/// The segment of a magnitude.
pub open spec fn segment(m: int) -> int {
    if m < 0x100 {
        0
    } else if m < 0x200 {
        1
    } else if m < 0x400 {
        2
    } else if m < 0x800 {
        3
    } else if m < 0x1000 {
        4
    } else if m < 0x2000 {
        5
    } else if m < 0x4000 {
        6
    } else {
        7
    }
}

/// The sample that a code stands for. The code is kept with its bits inverted: a sign, three bits
/// that name a segment, and four that name a step of it. Magnitudes are biased by 132, and a step
/// stands for its middle.
pub open spec fn expand(code: u8) -> int {
    let u = 255 - code;
    let magnitude = (u % 16 * 8 + 132) * scale(u / 16 % 8) - 132;
    if u >= 128 {
        -magnitude
    } else {
        magnitude
    }
}

} // verus!
