//! RTP sequence numbers, which wrap around.

use vstd::prelude::*;

verus! {

/// How far one sequence number lies ahead of another, the short way round.
pub open spec fn ahead(a: u16, b: u16) -> int {
    let d = (a - b) % 0x1_0000;
    if d < 0x8000 {
        d
    } else {
        d - 0x1_0000
    }
}

/// Calculate sequence number difference handling wraparound.
pub fn sequence_diff(a: u16, b: u16) -> (r: i32)
    ensures
        r == ahead(a, b),
{
    let d: i32 = a.wrapping_sub(b) as i32;
    if d < 0x8000 {
        d
    } else {
        d - 0x1_0000
    }
}

/// Whether a sequence number is newer than another.
pub fn sequence_newer(a: u16, b: u16) -> (r: bool)
    ensures
        r == (ahead(a, b) > 0),
{
    sequence_diff(a, b) > 0
}

/// The difference is the number of steps from one sequence number to the other, and the reverse
/// way it is the opposite, unless they are half the range apart.
pub proof fn lemma_ahead(a: u16, b: u16)
    ensures
        (b + ahead(a, b)) % 0x1_0000 == a,
        ahead(a, b) != -0x8000 ==> ahead(b, a) == -ahead(a, b),
        ahead(a, b) == 0 <==> a == b,
{
}

} // verus!
