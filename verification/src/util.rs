//! Random values.

use rand::{Rng, RngCore};
use vstd::prelude::*;

verus! {

/// Generates a random 16-bit number (`rand`'s `Rng::gen` on the thread's generator). Any number
/// can come out.
#[verifier::external_body]
pub fn random_u16() -> (r: u16) {
    rand::thread_rng().gen()
}

/// Generates a random 32-bit number (`rand`'s `Rng::gen` on the thread's generator). Any number
/// can come out.
#[verifier::external_body]
pub fn random_u32() -> (r: u32) {
    rand::thread_rng().gen()
}

/// Generates a random 64-bit number (`rand`'s `Rng::gen` on the thread's generator). Any number
/// can come out.
#[verifier::external_body]
pub fn random_u64() -> (r: u64) {
    rand::thread_rng().gen()
}

/// A random number below `n` (`rand`'s `Rng::gen_range` on the thread's generator).
#[verifier::external_body]
pub(crate) fn random_below(n: u8) -> (r: u8)
    requires
        n > 0,
    ensures
        r < n,
{
    rand::thread_rng().gen_range(0..n)
}

/// Random bytes (`rand`'s `RngCore::fill_bytes` on the thread's generator). Any bytes can come
/// out.
#[verifier::external_body]
pub(crate) fn random_bytes<const N: usize>() -> (r: [u8; N]) {
    let mut bytes = [0u8; N];
    rand::thread_rng().fill_bytes(&mut bytes);
    bytes
}

} // verus!
