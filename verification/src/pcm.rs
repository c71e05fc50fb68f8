//! 16-bit audio samples as bytes, the less significant byte first.

use vstd::prelude::*;

verus! {

/// The sample whose bytes these are.
pub open spec fn sample(lo: u8, hi: u8) -> i16 {
    let u = lo + 0x100 * hi;
    (if u < 0x8000 {
        u
    } else {
        u - 0x1_0000
    }) as i16
}

/// The less significant byte of a sample.
pub open spec fn low_byte(s: i16) -> u8 {
    (s as int % 0x100) as u8
}

/// The more significant byte of a sample.
pub open spec fn high_byte(s: i16) -> u8 {
    (s as int / 0x100 % 0x100) as u8
}

/// The samples that bytes hold. A last byte on its own is left.
pub open spec fn samples_of(bytes: Seq<u8>) -> Seq<i16> {
    Seq::new(bytes.len() / 2, |i: int| sample(bytes[2 * i], bytes[2 * i + 1]))
}

/// The bytes that hold samples.
pub open spec fn bytes_of(samples: Seq<i16>) -> Seq<u8> {
    Seq::new(
        samples.len() * 2,
        |i: int|
            if i % 2 == 0 {
                low_byte(samples[i / 2])
            } else {
                high_byte(samples[i / 2])
            },
    )
}

/// The sample whose bytes these are.
pub fn sample_from(lo: u8, hi: u8) -> (r: i16)
    ensures
        r == sample(lo, hi),
{
    let u: i32 = lo as i32 + 0x100 * (hi as i32);
    if u < 0x8000 {
        u as i16
    } else {
        (u - 0x1_0000) as i16
    }
}

/// The bytes of a sample.
pub fn sample_bytes(s: i16) -> (r: (u8, u8))
    ensures
        r.0 == low_byte(s),
        r.1 == high_byte(s),
{
    let u: u32 = if s >= 0 {
        s as u32
    } else {
        (s as i32 + 0x1_0000) as u32
    };
    assert(s < 0 ==> (s + 0x1_0000) / 0x100 == s as int / 0x100 + 0x100);
    ((u % 0x100) as u8, (u / 0x100) as u8)
}

/// The samples that bytes hold.
pub fn samples_from(bytes: &[u8]) -> (r: Vec<i16>)
    ensures
        r@ == samples_of(bytes@),
{
    let total: usize = bytes.len();
    let n: usize = total / 2;
    let mut out: Vec<i16> = Vec::new();
    let mut i: usize = 0;
    while i < n
        invariant
            i <= n,
            total == bytes@.len(),
            n == total / 2,
            out@.len() == i,
            forall|k: int| 0 <= k < i ==> #[trigger] out@[k] == samples_of(bytes@)[k],
        decreases n - i,
    {
        out.push(sample_from(bytes[2 * i], bytes[2 * i + 1]));
        i = i + 1;
    }
    assert(out@ =~= samples_of(bytes@));
    out
}

/// Appends the bytes that hold samples.
pub fn append_samples(out: &mut Vec<u8>, samples: &[i16])
    ensures
        final(out)@ == old(out)@ + bytes_of(samples@),
{
    let mut i: usize = 0;
    assert(out@ =~= old(out)@ + bytes_of(samples@.take(0)));
    while i < samples.len()
        invariant
            i <= samples@.len(),
            out@ == old(out)@ + bytes_of(samples@.take(i as int)),
        decreases samples@.len() - i,
    {
        let (lo, hi): (u8, u8) = sample_bytes(samples[i]);
        let ghost before = bytes_of(samples@.take(i as int));
        let ghost after = bytes_of(samples@.take(i + 1));
        out.push(lo);
        out.push(hi);
        assert(after =~= before + seq![lo, hi]) by {
            assert forall|k: int| 0 <= k < after.len() implies after[k] == (before + seq![
                lo,
                hi,
            ])[k] by {
                if k < before.len() {
                    assert(k / 2 < i);
                    assert(samples@.take(i + 1)[k / 2] == samples@.take(i as int)[k / 2]);
                }
            }
        }
        assert(out@ =~= old(out)@ + after);
        i = i + 1;
    }
    assert(samples@.take(i as int) =~= samples@);
}

/// The bytes that hold samples give the samples back.
pub proof fn lemma_samples_round_trip(samples: Seq<i16>)
    ensures
        samples_of(bytes_of(samples)) == samples,
{
    let bytes = bytes_of(samples);
    assert forall|i: int| 0 <= i < samples.len() implies #[trigger] samples_of(bytes)[i]
        == samples[i] by {
        let s = samples[i];
        assert(bytes[2 * i] == low_byte(s));
        assert(bytes[2 * i + 1] == high_byte(s)) by {
            assert((2 * i + 1) / 2 == i);
        }
        assert(s >= 0 ==> s as int / 0x100 % 0x100 == s as int / 0x100);
        assert(s < 0 ==> s as int / 0x100 % 0x100 == s as int / 0x100 + 0x100);
    }
    assert(samples_of(bytes) =~= samples);
}

proof fn lemma_sample_bytes(lo: u8, hi: u8)
    ensures
        low_byte(sample(lo, hi)) == lo,
        high_byte(sample(lo, hi)) == hi,
{
    let u = lo + 0x100 * hi;
    assert((u - 0x1_0000) % 0x100 == lo);
    assert((u - 0x1_0000) / 0x100 == hi - 0x100);
}

/// Bytes that hold whole samples are given back by the samples.
pub proof fn lemma_bytes_round_trip(bytes: Seq<u8>)
    requires
        bytes.len() % 2 == 0,
    ensures
        bytes_of(samples_of(bytes)) == bytes,
{
    let samples = samples_of(bytes);
    assert forall|k: int| 0 <= k < bytes.len() implies #[trigger] bytes_of(samples)[k]
        == bytes[k] by {
        let i = k / 2;
        lemma_sample_bytes(bytes[2 * i], bytes[2 * i + 1]);
        assert(samples[i] == sample(bytes[2 * i], bytes[2 * i + 1]));
        if k % 2 == 0 {
            assert(k == 2 * i);
        } else {
            assert(k == 2 * i + 1);
        }
    }
    assert(bytes_of(samples) =~= bytes);
}

} // verus!
