//! Byte buffers: network byte order, and the growable buffers of the `bytes` crate.

use bytes::{BufMut, Bytes, BytesMut};
use vstd::prelude::*;

verus! {

/// A growable byte buffer of the `bytes` crate, opaque here.
#[verifier::external_type_specification]
#[verifier::external_body]
pub struct ExBytesMut(BytesMut);

/// A frozen byte buffer of the `bytes` crate, opaque here.
#[verifier::external_type_specification]
#[verifier::external_body]
pub struct ExBytes(Bytes);

/// The bytes written to a `BytesMut` so far.
pub uninterp spec fn written(b: BytesMut) -> Seq<u8>;

/// The bytes that a `Bytes` holds.
pub uninterp spec fn frozen(b: Bytes) -> Seq<u8>;

/// Whether a buffer of `len` bytes can be allocated at all.
pub open spec fn fits(len: nat) -> bool {
    len <= isize::MAX
}

/// `BytesMut::with_capacity`: an empty buffer. The capacity only avoids reallocation.
#[verifier::external_body]
pub(crate) fn new_buffer(capacity: usize) -> (b: BytesMut)
    requires
        fits(capacity as nat),
    ensures
        written(b) == Seq::<u8>::empty(),
{
    BytesMut::with_capacity(capacity)
}

/// `BytesMut::len`: the number of bytes written so far.
#[verifier::external_body]
pub(crate) fn buffer_len(b: &BytesMut) -> (n: usize)
    ensures
        n == written(*b).len(),
{
    b.len()
}

/// `BufMut::put_u8` on a `BytesMut`: appends one byte, growing as needed.
#[verifier::external_body]
pub(crate) fn put_u8(b: &mut BytesMut, n: u8)
    requires
        fits(written(*old(b)).len() + 1),
    ensures
        written(*final(b)) == written(*old(b)).push(n),
{
    b.put_u8(n)
}

/// `BufMut::put_u16` on a `BytesMut`: appends the two bytes of `n`, most significant first.
#[verifier::external_body]
pub(crate) fn put_u16(b: &mut BytesMut, n: u16)
    requires
        fits(written(*old(b)).len() + 2),
    ensures
        written(*final(b)) == written(*old(b)) + be16(n),
{
    b.put_u16(n)
}

/// `BufMut::put_u32` on a `BytesMut`: appends the four bytes of `n`, most significant first.
#[verifier::external_body]
pub(crate) fn put_u32(b: &mut BytesMut, n: u32)
    requires
        fits(written(*old(b)).len() + 4),
    ensures
        written(*final(b)) == written(*old(b)) + be32(n),
{
    b.put_u32(n)
}

/// `BufMut::put_slice` on a `BytesMut`: appends all of `src`.
#[verifier::external_body]
pub(crate) fn put_slice(b: &mut BytesMut, src: &[u8])
    requires
        fits(written(*old(b)).len() + src@.len()),
    ensures
        written(*final(b)) == written(*old(b)) + src@,
{
    b.put_slice(src)
}

/// `IndexMut` on a `BytesMut` (through its `DerefMut` to a slice): overwrites one byte.
#[verifier::external_body]
pub(crate) fn set_byte(b: &mut BytesMut, i: usize, n: u8)
    requires
        i < written(*old(b)).len(),
    ensures
        written(*final(b)) == written(*old(b)).update(i as int, n),
{
    b[i] = n
}

/// `BytesMut::freeze`: the same bytes, immutable.
#[verifier::external_body]
pub(crate) fn freeze(b: BytesMut) -> (r: Bytes)
    ensures
        frozen(r) == written(b),
{
    b.freeze()
}

/// `Deref` of a `Bytes` to the slice of its bytes.
#[verifier::external_body]
pub(crate) fn bytes_as_slice(b: &Bytes) -> (r: &[u8])
    ensures
        r@ == frozen(*b),
{
    b
}

/// `Deref` of a `BytesMut` to the slice of the bytes written so far.
#[verifier::external_body]
pub(crate) fn buffer_as_slice(b: &BytesMut) -> (r: &[u8])
    ensures
        r@ == written(*b),
{
    b
}

/// The two bytes of `n`, most significant first.
#[verifier::opaque]
pub open spec fn be16(n: u16) -> Seq<u8> {
    seq![(n / 0x100) as u8, (n % 0x100) as u8]
}

/// The four bytes of `n`, most significant first.
#[verifier::opaque]
pub open spec fn be32(n: u32) -> Seq<u8> {
    seq![
        (n / 0x100_0000) as u8,
        (n / 0x1_0000 % 0x100) as u8,
        (n / 0x100 % 0x100) as u8,
        (n % 0x100) as u8,
    ]
}

/// Two bytes are two.
pub broadcast proof fn lemma_be16_len(n: u16)
    ensures
        #[trigger] be16(n).len() == 2,
{
    reveal(be16);
}

/// Four bytes are four.
pub broadcast proof fn lemma_be32_len(n: u32)
    ensures
        #[trigger] be32(n).len() == 4,
{
    reveal(be32);
}

pub broadcast group group_be_len {
    lemma_be16_len,
    lemma_be32_len,
}

/// The big-endian 16-bit number that stands at `i` in `s`.
pub open spec fn u16_at(s: Seq<u8>, i: int) -> u16 {
    (s[i] * 0x100 + s[i + 1]) as u16
}

/// The big-endian 32-bit number that stands at `i` in `s`.
pub open spec fn u32_at(s: Seq<u8>, i: int) -> u32 {
    (s[i] * 0x100_0000 + s[i + 1] * 0x1_0000 + s[i + 2] * 0x100 + s[i + 3]) as u32
}

/// Reads a big-endian 16-bit number.
pub fn read_u16(data: &[u8], i: usize) -> (n: u16)
    requires
        i + 2 <= data@.len(),
    ensures
        n == u16_at(data@, i as int),
{
    data[i] as u16 * 0x100 + data[i + 1] as u16
}

/// Reads a big-endian 32-bit number.
pub fn read_u32(data: &[u8], i: usize) -> (n: u32)
    requires
        i + 4 <= data@.len(),
    ensures
        n == u32_at(data@, i as int),
{
    data[i] as u32 * 0x100_0000 + data[i + 1] as u32 * 0x1_0000 + data[i + 2] as u32 * 0x100
        + data[i + 3] as u32
}

/// Whether two slices hold the same bytes.
pub fn same_bytes(a: &[u8], b: &[u8]) -> (r: bool)
    ensures
        r == (a@ == b@),
{
    if a.len() != b.len() {
        return false;
    }
    let mut i: usize = 0;
    while i < a.len()
        invariant
            i <= a@.len(),
            a@.len() == b@.len(),
            forall|k: int| 0 <= k < i ==> a@[k] == b@[k],
        decreases a@.len() - i,
    {
        if a[i] != b[i] {
            return false;
        }
        i = i + 1;
    }
    assert(a@ =~= b@);
    true
}

/// Reading back at `i` the two bytes of `n` written there gives `n`.
pub proof fn lemma_be16_read(s: Seq<u8>, i: int, n: u16)
    requires
        0 <= i,
        i + 2 <= s.len(),
        s.subrange(i, i + 2) == be16(n),
    ensures
        u16_at(s, i) == n,
{
    reveal(be16);
    assert(s[i] == s.subrange(i, i + 2)[0]);
    assert(s[i + 1] == s.subrange(i, i + 2)[1]);
}

/// Reading back at `i` the four bytes of `n` written there gives `n`.
pub proof fn lemma_be32_read(s: Seq<u8>, i: int, n: u32)
    requires
        0 <= i,
        i + 4 <= s.len(),
        s.subrange(i, i + 4) == be32(n),
    ensures
        u32_at(s, i) == n,
{
    reveal(be32);
    assert(s[i] == s.subrange(i, i + 4)[0]);
    assert(s[i + 1] == s.subrange(i, i + 4)[1]);
    assert(s[i + 2] == s.subrange(i, i + 4)[2]);
    assert(s[i + 3] == s.subrange(i, i + 4)[3]);
}

/// The concatenation of the encodings of all elements of `s`.
pub open spec fn flat<T>(s: Seq<T>, enc: spec_fn(T) -> Seq<u8>) -> Seq<u8>
    decreases s.len(),
{
    if s.len() == 0 {
        Seq::empty()
    } else {
        flat(s.drop_last(), enc) + enc(s.last())
    }
}

/// One more element appends its encoding.
pub proof fn lemma_flat_push<T>(s: Seq<T>, i: int, enc: spec_fn(T) -> Seq<u8>)
    requires
        0 <= i < s.len(),
    ensures
        flat(s.take(i + 1), enc) == flat(s.take(i), enc) + enc(s[i]),
{
    assert(s.take(i + 1).drop_last() =~= s.take(i));
}

/// With encodings of one width `k`, the whole is `k` bytes per element.
pub proof fn lemma_flat_len<T>(s: Seq<T>, enc: spec_fn(T) -> Seq<u8>, k: int)
    requires
        forall|t: T| #[trigger] enc(t).len() == k,
    ensures
        flat(s, enc).len() == k * s.len(),
    decreases s.len(),
{
    let n = s.len() as int;
    if n > 0 {
        lemma_flat_len(s.drop_last(), enc, k);
        assert(k * n == k * (n - 1) + k) by (nonlinear_arith);
    } else {
        assert(k * n == 0) by (nonlinear_arith)
            requires
                n == 0,
        ;
    }
}

/// With encodings of one width `k`, element `i` stands at `i * k`.
pub proof fn lemma_flat_at<T>(s: Seq<T>, enc: spec_fn(T) -> Seq<u8>, k: int, i: int)
    requires
        k > 0,
        forall|t: T| #[trigger] enc(t).len() == k,
        0 <= i < s.len(),
    ensures
        0 <= i * k,
        i * k + k <= flat(s, enc).len(),
        flat(s, enc).subrange(i * k, i * k + k) == enc(s[i]),
    decreases s.len(),
{
    let n = s.len() as int;
    lemma_flat_len(s, enc, k);
    lemma_flat_len(s.drop_last(), enc, k);
    assert(0 <= i * k) by (nonlinear_arith)
        requires
            0 <= i,
            k > 0,
    ;
    assert(i * k + k <= k * n) by (nonlinear_arith)
        requires
            i < n,
            k > 0,
    ;
    if i < n - 1 {
        lemma_flat_at(s.drop_last(), enc, k, i);
        assert(flat(s, enc).subrange(i * k, i * k + k) =~= flat(s.drop_last(), enc).subrange(
            i * k,
            i * k + k,
        ));
    } else {
        assert(i * k == k * (n - 1)) by (nonlinear_arith)
            requires
                i == n - 1,
        ;
        assert(flat(s, enc).subrange(i * k, i * k + k) =~= enc(s.last()));
    }
}

/// Appends the two bytes of a number, the most significant first.
pub fn push_be16(v: &mut Vec<u8>, n: u16)
    ensures
        final(v)@ == old(v)@ + be16(n),
{
    reveal(be16);
    v.push((n / 0x100) as u8);
    v.push((n % 0x100) as u8);
    assert(v@ =~= old(v)@ + be16(n));
}

/// Appends the four bytes of a number, the most significant first.
pub fn push_be32(v: &mut Vec<u8>, n: u32)
    ensures
        final(v)@ == old(v)@ + be32(n),
{
    reveal(be32);
    v.push((n / 0x100_0000) as u8);
    v.push((n / 0x1_0000 % 0x100) as u8);
    v.push((n / 0x100 % 0x100) as u8);
    v.push((n % 0x100) as u8);
    assert(v@ =~= old(v)@ + be32(n));
}

/// The two bytes of a number, the less significant first.
#[verifier::opaque]
pub open spec fn le16(n: u16) -> Seq<u8> {
    seq![(n % 0x100) as u8, (n / 0x100) as u8]
}

/// The four bytes of a number, the least significant first.
#[verifier::opaque]
pub open spec fn le32(n: u32) -> Seq<u8> {
    seq![
        (n % 0x100) as u8,
        (n / 0x100 % 0x100) as u8,
        (n / 0x1_0000 % 0x100) as u8,
        (n / 0x100_0000) as u8,
    ]
}

/// Two bytes.
pub broadcast proof fn lemma_le16_len(n: u16)
    ensures
        #[trigger] le16(n).len() == 2,
{
    reveal(le16);
}

/// Four bytes.
pub broadcast proof fn lemma_le32_len(n: u32)
    ensures
        #[trigger] le32(n).len() == 4,
{
    reveal(le32);
}

pub broadcast group group_le_len {
    lemma_le16_len,
    lemma_le32_len,
}

/// The number that two bytes hold, the less significant first.
pub open spec fn le16_at(s: Seq<u8>, i: int) -> u16 {
    (s[i] + 0x100 * s[i + 1]) as u16
}

/// The number that four bytes hold, the least significant first.
pub open spec fn le32_at(s: Seq<u8>, i: int) -> u32 {
    (s[i] + 0x100 * s[i + 1] + 0x1_0000 * s[i + 2] + 0x100_0000 * s[i + 3]) as u32
}

/// Appends the two bytes of a number, the less significant first.
pub fn push_le16(v: &mut Vec<u8>, n: u16)
    ensures
        final(v)@ == old(v)@ + le16(n),
{
    reveal(le16);
    v.push((n % 0x100) as u8);
    v.push((n / 0x100) as u8);
    assert(v@ =~= old(v)@ + le16(n));
}

/// Appends the four bytes of a number, the least significant first.
pub fn push_le32(v: &mut Vec<u8>, n: u32)
    ensures
        final(v)@ == old(v)@ + le32(n),
{
    reveal(le32);
    v.push((n % 0x100) as u8);
    v.push((n / 0x100 % 0x100) as u8);
    v.push((n / 0x1_0000 % 0x100) as u8);
    v.push((n / 0x100_0000) as u8);
    assert(v@ =~= old(v)@ + le32(n));
}

/// Reads the number that two bytes hold, the less significant first.
pub fn read_le16(s: &[u8], i: usize) -> (r: u16)
    requires
        i + 2 <= s@.len(),
    ensures
        r == le16_at(s@, i as int),
{
    s[i] as u16 + 0x100 * (s[i + 1] as u16)
}

/// Reads the number that four bytes hold, the least significant first.
pub fn read_le32(s: &[u8], i: usize) -> (r: u32)
    requires
        i + 4 <= s@.len(),
    ensures
        r == le32_at(s@, i as int),
{
    s[i] as u32 + 0x100 * (s[i + 1] as u32) + 0x1_0000 * (s[i + 2] as u32) + 0x100_0000 * (s[i + 3] as u32)
}

/// Reading back at `i` the two bytes of `n` written there gives `n`.
pub proof fn lemma_le16_read(s: Seq<u8>, i: int, n: u16)
    requires
        0 <= i,
        i + 2 <= s.len(),
        s.subrange(i, i + 2) == le16(n),
    ensures
        le16_at(s, i) == n,
{
    reveal(le16);
    assert(s[i] == s.subrange(i, i + 2)[0]);
    assert(s[i + 1] == s.subrange(i, i + 2)[1]);
}

/// Reading back at `i` the four bytes of `n` written there gives `n`.
pub proof fn lemma_le32_read(s: Seq<u8>, i: int, n: u32)
    requires
        0 <= i,
        i + 4 <= s.len(),
        s.subrange(i, i + 4) == le32(n),
    ensures
        le32_at(s, i) == n,
{
    reveal(le32);
    assert(s[i] == s.subrange(i, i + 4)[0]);
    assert(s[i + 1] == s.subrange(i, i + 4)[1]);
    assert(s[i + 2] == s.subrange(i, i + 4)[2]);
    assert(s[i + 3] == s.subrange(i, i + 4)[3]);
}

} // verus!
