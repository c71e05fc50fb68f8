//! Source descriptions and goodbyes.

use super::header::{RtcpHeader, RtcpType};
use super::report::count_field;
use crate::buf::{
    be16, be32, buffer_len, fits, flat, freeze, frozen, lemma_flat_len, lemma_flat_push, new_buffer,
    put_slice, put_u32, put_u8, set_byte, written,
};
use bytes::{Bytes, BytesMut};
use vstd::prelude::*;
use vstd::utf8::encode_utf8;

verus! {

broadcast use crate::buf::group_be_len;

/// SDES item types.
#[derive(Debug, Clone, Copy, PartialEq, Eq, Structural)]
pub enum SdesType {
    /// End of SDES list.
    End,
    /// Canonical name.
    CName,
    /// User name.
    Name,
    /// Email.
    Email,
    /// Phone number.
    Phone,
    /// Location.
    Location,
    /// Application/tool name.
    Tool,
    /// Note.
    Note,
    /// Private extension.
    Private,
}

impl SdesType {
    /// The item type's number on the wire.
    pub open spec fn number(self) -> u8 {
        match self {
            SdesType::End => 0,
            SdesType::CName => 1,
            SdesType::Name => 2,
            SdesType::Email => 3,
            SdesType::Phone => 4,
            SdesType::Location => 5,
            SdesType::Tool => 6,
            SdesType::Note => 7,
            SdesType::Private => 8,
        }
    }

    /// The item type's number on the wire.
    pub fn code(self) -> (n: u8)
        ensures
            n == self.number(),
    {
        match self {
            SdesType::End => 0,
            SdesType::CName => 1,
            SdesType::Name => 2,
            SdesType::Email => 3,
            SdesType::Phone => 4,
            SdesType::Location => 5,
            SdesType::Tool => 6,
            SdesType::Note => 7,
            SdesType::Private => 8,
        }
    }
}

/// The number of bytes that bring `n` to a multiple of four.
pub open spec fn pad4(n: int) -> nat {
    ((4 - n % 4) % 4) as nat
}

/// `n` zero bytes.
pub open spec fn zeros(n: nat) -> Seq<u8> {
    Seq::new(n, |i: int| 0u8)
}

/// A text behind its length in one byte; a longer length is cut to its low eight bits.
pub open spec fn counted_text(text: Seq<char>) -> Seq<u8> {
    seq![(encode_utf8(text).len() % 256) as u8] + encode_utf8(text)
}

/// Appends zero bytes up to the next multiple of four.
fn put_padding(buf: &mut BytesMut)
    requires
        fits(written(*old(buf)).len() + pad4(written(*old(buf)).len() as int)),
    ensures
        written(*final(buf)) == written(*old(buf)) + zeros(
            pad4(written(*old(buf)).len() as int),
        ),
{
    let ghost start = written(*buf);
    let mut n: usize = buffer_len(buf) % 4;
    assert(written(*buf) =~= start + zeros(0));
    while n != 0 && n != 4
        invariant
            n <= 4,
            fits(start.len() + pad4(start.len() as int)),
            start.len() % 4 == 0 ==> n == 0,
            start.len() % 4 != 0 ==> start.len() % 4 <= n,
            written(*buf) == start + zeros((n - start.len() % 4) as nat),
        decreases 4 - n,
    {
        put_u8(buf, 0);
        n = n + 1;
        assert(written(*buf) =~= start + zeros((n - start.len() % 4) as nat));
    }
}

/// Appends a text behind its length.
fn put_counted_text(buf: &mut BytesMut, text: &str)
    requires
        fits(written(*old(buf)).len() + 1 + encode_utf8(text@).len()),
    ensures
        written(*final(buf)) == written(*old(buf)) + counted_text(text@),
{
    let bytes: &[u8] = text.as_bytes();
    put_u8(buf, (bytes.len() % 256) as u8);
    put_slice(buf, bytes);
    assert(written(*buf) =~= written(*old(buf)) + counted_text(text@));
}

/// SDES item.
#[derive(Debug, Clone)]
pub struct SdesItem {
    /// Item type.
    pub item_type: SdesType,
    /// Item value.
    pub value: String,
}

/// SDES chunk (items for one SSRC).
#[derive(Debug, Clone)]
pub struct SdesChunk {
    /// SSRC.
    pub ssrc: u32,
    /// Items.
    pub items: Vec<SdesItem>,
}

/// Source Description (SDES) packet.
#[derive(Debug, Clone)]
pub struct SourceDescription {
    /// SDES chunks.
    pub chunks: Vec<SdesChunk>,
}

/// The encoding of an SDES item, as a function.
pub open spec fn item_wire() -> spec_fn(SdesItem) -> Seq<u8> {
    |item: SdesItem| seq![item.item_type.number()] + counted_text(item.value@)
}

impl SdesChunk {
    /// SSRC, items and their end mark, before padding.
    pub open spec fn body(self) -> Seq<u8> {
        be32(self.ssrc) + flat(self.items@, item_wire()) + seq![0u8]
    }

    /// The chunk as bytes, padded to a multiple of four.
    pub open spec fn wire(self) -> Seq<u8> {
        self.body() + zeros(pad4(self.body().len() as int))
    }

    /// Appends the chunk to a buffer that ends on a multiple of four.
    fn build(&self, buf: &mut BytesMut)
        requires
            written(*old(buf)).len() % 4 == 0,
            fits(written(*old(buf)).len() + self.wire().len()),
        ensures
            written(*final(buf)) == written(*old(buf)) + self.wire(),
    {
        let ghost start = written(*buf);
        let ghost enc = item_wire();
        put_u32(buf, self.ssrc);
        let mut i: usize = 0;
        assert(written(*buf) =~= start + be32(self.ssrc) + flat(self.items@.take(0), enc));
        while i < self.items.len()
            invariant
                i <= self.items@.len(),
                enc == item_wire(),
                fits(start.len() + self.wire().len()),
                written(*buf) == start + be32(self.ssrc) + flat(self.items@.take(i as int), enc),
            decreases self.items@.len() - i,
        {
            proof {
                lemma_flat_push(self.items@, i as int, enc);
                lemma_flat_prefix_len(self.items@, (i + 1) as int, enc);
            }
            put_u8(buf, self.items[i].item_type.code());
            put_counted_text(buf, self.items[i].value.as_str());
            i = i + 1;
            assert(written(*buf) =~= start + be32(self.ssrc) + flat(
                self.items@.take(i as int),
                enc,
            ));
        }
        assert(self.items@.take(i as int) =~= self.items@);
        put_u8(buf, 0);
        assert(written(*buf) =~= start + self.body());
        assert((start.len() + self.body().len()) % 4 == self.body().len() as int % 4);
        put_padding(buf);
        assert(written(*buf) =~= start + self.wire());
    }
}

/// A prefix's encoding is no longer than the whole.
pub proof fn lemma_flat_prefix_len<T>(s: Seq<T>, i: int, enc: spec_fn(T) -> Seq<u8>)
    requires
        0 <= i <= s.len(),
    ensures
        flat(s.take(i), enc).len() <= flat(s, enc).len(),
    decreases s.len(),
{
    if i < s.len() {
        lemma_flat_prefix_len(s.drop_last(), i, enc);
        assert(s.drop_last().take(i) =~= s.take(i));
    } else {
        assert(s.take(i) =~= s);
    }
}

/// The encoding of an SDES chunk, as a function.
pub open spec fn chunk_wire() -> spec_fn(SdesChunk) -> Seq<u8> {
    |c: SdesChunk| c.wire()
}

/// A run of chunks ends on a multiple of four.
pub proof fn lemma_chunks_aligned(chunks: Seq<SdesChunk>)
    ensures
        flat(chunks, chunk_wire()).len() % 4 == 0,
    decreases chunks.len(),
{
    if chunks.len() > 0 {
        lemma_chunks_aligned(chunks.drop_last());
        let body = chunks.last().body();
        assert(chunks.last().wire().len() == body.len() + pad4(body.len() as int));
    }
}

impl SourceDescription {
    /// The chunks as bytes.
    pub open spec fn content(self) -> Seq<u8> {
        flat(self.chunks@, chunk_wire())
    }

    pub open spec fn header(self) -> RtcpHeader {
        RtcpHeader {
            version: 2,
            padding: false,
            count: count_field(self.chunks@.len()),
            packet_type: RtcpType::SourceDescription,
            length: (self.content().len() / 4 % 0x1_0000) as u16,
        }
    }

    /// The packet as bytes.
    pub open spec fn wire(self) -> Seq<u8> {
        self.header().wire() + self.content()
    }

    /// Build an SDES packet with just CNAME.
    pub fn with_cname(ssrc: u32, cname: &str) -> (r: Self)
        ensures
            r.chunks@.len() == 1,
            r.chunks@[0].ssrc == ssrc,
            r.chunks@[0].items@.len() == 1,
            r.chunks@[0].items@[0].item_type == SdesType::CName,
            r.chunks@[0].items@[0].value@ == cname@,
    {
        let mut items: Vec<SdesItem> = Vec::new();
        items.push(SdesItem { item_type: SdesType::CName, value: cname.to_owned() });
        let mut chunks: Vec<SdesChunk> = Vec::new();
        chunks.push(SdesChunk { ssrc, items });
        SourceDescription { chunks }
    }

    /// Build to bytes.
    pub fn build(&self) -> (r: Bytes)
        requires
            fits(self.wire().len()),
        ensures
            frozen(r) == self.wire(),
    {
        let mut buf: BytesMut = new_buffer(256);
        // The header goes over this placeholder once the length is known.
        put_u32(&mut buf, 0);
        let ghost enc = chunk_wire();
        let mut i: usize = 0;
        assert(written(buf) =~= be32(0) + flat(self.chunks@.take(0), enc));
        while i < self.chunks.len()
            invariant
                i <= self.chunks@.len(),
                enc == chunk_wire(),
                fits(self.wire().len()),
                written(buf) == be32(0) + flat(self.chunks@.take(i as int), enc),
            decreases self.chunks@.len() - i,
        {
            proof {
                lemma_chunks_aligned(self.chunks@.take(i as int));
                lemma_flat_push(self.chunks@, i as int, enc);
                lemma_flat_prefix_len(self.chunks@, (i + 1) as int, enc);
            }
            self.chunks[i].build(&mut buf);
            i = i + 1;
            assert(written(buf) =~= be32(0) + flat(self.chunks@.take(i as int), enc));
        }
        assert(self.chunks@.take(i as int) =~= self.chunks@);
        let chunk_count: u8 = if self.chunks.len() < 31 {
            self.chunks.len() as u8
        } else {
            31
        };
        let length: usize = (buffer_len(&buf) - 4) / 4 % 0x1_0000;
        set_byte(&mut buf, 0, 128 + chunk_count);
        set_byte(&mut buf, 1, RtcpType::SourceDescription.code());
        set_byte(&mut buf, 2, (length / 0x100) as u8);
        set_byte(&mut buf, 3, (length % 0x100) as u8);
        assert(written(buf) =~= self.wire()) by {
            reveal(be16);
        }
        freeze(buf)
    }
}

proof fn lemma_concat_assoc(a: Seq<u8>, b: Seq<u8>, c: Seq<u8>, d: Seq<u8>)
    ensures
        a + b + c + d == a + (b + c + d),
{
    assert(a + b + c + d =~= a + (b + c + d));
}

/// Goodbye (BYE) packet.
#[derive(Debug, Clone)]
pub struct Goodbye {
    /// SSRCs leaving.
    pub ssrcs: Vec<u32>,
    /// Optional reason.
    pub reason: Option<String>,
}

/// The encoding of an SSRC, as a function.
pub open spec fn ssrc_wire() -> spec_fn(u32) -> Seq<u8> {
    |ssrc: u32| be32(ssrc)
}

/// Appends the first `n` of `ssrcs`.
pub(crate) fn put_ssrcs(buf: &mut BytesMut, ssrcs: &Vec<u32>, n: usize)
    requires
        n <= ssrcs@.len(),
        fits((written(*old(buf)).len() + 4 * n) as nat),
    ensures
        written(*final(buf)) == written(*old(buf)) + flat(ssrcs@.take(n as int), ssrc_wire()),
{
    let ghost start = written(*buf);
    let mut i: usize = 0;
    assert(written(*buf) =~= start + flat(ssrcs@.take(0), ssrc_wire()));
    while i < n
        invariant
            i <= n <= ssrcs@.len(),
            fits((start.len() + 4 * n) as nat),
            written(*buf) == start + flat(ssrcs@.take(i as int), ssrc_wire()),
        decreases n - i,
    {
        proof {
            lemma_flat_push(ssrcs@, i as int, ssrc_wire());
            lemma_flat_len(ssrcs@.take(i as int), ssrc_wire(), 4);
        }
        put_u32(buf, ssrcs[i]);
        i = i + 1;
        assert(written(*buf) =~= start + flat(ssrcs@.take(i as int), ssrc_wire()));
    }
}

impl Goodbye {
    /// The reason as bytes, if there is one, before padding.
    pub open spec fn reason_wire(self) -> Seq<u8> {
        match self.reason {
            Some(reason) => counted_text(reason@),
            None => Seq::empty(),
        }
    }

    /// What follows the header: the sources, and the reason padded to a multiple of four.
    pub open spec fn content(self) -> Seq<u8> {
        flat(self.ssrcs@, ssrc_wire()) + self.reason_wire() + zeros(
            pad4(self.reason_wire().len() as int),
        )
    }

    pub open spec fn header(self) -> RtcpHeader {
        RtcpHeader {
            version: 2,
            padding: false,
            count: count_field(self.ssrcs@.len()),
            packet_type: RtcpType::Goodbye,
            length: (self.content().len() / 4 % 0x1_0000) as u16,
        }
    }

    /// The packet as bytes.
    pub open spec fn wire(self) -> Seq<u8> {
        self.header().wire() + self.content()
    }

    /// Create a simple goodbye for one SSRC.
    pub fn new(ssrc: u32) -> (r: Self)
        ensures
            r.ssrcs@ == seq![ssrc],
            r.reason is None,
    {
        let mut ssrcs: Vec<u32> = Vec::new();
        ssrcs.push(ssrc);
        assert(ssrcs@ =~= seq![ssrc]);
        Goodbye { ssrcs, reason: None }
    }

    /// The number of bytes that follow the header.
    fn content_len(&self) -> (n: usize)
        requires
            fits(self.content().len()),
        ensures
            n == self.content().len(),
    {
        proof {
            lemma_flat_len(self.ssrcs@, ssrc_wire(), 4);
        }
        let sources: usize = self.ssrcs.len() * 4;
        match &self.reason {
            Some(reason) => {
                let text: usize = 1 + reason.as_str().as_bytes().len();
                sources + text + (4 - text % 4) % 4
            },
            None => sources,
        }
    }

    /// Appends the padded reason to a buffer that ends on a multiple of four.
    fn put_reason(&self, buf: &mut BytesMut)
        requires
            written(*old(buf)).len() % 4 == 0,
            fits(
                written(*old(buf)).len() + self.reason_wire().len() + pad4(
                    self.reason_wire().len() as int,
                ),
            ),
        ensures
            written(*final(buf)) == written(*old(buf)) + self.reason_wire() + zeros(
                pad4(self.reason_wire().len() as int),
            ),
    {
        match &self.reason {
            Some(reason) => {
                put_counted_text(buf, reason.as_str());
                put_padding(buf);
            },
            None => {
                assert(written(*buf) =~= written(*old(buf)) + self.reason_wire() + zeros(0));
            },
        }
    }

    /// Build to bytes.
    pub fn build(&self) -> (r: Bytes)
        requires
            fits(self.wire().len()),
        ensures
            frozen(r) == self.wire(),
    {
        let ghost sources = flat(self.ssrcs@, ssrc_wire());
        let ghost text = self.reason_wire();
        let ghost padding = zeros(pad4(text.len() as int));
        proof {
            lemma_flat_len(self.ssrcs@, ssrc_wire(), 4);
            lemma_concat_assoc(self.header().wire(), sources, text, padding);
        }
        let mut buf: BytesMut = new_buffer(32);
        let ssrc_count: u8 = if self.ssrcs.len() < 31 {
            self.ssrcs.len() as u8
        } else {
            31
        };
        let header = RtcpHeader {
            version: 2,
            padding: false,
            count: ssrc_count,
            packet_type: RtcpType::Goodbye,
            length: (self.content_len() / 4 % 0x1_0000) as u16,
        };
        header.build(&mut buf);
        put_ssrcs(&mut buf, &self.ssrcs, self.ssrcs.len());
        assert(self.ssrcs@.take(self.ssrcs@.len() as int) =~= self.ssrcs@);
        assert(written(buf) =~= self.header().wire() + sources);
        self.put_reason(&mut buf);
        freeze(buf)
    }
}

} // verus!
