//! Payload-specific feedback: PLI, FIR and REMB.

use super::header::{lemma_header_round_trip, RtcpHeader, RtcpParseError, RtcpType};
use super::sdes::{put_ssrcs, ssrc_wire};
use crate::buf::{
    be16, be32, fits, flat, freeze, frozen, lemma_be32_read, lemma_flat_at, lemma_flat_len,
    lemma_flat_push, new_buffer, put_u16, put_u32, put_u8, read_u32, u32_at, written,
};
use bytes::{Bytes, BytesMut};
use vstd::arithmetic::power2::{lemma_pow2_unfold, pow2};
use vstd::prelude::*;

verus! {

broadcast use crate::buf::group_be_len;

/// Feedback Message Type (FMT) for Payload-specific Feedback (PSFB).
#[derive(Debug, Clone, Copy, PartialEq, Eq, Structural)]
pub enum PayloadFeedbackType {
    /// Picture Loss Indication - RFC 4585
    Pli,
    /// Slice Loss Indication - RFC 4585
    Sli,
    /// Reference Picture Selection Indication - RFC 4585
    Rpsi,
    /// Full Intra Request - RFC 5104
    Fir,
    /// Temporal-Spatial Trade-off Request - RFC 5104
    Tstr,
    /// Temporal-Spatial Trade-off Notification - RFC 5104
    Tstn,
    /// Video Back Channel Message - RFC 5104
    Vbcm,
    /// Application-layer Feedback (for REMB) - RFC 4585
    Afb,
}

impl PayloadFeedbackType {
    /// The number that the count field carries for it.
    pub open spec fn number(self) -> u8 {
        match self {
            PayloadFeedbackType::Pli => 1,
            PayloadFeedbackType::Sli => 2,
            PayloadFeedbackType::Rpsi => 3,
            PayloadFeedbackType::Fir => 4,
            PayloadFeedbackType::Tstr => 5,
            PayloadFeedbackType::Tstn => 6,
            PayloadFeedbackType::Vbcm => 7,
            PayloadFeedbackType::Afb => 15,
        }
    }

    /// The number that the count field carries for it.
    pub fn code(self) -> (n: u8)
        ensures
            n == self.number(),
    {
        match self {
            PayloadFeedbackType::Pli => 1,
            PayloadFeedbackType::Sli => 2,
            PayloadFeedbackType::Rpsi => 3,
            PayloadFeedbackType::Fir => 4,
            PayloadFeedbackType::Tstr => 5,
            PayloadFeedbackType::Tstn => 6,
            PayloadFeedbackType::Vbcm => 7,
            PayloadFeedbackType::Afb => 15,
        }
    }

    /// The header of a message of this type with `length` words behind its first.
    pub open spec fn header(self, length: int) -> RtcpHeader {
        RtcpHeader {
            version: 2,
            padding: false,
            count: self.number(),
            packet_type: RtcpType::PayloadFeedback,
            length: (length % 0x1_0000) as u16,
        }
    }

    /// Why `data` is no message of this type with `min` bytes behind the header, if it is none.
    pub open spec fn refusal(self, data: Seq<u8>, min: int) -> Option<RtcpParseError> {
        match RtcpHeader::of_wire(data) {
            Err(e) => Some(e),
            Ok(h) => if h.packet_type != RtcpType::PayloadFeedback || h.count != self.number() {
                Some(RtcpParseError::UnknownPacketType(h.packet_type.number()))
            } else if data.len() < 4 + min {
                Some(RtcpParseError::TooShort((data.len() - 4) as usize))
            } else {
                None
            },
        }
    }

    /// Checks that `data` is a message of this type with `min` bytes behind the header.
    fn check(self, data: &[u8], min: usize) -> (r: Option<RtcpParseError>)
        ensures
            r == self.refusal(data@, min as int),
            r is None ==> data@.len() >= 4 + min,
    {
        let (header, rest) = match RtcpHeader::parse(data) {
            Ok(hr) => hr,
            Err(e) => return Some(e),
        };
        if header.packet_type != RtcpType::PayloadFeedback || header.count != self.code() {
            return Some(RtcpParseError::UnknownPacketType(header.packet_type.code()));
        }
        if rest.len() < min {
            return Some(RtcpParseError::TooShort(rest.len()));
        }
        None
    }

    /// Appends header and the two SSRCs that every message starts with.
    fn put_head(self, buf: &mut BytesMut, length: usize, sender_ssrc: u32, media_ssrc: u32)
        requires
            fits(written(*old(buf)).len() + 12),
        ensures
            written(*final(buf)) == written(*old(buf)) + head(
                self,
                length as int,
                sender_ssrc,
                media_ssrc,
            ),
    {
        let header = RtcpHeader {
            version: 2,
            padding: false,
            count: self.code(),
            packet_type: RtcpType::PayloadFeedback,
            length: (length % 0x1_0000) as u16,
        };
        header.build(buf);
        put_u32(buf, sender_ssrc);
        put_u32(buf, media_ssrc);
        assert(written(*buf) =~= written(*old(buf)) + head(
            self,
            length as int,
            sender_ssrc,
            media_ssrc,
        ));
    }
}

/// The first 12 bytes of a message: header and two SSRCs.
pub open spec fn head(
    kind: PayloadFeedbackType,
    length: int,
    sender_ssrc: u32,
    media_ssrc: u32,
) -> Seq<u8> {
    kind.header(length).wire() + be32(sender_ssrc) + be32(media_ssrc)
}

/// What is read of the first 12 bytes of a message that was built.
proof fn lemma_head(
    kind: PayloadFeedbackType,
    length: int,
    sender_ssrc: u32,
    media_ssrc: u32,
    rest: Seq<u8>,
    min: int,
)
    requires
        min <= 8 + rest.len(),
    ensures
        head(kind, length, sender_ssrc, media_ssrc).len() == 12,
        kind.refusal(head(kind, length, sender_ssrc, media_ssrc) + rest, min) is None,
        u32_at(head(kind, length, sender_ssrc, media_ssrc) + rest, 4) == sender_ssrc,
        u32_at(head(kind, length, sender_ssrc, media_ssrc) + rest, 8) == media_ssrc,
{
    let data = head(kind, length, sender_ssrc, media_ssrc) + rest;
    let h = kind.header(length);
    assert(data =~= h.wire() + data.skip(4));
    lemma_header_round_trip(h, data.skip(4));
    assert(data.subrange(4, 8) =~= be32(sender_ssrc));
    assert(data.subrange(8, 12) =~= be32(media_ssrc));
    lemma_be32_read(data, 4, sender_ssrc);
    lemma_be32_read(data, 8, media_ssrc);
}

/// Picture Loss Indication (PLI) - RFC 4585.
///
/// Requests a full intra-frame from the encoder when decoder
/// has lost synchronization and needs a keyframe.
#[derive(Debug, Clone, Copy)]
pub struct Pli {
    /// SSRC of the packet sender.
    pub sender_ssrc: u32,
    /// SSRC of the media source.
    pub media_ssrc: u32,
}

impl Pli {
    /// The packet as bytes.
    pub open spec fn wire(self) -> Seq<u8> {
        head(PayloadFeedbackType::Pli, 2, self.sender_ssrc, self.media_ssrc)
    }

    /// The PLI that the packet `data` carries.
    pub open spec fn of_wire(data: Seq<u8>) -> Result<Pli, RtcpParseError> {
        match PayloadFeedbackType::Pli.refusal(data, 8) {
            Some(e) => Err(e),
            None => Ok(Pli { sender_ssrc: u32_at(data, 4), media_ssrc: u32_at(data, 8) }),
        }
    }

    /// Create a new PLI request.
    pub fn new(sender_ssrc: u32, media_ssrc: u32) -> (r: Self)
        ensures
            r == (Pli { sender_ssrc, media_ssrc }),
    {
        Pli { sender_ssrc, media_ssrc }
    }

    /// Parse a PLI packet from bytes.
    pub fn parse(data: &[u8]) -> (r: Result<Self, RtcpParseError>)
        ensures
            r == Pli::of_wire(data@),
    {
        match PayloadFeedbackType::Pli.check(data, 8) {
            Some(e) => Err(e),
            None => Ok(Pli { sender_ssrc: read_u32(data, 4), media_ssrc: read_u32(data, 8) }),
        }
    }

    /// Build the PLI packet to bytes.
    pub fn build(&self) -> (r: Bytes)
        ensures
            frozen(r) == self.wire(),
    {
        let mut buf: BytesMut = new_buffer(12);
        PayloadFeedbackType::Pli.put_head(&mut buf, 2, self.sender_ssrc, self.media_ssrc);
        assert(written(buf) =~= self.wire());
        freeze(buf)
    }
}

/// Parsing a PLI that was built gives it back.
pub proof fn lemma_pli_round_trip(pli: Pli)
    ensures
        pli.wire().len() == 12,
        Pli::of_wire(pli.wire()) == Ok::<_, RtcpParseError>(pli),
{
    lemma_head(
        PayloadFeedbackType::Pli,
        2,
        pli.sender_ssrc,
        pli.media_ssrc,
        Seq::empty(),
        8,
    );
    assert(pli.wire() =~= pli.wire() + Seq::<u8>::empty());
}

/// Full Intra Request (FIR) - RFC 5104.
///
/// A more specific keyframe request that includes a sequence number
/// to distinguish between multiple requests.
#[derive(Debug, Clone)]
pub struct Fir {
    /// SSRC of the packet sender.
    pub sender_ssrc: u32,
    /// SSRC of the media source (unused, must be 0).
    pub media_ssrc: u32,
    /// FIR entries.
    pub entries: Vec<FirEntry>,
}

/// A single FIR entry.
#[derive(Debug, Clone, Copy)]
pub struct FirEntry {
    /// SSRC of the target encoder.
    pub ssrc: u32,
    /// Sequence number (to detect duplicates).
    pub seq_nr: u8,
}

/// What a FIR says.
pub struct FirView {
    pub sender_ssrc: u32,
    pub media_ssrc: u32,
    pub entries: Seq<FirEntry>,
}

impl View for Fir {
    type V = FirView;

    open spec fn view(&self) -> FirView {
        FirView {
            sender_ssrc: self.sender_ssrc,
            media_ssrc: self.media_ssrc,
            entries: self.entries@,
        }
    }
}

impl FirEntry {
    /// The entry as bytes: the last three are reserved.
    pub open spec fn wire(self) -> Seq<u8> {
        be32(self.ssrc) + seq![self.seq_nr, 0u8, 0u8, 0u8]
    }

    /// The entry that stands at `i` in `s`.
    pub open spec fn at(s: Seq<u8>, i: int) -> FirEntry {
        FirEntry { ssrc: u32_at(s, i), seq_nr: s[i + 4] }
    }
}

/// The encoding of a FIR entry, as a function.
pub open spec fn fir_entry_wire() -> spec_fn(FirEntry) -> Seq<u8> {
    |e: FirEntry| e.wire()
}

/// The first `n` entries that stand at `start` in `s`.
pub open spec fn fir_entries_at(s: Seq<u8>, start: int, n: nat) -> Seq<FirEntry> {
    Seq::new(n, |i: int| FirEntry::at(s, start + i * 8))
}

impl FirView {
    pub open spec fn head(self) -> Seq<u8> {
        head(
            PayloadFeedbackType::Fir,
            2 + self.entries.len() as int * 2,
            self.sender_ssrc,
            self.media_ssrc,
        )
    }

    /// The packet as bytes.
    pub open spec fn wire(self) -> Seq<u8> {
        self.head() + flat(self.entries, fir_entry_wire())
    }

    /// The FIR that the packet `data` carries: as many entries as have their eight bytes.
    pub open spec fn of_wire(data: Seq<u8>) -> Result<FirView, RtcpParseError> {
        match PayloadFeedbackType::Fir.refusal(data, 8) {
            Some(e) => Err(e),
            None => Ok(
                FirView {
                    sender_ssrc: u32_at(data, 4),
                    media_ssrc: u32_at(data, 8),
                    entries: fir_entries_at(data, 12, ((data.len() - 12) / 8) as nat),
                },
            ),
        }
    }
}

impl Fir {
    /// Create a FIR for a single target.
    pub fn new(sender_ssrc: u32, target_ssrc: u32, seq_nr: u8) -> (r: Self)
        ensures
            r@ == (FirView {
                sender_ssrc,
                media_ssrc: 0,
                entries: seq![FirEntry { ssrc: target_ssrc, seq_nr }],
            }),
    {
        let mut entries: Vec<FirEntry> = Vec::new();
        entries.push(FirEntry { ssrc: target_ssrc, seq_nr });
        assert(entries@ =~= seq![FirEntry { ssrc: target_ssrc, seq_nr }]);
        Fir { sender_ssrc, media_ssrc: 0, entries }
    }

    /// Parse a FIR packet from bytes.
    pub fn parse(data: &[u8]) -> (r: Result<Self, RtcpParseError>)
        ensures
            match r {
                Ok(fir) => FirView::of_wire(data@) == Ok::<_, RtcpParseError>(fir@),
                Err(e) => FirView::of_wire(data@) == Err::<FirView, _>(e),
            },
    {
        if let Some(e) = PayloadFeedbackType::Fir.check(data, 8) {
            return Err(e);
        }
        let mut entries: Vec<FirEntry> = Vec::new();
        let mut pos: usize = 12;
        while data.len() - pos >= 8
            invariant
                12 <= pos <= data@.len(),
                pos == 12 + 8 * entries@.len(),
                entries@ == fir_entries_at(data@, 12, entries@.len()),
            decreases data@.len() - pos,
        {
            entries.push(FirEntry { ssrc: read_u32(data, pos), seq_nr: data[pos + 4] });
            pos = pos + 8;
            assert(entries@ =~= fir_entries_at(data@, 12, entries@.len()));
        }
        Ok(Fir { sender_ssrc: read_u32(data, 4), media_ssrc: read_u32(data, 8), entries })
    }

    /// Build the FIR packet to bytes.
    pub fn build(&self) -> (r: Bytes)
        requires
            fits((12 + 8 * self.entries@.len()) as nat),
        ensures
            frozen(r) == self@.wire(),
    {
        let mut buf: BytesMut = new_buffer(12 + self.entries.len() * 8);
        PayloadFeedbackType::Fir.put_head(
            &mut buf,
            2 + self.entries.len() * 2,
            self.sender_ssrc,
            self.media_ssrc,
        );
        let ghost head = self@.head();
        let mut i: usize = 0;
        assert(written(buf) =~= head + flat(self.entries@.take(0), fir_entry_wire()));
        while i < self.entries.len()
            invariant
                i <= self.entries@.len(),
                head.len() == 12,
                fits((12 + 8 * self.entries@.len()) as nat),
                written(buf) == head + flat(self.entries@.take(i as int), fir_entry_wire()),
            decreases self.entries@.len() - i,
        {
            proof {
                lemma_flat_push(self.entries@, i as int, fir_entry_wire());
                lemma_flat_len(self.entries@.take(i as int), fir_entry_wire(), 8);
            }
            put_u32(&mut buf, self.entries[i].ssrc);
            put_u8(&mut buf, self.entries[i].seq_nr);
            put_u8(&mut buf, 0);
            put_u16(&mut buf, 0);
            i = i + 1;
            assert(written(buf) =~= head + flat(self.entries@.take(i as int), fir_entry_wire()))
                by {
                reveal(be16);
            }
        }
        assert(self.entries@.take(i as int) =~= self.entries@);
        freeze(buf)
    }
}

proof fn lemma_fir_entry_at(s: Seq<u8>, i: int, e: FirEntry)
    requires
        0 <= i,
        i + 8 <= s.len(),
        s.subrange(i, i + 8) == e.wire(),
    ensures
        FirEntry::at(s, i) == e,
{
    let w = s.subrange(i, i + 8);
    assert(s.subrange(i, i + 4) =~= w.subrange(0, 4));
    assert(w.subrange(0, 4) =~= be32(e.ssrc));
    lemma_be32_read(s, i, e.ssrc);
    assert(s[i + 4] == w[4]);
}

/// Parsing a FIR that was built gives it back.
pub proof fn lemma_fir_round_trip(fir: FirView)
    ensures
        fir.wire().len() == 12 + 8 * fir.entries.len(),
        FirView::of_wire(fir.wire()) == Ok::<_, RtcpParseError>(fir),
{
    let tail = flat(fir.entries, fir_entry_wire());
    let s = fir.wire();
    let n = fir.entries.len();
    lemma_flat_len(fir.entries, fir_entry_wire(), 8);
    lemma_head(
        PayloadFeedbackType::Fir,
        2 + fir.entries.len() as int * 2,
        fir.sender_ssrc,
        fir.media_ssrc,
        tail,
        8,
    );
    assert forall|i: int| 0 <= i < n implies #[trigger] fir_entries_at(s, 12, n)[i]
        == fir.entries[i] by {
        lemma_flat_at(fir.entries, fir_entry_wire(), 8, i);
        assert(s.subrange(12 + i * 8, 12 + i * 8 + 8) =~= tail.subrange(i * 8, i * 8 + 8));
        lemma_fir_entry_at(s, 12 + i * 8, fir.entries[i]);
    }
    assert(fir_entries_at(s, 12, n) =~= fir.entries);
}

/// Receiver Estimated Maximum Bitrate (REMB) - draft-alvestrand-rmcat-remb.
///
/// Used to communicate estimated available bandwidth from receiver to sender.
/// This is a Google extension carried in an Application-layer Feedback message.
///
/// ```text
///  0                   1                   2                   3
///  0 1 2 3 4 5 6 7 8 9 0 1 2 3 4 5 6 7 8 9 0 1 2 3 4 5 6 7 8 9 0 1
/// +-+-+-+-+-+-+-+-+-+-+-+-+-+-+-+-+-+-+-+-+-+-+-+-+-+-+-+-+-+-+-+-+
/// |V=2|P| FMT=15  |   PT=206      |             length            |
/// +-+-+-+-+-+-+-+-+-+-+-+-+-+-+-+-+-+-+-+-+-+-+-+-+-+-+-+-+-+-+-+-+
/// |                  SSRC of packet sender                        |
/// +-+-+-+-+-+-+-+-+-+-+-+-+-+-+-+-+-+-+-+-+-+-+-+-+-+-+-+-+-+-+-+-+
/// |                  SSRC of media source                         |
/// +-+-+-+-+-+-+-+-+-+-+-+-+-+-+-+-+-+-+-+-+-+-+-+-+-+-+-+-+-+-+-+-+
/// |  Unique identifier 'R' 'E' 'M' 'B'                            |
/// +-+-+-+-+-+-+-+-+-+-+-+-+-+-+-+-+-+-+-+-+-+-+-+-+-+-+-+-+-+-+-+-+
/// |  Num SSRC     | BR Exp    |  BR Mantissa                      |
/// +-+-+-+-+-+-+-+-+-+-+-+-+-+-+-+-+-+-+-+-+-+-+-+-+-+-+-+-+-+-+-+-+
/// |   SSRC feedback                                               |
/// +-+-+-+-+-+-+-+-+-+-+-+-+-+-+-+-+-+-+-+-+-+-+-+-+-+-+-+-+-+-+-+-+
/// |  ...                                                          |
/// ```
#[derive(Debug, Clone)]
pub struct Remb {
    /// SSRC of the packet sender.
    pub sender_ssrc: u32,
    /// SSRC of the media source (unused in REMB, often 0).
    pub media_ssrc: u32,
    /// Estimated bitrate in bits per second.
    pub bitrate: u64,
    /// SSRCs this estimation applies to.
    pub ssrcs: Vec<u32>,
}

/// What a REMB says.
pub struct RembView {
    pub sender_ssrc: u32,
    pub media_ssrc: u32,
    pub bitrate: u64,
    pub ssrcs: Seq<u32>,
}

impl View for Remb {
    type V = RembView;

    open spec fn view(&self) -> RembView {
        RembView {
            sender_ssrc: self.sender_ssrc,
            media_ssrc: self.media_ssrc,
            bitrate: self.bitrate,
            ssrcs: self.ssrcs@,
        }
    }
}

/// The bitrate halved, rounding down, until it fits 18 bits.
pub open spec fn mantissa(bitrate: int) -> int
    decreases bitrate,
{
    if bitrate < 0x4_0000 {
        bitrate
    } else {
        mantissa(bitrate / 2)
    }
}

/// How often the bitrate has to be halved until it fits 18 bits.
pub open spec fn exponent(bitrate: int) -> nat
    decreases bitrate,
{
    if bitrate < 0x4_0000 {
        0
    } else {
        1 + exponent(bitrate / 2)
    }
}

/// The unique identifier "REMB".
pub open spec fn unique_id() -> Seq<u8> {
    seq![0x52u8, 0x45u8, 0x4Du8, 0x42u8]
}

/// The first `n` SSRCs that stand at `start` in `s`.
pub open spec fn ssrcs_at(s: Seq<u8>, start: int, n: nat) -> Seq<u32> {
    Seq::new(n, |i: int| u32_at(s, start + i * 4))
}

/// The smaller of two numbers.
pub open spec fn at_most(a: int, b: int) -> int {
    if a < b {
        a
    } else {
        b
    }
}

impl RembView {
    /// The number of SSRCs that are sent: the count has eight bits.
    pub open spec fn sent(self) -> int {
        at_most(self.ssrcs.len() as int, 255)
    }

    /// Identifier, count and bitrate.
    pub open spec fn estimate(self) -> Seq<u8> {
        let m = mantissa(self.bitrate as int);
        unique_id() + seq![
            self.sent() as u8,
            (exponent(self.bitrate as int) * 4 + m / 0x1_0000) as u8,
        ] + be16((m % 0x1_0000) as u16)
    }

    pub open spec fn head(self) -> Seq<u8> {
        head(PayloadFeedbackType::Afb, 4 + self.sent(), self.sender_ssrc, self.media_ssrc)
    }

    /// The packet as bytes.
    pub open spec fn wire(self) -> Seq<u8> {
        self.head() + self.estimate() + flat(self.ssrcs.take(self.sent()), ssrc_wire())
    }

    /// The REMB that the packet `data` carries: the announced SSRCs, as far as they are there.
    pub open spec fn of_wire(data: Seq<u8>) -> Result<RembView, RtcpParseError> {
        match PayloadFeedbackType::Afb.refusal(data, 16) {
            Some(e) => Err(e),
            None => if data.subrange(12, 16) != unique_id() {
                Err(RtcpParseError::UnknownPacketType(206))
            } else {
                Ok(
                    RembView {
                        sender_ssrc: u32_at(data, 4),
                        media_ssrc: u32_at(data, 8),
                        bitrate: ((data[17] % 4 * 0x1_0000 + data[18] * 0x100
                            + data[19]) as u64) << (data[17] / 4) as u64,
                        ssrcs: ssrcs_at(
                            data,
                            20,
                            at_most(data[16] as int, (data.len() - 20) / 4) as nat,
                        ),
                    },
                )
            },
        }
    }
}

impl Remb {
    /// Create a new REMB message.
    pub fn new(sender_ssrc: u32, bitrate: u64, ssrcs: Vec<u32>) -> (r: Self)
        ensures
            r@ == (RembView { sender_ssrc, media_ssrc: 0, bitrate, ssrcs: ssrcs@ }),
    {
        Remb { sender_ssrc, media_ssrc: 0, bitrate, ssrcs }
    }

    /// Parse a REMB packet from bytes.
    pub fn parse(data: &[u8]) -> (r: Result<Self, RtcpParseError>)
        ensures
            match r {
                Ok(remb) => RembView::of_wire(data@) == Ok::<_, RtcpParseError>(remb@),
                Err(e) => RembView::of_wire(data@) == Err::<RembView, _>(e),
            },
    {
        if let Some(e) = PayloadFeedbackType::Afb.check(data, 16) {
            return Err(e);
        }
        if data[12] != 0x52 || data[13] != 0x45 || data[14] != 0x4D || data[15] != 0x42 {
            assert(data@.subrange(12, 16) != unique_id()) by {
                assert(data@[12] == data@.subrange(12, 16)[0]);
                assert(data@[13] == data@.subrange(12, 16)[1]);
                assert(data@[14] == data@.subrange(12, 16)[2]);
                assert(data@[15] == data@.subrange(12, 16)[3]);
            }
            return Err(RtcpParseError::UnknownPacketType(206));
        }
        assert(data@.subrange(12, 16) =~= unique_id());
        let num_ssrc: u8 = data[16];
        let br_exp: u8 = data[17] / 4;
        let br_mantissa: u64 = (data[17] % 4) as u64 * 0x1_0000 + data[18] as u64 * 0x100
            + data[19] as u64;
        let bitrate: u64 = br_mantissa << br_exp as u64;
        let mut ssrcs: Vec<u32> = Vec::with_capacity(num_ssrc as usize);
        let mut pos: usize = 20;
        while ssrcs.len() < num_ssrc as usize && data.len() - pos >= 4
            invariant
                20 <= pos <= data@.len(),
                pos == 20 + 4 * ssrcs@.len(),
                ssrcs@.len() <= num_ssrc,
                ssrcs@ == ssrcs_at(data@, 20, ssrcs@.len()),
            decreases data@.len() - pos,
        {
            ssrcs.push(read_u32(data, pos));
            pos = pos + 4;
            assert(ssrcs@ =~= ssrcs_at(data@, 20, ssrcs@.len()));
        }
        Ok(
            Remb {
                sender_ssrc: read_u32(data, 4),
                media_ssrc: read_u32(data, 8),
                bitrate,
                ssrcs,
            },
        )
    }

    /// Build the REMB packet to bytes.
    pub fn build(&self) -> (r: Bytes)
        ensures
            frozen(r) == self@.wire(),
    {
        let ssrc_count: usize = if self.ssrcs.len() < 255 {
            self.ssrcs.len()
        } else {
            255
        };
        let mut buf: BytesMut = new_buffer(16 + ssrc_count * 4);
        PayloadFeedbackType::Afb.put_head(
            &mut buf,
            4 + ssrc_count,
            self.sender_ssrc,
            self.media_ssrc,
        );
        put_u32(&mut buf, 0x52454D42);
        let (br_mantissa, exp) = Self::encode_bitrate(self.bitrate);
        put_u8(&mut buf, ssrc_count as u8);
        put_u8(&mut buf, exp * 4 + (br_mantissa / 0x1_0000) as u8);
        put_u16(&mut buf, (br_mantissa % 0x1_0000) as u16);
        assert(written(buf) =~= self@.head() + self@.estimate()) by {
            reveal(be32);
        }
        put_ssrcs(&mut buf, &self.ssrcs, ssrc_count);
        freeze(buf)
    }

    /// Encode bitrate as mantissa * 2^exp (18-bit mantissa, 6-bit exp).
    pub fn encode_bitrate(bitrate: u64) -> (r: (u32, u8))
        ensures
            r.0 == mantissa(bitrate as int),
            r.1 == exponent(bitrate as int),
            r.0 < 0x4_0000,
            r.1 <= 46,
    {
        let mut m: u64 = bitrate;
        let mut exp: u8 = 0;
        assert(m < pow2(64)) by {
            vstd::arithmetic::power2::lemma2_to64();
        }
        while m >= 0x4_0000
            invariant
                mantissa(m as int) == mantissa(bitrate as int),
                exp + exponent(m as int) == exponent(bitrate as int),
                exp <= 46,
                m < pow2((64 - exp) as nat),
            decreases m,
        {
            proof {
                lemma_pow2_unfold((64 - exp) as nat);
                if exp == 46 {
                    vstd::arithmetic::power2::lemma2_to64();
                    assert(false);
                }
            }
            m = m / 2;
            exp = exp + 1;
        }
        (m as u32, exp)
    }
}

/// The mantissa scaled back is at most the bitrate, and less than one unit of its last bit below.
proof fn lemma_mantissa_scaled(bitrate: int)
    requires
        0 <= bitrate,
    ensures
        0 <= mantissa(bitrate) < 0x4_0000,
        mantissa(bitrate) * pow2(exponent(bitrate)) <= bitrate,
        bitrate < (mantissa(bitrate) + 1) * pow2(exponent(bitrate)),
        exponent(bitrate) > 0 ==> mantissa(bitrate) >= 0x2_0000,
    decreases bitrate,
{
    if bitrate < 0x4_0000 {
        let p = pow2(exponent(bitrate)) as int;
        assert(p == 1) by {
            vstd::arithmetic::power2::lemma2_to64();
        }
        assert(bitrate * p == bitrate && (bitrate + 1) * p == bitrate + 1) by (nonlinear_arith)
            requires
                p == 1,
        ;
    } else {
        let half = bitrate / 2;
        lemma_mantissa_scaled(half);
        lemma_pow2_unfold(exponent(bitrate));
        let m = mantissa(half);
        let p = pow2(exponent(half)) as int;
        assert(m * (2 * p) == 2 * (m * p)) by (nonlinear_arith);
        assert((m + 1) * (2 * p) == 2 * ((m + 1) * p)) by (nonlinear_arith);
    }
}

/// An exponent of a 64-bit bitrate is at most 46.
proof fn lemma_exponent_bound(bitrate: int, k: nat)
    requires
        0 <= bitrate,
        k >= 18,
        bitrate < pow2(k),
    ensures
        exponent(bitrate) <= k - 18,
    decreases k,
{
    vstd::arithmetic::power2::lemma2_to64();
    if k > 18 && bitrate >= 0x4_0000 {
        lemma_pow2_unfold(k);
        lemma_exponent_bound(bitrate / 2, (k - 1) as nat);
    }
}

/// The bitrate that the mantissa and exponent of `bitrate` stand for.
pub open spec fn sent_bitrate(bitrate: u64) -> u64 {
    (mantissa(bitrate as int) * pow2(exponent(bitrate as int))) as u64
}

/// The encoding of a bitrate loses less than one part in 2^17, and rounds down. A bitrate below
/// 2^18 is kept.
pub proof fn lemma_sent_bitrate(bitrate: u64)
    ensures
        sent_bitrate(bitrate) == mantissa(bitrate as int) * pow2(exponent(bitrate as int)),
        sent_bitrate(bitrate) <= bitrate,
        (bitrate - sent_bitrate(bitrate)) * 0x2_0000 <= bitrate,
        bitrate < 0x4_0000 ==> sent_bitrate(bitrate) == bitrate,
{
    let b = bitrate as int;
    lemma_mantissa_scaled(b);
    let m = mantissa(b);
    let p = pow2(exponent(b)) as int;
    assert(0 <= m * p) by (nonlinear_arith)
        requires
            0 <= m,
            0 <= p,
    ;
    if exponent(b) > 0 {
        assert((m + 1) * p == m * p + p) by (nonlinear_arith);
        assert(0x2_0000 * p <= m * p) by (nonlinear_arith)
            requires
                m >= 0x2_0000,
                p >= 0,
        ;
    } else {
        assert(pow2(0) == 1) by {
            vstd::arithmetic::power2::lemma2_to64();
        }
        assert(m * p == m) by (nonlinear_arith)
            requires
                p == 1,
        ;
    }
}

/// What is read of identifier, count and bitrate where they were written.
proof fn lemma_estimate(remb: RembView, data: Seq<u8>)
    requires
        data.len() >= 20,
        data.subrange(12, 20) == remb.estimate(),
    ensures
        data.subrange(12, 16) == unique_id(),
        data[16] == remb.sent(),
        ((data[17] % 4 * 0x1_0000 + data[18] * 0x100 + data[19]) as u64) << (data[17] / 4) as u64
            == sent_bitrate(remb.bitrate),
{
    let b = remb.bitrate as int;
    let m = mantissa(b);
    let e = exponent(b);
    let est = remb.estimate();
    reveal(be16);
    lemma_mantissa_scaled(b);
    lemma_sent_bitrate(remb.bitrate);
    assert(e <= 46) by {
        assert(b < pow2(64)) by {
            vstd::arithmetic::power2::lemma2_to64();
        }
        lemma_exponent_bound(b, 64);
    }
    assert(data.subrange(12, 16) =~= est.subrange(0, 4));
    assert(est.subrange(0, 4) =~= unique_id());
    assert(data[16] == est[4]);
    assert(data[17] == est[5]);
    assert(data[18] == est[6]);
    assert(data[19] == est[7]);
    let read = (data[17] % 4 * 0x1_0000 + data[18] * 0x100 + data[19]) as u64;
    assert(read == m);
    assert(data[17] / 4 == e);
    vstd::bits::lemma_u64_shl_is_mul(read, e as u64);
}

/// Parsing a REMB that was built gives back its SSRCs, up to the 255 that can be counted, and its
/// bitrate to 18 bits.
pub proof fn lemma_remb_round_trip(remb: RembView)
    ensures
        remb.wire().len() == 20 + 4 * remb.sent(),
        RembView::of_wire(remb.wire()) == Ok::<_, RtcpParseError>(
            RembView {
                bitrate: sent_bitrate(remb.bitrate),
                ssrcs: remb.ssrcs.take(remb.sent()),
                ..remb
            },
        ),
{
    let kept = remb.ssrcs.take(remb.sent());
    let tail = flat(kept, ssrc_wire());
    let data = remb.wire();
    lemma_flat_len(kept, ssrc_wire(), 4);
    lemma_head(
        PayloadFeedbackType::Afb,
        4 + remb.sent(),
        remb.sender_ssrc,
        remb.media_ssrc,
        remb.estimate() + tail,
        16,
    );
    lemma_concat3(remb.head(), remb.estimate(), tail);
    lemma_estimate(remb, data);
    lemma_ssrcs_at(remb.head() + remb.estimate(), kept);
}

proof fn lemma_concat3(a: Seq<u8>, b: Seq<u8>, c: Seq<u8>)
    requires
        a.len() == 12,
        b.len() == 8,
    ensures
        a + b + c == a + (b + c),
        (a + b + c).subrange(12, 20) == b,
        (a + b).len() == 20,
{
    assert(a + b + c =~= a + (b + c));
    assert((a + b + c).subrange(12, 20) =~= b);
}

proof fn lemma_ssrcs_at(prefix: Seq<u8>, ssrcs: Seq<u32>)
    ensures
        ssrcs_at(prefix + flat(ssrcs, ssrc_wire()), prefix.len() as int, ssrcs.len()) == ssrcs,
{
    let tail = flat(ssrcs, ssrc_wire());
    let s = prefix + tail;
    let p = prefix.len() as int;
    let n = ssrcs.len();
    assert forall|i: int| 0 <= i < n implies #[trigger] ssrcs_at(s, p, n)[i] == ssrcs[i] by {
        lemma_flat_at(ssrcs, ssrc_wire(), 4, i);
        assert(s.subrange(p + i * 4, p + i * 4 + 4) =~= tail.subrange(i * 4, i * 4 + 4));
        lemma_be32_read(s, p + i * 4, ssrcs[i]);
    }
    assert(ssrcs_at(s, p, n) =~= ssrcs);
}

} // verus!
