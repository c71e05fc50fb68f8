//! Sender and receiver reports.

use super::header::{
    lemma_header_round_trip, NtpTimestamp, RtcpHeader, RtcpParseError, RtcpType,
};
use crate::buf::{
    be32, fits, flat, freeze, frozen, lemma_be32_read, lemma_flat_at, lemma_flat_len,
    lemma_flat_push, new_buffer, put_u32, put_u8, read_u32, u32_at, written,
};
use bytes::{Bytes, BytesMut};
use vstd::prelude::*;

verus! {

broadcast use crate::buf::group_be_len;

/// Report block in SR/RR packets.
#[derive(Debug, Clone, Copy)]
pub struct ReportBlock {
    /// SSRC of the source being reported.
    pub ssrc: u32,
    /// Fraction of packets lost (0-255, representing 0.0-1.0).
    pub fraction_lost: u8,
    /// Cumulative packets lost (24-bit signed).
    pub cumulative_lost: i32,
    /// Extended highest sequence number received.
    pub extended_seq: u32,
    /// Interarrival jitter.
    pub jitter: u32,
    /// Last SR timestamp (compact NTP).
    pub last_sr: u32,
    /// Delay since last SR (1/65536 seconds).
    pub delay_since_sr: u32,
}

impl Default for ReportBlock {
    fn default() -> (r: Self)
        ensures
            r == (ReportBlock {
                ssrc: 0,
                fraction_lost: 0,
                cumulative_lost: 0,
                extended_seq: 0,
                jitter: 0,
                last_sr: 0,
                delay_since_sr: 0,
            }),
    {
        ReportBlock {
            ssrc: 0,
            fraction_lost: 0,
            cumulative_lost: 0,
            extended_seq: 0,
            jitter: 0,
            last_sr: 0,
            delay_since_sr: 0,
        }
    }
}

/// The low 24 bits of a number in two's complement, as three bytes, most significant first.
pub open spec fn be24(n: int) -> Seq<u8> {
    let low = n % 0x100_0000;
    seq![(low / 0x1_0000) as u8, (low / 0x100 % 0x100) as u8, (low % 0x100) as u8]
}

/// The signed 24-bit number that stands at `i` in `s`.
pub open spec fn i24_at(s: Seq<u8>, i: int) -> i32 {
    let low = s[i] * 0x1_0000 + s[i + 1] * 0x100 + s[i + 2];
    (if low < 0x80_0000 {
        low
    } else {
        low - 0x100_0000
    }) as i32
}

impl ReportBlock {
    /// Size of a report block in bytes.
    pub const SIZE: usize = 24;

    /// The block as bytes.
    pub open spec fn wire(self) -> Seq<u8> {
        be32(self.ssrc) + seq![self.fraction_lost] + be24(self.cumulative_lost as int) + be32(
            self.extended_seq,
        ) + be32(self.jitter) + be32(self.last_sr) + be32(self.delay_since_sr)
    }

    /// The block that stands at `i` in `s`.
    pub open spec fn at(s: Seq<u8>, i: int) -> ReportBlock {
        ReportBlock {
            ssrc: u32_at(s, i),
            fraction_lost: s[i + 4],
            cumulative_lost: i24_at(s, i + 5),
            extended_seq: u32_at(s, i + 8),
            jitter: u32_at(s, i + 12),
            last_sr: u32_at(s, i + 16),
            delay_since_sr: u32_at(s, i + 20),
        }
    }

    /// Whether the loss count fits the 24 bits it has on the wire.
    pub open spec fn loss_fits(self) -> bool {
        -0x80_0000 <= self.cumulative_lost < 0x80_0000
    }

    /// Parse a report block from bytes.
    pub fn parse(data: &[u8]) -> (r: Result<Self, RtcpParseError>)
        ensures
            r == (if data@.len() < 24 {
                Err(RtcpParseError::TooShort(data@.len() as usize))
            } else {
                Ok(ReportBlock::at(data@, 0))
            }),
    {
        if data.len() < Self::SIZE {
            return Err(RtcpParseError::TooShort(data.len()));
        }
        let low: i32 = data[5] as i32 * 0x1_0000 + data[6] as i32 * 0x100 + data[7] as i32;
        Ok(
            ReportBlock {
                ssrc: read_u32(data, 0),
                fraction_lost: data[4],
                cumulative_lost: if low < 0x80_0000 {
                    low
                } else {
                    low - 0x100_0000
                },
                extended_seq: read_u32(data, 8),
                jitter: read_u32(data, 12),
                last_sr: read_u32(data, 16),
                delay_since_sr: read_u32(data, 20),
            },
        )
    }

    /// Build a report block to bytes.
    pub fn build(&self, buf: &mut BytesMut)
        requires
            fits(written(*old(buf)).len() + 24),
        ensures
            written(*final(buf)) == written(*old(buf)) + self.wire(),
    {
        let n: i64 = self.cumulative_lost as i64;
        let low: i64 = (n + 0x1_0000_0000) % 0x100_0000;
        assert(low == n % 0x100_0000);
        put_u32(buf, self.ssrc);
        put_u8(buf, self.fraction_lost);
        put_u8(buf, (low / 0x1_0000) as u8);
        put_u8(buf, (low / 0x100 % 0x100) as u8);
        put_u8(buf, (low % 0x100) as u8);
        put_u32(buf, self.extended_seq);
        put_u32(buf, self.jitter);
        put_u32(buf, self.last_sr);
        put_u32(buf, self.delay_since_sr);
        assert(written(*buf) =~= written(*old(buf)) + self.wire());
    }
}

/// The encoding of a report block, as a function.
pub open spec fn block_wire() -> spec_fn(ReportBlock) -> Seq<u8> {
    |b: ReportBlock| b.wire()
}

/// The first `n` report blocks that stand at `start` in `s`.
pub open spec fn blocks_at(s: Seq<u8>, start: int, n: nat) -> Seq<ReportBlock> {
    Seq::new(n, |i: int| ReportBlock::at(s, start + i * 24))
}

/// What parsing gives of a block that was built: the same block, its loss count in 24 bits.
proof fn lemma_block_at(s: Seq<u8>, i: int, b: ReportBlock)
    requires
        0 <= i,
        i + 24 <= s.len(),
        s.subrange(i, i + 24) == b.wire(),
        b.loss_fits(),
    ensures
        ReportBlock::at(s, i) == b,
{
    let w = s.subrange(i, i + 24);
    assert(s.subrange(i, i + 4) =~= w.subrange(0, 4));
    assert(w.subrange(0, 4) =~= be32(b.ssrc));
    lemma_be32_read(s, i, b.ssrc);
    assert(s[i + 4] == w[4]);
    assert(s[i + 5] == w[5] && w[5] == be24(b.cumulative_lost as int)[0]);
    assert(s[i + 6] == w[6] && w[6] == be24(b.cumulative_lost as int)[1]);
    assert(s[i + 7] == w[7] && w[7] == be24(b.cumulative_lost as int)[2]);
    assert(s.subrange(i + 8, i + 12) =~= w.subrange(8, 12));
    assert(w.subrange(8, 12) =~= be32(b.extended_seq));
    lemma_be32_read(s, i + 8, b.extended_seq);
    assert(s.subrange(i + 12, i + 16) =~= w.subrange(12, 16));
    assert(w.subrange(12, 16) =~= be32(b.jitter));
    lemma_be32_read(s, i + 12, b.jitter);
    assert(s.subrange(i + 16, i + 20) =~= w.subrange(16, 20));
    assert(w.subrange(16, 20) =~= be32(b.last_sr));
    lemma_be32_read(s, i + 16, b.last_sr);
    assert(s.subrange(i + 20, i + 24) =~= w.subrange(20, 24));
    assert(w.subrange(20, 24) =~= be32(b.delay_since_sr));
    lemma_be32_read(s, i + 20, b.delay_since_sr);
}

/// Parsing a report block that was built gives it back, if its loss count fits 24 bits.
pub proof fn lemma_report_block_round_trip(b: ReportBlock)
    requires
        b.loss_fits(),
    ensures
        b.wire().len() == 24,
        ReportBlock::at(b.wire(), 0) == b,
{
    assert(b.wire().subrange(0, 24) =~= b.wire());
    lemma_block_at(b.wire(), 0, b);
}

/// The blocks read back behind a prefix are those that were written there.
proof fn lemma_blocks_at(prefix: Seq<u8>, blocks: Seq<ReportBlock>, n: nat)
    requires
        n <= blocks.len(),
        forall|i: int| 0 <= i < n ==> (#[trigger] blocks[i]).loss_fits(),
    ensures
        (prefix + flat(blocks, block_wire())).len() == prefix.len() + 24 * blocks.len(),
        blocks_at(prefix + flat(blocks, block_wire()), prefix.len() as int, n) == blocks.take(
            n as int,
        ),
{
    let tail = flat(blocks, block_wire());
    let s = prefix + tail;
    let p = prefix.len() as int;
    lemma_flat_len(blocks, block_wire(), 24);
    assert forall|i: int| 0 <= i < n implies #[trigger] ReportBlock::at(s, p + i * 24)
        == blocks[i] by {
        lemma_flat_at(blocks, block_wire(), 24, i);
        assert(s.subrange(p + i * 24, p + i * 24 + 24) =~= tail.subrange(i * 24, i * 24 + 24));
        lemma_block_at(s, p + i * 24, blocks[i]);
    }
    assert(blocks_at(s, p, n) =~= blocks.take(n as int));
}

/// Reads the `count` report blocks that follow the first `start` bytes of `data`.
fn parse_blocks(data: &[u8], start: usize, count: u8) -> (r: Result<
    Vec<ReportBlock>,
    RtcpParseError,
>)
    requires
        start <= data@.len(),
    ensures
        match r {
            Ok(v) => start + 24 * count <= data@.len() && v@ == blocks_at(
                data@,
                start as int,
                count as nat,
            ),
            Err(e) => start + 24 * count > data@.len() && e == RtcpParseError::InvalidReportCount,
        },
{
    let mut blocks: Vec<ReportBlock> = Vec::with_capacity(count as usize);
    let mut i: u8 = 0;
    let mut pos: usize = start;
    while i < count
        invariant
            i <= count,
            start <= data@.len(),
            pos == start + 24 * i,
            pos <= data@.len(),
            blocks@ == blocks_at(data@, start as int, i as nat),
        decreases count - i,
    {
        if data.len() - pos < ReportBlock::SIZE {
            return Err(RtcpParseError::InvalidReportCount);
        }
        let chunk: &[u8] = &data[pos..pos + 24];
        let block: ReportBlock = match ReportBlock::parse(chunk) {
            Ok(b) => b,
            Err(e) => return Err(e),
        };
        proof {
            assert(forall|k: int| 0 <= k < 24 ==> chunk@[k] == #[trigger] data@[pos + k]);
            assert(ReportBlock::at(chunk@, 0) == ReportBlock::at(data@, pos as int)) by {
                let d = data@;
                let p = pos as int;
                assert(forall|k: int| 0 <= k < 24 ==> #[trigger] chunk@[k] == d[p + k]);
            }
        }
        blocks.push(block);
        pos = pos + 24;
        i = i + 1;
        assert(blocks@ =~= blocks_at(data@, start as int, i as nat));
    }
    Ok(blocks)
}

/// Appends the first `n` of `blocks`.
fn build_blocks(blocks: &Vec<ReportBlock>, n: usize, buf: &mut BytesMut)
    requires
        n <= blocks@.len(),
        fits((written(*old(buf)).len() + 24 * n) as nat),
    ensures
        written(*final(buf)) == written(*old(buf)) + flat(blocks@.take(n as int), block_wire()),
{
    let mut i: usize = 0;
    assert(written(*buf) =~= written(*old(buf)) + flat(blocks@.take(0), block_wire()));
    while i < n
        invariant
            i <= n <= blocks@.len(),
            fits((written(*old(buf)).len() + 24 * n) as nat),
            written(*buf) == written(*old(buf)) + flat(blocks@.take(i as int), block_wire()),
        decreases n - i,
    {
        proof {
            lemma_flat_push(blocks@, i as int, block_wire());
            lemma_flat_len(blocks@.take(i as int), block_wire(), 24);
        }
        blocks[i].build(buf);
        i = i + 1;
        assert(written(*buf) =~= written(*old(buf)) + flat(blocks@.take(i as int), block_wire()));
    }
}

/// Sender Report (SR) packet.
#[derive(Debug, Clone)]
pub struct SenderReport {
    /// SSRC of sender.
    pub ssrc: u32,
    /// NTP timestamp.
    pub ntp_timestamp: NtpTimestamp,
    /// RTP timestamp.
    pub rtp_timestamp: u32,
    /// Sender's packet count.
    pub sender_packet_count: u32,
    /// Sender's octet count.
    pub sender_octet_count: u32,
    /// Report blocks.
    pub report_blocks: Vec<ReportBlock>,
}

/// What a sender report says.
pub struct SenderReportView {
    pub ssrc: u32,
    pub ntp_timestamp: NtpTimestamp,
    pub rtp_timestamp: u32,
    pub sender_packet_count: u32,
    pub sender_octet_count: u32,
    pub report_blocks: Seq<ReportBlock>,
}

impl View for SenderReport {
    type V = SenderReportView;

    open spec fn view(&self) -> SenderReportView {
        SenderReportView {
            ssrc: self.ssrc,
            ntp_timestamp: self.ntp_timestamp,
            rtp_timestamp: self.rtp_timestamp,
            sender_packet_count: self.sender_packet_count,
            sender_octet_count: self.sender_octet_count,
            report_blocks: self.report_blocks@,
        }
    }
}

/// The count field for `n` reports or sources: five bits.
pub open spec fn count_field(n: nat) -> u8 {
    (if n < 31 {
        n as int
    } else {
        31
    }) as u8
}

/// The blocks of a report that are sent: as many as the count field can announce.
pub open spec fn sent(blocks: Seq<ReportBlock>) -> Seq<ReportBlock> {
    blocks.take(count_field(blocks.len()) as int)
}

impl SenderReportView {
    pub open spec fn header(self) -> RtcpHeader {
        let count = count_field(self.report_blocks.len());
        RtcpHeader {
            version: 2,
            padding: false,
            count,
            packet_type: RtcpType::SenderReport,
            length: (6 + count * 6) as u16,
        }
    }

    /// Header and sender info, up to the report blocks.
    pub open spec fn head(self) -> Seq<u8> {
        self.header().wire() + be32(self.ssrc) + be32(self.ntp_timestamp.seconds) + be32(
            self.ntp_timestamp.fraction,
        ) + be32(self.rtp_timestamp) + be32(self.sender_packet_count) + be32(
            self.sender_octet_count,
        )
    }

    /// The report as bytes, with at most 31 blocks.
    pub open spec fn wire(self) -> Seq<u8> {
        self.head() + flat(sent(self.report_blocks), block_wire())
    }

    /// The report that the packet `data` carries.
    pub open spec fn of_wire(data: Seq<u8>) -> Result<SenderReportView, RtcpParseError> {
        match RtcpHeader::of_wire(data) {
            Err(e) => Err(e),
            Ok(h) => if h.packet_type != RtcpType::SenderReport {
                Err(RtcpParseError::UnknownPacketType(h.packet_type.number()))
            } else if data.len() < 28 {
                Err(RtcpParseError::TooShort((data.len() - 4) as usize))
            } else if data.len() < 28 + 24 * h.count {
                Err(RtcpParseError::InvalidReportCount)
            } else {
                Ok(
                    SenderReportView {
                        ssrc: u32_at(data, 4),
                        ntp_timestamp: NtpTimestamp {
                            seconds: u32_at(data, 8),
                            fraction: u32_at(data, 12),
                        },
                        rtp_timestamp: u32_at(data, 16),
                        sender_packet_count: u32_at(data, 20),
                        sender_octet_count: u32_at(data, 24),
                        report_blocks: blocks_at(data, 28, h.count as nat),
                    },
                )
            },
        }
    }
}

impl SenderReport {
    /// Minimum size of what follows the header of a sender report (SSRC and sender info).
    pub const MIN_SIZE: usize = 24;

    /// Parse a sender report from bytes.
    pub fn parse(data: &[u8]) -> (r: Result<Self, RtcpParseError>)
        ensures
            match r {
                Ok(sr) => SenderReportView::of_wire(data@) == Ok::<_, RtcpParseError>(sr@),
                Err(e) => SenderReportView::of_wire(data@) == Err::<SenderReportView, _>(e),
            },
    {
        let (header, rest) = match RtcpHeader::parse(data) {
            Ok(hr) => hr,
            Err(e) => return Err(e),
        };
        if header.packet_type != RtcpType::SenderReport {
            return Err(RtcpParseError::UnknownPacketType(header.packet_type.code()));
        }
        if rest.len() < Self::MIN_SIZE {
            return Err(RtcpParseError::TooShort(rest.len()));
        }
        let report_blocks: Vec<ReportBlock> = match parse_blocks(data, 28, header.count) {
            Ok(b) => b,
            Err(e) => return Err(e),
        };
        Ok(
            SenderReport {
                ssrc: read_u32(data, 4),
                ntp_timestamp: NtpTimestamp {
                    seconds: read_u32(data, 8),
                    fraction: read_u32(data, 12),
                },
                rtp_timestamp: read_u32(data, 16),
                sender_packet_count: read_u32(data, 20),
                sender_octet_count: read_u32(data, 24),
                report_blocks,
            },
        )
    }

    /// Build a sender report to bytes.
    pub fn build(&self) -> (r: Bytes)
        ensures
            frozen(r) == self@.wire(),
    {
        let report_count: u8 = if self.report_blocks.len() < 31 {
            self.report_blocks.len() as u8
        } else {
            31
        };
        let mut buf: BytesMut = new_buffer(28 + report_count as usize * ReportBlock::SIZE);
        let header = RtcpHeader {
            version: 2,
            padding: false,
            count: report_count,
            packet_type: RtcpType::SenderReport,
            length: 6 + report_count as u16 * 6,
        };
        header.build(&mut buf);
        put_u32(&mut buf, self.ssrc);
        put_u32(&mut buf, self.ntp_timestamp.seconds);
        put_u32(&mut buf, self.ntp_timestamp.fraction);
        put_u32(&mut buf, self.rtp_timestamp);
        put_u32(&mut buf, self.sender_packet_count);
        put_u32(&mut buf, self.sender_octet_count);
        assert(written(buf) =~= self@.head());
        build_blocks(&self.report_blocks, report_count as usize, &mut buf);
        freeze(buf)
    }
}

/// A sender report that was built holds as many blocks as its count field announces and as many
/// bytes as its length field does. Parsing it gives back all it said, up to the 31 report blocks
/// that can be announced, if the loss counts of those fit 24 bits.
pub proof fn lemma_sender_report_round_trip(sr: SenderReportView)
    requires
        forall|i: int|
            0 <= i < sr.report_blocks.len() && i < 31 ==> (
            #[trigger] sr.report_blocks[i]).loss_fits(),
    ensures
        sr.wire().len() == 28 + 24 * count_field(sr.report_blocks.len()),
        sr.wire().len() == 4 * (sr.header().length + 1),
        RtcpHeader::of_wire(sr.wire()) == Ok::<_, RtcpParseError>(sr.header()),
        SenderReportView::of_wire(sr.wire()) == Ok::<_, RtcpParseError>(
            SenderReportView {
                report_blocks: sent(sr.report_blocks),
                ..sr
            },
        ),
{
    let n = count_field(sr.report_blocks.len()) as nat;
    let data = sr.wire();
    lemma_blocks_at(sr.head(), sent(sr.report_blocks), n);
    assert(sent(sr.report_blocks).take(n as int) =~= sent(sr.report_blocks));
    assert(data.take(28) =~= sr.head());
    lemma_sender_head(sr, data);
}

/// What is read of a packet that starts as a sender report does.
proof fn lemma_sender_head(sr: SenderReportView, data: Seq<u8>)
    requires
        data.len() >= 28,
        data.take(28) == sr.head(),
    ensures
        RtcpHeader::of_wire(data) == Ok::<_, RtcpParseError>(sr.header()),
        u32_at(data, 4) == sr.ssrc,
        u32_at(data, 8) == sr.ntp_timestamp.seconds,
        u32_at(data, 12) == sr.ntp_timestamp.fraction,
        u32_at(data, 16) == sr.rtp_timestamp,
        u32_at(data, 20) == sr.sender_packet_count,
        u32_at(data, 24) == sr.sender_octet_count,
{
    let head = data.take(28);
    let h = sr.header();
    assert(h.wire() =~= head.take(4));
    assert(data =~= h.wire() + data.skip(4));
    lemma_header_round_trip(h, data.skip(4));
    assert forall|i: int| 4 <= i <= 24 implies #[trigger] data.subrange(i, i + 4) == head.subrange(
        i,
        i + 4,
    ) by {
        assert(data.subrange(i, i + 4) =~= head.subrange(i, i + 4));
    }
    assert(head.subrange(4, 8) =~= be32(sr.ssrc));
    assert(head.subrange(8, 12) =~= be32(sr.ntp_timestamp.seconds));
    assert(head.subrange(12, 16) =~= be32(sr.ntp_timestamp.fraction));
    assert(head.subrange(16, 20) =~= be32(sr.rtp_timestamp));
    assert(head.subrange(20, 24) =~= be32(sr.sender_packet_count));
    assert(head.subrange(24, 28) =~= be32(sr.sender_octet_count));
    lemma_be32_read(data, 4, sr.ssrc);
    lemma_be32_read(data, 8, sr.ntp_timestamp.seconds);
    lemma_be32_read(data, 12, sr.ntp_timestamp.fraction);
    lemma_be32_read(data, 16, sr.rtp_timestamp);
    lemma_be32_read(data, 20, sr.sender_packet_count);
    lemma_be32_read(data, 24, sr.sender_octet_count);
}

/// Receiver Report (RR) packet.
#[derive(Debug, Clone)]
pub struct ReceiverReport {
    /// SSRC of sender.
    pub ssrc: u32,
    /// Report blocks.
    pub report_blocks: Vec<ReportBlock>,
}

/// What a receiver report says.
pub struct ReceiverReportView {
    pub ssrc: u32,
    pub report_blocks: Seq<ReportBlock>,
}

impl View for ReceiverReport {
    type V = ReceiverReportView;

    open spec fn view(&self) -> ReceiverReportView {
        ReceiverReportView { ssrc: self.ssrc, report_blocks: self.report_blocks@ }
    }
}

impl ReceiverReportView {
    pub open spec fn header(self) -> RtcpHeader {
        let count = count_field(self.report_blocks.len());
        RtcpHeader {
            version: 2,
            padding: false,
            count,
            packet_type: RtcpType::ReceiverReport,
            length: (1 + count * 6) as u16,
        }
    }

    /// The report as bytes, with at most 31 blocks.
    pub open spec fn wire(self) -> Seq<u8> {
        self.header().wire() + be32(self.ssrc) + flat(sent(self.report_blocks), block_wire())
    }

    /// The report that the packet `data` carries.
    pub open spec fn of_wire(data: Seq<u8>) -> Result<ReceiverReportView, RtcpParseError> {
        match RtcpHeader::of_wire(data) {
            Err(e) => Err(e),
            Ok(h) => if h.packet_type != RtcpType::ReceiverReport {
                Err(RtcpParseError::UnknownPacketType(h.packet_type.number()))
            } else if data.len() < 8 {
                Err(RtcpParseError::TooShort((data.len() - 4) as usize))
            } else if data.len() < 8 + 24 * h.count {
                Err(RtcpParseError::InvalidReportCount)
            } else {
                Ok(
                    ReceiverReportView {
                        ssrc: u32_at(data, 4),
                        report_blocks: blocks_at(data, 8, h.count as nat),
                    },
                )
            },
        }
    }
}

impl ReceiverReport {
    /// Minimum size of receiver report.
    pub const MIN_SIZE: usize = 4;

    /// Parse a receiver report from bytes.
    pub fn parse(data: &[u8]) -> (r: Result<Self, RtcpParseError>)
        ensures
            match r {
                Ok(rr) => ReceiverReportView::of_wire(data@) == Ok::<_, RtcpParseError>(rr@),
                Err(e) => ReceiverReportView::of_wire(data@) == Err::<ReceiverReportView, _>(e),
            },
    {
        let (header, rest) = match RtcpHeader::parse(data) {
            Ok(hr) => hr,
            Err(e) => return Err(e),
        };
        if header.packet_type != RtcpType::ReceiverReport {
            return Err(RtcpParseError::UnknownPacketType(header.packet_type.code()));
        }
        if rest.len() < 4 {
            return Err(RtcpParseError::TooShort(rest.len()));
        }
        let report_blocks: Vec<ReportBlock> = match parse_blocks(data, 8, header.count) {
            Ok(b) => b,
            Err(e) => return Err(e),
        };
        Ok(ReceiverReport { ssrc: read_u32(data, 4), report_blocks })
    }

    /// Build a receiver report to bytes.
    pub fn build(&self) -> (r: Bytes)
        ensures
            frozen(r) == self@.wire(),
    {
        let report_count: u8 = if self.report_blocks.len() < 31 {
            self.report_blocks.len() as u8
        } else {
            31
        };
        let mut buf: BytesMut = new_buffer(8 + report_count as usize * ReportBlock::SIZE);
        let header = RtcpHeader {
            version: 2,
            padding: false,
            count: report_count,
            packet_type: RtcpType::ReceiverReport,
            length: 1 + report_count as u16 * 6,
        };
        header.build(&mut buf);
        put_u32(&mut buf, self.ssrc);
        assert(written(buf) =~= self@.header().wire() + be32(self.ssrc));
        build_blocks(&self.report_blocks, report_count as usize, &mut buf);
        freeze(buf)
    }
}

/// A receiver report that was built holds as many blocks as its count field announces and as many
/// bytes as its length field does. Parsing it gives back all it said, up to the 31 report blocks
/// that can be announced, if the loss counts of those fit 24 bits.
pub proof fn lemma_receiver_report_round_trip(rr: ReceiverReportView)
    requires
        forall|i: int|
            0 <= i < rr.report_blocks.len() && i < 31 ==> (
            #[trigger] rr.report_blocks[i]).loss_fits(),
    ensures
        rr.wire().len() == 8 + 24 * count_field(rr.report_blocks.len()),
        rr.wire().len() == 4 * (rr.header().length + 1),
        RtcpHeader::of_wire(rr.wire()) == Ok::<_, RtcpParseError>(rr.header()),
        ReceiverReportView::of_wire(rr.wire()) == Ok::<_, RtcpParseError>(
            ReceiverReportView {
                report_blocks: sent(rr.report_blocks),
                ..rr
            },
        ),
{
    let n = count_field(rr.report_blocks.len()) as nat;
    let data = rr.wire();
    let h = rr.header();
    lemma_blocks_at(h.wire() + be32(rr.ssrc), sent(rr.report_blocks), n);
    assert(sent(rr.report_blocks).take(n as int) =~= sent(rr.report_blocks));
    assert(data =~= h.wire() + data.skip(4));
    lemma_header_round_trip(h, data.skip(4));
    assert(data.subrange(4, 8) =~= be32(rr.ssrc));
    lemma_be32_read(data, 4, rr.ssrc);
}

} // verus!
