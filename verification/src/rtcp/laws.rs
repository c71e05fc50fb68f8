//! What RTCP packets look like on the wire (RFC 3550, RFC 4585, RFC 5104): the place of every
//! field, written down by its byte.

use crate::buf::{be16, be32, flat};
use crate::rtcp::compound::{names, starts_with, RtcpPacket};
use crate::rtcp::header::{first_byte, NtpTimestamp, RtcpHeader, RtcpParseError, RtcpType};
use crate::rtcp::nack::{after, bit, entries_at, gap, NackEntry, NackView};
use crate::rtcp::payload::{
    exponent, mantissa, ssrcs_at, unique_id, FirEntry, FirView, PayloadFeedbackType, Pli, RembView,
};
use crate::rtcp::report::{
    be24, blocks_at, count_field, i24_at, sent, ReceiverReportView, ReportBlock, SenderReportView,
};
use crate::rtcp::sdes::{
    counted_text, pad4, zeros, Goodbye, SdesChunk, SdesItem, SdesType, SourceDescription,
};
use vstd::prelude::*;
use vstd::utf8::encode_utf8;

verus! {

/// The packet types: 200 to 206, in their order, and no other number is one.
pub proof fn lemma_packet_types(n: u8)
    ensures
        RtcpType::SenderReport.number() == 200,
        RtcpType::ReceiverReport.number() == 201,
        RtcpType::SourceDescription.number() == 202,
        RtcpType::Goodbye.number() == 203,
        RtcpType::ApplicationDefined.number() == 204,
        RtcpType::TransportFeedback.number() == 205,
        RtcpType::PayloadFeedback.number() == 206,
        200 <= n <= 206 <==> RtcpType::of_number(n) is Ok,
        200 <= n <= 206 ==> (RtcpType::of_number(n)->Ok_0).number() == n,
        !(200 <= n <= 206) ==> RtcpType::of_number(n) == Err::<RtcpType, RtcpParseError>(
            RtcpParseError::UnknownPacketType(n),
        ),
{
}

/// The header's four bytes: the version times 64, 32 for padding and the count; the packet type;
/// and the length in words less one.
pub proof fn lemma_header_bytes(h: RtcpHeader)
    requires
        h.version < 4,
        h.count < 32,
    ensures
        h.wire().len() == 4,
        h.wire()[0] == 64 * h.version + (if h.padding {
            32int
        } else {
            0
        }) + h.count,
        h.wire()[1] == h.packet_type.number(),
        256 * h.wire()[2] + h.wire()[3] == h.length,
        first_byte(h.version, h.padding, h.count) == h.wire()[0],
{
    crate::text_laws::lemma_network_order(h.length, 0, seq![0u8, 0, 0, 0], 0);
}

/// How a header is read, and when it is refused: fewer than four bytes, another version than 2,
/// or a type that is none.
pub proof fn lemma_header_read(d: Seq<u8>)
    requires
        d.len() <= usize::MAX,
    ensures
        d.len() < 4 ==> RtcpHeader::of_wire(d) == Err::<RtcpHeader, RtcpParseError>(
            RtcpParseError::TooShort(d.len() as usize),
        ),
        d.len() >= 4 && !(128 <= d[0] < 192) ==> RtcpHeader::of_wire(d) == Err::<
            RtcpHeader,
            RtcpParseError,
        >(RtcpParseError::InvalidVersion((d[0] / 64) as u8)),
        d.len() >= 4 && 128 <= d[0] < 192 && !(200 <= d[1] <= 206) ==> RtcpHeader::of_wire(d)
            == Err::<RtcpHeader, RtcpParseError>(RtcpParseError::UnknownPacketType(d[1])),
        d.len() >= 4 && 128 <= d[0] < 192 && 200 <= d[1] <= 206 ==> ({
            &&& RtcpHeader::of_wire(d) is Ok
            &&& RtcpHeader::of_wire(d)->Ok_0.version == 2
            &&& RtcpHeader::of_wire(d)->Ok_0.padding == (d[0] >= 160)
            &&& RtcpHeader::of_wire(d)->Ok_0.count == d[0] % 32
            &&& RtcpHeader::of_wire(d)->Ok_0.packet_type.number() == d[1]
            &&& RtcpHeader::of_wire(d)->Ok_0.length == 256 * d[2] + d[3]
        }),
{
    if d.len() >= 4 {
        crate::text_laws::lemma_network_order(0, 0, d + d, 2);
    }
}

/// NTP time counts from 1900, 2208988800 seconds before 1970, in seconds and fractions of 2^32;
/// the fraction is the greatest that is not past the nanoseconds.
pub proof fn lemma_ntp(secs: u64, nanos: u32)
    requires
        nanos < 1_000_000_000,
    ensures
        secs + 2_208_988_800 < 4_294_967_296 ==> NtpTimestamp::of_unix(secs, nanos).seconds == secs
            + 2_208_988_800,
        NtpTimestamp::of_unix(secs, nanos).seconds == (secs + 2_208_988_800) % 4_294_967_296,
        NtpTimestamp::of_unix(secs, nanos).fraction * 1_000_000_000 <= nanos * 4_294_967_296,
        nanos * 4_294_967_296 < (NtpTimestamp::of_unix(secs, nanos).fraction + 1) * 1_000_000_000,
        NtpTimestamp::of_unix(secs, 0).fraction == 0,
        NtpTimestamp::of_unix(secs, 500_000_000).fraction == 2_147_483_648,
{
}

/// The compact form is the low half of the seconds and the high half of the fraction.
pub proof fn lemma_compact(t: NtpTimestamp, compact: u32)
    ensures
        t.middle() == 65536 * (t.seconds % 65536) + t.fraction / 65536,
        NtpTimestamp::of_middle(compact).seconds == compact / 65536,
        NtpTimestamp::of_middle(compact).fraction == 65536 * (compact % 65536),
{
}

/// A report block's 24 bytes: the source, the fraction lost in one byte, the loss in three, the
/// highest sequence number, the jitter, the last report and the delay since.
pub proof fn lemma_block_bytes(b: ReportBlock, d: Seq<u8>, i: int)
    requires
        0 <= i,
        i + 24 <= d.len(),
    ensures
        b.wire().len() == 24,
        b.wire().subrange(0, 4) == be32(b.ssrc),
        b.wire()[4] == b.fraction_lost,
        65536 * b.wire()[5] + 256 * b.wire()[6] + b.wire()[7] == b.cumulative_lost as int % 16777216,
        b.wire().subrange(8, 12) == be32(b.extended_seq),
        b.wire().subrange(12, 16) == be32(b.jitter),
        b.wire().subrange(16, 20) == be32(b.last_sr),
        b.wire().subrange(20, 24) == be32(b.delay_since_sr),
        ReportBlock::at(d, i).ssrc == 16777216 * d[i] + 65536 * d[i + 1] + 256 * d[i + 2] + d[i
            + 3],
        ReportBlock::at(d, i).fraction_lost == d[i + 4],
        d[i + 5] < 128 ==> ReportBlock::at(d, i).cumulative_lost == 65536 * d[i + 5] + 256 * d[i
            + 6] + d[i + 7],
        d[i + 5] >= 128 ==> ReportBlock::at(d, i).cumulative_lost == 65536 * d[i + 5] + 256 * d[i
            + 6] + d[i + 7] - 16777216,
        ReportBlock::at(d, i).extended_seq == 16777216 * d[i + 8] + 65536 * d[i + 9] + 256 * d[i
            + 10] + d[i + 11],
        ReportBlock::at(d, i).jitter == 16777216 * d[i + 12] + 65536 * d[i + 13] + 256 * d[i + 14]
            + d[i + 15],
        ReportBlock::at(d, i).last_sr == 16777216 * d[i + 16] + 65536 * d[i + 17] + 256 * d[i + 18]
            + d[i + 19],
        ReportBlock::at(d, i).delay_since_sr == 16777216 * d[i + 20] + 65536 * d[i + 21] + 256 * d[i
            + 22] + d[i + 23],
{
    broadcast use crate::buf::group_be_len;

    assert(be24(b.cumulative_lost as int).len() == 3);
    let w = b.wire();
    assert(w.subrange(0, 4) =~= be32(b.ssrc));
    assert(w.subrange(8, 12) =~= be32(b.extended_seq));
    assert(w.subrange(12, 16) =~= be32(b.jitter));
    assert(w.subrange(16, 20) =~= be32(b.last_sr));
    assert(w.subrange(20, 24) =~= be32(b.delay_since_sr));
    let n = b.cumulative_lost as int;
    let low = n % 0x100_0000;
    assert(w[5] == be24(n)[0]);
    assert(w[6] == be24(n)[1]);
    assert(w[7] == be24(n)[2]);
    assert(low == 65536 * (low / 65536) + 256 * (low / 256 % 256) + low % 256);
    crate::text_laws::lemma_network_order(0, 0, d, i);
    crate::text_laws::lemma_network_order(0, 0, d, i + 8);
    crate::text_laws::lemma_network_order(0, 0, d, i + 12);
    crate::text_laws::lemma_network_order(0, 0, d, i + 16);
    crate::text_laws::lemma_network_order(0, 0, d, i + 20);
    assert(ReportBlock::at(d, i).cumulative_lost == i24_at(d, i + 5));
}

/// A report carries up to 31 blocks, the first ones, and says how many.
pub proof fn lemma_blocks_sent(blocks: Seq<ReportBlock>, i: int)
    ensures
        blocks.len() <= 31 ==> sent(blocks) == blocks && count_field(blocks.len()) == blocks.len(),
        blocks.len() > 31 ==> sent(blocks).len() == 31 && count_field(blocks.len()) == 31,
        0 <= i < sent(blocks).len() ==> sent(blocks)[i] == blocks[i],
{
    if blocks.len() <= 31 {
        assert(sent(blocks) =~= blocks);
    }
}

/// A sender report: type 200, the number of blocks, six words and six for each block; then the
/// source, the time of day, the media time, the packets and the bytes that were sent.
pub proof fn lemma_sender_report_bytes(sr: SenderReportView)
    ensures
        sr.header().version == 2,
        !sr.header().padding,
        sr.header().packet_type == RtcpType::SenderReport,
        sr.header().count == sent(sr.report_blocks).len(),
        sr.header().length == 6 + 6 * sent(sr.report_blocks).len(),
        sr.head().len() == 28,
        sr.head().take(4) == sr.header().wire(),
        sr.head().subrange(4, 8) == be32(sr.ssrc),
        sr.head().subrange(8, 12) == be32(sr.ntp_timestamp.seconds),
        sr.head().subrange(12, 16) == be32(sr.ntp_timestamp.fraction),
        sr.head().subrange(16, 20) == be32(sr.rtp_timestamp),
        sr.head().subrange(20, 24) == be32(sr.sender_packet_count),
        sr.head().subrange(24, 28) == be32(sr.sender_octet_count),
        sr.wire().take(28) == sr.head(),
        sr.report_blocks.len() == 0 ==> sr.wire() == sr.head(),
        sr.report_blocks.len() == 1 ==> sr.wire() == sr.head() + sr.report_blocks[0].wire(),
{
    broadcast use crate::buf::group_be_len;

    let h = sr.head();
    assert(h.take(4) =~= sr.header().wire());
    assert(h.subrange(4, 8) =~= be32(sr.ssrc));
    assert(h.subrange(8, 12) =~= be32(sr.ntp_timestamp.seconds));
    assert(h.subrange(12, 16) =~= be32(sr.ntp_timestamp.fraction));
    assert(h.subrange(16, 20) =~= be32(sr.rtp_timestamp));
    assert(h.subrange(20, 24) =~= be32(sr.sender_packet_count));
    assert(h.subrange(24, 28) =~= be32(sr.sender_octet_count));
    assert(sr.wire().take(28) =~= h);
    lemma_blocks_sent(sr.report_blocks, 0);
    lemma_few_blocks(sr.report_blocks);
    if sr.report_blocks.len() == 0 {
        assert(sr.wire() =~= h);
    }
}

proof fn lemma_few_blocks(blocks: Seq<ReportBlock>)
    ensures
        blocks.len() == 0 ==> flat(sent(blocks), crate::rtcp::report::block_wire()).len() == 0,
        blocks.len() == 1 ==> flat(sent(blocks), crate::rtcp::report::block_wire())
            == blocks[0].wire(),
{
    lemma_blocks_sent(blocks, 0);
    let enc = crate::rtcp::report::block_wire();
    if blocks.len() == 1 {
        assert(blocks.drop_last() =~= Seq::<ReportBlock>::empty());
        assert(flat(blocks, enc) == flat(blocks.drop_last(), enc) + enc(blocks.last()));
        assert(flat(blocks, enc) =~= blocks[0].wire());
    }
}

/// A receiver report: type 201, the number of blocks, one word and six for each block; then the
/// source and the blocks.
pub proof fn lemma_receiver_report_bytes(rr: ReceiverReportView)
    ensures
        rr.header().version == 2,
        !rr.header().padding,
        rr.header().packet_type == RtcpType::ReceiverReport,
        rr.header().count == sent(rr.report_blocks).len(),
        rr.header().length == 1 + 6 * sent(rr.report_blocks).len(),
        rr.wire().len() >= 8,
        rr.wire().take(4) == rr.header().wire(),
        rr.wire().subrange(4, 8) == be32(rr.ssrc),
        rr.report_blocks.len() == 0 ==> rr.wire().len() == 8,
        rr.report_blocks.len() == 1 ==> rr.wire().skip(8) == rr.report_blocks[0].wire(),
{
    broadcast use crate::buf::group_be_len;

    let w = rr.wire();
    assert(w.take(4) =~= rr.header().wire());
    assert(w.subrange(4, 8) =~= be32(rr.ssrc));
    lemma_blocks_sent(rr.report_blocks, 0);
    lemma_few_blocks(rr.report_blocks);
    if rr.report_blocks.len() == 1 {
        assert(w.skip(8) =~= rr.report_blocks[0].wire());
    }
}

/// How reports are read: each block from its place, and too few bytes for the blocks that are
/// counted is an error of its own.
pub proof fn lemma_reports_read(d: Seq<u8>)
    requires
        4 <= d.len() <= usize::MAX,
        128 <= d[0] < 160,
    ensures
        d[1] == 200 && d.len() < 28 ==> SenderReportView::of_wire(d) == Err::<
            SenderReportView,
            RtcpParseError,
        >(RtcpParseError::TooShort((d.len() - 4) as usize)),
        d[1] == 200 && 28 <= d.len() < 28 + 24 * (d[0] - 128) ==> SenderReportView::of_wire(d)
            == Err::<SenderReportView, RtcpParseError>(RtcpParseError::InvalidReportCount),
        200 <= d[1] <= 206 && d[1] != 200 ==> SenderReportView::of_wire(d) == Err::<
            SenderReportView,
            RtcpParseError,
        >(RtcpParseError::UnknownPacketType(d[1])),
        d[1] == 200 && d.len() >= 28 + 24 * (d[0] - 128) ==> ({
            let sr = SenderReportView::of_wire(d)->Ok_0;
            &&& SenderReportView::of_wire(d) is Ok
            &&& sr.ssrc == 16777216 * d[4] + 65536 * d[5] + 256 * d[6] + d[7]
            &&& sr.ntp_timestamp.seconds == 16777216 * d[8] + 65536 * d[9] + 256 * d[10] + d[11]
            &&& sr.ntp_timestamp.fraction == 16777216 * d[12] + 65536 * d[13] + 256 * d[14] + d[15]
            &&& sr.rtp_timestamp == 16777216 * d[16] + 65536 * d[17] + 256 * d[18] + d[19]
            &&& sr.sender_packet_count == 16777216 * d[20] + 65536 * d[21] + 256 * d[22] + d[23]
            &&& sr.sender_octet_count == 16777216 * d[24] + 65536 * d[25] + 256 * d[26] + d[27]
            &&& sr.report_blocks.len() == d[0] - 128
            &&& forall|i: int|
                0 <= i < d[0] - 128 ==> #[trigger] sr.report_blocks[i] == ReportBlock::at(
                    d,
                    28 + 24 * i,
                )
        }),
        d[1] == 201 && d.len() < 8 ==> ReceiverReportView::of_wire(d) == Err::<
            ReceiverReportView,
            RtcpParseError,
        >(RtcpParseError::TooShort((d.len() - 4) as usize)),
        d[1] == 201 && 8 <= d.len() < 8 + 24 * (d[0] - 128) ==> ReceiverReportView::of_wire(d)
            == Err::<ReceiverReportView, RtcpParseError>(RtcpParseError::InvalidReportCount),
        200 <= d[1] <= 206 && d[1] != 201 ==> ReceiverReportView::of_wire(d) == Err::<
            ReceiverReportView,
            RtcpParseError,
        >(RtcpParseError::UnknownPacketType(d[1])),
        d[1] == 201 && d.len() >= 8 + 24 * (d[0] - 128) ==> ({
            let rr = ReceiverReportView::of_wire(d)->Ok_0;
            &&& ReceiverReportView::of_wire(d) is Ok
            &&& rr.ssrc == 16777216 * d[4] + 65536 * d[5] + 256 * d[6] + d[7]
            &&& rr.report_blocks.len() == d[0] - 128
            &&& forall|i: int|
                0 <= i < d[0] - 128 ==> #[trigger] rr.report_blocks[i] == ReportBlock::at(
                    d,
                    8 + 24 * i,
                )
        }),
{
    lemma_header_read(d);
    if d.len() >= 8 {
        crate::text_laws::lemma_network_order(0, 0, d, 4);
    }
    if d.len() >= 28 {
        crate::text_laws::lemma_network_order(0, 0, d, 8);
        crate::text_laws::lemma_network_order(0, 0, d, 12);
        crate::text_laws::lemma_network_order(0, 0, d, 16);
        crate::text_laws::lemma_network_order(0, 0, d, 20);
        crate::text_laws::lemma_network_order(0, 0, d, 24);
    }
    assert(d[0] % 32 == d[0] - 128);
    if d.len() >= 4 && 200 <= d[1] <= 206 {
        let h = RtcpHeader::of_wire(d)->Ok_0;
        assert(h.count == d[0] - 128);
        lemma_packet_types(d[1]);
    }
}

/// The item types of a source description, 0 to 8 in their order.
pub proof fn lemma_item_types()
    ensures
        SdesType::End.number() == 0,
        SdesType::CName.number() == 1,
        SdesType::Name.number() == 2,
        SdesType::Email.number() == 3,
        SdesType::Phone.number() == 4,
        SdesType::Location.number() == 5,
        SdesType::Tool.number() == 6,
        SdesType::Note.number() == 7,
        SdesType::Private.number() == 8,
{
}

/// A chunk with one item: the source, the type, the length of the text, the text, a zero, and
/// zeros up to a whole word.
pub proof fn lemma_chunk_bytes(c: SdesChunk)
    requires
        c.items@.len() == 1,
        encode_utf8(c.items@[0].value@).len() < 256,
    ensures
        ({
            let n = encode_utf8(c.items@[0].value@).len() as int;
            &&& c.wire().len() % 4 == 0
            &&& 7 + n <= c.wire().len() < 11 + n
            &&& c.wire().take(4) == be32(c.ssrc)
            &&& c.wire()[4] == c.items@[0].item_type.number()
            &&& c.wire()[5] == n
            &&& c.wire().subrange(6, 6 + n) == encode_utf8(c.items@[0].value@)
            &&& forall|i: int| 6 + n <= i < c.wire().len() ==> #[trigger] c.wire()[i] == 0
        }),
{
    broadcast use crate::buf::group_be_len;

    let item = c.items@[0];
    let text = encode_utf8(item.value@);
    let n = text.len() as int;
    let enc = crate::rtcp::sdes::item_wire();
    assert(c.items@.drop_last() =~= Seq::<SdesItem>::empty());
    assert(flat(c.items@, enc) == flat(c.items@.drop_last(), enc) + enc(c.items@.last()));
    assert(flat(c.items@, enc) =~= seq![item.item_type.number()] + counted_text(item.value@));
    assert(counted_text(item.value@) =~= seq![n as u8] + text);
    let body = c.body();
    assert(body.len() == 7 + n);
    assert(pad4(body.len() as int) == (4 - (7 + n) % 4) % 4);
    assert(c.wire().take(4) =~= be32(c.ssrc));
    assert(c.wire().subrange(6, 6 + n) =~= text);
}

/// A chunk without items is its source and a word of zeros.
pub proof fn lemma_empty_chunk(c: SdesChunk)
    requires
        c.items@.len() == 0,
    ensures
        c.wire() == be32(c.ssrc) + seq![0u8, 0, 0, 0],
{
    broadcast use crate::buf::group_be_len;

    assert(c.body().len() == 5);
    assert(c.wire() =~= be32(c.ssrc) + seq![0u8, 0, 0, 0]);
}

/// A source description: type 202, the number of chunks, the words of the chunks, and the chunks.
pub proof fn lemma_description_bytes(d: SourceDescription)
    requires
        d.chunks@.len() == 1,
        d.chunks@[0].wire().len() < 262144,
        d.chunks@[0].wire().len() % 4 == 0,
    ensures
        d.header().version == 2,
        !d.header().padding,
        d.header().packet_type == RtcpType::SourceDescription,
        d.header().count == 1,
        4 * d.header().length == d.chunks@[0].wire().len(),
        d.wire() == d.header().wire() + d.chunks@[0].wire(),
{
    let enc = crate::rtcp::sdes::chunk_wire();
    assert(d.chunks@.drop_last() =~= Seq::<SdesChunk>::empty());
    assert(flat(d.chunks@, enc) == flat(d.chunks@.drop_last(), enc) + enc(d.chunks@.last()));
    assert(d.content() =~= d.chunks@[0].wire());
}

/// A goodbye: type 203, the sources that leave, the reason with its length in front, and zeros up
/// to a whole word. Without a reason nothing follows the sources.
pub proof fn lemma_goodbye_bytes(bye: Goodbye)
    requires
        bye.ssrcs@.len() == 1,
        bye.reason is Some ==> encode_utf8(bye.reason->0@).len() < 256,
    ensures
        bye.header().version == 2,
        !bye.header().padding,
        bye.header().packet_type == RtcpType::Goodbye,
        bye.header().count == 1,
        bye.wire() == bye.header().wire() + bye.content(),
        bye.content().take(4) == be32(bye.ssrcs@[0]),
        bye.reason is None ==> bye.content().len() == 4 && bye.header().length == 1,
        bye.reason is Some ==> ({
            let n = encode_utf8(bye.reason->0@).len() as int;
            &&& bye.content().len() % 4 == 0
            &&& 5 + n <= bye.content().len() < 9 + n
            &&& 4 * bye.header().length == bye.content().len()
            &&& bye.content()[4] == n
            &&& bye.content().subrange(5, 5 + n) == encode_utf8(bye.reason->0@)
            &&& forall|i: int| 5 + n <= i < bye.content().len() ==> #[trigger] bye.content()[i] == 0
        }),
{
    lemma_one_source(bye);
    if bye.reason is Some {
        lemma_reason_bytes(bye.reason->0@, be32(bye.ssrcs@[0]));
        let n = encode_utf8(bye.reason->0@).len() as int;
        assert(bye.content().len() < 262144);
    } else {
        assert(bye.reason_wire().len() == 0);
        assert(pad4(0) == 0);
        assert(bye.content().len() == 4);
    }
}

/// The content of a goodbye begins with its one source.
proof fn lemma_one_source(bye: Goodbye)
    requires
        bye.ssrcs@.len() == 1,
    ensures
        be32(bye.ssrcs@[0]).len() == 4,
        bye.content() == be32(bye.ssrcs@[0]) + bye.reason_wire() + zeros(
            pad4(bye.reason_wire().len() as int),
        ),
        bye.content().take(4) == be32(bye.ssrcs@[0]),
{
    broadcast use crate::buf::group_be_len;

    let enc = crate::rtcp::sdes::ssrc_wire();
    assert(bye.ssrcs@.drop_last() =~= Seq::<u32>::empty());
    assert(flat(bye.ssrcs@, enc) == flat(bye.ssrcs@.drop_last(), enc) + enc(bye.ssrcs@.last()));
    assert(flat(bye.ssrcs@, enc) =~= be32(bye.ssrcs@[0]));
    assert(bye.content().take(4) =~= be32(bye.ssrcs@[0]));
}

/// A text behind a word: its length, its bytes, and zeros up to a whole word.
proof fn lemma_reason_bytes(text: Seq<char>, word: Seq<u8>)
    requires
        word.len() == 4,
        encode_utf8(text).len() < 256,
    ensures
        ({
            let n = encode_utf8(text).len() as int;
            let c = word + counted_text(text) + zeros(pad4(counted_text(text).len() as int));
            &&& c.len() % 4 == 0
            &&& 5 + n <= c.len() < 9 + n
            &&& c[4] == n
            &&& c.subrange(5, 5 + n) == encode_utf8(text)
            &&& forall|i: int| 5 + n <= i < c.len() ==> #[trigger] c[i] == 0
        }),
{
    let bytes = encode_utf8(text);
    let n = bytes.len() as int;
    let counted = counted_text(text);
    assert(counted =~= seq![n as u8] + bytes);
    let k = pad4(n + 1);
    assert((n + 1 + k) % 4 == 0 && k < 4);
    let c = word + counted + zeros(k);
    assert(c.subrange(5, 5 + n) =~= bytes);
}

/// Padding fills up to a whole word, with less than a word, and with zeros.
pub proof fn lemma_padding(n: int, k: nat, i: int)
    requires
        0 <= n,
        0 <= i < k,
    ensures
        (n + pad4(n)) % 4 == 0,
        pad4(n) < 4,
        zeros(k).len() == k,
        zeros(k)[i] == 0,
{
}

/// A request for what was lost: type 205, format 1, two words and one for each entry; then the
/// source that asks and the source that is asked. An entry is a sequence number and a mask.
pub proof fn lemma_nack_bytes(n: NackView, e: NackEntry)
    requires
        n.nacks.len() < 65534,
    ensures
        n.header().version == 2,
        !n.header().padding,
        n.header().count == 1,
        n.header().packet_type == RtcpType::TransportFeedback,
        n.header().length == 2 + n.nacks.len(),
        n.head().len() == 12,
        n.head().take(4) == n.header().wire(),
        n.head().subrange(4, 8) == be32(n.sender_ssrc),
        n.head().subrange(8, 12) == be32(n.media_ssrc),
        n.wire().take(12) == n.head(),
        n.nacks.len() == 1 ==> n.wire() == n.head() + be16(n.nacks[0].pid) + be16(n.nacks[0].blp),
        e.wire() == be16(e.pid) + be16(e.blp),
{
    broadcast use crate::buf::group_be_len;

    assert(n.head().take(4) =~= n.header().wire());
    assert(n.head().subrange(4, 8) =~= be32(n.sender_ssrc));
    assert(n.head().subrange(8, 12) =~= be32(n.media_ssrc));
    assert(n.wire().take(12) =~= n.head());
    if n.nacks.len() == 1 {
        let enc = crate::rtcp::nack::entry_wire();
        assert(n.nacks.drop_last() =~= Seq::<NackEntry>::empty());
        assert(flat(n.nacks, enc) == flat(n.nacks.drop_last(), enc) + enc(n.nacks.last()));
        assert(n.wire() =~= n.head() + be16(n.nacks[0].pid) + be16(n.nacks[0].blp));
    }
}

/// How such a request is read and refused.
pub proof fn lemma_nack_read(d: Seq<u8>)
    requires
        4 <= d.len() <= usize::MAX,
        128 <= d[0] < 160,
        200 <= d[1] <= 206,
    ensures
        d[1] != 205 || d[0] != 129 ==> NackView::of_wire(d) == Err::<NackView, RtcpParseError>(
            RtcpParseError::UnknownPacketType(d[1]),
        ),
        d[1] == 205 && d[0] == 129 && d.len() < 12 ==> NackView::of_wire(d) == Err::<
            NackView,
            RtcpParseError,
        >(RtcpParseError::TooShort((d.len() - 4) as usize)),
        d[1] == 205 && d[0] == 129 && d.len() >= 12 ==> ({
            let n = NackView::of_wire(d)->Ok_0;
            &&& NackView::of_wire(d) is Ok
            &&& n.sender_ssrc == 16777216 * d[4] + 65536 * d[5] + 256 * d[6] + d[7]
            &&& n.media_ssrc == 16777216 * d[8] + 65536 * d[9] + 256 * d[10] + d[11]
            &&& n.nacks.len() == (d.len() - 12) / 4
        }),
{
    lemma_header_read(d);
    lemma_packet_types(d[1]);
    if d.len() >= 12 {
        crate::text_laws::lemma_network_order(0, 0, d, 4);
        crate::text_laws::lemma_network_order(0, 0, d, 8);
    }
}

/// The entries are read one after the other, four bytes each.
pub proof fn lemma_entries_read(d: Seq<u8>, start: int, n: nat, i: int)
    requires
        0 <= start,
        0 <= i < n,
        start + 4 * n <= d.len(),
    ensures
        entries_at(d, start, n).len() == n,
        entries_at(d, start, n)[i].pid == 256 * d[start + 4 * i] + d[start + 4 * i + 1],
        entries_at(d, start, n)[i].blp == 256 * d[start + 4 * i + 2] + d[start + 4 * i + 3],
{
    let at = start + 4 * i;
    let e = d.subrange(at, at + 4) + d.subrange(at, at + 4);
    crate::text_laws::lemma_network_order(0, 0, d, at);
    crate::text_laws::lemma_network_order(0, 0, e, 2);
    assert(e[2] == d[at + 2] && e[3] == d[at + 3]);
}

/// Bit `i` of the mask stands for the sequence number `i + 1` behind the entry's own, round the
/// circle of 65536.
pub proof fn lemma_mask_meaning(pid: u16, seq: u16, i: int)
    requires
        0 <= i < 16,
    ensures
        gap(pid, seq) == i <==> seq == (pid + 1 + i) % 65536,
        after(pid, i + 1) == (pid + 1 + i) % 65536,
        bit(1, i) <==> i == 0,
        bit(0x8000, i) <==> i == 15,
        !bit(0, i),
        bit(0xffff, i),
{
    let k = i as u16;
    assert(((1u16 >> k) & 1 == 1) <==> k == 0) by (bit_vector)
        requires
            k < 16,
    ;
    assert(((0x8000u16 >> k) & 1 == 1) <==> k == 15) by (bit_vector)
        requires
            k < 16,
    ;
    assert((0u16 >> k) & 1 == 0) by (bit_vector)
        requires
            k < 16,
    ;
    assert((0xffffu16 >> k) & 1 == 1) by (bit_vector)
        requires
            k < 16,
    ;
}

/// The formats of payload feedback: 1 to 7 in their order, and 15.
pub proof fn lemma_feedback_formats(kind: PayloadFeedbackType, length: int)
    requires
        0 <= length < 65536,
    ensures
        PayloadFeedbackType::Pli.number() == 1,
        PayloadFeedbackType::Sli.number() == 2,
        PayloadFeedbackType::Rpsi.number() == 3,
        PayloadFeedbackType::Fir.number() == 4,
        PayloadFeedbackType::Tstr.number() == 5,
        PayloadFeedbackType::Tstn.number() == 6,
        PayloadFeedbackType::Vbcm.number() == 7,
        PayloadFeedbackType::Afb.number() == 15,
        kind.header(length).version == 2,
        !kind.header(length).padding,
        kind.header(length).count == kind.number(),
        kind.header(length).packet_type == RtcpType::PayloadFeedback,
        kind.header(length).length == length,
{
}

/// A request for a picture: format 1, two words, the source that asks and the one that is asked.
pub proof fn lemma_pli_bytes(pli: Pli)
    ensures
        pli.wire().len() == 12,
        pli.wire()[0] == 0x81,
        pli.wire()[1] == 206,
        pli.wire()[2] == 0,
        pli.wire()[3] == 2,
        pli.wire().subrange(4, 8) == be32(pli.sender_ssrc),
        pli.wire().subrange(8, 12) == be32(pli.media_ssrc),
{
    broadcast use crate::buf::group_be_len;

    let h = PayloadFeedbackType::Pli.header(2);
    lemma_header_bytes(h);
    assert(pli.wire().take(4) =~= h.wire());
    assert(pli.wire()[0] == h.wire()[0]);
    assert(pli.wire()[1] == h.wire()[1]);
    assert(pli.wire()[2] == h.wire()[2]);
    assert(pli.wire()[3] == h.wire()[3]);
    assert(pli.wire().subrange(4, 8) =~= be32(pli.sender_ssrc));
    assert(pli.wire().subrange(8, 12) =~= be32(pli.media_ssrc));
}

/// A request for an intra picture: format 4, two words and two for each entry; an entry is the
/// source, its number and three zeros.
pub proof fn lemma_fir_bytes(fir: FirView, e: FirEntry, d: Seq<u8>, i: int)
    requires
        fir.entries.len() < 30000,
        0 <= i,
        i + 8 <= d.len(),
    ensures
        fir.head().len() == 12,
        fir.head()[0] == 0x84,
        fir.head()[1] == 206,
        256 * fir.head()[2] + fir.head()[3] == 2 + 2 * fir.entries.len(),
        fir.head().subrange(4, 8) == be32(fir.sender_ssrc),
        fir.head().subrange(8, 12) == be32(fir.media_ssrc),
        fir.entries.len() == 1 ==> fir.wire() == fir.head() + fir.entries[0].wire(),
        e.wire() == be32(e.ssrc) + seq![e.seq_nr, 0, 0, 0],
        FirEntry::at(d, i).ssrc == 16777216 * d[i] + 65536 * d[i + 1] + 256 * d[i + 2] + d[i + 3],
        FirEntry::at(d, i).seq_nr == d[i + 4],
{
    broadcast use crate::buf::group_be_len;

    let h = PayloadFeedbackType::Fir.header(2 + fir.entries.len() as int * 2);
    lemma_header_bytes(h);
    assert(fir.head()[0] == h.wire()[0]);
    assert(fir.head()[1] == h.wire()[1]);
    assert(fir.head()[2] == h.wire()[2]);
    assert(fir.head()[3] == h.wire()[3]);
    assert(fir.head().subrange(4, 8) =~= be32(fir.sender_ssrc));
    assert(fir.head().subrange(8, 12) =~= be32(fir.media_ssrc));
    crate::text_laws::lemma_network_order(0, 0, d, i);
    if fir.entries.len() == 1 {
        let enc = crate::rtcp::payload::fir_entry_wire();
        assert(fir.entries.drop_last() =~= Seq::<FirEntry>::empty());
        assert(flat(fir.entries, enc) == flat(fir.entries.drop_last(), enc) + enc(
            fir.entries.last(),
        ));
        assert(fir.wire() =~= fir.head() + fir.entries[0].wire());
    }
}

/// A bitrate is sent as 18 bits and a power of two: it is halved, and no more often than needed.
pub proof fn lemma_bitrate_halved(bitrate: int)
    requires
        bitrate >= 0,
    ensures
        bitrate < 262144 ==> mantissa(bitrate) == bitrate && exponent(bitrate) == 0,
        bitrate >= 262144 ==> mantissa(bitrate) == mantissa(bitrate / 2) && exponent(bitrate) == 1
            + exponent(bitrate / 2),
        0 <= mantissa(bitrate) < 262144,
        bitrate >= 262144 ==> mantissa(bitrate) >= 131072,
    decreases bitrate,
{
    if bitrate >= 262144 {
        lemma_bitrate_halved(bitrate / 2);
    }
}

/// A bitrate estimate: format 15, four words and one for each source; then the letters `REMB`, the
/// number of sources, the exponent in six bits and the mantissa in eighteen. At most 255 sources
/// are sent.
pub proof fn lemma_remb_bytes(r: RembView)
    requires
        exponent(r.bitrate as int) < 64,
    ensures
        r.ssrcs.len() <= 255 ==> r.sent() == r.ssrcs.len(),
        r.ssrcs.len() > 255 ==> r.sent() == 255,
        r.head().len() == 12,
        r.head()[0] == 0x8f,
        r.head()[1] == 206,
        256 * r.head()[2] + r.head()[3] == 4 + r.sent(),
        r.head().subrange(4, 8) == be32(r.sender_ssrc),
        r.head().subrange(8, 12) == be32(r.media_ssrc),
        r.estimate().len() == 8,
        r.estimate()[0] == 0x52,
        r.estimate()[1] == 0x45,
        r.estimate()[2] == 0x4d,
        r.estimate()[3] == 0x42,
        r.estimate()[4] == r.sent(),
        r.estimate()[5] / 4 == exponent(r.bitrate as int),
        65536 * (r.estimate()[5] % 4) + 256 * r.estimate()[6] + r.estimate()[7] == mantissa(
            r.bitrate as int,
        ),
        r.ssrcs.len() == 0 ==> r.wire() == r.head() + r.estimate(),
        r.ssrcs.len() == 1 ==> r.wire() == r.head() + r.estimate() + be32(r.ssrcs[0]),
{
    broadcast use crate::buf::group_be_len;

    let h = PayloadFeedbackType::Afb.header(4 + r.sent());
    lemma_header_bytes(h);
    assert(r.head()[0] == h.wire()[0]);
    assert(r.head()[1] == h.wire()[1]);
    assert(r.head()[2] == h.wire()[2]);
    assert(r.head()[3] == h.wire()[3]);
    assert(r.head().subrange(4, 8) =~= be32(r.sender_ssrc));
    assert(r.head().subrange(8, 12) =~= be32(r.media_ssrc));
    let m = mantissa(r.bitrate as int);
    lemma_bitrate_halved(r.bitrate as int);
    crate::text_laws::lemma_network_order(
        (m % 0x1_0000) as u16,
        0,
        seq![0u8, 0, 0, 0],
        0,
    );
    assert(unique_id().len() == 4);
    assert(r.estimate()[6] == be16((m % 0x1_0000) as u16)[0]);
    assert(r.estimate()[7] == be16((m % 0x1_0000) as u16)[1]);
    let enc = crate::rtcp::sdes::ssrc_wire();
    if r.ssrcs.len() == 0 {
        assert(r.wire() =~= r.head() + r.estimate());
    }
    if r.ssrcs.len() == 1 {
        assert(r.ssrcs.take(1) =~= r.ssrcs);
        assert(r.ssrcs.drop_last() =~= Seq::<u32>::empty());
        assert(flat(r.ssrcs, enc) == flat(r.ssrcs.drop_last(), enc) + enc(r.ssrcs.last()));
        assert(r.wire() =~= r.head() + r.estimate() + be32(r.ssrcs[0]));
    }
}

/// How payload feedback is read and refused: the type, the format, the least number of bytes, and
/// for an estimate the four letters.
pub proof fn lemma_feedback_read(d: Seq<u8>)
    requires
        4 <= d.len() <= usize::MAX,
        128 <= d[0] < 160,
        200 <= d[1] <= 206,
    ensures
        d[1] != 206 || d[0] != 129 ==> Pli::of_wire(d) == Err::<Pli, RtcpParseError>(
            RtcpParseError::UnknownPacketType(d[1]),
        ),
        d[1] == 206 && d[0] == 129 && d.len() < 12 ==> Pli::of_wire(d) == Err::<
            Pli,
            RtcpParseError,
        >(RtcpParseError::TooShort((d.len() - 4) as usize)),
        d[1] == 206 && d[0] == 129 && d.len() >= 12 ==> Pli::of_wire(d) is Ok && Pli::of_wire(
            d,
        )->Ok_0.sender_ssrc == 16777216 * d[4] + 65536 * d[5] + 256 * d[6] + d[7] && Pli::of_wire(
            d,
        )->Ok_0.media_ssrc == 16777216 * d[8] + 65536 * d[9] + 256 * d[10] + d[11],
        d[1] != 206 || d[0] != 132 ==> FirView::of_wire(d) == Err::<FirView, RtcpParseError>(
            RtcpParseError::UnknownPacketType(d[1]),
        ),
        d[1] == 206 && d[0] == 132 && d.len() < 12 ==> FirView::of_wire(d) == Err::<
            FirView,
            RtcpParseError,
        >(RtcpParseError::TooShort((d.len() - 4) as usize)),
        d[1] == 206 && d[0] == 132 && d.len() >= 12 ==> ({
            let f = FirView::of_wire(d)->Ok_0;
            &&& FirView::of_wire(d) is Ok
            &&& f.sender_ssrc == 16777216 * d[4] + 65536 * d[5] + 256 * d[6] + d[7]
            &&& f.media_ssrc == 16777216 * d[8] + 65536 * d[9] + 256 * d[10] + d[11]
            &&& f.entries.len() == (d.len() - 12) / 8
            &&& forall|i: int|
                0 <= i < f.entries.len() ==> #[trigger] f.entries[i] == FirEntry::at(d, 12 + 8 * i)
        }),
        d[1] != 206 || d[0] != 143 ==> RembView::of_wire(d) == Err::<RembView, RtcpParseError>(
            RtcpParseError::UnknownPacketType(d[1]),
        ),
        d[1] == 206 && d[0] == 143 && d.len() < 20 ==> RembView::of_wire(d) == Err::<
            RembView,
            RtcpParseError,
        >(RtcpParseError::TooShort((d.len() - 4) as usize)),
        d[1] == 206 && d[0] == 143 && d.len() >= 20 ==> (RembView::of_wire(d) is Ok <==> d[12]
            == 0x52 && d[13] == 0x45 && d[14] == 0x4d && d[15] == 0x42),
        d[1] == 206 && d[0] == 143 && d.len() >= 20 && RembView::of_wire(d) is Err
            ==> RembView::of_wire(d) == Err::<RembView, RtcpParseError>(
            RtcpParseError::UnknownPacketType(206),
        ),
        d[1] == 206 && d[0] == 143 && d.len() >= 20 && RembView::of_wire(d) is Ok ==> ({
            let r = RembView::of_wire(d)->Ok_0;
            &&& r.sender_ssrc == 16777216 * d[4] + 65536 * d[5] + 256 * d[6] + d[7]
            &&& r.media_ssrc == 16777216 * d[8] + 65536 * d[9] + 256 * d[10] + d[11]
            &&& d[16] <= (d.len() - 20) / 4 ==> r.ssrcs.len() == d[16]
            &&& d[16] > (d.len() - 20) / 4 ==> r.ssrcs.len() == (d.len() - 20) / 4
        }),
{
    lemma_header_read(d);
    lemma_packet_types(d[1]);
    if d.len() >= 12 {
        crate::text_laws::lemma_network_order(0, 0, d, 4);
        crate::text_laws::lemma_network_order(0, 0, d, 8);
    }
    if d.len() >= 20 {
        let id = d.subrange(12, 16);
        assert(id[0] == d[12] && id[1] == d[13] && id[2] == d[14] && id[3] == d[15]);
        if d[12] == 0x52 && d[13] == 0x45 && d[14] == 0x4d && d[15] == 0x42 {
            assert(id =~= unique_id());
        }
        if id == unique_id() {
            assert(unique_id()[0] == 0x52 && unique_id()[1] == 0x45 && unique_id()[2] == 0x4d
                && unique_id()[3] == 0x42);
        }
    }
}

/// The bitrate that is read: the eighteen bits, doubled as often as the six bits say.
pub proof fn lemma_bitrate_read(d: Seq<u8>)
    requires
        RembView::of_wire(d) is Ok,
    ensures
        RembView::of_wire(d)->Ok_0.bitrate == ((65536 * (d[17] % 4) + 256 * d[18]
            + d[19]) as u64) << ((d[17] / 4) as u64),
{
}

/// The sources and the blocks are read one after the other.
pub proof fn lemma_lists_read(d: Seq<u8>, start: int, n: nat, i: int)
    requires
        0 <= start,
        0 <= i < n,
        start + 4 * n <= d.len(),
    ensures
        ssrcs_at(d, start, n).len() == n,
        ssrcs_at(d, start, n)[i] == 16777216 * d[start + 4 * i] + 65536 * d[start + 4 * i + 1] + 256
            * d[start + 4 * i + 2] + d[start + 4 * i + 3],
        blocks_at(d, start, n).len() == n,
        blocks_at(d, start, n)[i] == ReportBlock::at(d, start + 24 * i),
{
    crate::text_laws::lemma_network_order(0, 0, d, start + 4 * i);
}

/// A description that names a source has one chunk, for that source, with one item: its canonical
/// name.
pub proof fn lemma_canonical_name(d: SourceDescription, ssrc: u32, cname: Seq<char>)
    ensures
        names(d, ssrc, cname) <==> d.chunks@.len() == 1 && d.chunks@[0].ssrc == ssrc
            && d.chunks@[0].items@.len() == 1 && d.chunks@[0].items@[0].item_type.number() == 1
            && d.chunks@[0].items@[0].value@ == cname,
{
}

/// Each kind of packet has the header of its kind; payload feedback counts its words.
pub proof fn lemma_packet_headers(p: RtcpPacket)
    ensures
        p is SenderReport ==> p.header() == p->SenderReport_0@.header(),
        p is ReceiverReport ==> p.header() == p->ReceiverReport_0@.header(),
        p is SourceDescription ==> p.header() == p->SourceDescription_0.header(),
        p is Goodbye ==> p.header() == p->Goodbye_0.header(),
        p is Nack ==> p.header() == p->Nack_0@.header(),
        p is Pli ==> p.header().count == 1 && p.header().length == 2,
        p is Fir && p->Fir_0@.entries.len() < 30000 ==> p.header().count == 4 && p.header().length
            == 2 + 2 * p->Fir_0@.entries.len(),
        p is Remb ==> p.header().count == 15 && p.header().length == 4 + p->Remb_0@.sent(),
        p is Pli || p is Fir || p is Remb ==> p.header().packet_type == RtcpType::PayloadFeedback
            && p.header().version == 2 && !p.header().padding,
{
}

/// Of a version only two bits are written, of a count only five.
pub proof fn lemma_first_byte_masked(version: u8, padding: bool, count: u8)
    ensures
        first_byte(version, padding, count) == 64 * (version % 4) + (if padding {
            32int
        } else {
            0
        }) + count % 32,
{
}

/// Bytes start with a header if its four bytes come first.
pub proof fn lemma_starts_with(w: Seq<u8>, h: RtcpHeader, rest: Seq<u8>)
    ensures
        starts_with(h.wire() + rest, h),
        starts_with(w, h) <==> w.take(4) == h.wire(),
{
    broadcast use crate::buf::group_be_len;

    assert((h.wire() + rest).take(4) =~= h.wire());
}

/// A number is converted to a packet type as the table of types says.
pub proof fn lemma_type_conversion(n: u8)
    ensures
        <RtcpType as vstd::std_specs::convert::TryFromSpec<u8>>::obeys_try_from_spec(),
        <RtcpType as vstd::std_specs::convert::TryFromSpec<u8>>::try_from_spec(n) == RtcpType::of_number(n),
{
}

} // verus!
