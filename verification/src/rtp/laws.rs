//! What an RTP packet looks like on the wire (RFC 3550), and how sequence numbers wrap.

use crate::buf::{be16, be32, flat};
use crate::rtp::packet::{sources_at, ExtensionView, PacketView, RtpParseError};
use crate::rtp::sequence::ahead;
use vstd::prelude::*;

verus! {

/// The fixed header. The first byte is the version times 64, 16 where an extension follows, and
/// the number of contributing sources; the second is 128 for the marker and the payload type.
/// Then come the sequence number, the timestamp and the source.
pub proof fn lemma_fixed_header(v: PacketView)
    requires
        v.sendable(),
    ensures
        v.head().len() == 12,
        v.head()[0] == 64 * v.version + (if v.extension_header is Some {
            16int
        } else {
            0
        }) + v.csrc.len(),
        v.head()[1] == v.payload_type + (if v.marker {
            128int
        } else {
            0
        }),
        v.head().subrange(2, 4) == be16(v.sequence_number),
        v.head().subrange(4, 8) == be32(v.timestamp),
        v.head().subrange(8, 12) == be32(v.ssrc),
        v.wire().take(12) == v.head(),
{
    broadcast use crate::buf::group_be_len;

    assert(v.head().subrange(2, 4) =~= be16(v.sequence_number));
    assert(v.head().subrange(4, 8) =~= be32(v.timestamp));
    assert(v.head().subrange(8, 12) =~= be32(v.ssrc));
    assert(v.wire().take(12) =~= v.head());
}

/// What can be sent: a version of two bits, a payload type of seven, up to fifteen contributing
/// sources, and an extension of whole words whose number fits in 16 bits.
pub proof fn lemma_sendable(v: PacketView)
    ensures
        v.sendable() <==> v.version <= 3 && v.payload_type <= 127 && v.csrc.len() <= 15 && (
        v.extension_header is Some ==> v.extension_header->0.data.len() % 4 == 0
            && v.extension_header->0.data.len() <= 262140),
{
}

/// A packet without sources and extension is its header and its payload.
pub proof fn lemma_plain_packet(v: PacketView)
    requires
        v.csrc.len() == 0,
        v.extension_header is None,
    ensures
        v.wire() == v.head() + v.payload,
{
    assert(v.wire() =~= v.head() + v.payload);
}

/// One more contributing source is four bytes behind those before it, in front of the extension;
/// the extension is its profile, the number of its words and the words.
pub proof fn lemma_between(v: PacketView, more: u32, e: ExtensionView)
    ensures
        (PacketView { csrc: v.csrc.push(more), extension_header: None, ..v }).wire() == (PacketView {
            csrc: v.csrc.push(more),
            extension_header: None,
            ..v
        }).head() + flat(v.csrc, |ssrc: u32| be32(ssrc)) + be32(more) + v.payload,
        e.data.len() / 4 <= u16::MAX ==> (PacketView {
            csrc: Seq::empty(),
            extension_header: Some(e),
            ..v
        }).wire() == (PacketView {
            csrc: Seq::empty(),
            extension_header: Some(e),
            ..v
        }).head() + be16(e.profile) + be16((e.data.len() / 4) as u16) + e.data + v.payload,
{
    let one = PacketView { csrc: v.csrc.push(more), extension_header: None, ..v };
    let enc = |ssrc: u32| be32(ssrc);
    assert(v.csrc.push(more).drop_last() =~= v.csrc);
    assert(flat(v.csrc.push(more), enc) == flat(v.csrc, enc) + be32(more));
    assert(one.wire() =~= one.head() + flat(v.csrc, enc) + be32(more) + v.payload);
    let two = PacketView { csrc: Seq::empty(), extension_header: Some(e), ..v };
    assert(two.wire() =~= two.head() + be16(e.profile) + be16((e.data.len() / 4) as u16) + e.data
        + v.payload);
}

/// What is read of a packet with neither sources, extension nor padding: each field from its
/// place, and everything behind the header as payload.
pub proof fn lemma_plain_read(d: Seq<u8>)
    requires
        d.len() >= 12,
        d[0] == 0x80,
    ensures
        PacketView::of_wire(d) is Ok,
        PacketView::of_wire(d)->Ok_0.version == 2,
        !PacketView::of_wire(d)->Ok_0.padding,
        !PacketView::of_wire(d)->Ok_0.extension,
        PacketView::of_wire(d)->Ok_0.marker == (d[1] >= 128),
        PacketView::of_wire(d)->Ok_0.payload_type == d[1] % 128,
        PacketView::of_wire(d)->Ok_0.sequence_number == 256 * d[2] + d[3],
        PacketView::of_wire(d)->Ok_0.timestamp == 16777216 * d[4] + 65536 * d[5] + 256 * d[6]
            + d[7],
        PacketView::of_wire(d)->Ok_0.ssrc == 16777216 * d[8] + 65536 * d[9] + 256 * d[10] + d[11],
        PacketView::of_wire(d)->Ok_0.csrc.len() == 0,
        PacketView::of_wire(d)->Ok_0.extension_header is None,
        PacketView::of_wire(d)->Ok_0.payload == d.skip(12),
{
    crate::text_laws::lemma_network_order(0, 0, d, 2);
    crate::text_laws::lemma_network_order(0, 0, d, 4);
    crate::text_laws::lemma_network_order(0, 0, d, 8);
    assert(d.subrange(12, d.len() as int) =~= d.skip(12));
}

/// When a packet is refused: fewer than 12 bytes, another version than 2, sources or an extension
/// that are not all there, and padding that is empty or longer than what follows the header.
/// Nothing else is refused.
pub proof fn lemma_refused(d: Seq<u8>)
    requires
        d.len() <= usize::MAX,
    ensures
        d.len() < 12 ==> PacketView::of_wire(d) == Err::<PacketView, RtpParseError>(
            RtpParseError::TooShort(d.len() as usize),
        ),
        d.len() >= 12 && !(128 <= d[0] < 192) ==> PacketView::of_wire(d) == Err::<
            PacketView,
            RtpParseError,
        >(RtpParseError::InvalidVersion((d[0] / 64) as u8)),
        d.len() >= 12 && 128 <= d[0] < 192 && d.len() < 12 + 4 * (d[0] % 16)
            ==> PacketView::of_wire(d) == Err::<PacketView, RtpParseError>(
            RtpParseError::TooShort(d.len() as usize),
        ),
        d.len() >= 12 && 128 <= d[0] < 144 && d.len() >= 12 + 4 * (d[0] % 16)
            ==> PacketView::of_wire(d) is Ok,
        d.len() >= 12 && 160 <= d[0] < 176 && d.len() >= 12 + 4 * (d[0] % 16) ==> (
        PacketView::of_wire(d) is Err <==> d[d.len() - 1] == 0 || d[d.len() - 1] > d.len() - 12 - 4
            * (d[0] % 16)),
        d.len() >= 12 && 160 <= d[0] < 176 && PacketView::of_wire(d) is Ok ==> PacketView::of_wire(
            d,
        )->Ok_0.payload == d.subrange(12 + 4 * (d[0] % 16), d.len() - d[d.len() - 1]),
        d.len() >= 12 && 128 <= d[0] < 144 && PacketView::of_wire(d) is Ok ==> PacketView::of_wire(
            d,
        )->Ok_0.payload == d.skip(12 + 4 * (d[0] % 16)),
        d.len() >= 12 && PacketView::of_wire(d) is Ok ==> PacketView::of_wire(d)->Ok_0.csrc.len()
            == d[0] % 16,
{
}

/// The extension lies behind the sources: a profile, a number of words and the words, and the
/// payload behind them.
pub proof fn lemma_extension_read(d: Seq<u8>)
    requires
        d.len() >= 16,
        d[0] == 0x90,
    ensures
        PacketView::of_wire(d) is Ok <==> d.len() >= 16 + 4 * (256 * d[14] + d[15]),
        PacketView::of_wire(d) is Ok ==> ({
            let v = PacketView::of_wire(d)->Ok_0;
            let end = 16 + 4 * (256 * d[14] + d[15]);
            &&& v.extension
            &&& v.extension_header is Some
            &&& v.extension_header->0.profile == 256 * d[12] + d[13]
            &&& v.extension_header->0.data == d.subrange(16, end)
            &&& v.payload == d.skip(end)
        }),
{
    crate::text_laws::lemma_network_order(0, 0, d, 12);
}

/// The sources are read in their order, four bytes each, from byte 12 on.
pub proof fn lemma_sources_read(d: Seq<u8>, n: int, i: int)
    requires
        0 <= i < n,
        12 + 4 * n <= d.len(),
    ensures
        sources_at(d, n).len() == n,
        sources_at(d, n)[i] == 16777216 * d[12 + 4 * i] + 65536 * d[13 + 4 * i] + 256 * d[14 + 4
            * i] + d[15 + 4 * i],
{
    crate::text_laws::lemma_network_order(0, 0, d, 12 + 4 * i);
}

/// How far one sequence number is ahead of another: the step after any number is one ahead of it,
/// 65535 wraps to 0, and half the circle or more counts as behind.
pub proof fn lemma_distance(a: u16, n: int)
    requires
        0 <= n < 65536,
    ensures
        n < 32768 ==> ahead(((a + n) % 65536) as u16, a) == n,
        n >= 32768 ==> ahead(((a + n) % 65536) as u16, a) == n - 65536,
        ahead(0, 65535) == 1,
        ahead(65535, 0) == -1,
{
}

} // verus!
