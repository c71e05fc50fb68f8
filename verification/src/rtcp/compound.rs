//! Compound packets.

use super::header::RtcpHeader;
use super::nack::{entry_wire, Nack, NackView};
use super::payload::{fir_entry_wire, Fir, FirView, PayloadFeedbackType, Pli, Remb, RembView};
use super::report::{
    block_wire, count_field, sent, ReceiverReport, ReceiverReportView, SenderReport,
    SenderReportView,
};
use super::sdes::{
    lemma_chunks_aligned, lemma_flat_prefix_len, ssrc_wire, Goodbye, SdesType, SourceDescription,
};
use crate::buf::{
    be16, bytes_as_slice, fits, flat, freeze, frozen, lemma_be16_read, lemma_flat_len,
    lemma_flat_push, new_buffer, put_slice, u16_at, written,
};
use bytes::{Bytes, BytesMut};
use vstd::prelude::*;

verus! {

broadcast use crate::buf::group_be_len;

/// Individual RTCP packet types.
#[derive(Debug, Clone)]
pub enum RtcpPacket {
    SenderReport(SenderReport),
    ReceiverReport(ReceiverReport),
    SourceDescription(SourceDescription),
    Goodbye(Goodbye),
    /// Generic NACK feedback.
    Nack(Nack),
    /// Picture Loss Indication.
    Pli(Pli),
    /// Full Intra Request.
    Fir(Fir),
    /// Receiver Estimated Maximum Bitrate.
    Remb(Remb),
}

impl RtcpPacket {
    /// The packet as bytes.
    pub open spec fn wire(self) -> Seq<u8> {
        match self {
            RtcpPacket::SenderReport(sr) => sr@.wire(),
            RtcpPacket::ReceiverReport(rr) => rr@.wire(),
            RtcpPacket::SourceDescription(sdes) => sdes.wire(),
            RtcpPacket::Goodbye(bye) => bye.wire(),
            RtcpPacket::Nack(nack) => nack@.wire(),
            RtcpPacket::Pli(pli) => pli.wire(),
            RtcpPacket::Fir(fir) => fir@.wire(),
            RtcpPacket::Remb(remb) => remb@.wire(),
        }
    }

    /// Build to bytes.
    pub fn build(&self) -> (r: Bytes)
        requires
            fits(self.wire().len()),
        ensures
            frozen(r) == self.wire(),
    {
        match self {
            RtcpPacket::SenderReport(sr) => sr.build(),
            RtcpPacket::ReceiverReport(rr) => rr.build(),
            RtcpPacket::SourceDescription(sdes) => sdes.build(),
            RtcpPacket::Goodbye(bye) => bye.build(),
            RtcpPacket::Nack(nack) => {
                proof {
                    lemma_nack_len(nack@);
                }
                nack.build()
            },
            RtcpPacket::Pli(pli) => pli.build(),
            RtcpPacket::Fir(fir) => {
                proof {
                    lemma_fir_len(fir@);
                }
                fir.build()
            },
            RtcpPacket::Remb(remb) => remb.build(),
        }
    }

    /// The packet's header.
    pub open spec fn header(self) -> RtcpHeader {
        match self {
            RtcpPacket::SenderReport(sr) => sr@.header(),
            RtcpPacket::ReceiverReport(rr) => rr@.header(),
            RtcpPacket::SourceDescription(sdes) => sdes.header(),
            RtcpPacket::Goodbye(bye) => bye.header(),
            RtcpPacket::Nack(nack) => nack@.header(),
            RtcpPacket::Pli(pli) => PayloadFeedbackType::Pli.header(2),
            RtcpPacket::Fir(fir) => PayloadFeedbackType::Fir.header(
                2 + fir@.entries.len() as int * 2,
            ),
            RtcpPacket::Remb(remb) => PayloadFeedbackType::Afb.header(4 + remb@.sent()),
        }
    }

    /// Whether the length field can say how long the packet is.
    pub open spec fn countable(self) -> bool {
        self.wire().len() <= 4 * 0x1_0000
    }
}

proof fn lemma_sender_report_len(sr: SenderReportView)
    ensures
        sr.wire().len() == 28 + 24 * count_field(sr.report_blocks.len()),
        starts_with(sr.wire(), sr.header()),
{
    lemma_flat_len(sent(sr.report_blocks), block_wire(), 24);
    lemma_prefix(sr.header(), sr.wire());
}

proof fn lemma_receiver_report_len(rr: ReceiverReportView)
    ensures
        rr.wire().len() == 8 + 24 * count_field(rr.report_blocks.len()),
        starts_with(rr.wire(), rr.header()),
{
    lemma_flat_len(sent(rr.report_blocks), block_wire(), 24);
    lemma_prefix(rr.header(), rr.wire());
}

proof fn lemma_sdes_len(sdes: SourceDescription)
    ensures
        sdes.wire().len() == 4 + sdes.content().len(),
        starts_with(sdes.wire(), sdes.header()),
{
    lemma_prefix(sdes.header(), sdes.wire());
}

proof fn lemma_goodbye_len(bye: Goodbye)
    ensures
        bye.wire().len() == 4 + bye.content().len(),
        starts_with(bye.wire(), bye.header()),
{
    lemma_prefix(bye.header(), bye.wire());
}

proof fn lemma_nack_len(nack: NackView)
    ensures
        nack.wire().len() == 12 + 4 * nack.nacks.len(),
        starts_with(nack.wire(), nack.header()),
{
    lemma_flat_len(nack.nacks, entry_wire(), 4);
    lemma_prefix(nack.header(), nack.wire());
}

proof fn lemma_pli_len(pli: Pli)
    ensures
        pli.wire().len() == 12,
        starts_with(pli.wire(), PayloadFeedbackType::Pli.header(2)),
{
    lemma_prefix(PayloadFeedbackType::Pli.header(2), pli.wire());
}

proof fn lemma_fir_len(fir: FirView)
    ensures
        fir.wire().len() == 12 + 8 * fir.entries.len(),
        starts_with(fir.wire(), PayloadFeedbackType::Fir.header(2 + fir.entries.len() as int * 2)),
{
    lemma_flat_len(fir.entries, fir_entry_wire(), 8);
    lemma_prefix(PayloadFeedbackType::Fir.header(2 + fir.entries.len() as int * 2), fir.wire());
}

proof fn lemma_remb_len(remb: RembView)
    ensures
        remb.wire().len() == 20 + 4 * remb.sent(),
        starts_with(remb.wire(), PayloadFeedbackType::Afb.header(4 + remb.sent())),
{
    lemma_flat_len(remb.ssrcs.take(remb.sent()), ssrc_wire(), 4);
    lemma_prefix(PayloadFeedbackType::Afb.header(4 + remb.sent()), remb.wire());
}

proof fn lemma_goodbye_aligned(bye: Goodbye)
    ensures
        bye.content().len() % 4 == 0,
{
    lemma_flat_len(bye.ssrcs@, ssrc_wire(), 4);
}

/// A packet of whole words that starts with its header, whose length field counts them.
#[verifier::opaque]
spec fn measured(p: RtcpPacket) -> bool {
    &&& p.wire().len() >= 4
    &&& p.wire().len() % 4 == 0
    &&& starts_with(p.wire(), p.header())
    &&& p.countable() ==> p.wire().len() == 4 * (p.header().length + 1)
}

proof fn lemma_sr_measured(sr: SenderReport)
    ensures
        measured(RtcpPacket::SenderReport(sr)),
{
    reveal(measured);
    lemma_sender_report_len(sr@);
}

proof fn lemma_rr_measured(rr: ReceiverReport)
    ensures
        measured(RtcpPacket::ReceiverReport(rr)),
{
    reveal(measured);
    lemma_receiver_report_len(rr@);
}

proof fn lemma_sdes_measured(sdes: SourceDescription)
    ensures
        measured(RtcpPacket::SourceDescription(sdes)),
{
    reveal(measured);
    lemma_sdes_len(sdes);
    lemma_chunks_aligned(sdes.chunks@);
}

proof fn lemma_bye_measured(bye: Goodbye)
    ensures
        measured(RtcpPacket::Goodbye(bye)),
{
    reveal(measured);
    lemma_goodbye_len(bye);
    lemma_goodbye_aligned(bye);
}

proof fn lemma_nack_measured(nack: Nack)
    ensures
        measured(RtcpPacket::Nack(nack)),
{
    reveal(measured);
    lemma_nack_len(nack@);
}

proof fn lemma_pli_measured(pli: Pli)
    ensures
        measured(RtcpPacket::Pli(pli)),
{
    reveal(measured);
    lemma_pli_len(pli);
}

proof fn lemma_fir_measured(fir: Fir)
    ensures
        measured(RtcpPacket::Fir(fir)),
{
    reveal(measured);
    lemma_fir_len(fir@);
}

proof fn lemma_remb_measured(remb: Remb)
    ensures
        measured(RtcpPacket::Remb(remb)),
{
    reveal(measured);
    lemma_remb_len(remb@);
}

proof fn lemma_measured(p: RtcpPacket)
    ensures
        measured(p),
{
    match p {
        RtcpPacket::SenderReport(sr) => lemma_sr_measured(sr),
        RtcpPacket::ReceiverReport(rr) => lemma_rr_measured(rr),
        RtcpPacket::SourceDescription(sdes) => lemma_sdes_measured(sdes),
        RtcpPacket::Goodbye(bye) => lemma_bye_measured(bye),
        RtcpPacket::Nack(nack) => lemma_nack_measured(nack),
        RtcpPacket::Pli(pli) => lemma_pli_measured(pli),
        RtcpPacket::Fir(fir) => lemma_fir_measured(fir),
        RtcpPacket::Remb(remb) => lemma_remb_measured(remb),
    }
}

/// Whether the packet `w` starts with the header `h`.
pub open spec fn starts_with(w: Seq<u8>, h: RtcpHeader) -> bool {
    w.take(4) == h.wire()
}

proof fn lemma_prefix(h: RtcpHeader, w: Seq<u8>)
    requires
        w.len() >= 4,
        w[0] == h.wire()[0],
        w[1] == h.wire()[1],
        w[2] == h.wire()[2],
        w[3] == h.wire()[3],
    ensures
        starts_with(w, h),
{
    assert(w.take(4) =~= h.wire());
}

/// Every packet is a whole number of 32-bit words, and its length field says how many there are
/// besides the first, as long as the field suffices. For a report it always does.
pub proof fn lemma_length_field(p: RtcpPacket)
    ensures
        p.wire().len() % 4 == 0,
        p.countable() ==> p.wire().len() == 4 * (u16_at(p.wire(), 2) + 1),
        p is SenderReport || p is ReceiverReport ==> p.countable(),
{
    match p {
        RtcpPacket::SenderReport(sr) => lemma_sender_report_len(sr@),
        RtcpPacket::ReceiverReport(rr) => lemma_receiver_report_len(rr@),
        _ => {},
    }
    lemma_measured(p);
    reveal(measured);
    let w = p.wire();
    let h = p.header();
    lemma_length_read(h, w);
}

/// What is read of the length field of a packet that starts with the header `h`.
proof fn lemma_length_read(h: RtcpHeader, w: Seq<u8>)
    requires
        w.len() >= 4,
        starts_with(w, h),
    ensures
        u16_at(w, 2) == h.length,
{
    assert(w.subrange(2, 4) =~= w.take(4).subrange(2, 4));
    assert(h.wire().subrange(2, 4) =~= be16(h.length));
    lemma_be16_read(w, 2, h.length);
}

/// RTCP compound packet (typically SR/RR + SDES).
#[derive(Debug, Clone)]
pub struct RtcpCompound {
    /// Packets in the compound.
    pub packets: Vec<RtcpPacket>,
}

/// The encoding of a packet, as a function.
pub open spec fn packet_wire() -> spec_fn(RtcpPacket) -> Seq<u8> {
    |p: RtcpPacket| p.wire()
}

/// An SDES packet that gives `ssrc` the canonical name `cname`, and nothing else.
pub open spec fn names(sdes: SourceDescription, ssrc: u32, cname: Seq<char>) -> bool {
    &&& sdes.chunks@.len() == 1
    &&& sdes.chunks@[0].ssrc == ssrc
    &&& sdes.chunks@[0].items@.len() == 1
    &&& sdes.chunks@[0].items@[0].item_type == SdesType::CName
    &&& sdes.chunks@[0].items@[0].value@ == cname
}

impl RtcpCompound {
    /// The compound as bytes: its packets, one after the other.
    pub open spec fn wire(self) -> Seq<u8> {
        flat(self.packets@, packet_wire())
    }

    /// Create a compound packet with SR and SDES.
    pub fn sender_compound(sr: SenderReport, cname: &str) -> (r: Self)
        ensures
            r.packets@.len() == 2,
            r.packets@[0] == RtcpPacket::SenderReport(sr),
            r.packets@[1] matches RtcpPacket::SourceDescription(sdes) && names(
                sdes,
                sr.ssrc,
                cname@,
            ),
    {
        let sdes = SourceDescription::with_cname(sr.ssrc, cname);
        let mut packets: Vec<RtcpPacket> = Vec::new();
        packets.push(RtcpPacket::SenderReport(sr));
        packets.push(RtcpPacket::SourceDescription(sdes));
        RtcpCompound { packets }
    }

    /// Create a compound packet with RR and SDES.
    pub fn receiver_compound(rr: ReceiverReport, cname: &str) -> (r: Self)
        ensures
            r.packets@.len() == 2,
            r.packets@[0] == RtcpPacket::ReceiverReport(rr),
            r.packets@[1] matches RtcpPacket::SourceDescription(sdes) && names(
                sdes,
                rr.ssrc,
                cname@,
            ),
    {
        let sdes = SourceDescription::with_cname(rr.ssrc, cname);
        let mut packets: Vec<RtcpPacket> = Vec::new();
        packets.push(RtcpPacket::ReceiverReport(rr));
        packets.push(RtcpPacket::SourceDescription(sdes));
        RtcpCompound { packets }
    }

    /// Build to bytes.
    pub fn build(&self) -> (r: Bytes)
        requires
            fits(self.wire().len()),
        ensures
            frozen(r) == self.wire(),
    {
        let mut buf: BytesMut = new_buffer(512);
        let mut i: usize = 0;
        assert(written(buf) =~= flat(self.packets@.take(0), packet_wire()));
        while i < self.packets.len()
            invariant
                i <= self.packets@.len(),
                fits(self.wire().len()),
                written(buf) == flat(self.packets@.take(i as int), packet_wire()),
            decreases self.packets@.len() - i,
        {
            proof {
                lemma_flat_push(self.packets@, i as int, packet_wire());
                lemma_flat_prefix_len(self.packets@, (i + 1) as int, packet_wire());
            }
            let bytes: Bytes = self.packets[i].build();
            put_slice(&mut buf, bytes_as_slice(&bytes));
            i = i + 1;
        }
        assert(self.packets@.take(i as int) =~= self.packets@);
        freeze(buf)
    }

    /// Add a NACK to the compound packet.
    pub fn add_nack(&mut self, nack: Nack)
        ensures
            final(self).packets@ == old(self).packets@.push(RtcpPacket::Nack(nack)),
    {
        self.packets.push(RtcpPacket::Nack(nack));
    }

    /// Add a PLI to the compound packet.
    pub fn add_pli(&mut self, pli: Pli)
        ensures
            final(self).packets@ == old(self).packets@.push(RtcpPacket::Pli(pli)),
    {
        self.packets.push(RtcpPacket::Pli(pli));
    }

    /// Add a FIR to the compound packet.
    pub fn add_fir(&mut self, fir: Fir)
        ensures
            final(self).packets@ == old(self).packets@.push(RtcpPacket::Fir(fir)),
    {
        self.packets.push(RtcpPacket::Fir(fir));
    }

    /// Add a REMB to the compound packet.
    pub fn add_remb(&mut self, remb: Remb)
        ensures
            final(self).packets@ == old(self).packets@.push(RtcpPacket::Remb(remb)),
    {
        self.packets.push(RtcpPacket::Remb(remb));
    }
}

} // verus!
