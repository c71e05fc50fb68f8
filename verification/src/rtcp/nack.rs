//! Generic NACK feedback.

use super::header::{lemma_header_round_trip, RtcpHeader, RtcpParseError, RtcpType};
use crate::buf::{
    be16, be32, fits, flat, freeze, frozen, lemma_be16_read, lemma_be32_read, lemma_flat_at,
    lemma_flat_len, lemma_flat_push, new_buffer, put_u16, put_u32, read_u16, read_u32, u16_at,
    u32_at, written,
};
use bytes::{Bytes, BytesMut};
use vstd::prelude::*;
use vstd::relations::{sorted_by, total_ordering};
use vstd::seq_lib::lemma_sorted_unique;

verus! {

broadcast use crate::buf::group_be_len;

/// Feedback Message Type (FMT) for Transport-layer Feedback (RTPFB).
#[derive(Debug, Clone, Copy, PartialEq, Eq, Structural)]
pub enum TransportFeedbackType {
    /// Generic NACK - RFC 4585
    Nack,
    /// Transport-wide Congestion Control - RFC 8888 (reserved for future)
    TransportCC,
}

impl TransportFeedbackType {
    /// The number that the count field carries for it.
    pub fn code(self) -> (n: u8)
        ensures
            n == (match self {
                TransportFeedbackType::Nack => 1u8,
                TransportFeedbackType::TransportCC => 15u8,
            }),
    {
        match self {
            TransportFeedbackType::Nack => 1,
            TransportFeedbackType::TransportCC => 15,
        }
    }
}

/// A single NACK entry (PID + BLP).
#[derive(Debug, Clone, Copy)]
pub struct NackEntry {
    /// Packet ID of the lost packet.
    pub pid: u16,
    /// Bitmask of following lost packets (bit N set = PID+N+1 is lost).
    pub blp: u16,
}

/// Whether bit `i` of a bitmask is set.
pub open spec fn bit(blp: u16, i: int) -> bool {
    (blp >> (i as u16)) & 1 == 1
}

/// How many sequence numbers lie between `pid` and a later `seq`, around the wrap.
pub open spec fn gap(pid: u16, seq: u16) -> int {
    (seq - pid - 1) % 0x1_0000
}

/// The sequence number `n` after `pid`, around the wrap.
pub open spec fn after(pid: u16, n: int) -> u16 {
    ((pid + n) % 0x1_0000) as u16
}

/// The bitmask that marks those of `seqs` that follow `pid` by at most 16.
pub open spec fn mask(pid: u16, seqs: Seq<u16>) -> u16
    decreases seqs.len(),
{
    if seqs.len() == 0 {
        0
    } else {
        let before = mask(pid, seqs.drop_last());
        let d = gap(pid, seqs.last());
        if d < 16 {
            before | (1u16 << (d as u16))
        } else {
            before
        }
    }
}

/// The sequence numbers that the first `n` bits of an entry's bitmask mark, behind its PID.
pub open spec fn marked(entry: NackEntry, n: int) -> Seq<u16>
    decreases n,
{
    if n <= 0 {
        seq![entry.pid]
    } else if bit(entry.blp, n - 1) {
        marked(entry, n - 1).push(after(entry.pid, n))
    } else {
        marked(entry, n - 1)
    }
}

impl NackEntry {
    /// All lost sequence numbers that the entry stands for.
    pub open spec fn lost(self) -> Seq<u16> {
        marked(self, 16)
    }

    pub open spec fn wire(self) -> Seq<u8> {
        be16(self.pid) + be16(self.blp)
    }

    /// Create a NACK entry for a single packet.
    pub fn single(seq: u16) -> (r: Self)
        ensures
            r == (NackEntry { pid: seq, blp: 0 }),
    {
        NackEntry { pid: seq, blp: 0 }
    }

    /// Create a NACK entry from a list of sequence numbers.
    /// The first sequence number becomes PID, subsequent ones set BLP bits.
    pub fn from_sequences(seqs: &[u16]) -> (r: Option<Self>)
        ensures
            r == (if seqs@.len() == 0 {
                None
            } else {
                Some(NackEntry { pid: seqs@[0], blp: mask(seqs@[0], seqs@.skip(1)) })
            }),
    {
        if seqs.len() == 0 {
            return None;
        }
        let pid: u16 = seqs[0];
        let mut blp: u16 = 0;
        let mut i: usize = 1;
        assert(seqs@.subrange(1, 1) =~= Seq::<u16>::empty());
        while i < seqs.len()
            invariant
                1 <= i <= seqs@.len(),
                pid == seqs@[0],
                blp == mask(pid, seqs@.subrange(1, i as int)),
            decreases seqs@.len() - i,
        {
            let diff: u16 = seqs[i].wrapping_sub(pid).wrapping_sub(1);
            assert(diff == gap(pid, seqs@[i as int]));
            assert(seqs@.subrange(1, i + 1).drop_last() =~= seqs@.subrange(1, i as int));
            if diff < 16 {
                blp = blp | (1u16 << diff);
            }
            i = i + 1;
        }
        assert(seqs@.subrange(1, i as int) =~= seqs@.skip(1));
        Some(NackEntry { pid, blp })
    }

    /// Get all lost sequence numbers represented by this entry.
    pub fn lost_sequences(&self) -> (r: Vec<u16>)
        ensures
            r@ == self.lost(),
    {
        let mut seqs: Vec<u16> = Vec::new();
        seqs.push(self.pid);
        let mut i: u16 = 0;
        assert(seqs@ =~= marked(*self, 0));
        while i < 16
            invariant
                i <= 16,
                seqs@ == marked(*self, i as int),
            decreases 16 - i,
        {
            if (self.blp >> i) & 1 == 1 {
                seqs.push(self.pid.wrapping_add(i + 1));
            }
            i = i + 1;
        }
        seqs
    }
}

/// Setting bit `d` sets that bit and keeps the others; 0 has no bit set.
proof fn lemma_set_bit(blp: u16, d: u16, i: u16)
    requires
        d < 16,
        i < 16,
    ensures
        bit(blp | (1u16 << d), i as int) <==> bit(blp, i as int) || i == d,
        !bit(0, i as int),
{
    assert((((blp | (1u16 << d)) >> i) & 1 == 1) <==> ((blp >> i) & 1 == 1 || i == d))
        by (bit_vector)
        requires
            d < 16,
            i < 16,
    ;
    assert((0u16 >> i) & 1 == 0) by (bit_vector)
        requires
            i < 16,
    ;
}

/// Bit `i` of the mask is set exactly if the sequence number `i + 1` after `pid` is listed.
pub proof fn lemma_mask_bit(pid: u16, seqs: Seq<u16>, i: int)
    requires
        0 <= i < 16,
    ensures
        bit(mask(pid, seqs), i) <==> seqs.contains(after(pid, i + 1)),
    decreases seqs.len(),
{
    lemma_set_bit(0, 0, i as u16);
    if seqs.len() > 0 {
        let init = seqs.drop_last();
        let x = after(pid, i + 1);
        lemma_mask_bit(pid, init, i);
        let d = gap(pid, seqs.last());
        if d < 16 {
            lemma_set_bit(mask(pid, init), d as u16, i as u16);
        }
        assert(d == i <==> seqs.last() == x);
        assert(seqs =~= init.push(seqs.last()));
        if init.contains(x) {
            let k = choose|k: int| 0 <= k < init.len() && init[k] == x;
            assert(seqs[k] == x);
        }
        if seqs.last() == x {
            assert(seqs[seqs.len() - 1] == x);
        }
        if seqs.contains(x) && seqs.last() != x {
            let k = choose|k: int| 0 <= k < seqs.len() && seqs[k] == x;
            assert(init[k] == x);
        }
    }
}

/// A list of marked sequence numbers holds the PID and those whose bit is set, no others.
proof fn lemma_marked(entry: NackEntry, n: int, x: u16)
    requires
        0 <= n <= 16,
    ensures
        marked(entry, n).contains(x) <==> (x == entry.pid || exists|i: int|
            0 <= i < n && #[trigger] bit(entry.blp, i) && x == after(entry.pid, i + 1)),
    decreases n,
{
    if n > 0 {
        lemma_marked(entry, n - 1, x);
        let before = marked(entry, n - 1);
        let y = after(entry.pid, n);
        if bit(entry.blp, n - 1) {
            assert(before.push(y).last() == y);
            assert(before.push(y).contains(y));
            if before.contains(x) {
                let k = choose|k: int| 0 <= k < before.len() && before[k] == x;
                assert(before.push(y)[k] == x);
            }
            if before.push(y).contains(x) && x != y {
                let k = choose|k: int| 0 <= k < before.len() + 1 && before.push(y)[k] == x;
                assert(before[k] == x);
            }
        }
    } else {
        assert(marked(entry, n)[0] == entry.pid);
    }
}

/// An entry made from sequence numbers stands for its first number and those of the others that
/// follow it by at most 16, and for nothing else.
pub proof fn lemma_entry_lost(pid: u16, seqs: Seq<u16>, x: u16)
    ensures
        (NackEntry { pid, blp: mask(pid, seqs) }).lost().contains(x) <==> (x == pid || (
        seqs.contains(x) && gap(pid, x) < 16)),
{
    let entry = NackEntry { pid, blp: mask(pid, seqs) };
    lemma_marked(entry, 16, x);
    if entry.lost().contains(x) && x != pid {
        let i = choose|i: int|
            0 <= i < 16 && #[trigger] bit(entry.blp, i) && x == after(pid, i + 1);
        lemma_mask_bit(pid, seqs, i);
    }
    if seqs.contains(x) && gap(pid, x) < 16 {
        let i = gap(pid, x);
        assert(after(pid, i + 1) == x);
        lemma_mask_bit(pid, seqs, i);
    }
}

/// Generic NACK (Negative ACKnowledgement) - RFC 4585.
///
/// Used to request retransmission of lost RTP packets.
///
/// ```text
///  0                   1                   2                   3
///  0 1 2 3 4 5 6 7 8 9 0 1 2 3 4 5 6 7 8 9 0 1 2 3 4 5 6 7 8 9 0 1
/// +-+-+-+-+-+-+-+-+-+-+-+-+-+-+-+-+-+-+-+-+-+-+-+-+-+-+-+-+-+-+-+-+
/// |            PID                |             BLP               |
/// +-+-+-+-+-+-+-+-+-+-+-+-+-+-+-+-+-+-+-+-+-+-+-+-+-+-+-+-+-+-+-+-+
/// ```
#[derive(Debug, Clone)]
pub struct Nack {
    /// SSRC of the packet sender.
    pub sender_ssrc: u32,
    /// SSRC of the media source being NACKed.
    pub media_ssrc: u32,
    /// NACK entries (PID + BLP pairs).
    pub nacks: Vec<NackEntry>,
}

/// What a NACK says.
pub struct NackView {
    pub sender_ssrc: u32,
    pub media_ssrc: u32,
    pub nacks: Seq<NackEntry>,
}

impl View for Nack {
    type V = NackView;

    open spec fn view(&self) -> NackView {
        NackView {
            sender_ssrc: self.sender_ssrc,
            media_ssrc: self.media_ssrc,
            nacks: self.nacks@,
        }
    }
}

/// The order of sequence numbers as plain integers.
pub open spec fn ascending() -> spec_fn(u16, u16) -> bool {
    |a: u16, b: u16| a <= b
}

/// Those of `s` that follow `pid` by 1 to 16, in their order.
pub open spec fn within(pid: u16, s: Seq<u16>) -> Seq<u16>
    decreases s.len(),
{
    if s.len() == 0 {
        Seq::empty()
    } else if gap(pid, s.last()) < 16 {
        within(pid, s.drop_last()).push(s.last())
    } else {
        within(pid, s.drop_last())
    }
}

/// Those of `s` that do not follow `pid` by 1 to 16, in their order.
pub open spec fn beyond(pid: u16, s: Seq<u16>) -> Seq<u16>
    decreases s.len(),
{
    if s.len() == 0 {
        Seq::empty()
    } else if gap(pid, s.last()) < 16 {
        beyond(pid, s.drop_last())
    } else {
        beyond(pid, s.drop_last()).push(s.last())
    }
}

/// Leaving numbers out makes no list longer.
pub proof fn lemma_beyond_len(pid: u16, s: Seq<u16>)
    ensures
        beyond(pid, s).len() <= s.len(),
    decreases s.len(),
{
    if s.len() > 0 {
        lemma_beyond_len(pid, s.drop_last());
    }
}

/// Every number is within reach of `pid` or beyond it.
proof fn lemma_split(pid: u16, s: Seq<u16>, x: u16)
    ensures
        within(pid, s).contains(x) <==> s.contains(x) && gap(pid, x) < 16,
        beyond(pid, s).contains(x) <==> s.contains(x) && gap(pid, x) >= 16,
    decreases s.len(),
{
    broadcast use vstd::seq_lib::group_seq_properties;

    if s.len() > 0 {
        lemma_split(pid, s.drop_last(), x);
        assert(s =~= s.drop_last().push(s.last()));
    }
}

/// Entries that cover `s`: the first number heads an entry that takes along what follows it by at
/// most 16; the rest is covered in the same way.
pub open spec fn groups(s: Seq<u16>) -> Seq<NackEntry>
    decreases s.len(),
{
    if s.len() == 0 {
        Seq::empty()
    } else {
        proof {
            lemma_beyond_len(s[0], s.skip(1));
        }
        seq![NackEntry { pid: s[0], blp: mask(s[0], within(s[0], s.skip(1))) }] + groups(
            beyond(s[0], s.skip(1)),
        )
    }
}

/// All lost sequence numbers of a list of entries.
pub open spec fn all_lost(nacks: Seq<NackEntry>) -> Seq<u16>
    decreases nacks.len(),
{
    if nacks.len() == 0 {
        Seq::empty()
    } else {
        nacks[0].lost() + all_lost(nacks.skip(1))
    }
}

proof fn lemma_insert_multiset(s: Seq<u16>, j: int, x: u16)
    requires
        0 <= j <= s.len(),
    ensures
        s.insert(j, x).to_multiset() == s.to_multiset().insert(x),
{
    broadcast use vstd::multiset::group_multiset_axioms;

    let t = s.insert(j, x);
    t.to_multiset_ensures();
    assert(t[j] == x);
    assert(t.remove(j) =~= s);
    assert(t.remove(j).to_multiset() =~= t.to_multiset().remove(t[j]));
    assert(t.contains(x));
    assert(t.to_multiset().count(x) > 0);
    assert(t.to_multiset() =~= s.to_multiset().insert(x));
}

/// Sorts sequence numbers as plain integers.
fn sort_sequences(seqs: &[u16]) -> (r: Vec<u16>)
    ensures
        r@ == seqs@.sort_by(ascending()),
{
    let mut sorted: Vec<u16> = Vec::new();
    let mut i: usize = 0;
    assert(seqs@.take(0) =~= sorted@);
    while i < seqs.len()
        invariant
            i <= seqs@.len(),
            sorted@.len() == i,
            sorted_by(sorted@, ascending()),
            sorted@.to_multiset() == seqs@.take(i as int).to_multiset(),
        decreases seqs@.len() - i,
    {
        let x: u16 = seqs[i];
        let mut j: usize = sorted.len();
        while j > 0 && sorted[j - 1] > x
            invariant
                j <= sorted@.len(),
                sorted_by(sorted@, ascending()),
                forall|k: int| j <= k < sorted@.len() ==> #[trigger] sorted@[k] > x,
            decreases j,
        {
            j = j - 1;
        }
        let ghost before = sorted@;
        sorted.insert(j, x);
        proof {
            assert forall|a: int, b: int| 0 <= a < b < sorted@.len() implies #[trigger] (
            ascending())(sorted@[a], sorted@[b]) by {
                if b < j {
                    assert(ascending()(before[a], before[b]));
                } else if a < j && b > j {
                    assert(ascending()(before[a], before[b - 1]));
                } else if a < j {
                    if a < j - 1 {
                        assert(ascending()(before[a], before[j - 1]));
                    }
                } else if a > j {
                    assert(ascending()(before[a - 1], before[b - 1]));
                }
            }
            assert(seqs@.take(i + 1) =~= seqs@.take(i as int).push(x));
            lemma_insert_multiset(before, j as int, x);
            seqs@.take(i as int).to_multiset_ensures();
        }
        i = i + 1;
    }
    proof {
        assert(seqs@.take(i as int) =~= seqs@);
        assert(total_ordering(ascending()));
        seqs@.lemma_sort_by_ensures(ascending());
        lemma_sorted_unique(sorted@, seqs@.sort_by(ascending()), ascending());
    }
    sorted
}

/// The encoding of a NACK entry, as a function.
pub open spec fn entry_wire() -> spec_fn(NackEntry) -> Seq<u8> {
    |e: NackEntry| e.wire()
}

impl NackView {
    pub open spec fn header(self) -> RtcpHeader {
        RtcpHeader {
            version: 2,
            padding: false,
            count: 1,
            packet_type: RtcpType::TransportFeedback,
            length: ((2 + self.nacks.len()) % 0x1_0000) as u16,
        }
    }

    /// The packet up to its entries.
    pub open spec fn head(self) -> Seq<u8> {
        self.header().wire() + be32(self.sender_ssrc) + be32(self.media_ssrc)
    }

    /// The packet as bytes.
    pub open spec fn wire(self) -> Seq<u8> {
        self.head() + flat(self.nacks, entry_wire())
    }

    /// The NACK that the packet `data` carries: as many entries as have their four bytes.
    pub open spec fn of_wire(data: Seq<u8>) -> Result<NackView, RtcpParseError> {
        match RtcpHeader::of_wire(data) {
            Err(e) => Err(e),
            Ok(h) => if h.packet_type != RtcpType::TransportFeedback || h.count != 1 {
                Err(RtcpParseError::UnknownPacketType(h.packet_type.number()))
            } else if data.len() < 12 {
                Err(RtcpParseError::TooShort((data.len() - 4) as usize))
            } else {
                Ok(
                    NackView {
                        sender_ssrc: u32_at(data, 4),
                        media_ssrc: u32_at(data, 8),
                        nacks: entries_at(data, 12, ((data.len() - 12) / 4) as nat),
                    },
                )
            },
        }
    }
}

/// The first `n` entries that stand at `start` in `s`.
pub open spec fn entries_at(s: Seq<u8>, start: int, n: nat) -> Seq<NackEntry> {
    Seq::new(
        n,
        |i: int|
            NackEntry { pid: u16_at(s, start + i * 4), blp: u16_at(s, start + i * 4 + 2) },
    )
}

impl Nack {
    /// Create a NACK for a single lost packet.
    pub fn new(sender_ssrc: u32, media_ssrc: u32, lost_seq: u16) -> (r: Self)
        ensures
            r@ == (NackView {
                sender_ssrc,
                media_ssrc,
                nacks: seq![NackEntry { pid: lost_seq, blp: 0 }],
            }),
    {
        let mut nacks: Vec<NackEntry> = Vec::new();
        nacks.push(NackEntry::single(lost_seq));
        assert(nacks@ =~= seq![NackEntry { pid: lost_seq, blp: 0 }]);
        Nack { sender_ssrc, media_ssrc, nacks }
    }

    /// Create a NACK from a list of lost sequence numbers.
    pub fn from_lost_packets(sender_ssrc: u32, media_ssrc: u32, lost_seqs: &[u16]) -> (r: Self)
        ensures
            r@ == (NackView {
                sender_ssrc,
                media_ssrc,
                nacks: groups(lost_seqs@.sort_by(ascending())),
            }),
    {
        let mut nacks: Vec<NackEntry> = Vec::new();
        let mut remaining: Vec<u16> = sort_sequences(lost_seqs);
        let ghost all = groups(remaining@);
        assert(nacks@ + groups(remaining@) =~= all);
        while remaining.len() > 0
            invariant
                nacks@ + groups(remaining@) == all,
            decreases remaining@.len(),
        {
            let pid: u16 = remaining[0];
            let ghost tail = remaining@.skip(1);
            let mut group: Vec<u16> = Vec::new();
            group.push(pid);
            let mut new_remaining: Vec<u16> = Vec::new();
            let mut i: usize = 1;
            assert(group@ =~= seq![pid] + within(pid, tail.take(0)));
            while i < remaining.len()
                invariant
                    1 <= i <= remaining@.len(),
                    tail == remaining@.skip(1),
                    group@ == seq![pid] + within(pid, tail.take(i - 1)),
                    new_remaining@ == beyond(pid, tail.take(i - 1)),
                decreases remaining@.len() - i,
            {
                let seq: u16 = remaining[i];
                let diff: u16 = seq.wrapping_sub(pid);
                assert(tail.take(i as int).drop_last() =~= tail.take(i - 1));
                assert(tail.take(i as int).last() == seq);
                assert((diff > 0 && diff <= 16) <==> gap(pid, seq) < 16);
                if diff > 0 && diff <= 16 {
                    group.push(seq);
                } else {
                    new_remaining.push(seq);
                }
                i = i + 1;
                assert(group@ =~= seq![pid] + within(pid, tail.take(i - 1)));
            }
            assert(tail.take(i - 1) =~= tail);
            assert(group@.skip(1) =~= within(pid, tail));
            if let Some(entry) = NackEntry::from_sequences(group.as_slice()) {
                proof {
                    lemma_beyond_len(pid, tail);
                    assert(nacks@.push(entry) + groups(new_remaining@) =~= nacks@ + groups(
                        remaining@,
                    ));
                }
                nacks.push(entry);
            }
            remaining = new_remaining;
        }
        assert(nacks@ =~= all);
        Nack { sender_ssrc, media_ssrc, nacks }
    }

    /// Parse a NACK packet from bytes.
    pub fn parse(data: &[u8]) -> (r: Result<Self, RtcpParseError>)
        ensures
            match r {
                Ok(nack) => NackView::of_wire(data@) == Ok::<_, RtcpParseError>(nack@),
                Err(e) => NackView::of_wire(data@) == Err::<NackView, _>(e),
            },
    {
        let (header, rest) = match RtcpHeader::parse(data) {
            Ok(hr) => hr,
            Err(e) => return Err(e),
        };
        if header.packet_type != RtcpType::TransportFeedback || header.count != 1 {
            return Err(RtcpParseError::UnknownPacketType(header.packet_type.code()));
        }
        if rest.len() < 8 {
            return Err(RtcpParseError::TooShort(rest.len()));
        }
        let mut nacks: Vec<NackEntry> = Vec::new();
        let mut pos: usize = 12;
        while data.len() - pos >= 4
            invariant
                12 <= pos <= data@.len(),
                pos == 12 + 4 * nacks@.len(),
                nacks@ == entries_at(data@, 12, nacks@.len()),
            decreases data@.len() - pos,
        {
            nacks.push(NackEntry { pid: read_u16(data, pos), blp: read_u16(data, pos + 2) });
            pos = pos + 4;
            assert(nacks@ =~= entries_at(data@, 12, nacks@.len()));
        }
        Ok(Nack { sender_ssrc: read_u32(data, 4), media_ssrc: read_u32(data, 8), nacks })
    }

    /// Build the NACK packet to bytes.
    pub fn build(&self) -> (r: Bytes)
        requires
            fits((12 + 4 * self.nacks@.len()) as nat),
        ensures
            frozen(r) == self@.wire(),
    {
        let mut buf: BytesMut = new_buffer(12 + self.nacks.len() * 4);
        let header = RtcpHeader {
            version: 2,
            padding: false,
            count: TransportFeedbackType::Nack.code(),
            packet_type: RtcpType::TransportFeedback,
            length: ((2 + self.nacks.len()) % 0x1_0000) as u16,
        };
        header.build(&mut buf);
        put_u32(&mut buf, self.sender_ssrc);
        put_u32(&mut buf, self.media_ssrc);
        let ghost head = self@.head();
        let mut i: usize = 0;
        assert(written(buf) =~= head + flat(self.nacks@.take(0), entry_wire()));
        while i < self.nacks.len()
            invariant
                i <= self.nacks@.len(),
                head.len() == 12,
                fits((12 + 4 * self.nacks@.len()) as nat),
                written(buf) == head + flat(self.nacks@.take(i as int), entry_wire()),
            decreases self.nacks@.len() - i,
        {
            proof {
                lemma_flat_push(self.nacks@, i as int, entry_wire());
                lemma_flat_len(self.nacks@.take(i as int), entry_wire(), 4);
            }
            put_u16(&mut buf, self.nacks[i].pid);
            put_u16(&mut buf, self.nacks[i].blp);
            i = i + 1;
            assert(written(buf) =~= head + flat(self.nacks@.take(i as int), entry_wire()));
        }
        assert(self.nacks@.take(i as int) =~= self.nacks@);
        freeze(buf)
    }

    /// Get all lost sequence numbers from all NACK entries.
    pub fn all_lost_sequences(&self) -> (r: Vec<u16>)
        ensures
            r@ == all_lost(self.nacks@),
    {
        let mut lost: Vec<u16> = Vec::new();
        let mut i: usize = 0;
        assert(self.nacks@.skip(0) =~= self.nacks@);
        assert(lost@ + all_lost(self.nacks@) =~= all_lost(self.nacks@));
        while i < self.nacks.len()
            invariant
                i <= self.nacks@.len(),
                lost@ + all_lost(self.nacks@.skip(i as int)) == all_lost(self.nacks@),
            decreases self.nacks@.len() - i,
        {
            let mut seqs: Vec<u16> = self.nacks[i].lost_sequences();
            let ghost rest = self.nacks@.skip(i as int);
            let ghost before = lost@;
            assert(rest.skip(1) =~= self.nacks@.skip(i + 1));
            assert(rest[0] == self.nacks@[i as int]);
            lost.append(&mut seqs);
            i = i + 1;
            assert(lost@ + all_lost(rest.skip(1)) =~= before + all_lost(rest));
        }
        assert(lost@ =~= all_lost(self.nacks@));
        lost
    }
}

proof fn lemma_entry_at(s: Seq<u8>, i: int, e: NackEntry)
    requires
        0 <= i,
        i + 4 <= s.len(),
        s.subrange(i, i + 4) == e.wire(),
    ensures
        u16_at(s, i) == e.pid,
        u16_at(s, i + 2) == e.blp,
{
    let w = s.subrange(i, i + 4);
    assert(s.subrange(i, i + 2) =~= w.subrange(0, 2));
    assert(w.subrange(0, 2) =~= be16(e.pid));
    lemma_be16_read(s, i, e.pid);
    assert(s.subrange(i + 2, i + 4) =~= w.subrange(2, 4));
    assert(w.subrange(2, 4) =~= be16(e.blp));
    lemma_be16_read(s, i + 2, e.blp);
}

/// The entries read back behind a prefix are those that were written there.
proof fn lemma_entries_at(prefix: Seq<u8>, nacks: Seq<NackEntry>)
    ensures
        entries_at(prefix + flat(nacks, entry_wire()), prefix.len() as int, nacks.len()) == nacks,
{
    let tail = flat(nacks, entry_wire());
    let s = prefix + tail;
    let p = prefix.len() as int;
    let n = nacks.len();
    assert forall|i: int| 0 <= i < n implies #[trigger] entries_at(s, p, n)[i] == nacks[i] by {
        lemma_flat_at(nacks, entry_wire(), 4, i);
        assert(s.subrange(p + i * 4, p + i * 4 + 4) =~= tail.subrange(i * 4, i * 4 + 4));
        lemma_entry_at(s, p + i * 4, nacks[i]);
    }
    assert(entries_at(s, p, n) =~= nacks);
}

/// Parsing a NACK that was built gives it back.
pub proof fn lemma_nack_round_trip(nack: NackView)
    ensures
        nack.wire().len() == 12 + 4 * nack.nacks.len(),
        NackView::of_wire(nack.wire()) == Ok::<_, RtcpParseError>(nack),
{
    let data = nack.wire();
    let h = nack.header();
    lemma_flat_len(nack.nacks, entry_wire(), 4);
    assert(data =~= h.wire() + data.skip(4));
    lemma_header_round_trip(h, data.skip(4));
    assert(data.subrange(4, 8) =~= be32(nack.sender_ssrc));
    assert(data.subrange(8, 12) =~= be32(nack.media_ssrc));
    lemma_be32_read(data, 4, nack.sender_ssrc);
    lemma_be32_read(data, 8, nack.media_ssrc);
    lemma_entries_at(nack.head(), nack.nacks);
}

/// The groups of a list stand for exactly the numbers in it.
proof fn lemma_groups_lost(s: Seq<u16>, x: u16)
    ensures
        all_lost(groups(s)).contains(x) <==> s.contains(x),
    decreases s.len(),
{
    if s.len() > 0 {
        let pid = s[0];
        let tail = s.skip(1);
        let inside = within(pid, tail);
        let rest = beyond(pid, tail);
        let entry = NackEntry { pid, blp: mask(pid, inside) };
        lemma_beyond_len(pid, tail);
        lemma_groups_lost(rest, x);
        lemma_entry_lost(pid, inside, x);
        lemma_split(pid, tail, x);
        assert(groups(s)[0] == entry);
        assert(groups(s).skip(1) =~= groups(rest));
        let a = entry.lost();
        let b = all_lost(groups(rest));
        assert((a + b).contains(x) <==> a.contains(x) || b.contains(x)) by {
            broadcast use vstd::seq_lib::group_seq_properties;

        }
        assert(s =~= seq![pid] + tail);
        assert(s.contains(x) <==> x == pid || tail.contains(x)) by {
            assert(s[0] == pid);
            if tail.contains(x) {
                let k = choose|k: int| 0 <= k < tail.len() && tail[k] == x;
                assert(s[k + 1] == x);
            }
            if s.contains(x) && x != pid {
                let k = choose|k: int| 0 <= k < s.len() && s[k] == x;
                assert(tail[k - 1] == x);
            }
        }
    }
}

/// A NACK made from lost packets stands for exactly those packets.
pub proof fn lemma_from_lost_packets(lost_seqs: Seq<u16>, x: u16)
    ensures
        all_lost(groups(lost_seqs.sort_by(ascending()))).contains(x) <==> lost_seqs.contains(x),
{
    broadcast use vstd::seq_lib::group_to_multiset_ensures;

    let sorted = lost_seqs.sort_by(ascending());
    lemma_groups_lost(sorted, x);
    lost_seqs.lemma_sort_by_ensures(ascending());
    assert(lost_seqs.to_multiset().count(x) > 0 <==> sorted.to_multiset().count(x) > 0);
}

/// Each number is greater than those before it.
pub open spec fn strictly_ascending(s: Seq<u16>) -> bool {
    forall|i: int, j: int| #![trigger s[i], s[j]] 0 <= i < j < s.len() ==> s[i] < s[j]
}

/// Two strictly ascending lists of the same numbers are the same.
proof fn lemma_ascending_unique(s: Seq<u16>, t: Seq<u16>)
    requires
        strictly_ascending(s),
        strictly_ascending(t),
        forall|x: u16| #[trigger] s.contains(x) <==> t.contains(x),
    ensures
        s == t,
    decreases s.len(),
{
    if s.len() == 0 {
        if t.len() > 0 {
            assert(t.contains(t[0]));
            assert(s.contains(t[0]));
        }
        assert(s =~= t);
    } else {
        let a = s[s.len() - 1];
        assert(s.contains(a));
        assert(t.contains(a));
        let b = t[t.len() - 1];
        assert(t.contains(b));
        assert(s.contains(b));
        let k = choose|k: int| 0 <= k < s.len() && s[k] == b;
        let m = choose|m: int| 0 <= m < t.len() && t[m] == a;
        assert(a == b);
        let s0 = s.drop_last();
        let t0 = t.drop_last();
        assert forall|x: u16| #[trigger] s0.contains(x) <==> t0.contains(x) by {
            if s0.contains(x) {
                let i = choose|i: int| 0 <= i < s0.len() && s0[i] == x;
                assert(s[i] == x && s[i] < s[s.len() - 1]);
                assert(s.contains(x));
                let j = choose|j: int| 0 <= j < t.len() && t[j] == x;
                assert(t0[j] == x);
            }
            if t0.contains(x) {
                let j = choose|j: int| 0 <= j < t0.len() && t0[j] == x;
                assert(t[j] == x && t[j] < t[t.len() - 1]);
                assert(t.contains(x));
                assert(s.contains(x));
                let i = choose|i: int| 0 <= i < s.len() && s[i] == x;
                assert(s0[i] == x);
            }
        }
        lemma_ascending_unique(s0, t0);
        assert(s =~= s0.push(a));
        assert(t =~= t0.push(b));
    }
}

/// What an ascending list has within reach of a number before it stands in front of what it has
/// beyond.
proof fn lemma_within_first(pid: u16, t: Seq<u16>)
    requires
        strictly_ascending(t),
        forall|i: int| 0 <= i < t.len() ==> pid < #[trigger] t[i],
    ensures
        within(pid, t) + beyond(pid, t) == t,
    decreases t.len(),
{
    if t.len() > 0 {
        let init = t.drop_last();
        let last = t.last();
        lemma_within_first(pid, init);
        if gap(pid, last) < 16 {
            let rest = beyond(pid, init);
            if rest.len() > 0 {
                let x = rest[0];
                assert(rest.contains(x));
                lemma_split(pid, init, x);
                let k = choose|k: int| 0 <= k < init.len() && init[k] == x;
                assert(t[k] < t[t.len() - 1]);
            }
            assert(rest =~= Seq::empty());
            assert(within(pid, init) =~= init);
        }
        assert(t =~= init.push(last));
        assert((within(pid, init) + beyond(pid, init)).push(last) =~= within(pid, init) + beyond(
            pid,
            init,
        ).push(last));
        assert(within(pid, t) + beyond(pid, t) =~= t);
    } else {
        assert(within(pid, t) + beyond(pid, t) =~= t);
    }
}

/// The numbers that an entry marks ascend as long as none of them is past the wrap.
proof fn lemma_marked_ascending(entry: NackEntry, n: int)
    requires
        0 <= n <= 16,
        forall|i: int| 0 <= i < n && #[trigger] bit(entry.blp, i) ==> entry.pid + i + 1 < 0x1_0000,
    ensures
        strictly_ascending(marked(entry, n)),
        forall|k: int| 0 <= k < marked(entry, n).len() ==> #[trigger] marked(entry, n)[k]
            <= entry.pid + n,
    decreases n,
{
    if n > 0 {
        lemma_marked_ascending(entry, n - 1);
        let before = marked(entry, n - 1);
        if bit(entry.blp, n - 1) {
            let y = after(entry.pid, n);
            assert(y == entry.pid + n);
            assert forall|i: int, j: int|
                #![trigger before.push(y)[i], before.push(y)[j]]
                0 <= i < j < before.push(y).len() implies before.push(y)[i] < before.push(
                y,
            )[j] by {
                assert(before[i] <= entry.pid + n - 1);
                if j < before.len() {
                    assert(before[i] < before[j]);
                }
            }
        }
    }
}

/// An entry made from a number and ascending ones within its reach stands for just these.
proof fn lemma_entry_ascending(pid: u16, inside: Seq<u16>)
    requires
        strictly_ascending(inside),
        forall|i: int| 0 <= i < inside.len() ==> pid < #[trigger] inside[i] && gap(pid, inside[i])
            < 16,
    ensures
        (NackEntry { pid, blp: mask(pid, inside) }).lost() == seq![pid] + inside,
{
    let entry = NackEntry { pid, blp: mask(pid, inside) };
    let listed = seq![pid] + inside;
    assert forall|i: int| 0 <= i < 16 && #[trigger] bit(entry.blp, i) implies pid + i + 1
        < 0x1_0000 by {
        lemma_mask_bit(pid, inside, i);
        let x = after(pid, i + 1);
        let k = choose|k: int| 0 <= k < inside.len() && inside[k] == x;
        assert(pid < inside[k]);
    }
    lemma_marked_ascending(entry, 16);
    assert forall|i: int, j: int|
        #![trigger listed[i], listed[j]]
        0 <= i < j < listed.len() implies listed[i] < listed[j] by {
        if i == 0 {
            assert(pid < inside[j - 1]);
        } else {
            assert(inside[i - 1] < inside[j - 1]);
        }
    }
    assert forall|x: u16| #[trigger] entry.lost().contains(x) <==> listed.contains(x) by {
        lemma_entry_lost(pid, inside, x);
        if x == pid {
            assert(listed[0] == x);
        }
        if inside.contains(x) {
            let k = choose|k: int| 0 <= k < inside.len() && inside[k] == x;
            assert(listed[k + 1] == x);
            assert(gap(pid, inside[k]) < 16);
        }
        if listed.contains(x) && x != pid {
            let k = choose|k: int| 0 <= k < listed.len() && listed[k] == x;
            assert(inside[k - 1] == x);
        }
    }
    lemma_ascending_unique(entry.lost(), listed);
}

/// The groups of an ascending list stand for its numbers in their order.
proof fn lemma_groups_ascending(s: Seq<u16>)
    requires
        strictly_ascending(s),
    ensures
        all_lost(groups(s)) == s,
    decreases s.len(),
{
    if s.len() > 0 {
        let pid = s[0];
        let tail = s.skip(1);
        let inside = within(pid, tail);
        let rest = beyond(pid, tail);
        let entry = NackEntry { pid, blp: mask(pid, inside) };
        assert forall|i: int| 0 <= i < tail.len() implies pid < #[trigger] tail[i] by {
            assert(s[0] < s[i + 1]);
        }
        assert forall|i: int, j: int|
            #![trigger tail[i], tail[j]]
            0 <= i < j < tail.len() implies tail[i] < tail[j] by {
            assert(s[i + 1] < s[j + 1]);
        }
        lemma_within_first(pid, tail);
        lemma_beyond_len(pid, tail);
        let c = inside.len() as int;
        assert forall|i: int| 0 <= i < c implies #[trigger] inside[i] == tail[i] && gap(
            pid,
            inside[i],
        ) < 16 by {
            assert((inside + rest)[i] == tail[i]);
            assert(inside.contains(inside[i]));
            lemma_split(pid, tail, inside[i]);
        }
        assert forall|i: int, j: int|
            #![trigger inside[i], inside[j]]
            0 <= i < j < c implies inside[i] < inside[j] by {
            assert(tail[i] < tail[j]);
        }
        assert forall|i: int, j: int|
            #![trigger rest[i], rest[j]]
            0 <= i < j < rest.len() implies rest[i] < rest[j] by {
            assert((inside + rest)[c + i] == tail[c + i]);
            assert((inside + rest)[c + j] == tail[c + j]);
        }
        lemma_entry_ascending(pid, inside);
        lemma_groups_ascending(rest);
        assert(groups(s)[0] == entry);
        assert(groups(s).skip(1) =~= groups(rest));
        assert(all_lost(groups(s)) =~= seq![pid] + (inside + rest));
        assert(s =~= seq![pid] + tail);
    }
}

/// A NACK made from lost packets without repeats lists them in ascending order, each once.
pub proof fn lemma_lost_in_order(lost_seqs: Seq<u16>)
    requires
        lost_seqs.no_duplicates(),
    ensures
        all_lost(groups(lost_seqs.sort_by(ascending()))) == lost_seqs.sort_by(ascending()),
        strictly_ascending(lost_seqs.sort_by(ascending())),
        lost_seqs.sort_by(ascending()).to_multiset() == lost_seqs.to_multiset(),
{
    let sorted = lost_seqs.sort_by(ascending());
    lost_seqs.lemma_sort_by_ensures(ascending());
    lost_seqs.lemma_multiset_has_no_duplicates();
    sorted.lemma_multiset_has_no_duplicates_conv();
    assert forall|i: int, j: int|
        #![trigger sorted[i], sorted[j]]
        0 <= i < j < sorted.len() implies sorted[i] < sorted[j] by {
        assert(ascending()(sorted[i], sorted[j]));
    }
    lemma_groups_ascending(sorted);
}

} // verus!
