//! RTP packets.

use crate::buf::{
    be16, be32, bytes_as_slice, fits, flat, freeze, frozen, lemma_be16_read, lemma_be32_read,
    lemma_flat_at, lemma_flat_len, lemma_flat_push, new_buffer, put_slice, put_u16, put_u32,
    put_u8, read_u16, read_u32, u16_at, u32_at, written,
};
use bytes::{Bytes, BytesMut};
use vstd::prelude::*;

verus! {

broadcast use crate::buf::group_be_len;

/// Bytes of an RTP header without sources and extension.
pub const RTP_HEADER_SIZE: usize = 12;

/// Most contributing sources of a packet.
pub const MAX_CSRC: usize = 15;

/// RTP parse error.
#[derive(Debug, Clone, Copy, PartialEq, Eq, Structural)]
pub enum RtpParseError {
    /// The packet has only this many bytes.
    TooShort(usize),
    /// The version field is not 2.
    InvalidVersion(u8),
    /// The padding is none, or more than there is.
    InvalidPadding,
}

/// An extension of the RTP header.
#[derive(Debug)]
pub struct RtpExtension {
    /// What the profile makes of it.
    pub profile: u16,
    /// Whole 32-bit words.
    pub data: Bytes,
}

/// What an extension says.
#[verifier::ext_equal]
pub struct ExtensionView {
    pub profile: u16,
    pub data: Seq<u8>,
}

impl View for RtpExtension {
    type V = ExtensionView;

    open spec fn view(&self) -> ExtensionView {
        ExtensionView { profile: self.profile, data: frozen(self.data) }
    }
}

/// An RTP packet.
#[derive(Debug)]
pub struct RtpPacket {
    pub version: u8,
    /// Whether the packet was padded. The padding is no part of the payload.
    pub padding: bool,
    pub extension: bool,
    pub marker: bool,
    pub payload_type: u8,
    pub sequence_number: u16,
    pub timestamp: u32,
    pub ssrc: u32,
    pub csrc: Vec<u32>,
    pub extension_header: Option<RtpExtension>,
    pub payload: Bytes,
}

/// What a packet says.
#[verifier::ext_equal]
pub struct PacketView {
    pub version: u8,
    pub padding: bool,
    pub extension: bool,
    pub marker: bool,
    pub payload_type: u8,
    pub sequence_number: u16,
    pub timestamp: u32,
    pub ssrc: u32,
    pub csrc: Seq<u32>,
    pub extension_header: Option<ExtensionView>,
    pub payload: Seq<u8>,
}

impl View for RtpPacket {
    type V = PacketView;

    open spec fn view(&self) -> PacketView {
        PacketView {
            version: self.version,
            padding: self.padding,
            extension: self.extension,
            marker: self.marker,
            payload_type: self.payload_type,
            sequence_number: self.sequence_number,
            timestamp: self.timestamp,
            ssrc: self.ssrc,
            csrc: self.csrc@,
            extension_header: match self.extension_header {
                Some(e) => Some(e@),
                None => None,
            },
            payload: frozen(self.payload),
        }
    }
}

/// The four bytes of a source.
pub open spec fn source_wire() -> spec_fn(u32) -> Seq<u8> {
    |ssrc: u32| be32(ssrc)
}

/// The `n` sources that stand at a place.
pub open spec fn sources_at(data: Seq<u8>, n: int) -> Seq<u32> {
    Seq::new(n as nat, |i: int| u32_at(data, 12 + i * 4))
}

/// Bits of the first byte, and of the second.
pub open spec fn flag(set: bool, weight: int) -> int {
    if set {
        weight
    } else {
        0
    }
}

impl PacketView {
    /// Where the header ends that begins with so many sources, its extension included.
    pub open spec fn payload_start(data: Seq<u8>) -> int {
        let sources = 12 + 4 * (data[0] % 16);
        if data[0] / 16 % 2 == 1 {
            sources + 4 + 4 * u16_at(data, sources + 2)
        } else {
            sources
        }
    }

    /// Whether the header is longer than the packet.
    pub open spec fn cut_short(data: Seq<u8>) -> bool {
        let sources = 12 + 4 * (data[0] % 16);
        data.len() < sources || data[0] / 16 % 2 == 1 && (data.len() < sources + 4 || data.len()
            < Self::payload_start(data))
    }

    /// The bytes of padding.
    pub open spec fn padding_of(data: Seq<u8>) -> int {
        if data[0] / 32 % 2 == 1 {
            data[data.len() - 1] as int
        } else {
            0
        }
    }

    /// The packet that bytes hold.
    pub open spec fn of_wire(data: Seq<u8>) -> Result<PacketView, RtpParseError> {
        let sources = 12 + 4 * (data[0] % 16);
        let start = Self::payload_start(data);
        if data.len() < 12 {
            Err(RtpParseError::TooShort(data.len() as usize))
        } else if data[0] / 64 != 2 {
            Err(RtpParseError::InvalidVersion((data[0] / 64) as u8))
        } else if Self::cut_short(data) {
            Err(RtpParseError::TooShort(data.len() as usize))
        } else if data[0] / 32 % 2 == 1 && !(0 < Self::padding_of(data) <= data.len() - start) {
            Err(RtpParseError::InvalidPadding)
        } else {
            Ok(
                PacketView {
                    version: 2,
                    padding: data[0] / 32 % 2 == 1,
                    extension: data[0] / 16 % 2 == 1,
                    marker: data[1] / 128 == 1,
                    payload_type: (data[1] % 128) as u8,
                    sequence_number: u16_at(data, 2),
                    timestamp: u32_at(data, 4),
                    ssrc: u32_at(data, 8),
                    csrc: sources_at(data, (data[0] % 16) as int),
                    extension_header: if data[0] / 16 % 2 == 1 {
                        Some(
                            ExtensionView {
                                profile: u16_at(data, sources),
                                data: data.subrange(sources + 4, start),
                            },
                        )
                    } else {
                        None
                    },
                    payload: data.subrange(start, data.len() - Self::padding_of(data)),
                },
            )
        }
    }

    /// The packet can be sent: the fields fit, and the extension is made of whole words.
    pub open spec fn sendable(self) -> bool {
        &&& self.version < 4
        &&& self.payload_type < 128
        &&& self.csrc.len() <= MAX_CSRC
        &&& match self.extension_header {
            Some(e) => e.data.len() % 4 == 0 && e.data.len() / 4 <= u16::MAX,
            None => true,
        }
    }

    /// The bytes of the extension.
    pub open spec fn extension_wire(self) -> Seq<u8> {
        match self.extension_header {
            Some(e) => be16(e.profile) + be16((e.data.len() / 4) as u16) + e.data,
            None => Seq::empty(),
        }
    }

    /// The fixed part of the header.
    pub open spec fn head(self) -> Seq<u8> {
        seq![
            (self.version * 64 + flag(self.extension_header is Some, 16) + self.csrc.len()) as u8,
            (flag(self.marker, 128) + self.payload_type) as u8,
        ] + be16(self.sequence_number) + be32(self.timestamp) + be32(self.ssrc)
    }

    /// The bytes of the packet, without padding.
    pub open spec fn wire(self) -> Seq<u8> {
        self.head() + flat(self.csrc, source_wire()) + self.extension_wire() + self.payload
    }
}

/// The bytes of a slice, frozen.
pub(crate) fn freeze_slice(data: &[u8]) -> (r: Bytes)
    requires
        fits(data@.len()),
    ensures
        frozen(r) == data@,
{
    let mut buf: BytesMut = new_buffer(data.len());
    put_slice(&mut buf, data);
    assert(written(buf) =~= data@);
    freeze(buf)
}

impl RtpPacket {
    /// Parse an RTP packet from bytes.
    pub fn parse(data: &[u8]) -> (r: Result<Self, RtpParseError>)
        requires
            fits(data@.len()),
        ensures
            match r {
                Ok(p) => PacketView::of_wire(data@) == Ok::<_, RtpParseError>(p@),
                Err(e) => PacketView::of_wire(data@) == Err::<PacketView, _>(e),
            },
    {
        let len: usize = data.len();
        if len < RTP_HEADER_SIZE {
            return Err(RtpParseError::TooShort(len));
        }
        let first: u8 = data[0];
        let version: u8 = first / 64;
        if version != 2 {
            return Err(RtpParseError::InvalidVersion(version));
        }
        let padding: bool = first / 32 % 2 == 1;
        let extension: bool = first / 16 % 2 == 1;
        let count: usize = (first % 16) as usize;
        let sources: usize = RTP_HEADER_SIZE + 4 * count;
        if len < sources {
            return Err(RtpParseError::TooShort(len));
        }
        let mut csrc: Vec<u32> = Vec::new();
        while csrc.len() < count
            invariant
                csrc@.len() <= count,
                count <= 15,
                len == data@.len(),
                len >= 12 + 4 * count,
                csrc@ == sources_at(data@, csrc@.len() as int),
            decreases count - csrc@.len(),
        {
            let at: usize = RTP_HEADER_SIZE + csrc.len() * 4;
            csrc.push(read_u32(data, at));
            assert(csrc@ =~= sources_at(data@, csrc@.len() as int));
        }
        let mut start: usize = sources;
        let mut extension_header: Option<RtpExtension> = None;
        if extension {
            if len - sources < 4 {
                return Err(RtpParseError::TooShort(len));
            }
            let profile: u16 = read_u16(data, sources);
            let words: usize = read_u16(data, sources + 2) as usize;
            if len - sources - 4 < 4 * words {
                return Err(RtpParseError::TooShort(len));
            }
            start = sources + 4 + 4 * words;
            extension_header = Some(
                RtpExtension { profile, data: freeze_slice(&data[sources + 4..start]) },
            );
        }
        let mut end: usize = len;
        if padding {
            let pad: usize = data[len - 1] as usize;
            if pad == 0 || pad > len - start {
                return Err(RtpParseError::InvalidPadding);
            }
            end = len - pad;
        }
        let p = RtpPacket {
            version,
            padding,
            extension,
            marker: data[1] / 128 == 1,
            payload_type: data[1] % 128,
            sequence_number: read_u16(data, 2),
            timestamp: read_u32(data, 4),
            ssrc: read_u32(data, 8),
            csrc,
            extension_header,
            payload: freeze_slice(&data[start..end]),
        };
        assert(PacketView::of_wire(data@)->Ok_0 =~= p@);
        Ok(p)
    }

    /// Build the packet to bytes, without padding.
    pub fn build(&self) -> (r: Bytes)
        requires
            self@.sendable(),
            fits(self@.wire().len()),
        ensures
            frozen(r) == self@.wire(),
    {
        let ghost v = self@;
        let ghost enc = source_wire();
        proof {
            lemma_flat_len(v.csrc, enc, 4);
        }
        let extended: u8 = match self.extension_header {
            Some(_) => 16,
            None => 0,
        };
        let marked: u8 = if self.marker {
            128
        } else {
            0
        };
        let mut buf: BytesMut = new_buffer(RTP_HEADER_SIZE);
        put_u8(&mut buf, self.version * 64 + extended + self.csrc.len() as u8);
        put_u8(&mut buf, marked + self.payload_type);
        put_u16(&mut buf, self.sequence_number);
        put_u32(&mut buf, self.timestamp);
        put_u32(&mut buf, self.ssrc);
        assert(written(buf) =~= v.head());
        let mut i: usize = 0;
        assert(written(buf) =~= v.head() + flat(v.csrc.take(0), enc));
        while i < self.csrc.len()
            invariant
                i <= self.csrc@.len(),
                v == self@,
                v.sendable(),
                enc == source_wire(),
                fits(v.wire().len()),
                flat(v.csrc, enc).len() == 4 * v.csrc.len(),
                written(buf) == v.head() + flat(v.csrc.take(i as int), enc),
            decreases self.csrc@.len() - i,
        {
            proof {
                lemma_flat_push(v.csrc, i as int, enc);
                lemma_flat_len(v.csrc.take(i as int), enc, 4);
            }
            put_u32(&mut buf, self.csrc[i]);
            i = i + 1;
            assert(written(buf) =~= v.head() + flat(v.csrc.take(i as int), enc));
        }
        assert(v.csrc.take(i as int) =~= v.csrc);
        let ghost before = written(buf);
        match &self.extension_header {
            Some(e) => {
                let words: &[u8] = bytes_as_slice(&e.data);
                put_u16(&mut buf, e.profile);
                put_u16(&mut buf, (words.len() / 4) as u16);
                put_slice(&mut buf, words);
            },
            None => {},
        }
        assert(written(buf) =~= before + v.extension_wire());
        put_slice(&mut buf, bytes_as_slice(&self.payload));
        assert(written(buf) =~= v.wire());
        freeze(buf)
    }
}

proof fn lemma_wire_head(v: PacketView)
    requires
        v.sendable(),
        v.version == 2,
    ensures
        ({
            let w = v.wire();
            &&& v.head().len() == 12
            &&& w.len() == 12 + 4 * v.csrc.len() + v.extension_wire().len() + v.payload.len()
            &&& w[0] / 64 == 2
            &&& w[0] / 32 % 2 == 0
            &&& w[0] / 16 % 2 == flag(v.extension_header is Some, 1)
            &&& w[0] % 16 == v.csrc.len()
            &&& w[1] / 128 == flag(v.marker, 1)
            &&& w[1] % 128 == v.payload_type
            &&& u16_at(w, 2) == v.sequence_number
            &&& u32_at(w, 4) == v.timestamp
            &&& u32_at(w, 8) == v.ssrc
        }),
{
    let w = v.wire();
    lemma_flat_len(v.csrc, source_wire(), 4);
    assert(w[0] == v.head()[0]);
    assert(w[1] == v.head()[1]);
    assert(w.subrange(2, 4) =~= be16(v.sequence_number));
    assert(w.subrange(4, 8) =~= be32(v.timestamp));
    assert(w.subrange(8, 12) =~= be32(v.ssrc));
    lemma_be16_read(w, 2, v.sequence_number);
    lemma_be32_read(w, 4, v.timestamp);
    lemma_be32_read(w, 8, v.ssrc);
}

proof fn lemma_wire_sources(v: PacketView)
    requires
        v.sendable(),
        v.version == 2,
    ensures
        sources_at(v.wire(), v.csrc.len() as int) == v.csrc,
{
    let w = v.wire();
    let n = v.csrc.len() as int;
    lemma_flat_len(v.csrc, source_wire(), 4);
    assert forall|i: int| 0 <= i < n implies #[trigger] sources_at(w, n)[i] == v.csrc[i] by {
        lemma_flat_at(v.csrc, source_wire(), 4, i);
        assert(w.subrange(12 + i * 4, 12 + i * 4 + 4) =~= flat(v.csrc, source_wire()).subrange(
            i * 4,
            i * 4 + 4,
        ));
        lemma_be32_read(w, 12 + i * 4, v.csrc[i]);
    }
    assert(sources_at(w, n) =~= v.csrc);
}

/// A packet that was built without padding is parsed to itself.
pub proof fn lemma_packet_round_trip(v: PacketView)
    requires
        v.sendable(),
        v.version == 2,
        !v.padding,
        v.extension == (v.extension_header is Some),
    ensures
        PacketView::of_wire(v.wire()) == Ok::<_, RtpParseError>(v),
{
    let w = v.wire();
    lemma_wire_head(v);
    lemma_wire_sources(v);
    let sources = (12 + 4 * v.csrc.len()) as int;
    match v.extension_header {
        Some(e) => {
            assert(w.subrange(sources, sources + 2) =~= be16(e.profile));
            assert(w.subrange(sources + 2, sources + 4) =~= be16((e.data.len() / 4) as u16));
            lemma_be16_read(w, sources, e.profile);
            lemma_be16_read(w, sources + 2, (e.data.len() / 4) as u16);
            assert(w.subrange(sources + 4, sources + 4 + e.data.len()) =~= e.data);
            assert(w.subrange(sources + 4 + e.data.len(), w.len() as int) =~= v.payload);
        },
        None => {
            assert(w.subrange(sources, w.len() as int) =~= v.payload);
        },
    }
    assert(PacketView::of_wire(w)->Ok_0 =~= v);
}

} // verus!
