//! The common RTCP header, packet types, parse errors and NTP timestamps.

use crate::buf::{be16, fits, put_u16, put_u8, read_u16, u16_at, written};
use bytes::BytesMut;
use vstd::prelude::*;

verus! {

broadcast use crate::buf::group_be_len;

/// RTCP packet types.
#[derive(Debug, Clone, Copy, PartialEq, Eq, Structural)]
pub enum RtcpType {
    /// Sender Report
    SenderReport,
    /// Receiver Report
    ReceiverReport,
    /// Source Description
    SourceDescription,
    /// Goodbye
    Goodbye,
    /// Application-defined
    ApplicationDefined,
    /// Transport-layer Feedback (RTPFB) - RFC 4585
    TransportFeedback,
    /// Payload-specific Feedback (PSFB) - RFC 4585
    PayloadFeedback,
}

/// RTCP parse error.
#[derive(Debug, Clone)]
pub enum RtcpParseError {
    /// The packet has only this many bytes.
    TooShort(usize),
    /// The version field is not 2.
    InvalidVersion(u8),
    /// The packet type is unknown, or not the one asked for.
    UnknownPacketType(u8),
    /// The header counts more report blocks than the packet holds.
    InvalidReportCount,
}

impl RtcpType {
    /// The packet type's number on the wire.
    pub open spec fn number(self) -> u8 {
        match self {
            RtcpType::SenderReport => 200,
            RtcpType::ReceiverReport => 201,
            RtcpType::SourceDescription => 202,
            RtcpType::Goodbye => 203,
            RtcpType::ApplicationDefined => 204,
            RtcpType::TransportFeedback => 205,
            RtcpType::PayloadFeedback => 206,
        }
    }

    /// The packet type with number `n`, if there is one.
    pub open spec fn of_number(n: u8) -> Result<RtcpType, RtcpParseError> {
        if n == 200 {
            Ok(RtcpType::SenderReport)
        } else if n == 201 {
            Ok(RtcpType::ReceiverReport)
        } else if n == 202 {
            Ok(RtcpType::SourceDescription)
        } else if n == 203 {
            Ok(RtcpType::Goodbye)
        } else if n == 204 {
            Ok(RtcpType::ApplicationDefined)
        } else if n == 205 {
            Ok(RtcpType::TransportFeedback)
        } else if n == 206 {
            Ok(RtcpType::PayloadFeedback)
        } else {
            Err(RtcpParseError::UnknownPacketType(n))
        }
    }

    /// The packet type's number on the wire.
    pub fn code(self) -> (n: u8)
        ensures
            n == self.number(),
    {
        match self {
            RtcpType::SenderReport => 200,
            RtcpType::ReceiverReport => 201,
            RtcpType::SourceDescription => 202,
            RtcpType::Goodbye => 203,
            RtcpType::ApplicationDefined => 204,
            RtcpType::TransportFeedback => 205,
            RtcpType::PayloadFeedback => 206,
        }
    }
}

impl TryFrom<u8> for RtcpType {
    type Error = RtcpParseError;

    fn try_from(value: u8) -> (r: Result<Self, RtcpParseError>) {
        match value {
            200 => Ok(RtcpType::SenderReport),
            201 => Ok(RtcpType::ReceiverReport),
            202 => Ok(RtcpType::SourceDescription),
            203 => Ok(RtcpType::Goodbye),
            204 => Ok(RtcpType::ApplicationDefined),
            205 => Ok(RtcpType::TransportFeedback),
            206 => Ok(RtcpType::PayloadFeedback),
            _ => Err(RtcpParseError::UnknownPacketType(value)),
        }
    }
}

impl vstd::std_specs::convert::TryFromSpecImpl<u8> for RtcpType {
    open spec fn obeys_try_from_spec() -> bool {
        true
    }

    open spec fn try_from_spec(v: u8) -> Result<Self, RtcpParseError> {
        RtcpType::of_number(v)
    }
}

/// A packet type's number determines it.
pub proof fn lemma_packet_type_number(t: RtcpType)
    ensures
        RtcpType::of_number(t.number()) == Ok::<RtcpType, RtcpParseError>(t),
{
}

/// Common RTCP header (4 bytes).
#[derive(Debug, Clone, Copy)]
pub struct RtcpHeader {
    /// Version (always 2).
    pub version: u8,
    /// Padding flag.
    pub padding: bool,
    /// Report count or subtype.
    pub count: u8,
    /// Packet type.
    pub packet_type: RtcpType,
    /// Length in 32-bit words minus one.
    pub length: u16,
}

/// The first header byte: two bits of version, one of padding, five of count.
pub open spec fn first_byte(version: u8, padding: bool, count: u8) -> u8 {
    ((version % 4) * 64 + (if padding {
        32int
    } else {
        0
    }) + count % 32) as u8
}

impl RtcpHeader {
    /// The header as bytes.
    pub open spec fn wire(self) -> Seq<u8> {
        seq![first_byte(self.version, self.padding, self.count), self.packet_type.number()]
            + be16(self.length)
    }

    /// The header that stands at the start of `data`.
    pub open spec fn of_wire(data: Seq<u8>) -> Result<RtcpHeader, RtcpParseError> {
        if data.len() < 4 {
            Err(RtcpParseError::TooShort(data.len() as usize))
        } else if data[0] / 64 != 2 {
            Err(RtcpParseError::InvalidVersion(data[0] / 64))
        } else {
            match RtcpType::of_number(data[1]) {
                Err(e) => Err(e),
                Ok(packet_type) => Ok(
                    RtcpHeader {
                        version: 2,
                        padding: data[0] / 32 % 2 == 1,
                        count: data[0] % 32,
                        packet_type,
                        length: u16_at(data, 2),
                    },
                ),
            }
        }
    }

    /// Parse RTCP header from bytes; the rest of the bytes comes back too.
    pub fn parse(data: &[u8]) -> (r: Result<(Self, &[u8]), RtcpParseError>)
        ensures
            match r {
                Ok((header, rest)) => RtcpHeader::of_wire(data@) == Ok::<_, RtcpParseError>(header)
                    && rest@ == data@.skip(4),
                Err(e) => RtcpHeader::of_wire(data@) == Err::<RtcpHeader, _>(e),
            },
    {
        if data.len() < 4 {
            return Err(RtcpParseError::TooShort(data.len()));
        }
        let first: u8 = data[0];
        let version: u8 = (first >> 6) & 0x03;
        let padding: bool = (first >> 5) & 0x01 == 1;
        let count: u8 = first & 0x1F;
        assert((first >> 6) & 0x03 == first / 64 && (first >> 5) & 0x01 == first / 32 % 2 && first
            & 0x1F == first % 32) by (bit_vector);
        if version != 2 {
            return Err(RtcpParseError::InvalidVersion(version));
        }
        let packet_type: RtcpType = match RtcpType::try_from(data[1]) {
            Ok(t) => t,
            Err(e) => return Err(e),
        };
        let length: u16 = read_u16(data, 2);
        Ok((RtcpHeader { version, padding, count, packet_type, length }, &data[4..data.len()]))
    }

    /// Build RTCP header to bytes.
    pub fn build(&self, buf: &mut BytesMut)
        requires
            fits(written(*old(buf)).len() + 4),
        ensures
            written(*final(buf)) == written(*old(buf)) + self.wire(),
    {
        let version: u8 = self.version;
        let count: u8 = self.count;
        let flag: u8 = if self.padding {
            1
        } else {
            0
        };
        let first: u8 = (version << 6) | (flag << 5) | (count & 0x1F);
        assert(first == (version % 4) * 64 + flag * 32 + count % 32) by (bit_vector)
            requires
                flag <= 1,
                first == (version << 6) | (flag << 5) | (count & 0x1F),
        ;
        put_u8(buf, first);
        put_u8(buf, self.packet_type.code());
        put_u16(buf, self.length);
        assert(written(*buf) =~= written(*old(buf)) + self.wire());
    }
}

/// Parsing what a header of version 2 was built to gives the header back, whatever follows it.
pub proof fn lemma_header_round_trip(header: RtcpHeader, rest: Seq<u8>)
    requires
        header.version == 2,
        header.count < 32,
    ensures
        RtcpHeader::of_wire(header.wire() + rest) == Ok::<_, RtcpParseError>(header),
        (header.wire() + rest).skip(4) == rest,
        header.wire().len() == 4,
{
    reveal(be16);
    let data = header.wire() + rest;
    assert(data[0] == first_byte(2, header.padding, header.count));
    assert(data[1] == header.packet_type.number());
    assert(data[2] == be16(header.length)[0]);
    assert(data[3] == be16(header.length)[1]);
    lemma_packet_type_number(header.packet_type);
    assert(data.skip(4) =~= rest);
}

/// NTP timestamp (64 bits: 32-bit seconds + 32-bit fraction).
#[derive(Debug, Clone, Copy)]
pub struct NtpTimestamp {
    /// Seconds since 1900.
    pub seconds: u32,
    /// Fractional seconds.
    pub fraction: u32,
}

impl Default for NtpTimestamp {
    fn default() -> (r: Self)
        ensures
            r == (NtpTimestamp { seconds: 0, fraction: 0 }),
    {
        NtpTimestamp { seconds: 0, fraction: 0 }
    }
}

/// NTP epoch offset from Unix epoch (1900 to 1970).
pub const NTP_UNIX_OFFSET: u64 = 2_208_988_800;

/// A point in time as the system clock gives it, opaque here.
#[verifier::external_type_specification]
#[verifier::external_body]
pub struct ExSystemTime(std::time::SystemTime);

/// The error for a time before another, opaque here.
#[verifier::external_type_specification]
#[verifier::external_body]
pub struct ExSystemTimeError(std::time::SystemTimeError);

/// `SystemTime::now`: what the clock says; nothing can be promised of it.
pub assume_specification[ std::time::SystemTime::now ]() -> (r: std::time::SystemTime)
;

/// `SystemTime::duration_since`, from the Unix epoch. It fails for a time before the epoch; no more
/// is said of a clock's reading.
#[verifier::external_body]
pub(crate) fn since_unix_epoch(t: std::time::SystemTime) -> (r: Result<
    std::time::Duration,
    std::time::SystemTimeError,
>) {
    t.duration_since(std::time::UNIX_EPOCH)
}

/// `Duration::as_secs`: the whole seconds of a span. A span here is a clock's reading, so nothing
/// is said of their number.
pub assume_specification[ std::time::Duration::as_secs ](d: &std::time::Duration) -> (n: u64)
;

/// `Duration::subsec_nanos`: the nanoseconds past the last whole second, fewer than a second's.
/// A span here is a clock's reading, so no more is said of their number.
pub assume_specification[ std::time::Duration::subsec_nanos ](d: &std::time::Duration) -> (n: u32)
    ensures
        n < 1_000_000_000,
;

impl NtpTimestamp {
    /// The timestamp of a Unix time: seconds since 1900 modulo 2^32, nanoseconds as a binary
    /// fraction of a second, rounded down.
    pub open spec fn of_unix(secs: u64, nanos: u32) -> NtpTimestamp {
        NtpTimestamp {
            seconds: ((secs + NTP_UNIX_OFFSET) % 0x1_0000_0000) as u32,
            fraction: (nanos * 0x1_0000_0000 / 1_000_000_000) as u32,
        }
    }

    /// Create NTP timestamp from a Unix time.
    pub fn from_unix(secs: u64, nanos: u32) -> (r: Self)
        requires
            nanos < 1_000_000_000,
        ensures
            r == NtpTimestamp::of_unix(secs, nanos),
    {
        let seconds: u64 = (secs % 0x1_0000_0000 + NTP_UNIX_OFFSET) % 0x1_0000_0000;
        let fraction: u64 = (nanos as u64 * 0x1_0000_0000) / 1_000_000_000;
        NtpTimestamp { seconds: seconds as u32, fraction: fraction as u32 }
    }

    /// Create NTP timestamp from current time.
    pub fn now() -> (r: Self)
        ensures
            exists|secs: u64, nanos: u32|
                nanos < 1_000_000_000 && r == #[trigger] NtpTimestamp::of_unix(secs, nanos),
    {
        match since_unix_epoch(std::time::SystemTime::now()) {
            Ok(d) => NtpTimestamp::from_unix(d.as_secs(), d.subsec_nanos()),
            Err(_) => NtpTimestamp::from_unix(0, 0),
        }
    }

    /// The middle 32 bits of the timestamp.
    pub open spec fn middle(self) -> u32 {
        ((self.seconds % 0x1_0000) * 0x1_0000 + self.fraction / 0x1_0000) as u32
    }

    /// The timestamp whose middle 32 bits are `compact` and whose other bits are 0.
    pub open spec fn of_middle(compact: u32) -> NtpTimestamp {
        NtpTimestamp {
            seconds: compact / 0x1_0000,
            fraction: ((compact % 0x1_0000) * 0x1_0000) as u32,
        }
    }

    /// Convert to compact 32-bit representation (middle 32 bits).
    pub fn compact(&self) -> (r: u32)
        ensures
            r == self.middle(),
    {
        (self.seconds % 0x1_0000) * 0x1_0000 + self.fraction / 0x1_0000
    }

    /// Create from compact 32-bit representation.
    pub fn from_compact(compact: u32) -> (r: Self)
        ensures
            r == NtpTimestamp::of_middle(compact),
    {
        NtpTimestamp { seconds: compact / 0x1_0000, fraction: (compact % 0x1_0000) * 0x1_0000 }
    }
}

/// The compact form keeps the low half of the seconds and the high half of the fraction, and
/// every 32-bit number is the compact form of the timestamp made from it.
pub proof fn lemma_compact_round_trip(t: NtpTimestamp, compact: u32)
    ensures
        NtpTimestamp::of_middle(t.middle()).seconds == t.seconds % 0x1_0000,
        NtpTimestamp::of_middle(t.middle()).fraction == t.fraction / 0x1_0000 * 0x1_0000,
        NtpTimestamp::of_middle(compact).middle() == compact,
{
}

} // verus!
