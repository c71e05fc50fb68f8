//! Call handler for voice conversations.
//!
//! Manages a single call's audio: what comes in is buffered for STT and VAD, what is to be said is
//! buffered and sent as RTP.

use super::audio::{generate_silence, silence, ResamplerError};
use super::pipeline::stt::SttError;
use super::pipeline::vad::elapsed;
use super::ulaw::{compress, decode_ulaw, encode_ulaw};
use crate::buf::{be16, be32, push_be16, push_be32};
use crate::media::codec::law::expand;
use crate::text::{concat, trim, trimmed};
use vstd::prelude::*;

verus! {

broadcast use crate::buf::group_be_len;

/// Bytes of an RTP header.
pub const RTP_HEADER_SIZE: usize = 12;

/// Samples of an RTP frame: 20 ms at 8 kHz.
pub const SAMPLES_PER_FRAME: usize = 160;

/// Payload type of mu-law audio.
pub const PCMU_PAYLOAD_TYPE: u8 = 0;

/// Most samples that wait to be sent: 30 seconds at 8 kHz.
pub const MAX_OUTPUT_BUFFER_SAMPLES: usize = 240000;

/// Most samples that wait for STT: 10 seconds at 16 kHz.
pub const MAX_STT_BUFFER_SAMPLES: usize = 160000;

/// Most samples that wait for VAD: 10 seconds at 8 kHz.
pub const MAX_VAD_BUFFER_SAMPLES: usize = 80000;

/// Samples that STT takes at once: 200 ms at 16 kHz.
pub const STT_CHUNK: usize = 3200;

/// Samples that VAD takes at once: 200 ms at 8 kHz.
pub const VAD_CHUNK: usize = 1600;

/// Default call timeout in seconds (if not configured): 5 minutes.
pub const DEFAULT_CALL_TIMEOUT_SECS: u64 = 300;

/// Nanoseconds in a second.
pub const NANOS_PER_SEC: u128 = 1_000_000_000;

/// Call handler managing a single voice conversation. Times are in nanoseconds.
#[derive(Debug, Clone)]
pub struct CallHandler {
    pub call_id: String,
    pub rtp_sequence: u16,
    pub rtp_timestamp: u32,
    pub rtp_ssrc: u32,
    pub output_buffer: Vec<i16>,
    pub stt_buffer: Vec<i16>,
    /// Aligned with STT processing
    pub vad_buffer: Vec<i16>,
    pub greeted: bool,
    pub last_activity: u128,
    pub call_timeout: u128,
}

/// What is to be done about a packet.
#[derive(Debug, Clone, Copy, PartialEq, Eq, Structural)]
pub struct PacketStep {
    /// Whether the caller is to be greeted.
    pub greet: bool,
    /// Whether there is audio in it.
    pub audio: bool,
}

/// The last `max` samples, or all of them where there are no more.
pub open spec fn latest(s: Seq<i16>, max: int) -> Seq<i16> {
    if s.len() > max {
        s.skip(s.len() - max)
    } else {
        s
    }
}

/// Appends samples, and drops the oldest where there are more than `max`.
fn extend_capped(buffer: &mut Vec<i16>, samples: &[i16], max: usize)
    ensures
        final(buffer)@ == latest(old(buffer)@ + samples@, max as int),
{
    let mut i: usize = 0;
    assert(buffer@ =~= old(buffer)@ + samples@.take(0));
    while i < samples.len()
        invariant
            i <= samples@.len(),
            buffer@ == old(buffer)@ + samples@.take(i as int),
        decreases samples@.len() - i,
    {
        buffer.push(samples[i]);
        i = i + 1;
        assert(buffer@ =~= old(buffer)@ + samples@.take(i as int));
    }
    assert(samples@.take(i as int) =~= samples@);
    if buffer.len() > max {
        let excess: usize = buffer.len() - max;
        let rest: Vec<i16> = buffer.split_off(excess);
        *buffer = rest;
        assert(buffer@ =~= latest(old(buffer)@ + samples@, max as int));
    }
}

/// Takes the first `n` samples out.
fn take_front(buffer: &mut Vec<i16>, n: usize) -> (r: Vec<i16>)
    requires
        n <= old(buffer)@.len(),
    ensures
        r@ == old(buffer)@.take(n as int),
        final(buffer)@ == old(buffer)@.skip(n as int),
{
    let mut front: Vec<i16> = buffer.split_off(n);
    std::mem::swap(&mut front, buffer);
    assert(buffer@ =~= old(buffer)@.skip(n as int));
    assert(front@ =~= old(buffer)@.take(n as int));
    front
}

/// The samples that mu-law codes stand for.
pub open spec fn expanded(codes: Seq<u8>) -> Seq<i16> {
    codes.map_values(|c: u8| expand(c) as i16)
}

/// The mu-law codes of samples.
pub open spec fn compressed(samples: Seq<i16>) -> Seq<u8> {
    samples.map_values(|s: i16| compress(s) as u8)
}

/// An RTP packet of mu-law audio: version 2, no padding, extension, sources or marker.
pub open spec fn rtp_packet(sequence: u16, timestamp: u32, ssrc: u32, samples: Seq<i16>) -> Seq<
    u8,
> {
    seq![0x80u8, PCMU_PAYLOAD_TYPE] + be16(sequence) + be32(timestamp) + be32(ssrc) + compressed(
        samples,
    )
}

/// What a caller hears first.
pub fn greeting() -> (r: &'static str)
    ensures
        r@ == "Hello! I'm Gabby, your voice AI assistant. How can I help you today?"@,
{
    "Hello! I'm Gabby, your voice AI assistant. How can I help you today?"
}

/// Whether the user has said something in an utterance that has ended.
pub fn is_turn(transcript: &str) -> (r: bool)
    ensures
        r == (trimmed(transcript@).len() > 0),
{
    !trim(transcript).is_empty()
}

impl CallHandler {
    /// Create a new call handler, at a time and with a source of its own.
    pub fn new(call_id: String, call_timeout_secs: Option<u64>, rtp_ssrc: u32, now: u128) -> (r:
        Self)
        ensures
            r.call_id == call_id,
            r.rtp_sequence == 0,
            r.rtp_timestamp == 0,
            r.rtp_ssrc == rtp_ssrc,
            r.output_buffer@ == Seq::<i16>::empty(),
            r.stt_buffer@ == Seq::<i16>::empty(),
            r.vad_buffer@ == Seq::<i16>::empty(),
            !r.greeted,
            r.last_activity == now,
            r.call_timeout == NANOS_PER_SEC * match call_timeout_secs {
                Some(secs) => secs,
                None => DEFAULT_CALL_TIMEOUT_SECS,
            },
    {
        let secs: u64 = match call_timeout_secs {
            Some(secs) => secs,
            None => DEFAULT_CALL_TIMEOUT_SECS,
        };
        CallHandler {
            call_id,
            rtp_sequence: 0,
            rtp_timestamp: 0,
            rtp_ssrc,
            output_buffer: Vec::new(),
            stt_buffer: Vec::new(),
            vad_buffer: Vec::new(),
            greeted: false,
            last_activity: now,
            call_timeout: secs as u128 * NANOS_PER_SEC,
        }
    }

    /// A packet of so many bytes is in, at a time. The first one is greeted: the call is
    /// established.
    pub fn on_packet(&mut self, len: usize, now: u128) -> (r: PacketStep)
        ensures
            r == (PacketStep { greet: !old(self).greeted, audio: len > RTP_HEADER_SIZE }),
            *final(self) == (CallHandler { greeted: true, last_activity: now, ..*old(self) }),
    {
        self.last_activity = now;
        let greet: bool = !self.greeted;
        self.greeted = true;
        PacketStep { greet, audio: len > RTP_HEADER_SIZE }
    }

    /// Whether nothing has come for longer than the timeout.
    pub fn is_timed_out(&self, now: u128) -> (r: bool)
        ensures
            r == (elapsed(self.last_activity, now) > self.call_timeout),
    {
        now > self.last_activity && now - self.last_activity > self.call_timeout
    }

    /// The samples of an RTP packet: its payload, decoded from mu-law.
    pub fn decode_packet(data: &[u8]) -> (r: Vec<i16>)
        requires
            data@.len() >= RTP_HEADER_SIZE,
        ensures
            r@ == expanded(data@.skip(RTP_HEADER_SIZE as int)),
    {
        let n: usize = data.len();
        let ghost payload = data@.skip(RTP_HEADER_SIZE as int);
        let mut out: Vec<i16> = Vec::new();
        let mut i: usize = RTP_HEADER_SIZE;
        while i < n
            invariant
                RTP_HEADER_SIZE <= i <= n,
                n == data@.len(),
                payload == data@.skip(RTP_HEADER_SIZE as int),
                out@.len() == i - RTP_HEADER_SIZE,
                forall|k: int|
                    0 <= k < out@.len() ==> #[trigger] out@[k] == expanded(payload)[k],
            decreases n - i,
        {
            let s: i16 = decode_ulaw(data[i]);
            out.push(s);
            i = i + 1;
        }
        assert(out@ =~= expanded(payload));
        out
    }

    /// Buffers samples of a packet, and the same resampled for STT. The oldest go where too many
    /// wait.
    pub fn buffer_audio(&mut self, samples: &[i16], resampled: &[i16])
        ensures
            *final(self) == (CallHandler {
                stt_buffer: final(self).stt_buffer,
                vad_buffer: final(self).vad_buffer,
                ..*old(self)
            }),
            final(self).stt_buffer@ == latest(
                old(self).stt_buffer@ + resampled@,
                MAX_STT_BUFFER_SAMPLES as int,
            ),
            final(self).vad_buffer@ == latest(
                old(self).vad_buffer@ + samples@,
                MAX_VAD_BUFFER_SAMPLES as int,
            ),
    {
        extend_capped(&mut self.stt_buffer, resampled, MAX_STT_BUFFER_SAMPLES);
        extend_capped(&mut self.vad_buffer, samples, MAX_VAD_BUFFER_SAMPLES);
    }

    /// The next 200 ms of audio, for STT and for VAD, once there is as much of both.
    pub fn next_chunk(&mut self) -> (r: Option<(Vec<i16>, Vec<i16>)>)
        ensures
            *final(self) == (CallHandler {
                stt_buffer: final(self).stt_buffer,
                vad_buffer: final(self).vad_buffer,
                ..*old(self)
            }),
            match r {
                Some((stt, vad)) => {
                    &&& old(self).stt_buffer@.len() >= STT_CHUNK
                    &&& old(self).vad_buffer@.len() >= VAD_CHUNK
                    &&& stt@ == old(self).stt_buffer@.take(STT_CHUNK as int)
                    &&& vad@ == old(self).vad_buffer@.take(VAD_CHUNK as int)
                    &&& final(self).stt_buffer@ == old(self).stt_buffer@.skip(STT_CHUNK as int)
                    &&& final(self).vad_buffer@ == old(self).vad_buffer@.skip(VAD_CHUNK as int)
                },
                None => {
                    &&& old(self).stt_buffer@.len() < STT_CHUNK || old(self).vad_buffer@.len()
                        < VAD_CHUNK
                    &&& *final(self) == *old(self)
                },
            },
    {
        if self.stt_buffer.len() < STT_CHUNK || self.vad_buffer.len() < VAD_CHUNK {
            return None;
        }
        let stt: Vec<i16> = take_front(&mut self.stt_buffer, STT_CHUNK);
        let vad: Vec<i16> = take_front(&mut self.vad_buffer, VAD_CHUNK);
        Some((stt, vad))
    }

    /// Queues samples for playback. The oldest go where too many wait.
    pub fn queue_output(&mut self, samples: &[i16])
        ensures
            *final(self) == (CallHandler { output_buffer: final(self).output_buffer, ..*old(self) }),
            final(self).output_buffer@ == latest(
                old(self).output_buffer@ + samples@,
                MAX_OUTPUT_BUFFER_SAMPLES as int,
            ),
    {
        extend_capped(&mut self.output_buffer, samples, MAX_OUTPUT_BUFFER_SAMPLES);
    }

    /// The RTP packet to be sent next: 20 ms of what is queued, or of silence where less is.
    pub fn next_frame(&mut self) -> (r: Vec<u8>)
        ensures
            *final(self) == (CallHandler {
                rtp_sequence: (if old(self).rtp_sequence == u16::MAX {
                    0
                } else {
                    old(self).rtp_sequence + 1
                }) as u16,
                rtp_timestamp: ((old(self).rtp_timestamp + SAMPLES_PER_FRAME) % 0x1_0000_0000)
                    as u32,
                output_buffer: final(self).output_buffer,
                ..*old(self)
            }),
            ({
                let queued = old(self).output_buffer@;
                let full = queued.len() >= SAMPLES_PER_FRAME;
                &&& final(self).output_buffer@ == if full {
                    queued.skip(SAMPLES_PER_FRAME as int)
                } else {
                    queued
                }
                &&& r@ == rtp_packet(
                    old(self).rtp_sequence,
                    old(self).rtp_timestamp,
                    old(self).rtp_ssrc,
                    if full {
                        queued.take(SAMPLES_PER_FRAME as int)
                    } else {
                        silence(SAMPLES_PER_FRAME as int)
                    },
                )
            }),
    {
        let samples: Vec<i16> = if self.output_buffer.len() >= SAMPLES_PER_FRAME {
            take_front(&mut self.output_buffer, SAMPLES_PER_FRAME)
        } else {
            generate_silence(SAMPLES_PER_FRAME)
        };
        let mut packet: Vec<u8> = Vec::new();
        packet.push(0x80);
        packet.push(PCMU_PAYLOAD_TYPE);
        assert(packet@ =~= seq![0x80u8, PCMU_PAYLOAD_TYPE]);
        push_be16(&mut packet, self.rtp_sequence);
        self.rtp_sequence = self.rtp_sequence.wrapping_add(1);
        push_be32(&mut packet, self.rtp_timestamp);
        self.rtp_timestamp = self.rtp_timestamp.wrapping_add(SAMPLES_PER_FRAME as u32);
        push_be32(&mut packet, self.rtp_ssrc);
        let ghost header = packet@;
        let mut i: usize = 0;
        assert(packet@ =~= header + compressed(samples@.take(0)));
        while i < samples.len()
            invariant
                i <= samples@.len(),
                packet@ == header + compressed(samples@.take(i as int)),
            decreases samples@.len() - i,
        {
            packet.push(encode_ulaw(samples[i]));
            i = i + 1;
            assert(packet@ =~= header + compressed(samples@.take(i as int)));
        }
        assert(samples@.take(i as int) =~= samples@);
        packet
    }
}

/// Call handler errors.
#[derive(Debug, Clone)]
pub enum CallError {
    /// A socket failed, in its own words.
    Io(String),
    Stt(SttError),
    Resampler(ResamplerError),
}

impl CallError {
    /// What the error says.
    pub open spec fn text(self) -> Seq<char> {
        match self {
            CallError::Io(e) => "IO: "@ + e@,
            CallError::Stt(e) => "STT: "@ + e.text(),
            CallError::Resampler(e) => "Resampler: "@ + e.text(),
        }
    }

    /// What the error says.
    pub fn describe(&self) -> (r: String)
        ensures
            r@ == self.text(),
    {
        match self {
            CallError::Io(e) => concat("IO: ", e.as_str()),
            CallError::Stt(e) => concat("STT: ", e.describe().as_str()),
            CallError::Resampler(e) => concat("Resampler: ", e.describe().as_str()),
        }
    }
}

/// However much comes in, no more waits than may.
pub proof fn lemma_buffers_bounded(waiting: Seq<i16>, samples: Seq<i16>, max: int)
    requires
        0 <= max,
    ensures
        latest(waiting + samples, max).len() <= max,
        latest(waiting + samples, max).is_suffix_of(waiting + samples),
{
}

/// Every frame is as long as 20 ms of audio and a header.
pub proof fn lemma_frame_len(sequence: u16, timestamp: u32, ssrc: u32, samples: Seq<i16>)
    requires
        samples.len() == SAMPLES_PER_FRAME,
    ensures
        rtp_packet(sequence, timestamp, ssrc, samples).len() == RTP_HEADER_SIZE + SAMPLES_PER_FRAME,
{
}

} // verus!
