//! Adaptive jitter buffer implementation.
//!
//! Buffers incoming RTP packets to smooth out network jitter and handle
//! packet reordering and loss. Uses adaptive delay estimation.

use crate::rtp::sequence::{ahead, sequence_diff};
use std::collections::BTreeMap;
use vstd::prelude::*;

verus! {

broadcast use vstd::std_specs::btree::group_btree_axioms;

/// Jitter buffer configuration.
#[derive(Debug, Clone, Copy, PartialEq, Eq, Structural)]
pub struct JitterBufferConfig {
    /// Minimum buffer delay in milliseconds.
    pub min_delay_ms: u32,
    /// Maximum buffer delay in milliseconds.
    pub max_delay_ms: u32,
    /// Initial buffer delay in milliseconds.
    pub initial_delay_ms: u32,
    /// Clock rate (samples per second).
    pub clock_rate: u32,
    /// Samples per packet (e.g., 160 for 20ms @ 8kHz).
    pub samples_per_packet: u32,
}

impl Default for JitterBufferConfig {
    fn default() -> (r: Self)
        ensures
            r == JitterBufferConfig::narrow_band(),
    {
        JitterBufferConfig {
            min_delay_ms: 20,
            max_delay_ms: 200,
            initial_delay_ms: 60,
            clock_rate: 8000,
            samples_per_packet: 160,
        }
    }
}

impl JitterBufferConfig {
    /// 20 ms packets at 8 kHz, delayed by 60 ms, and by 20 to 200 ms once the jitter is known.
    pub open spec fn narrow_band() -> JitterBufferConfig {
        JitterBufferConfig {
            min_delay_ms: 20,
            max_delay_ms: 200,
            initial_delay_ms: 60,
            clock_rate: 8000,
            samples_per_packet: 160,
        }
    }

    /// The delays are numbers of samples that fit, and neither rate is zero.
    pub open spec fn wf(self) -> bool {
        &&& self.clock_rate > 0
        &&& self.samples_per_packet > 0
        &&& self.min_delay_ms * self.clock_rate <= u32::MAX
        &&& self.max_delay_ms * self.clock_rate <= u32::MAX
        &&& self.initial_delay_ms * self.clock_rate <= u32::MAX
    }

    /// Whether the delays that a buffer begins with are filled by a single packet.
    pub open spec fn one_packet_suffices(self) -> bool {
        &&& self.samples_in(self.initial_delay_ms) < 2 * self.samples_per_packet
        &&& self.samples_in(self.min_delay_ms) < 2 * self.samples_per_packet
    }

    /// So many milliseconds, in samples.
    pub open spec fn samples_in(self, ms: u32) -> int {
        ms * self.clock_rate / 1000
    }

    /// So many samples, in milliseconds.
    pub open spec fn millis_of(self, samples: u32) -> int {
        samples * 1000 / (self.clock_rate as int)
    }

    /// Create config for G.711 at 8kHz with 20ms packets.
    pub fn g711() -> (r: Self)
        ensures
            r == JitterBufferConfig::narrow_band(),
    {
        Self::default()
    }

    /// Convert milliseconds to samples.
    pub fn ms_to_samples(&self, ms: u32) -> (r: u32)
        requires
            ms * self.clock_rate <= u32::MAX,
        ensures
            r == self.samples_in(ms),
            r * 1000 <= ms * self.clock_rate,
    {
        ms * self.clock_rate / 1000
    }

    /// Convert samples to milliseconds.
    pub fn samples_to_ms(&self, samples: u32) -> (r: u32)
        requires
            samples * 1000 <= u32::MAX,
            self.clock_rate > 0,
        ensures
            r == self.millis_of(samples),
    {
        samples * 1000 / self.clock_rate
    }
}

/// A packet stored in the jitter buffer.
#[derive(Debug, Clone)]
pub struct BufferedPacket {
    /// RTP sequence number.
    pub sequence: u16,
    /// RTP timestamp.
    pub timestamp: u32,
    /// Decoded audio samples.
    pub samples: Vec<i16>,
    /// When packet was received, in nanoseconds.
    pub received_at: u128,
}

/// What a stored packet holds.
#[verifier::ext_equal]
pub struct PacketView {
    pub sequence: u16,
    pub timestamp: u32,
    pub samples: Seq<i16>,
    pub received_at: u128,
}

impl View for BufferedPacket {
    type V = PacketView;

    open spec fn view(&self) -> PacketView {
        PacketView {
            sequence: self.sequence,
            timestamp: self.timestamp,
            samples: self.samples@,
            received_at: self.received_at,
        }
    }
}

/// Decision made by the jitter buffer.
#[derive(Debug, Clone, Copy, PartialEq, Eq, Structural)]
pub enum PlayoutDecision {
    /// Play the next packet normally.
    Play,
    /// Expand (stretch) audio to increase delay.
    Expand,
    /// Conceal a lost packet with generated audio.
    Conceal,
    /// Accelerate (compress) audio to decrease delay.
    Accelerate,
    /// No audio available yet (buffer underrun).
    Silence,
}

/// Statistics from the jitter buffer.
#[derive(Debug, Clone, Copy, PartialEq, Eq, Structural)]
pub struct JitterStats {
    /// Packets received.
    pub packets_received: u64,
    /// Packets played out.
    pub packets_played: u64,
    /// Packets lost (never arrived).
    pub packets_lost: u64,
    /// Packets arrived too late (discarded).
    pub packets_late: u64,
    /// Packets duplicated (discarded).
    pub packets_duplicate: u64,
    /// Current buffer depth in packets.
    pub buffer_depth: usize,
    /// Current target delay in ms.
    pub target_delay_ms: u32,
}

impl JitterStats {
    /// Nothing has happened.
    pub open spec fn zero() -> JitterStats {
        JitterStats {
            packets_received: 0,
            packets_played: 0,
            packets_lost: 0,
            packets_late: 0,
            packets_duplicate: 0,
            buffer_depth: 0,
            target_delay_ms: 0,
        }
    }

    /// Every counter can count one more.
    pub open spec fn has_room(self) -> bool {
        &&& self.packets_received < u64::MAX
        &&& self.packets_played < u64::MAX
        &&& self.packets_lost < u64::MAX
        &&& self.packets_late < u64::MAX
        &&& self.packets_duplicate < u64::MAX
    }
}

impl Default for JitterStats {
    fn default() -> (r: Self)
        ensures
            r == JitterStats::zero(),
    {
        JitterStats {
            packets_received: 0,
            packets_played: 0,
            packets_lost: 0,
            packets_late: 0,
            packets_duplicate: 0,
            buffer_depth: 0,
            target_delay_ms: 0,
        }
    }
}

/// Adaptive jitter buffer.
///
/// The jitter itself is estimated elsewhere and handed in with each packet, in samples.
#[derive(Debug)]
pub struct JitterBuffer {
    pub config: JitterBufferConfig,
    /// Packets stored by timestamp.
    pub packets: BTreeMap<u32, BufferedPacket>,
    /// Current target delay in samples.
    pub target_delay: u32,
    /// Expected next sequence number.
    pub next_seq: Option<u16>,
    /// Expected next timestamp for playout.
    pub next_playout_ts: Option<u32>,
    /// Statistics.
    pub stats: JitterStats,
    /// Last played samples (for PLC).
    pub last_samples: Vec<i16>,
    /// Whether buffer is primed (has initial delay worth of packets).
    pub primed: bool,
    /// Time when first packet arrived, in nanoseconds.
    pub first_packet_time: Option<u128>,
}

/// What a jitter buffer holds.
#[verifier::ext_equal]
pub struct JitterView {
    pub config: JitterBufferConfig,
    pub packets: Map<u32, PacketView>,
    pub target_delay: u32,
    pub next_seq: Option<u16>,
    pub next_playout_ts: Option<u32>,
    pub stats: JitterStats,
    pub last_samples: Seq<i16>,
    pub primed: bool,
    pub first_packet_time: Option<u128>,
}

impl View for JitterBuffer {
    type V = JitterView;

    open spec fn view(&self) -> JitterView {
        JitterView {
            config: self.config,
            packets: self.packets@.map_values(|p: BufferedPacket| p@),
            target_delay: self.target_delay,
            next_seq: self.next_seq,
            next_playout_ts: self.next_playout_ts,
            stats: self.stats,
            last_samples: self.last_samples@,
            primed: self.primed,
            first_packet_time: self.first_packet_time,
        }
    }
}

/// So many samples of silence.
pub open spec fn silence(n: u32) -> Seq<i16> {
    Seq::new(n as nat, |i: int| 0i16)
}

/// The target delay that a jitter calls for: twice the jitter, within the configured limits.
pub open spec fn wanted_delay(config: JitterBufferConfig, jitter: u32) -> int {
    let low = config.samples_in(config.min_delay_ms);
    let high = config.samples_in(config.max_delay_ms);
    let raised = if 2 * jitter > low {
        2 * jitter
    } else {
        low
    };
    if raised < high {
        raised
    } else {
        high
    }
}

/// The target delay after one step towards the one wanted: a quarter of the way up, or a sixteenth
/// of the way down.
pub open spec fn adapted(target: int, wanted: int) -> int {
    if wanted > target {
        target + (wanted - target) / 4
    } else {
        target - (target - wanted) / 16
    }
}

/// Whether a packet is the earliest by the number of its timestamp.
pub open spec fn is_earliest(packets: Map<u32, PacketView>, ts: u32) -> bool {
    packets.contains_key(ts) && forall|k: u32| #[trigger] packets.contains_key(k) ==> ts <= k
}

/// The timestamp of the packet with the least one.
pub open spec fn earliest(packets: Map<u32, PacketView>) -> Option<u32> {
    if exists|ts: u32| is_earliest(packets, ts) {
        Some(choose|ts: u32| is_earliest(packets, ts))
    } else {
        None
    }
}

impl JitterView {
    /// A buffer that has received nothing.
    pub open spec fn started(config: JitterBufferConfig) -> JitterView {
        JitterView {
            config,
            packets: Map::empty(),
            target_delay: config.samples_in(config.initial_delay_ms) as u32,
            next_seq: None,
            next_playout_ts: None,
            stats: JitterStats::zero(),
            last_samples: silence(config.samples_per_packet),
            primed: false,
            first_packet_time: None,
        }
    }

    /// The delay is one that the statistics can give in milliseconds, and they give the number of
    /// packets held.
    pub open spec fn wf(self) -> bool {
        &&& self.config.wf()
        &&& self.target_delay * 1000 <= u32::MAX
        &&& self.packets.dom().finite()
        &&& self.stats.buffer_depth == self.packets.len()
    }

    /// The buffer with one more packet received. The first one tells what to expect.
    pub open spec fn received(self, sequence: u16, timestamp: u32, now: u128) -> JitterView {
        let stats = JitterStats {
            packets_received: (self.stats.packets_received + 1) as u64,
            ..self.stats
        };
        if self.first_packet_time is None {
            JitterView {
                stats,
                first_packet_time: Some(now),
                next_seq: Some(sequence),
                next_playout_ts: Some(timestamp),
                ..self
            }
        } else {
            JitterView { stats, ..self }
        }
    }

    /// Whether a timestamp lies before what is played next.
    pub open spec fn too_late(self, timestamp: u32) -> bool {
        match self.next_playout_ts {
            Some(ts) => behind(timestamp, ts) < 0,
            None => false,
        }
    }

    /// The sequence number expected after one that has come: the next, unless it is an old one.
    pub open spec fn expecting(self, sequence: u16) -> Option<u16> {
        match self.next_seq {
            Some(expected) => if ahead(sequence, expected) >= 0 {
                Some(((sequence + 1) % 0x1_0000) as u16)
            } else {
                Some(expected)
            },
            None => None,
        }
    }

    /// The buffer after a step of adaptation to a jitter.
    pub open spec fn adapting(self, jitter: u32) -> JitterView {
        let target_delay = adapted(
            self.target_delay as int,
            wanted_delay(self.config, jitter),
        ) as u32;
        JitterView {
            target_delay,
            stats: JitterStats {
                target_delay_ms: self.config.millis_of(target_delay) as u32,
                ..self.stats
            },
            ..self
        }
    }

    /// Whether there are packets enough for the target delay, and at least one.
    pub open spec fn filled(self) -> bool {
        let needed = self.target_delay / self.config.samples_per_packet;
        self.packets.len() >= needed && self.packets.len() >= 1
    }

    /// The jitter that a packet adapts the delay to. The first packet has none, as there is no
    /// other to compare its arrival with.
    pub open spec fn heeded(self, jitter: u32) -> u32 {
        if self.first_packet_time is None {
            0
        } else {
            jitter
        }
    }

    /// The buffer after a packet, and whether the packet was accepted.
    pub open spec fn pushed(
        self,
        sequence: u16,
        timestamp: u32,
        samples: Seq<i16>,
        jitter: u32,
        now: u128,
    ) -> (JitterView, bool) {
        let v = self.received(sequence, timestamp, now);
        if v.packets.contains_key(timestamp) {
            let stats = JitterStats {
                packets_duplicate: (v.stats.packets_duplicate + 1) as u64,
                ..v.stats
            };
            (JitterView { stats, ..v }, false)
        } else if v.too_late(timestamp) {
            let stats = JitterStats {
                packets_late: (v.stats.packets_late + 1) as u64,
                ..v.stats
            };
            (JitterView { stats, ..v }, false)
        } else {
            let packets = v.packets.insert(
                timestamp,
                PacketView { sequence, timestamp, samples, received_at: now },
            );
            let stored = JitterView {
                next_seq: v.expecting(sequence),
                packets,
                stats: JitterStats { buffer_depth: packets.len() as usize, ..v.stats },
                ..v
            }.adapting(self.heeded(jitter));
            (JitterView { primed: stored.primed || stored.filled(), ..stored }, true)
        }
    }

    /// The buffer that plays on behind the frame of a timestamp.
    pub open spec fn past(self, ts: u32) -> JitterView {
        JitterView {
            next_playout_ts: Some(
                ((ts + self.config.samples_per_packet) % 0x1_0000_0000) as u32,
            ),
            ..self
        }
    }

    /// The buffer from which the packet of a timestamp is played.
    pub open spec fn playing(self, ts: u32) -> JitterView {
        let packets = self.packets.remove(ts);
        JitterView {
            packets,
            last_samples: self.packets[ts].samples,
            stats: JitterStats {
                packets_played: (self.stats.packets_played + 1) as u64,
                buffer_depth: packets.len() as usize,
                ..self.stats
            },
            ..self
        }
    }

    /// The buffer that conceals a loss with samples.
    pub open spec fn concealing(self, faded: Seq<i16>) -> JitterView {
        JitterView {
            last_samples: faded,
            stats: JitterStats {
                packets_lost: (self.stats.packets_lost + 1) as u64,
                buffer_depth: self.packets.len() as usize,
                ..self.stats
            },
            ..self
        }
    }

    /// The timestamp of the frame that is taken next: the one that is due, or the one that is
    /// skipped to.
    pub open spec fn frame(self) -> u32 {
        match (self.next_playout_ts, earliest(self.packets)) {
            (Some(due), Some(ts)) => if !self.packets.contains_key(due) && self.far(ts, due) {
                ts
            } else {
                due
            },
            (Some(due), None) => due,
            _ => 0,
        }
    }

    /// Whether a packet lies so far ahead of the frame that is due that it is skipped to.
    pub open spec fn far(self, ts: u32, due: u32) -> bool {
        behind(ts, due) > signed(self.config.samples_per_packet) && behind(ts, due)
            > self.target_delay * 2
    }

    /// The buffer after the next frame has been taken from it, the decision on the frame, and its
    /// samples. What conceals a loss is given.
    ///
    /// A packet that is due is played. One that is far ahead is played at once, and playing goes
    /// on behind it; otherwise the loss is concealed.
    pub open spec fn popped(self, faded: Seq<i16>) -> (JitterView, PlayoutDecision, Seq<i16>) {
        let quiet = silence(self.config.samples_per_packet);
        match self.next_playout_ts {
            Some(due) => if !self.primed {
                (self, PlayoutDecision::Silence, quiet)
            } else {
                let next = self.past(due);
                if self.packets.contains_key(due) {
                    (next.playing(due), PlayoutDecision::Play, self.packets[due].samples)
                } else {
                    match earliest(self.packets) {
                        Some(ts) => if self.far(ts, due) {
                            (
                                self.past(ts).playing(ts),
                                PlayoutDecision::Accelerate,
                                self.packets[ts].samples,
                            )
                        } else {
                            (next.concealing(faded), PlayoutDecision::Conceal, faded)
                        },
                        None => (next.concealing(faded), PlayoutDecision::Conceal, faded),
                    }
                }
            },
            None => (self, PlayoutDecision::Silence, quiet),
        }
    }
}

/// A vector of silence.
fn quiet(n: u32) -> (r: Vec<i16>)
    ensures
        r@ == silence(n),
{
    let mut v: Vec<i16> = Vec::new();
    let mut i: u32 = 0;
    while i < n
        invariant
            i <= n,
            v@ == silence(i),
        decreases n - i,
    {
        v.push(0);
        i = i + 1;
        assert(v@ =~= silence(i));
    }
    v
}

/// A vector with the same samples.
fn copy_of(v: &Vec<i16>) -> (r: Vec<i16>)
    ensures
        r@ == v@,
{
    let mut out: Vec<i16> = Vec::new();
    let mut i: usize = 0;
    while i < v.len()
        invariant
            i <= v@.len(),
            out@ == v@.take(i as int),
        decreases v@.len() - i,
    {
        out.push(v[i]);
        i = i + 1;
        assert(out@ =~= v@.take(i as int));
    }
    assert(v@.take(i as int) =~= v@);
    out
}

/// `BTreeMap::first_key_value`: the entry with the least key, if there is any entry. Here the key
/// alone.
#[verifier::external_body]
fn first_timestamp(packets: &BTreeMap<u32, BufferedPacket>) -> (r: Option<u32>)
    ensures
        match r {
            Some(ts) => packets@.contains_key(ts) && forall|k: u32| #[trigger]
                packets@.contains_key(k) ==> ts <= k,
            None => forall|k: u32| !#[trigger] packets@.contains_key(k),
        },
{
    packets.first_key_value().map(|entry| *entry.0)
}

impl JitterBuffer {
    /// Create a new jitter buffer.
    pub fn new(config: JitterBufferConfig) -> (r: Self)
        requires
            config.wf(),
        ensures
            r@ == JitterView::started(config),
            r@.wf(),
    {
        let r = JitterBuffer {
            config,
            packets: BTreeMap::new(),
            target_delay: config.ms_to_samples(config.initial_delay_ms),
            next_seq: None,
            next_playout_ts: None,
            stats: JitterStats::default(),
            last_samples: quiet(config.samples_per_packet),
            primed: false,
            first_packet_time: None,
        };
        assert(r@.packets =~= Map::empty());
        r
    }

    /// Push a packet into the buffer, at a time and with the jitter estimated so far. For the first
    /// packet there is none.
    ///
    /// Returns true if packet was accepted, false if duplicate/too late.
    pub fn push(
        &mut self,
        sequence: u16,
        timestamp: u32,
        samples: Vec<i16>,
        jitter: u32,
        now: u128,
    ) -> (r: bool)
        requires
            old(self)@.wf(),
            old(self)@.stats.has_room(),
            2 * jitter <= u32::MAX,
        ensures
            final(self)@.wf(),
            (final(self)@, r) == old(self)@.pushed(sequence, timestamp, samples@, jitter, now),
    {
        self.stats.packets_received = self.stats.packets_received + 1;
        // Initialize on first packet
        let mut heeded: u32 = jitter;
        if self.first_packet_time.is_none() {
            heeded = 0;
            self.first_packet_time = Some(now);
            self.next_seq = Some(sequence);
            self.next_playout_ts = Some(timestamp);
        }
        let ghost v = self@;
        assert(v =~= old(self)@.received(sequence, timestamp, now));
        // Check for duplicate
        if self.packets.contains_key(&timestamp) {
            self.stats.packets_duplicate = self.stats.packets_duplicate + 1;
            return false;
        }
        // Check if packet is too late (already played past this timestamp)

        if let Some(playout_ts) = self.next_playout_ts {
            if timestamp_before(timestamp, playout_ts) {
                self.stats.packets_late = self.stats.packets_late + 1;
                return false;
            }
        }
        // Update sequence tracking: an old packet (reordered) leaves it as it is

        if let Some(expected_seq) = self.next_seq {
            if sequence_diff(sequence, expected_seq) >= 0 {
                self.next_seq = Some(sequence.wrapping_add(1));
            }
        }
        // Store packet

        let packet = BufferedPacket { sequence, timestamp, samples, received_at: now };
        let ghost given = packet@;
        self.packets.insert(timestamp, packet);
        assert(self@.packets =~= v.packets.insert(timestamp, given));
        assert(self@.packets.dom() =~= self.packets@.dom());
        self.stats.buffer_depth = self.packets.len();
        assert(self@.next_seq == v.expecting(sequence));
        self.adapt_delay(heeded);
        // Check if buffer is primed
        if !self.primed {
            let needed: u32 = self.target_delay / self.config.samples_per_packet;
            let held: usize = self.packets.len();
            assert(self@.packets.dom() =~= self.packets@.dom());
            if held >= 1 && held as u64 >= needed as u64 {
                self.primed = true;
            }
        }
        true
    }

    /// Get the next frame of audio for playout. The samples given are what conceals a lost packet:
    /// the last samples, faded out.
    ///
    /// Returns the decision and audio samples.
    pub fn pop(&mut self, faded: Vec<i16>) -> (r: (PlayoutDecision, Vec<i16>))
        requires
            old(self)@.wf(),
            old(self)@.stats.has_room(),
        ensures
            final(self)@.wf(),
            (final(self)@, r.0, r.1@) == old(self)@.popped(faded@),
    {
        let playout_ts: u32 = match self.next_playout_ts {
            Some(ts) => ts,
            None => return (PlayoutDecision::Silence, quiet(self.config.samples_per_packet)),
        };
        // Not primed yet - return silence
        if !self.primed {
            return (PlayoutDecision::Silence, quiet(self.config.samples_per_packet));
        }
        // Advance playout timestamp

        self.next_playout_ts = Some(playout_ts.wrapping_add(self.config.samples_per_packet));
        let ghost next = self@;
        // Try to get the packet at playout timestamp
        if self.packets.contains_key(&playout_ts) {
            let samples: Vec<i16> = self.play(playout_ts);
            return (PlayoutDecision::Play, samples);
        }
        // Packet not found - look for the nearest one

        match first_timestamp(&self.packets) {
            Some(next_ts) => {
                proof {
                    lemma_earliest(self@.packets, next_ts);
                }
                let gap: i32 = timestamp_diff(next_ts, playout_ts);
                if gap > to_signed(self.config.samples_per_packet) && gap as i64
                    > self.target_delay as i64 * 2 {
                    // Buffer is too full, accelerate by skipping ahead
                    self.next_playout_ts = Some(
                        next_ts.wrapping_add(self.config.samples_per_packet),
                    );
                    assert(self@ =~= old(self)@.past(next_ts));
                    let samples: Vec<i16> = self.play(next_ts);
                    return (PlayoutDecision::Accelerate, samples);
                }
            },
            None => {
                assert(earliest(self@.packets) is None);
            },
        }
        let out: Vec<i16> = copy_of(&faded);
        self.conceal(faded);
        (PlayoutDecision::Conceal, out)
    }

    /// Plays the packet of a timestamp.
    fn play(&mut self, ts: u32) -> (r: Vec<i16>)
        requires
            old(self)@.wf(),
            old(self)@.stats.has_room(),
            old(self)@.packets.contains_key(ts),
        ensures
            final(self)@.wf(),
            final(self)@ == old(self)@.playing(ts),
            r@ == old(self)@.packets[ts].samples,
    {
        let ghost before = self.packets@;
        match self.packets.remove(&ts) {
            Some(packet) => {
                assert(self.packets@ =~= before.remove(ts));
                assert(self@.packets =~= old(self)@.packets.remove(ts));
                assert(self@.packets.dom() =~= self.packets@.dom());
                self.stats.packets_played = self.stats.packets_played + 1;
                self.last_samples = copy_of(&packet.samples);
                self.stats.buffer_depth = self.packets.len();
                packet.samples
            },
            None => Vec::new(),
        }
    }

    /// Conceals a lost packet.
    fn conceal(&mut self, faded: Vec<i16>)
        requires
            old(self)@.wf(),
            old(self)@.stats.has_room(),
        ensures
            final(self)@.wf(),
            final(self)@ == old(self)@.concealing(faded@),
    {
        assert(self@.packets.dom() =~= self.packets@.dom());
        self.stats.packets_lost = self.stats.packets_lost + 1;
        self.stats.buffer_depth = self.packets.len();
        self.last_samples = faded;
    }

    /// Adapt the target delay based on observed jitter.
    pub fn adapt_delay(&mut self, jitter: u32)
        requires
            old(self)@.wf(),
            2 * jitter <= u32::MAX,
        ensures
            final(self)@.wf(),
            final(self)@ == old(self)@.adapting(jitter),
            final(self).packets == old(self).packets,
    {
        let low: u32 = self.config.ms_to_samples(self.config.min_delay_ms);
        let high: u32 = self.config.ms_to_samples(self.config.max_delay_ms);
        let raised: u32 = if 2 * jitter > low {
            2 * jitter
        } else {
            low
        };
        let wanted: u32 = if raised < high {
            raised
        } else {
            high
        };
        // Smooth adaptation (don't change too quickly)
        if wanted > self.target_delay {
            // Increase quickly
            self.target_delay = self.target_delay + (wanted - self.target_delay) / 4;
        } else if wanted < self.target_delay {
            // Decrease slowly
            self.target_delay = self.target_delay - (self.target_delay - wanted) / 16;
        }
        self.stats.target_delay_ms = self.config.samples_to_ms(self.target_delay);
    }

    /// Get current statistics.
    pub fn stats(&self) -> (r: &JitterStats)
        ensures
            *r == self@.stats,
    {
        &self.stats
    }

    /// Get number of packets currently in buffer.
    pub fn len(&self) -> (r: usize)
        ensures
            r == self@.packets.len(),
    {
        assert(self@.packets.dom() =~= self.packets@.dom());
        self.packets.len()
    }

    /// Check if buffer is empty.
    pub fn is_empty(&self) -> (r: bool)
        ensures
            r == (self@.packets.len() == 0),
    {
        self.len() == 0
    }

    /// Check if buffer is primed and ready for playout.
    pub fn is_primed(&self) -> (r: bool)
        ensures
            r == self@.primed,
    {
        self.primed
    }

    /// The samples played last.
    pub fn last_samples(&self) -> (r: &Vec<i16>)
        ensures
            r@ == self@.last_samples,
    {
        &self.last_samples
    }

    /// Reset the buffer state. What the statistics have counted stays.
    pub fn reset(&mut self)
        requires
            old(self)@.wf(),
        ensures
            final(self)@.wf(),
            final(self)@ == (JitterView {
                stats: JitterStats { buffer_depth: 0, ..old(self)@.stats },
                ..JitterView::started(old(self)@.config)
            }),
    {
        self.packets.clear();
        self.stats.buffer_depth = 0;
        self.next_seq = None;
        self.next_playout_ts = None;
        self.last_samples = quiet(self.config.samples_per_packet);
        self.primed = false;
        self.first_packet_time = None;
        self.target_delay = self.config.ms_to_samples(self.config.initial_delay_ms);
        assert(self@.packets =~= Map::empty());
    }

    /// Get current target delay in milliseconds.
    pub fn target_delay_ms(&self) -> (r: u32)
        requires
            self@.wf(),
        ensures
            r == self@.config.millis_of(self@.target_delay),
    {
        self.config.samples_to_ms(self.target_delay)
    }
}

/// A 32-bit number taken as a signed one.
pub open spec fn signed(n: u32) -> int {
    if n < 0x8000_0000 {
        n as int
    } else {
        n - 0x1_0000_0000
    }
}

fn to_signed(n: u32) -> (r: i32)
    ensures
        r == signed(n),
{
    if n < 0x8000_0000 {
        n as i32
    } else {
        (n as i64 - 0x1_0000_0000) as i32
    }
}

/// How far one timestamp lies behind another, the short way round.
pub open spec fn behind(a: u32, b: u32) -> int {
    signed(((a - b) % 0x1_0000_0000) as u32)
}

/// Calculate timestamp difference handling wraparound.
pub fn timestamp_diff(a: u32, b: u32) -> (r: i32)
    ensures
        r == behind(a, b),
{
    to_signed(a.wrapping_sub(b))
}

/// Check if timestamp a is before timestamp b (handling wraparound).
pub fn timestamp_before(a: u32, b: u32) -> (r: bool)
    ensures
        r == (behind(a, b) < 0),
{
    timestamp_diff(a, b) < 0
}

/// The deviation of an arrival from what the timestamps call for: so many samples came between two
/// packets, and so many should have (RFC 3550 A.8).
pub fn deviation(arrival_samples: i32, timestamp: u32, last_timestamp: u32) -> (r: u32)
    requires
        i32::MIN <= arrival_samples - behind(timestamp, last_timestamp) <= i32::MAX,
    ensures
        r == if arrival_samples >= behind(timestamp, last_timestamp) {
            arrival_samples - behind(timestamp, last_timestamp)
        } else {
            behind(timestamp, last_timestamp) - arrival_samples
        },
{
    let d: i64 = arrival_samples as i64 - timestamp_diff(timestamp, last_timestamp) as i64;
    if d < 0 {
        (-d) as u32
    } else {
        d as u32
    }
}

proof fn lemma_earliest(packets: Map<u32, PacketView>, ts: u32)
    requires
        is_earliest(packets, ts),
    ensures
        earliest(packets) == Some(ts),
{
    let other = choose|k: u32| is_earliest(packets, k);
    assert(is_earliest(packets, other));
    assert(packets.contains_key(other));
    assert(packets.contains_key(ts));
}

/// A packet that is accepted, in a buffer that is ready, is played with the samples that it came
/// with once its time has come.
pub proof fn lemma_pushed_then_played(
    v: JitterView,
    sequence: u16,
    timestamp: u32,
    samples: Seq<i16>,
    jitter: u32,
    now: u128,
    faded: Seq<i16>,
)
    requires
        v.pushed(sequence, timestamp, samples, jitter, now).1,
        v.pushed(sequence, timestamp, samples, jitter, now).0.primed,
        v.pushed(sequence, timestamp, samples, jitter, now).0.next_playout_ts == Some(timestamp),
    ensures
        v.pushed(sequence, timestamp, samples, jitter, now).0.popped(faded).1
            == PlayoutDecision::Play,
        v.pushed(sequence, timestamp, samples, jitter, now).0.popped(faded).2 == samples,
{
}

/// A packet that waits in the buffer is not accepted a second time, and nothing but the counts
/// changes.
pub proof fn lemma_duplicate_refused(
    v: JitterView,
    sequence: u16,
    timestamp: u32,
    samples: Seq<i16>,
    jitter: u32,
    now: u128,
)
    requires
        v.packets.contains_key(timestamp),
        v.first_packet_time is Some,
    ensures
        !v.pushed(sequence, timestamp, samples, jitter, now).1,
        v.pushed(sequence, timestamp, samples, jitter, now).0 == (JitterView {
            stats: JitterStats {
                packets_received: (v.stats.packets_received + 1) as u64,
                packets_duplicate: (v.stats.packets_duplicate + 1) as u64,
                ..v.stats
            },
            ..v
        }),
{
}

/// A packet whose frame has been played, concealed or skipped is not accepted any more: it counts
/// as late or as a duplicate, and nothing else changes. A frame half the timestamps' range back is
/// the first that passes for one to come.
pub proof fn lemma_late_refused(
    v: JitterView,
    due: u32,
    faded: Seq<i16>,
    sequence: u16,
    timestamp: u32,
    samples: Seq<i16>,
    jitter: u32,
    now: u128,
)
    requires
        v.primed,
        v.first_packet_time is Some,
        v.next_playout_ts == Some(due),
        v.config.samples_per_packet > 0,
        0 <= behind(v.frame(), timestamp),
        behind(v.frame(), timestamp) + v.config.samples_per_packet < 0x8000_0000,
    ensures
        !v.popped(faded).0.pushed(sequence, timestamp, samples, jitter, now).1,
        ({
            let after = v.popped(faded).0;
            let again = after.pushed(sequence, timestamp, samples, jitter, now).0;
            again == JitterView { stats: again.stats, ..after } && again.stats.buffer_depth
                == after.stats.buffer_depth
        }),
{
    let after = v.popped(faded).0;
    lemma_further_behind(v.frame(), timestamp, v.config.samples_per_packet);
    assert(after.next_playout_ts == v.past(v.frame()).next_playout_ts) by {
        match earliest(v.packets) {
            Some(ts) => {},
            None => {},
        }
    }
    assert(after.too_late(timestamp));
}

/// What lies behind a frame lies a frame's length further behind the next one.
proof fn lemma_further_behind(frame: u32, timestamp: u32, len: u32)
    requires
        0 <= behind(frame, timestamp),
        behind(frame, timestamp) + len < 0x8000_0000,
        len > 0,
    ensures
        behind(timestamp, ((frame + len) % 0x1_0000_0000) as u32) == -behind(frame, timestamp)
            - len,
{
    let d = behind(frame, timestamp);
    let next = ((frame + len) % 0x1_0000_0000) as u32;
    assert(d == (frame - timestamp) % 0x1_0000_0000);
    assert((timestamp - next) % 0x1_0000_0000 == 0x1_0000_0000 - d - len);
}

/// The target delay never leaves the range between where it began and the configured limits.
pub proof fn lemma_target_bounded(v: JitterView, jitter: u32, low: int, high: int)
    requires
        v.wf(),
        low <= v.target_delay <= high,
        low <= v.config.samples_in(v.config.min_delay_ms),
        v.config.samples_in(v.config.min_delay_ms) <= v.config.samples_in(v.config.max_delay_ms),
        v.config.samples_in(v.config.max_delay_ms) <= high,
    ensures
        low <= v.adapting(jitter).target_delay <= high,
{
    assert(v.config.samples_in(v.config.max_delay_ms) <= u32::MAX);
}

} // verus!
