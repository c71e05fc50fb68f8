//! What the jitter buffer promises: when it starts to play, what it plays, and how it adapts.

use super::jitter::{
    adapted, behind, earliest, silence, wanted_delay, JitterBufferConfig, JitterView,
    PacketView, PlayoutDecision,
};
use vstd::prelude::*;

verus! {

/// Nothing is played before the target delay is filled: a buffer becomes ready only by a packet
/// that is accepted, and only once the packets held, with one more, would last longer than the
/// target delay. It does become ready as soon as they last that long, and it stays ready.
pub proof fn lemma_priming(
    v: JitterView,
    sequence: u16,
    timestamp: u32,
    samples: Seq<i16>,
    jitter: u32,
    now: u128,
    faded: Seq<i16>,
)
    requires
        v.config.samples_per_packet > 0,
        v.packets.dom().finite(),
    ensures
        ({
            let (w, accepted) = v.pushed(sequence, timestamp, samples, jitter, now);
            let len = v.config.samples_per_packet as int;
            &&& w.primed && !v.primed ==> accepted && w.packets.len() * len + len > w.target_delay
            &&& accepted && w.packets.len() * len >= w.target_delay ==> w.primed
            &&& v.primed ==> w.primed
            &&& !accepted ==> w.primed == v.primed
        }),
        v.popped(faded).0.primed == v.primed,
{
    let (w, accepted) = v.pushed(sequence, timestamp, samples, jitter, now);
    let len = v.config.samples_per_packet as int;
    let t = w.target_delay as int;
    let n = w.packets.len() as int;
    let needed = t / len;
    assert(needed * len <= t < needed * len + len) by (nonlinear_arith)
        requires
            len > 0,
            needed == t / len,
    ;
    if n >= needed {
        assert(n * len + len > t) by (nonlinear_arith)
            requires
                n >= needed,
                len > 0,
                t < needed * len + len,
        ;
    } else {
        assert(n * len < t) by (nonlinear_arith)
            requires
                n + 1 <= needed,
                len > 0,
                needed * len <= t,
        ;
    }
    if accepted {
        assert(w.packets.contains_key(timestamp));
        assert(w.packets.dom().contains(timestamp));
        assert(w.packets.len() >= 1) by {
            if w.packets.dom().len() == 0 {
                w.packets.dom().lemma_len0_is_empty();
                assert(w.packets.dom() =~= Set::empty());
            }
        }
    }
}

/// One packet alone makes no buffer ready whose target delay, after that packet, is two packets or
/// more.
pub proof fn lemma_one_is_not_enough(
    config: JitterBufferConfig,
    sequence: u16,
    timestamp: u32,
    samples: Seq<i16>,
    jitter: u32,
    now: u128,
    faded: Seq<i16>,
)
    requires
        config.samples_per_packet > 0,
        ({
            let first = JitterView::started(config).pushed(sequence, timestamp, samples, jitter, now).0;
            first.target_delay >= 2 * config.samples_per_packet
        }),
    ensures
        ({
            let first = JitterView::started(config).pushed(sequence, timestamp, samples, jitter, now).0;
            &&& !first.primed
            &&& first.popped(faded).1 == PlayoutDecision::Silence
            &&& first.popped(faded).0 == first
        }),
{
    let start = JitterView::started(config);
    lemma_priming(start, sequence, timestamp, samples, jitter, now, faded);
    let first = start.pushed(sequence, timestamp, samples, jitter, now).0;
    assert(first.packets.len() <= 1);
    let len = config.samples_per_packet as int;
    assert(first.packets.len() * len <= len) by (nonlinear_arith)
        requires
            first.packets.len() <= 1,
            len > 0,
    ;
}

/// With the settings for G.711 the first packet is not played at once, whichever it is: a delay of
/// more than two packets is waited for.
pub proof fn lemma_narrow_band_waits(
    sequence: u16,
    timestamp: u32,
    samples: Seq<i16>,
    jitter: u32,
    now: u128,
    faded: Seq<i16>,
)
    ensures
        ({
            let start = JitterView::started(JitterBufferConfig::narrow_band());
            let (first, accepted) = start.pushed(sequence, timestamp, samples, jitter, now);
            &&& accepted
            &&& !first.primed
            &&& first.popped(faded).1 == PlayoutDecision::Silence
            &&& first.popped(faded).2.len() == 160
        }),
{
    let config = JitterBufferConfig::narrow_band();
    let start = JitterView::started(config);
    let (first, accepted) = start.pushed(sequence, timestamp, samples, jitter, now);
    assert(behind(timestamp, timestamp) == 0);
    assert(adapted(480, 160) == 460);
    assert(wanted_delay(config, 0) == 160);
    assert(first.target_delay == 460);
    lemma_one_is_not_enough(config, sequence, timestamp, samples, jitter, now, faded);
}

/// The settings for G.711: 8000 samples a second, 160 to a packet, and a delay that begins with 60
/// ms and stays between 20 and 200 ms. So many milliseconds are so many thousandths of the rate.
pub proof fn lemma_narrow_band(config: JitterBufferConfig, ms: u32, n: u32)
    requires
        config.clock_rate > 0,
    ensures
        JitterBufferConfig::narrow_band().clock_rate == 8000,
        JitterBufferConfig::narrow_band().samples_per_packet == 160,
        JitterBufferConfig::narrow_band().initial_delay_ms == 60,
        JitterBufferConfig::narrow_band().min_delay_ms == 20,
        JitterBufferConfig::narrow_band().max_delay_ms == 200,
        config.samples_in(ms) == (ms * config.clock_rate) / 1000,
        config.millis_of(n) == (n * 1000) / (config.clock_rate as int),
        JitterView::started(JitterBufferConfig::narrow_band()).target_delay == 480,
{
}

/// A buffer that has received nothing holds nothing, has counted nothing, and is not ready.
pub proof fn lemma_started(config: JitterBufferConfig)
    requires
        config.wf(),
    ensures
        ({
            let v = JitterView::started(config);
            &&& v.config == config
            &&& v.packets.len() == 0
            &&& v.target_delay == (config.initial_delay_ms * config.clock_rate) / 1000
            &&& v.next_seq is None && v.next_playout_ts is None && v.first_packet_time is None
            &&& !v.primed
            &&& v.last_samples.len() == config.samples_per_packet
            &&& forall|i: int| 0 <= i < v.last_samples.len() ==> v.last_samples[i] == 0
            &&& v.stats.packets_received == 0 && v.stats.packets_played == 0
                && v.stats.packets_lost == 0 && v.stats.packets_late == 0
                && v.stats.packets_duplicate == 0 && v.stats.buffer_depth == 0
                && v.stats.target_delay_ms == 0
        }),
{
}

/// What a packet does: the first one is what is played first and is never refused. One whose
/// timestamp waits already is a duplicate, one whose timestamp lies up to half the range before
/// what is due is late, any other is held. The packets that are held stay as they are, and what is
/// due does not change.
pub proof fn lemma_push_cases(
    v: JitterView,
    sequence: u16,
    timestamp: u32,
    samples: Seq<i16>,
    jitter: u32,
    now: u128,
)
    requires
        v.first_packet_time is None ==> !v.packets.contains_key(timestamp),
    ensures
        ({
            let (w, accepted) = v.pushed(sequence, timestamp, samples, jitter, now);
            let first = v.first_packet_time is None;
            let late = match v.next_playout_ts {
                Some(due) => !first && (timestamp - due) % 0x1_0000_0000 >= 0x8000_0000,
                None => false,
            };
            let held = v.packets.contains_key(timestamp);
            &&& accepted == (!held && !late)
            &&& accepted ==> w.packets == v.packets.insert(
                timestamp,
                PacketView { sequence, timestamp, samples, received_at: now },
            )
            &&& !accepted ==> w.packets == v.packets
            &&& first ==> w.next_playout_ts == Some(timestamp) && w.first_packet_time == Some(now)
            &&& !first ==> w.next_playout_ts == v.next_playout_ts && w.first_packet_time
                == v.first_packet_time
            &&& w.last_samples == v.last_samples
            &&& w.config == v.config
            &&& w.stats.packets_received == (v.stats.packets_received + 1) as u64
            &&& w.stats.packets_played == v.stats.packets_played
            &&& w.stats.packets_lost == v.stats.packets_lost
            &&& w.stats.packets_duplicate == if held {
                (v.stats.packets_duplicate + 1) as u64
            } else {
                v.stats.packets_duplicate
            }
            &&& w.stats.packets_late == if !held && late {
                (v.stats.packets_late + 1) as u64
            } else {
                v.stats.packets_late
            }
        }),
{
    assert(behind(timestamp, timestamp) == 0);
}

/// The sequence number that is expected: the one after the newest packet that was accepted. An
/// older packet, up to half the range back, leaves it as it is.
pub proof fn lemma_expected_sequence(
    v: JitterView,
    sequence: u16,
    timestamp: u32,
    samples: Seq<i16>,
    jitter: u32,
    now: u128,
)
    ensures
        ({
            let (w, accepted) = v.pushed(sequence, timestamp, samples, jitter, now);
            &&& accepted && v.first_packet_time is None ==> w.next_seq == Some(
                ((sequence + 1) % 65536) as u16,
            )
            &&& accepted && v.first_packet_time is Some ==> match v.next_seq {
                Some(e) => w.next_seq == Some(
                    if (sequence - e) % 65536 < 32768 {
                        ((sequence + 1) % 65536) as u16
                    } else {
                        e
                    },
                ),
                None => w.next_seq is None,
            }
            &&& !accepted && v.first_packet_time is Some ==> w.next_seq == v.next_seq
        }),
{
}

/// How the target delay adapts: the aim is twice the jitter, but no less than the least and no more
/// than the greatest delay configured. The target goes a quarter of the way up to it, or a
/// sixteenth of the way down. Only a packet that is accepted adapts it; the first has no jitter.
pub proof fn lemma_adapts(
    v: JitterView,
    sequence: u16,
    timestamp: u32,
    samples: Seq<i16>,
    jitter: u32,
    now: u128,
)
    requires
        v.wf(),
        2 * jitter <= u32::MAX,
    ensures
        ({
            let (w, accepted) = v.pushed(sequence, timestamp, samples, jitter, now);
            let least = (v.config.min_delay_ms * v.config.clock_rate) / 1000;
            let most = (v.config.max_delay_ms * v.config.clock_rate) / 1000;
            let twice = if v.first_packet_time is None {
                0
            } else {
                2 * jitter
            };
            let aim = if most < twice || most < least {
                most
            } else if twice < least {
                least
            } else {
                twice
            };
            let t = v.target_delay as int;
            &&& accepted && aim >= t ==> w.target_delay == t + (aim - t) / 4
            &&& accepted && aim < t ==> w.target_delay == t - (t - aim) / 16
            &&& !accepted ==> w.target_delay == v.target_delay
            &&& accepted ==> w.stats.target_delay_ms == (w.target_delay * 1000) / (
            v.config.clock_rate as int)
        }),
{
    let c = v.config;
    assert(c.samples_in(c.min_delay_ms) * 1000 <= u32::MAX);
    assert(c.samples_in(c.max_delay_ms) * 1000 <= u32::MAX);
    let heeded = v.heeded(jitter);
    let aim = wanted_delay(c, heeded);
    let t = v.target_delay as int;
    assert(0 <= adapted(t, aim));
    assert(adapted(t, aim) * 1000 <= u32::MAX);
    let (w, accepted) = v.pushed(sequence, timestamp, samples, jitter, now);
    if accepted {
        assert(w.target_delay == adapted(t, aim));
        assert((w.target_delay * 1000) / (c.clock_rate as int) <= w.target_delay * 1000)
            by (nonlinear_arith)
            requires
                c.clock_rate >= 1,
                w.target_delay >= 0,
        ;
        assert((w.target_delay * 1000) / (c.clock_rate as int) >= 0) by (nonlinear_arith)
            requires
                c.clock_rate >= 1,
                w.target_delay >= 0,
        ;
    }
}

/// What a frame is. Before the buffer is ready it is silence, and nothing changes. A packet that is
/// due is played. If it has not come, and the packet with the least timestamp lies ahead of it by
/// more than a packet and more than twice the target delay, that one is played and skipped to;
/// otherwise the loss is concealed with what was given for it.
pub proof fn lemma_pop_cases(v: JitterView, faded: Seq<i16>, due: u32)
    requires
        v.next_playout_ts == Some(due),
        v.config.samples_per_packet < 0x8000_0000,
    ensures
        ({
            let (w, decision, out) = v.popped(faded);
            let here = v.packets.contains_key(due);
            let far = !here && match earliest(v.packets) {
                Some(ts) => {
                    let gap = (ts - due) % 0x1_0000_0000;
                    gap < 0x8000_0000 && gap > v.config.samples_per_packet && gap > 2
                        * v.target_delay
                },
                None => false,
            };
            &&& !v.primed ==> decision == PlayoutDecision::Silence && w == v && out.len()
                == v.config.samples_per_packet && forall|i: int|
                0 <= i < out.len() ==> out[i] == 0
            &&& v.primed && here ==> decision == PlayoutDecision::Play && out
                == v.packets[due].samples && w.packets == v.packets.remove(due) && w.last_samples
                == out && w.next_playout_ts == Some(
                ((due + v.config.samples_per_packet) % 0x1_0000_0000) as u32,
            )
            &&& v.primed && far ==> {
                let ts = earliest(v.packets)->0;
                &&& decision == PlayoutDecision::Accelerate
                &&& out == v.packets[ts].samples
                &&& w.packets == v.packets.remove(ts)
                &&& w.last_samples == out
                &&& w.next_playout_ts == Some(
                    ((ts + v.config.samples_per_packet) % 0x1_0000_0000) as u32,
                )
            }
            &&& v.primed && !here && !far ==> decision == PlayoutDecision::Conceal && out == faded
                && w.packets == v.packets && w.last_samples == faded && w.next_playout_ts == Some(
                ((due + v.config.samples_per_packet) % 0x1_0000_0000) as u32,
            )
            &&& w.stats.packets_played == if decision == PlayoutDecision::Play || decision
                == PlayoutDecision::Accelerate {
                (v.stats.packets_played + 1) as u64
            } else {
                v.stats.packets_played
            }
            &&& w.stats.packets_lost == if decision == PlayoutDecision::Conceal {
                (v.stats.packets_lost + 1) as u64
            } else {
                v.stats.packets_lost
            }
            &&& w.stats.packets_received == v.stats.packets_received && w.stats.packets_late
                == v.stats.packets_late && w.stats.packets_duplicate == v.stats.packets_duplicate
            &&& w.target_delay == v.target_delay && w.next_seq == v.next_seq && w.config == v.config
                && w.first_packet_time == v.first_packet_time
        }),
{
}

/// The packet that is looked for when the one that is due has not come is the one with the least
/// timestamp.
pub proof fn lemma_least(packets: Map<u32, PacketView>, ts: u32)
    requires
        packets.contains_key(ts),
        forall|k: u32| #[trigger] packets.contains_key(k) ==> ts <= k,
    ensures
        earliest(packets) == Some(ts),
        earliest(Map::<u32, PacketView>::empty()) is None,
{
    assert(super::jitter::is_earliest(packets, ts));
    let other = choose|k: u32| super::jitter::is_earliest(packets, k);
    assert(packets.contains_key(other));
}

/// How far one timestamp lies behind another goes the short way round: forward up to half the
/// range less one, back up to half of it.
pub proof fn lemma_short_way(a: u32, b: u32)
    ensures
        -0x8000_0000 <= behind(a, b) < 0x8000_0000,
        (behind(a, b) - (a - b)) % 0x1_0000_0000 == 0,
{
}

/// Silence is as many zeros as asked for.
pub proof fn lemma_silence(n: u32)
    ensures
        silence(n).len() == n,
        forall|i: int| 0 <= i < n ==> silence(n)[i] == 0,
{
}

/// The depth that is reported is the number of packets that wait, after one was played and after a
/// gap was filled alike.
pub proof fn lemma_depth_reported(b: JitterView, faded: Seq<i16>, ts: u32)
    requires
        b.packets.dom().finite(),
        b.packets.len() <= usize::MAX,
        b.packets.contains_key(ts),
    ensures
        b.concealing(faded).stats.buffer_depth == b.packets.len(),
        b.playing(ts).stats.buffer_depth == b.packets.len() - 1,
        b.concealing(faded).packets == b.packets,
        b.concealing(faded).last_samples == faded,
        b.playing(ts).last_samples == b.packets[ts].samples,
        !b.playing(ts).packets.contains_key(ts),
{
}

/// The frame that is played next is the one that is due, unless it is missing and the earliest one
/// held is far ahead of it.
pub proof fn lemma_frame(b: JitterView, due: u32)
    requires
        b.next_playout_ts == Some(due),
    ensures
        b.packets.contains_key(due) ==> b.frame() == due,
        earliest(b.packets) is None ==> b.frame() == due,
        earliest(b.packets) is Some && !b.far(earliest(b.packets)->0, due) ==> b.frame() == due,
        earliest(b.packets) is Some && !b.packets.contains_key(due) && b.far(
            earliest(b.packets)->0,
            due,
        ) ==> b.frame() == earliest(b.packets)->0,
{
}

} // verus!
