//! What holds of a jitter buffer over a whole course of packets and frames.

use super::jitter::{
    adapted, behind, earliest, is_earliest, wanted_delay, JitterBufferConfig, JitterView,
    PlayoutDecision,
};
use vstd::prelude::*;

verus! {

/// One thing that is done with a jitter buffer: a packet is pushed, or a frame is popped.
pub enum JitterStep {
    Push { sequence: u16, timestamp: u32, samples: Seq<i16>, jitter: u32, now: u128 },
    Pop { faded: Seq<i16> },
}

impl JitterView {
    /// The buffer after a step.
    pub open spec fn stepped(self, step: JitterStep) -> JitterView {
        match step {
            JitterStep::Push { sequence, timestamp, samples, jitter, now } => self.pushed(
                sequence,
                timestamp,
                samples,
                jitter,
                now,
            ).0,
            JitterStep::Pop { faded } => self.popped(faded).0,
        }
    }

    /// The buffer after a course of steps.
    pub open spec fn run(self, steps: Seq<JitterStep>) -> JitterView
        decreases steps.len(),
    {
        if steps.len() == 0 {
            self
        } else {
            self.run(steps.drop_last()).stepped(steps.last())
        }
    }

    /// Whether a step is a pop with this decision.
    pub open spec fn decides(self, step: JitterStep, decision: PlayoutDecision) -> bool {
        match step {
            JitterStep::Push { .. } => false,
            JitterStep::Pop { faded } => self.popped(faded).1 == decision,
        }
    }

    /// How many pops of a course had this decision.
    pub open spec fn pops(self, steps: Seq<JitterStep>, decision: PlayoutDecision) -> nat
        decreases steps.len(),
    {
        if steps.len() == 0 {
            0
        } else {
            self.pops(steps.drop_last(), decision) + if self.run(steps.drop_last()).decides(
                steps.last(),
                decision,
            ) {
                1nat
            } else {
                0nat
            }
        }
    }
}

/// How many steps of a course are pushes.
pub open spec fn pushes(steps: Seq<JitterStep>) -> nat
    decreases steps.len(),
{
    if steps.len() == 0 {
        0
    } else {
        pushes(steps.drop_last()) + if steps.last() is Push {
            1nat
        } else {
            0nat
        }
    }
}

/// After any course of pushes and pops, every packet received has been played, was late, was a
/// duplicate or is still held. The packets played are the pops that played or skipped ahead, the
/// packets lost those that concealed.
pub proof fn lemma_counts(config: JitterBufferConfig, steps: Seq<JitterStep>)
    requires
        steps.len() <= u64::MAX,
    ensures
        ({
            let start = JitterView::started(config);
            let v = start.run(steps);
            &&& v.packets.dom().finite()
            &&& v.stats.packets_received == pushes(steps)
            &&& v.stats.packets_received == v.stats.packets_played + v.stats.packets_late
                + v.stats.packets_duplicate + v.packets.len()
            &&& v.stats.packets_played == start.pops(steps, PlayoutDecision::Play) + start.pops(
                steps,
                PlayoutDecision::Accelerate,
            )
            &&& v.stats.packets_lost == start.pops(steps, PlayoutDecision::Conceal)
        }),
    decreases steps.len(),
{
    let start = JitterView::started(config);
    if steps.len() > 0 {
        let before = start.run(steps.drop_last());
        lemma_counts(config, steps.drop_last());
        lemma_few(start, steps.drop_last());
        match steps.last() {
            JitterStep::Push { sequence, timestamp, samples, jitter, now } => {
                lemma_push_counts(before, sequence, timestamp, samples, jitter, now);
            },
            JitterStep::Pop { faded } => {
                lemma_pop_counts(before, faded);
            },
        }
    }
}

/// There are no more pushes and pops than steps.
proof fn lemma_few(v: JitterView, steps: Seq<JitterStep>)
    ensures
        pushes(steps) <= steps.len(),
        v.pops(steps, PlayoutDecision::Conceal) <= steps.len(),
        v.pops(steps, PlayoutDecision::Play) + v.pops(steps, PlayoutDecision::Accelerate)
            <= steps.len(),
    decreases steps.len(),
{
    if steps.len() > 0 {
        lemma_few(v, steps.drop_last());
    }
}

proof fn lemma_push_counts(
    v: JitterView,
    sequence: u16,
    timestamp: u32,
    samples: Seq<i16>,
    jitter: u32,
    now: u128,
)
    requires
        v.packets.dom().finite(),
        v.stats.packets_received < u64::MAX,
        v.stats.packets_received == v.stats.packets_played + v.stats.packets_late
            + v.stats.packets_duplicate + v.packets.len(),
    ensures
        ({
            let w = v.pushed(sequence, timestamp, samples, jitter, now).0;
            &&& w.packets.dom().finite()
            &&& w.stats.packets_received == v.stats.packets_received + 1
            &&& w.stats.packets_received == w.stats.packets_played + w.stats.packets_late
                + w.stats.packets_duplicate + w.packets.len()
            &&& w.stats.packets_played == v.stats.packets_played
            &&& w.stats.packets_lost == v.stats.packets_lost
        }),
{
}

proof fn lemma_pop_counts(v: JitterView, faded: Seq<i16>)
    requires
        v.packets.dom().finite(),
        v.stats.packets_played < u64::MAX,
        v.stats.packets_lost < u64::MAX,
        v.stats.packets_received == v.stats.packets_played + v.stats.packets_late
            + v.stats.packets_duplicate + v.packets.len(),
    ensures
        ({
            let (w, decision, _) = v.popped(faded);
            &&& w.packets.dom().finite()
            &&& w.stats.packets_received == v.stats.packets_received
            &&& w.stats.packets_received == w.stats.packets_played + w.stats.packets_late
                + w.stats.packets_duplicate + w.packets.len()
            &&& w.stats.packets_played == v.stats.packets_played + if decision
                == PlayoutDecision::Play || decision == PlayoutDecision::Accelerate {
                1int
            } else {
                0int
            }
            &&& w.stats.packets_lost == v.stats.packets_lost + if decision
                == PlayoutDecision::Conceal {
                1int
            } else {
                0int
            }
        }),
{
    match earliest(v.packets) {
        Some(ts) => {
            assert(is_earliest(v.packets, ts));
        },
        None => {},
    }
}

/// The timestamp of frame `k` of a stream.
pub open spec fn slot(base: u32, len: u32, k: int) -> u32 {
    ((base + k * len) % 0x1_0000_0000) as u32
}

/// Whether `order` holds each number below its length once, and 0 first.
pub open spec fn shuffled(order: Seq<int>) -> bool {
    &&& order.len() > 0
    &&& order[0] == 0
    &&& order.no_duplicates()
    &&& forall|i: int| 0 <= i < order.len() ==> 0 <= #[trigger] order[i] < order.len()
    &&& forall|k: int| 0 <= k < order.len() ==> #[trigger] order.contains(k)
}

/// Whether the steps push the frames of a stream, in an order of arrival.
pub open spec fn delivers(
    steps: Seq<JitterStep>,
    order: Seq<int>,
    base: u32,
    len: u32,
    frames: Seq<Seq<i16>>,
) -> bool {
    &&& steps.len() == order.len()
    &&& forall|i: int|
        0 <= i < steps.len() ==> (#[trigger] steps[i] matches JitterStep::Push {
            timestamp,
            samples,
            ..
        } && timestamp == slot(base, len, order[i]) && samples == frames[order[i]])
}

/// The frames of a stream that are pushed in any order behind the first one, and that make the
/// buffer ready, are played one by one in the order of their timestamps. Then the buffer is empty,
/// and what follows is concealed.
pub proof fn lemma_plays_in_order(
    config: JitterBufferConfig,
    steps: Seq<JitterStep>,
    order: Seq<int>,
    base: u32,
    frames: Seq<Seq<i16>>,
    faded: Seq<Seq<i16>>,
    k: int,
)
    requires
        config.samples_per_packet > 0,
        shuffled(order),
        frames.len() == order.len(),
        frames.len() * config.samples_per_packet < 0x8000_0000,
        delivers(steps, order, base, config.samples_per_packet, frames),
        JitterView::started(config).run(steps).primed,
        faded.len() == frames.len(),
        0 <= k <= frames.len(),
    ensures
        ({
            let v = JitterView::started(config).run(steps).run(
                faded.take(k).map_values(|f: Seq<i16>| JitterStep::Pop { faded: f }),
            );
            &&& k < frames.len() ==> forall|f: Seq<i16>|
                (#[trigger] v.popped(f)).1 == PlayoutDecision::Play && v.popped(f).2 == frames[k]
            &&& k == frames.len() ==> v.packets.len() == 0 && forall|f: Seq<i16>|
                (#[trigger] v.popped(f)).1 == PlayoutDecision::Conceal
        }),
{
    let len = config.samples_per_packet;
    let ready = JitterView::started(config).run(steps);
    let pops = faded.take(k).map_values(|f: Seq<i16>| JitterStep::Pop { faded: f });
    assert(steps.take(steps.len() as int) =~= steps);
    lemma_held(config, steps, order, base, frames, steps.len() as int);
    assert(waiting(ready, base, len, frames, 0)) by {
        assert forall|j: int| 0 <= j < frames.len() implies ready.packets.contains_key(
            #[trigger] slot(base, len, j),
        ) && ready.packets[slot(base, len, j)].samples == frames[j] by {
            assert(order.contains(j));
            let i = choose|i: int| 0 <= i < order.len() && order[i] == j;
            assert(arrived_at(ready, order, base, len, frames, i));
        }
        assert(slot(base, len, 0) == base) by {
            lemma_slot(base, len, 0, 0, frames.len() as int);
        }
    }
    lemma_drained(ready, base, len, frames, faded, k);
    let v = ready.run(pops);
    if k < frames.len() {
        assert(v.packets.contains_key(slot(base, len, k)));
    } else {
        assert(v.packets =~= Map::empty());
        assert(earliest(v.packets) is None);
    }
}

/// A buffer that a single packet suffices for plays the frames of a stream, pushed in any order
/// behind the first one, in the order of their timestamps. Then it is empty, and what follows is
/// concealed.
pub proof fn lemma_reordered(
    config: JitterBufferConfig,
    steps: Seq<JitterStep>,
    order: Seq<int>,
    base: u32,
    frames: Seq<Seq<i16>>,
    faded: Seq<Seq<i16>>,
    k: int,
)
    requires
        config.wf(),
        config.one_packet_suffices(),
        shuffled(order),
        frames.len() == order.len(),
        frames.len() * config.samples_per_packet < 0x8000_0000,
        delivers(steps, order, base, config.samples_per_packet, frames),
        faded.len() == frames.len(),
        0 <= k <= frames.len(),
    ensures
        ({
            let v = JitterView::started(config).run(steps).run(
                faded.take(k).map_values(|f: Seq<i16>| JitterStep::Pop { faded: f }),
            );
            &&& k < frames.len() ==> forall|f: Seq<i16>|
                (#[trigger] v.popped(f)).1 == PlayoutDecision::Play && v.popped(f).2 == frames[k]
            &&& k == frames.len() ==> v.packets.len() == 0 && forall|f: Seq<i16>|
                (#[trigger] v.popped(f)).1 == PlayoutDecision::Conceal
        }),
{
    assert(steps[0] is Push);
    lemma_ready_with_one(config, steps);
    lemma_plays_in_order(config, steps, order, base, frames, faded, k);
}

/// Where a single packet suffices, the first packet makes the buffer ready, and it stays so.
pub proof fn lemma_ready_with_one(config: JitterBufferConfig, steps: Seq<JitterStep>)
    requires
        config.wf(),
        config.one_packet_suffices(),
        steps.len() > 0,
        steps[0] is Push,
    ensures
        JitterView::started(config).run(steps).primed,
    decreases steps.len(),
{
    let start = JitterView::started(config);
    let before = start.run(steps.drop_last());
    if steps.len() == 1 {
        assert(before == start);
        match steps[0] {
            JitterStep::Push { sequence, timestamp, samples, jitter, now } => {
                lemma_first_fills(config, sequence, timestamp, samples, jitter, now);
            },
            JitterStep::Pop { .. } => {},
        }
    } else {
        assert(steps.drop_last()[0] == steps[0]);
        lemma_ready_with_one(config, steps.drop_last());
        assert(before.primed);
    }
}

/// The first packet of a buffer that a single one suffices for makes it ready.
proof fn lemma_first_fills(
    config: JitterBufferConfig,
    sequence: u16,
    timestamp: u32,
    samples: Seq<i16>,
    jitter: u32,
    now: u128,
)
    requires
        config.wf(),
        config.one_packet_suffices(),
    ensures
        JitterView::started(config).pushed(sequence, timestamp, samples, jitter, now).0.primed,
{
    let start = JitterView::started(config);
    let (v, accepted) = start.pushed(sequence, timestamp, samples, jitter, now);
    let len = config.samples_per_packet;
    let first = config.samples_in(config.initial_delay_ms);
    let wanted = wanted_delay(config, 0);
    assert(behind(timestamp, timestamp) == 0);
    assert(accepted);
    assert(v.packets.len() == 1);
    assert(0 <= wanted < 2 * len);
    assert(v.target_delay == adapted(first, wanted));
    assert(v.target_delay < 2 * len);
    assert(v.target_delay / len <= 1) by (nonlinear_arith)
        requires
            v.target_delay < 2 * len,
            len > 0,
    ;
}

/// Frames of a stream that is shorter than half the timestamps' range: each lies as far behind the
/// first as it should, no two share a timestamp, and they follow each other.
proof fn lemma_slot(base: u32, len: u32, j: int, k: int, n: int)
    requires
        0 <= j <= n,
        0 <= k < n,
        len > 0,
        n * len < 0x8000_0000,
    ensures
        slot(base, len, 0) == base,
        behind(slot(base, len, k), base) == k * len,
        0 <= k * len,
        j != k ==> slot(base, len, j) != slot(base, len, k),
        slot(base, len, k + 1) == (slot(base, len, k) + len) % 0x1_0000_0000,
{
    assert(0 <= k * len < n * len) by (nonlinear_arith)
        requires
            0 <= k < n,
            len > 0,
    ;
    assert(0 <= j * len <= n * len) by (nonlinear_arith)
        requires
            0 <= j <= n,
            len > 0,
    ;
    assert((k + 1) * len == k * len + len) by (nonlinear_arith);
    if j < k {
        assert(j * len < k * len) by (nonlinear_arith)
            requires
                j < k,
                len > 0,
        ;
    } else if k < j {
        assert(k * len < j * len) by (nonlinear_arith)
            requires
                k < j,
                len > 0,
        ;
    }
    assert(0 * len == 0) by (nonlinear_arith);
}

/// Whether the packet that came as number `i` is held with its samples.
spec fn arrived_at(
    v: JitterView,
    order: Seq<int>,
    base: u32,
    len: u32,
    frames: Seq<Seq<i16>>,
    i: int,
) -> bool {
    v.packets.contains_key(slot(base, len, order[i])) && v.packets[slot(base, len, order[i])].samples
        == frames[order[i]]
}

/// Whether the first `m` packets that came, and no others, are held.
spec fn holding(
    v: JitterView,
    order: Seq<int>,
    base: u32,
    len: u32,
    frames: Seq<Seq<i16>>,
    m: int,
) -> bool {
    &&& forall|i: int| 0 <= i < m ==> #[trigger] arrived_at(v, order, base, len, frames, i)
    &&& forall|ts: u32| #[trigger]
        v.packets.contains_key(ts) ==> exists|i: int|
            0 <= i < m && ts == slot(base, len, #[trigger] order[i])
}

/// Every frame that has come is held, and playing starts with the first.
proof fn lemma_held(
    config: JitterBufferConfig,
    steps: Seq<JitterStep>,
    order: Seq<int>,
    base: u32,
    frames: Seq<Seq<i16>>,
    m: int,
)
    requires
        config.samples_per_packet > 0,
        shuffled(order),
        frames.len() == order.len(),
        frames.len() * config.samples_per_packet < 0x8000_0000,
        delivers(steps, order, base, config.samples_per_packet, frames),
        1 <= m <= steps.len(),
    ensures
        ({
            let v = JitterView::started(config).run(steps.take(m));
            &&& v.config == config
            &&& v.first_packet_time is Some
            &&& v.next_playout_ts == Some(base)
            &&& v.packets.dom().finite()
            &&& holding(v, order, base, config.samples_per_packet, frames, m)
        }),
    decreases m,
{
    let len = config.samples_per_packet;
    let start = JitterView::started(config);
    let n = frames.len() as int;
    let before = start.run(steps.take(m - 1));
    let v = start.run(steps.take(m));
    assert(steps.take(m).drop_last() =~= steps.take(m - 1));
    assert(steps.take(m).last() == steps[m - 1]);
    let here = order[m - 1];
    lemma_slot(base, len, here, here, n);
    if m > 1 {
        lemma_held(config, steps, order, base, frames, m - 1);
        if before.packets.contains_key(slot(base, len, here)) {
            let i = choose|i: int|
                0 <= i < m - 1 && slot(base, len, here) == slot(base, len, #[trigger] order[i]);
            lemma_slot(base, len, order[i], here, n);
            assert(order[i] == order[m - 1]);
        }
    } else {
        assert(steps.take(0).len() == 0);
        assert(before == start);
    }
    match steps[m - 1] {
        JitterStep::Push { sequence, timestamp, samples, jitter, now } => {
            let (w, taken) = before.pushed(sequence, timestamp, samples, jitter, now);
            assert(v == w);
            assert(taken);
            assert forall|i: int| 0 <= i < m implies #[trigger] arrived_at(
                v,
                order,
                base,
                len,
                frames,
                i,
            ) by {
                if i < m - 1 {
                    assert(arrived_at(before, order, base, len, frames, i));
                }
            }
            assert forall|ts: u32| #[trigger] v.packets.contains_key(ts) implies exists|i: int|
                0 <= i < m && ts == slot(base, len, #[trigger] order[i]) by {
                if ts == timestamp {
                    assert(ts == slot(base, len, order[m - 1]));
                } else {
                    assert(before.packets.contains_key(ts));
                }
            }
        },
        JitterStep::Pop { .. } => {},
    }
}

/// Whether the frames from number `k` on, and no others, wait to be played.
spec fn waiting(v: JitterView, base: u32, len: u32, frames: Seq<Seq<i16>>, k: int) -> bool {
    &&& v.primed
    &&& v.config.samples_per_packet == len
    &&& v.next_playout_ts == Some(slot(base, len, k))
    &&& v.packets.dom().finite()
    &&& forall|j: int|
        k <= j < frames.len() ==> v.packets.contains_key(#[trigger] slot(base, len, j))
            && v.packets[slot(base, len, j)].samples == frames[j]
    &&& forall|ts: u32| #[trigger]
        v.packets.contains_key(ts) ==> exists|j: int|
            k <= j < frames.len() && ts == #[trigger] slot(base, len, j)
}

/// After `k` pops the first `k` frames are gone and the others wait.
proof fn lemma_drained(
    ready: JitterView,
    base: u32,
    len: u32,
    frames: Seq<Seq<i16>>,
    faded: Seq<Seq<i16>>,
    k: int,
)
    requires
        len > 0,
        frames.len() * len < 0x8000_0000,
        waiting(ready, base, len, frames, 0),
        faded.len() == frames.len(),
        0 <= k <= frames.len(),
    ensures
        waiting(
            ready.run(faded.take(k).map_values(|f: Seq<i16>| JitterStep::Pop { faded: f })),
            base,
            len,
            frames,
            k,
        ),
    decreases k,
{
    let pops = faded.take(k).map_values(|f: Seq<i16>| JitterStep::Pop { faded: f });
    if k == 0 {
        assert(pops.len() == 0);
    } else {
        let fewer = faded.take(k - 1).map_values(|f: Seq<i16>| JitterStep::Pop { faded: f });
        let n = frames.len() as int;
        assert(pops.drop_last() =~= fewer);
        assert(pops.last() == (JitterStep::Pop { faded: faded[k - 1] }));
        lemma_drained(ready, base, len, frames, faded, k - 1);
        let before = ready.run(fewer);
        let v = ready.run(pops);
        let here = slot(base, len, k - 1);
        lemma_slot(base, len, k, k - 1, n);
        assert(before.packets.contains_key(here));
        assert(v == before.past(here).playing(here));
        assert forall|j: int| k <= j < n implies v.packets.contains_key(#[trigger] slot(base, len, j))
            && v.packets[slot(base, len, j)].samples == frames[j] by {
            lemma_slot(base, len, j, k - 1, n);
        }
        assert forall|ts: u32| #[trigger] v.packets.contains_key(ts) implies exists|j: int|
            k <= j < n && ts == #[trigger] slot(base, len, j) by {
            assert(before.packets.contains_key(ts));
            let j = choose|j: int| k - 1 <= j < n && ts == #[trigger] slot(base, len, j);
            assert(j != k - 1);
        }
    }
}

} // verus!
