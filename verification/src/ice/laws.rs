//! What ICE promises: which pairs are checked and in which order, what is selected, and what goes
//! over the wire.

use super::agent::{
    advance, fallback, gathered, reflexive, waiting, CheckStep, IceAgent, IceError, IceRole,
    IceState, QueuedCheck,
};
use super::candidate::{pair_priority_for, Candidate, CandidateType, Transport};
use super::check::{answers_check, check_attrs, check_request, covered, hmac_sha1, ice_username};
use super::pairs::{
    by_priority, compatible, formed, lemma_by_priority, lemma_members, new_pair, unfreeze_related,
    with_locals, with_pair, with_remotes, CandidatePair, PairState,
};
use super::wire::attr_wire;
use crate::buf::{be16, be32, frozen};
use crate::net::SocketAddr;
use vstd::prelude::*;
use vstd::utf8::encode_utf8;

verus! {

/// The queue that checking begins with holds every pair that waits, with its place, each once and
/// in the order of the list, and nothing else.
pub proof fn lemma_waiting_queue(pairs: Seq<CandidatePair>, n: int)
    requires
        0 <= n <= pairs.len(),
        n <= usize::MAX,
    ensures
        forall|i: int|
            0 <= i < n && (#[trigger] pairs[i]).state == PairState::Waiting ==> queued_at(
                waiting(pairs, n),
                i,
            ),
        forall|k: int|
            0 <= k < waiting(pairs, n).len() ==> {
                let q = #[trigger] waiting(pairs, n)[k];
                q.index < n && pairs[q.index as int].state == PairState::Waiting && q.pair
                    == pairs[q.index as int]
            },
        rising(waiting(pairs, n)),
    decreases n,
{
    if n > 0 {
        lemma_waiting_queue(pairs, n - 1);
        let before = waiting(pairs, n - 1);
        let now = waiting(pairs, n);
        assert forall|i: int|
            0 <= i < n && (#[trigger] pairs[i]).state == PairState::Waiting implies queued_at(
            now,
            i,
        ) by {
            if i < n - 1 {
                let k = choose|k: int| 0 <= k < before.len() && (#[trigger] before[k]).index == i;
                assert(now[k].index == i);
            } else {
                assert(now[before.len() as int].index == i);
            }
        }
    }
}

/// Whether the place `i` is in the queue.
pub open spec fn queued_at(queue: Seq<QueuedCheck>, i: int) -> bool {
    exists|k: int| 0 <= k < queue.len() && (#[trigger] queue[k]).index == i
}

/// Whether the places in the queue rise, so that none is there twice.
pub open spec fn rising(queue: Seq<QueuedCheck>) -> bool {
    forall|j: int, k: int|
        #![trigger queue[j], queue[k]]
        0 <= j < k < queue.len() ==> queue[j].index < queue[k].index
}

/// Whether the local candidate of a queued pair has a socket: one that is bound to its own
/// address, or to its base if it has one.
pub open spec fn sendable(q: QueuedCheck, sockets: Seq<SocketAddr>) -> bool {
    sockets.contains(
        match q.pair.local.related_address {
            Some(base) => base,
            None => q.pair.local.address,
        },
    )
}

/// The next check is that of the first queued pair that can be sent. It is in progress then; the
/// ones before it, which cannot, have failed; the ones behind it stay in the queue, and no other
/// pair changes.
pub proof fn lemma_next_check(
    pairs: Seq<CandidatePair>,
    queue: Seq<QueuedCheck>,
    sockets: Seq<SocketAddr>,
    k: int,
)
    requires
        rising(queue),
        forall|j: int| 0 <= j < queue.len() ==> (#[trigger] queue[j]).index < pairs.len(),
        0 <= k < queue.len(),
        sendable(queue[k], sockets),
        forall|j: int| 0 <= j < k ==> !sendable(#[trigger] queue[j], sockets),
    ensures
        ({
            let a = advance(pairs, queue, sockets);
            &&& a.next == Some(queue[k])
            &&& a.queue == queue.skip(k + 1)
            &&& a.pairs.len() == pairs.len()
            &&& a.pairs[queue[k].index as int] == pairs[queue[k].index as int].in_state(
                PairState::InProgress,
            )
            &&& forall|j: int|
                0 <= j < k ==> a.pairs[(#[trigger] queue[j]).index as int]
                    == pairs[queue[j].index as int].in_state(PairState::Failed)
            &&& forall|i: int|
                0 <= i < pairs.len() && !queued_at(queue.take(k + 1), i) ==> #[trigger] a.pairs[i]
                    == pairs[i]
        }),
    decreases queue.len(),
{
    let i0 = queue[0].index as int;
    let a = advance(pairs, queue, sockets);
    if k == 0 {
        assert(queue.take(1)[0].index == i0);
        assert(queued_at(queue.take(1), i0));
    } else {
        let rest = queue.skip(1);
        let failed = pairs.update(i0, pairs[i0].in_state(PairState::Failed));
        assert(!sendable(queue[0], sockets));
        assert forall|j: int, m: int|
            #![trigger rest[j], rest[m]]
            0 <= j < m < rest.len() implies rest[j].index < rest[m].index by {
            assert(queue[j + 1].index < queue[m + 1].index);
        }
        assert forall|j: int| 0 <= j < rest.len() implies (#[trigger] rest[j]).index
            < failed.len() by {
            assert(queue[j + 1].index < pairs.len());
        }
        assert forall|j: int| 0 <= j < k - 1 implies !sendable(#[trigger] rest[j], sockets) by {
            assert(!sendable(queue[j + 1], sockets));
        }
        assert(rest[k - 1] == queue[k]);
        lemma_next_check(failed, rest, sockets, k - 1);
        assert(rest.skip(k) =~= queue.skip(k + 1));
        assert(!queued_at(rest.take(k), i0)) by {
            if queued_at(rest.take(k), i0) {
                let m = choose|m: int|
                    0 <= m < rest.take(k).len() && (#[trigger] rest.take(k)[m]).index == i0;
                assert(queue[0].index < queue[m + 1].index);
            }
        }
        assert(a.pairs[i0] == failed[i0]);
        assert(queue[0].index < queue[k].index);
        assert forall|j: int| 0 <= j < k implies a.pairs[(#[trigger] queue[j]).index as int]
            == pairs[queue[j].index as int].in_state(PairState::Failed) by {
            if j > 0 {
                assert(rest[j - 1] == queue[j]);
                assert(queue[0].index < queue[j].index);
            }
        }
        assert forall|i: int|
            0 <= i < pairs.len() && !queued_at(queue.take(k + 1), i) implies #[trigger] a.pairs[i]
            == pairs[i] by {
            if queued_at(rest.take(k), i) {
                let m = choose|m: int|
                    0 <= m < rest.take(k).len() && (#[trigger] rest.take(k)[m]).index == i;
                assert(queue.take(k + 1)[m + 1].index == i);
            }
            assert(queue.take(k + 1)[0].index == i0);
            assert(i != i0);
        }
    }
}

/// Where no queued pair can be sent, all of them have failed, and there is no next check.
pub proof fn lemma_no_next_check(
    pairs: Seq<CandidatePair>,
    queue: Seq<QueuedCheck>,
    sockets: Seq<SocketAddr>,
)
    requires
        rising(queue),
        forall|j: int| 0 <= j < queue.len() ==> (#[trigger] queue[j]).index < pairs.len(),
        forall|j: int| 0 <= j < queue.len() ==> !sendable(#[trigger] queue[j], sockets),
    ensures
        ({
            let a = advance(pairs, queue, sockets);
            &&& a.next is None
            &&& a.queue.len() == 0
            &&& a.pairs.len() == pairs.len()
            &&& forall|j: int|
                0 <= j < queue.len() ==> a.pairs[(#[trigger] queue[j]).index as int]
                    == pairs[queue[j].index as int].in_state(PairState::Failed)
            &&& forall|i: int|
                0 <= i < pairs.len() && !queued_at(queue, i) ==> #[trigger] a.pairs[i] == pairs[i]
        }),
    decreases queue.len(),
{
    if queue.len() > 0 {
        let i0 = queue[0].index as int;
        let a = advance(pairs, queue, sockets);
        let rest = queue.skip(1);
        let failed = pairs.update(i0, pairs[i0].in_state(PairState::Failed));
        assert(!sendable(queue[0], sockets));
        assert forall|j: int, m: int|
            #![trigger rest[j], rest[m]]
            0 <= j < m < rest.len() implies rest[j].index < rest[m].index by {
            assert(queue[j + 1].index < queue[m + 1].index);
        }
        assert forall|j: int| 0 <= j < rest.len() implies (#[trigger] rest[j]).index < failed.len()
            && !sendable(rest[j], sockets) by {
            assert(queue[j + 1].index < pairs.len());
            assert(!sendable(queue[j + 1], sockets));
        }
        lemma_no_next_check(failed, rest, sockets);
        assert(!queued_at(rest, i0)) by {
            if queued_at(rest, i0) {
                let m = choose|m: int| 0 <= m < rest.len() && (#[trigger] rest[m]).index == i0;
                assert(queue[0].index < queue[m + 1].index);
            }
        }
        assert(a.pairs[i0] == failed[i0]);
        assert forall|j: int| 0 <= j < queue.len() implies a.pairs[(
        #[trigger] queue[j]).index as int] == pairs[queue[j].index as int].in_state(
            PairState::Failed,
        ) by {
            if j > 0 {
                assert(rest[j - 1] == queue[j]);
                assert(queue[0].index < queue[j].index);
            }
        }
        assert forall|i: int| 0 <= i < pairs.len() && !queued_at(
            queue,
            i,
        ) implies #[trigger] a.pairs[i] == pairs[i] by {
            if queued_at(rest, i) {
                let m = choose|m: int| 0 <= m < rest.len() && (#[trigger] rest[m]).index == i;
                assert(queue[m + 1].index == i);
            }
            assert(queue[0].index == i0);
            assert(i != i0);
        }
    }
}

/// Putting a pair in a state changes nothing else of it.
pub proof fn lemma_in_state(p: CandidatePair, state: PairState)
    ensures
        p.in_state(state).state == state,
        p.in_state(state).local == p.local,
        p.in_state(state).remote == p.remote,
        p.in_state(state).priority == p.priority,
        p.in_state(state).nominated == p.nominated,
{
}

/// As long as a queued pair can be sent, checking goes on with the first such: from the socket of
/// its local candidate to its remote address, with a request that names both fragments, remote
/// first. The agent keeps checking, and what was selected stays.
pub proof fn lemma_goes_on(
    agent: IceAgent,
    pairs: Seq<CandidatePair>,
    queue: Seq<QueuedCheck>,
    selected: Option<CandidatePair>,
    step: CheckStep,
    k: int,
)
    requires
        agent.went_on(pairs, queue, selected, step),
        rising(queue),
        forall|j: int| 0 <= j < queue.len() ==> (#[trigger] queue[j]).index < pairs.len(),
        0 <= k < queue.len(),
        sendable(queue[k], agent.sockets@),
        forall|j: int| 0 <= j < k ==> !sendable(#[trigger] queue[j], agent.sockets@),
    ensures
        agent.state == IceState::Checking,
        agent.selected_pair == selected,
        agent.current == Some(queue[k]),
        agent.queue@ == queue.skip(k + 1),
        step matches CheckStep::Check(c) && {
            &&& c.target == queue[k].pair.remote.address
            &&& queue[k].pair.local.related_address is None ==> c.socket
                == queue[k].pair.local.address
            &&& queue[k].pair.local.related_address is Some ==> Some(c.socket)
                == queue[k].pair.local.related_address
            &&& frozen(c.request) == check_request(
                c.transaction_id@,
                check_attrs(
                    agent.remote_ufrag->0@ + seq![':'] + agent.config.local_ufrag@,
                    queue[k].pair.local.priority,
                    agent.role,
                    c.tie_breaker@,
                ),
                agent.remote_pwd->0@,
            )
        },
{
    lemma_next_check(pairs, queue, agent.sockets@, k);
}

/// Where no queued pair can be sent, checking is over: the agent is connected over the first pair
/// of two host candidates, or else over the first pair; without any pair it has failed.
pub proof fn lemma_falls_back(
    agent: IceAgent,
    pairs: Seq<CandidatePair>,
    queue: Seq<QueuedCheck>,
    selected: Option<CandidatePair>,
    step: CheckStep,
)
    requires
        agent.went_on(pairs, queue, selected, step),
        rising(queue),
        forall|j: int| 0 <= j < queue.len() ==> (#[trigger] queue[j]).index < pairs.len(),
        forall|j: int| 0 <= j < queue.len() ==> !sendable(#[trigger] queue[j], agent.sockets@),
    ensures
        agent.current is None,
        agent.queue@.len() == 0,
        pairs.len() > 0 ==> agent.state == IceState::Connected && step == CheckStep::Finished(
            Ok(()),
        ) && agent.selected_pair == fallback(agent.candidate_pairs@),
        pairs.len() == 0 ==> agent.state == IceState::Failed && agent.selected_pair == selected
            && step == CheckStep::Finished(Err(IceError::NoCandidates)),
{
    lemma_no_next_check(pairs, queue, agent.sockets@);
    lemma_fallback(agent.candidate_pairs@);
}

/// Falling back without checks: connected over the pair to fall back on if there is any pair, else
/// failed with what was selected before.
pub proof fn lemma_fell_back(agent: IceAgent, selected: Option<CandidatePair>, step: CheckStep)
    requires
        agent.fell_back(selected, step),
    ensures
        agent.candidate_pairs@.len() > 0 ==> agent.state == IceState::Connected && step
            == CheckStep::Finished(Ok(())) && agent.selected_pair == fallback(
            agent.candidate_pairs@,
        ),
        agent.candidate_pairs@.len() == 0 ==> agent.state == IceState::Failed && agent.selected_pair
            == selected && step == CheckStep::Finished(Err(IceError::NoCandidates)),
{
    lemma_fallback(agent.candidate_pairs@);
}

/// The pair to fall back on is the first whose candidates are both host candidates; if there is
/// none, the first of all.
pub proof fn lemma_fallback(pairs: Seq<CandidatePair>)
    ensures
        pairs.len() == 0 <==> fallback(pairs) is None,
        forall|i: int|
            0 <= i < pairs.len() && both_host(#[trigger] pairs[i]) && (forall|j: int|
                0 <= j < i ==> !both_host(#[trigger] pairs[j])) ==> fallback(pairs) == Some(
                pairs[i],
            ),
        pairs.len() > 0 && (forall|i: int| 0 <= i < pairs.len() ==> !both_host(#[trigger] pairs[i]))
            ==> fallback(pairs) == Some(pairs[0]),
{
    assert forall|i: int|
        0 <= i < pairs.len() && both_host(#[trigger] pairs[i]) && (forall|j: int|
            0 <= j < i ==> !both_host(#[trigger] pairs[j])) implies fallback(pairs) == Some(
        pairs[i],
    ) by {
        lemma_first_host(pairs, 0, i);
    }
    if forall|i: int| 0 <= i < pairs.len() ==> !both_host(#[trigger] pairs[i]) {
        lemma_no_host(pairs, 0);
    } else {
        let i = choose|i: int| 0 <= i < pairs.len() && both_host(#[trigger] pairs[i]);
        lemma_some_host(pairs, 0, i);
    }
}

/// Whether both candidates of a pair are host candidates.
pub open spec fn both_host(p: CandidatePair) -> bool {
    p.local.candidate_type is Host && p.remote.candidate_type is Host
}

proof fn lemma_first_host(pairs: Seq<CandidatePair>, from: int, i: int)
    requires
        0 <= from <= i < pairs.len(),
        both_host(pairs[i]),
        forall|j: int| from <= j < i ==> !both_host(#[trigger] pairs[j]),
    ensures
        super::agent::first_host_pair(pairs, from) == Some(i),
    decreases i - from,
{
    if from < i {
        assert(!both_host(pairs[from]));
        lemma_first_host(pairs, from + 1, i);
    }
}

proof fn lemma_no_host(pairs: Seq<CandidatePair>, from: int)
    requires
        0 <= from <= pairs.len(),
        forall|j: int| 0 <= j < pairs.len() ==> !both_host(#[trigger] pairs[j]),
    ensures
        super::agent::first_host_pair(pairs, from) is None,
    decreases pairs.len() - from,
{
    if from < pairs.len() {
        assert(!both_host(pairs[from]));
        lemma_no_host(pairs, from + 1);
    }
}

proof fn lemma_some_host(pairs: Seq<CandidatePair>, from: int, i: int)
    requires
        0 <= from <= i < pairs.len(),
        both_host(pairs[i]),
    ensures
        super::agent::first_host_pair(pairs, from) is Some,
    decreases i - from,
{
    if !both_host(pairs[from]) {
        lemma_some_host(pairs, from + 1, i);
    }
}

/// After a success, the frozen pairs of the local candidate's foundation wait for their checks;
/// the pair itself and all others stay as they are.
pub proof fn lemma_success_unfreezes(
    s: Seq<CandidatePair>,
    index: int,
    succeeded: CandidatePair,
    i: int,
)
    requires
        0 <= i < s.len(),
    ensures
        unfreeze_related(s, index, succeeded).len() == s.len(),
        ({
            let t = unfreeze_related(s, index, succeeded);
            let related = i != index && s[i].state == PairState::Frozen && s[i].local.foundation
                == succeeded.local.foundation;
            &&& related ==> t[i].state == PairState::Waiting
            &&& !related ==> t[i].state == s[i].state
            &&& t[i].local == s[i].local
            &&& t[i].remote == s[i].remote
            &&& t[i].priority == s[i].priority
            &&& t[i].nominated == s[i].nominated
        }),
{
}

/// Whether a pair is new: not nominated, frozen, and with the priority that RFC 8445 gives it,
/// which weighs the lower priority by 2^32, the higher one by 2, and adds 1 where that of the
/// controlling side is the higher one.
pub open spec fn freshly_paired(p: CandidatePair, controlling: bool) -> bool {
    let g = if controlling {
        p.local.priority as int
    } else {
        p.remote.priority as int
    };
    let d = if controlling {
        p.remote.priority as int
    } else {
        p.local.priority as int
    };
    &&& !p.nominated
    &&& p.state == PairState::Frozen
    &&& p.priority == rfc_priority(g, d) as u64
}

/// 2^32 times the lower number, twice the higher one, and 1 where the first is the higher one.
pub open spec fn rfc_priority(g: int, d: int) -> int {
    if g > d {
        4294967296 * d + 2 * g + 1
    } else {
        4294967296 * g + 2 * d
    }
}

/// The priority of a pair is the one that RFC 8445 gives it.
pub proof fn lemma_pair_priority(controlling: bool, local: u32, remote: u32)
    ensures
        controlling ==> pair_priority_for(controlling, local, remote) == rfc_priority(
            local as int,
            remote as int,
        ),
        !controlling ==> pair_priority_for(controlling, local, remote) == rfc_priority(
            remote as int,
            local as int,
        ),
{
}

/// Pairs that are formed where there were none are new but for one thing: the first of any two
/// foundations waits for its check. The others are frozen.
pub proof fn lemma_formed_fresh(
    local: Seq<Candidate>,
    remote: Seq<Candidate>,
    controlling: bool,
    i: int,
)
    requires
        0 <= i < formed(Seq::empty(), local, remote, controlling).len(),
    ensures
        ({
            let f = formed(Seq::empty(), local, remote, controlling);
            let leads = forall|j: int|
                0 <= j < i ==> (#[trigger] f[j]).local.foundation != f[i].local.foundation
                    || f[j].remote.foundation != f[i].remote.foundation;
            &&& leads ==> f[i].state == PairState::Waiting
            &&& !leads ==> f[i].state == PairState::Frozen
            &&& !f[i].nominated
            &&& freshly_paired(CandidatePair { state: PairState::Frozen, ..f[i] }, controlling)
            &&& f[i].local.component == f[i].remote.component
            &&& f[i].local.transport == f[i].remote.transport
        }),
{
    let all = with_locals(Seq::empty(), local, remote, controlling, local.len() as int);
    let sorted = by_priority(all);
    let f = formed(Seq::empty(), local, remote, controlling);
    lemma_locals_fresh(local, remote, controlling, local.len() as int);
    lemma_by_priority(all);
    lemma_members(sorted, all);
    assert(all.contains(sorted[i]));
    let leads = forall|j: int|
        0 <= j < i ==> (#[trigger] f[j]).local.foundation != f[i].local.foundation
            || f[j].remote.foundation != f[i].remote.foundation;
    if leads {
        assert forall|j: int| 0 <= j < i implies !(#[trigger] sorted[j]).same_foundations(
            sorted[i],
        ) by {
            assert(f[j].local == sorted[j].local && f[j].remote == sorted[j].remote);
        }
    } else {
        let j = choose|j: int|
            0 <= j < i && (#[trigger] f[j]).local.foundation == f[i].local.foundation
                && f[j].remote.foundation == f[i].remote.foundation;
        assert(sorted[j].same_foundations(sorted[i]));
    }
}

/// Whether every pair is new and of candidates that agree in component and transport.
spec fn all_fresh(s: Seq<CandidatePair>, controlling: bool) -> bool {
    forall|i: int|
        0 <= i < s.len() ==> freshly_paired(#[trigger] s[i], controlling) && s[i].local.component
            == s[i].remote.component && s[i].local.transport == s[i].remote.transport
}

proof fn lemma_locals_fresh(
    local: Seq<Candidate>,
    remote: Seq<Candidate>,
    controlling: bool,
    n: int,
)
    ensures
        all_fresh(with_locals(Seq::empty(), local, remote, controlling, n), controlling),
    decreases n,
{
    if n > 0 {
        lemma_locals_fresh(local, remote, controlling, n - 1);
        lemma_remotes_fresh(
            with_locals(Seq::empty(), local, remote, controlling, n - 1),
            local[n - 1],
            remote,
            controlling,
            remote.len() as int,
        );
    }
}

proof fn lemma_remotes_fresh(
    pairs: Seq<CandidatePair>,
    local: Candidate,
    remote: Seq<Candidate>,
    controlling: bool,
    n: int,
)
    requires
        all_fresh(pairs, controlling),
    ensures
        all_fresh(with_remotes(pairs, local, remote, controlling, n), controlling),
    decreases n,
{
    if n > 0 {
        lemma_remotes_fresh(pairs, local, remote, controlling, n - 1);
        let before = with_remotes(pairs, local, remote, controlling, n - 1);
        let p = new_pair(local, remote[n - 1], controlling);
        lemma_pair_priority(controlling, local.priority, remote[n - 1].priority);
        assert(freshly_paired(p, controlling));
        let t = with_pair(before, local, remote[n - 1], controlling);
        assert forall|i: int| 0 <= i < t.len() implies freshly_paired(#[trigger] t[i], controlling)
            && t[i].local.component == t[i].remote.component && t[i].local.transport
            == t[i].remote.transport by {
            if i < before.len() {
                assert(t[i] == before[i]);
            }
        }
    }
}

/// Host and server-reflexive candidates: the type preferences are 126 and 100, the local
/// preference is full, and a higher component has the lower priority. The foundation is made of
/// the type, the base's IP address and UDP. A host candidate is its own base, a reflexive one has
/// the socket's address as its base.
pub proof fn lemma_candidates(address: SocketAddr, base: SocketAddr, component: u8)
    ensures
        ({
            let h = Candidate::spec_host(address, component);
            let s = Candidate::spec_server_reflexive(address, base, component);
            &&& h.priority == 126 * 16777216 + 65535 * 256 + (256 - component)
            &&& s.priority == 100 * 16777216 + 65535 * 256 + (256 - component)
            &&& h.address == address && s.address == address
            &&& h.component == component && s.component == component
            &&& h.transport == Transport::Udp && s.transport == Transport::Udp
            &&& h.candidate_type == CandidateType::Host
            &&& s.candidate_type == CandidateType::ServerReflexive
            &&& h.related_address is None
            &&& s.related_address == Some(base)
            &&& h.base() == address
            &&& s.base() == base
            &&& h.foundation.candidate_type == CandidateType::Host
            &&& s.foundation.candidate_type == CandidateType::ServerReflexive
            &&& h.foundation.base_ip == address.ip
            &&& s.foundation.base_ip == base.ip
            &&& h.foundation.transport == Transport::Udp
            &&& s.foundation.transport == Transport::Udp
        }),
{
}

/// Whether a candidate is the reflexive one, of the first component, of an address that a server
/// saw and that is not the socket's own.
pub open spec fn seen_by_server(mapped: Seq<(SocketAddr, SocketAddr)>, c: Candidate) -> bool {
    exists|i: int|
        0 <= i < mapped.len() && (#[trigger] mapped[i]).1 != mapped[i].0 && c
            == Candidate::spec_server_reflexive(mapped[i].1, mapped[i].0, 1)
}

/// Gathering gives a host candidate of the first component for every socket, in their order, and
/// behind them the reflexive ones of the addresses that servers saw, where they are others than
/// the sockets' own.
pub proof fn lemma_gathered(bound: Seq<SocketAddr>, mapped: Seq<(SocketAddr, SocketAddr)>)
    ensures
        gathered(bound, mapped).len() >= bound.len(),
        forall|i: int|
            0 <= i < bound.len() ==> (#[trigger] gathered(bound, mapped)[i])
                == Candidate::spec_host(bound[i], 1),
        forall|c: Candidate|
            seen_by_server(mapped, c) <==> #[trigger] gathered(bound, mapped).skip(
                bound.len() as int,
            ).contains(c),
{
    let g = gathered(bound, mapped);
    let r = reflexive(mapped);
    assert(g.skip(bound.len() as int) =~= r);
    assert forall|c: Candidate| seen_by_server(mapped, c) <==> #[trigger] r.contains(c) by {
        lemma_reflexive(mapped, c);
    }
}

proof fn lemma_reflexive(mapped: Seq<(SocketAddr, SocketAddr)>, c: Candidate)
    ensures
        seen_by_server(mapped, c) <==> reflexive(mapped).contains(c),
    decreases mapped.len(),
{
    if mapped.len() > 0 {
        let init = mapped.drop_last();
        let before = reflexive(init);
        let r = reflexive(mapped);
        let last = mapped[mapped.len() - 1];
        lemma_reflexive(init, c);
        if seen_by_server(mapped, c) {
            let i = choose|i: int|
                0 <= i < mapped.len() && (#[trigger] mapped[i]).1 != mapped[i].0 && c
                    == Candidate::spec_server_reflexive(mapped[i].1, mapped[i].0, 1);
            if i < init.len() {
                assert(init[i] == mapped[i]);
                assert(seen_by_server(init, c));
                let k = choose|k: int| 0 <= k < before.len() && before[k] == c;
                assert(r[k] == c);
            } else {
                assert(r[before.len() as int] == c);
            }
        }
        if r.contains(c) {
            let k = choose|k: int| 0 <= k < r.len() && r[k] == c;
            if k < before.len() {
                assert(before[k] == c);
                assert(before.contains(c));
                let i = choose|i: int|
                    0 <= i < init.len() && (#[trigger] init[i]).1 != init[i].0 && c
                        == Candidate::spec_server_reflexive(init[i].1, init[i].0, 1);
                assert(mapped[i] == init[i]);
            } else {
                assert(last == mapped.last());
                assert(seen_by_server(mapped, c));
            }
        }
    }
}

/// A check is a binding request, type 1, whose length field counts everything behind the first 20
/// bytes. It carries USERNAME (6), PRIORITY (0x24) and the role with the tie breaker (0x802A for a
/// controlling agent, 0x8029 for a controlled one), and ends with MESSAGE-INTEGRITY (8), the
/// HMAC-SHA1 of all before it under the password.
pub proof fn lemma_check_on_the_wire(
    txn: Seq<u8>,
    username: Seq<char>,
    priority: u32,
    role: IceRole,
    tie_breaker: Seq<u8>,
    pwd: Seq<char>,
)
    ensures
        ({
            let attrs = attr_wire(6, encode_utf8(username)) + attr_wire(0x24, be32(priority))
                + attr_wire(
                if role == IceRole::Controlling {
                    0x802Au16
                } else {
                    0x8029u16
                },
                tie_breaker,
            );
            let signed = be16(1) + be16(((attrs.len() + 24) % 65536) as u16) + be32(0x2112A442)
                + txn + attrs;
            &&& check_attrs(username, priority, role, tie_breaker) == attrs
            &&& covered(txn, attrs) == signed
            &&& check_request(txn, attrs, pwd) == signed + be16(8) + be16(20) + hmac_sha1(
                encode_utf8(pwd),
                signed,
            )
        }),
{
}

/// A check is answered by a message of at least 20 bytes that begins with 0x0101, has the cookie
/// 0x2112A442 at its fifth byte and the transaction ID behind it, and by no other.
pub proof fn lemma_check_answer(data: Seq<u8>, txn: Seq<u8>)
    requires
        txn.len() == 12,
    ensures
        answers_check(data, txn) <==> data.len() >= 20 && data[0] == 1 && data[1] == 1 && data[4]
            == 0x21 && data[5] == 0x12 && data[6] == 0xA4 && data[7] == 0x42 && forall|i: int|
            0 <= i < 12 ==> data[8 + i] == #[trigger] txn[i],
{
    if data.len() >= 20 {
        assert(data.subrange(8, 20).len() == 12);
        if data.subrange(8, 20) == txn {
            assert forall|i: int| 0 <= i < 12 implies data[8 + i] == #[trigger] txn[i] by {
                assert(data.subrange(8, 20)[i] == data[8 + i]);
            }
        }
        if forall|i: int| 0 <= i < 12 ==> data[8 + i] == #[trigger] txn[i] {
            assert forall|i: int| 0 <= i < 12 implies data.subrange(8, 20)[i] == txn[i] by {
                assert(data[8 + i] == txn[i]);
            }
            assert(data.subrange(8, 20) =~= txn);
        }
    }
}

/// The username of a check: the remote fragment, a colon, the local fragment.
pub proof fn lemma_username(remote: Seq<char>, local: Seq<char>)
    ensures
        ({
            let u = ice_username(remote, local);
            &&& u.len() == remote.len() + 1 + local.len()
            &&& u[remote.len() as int] == ':'
            &&& forall|i: int| 0 <= i < remote.len() ==> u[i] == #[trigger] remote[i]
            &&& forall|i: int|
                0 <= i < local.len() ==> u[remote.len() + 1 + i] == #[trigger] local[i]
        }),
{
}

/// Candidates can be paired exactly if they agree in component and transport.
pub proof fn lemma_compatible(local: Candidate, remote: Candidate)
    ensures
        compatible(local, remote) <==> local.component == remote.component && local.transport
            == remote.transport,
{
}

} // verus!
