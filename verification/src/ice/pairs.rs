//! Candidate pairs: forming, ordering and unfreezing them.

use super::candidate::{calculate_pair_priority, pair_priority_for, Candidate};
use vstd::prelude::*;

verus! {

/// Candidate pair state.
#[derive(Debug, Clone, Copy, PartialEq, Eq, Structural)]
pub enum PairState {
    /// Waiting to be checked.
    Waiting,
    /// Check in progress.
    InProgress,
    /// Check succeeded.
    Succeeded,
    /// Check failed.
    Failed,
    /// Pair frozen (waiting for other checks).
    Frozen,
}

/// ICE candidate pair.
#[derive(Debug, Clone, Copy)]
pub struct CandidatePair {
    /// Local candidate.
    pub local: Candidate,
    /// Remote candidate.
    pub remote: Candidate,
    /// Pair priority.
    pub priority: u64,
    /// Pair state.
    pub state: PairState,
    /// Whether this pair is nominated.
    pub nominated: bool,
}

impl CandidatePair {
    /// The pair in another state.
    pub open spec fn in_state(self, state: PairState) -> CandidatePair {
        CandidatePair { state, ..self }
    }

    /// Whether this is the pair of these two addresses.
    pub open spec fn joins(self, local: Candidate, remote: Candidate) -> bool {
        self.local.address == local.address && self.remote.address == remote.address
    }

    /// Whether two pairs are of the same foundations.
    pub open spec fn same_foundations(self, other: CandidatePair) -> bool {
        self.local.foundation == other.local.foundation && self.remote.foundation
            == other.remote.foundation
    }
}

/// Whether two candidates can form a pair.
pub open spec fn compatible(local: Candidate, remote: Candidate) -> bool {
    local.component == remote.component && local.transport == remote.transport
}

/// Whether the pair of these two addresses is in the list.
pub open spec fn paired(pairs: Seq<CandidatePair>, local: Candidate, remote: Candidate) -> bool {
    exists|i: int| 0 <= i < pairs.len() && (#[trigger] pairs[i]).joins(local, remote)
}

/// The new pair of two candidates.
pub open spec fn new_pair(local: Candidate, remote: Candidate, controlling: bool) -> CandidatePair {
    CandidatePair {
        local,
        remote,
        priority: pair_priority_for(controlling, local.priority, remote.priority) as u64,
        state: PairState::Frozen,
        nominated: false,
    }
}

/// The list with the pair of these two candidates, if they can form one and it is new.
pub open spec fn with_pair(
    pairs: Seq<CandidatePair>,
    local: Candidate,
    remote: Candidate,
    controlling: bool,
) -> Seq<CandidatePair> {
    if compatible(local, remote) && !paired(pairs, local, remote) {
        pairs.push(new_pair(local, remote, controlling))
    } else {
        pairs
    }
}

/// The list with the pairs of `local` and the first `n` of `remote`.
pub open spec fn with_remotes(
    pairs: Seq<CandidatePair>,
    local: Candidate,
    remote: Seq<Candidate>,
    controlling: bool,
    n: int,
) -> Seq<CandidatePair>
    decreases n,
{
    if n <= 0 {
        pairs
    } else {
        with_pair(
            with_remotes(pairs, local, remote, controlling, n - 1),
            local,
            remote[n - 1],
            controlling,
        )
    }
}

/// The list with the pairs of the first `n` of `local` and all of `remote`.
pub open spec fn with_locals(
    pairs: Seq<CandidatePair>,
    local: Seq<Candidate>,
    remote: Seq<Candidate>,
    controlling: bool,
    n: int,
) -> Seq<CandidatePair>
    decreases n,
{
    if n <= 0 {
        pairs
    } else {
        with_remotes(
            with_locals(pairs, local, remote, controlling, n - 1),
            local[n - 1],
            remote,
            controlling,
            remote.len() as int,
        )
    }
}

/// Where a pair goes in a list that is ordered by priority, highest first: behind those of its
/// own priority.
pub open spec fn place(s: Seq<CandidatePair>, p: CandidatePair) -> int
    decreases s.len(),
{
    if s.len() == 0 || s.last().priority >= p.priority {
        s.len() as int
    } else {
        place(s.drop_last(), p)
    }
}

/// The list ordered by priority, highest first; pairs of one priority keep their order.
pub open spec fn by_priority(s: Seq<CandidatePair>) -> Seq<CandidatePair>
    decreases s.len(),
{
    if s.len() == 0 {
        s
    } else {
        let sorted = by_priority(s.drop_last());
        sorted.insert(place(sorted, s.last()), s.last())
    }
}

/// Whether no pair before `i` is of the same foundations.
pub open spec fn first_of_foundations(s: Seq<CandidatePair>, i: int) -> bool {
    forall|j: int| 0 <= j < i ==> !(#[trigger] s[j]).same_foundations(s[i])
}

/// The list with the first pair of each two foundations waiting to be checked.
pub open spec fn unfreeze_first(s: Seq<CandidatePair>) -> Seq<CandidatePair> {
    Seq::new(
        s.len(),
        |i: int|
            if first_of_foundations(s, i) {
                s[i].in_state(PairState::Waiting)
            } else {
                s[i]
            },
    )
}

/// The list after candidates have been paired.
pub open spec fn formed(
    pairs: Seq<CandidatePair>,
    local: Seq<Candidate>,
    remote: Seq<Candidate>,
    controlling: bool,
) -> Seq<CandidatePair> {
    unfreeze_first(
        by_priority(with_locals(pairs, local, remote, controlling, local.len() as int)),
    )
}

/// The list after the pair at `index`, of the given one's local foundation, was checked with
/// success: the frozen pairs of that foundation wait to be checked.
pub open spec fn unfreeze_related(
    s: Seq<CandidatePair>,
    index: int,
    succeeded: CandidatePair,
) -> Seq<CandidatePair> {
    Seq::new(
        s.len(),
        |i: int|
            if i != index && s[i].state == PairState::Frozen && s[i].local.foundation
                == succeeded.local.foundation {
                s[i].in_state(PairState::Waiting)
            } else {
                s[i]
            },
    )
}

/// Ordered by priority, highest first.
pub open spec fn ordered(s: Seq<CandidatePair>) -> bool {
    forall|i: int, j: int|
        #![trigger s[i], s[j]]
        0 <= i < j < s.len() ==> s[i].priority >= s[j].priority
}

/// No two pairs of the same addresses.
pub open spec fn distinct(s: Seq<CandidatePair>) -> bool {
    forall|i: int, j: int|
        #![trigger s[i], s[j]]
        0 <= i < j < s.len() ==> !s[i].joins(s[j].local, s[j].remote)
}

/// Only pairs of compatible candidates.
pub open spec fn all_compatible(s: Seq<CandidatePair>) -> bool {
    forall|i: int| 0 <= i < s.len() ==> compatible((#[trigger] s[i]).local, s[i].remote)
}

/// What holds of an agent's list of pairs at all times.
pub open spec fn well_formed(s: Seq<CandidatePair>) -> bool {
    ordered(s) && distinct(s) && all_compatible(s)
}

/// Whether two lists hold the same pairs in the same order, whatever states they are in.
pub open spec fn same_pairs(s: Seq<CandidatePair>, t: Seq<CandidatePair>) -> bool {
    &&& s.len() == t.len()
    &&& forall|i: int|
        0 <= i < s.len() ==> (#[trigger] s[i]).local == t[i].local && s[i].remote == t[i].remote
            && s[i].priority == t[i].priority
}

/// Changing states keeps a list well formed.
pub proof fn lemma_same_pairs(s: Seq<CandidatePair>, t: Seq<CandidatePair>)
    requires
        same_pairs(s, t),
        well_formed(s),
    ensures
        well_formed(t),
{
    assert forall|i: int, j: int| #![trigger t[i], t[j]] 0 <= i < j < t.len() implies t[i].priority
        >= t[j].priority && !t[i].joins(t[j].local, t[j].remote) by {
        assert(s[i].priority >= s[j].priority && !s[i].joins(s[j].local, s[j].remote));
    }
    assert forall|i: int| 0 <= i < t.len() implies compatible(
        (#[trigger] t[i]).local,
        t[i].remote,
    ) by {
        assert(compatible(s[i].local, s[i].remote));
    }
}

proof fn lemma_place(s: Seq<CandidatePair>, p: CandidatePair)
    requires
        ordered(s),
    ensures
        0 <= place(s, p) <= s.len(),
        forall|i: int| 0 <= i < place(s, p) ==> (#[trigger] s[i]).priority >= p.priority,
        forall|i: int| place(s, p) <= i < s.len() ==> (#[trigger] s[i]).priority < p.priority,
    decreases s.len(),
{
    if s.len() > 0 && s.last().priority < p.priority {
        lemma_place(s.drop_last(), p);
        let init = s.drop_last();
        assert forall|i: int| 0 <= i < place(s, p) implies (#[trigger] s[i]).priority
            >= p.priority by {
            assert(init[i] == s[i]);
        }
        assert forall|i: int| place(s, p) <= i < s.len() implies (#[trigger] s[i]).priority
            < p.priority by {
            if i < init.len() {
                assert(init[i] == s[i]);
            }
        }
    } else if s.len() > 0 {
        assert forall|i: int| 0 <= i < place(s, p) implies (#[trigger] s[i]).priority
            >= p.priority by {
            if i < s.len() - 1 {
                assert(s[i].priority >= s[s.len() - 1].priority);
            }
        }
    }
}

/// The place of a pair is where those of lower priority start.
proof fn lemma_place_unique(s: Seq<CandidatePair>, p: CandidatePair, j: int)
    requires
        ordered(s),
        0 <= j <= s.len(),
        j > 0 ==> s[j - 1].priority >= p.priority,
        forall|i: int| j <= i < s.len() ==> (#[trigger] s[i]).priority < p.priority,
    ensures
        place(s, p) == j,
{
    lemma_place(s, p);
    let k = place(s, p);
    if k < j {
        assert(s[j - 1].priority < p.priority);
    }
    if j < k {
        assert(s[j].priority >= p.priority);
    }
}

/// Ordering by priority gives an ordered list of the same pairs.
pub proof fn lemma_by_priority(s: Seq<CandidatePair>)
    ensures
        ordered(by_priority(s)),
        by_priority(s).len() == s.len(),
        by_priority(s).to_multiset() == s.to_multiset(),
    decreases s.len(),
{
    if s.len() > 0 {
        let init = s.drop_last();
        let p = s.last();
        let sorted = by_priority(init);
        lemma_by_priority(init);
        lemma_place(sorted, p);
        lemma_insert_ordered(sorted, p);
        lemma_insert_multiset(sorted, place(sorted, p), p);
        assert(s =~= init.push(p));
        init.to_multiset_ensures();
    }
}

proof fn lemma_insert_ordered(sorted: Seq<CandidatePair>, p: CandidatePair)
    requires
        ordered(sorted),
    ensures
        ordered(sorted.insert(place(sorted, p), p)),
{
    lemma_place(sorted, p);
    let k = place(sorted, p);
    let t = sorted.insert(k, p);
    assert forall|i: int, j: int| #![trigger t[i], t[j]] 0 <= i < j < t.len() implies t[i].priority
        >= t[j].priority by {
        if i != k && j != k {
            let a = before_insert(i, k);
            let b = before_insert(j, k);
            assert(sorted[a].priority >= sorted[b].priority);
        }
    }
}

/// Where an element stood before another was inserted at `k`.
spec fn before_insert(i: int, k: int) -> int {
    if i < k {
        i
    } else {
        i - 1
    }
}

proof fn lemma_insert_multiset(sorted: Seq<CandidatePair>, k: int, p: CandidatePair)
    requires
        0 <= k <= sorted.len(),
    ensures
        sorted.insert(k, p).to_multiset() == sorted.to_multiset().insert(p),
{
    broadcast use vstd::multiset::group_multiset_axioms;

    let t = sorted.insert(k, p);
    t.to_multiset_ensures();
    assert(t[k] == p);
    assert(t.remove(k) =~= sorted);
    assert(t.remove(k).to_multiset() =~= t.to_multiset().remove(t[k]));
    assert(t.contains(p));
    assert(t.to_multiset().count(p) > 0);
    assert(t.to_multiset() =~= sorted.to_multiset().insert(p));
}

/// Ordering by priority keeps pairs distinct and compatible.
pub proof fn lemma_by_priority_keeps(s: Seq<CandidatePair>)
    requires
        distinct(s),
        all_compatible(s),
    ensures
        distinct(by_priority(s)),
        all_compatible(by_priority(s)),
    decreases s.len(),
{
    if s.len() > 0 {
        let init = s.drop_last();
        let p = s.last();
        let sorted = by_priority(init);
        assert forall|i: int, j: int|
            #![trigger init[i], init[j]]
            0 <= i < j < init.len() implies !init[i].joins(init[j].local, init[j].remote) by {
            assert(!s[i].joins(s[j].local, s[j].remote));
        }
        assert forall|i: int| 0 <= i < init.len() implies compatible(
            (#[trigger] init[i]).local,
            init[i].remote,
        ) by {
            assert(compatible(s[i].local, s[i].remote));
        }
        lemma_by_priority_keeps(init);
        lemma_by_priority(init);
        lemma_members(sorted, init);
        lemma_place(sorted, p);
        let k = place(sorted, p);
        assert(s[s.len() - 1] == p);
        assert forall|c: int| 0 <= c < sorted.len() implies !(#[trigger] sorted[c]).joins(
            p.local,
            p.remote,
        ) by {
            assert(init.contains(sorted[c]));
            let m = choose|m: int| 0 <= m < init.len() && init[m] == sorted[c];
            assert(!s[m].joins(s[s.len() - 1].local, s[s.len() - 1].remote));
        }
        assert(compatible(s[s.len() - 1].local, s[s.len() - 1].remote));
        lemma_insert_keeps(sorted, k, p);
    }
}

proof fn lemma_insert_keeps(sorted: Seq<CandidatePair>, k: int, p: CandidatePair)
    requires
        0 <= k <= sorted.len(),
        distinct(sorted),
        all_compatible(sorted),
        compatible(p.local, p.remote),
        forall|c: int| 0 <= c < sorted.len() ==> !(#[trigger] sorted[c]).joins(p.local, p.remote),
    ensures
        distinct(sorted.insert(k, p)),
        all_compatible(sorted.insert(k, p)),
{
    let t = sorted.insert(k, p);
    assert forall|i: int, j: int| #![trigger t[i], t[j]] 0 <= i < j < t.len() implies !t[i].joins(
        t[j].local,
        t[j].remote,
    ) by {
        let a = before_insert(i, k);
        let b = before_insert(j, k);
        if i != k && j != k {
            assert(!sorted[a].joins(sorted[b].local, sorted[b].remote));
        } else if i == k {
            assert(!sorted[b].joins(p.local, p.remote));
        } else {
            assert(!sorted[a].joins(p.local, p.remote));
        }
    }
    assert forall|i: int| 0 <= i < t.len() implies compatible(
        (#[trigger] t[i]).local,
        t[i].remote,
    ) by {
        if i != k {
            let a = before_insert(i, k);
            assert(compatible(sorted[a].local, sorted[a].remote));
        }
    }
}

/// Lists of one multiset have the same members.
pub proof fn lemma_members(s: Seq<CandidatePair>, t: Seq<CandidatePair>)
    requires
        s.to_multiset() == t.to_multiset(),
    ensures
        forall|i: int| 0 <= i < s.len() ==> t.contains(#[trigger] s[i]),
{
    broadcast use vstd::seq_lib::group_to_multiset_ensures;

    assert forall|i: int| 0 <= i < s.len() implies t.contains(#[trigger] s[i]) by {
        assert(s.contains(s[i]));
        assert(s.to_multiset().count(s[i]) > 0);
    }
}

proof fn lemma_with_pair(
    pairs: Seq<CandidatePair>,
    local: Candidate,
    remote: Candidate,
    controlling: bool,
)
    requires
        distinct(pairs),
        all_compatible(pairs),
    ensures
        distinct(with_pair(pairs, local, remote, controlling)),
        all_compatible(with_pair(pairs, local, remote, controlling)),
{
    let t = with_pair(pairs, local, remote, controlling);
    assert forall|i: int, j: int| #![trigger t[i], t[j]] 0 <= i < j < t.len() implies !t[i].joins(
        t[j].local,
        t[j].remote,
    ) by {
        if j < pairs.len() {
            assert(!pairs[i].joins(pairs[j].local, pairs[j].remote));
        } else {
            assert(!pairs[i].joins(local, remote));
        }
    }
    assert forall|i: int| 0 <= i < t.len() implies compatible(
        (#[trigger] t[i]).local,
        t[i].remote,
    ) by {
        if i < pairs.len() {
            assert(compatible(pairs[i].local, pairs[i].remote));
        }
    }
}

proof fn lemma_with_remotes(
    pairs: Seq<CandidatePair>,
    local: Candidate,
    remote: Seq<Candidate>,
    controlling: bool,
    n: int,
)
    requires
        distinct(pairs),
        all_compatible(pairs),
    ensures
        distinct(with_remotes(pairs, local, remote, controlling, n)),
        all_compatible(with_remotes(pairs, local, remote, controlling, n)),
    decreases n,
{
    if n > 0 {
        lemma_with_remotes(pairs, local, remote, controlling, n - 1);
        lemma_with_pair(
            with_remotes(pairs, local, remote, controlling, n - 1),
            local,
            remote[n - 1],
            controlling,
        );
    }
}

proof fn lemma_with_locals(
    pairs: Seq<CandidatePair>,
    local: Seq<Candidate>,
    remote: Seq<Candidate>,
    controlling: bool,
    n: int,
)
    requires
        distinct(pairs),
        all_compatible(pairs),
    ensures
        distinct(with_locals(pairs, local, remote, controlling, n)),
        all_compatible(with_locals(pairs, local, remote, controlling, n)),
    decreases n,
{
    if n > 0 {
        lemma_with_locals(pairs, local, remote, controlling, n - 1);
        lemma_with_remotes(
            with_locals(pairs, local, remote, controlling, n - 1),
            local[n - 1],
            remote,
            controlling,
            remote.len() as int,
        );
    }
}

proof fn lemma_with_remotes_grows(
    pairs: Seq<CandidatePair>,
    local: Candidate,
    remote: Seq<Candidate>,
    controlling: bool,
    n: int,
)
    ensures
        pairs.len() <= with_remotes(pairs, local, remote, controlling, n).len(),
    decreases n,
{
    if n > 0 {
        lemma_with_remotes_grows(pairs, local, remote, controlling, n - 1);
    }
}

/// Pairing removes no pair.
pub proof fn lemma_with_locals_grows(
    pairs: Seq<CandidatePair>,
    local: Seq<Candidate>,
    remote: Seq<Candidate>,
    controlling: bool,
    n: int,
)
    ensures
        pairs.len() <= with_locals(pairs, local, remote, controlling, n).len(),
    decreases n,
{
    if n > 0 {
        lemma_with_locals_grows(pairs, local, remote, controlling, n - 1);
        lemma_with_remotes_grows(
            with_locals(pairs, local, remote, controlling, n - 1),
            local[n - 1],
            remote,
            controlling,
            remote.len() as int,
        );
    }
}

/// Pairing candidates keeps a list well formed: ordered by priority, without two pairs of the same
/// addresses, and with compatible candidates only.
pub proof fn lemma_formed_well(
    pairs: Seq<CandidatePair>,
    local: Seq<Candidate>,
    remote: Seq<Candidate>,
    controlling: bool,
)
    requires
        well_formed(pairs),
    ensures
        well_formed(formed(pairs, local, remote, controlling)),
{
    let all = with_locals(pairs, local, remote, controlling, local.len() as int);
    lemma_with_locals(pairs, local, remote, controlling, local.len() as int);
    lemma_by_priority(all);
    lemma_by_priority_keeps(all);
    lemma_same_pairs(by_priority(all), formed(pairs, local, remote, controlling));
}

/// After pairing, the first pair of any two foundations waits to be checked, so every two that
/// occur have a pair that does.
pub proof fn lemma_formed_waiting(
    pairs: Seq<CandidatePair>,
    local: Seq<Candidate>,
    remote: Seq<Candidate>,
    controlling: bool,
    i: int,
)
    requires
        0 <= i < formed(pairs, local, remote, controlling).len(),
    ensures
        first_of_foundations(formed(pairs, local, remote, controlling), i) ==> formed(
            pairs,
            local,
            remote,
            controlling,
        )[i].state == PairState::Waiting,
        exists|j: int|
            0 <= j <= i && (#[trigger] formed(pairs, local, remote, controlling)[j]).state
                == PairState::Waiting && formed(
                pairs,
                local,
                remote,
                controlling,
            )[j].same_foundations(formed(pairs, local, remote, controlling)[i]),
{
    let s = by_priority(with_locals(pairs, local, remote, controlling, local.len() as int));
    lemma_first_exists(s, i);
    let j = choose|j: int|
        0 <= j <= i && #[trigger] first_of_foundations(s, j) && s[j].same_foundations(s[i]);
    let t = formed(pairs, local, remote, controlling);
    assert(t[j].state == PairState::Waiting && t[j].same_foundations(t[i]));
    if first_of_foundations(t, i) {
        assert forall|k: int| 0 <= k < i implies !(#[trigger] s[k]).same_foundations(s[i]) by {
            assert(!t[k].same_foundations(t[i]));
        }
    }
}

/// Whether every pair is one of a local and a remote candidate.
pub open spec fn drawn_from(
    pairs: Seq<CandidatePair>,
    local: Seq<Candidate>,
    remote: Seq<Candidate>,
) -> bool {
    forall|i: int|
        0 <= i < pairs.len() ==> local.contains((#[trigger] pairs[i]).local) && remote.contains(
            pairs[i].remote,
        )
}

/// Pairing adds pairs of the candidates given, and no others.
pub proof fn lemma_formed_drawn(
    pairs: Seq<CandidatePair>,
    local: Seq<Candidate>,
    remote: Seq<Candidate>,
    controlling: bool,
)
    requires
        drawn_from(pairs, local, remote),
    ensures
        drawn_from(formed(pairs, local, remote, controlling), local, remote),
{
    let all = with_locals(pairs, local, remote, controlling, local.len() as int);
    let sorted = by_priority(all);
    let f = formed(pairs, local, remote, controlling);
    lemma_with_locals_drawn(pairs, local, remote, controlling, local.len() as int);
    lemma_by_priority(all);
    lemma_members(sorted, all);
    assert forall|i: int| 0 <= i < f.len() implies local.contains((#[trigger] f[i]).local)
        && remote.contains(f[i].remote) by {
        assert(all.contains(sorted[i]));
    }
}

proof fn lemma_with_locals_drawn(
    pairs: Seq<CandidatePair>,
    local: Seq<Candidate>,
    remote: Seq<Candidate>,
    controlling: bool,
    n: int,
)
    requires
        drawn_from(pairs, local, remote),
        n <= local.len(),
    ensures
        drawn_from(with_locals(pairs, local, remote, controlling, n), local, remote),
    decreases n,
{
    if n > 0 {
        lemma_with_locals_drawn(pairs, local, remote, controlling, n - 1);
        lemma_with_remotes_drawn(
            with_locals(pairs, local, remote, controlling, n - 1),
            local,
            remote,
            controlling,
            n - 1,
            remote.len() as int,
        );
    }
}

proof fn lemma_with_remotes_drawn(
    pairs: Seq<CandidatePair>,
    local: Seq<Candidate>,
    remote: Seq<Candidate>,
    controlling: bool,
    i: int,
    n: int,
)
    requires
        drawn_from(pairs, local, remote),
        0 <= i < local.len(),
        n <= remote.len(),
    ensures
        drawn_from(with_remotes(pairs, local[i], remote, controlling, n), local, remote),
    decreases n,
{
    if n > 0 {
        lemma_with_remotes_drawn(pairs, local, remote, controlling, i, n - 1);
        assert(local.contains(local[i]) && remote.contains(remote[n - 1]));
    }
}

/// Whether every two candidates that can form a pair have the pair of their addresses in the list.
pub open spec fn complete(
    pairs: Seq<CandidatePair>,
    local: Seq<Candidate>,
    remote: Seq<Candidate>,
) -> bool {
    forall|i: int, j: int|
        #![trigger local[i], remote[j]]
        0 <= i < local.len() && 0 <= j < remote.len() && compatible(local[i], remote[j]) ==> paired(
            pairs,
            local[i],
            remote[j],
        )
}

/// After pairing, every two candidates that can form a pair have one, and pairing the same
/// candidates once more changes nothing.
pub proof fn lemma_formed_complete(
    pairs: Seq<CandidatePair>,
    local: Seq<Candidate>,
    remote: Seq<Candidate>,
    controlling: bool,
)
    ensures
        complete(formed(pairs, local, remote, controlling), local, remote),
        formed(formed(pairs, local, remote, controlling), local, remote, controlling) == formed(
            pairs,
            local,
            remote,
            controlling,
        ),
{
    let all = with_locals(pairs, local, remote, controlling, local.len() as int);
    let sorted = by_priority(all);
    let f = formed(pairs, local, remote, controlling);
    lemma_by_priority(all);
    lemma_members(all, sorted);
    assert forall|i: int, j: int|
        #![trigger local[i], remote[j]]
        0 <= i < local.len() && 0 <= j < remote.len() && compatible(
            local[i],
            remote[j],
        ) implies paired(f, local[i], remote[j]) by {
        lemma_with_locals_pairs(
            pairs,
            local,
            remote,
            controlling,
            local.len() as int,
            local[i],
            remote[j],
        );
        assert(local.take(local.len() as int) =~= local);
        assert(local.contains(local[i]) && remote.contains(remote[j]));
        assert(paired(all, local[i], remote[j]));
        let k = choose|k: int| 0 <= k < all.len() && (#[trigger] all[k]).joins(local[i], remote[j]);
        assert(sorted.contains(all[k]));
        let m = choose|m: int| 0 <= m < sorted.len() && sorted[m] == all[k];
        assert(f[m].joins(local[i], remote[j]));
    }
    lemma_nothing_new(f, local, remote, controlling, local.len() as int);
    assert forall|i: int, j: int| #![trigger f[i], f[j]] 0 <= i < j < f.len() implies f[i].priority
        >= f[j].priority by {
        assert(sorted[i].priority >= sorted[j].priority);
    }
    lemma_by_priority_stays(f);
    assert forall|i: int| 0 <= i < f.len() implies #[trigger] unfreeze_first(f)[i] == f[i] by {
        if first_of_foundations(f, i) {
            assert forall|j: int| 0 <= j < i implies !(#[trigger] sorted[j]).same_foundations(
                sorted[i],
            ) by {
                assert(!f[j].same_foundations(f[i]));
            }
        }
    }
    assert(unfreeze_first(f) =~= f);
}

/// Pairing keeps every pair that is there.
proof fn lemma_with_pair_keeps(
    pairs: Seq<CandidatePair>,
    local: Candidate,
    remote: Candidate,
    controlling: bool,
    l: Candidate,
    r: Candidate,
)
    ensures
        paired(pairs, l, r) ==> paired(with_pair(pairs, local, remote, controlling), l, r),
        compatible(local, remote) ==> paired(
            with_pair(pairs, local, remote, controlling),
            local,
            remote,
        ),
{
    let t = with_pair(pairs, local, remote, controlling);
    if paired(pairs, l, r) {
        let k = choose|k: int| 0 <= k < pairs.len() && (#[trigger] pairs[k]).joins(l, r);
        assert(t[k].joins(l, r));
    }
    if compatible(local, remote) && !paired(pairs, local, remote) {
        assert(t[pairs.len() as int].joins(local, remote));
    }
}

/// Pairing a candidate with others keeps every pair and adds those that can be formed.
proof fn lemma_with_remotes_pairs(
    pairs: Seq<CandidatePair>,
    local: Candidate,
    remote: Seq<Candidate>,
    controlling: bool,
    n: int,
    l: Candidate,
    r: Candidate,
)
    requires
        n <= remote.len(),
    ensures
        paired(pairs, l, r) ==> paired(
            with_remotes(pairs, local, remote, controlling, n),
            l,
            r,
        ),
        l == local && compatible(l, r) && remote.take(
            if n > 0 {
                n
            } else {
                0
            },
        ).contains(r) ==> paired(with_remotes(pairs, local, remote, controlling, n), l, r),
    decreases n,
{
    if n > 0 {
        let before = with_remotes(pairs, local, remote, controlling, n - 1);
        lemma_with_remotes_pairs(pairs, local, remote, controlling, n - 1, l, r);
        lemma_with_pair_keeps(before, local, remote[n - 1], controlling, l, r);
        if remote.take(n).contains(r) && r != remote[n - 1] {
            let k = choose|k: int| 0 <= k < n && remote.take(n)[k] == r;
            assert(remote.take(n - 1)[k] == r);
        }
    }
}

/// Pairing candidates keeps every pair and adds those that can be formed.
proof fn lemma_with_locals_pairs(
    pairs: Seq<CandidatePair>,
    local: Seq<Candidate>,
    remote: Seq<Candidate>,
    controlling: bool,
    n: int,
    l: Candidate,
    r: Candidate,
)
    requires
        n <= local.len(),
    ensures
        paired(pairs, l, r) ==> paired(with_locals(pairs, local, remote, controlling, n), l, r),
        compatible(l, r) && remote.contains(r) && local.take(
            if n > 0 {
                n
            } else {
                0
            },
        ).contains(l) ==> paired(with_locals(pairs, local, remote, controlling, n), l, r),
    decreases n,
{
    if n > 0 {
        let before = with_locals(pairs, local, remote, controlling, n - 1);
        lemma_with_locals_pairs(pairs, local, remote, controlling, n - 1, l, r);
        lemma_with_remotes_pairs(
            before,
            local[n - 1],
            remote,
            controlling,
            remote.len() as int,
            l,
            r,
        );
        assert(remote.take(remote.len() as int) =~= remote);
        if local.take(n).contains(l) && l != local[n - 1] {
            let k = choose|k: int| 0 <= k < n && local.take(n)[k] == l;
            assert(local.take(n - 1)[k] == l);
        }
    }
}

/// Where every pair is there, pairing adds none.
proof fn lemma_nothing_new(
    pairs: Seq<CandidatePair>,
    local: Seq<Candidate>,
    remote: Seq<Candidate>,
    controlling: bool,
    n: int,
)
    requires
        complete(pairs, local, remote),
        n <= local.len(),
    ensures
        with_locals(pairs, local, remote, controlling, n) == pairs,
    decreases n,
{
    if n > 0 {
        lemma_nothing_new(pairs, local, remote, controlling, n - 1);
        lemma_no_remote_new(pairs, local, remote, controlling, n - 1, remote.len() as int);
    }
}

proof fn lemma_no_remote_new(
    pairs: Seq<CandidatePair>,
    local: Seq<Candidate>,
    remote: Seq<Candidate>,
    controlling: bool,
    i: int,
    n: int,
)
    requires
        complete(pairs, local, remote),
        0 <= i < local.len(),
        n <= remote.len(),
    ensures
        with_remotes(pairs, local[i], remote, controlling, n) == pairs,
    decreases n,
{
    if n > 0 {
        lemma_no_remote_new(pairs, local, remote, controlling, i, n - 1);
        assert(compatible(local[i], remote[n - 1]) ==> paired(pairs, local[i], remote[n - 1]));
    }
}

/// A list that is in order stays as it is.
proof fn lemma_by_priority_stays(s: Seq<CandidatePair>)
    requires
        ordered(s),
    ensures
        by_priority(s) == s,
    decreases s.len(),
{
    if s.len() > 0 {
        let init = s.drop_last();
        assert forall|i: int, j: int|
            #![trigger init[i], init[j]]
            0 <= i < j < init.len() implies init[i].priority >= init[j].priority by {
            assert(s[i].priority >= s[j].priority);
        }
        lemma_by_priority_stays(init);
        if init.len() > 0 {
            assert(s[s.len() - 2].priority >= s[s.len() - 1].priority);
        }
        assert(init.insert(init.len() as int, s.last()) =~= s);
    }
}

proof fn lemma_first_exists(s: Seq<CandidatePair>, i: int)
    requires
        0 <= i < s.len(),
    ensures
        exists|j: int|
            0 <= j <= i && #[trigger] first_of_foundations(s, j) && s[j].same_foundations(s[i]),
    decreases i,
{
    if first_of_foundations(s, i) {
    } else {
        let k = choose|k: int| 0 <= k < i && (#[trigger] s[k]).same_foundations(s[i]);
        lemma_first_exists(s, k);
        let j = choose|j: int|
            0 <= j <= k && #[trigger] first_of_foundations(s, j) && s[j].same_foundations(s[k]);
        assert(s[j].same_foundations(s[i]));
    }
}

/// Tests whether the pair of these two addresses is in the list.
fn is_paired(pairs: &Vec<CandidatePair>, local: &Candidate, remote: &Candidate) -> (r: bool)
    ensures
        r == paired(pairs@, *local, *remote),
{
    let mut i: usize = 0;
    while i < pairs.len()
        invariant
            i <= pairs@.len(),
            forall|k: int| 0 <= k < i ==> !(#[trigger] pairs@[k]).joins(*local, *remote),
        decreases pairs@.len() - i,
    {
        if pairs[i].local.address == local.address && pairs[i].remote.address == remote.address {
            assert(pairs@[i as int].joins(*local, *remote));
            return true;
        }
        i = i + 1;
    }
    false
}

/// Adds the new pairs of all candidates.
fn add_pairs(
    pairs: &mut Vec<CandidatePair>,
    local: &Vec<Candidate>,
    remote: &Vec<Candidate>,
    controlling: bool,
)
    requires
        forall|i: int| 0 <= i < local@.len() ==> (#[trigger] local@[i]).priority < u32::MAX,
    ensures
        final(pairs)@ == with_locals(
            old(pairs)@,
            local@,
            remote@,
            controlling,
            local@.len() as int,
        ),
{
    let ghost start = pairs@;
    let mut i: usize = 0;
    while i < local.len()
        invariant
            i <= local@.len(),
            forall|k: int| 0 <= k < local@.len() ==> (#[trigger] local@[k]).priority < u32::MAX,
            pairs@ == with_locals(start, local@, remote@, controlling, i as int),
        decreases local@.len() - i,
    {
        let ghost before = pairs@;
        let l: Candidate = local[i];
        let mut j: usize = 0;
        while j < remote.len()
            invariant
                i < local@.len(),
                j <= remote@.len(),
                l == local@[i as int],
                l.priority < u32::MAX,
                pairs@ == with_remotes(before, l, remote@, controlling, j as int),
            decreases remote@.len() - j,
        {
            let r: Candidate = remote[j];
            if l.component == r.component && l.transport == r.transport && !is_paired(
                pairs,
                &l,
                &r,
            ) {
                let priority: u64 = calculate_pair_priority(controlling, l.priority, r.priority);
                pairs.push(
                    CandidatePair {
                        local: l,
                        remote: r,
                        priority,
                        state: PairState::Frozen,
                        nominated: false,
                    },
                );
            }
            j = j + 1;
        }
        i = i + 1;
    }
}

/// Orders the list by priority, highest first.
fn sort_by_priority(pairs: &Vec<CandidatePair>) -> (r: Vec<CandidatePair>)
    ensures
        r@ == by_priority(pairs@),
{
    let mut sorted: Vec<CandidatePair> = Vec::new();
    let mut i: usize = 0;
    assert(pairs@.take(0) =~= Seq::empty());
    while i < pairs.len()
        invariant
            i <= pairs@.len(),
            sorted@ == by_priority(pairs@.take(i as int)),
        decreases pairs@.len() - i,
    {
        let p: CandidatePair = pairs[i];
        proof {
            lemma_by_priority(pairs@.take(i as int));
            assert(pairs@.take(i + 1).drop_last() =~= pairs@.take(i as int));
        }
        let mut j: usize = sorted.len();
        while j > 0 && sorted[j - 1].priority < p.priority
            invariant
                j <= sorted@.len(),
                forall|k: int| j <= k < sorted@.len() ==> (#[trigger] sorted@[k]).priority
                    < p.priority,
            decreases j,
        {
            j = j - 1;
        }
        proof {
            lemma_place_unique(sorted@, p, j as int);
        }
        sorted.insert(j, p);
        i = i + 1;
    }
    assert(pairs@.take(i as int) =~= pairs@);
    sorted
}

/// Tests whether no pair before `i` is of the same foundations.
fn is_first(pairs: &Vec<CandidatePair>, i: usize) -> (r: bool)
    requires
        i < pairs@.len(),
    ensures
        r == first_of_foundations(pairs@, i as int),
{
    let mut j: usize = 0;
    while j < i
        invariant
            j <= i < pairs@.len(),
            forall|k: int| 0 <= k < j ==> !(#[trigger] pairs@[k]).same_foundations(
                pairs@[i as int],
            ),
        decreases i - j,
    {
        if pairs[j].local.foundation == pairs[i].local.foundation && pairs[j].remote.foundation
            == pairs[i].remote.foundation {
            assert(pairs@[j as int].same_foundations(pairs@[i as int]));
            return false;
        }
        j = j + 1;
    }
    true
}

/// Forms the pairs of all candidates, orders the list and unfreezes the first pair of each two
/// foundations.
pub fn form_pairs(
    pairs: &mut Vec<CandidatePair>,
    local: &Vec<Candidate>,
    remote: &Vec<Candidate>,
    controlling: bool,
)
    requires
        forall|i: int| 0 <= i < local@.len() ==> (#[trigger] local@[i]).priority < u32::MAX,
    ensures
        final(pairs)@ == formed(old(pairs)@, local@, remote@, controlling),
{
    add_pairs(pairs, local, remote, controlling);
    let sorted: Vec<CandidatePair> = sort_by_priority(pairs);
    let mut out: Vec<CandidatePair> = Vec::new();
    let mut i: usize = 0;
    while i < sorted.len()
        invariant
            i <= sorted@.len(),
            out@.len() == i,
            forall|k: int| 0 <= k < i ==> #[trigger] out@[k] == unfreeze_first(sorted@)[k],
        decreases sorted@.len() - i,
    {
        let mut p: CandidatePair = sorted[i];
        if is_first(&sorted, i) {
            p.state = PairState::Waiting;
        }
        out.push(p);
        i = i + 1;
    }
    assert(out@ =~= unfreeze_first(sorted@));
    *pairs = out;
}

/// Unfreezes the pairs of a succeeded pair's local foundation.
pub fn unfreeze_related_pairs(
    pairs: &mut Vec<CandidatePair>,
    succeeded_idx: usize,
    succeeded: &CandidatePair,
)
    ensures
        final(pairs)@ == unfreeze_related(old(pairs)@, succeeded_idx as int, *succeeded),
{
    let mut out: Vec<CandidatePair> = Vec::new();
    let mut i: usize = 0;
    while i < pairs.len()
        invariant
            i <= pairs@.len(),
            out@.len() == i,
            forall|k: int| 0 <= k < i ==> #[trigger] out@[k] == unfreeze_related(
                pairs@,
                succeeded_idx as int,
                *succeeded,
            )[k],
        decreases pairs@.len() - i,
    {
        let mut p: CandidatePair = pairs[i];
        if i != succeeded_idx && p.state == PairState::Frozen && p.local.foundation
            == succeeded.local.foundation {
            p.state = PairState::Waiting;
        }
        out.push(p);
        i = i + 1;
    }
    assert(out@ =~= unfreeze_related(pairs@, succeeded_idx as int, *succeeded));
    *pairs = out;
}

} // verus!
