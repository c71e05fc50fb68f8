//! ICE agent (RFC 8445).
//!
//! Handles candidate gathering and connectivity checks.

use super::candidate::{Candidate, CandidateType};
use super::check::{build_check, check_attrs, check_request, ice_username};
use super::pairs::{
    form_pairs, formed, lemma_formed_well, lemma_same_pairs, same_pairs, unfreeze_related,
    unfreeze_related_pairs, well_formed, CandidatePair, PairState,
};
use super::stun::{StunError, StunServer};
use super::wire::attr_len;
use crate::buf::{fits, frozen};
use crate::net::{IpAddr, SocketAddr};
use crate::text::{digit, digit_char};
use crate::util::{random_below, random_bytes};
use bytes::Bytes;
use vstd::prelude::*;
use vstd::utf8::encode_utf8;

verus! {

/// ICE agent errors.
#[derive(Debug, Clone)]
pub enum IceError {
    /// A socket failed, in its own words.
    Io(String),
    /// A STUN exchange failed.
    Stun(StunError),
    /// There is no candidate pair.
    NoCandidates,
    /// ICE failed for this reason.
    Failed(String),
}

impl IceError {
    /// What the error says.
    pub fn describe(&self) -> (r: String)
        ensures
            match self {
                IceError::Io(e) => r@ == "IO error: "@ + e@,
                IceError::Stun(e) => r@ == "STUN error: "@ + e@.text(),
                IceError::NoCandidates => r@ == "No candidates available"@,
                IceError::Failed(m) => r@ == "ICE failed: "@ + m@,
            },
    {
        match self {
            IceError::Io(e) => crate::text::concat("IO error: ", e.as_str()),
            IceError::Stun(e) => crate::text::concat("STUN error: ", e.describe().as_str()),
            IceError::NoCandidates => "No candidates available".to_owned(),
            IceError::Failed(m) => crate::text::concat("ICE failed: ", m.as_str()),
        }
    }
}

/// ICE agent role.
#[derive(Debug, Clone, Copy, PartialEq, Eq, Structural)]
pub enum IceRole {
    /// Controlling agent (makes nomination decisions).
    Controlling,
    /// Controlled agent (follows controlling agent's decisions).
    Controlled,
}

/// ICE agent state.
#[derive(Debug, Clone, Copy, PartialEq, Eq, Structural)]
pub enum IceState {
    /// Not started.
    New,
    /// Gathering candidates.
    Gathering,
    /// Checking connectivity.
    Checking,
    /// At least one valid pair found.
    Connected,
    /// All checks complete, selected pair nominated.
    Completed,
    /// ICE failed.
    Failed,
    /// ICE closed.
    Closed,
}

/// ICE agent configuration.
#[derive(Debug, Clone)]
pub struct IceConfig {
    /// STUN servers to use for gathering.
    pub stun_servers: Vec<StunServer>,
    /// ICE credentials (ufrag:pwd).
    pub local_ufrag: String,
    pub local_pwd: String,
    /// Gather timeout.
    pub gather_timeout_ms: u64,
    /// Check timeout.
    pub check_timeout_ms: u64,
}

/// Whether a character is a digit or a lower-case letter.
pub open spec fn digit_or_letter(c: char) -> bool {
    exists|d: int| 0 <= d < 36 && c == #[trigger] digit(d)
}

/// Digits and lower-case letters only.
pub open spec fn alphanumeric(s: Seq<char>) -> bool {
    forall|i: int| 0 <= i < s.len() ==> digit_or_letter(#[trigger] s[i])
}

/// The text whose characters have these indices among digits and lower-case letters.
pub fn credential_from(indices: &Vec<u8>) -> (r: String)
    requires
        forall|i: int| 0 <= i < indices@.len() ==> #[trigger] indices@[i] < 36,
    ensures
        r@ == Seq::new(indices@.len(), |i: int| digit(indices@[i] as int)),
{
    let mut s: String = String::new();
    let mut i: usize = 0;
    while i < indices.len()
        invariant
            i <= indices@.len(),
            forall|k: int| 0 <= k < indices@.len() ==> #[trigger] indices@[k] < 36,
            s@ == Seq::new(i as nat, |k: int| digit(indices@[k] as int)),
        decreases indices@.len() - i,
    {
        s.push(digit_char(indices[i]));
        i = i + 1;
        assert(s@ =~= Seq::new(i as nat, |k: int| digit(indices@[k] as int)));
    }
    s
}

/// `n` random characters among digits and lower-case letters.
fn random_credential(n: usize) -> (r: String)
    ensures
        r@.len() == n,
        alphanumeric(r@),
{
    let mut indices: Vec<u8> = Vec::new();
    while indices.len() < n
        invariant
            indices@.len() <= n,
            forall|i: int| 0 <= i < indices@.len() ==> #[trigger] indices@[i] < 36,
        decreases n - indices@.len(),
    {
        indices.push(random_below(36));
    }
    let r: String = credential_from(&indices);
    assert forall|i: int| 0 <= i < r@.len() implies digit_or_letter(#[trigger] r@[i]) by {
        assert(r@[i] == digit(indices@[i] as int));
    }
    r
}

/// Generate random ICE ufrag (4-256 chars).
pub fn generate_ice_ufrag() -> (r: String)
    ensures
        r@.len() == 8,
        alphanumeric(r@),
{
    random_credential(8)
}

/// Generate random ICE password (22-256 chars).
pub fn generate_ice_pwd() -> (r: String)
    ensures
        r@.len() == 24,
        alphanumeric(r@),
{
    random_credential(24)
}

impl Default for IceConfig {
    fn default() -> (r: Self)
        ensures
            r.stun_servers@.len() == 1,
            r.stun_servers@[0].addr == (SocketAddr { ip: IpAddr::V4(0x4A7D_FA81), port: 19302 }),
            r.local_ufrag@.len() == 8,
            alphanumeric(r.local_ufrag@),
            r.local_pwd@.len() == 24,
            alphanumeric(r.local_pwd@),
            r.gather_timeout_ms == 5000,
            r.check_timeout_ms == 3000,
    {
        let mut stun_servers: Vec<StunServer> = Vec::new();
        stun_servers.push(StunServer::google());
        IceConfig {
            stun_servers,
            local_ufrag: generate_ice_ufrag(),
            local_pwd: generate_ice_pwd(),
            gather_timeout_ms: 5000,
            check_timeout_ms: 3000,
        }
    }
}

/// The local addresses to gather on: the one of the default route, if it was found, and
/// 127.0.0.1, each once.
pub fn local_addresses(default_route: Option<IpAddr>) -> (r: Vec<IpAddr>)
    ensures
        r@ == (match default_route {
            Some(ip) => if ip == IpAddr::loopback() {
                seq![IpAddr::loopback()]
            } else {
                seq![ip, IpAddr::loopback()]
            },
            None => seq![IpAddr::loopback()],
        }),
{
    let mut addrs: Vec<IpAddr> = Vec::new();
    let localhost: IpAddr = IpAddr::V4(0x7F00_0001);
    if let Some(ip) = default_route {
        if ip != localhost {
            addrs.push(ip);
        }
    }
    addrs.push(localhost);
    assert(addrs@ =~= (match default_route {
        Some(ip) => if ip == IpAddr::loopback() {
            seq![IpAddr::loopback()]
        } else {
            seq![ip, IpAddr::loopback()]
        },
        None => seq![IpAddr::loopback()],
    }));
    addrs
}

/// A pair whose check is due, and where it stands in the list.
#[derive(Debug, Clone, Copy)]
pub struct QueuedCheck {
    pub index: usize,
    pub pair: CandidatePair,
}

/// ICE agent.
#[derive(Debug)]
pub struct IceAgent {
    pub config: IceConfig,
    pub role: IceRole,
    pub state: IceState,
    pub local_candidates: Vec<Candidate>,
    pub remote_candidates: Vec<Candidate>,
    pub candidate_pairs: Vec<CandidatePair>,
    pub selected_pair: Option<CandidatePair>,
    /// The local addresses that sockets are bound to.
    pub sockets: Vec<SocketAddr>,
    /// Remote ICE credentials.
    pub remote_ufrag: Option<String>,
    pub remote_pwd: Option<String>,
    /// The checks that are still to be done.
    pub queue: Vec<QueuedCheck>,
    /// The check that is being done.
    pub current: Option<QueuedCheck>,
}

/// A connectivity check to be done: send `request` from `socket` to `target` and wait for an
/// answer to `transaction_id`.
pub struct ConnectivityCheck {
    pub socket: SocketAddr,
    pub target: SocketAddr,
    pub transaction_id: [u8; 12],
    pub tie_breaker: [u8; 8],
    pub request: Bytes,
}

/// How connectivity checking goes on.
pub enum CheckStep {
    Check(ConnectivityCheck),
    Finished(Result<(), IceError>),
}

/// The pairs of a list that wait to be checked, with their places, among the first `n`.
pub open spec fn waiting(pairs: Seq<CandidatePair>, n: int) -> Seq<QueuedCheck>
    decreases n,
{
    if n <= 0 {
        Seq::empty()
    } else if pairs[n - 1].state == PairState::Waiting {
        waiting(pairs, n - 1).push(
            QueuedCheck { index: (n - 1) as usize, pair: pairs[n - 1] },
        )
    } else {
        waiting(pairs, n - 1)
    }
}

/// Pairs, queue and the next check, if there is one.
pub struct Advance {
    pub pairs: Seq<CandidatePair>,
    pub queue: Seq<QueuedCheck>,
    pub next: Option<QueuedCheck>,
}

/// Goes through the queue up to the first pair whose local candidate has a socket: it is in
/// progress then, and those before it have failed.
pub open spec fn advance(
    pairs: Seq<CandidatePair>,
    queue: Seq<QueuedCheck>,
    sockets: Seq<SocketAddr>,
) -> Advance
    decreases queue.len(),
{
    if queue.len() == 0 {
        Advance { pairs, queue, next: None }
    } else {
        let i = queue[0].index as int;
        if sockets.contains(queue[0].pair.local.base()) {
            Advance {
                pairs: pairs.update(i, pairs[i].in_state(PairState::InProgress)),
                queue: queue.skip(1),
                next: Some(queue[0]),
            }
        } else {
            advance(
                pairs.update(i, pairs[i].in_state(PairState::Failed)),
                queue.skip(1),
                sockets,
            )
        }
    }
}

/// Whether a pair joins two host candidates.
pub open spec fn host_to_host(p: CandidatePair) -> bool {
    p.local.candidate_type == CandidateType::Host && p.remote.candidate_type == CandidateType::Host
}

/// The place of the first pair of two host candidates among those from `i` on.
pub open spec fn first_host_pair(pairs: Seq<CandidatePair>, i: int) -> Option<int>
    decreases pairs.len() - i,
{
    if i < 0 || i >= pairs.len() {
        None
    } else if host_to_host(pairs[i]) {
        Some(i)
    } else {
        first_host_pair(pairs, i + 1)
    }
}

/// The pair to fall back on: the first of two host candidates, else the first of all.
pub open spec fn fallback(pairs: Seq<CandidatePair>) -> Option<CandidatePair> {
    match first_host_pair(pairs, 0) {
        Some(i) => Some(pairs[i]),
        None => if pairs.len() > 0 {
            Some(pairs[0])
        } else {
            None
        },
    }
}

impl IceAgent {
    /// What holds of an agent at all times.
    pub open spec fn wf(self) -> bool {
        &&& well_formed(self.candidate_pairs@)
        &&& forall|i: int|
            0 <= i < self.local_candidates@.len() ==> (
            #[trigger] self.local_candidates@[i]).priority < u32::MAX
        &&& forall|k: int|
            0 <= k < self.queue@.len() ==> (#[trigger] self.queue@[k]).index
                < self.candidate_pairs@.len()
        &&& self.current matches Some(c) ==> c.index < self.candidate_pairs@.len()
    }

    /// The same configuration, role and candidates.
    pub open spec fn same_setup(self, other: IceAgent) -> bool {
        &&& self.config == other.config
        &&& self.role == other.role
        &&& self.local_candidates == other.local_candidates
        &&& self.remote_candidates == other.remote_candidates
        &&& self.sockets == other.sockets
        &&& self.remote_ufrag == other.remote_ufrag
        &&& self.remote_pwd == other.remote_pwd
    }

    /// Create a new ICE agent.
    pub fn new(config: IceConfig, role: IceRole) -> (r: Self)
        ensures
            r.wf(),
            r.config == config,
            r.role == role,
            r.state == IceState::New,
            r.local_candidates@.len() == 0,
            r.remote_candidates@.len() == 0,
            r.candidate_pairs@.len() == 0,
            r.selected_pair is None,
            r.sockets@.len() == 0,
            r.remote_ufrag is None,
            r.remote_pwd is None,
            r.queue@.len() == 0,
            r.current is None,
    {
        IceAgent {
            config,
            role,
            state: IceState::New,
            local_candidates: Vec::new(),
            remote_candidates: Vec::new(),
            candidate_pairs: Vec::new(),
            selected_pair: None,
            sockets: Vec::new(),
            remote_ufrag: None,
            remote_pwd: None,
            queue: Vec::new(),
            current: None,
        }
    }

    /// Set remote ICE credentials.
    pub fn set_remote_credentials(&mut self, ufrag: &str, pwd: &str)
        ensures
            final(self).remote_ufrag matches Some(u) && u@ == ufrag@,
            final(self).remote_pwd matches Some(p) && p@ == pwd@,
            *final(self) == (IceAgent {
                remote_ufrag: final(self).remote_ufrag,
                remote_pwd: final(self).remote_pwd,
                ..*old(self)
            }),
    {
        self.remote_ufrag = Some(ufrag.to_owned());
        self.remote_pwd = Some(pwd.to_owned());
    }

    /// Get remote ICE credentials.
    pub fn remote_credentials(&self) -> (r: Option<(String, String)>)
        ensures
            match (self.remote_ufrag, self.remote_pwd) {
                (Some(u), Some(p)) => r == Some((u, p)),
                _ => r is None,
            },
    {
        match (&self.remote_ufrag, &self.remote_pwd) {
            (Some(u), Some(p)) => Some((u.clone(), p.clone())),
            _ => None,
        }
    }

    /// Get the ICE credentials.
    pub fn local_credentials(&self) -> (r: (&str, &str))
        ensures
            r.0@ == self.config.local_ufrag@,
            r.1@ == self.config.local_pwd@,
    {
        (self.config.local_ufrag.as_str(), self.config.local_pwd.as_str())
    }

    /// Get the current state.
    pub fn state(&self) -> (r: IceState)
        ensures
            r == self.state,
    {
        self.state
    }

    /// Get local candidates.
    pub fn local_candidates(&self) -> (r: &Vec<Candidate>)
        ensures
            *r == self.local_candidates,
    {
        &self.local_candidates
    }

    /// Get the selected candidate pair.
    pub fn selected_pair(&self) -> (r: Option<CandidatePair>)
        ensures
            r == self.selected_pair,
    {
        self.selected_pair
    }

    /// Starts to gather candidates.
    pub fn start_gathering(&mut self)
        ensures
            *final(self) == (IceAgent { state: IceState::Gathering, ..*old(self) }),
    {
        self.state = IceState::Gathering;
    }

    /// Gather local candidates.
    ///
    /// Host candidates are the addresses that sockets were bound to; server-reflexive candidates
    /// are the addresses that STUN servers saw of them (given with the address of the socket),
    /// where these are others.
    pub fn gather_candidates(
        &mut self,
        bound: &Vec<SocketAddr>,
        mapped: &Vec<(SocketAddr, SocketAddr)>,
    ) -> (r: Vec<Candidate>)
        requires
            old(self).wf(),
        ensures
            final(self).wf(),
            r@ == gathered(bound@, mapped@),
            final(self).local_candidates@ == r@,
            final(self).sockets@ == old(self).sockets@ + bound@,
            *final(self) == (IceAgent {
                state: IceState::Gathering,
                local_candidates: final(self).local_candidates,
                sockets: final(self).sockets,
                ..*old(self)
            }),
    {
        self.state = IceState::Gathering;
        let ghost sockets = self.sockets@;
        let mut candidates: Vec<Candidate> = Vec::new();
        let mut i: usize = 0;
        assert(self.sockets@ =~= sockets + bound@.take(0));
        while i < bound.len()
            invariant
                i <= bound@.len(),
                candidates@ == Seq::new(i as nat, |k: int| Candidate::spec_host(bound@[k], 1)),
                forall|k: int| 0 <= k < candidates@.len() ==> (#[trigger] candidates@[k]).priority
                    < u32::MAX,
                self.sockets@ == sockets + bound@.take(i as int),
                *self == (IceAgent {
                    state: IceState::Gathering,
                    sockets: self.sockets,
                    ..*old(self)
                }),
            decreases bound@.len() - i,
        {
            candidates.push(Candidate::host(bound[i], 1));
            self.sockets.push(bound[i]);
            i = i + 1;
            assert(candidates@ =~= Seq::new(
                i as nat,
                |k: int| Candidate::spec_host(bound@[k], 1),
            ));
            assert(self.sockets@ =~= sockets + bound@.take(i as int));
        }
        assert(bound@.take(i as int) =~= bound@);
        let ghost hosts = candidates@;
        let mut j: usize = 0;
        assert(candidates@ =~= hosts + reflexive(mapped@.take(0)));
        while j < mapped.len()
            invariant
                j <= mapped@.len(),
                candidates@ == hosts + reflexive(mapped@.take(j as int)),
                forall|k: int| 0 <= k < candidates@.len() ==> (#[trigger] candidates@[k]).priority
                    < u32::MAX,
            decreases mapped@.len() - j,
        {
            let (base, seen): (SocketAddr, SocketAddr) = mapped[j];
            assert(mapped@.take(j + 1).drop_last() =~= mapped@.take(j as int));
            assert(mapped@.take(j + 1).last() == mapped@[j as int]);
            if seen != base {
                candidates.push(Candidate::server_reflexive(seen, base, 1));
            }
            j = j + 1;
            assert(candidates@ =~= hosts + reflexive(mapped@.take(j as int)));
        }
        assert(mapped@.take(j as int) =~= mapped@);
        let mut stored: Vec<Candidate> = Vec::new();
        let mut k: usize = 0;
        while k < candidates.len()
            invariant
                k <= candidates@.len(),
                stored@ == candidates@.take(k as int),
            decreases candidates@.len() - k,
        {
            stored.push(candidates[k]);
            k = k + 1;
            assert(stored@ =~= candidates@.take(k as int));
        }
        assert(stored@ =~= candidates@);
        self.local_candidates = stored;
        candidates
    }

    /// Add remote candidates.
    pub fn add_remote_candidates(&mut self, candidates: Vec<Candidate>)
        requires
            old(self).wf(),
        ensures
            final(self).wf(),
            final(self).remote_candidates@ == old(self).remote_candidates@ + candidates@,
            final(self).candidate_pairs@ == formed(
                old(self).candidate_pairs@,
                old(self).local_candidates@,
                final(self).remote_candidates@,
                old(self).role == IceRole::Controlling,
            ),
            *final(self) == (IceAgent {
                remote_candidates: final(self).remote_candidates,
                candidate_pairs: final(self).candidate_pairs,
                ..*old(self)
            }),
    {
        let mut added: Vec<Candidate> = candidates;
        self.remote_candidates.append(&mut added);
        self.form_candidate_pairs();
    }

    /// Form candidate pairs from local and remote candidates.
    pub fn form_candidate_pairs(&mut self)
        requires
            old(self).wf(),
        ensures
            final(self).wf(),
            final(self).candidate_pairs@ == formed(
                old(self).candidate_pairs@,
                old(self).local_candidates@,
                old(self).remote_candidates@,
                old(self).role == IceRole::Controlling,
            ),
            *final(self) == (IceAgent {
                candidate_pairs: final(self).candidate_pairs,
                ..*old(self)
            }),
    {
        proof {
            lemma_formed_well(
                self.candidate_pairs@,
                self.local_candidates@,
                self.remote_candidates@,
                self.role == IceRole::Controlling,
            );
            lemma_formed_grows(
                self.candidate_pairs@,
                self.local_candidates@,
                self.remote_candidates@,
                self.role == IceRole::Controlling,
            );
        }
        form_pairs(
            &mut self.candidate_pairs,
            &self.local_candidates,
            &self.remote_candidates,
            self.role == IceRole::Controlling,
        );
    }

    /// Whether the request of a check under the current credentials can be built at all.
    pub open spec fn username_fits(self) -> bool {
        self.remote_ufrag matches Some(u) ==> fits(
            attr_len(encode_utf8(ice_username(u@, self.config.local_ufrag@)).len()) + 64,
        )
    }

    /// The check that is to be done for a pair.
    pub open spec fn checks(self, c: ConnectivityCheck, pair: CandidatePair) -> bool {
        &&& c.socket == pair.local.base()
        &&& c.target == pair.remote.address
        &&& frozen(c.request) == check_request(
            c.transaction_id@,
            check_attrs(
                ice_username(self.remote_ufrag->0@, self.config.local_ufrag@),
                pair.local.priority,
                self.role,
                c.tie_breaker@,
            ),
            self.remote_pwd->0@,
        )
    }

    /// What it means that checking went on from these pairs and this queue.
    pub open spec fn went_on(
        self,
        pairs: Seq<CandidatePair>,
        queue: Seq<QueuedCheck>,
        selected: Option<CandidatePair>,
        step: CheckStep,
    ) -> bool {
        let a = advance(pairs, queue, self.sockets@);
        &&& self.candidate_pairs@ == a.pairs
        &&& self.queue@ == a.queue
        &&& self.current == a.next
        &&& match a.next {
            Some(q) => {
                &&& self.state == IceState::Checking
                &&& self.selected_pair == selected
                &&& step matches CheckStep::Check(c) && self.checks(c, q.pair)
            },
            None => self.fell_back(selected, step),
        }
    }

    /// What it means that there was nothing left to check.
    pub open spec fn fell_back(self, selected: Option<CandidatePair>, step: CheckStep) -> bool {
        match fallback(self.candidate_pairs@) {
            Some(p) => {
                &&& self.state == IceState::Connected
                &&& self.selected_pair == Some(p)
                &&& step == CheckStep::Finished(Ok(()))
            },
            None => {
                &&& self.state == IceState::Failed
                &&& self.selected_pair == selected
                &&& step == CheckStep::Finished(Err(IceError::NoCandidates))
            },
        }
    }

    /// Start connectivity checks.
    ///
    /// Checks are done on the pairs that wait for them, one after the other, until one succeeds.
    /// Without remote credentials there are none: the agent falls back on a pair at once.
    pub fn start_checks(&mut self) -> (r: CheckStep)
        requires
            old(self).wf(),
            old(self).username_fits(),
        ensures
            final(self).wf(),
            final(self).same_setup(*old(self)),
            if old(self).remote_ufrag is Some && old(self).remote_pwd is Some {
                final(self).went_on(
                    old(self).candidate_pairs@,
                    waiting(old(self).candidate_pairs@, old(self).candidate_pairs@.len() as int),
                    old(self).selected_pair,
                    r,
                )
            } else {
                &&& final(self).candidate_pairs == old(self).candidate_pairs
                &&& final(self).fell_back(old(self).selected_pair, r)
            },
    {
        self.state = IceState::Checking;
        self.current = None;
        self.queue = Vec::new();
        if self.remote_ufrag.is_none() || self.remote_pwd.is_none() {
            return self.fallback_selection();
        }
        let mut queue: Vec<QueuedCheck> = Vec::new();
        let mut i: usize = 0;
        while i < self.candidate_pairs.len()
            invariant
                i <= self.candidate_pairs@.len(),
                queue@ == waiting(self.candidate_pairs@, i as int),
                forall|k: int| 0 <= k < queue@.len() ==> (#[trigger] queue@[k]).index < i,
            decreases self.candidate_pairs@.len() - i,
        {
            if self.candidate_pairs[i].state == PairState::Waiting {
                queue.push(QueuedCheck { index: i, pair: self.candidate_pairs[i] });
            }
            i = i + 1;
        }
        self.queue = queue;
        self.next_check()
    }

    /// Goes on to the next check that can be done, or falls back if there is none.
    fn next_check(&mut self) -> (r: CheckStep)
        requires
            old(self).wf(),
            old(self).username_fits(),
            old(self).remote_ufrag is Some,
            old(self).remote_pwd is Some,
            old(self).state == IceState::Checking,
            old(self).current is None,
        ensures
            final(self).wf(),
            final(self).same_setup(*old(self)),
            final(self).went_on(
                old(self).candidate_pairs@,
                old(self).queue@,
                old(self).selected_pair,
                r,
            ),
    {
        let ghost goal = advance(old(self).candidate_pairs@, old(self).queue@, self.sockets@);
        while self.queue.len() > 0
            invariant
                self.wf(),
                self.username_fits(),
                self.remote_ufrag is Some,
                self.remote_pwd is Some,
                self.state == IceState::Checking,
                self.current is None,
                self.same_setup(*old(self)),
                self.selected_pair == old(self).selected_pair,
                goal == advance(old(self).candidate_pairs@, old(self).queue@, self.sockets@),
                advance(self.candidate_pairs@, self.queue@, self.sockets@) == goal,
            decreases self.queue@.len(),
        {
            let ghost pairs = self.candidate_pairs@;
            let ghost queue = self.queue@;
            let next: QueuedCheck = self.queue.remove(0);
            assert(self.queue@ =~= queue.skip(1));
            assert(next == queue[0]);
            let index: usize = next.index;
            let found: bool = self.has_socket(next.pair.local.socket_addr());
            let mut pair: CandidatePair = self.candidate_pairs[index];
            pair.state = if found {
                PairState::InProgress
            } else {
                PairState::Failed
            };
            self.candidate_pairs[index] = pair;
            proof {
                assert(same_pairs(pairs, self.candidate_pairs@));
                lemma_same_pairs(pairs, self.candidate_pairs@);
                assert forall|k: int| 0 <= k < self.queue@.len() implies (
                #[trigger] self.queue@[k]).index < self.candidate_pairs@.len() by {
                    assert(queue[k + 1].index < pairs.len());
                }
            }
            if found {
                self.current = Some(next);
                return CheckStep::Check(self.connectivity_check(&next.pair));
            }
        }
        self.fallback_selection()
    }

    /// Tests whether a socket is bound to a local address.
    fn has_socket(&self, addr: SocketAddr) -> (r: bool)
        ensures
            r == self.sockets@.contains(addr),
    {
        let mut i: usize = 0;
        while i < self.sockets.len()
            invariant
                i <= self.sockets@.len(),
                forall|k: int| 0 <= k < i ==> self.sockets@[k] != addr,
            decreases self.sockets@.len() - i,
        {
            if self.sockets[i] == addr {
                return true;
            }
            i = i + 1;
        }
        false
    }

    /// The check of a pair, under a random transaction ID and tie breaker.
    fn connectivity_check(&self, pair: &CandidatePair) -> (r: ConnectivityCheck)
        requires
            self.username_fits(),
            self.remote_ufrag is Some,
            self.remote_pwd is Some,
        ensures
            self.checks(r, *pair),
    {
        let transaction_id: [u8; 12] = random_bytes::<12>();
        let tie_breaker: [u8; 8] = random_bytes::<8>();
        let mut username: String = String::new();
        let mut pwd: String = String::new();
        if let Some(u) = &self.remote_ufrag {
            username.append(u.as_str());
        }
        if let Some(p) = &self.remote_pwd {
            pwd.append(p.as_str());
        }
        username.push(':');
        username.append(self.config.local_ufrag.as_str());
        assert(username@ =~= ice_username(self.remote_ufrag->0@, self.config.local_ufrag@));
        assert(pwd@ =~= self.remote_pwd->0@);
        let request: Bytes = build_check(
            &transaction_id,
            username.as_str(),
            pair.local.priority,
            self.role,
            &tie_breaker,
            pwd.as_str(),
        );
        ConnectivityCheck {
            socket: pair.local.socket_addr(),
            target: pair.remote.address,
            transaction_id,
            tie_breaker,
            request,
        }
    }

    /// What a check that was done leads to. A pair whose check succeeded is selected, and
    /// nominated by a controlling agent; the frozen pairs of its local foundation wait for their
    /// checks then. After a failure the next pair is checked.
    pub fn on_check_result(&mut self, succeeded: bool) -> (r: CheckStep)
        requires
            old(self).wf(),
            old(self).username_fits(),
            old(self).remote_ufrag is Some,
            old(self).remote_pwd is Some,
            old(self).state == IceState::Checking,
            old(self).current is Some,
        ensures
            final(self).wf(),
            final(self).same_setup(*old(self)),
            ({
                let q = old(self).current->0;
                let i = q.index as int;
                let pairs = old(self).candidate_pairs@;
                if succeeded {
                    let winner = CandidatePair {
                        state: PairState::Succeeded,
                        nominated: pairs[i].nominated || old(self).role == IceRole::Controlling,
                        ..pairs[i]
                    };
                    &&& r == CheckStep::Finished(Ok(()))
                    &&& final(self).state == IceState::Connected
                    &&& final(self).selected_pair == Some(winner)
                    &&& final(self).candidate_pairs@ == unfreeze_related(
                        pairs.update(i, winner),
                        i,
                        q.pair,
                    )
                    &&& final(self).candidate_pairs@[i] == winner
                    &&& final(self).current is None
                    &&& final(self).queue@.len() == 0
                } else {
                    final(self).went_on(
                        pairs.update(i, pairs[i].in_state(PairState::Failed)),
                        old(self).queue@,
                        old(self).selected_pair,
                        r,
                    )
                }
            }),
    {
        let done: QueuedCheck = match self.current {
            Some(q) => q,
            None => QueuedCheck { index: 0, pair: self.candidate_pairs[0] },
        };
        let index: usize = done.index;
        let ghost pairs = self.candidate_pairs@;
        let mut pair: CandidatePair = self.candidate_pairs[index];
        self.current = None;
        if succeeded {
            pair.state = PairState::Succeeded;
            if self.role == IceRole::Controlling {
                pair.nominated = true;
            }
            self.candidate_pairs[index] = pair;
            self.selected_pair = Some(pair);
            self.state = IceState::Connected;
            self.queue = Vec::new();
            unfreeze_related_pairs(&mut self.candidate_pairs, index, &done.pair);
            proof {
                assert(same_pairs(pairs, self.candidate_pairs@));
                lemma_same_pairs(pairs, self.candidate_pairs@);
            }
            return CheckStep::Finished(Ok(()));
        }
        pair.state = PairState::Failed;
        self.candidate_pairs[index] = pair;
        proof {
            assert(same_pairs(pairs, self.candidate_pairs@));
            lemma_same_pairs(pairs, self.candidate_pairs@);
        }
        self.next_check()
    }

    /// Fallback selection when connectivity checks aren't possible: the first pair of two host
    /// candidates, else the first pair.
    pub fn fallback_selection(&mut self) -> (r: CheckStep)
        requires
            old(self).wf(),
        ensures
            final(self).wf(),
            final(self).fell_back(old(self).selected_pair, r),
            *final(self) == (IceAgent {
                state: final(self).state,
                selected_pair: final(self).selected_pair,
                ..*old(self)
            }),
    {
        let mut i: usize = 0;
        while i < self.candidate_pairs.len()
            invariant
                i <= self.candidate_pairs@.len(),
                self.wf(),
                *self == *old(self),
                first_host_pair(self.candidate_pairs@, 0) == first_host_pair(
                    self.candidate_pairs@,
                    i as int,
                ),
            decreases self.candidate_pairs@.len() - i,
        {
            let pair: CandidatePair = self.candidate_pairs[i];
            if pair.local.candidate_type == CandidateType::Host && pair.remote.candidate_type
                == CandidateType::Host {
                assert(fallback(self.candidate_pairs@) == Some(pair));
                self.selected_pair = Some(pair);
                self.state = IceState::Connected;
                return CheckStep::Finished(Ok(()));
            }
            i = i + 1;
        }
        if self.candidate_pairs.len() > 0 {
            self.selected_pair = Some(self.candidate_pairs[0]);
            self.state = IceState::Connected;
            return CheckStep::Finished(Ok(()));
        }
        self.state = IceState::Failed;
        CheckStep::Finished(Err(IceError::NoCandidates))
    }

    /// Close the ICE agent.
    pub fn close(&mut self)
        ensures
            final(self).sockets@.len() == 0,
            *final(self) == (IceAgent {
                state: IceState::Closed,
                sockets: final(self).sockets,
                ..*old(self)
            }),
    {
        self.state = IceState::Closed;
        self.sockets.clear();
    }
}

/// The server-reflexive candidates of these socket and mapped addresses.
pub open spec fn reflexive(mapped: Seq<(SocketAddr, SocketAddr)>) -> Seq<Candidate>
    decreases mapped.len(),
{
    if mapped.len() == 0 {
        Seq::empty()
    } else {
        let (base, seen) = mapped.last();
        if seen != base {
            reflexive(mapped.drop_last()).push(Candidate::spec_server_reflexive(seen, base, 1))
        } else {
            reflexive(mapped.drop_last())
        }
    }
}

/// The candidates that gathering finds.
pub open spec fn gathered(
    bound: Seq<SocketAddr>,
    mapped: Seq<(SocketAddr, SocketAddr)>,
) -> Seq<Candidate> {
    Seq::new(bound.len(), |k: int| Candidate::spec_host(bound[k], 1)) + reflexive(mapped)
}

/// Pairing loses no pair.
proof fn lemma_formed_grows(
    pairs: Seq<CandidatePair>,
    local: Seq<Candidate>,
    remote: Seq<Candidate>,
    controlling: bool,
)
    ensures
        pairs.len() <= formed(pairs, local, remote, controlling).len(),
{
    super::pairs::lemma_with_locals_grows(pairs, local, remote, controlling, local.len() as int);
    super::pairs::lemma_by_priority(
        super::pairs::with_locals(pairs, local, remote, controlling, local.len() as int),
    );
}

} // verus!
