//! What no step of ICE changes, what holds of an agent at all times, and what errors say.

use crate::buf::{be16, u16_at, u32_at};
use crate::ice::agent::{alphanumeric, digit_or_letter, IceAgent};
use crate::ice::candidate::Candidate;
use crate::ice::check::covered;
use crate::ice::pairs::{
    all_compatible, compatible, complete, distinct, drawn_from, ordered, paired, same_pairs,
    well_formed, CandidatePair,
};
use crate::ice::stun::{following, padded, readable, whole, StunErrorView};
use crate::ice::turn::{reads_allocate_body, TurnErrorView};
use crate::ice::turn_client::TurnClient;
use crate::ice::wire::{address_of, attrs_of, last_of, AttrView};
use crate::net::{IpAddr, SocketAddr};
use crate::text::decimal;
use vstd::prelude::*;

verus! {

/// Agents with one setup have the same settings, role, candidates on both sides, sockets and
/// credentials of the other side.
pub proof fn lemma_agent_setup(a: IceAgent, b: IceAgent)
    ensures
        a.same_setup(b) <==> a.config == b.config && a.role == b.role && a.local_candidates
            == b.local_candidates && a.remote_candidates == b.remote_candidates && a.sockets
            == b.sockets && a.remote_ufrag == b.remote_ufrag && a.remote_pwd == b.remote_pwd,
{
}

/// Clients with one setup talk to the same server, as patiently.
pub proof fn lemma_client_setup(a: TurnClient, b: TurnClient, realm: Seq<char>, nonce: Seq<char>)
    ensures
        a.same_setup(b) <==> a.server == b.server && a.timeout_ms == b.timeout_ms && a.retries
            == b.retries,
        a.auth(realm, nonce).username == a.server.username@,
        a.auth(realm, nonce).realm == realm,
        a.auth(realm, nonce).nonce == nonce,
        a.allocation is Some ==> a.allocation_auth().realm == a.allocation->0.realm@
            && a.allocation_auth().nonce == a.allocation->0.nonce@ && a.allocation_auth().username
            == a.server.username@,
{
}

/// The pairs of an agent: the higher priority first, no two of the same addresses, and in each the
/// component and the transport of both sides alike. Every check that waits or runs is of a pair
/// that there is.
pub proof fn lemma_agent_pairs(a: IceAgent, i: int, j: int)
    requires
        a.wf(),
        0 <= i < j < a.candidate_pairs@.len(),
    ensures
        a.candidate_pairs@[i].priority >= a.candidate_pairs@[j].priority,
        a.candidate_pairs@[i].local.address != a.candidate_pairs@[j].local.address
            || a.candidate_pairs@[i].remote.address != a.candidate_pairs@[j].remote.address,
        a.candidate_pairs@[i].local.component == a.candidate_pairs@[i].remote.component,
        a.candidate_pairs@[i].local.transport == a.candidate_pairs@[i].remote.transport,
        forall|k: int|
            0 <= k < a.queue@.len() ==> (#[trigger] a.queue@[k]).index
                < a.candidate_pairs@.len(),
        a.current is Some ==> a.current->0.index < a.candidate_pairs@.len(),
{
    assert(ordered(a.candidate_pairs@));
    assert(distinct(a.candidate_pairs@));
    assert(all_compatible(a.candidate_pairs@));
    assert(!a.candidate_pairs@[i].joins(a.candidate_pairs@[j].local, a.candidate_pairs@[j].remote));
}

/// A list of pairs that is in order, without doubles and compatible is well-formed, and a list
/// that differs in the states of its pairs alone is so too.
pub proof fn lemma_pairs_well_formed(s: Seq<CandidatePair>, t: Seq<CandidatePair>)
    requires
        same_pairs(s, t),
    ensures
        well_formed(s) <==> (forall|i: int, j: int|
            #![trigger s[i], s[j]]
            0 <= i < j < s.len() ==> s[i].priority >= s[j].priority && (s[i].local.address
                != s[j].local.address || s[i].remote.address != s[j].remote.address)) && (forall|i: int|
            0 <= i < s.len() ==> (#[trigger] s[i]).local.component == s[i].remote.component
                && s[i].local.transport == s[i].remote.transport),
        s.len() == t.len(),
        forall|i: int|
            0 <= i < s.len() ==> (#[trigger] s[i]).local == t[i].local && s[i].remote == t[i].remote
                && s[i].priority == t[i].priority,
{
}

/// A user fragment or password is made of digits and lower-case letters.
pub proof fn lemma_alphanumeric(s: Seq<char>, i: int, c: char)
    ensures
        alphanumeric(s) && 0 <= i < s.len() ==> digit_or_letter(s[i]),
        digit_or_letter(c) ==> '0' <= c <= '9' || 'a' <= c <= 'z',
        '0' <= c <= '9' || 'a' <= c <= 'z' ==> digit_or_letter(c),
{
    if digit_or_letter(c) {
        let d = choose|d: int| 0 <= d < 36 && c == #[trigger] crate::text::digit(d);
        crate::text_laws::lemma_digit(d);
    }
    if '0' <= c <= '9' {
        let d = c as int - '0' as int;
        crate::text_laws::lemma_digit(d);
        assert(c == crate::text::digit(d));
    }
    if 'a' <= c <= 'z' {
        let d = c as int - 'a' as int + 10;
        crate::text_laws::lemma_digit(d);
        assert(c == crate::text::digit(d));
    }
}

/// What the errors say.
pub proof fn lemma_ice_error_texts(m: Seq<char>, n: Seq<char>, code: u16)
    ensures
        StunErrorView::Io(m).text() == "IO error: "@ + m,
        StunErrorView::Timeout.text() == "Request timeout"@,
        StunErrorView::InvalidResponse(m).text() == "Invalid response: "@ + m,
        StunErrorView::NoMappedAddress.text() == "No mapped address in response"@,
        TurnErrorView::Io(m).text() == "IO error: "@ + m,
        TurnErrorView::Timeout.text() == "Request timeout"@,
        TurnErrorView::InvalidResponse(m).text() == "Invalid response: "@ + m,
        (TurnErrorView::ErrorResponse { code, reason: m }).text() == "TURN error: "@ + decimal(
            code as nat,
        ) + seq![' '] + m,
        (TurnErrorView::AuthRequired { realm: m, nonce: n }).text() == "Authentication required"@,
        TurnErrorView::NoRelayAddress.text() == "No relay address in response"@,
        TurnErrorView::NotAllocated.text() == "Allocation not active"@,
{
}

/// The addresses with a meaning of their own: 127.0.0.1, and 0.0.0.0 with port 0.
pub proof fn lemma_special_addresses()
    ensures
        IpAddr::loopback() == IpAddr::V4((127 * 16777216 + 1) as u32),
        SocketAddr::unspecified().ip == IpAddr::V4(0),
        SocketAddr::unspecified().port == 0,
{
}

/// Attributes are padded to whole words, and the next one follows the padding.
pub proof fn lemma_attribute_padding(s: Seq<u8>, n: int, skip: int)
    requires
        0 <= n,
        0 <= skip,
    ensures
        padded(n) % 4 == 0,
        n <= padded(n) < n + 4,
        s.len() >= 4 + skip + padded(n) ==> following(s, n, skip) == Some(
            s.skip(4 + skip + padded(n)),
        ),
        s.len() < 4 + skip + padded(n) ==> following(s, n, skip) is None,
{
}

/// What can be read of a binding reply without running past its end: a reply that is no answer
/// always can; an answer must be as long as it says.
pub proof fn lemma_whole(d: Seq<u8>)
    ensures
        d.len() < 20 ==> whole(d),
        d.len() >= 20 && !(d[0] == 1 && d[1] == 1) ==> whole(d),
        whole(d) && d.len() >= 20 && d[0] == 1 && d[1] == 1 && d[4] == 0x21 && d[5] == 0x12 && d[6]
            == 0xa4 && d[7] == 0x42 ==> d.len() >= 20 + 256 * d[2] + d[3],
        readable(Seq::empty()),
{
    if d.len() >= 20 {
        crate::text_laws::lemma_network_order(0, 0, d, 0);
        crate::text_laws::lemma_network_order(0, 0, d, 2);
        crate::text_laws::lemma_network_order(0, 0, d, 4);
    }
}

/// An address is read from eight bytes of the first family and from twenty of the second; of
/// another family, or of fewer bytes, there is none.
pub proof fn lemma_address_read(v: Seq<u8>, txn: Seq<u8>)
    ensures
        v.len() < 8 ==> address_of(v, txn) is None,
        v.len() >= 8 && v[1] == 1 ==> address_of(v, txn) is Some && address_of(v, txn)->0.ip is V4,
        v.len() >= 20 && v[1] == 2 ==> address_of(v, txn) is Some && address_of(v, txn)->0.ip is V6,
        v.len() < 20 && v[1] == 2 ==> address_of(v, txn) is None,
        v[1] != 1 && v[1] != 2 ==> address_of(v, txn) is None,
{
}

/// The body of a reply to an allocation is read where the reply is long enough, is for the request
/// that was sent, and is a success or an error.
pub proof fn lemma_allocate_body(d: Seq<u8>, txn: Seq<u8>)
    requires
        d.len() >= 20,
    ensures
        reads_allocate_body(d, txn) <==> d.subrange(8, 20) == txn && d[0] == 1 && (d[1] == 0x13
            || d[1] == 3),
        d.len() < 20 ==> !reads_allocate_body(d, txn),
{
    crate::text_laws::lemma_network_order(0, 0, d, 0);
}

/// The pairs are drawn from the candidates of the two sides, and are complete where every two that
/// are compatible have their addresses paired.
pub proof fn lemma_drawn_and_complete(
    pairs: Seq<CandidatePair>,
    local: Seq<Candidate>,
    remote: Seq<Candidate>,
    i: int,
    j: int,
)
    ensures
        drawn_from(pairs, local, remote) && 0 <= i < pairs.len() ==> local.contains(pairs[i].local)
            && remote.contains(pairs[i].remote),
        complete(pairs, local, remote) && 0 <= i < local.len() && 0 <= j < remote.len()
            && local[i].component == remote[j].component && local[i].transport == remote[j].transport
            ==> exists|k: int|
            0 <= k < pairs.len() && (#[trigger] pairs[k]).local.address == local[i].address
                && pairs[k].remote.address == remote[j].address,
{
    if complete(pairs, local, remote) && 0 <= i < local.len() && 0 <= j < remote.len()
        && local[i].component == remote[j].component && local[i].transport == remote[j].transport {
        assert(compatible(local[i], remote[j]));
        assert(paired(pairs, local[i], remote[j]));
        let k = choose|k: int| 0 <= k < pairs.len() && (#[trigger] pairs[k]).joins(
            local[i],
            remote[j],
        );
        assert(pairs[k].joins(local[i], remote[j]));
    }
}

/// Attributes are read one after the other: a type, a length, so many bytes, and padding up to a
/// whole word. Reading stops at an attribute that is not all there; the padding of the last one may
/// be missing.
pub proof fn lemma_attributes_read(s: Seq<u8>)
    ensures
        s.len() < 4 ==> attrs_of(s).len() == 0,
        s.len() >= 4 && s.len() < 4 + 256 * s[2] + s[3] ==> attrs_of(s).len() == 0,
        s.len() >= 4 && s.len() >= 4 + 256 * s[2] + s[3] ==> ({
            let n = 256 * s[2] + s[3];
            let next = 4 + n + (4 - n % 4) % 4;
            &&& attrs_of(s).len() > 0
            &&& attrs_of(s)[0].kind == 256 * s[0] + s[1]
            &&& attrs_of(s)[0].value == s.subrange(4, 4 + n)
            &&& s.len() < next ==> attrs_of(s).len() == 1
            &&& s.len() >= next ==> attrs_of(s).skip(1) == attrs_of(s.skip(next))
        }),
{
    if s.len() >= 4 {
        let t = s + s;
        crate::text_laws::lemma_network_order(0, 0, t, 0);
        crate::text_laws::lemma_network_order(0, 0, t, 2);
        assert(t[0] == s[0] && t[1] == s[1] && t[2] == s[2] && t[3] == s[3]);
        assert(u16_at(s, 0) == u16_at(t, 0) && u16_at(s, 2) == u16_at(t, 2));
        if s.len() >= 4 + u16_at(s, 2) {
            let n = u16_at(s, 2) as int;
            let next = 4 + n + (4 - n % 4) % 4;
            if s.len() >= next {
                let rest = attrs_of(s.skip(next));
                assert(attrs_of(s).skip(1) =~= rest);
            }
        }
    }
}

/// Of several attributes of one type the last that is long enough counts.
pub proof fn lemma_last_counts(attrs: Seq<AttrView>, a: AttrView, kind: u16, min: int)
    ensures
        last_of(Seq::empty(), kind, min) is None,
        a.kind == kind && a.value.len() >= min ==> last_of(attrs.push(a), kind, min) == Some(
            a.value,
        ),
        a.kind != kind || a.value.len() < min ==> last_of(attrs.push(a), kind, min) == last_of(
            attrs,
            kind,
            min,
        ),
{
    assert(attrs.push(a).drop_last() =~= attrs);
}

/// The bytes of an address: the port in the third and fourth, mixed with the cookie's first half;
/// then the address, mixed with the cookie and, in its longer form, with the transaction.
pub proof fn lemma_address_places(v: Seq<u8>, txn: Seq<u8>)
    requires
        txn.len() == 12,
        v.len() >= 20,
    ensures
        v[1] == 1 ==> address_of(v, txn) == Some(
            SocketAddr {
                ip: IpAddr::V4(u32_at(v, 4) ^ 0x2112A442),
                port: u16_at(v, 2) ^ 0x2112,
            },
        ),
        v[1] == 2 ==> address_of(v, txn) == Some(
            SocketAddr {
                ip: IpAddr::V6(
                    u32_at(v, 4) ^ 0x2112A442,
                    u32_at(v, 8) ^ u32_at(txn, 0),
                    u32_at(v, 12) ^ u32_at(txn, 4),
                    u32_at(v, 16) ^ u32_at(txn, 8),
                ),
                port: u16_at(v, 2) ^ 0x2112,
            },
        ),
{
}

/// A check covers its header, whose length counts the integrity attribute that is still to come,
/// and its attributes.
pub proof fn lemma_covered(txn: Seq<u8>, attrs: Seq<u8>)
    requires
        txn.len() == 12,
        attrs.len() < 65000,
    ensures
        covered(txn, attrs).len() == 20 + attrs.len(),
        covered(txn, attrs)[0] == 0,
        covered(txn, attrs)[1] == 1,
        256 * covered(txn, attrs)[2] + covered(txn, attrs)[3] == attrs.len() + 24,
        covered(txn, attrs).subrange(8, 20) == txn,
        covered(txn, attrs).skip(20) == attrs,
{
    broadcast use crate::buf::group_be_len;

    let c = covered(txn, attrs);
    let z = seq![0u8, 0, 0, 0];
    let n = (attrs.len() + 24) as u16;
    crate::text_laws::lemma_network_order(1, 0, z, 0);
    crate::text_laws::lemma_network_order(n, 0, z, 0);
    assert(c[0] == be16(1)[0] && c[1] == be16(1)[1]);
    assert(c[2] == be16(n)[0] && c[3] == be16(n)[1]);
    assert(c.subrange(8, 20) =~= txn);
    assert(c.skip(20) =~= attrs);
}

} // verus!
