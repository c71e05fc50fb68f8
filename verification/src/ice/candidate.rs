//! ICE candidates (RFC 8445, section 5.1) and the priority of their pairs.

use crate::net::{IpAddr, SocketAddr};
use vstd::prelude::*;

verus! {

/// How a candidate was found.
#[derive(Debug, Clone, Copy, PartialEq, Eq, Structural)]
pub enum CandidateType {
    /// An address of a local interface.
    Host,
    /// An address that a STUN server saw.
    ServerReflexive,
    /// An address that a connectivity check revealed.
    PeerReflexive,
    /// An address on a TURN server.
    Relay,
}

/// Transport protocol of a candidate.
#[derive(Debug, Clone, Copy, PartialEq, Eq, Structural)]
pub enum Transport {
    Udp,
    Tcp,
}

/// What candidates of one foundation have in common.
#[derive(Debug, Clone, Copy, PartialEq, Eq, Structural)]
pub struct Foundation {
    pub candidate_type: CandidateType,
    pub base_ip: IpAddr,
    pub transport: Transport,
}

/// An ICE candidate.
#[derive(Debug, Clone, Copy)]
pub struct Candidate {
    pub foundation: Foundation,
    /// Component ID (1 for RTP, 2 for RTCP).
    pub component: u8,
    pub transport: Transport,
    pub priority: u32,
    pub address: SocketAddr,
    pub candidate_type: CandidateType,
    /// The base of a candidate that is not its own.
    pub related_address: Option<SocketAddr>,
}

/// Type preference of host candidates.
pub const HOST_PREFERENCE: u32 = 126;

/// Type preference of server-reflexive candidates.
pub const SRFLX_PREFERENCE: u32 = 100;

/// The priority of a candidate with full local preference.
pub open spec fn candidate_priority(type_preference: u32, component: u8) -> int {
    0x100_0000 * type_preference + 0x100 * 65535 + 256 - component
}

impl Candidate {
    pub open spec fn spec_host(address: SocketAddr, component: u8) -> Candidate {
        Candidate {
            foundation: Foundation {
                candidate_type: CandidateType::Host,
                base_ip: address.ip,
                transport: Transport::Udp,
            },
            component,
            transport: Transport::Udp,
            priority: candidate_priority(HOST_PREFERENCE, component) as u32,
            address,
            candidate_type: CandidateType::Host,
            related_address: None,
        }
    }

    pub open spec fn spec_server_reflexive(
        address: SocketAddr,
        base: SocketAddr,
        component: u8,
    ) -> Candidate {
        Candidate {
            foundation: Foundation {
                candidate_type: CandidateType::ServerReflexive,
                base_ip: base.ip,
                transport: Transport::Udp,
            },
            component,
            transport: Transport::Udp,
            priority: candidate_priority(SRFLX_PREFERENCE, component) as u32,
            address,
            candidate_type: CandidateType::ServerReflexive,
            related_address: Some(base),
        }
    }

    /// A host candidate over UDP.
    pub fn host(address: SocketAddr, component: u8) -> (r: Self)
        ensures
            r == Candidate::spec_host(address, component),
            r.priority == candidate_priority(HOST_PREFERENCE, component),
    {
        Candidate {
            foundation: Foundation {
                candidate_type: CandidateType::Host,
                base_ip: address.ip,
                transport: Transport::Udp,
            },
            component,
            transport: Transport::Udp,
            priority: 0x100_0000 * HOST_PREFERENCE + 0x100 * 65535 + 256 - component as u32,
            address,
            candidate_type: CandidateType::Host,
            related_address: None,
        }
    }

    /// A server-reflexive candidate over UDP.
    pub fn server_reflexive(address: SocketAddr, base: SocketAddr, component: u8) -> (r: Self)
        ensures
            r == Candidate::spec_server_reflexive(address, base, component),
            r.priority == candidate_priority(SRFLX_PREFERENCE, component),
    {
        Candidate {
            foundation: Foundation {
                candidate_type: CandidateType::ServerReflexive,
                base_ip: base.ip,
                transport: Transport::Udp,
            },
            component,
            transport: Transport::Udp,
            priority: 0x100_0000 * SRFLX_PREFERENCE + 0x100 * 65535 + 256 - component as u32,
            address,
            candidate_type: CandidateType::ServerReflexive,
            related_address: Some(base),
        }
    }

    /// The local address that the candidate sends from.
    pub open spec fn base(self) -> SocketAddr {
        match self.related_address {
            Some(a) => a,
            None => self.address,
        }
    }

    /// The local address that the candidate sends from.
    pub fn socket_addr(&self) -> (r: SocketAddr)
        ensures
            r == self.base(),
    {
        match self.related_address {
            Some(a) => a,
            None => self.address,
        }
    }
}

/// The priority of a pair (RFC 8445, section 6.1.2.3), from the priorities of the controlling
/// agent's candidate `g` and the controlled agent's `d`.
pub open spec fn pair_priority(g: u32, d: u32) -> int {
    let low: int = if g < d {
        g as int
    } else {
        d as int
    };
    let high: int = if g < d {
        d as int
    } else {
        g as int
    };
    0x1_0000_0000 * low + 2 * high + (if g > d {
        1int
    } else {
        0
    })
}

/// The priority of a pair of a local and a remote candidate, seen from an agent's role.
pub open spec fn pair_priority_for(is_controlling: bool, local: u32, remote: u32) -> int {
    if is_controlling {
        pair_priority(local, remote)
    } else {
        pair_priority(remote, local)
    }
}

/// Calculates the priority of a pair.
pub fn calculate_pair_priority(is_controlling: bool, local: u32, remote: u32) -> (r: u64)
    requires
        local < u32::MAX || remote < u32::MAX,
    ensures
        r == pair_priority_for(is_controlling, local, remote),
{
    let (g, d): (u32, u32) = if is_controlling {
        (local, remote)
    } else {
        (remote, local)
    };
    let low: u64 = if g < d {
        g as u64
    } else {
        d as u64
    };
    let high: u64 = if g < d {
        d as u64
    } else {
        g as u64
    };
    0x1_0000_0000 * low + 2 * high + (if g > d {
        1
    } else {
        0
    })
}

/// Both agents give a pair the same priority.
pub proof fn lemma_pair_priority_agrees(is_controlling: bool, ours: u32, theirs: u32)
    ensures
        pair_priority_for(is_controlling, ours, theirs) == pair_priority_for(
            !is_controlling,
            theirs,
            ours,
        ),
{
}

/// A host candidate comes before a server-reflexive one.
pub proof fn lemma_host_first(component: u8, other: u8)
    ensures
        candidate_priority(HOST_PREFERENCE, component) > candidate_priority(
            SRFLX_PREFERENCE,
            other,
        ),
{
}

} // verus!
