//! The TURN client's conduct: what it sends, and what it makes of the replies.

use super::turn::{
    allocate_reply, allocate_request, build_allocate_request, build_permission_request,
    build_refresh_request, build_send_indication, cut_short, data_indication,
    generate_transaction_id, parse_allocate_response, parse_data_indication,
    parse_permission_response, parse_refresh_response, permission_reply, permission_request,
    reads_allocate_body, refresh_reply, refresh_request, send_indication, AllocateResult,
    AllocateResultView, AuthContext, AuthView, TurnAllocation, TurnAllocationView, TurnError,
    TurnErrorView, TurnServer, DATA_INDICATION, REFRESH_RESPONSE,
};
use crate::buf::{fits, frozen, u16_at};
use crate::net::SocketAddr;
use bytes::Bytes;
use vstd::prelude::*;

verus! {

/// TURN client for relay allocation.
pub struct TurnClient {
    pub server: TurnServer,
    /// How long to wait for a reply.
    pub timeout_ms: u64,
    /// How often a request is sent before the client gives up.
    pub retries: u32,
    pub allocation: Option<TurnAllocation>,
    pub transaction_id: [u8; 12],
}

/// The allocation, as far as there is one, as it says.
pub open spec fn allocation_view(a: Option<TurnAllocation>) -> Option<TurnAllocationView> {
    match a {
        Some(a) => Some(a@),
        None => None,
    }
}

/// How an allocation goes on after a first reply.
pub enum AllocateStep {
    /// It is over.
    Finished(Result<TurnAllocation, TurnError>),
    /// The server wants credentials under this challenge.
    Challenged { realm: String, nonce: String },
}

/// What came of waiting for a reply.
#[derive(Debug)]
pub enum SendEvent {
    Received,
    Failed(String),
    TimedOut,
}

/// What to do about a request.
#[derive(Debug)]
pub enum SendStep {
    /// Send it, for the time that the number says, counting from 0.
    Send(u32),
    /// Hand on the reply.
    Deliver,
    GiveUp(TurnError),
}

impl TurnClient {
    /// The same client but for allocation and transaction ID.
    pub open spec fn same_setup(self, other: TurnClient) -> bool {
        &&& self.server == other.server
        &&& self.timeout_ms == other.timeout_ms
        &&& self.retries == other.retries
    }

    /// The credentials under a server's challenge.
    pub open spec fn auth(self, realm: Seq<char>, nonce: Seq<char>) -> AuthView {
        AuthView { username: self.server.username@, realm, nonce }
    }

    /// The credentials of the current allocation.
    pub open spec fn allocation_auth(self) -> AuthView {
        self.auth(self.allocation->0.realm@, self.allocation->0.nonce@)
    }

    /// Create a new TURN client.
    pub fn new(server: TurnServer) -> (r: Self)
        ensures
            r.server == server,
            r.timeout_ms == 5000,
            r.retries == 3,
            r.allocation is None,
    {
        TurnClient {
            server,
            timeout_ms: 5000,
            retries: 3,
            allocation: None,
            transaction_id: generate_transaction_id(),
        }
    }

    /// Get the current allocation, if any.
    pub fn allocation(&self) -> (r: Option<&TurnAllocation>)
        ensures
            match r {
                Some(a) => self.allocation == Some(*a),
                None => self.allocation is None,
            },
    {
        self.allocation.as_ref()
    }

    /// Get the relayed address (relay candidate).
    pub fn relayed_addr(&self) -> (r: Option<SocketAddr>)
        ensures
            r == (match self.allocation {
                Some(a) => Some(a.relayed_addr),
                None => None,
            }),
    {
        match &self.allocation {
            Some(a) => Some(a.relayed_addr),
            None => None,
        }
    }

    /// Allocate a relay address on the TURN server: the first request, without credentials, under
    /// a fresh transaction ID.
    pub fn allocate(&mut self) -> (r: Bytes)
        ensures
            final(self).same_setup(*old(self)),
            final(self).allocation == old(self).allocation,
            frozen(r) == allocate_request(final(self).transaction_id@, None),
    {
        self.transaction_id = generate_transaction_id();
        build_allocate_request(&self.transaction_id, None)
    }

    /// What a first reply to an Allocate request leads to: an allocation, a challenge to answer
    /// with credentials, or an error.
    pub fn on_allocate_reply(&mut self, reply: &[u8]) -> (r: AllocateStep)
        requires
            reads_allocate_body(reply@, old(self).transaction_id@) ==> !cut_short(reply@),
        ensures
            final(self).same_setup(*old(self)),
            final(self).transaction_id == old(self).transaction_id,
            match allocate_reply(reply@, old(self).transaction_id@) {
                Ok(AllocateResultView::Success(a)) => {
                    &&& r matches AllocateStep::Finished(Ok(alloc)) && alloc@ == a
                    &&& allocation_view(final(self).allocation) == Some(a)
                },
                Ok(AllocateResultView::AuthRequired { realm, nonce }) => {
                    &&& r matches AllocateStep::Challenged { realm: re, nonce: no } && re@ == realm
                        && no@ == nonce
                    &&& final(self).allocation == old(self).allocation
                },
                Err(e) => {
                    &&& r matches AllocateStep::Finished(Err(err)) && err@ == e
                    &&& final(self).allocation == old(self).allocation
                },
            },
    {
        match parse_allocate_response(reply, &self.transaction_id) {
            Ok(AllocateResult::Success(alloc)) => {
                self.allocation = Some(alloc.clone());
                AllocateStep::Finished(Ok(alloc))
            },
            Ok(AllocateResult::AuthRequired { realm, nonce }) => AllocateStep::Challenged {
                realm,
                nonce,
            },
            Err(e) => AllocateStep::Finished(Err(e)),
        }
    }

    /// The answer to a challenge: an Allocate request with credentials, under a fresh transaction
    /// ID.
    pub fn authenticate(&mut self, realm: &str, nonce: &str) -> (r: Bytes)
        requires
            fits(28 + old(self).auth(realm@, nonce@).wire().len()),
        ensures
            final(self).same_setup(*old(self)),
            final(self).allocation == old(self).allocation,
            frozen(r) == allocate_request(
                final(self).transaction_id@,
                Some(old(self).auth(realm@, nonce@)),
            ),
    {
        self.transaction_id = generate_transaction_id();
        let auth = AuthContext {
            username: self.server.username.clone(),
            realm: realm.to_owned(),
            nonce: nonce.to_owned(),
        };
        build_allocate_request(&self.transaction_id, Some(&auth))
    }

    /// What the reply to an Allocate request with credentials leads to. The allocation keeps the
    /// challenge that it was granted under. A second challenge is a failure.
    pub fn on_authenticated_reply(&mut self, reply: &[u8], realm: String, nonce: String) -> (r:
        Result<TurnAllocation, TurnError>)
        requires
            reads_allocate_body(reply@, old(self).transaction_id@) ==> !cut_short(reply@),
        ensures
            final(self).same_setup(*old(self)),
            final(self).transaction_id == old(self).transaction_id,
            match allocate_reply(reply@, old(self).transaction_id@) {
                Ok(AllocateResultView::Success(a)) => {
                    let granted = TurnAllocationView { realm: realm@, nonce: nonce@, ..a };
                    &&& r matches Ok(alloc) && alloc@ == granted
                    &&& allocation_view(final(self).allocation) == Some(granted)
                },
                Ok(AllocateResultView::AuthRequired { .. }) => {
                    &&& r matches Err(err) && err@ == (TurnErrorView::ErrorResponse {
                        code: 401,
                        reason: "Authentication failed"@,
                    })
                    &&& final(self).allocation == old(self).allocation
                },
                Err(e) => {
                    &&& r matches Err(err) && err@ == e
                    &&& final(self).allocation == old(self).allocation
                },
            },
    {
        match parse_allocate_response(reply, &self.transaction_id) {
            Ok(AllocateResult::Success(alloc)) => {
                let granted = TurnAllocation {
                    relayed_addr: alloc.relayed_addr,
                    mapped_addr: alloc.mapped_addr,
                    lifetime: alloc.lifetime,
                    realm,
                    nonce,
                };
                self.allocation = Some(granted.clone());
                Ok(granted)
            },
            Ok(AllocateResult::AuthRequired { .. }) => Err(
                TurnError::ErrorResponse {
                    code: 401,
                    reason: "Authentication failed".to_owned(),
                },
            ),
            Err(e) => Err(e),
        }
    }

    /// The credentials of an allocation.
    fn auth_of(&self, alloc: &TurnAllocation) -> (r: AuthContext)
        ensures
            r@ == self.auth(alloc.realm@, alloc.nonce@),
    {
        AuthContext {
            username: self.server.username.clone(),
            realm: alloc.realm.clone(),
            nonce: alloc.nonce.clone(),
        }
    }

    /// Refresh the allocation to extend its lifetime: the request, under a fresh transaction ID.
    pub fn refresh(&mut self, lifetime: u32) -> (r: Result<Bytes, TurnError>)
        requires
            old(self).allocation is Some ==> fits(28 + old(self).allocation_auth().wire().len()),
        ensures
            final(self).same_setup(*old(self)),
            final(self).allocation == old(self).allocation,
            match r {
                Ok(request) => old(self).allocation is Some && frozen(request) == refresh_request(
                    final(self).transaction_id@,
                    lifetime,
                    old(self).allocation_auth(),
                ),
                Err(e) => old(self).allocation is None && e@ == TurnErrorView::NotAllocated
                    && *final(self) == *old(self),
            },
    {
        let auth: AuthContext = match &self.allocation {
            Some(alloc) => self.auth_of(alloc),
            None => return Err(TurnError::NotAllocated),
        };
        self.transaction_id = generate_transaction_id();
        Ok(build_refresh_request(&self.transaction_id, lifetime, &auth))
    }

    /// What the reply to a Refresh request leads to: the allocation has the granted lifetime.
    pub fn on_refresh_reply(&mut self, reply: &[u8]) -> (r: Result<u32, TurnError>)
        requires
            reply@.len() >= 20 && u16_at(reply@, 0) == REFRESH_RESPONSE ==> !cut_short(reply@),
        ensures
            final(self).same_setup(*old(self)),
            final(self).transaction_id == old(self).transaction_id,
            match refresh_reply(reply@) {
                Ok(n) => {
                    &&& r == Ok::<u32, TurnError>(n)
                    &&& allocation_view(final(self).allocation) == (match old(self).allocation {
                        Some(a) => Some(TurnAllocationView { lifetime: n, ..a@ }),
                        None => None,
                    })
                },
                Err(e) => {
                    &&& r matches Err(err) && err@ == e
                    &&& final(self).allocation == old(self).allocation
                },
            },
    {
        let new_lifetime: u32 = match parse_refresh_response(reply) {
            Ok(n) => n,
            Err(e) => return Err(e),
        };
        let refreshed: Option<TurnAllocation> = match &self.allocation {
            Some(alloc) => {
                let mut a: TurnAllocation = alloc.clone();
                a.lifetime = new_lifetime;
                Some(a)
            },
            None => None,
        };
        self.allocation = refreshed;
        Ok(new_lifetime)
    }

    /// Create permission for a peer address: the request, under a fresh transaction ID.
    ///
    /// This is required before receiving data from a peer.
    pub fn create_permission(&mut self, peer_addr: SocketAddr) -> (r: Result<Bytes, TurnError>)
        requires
            old(self).allocation is Some ==> fits(44 + old(self).allocation_auth().wire().len()),
        ensures
            final(self).same_setup(*old(self)),
            final(self).allocation == old(self).allocation,
            match r {
                Ok(request) => old(self).allocation is Some && frozen(request)
                    == permission_request(
                    final(self).transaction_id@,
                    peer_addr,
                    old(self).allocation_auth(),
                ),
                Err(e) => old(self).allocation is None && e@ == TurnErrorView::NotAllocated
                    && *final(self) == *old(self),
            },
    {
        let auth: AuthContext = match &self.allocation {
            Some(alloc) => self.auth_of(alloc),
            None => return Err(TurnError::NotAllocated),
        };
        self.transaction_id = generate_transaction_id();
        Ok(build_permission_request(&self.transaction_id, peer_addr, &auth))
    }

    /// What the reply to a CreatePermission request amounts to.
    pub fn on_permission_reply(&self, reply: &[u8]) -> (r: Result<(), TurnError>)
        ensures
            match r {
                Ok(n) => permission_reply(reply@) == Ok::<_, TurnErrorView>(n),
                Err(e) => permission_reply(reply@) == Err::<(), _>(e@),
            },
    {
        parse_permission_response(reply)
    }

    /// Send data to a peer through the relay: the indication to send.
    ///
    /// Uses Send indication (no response expected).
    pub fn send_data(&self, peer_addr: SocketAddr, data: &[u8]) -> (r: Result<Bytes, TurnError>)
        requires
            fits(52 + data@.len()),
        ensures
            match r {
                Ok(indication) => self.allocation is Some && frozen(indication)
                    == send_indication(self.transaction_id@, peer_addr, data@),
                Err(e) => self.allocation is None && e@ == TurnErrorView::NotAllocated,
            },
    {
        if self.allocation.is_none() {
            return Err(TurnError::NotAllocated);
        }
        Ok(build_send_indication(&self.transaction_id, peer_addr, data))
    }

    /// Receive data from the relay (checks for Data indication).
    ///
    /// Returns (peer_addr, data) if a Data indication was received.
    pub fn recv_data(&self, datagram: &[u8]) -> (r: Result<(SocketAddr, Vec<u8>), TurnError>)
        requires
            datagram@.len() >= 20 && u16_at(datagram@, 0) == DATA_INDICATION ==> !cut_short(
                datagram@,
            ),
        ensures
            match r {
                Ok((peer, payload)) => data_indication(datagram@) == Ok::<_, TurnErrorView>(
                    (peer, payload@),
                ),
                Err(e) => data_indication(datagram@) == Err::<(SocketAddr, Seq<u8>), _>(e@),
            },
    {
        parse_data_indication(datagram)
    }

    /// What to do first about a request: send it, unless it may not be sent even once.
    pub fn first_send(&self) -> (r: SendStep)
        ensures
            self.retries > 0 ==> r == SendStep::Send(0),
            self.retries == 0 ==> r == SendStep::GiveUp(TurnError::Timeout),
    {
        if self.retries == 0 {
            SendStep::GiveUp(TurnError::Timeout)
        } else {
            SendStep::Send(0)
        }
    }

    /// What to do after a request was sent for the time `attempt` and this came of it: a reply is
    /// handed on, a socket's failure ends it, a timeout has it sent again until the retries are
    /// used up.
    pub fn after_send(&self, attempt: u32, event: SendEvent) -> (r: SendStep)
        requires
            attempt < self.retries,
        ensures
            match event {
                SendEvent::Received => r == SendStep::Deliver,
                SendEvent::Failed(e) => r == SendStep::GiveUp(TurnError::Io(e)),
                SendEvent::TimedOut => if attempt + 1 < self.retries {
                    r == SendStep::Send((attempt + 1) as u32)
                } else {
                    r == SendStep::GiveUp(TurnError::Timeout)
                },
            },
    {
        match event {
            SendEvent::Received => SendStep::Deliver,
            SendEvent::Failed(e) => SendStep::GiveUp(TurnError::Io(e)),
            SendEvent::TimedOut => if attempt + 1 < self.retries {
                SendStep::Send(attempt + 1)
            } else {
                SendStep::GiveUp(TurnError::Timeout)
            },
        }
    }
}

} // verus!
