//! Dialog states and identifiers per RFC 3261.
//!
//! A dialog is a peer-to-peer SIP relationship between two UAs that persists
//! for some time. It facilitates sequencing of messages between the UAs and
//! proper routing of requests between both of them.

use crate::sip::{
    is_loose, is_over_tls, loose, over_tls, RequestView, ResponseView, SipRequest, SipResponse,
};
use crate::table::TableKey;
use crate::text::{clone_texts, texts};
use vstd::prelude::*;

verus! {

/// Dialog identifier per RFC 3261.
///
/// A dialog is identified by the combination of Call-ID, local tag, and remote tag.
#[derive(Debug, PartialEq, Eq, Hash)]
pub struct DialogId {
    /// Call-ID header value.
    pub call_id: String,
    /// Local tag (From tag for UAC, To tag for UAS).
    pub local_tag: String,
    /// Remote tag (To tag for UAC, From tag for UAS).
    pub remote_tag: String,
}

/// What a dialog identifier says.
#[verifier::ext_equal]
pub struct IdView {
    pub call_id: Seq<char>,
    pub local_tag: Seq<char>,
    pub remote_tag: Seq<char>,
}

impl View for DialogId {
    type V = IdView;

    open spec fn view(&self) -> IdView {
        IdView {
            call_id: self.call_id@,
            local_tag: self.local_tag@,
            remote_tag: self.remote_tag@,
        }
    }
}

impl IdView {
    /// The identifier that a response gives to the one who sent the request.
    pub open spec fn of_response(response: ResponseView) -> Option<IdView> {
        match (response.call_id, response.from_tag, response.to_tag) {
            (Some(call_id), Some(local_tag), Some(remote_tag)) => Some(
                IdView { call_id, local_tag, remote_tag },
            ),
            _ => None,
        }
    }

    /// The identifier of the dialog to which a request within a dialog belongs, for the one who
    /// receives it.
    pub open spec fn of_request(request: RequestView) -> Option<IdView> {
        match (request.call_id, request.to_tag, request.from_tag) {
            (Some(call_id), Some(local_tag), Some(remote_tag)) => Some(
                IdView { call_id, local_tag, remote_tag },
            ),
            _ => None,
        }
    }

    /// The identifier that the other side has for the same dialog.
    pub open spec fn mirrored(self) -> IdView {
        IdView { call_id: self.call_id, local_tag: self.remote_tag, remote_tag: self.local_tag }
    }
}

impl Clone for DialogId {
    fn clone(&self) -> (r: Self)
        ensures
            r@ == self@,
    {
        DialogId {
            call_id: self.call_id.clone(),
            local_tag: self.local_tag.clone(),
            remote_tag: self.remote_tag.clone(),
        }
    }
}

impl TableKey for DialogId {
    fn same(&self, other: &Self) -> (r: bool) {
        self.call_id == other.call_id && self.local_tag == other.local_tag && self.remote_tag
            == other.remote_tag
    }
}

impl DialogId {
    /// Create a new dialog ID.
    pub fn new(call_id: &str, local_tag: &str, remote_tag: &str) -> (r: Self)
        ensures
            r@ == (IdView {
                call_id: call_id@,
                local_tag: local_tag@,
                remote_tag: remote_tag@,
            }),
    {
        DialogId {
            call_id: call_id.to_owned(),
            local_tag: local_tag.to_owned(),
            remote_tag: remote_tag.to_owned(),
        }
    }

    /// Create a dialog ID from a request (UAC perspective).
    ///
    /// Returns None if the request doesn't have the required tags.
    pub fn from_request_uac(request: &SipRequest, remote_tag: &str) -> (r: Option<Self>)
        ensures
            match r {
                Some(id) => request@.call_id == Some(id@.call_id) && request@.from_tag == Some(
                    id@.local_tag,
                ) && id@.remote_tag == remote_tag@,
                None => request@.call_id is None || request@.from_tag is None,
            },
    {
        match (&request.call_id, &request.from_tag) {
            (Some(call_id), Some(local_tag)) => Some(
                DialogId {
                    call_id: call_id.clone(),
                    local_tag: local_tag.clone(),
                    remote_tag: remote_tag.to_owned(),
                },
            ),
            _ => None,
        }
    }

    /// Create a dialog ID from a response (UAC perspective).
    ///
    /// Returns None if the response doesn't have the required tags.
    pub fn from_response_uac(response: &SipResponse) -> (r: Option<Self>)
        ensures
            match r {
                Some(id) => IdView::of_response(response@) == Some(id@),
                None => IdView::of_response(response@) is None,
            },
    {
        match (&response.call_id, &response.from_tag, &response.to_tag) {
            (Some(call_id), Some(local_tag), Some(remote_tag)) => Some(
                DialogId {
                    call_id: call_id.clone(),
                    local_tag: local_tag.clone(),
                    remote_tag: remote_tag.clone(),
                },
            ),
            _ => None,
        }
    }

    /// Create a dialog ID from a request (UAS perspective).
    ///
    /// Returns None if the request doesn't have the required tags.
    pub fn from_request_uas(request: &SipRequest, local_tag: &str) -> (r: Option<Self>)
        ensures
            match r {
                Some(id) => request@.call_id == Some(id@.call_id) && id@.local_tag == local_tag@
                    && request@.from_tag == Some(id@.remote_tag),
                None => request@.call_id is None || request@.from_tag is None,
            },
    {
        match (&request.call_id, &request.from_tag) {
            (Some(call_id), Some(remote_tag)) => Some(
                DialogId {
                    call_id: call_id.clone(),
                    local_tag: local_tag.to_owned(),
                    remote_tag: remote_tag.clone(),
                },
            ),
            _ => None,
        }
    }
}

/// State of a dialog.
#[derive(Debug, Clone, Copy, PartialEq, Eq, Structural)]
pub enum DialogState {
    /// Early dialog - provisional response received but no final response yet.
    Early,
    /// Confirmed dialog - 2xx response received.
    Confirmed,
    /// Dialog is being terminated.
    Terminating,
    /// Dialog has been terminated.
    Terminated,
}

impl DialogState {
    /// How far a dialog in this state has come.
    pub open spec fn stage(self) -> int {
        match self {
            DialogState::Early => 0,
            DialogState::Confirmed => 1,
            DialogState::Terminating => 2,
            DialogState::Terminated => 3,
        }
    }
}

/// Route set for in-dialog requests (RFC 3261 Section 12.2).
#[derive(Debug)]
pub struct RouteSet {
    /// List of Route URIs (derived from Record-Route headers).
    pub routes: Vec<String>,
    /// Whether routes use loose routing (have ;lr parameter).
    pub loose_routing: bool,
}

/// What a route set says.
#[verifier::ext_equal]
pub struct RoutesView {
    pub routes: Seq<Seq<char>>,
    pub loose_routing: bool,
}

impl View for RouteSet {
    type V = RoutesView;

    open spec fn view(&self) -> RoutesView {
        RoutesView { routes: texts(self.routes@), loose_routing: self.loose_routing }
    }
}

impl RoutesView {
    pub open spec fn empty() -> RoutesView {
        RoutesView { routes: Seq::empty(), loose_routing: false }
    }

    /// The route set of Record-Route values: the values, in reverse for the caller. Whether
    /// routing is loose is what the topmost value says.
    pub open spec fn of_values(values: Seq<Seq<char>>, reverse: bool) -> RoutesView {
        RoutesView {
            routes: if reverse {
                values.reverse()
            } else {
                values
            },
            loose_routing: values.len() > 0 && loose(values[0]),
        }
    }
}

impl Clone for RouteSet {
    fn clone(&self) -> (r: Self)
        ensures
            r@ == self@,
    {
        RouteSet { routes: clone_texts(&self.routes), loose_routing: self.loose_routing }
    }
}

impl Default for RouteSet {
    fn default() -> (r: Self)
        ensures
            r@ == RoutesView::empty(),
    {
        RouteSet::new()
    }
}

impl RouteSet {
    /// Create an empty route set.
    pub fn new() -> (r: Self)
        ensures
            r@ == RoutesView::empty(),
    {
        let r = RouteSet { routes: Vec::new(), loose_routing: false };
        assert(r@.routes =~= Seq::empty());
        r
    }

    /// Create a route set from Record-Route header values.
    ///
    /// For UAC (caller), the routes should be reversed (top Record-Route becomes last route).
    /// For UAS (callee), the routes are used in order as received.
    pub fn from_record_route_values(record_route_values: &[String], reverse: bool) -> (r: Self)
        ensures
            r@ == RoutesView::of_values(texts(record_route_values@), reverse),
    {
        let n: usize = record_route_values.len();
        let ghost values = texts(record_route_values@);
        let mut routes: Vec<String> = Vec::new();
        let mut i: usize = 0;
        while i < n
            invariant
                i <= n,
                n == record_route_values@.len(),
                values == texts(record_route_values@),
                routes@.len() == i,
                forall|k: int|
                    0 <= k < i ==> (#[trigger] routes@[k])@ == if reverse {
                        values[n - 1 - k]
                    } else {
                        values[k]
                    },
            decreases n - i,
        {
            let from: usize = if reverse {
                n - 1 - i
            } else {
                i
            };
            routes.push(record_route_values[from].clone());
            i = i + 1;
        }
        let loose_routing: bool = n > 0 && is_loose(record_route_values[0].as_str());
        let r = RouteSet { routes, loose_routing };
        assert(r@.routes =~= RoutesView::of_values(values, reverse).routes);
        r
    }

    /// Get the routes as string values.
    pub fn routes(&self) -> (r: &[String])
        ensures
            texts(r@) == self@.routes,
    {
        self.routes.as_slice()
    }

    /// Check if the route set is empty.
    pub fn is_empty(&self) -> (r: bool)
        ensures
            r == (self@.routes.len() == 0),
    {
        self.routes.len() == 0
    }

    /// Check if the route set uses loose routing.
    pub fn is_loose_routing(&self) -> (r: bool)
        ensures
            r == self@.loose_routing,
    {
        self.loose_routing
    }

    /// Get the number of routes.
    pub fn len(&self) -> (r: usize)
        ensures
            r == self@.routes.len(),
    {
        self.routes.len()
    }
}

/// Dialog state information.
#[derive(Debug)]
pub struct DialogInfo {
    /// Dialog ID.
    pub id: DialogId,
    /// Current state.
    pub state: DialogState,
    /// Local sequence number (for outgoing requests).
    pub local_seq: u32,
    /// Remote sequence number (for incoming requests).
    pub remote_seq: Option<u32>,
    /// Local URI.
    pub local_uri: String,
    /// Remote URI.
    pub remote_uri: String,
    /// Remote target (Contact URI from peer).
    pub remote_target: String,
    /// Route set.
    pub route_set: RouteSet,
    /// Whether this is a secure dialog (established over TLS).
    pub secure: bool,
}

/// What dialog state information says.
#[verifier::ext_equal]
pub struct InfoView {
    pub id: IdView,
    pub state: DialogState,
    pub local_seq: u32,
    pub remote_seq: Option<u32>,
    pub local_uri: Seq<char>,
    pub remote_uri: Seq<char>,
    pub remote_target: Seq<char>,
    pub route_set: RoutesView,
    pub secure: bool,
}

impl View for DialogInfo {
    type V = InfoView;

    open spec fn view(&self) -> InfoView {
        InfoView {
            id: self.id@,
            state: self.state,
            local_seq: self.local_seq,
            remote_seq: self.remote_seq,
            local_uri: self.local_uri@,
            remote_uri: self.remote_uri@,
            remote_target: self.remote_target@,
            route_set: self.route_set@,
            secure: self.secure,
        }
    }
}

impl InfoView {
    /// What an INVITE and a response to it establish for the caller. `None` where one of them
    /// lacks something that a dialog is made of.
    pub open spec fn of_response(
        request: RequestView,
        response: ResponseView,
        state: DialogState,
    ) -> Option<InfoView> {
        match (
            IdView::of_response(response),
            request.from_uri,
            request.to_uri,
            response.contact_uri,
            request.cseq,
        ) {
            (Some(id), Some(local_uri), Some(remote_uri), Some(remote_target), Some(local_seq)) =>
            Some(
                InfoView {
                    id,
                    state,
                    local_seq,
                    remote_seq: None,
                    local_uri,
                    remote_uri,
                    remote_target,
                    route_set: RoutesView::of_values(response.record_routes, true),
                    secure: over_tls(request.vias),
                },
            ),
            _ => None,
        }
    }

    /// What an INVITE establishes for the one who receives it. `None` where it lacks something
    /// that a dialog is made of.
    pub open spec fn of_invite(
        request: RequestView,
        local_tag: Seq<char>,
        state: DialogState,
    ) -> Option<InfoView> {
        match (
            request.call_id,
            request.from_tag,
            request.from_uri,
            request.to_uri,
            request.contact_uri,
            request.cseq,
        ) {
            (
                Some(call_id),
                Some(remote_tag),
                Some(remote_uri),
                Some(local_uri),
                Some(remote_target),
                Some(remote_seq),
            ) => Some(
                InfoView {
                    id: IdView { call_id, local_tag, remote_tag },
                    state,
                    local_seq: 0,
                    remote_seq: Some(remote_seq),
                    local_uri,
                    remote_uri,
                    remote_target,
                    route_set: RoutesView::of_values(request.record_routes, false),
                    secure: over_tls(request.vias),
                },
            ),
            _ => None,
        }
    }

    /// Whether a sequence number of the other side is newer than the last one.
    pub open spec fn accepts_remote_seq(self, seq: u32) -> bool {
        match self.remote_seq {
            None => true,
            Some(current) => seq > current,
        }
    }
}

impl Clone for DialogInfo {
    fn clone(&self) -> (r: Self)
        ensures
            r@ == self@,
    {
        DialogInfo {
            id: self.id.clone(),
            state: self.state,
            local_seq: self.local_seq,
            remote_seq: self.remote_seq,
            local_uri: self.local_uri.clone(),
            remote_uri: self.remote_uri.clone(),
            remote_target: self.remote_target.clone(),
            route_set: self.route_set.clone(),
            secure: self.secure,
        }
    }
}

impl DialogInfo {
    /// Create dialog info for a UAC from an outgoing INVITE and incoming response.
    pub fn from_invite_response_uac(
        request: &SipRequest,
        response: &SipResponse,
        state: DialogState,
    ) -> (r: Option<Self>)
        ensures
            match r {
                Some(info) => InfoView::of_response(request@, response@, state) == Some(info@),
                None => InfoView::of_response(request@, response@, state) is None,
            },
    {
        let id: DialogId = match DialogId::from_response_uac(response) {
            Some(id) => id,
            None => return None,
        };
        match (&request.from_uri, &request.to_uri, &response.contact_uri, request.cseq) {
            (Some(local_uri), Some(remote_uri), Some(remote_target), Some(local_seq)) => {
                // The top Record-Route becomes the last route (RFC 3261 Section 12.1.2).
                let route_set: RouteSet = RouteSet::from_record_route_values(
                    response.record_routes.as_slice(),
                    true,
                );
                Some(
                    DialogInfo {
                        id,
                        state,
                        local_seq,
                        remote_seq: None,
                        local_uri: local_uri.clone(),
                        remote_uri: remote_uri.clone(),
                        remote_target: remote_target.clone(),
                        route_set,
                        secure: Self::detect_secure_transport(request),
                    },
                )
            },
            _ => None,
        }
    }

    /// Create dialog info for a UAS from an incoming INVITE.
    ///
    /// The local contact belongs to the responses, not to the dialog.
    pub fn from_invite_uas(
        request: &SipRequest,
        local_tag: &str,
        local_contact: &str,
        state: DialogState,
    ) -> (r: Option<Self>)
        ensures
            match r {
                Some(info) => InfoView::of_invite(request@, local_tag@, state) == Some(info@),
                None => InfoView::of_invite(request@, local_tag@, state) is None,
            },
    {
        let _ = local_contact;
        let id: DialogId = match DialogId::from_request_uas(request, local_tag) {
            Some(id) => id,
            None => return None,
        };
        match (&request.from_uri, &request.to_uri, &request.contact_uri, request.cseq) {
            (Some(remote_uri), Some(local_uri), Some(remote_target), Some(remote_seq)) => {
                // The routes stay in order (RFC 3261 Section 12.1.1).
                let route_set: RouteSet = RouteSet::from_record_route_values(
                    request.record_routes.as_slice(),
                    false,
                );
                Some(
                    DialogInfo {
                        id,
                        state,
                        local_seq: 0,
                        remote_seq: Some(remote_seq),
                        local_uri: local_uri.clone(),
                        remote_uri: remote_uri.clone(),
                        remote_target: remote_target.clone(),
                        route_set,
                        secure: Self::detect_secure_transport(request),
                    },
                )
            },
            _ => None,
        }
    }

    /// Detect if the transport is secure (TLS) from the Via header.
    pub fn detect_secure_transport(request: &SipRequest) -> (r: bool)
        ensures
            r == over_tls(request@.vias),
    {
        is_over_tls(&request.vias)
    }

    /// Get the next local CSeq number.
    pub fn next_local_seq(&mut self) -> (r: u32)
        requires
            old(self).local_seq < u32::MAX,
        ensures
            r == old(self).local_seq + 1,
            *final(self) == (DialogInfo { local_seq: r, ..*old(self) }),
    {
        self.local_seq = self.local_seq + 1;
        self.local_seq
    }

    /// Update remote sequence number.
    ///
    /// Returns true if the sequence number is valid (greater than current).
    pub fn update_remote_seq(&mut self, seq: u32) -> (r: bool)
        ensures
            r == old(self)@.accepts_remote_seq(seq),
            *final(self) == if r {
                (DialogInfo { remote_seq: Some(seq), ..*old(self) })
            } else {
                *old(self)
            },
    {
        match self.remote_seq {
            None => {
                self.remote_seq = Some(seq);
                true
            },
            Some(current) => {
                if seq > current {
                    self.remote_seq = Some(seq);
                    true
                } else {
                    false
                }
            },
        }
    }
}

} // verus!
