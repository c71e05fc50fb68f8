//! INVITE dialog state machine.
//!
//! Handles the lifecycle of an INVITE-initiated dialog, including:
//! - Dialog establishment via INVITE/2xx/ACK
//! - In-dialog requests (re-INVITE, BYE, etc.)
//! - Dialog termination

use super::state::{DialogId, DialogInfo, DialogState, IdView, InfoView, RouteSet, RoutesView};
use crate::sip::{
    addressable, identifier, is_addressable, new_identifier, via_text, via_value, Method,
    RequestView, ResponseView, SipRequest, SipResponse,
};
use crate::text::{concat, or_empty, text_or_empty};
use vstd::prelude::*;

verus! {

/// Role in the dialog.
#[derive(Debug, Clone, Copy, PartialEq, Eq, Structural)]
pub enum Role {
    /// User Agent Client - initiated the dialog.
    Uac,
    /// User Agent Server - received the initial INVITE.
    Uas,
}

/// Output action from the dialog.
#[derive(Debug, Clone)]
pub enum Action {
    /// Send a request to the network.
    SendRequest(SipRequest),
    /// Send a response to the network.
    SendResponse(SipResponse),
    /// Emit an event to the user.
    Event(Event),
}

/// Event emitted to the user.
#[derive(Debug, Clone)]
pub enum Event {
    /// Dialog established (2xx received/sent).
    Established,
    /// Provisional response received/sent.
    Provisional(SipResponse),
    /// Re-INVITE received.
    ReInvite(SipRequest),
    /// BYE received.
    ByeReceived(SipRequest),
    /// Dialog terminated.
    Terminated(TerminationReason),
    /// Session progress (183 with SDP).
    SessionProgress(SipResponse),
}

/// Reason for dialog termination.
#[derive(Debug, Clone)]
pub enum TerminationReason {
    /// Normal BYE.
    ByeSent,
    /// Remote BYE.
    ByeReceived,
    /// INVITE rejected.
    Rejected(u16),
    /// INVITE cancelled.
    Cancelled,
    /// Error.
    Error(String),
}

/// What an action says.
pub enum ActionView {
    SendRequest(RequestView),
    SendResponse(ResponseView),
    Event(EventView),
}

/// What an event says.
pub enum EventView {
    Established,
    Provisional(ResponseView),
    ReInvite(RequestView),
    ByeReceived(RequestView),
    Terminated(ReasonView),
    SessionProgress(ResponseView),
}

/// What a reason for termination says.
pub enum ReasonView {
    ByeSent,
    ByeReceived,
    Rejected(u16),
    Cancelled,
    Error(Seq<char>),
}

impl View for TerminationReason {
    type V = ReasonView;

    open spec fn view(&self) -> ReasonView {
        match self {
            TerminationReason::ByeSent => ReasonView::ByeSent,
            TerminationReason::ByeReceived => ReasonView::ByeReceived,
            TerminationReason::Rejected(code) => ReasonView::Rejected(*code),
            TerminationReason::Cancelled => ReasonView::Cancelled,
            TerminationReason::Error(e) => ReasonView::Error(e@),
        }
    }
}

impl View for Event {
    type V = EventView;

    open spec fn view(&self) -> EventView {
        match self {
            Event::Established => EventView::Established,
            Event::Provisional(r) => EventView::Provisional(r@),
            Event::ReInvite(r) => EventView::ReInvite(r@),
            Event::ByeReceived(r) => EventView::ByeReceived(r@),
            Event::Terminated(reason) => EventView::Terminated(reason@),
            Event::SessionProgress(r) => EventView::SessionProgress(r@),
        }
    }
}

impl View for Action {
    type V = ActionView;

    open spec fn view(&self) -> ActionView {
        match self {
            Action::SendRequest(r) => ActionView::SendRequest(r@),
            Action::SendResponse(r) => ActionView::SendResponse(r@),
            Action::Event(e) => ActionView::Event(e@),
        }
    }
}

/// What actions say.
pub open spec fn action_views(actions: Seq<Action>) -> Seq<ActionView> {
    actions.map_values(|a: Action| a@)
}

/// INVITE dialog (Sans-IO).
#[derive(Debug)]
pub struct InviteDialog {
    /// Dialog info.
    pub info: DialogInfo,
    /// Our role.
    pub role: Role,
    /// Original INVITE request (for reference).
    pub invite: SipRequest,
    /// Pending actions.
    pub actions: Vec<Action>,
    /// Whether ACK has been sent/received.
    pub ack_sent: bool,
}

/// What a dialog is.
#[verifier::ext_equal]
pub struct DialogView {
    pub info: InfoView,
    pub role: Role,
    pub invite: RequestView,
    pub actions: Seq<ActionView>,
    pub ack_sent: bool,
}

impl View for InviteDialog {
    type V = DialogView;

    open spec fn view(&self) -> DialogView {
        DialogView {
            info: self.info@,
            role: self.role,
            invite: self.invite@,
            actions: action_views(self.actions@),
            ack_sent: self.ack_sent,
        }
    }
}

impl DialogView {
    /// The dialog that an outgoing INVITE begins. It has no identifier yet.
    pub open spec fn calling(invite: RequestView) -> DialogView {
        DialogView {
            info: InfoView {
                id: IdView {
                    call_id: Seq::empty(),
                    local_tag: Seq::empty(),
                    remote_tag: Seq::empty(),
                },
                state: DialogState::Early,
                local_seq: match invite.cseq {
                    Some(seq) => seq,
                    None => 1,
                },
                remote_seq: None,
                local_uri: or_empty(invite.from_uri),
                remote_uri: or_empty(invite.to_uri),
                remote_target: Seq::empty(),
                route_set: RoutesView::empty(),
                secure: false,
            },
            role: Role::Uac,
            invite,
            actions: Seq::empty(),
            ack_sent: false,
        }
    }

    /// The dialog that an incoming INVITE begins.
    pub open spec fn called(invite: RequestView, local_tag: Seq<char>) -> Option<DialogView> {
        match InfoView::of_invite(invite, local_tag, DialogState::Early) {
            Some(info) => Some(
                DialogView {
                    info,
                    role: Role::Uas,
                    invite,
                    actions: Seq::empty(),
                    ack_sent: false,
                },
            ),
            None => None,
        }
    }

    /// The dialog in another state.
    pub open spec fn entering(self, state: DialogState) -> DialogView {
        DialogView { info: InfoView { state, ..self.info }, ..self }
    }

    /// The dialog with one more action to take.
    pub open spec fn acting(self, action: ActionView) -> DialogView {
        DialogView { actions: self.actions.push(action), ..self }
    }

    /// The dialog with one more event to tell.
    pub open spec fn telling(self, event: EventView) -> DialogView {
        self.acting(ActionView::Event(event))
    }

    /// The dialog after a response. Only a caller whose dialog is early heeds it: a provisional
    /// one other than 100 makes the dialog known as far as it can, a 2xx confirms it, anything
    /// from 300 ends it.
    pub open spec fn responded(self, response: ResponseView) -> DialogView {
        let code = response.status_code;
        if self.role != Role::Uac || self.info.state != DialogState::Early {
            self
        } else if 100 < code < 200 {
            let known = match InfoView::of_response(self.invite, response, DialogState::Early) {
                Some(info) => DialogView { info, ..self },
                None => self,
            };
            let progressed = if code == 183 {
                known.telling(EventView::SessionProgress(response))
            } else {
                known
            };
            progressed.telling(EventView::Provisional(response))
        } else if 200 <= code < 300 {
            let confirmed = match InfoView::of_response(
                self.invite,
                response,
                DialogState::Confirmed,
            ) {
                Some(info) => DialogView { info, ..self },
                None => self.entering(DialogState::Confirmed),
            };
            confirmed.telling(EventView::Established)
        } else if code >= 300 {
            self.entering(DialogState::Terminated).telling(
                EventView::Terminated(ReasonView::Rejected(code)),
            )
        } else {
            self
        }
    }

    /// The dialog with the remote target that the Contact of a request gives, where it has one.
    pub open spec fn refreshed(self, contact: Option<Seq<char>>) -> DialogView {
        match contact {
            Some(c) => DialogView { info: InfoView { remote_target: c, ..self.info }, ..self },
            None => self,
        }
    }

    /// The dialog after a request of the other side. One whose CSeq cannot be read is passed
    /// over. A re-INVITE that is accepted refreshes the remote target.
    pub open spec fn requested(self, request: RequestView) -> DialogView {
        match request.cseq {
            None => self,
            Some(seq) => match request.method {
                Method::Bye => self.entering(DialogState::Terminated).telling(
                    EventView::ByeReceived(request),
                ).telling(EventView::Terminated(ReasonView::ByeReceived)),
                Method::Invite => if self.info.state == DialogState::Confirmed
                    && self.info.accepts_remote_seq(seq) {
                    (DialogView {
                        info: InfoView { remote_seq: Some(seq), ..self.info },
                        ..self
                    }).refreshed(request.contact_uri).telling(EventView::ReInvite(request))
                } else {
                    self
                },
                Method::Ack => if self.role == Role::Uas && self.info.state
                    == DialogState::Confirmed {
                    DialogView { ack_sent: true, ..self }
                } else {
                    self
                },
                Method::Cancel => if self.info.state == DialogState::Early && self.role
                    == Role::Uas {
                    self.entering(DialogState::Terminated).telling(
                        EventView::Terminated(ReasonView::Cancelled),
                    )
                } else {
                    self
                },
                _ => self,
            },
        }
    }

    /// The dialog after a response of our own. Only the one who was called sends any: the first
    /// 2xx confirms an early dialog, the first from 300 ends it.
    pub open spec fn answered(self, response: ResponseView) -> DialogView {
        let code = response.status_code;
        if self.role != Role::Uas {
            self
        } else if 200 <= code < 300 && self.info.state == DialogState::Early {
            self.entering(DialogState::Confirmed).acting(
                ActionView::SendResponse(response),
            ).telling(EventView::Established)
        } else if code >= 300 && self.info.state == DialogState::Early {
            self.entering(DialogState::Terminated).acting(
                ActionView::SendResponse(response),
            ).telling(EventView::Terminated(ReasonView::Rejected(code)))
        } else {
            self.acting(ActionView::SendResponse(response))
        }
    }

    /// A request within the dialog. The Via is left for the transport to fill in.
    pub open spec fn in_dialog_request(
        self,
        method: Method,
        cseq: u32,
        branch: Seq<char>,
    ) -> RequestView {
        RequestView {
            method,
            uri: self.info.remote_target,
            vias: seq![via_text("0.0.0.0"@, 5060, "UDP"@, branch)],
            from_uri: Some(self.info.local_uri),
            from_tag: Some(self.info.id.local_tag),
            to_uri: Some(self.info.remote_uri),
            to_tag: Some(self.info.id.remote_tag),
            call_id: Some(self.info.id.call_id),
            cseq: Some(cseq),
            contact_uri: None,
            record_routes: Seq::empty(),
            body: Seq::empty(),
        }
    }

    /// The dialog once we have decided to end it: it waits for the answer to a BYE with the next
    /// sequence number.
    pub open spec fn leaving(self) -> DialogView {
        DialogView {
            info: InfoView {
                state: DialogState::Terminating,
                local_seq: (self.info.local_seq + 1) as u32,
                ..self.info
            },
            ..self
        }
    }

    /// The BYE that ends the dialog, with an identifier for its branch.
    pub open spec fn bye(self, id: Seq<char>) -> RequestView {
        self.in_dialog_request(
            Method::Bye,
            (self.info.local_seq + 1) as u32,
            "z9hG4bK"@ + id,
        )
    }
}

impl InviteDialog {
    /// Create a new UAC dialog from an outgoing INVITE.
    ///
    /// The dialog is not yet established - call `handle_response` with responses.
    pub fn new_uac(invite: SipRequest) -> (r: Self)
        ensures
            r@ == DialogView::calling(invite@),
    {
        let local_seq: u32 = match invite.cseq {
            Some(seq) => seq,
            None => 1,
        };
        let info = DialogInfo {
            id: DialogId {
                call_id: String::new(),
                local_tag: String::new(),
                remote_tag: String::new(),
            },
            state: DialogState::Early,
            local_seq,
            remote_seq: None,
            local_uri: text_or_empty(&invite.from_uri),
            remote_uri: text_or_empty(&invite.to_uri),
            remote_target: String::new(),
            route_set: RouteSet::new(),
            secure: false,
        };
        let r = InviteDialog {
            info,
            role: Role::Uac,
            invite,
            actions: Vec::new(),
            ack_sent: false,
        };
        assert(r@ =~= DialogView::calling(invite@));
        r
    }

    /// Create a new UAS dialog from an incoming INVITE.
    ///
    /// Call `send_response` to send responses.
    pub fn new_uas(invite: SipRequest, local_tag: &str, local_contact: &str) -> (r: Option<Self>)
        ensures
            match r {
                Some(d) => DialogView::called(invite@, local_tag@) == Some(d@),
                None => DialogView::called(invite@, local_tag@) is None,
            },
    {
        match DialogInfo::from_invite_uas(&invite, local_tag, local_contact, DialogState::Early) {
            Some(info) => {
                let d = InviteDialog {
                    info,
                    role: Role::Uas,
                    invite,
                    actions: Vec::new(),
                    ack_sent: false,
                };
                assert(d@.actions =~= Seq::empty());
                Some(d)
            },
            None => None,
        }
    }

    /// Get the dialog ID.
    pub fn id(&self) -> (r: &DialogId)
        ensures
            *r == self.info.id,
    {
        &self.info.id
    }

    /// Get the dialog state.
    pub fn state(&self) -> (r: DialogState)
        ensures
            r == self@.info.state,
    {
        self.info.state
    }

    /// Get the dialog info.
    pub fn info(&self) -> (r: &DialogInfo)
        ensures
            *r == self.info,
    {
        &self.info
    }

    /// Get our role.
    pub fn role(&self) -> (r: Role)
        ensures
            r == self@.role,
    {
        self.role
    }

    /// Check if dialog is terminated.
    pub fn is_terminated(&self) -> (r: bool)
        ensures
            r == (self@.info.state == DialogState::Terminated),
    {
        self.info.state == DialogState::Terminated
    }

    fn act(&mut self, action: Action)
        ensures
            final(self)@ == old(self)@.acting(action@),
    {
        self.actions.push(action);
        assert(self@ =~= old(self)@.acting(action@));
    }

    /// Handle a response (UAC only).
    pub fn handle_response(&mut self, response: SipResponse)
        ensures
            final(self)@ == old(self)@.responded(response@),
    {
        if self.role != Role::Uac || self.info.state != DialogState::Early {
            return;
        }
        let code: u16 = response.status_code;
        if 100 <= code && code < 200 {
            if code != 100 {
                // An early dialog, if the response has what it takes.
                match DialogInfo::from_invite_response_uac(
                    &self.invite,
                    &response,
                    DialogState::Early,
                ) {
                    Some(info) => {
                        self.info = info;
                    },
                    None => {},
                }
                if code == 183 {
                    // May have SDP for early media.
                    self.act(Action::Event(Event::SessionProgress(response.clone())));
                }
                self.act(Action::Event(Event::Provisional(response)));
            }
        } else if 200 <= code && code < 300 {
            match DialogInfo::from_invite_response_uac(
                &self.invite,
                &response,
                DialogState::Confirmed,
            ) {
                Some(info) => {
                    self.info = info;
                },
                None => {
                    self.info.state = DialogState::Confirmed;
                },
            }
            self.act(Action::Event(Event::Established));
        } else if code >= 300 {
            self.info.state = DialogState::Terminated;
            self.act(Action::Event(Event::Terminated(TerminationReason::Rejected(code))));
        }
    }

    /// Handle an incoming request (both UAC and UAS).
    pub fn handle_request(&mut self, request: SipRequest)
        ensures
            final(self)@ == old(self)@.requested(request@),
    {
        let cseq: u32 = match request.cseq {
            Some(seq) => seq,
            None => return,
        };
        match request.method {
            Method::Bye => {
                self.info.state = DialogState::Terminated;
                self.act(Action::Event(Event::ByeReceived(request)));
                self.act(Action::Event(Event::Terminated(TerminationReason::ByeReceived)));
            },
            Method::Invite => {
                // Re-INVITE
                if self.info.state == DialogState::Confirmed && self.info.update_remote_seq(cseq) {
                    // Target refresh
                    if let Some(contact) = &request.contact_uri {
                        self.info.remote_target = contact.clone();
                    }
                    self.act(Action::Event(Event::ReInvite(request)));
                }
            },
            Method::Ack => {
                // ACK for 2xx (UAS side)
                if self.role == Role::Uas && self.info.state == DialogState::Confirmed {
                    self.ack_sent = true;
                }
            },
            Method::Cancel => {
                // CANCEL only applies to early dialogs
                if self.info.state == DialogState::Early && self.role == Role::Uas {
                    self.info.state = DialogState::Terminated;
                    self.act(Action::Event(Event::Terminated(TerminationReason::Cancelled)));
                }
            },
            _ => {},
        }
    }

    /// Send a response (UAS only).
    pub fn send_response(&mut self, response: SipResponse)
        ensures
            final(self)@ == old(self)@.answered(response@),
    {
        if self.role != Role::Uas {
            return;
        }
        let code: u16 = response.status_code;
        if 200 <= code && code < 300 && self.info.state == DialogState::Early {
            self.info.state = DialogState::Confirmed;
            self.act(Action::SendResponse(response));
            self.act(Action::Event(Event::Established));
        } else if code >= 300 && self.info.state == DialogState::Early {
            self.info.state = DialogState::Terminated;
            self.act(Action::SendResponse(response));
            self.act(Action::Event(Event::Terminated(TerminationReason::Rejected(code))));
        } else {
            self.act(Action::SendResponse(response));
        }
    }

    /// Send a BYE to terminate the dialog.
    ///
    /// Nothing is sent unless the dialog is confirmed. Where the remote target cannot be
    /// addressed there is no BYE either, but the dialog is left all the same.
    pub fn send_bye(&mut self) -> (r: Option<SipRequest>)
        requires
            old(self)@.info.state == DialogState::Confirmed ==> old(self)@.info.local_seq
                < u32::MAX,
        ensures
            r is Some == (old(self)@.info.state == DialogState::Confirmed && addressable(
                old(self)@.info.remote_target,
            )),
            match r {
                Some(bye) => (exists|id: Seq<char>| #[trigger]
                    identifier(id) && bye@ == old(self)@.bye(id)) && final(self)@
                    == old(self)@.leaving().acting(ActionView::SendRequest(bye@)),
                None => final(self)@ == if old(self)@.info.state == DialogState::Confirmed {
                    old(self)@.leaving()
                } else {
                    old(self)@
                },
            },
    {
        if self.info.state != DialogState::Confirmed {
            return None;
        }
        self.info.state = DialogState::Terminating;
        let cseq: u32 = self.info.next_local_seq();
        assert(self@ =~= old(self)@.leaving());
        let id: String = new_identifier();
        let branch: String = concat("z9hG4bK", id.as_str());
        match self.build_in_dialog_request(Method::Bye, cseq, branch.as_str()) {
            Some(bye) => {
                assert(bye@ == old(self)@.bye(id@));
                self.act(Action::SendRequest(bye.clone()));
                Some(bye)
            },
            None => None,
        }
    }

    /// Build an in-dialog request.
    pub fn build_in_dialog_request(&self, method: Method, cseq: u32, branch: &str) -> (r: Option<
        SipRequest,
    >)
        ensures
            match r {
                Some(request) => addressable(self@.info.remote_target) && request@
                    == self@.in_dialog_request(method, cseq, branch@),
                None => !addressable(self@.info.remote_target),
            },
    {
        if !is_addressable(self.info.remote_target.as_str()) {
            return None;
        }
        let mut vias: Vec<String> = Vec::new();
        vias.push(via_value("0.0.0.0", 5060, "UDP", branch));
        let request = SipRequest {
            method,
            uri: self.info.remote_target.clone(),
            vias,
            from_uri: Some(self.info.local_uri.clone()),
            from_tag: Some(self.info.id.local_tag.clone()),
            to_uri: Some(self.info.remote_uri.clone()),
            to_tag: Some(self.info.id.remote_tag.clone()),
            call_id: Some(self.info.id.call_id.clone()),
            cseq: Some(cseq),
            contact_uri: None,
            record_routes: Vec::new(),
            body: Vec::new(),
        };
        assert(request@ =~= self@.in_dialog_request(method, cseq, branch@));
        Some(request)
    }

    /// Drain pending actions.
    pub fn poll_actions(&mut self) -> (r: Vec<Action>)
        ensures
            r@ == old(self).actions@,
            final(self)@ == (DialogView { actions: Seq::empty(), ..old(self)@ }),
    {
        let mut out: Vec<Action> = Vec::new();
        std::mem::swap(&mut out, &mut self.actions);
        assert(self@ =~= (DialogView { actions: Seq::empty(), ..old(self)@ }));
        out
    }

    /// Mark ACK as sent (UAC side).
    pub fn ack_sent(&mut self)
        ensures
            final(self)@ == (DialogView { ack_sent: true, ..old(self)@ }),
    {
        self.ack_sent = true;
    }

    /// Check if ACK has been sent/received.
    pub fn is_ack_complete(&self) -> (r: bool)
        ensures
            r == self@.ack_sent,
    {
        self.ack_sent
    }
}

/// A dialog only moves forward, from early over confirmed and terminating to terminated, whatever
/// arrives and whatever is sent. So a terminated dialog stays so. Of the requests, a BYE terminates
/// it from every state, a CANCEL an early one of the side that was called and no other, and one
/// whose CSeq cannot be read changes nothing.
pub proof fn lemma_forward_only(
    d: DialogView,
    request: RequestView,
    response: ResponseView,
)
    ensures
        d.responded(response).info.state.stage() >= d.info.state.stage(),
        d.requested(request).info.state.stage() >= d.info.state.stage(),
        d.answered(response).info.state.stage() >= d.info.state.stage(),
        d.info.state == DialogState::Confirmed ==> d.leaving().info.state.stage()
            >= d.info.state.stage(),
        request.cseq is Some && request.method == Method::Bye ==> d.requested(request).info.state
            == DialogState::Terminated,
        request.cseq is Some && request.method == Method::Cancel ==> d.requested(request).info.state
            == if d.info.state == DialogState::Early && d.role == Role::Uas {
            DialogState::Terminated
        } else {
            d.info.state
        },
        request.cseq is None ==> d.requested(request) == d,
{
}

/// A dialog keeps its role and the INVITE that began it, and what it has to do is only ever added
/// to.
pub proof fn lemma_keeps_origin(
    d: DialogView,
    request: RequestView,
    response: ResponseView,
)
    ensures
        d.responded(response).role == d.role,
        d.requested(request).role == d.role,
        d.answered(response).role == d.role,
        d.responded(response).invite == d.invite,
        d.requested(request).invite == d.invite,
        d.answered(response).invite == d.invite,
        d.actions.is_prefix_of(d.responded(response).actions),
        d.actions.is_prefix_of(d.requested(request).actions),
        d.actions.is_prefix_of(d.answered(response).actions),
{
}

/// Both sides of a call that one INVITE and its 2xx establish know the dialog by the same
/// Call-ID and the same two tags, each with its own tag as the local one.
pub proof fn lemma_both_sides(
    invite: RequestView,
    response: ResponseView,
    local_tag: Seq<char>,
    caller: InfoView,
    callee: InfoView,
    state: DialogState,
    other: DialogState,
)
    requires
        InfoView::of_response(invite, response, state) == Some(caller),
        InfoView::of_invite(invite, local_tag, other) == Some(callee),
        response.call_id == invite.call_id,
        response.from_tag == invite.from_tag,
        response.to_tag == Some(local_tag),
    ensures
        caller.id == callee.id.mirrored(),
        callee.id == caller.id.mirrored(),
        caller.local_uri == callee.remote_uri,
        caller.remote_uri == callee.local_uri,
        caller.secure == callee.secure,
{
}

/// A re-INVITE that is accepted refreshes the remote target with its Contact, is told once, and
/// leaves the dialog confirmed. A BYE then goes to the new target.
pub proof fn lemma_target_refreshed(
    d: DialogView,
    request: RequestView,
    seq: u32,
    contact: Seq<char>,
    id: Seq<char>,
)
    requires
        d.info.state == DialogState::Confirmed,
        request.method == Method::Invite,
        request.cseq == Some(seq),
        d.info.accepts_remote_seq(seq),
        request.contact_uri == Some(contact),
    ensures
        d.requested(request).info == (InfoView {
            remote_seq: Some(seq),
            remote_target: contact,
            ..d.info
        }),
        d.requested(request).actions == d.actions.push(
            ActionView::Event(EventView::ReInvite(request)),
        ),
        d.requested(request).bye(id).uri == contact,
{
}

/// A BYE that one side sends is found by the identifier that the other side has for the dialog.
pub proof fn lemma_bye_reaches(d: DialogView, id: Seq<char>)
    ensures
        IdView::of_request(d.bye(id)) == Some(d.info.id.mirrored()),
{
}

} // verus!
