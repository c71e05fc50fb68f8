//! Dialog manager for tracking active dialogs.
//!
//! Routes messages to the appropriate dialog and handles dialog lifecycle.

use super::invite::{
    action_views, Action, ActionView, DialogView, Event, EventView, InviteDialog, ReasonView,
    TerminationReason,
};
use super::state::{DialogId, DialogState, IdView, InfoView};
use crate::sip::{
    addressable, identifier, new_identifier, Method, RequestView, ResponseView, SipRequest,
    SipResponse,
};
use crate::table::{lemma_map_of, Table, TableKey};
use vstd::prelude::*;

verus! {

/// Handle to a dialog in the manager.
#[derive(Debug, Clone, Copy, PartialEq, Eq, Hash, Structural)]
pub struct DialogHandle(pub u64);

impl View for DialogHandle {
    type V = DialogHandle;

    open spec fn view(&self) -> DialogHandle {
        *self
    }
}

impl TableKey for DialogHandle {
    fn same(&self, other: &Self) -> (r: bool) {
        self.0 == other.0
    }
}

/// What a response to a pending INVITE is matched by.
#[derive(Debug)]
pub struct PendingKey {
    pub call_id: String,
    pub from_tag: String,
}

impl View for PendingKey {
    type V = (Seq<char>, Seq<char>);

    open spec fn view(&self) -> (Seq<char>, Seq<char>) {
        (self.call_id@, self.from_tag@)
    }
}

impl TableKey for PendingKey {
    fn same(&self, other: &Self) -> (r: bool) {
        self.call_id == other.call_id && self.from_tag == other.from_tag
    }
}

/// Output action from the dialog manager.
#[derive(Debug, Clone)]
pub enum ManagerAction {
    /// Send a request.
    SendRequest(SipRequest),
    /// Send a response.
    SendResponse(SipResponse),
    /// Dialog event.
    Event(DialogHandle, ManagerEvent),
}

/// Event from the dialog manager.
#[derive(Debug, Clone)]
pub enum ManagerEvent {
    /// New incoming INVITE - dialog created in early state.
    IncomingInvite(SipRequest),
    /// Dialog established.
    Established,
    /// Provisional response received.
    Provisional(SipResponse),
    /// Session progress with early media.
    SessionProgress(SipResponse),
    /// Re-INVITE received.
    ReInvite(SipRequest),
    /// BYE received.
    ByeReceived(SipRequest),
    /// Dialog terminated.
    Terminated(TerminationReason),
}

/// What an action of the manager says.
pub enum ManagerActionView {
    SendRequest(RequestView),
    SendResponse(ResponseView),
    Event(DialogHandle, ManagerEventView),
}

/// What an event of the manager says.
pub enum ManagerEventView {
    IncomingInvite(RequestView),
    Established,
    Provisional(ResponseView),
    SessionProgress(ResponseView),
    ReInvite(RequestView),
    ByeReceived(RequestView),
    Terminated(ReasonView),
}

impl View for ManagerEvent {
    type V = ManagerEventView;

    open spec fn view(&self) -> ManagerEventView {
        match self {
            ManagerEvent::IncomingInvite(r) => ManagerEventView::IncomingInvite(r@),
            ManagerEvent::Established => ManagerEventView::Established,
            ManagerEvent::Provisional(r) => ManagerEventView::Provisional(r@),
            ManagerEvent::SessionProgress(r) => ManagerEventView::SessionProgress(r@),
            ManagerEvent::ReInvite(r) => ManagerEventView::ReInvite(r@),
            ManagerEvent::ByeReceived(r) => ManagerEventView::ByeReceived(r@),
            ManagerEvent::Terminated(reason) => ManagerEventView::Terminated(reason@),
        }
    }
}

impl View for ManagerAction {
    type V = ManagerActionView;

    open spec fn view(&self) -> ManagerActionView {
        match self {
            ManagerAction::SendRequest(r) => ManagerActionView::SendRequest(r@),
            ManagerAction::SendResponse(r) => ManagerActionView::SendResponse(r@),
            ManagerAction::Event(h, e) => ManagerActionView::Event(*h, e@),
        }
    }
}

impl ManagerActionView {
    /// What an action of a dialog becomes: an event names the dialog that it is of.
    pub open spec fn of_action(handle: DialogHandle, action: ActionView) -> ManagerActionView {
        match action {
            ActionView::SendRequest(r) => ManagerActionView::SendRequest(r),
            ActionView::SendResponse(r) => ManagerActionView::SendResponse(r),
            ActionView::Event(event) => ManagerActionView::Event(
                handle,
                match event {
                    EventView::Established => ManagerEventView::Established,
                    EventView::Provisional(r) => ManagerEventView::Provisional(r),
                    EventView::SessionProgress(r) => ManagerEventView::SessionProgress(r),
                    EventView::ReInvite(r) => ManagerEventView::ReInvite(r),
                    EventView::ByeReceived(r) => ManagerEventView::ByeReceived(r),
                    EventView::Terminated(reason) => ManagerEventView::Terminated(reason),
                },
            ),
        }
    }
}

/// What the actions of a dialog become.
pub open spec fn collected(handle: DialogHandle, actions: Seq<ActionView>) -> Seq<
    ManagerActionView,
> {
    actions.map_values(|a: ActionView| ManagerActionView::of_action(handle, a))
}

fn manager_action(handle: DialogHandle, action: Action) -> (r: ManagerAction)
    ensures
        r@ == ManagerActionView::of_action(handle, action@),
{
    match action {
        Action::SendRequest(req) => ManagerAction::SendRequest(req),
        Action::SendResponse(resp) => ManagerAction::SendResponse(resp),
        Action::Event(event) => {
            let event: ManagerEvent = match event {
                Event::Established => ManagerEvent::Established,
                Event::Provisional(resp) => ManagerEvent::Provisional(resp),
                Event::SessionProgress(resp) => ManagerEvent::SessionProgress(resp),
                Event::ReInvite(req) => ManagerEvent::ReInvite(req),
                Event::ByeReceived(req) => ManagerEvent::ByeReceived(req),
                Event::Terminated(reason) => ManagerEvent::Terminated(reason),
            };
            ManagerAction::Event(handle, event)
        },
    }
}

/// Dialog manager (Sans-IO).
#[derive(Debug)]
pub struct DialogManager {
    /// Next handle ID.
    pub next_handle: u64,
    /// Active dialogs.
    pub dialogs: Table<DialogHandle, InviteDialog>,
    /// Dialog ID to handle mapping.
    pub id_to_handle: Table<DialogId, DialogHandle>,
    /// Pending (early) dialogs by Call-ID + From-tag (for matching responses).
    pub pending_uac: Table<PendingKey, DialogHandle>,
    /// Pending actions.
    pub actions: Vec<ManagerAction>,
    /// Local contact URI.
    pub local_contact: String,
}

/// What a manager holds.
#[verifier::ext_equal]
pub struct ManagerView {
    pub next_handle: u64,
    pub dialogs: Map<DialogHandle, DialogView>,
    pub ids: Map<IdView, DialogHandle>,
    pub pending: Map<(Seq<char>, Seq<char>), DialogHandle>,
    pub actions: Seq<ManagerActionView>,
}

impl View for DialogManager {
    type V = ManagerView;

    open spec fn view(&self) -> ManagerView {
        ManagerView {
            next_handle: self.next_handle,
            dialogs: self.dialogs@.map_values(|d: InviteDialog| d@),
            ids: self.id_to_handle@,
            pending: self.pending_uac@,
            actions: self.actions@.map_values(|a: ManagerAction| a@),
        }
    }
}

impl ManagerView {
    /// Every handle in use was given out before the next one.
    pub open spec fn handles_below(self) -> bool {
        &&& forall|h: DialogHandle| #[trigger]
            self.dialogs.contains_key(h) ==> h.0 < self.next_handle
        &&& forall|id: IdView| #[trigger] self.ids.contains_key(id) ==> self.ids[id].0
            < self.next_handle
        &&& forall|k: (Seq<char>, Seq<char>)| #[trigger]
            self.pending.contains_key(k) ==> self.pending[k].0 < self.next_handle
    }

    /// The handle to be given out next.
    pub open spec fn next(self) -> DialogHandle {
        DialogHandle(self.next_handle)
    }

    /// The manager once the next handle is given out.
    pub open spec fn advanced(self) -> ManagerView {
        ManagerView { next_handle: (self.next_handle + 1) as u64, ..self }
    }

    /// The manager with a dialog put back, and with what the dialog has to do taken over.
    pub open spec fn with_dialog(self, handle: DialogHandle, dialog: DialogView) -> ManagerView {
        ManagerView {
            dialogs: self.dialogs.insert(
                handle,
                DialogView { actions: Seq::empty(), ..dialog },
            ),
            actions: self.actions + collected(handle, dialog.actions),
            ..self
        }
    }

    /// The manager with a dialog known by an identifier.
    pub open spec fn knowing(self, id: IdView, handle: DialogHandle) -> ManagerView {
        ManagerView { ids: self.ids.insert(id, handle), ..self }
    }

    /// The dialog that a call begins, and its handle. Only an INVITE begins one; one without
    /// Call-ID or From tag uses up a handle for nothing.
    pub open spec fn calling(self, invite: RequestView) -> (ManagerView, Option<DialogHandle>) {
        if invite.method != Method::Invite {
            (self, None)
        } else {
            match (invite.call_id, invite.from_tag) {
                (Some(call_id), Some(from_tag)) => (
                    ManagerView {
                        dialogs: self.dialogs.insert(self.next(), DialogView::calling(invite)),
                        pending: self.pending.insert((call_id, from_tag), self.next()),
                        ..self.advanced()
                    },
                    Some(self.next()),
                ),
                _ => (self.advanced(), None),
            }
        }
    }

    /// The dialog that an incoming INVITE begins under a local tag, and its handle. One that lacks
    /// something uses up a handle for nothing.
    pub open spec fn called(self, request: RequestView, local_tag: Seq<char>) -> (
        ManagerView,
        Option<DialogHandle>,
    ) {
        match DialogView::called(request, local_tag) {
            Some(dialog) => (
                ManagerView {
                    dialogs: self.dialogs.insert(self.next(), dialog),
                    ids: self.ids.insert(dialog.info.id, self.next()),
                    actions: self.actions.push(
                        ManagerActionView::Event(
                            self.next(),
                            ManagerEventView::IncomingInvite(request),
                        ),
                    ),
                    ..self.advanced()
                },
                Some(self.next()),
            ),
            None => (self.advanced(), None),
        }
    }

    /// The dialog to which a request belongs.
    pub open spec fn handle_of_request(self, request: RequestView) -> Option<DialogHandle> {
        match IdView::of_request(request) {
            Some(id) => if self.ids.contains_key(id) {
                Some(self.ids[id])
            } else {
                None
            },
            None => None,
        }
    }

    /// The manager after a request within a dialog.
    pub open spec fn requested(self, handle: DialogHandle, request: RequestView) -> ManagerView {
        if self.dialogs.contains_key(handle) {
            self.with_dialog(handle, self.dialogs[handle].requested(request))
        } else {
            self
        }
    }

    /// The dialog to which a response belongs: a pending one of its Call-ID and From tag, else one
    /// that its To tag completes.
    pub open spec fn handle_of_response(self, response: ResponseView) -> Option<DialogHandle> {
        match (response.call_id, response.from_tag) {
            (Some(call_id), Some(from_tag)) => if self.pending.contains_key((call_id, from_tag)) {
                Some(self.pending[(call_id, from_tag)])
            } else {
                match IdView::of_response(response) {
                    Some(id) => if self.ids.contains_key(id) {
                        Some(self.ids[id])
                    } else {
                        None
                    },
                    None => None,
                }
            },
            _ => None,
        }
    }

    /// The manager after a response to a dialog. One that it confirms is no longer pending and is
    /// known by its identifier.
    pub open spec fn responded(self, handle: DialogHandle, response: ResponseView) -> ManagerView {
        if self.dialogs.contains_key(handle) {
            let before = self.dialogs[handle];
            let after = before.responded(response);
            let known = if before.info.state == DialogState::Early && after.info.state
                == DialogState::Confirmed {
                ManagerView {
                    pending: self.pending.remove(
                        (response.call_id->Some_0, response.from_tag->Some_0),
                    ),
                    ..self.knowing(after.info.id, handle)
                }
            } else {
                self
            };
            known.with_dialog(handle, after)
        } else {
            self
        }
    }

    /// The manager after a response of our own within a dialog. One that it confirms is known by
    /// its identifier.
    pub open spec fn answered(self, handle: DialogHandle, response: ResponseView) -> ManagerView {
        if self.dialogs.contains_key(handle) {
            let before = self.dialogs[handle];
            let after = before.answered(response);
            let known = if before.info.state == DialogState::Early && after.info.state
                == DialogState::Confirmed {
                self.knowing(after.info.id, handle)
            } else {
                self
            };
            known.with_dialog(handle, after)
        } else {
            self
        }
    }

    /// Whether a dialog is terminated.
    pub open spec fn over(self, handle: DialogHandle) -> bool {
        self.dialogs.contains_key(handle) && self.dialogs[handle].info.state
            == DialogState::Terminated
    }

    /// Whether a terminated dialog goes by an identifier.
    pub open spec fn obsolete(self, id: IdView) -> bool {
        exists|h: DialogHandle| #[trigger] self.over(h) && self.dialogs[h].info.id == id
    }

    /// The manager without its terminated dialogs and without their identifiers.
    pub open spec fn cleaned(self) -> ManagerView {
        ManagerView {
            dialogs: Map::new(
                |h: DialogHandle| self.dialogs.contains_key(h) && !self.over(h),
                |h: DialogHandle| self.dialogs[h],
            ),
            ids: Map::new(
                |id: IdView| self.ids.contains_key(id) && !self.obsolete(id),
                |id: IdView| self.ids[id],
            ),
            ..self
        }
    }
}

impl DialogManager {
    /// The tables hold one entry for a key, and every handle in use was given out before.
    pub open spec fn wf(self) -> bool {
        &&& self.dialogs.wf()
        &&& self.id_to_handle.wf()
        &&& self.pending_uac.wf()
        &&& self@.handles_below()
    }

    /// Create a new dialog manager.
    pub fn new(local_contact: &str) -> (r: Self)
        ensures
            r.wf(),
            r@ == (ManagerView {
                next_handle: 1,
                dialogs: Map::empty(),
                ids: Map::empty(),
                pending: Map::empty(),
                actions: Seq::empty(),
            }),
            r.local_contact@ == local_contact@,
    {
        let r = DialogManager {
            next_handle: 1,
            dialogs: Table::new(),
            id_to_handle: Table::new(),
            pending_uac: Table::new(),
            actions: Vec::new(),
            local_contact: local_contact.to_owned(),
        };
        assert(r@.dialogs =~= Map::empty());
        assert(r@.actions =~= Seq::empty());
        r
    }

    /// Create a new outgoing dialog (UAC).
    ///
    /// Returns the handle of the dialog.
    pub fn create_dialog(&mut self, invite: SipRequest) -> (r: Option<DialogHandle>)
        requires
            old(self).wf(),
            invite@.method == Method::Invite ==> old(self).next_handle < u64::MAX,
        ensures
            final(self).wf(),
            (final(self)@, r) == old(self)@.calling(invite@),
            final(self).local_contact == old(self).local_contact,
    {
        if invite.method != Method::Invite {
            return None;
        }
        let handle: DialogHandle = self.alloc_handle();
        let key: PendingKey = match (&invite.call_id, &invite.from_tag) {
            (Some(call_id), Some(from_tag)) => PendingKey {
                call_id: call_id.clone(),
                from_tag: from_tag.clone(),
            },
            _ => return None,
        };
        self.pending_uac.insert(key, handle);
        let dialog: InviteDialog = InviteDialog::new_uac(invite);
        self.dialogs.insert(handle, dialog);
        assert(self@.dialogs =~= old(self)@.dialogs.insert(handle, dialog@));
        assert(self@ =~= old(self)@.calling(invite@).0);
        Some(handle)
    }

    /// Handle an incoming request.
    ///
    /// One of a known dialog goes to the dialog. Another INVITE begins a dialog under a fresh
    /// local tag. Anything else is passed over.
    pub fn handle_request(&mut self, request: SipRequest) -> (r: Option<DialogHandle>)
        requires
            old(self).wf(),
            request@.method == Method::Invite && old(self)@.handle_of_request(request@) is None
                ==> old(self).next_handle < u64::MAX,
        ensures
            final(self).wf(),
            final(self).local_contact == old(self).local_contact,
            match old(self)@.handle_of_request(request@) {
                Some(h) => r == Some(h) && final(self)@ == old(self)@.requested(h, request@),
                None => if request@.method == Method::Invite {
                    exists|tag: Seq<char>| #[trigger]
                        identifier(tag) && (final(self)@, r) == old(self)@.called(request@, tag)
                } else {
                    r is None && final(self)@ == old(self)@
                },
            },
    {
        match self.find_dialog_for_request(&request) {
            Some(handle) => {
                match self.take_dialog(handle) {
                    Some(mut dialog) => {
                        dialog.handle_request(request);
                        self.put_dialog(handle, dialog);
                        assert(self@.dialogs =~= old(self)@.requested(handle, request@).dialogs);
                    },
                    None => {},
                }
                Some(handle)
            },
            None => {
                if request.method == Method::Invite {
                    let tag: String = new_identifier();
                    self.create_uas_dialog(request, tag.as_str())
                } else {
                    None
                }
            },
        }
    }

    /// Handle an incoming response (for UAC dialogs).
    pub fn handle_response(&mut self, response: SipResponse) -> (r: Option<DialogHandle>)
        requires
            old(self).wf(),
        ensures
            final(self).wf(),
            final(self).local_contact == old(self).local_contact,
            r == old(self)@.handle_of_response(response@),
            final(self)@ == match r {
                Some(h) => old(self)@.responded(h, response@),
                None => old(self)@,
            },
    {
        let key: PendingKey = match (&response.call_id, &response.from_tag) {
            (Some(call_id), Some(from_tag)) => PendingKey {
                call_id: call_id.clone(),
                from_tag: from_tag.clone(),
            },
            _ => return None,
        };
        let handle: DialogHandle = match self.pending_uac.get(&key) {
            Some(h) => *h,
            None => {
                // Try established dialog
                match DialogId::from_response_uac(&response) {
                    Some(id) => match self.id_to_handle.get(&id) {
                        Some(h) => *h,
                        None => return None,
                    },
                    None => return None,
                }
            },
        };
        match self.take_dialog(handle) {
            Some(mut dialog) => {
                let old_state: DialogState = dialog.state();
                dialog.handle_response(response);
                // If dialog transitioned to confirmed, update mappings
                if old_state == DialogState::Early && dialog.state() == DialogState::Confirmed {
                    self.id_to_handle.insert(dialog.id().clone(), handle);
                    let _ = self.pending_uac.take(&key);
                }
                self.put_dialog(handle, dialog);
                assert(self@.dialogs =~= old(self)@.responded(handle, response@).dialogs);
            },
            None => {},
        }
        Some(handle)
    }

    /// Send a response for a dialog (UAS).
    pub fn send_response(&mut self, handle: DialogHandle, response: SipResponse)
        requires
            old(self).wf(),
        ensures
            final(self).wf(),
            final(self).local_contact == old(self).local_contact,
            final(self)@ == old(self)@.answered(handle, response@),
    {
        match self.take_dialog(handle) {
            Some(mut dialog) => {
                let old_state: DialogState = dialog.state();
                dialog.send_response(response);
                // If dialog transitioned to confirmed, update ID mapping
                if old_state == DialogState::Early && dialog.state() == DialogState::Confirmed {
                    self.id_to_handle.insert(dialog.id().clone(), handle);
                }
                self.put_dialog(handle, dialog);
                assert(self@.dialogs =~= old(self)@.answered(handle, response@).dialogs);
            },
            None => {},
        }
    }

    /// Send a BYE to terminate a dialog.
    pub fn send_bye(&mut self, handle: DialogHandle) -> (r: Option<SipRequest>)
        requires
            old(self).wf(),
            old(self)@.dialogs.contains_key(handle) && old(self)@.dialogs[handle].info.state
                == DialogState::Confirmed ==> old(self)@.dialogs[handle].info.local_seq < u32::MAX,
        ensures
            final(self).wf(),
            final(self).local_contact == old(self).local_contact,
            !old(self)@.dialogs.contains_key(handle) ==> r is None && final(self)@ == old(self)@,
            old(self)@.dialogs.contains_key(handle) ==> {
                let d = old(self)@.dialogs[handle];
                &&& r is Some == (d.info.state == DialogState::Confirmed && addressable(
                    d.info.remote_target,
                ))
                &&& match r {
                    Some(bye) => (exists|id: Seq<char>| #[trigger]
                        identifier(id) && bye@ == d.bye(id)) && final(self)@
                        == old(self)@.with_dialog(
                        handle,
                        d.leaving().acting(ActionView::SendRequest(bye@)),
                    ),
                    None => final(self)@ == old(self)@.with_dialog(
                        handle,
                        if d.info.state == DialogState::Confirmed {
                            d.leaving()
                        } else {
                            d
                        },
                    ),
                }
            },
    {
        match self.take_dialog(handle) {
            Some(mut dialog) => {
                let bye: Option<SipRequest> = dialog.send_bye();
                let ghost after = dialog@;
                self.put_dialog(handle, dialog);
                assert(self@.dialogs =~= old(self)@.with_dialog(handle, after).dialogs);
                bye
            },
            None => None,
        }
    }

    /// Mark ACK as sent for a dialog.
    pub fn ack_sent(&mut self, handle: DialogHandle)
        requires
            old(self).wf(),
        ensures
            final(self).wf(),
            final(self).local_contact == old(self).local_contact,
            final(self)@ == if old(self)@.dialogs.contains_key(handle) {
                ManagerView {
                    dialogs: old(self)@.dialogs.insert(
                        handle,
                        DialogView { ack_sent: true, ..old(self)@.dialogs[handle] },
                    ),
                    ..old(self)@
                }
            } else {
                old(self)@
            },
    {
        match self.take_dialog(handle) {
            Some(mut dialog) => {
                dialog.ack_sent();
                let ghost rest = self@.dialogs;
                self.dialogs.insert(handle, dialog);
                assert(self@.dialogs =~= rest.insert(handle, dialog@));
                assert(self@.dialogs =~= old(self)@.dialogs.insert(handle, dialog@));
            },
            None => {},
        }
    }

    /// Get dialog info.
    pub fn dialog(&self, handle: DialogHandle) -> (r: Option<&InviteDialog>)
        requires
            self.wf(),
        ensures
            match r {
                Some(d) => self@.dialogs.contains_key(handle) && d@ == self@.dialogs[handle],
                None => !self@.dialogs.contains_key(handle),
            },
    {
        self.dialogs.get(&handle)
    }

    /// Drain pending actions.
    pub fn poll_actions(&mut self) -> (r: Vec<ManagerAction>)
        ensures
            r@ == old(self).actions@,
            old(self).wf() ==> final(self).wf(),
            final(self).local_contact == old(self).local_contact,
            final(self)@ == (ManagerView { actions: Seq::empty(), ..old(self)@ }),
    {
        let mut out: Vec<ManagerAction> = Vec::new();
        std::mem::swap(&mut out, &mut self.actions);
        assert(self@.actions =~= Seq::empty());
        out
    }

    /// Remove terminated dialogs.
    pub fn cleanup_terminated(&mut self)
        requires
            old(self).wf(),
        ensures
            final(self).wf(),
            final(self).local_contact == old(self).local_contact,
            final(self)@ == old(self)@.cleaned(),
    {
        let ghost before = *self;
        let mut i: usize = 0;
        while i < self.dialogs.entries.len()
            invariant
                before == *old(self),
                self.dialogs.wf(),
                self.id_to_handle.wf(),
                *self == (DialogManager {
                    dialogs: self.dialogs,
                    id_to_handle: self.id_to_handle,
                    ..before
                }),
                i <= self.dialogs.entries@.len(),
                forall|j: int|
                    0 <= j < i ==> (#[trigger] self.dialogs.entries@[j]).1@.info.state
                        != DialogState::Terminated,
                forall|h: DialogHandle| #[trigger]
                    self.dialogs@.contains_key(h) ==> before.dialogs@.contains_key(h)
                        && before.dialogs@[h] == self.dialogs@[h],
                forall|h: DialogHandle|
                    #![trigger before@.over(h)]
                    before.dialogs@.contains_key(h) && !self.dialogs@.contains_key(h)
                        ==> before@.over(h) && !self.id_to_handle@.contains_key(
                        before.dialogs@[h]@.info.id,
                    ),
                forall|id: IdView| #[trigger]
                    self.id_to_handle@.contains_key(id) ==> before.id_to_handle@.contains_key(id)
                        && before.id_to_handle@[id] == self.id_to_handle@[id],
                forall|id: IdView| #[trigger]
                    before.id_to_handle@.contains_key(id) && !self.id_to_handle@.contains_key(id)
                        ==> before@.obsolete(id),
            decreases self.dialogs.entries@.len() - i,
        {
            if self.dialogs.entries[i].1.is_terminated() {
                let ghost ids = self.id_to_handle@;
                let ghost held = self.dialogs@;
                let (handle, dialog): (DialogHandle, InviteDialog) = self.dialogs.take_at(i);
                let _ = self.id_to_handle.take(dialog.id());
                proof {
                    assert(before.dialogs@[handle] == dialog);
                    assert(before@.dialogs[handle] == dialog@);
                    assert(before@.over(handle));
                    assert forall|h: DialogHandle|
                        #![trigger before@.over(h)]
                        before.dialogs@.contains_key(h) && !self.dialogs@.contains_key(
                            h,
                        ) implies before@.over(h) && !self.id_to_handle@.contains_key(
                        before.dialogs@[h]@.info.id,
                    ) by {
                        if h != handle {
                            assert(!held.contains_key(h));
                            assert(before@.over(h));
                            assert(!ids.contains_key(before.dialogs@[h]@.info.id));
                        } else {
                            assert(before.dialogs@[h]@.info.id == dialog.info.id@);
                            assert(!self.id_to_handle@.contains_key(dialog.info.id@));
                        }
                    }
                    assert forall|id: IdView| #[trigger]
                        before.id_to_handle@.contains_key(id) && !self.id_to_handle@.contains_key(
                            id,
                        ) implies before@.obsolete(id) by {
                        if ids.contains_key(id) {
                            assert(id == dialog@.info.id);
                        }
                    }
                }
            } else {
                i = i + 1;
            }
        }
        proof {
            lemma_map_of(self.dialogs.entries@);
            let goal = before@.cleaned();
            assert forall|h: DialogHandle| self@.dialogs.contains_key(h)
                == #[trigger] goal.dialogs.contains_key(h) by {
                if self.dialogs@.contains_key(h) {
                    let j = choose|j: int|
                        0 <= j < self.dialogs.entries@.len() && (#[trigger] self.dialogs.entries@[j]).0@
                            == h;
                    assert(self.dialogs@[h] == self.dialogs.entries@[j].1);
                    assert(!before@.over(h));
                } else if before.dialogs@.contains_key(h) {
                    assert(before@.over(h));
                }
            }
            assert(self@.dialogs =~= goal.dialogs);
            assert forall|id: IdView| self@.ids.contains_key(id) == #[trigger] goal.ids.contains_key(
                id,
            ) by {
                if self.id_to_handle@.contains_key(id) && before@.obsolete(id) {
                    let h = choose|h: DialogHandle| #[trigger]
                        before@.over(h) && before@.dialogs[h].info.id == id;
                    assert(!goal.dialogs.contains_key(h));
                    assert(!self@.dialogs.contains_key(h));
                    assert(!self.dialogs@.contains_key(h));
                }
            }
            assert(self@.ids =~= goal.ids);
        }
    }

    fn alloc_handle(&mut self) -> (r: DialogHandle)
        requires
            old(self).wf(),
            old(self).next_handle < u64::MAX,
        ensures
            r == old(self)@.next(),
            *final(self) == (DialogManager {
                next_handle: (old(self).next_handle + 1) as u64,
                ..*old(self)
            }),
            final(self)@ == old(self)@.advanced(),
            final(self).wf(),
    {
        let handle = DialogHandle(self.next_handle);
        self.next_handle = self.next_handle + 1;
        handle
    }

    /// Begins a dialog for an incoming INVITE, under a local tag.
    pub fn create_uas_dialog(&mut self, request: SipRequest, local_tag: &str) -> (r: Option<
        DialogHandle,
    >)
        requires
            old(self).wf(),
            old(self).next_handle < u64::MAX,
        ensures
            final(self).wf(),
            final(self).local_contact == old(self).local_contact,
            (final(self)@, r) == old(self)@.called(request@, local_tag@),
    {
        let handle: DialogHandle = self.alloc_handle();
        let copy: SipRequest = request.clone();
        let dialog: InviteDialog = match InviteDialog::new_uas(
            copy,
            local_tag,
            self.local_contact.as_str(),
        ) {
            Some(d) => d,
            None => return None,
        };
        let id: DialogId = dialog.id().clone();
        self.dialogs.insert(handle, dialog);
        self.id_to_handle.insert(id, handle);
        self.actions.push(ManagerAction::Event(handle, ManagerEvent::IncomingInvite(request)));
        assert(self@.dialogs =~= old(self)@.dialogs.insert(handle, dialog@));
        assert(self@ =~= old(self)@.called(request@, local_tag@).0);
        Some(handle)
    }

    fn find_dialog_for_request(&self, request: &SipRequest) -> (r: Option<DialogHandle>)
        requires
            self.wf(),
        ensures
            r == self@.handle_of_request(request@),
    {
        match (&request.call_id, &request.from_tag, &request.to_tag) {
            (Some(call_id), Some(from_tag), Some(to_tag)) => {
                // For an incoming request the remote tag is the From tag and the local tag is
                // the To tag.
                let id: DialogId = DialogId::new(
                    call_id.as_str(),
                    to_tag.as_str(),
                    from_tag.as_str(),
                );
                match self.id_to_handle.get(&id) {
                    Some(h) => Some(*h),
                    None => None,
                }
            },
            _ => None,
        }
    }

    /// Takes over what a dialog has to do.
    pub fn collect_dialog_actions(&mut self, handle: DialogHandle)
        requires
            old(self).wf(),
        ensures
            final(self).wf(),
            final(self).local_contact == old(self).local_contact,
            final(self)@ == if old(self)@.dialogs.contains_key(handle) {
                old(self)@.with_dialog(handle, old(self)@.dialogs[handle])
            } else {
                old(self)@
            },
    {
        match self.take_dialog(handle) {
            Some(dialog) => {
                self.put_dialog(handle, dialog);
                assert(self@.dialogs =~= old(self)@.with_dialog(handle, dialog@).dialogs);
            },
            None => {},
        }
    }

    /// Takes a dialog out.
    fn take_dialog(&mut self, handle: DialogHandle) -> (r: Option<InviteDialog>)
        requires
            old(self).wf(),
        ensures
            final(self).wf(),
            final(self).local_contact == old(self).local_contact,
            final(self)@ == (ManagerView {
                dialogs: old(self)@.dialogs.remove(handle),
                ..old(self)@
            }),
            match r {
                Some(d) => old(self)@.dialogs.contains_key(handle) && d@
                    == old(self)@.dialogs[handle],
                None => !old(self)@.dialogs.contains_key(handle) && final(self)@ == old(self)@,
            },
    {
        let r: Option<InviteDialog> = self.dialogs.take(&handle);
        assert(self@.dialogs =~= old(self)@.dialogs.remove(handle));
        assert(r is None ==> self@.dialogs =~= old(self)@.dialogs);
        r
    }

    /// Puts a dialog back and takes over what it has to do.
    fn put_dialog(&mut self, handle: DialogHandle, dialog: InviteDialog)
        requires
            old(self).wf(),
            handle.0 < old(self).next_handle,
        ensures
            final(self).wf(),
            final(self).local_contact == old(self).local_contact,
            final(self)@ == old(self)@.with_dialog(handle, dialog@),
    {
        let mut dialog: InviteDialog = dialog;
        let ghost given = dialog@;
        let pending: Vec<Action> = dialog.poll_actions();
        self.dialogs.insert(handle, dialog);
        let ghost start = self@.actions;
        let ghost middle = *self;
        let ghost listed = action_views(pending@);
        let ghost mut done: int = 0;
        assert(start + collected(handle, listed.take(0)) =~= start);
        for action in iter: pending
            invariant
                *self == (DialogManager { actions: self.actions, ..middle }),
                iter.seq() == pending@,
                listed == action_views(pending@),
                done == iter.index(),
                self@.actions == start + collected(handle, listed.take(done)),
        {
            assert(action@ == listed[done]);
            let ghost told = self@.actions;
            let next: ManagerAction = manager_action(handle, action);
            self.actions.push(next);
            assert(self@.actions =~= told.push(next@));
            assert(listed.take(done + 1) =~= listed.take(done).push(listed[done]));
            assert(self@.actions =~= start + collected(handle, listed.take(done + 1)));
            proof {
                done = done + 1;
            }
        }
        assert(listed.take(done) =~= listed);
        assert(self@ =~= old(self)@.with_dialog(handle, given));
    }
}

/// Whatever is done, handles in use stay below the next one, so the handle of a new dialog is one
/// that nothing else goes by.
pub proof fn lemma_fresh_handle(m: ManagerView)
    requires
        m.handles_below(),
    ensures
        !m.dialogs.contains_key(m.next()),
        forall|id: IdView| #[trigger] m.ids.contains_key(id) ==> m.ids[id] != m.next(),
        forall|k: (Seq<char>, Seq<char>)| #[trigger]
            m.pending.contains_key(k) ==> m.pending[k] != m.next(),
{
}

/// Once a call is begun, a response with its Call-ID and From tag belongs to it.
pub proof fn lemma_response_reaches(m: ManagerView, invite: RequestView, response: ResponseView)
    requires
        invite.method == Method::Invite,
        invite.call_id is Some,
        invite.from_tag is Some,
        response.call_id == invite.call_id,
        response.from_tag == invite.from_tag,
    ensures
        m.calling(invite).1 == Some(m.next()),
        m.calling(invite).0.handle_of_response(response) == m.calling(invite).1,
{
}

/// Once a call is taken, a request with its Call-ID and both tags belongs to it.
pub proof fn lemma_request_reaches(
    m: ManagerView,
    invite: RequestView,
    local_tag: Seq<char>,
    request: RequestView,
)
    requires
        DialogView::called(invite, local_tag) is Some,
        request.call_id == invite.call_id,
        request.from_tag == invite.from_tag,
        request.to_tag == Some(local_tag),
    ensures
        m.called(invite, local_tag).1 == Some(m.next()),
        m.called(invite, local_tag).0.handle_of_request(request) == m.called(invite, local_tag).1,
{
}

/// A 2xx that makes a dialog complete confirms it, ends its wait for a response, and makes it
/// known to later requests and responses with the same Call-ID and tags.
pub proof fn lemma_confirmed_reaches(
    m: ManagerView,
    handle: DialogHandle,
    response: ResponseView,
    request: RequestView,
)
    requires
        m.dialogs.contains_key(handle),
        m.dialogs[handle].role == super::invite::Role::Uac,
        m.dialogs[handle].info.state == DialogState::Early,
        200 <= response.status_code < 300,
        InfoView::of_response(m.dialogs[handle].invite, response, DialogState::Confirmed) is Some,
        request.call_id == response.call_id,
        request.to_tag == response.from_tag,
        request.from_tag == response.to_tag,
    ensures
        m.responded(handle, response).dialogs[handle].info.state == DialogState::Confirmed,
        m.responded(handle, response).handle_of_request(request) == Some(handle),
        m.responded(handle, response).handle_of_response(response) == Some(handle),
{
}

/// After a clean-up no terminated dialog is left, every other one is as it was, and a second
/// clean-up does nothing.
pub proof fn lemma_cleaned(m: ManagerView)
    ensures
        forall|h: DialogHandle| !m.cleaned().over(h),
        forall|h: DialogHandle| #[trigger]
            m.dialogs.contains_key(h) && !m.over(h) ==> m.cleaned().dialogs.contains_key(h)
                && m.cleaned().dialogs[h] == m.dialogs[h],
        m.cleaned().cleaned() == m.cleaned(),
{
    let c = m.cleaned();
    assert(c.cleaned().dialogs =~= c.dialogs);
    assert(c.cleaned().ids =~= c.ids);
}

} // verus!
