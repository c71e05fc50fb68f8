//! What a table of dialogs promises: which dialog a message reaches, and that no message touches
//! any other.

use crate::dialog::invite::{ActionView, DialogView, EventView, ReasonView, Role};
use crate::dialog::manager::{
    collected, DialogHandle, ManagerActionView, ManagerEventView, ManagerView,
};
use crate::dialog::state::{DialogState, IdView};
use crate::sip::{Method, RequestView, ResponseView};
use vstd::prelude::*;

verus! {

/// The table is as it was but for one dialog.
pub open spec fn others_kept(before: ManagerView, after: ManagerView, handle: DialogHandle) -> bool {
    forall|h: DialogHandle|
        h != handle ==> (#[trigger] after.dialogs.contains_key(h) <==> before.dialogs.contains_key(
            h,
        )) && (before.dialogs.contains_key(h) ==> after.dialogs[h] == before.dialogs[h])
}

/// What was to be done before is still to be done, first and in its order.
pub open spec fn earlier_first(before: ManagerView, after: ManagerView) -> bool {
    &&& after.actions.len() >= before.actions.len()
    &&& forall|i: int|
        0 <= i < before.actions.len() ==> #[trigger] after.actions[i] == before.actions[i]
}

/// An INVITE of our own with a Call-ID and a tag gets a handle that no dialog had, and that alone:
/// an answer with its Call-ID and tag reaches this dialog. No identifier is known yet, nothing is
/// to be sent, and the other dialogs stay.
pub proof fn lemma_call_out(table: ManagerView, invite: RequestView, answer: ResponseView)
    requires
        invite.method == Method::Invite,
        invite.call_id is Some,
        invite.from_tag is Some,
        table.handles_below(),
        table.next_handle < u64::MAX,
        answer.call_id == invite.call_id,
        answer.from_tag == invite.from_tag,
    ensures
        table.calling(invite).1 is Some,
        !table.dialogs.contains_key(table.calling(invite).1->0),
        table.calling(invite).0.handles_below(),
        table.calling(invite).0.dialogs.contains_key(table.calling(invite).1->0),
        table.calling(invite).0.dialogs[table.calling(invite).1->0].invite == invite,
        table.calling(invite).0.dialogs[table.calling(invite).1->0].role == Role::Uac,
        table.calling(invite).0.dialogs[table.calling(invite).1->0].info.state
            == DialogState::Early,
        table.calling(invite).0.handle_of_response(answer) == table.calling(invite).1,
        table.calling(invite).0.ids == table.ids,
        table.calling(invite).0.actions == table.actions,
        table.calling(invite).0.next_handle == table.next_handle + 1,
        others_kept(table, table.calling(invite).0, table.calling(invite).1->0),
{
}

/// Nothing but an INVITE with a Call-ID and a From tag begins a call.
pub proof fn lemma_no_call_out(table: ManagerView, request: RequestView)
    ensures
        table.calling(request).1 is Some <==> request.method == Method::Invite && request.call_id is Some
            && request.from_tag is Some,
        table.calling(request).1 is None ==> table.calling(request).0.dialogs == table.dialogs && table.calling(
            request,
        ).0.ids == table.ids && table.calling(request).0.pending == table.pending && table.calling(
            request,
        ).0.actions == table.actions,
{
}

/// An INVITE that came in gets a handle that no dialog had, and is told to the application under
/// that handle, last; the caller's later requests, which bear the Call-ID and both tags, reach
/// this dialog, and the other dialogs stay.
pub proof fn lemma_call_in(table: ManagerView, invite: RequestView, tag: Seq<char>, later: RequestView)
    requires
        table.called(invite, tag).1 is Some,
        table.handles_below(),
        table.next_handle < u64::MAX,
        later.call_id == invite.call_id,
        later.from_tag == invite.from_tag,
        later.to_tag == Some(tag),
    ensures
        !table.dialogs.contains_key(table.called(invite, tag).1->0),
        table.called(invite, tag).0.handles_below(),
        table.called(invite, tag).0.dialogs.contains_key(table.called(invite, tag).1->0),
        table.called(invite, tag).0.dialogs[table.called(invite, tag).1->0].invite == invite,
        table.called(invite, tag).0.dialogs[table.called(invite, tag).1->0].role == Role::Uas,
        table.called(invite, tag).0.dialogs[table.called(invite, tag).1->0].info.state
            == DialogState::Early,
        table.called(invite, tag).0.dialogs[table.called(invite, tag).1->0].info.id.local_tag
            == tag,
        table.called(invite, tag).0.handle_of_request(later) == table.called(invite, tag).1,
        table.called(invite, tag).0.pending == table.pending,
        table.called(invite, tag).0.next_handle == table.next_handle + 1,
        others_kept(table, table.called(invite, tag).0, table.called(invite, tag).1->0),
        earlier_first(table, table.called(invite, tag).0),
        table.called(invite, tag).0.actions.len() == table.actions.len() + 1,
        table.called(invite, tag).0.actions.last() == ManagerActionView::Event(
            table.called(invite, tag).1->0,
            ManagerEventView::IncomingInvite(invite),
        ),
{
}

/// A request whose Call-ID or tags no dialog has reaches none. A request that lacks one of them
/// reaches none either, whatever is known.
pub proof fn lemma_stray_request(table: ManagerView, request: RequestView)
    ensures
        request.call_id is None || request.from_tag is None || request.to_tag is None
            ==> table.handle_of_request(request) is None,
        request.call_id is Some && request.from_tag is Some && request.to_tag is Some ==> ({
            let id = IdView {
                call_id: request.call_id->0,
                local_tag: request.to_tag->0,
                remote_tag: request.from_tag->0,
            };
            &&& table.ids.contains_key(id) ==> table.handle_of_request(request) == Some(
                table.ids[id],
            )
            &&& !table.ids.contains_key(id) ==> table.handle_of_request(request) is None
        }),
{
}

/// An answer goes to the call that waits for one with its Call-ID and From tag, and only where none
/// waits to the dialog with its Call-ID, its From tag here and its To tag there.
pub proof fn lemma_answer_reaches(table: ManagerView, answer: ResponseView)
    ensures
        answer.call_id is None || answer.from_tag is None ==> table.handle_of_response(
            answer,
        ) is None,
        answer.call_id is Some && answer.from_tag is Some ==> ({
            let key = (answer.call_id->0, answer.from_tag->0);
            let id = IdView {
                call_id: answer.call_id->0,
                local_tag: answer.from_tag->0,
                remote_tag: answer.to_tag->0,
            };
            &&& table.pending.contains_key(key) ==> table.handle_of_response(answer) == Some(
                table.pending[key],
            )
            &&& !table.pending.contains_key(key) && answer.to_tag is None
                ==> table.handle_of_response(answer) is None
            &&& !table.pending.contains_key(key) && answer.to_tag is Some
                && table.ids.contains_key(id) ==> table.handle_of_response(answer) == Some(
                table.ids[id],
            )
            &&& !table.pending.contains_key(key) && answer.to_tag is Some
                && !table.ids.contains_key(id) ==> table.handle_of_response(answer) is None
        }),
{
}

/// A BYE ends the dialog that it reaches, and that one alone: the application is told of the BYE
/// and then of the end, both under the dialog's handle and after all that it was told before.
pub proof fn lemma_bye_in(table: ManagerView, handle: DialogHandle, bye: RequestView)
    requires
        table.dialogs.contains_key(handle),
        table.dialogs[handle].actions.len() == 0,
        bye.method == Method::Bye,
        bye.cseq is Some,
    ensures
        table.requested(handle, bye).dialogs.contains_key(handle),
        table.requested(handle, bye).dialogs[handle].info.state == DialogState::Terminated,
        table.requested(handle, bye).dialogs[handle].actions.len() == 0,
        table.requested(handle, bye).ids == table.ids,
        table.requested(handle, bye).pending == table.pending,
        table.requested(handle, bye).next_handle == table.next_handle,
        others_kept(table, table.requested(handle, bye), handle),
        earlier_first(table, table.requested(handle, bye)),
        table.requested(handle, bye).actions.len() == table.actions.len() + 2,
        table.requested(handle, bye).actions[table.actions.len() as int]
            == ManagerActionView::Event(handle, ManagerEventView::ByeReceived(bye)),
        table.requested(handle, bye).actions[table.actions.len() as int + 1] == ManagerActionView::Event(
            handle,
            ManagerEventView::Terminated(ReasonView::ByeReceived),
        ),
{
}

/// A request to a dialog does what it does to that dialog alone, and hands on what is to be done,
/// which the dialog then no longer holds.
pub proof fn lemma_request_in(table: ManagerView, handle: DialogHandle, request: RequestView)
    requires
        table.dialogs.contains_key(handle),
    ensures
        table.requested(handle, request).dialogs.contains_key(handle),
        table.requested(handle, request).dialogs[handle].info
            == table.dialogs[handle].requested(request).info,
        table.requested(handle, request).dialogs[handle].role == table.dialogs[handle].requested(
            request,
        ).role,
        table.requested(handle, request).dialogs[handle].ack_sent
            == table.dialogs[handle].requested(request).ack_sent,
        table.requested(handle, request).dialogs[handle].actions.len() == 0,
        table.requested(handle, request).ids == table.ids,
        table.requested(handle, request).pending == table.pending,
        others_kept(table, table.requested(handle, request), handle),
        earlier_first(table, table.requested(handle, request)),
        table.requested(handle, request).actions.len() == table.actions.len()
            + table.dialogs[handle].requested(request).actions.len(),
{
}

/// A success confirms the call that it answers: the call no longer waits, and is found by its
/// identifier from then on, in answers and in requests. The application is told so under the
/// handle; the other dialogs stay.
pub proof fn lemma_success_in(table: ManagerView, handle: DialogHandle, answer: ResponseView)
    requires
        table.dialogs.contains_key(handle),
        table.dialogs[handle].actions.len() == 0,
        table.dialogs[handle].role == Role::Uac,
        table.dialogs[handle].info.state == DialogState::Early,
        200 <= answer.status_code < 300,
        answer.call_id is Some,
        answer.from_tag is Some,
    ensures
        table.responded(handle, answer).dialogs.contains_key(handle),
        table.responded(handle, answer).dialogs[handle].info.state == DialogState::Confirmed,
        table.responded(handle, answer).ids.contains_key(
            table.responded(handle, answer).dialogs[handle].info.id,
        ),
        table.responded(handle, answer).ids[table.responded(
            handle,
            answer,
        ).dialogs[handle].info.id] == handle,
        !table.responded(handle, answer).pending.contains_key(
            (answer.call_id->0, answer.from_tag->0),
        ),
        forall|k: (Seq<char>, Seq<char>)|
            k != (answer.call_id->0, answer.from_tag->0) && #[trigger] table.pending.contains_key(k)
                ==> table.responded(handle, answer).pending.contains_key(k)
                && table.responded(handle, answer).pending[k] == table.pending[k],
        others_kept(table, table.responded(handle, answer), handle),
        earlier_first(table, table.responded(handle, answer)),
        table.responded(handle, answer).actions.len() == table.actions.len() + 1,
        table.responded(handle, answer).actions.last() == ManagerActionView::Event(
            handle,
            ManagerEventView::Established,
        ),
{
}

/// A failure ends the call that it answers, with its code; the call is not found by any identifier
/// that was not known before, and goes on waiting in the list of calls without an answer.
pub proof fn lemma_failure_in(table: ManagerView, handle: DialogHandle, answer: ResponseView)
    requires
        table.dialogs.contains_key(handle),
        table.dialogs[handle].actions.len() == 0,
        table.dialogs[handle].role == Role::Uac,
        table.dialogs[handle].info.state == DialogState::Early,
        answer.status_code >= 300,
    ensures
        table.responded(handle, answer).dialogs.contains_key(handle),
        table.responded(handle, answer).dialogs[handle].info.state == DialogState::Terminated,
        table.responded(handle, answer).ids == table.ids,
        table.responded(handle, answer).pending == table.pending,
        others_kept(table, table.responded(handle, answer), handle),
        earlier_first(table, table.responded(handle, answer)),
        table.responded(handle, answer).actions.len() == table.actions.len() + 1,
        table.responded(handle, answer).actions.last() == ManagerActionView::Event(
            handle,
            ManagerEventView::Terminated(ReasonView::Rejected(answer.status_code)),
        ),
{
}

/// A provisional answer leaves the call waiting, and is told; session progress (183) is told first
/// as such.
pub proof fn lemma_provisional_in(table: ManagerView, handle: DialogHandle, answer: ResponseView)
    requires
        table.dialogs.contains_key(handle),
        table.dialogs[handle].actions.len() == 0,
        table.dialogs[handle].role == Role::Uac,
        table.dialogs[handle].info.state == DialogState::Early,
        100 < answer.status_code < 200,
    ensures
        table.responded(handle, answer).dialogs.contains_key(handle),
        table.responded(handle, answer).dialogs[handle].info.state == DialogState::Early,
        table.responded(handle, answer).ids == table.ids,
        table.responded(handle, answer).pending == table.pending,
        others_kept(table, table.responded(handle, answer), handle),
        earlier_first(table, table.responded(handle, answer)),
        table.responded(handle, answer).actions.len() == table.actions.len() + (if answer.status_code == 183 {
            2int
        } else {
            1
        }),
        answer.status_code == 183 ==> table.responded(
            handle,
            answer,
        ).actions[table.actions.len() as int] == ManagerActionView::Event(
            handle,
            ManagerEventView::SessionProgress(answer),
        ),
        table.responded(handle, answer).actions.last() == ManagerActionView::Event(
            handle,
            ManagerEventView::Provisional(answer),
        ),
{
}

/// Our own answer to a call that came in is sent; a success confirms the call, which is found by
/// its identifier, and a failure ends it. The application is told after the answer is to be sent.
pub proof fn lemma_answer_out(table: ManagerView, handle: DialogHandle, answer: ResponseView)
    requires
        table.dialogs.contains_key(handle),
        table.dialogs[handle].actions.len() == 0,
        table.dialogs[handle].role == Role::Uas,
        table.dialogs[handle].info.state == DialogState::Early,
    ensures
        table.answered(handle, answer).dialogs.contains_key(handle),
        table.answered(handle, answer).pending == table.pending,
        others_kept(table, table.answered(handle, answer), handle),
        earlier_first(table, table.answered(handle, answer)),
        table.answered(handle, answer).actions.len() > table.actions.len(),
        table.answered(handle, answer).actions[table.actions.len() as int]
            == ManagerActionView::SendResponse(answer),
        answer.status_code < 200 ==> table.answered(handle, answer).dialogs[handle].info.state
            == DialogState::Early && table.answered(handle, answer).actions.len()
            == table.actions.len() + 1 && table.answered(handle, answer).ids == table.ids,
        200 <= answer.status_code < 300 ==> table.answered(handle, answer).dialogs[handle].info.state
            == DialogState::Confirmed && table.answered(handle, answer).actions.len()
            == table.actions.len() + 2 && table.answered(handle, answer).actions.last()
            == ManagerActionView::Event(handle, ManagerEventView::Established) && table.answered(
            handle,
            answer,
        ).ids.contains_key(table.dialogs[handle].info.id) && table.answered(
            handle,
            answer,
        ).ids[table.dialogs[handle].info.id] == handle,
        answer.status_code >= 300 ==> table.answered(handle, answer).dialogs[handle].info.state
            == DialogState::Terminated && table.answered(handle, answer).actions.len()
            == table.actions.len() + 2 && table.answered(handle, answer).actions.last()
            == ManagerActionView::Event(
            handle,
            ManagerEventView::Terminated(ReasonView::Rejected(answer.status_code)),
        ) && table.answered(handle, answer).ids == table.ids,
{
    assert(table.answered(handle, answer).ids =~= table.answered(handle, answer).ids);
}

/// A message for a handle that no dialog has changes nothing.
pub proof fn lemma_no_dialog(
    table: ManagerView,
    handle: DialogHandle,
    request: RequestView,
    response: ResponseView,
)
    requires
        !table.dialogs.contains_key(handle),
    ensures
        table.requested(handle, request) == table,
        table.responded(handle, response) == table,
        table.answered(handle, response) == table,
{
}

/// Cleaning up takes out the dialogs that ended, with their identifiers, and keeps every other
/// dialog as it was; what is to be done is not touched.
pub proof fn lemma_cleaned(table: ManagerView, handle: DialogHandle, id: IdView)
    ensures
        table.cleaned().dialogs.contains_key(handle) <==> table.dialogs.contains_key(handle)
            && table.dialogs[handle].info.state != DialogState::Terminated,
        table.cleaned().dialogs.contains_key(handle) ==> table.cleaned().dialogs[handle]
            == table.dialogs[handle],
        table.dialogs.contains_key(handle) && table.dialogs[handle].info.state
            == DialogState::Terminated ==> !table.cleaned().ids.contains_key(
            table.dialogs[handle].info.id,
        ),
        table.ids.contains_key(id) && (forall|h: DialogHandle| #[trigger]
            table.dialogs.contains_key(h) && table.dialogs[h].info.id == id
                ==> table.dialogs[h].info.state != DialogState::Terminated)
            ==> table.cleaned().ids.contains_key(id) && table.cleaned().ids[id] == table.ids[id],
        table.cleaned().ids.contains_key(id) ==> table.ids.contains_key(id),
        table.cleaned().actions == table.actions,
        table.cleaned().pending == table.pending,
        table.cleaned().next_handle == table.next_handle,
{
    if table.dialogs.contains_key(handle) && table.dialogs[handle].info.state
        == DialogState::Terminated {
        assert(table.over(handle));
        assert(table.obsolete(table.dialogs[handle].info.id));
    }
    if table.obsolete(id) {
        let h = choose|h: DialogHandle| #[trigger]
            table.over(h) && table.dialogs[h].info.id == id;
        assert(table.dialogs.contains_key(h));
    }
}

/// What a dialog wants done is handed on in its order: what is to be sent as it is, and what is to
/// be told under the dialog's handle.
pub proof fn lemma_handed_on(handle: DialogHandle, actions: Seq<ActionView>, i: int)
    requires
        0 <= i < actions.len(),
    ensures
        collected(handle, actions).len() == actions.len(),
        actions[i] is SendRequest ==> collected(handle, actions)[i]
            == ManagerActionView::SendRequest(actions[i]->SendRequest_0),
        actions[i] is SendResponse ==> collected(handle, actions)[i]
            == ManagerActionView::SendResponse(actions[i]->SendResponse_0),
        actions[i] is Event ==> collected(handle, actions)[i] is Event && collected(
            handle,
            actions,
        )[i]->Event_0 == handle,
        actions[i] == ActionView::Event(EventView::Established) ==> collected(handle, actions)[i]
            == ManagerActionView::Event(handle, ManagerEventView::Established),
        actions[i] matches ActionView::Event(EventView::Provisional(r)) ==> collected(
                handle,
                actions,
            )[i] == ManagerActionView::Event(handle, ManagerEventView::Provisional(r)),
        actions[i] matches ActionView::Event(EventView::SessionProgress(r)) ==> collected(
                handle,
                actions,
            )[i] == ManagerActionView::Event(handle, ManagerEventView::SessionProgress(r)),
        actions[i] matches ActionView::Event(EventView::ReInvite(r)) ==> collected(
                handle,
                actions,
            )[i] == ManagerActionView::Event(handle, ManagerEventView::ReInvite(r)),
        actions[i] matches ActionView::Event(EventView::ByeReceived(r)) ==> collected(
                handle,
                actions,
            )[i] == ManagerActionView::Event(handle, ManagerEventView::ByeReceived(r)),
        actions[i] matches ActionView::Event(EventView::Terminated(why)) ==> collected(
                handle,
                actions,
            )[i] == ManagerActionView::Event(handle, ManagerEventView::Terminated(why)),
{
}

/// Taking a dialog over into the table stores it under its handle and empties what it wanted done.
pub proof fn lemma_taken_over(table: ManagerView, handle: DialogHandle, dialog: DialogView)
    ensures
        table.with_dialog(handle, dialog).dialogs[handle].info == dialog.info,
        table.with_dialog(handle, dialog).dialogs[handle].invite == dialog.invite,
        table.with_dialog(handle, dialog).dialogs[handle].role == dialog.role,
        table.with_dialog(handle, dialog).dialogs[handle].ack_sent == dialog.ack_sent,
        table.with_dialog(handle, dialog).dialogs[handle].actions.len() == 0,
        others_kept(table, table.with_dialog(handle, dialog), handle),
        earlier_first(table, table.with_dialog(handle, dialog)),
{
}

} // verus!
