//! What dialogs promise: who is reached where, what is told, and what ends a call.

use super::invite::{ActionView, DialogView, EventView, ReasonView, Role};
use super::state::{DialogState, IdView, InfoView, RoutesView};
use crate::sip::{Method, RequestView, ResponseView};
use vstd::prelude::*;

verus! {

/// Whether the routes are the Record-Route values in the order in which they came.
pub open spec fn in_order(routes: Seq<Seq<char>>, values: Seq<Seq<char>>) -> bool {
    &&& routes.len() == values.len()
    &&& forall|i: int| 0 <= i < values.len() ==> #[trigger] routes[i] == values[i]
}

/// Whether the routes are the Record-Route values with the last one first.
pub open spec fn turned_round(routes: Seq<Seq<char>>, values: Seq<Seq<char>>) -> bool {
    &&& routes.len() == values.len()
    &&& forall|i: int| 0 <= i < values.len() ==> #[trigger] routes[i] == values[values.len() - 1 - i]
}

/// An INVITE makes a dialog for the one who is called exactly if it has a Call-ID, a From with a
/// tag, a To, a Contact and a CSeq. Each of them has its place: the Contact is where requests go,
/// the To is the near side and the From the far one, the CSeq is the far side's, and the routes
/// are kept in order.
pub proof fn lemma_callee_info(request: RequestView, local_tag: Seq<char>, state: DialogState)
    ensures
        InfoView::of_invite(request, local_tag, state) is Some <==> request.call_id is Some
            && request.from_tag is Some && request.from_uri is Some && request.to_uri is Some
            && request.contact_uri is Some && request.cseq is Some,
        InfoView::of_invite(request, local_tag, state) matches Some(info) ==> {
            &&& request.contact_uri == Some(info.remote_target)
            &&& request.from_uri == Some(info.remote_uri)
            &&& request.to_uri == Some(info.local_uri)
            &&& request.call_id == Some(info.id.call_id)
            &&& request.from_tag == Some(info.id.remote_tag)
            &&& info.id.local_tag == local_tag
            &&& request.cseq == info.remote_seq
            &&& info.local_seq == 0
            &&& info.state == state
            &&& in_order(info.route_set.routes, request.record_routes)
        },
{
}

/// An INVITE and a response to it make a dialog for the caller exactly if the response has a
/// Call-ID, both tags and a Contact, and the INVITE a From, a To and a CSeq. The Contact of the
/// response is where requests go, the From is the near side and the To the far one, the CSeq is
/// the near side's, and the routes are turned round.
pub proof fn lemma_caller_info(request: RequestView, response: ResponseView, state: DialogState)
    ensures
        InfoView::of_response(request, response, state) is Some <==> response.call_id is Some
            && response.from_tag is Some && response.to_tag is Some && response.contact_uri is Some
            && request.from_uri is Some && request.to_uri is Some && request.cseq is Some,
        InfoView::of_response(request, response, state) matches Some(info) ==> {
            &&& response.contact_uri == Some(info.remote_target)
            &&& request.from_uri == Some(info.local_uri)
            &&& request.to_uri == Some(info.remote_uri)
            &&& response.call_id == Some(info.id.call_id)
            &&& response.from_tag == Some(info.id.local_tag)
            &&& response.to_tag == Some(info.id.remote_tag)
            &&& request.cseq == Some(info.local_seq)
            &&& info.remote_seq is None
            &&& info.state == state
            &&& turned_round(info.route_set.routes, response.record_routes)
        },
{
}

/// Routing is loose exactly if there is a route and the topmost Record-Route value has the `lr`
/// parameter: `;lr` at its end or before a semicolon, a closing bracket or an equals sign.
pub proof fn lemma_loose_routing(values: Seq<Seq<char>>, reverse: bool)
    ensures
        RoutesView::of_values(values, reverse).loose_routing <==> values.len() > 0 && exists|i: int|
            #![trigger values[0][i]]
            0 <= i && i + 3 <= values[0].len() && values[0][i] == ';' && values[0][i + 1] == 'l'
                && values[0][i + 2] == 'r' && (i + 3 == values[0].len() || values[0][i + 3] == ';'
                || values[0][i + 3] == '>' || values[0][i + 3] == '='),
        !RoutesView::empty().loose_routing,
        RoutesView::empty().routes.len() == 0,
{
    if values.len() > 0 {
        let s = values[0];
        if crate::sip::loose(s) {
            let i = choose|i: int| crate::sip::lr_at(s, i);
            assert(s[i] == ';');
        }
        if exists|i: int|
            #![trigger values[0][i]]
            0 <= i && i + 3 <= values[0].len() && values[0][i] == ';' && values[0][i + 1] == 'l'
                && values[0][i + 2] == 'r' && (i + 3 == values[0].len() || values[0][i + 3] == ';'
                || values[0][i + 3] == '>' || values[0][i + 3] == '=') {
            let i = choose|i: int|
                #![trigger values[0][i]]
                0 <= i && i + 3 <= values[0].len() && values[0][i] == ';' && values[0][i + 1] == 'l'
                    && values[0][i + 2] == 'r' && (i + 3 == values[0].len() || values[0][i + 3]
                    == ';' || values[0][i + 3] == '>' || values[0][i + 3] == '=');
            assert(crate::sip::lr_at(s, i));
        }
    }
}

/// A call that is taken is ended where it came from: the BYE goes to the Contact of the INVITE,
/// from its To to its From, with the tags of both sides and the INVITE's Call-ID, as the first
/// request of the side that was called.
pub proof fn lemma_callee_hangs_up(
    invite: RequestView,
    local_tag: Seq<char>,
    ok: ResponseView,
    id: Seq<char>,
)
    requires
        200 <= ok.status_code < 300,
        invite.call_id is Some,
        invite.from_tag is Some,
        invite.from_uri is Some,
        invite.to_uri is Some,
        invite.contact_uri is Some,
        invite.cseq is Some,
    ensures
        DialogView::called(invite, local_tag) matches Some(d) && {
            let bye = d.answered(ok).bye(id);
            &&& d.role == Role::Uas
            &&& d.invite == invite
            &&& d.info.state == DialogState::Early
            &&& d.answered(ok).info.state == DialogState::Confirmed
            &&& Some(bye.uri) == invite.contact_uri
            &&& bye.method == Method::Bye
            &&& bye.from_uri == invite.to_uri
            &&& bye.from_tag == Some(local_tag)
            &&& bye.to_uri == invite.from_uri
            &&& bye.to_tag == invite.from_tag
            &&& bye.call_id == invite.call_id
            &&& bye.cseq == Some(1u32)
        },
{
}

/// A call that is answered is ended where the answer came from: the BYE goes to the Contact of the
/// 2xx, from the INVITE's From to its To, with the tags and the Call-ID of the 2xx, and with the
/// sequence number after that of the INVITE.
pub proof fn lemma_caller_hangs_up(invite: RequestView, ok: ResponseView, id: Seq<char>)
    requires
        200 <= ok.status_code < 300,
        ok.call_id is Some,
        ok.from_tag is Some,
        ok.to_tag is Some,
        ok.contact_uri is Some,
        invite.from_uri is Some,
        invite.to_uri is Some,
        invite.cseq matches Some(n) && n < u32::MAX,
    ensures
        ({
            let d = DialogView::calling(invite);
            let bye = d.responded(ok).bye(id);
            &&& d.role == Role::Uac
            &&& d.info.state == DialogState::Early
            &&& d.responded(ok).info.state == DialogState::Confirmed
            &&& Some(bye.uri) == ok.contact_uri
            &&& bye.method == Method::Bye
            &&& bye.from_uri == invite.from_uri
            &&& bye.from_tag == ok.from_tag
            &&& bye.to_uri == invite.to_uri
            &&& bye.to_tag == ok.to_tag
            &&& bye.call_id == ok.call_id
            &&& bye.cseq == Some((invite.cseq->0 + 1) as u32)
        }),
{
}

/// A request within a dialog: its one Via names UDP, a host and a port to be filled in, and the
/// branch; it has no Contact, no routes and no body. Ending a dialog takes up the sequence number
/// of the BYE.
pub proof fn lemma_request_within(
    d: DialogView,
    method: Method,
    cseq: u32,
    branch: Seq<char>,
    id: Seq<char>,
)
    requires
        d.info.local_seq < u32::MAX,
    ensures
        ({
            let r = d.in_dialog_request(method, cseq, branch);
            &&& r.method == method
            &&& r.cseq == Some(cseq)
            &&& r.uri == d.info.remote_target
            &&& r.vias.len() == 1
            &&& r.vias[0] == "SIP/2.0/"@ + "UDP"@ + " "@ + "0.0.0.0"@ + ":"@ + crate::text::decimal(
                5060,
            ) + ";branch="@ + branch
            &&& r.contact_uri is None
            &&& r.record_routes.len() == 0
            &&& r.body.len() == 0
        }),
        d.bye(id) == d.in_dialog_request(
            Method::Bye,
            (d.info.local_seq + 1) as u32,
            "z9hG4bK"@ + id,
        ),
        d.leaving().info.local_seq == d.info.local_seq + 1,
        d.leaving().info.state == DialogState::Terminating,
        d.leaving().info.remote_target == d.info.remote_target,
        d.leaving().actions == d.actions,
{
}

/// A dialog that an outgoing INVITE begins is early and has no identifier, target or route yet. It
/// counts from the INVITE's sequence number, or from 1.
pub proof fn lemma_call_begun(invite: RequestView)
    ensures
        ({
            let d = DialogView::calling(invite);
            &&& d.role == Role::Uac
            &&& d.invite == invite
            &&& d.actions.len() == 0
            &&& !d.ack_sent
            &&& d.info.state == DialogState::Early
            &&& d.info.id.call_id.len() == 0 && d.info.id.local_tag.len() == 0
                && d.info.id.remote_tag.len() == 0
            &&& d.info.remote_target.len() == 0
            &&& d.info.route_set.routes.len() == 0
            &&& d.info.remote_seq is None
            &&& !d.info.secure
            &&& invite.cseq is Some ==> invite.cseq == Some(d.info.local_seq)
            &&& invite.cseq is None ==> d.info.local_seq == 1
            &&& invite.from_uri is Some ==> invite.from_uri == Some(d.info.local_uri)
            &&& invite.to_uri is Some ==> invite.to_uri == Some(d.info.remote_uri)
            &&& invite.from_uri is None ==> d.info.local_uri.len() == 0
            &&& invite.to_uri is None ==> d.info.remote_uri.len() == 0
        }),
{
}

/// The events that were added to a dialog's actions.
pub open spec fn told(before: DialogView, after: DialogView, events: Seq<EventView>) -> bool {
    &&& after.actions.len() == before.actions.len() + events.len()
    &&& forall|i: int| 0 <= i < before.actions.len() ==> after.actions[i] == before.actions[i]
    &&& forall|i: int|
        0 <= i < events.len() ==> after.actions[before.actions.len() + i] == ActionView::Event(
            #[trigger] events[i],
        )
}

/// What a response does to the dialog of a caller who waits for one: 100 is nothing, any other
/// provisional one is told, 183 as progress first; a 2xx establishes the dialog; from 300 on it is
/// over, and the code is told. A provisional response leaves the dialog early. To the one who was
/// called, and once a dialog is no longer early, a response is nothing.
pub proof fn lemma_response_heeded(d: DialogView, response: ResponseView)
    ensures
        ({
            let after = d.responded(response);
            let code = response.status_code;
            let heeded = d.role == Role::Uac && d.info.state == DialogState::Early;
            &&& !heeded || code <= 100 ==> after == d
            &&& heeded && 100 < code < 200 && code != 183 ==> after.info.state == DialogState::Early
                && told(d, after, seq![EventView::Provisional(response)])
            &&& heeded && code == 183 ==> after.info.state == DialogState::Early && told(
                d,
                after,
                seq![EventView::SessionProgress(response), EventView::Provisional(response)],
            )
            &&& heeded && 200 <= code < 300 ==> after.info.state == DialogState::Confirmed && told(
                d,
                after,
                seq![EventView::Established],
            )
            &&& heeded && code >= 300 ==> after.info.state == DialogState::Terminated && told(
                d,
                after,
                seq![EventView::Terminated(ReasonView::Rejected(code))],
            )
            &&& after.ack_sent == d.ack_sent
            &&& after.role == d.role
            &&& heeded && 100 < code < 300 && response.contact_uri is Some && response.to_tag is Some
                && response.from_tag is Some && response.call_id is Some && d.invite.from_uri is Some
                && d.invite.to_uri is Some && d.invite.cseq is Some ==> Some(
                after.info.remote_target,
            ) == response.contact_uri && Some(after.info.id.remote_tag) == response.to_tag
            &&& heeded && code >= 300 ==> after.info.remote_target == d.info.remote_target
                && after.info.id == d.info.id
        }),
{
}

/// What a request of the other side does: a BYE is told and ends the dialog; an INVITE is told if
/// the dialog is confirmed and its sequence number is new, and its Contact becomes the target; an
/// ACK completes a confirmed dialog of the side that was called; a CANCEL ends an early one of
/// that side. Anything else, and any request without a sequence number, is nothing.
pub proof fn lemma_request_heeded(d: DialogView, request: RequestView)
    ensures
        ({
            let after = d.requested(request);
            let readable = request.cseq is Some;
            let newer = match (d.info.remote_seq, request.cseq) {
                (Some(last), Some(n)) => n > last,
                (None, Some(_)) => true,
                _ => false,
            };
            &&& !readable ==> after == d
            &&& readable && request.method == Method::Bye ==> after.info.state
                == DialogState::Terminated && told(
                d,
                after,
                seq![
                    EventView::ByeReceived(request),
                    EventView::Terminated(ReasonView::ByeReceived),
                ],
            )
            &&& request.method == Method::Invite && d.info.state == DialogState::Confirmed && newer
                ==> told(d, after, seq![EventView::ReInvite(request)]) && after.info.remote_seq
                == request.cseq && after.info.remote_target == (match request.contact_uri {
                Some(c) => c,
                None => d.info.remote_target,
            }) && after.info.state == DialogState::Confirmed
            &&& request.method == Method::Invite && !(d.info.state == DialogState::Confirmed
                && newer) ==> after == d
            &&& readable && request.method == Method::Ack && d.role == Role::Uas && d.info.state
                == DialogState::Confirmed ==> after == DialogView { ack_sent: true, ..d }
            &&& request.method == Method::Ack && !(d.role == Role::Uas && d.info.state
                == DialogState::Confirmed) ==> after == d
            &&& readable && request.method == Method::Cancel && d.role == Role::Uas && d.info.state
                == DialogState::Early ==> after.info.state == DialogState::Terminated && told(
                d,
                after,
                seq![EventView::Terminated(ReasonView::Cancelled)],
            )
            &&& request.method == Method::Cancel && !(d.role == Role::Uas && d.info.state
                == DialogState::Early) ==> after == d
            &&& request.method != Method::Bye && request.method != Method::Invite && request.method
                != Method::Ack && request.method != Method::Cancel ==> after == d
            &&& request.method != Method::Ack ==> after.ack_sent == d.ack_sent
            &&& request.method != Method::Invite ==> after.info.remote_target
                == d.info.remote_target && after.info.remote_seq == d.info.remote_seq
            &&& after.info.id == d.info.id && after.info.local_seq == d.info.local_seq
                && after.info.route_set == d.info.route_set
        }),
{
}

/// What a response of our own does: it is sent by the side that was called and by no other. A 2xx
/// on an early dialog establishes it, one from 300 on ends it, and the code is told; a provisional
/// one, and any on a dialog that is not early, is sent and no more.
pub proof fn lemma_answer_sent(d: DialogView, response: ResponseView)
    ensures
        ({
            let after = d.answered(response);
            let code = response.status_code;
            let early = d.info.state == DialogState::Early;
            let n = d.actions.len() as int;
            &&& d.role == Role::Uac ==> after == d
            &&& d.role == Role::Uas ==> after.actions.len() > n && after.actions[n]
                == ActionView::SendResponse(response)
            &&& d.role == Role::Uas && early && 200 <= code < 300 ==> after.info.state
                == DialogState::Confirmed && after.actions.len() == n + 2 && after.actions[n + 1]
                == ActionView::Event(EventView::Established)
            &&& d.role == Role::Uas && early && code >= 300 ==> after.info.state
                == DialogState::Terminated && after.actions.len() == n + 2 && after.actions[n + 1]
                == ActionView::Event(EventView::Terminated(ReasonView::Rejected(code)))
            &&& d.role == Role::Uas && (!early || code < 200) ==> after.info.state == d.info.state
                && after.actions.len() == n + 1
            &&& after.info.remote_target == d.info.remote_target
            &&& after.info.id == d.info.id
            &&& after.info.local_seq == d.info.local_seq
            &&& after.info.remote_seq == d.info.remote_seq
            &&& after.ack_sent == d.ack_sent
        }),
{
}

/// The one who is called finds a dialog by the To tag as its own and the From tag as the far one,
/// the caller finds it by the From tag as its own; neither does without all three parts.
pub proof fn lemma_identified(request: RequestView, response: ResponseView)
    ensures
        IdView::of_request(request) is Some <==> request.call_id is Some && request.from_tag is Some
            && request.to_tag is Some,
        IdView::of_request(request) matches Some(id) ==> request.call_id == Some(id.call_id)
            && request.to_tag == Some(id.local_tag) && request.from_tag == Some(id.remote_tag),
        IdView::of_response(response) is Some <==> response.call_id is Some && response.from_tag
            is Some && response.to_tag is Some,
        IdView::of_response(response) matches Some(id) ==> response.call_id == Some(id.call_id)
            && response.from_tag == Some(id.local_tag) && response.to_tag == Some(id.remote_tag),
{
}

} // verus!
