//! How a call is taken: the port that it gets, the replies in their order, and what is given back.

use crate::gabby::sdp::{answer_text, audio_port, connection_ip};
use crate::gabby::server::{
    first_free, ports_end, CallView, GabbyServer, InviteActionView, InviteStage, ReplyView,
    ServerView,
};
use crate::sip::RequestView;
use crate::text::{lines, utf8_lossy};
use vstd::prelude::*;
use vstd::utf8::encode_utf8;

verus! {

/// Ports are tried from the first one up, every second one, over 10000 ports or up to 65535, and
/// the first that nobody has is taken: it is free, it is an even step away, and every one tried
/// before it is taken. None is given only where all of them are.
pub proof fn lemma_port_choice(taken: Set<u16>, start: u16, k: int)
    requires
        0 <= k,
    ensures
        start <= 55535 ==> ports_end(start) == start + 10000,
        start > 55535 ==> ports_end(start) == 65535,
        first_free(taken, start as int, ports_end(start)) is Some ==> ({
            let p = first_free(taken, start as int, ports_end(start))->0;
            &&& !taken.contains(p)
            &&& start <= p < ports_end(start)
            &&& (p - start) % 2 == 0
            &&& start + 2 * k < p ==> taken.contains((start + 2 * k) as u16)
        }),
        first_free(taken, start as int, ports_end(start)) is None && start + 2 * k < ports_end(start)
            ==> taken.contains((start + 2 * k) as u16),
        start < 65535 && !taken.contains(start) ==> first_free(
            taken,
            start as int,
            ports_end(start),
        ) == Some(start),
{
    lemma_search(taken, start as int, ports_end(start), k);
}

proof fn lemma_search(taken: Set<u16>, p: int, end: int, k: int)
    requires
        0 <= p,
        end <= 65535,
        0 <= k,
    ensures
        first_free(taken, p, end) is Some ==> ({
            let q = first_free(taken, p, end)->0;
            &&& !taken.contains(q)
            &&& p <= q < end
            &&& (q - p) % 2 == 0
            &&& p + 2 * k < q ==> taken.contains((p + 2 * k) as u16)
        }),
        first_free(taken, p, end) is None && p + 2 * k < end ==> taken.contains((p + 2 * k) as u16),
    decreases end + 2 - p,
{
    if p < end && taken.contains(p as u16) {
        if k > 0 {
            lemma_search(taken, p + 2, end, k - 1);
        } else {
            lemma_search(taken, p + 2, end, 0);
        }
    }
}

/// What is known of a call from its INVITE: the Call-ID, the From tag and the CSeq number (1 where
/// there is none), where its sound goes (port 10000 where the offer gives none), and a tag of our
/// own that begins with `gabby-`.
pub proof fn lemma_call_of_invite(invite: RequestView, tag: Seq<char>)
    ensures
        invite.call_id is Some ==> CallView::of_invite(invite, tag).call_id == invite.call_id->0,
        invite.call_id is None ==> CallView::of_invite(invite, tag).call_id.len() == 0,
        invite.from_tag is Some ==> CallView::of_invite(invite, tag).from_tag == invite.from_tag->0,
        invite.from_tag is None ==> CallView::of_invite(invite, tag).from_tag.len() == 0,
        invite.cseq is Some ==> CallView::of_invite(invite, tag).cseq == invite.cseq->0,
        invite.cseq is None ==> CallView::of_invite(invite, tag).cseq == 1,
        audio_port(lines(utf8_lossy(invite.body))) is Some ==> CallView::of_invite(
            invite,
            tag,
        ).remote_rtp_port == audio_port(lines(utf8_lossy(invite.body)))->0,
        audio_port(lines(utf8_lossy(invite.body))) is None ==> CallView::of_invite(
            invite,
            tag,
        ).remote_rtp_port == 10000,
        CallView::of_invite(invite, tag).remote_rtp_ip == connection_ip(
            lines(utf8_lossy(invite.body)),
        ),
        CallView::of_invite(invite, tag).to_tag == "gabby-"@ + tag,
        CallView::of_invite(invite, tag).stage is Received,
{
}

/// The three replies to a call that is taken, in their order: Trying, which has no tag; Ringing,
/// with our tag; and OK with our tag, our contact and an answer that names our address and the port
/// taken for the call. The port is kept from the moment that the OK is to be sent, and the call is
/// on the books, under that port, once it was.
pub proof fn lemma_call_taken_in_order(server: GabbyServer, call: CallView, id: u64, port: u16)
    ensures
        call.stage is Received ==> ({
            let (after, next, action) = server.invite_step(call, true, id);
            &&& after == server@
            &&& next.stage is Trying
            &&& action is Send
            &&& action->Send_0.status_code == 100
            &&& action->Send_0.reason == "Trying"@
            &&& action->Send_0.to_tag is None
            &&& action->Send_0.contact_uri is None
            &&& action->Send_0.body.len() == 0
        }),
        call.stage is Trying ==> ({
            let (after, next, action) = server.invite_step(call, true, id);
            &&& after == server@
            &&& next.stage is Ringing
            &&& action is Send
            &&& action->Send_0.status_code == 180
            &&& action->Send_0.reason == "Ringing"@
            &&& action->Send_0.to_tag == Some(call.to_tag)
            &&& action->Send_0.contact_uri is None
            &&& action->Send_0.body.len() == 0
        }),
        call.stage is Ringing && server.next_port() == Some(port) ==> ({
            let (after, next, action) = server.invite_step(call, true, id);
            &&& after.ports == server@.ports.insert(port)
            &&& after.calls == server@.calls
            &&& next.stage == InviteStage::Answering(port)
            &&& action is Send
            &&& action->Send_0.status_code == 200
            &&& action->Send_0.reason == "OK"@
            &&& action->Send_0.to_tag == Some(call.to_tag)
            &&& action->Send_0.contact_uri == Some("sip:gabby@"@ + server.local_sip_addr@)
            &&& action->Send_0.body == encode_utf8(answer_text(id, server.media_ip(), port))
        }),
        call.stage == InviteStage::Answering(port) ==> ({
            let (after, next, action) = server.invite_step(call, true, id);
            &&& after.ports == server@.ports
            &&& after.calls == server@.calls.insert(call.call_id, port)
            &&& next.stage is Taken
            &&& action == InviteActionView::Start(port)
        }),
{
}

/// A call that comes while every port is taken is answered with 503 and our tag, and nothing is
/// kept for it.
pub proof fn lemma_call_refused(server: GabbyServer, call: CallView, id: u64)
    requires
        call.stage is Ringing,
        server.next_port() is None,
    ensures
        server.invite_step(call, true, id).0 == server@,
        server.invite_step(call, true, id).1.stage is Refusing,
        server.invite_step(call, true, id).2 is Send,
        server.invite_step(call, true, id).2->Send_0.status_code == 503,
        server.invite_step(call, true, id).2->Send_0.reason == "Service Unavailable"@,
        server.invite_step(call, true, id).2->Send_0.to_tag == Some(call.to_tag),
        server.invite_step(call, true, id).2->Send_0.body.len() == 0,
{
}

/// A reply that could not be sent ends the work on the call: nothing further is sent or started.
pub proof fn lemma_unsent(server: GabbyServer, call: CallView, id: u64)
    requires
        call.stage is Trying || call.stage is Ringing || call.stage is Answering || call.stage is Refusing,
    ensures
        server.invite_step(call, false, id).0 == server@,
        server.invite_step(call, false, id).1.stage is Over,
        server.invite_step(call, false, id).2 is Done,
{
}

/// No step changes what is known of a call but for how far it has come.
pub proof fn lemma_call_kept(server: GabbyServer, call: CallView, sent: bool, id: u64)
    ensures
        server.invite_step(call, sent, id).1.call_id == call.call_id,
        server.invite_step(call, sent, id).1.from_tag == call.from_tag,
        server.invite_step(call, sent, id).1.to_tag == call.to_tag,
        server.invite_step(call, sent, id).1.cseq == call.cseq,
        server.invite_step(call, sent, id).1.remote_rtp_port == call.remote_rtp_port,
        server.invite_step(call, sent, id).1.remote_rtp_ip == call.remote_rtp_ip,
{
}

/// A call that ends gives its port back and is off the books; every other call keeps its own. The
/// end of a call that is not on the books changes nothing.
pub proof fn lemma_call_ends(s: ServerView, id: Seq<char>, other: Seq<char>, p: u16)
    requires
        s.ports_apart(),
    ensures
        s.calls.contains_key(id) ==> !s.without(id).calls.contains_key(id) && !s.without(
            id,
        ).ports.contains(s.calls[id]),
        s.calls.contains_key(id) && p != s.calls[id] ==> (s.without(id).ports.contains(p)
            <==> s.ports.contains(p)),
        s.calls.contains_key(other) && other != id ==> s.without(id).calls.contains_key(other)
            && s.without(id).calls[other] == s.calls[other] && s.without(id).ports.contains(
            s.calls[other],
        ),
        !s.calls.contains_key(id) ==> s.without(id) == s,
{
}

/// A reply of which nothing but the code and the reason is known.
pub proof fn lemma_bare_reply(code: u16, reason: Seq<char>, call: CallView)
    ensures
        ReplyView::bare(code, reason).status_code == code,
        ReplyView::bare(code, reason).reason == reason,
        ReplyView::bare(code, reason).to_tag is None,
        ReplyView::bare(code, reason).contact_uri is None,
        ReplyView::bare(code, reason).body.len() == 0,
        call.tagged(code, reason).status_code == code,
        call.tagged(code, reason).reason == reason,
        call.tagged(code, reason).to_tag == Some(call.to_tag),
        call.tagged(code, reason).contact_uri is None,
        call.tagged(code, reason).body.len() == 0,
{
}

/// The address that is given out: the public one where there is one, else our own.
pub proof fn lemma_addresses(server: GabbyServer)
    ensures
        server.config.server.public_ip is Some ==> server.media_ip()
            == server.config.server.public_ip->0@,
        server.config.server.public_ip is None ==> server.media_ip() == server.local_ip@,
        server.contact() == "sip:gabby@"@ + server.local_sip_addr@,
        server.next_port() == first_free(
            server@.ports,
            server.config.server.rtp_port_start as int,
            ports_end(server.config.server.rtp_port_start),
        ),
{
}

/// A port that is kept for a call that is being answered is taken, and no call on the books has it.
pub proof fn lemma_port_kept(s: ServerView, port: u16, id: Seq<char>)
    requires
        s.keeps_for(InviteStage::Answering(port)),
    ensures
        s.ports.contains(port),
        s.calls.contains_key(id) ==> s.calls[id] != port,
{
}

} // verus!
