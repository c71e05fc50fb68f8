//! What the views of the types show: every field is seen as it is.

use crate::dialog::invite::{
    action_views, Action, ActionView, Event, EventView, InviteDialog, ReasonView, TerminationReason,
};
use crate::dialog::manager::{
    DialogManager, ManagerAction, ManagerActionView, ManagerEvent, ManagerEventView,
};
use crate::dialog::state::{DialogId, DialogInfo, IdView, RouteSet};
use crate::gabby::audio::chunk_views;
use crate::gabby::pipeline::llm::{message_views, Message, OllamaClient};
use crate::gabby::pipeline::vad::VadState;
use crate::gabby::server::{GabbyServer, IncomingCall, InviteAction, InviteActionView, Reply};
use crate::ice::stun::{StunError, StunErrorView};
use crate::ice::turn::{
    AllocateResult, AllocateResultView, AuthContext, TurnAllocation, TurnError, TurnErrorView,
};
use crate::media::jitter::{BufferedPacket, JitterBuffer};
use crate::rtcp::compound::{RtcpCompound, RtcpPacket};
use crate::rtcp::nack::Nack;
use crate::rtcp::payload::{Fir, Remb};
use crate::rtcp::report::{ReceiverReport, ReportBlock, SenderReport};
use crate::rtp::packet::{RtpExtension, RtpPacket};
use crate::buf::frozen;
use crate::sip::{MessageView, SipMessage, SipRequest, SipResponse};
use crate::table::map_of;
use crate::text::{text_of, texts};
use vstd::prelude::*;

verus! {

/// Texts are seen by their characters, one for one.
pub proof fn lemma_texts(v: Seq<String>, o: Option<String>, i: int)
    ensures
        texts(v).len() == v.len(),
        0 <= i < v.len() ==> texts(v)[i] == v[i]@,
        o is Some ==> text_of(o) == Some(o->0@),
        o is None ==> text_of(o) is None,
{
}

/// A request.
pub proof fn lemma_request_view(r: SipRequest)
    ensures
        r@.method == r.method,
        r@.uri == r.uri@,
        r@.vias == texts(r.vias@),
        r@.from_uri == text_of(r.from_uri),
        r@.from_tag == text_of(r.from_tag),
        r@.to_uri == text_of(r.to_uri),
        r@.to_tag == text_of(r.to_tag),
        r@.call_id == text_of(r.call_id),
        r@.cseq == r.cseq,
        r@.contact_uri == text_of(r.contact_uri),
        r@.record_routes == texts(r.record_routes@),
        r@.body == r.body@,
{
}

/// An answer, and a message that is either.
pub proof fn lemma_response_view(r: SipResponse, q: SipRequest)
    ensures
        r@.status_code == r.status_code,
        r@.reason == r.reason@,
        r@.from_tag == text_of(r.from_tag),
        r@.to_tag == text_of(r.to_tag),
        r@.call_id == text_of(r.call_id),
        r@.contact_uri == text_of(r.contact_uri),
        r@.record_routes == texts(r.record_routes@),
        r@.body == r.body@,
        SipMessage::Request(q)@ == MessageView::Request(q@),
        SipMessage::Response(r)@ == MessageView::Response(r@),
{
}

/// A dialog's identifier, its routes and what it knows.
pub proof fn lemma_dialog_info_view(id: DialogId, routes: RouteSet, info: DialogInfo)
    ensures
        id@.call_id == id.call_id@,
        id@.local_tag == id.local_tag@,
        id@.remote_tag == id.remote_tag@,
        id@.mirrored().call_id == id.call_id@,
        id@.mirrored().local_tag == id.remote_tag@,
        id@.mirrored().remote_tag == id.local_tag@,
        routes@.routes == texts(routes.routes@),
        routes@.loose_routing == routes.loose_routing,
        info@.id == info.id@,
        info@.state == info.state,
        info@.local_seq == info.local_seq,
        info@.remote_seq == info.remote_seq,
        info@.local_uri == info.local_uri@,
        info@.remote_uri == info.remote_uri@,
        info@.remote_target == info.remote_target@,
        info@.route_set == info.route_set@,
        info@.secure == info.secure,
{
}

/// A dialog, with what it wants done in its order.
pub proof fn lemma_dialog_view(d: InviteDialog, i: int)
    ensures
        d@.info == d.info@,
        d@.role == d.role,
        d@.invite == d.invite@,
        d@.ack_sent == d.ack_sent,
        d@.actions == action_views(d.actions@),
        d@.actions.len() == d.actions@.len(),
        0 <= i < d.actions@.len() ==> d@.actions[i] == d.actions@[i]@,
{
}

/// What a dialog wants done and tells.
pub proof fn lemma_action_view(
    q: SipRequest,
    r: SipResponse,
    e: Event,
    why: TerminationReason,
    code: u16,
    text: String,
)
    ensures
        Action::SendRequest(q)@ == ActionView::SendRequest(q@),
        Action::SendResponse(r)@ == ActionView::SendResponse(r@),
        Action::Event(e)@ == ActionView::Event(e@),
        Event::Established@ == EventView::Established,
        Event::Provisional(r)@ == EventView::Provisional(r@),
        Event::SessionProgress(r)@ == EventView::SessionProgress(r@),
        Event::ReInvite(q)@ == EventView::ReInvite(q@),
        Event::ByeReceived(q)@ == EventView::ByeReceived(q@),
        Event::Terminated(why)@ == EventView::Terminated(why@),
        TerminationReason::ByeSent@ == ReasonView::ByeSent,
        TerminationReason::ByeReceived@ == ReasonView::ByeReceived,
        TerminationReason::Rejected(code)@ == ReasonView::Rejected(code),
        TerminationReason::Cancelled@ == ReasonView::Cancelled,
        TerminationReason::Error(text)@ == ReasonView::Error(text@),
{
}

/// What a table of dialogs wants done and tells.
pub proof fn lemma_manager_action_view(
    q: SipRequest,
    r: SipResponse,
    e: ManagerEvent,
    why: TerminationReason,
    h: crate::dialog::manager::DialogHandle,
)
    ensures
        ManagerAction::SendRequest(q)@ == ManagerActionView::SendRequest(q@),
        ManagerAction::SendResponse(r)@ == ManagerActionView::SendResponse(r@),
        ManagerAction::Event(h, e)@ == ManagerActionView::Event(h, e@),
        ManagerEvent::IncomingInvite(q)@ == ManagerEventView::IncomingInvite(q@),
        ManagerEvent::Established@ == ManagerEventView::Established,
        ManagerEvent::Provisional(r)@ == ManagerEventView::Provisional(r@),
        ManagerEvent::SessionProgress(r)@ == ManagerEventView::SessionProgress(r@),
        ManagerEvent::ReInvite(q)@ == ManagerEventView::ReInvite(q@),
        ManagerEvent::ByeReceived(q)@ == ManagerEventView::ByeReceived(q@),
        ManagerEvent::Terminated(why)@ == ManagerEventView::Terminated(why@),
{
}

/// An RTP packet.
pub proof fn lemma_rtp_view(p: RtpPacket, e: RtpExtension)
    ensures
        e@.profile == e.profile,
        e@.data == frozen(e.data),
        p@.version == p.version,
        p@.padding == p.padding,
        p@.extension == p.extension,
        p@.marker == p.marker,
        p@.payload_type == p.payload_type,
        p@.sequence_number == p.sequence_number,
        p@.timestamp == p.timestamp,
        p@.ssrc == p.ssrc,
        p@.csrc == p.csrc@,
        p.extension_header is Some ==> p@.extension_header == Some(p.extension_header->0@),
        p.extension_header is None ==> p@.extension_header is None,
        p@.payload == frozen(p.payload),
{
}

/// The reports and the requests of RTCP.
pub proof fn lemma_rtcp_view(
    sr: SenderReport,
    rr: ReceiverReport,
    nack: Nack,
    fir: Fir,
    remb: Remb,
)
    ensures
        sr@.ssrc == sr.ssrc,
        sr@.ntp_timestamp == sr.ntp_timestamp,
        sr@.rtp_timestamp == sr.rtp_timestamp,
        sr@.sender_packet_count == sr.sender_packet_count,
        sr@.sender_octet_count == sr.sender_octet_count,
        sr@.report_blocks == sr.report_blocks@,
        rr@.ssrc == rr.ssrc,
        rr@.report_blocks == rr.report_blocks@,
        nack@.sender_ssrc == nack.sender_ssrc,
        nack@.media_ssrc == nack.media_ssrc,
        nack@.nacks == nack.nacks@,
        fir@.sender_ssrc == fir.sender_ssrc,
        fir@.media_ssrc == fir.media_ssrc,
        fir@.entries == fir.entries@,
        remb@.sender_ssrc == remb.sender_ssrc,
        remb@.media_ssrc == remb.media_ssrc,
        remb@.bitrate == remb.bitrate,
        remb@.ssrcs == remb.ssrcs@,
        ReportBlock::SIZE == 24,
        SenderReport::MIN_SIZE == 24,
        ReceiverReport::MIN_SIZE == 4,
{
}

/// A packet of any kind is written as that kind is, and a compound as its packets, one behind the
/// other.
pub proof fn lemma_compound_bytes(
    sr: SenderReport,
    rr: ReceiverReport,
    nack: Nack,
    fir: Fir,
    remb: Remb,
    c: RtcpCompound,
    d: RtcpCompound,
    p: RtcpPacket,
)
    ensures
        RtcpPacket::SenderReport(sr).wire() == sr@.wire(),
        RtcpPacket::ReceiverReport(rr).wire() == rr@.wire(),
        RtcpPacket::Nack(nack).wire() == nack@.wire(),
        RtcpPacket::Fir(fir).wire() == fir@.wire(),
        RtcpPacket::Remb(remb).wire() == remb@.wire(),
        p is SourceDescription ==> p.wire() == p->SourceDescription_0.wire(),
        p is Goodbye ==> p.wire() == p->Goodbye_0.wire(),
        p is Pli ==> p.wire() == p->Pli_0.wire(),
        c.packets@.len() == 0 ==> c.wire().len() == 0,
        d.packets@ == c.packets@.push(p) ==> d.wire() == c.wire() + p.wire(),
{
    if d.packets@ == c.packets@.push(p) {
        assert(d.packets@.drop_last() =~= c.packets@);
    }
}

/// A packet that waits to be played, and the buffer that holds it.
pub proof fn lemma_jitter_view(p: BufferedPacket, b: JitterBuffer)
    ensures
        p@.sequence == p.sequence,
        p@.timestamp == p.timestamp,
        p@.samples == p.samples@,
        p@.received_at == p.received_at,
        b@.config == b.config,
        b@.target_delay == b.target_delay,
        b@.next_seq == b.next_seq,
        b@.next_playout_ts == b.next_playout_ts,
        b@.stats == b.stats,
        b@.last_samples == b.last_samples@,
        b@.primed == b.primed,
        b@.first_packet_time == b.first_packet_time,
        b@.packets.dom() == b.packets@.dom(),
        forall|k: u32| #[trigger]
            b@.packets.contains_key(k) ==> b@.packets[k] == b.packets@[k]@,
{
    assert(b@.packets.dom() =~= b.packets@.dom());
}

/// What listens for the end of speech.
pub proof fn lemma_vad_view(v: VadState)
    ensures
        v@.silence_duration == v.silence_duration,
        v@.min_utterance_duration == v.min_utterance_duration,
        v@.last_speech_time == v.last_speech_time,
        v@.speech_start == v.speech_start,
        v@.in_utterance == v.in_utterance,
        v@.last_partial == text_of(v.last_partial),
        v@.stable_count == v.stable_count,
{
}

/// A conversation, and the client that holds it.
pub proof fn lemma_conversation_view(m: Message, all: Seq<Message>, i: int, a: OllamaClient, b: OllamaClient)
    ensures
        m@.role == m.role@,
        m@.content == m.content@,
        message_views(all).len() == all.len(),
        0 <= i < all.len() ==> message_views(all)[i] == all[i]@,
        a.same_setup(b) ==> a.endpoint == b.endpoint && a.model == b.model && a.system_prompt
            == b.system_prompt && a.temperature == b.temperature && a.max_tokens == b.max_tokens
            && a.max_history == b.max_history,
{
}

/// Pieces of sound are seen by their samples.
pub proof fn lemma_chunk_views(c: Seq<Vec<i16>>, i: int)
    ensures
        chunk_views(c).len() == c.len(),
        0 <= i < c.len() ==> chunk_views(c)[i] == c[i]@,
{
}

/// A reply, a call that comes in and the server.
pub proof fn lemma_server_view(r: Reply, c: IncomingCall, s: GabbyServer, t: GabbyServer, port: u16)
    ensures
        r@.status_code == r.status_code,
        r@.reason == r.reason@,
        r@.to_tag == text_of(r.to_tag),
        r@.contact_uri == text_of(r.contact_uri),
        r@.body == r.body@,
        c@.call_id == c.call_id@,
        c@.from_tag == c.from_tag@,
        c@.cseq == c.cseq,
        c@.remote_rtp_port == c.remote_rtp_port,
        c@.remote_rtp_ip == text_of(c.remote_rtp_ip),
        c@.to_tag == c.to_tag@,
        c@.stage == c.stage,
        InviteAction::Send(r)@ == InviteActionView::Send(r@),
        InviteAction::Start(port)@ == InviteActionView::Start(port),
        InviteAction::Done@ == InviteActionView::Done,
        s@.ports == s.allocated_rtp_ports@,
        s@.calls == s.active_calls@,
        s.same_setup(t) <==> s.config == t.config && s.local_sip_addr == t.local_sip_addr
            && s.local_ip == t.local_ip,
{
}

/// What STUN and TURN come to.
pub proof fn lemma_turn_view(a: TurnAllocation, auth: AuthContext, m: String, n: String, code: u16)
    ensures
        a@.relayed_addr == a.relayed_addr,
        a@.mapped_addr == a.mapped_addr,
        a@.lifetime == a.lifetime,
        a@.realm == a.realm@,
        a@.nonce == a.nonce@,
        auth@.username == auth.username@,
        auth@.realm == auth.realm@,
        auth@.nonce == auth.nonce@,
        AllocateResult::Success(a)@ == AllocateResultView::Success(a@),
        (AllocateResult::AuthRequired { realm: m, nonce: n })@ == (AllocateResultView::AuthRequired {
            realm: m@,
            nonce: n@,
        }),
        TurnError::Io(m)@ == TurnErrorView::Io(m@),
        TurnError::Timeout@ == TurnErrorView::Timeout,
        TurnError::InvalidResponse(m)@ == TurnErrorView::InvalidResponse(m@),
        (TurnError::ErrorResponse { code, reason: m })@ == (TurnErrorView::ErrorResponse {
            code,
            reason: m@,
        }),
        (TurnError::AuthRequired { realm: m, nonce: n })@ == (TurnErrorView::AuthRequired {
            realm: m@,
            nonce: n@,
        }),
        TurnError::NoRelayAddress@ == TurnErrorView::NoRelayAddress,
        TurnError::NotAllocated@ == TurnErrorView::NotAllocated,
        StunError::Io(m)@ == StunErrorView::Io(m@),
        StunError::Timeout@ == StunErrorView::Timeout,
        StunError::InvalidResponse(m)@ == StunErrorView::InvalidResponse(m@),
        StunError::NoMappedAddress@ == StunErrorView::NoMappedAddress,
{
}

/// A table of dialogs is seen as its maps are.
pub proof fn lemma_manager_view(m: DialogManager, i: int)
    ensures
        m@.next_handle == m.next_handle,
        m@.ids == m.id_to_handle@,
        m@.pending == m.pending_uac@,
        m@.dialogs.dom() == m.dialogs@.dom(),
        forall|h: crate::dialog::manager::DialogHandle| #[trigger]
            m@.dialogs.contains_key(h) ==> m@.dialogs[h] == m.dialogs@[h]@,
        m@.actions.len() == m.actions@.len(),
        0 <= i < m.actions@.len() ==> m@.actions[i] == m.actions@[i]@,
{
    assert(m@.dialogs.dom() =~= m.dialogs@.dom());
}

/// A table holds under a key what was put there last.
pub proof fn lemma_table(s: Seq<(DialogId, u64)>, id: DialogId, value: u64, other: IdView)
    ensures
        map_of(Seq::<(DialogId, u64)>::empty()).dom() == Set::<IdView>::empty(),
        map_of(s.push((id, value))).contains_key(id@),
        map_of(s.push((id, value)))[id@] == value,
        other != id@ ==> (map_of(s.push((id, value))).contains_key(other) <==> map_of(
            s,
        ).contains_key(other)),
        other != id@ && map_of(s).contains_key(other) ==> map_of(s.push((id, value)))[other]
            == map_of(s)[other],
{
    assert(s.push((id, value)).drop_last() =~= s);
}

} // verus!
