//! Gabby SIP server.
//!
//! Decides what happens to incoming SIP messages, and keeps the calls and their RTP ports.

use super::config::GabbyConfig;
use super::pipeline::stt::SttError;
use super::sdp::{
    answer_text, audio_port, connection_ip, extract_sdp_audio_port, extract_sdp_connection_ip,
    sdp_answer,
};
use crate::net::SocketAddr;
use crate::sip::{identifier, new_identifier, Method, RequestView, SipMessage, SipRequest};
use crate::table::Table;
use crate::text::{concat, lines, or_empty, push_decimal, text_of, text_or_empty, utf8_lossy};
use std::collections::HashSet;
use vstd::prelude::*;
use vstd::utf8::encode_utf8;

verus! {

broadcast use vstd::std_specs::hash::group_hash_axioms;

/// A response to a request. What it does not say, it takes from the request.
#[derive(Debug)]
pub struct Reply {
    pub status_code: u16,
    pub reason: String,
    /// Tag to be added to the To header.
    pub to_tag: Option<String>,
    pub contact_uri: Option<String>,
    /// SDP.
    pub body: Vec<u8>,
}

/// What a reply says.
#[verifier::ext_equal]
pub struct ReplyView {
    pub status_code: u16,
    pub reason: Seq<char>,
    pub to_tag: Option<Seq<char>>,
    pub contact_uri: Option<Seq<char>>,
    pub body: Seq<u8>,
}

impl View for Reply {
    type V = ReplyView;

    open spec fn view(&self) -> ReplyView {
        ReplyView {
            status_code: self.status_code,
            reason: self.reason@,
            to_tag: text_of(self.to_tag),
            contact_uri: text_of(self.contact_uri),
            body: self.body@,
        }
    }
}

impl ReplyView {
    /// A reply with a status alone.
    pub open spec fn bare(status_code: u16, reason: Seq<char>) -> ReplyView {
        ReplyView {
            status_code,
            reason,
            to_tag: None,
            contact_uri: None,
            body: Seq::empty(),
        }
    }
}

fn bare_reply(status_code: u16, reason: &str) -> (r: Reply)
    ensures
        r@ == ReplyView::bare(status_code, reason@),
{
    Reply {
        status_code,
        reason: reason.to_owned(),
        to_tag: None,
        contact_uri: None,
        body: Vec::new(),
    }
}

/// How far a call has come in being taken.
#[derive(Debug, Clone, Copy, PartialEq, Eq, Structural)]
pub enum InviteStage {
    /// The INVITE is in.
    Received,
    /// 100 is being sent.
    Trying,
    /// 180 is being sent.
    Ringing,
    /// 503 is being sent, for want of a port.
    Refusing,
    /// 200 is being sent, with this RTP port.
    Answering(u16),
    /// The call runs.
    Taken,
    /// The call was refused, or something could not be sent.
    Over,
}

/// A call that is being taken.
#[derive(Debug)]
pub struct IncomingCall {
    pub call_id: String,
    pub from_tag: String,
    pub cseq: u32,
    pub remote_rtp_port: u16,
    pub remote_rtp_ip: Option<String>,
    pub to_tag: String,
    pub stage: InviteStage,
}

/// What a call that is being taken is.
#[verifier::ext_equal]
pub struct CallView {
    pub call_id: Seq<char>,
    pub from_tag: Seq<char>,
    pub cseq: u32,
    pub remote_rtp_port: u16,
    pub remote_rtp_ip: Option<Seq<char>>,
    pub to_tag: Seq<char>,
    pub stage: InviteStage,
}

impl View for IncomingCall {
    type V = CallView;

    open spec fn view(&self) -> CallView {
        CallView {
            call_id: self.call_id@,
            from_tag: self.from_tag@,
            cseq: self.cseq,
            remote_rtp_port: self.remote_rtp_port,
            remote_rtp_ip: text_of(self.remote_rtp_ip),
            to_tag: self.to_tag@,
            stage: self.stage,
        }
    }
}

impl CallView {
    /// The call that an INVITE asks for, under a tag of ours. Without SDP the audio goes to port
    /// 10000.
    pub open spec fn of_invite(req: RequestView, tag: Seq<char>) -> CallView {
        let offer = lines(utf8_lossy(req.body));
        CallView {
            call_id: or_empty(req.call_id),
            from_tag: or_empty(req.from_tag),
            cseq: match req.cseq {
                Some(seq) => seq,
                None => 1,
            },
            remote_rtp_port: match audio_port(offer) {
                Some(port) => port,
                None => 10000,
            },
            remote_rtp_ip: connection_ip(offer),
            to_tag: "gabby-"@ + tag,
            stage: InviteStage::Received,
        }
    }

    /// The call at another stage.
    pub open spec fn at(self, stage: InviteStage) -> CallView {
        CallView { stage, ..self }
    }

    /// A reply with a status and our tag.
    pub open spec fn tagged(self, status_code: u16, reason: Seq<char>) -> ReplyView {
        ReplyView { to_tag: Some(self.to_tag), ..ReplyView::bare(status_code, reason) }
    }
}

impl IncomingCall {
    /// The call that an INVITE asks for, under a tag of ours.
    pub fn from_invite(req: &SipRequest, tag: &str) -> (r: Self)
        ensures
            r@ == CallView::of_invite(req@, tag@),
    {
        let cseq: u32 = match req.cseq {
            Some(seq) => seq,
            None => 1,
        };
        let remote_rtp_port: u16 = match extract_sdp_audio_port(req.body.as_slice()) {
            Some(port) => port,
            None => 10000,
        };
        IncomingCall {
            call_id: text_or_empty(&req.call_id),
            from_tag: text_or_empty(&req.from_tag),
            cseq,
            remote_rtp_port,
            remote_rtp_ip: extract_sdp_connection_ip(req.body.as_slice()),
            to_tag: concat("gabby-", tag),
            stage: InviteStage::Received,
        }
    }

    fn tagged_reply(&self, status_code: u16, reason: &str) -> (r: Reply)
        ensures
            r@ == self@.tagged(status_code, reason@),
    {
        Reply { to_tag: Some(self.to_tag.clone()), ..bare_reply(status_code, reason) }
    }
}

/// What is to be done next about a call that is being taken.
#[derive(Debug)]
pub enum InviteAction {
    /// Send this, and say whether it went out.
    Send(Reply),
    /// Start the call on this RTP port.
    Start(u16),
    /// Nothing.
    Done,
}

/// What an action about a call says.
pub enum InviteActionView {
    Send(ReplyView),
    Start(u16),
    Done,
}

impl View for InviteAction {
    type V = InviteActionView;

    open spec fn view(&self) -> InviteActionView {
        match self {
            InviteAction::Send(reply) => InviteActionView::Send(reply@),
            InviteAction::Start(port) => InviteActionView::Start(*port),
            InviteAction::Done => InviteActionView::Done,
        }
    }
}

/// What is to be done about a message.
#[derive(Debug)]
pub enum MessageAction {
    /// Nothing.
    Ignore,
    /// Take this call.
    TakeCall(IncomingCall),
    /// Send the reply, and then close the call of this Call-ID.
    CloseCall(String, Reply),
    /// Send the reply.
    Answer(Reply),
}

/// Where the RTP ports end that start at `start`.
pub open spec fn ports_end(start: u16) -> int {
    if start + 10000 <= u16::MAX {
        start + 10000
    } else {
        u16::MAX as int
    }
}

/// The first port from `p` on, in steps of two, that is below `end` and free.
pub open spec fn first_free(taken: Set<u16>, p: int, end: int) -> Option<u16>
    decreases end + 2 - p,
{
    if p >= end {
        None
    } else if !taken.contains(p as u16) {
        Some(p as u16)
    } else {
        first_free(taken, p + 2, end)
    }
}

/// Gabby SIP server.
pub struct GabbyServer {
    pub config: GabbyConfig,
    /// Address that SIP messages come to, and its IP alone.
    pub local_sip_addr: String,
    pub local_ip: String,
    /// Allocated RTP ports (to prevent collisions)
    pub allocated_rtp_ports: HashSet<u16>,
    /// Active calls by Call-ID, with their RTP ports
    pub active_calls: Table<String, u16>,
}

/// What a server knows of its calls.
#[verifier::ext_equal]
pub struct ServerView {
    pub ports: Set<u16>,
    pub calls: Map<Seq<char>, u16>,
}

impl ServerView {
    /// Every call has a port of its own, and the port is allocated.
    pub open spec fn ports_apart(self) -> bool {
        &&& forall|c: Seq<char>| #[trigger] self.calls.contains_key(c) ==> self.ports.contains(
            self.calls[c],
        )
        &&& forall|c: Seq<char>, d: Seq<char>| #[trigger]
            self.calls.contains_key(c) && #[trigger] self.calls.contains_key(d) && c != d
                ==> self.calls[c] != self.calls[d]
    }

    /// The port of a call that is being answered is allocated, and no other call has it.
    pub open spec fn keeps_for(self, stage: InviteStage) -> bool {
        match stage {
            InviteStage::Answering(port) => self.ports.contains(port) && forall|c: Seq<char>|
                #[trigger] self.calls.contains_key(c) ==> self.calls[c] != port,
            _ => true,
        }
    }

    /// The server once a call is over.
    pub open spec fn without(self, call_id: Seq<char>) -> ServerView {
        if self.calls.contains_key(call_id) {
            ServerView {
                ports: self.ports.remove(self.calls[call_id]),
                calls: self.calls.remove(call_id),
            }
        } else {
            self
        }
    }
}

impl View for GabbyServer {
    type V = ServerView;

    open spec fn view(&self) -> ServerView {
        ServerView { ports: self.allocated_rtp_ports@, calls: self.active_calls@ }
    }
}

impl GabbyServer {
    /// The table holds one port for a call, and every call has a port of its own.
    pub open spec fn wf(self) -> bool {
        &&& self.active_calls.wf()
        &&& self@.ports_apart()
    }

    /// What is fixed about a server.
    pub open spec fn same_setup(self, other: GabbyServer) -> bool {
        &&& self.config == other.config
        &&& self.local_sip_addr == other.local_sip_addr
        &&& self.local_ip == other.local_ip
    }

    /// The IP that a server tells callers to send audio to.
    pub open spec fn media_ip(self) -> Seq<char> {
        match self.config.server.public_ip {
            Some(ip) => ip@,
            None => self.local_ip@,
        }
    }

    /// The URI that a server is reached by.
    pub open spec fn contact(self) -> Seq<char> {
        "sip:gabby@"@ + self.local_sip_addr@
    }

    /// Create a new Gabby server that SIP messages come to at an address.
    pub fn new(config: GabbyConfig, local_sip_addr: String, local_ip: String) -> (r: Self)
        ensures
            r.wf(),
            r.config == config,
            r.local_sip_addr == local_sip_addr,
            r.local_ip == local_ip,
            r@ == (ServerView { ports: Set::empty(), calls: Map::empty() }),
    {
        GabbyServer {
            config,
            local_sip_addr,
            local_ip,
            allocated_rtp_ports: HashSet::new(),
            active_calls: Table::new(),
        }
    }

    /// The port that is allocated next.
    pub open spec fn next_port(self) -> Option<u16> {
        let start = self.config.server.rtp_port_start;
        first_free(self@.ports, start as int, ports_end(start))
    }

    /// Allocate an RTP port that isn't currently in use.
    pub fn allocate_rtp_port(&mut self) -> (r: Option<u16>)
        requires
            old(self).active_calls.wf(),
        ensures
            r == old(self).next_port(),
            final(self).same_setup(*old(self)),
            final(self).active_calls == old(self).active_calls,
            final(self)@ == match r {
                Some(p) => ServerView { ports: old(self)@.ports.insert(p), ..old(self)@ },
                None => old(self)@,
            },
    {
        let start: u32 = self.config.server.rtp_port_start as u32;
        let end: u32 = if start + 10000 <= 65535 {
            start + 10000
        } else {
            65535
        };
        let mut port: u32 = start;
        while port < end
            invariant
                *self == *old(self),
                start == self.config.server.rtp_port_start,
                end == ports_end(self.config.server.rtp_port_start),
                end <= 65535,
                start <= port,
                self.next_port() == first_free(self@.ports, port as int, end as int),
            decreases end + 2 - port,
        {
            if !self.allocated_rtp_ports.contains(&(port as u16)) {
                self.allocated_rtp_ports.insert(port as u16);
                return Some(port as u16);
            }
            port = port + 2;
        }
        None
    }

    /// Free an RTP port when a call ends.
    pub fn free_rtp_port(&mut self, port: u16)
        ensures
            final(self).same_setup(*old(self)),
            final(self).active_calls == old(self).active_calls,
            final(self)@ == (ServerView { ports: old(self)@.ports.remove(port), ..old(self)@ }),
    {
        self.allocated_rtp_ports.remove(&port);
    }

    /// What is to be done about an incoming message. One that could not be parsed is `None`.
    pub fn handle_sip_message(&self, message: Option<SipMessage>) -> (r: MessageAction)
        ensures
            match message {
                Some(SipMessage::Request(req)) => match req.method {
                    Method::Invite => r matches MessageAction::TakeCall(call) && exists|
                        tag: Seq<char>,
                    | #[trigger] identifier(tag) && call@ == CallView::of_invite(req@, tag),
                    Method::Bye | Method::Cancel => r matches MessageAction::CloseCall(
                        call_id,
                        reply,
                    ) && call_id@ == or_empty(req@.call_id) && reply@ == ReplyView::bare(
                        200,
                        "OK"@,
                    ),
                    Method::Options => r matches MessageAction::Answer(reply) && reply@
                        == (ReplyView {
                        contact_uri: Some(self.contact()),
                        ..ReplyView::bare(200, "OK"@)
                    }),
                    _ => r is Ignore,
                },
                _ => r is Ignore,
            },
    {
        match message {
            Some(SipMessage::Request(req)) => match req.method {
                Method::Invite => {
                    let tag: String = new_identifier();
                    MessageAction::TakeCall(IncomingCall::from_invite(&req, tag.as_str()))
                },
                Method::Bye => MessageAction::CloseCall(
                    text_or_empty(&req.call_id),
                    bare_reply(200, "OK"),
                ),
                Method::Cancel => MessageAction::CloseCall(
                    text_or_empty(&req.call_id),
                    bare_reply(200, "OK"),
                ),
                Method::Options => MessageAction::Answer(
                    Reply {
                        contact_uri: Some(concat("sip:gabby@", self.local_sip_addr.as_str())),
                        ..bare_reply(200, "OK")
                    },
                ),
                _ => MessageAction::Ignore,
            },
            _ => MessageAction::Ignore,
        }
    }

    /// The 200 that takes a call.
    pub open spec fn acceptance(self, call: CallView, port: u16, session_id: u64) -> ReplyView {
        ReplyView {
            contact_uri: Some(self.contact()),
            body: encode_utf8(answer_text(session_id, self.media_ip(), port)),
            ..call.tagged(200, "OK"@)
        }
    }

    /// What becomes of a call and of the server, and what is to be done, once what was being sent
    /// has been sent or not.
    pub open spec fn invite_step(self, call: CallView, sent: bool, session_id: u64) -> (
        ServerView,
        CallView,
        InviteActionView,
    ) {
        let dropped = (self@, call.at(InviteStage::Over), InviteActionView::Done);
        match call.stage {
            InviteStage::Received => (
                self@,
                call.at(InviteStage::Trying),
                InviteActionView::Send(ReplyView::bare(100, "Trying"@)),
            ),
            InviteStage::Trying => if sent {
                (
                    self@,
                    call.at(InviteStage::Ringing),
                    InviteActionView::Send(call.tagged(180, "Ringing"@)),
                )
            } else {
                dropped
            },
            InviteStage::Ringing => if sent {
                match self.next_port() {
                    Some(port) => (
                        ServerView { ports: self@.ports.insert(port), ..self@ },
                        call.at(InviteStage::Answering(port)),
                        InviteActionView::Send(self.acceptance(call, port, session_id)),
                    ),
                    None => (
                        self@,
                        call.at(InviteStage::Refusing),
                        InviteActionView::Send(call.tagged(503, "Service Unavailable"@)),
                    ),
                }
            } else {
                dropped
            },
            InviteStage::Answering(port) => if sent {
                (
                    ServerView { calls: self@.calls.insert(call.call_id, port), ..self@ },
                    call.at(InviteStage::Taken),
                    InviteActionView::Start(port),
                )
            } else {
                dropped
            },
            InviteStage::Taken => (self@, call, InviteActionView::Done),
            _ => dropped,
        }
    }

    /// Takes a call one step further: says what is to be sent next, once what was being sent has
    /// been sent or not. The call is answered in the session of the given name.
    ///
    /// A call that cannot be told that it is taken leaves its port allocated.
    pub fn handle_invite(&mut self, call: &mut IncomingCall, sent: bool, session_id: u64) -> (r:
        InviteAction)
        requires
            old(self).wf(),
            old(self)@.keeps_for(old(call)@.stage),
        ensures
            final(self).wf(),
            final(self)@.keeps_for(final(call)@.stage),
            final(self).same_setup(*old(self)),
            (final(self)@, final(call)@, r@) == old(self).invite_step(
                old(call)@,
                sent,
                session_id,
            ),
    {
        match call.stage {
            InviteStage::Received => {
                call.stage = InviteStage::Trying;
                InviteAction::Send(bare_reply(100, "Trying"))
            },
            InviteStage::Trying => {
                if !sent {
                    call.stage = InviteStage::Over;
                    return InviteAction::Done;
                }
                call.stage = InviteStage::Ringing;
                InviteAction::Send(call.tagged_reply(180, "Ringing"))
            },
            InviteStage::Ringing => {
                if !sent {
                    call.stage = InviteStage::Over;
                    return InviteAction::Done;
                }
                match self.allocate_rtp_port() {
                    Some(port) => {
                        proof {
                            lemma_first_free(
                                old(self)@.ports,
                                old(self).config.server.rtp_port_start as int,
                                ports_end(old(self).config.server.rtp_port_start),
                            );
                        }
                        call.stage = InviteStage::Answering(port);
                        let sdp: String = match &self.config.server.public_ip {
                            Some(ip) => sdp_answer(session_id, ip.as_str(), port),
                            None => sdp_answer(session_id, self.local_ip.as_str(), port),
                        };
                        InviteAction::Send(
                            Reply {
                                contact_uri: Some(
                                    concat("sip:gabby@", self.local_sip_addr.as_str()),
                                ),
                                body: sdp.as_str().as_bytes_vec(),
                                ..call.tagged_reply(200, "OK")
                            },
                        )
                    },
                    None => {
                        call.stage = InviteStage::Refusing;
                        InviteAction::Send(call.tagged_reply(503, "Service Unavailable"))
                    },
                }
            },
            InviteStage::Answering(port) => {
                if !sent {
                    call.stage = InviteStage::Over;
                    return InviteAction::Done;
                }
                call.stage = InviteStage::Taken;
                self.active_calls.insert(call.call_id.clone(), port);
                InviteAction::Start(port)
            },
            InviteStage::Taken => InviteAction::Done,
            _ => {
                call.stage = InviteStage::Over;
                InviteAction::Done
            },
        }
    }

    /// Forgets a call that has ended or is to end, and frees its RTP port. Returns the port, if
    /// there was such a call.
    pub fn handle_call_end(&mut self, ended_call_id: &String) -> (r: Option<u16>)
        requires
            old(self).wf(),
        ensures
            final(self).wf(),
            final(self).same_setup(*old(self)),
            final(self)@ == old(self)@.without(ended_call_id@),
            r == if old(self)@.calls.contains_key(ended_call_id@) {
                Some(old(self)@.calls[ended_call_id@])
            } else {
                None
            },
    {
        match self.active_calls.take(ended_call_id) {
            Some(port) => {
                self.free_rtp_port(port);
                assert(old(self)@.calls.contains_key(ended_call_id@));
                Some(port)
            },
            None => {
                assert(self.active_calls@ =~= old(self).active_calls@);
                None
            },
        }
    }
}

/// The socket address that the caller's SDP names, as text. `None` where it names no IP.
pub fn remote_rtp_text(remote_rtp_ip: &Option<String>, remote_rtp_port: u16) -> (r: Option<String>)
    ensures
        match (remote_rtp_ip, r) {
            (Some(ip), Some(text)) => text@ == ip@ + ":"@ + crate::text::decimal(
                remote_rtp_port as nat,
            ),
            (None, None) => true,
            _ => false,
        },
{
    match remote_rtp_ip {
        Some(ip) => {
            let mut s: String = concat(ip.as_str(), ":");
            push_decimal(&mut s, remote_rtp_port as u64);
            Some(s)
        },
        None => None,
    }
}

/// Where audio is sent: to the socket address that the caller's SDP names, if it is one, and else
/// to the IP that the INVITE came from.
pub fn resolve_remote_rtp_addr(
    named: Option<SocketAddr>,
    remote_rtp_port: u16,
    source: SocketAddr,
) -> (r: SocketAddr)
    ensures
        r == match named {
            Some(addr) => addr,
            None => SocketAddr { ip: source.ip, port: remote_rtp_port },
        },
{
    match named {
        Some(addr) => addr,
        None => SocketAddr { ip: source.ip, port: remote_rtp_port },
    }
}

/// Server errors.
#[derive(Debug, Clone)]
pub enum ServerError {
    /// An address, and why it cannot be bound to.
    BindFailed(String, String),
    /// A socket failed, in its own words.
    IoError(String),
    SttError(SttError),
    /// Why a response cannot be built.
    ResponseBuildFailed(String),
}

impl ServerError {
    /// What the error says.
    pub open spec fn text(self) -> Seq<char> {
        match self {
            ServerError::BindFailed(addr, e) => "Failed to bind to "@ + addr@ + ": "@ + e@,
            ServerError::IoError(e) => "IO error: "@ + e@,
            ServerError::SttError(e) => "STT error: "@ + e.text(),
            ServerError::ResponseBuildFailed(e) => "Failed to build SIP response: "@ + e@,
        }
    }

    /// What the error says.
    pub fn describe(&self) -> (r: String)
        ensures
            r@ == self.text(),
    {
        match self {
            ServerError::BindFailed(addr, e) => {
                let mut s: String = concat("Failed to bind to ", addr.as_str());
                s.append(": ");
                s.append(e.as_str());
                s
            },
            ServerError::IoError(e) => concat("IO error: ", e.as_str()),
            ServerError::SttError(e) => concat("STT error: ", e.describe().as_str()),
            ServerError::ResponseBuildFailed(e) => concat(
                "Failed to build SIP response: ",
                e.as_str(),
            ),
        }
    }
}

/// The port that is allocated is free, lies in the range, an even number of ports from its start,
/// and no such port before it is free. There is none only where none is free.
pub proof fn lemma_first_free(taken: Set<u16>, p: int, end: int)
    requires
        0 <= p,
        end <= u16::MAX,
    ensures
        match first_free(taken, p, end) {
            Some(r) => !taken.contains(r) && p <= r < end && (r - p) % 2 == 0 && forall|q: u16|
                p <= q < r && (q - p) % 2 == 0 ==> #[trigger] taken.contains(q),
            None => forall|q: u16| p <= q < end && (q - p) % 2 == 0 ==> #[trigger] taken.contains(q),
        },
    decreases end + 2 - p,
{
    if p < end && taken.contains(p as u16) {
        lemma_first_free(taken, p + 2, end);
        match first_free(taken, p, end) {
            Some(r) => {
                assert forall|q: u16| p <= q < r && (q - p) % 2 == 0 implies #[trigger] taken.contains(
                    q,
                ) by {
                    if q != p {
                        assert(q >= p + 2);
                    }
                }
            },
            None => {
                assert forall|q: u16| p <= q < end && (q - p) % 2 == 0 implies #[trigger] taken.contains(
                    q,
                ) by {
                    if q != p {
                        assert(q >= p + 2);
                    }
                }
            },
        }
    }
}

/// Ending a call frees its port and leaves every other call with its own.
pub proof fn lemma_end_frees(s: ServerView, call_id: Seq<char>, other: Seq<char>)
    requires
        s.ports_apart(),
        s.calls.contains_key(call_id),
        s.calls.contains_key(other),
        other != call_id,
    ensures
        !s.without(call_id).ports.contains(s.calls[call_id]),
        s.without(call_id).calls.contains_key(other),
        s.without(call_id).calls[other] == s.calls[other],
        s.without(call_id).ports.contains(s.calls[other]),
        s.without(call_id).ports_apart(),
{
}

/// A call that finds a port free and can be told so at every step is taken, on the port that it
/// was told, and with the tag that it was told.
pub proof fn lemma_call_taken(s: GabbyServer, t: GabbyServer, call: CallView, port: u16, id: u64)
    requires
        call.stage == InviteStage::Ringing,
        s.next_port() == Some(port),
        t@ == s.invite_step(call, true, id).0,
    ensures
        s.invite_step(call, true, id).2 == InviteActionView::Send(s.acceptance(call, port, id)),
        t.invite_step(s.invite_step(call, true, id).1, true, id).2 == InviteActionView::Start(port),
        t.invite_step(s.invite_step(call, true, id).1, true, id).0.calls.contains_key(call.call_id),
        t.invite_step(s.invite_step(call, true, id).1, true, id).0.calls[call.call_id] == port,
        s.acceptance(call, port, id).to_tag == Some(call.to_tag),
{
}

} // verus!
