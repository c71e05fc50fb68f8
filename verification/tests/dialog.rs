//! Dialogs: what identifies them, the INVITE dialog and the manager of dialogs.

use rsiprtp::dialog::invite::{Action, Event, InviteDialog, Role, TerminationReason};
use rsiprtp::dialog::manager::{DialogHandle, DialogManager, ManagerAction, ManagerEvent};
use rsiprtp::dialog::state::{DialogId, DialogInfo, DialogState, RouteSet};
use rsiprtp::sip::{is_addressable, via_value, Method, SipMessage, SipRequest, SipResponse};
use rsiprtp::sip_text::parse_message;
use std::collections::HashSet;

fn as_request(message: SipMessage) -> Option<SipRequest> {
    match message {
        SipMessage::Request(request) => Some(request),
        SipMessage::Response(_) => None,
    }
}

fn parse_request(raw: &str) -> SipRequest {
    as_request(parse_message(raw.as_bytes()).unwrap()).unwrap()
}

fn parse_response(raw: &str) -> SipResponse {
    match parse_message(raw.as_bytes()).unwrap() {
        SipMessage::Response(response) => response,
        SipMessage::Request(_) => panic!("expected a response"),
    }
}

/// Puts a request together, header by header.
struct RequestBuilder(SipRequest);

fn new_request() -> RequestBuilder {
    RequestBuilder(SipRequest {
        method: Method::Options,
        uri: String::new(),
        vias: Vec::new(),
        from_uri: None,
        from_tag: None,
        to_uri: None,
        to_tag: None,
        call_id: None,
        cseq: None,
        contact_uri: None,
        record_routes: Vec::new(),
        body: Vec::new(),
    })
}

#[allow(dead_code)]
impl RequestBuilder {
    fn method(mut self, method: Method) -> Self {
        self.0.method = method;
        self
    }

    fn uri(mut self, uri: &str) -> Self {
        self.0.uri = uri.to_string();
        self
    }

    fn via(mut self, host: &str, port: u16, protocol: &str, branch: &str) -> Self {
        self.0.vias.push(via_value(host, port, protocol, branch));
        self
    }

    fn from(mut self, uri: &str, tag: &str) -> Self {
        self.0.from_uri = Some(uri.to_string());
        self.0.from_tag = Some(tag.to_string());
        self
    }

    fn to(mut self, uri: &str) -> Self {
        self.0.to_uri = Some(uri.to_string());
        self
    }

    fn to_tag(mut self, tag: &str) -> Self {
        self.0.to_tag = Some(tag.to_string());
        self
    }

    fn call_id(mut self, call_id: &str) -> Self {
        self.0.call_id = Some(call_id.to_string());
        self
    }

    fn cseq(mut self, cseq: u32) -> Self {
        self.0.cseq = Some(cseq);
        self
    }

    fn contact(mut self, uri: &str) -> Self {
        self.0.contact_uri = Some(uri.to_string());
        self
    }

    fn build(self) -> Option<SipRequest> {
        if is_addressable(&self.0.uri) {
            Some(self.0)
        } else {
            None
        }
    }
}

/// Puts a response together.
struct ResponseBuilder(SipResponse);

fn new_response() -> ResponseBuilder {
    ResponseBuilder(SipResponse {
        status_code: 0,
        reason: String::new(),
        from_tag: None,
        to_tag: None,
        call_id: None,
        contact_uri: None,
        record_routes: Vec::new(),
        body: Vec::new(),
    })
}

#[allow(dead_code)]
impl ResponseBuilder {
    fn status(mut self, code: u16, reason: &str) -> Self {
        self.0.status_code = code;
        self.0.reason = reason.to_string();
        self
    }

    fn from_request(mut self, request: &SipRequest) -> Self {
        self.0.from_tag = request.from_tag.clone();
        self.0.to_tag = request.to_tag.clone();
        self.0.call_id = request.call_id.clone();
        self.0.record_routes = request.record_routes.clone();
        self
    }

    fn to_tag(mut self, tag: &str) -> Self {
        self.0.to_tag = Some(tag.to_string());
        self
    }

    fn contact(mut self, uri: &str) -> Self {
        self.0.contact_uri = Some(uri.to_string());
        self
    }

    fn build(self) -> Option<SipResponse> {
        if self.0.status_code > 0 {
            Some(self.0)
        } else {
            None
        }
    }
}

fn create_invite() -> SipRequest {
    new_request()
        .method(Method::Invite)
        .uri("sip:bob@example.com")
        .via("192.168.1.1", 5060, "UDP", "z9hG4bKtest")
        .from("sip:alice@example.com", "fromtag")
        .to("sip:bob@example.com")
        .call_id("test@example.com")
        .cseq(1)
        .contact("sip:alice@192.168.1.1:5060")
        .build()
        .unwrap()
}

fn create_ok_response(request: &SipRequest) -> SipResponse {
    new_response()
        .status(200, "OK")
        .from_request(request)
        .to_tag("totag")
        .contact("sip:bob@192.168.1.2:5060")
        .build()
        .unwrap()
}

fn create_response(request: &SipRequest, code: u16) -> SipResponse {
    new_response()
        .status(code, "Test")
        .from_request(request)
        .to_tag("totag")
        .contact("sip:bob@192.168.1.2:5060")
        .build()
        .unwrap()
}

fn is_rejected_termination(action: &Action) -> bool {
    matches!(
        action,
        Action::Event(Event::Terminated(TerminationReason::Rejected(_)))
    )
}

/// An INVITE as it is sent.
fn invite_text(invite: &SipRequest) -> String {
    format!(
        "INVITE {} SIP/2.0\r\nVia: {}\r\nFrom: <{}>;tag={}\r\nTo: <{}>\r\nCall-ID: {}\r\n\
CSeq: {} INVITE\r\nContact: <{}>\r\nContent-Length: 0\r\n\r\n",
        invite.uri,
        invite.vias[0],
        invite.from_uri.as_ref().unwrap(),
        invite.from_tag.as_ref().unwrap(),
        invite.to_uri.as_ref().unwrap(),
        invite.call_id.as_ref().unwrap(),
        invite.cseq.unwrap(),
        invite.contact_uri.as_ref().unwrap(),
    )
}

#[test]
fn test_dialog_id_from_response_uac() {
    let invite = create_invite();
    let response = create_ok_response(&invite);
    let id = DialogId::from_response_uac(&response).unwrap();

    assert_eq!(id.call_id, "test@example.com");
    assert_eq!(id.local_tag, "fromtag");
    assert_eq!(id.remote_tag, "totag");
}

#[test]
fn test_dialog_id_from_request_uac_missing_call_id() {
    let invite = parse_request(
        "INVITE sip:bob@example.com SIP/2.0\r\n\
Via: SIP/2.0/UDP 192.168.1.1:5060;branch=z9hG4bKtest\r\n\
From: <sip:alice@example.com>;tag=fromtag\r\n\
To: <sip:bob@example.com>\r\n\
CSeq: 1 INVITE\r\n\
Contact: <sip:alice@192.168.1.1:5060>\r\n\
Content-Length: 0\r\n\
\r\n",
    );
    let id = DialogId::from_request_uac(&invite, "remotetag");
    assert!(id.is_none());
}

#[test]
fn test_dialog_id_from_request_uac_missing_from_tag() {
    let invite = parse_request(
        "INVITE sip:bob@example.com SIP/2.0\r\n\
Via: SIP/2.0/UDP 192.168.1.1:5060;branch=z9hG4bKtest\r\n\
From: <sip:alice@example.com>\r\n\
To: <sip:bob@example.com>\r\n\
Call-ID: test@example.com\r\n\
CSeq: 1 INVITE\r\n\
Contact: <sip:alice@192.168.1.1:5060>\r\n\
Content-Length: 0\r\n\
\r\n",
    );
    let id = DialogId::from_request_uac(&invite, "remotetag");
    assert!(id.is_none());
}

#[test]
fn test_dialog_id_from_response_uac_missing_call_id() {
    let response = parse_response(
        "SIP/2.0 200 OK\r\n\
Via: SIP/2.0/UDP 192.168.1.1:5060;branch=z9hG4bKtest\r\n\
From: <sip:alice@example.com>;tag=fromtag\r\n\
To: <sip:bob@example.com>;tag=totag\r\n\
CSeq: 1 INVITE\r\n\
Contact: <sip:bob@192.168.1.2:5060>\r\n\
Content-Length: 0\r\n\
\r\n",
    );
    let id = DialogId::from_response_uac(&response);
    assert!(id.is_none());
}

#[test]
fn test_dialog_id_from_response_uac_missing_from_tag() {
    let response = parse_response(
        "SIP/2.0 200 OK\r\n\
Via: SIP/2.0/UDP 192.168.1.1:5060;branch=z9hG4bKtest\r\n\
From: <sip:alice@example.com>\r\n\
To: <sip:bob@example.com>;tag=totag\r\n\
Call-ID: test@example.com\r\n\
CSeq: 1 INVITE\r\n\
Contact: <sip:bob@192.168.1.2:5060>\r\n\
Content-Length: 0\r\n\
\r\n",
    );
    let id = DialogId::from_response_uac(&response);
    assert!(id.is_none());
}

#[test]
fn test_dialog_id_from_request_uas_missing_call_id() {
    let invite = parse_request(
        "INVITE sip:bob@example.com SIP/2.0\r\n\
Via: SIP/2.0/UDP 192.168.1.1:5060;branch=z9hG4bKtest\r\n\
From: <sip:alice@example.com>;tag=fromtag\r\n\
To: <sip:bob@example.com>\r\n\
CSeq: 1 INVITE\r\n\
Contact: <sip:alice@192.168.1.1:5060>\r\n\
Content-Length: 0\r\n\
\r\n",
    );
    let id = DialogId::from_request_uas(&invite, "localtag");
    assert!(id.is_none());
}

#[test]
fn test_dialog_id_from_request_uas_missing_from_tag() {
    let invite = parse_request(
        "INVITE sip:bob@example.com SIP/2.0\r\n\
Via: SIP/2.0/UDP 192.168.1.1:5060;branch=z9hG4bKtest\r\n\
From: <sip:alice@example.com>\r\n\
To: <sip:bob@example.com>\r\n\
Call-ID: test@example.com\r\n\
CSeq: 1 INVITE\r\n\
Contact: <sip:alice@192.168.1.1:5060>\r\n\
Content-Length: 0\r\n\
\r\n",
    );
    let id = DialogId::from_request_uas(&invite, "mytag");
    assert!(id.is_none());
}

#[test]
fn test_dialog_id_from_request_uac() {
    let invite = create_invite();
    let id = DialogId::from_request_uac(&invite, "remotetag").unwrap();
    assert_eq!(id.call_id, "test@example.com");
    assert_eq!(id.local_tag, "fromtag");
    assert_eq!(id.remote_tag, "remotetag");
}

#[test]
fn test_dialog_id_from_request_uas() {
    let invite = create_invite();
    let id = DialogId::from_request_uas(&invite, "mytag").unwrap();

    assert_eq!(id.call_id, "test@example.com");
    assert_eq!(id.local_tag, "mytag");
    assert_eq!(id.remote_tag, "fromtag");
}

#[test]
fn test_dialog_info_from_invite_uas_option() {
    let invite = create_invite();
    let info = DialogInfo::from_invite_uas(
        &invite,
        "localtag",
        "sip:local@example.com",
        DialogState::Early,
    )
    .unwrap();

    assert_eq!(info.state, DialogState::Early);
    assert_eq!(info.remote_seq, Some(1));
    assert_eq!(info.remote_uri, "sip:alice@example.com");
}

#[test]
fn test_dialog_info_from_response() {
    let invite = create_invite();
    let response = create_ok_response(&invite);
    let info = DialogInfo::from_invite_response_uac(&invite, &response, DialogState::Confirmed)
        .unwrap();

    assert_eq!(info.state, DialogState::Confirmed);
    assert_eq!(info.local_seq, 1);
    assert!(info.remote_seq.is_none());
}

#[test]
fn test_dialog_info_from_response_invalid_from_uri() {
    let invite = parse_request(
        "INVITE sip:bob@example.com SIP/2.0\r\n\
Via: SIP/2.0/UDP 192.168.1.1:5060;branch=z9hG4bKtest\r\n\
From: <sip:alice@[::1>;tag=fromtag\r\n\
To: <sip:bob@example.com>\r\n\
Call-ID: test@example.com\r\n\
CSeq: 1 INVITE\r\n\
Contact: <sip:alice@192.168.1.1:5060>\r\n\
Content-Length: 0\r\n\
\r\n",
    );
    assert!(invite.from_uri.is_none());
    let response = parse_response(
        "SIP/2.0 200 OK\r\n\
Via: SIP/2.0/UDP 192.168.1.1:5060;branch=z9hG4bKtest\r\n\
From: <sip:alice@example.com>;tag=fromtag\r\n\
To: <sip:bob@example.com>;tag=totag\r\n\
Call-ID: test@example.com\r\n\
CSeq: 1 INVITE\r\n\
Contact: <sip:bob@192.168.1.2:5060>\r\n\
Content-Length: 0\r\n\
\r\n",
    );
    let info = DialogInfo::from_invite_response_uac(&invite, &response, DialogState::Confirmed);
    assert!(info.is_none());
}

#[test]
fn test_dialog_info_from_response_invalid_to_uri() {
    let invite = parse_request(
        "INVITE sip:bob@example.com SIP/2.0\r\n\
Via: SIP/2.0/UDP 192.168.1.1:5060;branch=z9hG4bKtest\r\n\
From: <sip:alice@example.com>;tag=fromtag\r\n\
To: <sip:bob@[::1>\r\n\
Call-ID: test@example.com\r\n\
CSeq: 1 INVITE\r\n\
Contact: <sip:alice@192.168.1.1:5060>\r\n\
Content-Length: 0\r\n\
\r\n",
    );
    assert!(invite.to_uri.is_none());
    let response = parse_response(
        "SIP/2.0 200 OK\r\n\
Via: SIP/2.0/UDP 192.168.1.1:5060;branch=z9hG4bKtest\r\n\
From: <sip:alice@example.com>;tag=fromtag\r\n\
To: <sip:bob@example.com>;tag=totag\r\n\
Call-ID: test@example.com\r\n\
CSeq: 1 INVITE\r\n\
Contact: <sip:bob@192.168.1.2:5060>\r\n\
Content-Length: 0\r\n\
\r\n",
    );
    let info = DialogInfo::from_invite_response_uac(&invite, &response, DialogState::Confirmed);
    assert!(info.is_none());
}

#[test]
fn test_dialog_info_from_response_missing_contact() {
    let invite = create_invite();
    let response = parse_response(
        "SIP/2.0 200 OK\r\n\
Via: SIP/2.0/UDP 192.168.1.1:5060;branch=z9hG4bKtest\r\n\
From: <sip:alice@example.com>;tag=fromtag\r\n\
To: <sip:bob@example.com>;tag=totag\r\n\
Call-ID: test@example.com\r\n\
CSeq: 1 INVITE\r\n\
Content-Length: 0\r\n\
\r\n",
    );
    let info = DialogInfo::from_invite_response_uac(&invite, &response, DialogState::Confirmed);
    assert!(info.is_none());
}

#[test]
fn test_dialog_info_from_response_invalid_cseq() {
    let invite = parse_request(
        "INVITE sip:bob@example.com SIP/2.0\r\n\
Via: SIP/2.0/UDP 192.168.1.1:5060;branch=z9hG4bKtest\r\n\
From: <sip:alice@example.com>;tag=fromtag\r\n\
To: <sip:bob@example.com>\r\n\
Call-ID: test@example.com\r\n\
CSeq: abc INVITE\r\n\
Contact: <sip:alice@192.168.1.1:5060>\r\n\
Content-Length: 0\r\n\
\r\n",
    );
    let response = create_ok_response(&invite);
    let info = DialogInfo::from_invite_response_uac(&invite, &response, DialogState::Confirmed);
    assert!(info.is_none());
}

#[test]
fn test_dialog_info_from_invite_uas_invalid_from_uri() {
    let invite = parse_request(
        "INVITE sip:bob@example.com SIP/2.0\r\n\
Via: SIP/2.0/UDP 192.168.1.1:5060;branch=z9hG4bKtest\r\n\
From: <sip:alice@[::1>;tag=fromtag\r\n\
To: <sip:bob@example.com>\r\n\
Call-ID: test@example.com\r\n\
CSeq: 1 INVITE\r\n\
Contact: <sip:alice@192.168.1.1:5060>\r\n\
Content-Length: 0\r\n\
\r\n",
    );
    assert!(invite.from_uri.is_none());
    let info = DialogInfo::from_invite_uas(
        &invite,
        "localtag",
        "sip:local@example.com",
        DialogState::Early,
    );
    assert!(info.is_none());
}

#[test]
fn test_dialog_info_from_invite_uas_invalid_to_uri() {
    let invite = parse_request(
        "INVITE sip:bob@example.com SIP/2.0\r\n\
Via: SIP/2.0/UDP 192.168.1.1:5060;branch=z9hG4bKtest\r\n\
From: <sip:alice@example.com>;tag=fromtag\r\n\
To: <sip:bob@[::1>\r\n\
Call-ID: test@example.com\r\n\
CSeq: 1 INVITE\r\n\
Contact: <sip:alice@192.168.1.1:5060>\r\n\
Content-Length: 0\r\n\
\r\n",
    );
    let info = DialogInfo::from_invite_uas(
        &invite,
        "localtag",
        "sip:local@example.com",
        DialogState::Early,
    );
    assert!(info.is_none());
}

#[test]
fn test_dialog_info_from_invite_uas_invalid_contact() {
    let invite = parse_request(
        "INVITE sip:bob@example.com SIP/2.0\r\n\
Via: SIP/2.0/UDP 192.168.1.1:5060;branch=z9hG4bKtest\r\n\
From: <sip:alice@example.com>;tag=fromtag\r\n\
To: <sip:bob@example.com>\r\n\
Call-ID: test@example.com\r\n\
CSeq: 1 INVITE\r\n\
Contact: <sip:alice@[::1>\r\n\
Content-Length: 0\r\n\
\r\n",
    );
    let info = DialogInfo::from_invite_uas(
        &invite,
        "localtag",
        "sip:local@example.com",
        DialogState::Early,
    );
    assert!(info.is_none());
}

#[test]
fn test_dialog_info_from_invite_uas_invalid_cseq() {
    let invite = parse_request(
        "INVITE sip:bob@example.com SIP/2.0\r\n\
Via: SIP/2.0/UDP 192.168.1.1:5060;branch=z9hG4bKtest\r\n\
From: <sip:alice@example.com>;tag=fromtag\r\n\
To: <sip:bob@example.com>\r\n\
Call-ID: test@example.com\r\n\
CSeq: abc INVITE\r\n\
Contact: <sip:alice@192.168.1.1:5060>\r\n\
Content-Length: 0\r\n\
\r\n",
    );
    let info = DialogInfo::from_invite_uas(
        &invite,
        "localtag",
        "sip:local@example.com",
        DialogState::Early,
    );
    assert!(info.is_none());
}

#[test]
fn test_dialog_info_from_invite_uas_missing_call_id() {
    let invite = parse_request(
        "INVITE sip:bob@example.com SIP/2.0\r\n\
Via: SIP/2.0/UDP 192.168.1.1:5060;branch=z9hG4bKtest\r\n\
From: <sip:alice@example.com>;tag=fromtag\r\n\
To: <sip:bob@example.com>\r\n\
CSeq: 1 INVITE\r\n\
Contact: <sip:alice@192.168.1.1:5060>\r\n\
Content-Length: 0\r\n\
\r\n",
    );
    let info = DialogInfo::from_invite_uas(
        &invite,
        "localtag",
        "sip:local@example.com",
        DialogState::Early,
    );
    assert!(info.is_none());
}

#[test]
fn test_detect_secure_transport_prefix_via() {
    let raw = "INVITE sip:bob@example.com SIP/2.0\r\n\
Via: SIP/2.0/TLS 192.168.1.1:5061;branch=z9hG4bKtls\r\n\
From: <sip:alice@example.com>;tag=fromtag\r\n\
To: <sip:bob@example.com>\r\n\
Call-ID: test@example.com\r\n\
CSeq: 1 INVITE\r\n\
Contact: <sip:alice@192.168.1.1:5060>\r\n\
Content-Length: 0\r\n\
\r\n";
    let invite = parse_request(raw);
    let info = DialogInfo::from_invite_uas(
        &invite,
        "localtag",
        "sip:local@example.com",
        DialogState::Early,
    )
    .unwrap();
    assert!(info.secure);
}

#[test]
fn test_detect_secure_transport_prefix_via_lowercase() {
    let raw = "INVITE sip:bob@example.com SIP/2.0\r\n\
via: SIP/2.0/TLS 192.168.1.1:5061;branch=z9hG4bKtls\r\n\
From: <sip:alice@example.com>;tag=fromtag\r\n\
To: <sip:bob@example.com>\r\n\
Call-ID: test@example.com\r\n\
CSeq: 1 INVITE\r\n\
Contact: <sip:alice@192.168.1.1:5060>\r\n\
Content-Length: 0\r\n\
\r\n";
    let invite = parse_request(raw);
    let info = DialogInfo::from_invite_uas(
        &invite,
        "localtag",
        "sip:local@example.com",
        DialogState::Early,
    )
    .unwrap();
    assert!(info.secure);
}

#[test]
fn test_next_local_seq() {
    let invite = create_invite();
    let response = create_ok_response(&invite);
    let mut info =
        DialogInfo::from_invite_response_uac(&invite, &response, DialogState::Confirmed)
            .unwrap();

    assert_eq!(info.next_local_seq(), 2);
    assert_eq!(info.next_local_seq(), 3);
}

#[test]
fn test_update_remote_seq() {
    let invite = create_invite();
    let response = create_ok_response(&invite);
    let mut info =
        DialogInfo::from_invite_response_uac(&invite, &response, DialogState::Confirmed)
            .unwrap();

    assert!(info.update_remote_seq(1));
    assert!(info.update_remote_seq(2));
    assert!(!info.update_remote_seq(1)); // Old seq rejected
    assert!(!info.update_remote_seq(2)); // Same seq rejected
}

#[test]
fn test_dialog_id_new() {
    let id = DialogId::new("call123", "local456", "remote789");
    assert_eq!(id.call_id, "call123");
    assert_eq!(id.local_tag, "local456");
    assert_eq!(id.remote_tag, "remote789");
}

#[test]
fn test_dialog_id_clone() {
    let id = DialogId::new("call123", "local456", "remote789");
    let cloned = id.clone();
    assert_eq!(cloned.call_id, id.call_id);
    assert_eq!(cloned.local_tag, id.local_tag);
    assert_eq!(cloned.remote_tag, id.remote_tag);
}

#[test]
fn test_dialog_id_eq() {
    let id1 = DialogId::new("call123", "local456", "remote789");
    let id2 = DialogId::new("call123", "local456", "remote789");
    let id3 = DialogId::new("call999", "local456", "remote789");
    assert_eq!(id1, id2);
    assert_ne!(id1, id3);
}

#[test]
fn test_dialog_id_hash() {
    let mut set = HashSet::new();
    set.insert(DialogId::new("call123", "local456", "remote789"));
    assert!(set.contains(&DialogId::new("call123", "local456", "remote789")));
    assert!(!set.contains(&DialogId::new("call999", "local456", "remote789")));
}

#[test]
fn test_dialog_id_debug() {
    let id = DialogId::new("call123", "local456", "remote789");
    let debug = format!("{:?}", id);
    assert!(debug.contains("call123"));
    assert!(debug.contains("local456"));
    assert!(debug.contains("remote789"));
}

#[test]
fn test_dialog_state_all_variants() {
    let states = [
        DialogState::Early,
        DialogState::Confirmed,
        DialogState::Terminating,
        DialogState::Terminated,
    ];
    for state in states {
        let _ = format!("{:?}", state);
    }
}

#[test]
fn test_dialog_state_clone() {
    let state = DialogState::Early;
    let cloned = state;
    assert_eq!(state, cloned);
}

#[test]
fn test_route_set_new() {
    let route_set = RouteSet::new();
    assert!(route_set.is_empty());
    assert_eq!(route_set.len(), 0);
    assert!(!route_set.is_loose_routing());
}

#[test]
fn test_route_set_default() {
    let route_set = RouteSet::default();
    assert!(route_set.is_empty());
    assert!(!route_set.is_loose_routing());
}

#[test]
fn test_route_set_routes() {
    let routes = RouteSet::new();
    assert!(routes.routes().is_empty());
}

#[test]
fn test_route_set_from_record_route_values() {
    let record_routes = vec![
        "<sip:proxy1.example.com;lr>".to_string(),
        "<sip:proxy2.example.com;lr>".to_string(),
    ];

    let route_set = RouteSet::from_record_route_values(&record_routes, false);
    assert!(!route_set.is_empty());
    assert_eq!(route_set.len(), 2);
    // The lr parameter detection depends on parsing
    // Just check that routes are not empty
}

#[test]
fn test_route_set_from_record_route_values_reversed() {
    let record_routes = vec![
        "<sip:proxy1.example.com;lr>".to_string(),
        "<sip:proxy2.example.com;lr>".to_string(),
    ];

    let route_set = RouteSet::from_record_route_values(&record_routes, true);
    assert!(!route_set.is_empty());
    assert_eq!(route_set.len(), 2);
    // Routes should be reversed
    let routes = route_set.routes();
    assert!(routes[0].contains("proxy2"));
    assert!(routes[1].contains("proxy1"));
}

#[test]
fn test_route_set_from_record_route_values_no_lr() {
    let record_routes = vec!["<sip:proxy1.example.com>".to_string()];

    let route_set = RouteSet::from_record_route_values(&record_routes, false);
    assert!(!route_set.is_empty());
    // No lr parameter
    assert!(!route_set.is_loose_routing());
}

#[test]
fn test_route_set_from_record_route_values_empty() {
    let record_routes: Vec<String> = vec![];
    let route_set = RouteSet::from_record_route_values(&record_routes, false);
    assert!(route_set.is_empty());
    assert!(!route_set.is_loose_routing());
}

#[test]
fn test_route_set_debug() {
    let route_set = RouteSet::new();
    let debug = format!("{:?}", route_set);
    assert!(debug.contains("RouteSet"));
}

#[test]
fn test_route_set_clone() {
    let record_routes = vec!["<sip:proxy.example.com;lr>".to_string()];
    let route_set = RouteSet::from_record_route_values(&record_routes, false);
    let cloned = route_set.clone();
    assert_eq!(cloned.len(), route_set.len());
    assert_eq!(cloned.is_loose_routing(), route_set.is_loose_routing());
}

#[test]
fn test_dialog_info_from_invite_uas() {
    let invite = create_invite();
    let info = DialogInfo::from_invite_uas(
        &invite,
        "mytag",
        "sip:me@192.168.1.2:5060",
        DialogState::Early,
    );

    assert!(info.is_some());
    let info = info.unwrap();
    assert_eq!(info.state, DialogState::Early);
    assert_eq!(info.id.local_tag, "mytag");
    assert_eq!(info.id.remote_tag, "fromtag");
    assert_eq!(info.local_seq, 0);
    assert!(info.remote_seq.is_some());
    assert_eq!(info.remote_seq.unwrap(), 1);
}

#[test]
fn test_dialog_id_from_request_uac_option() {
    let invite = create_invite();
    let id = DialogId::from_request_uac(&invite, "remote_tag");

    assert!(id.is_some());
    let id = id.unwrap();
    assert_eq!(id.call_id, "test@example.com");
    assert_eq!(id.local_tag, "fromtag");
    assert_eq!(id.remote_tag, "remote_tag");
}

#[test]
fn test_dialog_info_secure_transport_detection() {
    // Test the detect_secure_transport function indirectly
    // The TLS transport detection checks the Via protocol
    let invite = create_invite(); // Uses UDP
    let is_secure = DialogInfo::detect_secure_transport(&invite);
    assert!(!is_secure); // UDP is not secure
}

#[test]
fn test_dialog_info_secure_transport_tls() {
    let invite = new_request()
        .method(Method::Invite)
        .uri("sip:bob@example.com")
        .via("192.168.1.1", 5061, "TLS", "z9hG4bKtest")
        .from("sip:alice@example.com", "fromtag")
        .to("sip:bob@example.com")
        .call_id("test@example.com")
        .cseq(1)
        .build()
        .unwrap();
    let is_secure = DialogInfo::detect_secure_transport(&invite);
    assert!(is_secure);
}

#[test]
fn test_dialog_info_secure_transport_missing_via() {
    let msg = b"INVITE sip:bob@example.com SIP/2.0\r\n\
From: <sip:alice@example.com>;tag=fromtag\r\n\
To: <sip:bob@example.com>\r\n\
Call-ID: test@example.com\r\n\
CSeq: 1 INVITE\r\n\
Content-Length: 0\r\n\
\r\n";
    let parsed = parse_message(msg).unwrap();
    let invite = as_request(parsed).expect("expected request");
    let is_secure = DialogInfo::detect_secure_transport(&invite);
    assert!(!is_secure);
}

#[test]
fn test_dialog_info_secure_transport_invalid_via() {
    let msg = b"INVITE sip:bob@example.com SIP/2.0\r\n\
Via: INVALID\r\n\
From: <sip:alice@example.com>;tag=fromtag\r\n\
To: <sip:bob@example.com>\r\n\
Call-ID: test@example.com\r\n\
CSeq: 1 INVITE\r\n\
Content-Length: 0\r\n\
\r\n";
    let parsed = parse_message(msg).unwrap();
    let invite = as_request(parsed).expect("expected request");
    let is_secure = DialogInfo::detect_secure_transport(&invite);
    assert!(!is_secure);
}

#[test]
fn test_dialog_info_secure_transport_udp() {
    let invite = create_invite(); // Uses UDP
    let info = DialogInfo::from_invite_uas(
        &invite,
        "mytag",
        "sip:me@192.168.1.2:5060",
        DialogState::Early,
    )
    .unwrap();
    assert!(!info.secure);
}

#[test]
fn test_dialog_info_clone() {
    let invite = create_invite();
    let response = create_ok_response(&invite);
    let info = DialogInfo::from_invite_response_uac(&invite, &response, DialogState::Confirmed)
        .unwrap();
    let cloned = info.clone();

    assert_eq!(cloned.id.call_id, info.id.call_id);
    assert_eq!(cloned.state, info.state);
    assert_eq!(cloned.local_seq, info.local_seq);
    assert_eq!(cloned.remote_seq, info.remote_seq);
}

#[test]
fn test_dialog_info_debug() {
    let invite = create_invite();
    let response = create_ok_response(&invite);
    let info = DialogInfo::from_invite_response_uac(&invite, &response, DialogState::Confirmed)
        .unwrap();
    let debug = format!("{:?}", info);
    assert!(debug.contains("DialogInfo"));
}

#[test]
fn test_uac_dialog_creation() {
    let invite = create_invite();
    let dialog = InviteDialog::new_uac(invite);

    assert_eq!(dialog.role(), Role::Uac);
    assert_eq!(dialog.state(), DialogState::Early);
}

#[test]
fn test_uac_dialog_established_on_200() {
    let invite = create_invite();
    let mut dialog = InviteDialog::new_uac(invite.clone());

    let response = create_response(&invite, 200);
    dialog.handle_response(response);

    assert_eq!(dialog.state(), DialogState::Confirmed);
    let actions = dialog.poll_actions();
    assert!(actions
        .iter()
        .any(|a| matches!(a, Action::Event(Event::Established))));
}

#[test]
fn test_uac_dialog_rejected() {
    let invite = create_invite();
    let mut dialog = InviteDialog::new_uac(invite.clone());

    let response = create_response(&invite, 486);
    dialog.handle_response(response);

    assert_eq!(dialog.state(), DialogState::Terminated);
}

#[test]
fn test_uas_dialog_creation() {
    let invite = create_invite();
    let dialog = InviteDialog::new_uas(invite, "mytag", "sip:me@192.168.1.2:5060").unwrap();

    assert_eq!(dialog.role(), Role::Uas);
    assert_eq!(dialog.state(), DialogState::Early);
}

#[test]
fn test_uas_dialog_creation_invalid_invite() {
    let invite = parse_request(
        "INVITE sip:bob@example.com SIP/2.0\r\n\
Via: SIP/2.0/UDP 192.168.1.1:5060;branch=z9hG4bKtest\r\n\
From: <sip:alice@example.com>\r\n\
To: <sip:bob@example.com>\r\n\
Call-ID: test@example.com\r\n\
CSeq: 1 INVITE\r\n\
Contact: <sip:alice@192.168.1.1:5060>\r\n\
Content-Length: 0\r\n\
\r\n",
    );
    let dialog = InviteDialog::new_uas(invite, "mytag", "sip:me@192.168.1.2:5060");
    assert!(dialog.is_none());
}

#[test]
fn test_uas_dialog_established_on_200() {
    let invite = create_invite();
    let mut dialog =
        InviteDialog::new_uas(invite.clone(), "mytag", "sip:me@192.168.1.2:5060").unwrap();

    let response = new_response()
        .status(200, "OK")
        .from_request(&invite)
        .to_tag("mytag")
        .contact("sip:bob@192.168.1.2:5060")
        .build()
        .unwrap();

    dialog.send_response(response);

    assert_eq!(dialog.state(), DialogState::Confirmed);
}

#[test]
fn test_bye_terminates_dialog() {
    let invite = create_invite();
    let mut dialog = InviteDialog::new_uac(invite.clone());

    let response = create_response(&invite, 200);
    dialog.handle_response(response);
    dialog.poll_actions();

    let bye = new_request()
        .method(Method::Bye)
        .uri("sip:alice@example.com")
        .via("192.168.1.2", 5060, "UDP", "z9hG4bKbye")
        .from("sip:bob@example.com", "totag")
        .to("sip:alice@example.com")
        .to_tag("fromtag")
        .call_id("test@example.com")
        .cseq(1)
        .build()
        .unwrap();

    dialog.handle_request(bye);
    assert_eq!(dialog.state(), DialogState::Terminated);
}

#[test]
fn test_uac_dialog_provisional_180() {
    let invite = create_invite();
    let mut dialog = InviteDialog::new_uac(invite.clone());

    let response = create_response(&invite, 180);
    dialog.handle_response(response);

    let actions = dialog.poll_actions();
    assert!(actions
        .iter()
        .any(|a| matches!(a, Action::Event(Event::Provisional(_)))));
    assert_eq!(dialog.state(), DialogState::Early);
}

#[test]
fn test_uac_dialog_provisional_missing_to_tag() {
    let invite = create_invite();
    let mut dialog = InviteDialog::new_uac(invite.clone());

    let response = new_response()
        .status(180, "Ringing")
        .from_request(&invite)
        .contact("sip:bob@192.168.1.2:5060")
        .build()
        .unwrap();

    dialog.handle_response(response);

    assert_eq!(dialog.state(), DialogState::Early);
    assert!(dialog.info().id.remote_tag.is_empty());
}

#[test]
fn test_uac_dialog_session_progress_183() {
    let invite = create_invite();
    let mut dialog = InviteDialog::new_uac(invite.clone());

    let response = create_response(&invite, 183);
    dialog.handle_response(response);

    let actions = dialog.poll_actions();
    assert!(actions
        .iter()
        .any(|a| matches!(a, Action::Event(Event::SessionProgress(_)))));
    assert!(actions
        .iter()
        .any(|a| matches!(a, Action::Event(Event::Provisional(_)))));
}

#[test]
fn test_uac_dialog_response_below_100() {
    let invite = create_invite();
    let mut dialog = InviteDialog::new_uac(invite.clone());

    let response = create_response(&invite, 99);
    dialog.handle_response(response);

    assert_eq!(dialog.state(), DialogState::Early);
    assert!(dialog.poll_actions().is_empty());
}

#[test]
fn test_uac_dialog_ignores_100() {
    let invite = create_invite();
    let mut dialog = InviteDialog::new_uac(invite.clone());

    let response = create_response(&invite, 100);
    dialog.handle_response(response);
    assert!(dialog.poll_actions().is_empty());
}

#[test]
fn test_uac_dialog_200_missing_contact() {
    let invite = create_invite();
    let mut dialog = InviteDialog::new_uac(invite.clone());

    let response = new_response()
        .status(200, "OK")
        .from_request(&invite)
        .to_tag("totag")
        .build()
        .unwrap();

    dialog.handle_response(response);

    assert_eq!(dialog.state(), DialogState::Confirmed);
    assert!(dialog.info().remote_target.is_empty());
}

#[test]
fn test_uas_dialog_handle_response_noop() {
    let invite = create_invite();
    let mut dialog =
        InviteDialog::new_uas(invite.clone(), "mytag", "sip:me@192.168.1.2:5060").unwrap();

    let response = create_response(&invite, 200);
    dialog.handle_response(response);
    assert!(dialog.poll_actions().is_empty());
}

#[test]
fn test_reinvite_ignored_on_stale_cseq() {
    let invite = create_invite();
    let mut dialog = InviteDialog::new_uac(invite.clone());

    let response = create_response(&invite, 200);
    dialog.handle_response(response);
    dialog.poll_actions();
    dialog.info.remote_seq = Some(2);

    let reinvite = new_request()
        .method(Method::Invite)
        .uri("sip:alice@example.com")
        .via("192.168.1.2", 5060, "UDP", "z9hG4bKreinvite")
        .from("sip:bob@example.com", "totag")
        .to("sip:alice@example.com")
        .to_tag("fromtag")
        .call_id("test@example.com")
        .cseq(1)
        .build()
        .unwrap();

    dialog.handle_request(reinvite);
    assert!(dialog.poll_actions().is_empty());
}

#[test]
fn test_reinvite_triggers_event() {
    let invite = create_invite();
    let mut dialog = InviteDialog::new_uac(invite.clone());

    let response = create_response(&invite, 200);
    dialog.handle_response(response);
    dialog.poll_actions();

    let reinvite = new_request()
        .method(Method::Invite)
        .uri("sip:alice@example.com")
        .via("192.168.1.2", 5060, "UDP", "z9hG4bKreinvite")
        .from("sip:bob@example.com", "totag")
        .to("sip:alice@example.com")
        .to_tag("fromtag")
        .call_id("test@example.com")
        .cseq(2)
        .build()
        .unwrap();

    dialog.handle_request(reinvite);
    let actions = dialog.poll_actions();
    assert!(actions
        .iter()
        .any(|a| matches!(a, Action::Event(Event::ReInvite(_)))));
}

#[test]
fn test_reinvite_ignored_before_confirmed() {
    let invite = create_invite();
    let mut dialog = InviteDialog::new_uac(invite.clone());

    let reinvite = new_request()
        .method(Method::Invite)
        .uri("sip:alice@example.com")
        .via("192.168.1.2", 5060, "UDP", "z9hG4bKreinvite")
        .from("sip:bob@example.com", "totag")
        .to("sip:alice@example.com")
        .to_tag("fromtag")
        .call_id("test@example.com")
        .cseq(2)
        .build()
        .unwrap();

    dialog.handle_request(reinvite);
    assert!(dialog.poll_actions().is_empty());
}

#[test]
fn test_ack_ignored_for_uac() {
    let invite = create_invite();
    let mut dialog = InviteDialog::new_uac(invite.clone());

    let response = create_response(&invite, 200);
    dialog.handle_response(response);
    dialog.poll_actions();

    let ack = new_request()
        .method(Method::Ack)
        .uri("sip:bob@example.com")
        .via("192.168.1.1", 5060, "UDP", "z9hG4bKack")
        .from("sip:alice@example.com", "fromtag")
        .to("sip:bob@example.com")
        .to_tag("totag")
        .call_id("test@example.com")
        .cseq(1)
        .build()
        .unwrap();

    dialog.handle_request(ack);
    assert!(!dialog.ack_sent);
}

#[test]
fn test_ack_ignored_before_confirmed_uas() {
    let invite = create_invite();
    let mut dialog =
        InviteDialog::new_uas(invite.clone(), "mytag", "sip:me@192.168.1.2:5060").unwrap();

    let ack = new_request()
        .method(Method::Ack)
        .uri("sip:bob@example.com")
        .via("192.168.1.1", 5060, "UDP", "z9hG4bKack")
        .from("sip:alice@example.com", "fromtag")
        .to("sip:bob@example.com")
        .to_tag("mytag")
        .call_id("test@example.com")
        .cseq(1)
        .build()
        .unwrap();

    dialog.handle_request(ack);
    assert!(!dialog.ack_sent);
}

#[test]
fn test_cancel_ignored_for_uac() {
    let invite = create_invite();
    let mut dialog = InviteDialog::new_uac(invite.clone());

    let cancel = new_request()
        .method(Method::Cancel)
        .uri("sip:bob@example.com")
        .via("192.168.1.1", 5060, "UDP", "z9hG4bKcancel")
        .from("sip:alice@example.com", "fromtag")
        .to("sip:bob@example.com")
        .to_tag("totag")
        .call_id("test@example.com")
        .cseq(1)
        .build()
        .unwrap();

    dialog.handle_request(cancel);
    assert_eq!(dialog.state(), DialogState::Early);
}

#[test]
fn test_cancel_ignored_after_confirmed_uas() {
    let invite = create_invite();
    let mut dialog =
        InviteDialog::new_uas(invite.clone(), "mytag", "sip:me@192.168.1.2:5060").unwrap();

    let response = create_response(&invite, 200);
    dialog.send_response(response);
    dialog.poll_actions();
    assert_eq!(dialog.state(), DialogState::Confirmed);

    let cancel = new_request()
        .method(Method::Cancel)
        .uri("sip:bob@example.com")
        .via("192.168.1.1", 5060, "UDP", "z9hG4bKcancel")
        .from("sip:alice@example.com", "fromtag")
        .to("sip:bob@example.com")
        .to_tag("mytag")
        .call_id("test@example.com")
        .cseq(1)
        .build()
        .unwrap();

    dialog.handle_request(cancel);
    assert_eq!(dialog.state(), DialogState::Confirmed);
}

#[test]
fn test_ack_sets_ack_sent_for_uas() {
    let invite = create_invite();
    let mut dialog =
        InviteDialog::new_uas(invite.clone(), "mytag", "sip:me@192.168.1.2:5060").unwrap();

    let response = create_response(&invite, 200);
    dialog.send_response(response);
    dialog.poll_actions();

    let ack = new_request()
        .method(Method::Ack)
        .uri("sip:bob@example.com")
        .via("192.168.1.1", 5060, "UDP", "z9hG4bKack")
        .from("sip:alice@example.com", "fromtag")
        .to("sip:bob@example.com")
        .to_tag("mytag")
        .call_id("test@example.com")
        .cseq(1)
        .build()
        .unwrap();

    dialog.handle_request(ack);
    assert!(dialog.ack_sent);
}

#[test]
fn test_cancel_terminates_early_uas() {
    let invite = create_invite();
    let mut dialog =
        InviteDialog::new_uas(invite.clone(), "mytag", "sip:me@192.168.1.2:5060").unwrap();

    let cancel = new_request()
        .method(Method::Cancel)
        .uri("sip:bob@example.com")
        .via("192.168.1.1", 5060, "UDP", "z9hG4bKcancel")
        .from("sip:alice@example.com", "fromtag")
        .to("sip:bob@example.com")
        .to_tag("mytag")
        .call_id("test@example.com")
        .cseq(1)
        .build()
        .unwrap();

    dialog.handle_request(cancel);
    let actions = dialog.poll_actions();
    assert!(actions.iter().any(|a| matches!(
        a,
        Action::Event(Event::Terminated(TerminationReason::Cancelled))
    )));
    assert_eq!(dialog.state(), DialogState::Terminated);
}

#[test]
fn test_send_response_rejects_uas_dialog() {
    let invite = create_invite();
    let mut dialog =
        InviteDialog::new_uas(invite.clone(), "mytag", "sip:me@192.168.1.2:5060").unwrap();

    let response = create_response(&invite, 486);
    dialog.send_response(response);

    let actions = dialog.poll_actions();
    assert!(actions.iter().any(|a| {
        matches!(
            a,
            Action::Event(Event::Terminated(TerminationReason::Rejected(486)))
        )
    }));
    assert_eq!(dialog.state(), DialogState::Terminated);
}

#[test]
fn test_send_response_provisional_keeps_state() {
    let invite = create_invite();
    let mut dialog =
        InviteDialog::new_uas(invite.clone(), "mytag", "sip:me@192.168.1.2:5060").unwrap();

    let response = create_response(&invite, 180);
    dialog.send_response(response);

    assert_eq!(dialog.state(), DialogState::Early);
}

#[test]
fn test_send_response_after_confirmed_does_not_reset_state() {
    let invite = create_invite();
    let mut dialog =
        InviteDialog::new_uas(invite.clone(), "mytag", "sip:me@192.168.1.2:5060").unwrap();

    let response = create_response(&invite, 200);
    dialog.send_response(response);
    dialog.poll_actions();

    let response = create_response(&invite, 200);
    dialog.send_response(response);

    assert_eq!(dialog.state(), DialogState::Confirmed);
}

#[test]
fn test_send_response_failure_after_confirmed_keeps_state() {
    let invite = create_invite();
    let mut dialog =
        InviteDialog::new_uas(invite.clone(), "mytag", "sip:me@192.168.1.2:5060").unwrap();

    let response = create_response(&invite, 200);
    dialog.send_response(response);
    dialog.poll_actions();

    let response = create_response(&invite, 486);
    dialog.send_response(response);

    assert_eq!(dialog.state(), DialogState::Confirmed);
    let actions = dialog.poll_actions();
    assert!(actions.iter().any(|a| matches!(a, Action::SendResponse(_))));
    assert!(!actions.iter().any(is_rejected_termination));
}

#[test]
fn test_send_bye_requires_confirmed() {
    let invite = create_invite();
    let mut dialog = InviteDialog::new_uac(invite);

    let bye = dialog.send_bye();
    assert!(bye.is_none());
}

#[test]
fn test_send_bye_with_route_set() {
    let invite = create_invite();
    let mut dialog = InviteDialog::new_uac(invite.clone());
    let response = create_response(&invite, 200);
    dialog.handle_response(response);
    dialog.poll_actions();

    dialog.info.route_set = RouteSet::from_record_route_values(
        &["<sip:proxy.example.com;lr>".to_string()],
        false,
    );

    let bye = dialog.send_bye();
    assert!(bye.is_some());
    assert_eq!(dialog.state(), DialogState::Terminating);
}

#[test]
fn test_role_debug() {
    assert!(format!("{:?}", Role::Uac).contains("Uac"));
    assert!(format!("{:?}", Role::Uas).contains("Uas"));
}

#[test]
fn test_role_clone() {
    let role = Role::Uac;
    let cloned = role.clone();
    assert_eq!(role, cloned);
}

#[test]
fn test_role_copy() {
    let role = Role::Uas;
    let copied: Role = role;
    assert_eq!(role, copied);
}

#[test]
fn test_role_eq() {
    assert_eq!(Role::Uac, Role::Uac);
    assert_ne!(Role::Uac, Role::Uas);
}

#[test]
fn test_action_debug() {
    let action = Action::Event(Event::Established);
    let debug = format!("{:?}", action);
    assert!(debug.contains("Event"));
}

#[test]
fn test_action_clone() {
    let action = Action::Event(Event::Established);
    let cloned = action.clone();
    let debug = format!("{:?}", cloned);
    assert!(debug.contains("Established"));
}

#[test]
fn test_event_debug() {
    let event = Event::Established;
    assert!(format!("{:?}", event).contains("Established"));

    let event = Event::Terminated(TerminationReason::ByeSent);
    assert!(format!("{:?}", event).contains("Terminated"));
}

#[test]
fn test_event_clone() {
    let event = Event::Established;
    let cloned = event.clone();
    let debug = format!("{:?}", cloned);
    assert!(debug.contains("Established"));
}

#[test]
fn test_termination_reason_debug() {
    assert!(format!("{:?}", TerminationReason::ByeSent).contains("ByeSent"));
    assert!(format!("{:?}", TerminationReason::ByeReceived).contains("ByeReceived"));
    assert!(format!("{:?}", TerminationReason::Rejected(486)).contains("486"));
    assert!(format!("{:?}", TerminationReason::Cancelled).contains("Cancelled"));
    assert!(format!("{:?}", TerminationReason::Error("test".into())).contains("Error"));
}

#[test]
fn test_termination_reason_clone() {
    let reason = TerminationReason::Rejected(404);
    let cloned = reason.clone();
    let debug = format!("{:?}", cloned);
    assert!(debug.contains("Rejected"));
}

#[test]
fn test_invite_dialog_debug() {
    let invite = create_invite();
    let dialog = InviteDialog::new_uac(invite);
    let debug = format!("{:?}", dialog);
    assert!(debug.contains("InviteDialog"));
}

#[test]
fn test_uac_100_trying_no_early_dialog() {
    let invite = create_invite();
    let mut dialog = InviteDialog::new_uac(invite.clone());

    // 100 Trying should not create early dialog
    let response = create_response(&invite, 100);
    dialog.handle_response(response);

    assert_eq!(dialog.state(), DialogState::Early);
    let actions = dialog.poll_actions();
    // No provisional event for 100 Trying
    assert!(actions.is_empty());
}

#[test]
fn test_uac_180_ringing_creates_early_dialog() {
    let invite = create_invite();
    let mut dialog = InviteDialog::new_uac(invite.clone());

    let response = create_response(&invite, 180);
    dialog.handle_response(response);

    assert_eq!(dialog.state(), DialogState::Early);
    let actions = dialog.poll_actions();
    assert!(actions
        .iter()
        .any(|a| matches!(a, Action::Event(Event::Provisional(_)))));
}

#[test]
fn test_uac_183_session_progress() {
    let invite = create_invite();
    let mut dialog = InviteDialog::new_uac(invite.clone());

    let response = create_response(&invite, 183);
    dialog.handle_response(response);

    let actions = dialog.poll_actions();
    assert!(actions
        .iter()
        .any(|a| matches!(a, Action::Event(Event::SessionProgress(_)))));
    assert!(actions
        .iter()
        .any(|a| matches!(a, Action::Event(Event::Provisional(_)))));
}

#[test]
fn test_handle_response_uas_ignored() {
    let invite = create_invite();
    let mut dialog =
        InviteDialog::new_uas(invite.clone(), "mytag", "sip:me@192.168.1.2:5060").unwrap();

    // UAS should ignore handle_response
    let response = create_response(&invite, 200);
    dialog.handle_response(response);

    assert_eq!(dialog.state(), DialogState::Early);
    let actions = dialog.poll_actions();
    assert!(actions.is_empty());
}

#[test]
fn test_handle_response_confirmed_state() {
    let invite = create_invite();
    let mut dialog = InviteDialog::new_uac(invite.clone());

    // First establish
    let response = create_response(&invite, 200);
    dialog.handle_response(response.clone());
    dialog.poll_actions();

    // Response in confirmed state (e.g., re-INVITE response)
    dialog.handle_response(response);

    assert_eq!(dialog.state(), DialogState::Confirmed);
}

#[test]
fn test_handle_request_reinvite() {
    let invite = create_invite();
    let mut dialog = InviteDialog::new_uac(invite.clone());

    // First establish
    let response = create_response(&invite, 200);
    dialog.handle_response(response);
    dialog.poll_actions();

    // Re-INVITE
    let reinvite = new_request()
        .method(Method::Invite)
        .uri("sip:alice@example.com")
        .via("192.168.1.2", 5060, "UDP", "z9hG4bKreinvite")
        .from("sip:bob@example.com", "totag")
        .to("sip:alice@example.com")
        .to_tag("fromtag")
        .call_id("test@example.com")
        .cseq(2)
        .build()
        .unwrap();

    dialog.handle_request(reinvite);

    let actions = dialog.poll_actions();
    assert!(actions
        .iter()
        .any(|a| matches!(a, Action::Event(Event::ReInvite(_)))));
}

#[test]
fn test_handle_request_ack_uas() {
    let invite = create_invite();
    let mut dialog =
        InviteDialog::new_uas(invite.clone(), "mytag", "sip:me@192.168.1.2:5060").unwrap();

    // First send 200
    let response = new_response()
        .status(200, "OK")
        .from_request(&invite)
        .to_tag("mytag")
        .contact("sip:bob@192.168.1.2:5060")
        .build()
        .unwrap();
    dialog.send_response(response);
    dialog.poll_actions();

    // ACK received
    let ack = new_request()
        .method(Method::Ack)
        .uri("sip:bob@example.com")
        .via("192.168.1.1", 5060, "UDP", "z9hG4bKack")
        .from("sip:alice@example.com", "fromtag")
        .to("sip:bob@example.com")
        .to_tag("mytag")
        .call_id("test@example.com")
        .cseq(1)
        .build()
        .unwrap();

    dialog.handle_request(ack);
    assert!(dialog.is_ack_complete());
}

#[test]
fn test_handle_request_cancel() {
    let invite = create_invite();
    let mut dialog =
        InviteDialog::new_uas(invite.clone(), "mytag", "sip:me@192.168.1.2:5060").unwrap();

    // CANCEL in early state
    let cancel = new_request()
        .method(Method::Cancel)
        .uri("sip:bob@example.com")
        .via("192.168.1.1", 5060, "UDP", "z9hG4bKcancel")
        .from("sip:alice@example.com", "fromtag")
        .to("sip:bob@example.com")
        .call_id("test@example.com")
        .cseq(1)
        .build()
        .unwrap();

    dialog.handle_request(cancel);
    assert_eq!(dialog.state(), DialogState::Terminated);
    let actions = dialog.poll_actions();
    assert!(actions.iter().any(|a| matches!(
        a,
        Action::Event(Event::Terminated(TerminationReason::Cancelled))
    )));
}

#[test]
fn test_handle_request_invalid_cseq_ignored() {
    let invite = create_invite();
    let mut dialog = InviteDialog::new_uac(invite.clone());

    let raw = invite_text(&invite);
    let raw = raw.replace("CSeq: 1 INVITE", "CSeq: abc INVITE");
    assert!(raw.contains("CSeq: abc INVITE"));
    let parsed = parse_message(raw.as_bytes()).unwrap();
    let request = as_request(parsed).unwrap();

    dialog.handle_request(request);
    assert_eq!(dialog.state(), DialogState::Early);
}

#[test]
fn test_handle_response_other_state_noop() {
    let invite = create_invite();
    let mut dialog = InviteDialog::new_uac(invite.clone());

    dialog.info.state = DialogState::Terminated;
    let response = create_response(&invite, 200);
    dialog.handle_response(response);

    assert_eq!(dialog.state(), DialogState::Terminated);
    assert!(dialog.poll_actions().is_empty());
}

#[test]
fn test_handle_request_other_method() {
    let invite = create_invite();
    let mut dialog = InviteDialog::new_uac(invite.clone());

    // Establish dialog
    let response = create_response(&invite, 200);
    dialog.handle_response(response);
    dialog.poll_actions();

    // INFO request (other method)
    let info = new_request()
        .method(Method::Info)
        .uri("sip:alice@example.com")
        .via("192.168.1.2", 5060, "UDP", "z9hG4bKinfo")
        .from("sip:bob@example.com", "totag")
        .to("sip:alice@example.com")
        .to_tag("fromtag")
        .call_id("test@example.com")
        .cseq(2)
        .build()
        .unwrap();

    dialog.handle_request(info);

    // No state change, no events
    assert_eq!(dialog.state(), DialogState::Confirmed);
}

#[test]
fn test_send_response_uac_ignored() {
    let invite = create_invite();
    let mut dialog = InviteDialog::new_uac(invite.clone());

    // UAC should ignore send_response
    let response = create_response(&invite, 200);
    dialog.send_response(response);

    let actions = dialog.poll_actions();
    assert!(actions.is_empty());
}

#[test]
fn test_send_response_provisional() {
    let invite = create_invite();
    let mut dialog =
        InviteDialog::new_uas(invite.clone(), "mytag", "sip:me@192.168.1.2:5060").unwrap();

    let response = new_response()
        .status(180, "Ringing")
        .from_request(&invite)
        .to_tag("mytag")
        .build()
        .unwrap();

    dialog.send_response(response);

    assert_eq!(dialog.state(), DialogState::Early);
    let actions = dialog.poll_actions();
    assert!(actions.iter().any(|a| matches!(a, Action::SendResponse(_))));
}

#[test]
fn test_send_response_failure() {
    let invite = create_invite();
    let mut dialog =
        InviteDialog::new_uas(invite.clone(), "mytag", "sip:me@192.168.1.2:5060").unwrap();

    let response = new_response()
        .status(486, "Busy Here")
        .from_request(&invite)
        .to_tag("mytag")
        .build()
        .unwrap();

    dialog.send_response(response);

    assert_eq!(dialog.state(), DialogState::Terminated);
    let actions = dialog.poll_actions();
    assert!(actions.iter().any(is_rejected_termination));
}

#[test]
fn test_send_bye_not_confirmed() {
    let invite = create_invite();
    let mut dialog = InviteDialog::new_uac(invite);

    // Can't send BYE when not confirmed
    let bye = dialog.send_bye();
    assert!(bye.is_none());
}

#[test]
fn test_send_bye_confirmed() {
    let invite = create_invite();
    let mut dialog = InviteDialog::new_uac(invite.clone());

    // First establish
    let response = create_response(&invite, 200);
    dialog.handle_response(response);
    dialog.poll_actions();

    let bye = dialog.send_bye();
    assert!(bye.is_some());
    assert_eq!(dialog.state(), DialogState::Terminating);
}

#[test]
fn test_send_bye_confirmed_uas() {
    let invite = create_invite();
    let mut dialog =
        InviteDialog::new_uas(invite.clone(), "mytag", "sip:me@192.168.1.2:5060").unwrap();

    let response = create_response(&invite, 200);
    dialog.send_response(response);
    dialog.poll_actions();

    let bye = dialog.send_bye();
    assert!(bye.is_some());
    assert_eq!(dialog.state(), DialogState::Terminating);
}

#[test]
fn test_send_bye_build_failure_returns_none() {
    let invite = create_invite();
    let mut dialog = InviteDialog::new_uac(invite);
    dialog.info.state = DialogState::Confirmed;
    dialog.info.remote_target = "sip:alice@[::1".to_string();

    let bye = dialog.send_bye();
    assert!(bye.is_none());
}

#[test]
fn invite_test_ack_sent() {
    let invite = create_invite();
    let mut dialog = InviteDialog::new_uac(invite.clone());

    // First establish
    let response = create_response(&invite, 200);
    dialog.handle_response(response);
    dialog.poll_actions();

    assert!(!dialog.is_ack_complete());
    dialog.ack_sent();
    assert!(dialog.is_ack_complete());
}

#[test]
fn test_is_terminated() {
    let invite = create_invite();
    let mut dialog = InviteDialog::new_uac(invite.clone());

    assert!(!dialog.is_terminated());

    let response = create_response(&invite, 486);
    dialog.handle_response(response);

    assert!(dialog.is_terminated());
}

#[test]
fn test_accessors() {
    let invite = create_invite();
    let dialog = InviteDialog::new_uac(invite);

    let _id = dialog.id();
    let _info = dialog.info();
    let _role = dialog.role();
    let _state = dialog.state();
}

#[test]
fn invite_test_poll_actions_clears() {
    let invite = create_invite();
    let mut dialog = InviteDialog::new_uac(invite.clone());

    let response = create_response(&invite, 200);
    dialog.handle_response(response);

    let actions = dialog.poll_actions();
    assert!(!actions.is_empty());

    // Second poll should be empty
    let actions2 = dialog.poll_actions();
    assert!(actions2.is_empty());
}

#[test]
fn test_cancel_uac_ignored() {
    let invite = create_invite();
    let mut dialog = InviteDialog::new_uac(invite.clone());

    // CANCEL should be ignored for UAC role
    let cancel = new_request()
        .method(Method::Cancel)
        .uri("sip:bob@example.com")
        .via("192.168.1.1", 5060, "UDP", "z9hG4bKcancel")
        .from("sip:alice@example.com", "fromtag")
        .to("sip:bob@example.com")
        .call_id("test@example.com")
        .cseq(1)
        .build()
        .unwrap();

    dialog.handle_request(cancel);
    assert_eq!(dialog.state(), DialogState::Early);
}

#[test]
fn test_uac_multiple_3xx_codes() {
    for code in [300, 301, 302, 400, 401, 404, 486, 500, 503, 600] {
        let invite = create_invite();
        let mut dialog = InviteDialog::new_uac(invite.clone());

        let response = create_response(&invite, code);
        dialog.handle_response(response);

        assert_eq!(dialog.state(), DialogState::Terminated);
    }
}

#[test]
fn test_uac_multiple_2xx_codes() {
    for code in [200, 202] {
        let invite = create_invite();
        let mut dialog = InviteDialog::new_uac(invite.clone());

        let response = create_response(&invite, code);
        dialog.handle_response(response);

        assert_eq!(dialog.state(), DialogState::Confirmed);
    }
}

#[test]
fn test_create_uac_dialog() {
    let mut mgr = DialogManager::new("sip:me@192.168.1.1:5060");
    let invite = create_invite();

    let handle = mgr.create_dialog(invite).unwrap();
    assert!(handle.0 > 0);

    let dialog = mgr.dialog(handle).unwrap();
    assert_eq!(dialog.role(), Role::Uac);
}

#[test]
fn test_create_dialog_missing_call_id() {
    let mut mgr = DialogManager::new("sip:me@192.168.1.1:5060");
    let invite = parse_request(
        "INVITE sip:bob@example.com SIP/2.0\r\n\
Via: SIP/2.0/UDP 192.168.1.1:5060;branch=z9hG4bKtest\r\n\
From: <sip:alice@example.com>;tag=fromtag\r\n\
To: <sip:bob@example.com>\r\n\
CSeq: 1 INVITE\r\n\
Contact: <sip:alice@192.168.1.1:5060>\r\n\
Content-Length: 0\r\n\
\r\n",
    );
    assert!(mgr.create_dialog(invite).is_none());
}

#[test]
fn test_create_dialog_missing_from_tag() {
    let mut mgr = DialogManager::new("sip:me@192.168.1.1:5060");
    let invite = parse_request(
        "INVITE sip:bob@example.com SIP/2.0\r\n\
Via: SIP/2.0/UDP 192.168.1.1:5060;branch=z9hG4bKtest\r\n\
From: <sip:alice@example.com>\r\n\
To: <sip:bob@example.com>\r\n\
Call-ID: test@example.com\r\n\
CSeq: 1 INVITE\r\n\
Contact: <sip:alice@192.168.1.1:5060>\r\n\
Content-Length: 0\r\n\
\r\n",
    );
    assert!(mgr.create_dialog(invite).is_none());
}

#[test]
fn test_handle_request_missing_call_id_non_invite() {
    let req = parse_request(
        "BYE sip:bob@example.com SIP/2.0\r\n\
Via: SIP/2.0/UDP 192.168.1.1:5060;branch=z9hG4bKtest\r\n\
To: <sip:bob@example.com>;tag=totag\r\n\
From: <sip:alice@example.com>;tag=fromtag\r\n\
CSeq: 1 BYE\r\n\
Content-Length: 0\r\n\
\r\n",
    );
    let mut manager = DialogManager::new("sip:me@192.168.1.1:5060");
    let handle = manager.handle_request(req);
    assert!(handle.is_none());
}

#[test]
fn test_handle_response_establishes_dialog() {
    let mut mgr = DialogManager::new("sip:me@192.168.1.1:5060");
    let invite = create_invite();

    let handle = mgr.create_dialog(invite.clone()).unwrap();
    let response = create_response(&invite, 200);

    let result_handle = mgr.handle_response(response).unwrap();
    assert_eq!(result_handle, handle);

    let dialog = mgr.dialog(handle).unwrap();
    assert_eq!(dialog.state(), DialogState::Confirmed);
}

#[test]
fn test_handle_response_missing_call_id() {
    let mut mgr = DialogManager::new("sip:me@192.168.1.1:5060");
    let response = parse_response(
        "SIP/2.0 200 OK\r\n\
Via: SIP/2.0/UDP 192.168.1.1:5060;branch=z9hG4bKtest\r\n\
From: <sip:alice@example.com>;tag=fromtag\r\n\
To: <sip:bob@example.com>;tag=totag\r\n\
CSeq: 1 INVITE\r\n\
Contact: <sip:bob@192.168.1.2:5060>\r\n\
Content-Length: 0\r\n\
\r\n",
    );
    assert!(mgr.handle_response(response).is_none());
}

#[test]
fn test_handle_response_missing_from_tag() {
    let mut mgr = DialogManager::new("sip:me@192.168.1.1:5060");
    let response = parse_response(
        "SIP/2.0 200 OK\r\n\
Via: SIP/2.0/UDP 192.168.1.1:5060;branch=z9hG4bKtest\r\n\
From: <sip:alice@example.com>\r\n\
To: <sip:bob@example.com>;tag=totag\r\n\
Call-ID: test@example.com\r\n\
CSeq: 1 INVITE\r\n\
Contact: <sip:bob@192.168.1.2:5060>\r\n\
Content-Length: 0\r\n\
\r\n",
    );
    assert!(mgr.handle_response(response).is_none());
}

#[test]
fn test_handle_response_session_progress_event() {
    let mut mgr = DialogManager::new("sip:me@192.168.1.1:5060");
    let invite = create_invite();

    let handle = mgr.create_dialog(invite.clone()).unwrap();
    let response = create_response(&invite, 183);

    let result_handle = mgr.handle_response(response).unwrap();
    assert_eq!(result_handle, handle);

    let actions = mgr.poll_actions();
    assert!(actions
        .iter()
        .any(|a| matches!(a, ManagerAction::Event(_, ManagerEvent::SessionProgress(_)))));
}

#[test]
fn test_incoming_invite_creates_dialog() {
    let mut mgr = DialogManager::new("sip:me@192.168.1.2:5060");
    let invite = create_invite();

    let handle = mgr.handle_request(invite).unwrap();

    let dialog = mgr.dialog(handle).unwrap();
    assert_eq!(dialog.role(), Role::Uas);
    assert_eq!(dialog.state(), DialogState::Early);

    let actions = mgr.poll_actions();
    assert!(actions
        .iter()
        .any(|a| matches!(a, ManagerAction::Event(_, ManagerEvent::IncomingInvite(_)))));
}

#[test]
fn test_incoming_invite_missing_from_tag() {
    let mut mgr = DialogManager::new("sip:me@192.168.1.2:5060");
    let invite = parse_request(
        "INVITE sip:bob@example.com SIP/2.0\r\n\
Via: SIP/2.0/UDP 192.168.1.1:5060;branch=z9hG4bKtest\r\n\
From: <sip:alice@example.com>\r\n\
To: <sip:bob@example.com>\r\n\
Call-ID: test@example.com\r\n\
CSeq: 1 INVITE\r\n\
Contact: <sip:alice@192.168.1.1:5060>\r\n\
Content-Length: 0\r\n\
\r\n",
    );
    let handle = mgr.handle_request(invite);
    assert!(handle.is_none());
}

#[test]
fn test_handle_request_reinvite_event() {
    let mut mgr = DialogManager::new("sip:me@192.168.1.2:5060");
    let invite = create_invite();

    let handle = mgr.handle_request(invite.clone()).unwrap();
    let dialog = mgr.dialog(handle).unwrap();
    let local_tag = dialog.id().local_tag.clone();
    let remote_tag = dialog.id().remote_tag.clone();
    let call_id = dialog.id().call_id.clone();

    let response = new_response()
        .status(200, "OK")
        .from_request(&invite)
        .to_tag(&local_tag)
        .contact("sip:bob@192.168.1.2:5060")
        .build()
        .unwrap();
    mgr.send_response(handle, response);
    mgr.poll_actions();

    let reinvite = new_request()
        .method(Method::Invite)
        .uri("sip:bob@example.com")
        .via("192.168.1.1", 5060, "UDP", "z9hG4bKreinvite")
        .from("sip:alice@example.com", &remote_tag)
        .to("sip:bob@example.com")
        .to_tag(&local_tag)
        .call_id(&call_id)
        .cseq(2)
        .build()
        .unwrap();

    let result_handle = mgr.handle_request(reinvite).unwrap();
    assert_eq!(result_handle, handle);

    let actions = mgr.poll_actions();
    assert!(actions
        .iter()
        .any(|a| matches!(a, ManagerAction::Event(_, ManagerEvent::ReInvite(_)))));
}

#[test]
fn test_send_200_establishes_dialog() {
    let mut mgr = DialogManager::new("sip:me@192.168.1.2:5060");
    let invite = create_invite();

    let handle = mgr.handle_request(invite.clone()).unwrap();
    mgr.poll_actions();

    let response = new_response()
        .status(200, "OK")
        .from_request(&invite)
        .to_tag("localtag")
        .contact("sip:bob@192.168.1.2:5060")
        .build()
        .unwrap();

    mgr.send_response(handle, response);

    let dialog = mgr.dialog(handle).unwrap();
    assert_eq!(dialog.state(), DialogState::Confirmed);
}

#[test]
fn test_send_response_provisional_does_not_confirm() {
    let mut mgr = DialogManager::new("sip:me@192.168.1.2:5060");
    let invite = create_invite();

    let handle = mgr.handle_request(invite.clone()).unwrap();
    mgr.poll_actions();

    let response = new_response()
        .status(180, "Ringing")
        .from_request(&invite)
        .to_tag("localtag")
        .contact("sip:bob@192.168.1.2:5060")
        .build()
        .unwrap();

    mgr.send_response(handle, response);

    let dialog = mgr.dialog(handle).unwrap();
    assert_eq!(dialog.state(), DialogState::Early);
}

#[test]
fn test_send_response_after_confirmed_does_not_remap() {
    let mut mgr = DialogManager::new("sip:me@192.168.1.2:5060");
    let invite = create_invite();

    let handle = mgr.handle_request(invite.clone()).unwrap();
    mgr.poll_actions();

    let response = new_response()
        .status(200, "OK")
        .from_request(&invite)
        .to_tag("localtag")
        .contact("sip:bob@192.168.1.2:5060")
        .build()
        .unwrap();

    mgr.send_response(handle, response);
    mgr.poll_actions();

    let response = new_response()
        .status(200, "OK")
        .from_request(&invite)
        .to_tag("localtag")
        .contact("sip:bob@192.168.1.2:5060")
        .build()
        .unwrap();

    mgr.send_response(handle, response);
    let dialog = mgr.dialog(handle).unwrap();
    assert_eq!(dialog.state(), DialogState::Confirmed);
}

#[test]
fn test_dialog_handle_debug() {
    let handle = DialogHandle(1);
    let debug = format!("{:?}", handle);
    assert!(debug.contains("DialogHandle"));
}

#[test]
fn test_dialog_handle_clone() {
    let handle = DialogHandle(1);
    let cloned = handle.clone();
    assert_eq!(handle, cloned);
}

#[test]
fn test_dialog_handle_copy() {
    let handle = DialogHandle(1);
    let copied: DialogHandle = handle;
    assert_eq!(handle, copied);
}

#[test]
fn test_dialog_handle_eq() {
    assert_eq!(DialogHandle(1), DialogHandle(1));
    assert_ne!(DialogHandle(1), DialogHandle(2));
}

#[test]
fn test_dialog_handle_hash() {
    let mut set = HashSet::new();
    set.insert(DialogHandle(1));
    set.insert(DialogHandle(2));
    assert_eq!(set.len(), 2);
    assert!(set.contains(&DialogHandle(1)));
}

#[test]
fn test_manager_action_debug() {
    let action = ManagerAction::Event(DialogHandle(1), ManagerEvent::Established);
    let debug = format!("{:?}", action);
    assert!(debug.contains("Event"));
}

#[test]
fn test_manager_action_clone() {
    let action = ManagerAction::Event(DialogHandle(1), ManagerEvent::Established);
    let cloned = action.clone();
    let debug = format!("{:?}", cloned);
    assert!(debug.contains("Established"));
}

#[test]
fn test_manager_event_debug() {
    assert!(format!("{:?}", ManagerEvent::Established).contains("Established"));
    assert!(
        format!("{:?}", ManagerEvent::Terminated(TerminationReason::ByeSent))
            .contains("Terminated")
    );
}

#[test]
fn test_manager_event_clone() {
    let event = ManagerEvent::Established;
    let cloned = event.clone();
    let debug = format!("{:?}", cloned);
    assert!(debug.contains("Established"));
}

#[test]
fn test_dialog_manager_debug() {
    let mgr = DialogManager::new("sip:me@192.168.1.1:5060");
    let debug = format!("{:?}", mgr);
    assert!(debug.contains("DialogManager"));
}

#[test]
fn test_create_dialog_non_invite_returns_none() {
    let mut mgr = DialogManager::new("sip:me@192.168.1.1:5060");
    let register = new_request()
        .method(Method::Register)
        .uri("sip:registrar@example.com")
        .via("192.168.1.1", 5060, "UDP", "z9hG4bKtest")
        .from("sip:alice@example.com", "fromtag")
        .to("sip:alice@example.com")
        .call_id("test@example.com")
        .cseq(1)
        .build()
        .unwrap();

    let result = mgr.create_dialog(register);
    assert!(result.is_none());
}

#[test]
fn test_handle_request_bye_on_existing_dialog() {
    let mut mgr = DialogManager::new("sip:me@192.168.1.2:5060");
    let invite = create_invite();

    // Create and establish dialog
    let handle = mgr.handle_request(invite.clone()).unwrap();
    mgr.poll_actions();

    let response = new_response()
        .status(200, "OK")
        .from_request(&invite)
        .to_tag("localtag")
        .contact("sip:bob@192.168.1.2:5060")
        .build()
        .unwrap();
    mgr.send_response(handle, response);
    mgr.poll_actions();

    // Now send BYE from the other side
    let dialog = mgr.dialog(handle).unwrap();
    let local_tag = dialog.id().local_tag.clone();

    let bye = new_request()
        .method(Method::Bye)
        .uri("sip:bob@192.168.1.2:5060")
        .via("192.168.1.1", 5060, "UDP", "z9hG4bKbye")
        .from("sip:alice@example.com", "fromtag")
        .to("sip:bob@example.com")
        .to_tag(&local_tag)
        .call_id("test@example.com")
        .cseq(2)
        .build()
        .unwrap();

    let result = mgr.handle_request(bye);
    assert!(result.is_some());

    let dialog = mgr.dialog(handle).unwrap();
    assert_eq!(dialog.state(), DialogState::Terminated);
}

#[test]
fn test_handle_request_for_unknown_dialog() {
    let mut mgr = DialogManager::new("sip:me@192.168.1.2:5060");

    // BYE for non-existent dialog
    let bye = new_request()
        .method(Method::Bye)
        .uri("sip:bob@192.168.1.2:5060")
        .via("192.168.1.1", 5060, "UDP", "z9hG4bKbye")
        .from("sip:alice@example.com", "fromtag")
        .to("sip:bob@example.com")
        .to_tag("unknowntag")
        .call_id("unknown@example.com")
        .cseq(1)
        .build()
        .unwrap();

    let result = mgr.handle_request(bye);
    assert!(result.is_none());
}

#[test]
fn test_handle_request_missing_dialog_entry() {
    let mut mgr = DialogManager::new("sip:me@192.168.1.2:5060");
    let handle = DialogHandle(42);
    let id = DialogId::new("test@example.com", "totag", "fromtag");
    mgr.id_to_handle.insert(id, handle);

    let bye = new_request()
        .method(Method::Bye)
        .uri("sip:bob@192.168.1.2:5060")
        .via("192.168.1.1", 5060, "UDP", "z9hG4bKbye")
        .from("sip:alice@example.com", "fromtag")
        .to("sip:bob@example.com")
        .to_tag("totag")
        .call_id("test@example.com")
        .cseq(1)
        .build()
        .unwrap();

    let result = mgr.handle_request(bye);
    assert_eq!(result, Some(handle));
    assert!(mgr.dialog(handle).is_none());
}

#[test]
fn test_handle_response_without_pending_or_to_tag() {
    let mut mgr = DialogManager::new("sip:me@192.168.1.1:5060");
    let invite = create_invite();

    // Response has no to-tag and there's no pending dialog.
    let response = new_response()
        .status(200, "OK")
        .from_request(&invite)
        .build()
        .unwrap();

    let result = mgr.handle_response(response);
    assert!(result.is_none());
}

#[test]
fn test_handle_response_missing_dialog_entry() {
    let mut mgr = DialogManager::new("sip:me@192.168.1.1:5060");
    let invite = create_invite();

    let handle = mgr.create_dialog(invite.clone()).unwrap();
    let response = create_response(&invite, 200);

    mgr.dialogs.take(&handle);

    let result = mgr.handle_response(response);
    assert_eq!(result, Some(handle));
    assert!(mgr.dialog(handle).is_none());
}

#[test]
fn test_handle_response_uses_established_mapping() {
    let mut mgr = DialogManager::new("sip:me@192.168.1.1:5060");
    let invite = create_invite();

    let handle = mgr.create_dialog(invite.clone()).unwrap();
    let response = create_response(&invite, 200);
    mgr.handle_response(response);

    // New response should use established dialog mapping (pending removed).
    let followup = create_response(&invite, 200);
    let result = mgr.handle_response(followup).unwrap();
    assert_eq!(result, handle);
}

#[test]
fn test_send_bye_unknown_handle_returns_none() {
    let mut mgr = DialogManager::new("sip:me@192.168.1.1:5060");
    let bye = mgr.send_bye(DialogHandle(999));
    assert!(bye.is_none());
}

#[test]
fn test_handle_response_provisional() {
    let mut mgr = DialogManager::new("sip:me@192.168.1.1:5060");
    let invite = create_invite();

    let handle = mgr.create_dialog(invite.clone()).unwrap();

    let response = create_response(&invite, 180);
    let result_handle = mgr.handle_response(response).unwrap();
    assert_eq!(result_handle, handle);

    let dialog = mgr.dialog(handle).unwrap();
    assert_eq!(dialog.state(), DialogState::Early);
}

#[test]
fn test_handle_response_rejection() {
    let mut mgr = DialogManager::new("sip:me@192.168.1.1:5060");
    let invite = create_invite();

    let handle = mgr.create_dialog(invite.clone()).unwrap();

    let response = create_response(&invite, 486);
    let result_handle = mgr.handle_response(response).unwrap();
    assert_eq!(result_handle, handle);

    let dialog = mgr.dialog(handle).unwrap();
    assert_eq!(dialog.state(), DialogState::Terminated);
}

#[test]
fn test_handle_response_unknown_dialog() {
    let mut mgr = DialogManager::new("sip:me@192.168.1.1:5060");
    let invite = create_invite();

    // Response for non-existent dialog
    let response = create_response(&invite, 200);
    let result = mgr.handle_response(response);
    assert!(result.is_none());
}

#[test]
fn test_send_bye() {
    let mut mgr = DialogManager::new("sip:me@192.168.1.1:5060");
    let invite = create_invite();

    // Create and establish dialog
    let handle = mgr.create_dialog(invite.clone()).unwrap();
    let response = create_response(&invite, 200);
    mgr.handle_response(response);
    mgr.poll_actions();

    // Send BYE
    let bye = mgr.send_bye(handle);
    assert!(bye.is_some());

    let dialog = mgr.dialog(handle).unwrap();
    assert_eq!(dialog.state(), DialogState::Terminating);
}

#[test]
fn test_send_bye_non_existent_dialog() {
    let mut mgr = DialogManager::new("sip:me@192.168.1.1:5060");

    let bye = mgr.send_bye(DialogHandle(999));
    assert!(bye.is_none());
}

#[test]
fn manager_test_ack_sent() {
    let mut mgr = DialogManager::new("sip:me@192.168.1.1:5060");
    let invite = create_invite();

    let handle = mgr.create_dialog(invite.clone()).unwrap();
    let response = create_response(&invite, 200);
    mgr.handle_response(response);

    mgr.ack_sent(handle);

    let dialog = mgr.dialog(handle).unwrap();
    assert!(dialog.is_ack_complete());
}

#[test]
fn test_ack_sent_non_existent_dialog() {
    let mut mgr = DialogManager::new("sip:me@192.168.1.1:5060");
    // Should not panic
    mgr.ack_sent(DialogHandle(999));
}

#[test]
fn test_collect_dialog_actions_missing_handle() {
    let mut mgr = DialogManager::new("sip:me@192.168.1.1:5060");
    mgr.collect_dialog_actions(DialogHandle(999));
    assert!(mgr.poll_actions().is_empty());
}

#[test]
fn test_cleanup_terminated() {
    let mut mgr = DialogManager::new("sip:me@192.168.1.1:5060");
    let invite = create_invite();

    // Create and reject dialog
    let handle = mgr.create_dialog(invite.clone()).unwrap();
    let response = create_response(&invite, 486);
    mgr.handle_response(response);
    mgr.poll_actions();

    // Dialog should be terminated
    let dialog = mgr.dialog(handle).unwrap();
    assert_eq!(dialog.state(), DialogState::Terminated);

    // Cleanup
    mgr.cleanup_terminated();

    // Dialog should be removed
    assert!(mgr.dialog(handle).is_none());
}

#[test]
fn test_cleanup_terminated_noop_for_active() {
    let mut mgr = DialogManager::new("sip:me@192.168.1.1:5060");
    let invite = create_invite();

    let handle = mgr.create_dialog(invite).unwrap();
    mgr.cleanup_terminated();

    assert!(mgr.dialog(handle).is_some());
}

#[test]
fn manager_test_poll_actions_clears() {
    let mut mgr = DialogManager::new("sip:me@192.168.1.2:5060");
    let invite = create_invite();

    mgr.handle_request(invite);

    let actions = mgr.poll_actions();
    assert!(!actions.is_empty());

    let actions2 = mgr.poll_actions();
    assert!(actions2.is_empty());
}

#[test]
fn test_send_response_with_invalid_handle() {
    let mut mgr = DialogManager::new("sip:me@192.168.1.2:5060");
    let invite = create_invite();

    let response = create_response(&invite, 200);

    // Should not panic
    mgr.send_response(DialogHandle(999), response);
}

#[test]
fn test_multiple_dialogs() {
    let mut mgr = DialogManager::new("sip:me@192.168.1.1:5060");

    // Create first dialog
    let invite1 = new_request()
        .method(Method::Invite)
        .uri("sip:bob@example.com")
        .via("192.168.1.1", 5060, "UDP", "z9hG4bKtest1")
        .from("sip:alice@example.com", "fromtag1")
        .to("sip:bob@example.com")
        .call_id("call1@example.com")
        .cseq(1)
        .contact("sip:alice@192.168.1.1:5060")
        .build()
        .unwrap();
    let handle1 = mgr.create_dialog(invite1).unwrap();

    // Create second dialog
    let invite2 = new_request()
        .method(Method::Invite)
        .uri("sip:carol@example.com")
        .via("192.168.1.1", 5060, "UDP", "z9hG4bKtest2")
        .from("sip:alice@example.com", "fromtag2")
        .to("sip:carol@example.com")
        .call_id("call2@example.com")
        .cseq(1)
        .contact("sip:alice@192.168.1.1:5060")
        .build()
        .unwrap();
    let handle2 = mgr.create_dialog(invite2).unwrap();

    assert_ne!(handle1, handle2);
    assert!(mgr.dialog(handle1).is_some());
    assert!(mgr.dialog(handle2).is_some());
}

#[test]
fn test_manager_event_variants() {
    let invite = create_invite();
    let response = create_response(&invite, 180);

    let event1 = ManagerEvent::IncomingInvite(invite.clone());
    assert!(format!("{:?}", event1).contains("IncomingInvite"));

    let event2 = ManagerEvent::Provisional(response.clone());
    assert!(format!("{:?}", event2).contains("Provisional"));

    let event3 = ManagerEvent::SessionProgress(response.clone());
    assert!(format!("{:?}", event3).contains("SessionProgress"));

    let event4 = ManagerEvent::ReInvite(invite.clone());
    assert!(format!("{:?}", event4).contains("ReInvite"));

    let event5 = ManagerEvent::ByeReceived(invite);
    assert!(format!("{:?}", event5).contains("ByeReceived"));
}

#[test]
fn test_manager_action_variants() {
    let invite = create_invite();
    let response = create_response(&invite, 200);

    let action1 = ManagerAction::SendRequest(invite);
    assert!(format!("{:?}", action1).contains("SendRequest"));

    let action2 = ManagerAction::SendResponse(response);
    assert!(format!("{:?}", action2).contains("SendResponse"));
}

#[test]
fn test_both_sides_agree_on_the_dialog() {
    let invite = create_invite();
    let response = create_response(&invite, 200);
    let caller =
        DialogInfo::from_invite_response_uac(&invite, &response, DialogState::Confirmed).unwrap();
    let callee = DialogInfo::from_invite_uas(
        &invite,
        "totag",
        "sip:bob@192.168.1.2:5060",
        DialogState::Confirmed,
    )
    .unwrap();
    assert_eq!(caller.id.call_id, callee.id.call_id);
    assert_eq!(caller.id.local_tag, callee.id.remote_tag);
    assert_eq!(caller.id.remote_tag, callee.id.local_tag);
    assert_eq!(caller.local_uri, callee.remote_uri);
    assert_eq!(caller.remote_uri, callee.local_uri);
}

#[test]
fn test_bye_reaches_the_other_side() {
    let invite = create_invite();
    let mut caller = DialogManager::new("sip:alice@192.168.1.1:5060");
    let mut callee = DialogManager::new("sip:bob@192.168.1.2:5060");
    let called = caller.create_dialog(invite.clone()).unwrap();
    let taken = callee.handle_request(invite.clone()).unwrap();
    let tag = callee.dialog(taken).unwrap().id().local_tag.clone();
    let response = new_response()
        .status(200, "OK")
        .from_request(&invite)
        .to_tag(&tag)
        .contact("sip:bob@192.168.1.2:5060")
        .build()
        .unwrap();
    callee.send_response(taken, response.clone());
    assert_eq!(caller.handle_response(response), Some(called));
    let bye = caller.send_bye(called).unwrap();
    assert_eq!(bye.method, Method::Bye);
    assert_eq!(bye.cseq, Some(2));
    assert_eq!(bye.uri, "sip:bob@192.168.1.2:5060");
    assert!(bye.vias[0].starts_with("SIP/2.0/UDP 0.0.0.0:5060;branch=z9hG4bK"));
    assert_eq!(callee.handle_request(bye), Some(taken));
    assert_eq!(callee.dialog(taken).unwrap().state(), DialogState::Terminated);
    callee.cleanup_terminated();
    assert!(callee.dialog(taken).is_none());
}

#[test]
fn test_local_tags_differ() {
    let mut mgr = DialogManager::new("sip:me@192.168.1.2:5060");
    let first = mgr.handle_request(create_invite()).unwrap();
    let mut again = create_invite();
    again.call_id = Some("other@example.com".to_string());
    let second = mgr.handle_request(again).unwrap();
    let tag = |handle| mgr.dialog(handle).unwrap().id().local_tag.clone();
    assert_ne!(tag(first), tag(second));
}

#[test]
fn test_loose_routing_needs_the_parameter() {
    let loose = |value: &str| {
        RouteSet::from_record_route_values(&[value.to_string()], false).is_loose_routing()
    };
    assert!(loose("<sip:proxy.example.com;lr>"));
    assert!(loose("<sip:proxy.example.com;lr=on>"));
    assert!(!loose("<sip:proxy.example.com>"));
    assert!(!loose("<sip:proxy.example.com;lrx>"));
}

#[test]
fn test_reinvite_refreshes_the_target() {
    let invite = create_invite();
    let mut dialog = InviteDialog::new_uac(invite.clone());
    dialog.handle_response(create_response(&invite, 200));
    dialog.poll_actions();
    let target = dialog.info().remote_target.clone();
    let reinvite = |cseq: u32, contact: Option<&str>| {
        let mut request = new_request()
            .method(Method::Invite)
            .uri("sip:alice@example.com")
            .from("sip:bob@example.com", "totag")
            .to("sip:alice@example.com")
            .to_tag("fromtag")
            .call_id("test@example.com")
            .cseq(cseq)
            .build()
            .unwrap();
        request.contact_uri = contact.map(|c| c.to_string());
        request
    };
    dialog.handle_request(reinvite(2, None));
    assert_eq!(dialog.info().remote_target, target);
    dialog.handle_request(reinvite(3, Some("sip:bob@192.168.1.9:5070")));
    assert_eq!(dialog.info().remote_target, "sip:bob@192.168.1.9:5070");
    assert_eq!(dialog.info().remote_seq, Some(3));
    assert_eq!(dialog.state(), DialogState::Confirmed);
    dialog.handle_request(reinvite(3, Some("sip:bob@192.168.1.10:5080")));
    assert_eq!(dialog.info().remote_target, "sip:bob@192.168.1.9:5070");
    assert_eq!(dialog.poll_actions().len(), 2);
    assert_eq!(dialog.send_bye().unwrap().uri, "sip:bob@192.168.1.9:5070");
}
