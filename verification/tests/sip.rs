//! Reading SIP messages.

use rsiprtp::sip::{is_addressable, is_loose, transport_of, via_value, Method, SipMessage};
use rsiprtp::sip_text::{find_tag, find_uri, parse_head, parse_message};

fn request(raw: &str) -> rsiprtp::sip::SipRequest {
    match parse_message(raw.as_bytes()) {
        Some(SipMessage::Request(request)) => request,
        _ => panic!("expected a request"),
    }
}

#[test]
fn test_request_is_read() {
    let req = request(
        "INVITE sip:bob@example.com SIP/2.0\r\n\
Via: SIP/2.0/UDP a.example.com;branch=z9hG4bK1\r\n\
Via: SIP/2.0/TCP b.example.com;branch=z9hG4bK2\r\n\
From: \"Alice\" <sip:alice@example.com>;tag=1928\r\n\
To: <sip:bob@example.com>\r\n\
Call-ID: abc@host\r\n\
CSeq: 314159 INVITE\r\n\
Contact: <sip:alice@10.0.0.1>\r\n\
Record-Route: <sip:p1.example.com;lr>\r\n\
Record-Route: <sip:p2.example.com;lr>\r\n\
Content-Length: 4\r\n\
\r\nv=0\n",
    );
    assert_eq!(req.method, Method::Invite);
    assert_eq!(req.uri, "sip:bob@example.com");
    assert_eq!(
        req.vias,
        [
            "SIP/2.0/UDP a.example.com;branch=z9hG4bK1",
            "SIP/2.0/TCP b.example.com;branch=z9hG4bK2"
        ]
    );
    assert_eq!(req.from_uri.as_deref(), Some("sip:alice@example.com"));
    assert_eq!(req.from_tag.as_deref(), Some("1928"));
    assert_eq!(req.to_uri.as_deref(), Some("sip:bob@example.com"));
    assert_eq!(req.to_tag, None);
    assert_eq!(req.call_id.as_deref(), Some("abc@host"));
    assert_eq!(req.cseq, Some(314159));
    assert_eq!(req.contact_uri.as_deref(), Some("sip:alice@10.0.0.1"));
    assert_eq!(
        req.record_routes,
        ["<sip:p1.example.com;lr>", "<sip:p2.example.com;lr>"]
    );
    assert_eq!(req.body, b"v=0\n");
}

#[test]
fn test_short_names_and_case() {
    let req = request(
        "BYE sip:bob@example.com SIP/2.0\r\nv: SIP/2.0/UDP a\r\nFROM: sip:a@b;tag=x\r\n\
t: <sip:c@d>;TAG=y\r\ni: 7\r\ncseq: 2 BYE\r\nm: <sip:e@f>\r\n\r\n",
    );
    assert_eq!(req.method, Method::Bye);
    assert_eq!(req.vias, ["SIP/2.0/UDP a"]);
    assert_eq!(req.from_uri.as_deref(), Some("sip:a@b"));
    assert_eq!(req.from_tag.as_deref(), Some("x"));
    assert_eq!(req.to_tag.as_deref(), Some("y"));
    assert_eq!(req.call_id.as_deref(), Some("7"));
    assert_eq!(req.cseq, Some(2));
    assert_eq!(req.contact_uri.as_deref(), Some("sip:e@f"));
    assert!(req.body.is_empty());
}

#[test]
fn test_response_is_read() {
    let message = parse_head(
        "SIP/2.0 486 Busy Here\r\nFrom: <sip:a@b>;tag=1\r\nTo: <sip:c@d>;tag=2\r\nCall-ID: 9",
        vec![1, 2],
    );
    let Some(SipMessage::Response(response)) = message else {
        panic!("expected a response");
    };
    assert_eq!(response.status_code, 486);
    assert_eq!(response.reason, "Busy Here");
    assert_eq!(response.from_tag.as_deref(), Some("1"));
    assert_eq!(response.to_tag.as_deref(), Some("2"));
    assert_eq!(response.call_id.as_deref(), Some("9"));
    assert_eq!(response.body, [1, 2]);
}

#[test]
fn test_what_is_no_message() {
    assert!(parse_message(b"").is_none());
    assert!(parse_message(b"hello").is_none());
    assert!(parse_message(b"DANCE sip:a@b SIP/2.0\r\n\r\n").is_none());
    assert!(parse_message(b"INVITE sip:a@b SIP/3.0\r\n\r\n").is_none());
    assert!(parse_message(b"INVITE SIP/2.0\r\n\r\n").is_none());
    assert!(parse_message(b"SIP/2.0 abc OK\r\n\r\n").is_none());
    assert!(parse_message(b"SIP/2.0 70000 OK\r\n\r\n").is_none());
}

#[test]
fn test_every_method_is_known() {
    let names = [
        ("INVITE", Method::Invite),
        ("ACK", Method::Ack),
        ("BYE", Method::Bye),
        ("CANCEL", Method::Cancel),
        ("OPTIONS", Method::Options),
        ("REGISTER", Method::Register),
        ("INFO", Method::Info),
        ("UPDATE", Method::Update),
        ("PRACK", Method::Prack),
        ("SUBSCRIBE", Method::Subscribe),
        ("NOTIFY", Method::Notify),
        ("REFER", Method::Refer),
        ("MESSAGE", Method::Message),
        ("PUBLISH", Method::Publish),
    ];
    for (name, method) in names {
        assert_eq!(request(&format!("{name} sip:a@b SIP/2.0\r\n\r\n")).method, method);
    }
}

#[test]
fn test_addresses() {
    assert_eq!(find_uri("<sip:a@b;x=1>;tag=2").as_deref(), Some("sip:a@b;x=1"));
    assert_eq!(find_uri("sip:a@b;tag=2").as_deref(), Some("sip:a@b"));
    assert_eq!(find_uri("<sip:a@b"), None);
    assert_eq!(find_uri("<sip:a@[::1>"), None);
    assert_eq!(find_uri("<tel:123>"), None);
    assert_eq!(find_tag("<sip:a@b;tag=1>;x=2;tag=3").as_deref(), Some("3"));
    assert_eq!(find_tag("<sip:a@b>"), None);
    assert!(is_addressable("sips:a@[::1]:5061"));
    assert!(!is_addressable("sip:"));
}

#[test]
fn test_bytes_that_are_no_text_are_read_around() {
    let raw = b"INVITE sip:a@b SIP/2.0\r\nSubject: \xff\xfe\r\nCall-ID: 5\r\n\r\n\xff";
    let Some(SipMessage::Request(req)) = parse_message(raw) else {
        panic!("expected a request");
    };
    assert_eq!(req.call_id.as_deref(), Some("5"));
    assert_eq!(req.body, [0xff]);
}

#[test]
fn test_via_values() {
    let via = via_value("192.0.2.1", 5061, "TLS", "z9hG4bKx");
    assert_eq!(via, "SIP/2.0/TLS 192.0.2.1:5061;branch=z9hG4bKx");
    assert_eq!(transport_of(&via), Some("TLS"));
    assert_eq!(transport_of("INVALID"), None);
    assert!(is_loose("<sip:p;lr>"));
}
