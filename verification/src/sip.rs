//! SIP messages (RFC 3261), as far as dialogs read them.

use crate::text::{
    begins_with, clone_text, clone_texts, concat, find_space, first_space, has_prefix,
    push_decimal, same_ignoring_case, text_of, texts, trim, trimmed,
};
use vstd::prelude::*;

verus! {

/// SIP method.
#[derive(Debug, Clone, Copy, PartialEq, Eq, Structural)]
pub enum Method {
    Invite,
    Ack,
    Bye,
    Cancel,
    Options,
    Register,
    Info,
    Update,
    Prack,
    Subscribe,
    Notify,
    Refer,
    Message,
    Publish,
}

/// A SIP request. A header that is missing, or that cannot be read, is `None`.
#[derive(Debug)]
pub struct SipRequest {
    pub method: Method,
    /// Request URI.
    pub uri: String,
    /// Via values, topmost first.
    pub vias: Vec<String>,
    pub from_uri: Option<String>,
    pub from_tag: Option<String>,
    pub to_uri: Option<String>,
    pub to_tag: Option<String>,
    pub call_id: Option<String>,
    /// Number of the CSeq header.
    pub cseq: Option<u32>,
    pub contact_uri: Option<String>,
    /// Record-Route values, topmost first.
    pub record_routes: Vec<String>,
    pub body: Vec<u8>,
}

/// What a request says.
#[verifier::ext_equal]
pub struct RequestView {
    pub method: Method,
    pub uri: Seq<char>,
    pub vias: Seq<Seq<char>>,
    pub from_uri: Option<Seq<char>>,
    pub from_tag: Option<Seq<char>>,
    pub to_uri: Option<Seq<char>>,
    pub to_tag: Option<Seq<char>>,
    pub call_id: Option<Seq<char>>,
    pub cseq: Option<u32>,
    pub contact_uri: Option<Seq<char>>,
    pub record_routes: Seq<Seq<char>>,
    pub body: Seq<u8>,
}

impl View for SipRequest {
    type V = RequestView;

    open spec fn view(&self) -> RequestView {
        RequestView {
            method: self.method,
            uri: self.uri@,
            vias: texts(self.vias@),
            from_uri: text_of(self.from_uri),
            from_tag: text_of(self.from_tag),
            to_uri: text_of(self.to_uri),
            to_tag: text_of(self.to_tag),
            call_id: text_of(self.call_id),
            cseq: self.cseq,
            contact_uri: text_of(self.contact_uri),
            record_routes: texts(self.record_routes@),
            body: self.body@,
        }
    }
}

impl Clone for SipRequest {
    fn clone(&self) -> (r: Self)
        ensures
            r@ == self@,
    {
        SipRequest {
            method: self.method,
            uri: self.uri.clone(),
            vias: clone_texts(&self.vias),
            from_uri: clone_text(&self.from_uri),
            from_tag: clone_text(&self.from_tag),
            to_uri: clone_text(&self.to_uri),
            to_tag: clone_text(&self.to_tag),
            call_id: clone_text(&self.call_id),
            cseq: self.cseq,
            contact_uri: clone_text(&self.contact_uri),
            record_routes: clone_texts(&self.record_routes),
            body: self.body.clone(),
        }
    }
}

/// A SIP response. A header that is missing, or that cannot be read, is `None`.
#[derive(Debug)]
pub struct SipResponse {
    pub status_code: u16,
    pub reason: String,
    pub from_tag: Option<String>,
    pub to_tag: Option<String>,
    pub call_id: Option<String>,
    pub contact_uri: Option<String>,
    /// Record-Route values, topmost first.
    pub record_routes: Vec<String>,
    pub body: Vec<u8>,
}

/// What a response says.
#[verifier::ext_equal]
pub struct ResponseView {
    pub status_code: u16,
    pub reason: Seq<char>,
    pub from_tag: Option<Seq<char>>,
    pub to_tag: Option<Seq<char>>,
    pub call_id: Option<Seq<char>>,
    pub contact_uri: Option<Seq<char>>,
    pub record_routes: Seq<Seq<char>>,
    pub body: Seq<u8>,
}

impl View for SipResponse {
    type V = ResponseView;

    open spec fn view(&self) -> ResponseView {
        ResponseView {
            status_code: self.status_code,
            reason: self.reason@,
            from_tag: text_of(self.from_tag),
            to_tag: text_of(self.to_tag),
            call_id: text_of(self.call_id),
            contact_uri: text_of(self.contact_uri),
            record_routes: texts(self.record_routes@),
            body: self.body@,
        }
    }
}

impl Clone for SipResponse {
    fn clone(&self) -> (r: Self)
        ensures
            r@ == self@,
    {
        SipResponse {
            status_code: self.status_code,
            reason: self.reason.clone(),
            from_tag: clone_text(&self.from_tag),
            to_tag: clone_text(&self.to_tag),
            call_id: clone_text(&self.call_id),
            contact_uri: clone_text(&self.contact_uri),
            record_routes: clone_texts(&self.record_routes),
            body: self.body.clone(),
        }
    }
}

/// A SIP message.
#[derive(Debug, Clone)]
pub enum SipMessage {
    Request(SipRequest),
    Response(SipResponse),
}

/// What a message says.
pub enum MessageView {
    Request(RequestView),
    Response(ResponseView),
}

impl View for SipMessage {
    type V = MessageView;

    open spec fn view(&self) -> MessageView {
        match self {
            SipMessage::Request(request) => MessageView::Request(request@),
            SipMessage::Response(response) => MessageView::Response(response@),
        }
    }
}

/// Whether a text ends behind an opening bracket that nothing has closed.
pub open spec fn left_open(s: Seq<char>) -> bool
    decreases s.len(),
{
    if s.len() == 0 {
        false
    } else if s.last() == '[' {
        true
    } else if s.last() == ']' {
        false
    } else {
        left_open(s.drop_last())
    }
}

/// Whether a request can be addressed to a URI: a SIP URI with something behind its scheme, and
/// with the bracket of an IPv6 host closed.
pub open spec fn addressable(uri: Seq<char>) -> bool {
    &&& begins_with(uri, "sip:"@) && uri.len() > "sip:"@.len() || begins_with(uri, "sips:"@)
        && uri.len() > "sips:"@.len()
    &&& !left_open(uri)
}

/// Whether a request can be addressed to a URI.
pub fn is_addressable(uri: &str) -> (r: bool)
    ensures
        r == addressable(uri@),
{
    let n: usize = uri.unicode_len();
    let plain: bool = has_prefix(uri, "sip:") && n > "sip:".unicode_len();
    let secure: bool = has_prefix(uri, "sips:") && n > "sips:".unicode_len();
    let mut open: bool = false;
    let mut i: usize = 0;
    while i < n
        invariant
            i <= n,
            n == uri@.len(),
            open == left_open(uri@.take(i as int)),
        decreases n - i,
    {
        let c: char = uri.get_char(i);
        if c == '[' {
            open = true;
        } else if c == ']' {
            open = false;
        }
        assert(uri@.take(i + 1).drop_last() =~= uri@.take(i as int));
        assert(uri@.take(i + 1).last() == c);
        i = i + 1;
    }
    assert(uri@.take(n as int) =~= uri@);
    (plain || secure) && !open
}

/// A Via value: `SIP/2.0/<protocol> <host>:<port>;branch=<branch>`.
pub open spec fn via_text(
    host: Seq<char>,
    port: u16,
    protocol: Seq<char>,
    branch: Seq<char>,
) -> Seq<char> {
    "SIP/2.0/"@ + protocol + " "@ + host + ":"@ + crate::text::decimal(port as nat) + ";branch="@
        + branch
}

/// Writes a Via value.
pub fn via_value(host: &str, port: u16, protocol: &str, branch: &str) -> (r: String)
    ensures
        r@ == via_text(host@, port, protocol@, branch@),
{
    let mut s: String = concat("SIP/2.0/", protocol);
    s.append(" ");
    s.append(host);
    s.append(":");
    push_decimal(&mut s, port as u64);
    s.append(";branch=");
    s.append(branch);
    s
}

/// The transport that a Via value names: what stands between `SIP/2.0/` and the first white
/// space. `None` unless a host follows.
pub open spec fn via_transport(s: Seq<char>) -> Option<Seq<char>> {
    if !begins_with(s, "SIP/2.0/"@) {
        None
    } else {
        let rest = s.skip("SIP/2.0/"@.len() as int);
        let n = first_space(rest);
        if 0 < n < rest.len() {
            Some(rest.take(n))
        } else {
            None
        }
    }
}

/// The transport that a Via value names.
pub fn transport_of(s: &str) -> (r: Option<&str>)
    ensures
        match r {
            Some(t) => via_transport(s@) == Some(t@),
            None => via_transport(s@) is None,
        },
{
    if !has_prefix(s, "SIP/2.0/") {
        return None;
    }
    let start: usize = "SIP/2.0/".unicode_len();
    let ghost rest = s@.skip(start as int);
    let i: usize = find_space(s, start);
    if i > start && i < s.unicode_len() {
        assert(s@.subrange(start as int, i as int) =~= rest.take(i - start));
        Some(s.substring_char(start, i))
    } else {
        None
    }
}

/// A Via value without the header's name.
pub open spec fn via_body(s: Seq<char>) -> Seq<char> {
    let t = trimmed(s);
    if begins_with(t, "Via:"@) {
        trimmed(t.skip("Via:"@.len() as int))
    } else {
        t
    }
}

/// Whether a request came over TLS: whether its topmost Via says so.
pub open spec fn over_tls(vias: Seq<Seq<char>>) -> bool {
    vias.len() > 0 && match via_transport(via_body(vias[0])) {
        Some(t) => crate::text::ascii_lowercase(t) == crate::text::ascii_lowercase("TLS"@),
        None => false,
    }
}

/// Whether a request came over TLS.
pub fn is_over_tls(vias: &Vec<String>) -> (r: bool)
    ensures
        r == over_tls(texts(vias@)),
{
    if vias.len() == 0 {
        return false;
    }
    assert(texts(vias@)[0] == vias@[0]@);
    let value: &str = trim(vias[0].as_str());
    let body: &str = if has_prefix(value, "Via:") {
        let cut: usize = "Via:".unicode_len();
        assert(value@.subrange(cut as int, value@.len() as int) =~= value@.skip(cut as int));
        trim(value.substring_char(cut, value.unicode_len()))
    } else {
        value
    };
    match transport_of(body) {
        Some(t) => same_ignoring_case(t, "TLS"),
        None => false,
    }
}

/// Whether the parameter `lr` stands at a place of a Record-Route value.
pub open spec fn lr_at(s: Seq<char>, i: int) -> bool {
    &&& 0 <= i
    &&& i + 3 <= s.len()
    &&& s[i] == ';'
    &&& s[i + 1] == 'l'
    &&& s[i + 2] == 'r'
    &&& i + 3 == s.len() || s[i + 3] == ';' || s[i + 3] == '>' || s[i + 3] == '='
}

/// Whether a Record-Route value asks for loose routing.
pub open spec fn loose(s: Seq<char>) -> bool {
    exists|i: int| lr_at(s, i)
}

/// Whether a Record-Route value asks for loose routing.
pub fn is_loose(s: &str) -> (r: bool)
    ensures
        r == loose(s@),
{
    let n: usize = s.unicode_len();
    let mut i: usize = 0;
    while i < n
        invariant
            i <= n,
            n == s@.len(),
            forall|k: int| #![trigger lr_at(s@, k)] 0 <= k < i ==> !lr_at(s@, k),
        decreases n - i,
    {
        if n - i >= 3 && s.get_char(i) == ';' && s.get_char(i + 1) == 'l' && s.get_char(i + 2)
            == 'r' {
            if n - i == 3 {
                assert(lr_at(s@, i as int));
                return true;
            }
            let c: char = s.get_char(i + 3);
            if c == ';' || c == '>' || c == '=' {
                assert(lr_at(s@, i as int));
                return true;
            }
        }
        i = i + 1;
    }
    false
}

/// A fresh identifier (`uuid`'s `Uuid::new_v4`, written by `Uuid::simple`): 32 lower-case
/// hexadecimal digits. Which ones is left to chance.
#[verifier::external_body]
pub(crate) fn new_identifier() -> (r: String)
    ensures
        identifier(r@),
{
    uuid::Uuid::new_v4().simple().to_string()
}

/// Whether a text is made of 32 lower-case hexadecimal digits.
pub open spec fn identifier(s: Seq<char>) -> bool {
    s.len() == 32 && forall|i: int| 0 <= i < 32 ==> hex_digit(#[trigger] s[i])
}

/// A lower-case hexadecimal digit.
pub open spec fn hex_digit(c: char) -> bool {
    '0' <= c <= '9' || 'a' <= c <= 'f'
}

} // verus!
