//! Reading SIP messages (RFC 3261, section 7).

use crate::sip::{addressable, is_addressable, Method, MessageView, RequestView, ResponseView};
use crate::sip::{SipMessage, SipRequest, SipResponse};
use crate::text::{
    ascii_lowercase, find_from, find_space, first_of, first_space, from_utf8_lossy, lines,
    number16, number32, parse_u16, parse_u32, same_ignoring_case, same_text, split_lines, text_of,
    texts, trim, trimmed, utf8_lossy,
};
use vstd::prelude::*;
use vstd::slice::{slice_subrange, slice_to_vec};

verus! {

/// The length of a message's head: what stands before its first empty line.
pub open spec fn head_len(data: Seq<u8>) -> int
    decreases data.len(),
{
    if data.len() < 4 {
        data.len() as int
    } else if data[0] == 13 && data[1] == 10 && data[2] == 13 && data[3] == 10 {
        0
    } else {
        1 + head_len(data.skip(1))
    }
}

/// The body of a message: what stands behind its first empty line.
pub open spec fn body_of(data: Seq<u8>) -> Seq<u8> {
    let n = head_len(data);
    if n + 4 <= data.len() {
        data.skip(n + 4)
    } else {
        Seq::empty()
    }
}

/// The head of a message, as text.
pub open spec fn head_of(data: Seq<u8>) -> Seq<char> {
    utf8_lossy(data.take(head_len(data)))
}

/// The first word of a text that does not begin with white space.
pub open spec fn word(s: Seq<char>) -> Seq<char> {
    s.take(first_space(s))
}

/// What stands behind the first word of such a text.
pub open spec fn behind_word(s: Seq<char>) -> Seq<char> {
    trimmed(s.skip(first_space(s)))
}

/// Whether a line is a header of a name, which may be given in its short form.
pub open spec fn named(line: Seq<char>, name: Seq<char>, short: Seq<char>) -> bool {
    let n = first_of(line, ':');
    let given = ascii_lowercase(trimmed(line.take(n)));
    n < line.len() && (given == ascii_lowercase(name) || given == ascii_lowercase(short))
}

/// The value of a header line.
pub open spec fn value_of(line: Seq<char>) -> Seq<char> {
    trimmed(line.skip(first_of(line, ':') + 1))
}

/// The value of the first header of a name, from a line on.
pub open spec fn field(
    all: Seq<Seq<char>>,
    i: int,
    name: Seq<char>,
    short: Seq<char>,
) -> Option<Seq<char>>
    decreases all.len() - i,
{
    if i >= all.len() {
        None
    } else if named(all[i], name, short) {
        Some(value_of(all[i]))
    } else {
        field(all, i + 1, name, short)
    }
}

/// The values of the headers of a name, in lines up to one.
pub open spec fn fields(
    all: Seq<Seq<char>>,
    end: int,
    name: Seq<char>,
    short: Seq<char>,
) -> Seq<Seq<char>>
    decreases end,
{
    if end <= 1 {
        Seq::empty()
    } else if named(all[end - 1], name, short) {
        fields(all, end - 1, name, short).push(value_of(all[end - 1]))
    } else {
        fields(all, end - 1, name, short)
    }
}

/// The URI of an address: what stands in angle brackets or, without them, before the parameters.
/// `None` where a bracket is not closed and where nothing can be addressed to it.
pub open spec fn uri_in(s: Seq<char>) -> Option<Seq<char>> {
    let a = first_of(s, '<');
    let inner = s.skip(a + 1);
    let b = first_of(inner, '>');
    let uri = if a < s.len() {
        inner.take(b)
    } else {
        trimmed(s.take(first_of(s, ';')))
    };
    if (a < s.len() ==> b < inner.len()) && addressable(uri) {
        Some(uri)
    } else {
        None
    }
}

/// The value of a parameter, among those that follow semicolons.
pub open spec fn parameter(s: Seq<char>, name: Seq<char>) -> Option<Seq<char>>
    decreases s.len(),
{
    let n = first_of(s, ';');
    if !(0 <= n < s.len()) {
        None
    } else {
        let rest = s.skip(n + 1);
        let one = trimmed(rest.take(first_of(rest, ';')));
        let q = first_of(one, '=');
        if q < one.len() && ascii_lowercase(one.take(q)) == ascii_lowercase(name) {
            Some(one.skip(q + 1))
        } else {
            parameter(rest, name)
        }
    }
}

/// The tag of an address: the parameter `tag` behind the URI.
pub open spec fn tag_in(s: Seq<char>) -> Option<Seq<char>> {
    let b = first_of(s, '>');
    parameter(
        if b < s.len() {
            s.skip(b)
        } else {
            s
        },
        "tag"@,
    )
}

/// A reading of a header that may be missing.
pub open spec fn uri_of(value: Option<Seq<char>>) -> Option<Seq<char>> {
    match value {
        Some(s) => uri_in(s),
        None => None,
    }
}

/// The tag in a header that may be missing.
pub open spec fn tag_of(value: Option<Seq<char>>) -> Option<Seq<char>> {
    match value {
        Some(s) => tag_in(s),
        None => None,
    }
}

/// The number in a CSeq header that may be missing.
pub open spec fn cseq_of(value: Option<Seq<char>>) -> Option<u32> {
    match value {
        Some(s) => number32(word(s)),
        None => None,
    }
}

/// The method of a name.
pub open spec fn method_of(s: Seq<char>) -> Option<Method> {
    if s == "INVITE"@ {
        Some(Method::Invite)
    } else if s == "ACK"@ {
        Some(Method::Ack)
    } else if s == "BYE"@ {
        Some(Method::Bye)
    } else if s == "CANCEL"@ {
        Some(Method::Cancel)
    } else if s == "OPTIONS"@ {
        Some(Method::Options)
    } else if s == "REGISTER"@ {
        Some(Method::Register)
    } else if s == "INFO"@ {
        Some(Method::Info)
    } else if s == "UPDATE"@ {
        Some(Method::Update)
    } else if s == "PRACK"@ {
        Some(Method::Prack)
    } else if s == "SUBSCRIBE"@ {
        Some(Method::Subscribe)
    } else if s == "NOTIFY"@ {
        Some(Method::Notify)
    } else if s == "REFER"@ {
        Some(Method::Refer)
    } else if s == "MESSAGE"@ {
        Some(Method::Message)
    } else if s == "PUBLISH"@ {
        Some(Method::Publish)
    } else {
        None
    }
}

/// The message that a head and a body make: a response where the first line begins with
/// `SIP/2.0`, a request where it ends so and begins with a method.
pub open spec fn message_of(head: Seq<char>, body: Seq<u8>) -> Option<MessageView> {
    let all = lines(head);
    let start = trimmed(all[0]);
    let rest = behind_word(start);
    let from = field(all, 1, "From"@, "f"@);
    let to = field(all, 1, "To"@, "t"@);
    let call_id = field(all, 1, "Call-ID"@, "i"@);
    let contact = field(all, 1, "Contact"@, "m"@);
    let record_routes = fields(all, all.len() as int, "Record-Route"@, "Record-Route"@);
    if word(start) == "SIP/2.0"@ {
        match number16(word(rest)) {
            Some(status_code) => Some(
                MessageView::Response(
                    ResponseView {
                        status_code,
                        reason: behind_word(rest),
                        from_tag: tag_of(from),
                        to_tag: tag_of(to),
                        call_id,
                        contact_uri: uri_of(contact),
                        record_routes,
                        body,
                    },
                ),
            ),
            None => None,
        }
    } else if behind_word(rest) == "SIP/2.0"@ {
        match method_of(word(start)) {
            Some(method) => Some(
                MessageView::Request(
                    RequestView {
                        method,
                        uri: word(rest),
                        vias: fields(all, all.len() as int, "Via"@, "v"@),
                        from_uri: uri_of(from),
                        from_tag: tag_of(from),
                        to_uri: uri_of(to),
                        to_tag: tag_of(to),
                        call_id,
                        cseq: cseq_of(field(all, 1, "CSeq"@, "CSeq"@)),
                        contact_uri: uri_of(contact),
                        record_routes,
                        body,
                    },
                ),
            ),
            None => None,
        }
    } else {
        None
    }
}

/// The first word of a text that does not begin with white space.
fn word_of(s: &str) -> (r: &str)
    ensures
        r@ == word(s@),
{
    assert(s@.skip(0) =~= s@);
    let n: usize = find_space(s, 0);
    assert(s@.subrange(0, n as int) =~= s@.take(n as int));
    s.substring_char(0, n)
}

/// What stands behind the first word of such a text.
fn rest_of(s: &str) -> (r: &str)
    ensures
        r@ == behind_word(s@),
{
    assert(s@.skip(0) =~= s@);
    let n: usize = find_space(s, 0);
    assert(s@.subrange(n as int, s@.len() as int) =~= s@.skip(n as int));
    trim(s.substring_char(n, s.unicode_len()))
}

/// The value of a line that is a header of a name.
fn value_if_named(line: &str, name: &str, short: &str) -> (r: Option<String>)
    ensures
        match r {
            Some(v) => named(line@, name@, short@) && v@ == value_of(line@),
            None => !named(line@, name@, short@),
        },
{
    assert(line@.skip(0) =~= line@);
    let n: usize = find_from(line, 0, ':');
    if n == line.unicode_len() {
        return None;
    }
    assert(line@.subrange(0, n as int) =~= line@.take(n as int));
    let given: &str = trim(line.substring_char(0, n));
    if !same_ignoring_case(given, name) && !same_ignoring_case(given, short) {
        return None;
    }
    assert(line@.subrange(n + 1, line@.len() as int) =~= line@.skip(n + 1));
    Some(trim(line.substring_char(n + 1, line.unicode_len())).to_owned())
}

/// The value of the first header of a name, behind the first line.
pub fn find_field(all: &Vec<String>, name: &str, short: &str) -> (r: Option<String>)
    ensures
        text_of(r) == field(texts(all@), 1, name@, short@),
{
    let ghost seen = texts(all@);
    let mut i: usize = 1;
    while i < all.len()
        invariant
            1 <= i,
            seen == texts(all@),
            field(seen, 1, name@, short@) == field(seen, i as int, name@, short@),
        decreases all@.len() - i,
    {
        assert(seen[i as int] == all@[i as int]@);
        match value_if_named(all[i].as_str(), name, short) {
            Some(value) => {
                return Some(value);
            },
            None => {},
        }
        i = i + 1;
    }
    None
}

/// The values of the headers of a name, behind the first line.
pub fn find_fields(all: &Vec<String>, name: &str, short: &str) -> (r: Vec<String>)
    ensures
        texts(r@) == fields(texts(all@), all@.len() as int, name@, short@),
{
    let ghost seen = texts(all@);
    let mut out: Vec<String> = Vec::new();
    let mut i: usize = 1;
    assert(texts(out@) =~= Seq::empty());
    while i < all.len()
        invariant
            1 <= i,
            i <= all@.len() || all@.len() == 0 && i == 1,
            seen == texts(all@),
            texts(out@) == fields(seen, i as int, name@, short@),
        decreases all@.len() - i,
    {
        let ghost had = texts(out@);
        assert(seen[i as int] == all@[i as int]@);
        match value_if_named(all[i].as_str(), name, short) {
            Some(value) => {
                out.push(value);
                assert(texts(out@) =~= had.push(value@));
            },
            None => {},
        }
        i = i + 1;
    }
    out
}

/// The URI of an address.
pub fn find_uri(s: &str) -> (r: Option<String>)
    ensures
        text_of(r) == uri_in(s@),
{
    let n: usize = s.unicode_len();
    assert(s@.skip(0) =~= s@);
    let a: usize = find_from(s, 0, '<');
    if a < n {
        let b: usize = find_from(s, a + 1, '>');
        let ghost inner = s@.skip(a + 1);
        if b == n {
            return None;
        }
        assert(s@.subrange(a + 1, b as int) =~= inner.take(b - a - 1));
        let uri: &str = s.substring_char(a + 1, b);
        if is_addressable(uri) {
            Some(uri.to_owned())
        } else {
            None
        }
    } else {
        let e: usize = find_from(s, 0, ';');
        assert(s@.subrange(0, e as int) =~= s@.take(e as int));
        let uri: &str = trim(s.substring_char(0, e));
        if is_addressable(uri) {
            Some(uri.to_owned())
        } else {
            None
        }
    }
}

/// The value of a parameter, among those that follow semicolons from a place on.
fn find_parameter(s: &str, from: usize, name: &str) -> (r: Option<String>)
    requires
        from <= s@.len(),
    ensures
        text_of(r) == parameter(s@.skip(from as int), name@),
{
    let n: usize = s.unicode_len();
    let mut at: usize = from;
    while at < n
        invariant
            from <= at <= n,
            n == s@.len(),
            parameter(s@.skip(from as int), name@) == parameter(s@.skip(at as int), name@),
        decreases n - at,
    {
        let ghost here = s@.skip(at as int);
        let i: usize = find_from(s, at, ';');
        if i == n {
            return None;
        }
        let ghost rest = s@.skip(i + 1);
        assert(here.skip(i - at + 1) =~= rest);
        let e: usize = find_from(s, i + 1, ';');
        assert(s@.subrange(i + 1, e as int) =~= rest.take(e - i - 1));
        let one: &str = trim(s.substring_char(i + 1, e));
        assert(one@.skip(0) =~= one@);
        let q: usize = find_from(one, 0, '=');
        if q < one.unicode_len() {
            assert(one@.subrange(0, q as int) =~= one@.take(q as int));
            if same_ignoring_case(one.substring_char(0, q), name) {
                assert(one@.subrange(q + 1, one@.len() as int) =~= one@.skip(q + 1));
                return Some(one.substring_char(q + 1, one.unicode_len()).to_owned());
            }
        }
        at = i + 1;
    }
    assert(s@.skip(at as int).len() == 0);
    None
}

/// The tag of an address.
pub fn find_tag(s: &str) -> (r: Option<String>)
    ensures
        text_of(r) == tag_in(s@),
{
    assert(s@.skip(0) =~= s@);
    let b: usize = find_from(s, 0, '>');
    if b < s.unicode_len() {
        find_parameter(s, b, "tag")
    } else {
        find_parameter(s, 0, "tag")
    }
}

fn uri_from(value: &Option<String>) -> (r: Option<String>)
    ensures
        text_of(r) == uri_of(text_of(*value)),
{
    match value {
        Some(s) => find_uri(s.as_str()),
        None => None,
    }
}

fn tag_from(value: &Option<String>) -> (r: Option<String>)
    ensures
        text_of(r) == tag_of(text_of(*value)),
{
    match value {
        Some(s) => find_tag(s.as_str()),
        None => None,
    }
}

fn cseq_from(value: &Option<String>) -> (r: Option<u32>)
    ensures
        r == cseq_of(text_of(*value)),
{
    match value {
        Some(s) => parse_u32(word_of(s.as_str())),
        None => None,
    }
}

/// The method of a name.
pub fn find_method(s: &str) -> (r: Option<Method>)
    ensures
        r == method_of(s@),
{
    if same_text(s, "INVITE") {
        Some(Method::Invite)
    } else if same_text(s, "ACK") {
        Some(Method::Ack)
    } else if same_text(s, "BYE") {
        Some(Method::Bye)
    } else if same_text(s, "CANCEL") {
        Some(Method::Cancel)
    } else if same_text(s, "OPTIONS") {
        Some(Method::Options)
    } else if same_text(s, "REGISTER") {
        Some(Method::Register)
    } else if same_text(s, "INFO") {
        Some(Method::Info)
    } else if same_text(s, "UPDATE") {
        Some(Method::Update)
    } else if same_text(s, "PRACK") {
        Some(Method::Prack)
    } else if same_text(s, "SUBSCRIBE") {
        Some(Method::Subscribe)
    } else if same_text(s, "NOTIFY") {
        Some(Method::Notify)
    } else if same_text(s, "REFER") {
        Some(Method::Refer)
    } else if same_text(s, "MESSAGE") {
        Some(Method::Message)
    } else if same_text(s, "PUBLISH") {
        Some(Method::Publish)
    } else {
        None
    }
}

/// The message that a head and a body make.
pub fn parse_head(head: &str, body: Vec<u8>) -> (r: Option<SipMessage>)
    ensures
        match r {
            Some(message) => message_of(head@, body@) == Some(message@),
            None => message_of(head@, body@) is None,
        },
{
    let all: Vec<String> = split_lines(head);
    let ghost seen = texts(all@);
    assert(seen.len() > 0);
    assert(seen[0] == all@[0]@);
    let start: &str = trim(all[0].as_str());
    let first: &str = word_of(start);
    let rest: &str = rest_of(start);
    let from: Option<String> = find_field(&all, "From", "f");
    let to: Option<String> = find_field(&all, "To", "t");
    let call_id: Option<String> = find_field(&all, "Call-ID", "i");
    let contact: Option<String> = find_field(&all, "Contact", "m");
    let record_routes: Vec<String> = find_fields(&all, "Record-Route", "Record-Route");
    if same_text(first, "SIP/2.0") {
        match parse_u16(word_of(rest)) {
            Some(status_code) => Some(
                SipMessage::Response(
                    SipResponse {
                        status_code,
                        reason: rest_of(rest).to_owned(),
                        from_tag: tag_from(&from),
                        to_tag: tag_from(&to),
                        call_id,
                        contact_uri: uri_from(&contact),
                        record_routes,
                        body,
                    },
                ),
            ),
            None => None,
        }
    } else if same_text(rest_of(rest), "SIP/2.0") {
        match find_method(first) {
            Some(method) => Some(
                SipMessage::Request(
                    SipRequest {
                        method,
                        uri: word_of(rest).to_owned(),
                        vias: find_fields(&all, "Via", "v"),
                        from_uri: uri_from(&from),
                        from_tag: tag_from(&from),
                        to_uri: uri_from(&to),
                        to_tag: tag_from(&to),
                        call_id,
                        cseq: cseq_from(&find_field(&all, "CSeq", "CSeq")),
                        contact_uri: uri_from(&contact),
                        record_routes,
                        body,
                    },
                ),
            ),
            None => None,
        }
    } else {
        None
    }
}

/// The length of a message's head.
fn find_head_len(data: &[u8]) -> (r: usize)
    ensures
        r == head_len(data@),
        r <= data@.len(),
{
    let n: usize = data.len();
    let mut i: usize = 0;
    assert(data@.skip(0) =~= data@);
    while n - i >= 4
        invariant
            i <= n,
            n == data@.len(),
            head_len(data@) == i + head_len(data@.skip(i as int)),
        decreases n - i,
    {
        let ghost here = data@.skip(i as int);
        if data[i] == 13 && data[i + 1] == 10 && data[i + 2] == 13 && data[i + 3] == 10 {
            return i;
        }
        assert(here.skip(1) =~= data@.skip(i + 1));
        i = i + 1;
    }
    n
}

/// The head of a message, as text.
pub fn read_head(data: &[u8]) -> (r: String)
    ensures
        r@ == head_of(data@),
{
    let n: usize = find_head_len(data);
    assert(data@.subrange(0, n as int) =~= data@.take(n as int));
    from_utf8_lossy(slice_subrange(data, 0, n))
}

/// The message that bytes hold.
pub fn parse_message(data: &[u8]) -> (r: Option<SipMessage>)
    ensures
        match r {
            Some(message) => message_of(head_of(data@), body_of(data@)) == Some(message@),
            None => message_of(head_of(data@), body_of(data@)) is None,
        },
{
    let n: usize = find_head_len(data);
    let body: Vec<u8> = if data.len() - n >= 4 {
        assert(data@.subrange(n + 4, data@.len() as int) =~= data@.skip(n + 4));
        slice_to_vec(slice_subrange(data, n + 4, data.len()))
    } else {
        Vec::new()
    };
    let head: String = read_head(data);
    assert(body@ =~= body_of(data@));
    parse_head(head.as_str(), body)
}

} // verus!
