//! How a SIP message is read: where its head ends, which line gives which field, and what stands in
//! a name-addr.

use crate::sip::{addressable, lr_at, loose, Method};
use crate::sip_text::{
    behind_word, body_of, cseq_of, field, fields, head_len, head_of, message_of, method_of, named, parameter,
    tag_in, uri_in, value_of, word,
};
use crate::text::{
    ascii_lower, ascii_lowercase, first_of, first_space, lines, number16, number32, trim_start,
    trimmed, utf8_lossy, white_space,
};
use crate::text_laws::lemma_found_first;
use vstd::prelude::*;

verus! {

/// Whether an empty line stands at a place: two carriage returns, each with its line feed.
pub open spec fn empty_line_at(data: Seq<u8>, i: int) -> bool {
    0 <= i && i + 4 <= data.len() && data[i] == 13 && data[i + 1] == 10 && data[i + 2] == 13
        && data[i + 3] == 10
}

/// The head goes up to the first empty line, and the body is all that follows it; a message without
/// one is all head.
pub proof fn lemma_head_ends(data: Seq<u8>, i: int)
    ensures
        0 <= head_len(data) <= data.len(),
        head_len(data) < data.len() ==> empty_line_at(data, head_len(data)),
        0 <= i < head_len(data) ==> !empty_line_at(data, i),
        empty_line_at(data, head_len(data)) ==> body_of(data) == data.skip(head_len(data) + 4),
        head_len(data) == data.len() ==> body_of(data).len() == 0,
    decreases data.len(),
{
    if data.len() < 4 {
    } else if data[0] == 13 && data[1] == 10 && data[2] == 13 && data[3] == 10 {
    } else {
        let rest = data.skip(1);
        lemma_head_ends(rest, i - 1);
        assert(head_len(data) == 1 + head_len(rest));
        let n = head_len(rest);
        if n < rest.len() {
            assert(rest[n] == data[n + 1]);
            assert(rest[n + 1] == data[n + 2]);
            assert(rest[n + 2] == data[n + 3]);
            assert(rest[n + 3] == data[n + 4]);
        }
        if 0 <= i - 1 < n && empty_line_at(data, i) {
            assert(rest[i - 1] == data[i]);
            assert(rest[i] == data[i + 1]);
            assert(rest[i + 1] == data[i + 2]);
            assert(rest[i + 2] == data[i + 3]);
            assert(empty_line_at(rest, i - 1));
        }
    }
}

/// A line gives a field if its name, without regard to case and to white space around it, stands
/// before the first colon; what stands behind the colon, trimmed, is the value.
pub proof fn lemma_line_named(
    given: Seq<char>,
    value: Seq<char>,
    name: Seq<char>,
    short: Seq<char>,
)
    requires
        forall|i: int| 0 <= i < given.len() ==> #[trigger] given[i] != ':',
    ensures
        named(given + seq![':'] + value, name, short) <==> ascii_lowercase(trimmed(given))
            == ascii_lowercase(name) || ascii_lowercase(trimmed(given)) == ascii_lowercase(short),
        value_of(given + seq![':'] + value) == trimmed(value),
        !named(given, name, short),
{
    let line = given + seq![':'] + value;
    lemma_found_first(line, ':');
    let n = first_of(line, ':');
    assert(line[given.len() as int] == ':');
    if n < given.len() {
        assert(line[n] == given[n]);
    }
    assert(n == given.len());
    assert(line.take(n) =~= given);
    assert(line.skip(n + 1) =~= value);
    lemma_found_first(given, ':');
    if first_of(given, ':') < given.len() {
        assert(given[first_of(given, ':')] == ':');
    }
}

/// The first line that gives a field gives its value, from line `i` on.
pub proof fn lemma_first_field(
    all: Seq<Seq<char>>,
    i: int,
    k: int,
    name: Seq<char>,
    short: Seq<char>,
)
    requires
        0 <= i,
    ensures
        i <= k < all.len() && named(all[k], name, short) && (forall|j: int|
            i <= j < k ==> !named(#[trigger] all[j], name, short)) ==> field(all, i, name, short)
            == Some(value_of(all[k])),
        (forall|j: int| i <= j < all.len() ==> !named(#[trigger] all[j], name, short)) ==> field(
            all,
            i,
            name,
            short,
        ) is None,
    decreases all.len() - i,
{
    if i < all.len() && !named(all[i], name, short) {
        lemma_first_field(all, i + 1, k, name, short);
    }
}

/// All lines that give a field are read, in their order; the first line of a message is none.
pub proof fn lemma_all_fields(
    all: Seq<Seq<char>>,
    line: Seq<char>,
    name: Seq<char>,
    short: Seq<char>,
)
    requires
        all.len() > 0,
    ensures
        fields(seq![line], 1, name, short).len() == 0,
        named(line, name, short) ==> fields(all.push(line), all.len() as int + 1, name, short)
            == fields(all, all.len() as int, name, short).push(value_of(line)),
        !named(line, name, short) ==> fields(all.push(line), all.len() as int + 1, name, short)
            == fields(all, all.len() as int, name, short),
{
    lemma_fields_prefix(all, line, all.len() as int, name, short);
}

proof fn lemma_fields_prefix(
    all: Seq<Seq<char>>,
    line: Seq<char>,
    end: int,
    name: Seq<char>,
    short: Seq<char>,
)
    requires
        end <= all.len(),
    ensures
        fields(all.push(line), end, name, short) == fields(all, end, name, short),
    decreases end,
{
    if end > 1 {
        lemma_fields_prefix(all, line, end - 1, name, short);
        assert(all.push(line)[end - 1] == all[end - 1]);
    }
}

/// The URI of a value is what stands in angle brackets; without them, what stands before the first
/// semicolon. It is none if a request cannot be addressed to it.
pub proof fn lemma_uri(shown: Seq<char>, uri: Seq<char>, rest: Seq<char>)
    requires
        forall|i: int| 0 <= i < shown.len() ==> #[trigger] shown[i] != '<',
        forall|i: int| 0 <= i < uri.len() ==> #[trigger] uri[i] != '>' && uri[i] != '<' && uri[i]
            != ';',
        uri.len() > 0,
        !white_space(uri[0]),
        !white_space(uri.last()),
    ensures
        uri_in(shown + seq!['<'] + uri + seq!['>'] + rest) == (if addressable(uri) {
            Some(uri)
        } else {
            None
        }),
        uri_in(uri) == (if addressable(uri) {
            Some(uri)
        } else {
            None
        }),
        (forall|i: int| 0 <= i < rest.len() ==> #[trigger] rest[i] != '<') ==> uri_in(
            uri + seq![';'] + rest,
        ) == (if addressable(uri) {
            Some(uri)
        } else {
            None
        }),
        uri_in(shown + seq!['<'] + uri) is None,
{
    let s = shown + seq!['<'] + uri + seq!['>'] + rest;
    lemma_found_first(s, '<');
    let a = first_of(s, '<');
    assert(s[shown.len() as int] == '<');
    if a < shown.len() {
        assert(s[a] == shown[a]);
    }
    assert(a == shown.len());
    let inner = s.skip(a + 1);
    assert(inner =~= uri + seq!['>'] + rest);
    lemma_found_first(inner, '>');
    assert(inner[uri.len() as int] == '>');
    let b = first_of(inner, '>');
    if b < uri.len() {
        assert(inner[b] == uri[b]);
    }
    assert(inner.take(b) =~= uri);
    assert(trim_start(uri) == uri);
    assert(trimmed(uri) == uri);
    lemma_found_first(uri, '<');
    if first_of(uri, '<') < uri.len() {
        assert(uri[first_of(uri, '<')] == '<');
    }
    lemma_found_first(uri, ';');
    if first_of(uri, ';') < uri.len() {
        assert(uri[first_of(uri, ';')] == ';');
    }
    assert(uri.take(uri.len() as int) =~= uri);
    let t = uri + seq![';'] + rest;
    if forall|i: int| 0 <= i < rest.len() ==> #[trigger] rest[i] != '<' {
        lemma_found_first(t, '<');
        let c = first_of(t, '<');
        if c < t.len() {
            assert(t[c] == '<');
            if c < uri.len() {
                assert(t[c] == uri[c]);
            } else if c > uri.len() {
                assert(t[c] == rest[c - uri.len() - 1]);
            }
        }
        lemma_found_first(t, ';');
        let e = first_of(t, ';');
        assert(t[uri.len() as int] == ';');
        if e < uri.len() {
            assert(t[e] == uri[e]);
        }
        assert(t.take(e) =~= uri);
    }
    let u = shown + seq!['<'] + uri;
    lemma_found_first(u, '<');
    let f = first_of(u, '<');
    assert(u[shown.len() as int] == '<');
    if f < shown.len() {
        assert(u[f] == shown[f]);
    }
    assert(u.skip(f + 1) =~= uri);
    lemma_found_first(uri, '>');
    if first_of(uri, '>') < uri.len() {
        assert(uri[first_of(uri, '>')] == '>');
    }
}

/// The tag of a value is the parameter of that name behind the angle brackets, without regard to
/// case; a parameter of another name is passed over.
#[verifier::spinoff_prover]
#[verifier::rlimit(40)]
pub proof fn lemma_tag(uri: Seq<char>, name: Seq<char>, tag: Seq<char>, rest: Seq<char>)
    requires
        forall|i: int| 0 <= i < uri.len() ==> #[trigger] uri[i] != '>',
        name.len() > 0,
        forall|i: int| 0 <= i < name.len() ==> #[trigger] name[i] != '=' && name[i] != ';'
            && !white_space(name[i]),
        tag.len() > 0,
        forall|i: int| 0 <= i < tag.len() ==> #[trigger] tag[i] != ';' && !white_space(tag[i]),
        rest.len() == 0 || rest[0] == ';',
    ensures
        ascii_lowercase(name) == seq!['t', 'a', 'g'] ==> tag_in(
            uri + seq!['>', ';'] + name + seq!['='] + tag + rest,
        ) == Some(tag),
        ascii_lowercase(name) != seq!['t', 'a', 'g'] ==> tag_in(
            uri + seq!['>', ';'] + name + seq!['='] + tag + rest,
        ) == parameter(name + seq!['='] + tag + rest, "tag"@),
{
    reveal_strlit("tag");
    assert(ascii_lowercase("tag"@) =~= seq!['t', 'a', 'g']) by {
        assert(ascii_lower('t') == 't');
        assert(ascii_lower('a') == 'a');
        assert(ascii_lower('g') == 'g');
    }
    let s = uri + seq!['>', ';'] + name + seq!['='] + tag + rest;
    lemma_found_first(s, '>');
    let b = first_of(s, '>');
    assert(s[uri.len() as int] == '>');
    if b < uri.len() {
        assert(s[b] == uri[b]);
    }
    assert(b == uri.len());
    let p = s.skip(b);
    assert(p =~= seq!['>', ';'] + name + seq!['='] + tag + rest);
    lemma_found_first(p, ';');
    let n = first_of(p, ';');
    assert(p[0] == '>');
    assert(p[1] == ';');
    assert(n == 1);
    let behind = p.skip(2);
    assert(behind =~= name + seq!['='] + tag + rest);
    lemma_found_first(behind, ';');
    let m = first_of(behind, ';');
    let k = name.len() as int;
    let end = k + 1 + tag.len();
    assert forall|i: int| 0 <= i < end implies #[trigger] behind[i] != ';' by {
        if i < k {
            assert(behind[i] == name[i]);
        } else if i > k {
            assert(behind[i] == tag[i - k - 1]);
        }
    }
    if rest.len() > 0 {
        assert(behind[end] == rest[0]);
    }
    assert(m == end);
    let one = behind.take(end);
    let whole = name + seq!['='] + tag;
    assert(one =~= whole);
    assert(whole[0] == name[0]);
    assert(whole.last() == tag.last());
    assert(!white_space(tag[tag.len() - 1]));
    assert(trim_start(whole) == whole);
    assert(trimmed(whole) == whole);
    lemma_found_first(whole, '=');
    let q = first_of(whole, '=');
    assert(whole[k] == '=');
    if q < k {
        assert(whole[q] == name[q]);
    }
    assert(q == k);
    assert(whole.take(k) =~= name);
    assert(whole.skip(k + 1) =~= tag);
}

/// A value without a semicolon has no tag.
pub proof fn lemma_no_tag(s: Seq<char>)
    requires
        forall|i: int| 0 <= i < s.len() ==> #[trigger] s[i] != ';',
    ensures
        tag_in(s) is None,
{
    let b = first_of(s, '>');
    lemma_found_first(s, '>');
    let t = if b < s.len() {
        s.skip(b)
    } else {
        s
    };
    lemma_found_first(t, ';');
    let n = first_of(t, ';');
    if n < t.len() {
        assert(t[n] == ';');
        if b < s.len() {
            assert(t[n] == s[n + b]);
        }
    }
}

/// A CSeq is read by its number, whatever method follows it.
pub proof fn lemma_cseq(digits: Seq<char>, method: Seq<char>)
    requires
        forall|i: int| 0 <= i < digits.len() ==> !white_space(#[trigger] digits[i]),
    ensures
        cseq_of(Some(digits + seq![' '] + method)) == number32(digits),
        cseq_of(None) is None,
        word(digits + seq![' '] + method) == digits,
        behind_word(digits + seq![' '] + method) == trimmed(seq![' '] + method),
{
    let s = digits + seq![' '] + method;
    lemma_found_first(s, ' ');
    let m = first_space(s);
    assert(s[digits.len() as int] == ' ');
    assert(white_space(' '));
    if m < digits.len() {
        assert(s[m] == digits[m]);
    }
    if m > digits.len() {
        assert(!white_space(s[digits.len() as int]));
    }
    assert(s.take(m) =~= digits);
    assert(s.skip(m) =~= seq![' '] + method);
}

/// The methods and their names.
pub proof fn lemma_methods()
    ensures
        method_of("INVITE"@) == Some(Method::Invite),
        method_of("ACK"@) == Some(Method::Ack),
        method_of("BYE"@) == Some(Method::Bye),
        method_of("CANCEL"@) == Some(Method::Cancel),
        method_of("OPTIONS"@) == Some(Method::Options),
        method_of("REGISTER"@) == Some(Method::Register),
        method_of("INFO"@) == Some(Method::Info),
        method_of("UPDATE"@) == Some(Method::Update),
        method_of("PRACK"@) == Some(Method::Prack),
        method_of("SUBSCRIBE"@) == Some(Method::Subscribe),
        method_of("NOTIFY"@) == Some(Method::Notify),
        method_of("REFER"@) == Some(Method::Refer),
        method_of("MESSAGE"@) == Some(Method::Message),
        method_of("PUBLISH"@) == Some(Method::Publish),
{
    reveal_strlit("INVITE");
    reveal_strlit("ACK");
    reveal_strlit("BYE");
    reveal_strlit("CANCEL");
    reveal_strlit("OPTIONS");
    reveal_strlit("REGISTER");
    reveal_strlit("INFO");
    reveal_strlit("UPDATE");
    reveal_strlit("PRACK");
    reveal_strlit("SUBSCRIBE");
    reveal_strlit("NOTIFY");
    reveal_strlit("REFER");
    reveal_strlit("MESSAGE");
    reveal_strlit("PUBLISH");
    assert("INVITE"@[0] == 'I' && "INVITE"@[2] == 'V');
    assert("ACK"@[0] == 'A');
    assert("BYE"@[0] == 'B');
    assert("CANCEL"@[0] == 'C');
    assert("OPTIONS"@[0] == 'O');
    assert("REGISTER"@[0] == 'R' && "REGISTER"@.len() == 8);
    assert("INFO"@[0] == 'I' && "INFO"@[2] == 'F');
    assert("UPDATE"@[0] == 'U');
    assert("PRACK"@[0] == 'P' && "PRACK"@.len() == 5);
    assert("SUBSCRIBE"@[0] == 'S');
    assert("NOTIFY"@[0] == 'N');
    assert("REFER"@[0] == 'R' && "REFER"@.len() == 5);
    assert("MESSAGE"@[0] == 'M');
    assert("PUBLISH"@[0] == 'P' && "PUBLISH"@.len() == 7);
}

/// Which field of a message comes from which line. A message is an answer if its first line begins
/// with the version, and a request if it ends with it; it is refused if the code is no number, the
/// method is none, or the version stands in neither place.
pub proof fn lemma_message_fields(head: Seq<char>, body: Seq<u8>)
    ensures
        ({
            let all = lines(head);
            let start = trimmed(all[0]);
            let rest = behind_word(start);
            &&& word(start) == "SIP/2.0"@ ==> (message_of(head, body) is Some <==> number16(
                word(rest),
            ) is Some)
            &&& word(start) != "SIP/2.0"@ ==> (message_of(head, body) is Some <==> behind_word(rest)
                == "SIP/2.0"@ && method_of(word(start)) is Some)
            &&& message_of(head, body) is Some && word(start) == "SIP/2.0"@ ==> {
                &&& message_of(head, body)->0 is Response
                &&& {
                    let r = message_of(head, body)->0->Response_0;
                    &&& Some(r.status_code) == number16(word(rest))
                    &&& r.reason == behind_word(rest)
                    &&& r.call_id == field(all, 1, "Call-ID"@, "i"@)
                    &&& r.body == body
                    &&& r.record_routes == fields(
                        all,
                        all.len() as int,
                        "Record-Route"@,
                        "Record-Route"@,
                    )
                    &&& match field(all, 1, "From"@, "f"@) {
                        Some(v) => r.from_tag == tag_in(v),
                        None => r.from_tag is None,
                    }
                    &&& match field(all, 1, "To"@, "t"@) {
                        Some(v) => r.to_tag == tag_in(v),
                        None => r.to_tag is None,
                    }
                    &&& match field(all, 1, "Contact"@, "m"@) {
                        Some(v) => r.contact_uri == uri_in(v),
                        None => r.contact_uri is None,
                    }
                }
            }
            &&& message_of(head, body) is Some && word(start) != "SIP/2.0"@ ==> {
                &&& message_of(head, body)->0 is Request
                &&& {
                    let r = message_of(head, body)->0->Request_0;
                    &&& Some(r.method) == method_of(word(start))
                    &&& r.uri == word(rest)
                    &&& r.call_id == field(all, 1, "Call-ID"@, "i"@)
                    &&& r.body == body
                    &&& r.vias == fields(all, all.len() as int, "Via"@, "v"@)
                    &&& r.record_routes == fields(
                        all,
                        all.len() as int,
                        "Record-Route"@,
                        "Record-Route"@,
                    )
                    &&& match field(all, 1, "From"@, "f"@) {
                        Some(v) => r.from_tag == tag_in(v) && r.from_uri == uri_in(v),
                        None => r.from_tag is None && r.from_uri is None,
                    }
                    &&& match field(all, 1, "To"@, "t"@) {
                        Some(v) => r.to_tag == tag_in(v) && r.to_uri == uri_in(v),
                        None => r.to_tag is None && r.to_uri is None,
                    }
                    &&& match field(all, 1, "Contact"@, "m"@) {
                        Some(v) => r.contact_uri == uri_in(v),
                        None => r.contact_uri is None,
                    }
                    &&& match field(all, 1, "CSeq"@, "CSeq"@) {
                        Some(v) => r.cseq == number32(word(v)),
                        None => r.cseq is None,
                    }
                }
            }
        }),
{
}

/// A route is loose if it has the parameter `lr`, with a value or without; a parameter that only
/// begins so does not count.
pub proof fn lemma_loose(s: Seq<char>, rest: Seq<char>)
    ensures
        loose(s + seq![';', 'l', 'r']),
        loose(s + seq![';', 'l', 'r', ';'] + rest),
        loose(s + seq![';', 'l', 'r', '>'] + rest),
        loose(s + seq![';', 'l', 'r', '='] + rest),
        (forall|i: int| 0 <= i < s.len() ==> #[trigger] s[i] != ';') ==> !loose(s),
        (forall|i: int| 0 <= i < s.len() ==> #[trigger] s[i] != ';') ==> !loose(
            s + seq![';', 'l', 'r', 'x'],
        ),
{
    let n = s.len() as int;
    let a = s + seq![';', 'l', 'r'];
    assert(a[n] == ';' && a[n + 1] == 'l' && a[n + 2] == 'r');
    assert(lr_at(a, n));
    let b = s + seq![';', 'l', 'r', ';'] + rest;
    assert(b[n] == ';' && b[n + 1] == 'l' && b[n + 2] == 'r' && b[n + 3] == ';');
    assert(lr_at(b, n));
    let c = s + seq![';', 'l', 'r', '>'] + rest;
    assert(c[n] == ';' && c[n + 1] == 'l' && c[n + 2] == 'r' && c[n + 3] == '>');
    assert(lr_at(c, n));
    let d = s + seq![';', 'l', 'r', '='] + rest;
    assert(d[n] == ';' && d[n + 1] == 'l' && d[n + 2] == 'r' && d[n + 3] == '=');
    assert(lr_at(d, n));
    if forall|i: int| 0 <= i < s.len() ==> #[trigger] s[i] != ';' {
        if loose(s) {
            let i = choose|i: int| lr_at(s, i);
            assert(s[i] == ';');
        }
        let x = s + seq![';', 'l', 'r', 'x'];
        if loose(x) {
            let i = choose|i: int| lr_at(x, i);
            assert(x[i] == ';');
            if i < n {
                assert(x[i] == s[i]);
            }
            assert(i == n);
            assert(x[n + 3] == 'x');
        }
    }
}

/// The head is read from what stands before the empty line, and from nothing else.
pub proof fn lemma_head_read(data: Seq<u8>, head: Seq<u8>, body: Seq<u8>)
    requires
        data == head + seq![13u8, 10, 13, 10] + body,
        forall|i: int| 0 <= i < head.len() ==> !#[trigger] empty_line_at(data, i),
    ensures
        head_of(data) == utf8_lossy(head),
        body_of(data) == body,
{
    let n = head.len() as int;
    assert(data[n] == 13 && data[n + 1] == 10 && data[n + 2] == 13 && data[n + 3] == 10);
    assert(empty_line_at(data, n));
    lemma_head_ends(data, n);
    let m = head_len(data);
    if m < n {
        assert(empty_line_at(data, m));
    }
    assert(m == n);
    assert(data.take(n) =~= head);
    assert(data.skip(n + 4) =~= body);
}

} // verus!
