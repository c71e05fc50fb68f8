//! Writing the response to a request.

use super::server::{Reply, ReplyView};
use crate::sip_text::{
    field, fields, find_field, find_fields, find_tag, head_of, read_head, tag_in,
};
use crate::text::{decimal, lines, push_decimal, split_lines, text_of, texts};
use vstd::prelude::*;
use vstd::utf8::encode_utf8;

verus! {

/// A header line.
pub open spec fn header_line(name: Seq<char>, value: Seq<char>) -> Seq<char> {
    name + ": "@ + value + "\r\n"@
}

/// A header line, if there is a value for it.
pub open spec fn optional_line(name: Seq<char>, value: Option<Seq<char>>) -> Seq<char> {
    match value {
        Some(v) => header_line(name, v),
        None => Seq::empty(),
    }
}

/// A header line for each value.
pub open spec fn header_lines(name: Seq<char>, values: Seq<Seq<char>>) -> Seq<char>
    decreases values.len(),
{
    if values.len() == 0 {
        Seq::empty()
    } else {
        header_lines(name, values.drop_last()) + header_line(name, values.last())
    }
}

/// The To value of a response: that of the request, with a tag added where it has none.
pub open spec fn to_value(to: Option<Seq<char>>, tag: Option<Seq<char>>) -> Option<Seq<char>> {
    match (to, tag) {
        (Some(value), Some(t)) => if tag_in(value) is None {
            Some(value + ";tag="@ + t)
        } else {
            Some(value)
        },
        _ => to,
    }
}

/// The Contact value of a URI.
pub open spec fn contact_value(uri: Option<Seq<char>>) -> Option<Seq<char>> {
    match uri {
        Some(u) => Some("<"@ + u + ">"@),
        None => None,
    }
}

/// The head of the response to a request with the given head.
pub open spec fn reply_head(head: Seq<char>, reply: ReplyView) -> Seq<char> {
    let all = lines(head);
    "SIP/2.0 "@ + decimal(reply.status_code as nat) + " "@ + reply.reason + "\r\n"@ + header_lines(
        "Via"@,
        fields(all, all.len() as int, "Via"@, "v"@),
    ) + optional_line("From"@, field(all, 1, "From"@, "f"@)) + optional_line(
        "To"@,
        to_value(field(all, 1, "To"@, "t"@), reply.to_tag),
    ) + optional_line("Call-ID"@, field(all, 1, "Call-ID"@, "i"@)) + optional_line(
        "CSeq"@,
        field(all, 1, "CSeq"@, "CSeq"@),
    ) + optional_line("Contact"@, contact_value(reply.contact_uri)) + (if reply.body.len() > 0 {
        header_line("Content-Type"@, "application/sdp"@)
    } else {
        Seq::empty()
    }) + "Content-Length: "@ + decimal(reply.body.len()) + "\r\n\r\n"@
}

fn push_line(out: &mut String, name: &str, value: &str)
    ensures
        final(out)@ == old(out)@ + header_line(name@, value@),
{
    out.append(name);
    out.append(": ");
    out.append(value);
    out.append("\r\n");
    assert(out@ =~= old(out)@ + header_line(name@, value@));
}

fn push_optional(out: &mut String, name: &str, value: &Option<String>)
    ensures
        final(out)@ == old(out)@ + optional_line(name@, text_of(*value)),
{
    match value {
        Some(v) => push_line(out, name, v.as_str()),
        None => {
            assert(out@ + Seq::<char>::empty() =~= out@);
        },
    }
}

fn push_lines(out: &mut String, name: &str, values: &Vec<String>)
    ensures
        final(out)@ == old(out)@ + header_lines(name@, texts(values@)),
{
    let ghost seen = texts(values@);
    let mut i: usize = 0;
    assert(out@ + header_lines(name@, seen.take(0)) =~= out@);
    while i < values.len()
        invariant
            i <= values@.len(),
            seen == texts(values@),
            out@ == old(out)@ + header_lines(name@, seen.take(i as int)),
        decreases values@.len() - i,
    {
        push_line(out, name, values[i].as_str());
        let ghost more = seen.take(i + 1);
        assert(more.drop_last() =~= seen.take(i as int));
        assert(more.last() == values@[i as int]@);
        assert(out@ =~= old(out)@ + header_lines(name@, more));
        i = i + 1;
    }
    assert(seen.take(i as int) =~= seen);
}

/// The To value of a response.
fn tagged_to(to: Option<String>, tag: &Option<String>) -> (r: Option<String>)
    ensures
        text_of(r) == to_value(text_of(to), text_of(*tag)),
{
    match (to, tag) {
        (Some(value), Some(t)) => {
            match find_tag(value.as_str()) {
                Some(_) => Some(value),
                None => {
                    let mut s: String = value;
                    s.append(";tag=");
                    s.append(t.as_str());
                    Some(s)
                },
            }
        },
        (other, _) => other,
    }
}

/// The head of the response to a request with the given head.
pub fn write_reply_head(head: &str, reply: &Reply) -> (r: String)
    ensures
        r@ == reply_head(head@, reply@),
{
    let all: Vec<String> = split_lines(head);
    let mut out: String = "SIP/2.0 ".to_owned();
    push_decimal(&mut out, reply.status_code as u64);
    out.append(" ");
    out.append(reply.reason.as_str());
    out.append("\r\n");
    push_lines(&mut out, "Via", &find_fields(&all, "Via", "v"));
    push_optional(&mut out, "From", &find_field(&all, "From", "f"));
    push_optional(&mut out, "To", &tagged_to(find_field(&all, "To", "t"), &reply.to_tag));
    push_optional(&mut out, "Call-ID", &find_field(&all, "Call-ID", "i"));
    push_optional(&mut out, "CSeq", &find_field(&all, "CSeq", "CSeq"));
    let contact: Option<String> = match &reply.contact_uri {
        Some(uri) => {
            let mut s: String = "<".to_owned();
            s.append(uri.as_str());
            s.append(">");
            Some(s)
        },
        None => None,
    };
    push_optional(&mut out, "Contact", &contact);
    let ghost before = out@;
    if reply.body.len() > 0 {
        push_line(&mut out, "Content-Type", "application/sdp");
    } else {
        assert(before + Seq::<char>::empty() =~= before);
    }
    out.append("Content-Length: ");
    push_decimal(&mut out, reply.body.len() as u64);
    out.append("\r\n\r\n");
    out
}

/// The response to the request that bytes hold.
pub fn write_reply(request: &[u8], reply: &Reply) -> (r: Vec<u8>)
    ensures
        r@ == encode_utf8(reply_head(head_of(request@), reply@)) + reply@.body,
{
    let head: String = read_head(request);
    let mut out: Vec<u8> = write_reply_head(head.as_str(), reply).as_str().as_bytes_vec();
    let mut body: Vec<u8> = reply.body.clone();
    assert(body@ =~= reply.body@);
    out.append(&mut body);
    out
}

} // verus!
