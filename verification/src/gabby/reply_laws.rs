//! What a reply to a SIP request looks like.

use crate::gabby::reply::{
    contact_value, header_line, header_lines, optional_line, reply_head, to_value,
};
use crate::gabby::server::ReplyView;
use crate::sip_text::{field, fields, tag_in};
use crate::text::{decimal, lines};
use vstd::prelude::*;

verus! {

/// A header line: the name, a colon and a blank, the value, and the end of the line. A field that
/// the request lacks gets no line.
pub proof fn lemma_header_line(name: Seq<char>, value: Seq<char>)
    ensures
        header_line(name, value) == name + seq![':', ' '] + value + seq!['\r', '\n'],
        optional_line(name, Some(value)) == header_line(name, value),
        optional_line(name, None).len() == 0,
{
    reveal_strlit(": ");
    reveal_strlit("\r\n");
    assert(": "@ =~= seq![':', ' ']);
    assert("\r\n"@ =~= seq!['\r', '\n']);
}

/// Lines of one name stand in the order of their values.
pub proof fn lemma_header_lines(name: Seq<char>, values: Seq<Seq<char>>, more: Seq<char>)
    ensures
        header_lines(name, Seq::empty()).len() == 0,
        header_lines(name, values.push(more)) == header_lines(name, values) + header_line(
            name,
            more,
        ),
{
    assert(values.push(more).drop_last() =~= values);
}

/// The To of a reply is that of the request, with our tag where it has none yet; the contact is
/// put in angle brackets.
pub proof fn lemma_values(to: Seq<char>, tag: Seq<char>, uri: Seq<char>)
    ensures
        tag_in(to) is None ==> to_value(Some(to), Some(tag)) == Some(to + ";tag="@ + tag),
        tag_in(to) is Some ==> to_value(Some(to), Some(tag)) == Some(to),
        to_value(Some(to), None) == Some(to),
        to_value(None, Some(tag)) is None,
        to_value(None, None) is None,
        contact_value(Some(uri)) == Some("<"@ + uri + ">"@),
        contact_value(None) is None,
{
}

/// A reply repeats the request's Via lines in their order, its From, its To, its Call-ID and its
/// CSeq, and tells the length of its body; a body has a type. The status stands first.
pub proof fn lemma_reply(head: Seq<char>, reply: ReplyView)
    ensures
        ({
            let all = lines(head);
            let via = header_lines("Via"@, fields(all, all.len() as int, "Via"@, "v"@));
            let from = optional_line("From"@, field(all, 1, "From"@, "f"@));
            let to = optional_line("To"@, to_value(field(all, 1, "To"@, "t"@), reply.to_tag));
            let call = optional_line("Call-ID"@, field(all, 1, "Call-ID"@, "i"@));
            let cseq = optional_line("CSeq"@, field(all, 1, "CSeq"@, "CSeq"@));
            let contact = optional_line("Contact"@, contact_value(reply.contact_uri));
            let status = "SIP/2.0 "@ + decimal(reply.status_code as nat) + " "@ + reply.reason
                + "\r\n"@;
            let length = "Content-Length: "@ + decimal(reply.body.len()) + "\r\n\r\n"@;
            &&& reply.body.len() == 0 ==> reply_head(head, reply) == status + (via + from + to + call
                + cseq + contact) + length
            &&& reply.body.len() > 0 ==> reply_head(head, reply) == status + (via + from + to + call
                + cseq + contact) + header_line("Content-Type"@, "application/sdp"@) + length
        }),
{
    let all = lines(head);
    let via = header_lines("Via"@, fields(all, all.len() as int, "Via"@, "v"@));
    let from = optional_line("From"@, field(all, 1, "From"@, "f"@));
    let to = optional_line("To"@, to_value(field(all, 1, "To"@, "t"@), reply.to_tag));
    let call = optional_line("Call-ID"@, field(all, 1, "Call-ID"@, "i"@));
    let cseq = optional_line("CSeq"@, field(all, 1, "CSeq"@, "CSeq"@));
    let contact = optional_line("Contact"@, contact_value(reply.contact_uri));
    let status = "SIP/2.0 "@ + decimal(reply.status_code as nat) + " "@ + reply.reason + "\r\n"@;
    let length = "Content-Length: "@ + decimal(reply.body.len()) + "\r\n\r\n"@;
    let middle = via + from + to + call + cseq + contact;
    if reply.body.len() == 0 {
        assert(reply_head(head, reply) =~= status + middle + length);
    } else {
        let kind = header_line("Content-Type"@, "application/sdp"@);
        assert(reply_head(head, reply) =~= status + middle + kind + length);
    }
}

} // verus!
