//! What is read from an offer and said in an answer.

use crate::gabby::sdp::{
    address_behind, answer_text, audio_port, connection_ip, first_word, line_ip, plain_address,
};
use crate::text::{begins_with, decimal, first_of, first_space, number16, trim_start, trimmed, white_space};
use vstd::prelude::*;

verus! {

/// The first word of a line: what stands before the first white space, without any in front.
pub proof fn lemma_first_word(word: Seq<char>, rest: Seq<char>)
    requires
        word.len() > 0,
        forall|i: int| 0 <= i < word.len() ==> !white_space(#[trigger] word[i]),
    ensures
        first_word(word) == word,
        first_word(word + seq![' '] + rest) == word,
{
    assert(trim_start(word) == word);
    crate::text_laws::lemma_found_first(word, ' ');
    if first_space(word) < word.len() {
        assert(white_space(word[first_space(word)]));
    }
    assert(word.take(word.len() as int) =~= word);
    let s = word + seq![' '] + rest;
    assert(s[0] == word[0]);
    assert(trim_start(s) == s);
    crate::text_laws::lemma_found_first(s, ' ');
    let m = first_space(s);
    assert(s[word.len() as int] == ' ');
    if m < word.len() {
        assert(s[m] == word[m]);
    }
    assert(m == word.len());
    assert(s.take(m) =~= word);
}

/// The port of the sound is the number behind `m=audio ` in the first line that begins so; a line
/// that does not begin so says nothing of it, and a first one without a number leaves it unknown.
pub proof fn lemma_audio_port(word: Seq<char>, rest: Seq<char>, line: Seq<char>, more: Seq<Seq<char>>)
    requires
        word.len() > 0,
        forall|i: int| 0 <= i < word.len() ==> !white_space(#[trigger] word[i]),
        rest.len() > 0,
        !white_space(rest.last()),
        !begins_with(trimmed(line), "m=audio "@),
    ensures
        audio_port(seq!["m=audio "@ + word + seq![' '] + rest] + more) == number16(word),
        audio_port(seq![line] + more) == audio_port(more),
        audio_port(Seq::empty()) is None,
{
    reveal_strlit("m=audio ");
    let head = "m=audio "@;
    let l = head + word + seq![' '] + rest;
    let all = seq![l] + more;
    assert(all[0] == l);
    assert(l[0] == 'm');
    assert(!white_space('m'));
    assert(trim_start(l) == l);
    assert(l.last() == rest.last());
    assert(trimmed(l) == l);
    assert(l.take(8) =~= head);
    assert(begins_with(l, head));
    assert(l.skip(8) =~= word + seq![' '] + rest);
    lemma_first_word(word, rest);
    assert((seq![line] + more).skip(1) =~= more);
    assert((seq![line] + more)[0] == line);
}

/// The address of the other side stands behind `c=IN IP4 ` or `c=IN IP6 `, up to a slash.
pub proof fn lemma_line_ip(ip: Seq<char>, rest: Seq<char>)
    requires
        plain_address(ip),
    ensures
        line_ip("c=IN IP4 "@ + ip) == Some(ip),
        line_ip("c=IN IP6 "@ + ip) == Some(ip),
        line_ip("c=IN IP4 "@ + ip + seq!['/'] + rest) == Some(ip),
        line_ip("c=IN IP6 "@ + ip + seq!['/'] + rest) == Some(ip),
        line_ip("c=IN IP4 "@) is None,
{
    reveal_strlit("c=IN IP4 ");
    reveal_strlit("c=IN IP6 ");
    let four = "c=IN IP4 "@;
    let six = "c=IN IP6 "@;
    lemma_address_behind(four, ip, rest);
    lemma_address_behind(six, ip, rest);
    assert((four + ip).take(9) =~= four);
    assert((six + ip).take(9) =~= six);
    assert((four + ip + seq!['/'] + rest).take(9) =~= four);
    assert((six + ip + seq!['/'] + rest).take(9) =~= six);
    assert(four[7] != six[7]);
    assert(four.take(9) =~= four);
    assert(four.skip(9) =~= Seq::<char>::empty());
    crate::text_laws::lemma_found_first(Seq::empty(), '/');
    assert(Seq::<char>::empty().take(0) =~= Seq::<char>::empty());
    assert(address_behind(four, four).len() == 0);
}

proof fn lemma_address_behind(prefix: Seq<char>, ip: Seq<char>, rest: Seq<char>)
    requires
        plain_address(ip),
    ensures
        address_behind(prefix + ip, prefix) == ip,
        address_behind(prefix + ip + seq!['/'] + rest, prefix) == ip,
{
    let n = prefix.len() as int;
    assert((prefix + ip).skip(n) =~= ip);
    crate::text_laws::lemma_found_first(ip, '/');
    if first_of(ip, '/') < ip.len() {
        assert(ip[first_of(ip, '/')] == '/');
    }
    assert(ip.take(ip.len() as int) =~= ip);
    assert(!white_space(ip[0]));
    assert(!white_space(ip.last()));
    assert(trim_start(ip) == ip);
    assert(trimmed(ip) == ip);
    let part = ip + seq!['/'] + rest;
    assert((prefix + ip + seq!['/'] + rest).skip(n) =~= part);
    crate::text_laws::lemma_found_first(part, '/');
    assert(part[ip.len() as int] == '/');
    let m = first_of(part, '/');
    if m < ip.len() {
        assert(part[m] == ip[m]);
    }
    assert(part.take(ip.len() as int) =~= ip);
}

/// The first line that gives an address decides.
pub proof fn lemma_connection(line: Seq<char>, more: Seq<Seq<char>>)
    ensures
        line_ip(trimmed(line)) is Some ==> connection_ip(seq![line] + more) == line_ip(
            trimmed(line),
        ),
        line_ip(trimmed(line)) is None ==> connection_ip(seq![line] + more) == connection_ip(more),
        connection_ip(Seq::empty()) is None,
        !begins_with(line, "c=IN IP4 "@) && !begins_with(line, "c=IN IP6 "@) ==> line_ip(
            line,
        ) is None,
{
    assert((seq![line] + more).skip(1) =~= more);
    assert((seq![line] + more)[0] == line);
}

/// An answer, line by line: the version, the session under its number at our address, its name,
/// our address, no time limits, our port with mu-law alone, the codec, and sound both ways.
pub proof fn lemma_answer_lines(session: u64, ip: Seq<char>, port: u16)
    ensures
        answer_text(session, ip, port) == "v=0\r\no=gabby "@ + decimal(session as nat)
            + " 1 IN IP4 "@ + ip + "\r\ns=Gabby Voice AI\r\nc=IN IP4 "@ + ip
            + "\r\nt=0 0\r\nm=audio "@ + decimal(port as nat)
            + " RTP/AVP 0\r\na=rtpmap:0 PCMU/8000\r\na=sendrecv\r\n"@,
{
}

} // verus!
