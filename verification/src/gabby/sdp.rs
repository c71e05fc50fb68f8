//! The SDP that a call is negotiated with.

use crate::rtcp::header::since_unix_epoch;
use crate::text::{
    begins_with, decimal, find_from, find_space, first_of, first_space,
    from_utf8_lossy, has_prefix, lemma_decimal, lemma_first_of, lemma_lines_cons,
    lemma_trim_return, lines, number16, parse_u16, push_decimal, split_lines, texts, trim,
    trim_start, trimmed, utf8_lossy, white_space,
};
use vstd::prelude::*;

verus! {

/// The first word of a text, or nothing.
pub open spec fn first_word(s: Seq<char>) -> Seq<char> {
    let t = trim_start(s);
    t.take(first_space(t))
}

/// The audio port that lines of SDP give: the number behind the first `m=audio `.
pub open spec fn audio_port(lines: Seq<Seq<char>>) -> Option<u16>
    decreases lines.len(),
{
    if lines.len() == 0 {
        None
    } else {
        let line = trimmed(lines[0]);
        if begins_with(line, "m=audio "@) {
            number16(first_word(line.skip("m=audio "@.len() as int)))
        } else {
            audio_port(lines.skip(1))
        }
    }
}

/// The address that follows a prefix in a line, without what stands behind a slash.
pub open spec fn address_behind(line: Seq<char>, prefix: Seq<char>) -> Seq<char> {
    let part = line.skip(prefix.len() as int);
    trimmed(part.take(first_of(part, '/')))
}

/// The address that a connection line gives. `None` for another line and for an empty address.
pub open spec fn line_ip(line: Seq<char>) -> Option<Seq<char>> {
    let ip = if begins_with(line, "c=IN IP4 "@) {
        address_behind(line, "c=IN IP4 "@)
    } else if begins_with(line, "c=IN IP6 "@) {
        address_behind(line, "c=IN IP6 "@)
    } else {
        Seq::empty()
    };
    if ip.len() == 0 {
        None
    } else {
        Some(ip)
    }
}

/// The address that lines of SDP give: that of the first connection line with one.
pub open spec fn connection_ip(lines: Seq<Seq<char>>) -> Option<Seq<char>>
    decreases lines.len(),
{
    if lines.len() == 0 {
        None
    } else {
        match line_ip(trimmed(lines[0])) {
            Some(ip) => Some(ip),
            None => connection_ip(lines.skip(1)),
        }
    }
}

/// The first word of a text, from a place on.
fn word_from(s: &str, from: usize) -> (r: &str)
    requires
        from <= s@.len(),
    ensures
        r@ == first_word(s@.skip(from as int)),
{
    let n: usize = s.unicode_len();
    let ghost rest = s@.skip(from as int);
    let mut a: usize = from;
    while a < n && s.get_char(a).is_whitespace()
        invariant
            from <= a <= n,
            n == s@.len(),
            rest == s@.skip(from as int),
            trim_start(s@.skip(a as int)) == trim_start(rest),
        decreases n - a,
    {
        let ghost t = s@.skip(a as int);
        assert(t[0] == s@[a as int]);
        assert(t.skip(1) =~= s@.skip(a + 1));
        a = a + 1;
    }
    let ghost t = s@.skip(a as int);
    assert(a < n ==> t[0] == s@[a as int]);
    assert(trim_start(rest) == t);
    let b: usize = find_space(s, a);
    assert(s@.subrange(a as int, b as int) =~= t.take(b - a));
    s.substring_char(a, b)
}

/// The audio port that a text of SDP gives.
pub fn audio_port_in(sdp: &str) -> (r: Option<u16>)
    ensures
        r == audio_port(lines(sdp@)),
{
    let all: Vec<String> = split_lines(sdp);
    let ghost seen = texts(all@);
    let mut i: usize = 0;
    assert(seen.skip(0) =~= seen);
    while i < all.len()
        invariant
            i <= all@.len(),
            seen == texts(all@),
            seen == lines(sdp@),
            audio_port(seen.skip(i as int)) == audio_port(seen),
        decreases all@.len() - i,
    {
        let line: &str = trim(all[i].as_str());
        assert(seen.skip(i as int)[0] == all@[i as int]@);
        if has_prefix(line, "m=audio ") {
            return parse_u16(word_from(line, "m=audio ".unicode_len()));
        }
        assert(seen.skip(i as int).skip(1) =~= seen.skip(i + 1));
        i = i + 1;
    }
    None
}

/// Extract audio port from SDP body.
pub fn extract_sdp_audio_port(body: &[u8]) -> (r: Option<u16>)
    ensures
        r == audio_port(lines(utf8_lossy(body@))),
{
    audio_port_in(from_utf8_lossy(body).as_str())
}

/// The address that follows a prefix in a line.
fn address_from(line: &str, prefix: &str) -> (r: String)
    requires
        begins_with(line@, prefix@),
    ensures
        r@ == address_behind(line@, prefix@),
{
    let start: usize = prefix.unicode_len();
    let end: usize = find_from(line, start, '/');
    assert(line@.subrange(start as int, end as int) =~= line@.skip(start as int).take(
        end - start,
    ));
    trim(line.substring_char(start, end)).to_owned()
}

/// The address that a text of SDP gives.
pub fn connection_ip_in(sdp: &str) -> (r: Option<String>)
    ensures
        crate::text::text_of(r) == connection_ip(lines(sdp@)),
{
    let all: Vec<String> = split_lines(sdp);
    let ghost seen = texts(all@);
    let mut i: usize = 0;
    assert(seen.skip(0) =~= seen);
    while i < all.len()
        invariant
            i <= all@.len(),
            seen == texts(all@),
            seen == lines(sdp@),
            connection_ip(seen.skip(i as int)) == connection_ip(seen),
        decreases all@.len() - i,
    {
        let line: &str = trim(all[i].as_str());
        assert(seen.skip(i as int)[0] == all@[i as int]@);
        let ip: String = if has_prefix(line, "c=IN IP4 ") {
            address_from(line, "c=IN IP4 ")
        } else if has_prefix(line, "c=IN IP6 ") {
            address_from(line, "c=IN IP6 ")
        } else {
            String::new()
        };
        if ip.as_str().unicode_len() > 0 {
            return Some(ip);
        }
        assert(seen.skip(i as int).skip(1) =~= seen.skip(i + 1));
        i = i + 1;
    }
    None
}

/// Extract connection IP from SDP body.
pub fn extract_sdp_connection_ip(body: &[u8]) -> (r: Option<String>)
    ensures
        crate::text::text_of(r) == connection_ip(lines(utf8_lossy(body@))),
{
    connection_ip_in(from_utf8_lossy(body).as_str())
}

/// An SDP answer for G.711 mu-law audio.
pub open spec fn answer_text(session_id: u64, local_ip: Seq<char>, rtp_port: u16) -> Seq<char> {
    "v=0\r\no=gabby "@ + decimal(session_id as nat) + " 1 IN IP4 "@ + local_ip
        + "\r\ns=Gabby Voice AI\r\nc=IN IP4 "@ + local_ip + "\r\nt=0 0\r\nm=audio "@ + decimal(
        rtp_port as nat,
    ) + " RTP/AVP 0\r\na=rtpmap:0 PCMU/8000\r\na=sendrecv\r\n"@
}

/// An SDP answer for G.711 mu-law audio, for a session.
pub fn sdp_answer(session_id: u64, local_ip: &str, rtp_port: u16) -> (r: String)
    ensures
        r@ == answer_text(session_id, local_ip@, rtp_port),
{
    let mut s: String = "v=0\r\no=gabby ".to_owned();
    push_decimal(&mut s, session_id);
    s.append(" 1 IN IP4 ");
    s.append(local_ip);
    s.append("\r\ns=Gabby Voice AI\r\nc=IN IP4 ");
    s.append(local_ip);
    s.append("\r\nt=0 0\r\nm=audio ");
    push_decimal(&mut s, rtp_port as u64);
    s.append(" RTP/AVP 0\r\na=rtpmap:0 PCMU/8000\r\na=sendrecv\r\n");
    s
}

/// The name of a session that begins now: the seconds since 1970.
pub fn session_id() -> (r: u64) {
    let seconds: Option<u64> = match since_unix_epoch(std::time::SystemTime::now()) {
        Ok(d) => Some(d.as_secs()),
        Err(_) => None,
    };
    session_named(seconds)
}

/// The name of a session that begins so many seconds after 1970. One that begins before has the
/// name 0.
pub fn session_named(seconds: Option<u64>) -> (r: u64)
    ensures
        r == (match seconds {
            Some(n) => n,
            None => 0,
        }),
{
    match seconds {
        Some(n) => n,
        None => 0,
    }
}

/// Build an SDP answer for G.711 mu-law audio. The session is named by the time.
pub fn build_sdp_answer(local_ip: &str, rtp_port: u16) -> (r: String)
    ensures
        exists|session_id: u64| r@ == #[trigger] answer_text(session_id, local_ip@, rtp_port),
{
    sdp_answer(session_id(), local_ip, rtp_port)
}

/// Whether a text can stand as an address in SDP.
pub open spec fn plain_address(ip: Seq<char>) -> bool {
    &&& ip.len() > 0
    &&& forall|i: int| 0 <= i < ip.len() ==> !white_space(#[trigger] ip[i]) && ip[i] != '/'
}

/// An answer is read back as it was written: whoever gets it finds the port and the address.
pub proof fn lemma_answer_reads_back(session_id: u64, local_ip: Seq<char>, rtp_port: u16)
    requires
        plain_address(local_ip),
    ensures
        audio_port(lines(answer_text(session_id, local_ip, rtp_port))) == Some(rtp_port),
        connection_ip(lines(answer_text(session_id, local_ip, rtp_port))) == Some(local_ip),
{
    let ip = local_ip;
    let id = decimal(session_id as nat);
    let port = decimal(rtp_port as nat);
    lemma_decimal(session_id as nat);
    lemma_decimal(rtp_port as nat);
    let lf = seq!['\n'];
    let t6 = "a=rtpmap:0 PCMU/8000\r\na=sendrecv\r\n"@;
    let v = "v=0"@;
    let o = "o=gabby "@ + id + " 1 IN IP4 "@ + ip;
    let s = "s=Gabby Voice AI"@;
    let c = "c=IN IP4 "@ + ip;
    let t = "t=0 0"@;
    let m = "m=audio "@ + port + " RTP/AVP 0"@;
    lemma_session_lines(id, ip, port);
    let t5 = m.push('\r') + lf + t6;
    let t4 = t.push('\r') + lf + t5;
    let t3 = c.push('\r') + lf + t4;
    let t2 = s.push('\r') + lf + t3;
    let t1 = o.push('\r') + lf + t2;
    let t0 = v.push('\r') + lf + t1;
    assert(answer_text(session_id, ip, rtp_port) == t0);
    lemma_session_words(id, ip, port);
    lemma_lines_cons(v.push('\r'), t1);
    lemma_lines_cons(o.push('\r'), t2);
    lemma_lines_cons(s.push('\r'), t3);
    lemma_lines_cons(c.push('\r'), t4);
    lemma_lines_cons(t.push('\r'), t5);
    lemma_lines_cons(m.push('\r'), t6);
    lemma_not_media(v, 'v', lines(t1));
    lemma_not_media(o, 'o', lines(t2));
    lemma_not_media(s, 's', lines(t3));
    lemma_not_media(c, 'c', lines(t4));
    lemma_not_media(t, 't', lines(t5));
    lemma_media_line(rtp_port, lines(t6));
    lemma_not_connection(v, 'v', lines(t1));
    lemma_not_connection(o, 'o', lines(t2));
    lemma_not_connection(s, 's', lines(t3));
    lemma_connection_line(ip, lines(t4));
}

/// The pieces of an answer, line by line.
proof fn lemma_session_lines(id: Seq<char>, ip: Seq<char>, port: Seq<char>)
    ensures
        ({
            let lf = seq!['\n'];
            let o = "o=gabby "@ + id + " 1 IN IP4 "@ + ip;
            let c = "c=IN IP4 "@ + ip;
            let m = "m=audio "@ + port + " RTP/AVP 0"@;
            let t6 = "a=rtpmap:0 PCMU/8000\r\na=sendrecv\r\n"@;
            let t5 = m.push('\r') + lf + t6;
            let t4 = "t=0 0"@.push('\r') + lf + t5;
            let t3 = c.push('\r') + lf + t4;
            let t2 = "s=Gabby Voice AI"@.push('\r') + lf + t3;
            let t1 = o.push('\r') + lf + t2;
            "v=0\r\no=gabby "@ + id + " 1 IN IP4 "@ + ip + "\r\ns=Gabby Voice AI\r\nc=IN IP4 "@ + ip
                + "\r\nt=0 0\r\nm=audio "@ + port
                + " RTP/AVP 0\r\na=rtpmap:0 PCMU/8000\r\na=sendrecv\r\n"@ == "v=0"@.push('\r') + lf
                + t1
        }),
{
    reveal_strlit("v=0\r\no=gabby ");
    reveal_strlit("v=0");
    reveal_strlit("o=gabby ");
    reveal_strlit("\r\ns=Gabby Voice AI\r\nc=IN IP4 ");
    reveal_strlit("s=Gabby Voice AI");
    reveal_strlit("c=IN IP4 ");
    reveal_strlit("\r\nt=0 0\r\nm=audio ");
    reveal_strlit("t=0 0");
    reveal_strlit("m=audio ");
    reveal_strlit(" RTP/AVP 0\r\na=rtpmap:0 PCMU/8000\r\na=sendrecv\r\n");
    reveal_strlit(" RTP/AVP 0");
    reveal_strlit("a=rtpmap:0 PCMU/8000\r\na=sendrecv\r\n");
    let lf = seq!['\n'];
    let cr = seq!['\r'];
    assert("v=0\r\no=gabby "@ =~= "v=0"@ + cr + lf + "o=gabby "@);
    assert("\r\ns=Gabby Voice AI\r\nc=IN IP4 "@ =~= cr + lf + "s=Gabby Voice AI"@ + cr + lf
        + "c=IN IP4 "@);
    assert("\r\nt=0 0\r\nm=audio "@ =~= cr + lf + "t=0 0"@ + cr + lf + "m=audio "@);
    assert(" RTP/AVP 0\r\na=rtpmap:0 PCMU/8000\r\na=sendrecv\r\n"@ =~= " RTP/AVP 0"@ + cr + lf
        + "a=rtpmap:0 PCMU/8000\r\na=sendrecv\r\n"@);
    lemma_regrouped(
        "v=0"@,
        "o=gabby "@,
        id,
        " 1 IN IP4 "@,
        ip,
        "s=Gabby Voice AI"@,
        "c=IN IP4 "@,
        "t=0 0"@,
        "m=audio "@,
        port,
        " RTP/AVP 0"@,
        "a=rtpmap:0 PCMU/8000\r\na=sendrecv\r\n"@,
    );
}

/// The same pieces, grouped by what is written at once and by lines.
proof fn lemma_regrouped(
    v: Seq<char>,
    o: Seq<char>,
    id: Seq<char>,
    by: Seq<char>,
    ip: Seq<char>,
    s: Seq<char>,
    c: Seq<char>,
    t: Seq<char>,
    m: Seq<char>,
    port: Seq<char>,
    as_rtp: Seq<char>,
    rest: Seq<char>,
)
    ensures
        ({
            let lf = seq!['\n'];
            let cr = seq!['\r'];
            let t5 = (m + port + as_rtp).push('\r') + lf + rest;
            let t4 = t.push('\r') + lf + t5;
            let t3 = (c + ip).push('\r') + lf + t4;
            let t2 = s.push('\r') + lf + t3;
            let t1 = (o + id + by + ip).push('\r') + lf + t2;
            (v + cr + lf + o) + id + by + ip + (cr + lf + s + cr + lf + c) + ip + (cr + lf + t + cr
                + lf + m) + port + (as_rtp + cr + lf + rest) == v.push('\r') + lf + t1
        }),
{
    let lf = seq!['\n'];
    let cr = seq!['\r'];
    let t5 = (m + port + as_rtp).push('\r') + lf + rest;
    let t4 = t.push('\r') + lf + t5;
    let t3 = (c + ip).push('\r') + lf + t4;
    let t2 = s.push('\r') + lf + t3;
    let t1 = (o + id + by + ip).push('\r') + lf + t2;
    let e4 = as_rtp + cr + lf + rest;
    assert(t5 =~= m + port + e4);
    let e3 = cr + lf + t + cr + lf + m;
    assert(cr + lf + t4 =~= e3 + port + e4);
    let e2 = cr + lf + s + cr + lf + c;
    assert(cr + lf + t2 =~= e2 + ip + (cr + lf + t4));
    assert(v.push('\r') + lf + t1 =~= (v + cr + lf + o) + id + by + ip + (cr + lf + t2));
    let e1 = (v + cr + lf + o) + id + by + ip;
    assert(e1 + (e2 + ip + (e3 + port + e4)) =~= e1 + e2 + ip + e3 + port + e4);
}

/// The lines of an answer begin and end with no white space, and each is one line.
proof fn lemma_session_words(id: Seq<char>, ip: Seq<char>, port: Seq<char>)
    requires
        plain_address(ip),
        forall|i: int| 0 <= i < id.len() ==> '0' <= #[trigger] id[i] <= '9',
        forall|i: int| 0 <= i < port.len() ==> '0' <= #[trigger] port[i] <= '9',
    ensures
        is_line("v=0"@, 'v'),
        is_line("o=gabby "@ + id + " 1 IN IP4 "@ + ip, 'o'),
        is_line("s=Gabby Voice AI"@, 's'),
        is_line("c=IN IP4 "@ + ip, 'c'),
        is_line("t=0 0"@, 't'),
        is_line("m=audio "@ + port + " RTP/AVP 0"@, 'm'),
{
    reveal_strlit("v=0");
    reveal_strlit("o=gabby ");
    reveal_strlit(" 1 IN IP4 ");
    reveal_strlit("s=Gabby Voice AI");
    reveal_strlit("c=IN IP4 ");
    reveal_strlit("t=0 0");
    reveal_strlit("m=audio ");
    reveal_strlit(" RTP/AVP 0");
    let o = "o=gabby "@ + id + " 1 IN IP4 "@ + ip;
    assert(o.last() == ip.last());
    let c = "c=IN IP4 "@ + ip;
    assert(c.last() == ip.last());
    let m = "m=audio "@ + port + " RTP/AVP 0"@;
    assert(m.last() == '0');
}

/// A text that begins with a letter, does not end with white space, and has no line feed.
spec fn is_line(s: Seq<char>, first: char) -> bool {
    &&& s.len() > 0
    &&& s[0] == first
    &&& !white_space(s.last())
    &&& forall|i: int| 0 <= i < s.len() ==> s[i] != '\n'
}

/// A line that begins with another letter gives no port.
proof fn lemma_not_media(s: Seq<char>, first: char, rest: Seq<Seq<char>>)
    requires
        is_line(s, first),
        'a' <= first <= 'z',
        first != 'm',
    ensures
        audio_port(seq![s.push('\r')] + rest) == audio_port(rest),
{
    let all = seq![s.push('\r')] + rest;
    lemma_trim_return(s);
    reveal_strlit("m=audio ");
    assert(all.skip(1) =~= rest);
    assert(begins_with(s, "m=audio "@) ==> s.take(8)[0] == 'm');
}

/// A line that begins with another letter gives no address.
proof fn lemma_not_connection(s: Seq<char>, first: char, rest: Seq<Seq<char>>)
    requires
        is_line(s, first),
        'a' <= first <= 'z',
        first != 'c',
    ensures
        connection_ip(seq![s.push('\r')] + rest) == connection_ip(rest),
{
    let all = seq![s.push('\r')] + rest;
    lemma_trim_return(s);
    reveal_strlit("c=IN IP4 ");
    reveal_strlit("c=IN IP6 ");
    assert(all.skip(1) =~= rest);
    assert(begins_with(s, "c=IN IP4 "@) ==> s.take(9)[0] == 'c');
    assert(begins_with(s, "c=IN IP6 "@) ==> s.take(9)[0] == 'c');
}

/// The line of the port gives the port.
proof fn lemma_media_line(rtp_port: u16, rest: Seq<Seq<char>>)
    ensures
        ({
            let m = "m=audio "@ + decimal(rtp_port as nat) + " RTP/AVP 0"@;
            audio_port(seq![m.push('\r')] + rest) == Some(rtp_port)
        }),
{
    let port = decimal(rtp_port as nat);
    let tail = " RTP/AVP 0"@;
    let m = "m=audio "@ + port + tail;
    lemma_decimal(rtp_port as nat);
    reveal_strlit("m=audio ");
    reveal_strlit(" RTP/AVP 0");
    assert(m.last() == '0');
    lemma_trim_return(m);
    assert(m.take(8) =~= "m=audio "@);
    let words = port + tail;
    assert(m.skip(8) =~= words);
    assert(words[0] == port[0]);
    assert(trim_start(words) == words);
    lemma_word_ends(port, tail);
    assert(words.take(port.len() as int) =~= port);
    assert(port[0] != '+');
}

/// A text without white space, and another that begins with it: the first ends at its length.
proof fn lemma_word_ends(s: Seq<char>, rest: Seq<char>)
    requires
        forall|i: int| 0 <= i < s.len() ==> !white_space(#[trigger] s[i]),
        rest.len() > 0,
        white_space(rest[0]),
    ensures
        first_space(s + rest) == s.len(),
    decreases s.len(),
{
    if s.len() > 0 {
        assert((s + rest)[0] == s[0]);
        assert((s + rest).skip(1) =~= s.skip(1) + rest);
        lemma_word_ends(s.skip(1), rest);
    } else {
        assert(s + rest =~= rest);
    }
}

/// The connection line gives the address.
proof fn lemma_connection_line(ip: Seq<char>, rest: Seq<Seq<char>>)
    requires
        plain_address(ip),
    ensures
        connection_ip(seq![("c=IN IP4 "@ + ip).push('\r')] + rest) == Some(ip),
{
    let c = "c=IN IP4 "@ + ip;
    reveal_strlit("c=IN IP4 ");
    assert(c.last() == ip.last());
    lemma_trim_return(c);
    lemma_trim_return(ip);
    assert(c.take(9) =~= "c=IN IP4 "@);
    assert(c.skip(9) =~= ip);
    lemma_first_of(ip, '/', ip.len() as int);
    assert(ip.take(ip.len() as int) =~= ip);
}

} // verus!
