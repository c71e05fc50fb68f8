//! What numbers and texts look like: bytes in network order, decimal digits, lines, words.

use crate::buf::{be16, be32, flat, u16_at, u32_at};
use crate::sip::{addressable, hex_digit, identifier, left_open, over_tls, via_text};
use crate::text::{
    ascii_lower, ascii_lowercase, begins_with, decimal, digit, digits_value, first_of, first_space,
    hex4, lines, number, number16, number32, or_empty, signed_decimal, trim_end, trim_start,
    trimmed, white_space,
};
use vstd::prelude::*;

verus! {

/// Numbers in network order: the most significant byte first.
pub proof fn lemma_network_order(n: u16, m: u32, s: Seq<u8>, i: int)
    requires
        0 <= i,
        i + 4 <= s.len(),
    ensures
        be16(n).len() == 2,
        256 * be16(n)[0] + be16(n)[1] == n,
        be32(m).len() == 4,
        16777216 * be32(m)[0] + 65536 * be32(m)[1] + 256 * be32(m)[2] + be32(m)[3] == m,
        u16_at(s, i) == 256 * s[i] + s[i + 1],
        u32_at(s, i) == 16777216 * s[i] + 65536 * s[i + 1] + 256 * s[i + 2] + s[i + 3],
{
    reveal(be16);
    reveal(be32);
}

/// A list is written element by element, in its order, with nothing between.
pub proof fn lemma_flat<T>(s: Seq<T>, t: T, enc: spec_fn(T) -> Seq<u8>)
    ensures
        flat(Seq::<T>::empty(), enc).len() == 0,
        flat(s.push(t), enc) == flat(s, enc) + enc(t),
{
    assert(s.push(t).drop_last() =~= s);
}

/// The digits up to 35: `0` to `9`, then `a` to `z`.
pub proof fn lemma_digit(d: int)
    requires
        0 <= d < 36,
    ensures
        d < 10 ==> digit(d) as int == '0' as int + d,
        d >= 10 ==> digit(d) as int == 'a' as int + d - 10,
{
}

/// A number in decimal: one digit for a number below ten, else the digits of its tenth and then
/// the digit that is left. There is no leading zero.
pub proof fn lemma_decimal_digits(n: nat)
    ensures
        n < 10 ==> decimal(n).len() == 1 && decimal(n)[0] as int == '0' as int + n,
        n >= 10 ==> decimal(n).drop_last() == decimal(n / 10) && decimal(n).last() as int
            == '0' as int + n % 10,
        n > 0 ==> decimal(n)[0] != '0',
        decimal(n).len() > 0,
    decreases n,
{
    if n >= 10 {
        lemma_decimal_digits(n / 10);
        assert(decimal(n).drop_last() =~= decimal(n / 10));
        assert(decimal(n)[0] == decimal(n / 10)[0]);
    }
}

/// A number of 16 bits as four hexadecimal digits, the most significant first; a negative number
/// with a minus sign in front.
pub proof fn lemma_other_numbers(n: u16, k: int)
    ensures
        hex4(n).len() == 4,
        hex4(n)[0] == digit((n as int / 4096) % 16),
        hex4(n)[1] == digit((n as int / 256) % 16),
        hex4(n)[2] == digit((n as int / 16) % 16),
        hex4(n)[3] == digit((n as int) % 16),
        k < 0 ==> signed_decimal(k) == "-"@ + decimal((-k) as nat),
        k >= 0 ==> signed_decimal(k) == decimal(k as nat),
{
}

/// What digits are worth: ten times what stands before the last one, and the last one. Anything
/// but a digit is worth nothing at all.
pub proof fn lemma_digits_worth(s: Seq<char>, c: char)
    ensures
        digits_value(Seq::empty()) == Some(0nat),
        '0' <= c <= '9' && digits_value(s) is Some ==> digits_value(s.push(c)) == Some(
            (10 * (digits_value(s)->0) + (c as int - '0' as int)) as nat,
        ),
        !('0' <= c <= '9') || digits_value(s) is None ==> digits_value(s.push(c)) is None,
{
    assert(s.push(c).drop_last() =~= s);
}

/// A number is read from one or more digits, with a plus sign in front or none, up to its limit:
/// 65535 for 16 bits, 4294967295 for 32.
pub proof fn lemma_number_read(s: Seq<char>, max: nat, v: nat)
    requires
        digits_value(s) == Some(v),
        s.len() > 0,
    ensures
        s[0] != '+',
        number(s, max) == (if v <= max {
            Some(v)
        } else {
            None
        }),
        number(seq!['+'] + s, max) == number(s, max),
        number(Seq::empty(), max) is None,
        number(seq!['+'], max) is None,
        v <= 65535 ==> number16(s) == Some(v as u16),
        v > 65535 ==> number16(s) is None,
        v <= 4294967295 ==> number32(s) == Some(v as u32),
        v > 4294967295 ==> number32(s) is None,
{
    lemma_first_digit(s);
    let p = seq!['+'] + s;
    assert(p.skip(1) =~= s);
    assert(seq!['+'].skip(1) =~= Seq::<char>::empty());
}

proof fn lemma_first_digit(s: Seq<char>)
    requires
        digits_value(s) is Some,
        s.len() > 0,
    ensures
        '0' <= s[0] <= '9',
    decreases s.len(),
{
    if s.len() > 1 {
        lemma_first_digit(s.drop_last());
        assert(s.drop_last()[0] == s[0]);
    }
}

/// The white space characters.
pub proof fn lemma_white_space(c: char)
    ensures
        white_space(c) <==> c == '\t' || c == '\n' || c == '\u{b}' || c == '\u{c}' || c == '\r' || c
            == ' ' || c == '\u{85}' || c == '\u{a0}' || c == '\u{1680}' || '\u{2000}' <= c
            <= '\u{200a}' || c == '\u{2028}' || c == '\u{2029}' || c == '\u{202f}' || c
            == '\u{205f}' || c == '\u{3000}',
{
}

/// Trimming takes away white space at both ends and nothing else.
pub proof fn lemma_trimmed(s: Seq<char>)
    ensures
        exists|a: int, b: int|
            #![trigger s.subrange(a, b)]
            0 <= a <= b <= s.len() && trimmed(s) == s.subrange(a, b) && (forall|i: int|
                0 <= i < a ==> white_space(#[trigger] s[i])) && (forall|i: int|
                b <= i < s.len() ==> white_space(#[trigger] s[i])),
        trimmed(s).len() > 0 ==> !white_space(trimmed(s)[0]) && !white_space(trimmed(s).last()),
{
    let t = trim_start(s);
    lemma_trim_start(s);
    let a = s.len() - t.len();
    lemma_trim_end(t);
    let u = trim_end(t);
    let b = a + u.len();
    assert(s.subrange(a, b) =~= u);
    assert forall|i: int| b <= i < s.len() implies white_space(#[trigger] s[i]) by {
        assert(t[i - a] == s[i]);
    }
}

proof fn lemma_trim_start(s: Seq<char>)
    ensures
        trim_start(s).len() <= s.len(),
        trim_start(s) == s.skip(s.len() - trim_start(s).len()),
        forall|i: int| 0 <= i < s.len() - trim_start(s).len() ==> white_space(#[trigger] s[i]),
        trim_start(s).len() > 0 ==> !white_space(trim_start(s)[0]),
    decreases s.len(),
{
    if s.len() > 0 && white_space(s[0]) {
        let rest = s.skip(1);
        lemma_trim_start(rest);
        let n = trim_start(s).len();
        assert(s.skip(s.len() - n) =~= rest.skip(rest.len() - n));
        assert forall|i: int| 0 <= i < s.len() - n implies white_space(#[trigger] s[i]) by {
            if i > 0 {
                assert(rest[i - 1] == s[i]);
            }
        }
    } else {
        assert(s.skip(0) =~= s);
    }
}

proof fn lemma_trim_end(s: Seq<char>)
    ensures
        trim_end(s).len() <= s.len(),
        trim_end(s) == s.take(trim_end(s).len() as int),
        forall|i: int| trim_end(s).len() <= i < s.len() ==> white_space(#[trigger] s[i]),
        trim_end(s).len() > 0 ==> !white_space(trim_end(s).last()),
    decreases s.len(),
{
    if s.len() > 0 && white_space(s.last()) {
        let init = s.drop_last();
        lemma_trim_end(init);
        let n = trim_end(s).len() as int;
        assert(s.take(n) =~= init.take(n));
        assert forall|i: int| n <= i < s.len() implies white_space(#[trigger] s[i]) by {
            if i < init.len() {
                assert(init[i] == s[i]);
            }
        }
    } else {
        assert(s.take(s.len() as int) =~= s);
    }
}

/// Where a character or white space is found first, or the end.
pub proof fn lemma_found_first(s: Seq<char>, c: char)
    ensures
        0 <= first_of(s, c) <= s.len(),
        forall|i: int| 0 <= i < first_of(s, c) ==> #[trigger] s[i] != c,
        first_of(s, c) < s.len() ==> s[first_of(s, c)] == c,
        0 <= first_space(s) <= s.len(),
        forall|i: int| 0 <= i < first_space(s) ==> !white_space(#[trigger] s[i]),
        first_space(s) < s.len() ==> white_space(s[first_space(s)]),
    decreases s.len(),
{
    if s.len() > 0 {
        let rest = s.skip(1);
        lemma_found_first(rest, c);
        assert forall|i: int| 0 <= i < first_of(s, c) implies #[trigger] s[i] != c by {
            if i > 0 {
                assert(rest[i - 1] == s[i]);
            }
        }
        assert forall|i: int| 0 <= i < first_space(s) implies !white_space(#[trigger] s[i]) by {
            if i > 0 {
                assert(rest[i - 1] == s[i]);
            }
        }
        if s[0] != c {
            assert(first_of(s, c) == 1 + first_of(rest, c));
            if first_of(rest, c) < rest.len() {
                assert(rest[first_of(rest, c)] == s[first_of(s, c)]);
            }
        }
        if !white_space(s[0]) {
            if first_space(rest) < rest.len() {
                assert(rest[first_space(rest)] == s[first_space(s)]);
            }
        }
    }
}

/// Lines end with a line feed: a text without one is a line, and what stands before the first one
/// is the first line.
pub proof fn lemma_lines(s: Seq<char>, rest: Seq<char>)
    requires
        forall|i: int| 0 <= i < s.len() ==> s[i] != '\n',
    ensures
        lines(s) == seq![s],
        lines(s + seq!['\n'] + rest) == seq![s] + lines(rest),
{
    crate::text::lemma_lines_cons(s, rest);
    lemma_found_first(s, '\n');
    if first_of(s, '\n') < s.len() {
        assert(s[first_of(s, '\n')] == '\n');
    }
}

/// Lower case in ASCII: `A` to `Z` become `a` to `z`, everything else stays.
pub proof fn lemma_lower_case(c: char, s: Seq<char>)
    ensures
        'A' <= c <= 'Z' ==> ascii_lower(c) as int == c as int + 32,
        !('A' <= c <= 'Z') ==> ascii_lower(c) == c,
        ascii_lowercase(s).len() == s.len(),
        forall|i: int| 0 <= i < s.len() ==> ascii_lowercase(s)[i] == ascii_lower(s[i]),
{
}

/// A text begins with another if it is that text and something behind it, and not otherwise.
pub proof fn lemma_begins(s: Seq<char>, p: Seq<char>, rest: Seq<char>)
    ensures
        begins_with(p + rest, p),
        begins_with(s, p) ==> s == p + s.skip(p.len() as int),
        or_empty(Some(s)) == s,
        or_empty(None).len() == 0,
{
    assert((p + rest).take(p.len() as int) =~= p);
    if begins_with(s, p) {
        assert(s =~= p + s.skip(p.len() as int));
    }
}

/// What a request can be addressed to: `sip:` or `sips:` with something behind it, unless a bracket
/// is opened last and not closed. Nothing else.
pub proof fn lemma_addressable(host: Seq<char>, uri: Seq<char>)
    requires
        host.len() > 0,
        forall|i: int| 0 <= i < host.len() ==> #[trigger] host[i] != '[',
    ensures
        addressable("sip:"@ + host),
        addressable("sips:"@ + host),
        addressable(uri) ==> begins_with(uri, "sip:"@) || begins_with(uri, "sips:"@),
        !addressable("sip:"@ + host + seq!['['] + host) || exists|i: int|
            0 <= i < host.len() && host[i] == ']',
        !addressable("sip:"@),
        !addressable(host) || begins_with(host, "sip:"@) || begins_with(host, "sips:"@),
{
    reveal_strlit("sip:");
    reveal_strlit("sips:");
    let a = "sip:"@ + host;
    let b = "sips:"@ + host;
    lemma_begins(uri, "sip:"@, host);
    lemma_begins(uri, "sips:"@, host);
    lemma_closed(a);
    lemma_closed(b);
    assert("sip:"@.take(4) =~= "sip:"@);
    let open = "sip:"@ + host + seq!['['] + host;
    if !(exists|i: int| 0 <= i < host.len() && host[i] == ']') {
        lemma_open(open, (4 + host.len()) as int);
    }
    assert(!begins_with("sip:"@, "sips:"@));
}

proof fn lemma_closed(s: Seq<char>)
    requires
        forall|i: int| 0 <= i < s.len() ==> #[trigger] s[i] != '[',
    ensures
        !left_open(s),
    decreases s.len(),
{
    if s.len() > 0 {
        lemma_closed(s.drop_last());
    }
}

proof fn lemma_open(s: Seq<char>, at: int)
    requires
        0 <= at < s.len(),
        s[at] == '[',
        forall|i: int| at < i < s.len() ==> #[trigger] s[i] != ']',
    ensures
        left_open(s),
    decreases s.len(),
{
    if s.last() != '[' {
        lemma_open(s.drop_last(), at);
    }
}

/// A Via value: the version, the transport, the host with its port, and the branch.
pub proof fn lemma_via(host: Seq<char>, port: u16, protocol: Seq<char>, branch: Seq<char>)
    ensures
        via_text(host, port, protocol, branch) == "SIP/2.0/"@ + protocol + " "@ + host + ":"@
            + decimal(port as nat) + ";branch="@ + branch,
{
}

/// A request whose topmost Via names TLS, in upper or lower case, came over it; one that names
/// another transport, or that has no Via, did not.
pub proof fn lemma_over_tls(protocol: Seq<char>, rest: Seq<char>, more: Seq<Seq<char>>)
    requires
        protocol.len() > 0,
        forall|i: int| 0 <= i < protocol.len() ==> !white_space(#[trigger] protocol[i]),
        rest.len() > 0,
        !white_space(rest.last()),
    ensures
        over_tls(seq!["SIP/2.0/"@ + protocol + seq![' '] + rest] + more) <==> ascii_lowercase(
            protocol,
        ) == seq!['t', 'l', 's'],
        !over_tls(Seq::empty()),
{
    reveal_strlit("SIP/2.0/");
    reveal_strlit("Via:");
    reveal_strlit("TLS");
    let head = "SIP/2.0/"@;
    let via = head + protocol + seq![' '] + rest;
    let vias = seq![via] + more;
    assert(vias[0] == via);
    assert(via[0] == 'S');
    assert(via.last() == rest.last());
    assert(trim_start(via) == via);
    assert(trim_end(via) == via);
    assert(!begins_with(via, "Via:"@)) by {
        if begins_with(via, "Via:"@) {
            assert(via.take(4)[0] == "Via:"@[0]);
        }
    }
    assert(via.take(8) =~= head);
    let behind = via.skip(8);
    assert(behind =~= protocol + seq![' '] + rest);
    let n = protocol.len() as int;
    lemma_found_first(behind, ' ');
    let m = first_space(behind);
    assert(behind[n] == ' ');
    assert(white_space(' '));
    if m < n {
        assert(behind[m] == protocol[m]);
    }
    if n < m {
        assert(!white_space(behind[n]));
    }
    assert(m == n);
    assert(behind.take(n) =~= protocol);
    assert(ascii_lowercase("TLS"@) =~= seq!['t', 'l', 's']) by {
        assert(ascii_lower('T') == 't');
        assert(ascii_lower('L') == 'l');
        assert(ascii_lower('S') == 's');
    }
}

/// An identifier is 32 hexadecimal digits in lower case.
pub proof fn lemma_identifier(s: Seq<char>, i: int)
    requires
        identifier(s),
        0 <= i < 32,
    ensures
        s.len() == 32,
        '0' <= s[i] <= '9' || 'a' <= s[i] <= 'f',
{
    assert(hex_digit(s[i]));
}

} // verus!
