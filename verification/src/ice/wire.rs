//! The framing that STUN and TURN messages share.

use crate::buf::{
    be16, be32, buffer_as_slice, fits, lemma_be16_read, lemma_be32_read,
    new_buffer, put_slice, put_u16, put_u32, put_u8, read_u16, read_u32, u16_at, u32_at, written,
};
use crate::net::{IpAddr, SocketAddr};
use crate::rtcp::sdes::{pad4, zeros};
use bytes::BytesMut;
use vstd::prelude::*;

verus! {

broadcast use crate::buf::group_be_len;

/// STUN magic cookie.
pub const MAGIC_COOKIE: u32 = 0x2112A442;

/// The upper half of the magic cookie.
pub const COOKIE_HIGH: u16 = 0x2112;

/// Address families.
pub const AF_IPV4: u8 = 0x01;

pub const AF_IPV6: u8 = 0x02;

/// An attribute as bytes: type, length, value, padding to a multiple of four.
pub open spec fn attr_wire(kind: u16, value: Seq<u8>) -> Seq<u8> {
    be16(kind) + be16((value.len() % 0x1_0000) as u16) + value + zeros(pad4(value.len() as int))
}

/// The length of an attribute as bytes.
pub open spec fn attr_len(n: nat) -> nat {
    4 + n + pad4(n as int)
}

/// A message as bytes: type, length of the attributes, cookie, transaction ID, attributes.
pub open spec fn message_wire(kind: u16, txn: Seq<u8>, attrs: Seq<u8>) -> Seq<u8> {
    be16(kind) + be16((attrs.len() % 0x1_0000) as u16) + be32(MAGIC_COOKIE) + txn + attrs
}

/// Pads a buffer with zeros behind a value of `len` bytes, up to a multiple of four.
pub fn pad_to_4_bytes(buf: &mut BytesMut, len: usize)
    requires
        fits(written(*old(buf)).len() + pad4(len as int)),
    ensures
        written(*final(buf)) == written(*old(buf)) + zeros(pad4(len as int)),
{
    let padding: usize = (4 - (len % 4)) % 4;
    let ghost start = written(*buf);
    let mut i: usize = 0;
    assert(written(*buf) =~= start + zeros(0));
    while i < padding
        invariant
            i <= padding,
            padding == pad4(len as int),
            fits(start.len() + padding as nat),
            written(*buf) == start + zeros(i as nat),
        decreases padding - i,
    {
        put_u8(buf, 0);
        i = i + 1;
        assert(written(*buf) =~= start + zeros(i as nat));
    }
}

/// Appends an attribute.
pub fn put_attr(buf: &mut BytesMut, kind: u16, value: &[u8])
    requires
        fits(written(*old(buf)).len() + attr_len(value@.len())),
    ensures
        written(*final(buf)) == written(*old(buf)) + attr_wire(kind, value@),
{
    put_u16(buf, kind);
    put_u16(buf, (value.len() % 0x1_0000) as u16);
    put_slice(buf, value);
    pad_to_4_bytes(buf, value.len());
    assert(written(*buf) =~= written(*old(buf)) + attr_wire(kind, value@));
}

/// Builds a message around its attributes.
pub fn message(kind: u16, txn: &[u8; 12], attrs: &BytesMut) -> (r: BytesMut)
    requires
        fits(20 + written(*attrs).len()),
    ensures
        written(r) == message_wire(kind, txn@, written(*attrs)),
{
    let bytes: &[u8] = buffer_as_slice(attrs);
    let mut msg: BytesMut = new_buffer(20 + bytes.len());
    put_u16(&mut msg, kind);
    put_u16(&mut msg, (bytes.len() % 0x1_0000) as u16);
    put_u32(&mut msg, MAGIC_COOKIE);
    put_slice(&mut msg, txn.as_slice());
    put_slice(&mut msg, bytes);
    assert(written(msg) =~= message_wire(kind, txn@, written(*attrs)));
    msg
}

/// What is read of the fixed fields of a message that was built.
pub proof fn lemma_message_fields(kind: u16, txn: Seq<u8>, attrs: Seq<u8>)
    requires
        txn.len() == 12,
    ensures
        message_wire(kind, txn, attrs).len() == 20 + attrs.len(),
        u16_at(message_wire(kind, txn, attrs), 0) == kind,
        u16_at(message_wire(kind, txn, attrs), 2) == attrs.len() % 0x1_0000,
        u32_at(message_wire(kind, txn, attrs), 4) == MAGIC_COOKIE,
        message_wire(kind, txn, attrs).subrange(8, 20) == txn,
        message_wire(kind, txn, attrs).skip(20) == attrs,
{
    let w = message_wire(kind, txn, attrs);
    let n = (attrs.len() % 0x1_0000) as u16;
    assert(w.subrange(0, 2) =~= be16(kind));
    assert(w.subrange(2, 4) =~= be16(n));
    assert(w.subrange(4, 8) =~= be32(MAGIC_COOKIE));
    assert(w.subrange(8, 20) =~= txn);
    assert(w.skip(20) =~= attrs);
    lemma_be16_read(w, 0, kind);
    lemma_be16_read(w, 2, n);
    lemma_be32_read(w, 4, MAGIC_COOKIE);
}

/// An attribute that was found in a message: its type and value.
pub struct AttrView {
    pub kind: u16,
    pub value: Seq<u8>,
}

/// The attributes that stand in `s`, one behind the other. The list ends where less than an
/// attribute's head, value or padding is left.
pub open spec fn attrs_of(s: Seq<u8>) -> Seq<AttrView>
    decreases s.len(),
{
    if s.len() < 4 || s.len() < 4 + u16_at(s, 2) {
        Seq::empty()
    } else {
        let n = u16_at(s, 2) as nat;
        let first = AttrView { kind: u16_at(s, 0), value: s.subrange(4, 4 + n as int) };
        if s.len() < attr_len(n) {
            seq![first]
        } else {
            seq![first] + attrs_of(s.skip(attr_len(n) as int))
        }
    }
}

/// The value of the last attribute of type `kind` with at least `min` bytes.
pub open spec fn last_of(attrs: Seq<AttrView>, kind: u16, min: int) -> Option<Seq<u8>>
    decreases attrs.len(),
{
    if attrs.len() == 0 {
        None
    } else if attrs.last().kind == kind && attrs.last().value.len() >= min {
        Some(attrs.last().value)
    } else {
        last_of(attrs.drop_last(), kind, min)
    }
}

/// Where an attribute stands in a message.
pub struct Attr {
    pub kind: u16,
    pub start: usize,
    pub end: usize,
}

/// Whether `a` says where `v` stands in `s`.
pub open spec fn locates(a: Attr, s: Seq<u8>, v: AttrView) -> bool {
    &&& a.kind == v.kind
    &&& a.start <= a.end <= s.len()
    &&& s.subrange(a.start as int, a.end as int) == v.value
}

/// Whether `list` says where the attributes `attrs` stand in `s`.
pub open spec fn locates_all(list: Seq<Attr>, s: Seq<u8>, attrs: Seq<AttrView>) -> bool {
    &&& list.len() == attrs.len()
    &&& forall|i: int| 0 <= i < list.len() ==> #[trigger] locates(list[i], s, attrs[i])
}

/// Finds the attributes in `data`.
pub fn attributes(data: &[u8]) -> (r: Vec<Attr>)
    ensures
        locates_all(r@, data@, attrs_of(data@)),
{
    let mut list: Vec<Attr> = Vec::new();
    let mut pos: usize = 0;
    let ghost mut done = Seq::<AttrView>::empty();
    assert(data@.skip(0) =~= data@);
    assert(done + attrs_of(data@) =~= attrs_of(data@));
    while data.len() - pos >= 4
        invariant_except_break
            pos <= data@.len(),
            locates_all(list@, data@, done),
            done + attrs_of(data@.skip(pos as int)) == attrs_of(data@),
        ensures
            locates_all(list@, data@, attrs_of(data@)),
        decreases data@.len() - pos,
    {
        let ghost rest = data@.skip(pos as int);
        let kind: u16 = read_u16(data, pos);
        let n: usize = read_u16(data, pos + 2) as usize;
        assert(u16_at(rest, 0) == kind && u16_at(rest, 2) == n);
        if data.len() - pos - 4 < n {
            assert(done =~= attrs_of(data@));
            break;
        }
        let attr = Attr { kind, start: pos + 4, end: pos + 4 + n };
        let ghost first = AttrView { kind, value: rest.subrange(4, 4 + n) };
        assert(data@.subrange(pos + 4, pos + 4 + n) =~= first.value);
        let ghost before = done;
        proof {
            done = done.push(first);
            assert forall|i: int| 0 <= i < done.len() implies #[trigger] locates(
                list@.push(attr)[i],
                data@,
                done[i],
            ) by {
                if i < before.len() {
                    assert(locates(list@[i], data@, before[i]));
                }
            }
        }
        list.push(attr);
        let padded: usize = n + (4 - n % 4) % 4;
        if data.len() - pos - 4 < padded {
            assert(done =~= before + attrs_of(rest));
            break;
        }
        proof {
            assert(rest.skip(attr_len(n as nat) as int) =~= data@.skip(pos + 4 + padded));
            assert(done + attrs_of(data@.skip(pos + 4 + padded)) =~= before + attrs_of(rest));
        }
        pos = pos + 4 + padded;
        if data.len() - pos < 4 {
            assert(done =~= attrs_of(data@));
        }
    }
    list
}

/// Finds the value of the last attribute of type `kind` with at least `min` bytes.
pub fn find_last<'a>(
    data: &'a [u8],
    list: &Vec<Attr>,
    kind: u16,
    min: usize,
) -> (r: Option<&'a [u8]>)
    requires
        locates_all(list@, data@, attrs_of(data@)),
    ensures
        match r {
            Some(v) => last_of(attrs_of(data@), kind, min as int) == Some(v@),
            None => last_of(attrs_of(data@), kind, min as int) is None,
        },
{
    let mut i: usize = list.len();
    let ghost attrs = attrs_of(data@);
    assert(attrs.take(i as int) =~= attrs);
    while i > 0
        invariant
            i <= list@.len(),
            attrs == attrs_of(data@),
            locates_all(list@, data@, attrs),
            last_of(attrs, kind, min as int) == last_of(attrs.take(i as int), kind, min as int),
        decreases i,
    {
        i = i - 1;
        assert(locates(list@[i as int], data@, attrs[i as int]));
        assert(attrs.take(i + 1).last() == attrs[i as int]);
        assert(attrs.take(i + 1).drop_last() =~= attrs.take(i as int));
        if list[i].kind == kind && list[i].end - list[i].start >= min {
            return Some(&data[list[i].start..list[i].end]);
        }
    }
    None
}

/// The value of an XOR-MAPPED-ADDRESS style attribute for `addr`.
pub open spec fn xor_address(addr: SocketAddr, txn: Seq<u8>) -> Seq<u8> {
    let port = be16(addr.port ^ COOKIE_HIGH);
    match addr.ip {
        IpAddr::V4(a) => seq![0u8, AF_IPV4] + port + be32(a ^ MAGIC_COOKIE),
        IpAddr::V6(a, b, c, d) => seq![0u8, AF_IPV6] + port + be32(a ^ MAGIC_COOKIE) + be32(
            b ^ u32_at(txn, 0),
        ) + be32(c ^ u32_at(txn, 4)) + be32(d ^ u32_at(txn, 8)),
    }
}

/// The address that the value of an XOR-MAPPED-ADDRESS style attribute gives.
pub open spec fn address_of(v: Seq<u8>, txn: Seq<u8>) -> Option<SocketAddr> {
    if v.len() < 4 {
        None
    } else {
        let port = u16_at(v, 2) ^ COOKIE_HIGH;
        if v[1] == AF_IPV4 && v.len() >= 8 {
            Some(SocketAddr { ip: IpAddr::V4(u32_at(v, 4) ^ MAGIC_COOKIE), port })
        } else if v[1] == AF_IPV6 && v.len() >= 20 {
            Some(
                SocketAddr {
                    ip: IpAddr::V6(
                        u32_at(v, 4) ^ MAGIC_COOKIE,
                        u32_at(v, 8) ^ u32_at(txn, 0),
                        u32_at(v, 12) ^ u32_at(txn, 4),
                        u32_at(v, 16) ^ u32_at(txn, 8),
                    ),
                    port,
                },
            )
        } else {
            None
        }
    }
}

/// Encode an XOR-MAPPED-ADDRESS style attribute.
pub fn encode_xor_address(buf: &mut BytesMut, attr_type: u16, addr: SocketAddr, txn_id: &[u8; 12])
    requires
        fits(written(*old(buf)).len() + 24),
    ensures
        written(*final(buf)) == written(*old(buf)) + attr_wire(
            attr_type,
            xor_address(addr, txn_id@),
        ),
{
    let txn: &[u8] = txn_id.as_slice();
    put_u16(buf, attr_type);
    match addr.ip {
        IpAddr::V4(a) => {
            put_u16(buf, 8);
            put_u8(buf, 0);
            put_u8(buf, AF_IPV4);
            put_u16(buf, addr.port ^ COOKIE_HIGH);
            put_u32(buf, a ^ MAGIC_COOKIE);
        },
        IpAddr::V6(a, b, c, d) => {
            put_u16(buf, 20);
            put_u8(buf, 0);
            put_u8(buf, AF_IPV6);
            put_u16(buf, addr.port ^ COOKIE_HIGH);
            put_u32(buf, a ^ MAGIC_COOKIE);
            put_u32(buf, b ^ read_u32(txn, 0));
            put_u32(buf, c ^ read_u32(txn, 4));
            put_u32(buf, d ^ read_u32(txn, 8));
        },
    }
    assert(written(*buf) =~= written(*old(buf)) + attr_wire(attr_type, xor_address(addr, txn_id@)));
}

/// Parse an XOR-MAPPED-ADDRESS style attribute.
pub fn parse_xor_address(data: &[u8], txn_id: &[u8; 12]) -> (r: Option<SocketAddr>)
    ensures
        r == address_of(data@, txn_id@),
{
    if data.len() < 4 {
        return None;
    }
    let txn: &[u8] = txn_id.as_slice();
    let port: u16 = read_u16(data, 2) ^ COOKIE_HIGH;
    if data[1] == AF_IPV4 && data.len() >= 8 {
        return Some(SocketAddr { ip: IpAddr::V4(read_u32(data, 4) ^ MAGIC_COOKIE), port });
    }
    if data[1] == AF_IPV6 && data.len() >= 20 {
        return Some(
            SocketAddr {
                ip: IpAddr::V6(
                    read_u32(data, 4) ^ MAGIC_COOKIE,
                    read_u32(data, 8) ^ read_u32(txn, 0),
                    read_u32(data, 12) ^ read_u32(txn, 4),
                    read_u32(data, 16) ^ read_u32(txn, 8),
                ),
                port,
            },
        );
    }
    None
}

proof fn lemma_xor32(a: u32, k: u32)
    ensures
        (a ^ k) ^ k == a,
{
    assert((a ^ k) ^ k == a) by (bit_vector);
}

/// Decoding an encoded address under the same transaction ID gives it back.
pub proof fn lemma_xor_address_round_trip(addr: SocketAddr, txn: Seq<u8>)
    requires
        txn.len() == 12,
    ensures
        address_of(xor_address(addr, txn), txn) == Some(addr),
{
    let v = xor_address(addr, txn);
    let port = addr.port;
    assert((port ^ COOKIE_HIGH) ^ COOKIE_HIGH == port) by (bit_vector);
    assert(v.subrange(2, 4) =~= be16(port ^ COOKIE_HIGH));
    lemma_be16_read(v, 2, port ^ COOKIE_HIGH);
    match addr.ip {
        IpAddr::V4(a) => {
            assert(v.subrange(4, 8) =~= be32(a ^ MAGIC_COOKIE));
            lemma_be32_read(v, 4, a ^ MAGIC_COOKIE);
            lemma_xor32(a, MAGIC_COOKIE);
        },
        IpAddr::V6(a, b, c, d) => {
            let k1 = u32_at(txn, 0);
            let k2 = u32_at(txn, 4);
            let k3 = u32_at(txn, 8);
            assert(v.subrange(4, 8) =~= be32(a ^ MAGIC_COOKIE));
            assert(v.subrange(8, 12) =~= be32(b ^ k1));
            assert(v.subrange(12, 16) =~= be32(c ^ k2));
            assert(v.subrange(16, 20) =~= be32(d ^ k3));
            lemma_be32_read(v, 4, a ^ MAGIC_COOKIE);
            lemma_be32_read(v, 8, b ^ k1);
            lemma_be32_read(v, 12, c ^ k2);
            lemma_be32_read(v, 16, d ^ k3);
            lemma_xor32(a, MAGIC_COOKIE);
            lemma_xor32(b, k1);
            lemma_xor32(c, k2);
            lemma_xor32(d, k3);
        },
    }
}

/// What is read of an attribute that was built, and where the next one starts.
pub proof fn lemma_attr_round_trip(kind: u16, value: Seq<u8>, rest: Seq<u8>)
    requires
        value.len() < 0x1_0000,
    ensures
        attrs_of(attr_wire(kind, value) + rest) == seq![AttrView { kind, value }] + attrs_of(rest),
        attr_wire(kind, value).len() == attr_len(value.len()),
{
    let w = attr_wire(kind, value);
    let s = w + rest;
    let n = value.len();
    assert(s.subrange(0, 2) =~= be16(kind));
    assert(s.subrange(2, 4) =~= be16(n as u16));
    lemma_be16_read(s, 0, kind);
    lemma_be16_read(s, 2, n as u16);
    assert(s.subrange(4, 4 + n as int) =~= value);
    assert(s.skip(attr_len(n) as int) =~= rest);
}

} // verus!
