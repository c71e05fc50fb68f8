//! What STUN and TURN messages look like, byte by byte, and what is read of them.

use super::check::CHECK_ATTEMPTS;
use super::stun::{binding_reply, mapped_in, StunErrorView, BINDING_REQUEST};
use super::turn::{
    allocate_reply, allocate_request, body, cut_short, data_indication, error_reply, lifetime_in,
    permission_reply, permission_request, refresh_reply, refresh_request, send_indication,
    AllocateResultView, AuthView, TurnAllocationView, TurnErrorView,
};
use super::wire::{
    attr_len, attr_wire, attrs_of, lemma_attr_round_trip, lemma_message_fields,
    lemma_xor_address_round_trip, message_wire, xor_address, AttrView,
};
use crate::buf::{be16, be32, lemma_be16_read, lemma_be32_read, u32_at};
use crate::net::{IpAddr, SocketAddr};
use crate::text::{hex4, utf8_lossy};
use vstd::prelude::*;
use vstd::utf8::encode_utf8;

verus! {

broadcast use crate::buf::group_be_len;

/// A message is its type, the length of its attributes and the cookie 0x2112A442, the most
/// significant byte of each first, then the twelve bytes of the transaction ID, then the
/// attributes.
pub proof fn lemma_message_bytes(kind: u16, txn: Seq<u8>, attrs: Seq<u8>)
    requires
        txn.len() == 12,
    ensures
        ({
            let w = message_wire(kind, txn, attrs);
            &&& w.len() == 20 + attrs.len()
            &&& w[0] == kind / 256 && w[1] == kind % 256
            &&& w[2] == attrs.len() % 65536 / 256 && w[3] == attrs.len() % 256
            &&& w[4] == 0x21 && w[5] == 0x12 && w[6] == 0xA4 && w[7] == 0x42
            &&& forall|i: int| 0 <= i < 12 ==> w[8 + i] == #[trigger] txn[i]
            &&& forall|i: int| 0 <= i < attrs.len() ==> w[20 + i] == #[trigger] attrs[i]
        }),
{
    reveal(be16);
    reveal(be32);
}

/// An attribute is its type and the length of its value, then the value, then zeros up to a
/// multiple of four bytes.
pub proof fn lemma_attr_bytes(kind: u16, value: Seq<u8>)
    requires
        value.len() < 65536,
    ensures
        ({
            let w = attr_wire(kind, value);
            &&& w.len() % 4 == 0
            &&& 4 + value.len() <= w.len() < 8 + value.len()
            &&& w[0] == kind / 256 && w[1] == kind % 256
            &&& w[2] == value.len() / 256 && w[3] == value.len() % 256
            &&& forall|i: int| 0 <= i < value.len() ==> w[4 + i] == #[trigger] value[i]
            &&& forall|i: int| 4 + value.len() <= i < w.len() ==> #[trigger] w[i] == 0
        }),
{
    reveal(be16);
}

/// An address in a message: a zero, the family (1 for IPv4, 2 for IPv6), the port with the upper
/// half of the cookie, and the address, with the cookie over its first word and the transaction ID
/// over the others.
pub proof fn lemma_address_bytes(port: u16, a: u32, b: u32, c: u32, d: u32, txn: Seq<u8>)
    requires
        txn.len() == 12,
    ensures
        xor_address(SocketAddr { ip: IpAddr::V4(a), port }, txn) == seq![0u8, 1u8] + be16(
            port ^ 0x2112,
        ) + be32(a ^ 0x2112A442),
        xor_address(SocketAddr { ip: IpAddr::V6(a, b, c, d), port }, txn) == seq![0u8, 2u8] + be16(
            port ^ 0x2112,
        ) + be32(a ^ 0x2112A442) + be32(b ^ u32_at(txn, 0)) + be32(c ^ u32_at(txn, 4)) + be32(
            d ^ u32_at(txn, 8),
        ),
{
}

/// A binding response whose first attribute is the mapped address of the IPv4 family gives that
/// address, whatever the transaction ID and whatever follows.
pub proof fn lemma_binding_reply(txn: Seq<u8>, ip: u32, port: u16, rest: Seq<u8>)
    requires
        txn.len() == 12,
        12 + rest.len() < 65536,
    ensures
        ({
            let addr = SocketAddr { ip: IpAddr::V4(ip), port };
            let attrs = attr_wire(0x20, xor_address(addr, txn)) + rest;
            &&& mapped_in(attrs) == Some(addr)
            &&& binding_reply(message_wire(0x101, txn, attrs)) == Ok::<_, StunErrorView>(addr)
        }),
{
    let addr = SocketAddr { ip: IpAddr::V4(ip), port };
    let v = xor_address(addr, txn);
    let s = attr_wire(0x20, v) + rest;
    assert(v.len() == 8);
    assert(s.subrange(0, 2) =~= be16(0x20));
    assert(s.subrange(2, 4) =~= be16(8));
    lemma_be16_read(s, 0, 0x20);
    lemma_be16_read(s, 2, 8);
    assert(s[5] == v[1]);
    assert(s.subrange(6, 8) =~= be16(port ^ 0x2112));
    assert(s.subrange(8, 12) =~= be32(ip ^ 0x2112A442));
    lemma_be16_read(s, 6, port ^ 0x2112);
    lemma_be32_read(s, 8, ip ^ 0x2112A442);
    assert((port ^ 0x2112) ^ 0x2112 == port) by (bit_vector);
    assert((ip ^ 0x2112A442) ^ 0x2112A442 == ip) by (bit_vector);
    let w = message_wire(0x101, txn, s);
    lemma_message_fields(0x101, txn, s);
    assert(w.subrange(20, 20 + s.len() as int) =~= s);
}

/// An attribute of another type in front of the mapped address makes no difference.
pub proof fn lemma_mapped_behind(kind: u16, value: Seq<u8>, rest: Seq<u8>)
    requires
        kind != 0x20,
        value.len() < 65536,
    ensures
        mapped_in(attr_wire(kind, value) + rest) == mapped_in(rest),
{
    let s = attr_wire(kind, value) + rest;
    let n = value.len();
    assert(s.subrange(0, 2) =~= be16(kind));
    assert(s.subrange(2, 4) =~= be16(n as u16));
    lemma_be16_read(s, 0, kind);
    lemma_be16_read(s, 2, n as u16);
    assert(s.skip(attr_len(n) as int) =~= rest);
}

/// What is no binding response is refused: one that is too short, of another type than 0x0101, or
/// without the cookie. One without attributes has no mapped address.
pub proof fn lemma_binding_refused(data: Seq<u8>)
    ensures
        data.len() < 20 ==> binding_reply(data) == Err::<SocketAddr, _>(
            StunErrorView::InvalidResponse("Too short"@),
        ),
        data.len() >= 20 && !(data[0] == 1 && data[1] == 1) ==> binding_reply(data) == Err::<
            SocketAddr,
            _,
        >(StunErrorView::InvalidResponse("Not a response"@)),
        data.len() >= 20 && data[0] == 1 && data[1] == 1 && !(data[4] == 0x21 && data[5] == 0x12
            && data[6] == 0xA4 && data[7] == 0x42) ==> binding_reply(data) == Err::<SocketAddr, _>(
            StunErrorView::InvalidResponse("Bad cookie"@),
        ),
        data.len() >= 20 && data[0] == 1 && data[1] == 1 && data[2] == 0 && data[3] == 0 && data[4]
            == 0x21 && data[5] == 0x12 && data[6] == 0xA4 && data[7] == 0x42 ==> binding_reply(
            data,
        ) == Err::<SocketAddr, _>(StunErrorView::NoMappedAddress),
        BINDING_REQUEST == 1,
        CHECK_ATTEMPTS == 3,
{
}

/// The attributes of credentials: USERNAME (6), REALM (0x14), NONCE (0x15), in this order.
pub proof fn lemma_credentials(auth: AuthView)
    ensures
        auth.wire() == attr_wire(6, encode_utf8(auth.username)) + attr_wire(
            0x14,
            encode_utf8(auth.realm),
        ) + attr_wire(0x15, encode_utf8(auth.nonce)),
{
}

/// The requests of a TURN client. Allocate is type 3 and asks for UDP, protocol 17, in attribute
/// 0x19; Refresh is type 4 with the lifetime in attribute 0xD; CreatePermission is type 8 with the
/// peer in attribute 0x12; a Send indication is type 0x16 with the peer and the data, in attribute
/// 0x13.
pub proof fn lemma_turn_requests(
    txn: Seq<u8>,
    lifetime: u32,
    peer: SocketAddr,
    data: Seq<u8>,
    auth: AuthView,
)
    ensures
        ({
            let udp = attr_wire(0x19, seq![17u8, 0u8, 0u8, 0u8]);
            let from = attr_wire(0x12, xor_address(peer, txn));
            &&& allocate_request(txn, None) == message_wire(3, txn, udp)
            &&& allocate_request(txn, Some(auth)) == message_wire(3, txn, udp + auth.wire())
            &&& refresh_request(txn, lifetime, auth) == message_wire(
                4,
                txn,
                attr_wire(0xD, be32(lifetime)) + auth.wire(),
            )
            &&& permission_request(txn, peer, auth) == message_wire(8, txn, from + auth.wire())
            &&& send_indication(txn, peer, data) == message_wire(
                0x16,
                txn,
                from + attr_wire(0x13, data),
            )
        }),
{
}

/// The list of three attributes that stand one behind the other.
proof fn lemma_three(k1: u16, v1: Seq<u8>, k2: u16, v2: Seq<u8>, k3: u16, v3: Seq<u8>)
    requires
        v1.len() < 65536,
        v2.len() < 65536,
        v3.len() < 65536,
    ensures
        attrs_of(attr_wire(k1, v1) + attr_wire(k2, v2) + attr_wire(k3, v3)) == seq![
            AttrView { kind: k1, value: v1 },
            AttrView { kind: k2, value: v2 },
            AttrView { kind: k3, value: v3 },
        ],
        (attr_wire(k1, v1) + attr_wire(k2, v2) + attr_wire(k3, v3)).len() == attr_len(v1.len())
            + attr_len(v2.len()) + attr_len(v3.len()),
{
    let third = attr_wire(k3, v3);
    let second = attr_wire(k2, v2) + third;
    lemma_attr_round_trip(k1, v1, second);
    lemma_attr_round_trip(k2, v2, third);
    lemma_attr_round_trip(k3, v3, Seq::empty());
    assert(third + Seq::<u8>::empty() =~= third);
    assert(attr_wire(k1, v1) + second =~= attr_wire(k1, v1) + attr_wire(k2, v2) + third);
    assert(attrs_of(Seq::<u8>::empty()) =~= Seq::empty());
    assert(attrs_of(attr_wire(k1, v1) + second) =~= seq![
        AttrView { kind: k1, value: v1 },
        AttrView { kind: k2, value: v2 },
        AttrView { kind: k3, value: v3 },
    ]);
}

proof fn lemma_body(kind: u16, txn: Seq<u8>, attrs: Seq<u8>)
    requires
        txn.len() == 12,
        attrs.len() < 65536,
    ensures
        body(message_wire(kind, txn, attrs)) == attrs,
        !cut_short(message_wire(kind, txn, attrs)),
{
    lemma_message_fields(kind, txn, attrs);
    assert(body(message_wire(kind, txn, attrs)) =~= attrs);
}

/// A granted allocation is read as it was written: the relayed address from attribute 0x16, the
/// mapped one from 0x20, the lifetime from 0xD, under type 0x0103.
pub proof fn lemma_allocation_granted(
    txn: Seq<u8>,
    relayed: SocketAddr,
    mapped: SocketAddr,
    lifetime: u32,
)
    requires
        txn.len() == 12,
    ensures
        allocate_reply(
            message_wire(
                0x103,
                txn,
                attr_wire(0x16, xor_address(relayed, txn)) + attr_wire(
                    0x20,
                    xor_address(mapped, txn),
                ) + attr_wire(0xD, be32(lifetime)),
            ),
            txn,
        ) == Ok::<_, TurnErrorView>(
            AllocateResultView::Success(
                TurnAllocationView {
                    relayed_addr: relayed,
                    mapped_addr: mapped,
                    lifetime,
                    realm: Seq::empty(),
                    nonce: Seq::empty(),
                },
            ),
        ),
{
    let v1 = xor_address(relayed, txn);
    let v2 = xor_address(mapped, txn);
    let v3 = be32(lifetime);
    let attrs = attr_wire(0x16, v1) + attr_wire(0x20, v2) + attr_wire(0xD, v3);
    assert(v1.len() <= 20 && v2.len() <= 20);
    lemma_three(0x16, v1, 0x20, v2, 0xD, v3);
    lemma_body(0x103, txn, attrs);
    lemma_message_fields(0x103, txn, attrs);
    lemma_xor_address_round_trip(relayed, txn);
    lemma_xor_address_round_trip(mapped, txn);
    lemma_last_of_three(attrs_of(attrs), 0);
    lemma_last_of_three(attrs_of(attrs), 4);
    assert(v3.subrange(0, 4) =~= v3);
    lemma_be32_read(v3, 0, lifetime);
}

/// What is found last in a list of three attributes of different types.
proof fn lemma_last_of_three(list: Seq<AttrView>, min: int)
    requires
        list.len() == 3,
        list[0].kind != list[1].kind,
        list[0].kind != list[2].kind,
        list[1].kind != list[2].kind,
    ensures
        forall|i: int|
            0 <= i < 3 ==> super::wire::last_of(list, (#[trigger] list[i]).kind, min) == (
            if list[i].value.len() >= min {
                Some(list[i].value)
            } else {
                None
            }),
        forall|kind: u16|
            kind != list[0].kind && kind != list[1].kind && kind != list[2].kind
                ==> #[trigger] super::wire::last_of(list, kind, min) is None,
{
    reveal_with_fuel(super::wire::last_of, 4);
    assert(list.drop_last()[1] == list[1]);
    assert(list.drop_last().drop_last()[0] == list[0]);
    assert(list.drop_last().drop_last().drop_last().len() == 0);
}

/// A challenge, an error of code 401 with a realm and a nonce under type 0x0113, is read as one,
/// with both texts; an error of any other code is reported with its code, 100 times its class and
/// its number, even where it has both.
pub proof fn lemma_allocation_refused(
    txn: Seq<u8>,
    class: u8,
    number: u8,
    realm: Seq<u8>,
    nonce: Seq<u8>,
)
    requires
        txn.len() == 12,
        realm.len() < 1024,
        nonce.len() < 1024,
    ensures
        ({
            let attrs = attr_wire(9, seq![0u8, 0u8, class, number]) + attr_wire(0x14, realm)
                + attr_wire(0x15, nonce);
            let reply = allocate_reply(message_wire(0x113, txn, attrs), txn);
            &&& class == 4 && number == 1 ==> reply == Ok::<_, TurnErrorView>(
                AllocateResultView::AuthRequired {
                    realm: utf8_lossy(realm),
                    nonce: utf8_lossy(nonce),
                },
            )
            &&& class * 100 + number != 401 ==> reply == Err::<AllocateResultView, _>(
                TurnErrorView::ErrorResponse {
                    code: (class * 100 + number) as u16,
                    reason: Seq::empty(),
                },
            )
        }),
{
    let v = seq![0u8, 0u8, class, number];
    let attrs = attr_wire(9, v) + attr_wire(0x14, realm) + attr_wire(0x15, nonce);
    lemma_three(9, v, 0x14, realm, 0x15, nonce);
    lemma_body(0x113, txn, attrs);
    lemma_message_fields(0x113, txn, attrs);
    lemma_last_of_three(attrs_of(attrs), 0);
    lemma_last_of_three(attrs_of(attrs), 4);
    lemma_last_of_three(attrs_of(attrs), 5);
    assert(attrs_of(attrs)[0].value == v);
    assert(attrs_of(attrs)[1].value == realm);
    assert(attrs_of(attrs)[2].value == nonce);
}

/// An error without realm and nonce is reported with its code and its reason.
pub proof fn lemma_error_reason(class: u8, number: u8, reason: Seq<u8>)
    requires
        0 < reason.len() < 1024,
    ensures
        error_reply(attr_wire(9, seq![0u8, 0u8, class, number] + reason)) == Err::<
            AllocateResultView,
            _,
        >(
            TurnErrorView::ErrorResponse {
                code: (class * 100 + number) as u16,
                reason: utf8_lossy(reason),
            },
        ),
{
    let v = seq![0u8, 0u8, class, number] + reason;
    let s = attr_wire(9, v);
    lemma_attr_round_trip(9, v, Seq::empty());
    assert(s + Seq::<u8>::empty() =~= s);
    assert(attrs_of(Seq::<u8>::empty()) =~= Seq::empty());
    let list = attrs_of(s);
    assert(list =~= seq![AttrView { kind: 9, value: v }]);
    assert(list.drop_last().len() == 0);
    assert(v.skip(4) =~= reason);
    reveal_with_fuel(super::wire::last_of, 2);
}

/// Replies that cannot be used: one that is too short, one to another transaction, one of another
/// type, and an allocation without a relayed address.
pub proof fn lemma_allocate_unusable(data: Seq<u8>, txn: Seq<u8>)
    requires
        txn.len() == 12,
    ensures
        data.len() < 20 ==> allocate_reply(data, txn) == Err::<AllocateResultView, _>(
            TurnErrorView::InvalidResponse("Message too short"@),
        ),
        data.len() >= 20 && data.subrange(8, 20) != txn ==> allocate_reply(data, txn) == Err::<
            AllocateResultView,
            _,
        >(TurnErrorView::InvalidResponse("Transaction ID mismatch"@)),
        data.len() >= 20 && data.subrange(8, 20) == txn && !(data[0] == 1 && (data[1] == 3
            || data[1] == 0x13)) ==> allocate_reply(data, txn) == Err::<AllocateResultView, _>(
            TurnErrorView::InvalidResponse(
                "Unexpected message type: 0x"@ + hex4((data[0] * 256 + data[1]) as u16),
            ),
        ),
        data.len() >= 20 && data.subrange(8, 20) == txn && data[0] == 1 && data[1] == 3 && data[2]
            == 0 && data[3] == 0 ==> allocate_reply(data, txn) == Err::<AllocateResultView, _>(
            TurnErrorView::NoRelayAddress,
        ),
{
    if data.len() >= 20 && data[2] == 0 && data[3] == 0 {
        assert(body(data).len() == 0);
        assert(attrs_of(body(data)).len() == 0);
    }
}

/// A Refresh response, type 0x0104, grants the lifetime that it carries, or 600 seconds where it
/// carries none. A CreatePermission response is of type 0x0108. Both are refused if too short or of
/// another type.
pub proof fn lemma_other_replies(txn: Seq<u8>, lifetime: u32, data: Seq<u8>)
    requires
        txn.len() == 12,
    ensures
        refresh_reply(message_wire(0x104, txn, attr_wire(0xD, be32(lifetime)))) == Ok::<
            _,
            TurnErrorView,
        >(lifetime),
        refresh_reply(message_wire(0x104, txn, Seq::empty())) == Ok::<_, TurnErrorView>(600u32),
        permission_reply(message_wire(0x108, txn, Seq::empty())) == Ok::<_, TurnErrorView>(()),
        data.len() < 20 ==> refresh_reply(data) == Err::<u32, _>(
            TurnErrorView::InvalidResponse("Message too short"@),
        ) && permission_reply(data) == Err::<(), _>(
            TurnErrorView::InvalidResponse("Message too short"@),
        ) && data_indication(data) == Err::<(SocketAddr, Seq<u8>), _>(
            TurnErrorView::InvalidResponse("Message too short"@),
        ),
        data.len() >= 20 && !(data[0] == 1 && data[1] == 4) ==> refresh_reply(data) == Err::<
            u32,
            _,
        >(
            TurnErrorView::InvalidResponse(
                "Unexpected message type: 0x"@ + hex4((data[0] * 256 + data[1]) as u16),
            ),
        ),
        data.len() >= 20 && !(data[0] == 1 && data[1] == 8) ==> permission_reply(data) == Err::<
            (),
            _,
        >(
            TurnErrorView::InvalidResponse(
                "Unexpected message type: 0x"@ + hex4((data[0] * 256 + data[1]) as u16),
            ),
        ),
        data.len() >= 20 && !(data[0] == 0 && data[1] == 0x17) ==> data_indication(data) == Err::<
            (SocketAddr, Seq<u8>),
            _,
        >(
            TurnErrorView::InvalidResponse(
                "Expected Data indication, got 0x"@ + hex4((data[0] * 256 + data[1]) as u16),
            ),
        ),
{
    let v = be32(lifetime);
    let s = attr_wire(0xD, v);
    lemma_attr_round_trip(0xD, v, Seq::empty());
    assert(s + Seq::<u8>::empty() =~= s);
    assert(attrs_of(Seq::<u8>::empty()) =~= Seq::empty());
    assert(attrs_of(s) =~= seq![AttrView { kind: 0xD, value: v }]);
    assert(v.subrange(0, 4) =~= v);
    lemma_be32_read(v, 0, lifetime);
    lemma_body(0x104, txn, s);
    lemma_message_fields(0x104, txn, s);
    let none = Seq::<u8>::empty();
    lemma_body(0x104, txn, none);
    lemma_message_fields(0x104, txn, none);
    lemma_body(0x108, txn, none);
    lemma_message_fields(0x108, txn, none);
    assert(lifetime_in(s) == lifetime);
}

/// Data that a peer sends comes under type 0x0017, its address in attribute 0x12 and the data in
/// 0x13.
pub proof fn lemma_relayed(txn: Seq<u8>, peer: SocketAddr, data: Seq<u8>)
    requires
        txn.len() == 12,
        data.len() < 65000,
    ensures
        data_indication(
            message_wire(
                0x17,
                txn,
                attr_wire(0x12, xor_address(peer, txn)) + attr_wire(0x13, data),
            ),
        ) == Ok::<_, TurnErrorView>((peer, data)),
{
    assert(xor_address(peer, txn).len() <= 20);
    super::turn::lemma_data_indication(txn, peer, data);
}

} // verus!
