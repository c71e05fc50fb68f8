//! Connectivity checks: the request, and what counts as its answer.

use super::agent::IceRole;
use super::stun::{BINDING_REQUEST, BINDING_RESPONSE};
use super::wire::{attr_len, attr_wire, message, put_attr, MAGIC_COOKIE};
use crate::buf::{
    be16, be32, buffer_as_slice, fits, freeze, frozen, new_buffer, put_slice, put_u16, put_u32,
    read_u16, read_u32, same_bytes, set_byte, u16_at, u32_at, written,
};
use bytes::{Bytes, BytesMut};
use hmac::{Hmac, Mac};
use sha1::Sha1;
use vstd::prelude::*;
use vstd::utf8::encode_utf8;

verus! {

broadcast use crate::buf::group_be_len;

pub const ATTR_USERNAME: u16 = 0x0006;

pub const ATTR_MESSAGE_INTEGRITY: u16 = 0x0008;

pub const ATTR_PRIORITY: u16 = 0x0024;

pub const ATTR_ICE_CONTROLLING: u16 = 0x802A;

pub const ATTR_ICE_CONTROLLED: u16 = 0x8029;

/// How often the answer to a check is waited for.
pub const CHECK_ATTEMPTS: u8 = 3;

/// The HMAC-SHA1 of `message` under `key`, as the `hmac` and `sha1` crates compute it.
pub uninterp spec fn hmac_sha1(key: Seq<u8>, message: Seq<u8>) -> Seq<u8>;

/// `Hmac::<Sha1>`: its `new_from_slice`, which accepts a key of any length, then `update` and
/// `finalize`. The result is named, not described; it has 20 bytes.
#[verifier::external_body]
fn compute_hmac_sha1(key: &[u8], message: &[u8]) -> (r: [u8; 20])
    ensures
        r@ == hmac_sha1(key@, message@),
{
    let mut mac = Hmac::<Sha1>::new_from_slice(key).expect("HMAC can take any key size");
    mac.update(message);
    mac.finalize().into_bytes().into()
}

/// The attribute that states a role.
pub open spec fn role_attr(role: IceRole) -> u16 {
    match role {
        IceRole::Controlling => ATTR_ICE_CONTROLLING,
        IceRole::Controlled => ATTR_ICE_CONTROLLED,
    }
}

/// The ICE username: the remote fragment, a colon, the local fragment.
pub open spec fn ice_username(remote_ufrag: Seq<char>, local_ufrag: Seq<char>) -> Seq<char> {
    remote_ufrag + seq![':'] + local_ufrag
}

/// The attributes of a check that come before its integrity.
pub open spec fn check_attrs(
    username: Seq<char>,
    priority: u32,
    role: IceRole,
    tie_breaker: Seq<u8>,
) -> Seq<u8> {
    attr_wire(ATTR_USERNAME, encode_utf8(username)) + attr_wire(ATTR_PRIORITY, be32(priority))
        + attr_wire(role_attr(role), tie_breaker)
}

/// The part of a check that its integrity covers: the length field counts the integrity
/// attribute already.
pub open spec fn covered(txn: Seq<u8>, attrs: Seq<u8>) -> Seq<u8> {
    be16(BINDING_REQUEST) + be16(((attrs.len() + 24) % 0x1_0000) as u16) + be32(MAGIC_COOKIE) + txn
        + attrs
}

/// A check with its MESSAGE-INTEGRITY under the password `pwd`.
pub open spec fn check_request(txn: Seq<u8>, attrs: Seq<u8>, pwd: Seq<char>) -> Seq<u8> {
    covered(txn, attrs) + be16(ATTR_MESSAGE_INTEGRITY) + be16(20) + hmac_sha1(
        encode_utf8(pwd),
        covered(txn, attrs),
    )
}

/// The attributes of a check that come before its integrity.
fn build_check_attrs(
    username: &str,
    priority: u32,
    role: IceRole,
    tie_breaker: &[u8; 8],
) -> (r: BytesMut)
    requires
        fits(attr_len(encode_utf8(username@).len()) + 20),
    ensures
        written(r) == check_attrs(username@, priority, role, tie_breaker@),
{
    let mut attrs: BytesMut = new_buffer(0);
    put_attr(&mut attrs, ATTR_USERNAME, username.as_bytes());
    let mut value: BytesMut = new_buffer(4);
    put_u32(&mut value, priority);
    assert(written(value) =~= be32(priority));
    put_attr(&mut attrs, ATTR_PRIORITY, buffer_as_slice(&value));
    let kind: u16 = match role {
        IceRole::Controlling => ATTR_ICE_CONTROLLING,
        IceRole::Controlled => ATTR_ICE_CONTROLLED,
    };
    put_attr(&mut attrs, kind, tie_breaker.as_slice());
    assert(written(attrs) =~= check_attrs(username@, priority, role, tie_breaker@));
    attrs
}

/// Builds a check: a binding request with USERNAME, PRIORITY, role and tie breaker, and
/// MESSAGE-INTEGRITY under the remote password (short-term credential).
pub fn build_check(
    txn: &[u8; 12],
    username: &str,
    priority: u32,
    role: IceRole,
    tie_breaker: &[u8; 8],
    remote_pwd: &str,
) -> (r: Bytes)
    requires
        fits(attr_len(encode_utf8(username@).len()) + 64),
    ensures
        frozen(r) == check_request(
            txn@,
            check_attrs(username@, priority, role, tie_breaker@),
            remote_pwd@,
        ),
{
    let attrs: BytesMut = build_check_attrs(username, priority, role, tie_breaker);
    let ghost a = written(attrs);
    let mut msg: BytesMut = message(BINDING_REQUEST, txn, &attrs);
    let total: usize = (buffer_as_slice(&attrs).len() + 24) % 0x1_0000;
    set_byte(&mut msg, 2, (total / 0x100) as u8);
    set_byte(&mut msg, 3, (total % 0x100) as u8);
    assert(written(msg) =~= covered(txn@, a)) by {
        reveal(be16);
    }
    let integrity: [u8; 20] = compute_hmac_sha1(remote_pwd.as_bytes(), buffer_as_slice(&msg));
    put_u16(&mut msg, ATTR_MESSAGE_INTEGRITY);
    put_u16(&mut msg, 20);
    put_slice(&mut msg, integrity.as_slice());
    freeze(msg)
}

/// Whether `data` answers the check `txn`: a binding response with its transaction ID.
pub open spec fn answers_check(data: Seq<u8>, txn: Seq<u8>) -> bool {
    &&& data.len() >= 20
    &&& u16_at(data, 0) == BINDING_RESPONSE
    &&& u32_at(data, 4) == MAGIC_COOKIE
    &&& data.subrange(8, 20) == txn
}

/// Tests whether `data` answers the check `txn`.
pub fn is_check_answer(data: &[u8], txn: &[u8; 12]) -> (r: bool)
    ensures
        r == answers_check(data@, txn@),
{
    data.len() >= 20 && read_u16(data, 0) == BINDING_RESPONSE && read_u32(data, 4) == MAGIC_COOKIE
        && same_bytes(&data[8..20], txn.as_slice())
}

/// What came of a check: of sending it at first, or of waiting for its answer.
pub enum CheckEvent<'a> {
    SendFailed,
    Received(&'a [u8]),
    ReceiveFailed,
    TimedOut,
}

/// How a check goes on.
#[derive(Debug, Clone, Copy, PartialEq, Eq, Structural)]
pub struct CheckProgress {
    /// Whether the request is sent once more.
    pub retransmit: bool,
    /// Whether the check is over, and how.
    pub outcome: Option<bool>,
}

/// How a check goes on after the wait `attempt`, counting from 0: an answer ends it with success,
/// anything else counts as an attempt, and a timeout has the request sent again. A check that
/// could not be sent has failed.
pub fn on_check_event(txn: &[u8; 12], attempt: u8, event: CheckEvent) -> (r: CheckProgress)
    requires
        attempt < CHECK_ATTEMPTS,
    ensures
        event matches CheckEvent::Received(data) && answers_check(data@, txn@) ==> r == (
        CheckProgress { retransmit: false, outcome: Some(true) }),
        event is SendFailed ==> r == (CheckProgress { retransmit: false, outcome: Some(false) }),
        !(event matches CheckEvent::Received(data) && answers_check(data@, txn@)) && !(
        event is SendFailed) ==> r == (CheckProgress {
            retransmit: event is TimedOut,
            outcome: if attempt + 1 < CHECK_ATTEMPTS {
                None
            } else {
                Some(false)
            },
        }),
{
    let retransmit: bool = match event {
        CheckEvent::Received(data) => {
            if is_check_answer(data, txn) {
                return CheckProgress { retransmit: false, outcome: Some(true) };
            }
            false
        },
        CheckEvent::SendFailed => {
            return CheckProgress { retransmit: false, outcome: Some(false) };
        },
        CheckEvent::ReceiveFailed => false,
        CheckEvent::TimedOut => true,
    };
    CheckProgress {
        retransmit,
        outcome: if attempt + 1 < CHECK_ATTEMPTS {
            None
        } else {
            Some(false)
        },
    }
}

} // verus!
