//! STUN binding requests (RFC 5389).

use super::wire::{message, message_wire, COOKIE_HIGH, MAGIC_COOKIE};
use crate::buf::{freeze, frozen, new_buffer, read_u16, read_u32, u16_at, u32_at};
use crate::net::{IpAddr, SocketAddr};
use bytes::{Bytes, BytesMut};
use vstd::prelude::*;

verus! {

pub const BINDING_REQUEST: u16 = 0x0001;

pub const BINDING_RESPONSE: u16 = 0x0101;

pub const XOR_MAPPED_ADDRESS: u16 = 0x0020;

/// STUN errors.
#[derive(Debug, Clone)]
pub enum StunError {
    /// The socket failed, in its own words.
    Io(String),
    /// No reply came in time.
    Timeout,
    /// The reply does not answer the request.
    InvalidResponse(String),
    /// The reply gives no IPv4 address.
    NoMappedAddress,
}

/// What a STUN error says.
pub enum StunErrorView {
    Io(Seq<char>),
    Timeout,
    InvalidResponse(Seq<char>),
    NoMappedAddress,
}

impl View for StunError {
    type V = StunErrorView;

    open spec fn view(&self) -> StunErrorView {
        match self {
            StunError::Io(e) => StunErrorView::Io(e@),
            StunError::Timeout => StunErrorView::Timeout,
            StunError::InvalidResponse(m) => StunErrorView::InvalidResponse(m@),
            StunError::NoMappedAddress => StunErrorView::NoMappedAddress,
        }
    }
}

impl StunErrorView {
    /// The error in words.
    pub open spec fn text(self) -> Seq<char> {
        match self {
            StunErrorView::Io(e) => "IO error: "@ + e,
            StunErrorView::Timeout => "Request timeout"@,
            StunErrorView::InvalidResponse(m) => "Invalid response: "@ + m,
            StunErrorView::NoMappedAddress => "No mapped address in response"@,
        }
    }
}

impl StunError {
    /// What the error says.
    pub fn describe(&self) -> (r: String)
        ensures
            r@ == self@.text(),
    {
        match self {
            StunError::Io(e) => crate::text::concat("IO error: ", e.as_str()),
            StunError::Timeout => "Request timeout".to_owned(),
            StunError::InvalidResponse(m) => crate::text::concat("Invalid response: ", m.as_str()),
            StunError::NoMappedAddress => "No mapped address in response".to_owned(),
        }
    }
}

/// A STUN server.
#[derive(Debug, Clone, Copy)]
pub struct StunServer {
    pub name: &'static str,
    pub addr: SocketAddr,
}

impl StunServer {
    /// Google's public STUN server.
    pub fn google() -> (r: Self)
        ensures
            r.name@ == "stun.l.google.com"@,
            r.addr == (SocketAddr { ip: IpAddr::V4(0x4A7D_FA81), port: 19302 }),
    {
        StunServer {
            name: "stun.l.google.com",
            addr: SocketAddr { ip: IpAddr::V4(0x4A7D_FA81), port: 19302 },
        }
    }
}

/// Builds a binding request.
pub fn build_binding_request(txn: &[u8; 12]) -> (r: Bytes)
    ensures
        frozen(r) == message_wire(BINDING_REQUEST, txn@, Seq::empty()),
{
    let attrs: BytesMut = new_buffer(0);
    freeze(message(BINDING_REQUEST, txn, &attrs))
}

/// The length of a value with its padding.
pub open spec fn padded(n: int) -> int {
    n + (4 - n % 4) % 4
}

/// What follows an attribute in a binding response: `skip` bytes of its value were read already,
/// and its padded length is left out besides.
pub open spec fn following(s: Seq<u8>, n: int, skip: int) -> Option<Seq<u8>> {
    if s.len() < 4 + skip + padded(n) {
        None
    } else {
        Some(s.skip(4 + skip + padded(n)))
    }
}

/// The address in the first XOR-MAPPED-ADDRESS attribute of the IPv4 family. Behind one of
/// another family, whose first four bytes were read, the padded length is left out from there.
pub open spec fn mapped_in(s: Seq<u8>) -> Option<SocketAddr>
    decreases s.len(),
{
    if s.len() < 4 {
        None
    } else {
        let n = u16_at(s, 2) as int;
        let is_address = u16_at(s, 0) == XOR_MAPPED_ADDRESS && n >= 8;
        if is_address && s[5] == 1 {
            Some(
                SocketAddr {
                    ip: IpAddr::V4(u32_at(s, 8) ^ MAGIC_COOKIE),
                    port: u16_at(s, 6) ^ COOKIE_HIGH,
                },
            )
        } else {
            match following(
                s,
                n,
                if is_address {
                    4
                } else {
                    0
                },
            ) {
                Some(rest) => mapped_in(rest),
                None => None,
            }
        }
    }
}

/// Whether every XOR-MAPPED-ADDRESS attribute that is come across has the bytes that are read.
pub open spec fn readable(s: Seq<u8>) -> bool
    decreases s.len(),
{
    if s.len() < 4 {
        true
    } else {
        let n = u16_at(s, 2) as int;
        let is_address = u16_at(s, 0) == XOR_MAPPED_ADDRESS && n >= 8;
        if is_address && s.len() < 8 {
            false
        } else if is_address && s[5] == 1 {
            s.len() >= 12
        } else {
            match following(
                s,
                n,
                if is_address {
                    4
                } else {
                    0
                },
            ) {
                Some(rest) => readable(rest),
                None => true,
            }
        }
    }
}

/// Whether the attributes of the binding response `data` are read.
pub open spec fn answers(data: Seq<u8>) -> bool {
    data.len() >= 20 && u16_at(data, 0) == BINDING_RESPONSE && u32_at(data, 4) == MAGIC_COOKIE
}

/// A binding response that holds all the bytes that it announces, where they are read.
pub open spec fn whole(data: Seq<u8>) -> bool {
    answers(data) ==> data.len() >= 20 + u16_at(data, 2) && readable(
        data.subrange(20, 20 + u16_at(data, 2)),
    )
}

/// The mapped address that the binding response `data` gives.
pub open spec fn binding_reply(data: Seq<u8>) -> Result<SocketAddr, StunErrorView> {
    if data.len() < 20 {
        Err(StunErrorView::InvalidResponse("Too short"@))
    } else if u16_at(data, 0) != BINDING_RESPONSE {
        Err(StunErrorView::InvalidResponse("Not a response"@))
    } else if u32_at(data, 4) != MAGIC_COOKIE {
        Err(StunErrorView::InvalidResponse("Bad cookie"@))
    } else {
        match mapped_in(data.subrange(20, 20 + u16_at(data, 2))) {
            Some(a) => Ok(a),
            None => Err(StunErrorView::NoMappedAddress),
        }
    }
}

/// Where the attributes behind the one at `pos` go on, as an offset, `skip` bytes of its value
/// having been read.
fn next_pos(attrs: &[u8], pos: usize, n: usize, skip: usize) -> (r: Option<usize>)
    requires
        pos + 4 + skip <= attrs@.len(),
        n < 0x1_0000,
        skip <= 4,
    ensures
        match r {
            Some(p) => pos < p <= attrs@.len() && following(
                attrs@.skip(pos as int),
                n as int,
                skip as int,
            ) == Some(attrs@.skip(p as int)),
            None => following(attrs@.skip(pos as int), n as int, skip as int) is None,
        },
{
    let whole: usize = n + (4 - n % 4) % 4;
    let left: usize = attrs.len() - pos - 4 - skip;
    if left >= whole {
        let p: usize = pos + 4 + skip + whole;
        assert(attrs@.skip(pos as int).skip(4 + skip + padded(n as int)) =~= attrs@.skip(p as int));
        Some(p)
    } else {
        None
    }
}

/// Tests whether a binding response holds all the bytes that it announces, where they are read.
pub fn is_whole(data: &[u8]) -> (r: bool)
    ensures
        r == whole(data@),
{
    if data.len() < 20 || read_u16(data, 0) != BINDING_RESPONSE || read_u32(data, 4)
        != MAGIC_COOKIE {
        return true;
    }
    let msg_len: usize = read_u16(data, 2) as usize;
    if data.len() - 20 < msg_len {
        return false;
    }
    let attrs: &[u8] = &data[20..20 + msg_len];
    let mut pos: usize = 0;
    assert(attrs@.skip(0) =~= attrs@);
    while attrs.len() - pos >= 4
        invariant
            pos <= attrs@.len(),
            whole(data@) == readable(attrs@),
            readable(attrs@) == readable(attrs@.skip(pos as int)),
        decreases attrs@.len() - pos,
    {
        let ghost s = attrs@.skip(pos as int);
        let kind: u16 = read_u16(attrs, pos);
        let n: usize = read_u16(attrs, pos + 2) as usize;
        assert(u16_at(s, 0) == kind && u16_at(s, 2) == n);
        let is_address: bool = kind == XOR_MAPPED_ADDRESS && n >= 8;
        if is_address {
            if attrs.len() - pos < 8 {
                return false;
            }
            if attrs[pos + 5] == 1 {
                return attrs.len() - pos >= 12;
            }
        }
        match next_pos(
            attrs,
            pos,
            n,
            if is_address {
                4
            } else {
                0
            },
        ) {
            Some(p) => {
                pos = p;
            },
            None => {
                return true;
            },
        }
    }
    true
}

/// Parses a binding response (the transaction ID is not compared).
pub fn parse_binding_response(data: &[u8]) -> (r: Result<SocketAddr, StunError>)
    requires
        whole(data@),
    ensures
        match r {
            Ok(a) => binding_reply(data@) == Ok::<_, StunErrorView>(a),
            Err(e) => binding_reply(data@) == Err::<SocketAddr, _>(e@),
        },
{
    if data.len() < 20 {
        return Err(StunError::InvalidResponse("Too short".to_owned()));
    }
    if read_u16(data, 0) != BINDING_RESPONSE {
        return Err(StunError::InvalidResponse("Not a response".to_owned()));
    }
    if read_u32(data, 4) != MAGIC_COOKIE {
        return Err(StunError::InvalidResponse("Bad cookie".to_owned()));
    }
    let msg_len: usize = read_u16(data, 2) as usize;
    let attrs: &[u8] = &data[20..20 + msg_len];
    let mut pos: usize = 0;
    assert(attrs@.skip(0) =~= attrs@);
    while attrs.len() - pos >= 4
        invariant
            pos <= attrs@.len(),
            readable(attrs@.skip(pos as int)),
            mapped_in(attrs@) == mapped_in(attrs@.skip(pos as int)),
            binding_reply(data@) == (match mapped_in(attrs@) {
                Some(a) => Ok(a),
                None => Err(StunErrorView::NoMappedAddress),
            }),
        decreases attrs@.len() - pos,
    {
        let ghost s = attrs@.skip(pos as int);
        let kind: u16 = read_u16(attrs, pos);
        let n: usize = read_u16(attrs, pos + 2) as usize;
        assert(u16_at(s, 0) == kind && u16_at(s, 2) == n);
        let is_address: bool = kind == XOR_MAPPED_ADDRESS && n >= 8;
        if is_address && attrs[pos + 5] == 1 {
            assert(u16_at(s, 6) == u16_at(attrs@, pos + 6));
            assert(u32_at(s, 8) == u32_at(attrs@, pos + 8));
            return Ok(
                SocketAddr {
                    ip: IpAddr::V4(read_u32(attrs, pos + 8) ^ MAGIC_COOKIE),
                    port: read_u16(attrs, pos + 6) ^ COOKIE_HIGH,
                },
            );
        }
        match next_pos(
            attrs,
            pos,
            n,
            if is_address {
                4
            } else {
                0
            },
        ) {
            Some(p) => {
                pos = p;
            },
            None => {
                return Err(StunError::NoMappedAddress);
            },
        }
    }
    Err(StunError::NoMappedAddress)
}

} // verus!
