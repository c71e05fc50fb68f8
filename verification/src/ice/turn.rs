//! TURN client (RFC 5766).
//!
//! Provides relay allocation for NAT traversal when STUN alone is insufficient.
//! TURN servers act as relay points for media traffic when peer-to-peer
//! connectivity cannot be established.

use super::wire::{
    address_of, attr_len, attr_wire, attributes, attrs_of, encode_xor_address, find_last, last_of,
    lemma_attr_round_trip, lemma_message_fields, lemma_xor_address_round_trip, message,
    message_wire, parse_xor_address, put_attr, xor_address, Attr, AttrView,
};
use crate::buf::{
    be32, fits, freeze, frozen, new_buffer, put_u32, read_u16, read_u32, same_bytes,
    u16_at, u32_at, written,
};
use crate::net::SocketAddr;
use crate::text::{
    concat, decimal, from_utf8_lossy, hex4, push_decimal, push_hex4, utf8_lossy,
};
use crate::util::random_bytes;
use bytes::{Bytes, BytesMut};
use vstd::prelude::*;
use vstd::utf8::encode_utf8;

verus! {

broadcast use crate::buf::group_be_len;

/// TURN message types (RFC 5766).
pub const ALLOCATE_REQUEST: u16 = 0x0003;

pub const ALLOCATE_RESPONSE: u16 = 0x0103;

pub const ALLOCATE_ERROR: u16 = 0x0113;

pub const REFRESH_REQUEST: u16 = 0x0004;

pub const REFRESH_RESPONSE: u16 = 0x0104;

pub const SEND_INDICATION: u16 = 0x0016;

pub const DATA_INDICATION: u16 = 0x0017;

pub const CREATE_PERMISSION_REQUEST: u16 = 0x0008;

pub const CREATE_PERMISSION_RESPONSE: u16 = 0x0108;

/// STUN/TURN attribute types.
pub const ATTR_XOR_MAPPED_ADDRESS: u16 = 0x0020;

pub const ATTR_XOR_RELAYED_ADDRESS: u16 = 0x0016;

pub const ATTR_XOR_PEER_ADDRESS: u16 = 0x0012;

pub const ATTR_LIFETIME: u16 = 0x000D;

pub const ATTR_DATA: u16 = 0x0013;

pub const ATTR_REQUESTED_TRANSPORT: u16 = 0x0019;

pub const ATTR_USERNAME: u16 = 0x0006;

pub const ATTR_REALM: u16 = 0x0014;

pub const ATTR_NONCE: u16 = 0x0015;

pub const ATTR_ERROR_CODE: u16 = 0x0009;

/// Transport protocol for TURN allocation.
pub const TRANSPORT_UDP: u8 = 17;

/// The lifetime of an allocation whose reply names none, in seconds.
pub const DEFAULT_LIFETIME: u32 = 600;

/// TURN errors.
#[derive(Debug, Clone)]
pub enum TurnError {
    /// The socket failed, in its own words.
    Io(String),
    /// No reply came in time.
    Timeout,
    /// The reply does not answer the request.
    InvalidResponse(String),
    /// The server refused.
    ErrorResponse { code: u16, reason: String },
    /// The server wants credentials.
    AuthRequired { realm: String, nonce: String },
    /// The reply grants no relay address.
    NoRelayAddress,
    /// There is no allocation to work on.
    NotAllocated,
}

/// What a TURN error says.
pub enum TurnErrorView {
    Io(Seq<char>),
    Timeout,
    InvalidResponse(Seq<char>),
    ErrorResponse { code: u16, reason: Seq<char> },
    AuthRequired { realm: Seq<char>, nonce: Seq<char> },
    NoRelayAddress,
    NotAllocated,
}

impl View for TurnError {
    type V = TurnErrorView;

    open spec fn view(&self) -> TurnErrorView {
        match self {
            TurnError::Io(e) => TurnErrorView::Io(e@),
            TurnError::Timeout => TurnErrorView::Timeout,
            TurnError::InvalidResponse(m) => TurnErrorView::InvalidResponse(m@),
            TurnError::ErrorResponse { code, reason } => TurnErrorView::ErrorResponse {
                code: *code,
                reason: reason@,
            },
            TurnError::AuthRequired { realm, nonce } => TurnErrorView::AuthRequired {
                realm: realm@,
                nonce: nonce@,
            },
            TurnError::NoRelayAddress => TurnErrorView::NoRelayAddress,
            TurnError::NotAllocated => TurnErrorView::NotAllocated,
        }
    }
}

impl TurnErrorView {
    /// The error in words.
    pub open spec fn text(self) -> Seq<char> {
        match self {
            TurnErrorView::Io(e) => "IO error: "@ + e,
            TurnErrorView::Timeout => "Request timeout"@,
            TurnErrorView::InvalidResponse(m) => "Invalid response: "@ + m,
            TurnErrorView::ErrorResponse { code, reason } => "TURN error: "@ + decimal(code as nat)
                + seq![' '] + reason,
            TurnErrorView::AuthRequired { .. } => "Authentication required"@,
            TurnErrorView::NoRelayAddress => "No relay address in response"@,
            TurnErrorView::NotAllocated => "Allocation not active"@,
        }
    }
}

impl TurnError {
    /// What the error says.
    pub fn describe(&self) -> (r: String)
        ensures
            r@ == self@.text(),
    {
        match self {
            TurnError::Io(e) => concat("IO error: ", e.as_str()),
            TurnError::Timeout => "Request timeout".to_owned(),
            TurnError::InvalidResponse(m) => concat("Invalid response: ", m.as_str()),
            TurnError::ErrorResponse { code, reason } => {
                let mut m: String = "TURN error: ".to_owned();
                push_decimal(&mut m, *code as u64);
                m.push(' ');
                m.append(reason.as_str());
                assert(m@ =~= "TURN error: "@ + decimal(*code as nat) + seq![' '] + reason@);
                m
            },
            TurnError::AuthRequired { .. } => "Authentication required".to_owned(),
            TurnError::NoRelayAddress => "No relay address in response".to_owned(),
            TurnError::NotAllocated => "Allocation not active".to_owned(),
        }
    }
}

/// TURN server configuration.
#[derive(Debug, Clone)]
pub struct TurnServer {
    /// Server address.
    pub addr: SocketAddr,
    /// Username for authentication.
    pub username: String,
    /// Password/credential for authentication.
    pub password: String,
    /// Realm (optional, will be discovered).
    pub realm: Option<String>,
}

impl TurnServer {
    /// Create a new TURN server configuration.
    pub fn new(addr: SocketAddr, username: &str, password: &str) -> (r: Self)
        ensures
            r.addr == addr,
            r.username@ == username@,
            r.password@ == password@,
            r.realm is None,
    {
        TurnServer {
            addr,
            username: username.to_owned(),
            password: password.to_owned(),
            realm: None,
        }
    }
}

/// TURN allocation state.
#[derive(Debug)]
pub struct TurnAllocation {
    /// Relayed address (the public relay address).
    pub relayed_addr: SocketAddr,
    /// Mapped address (our public address as seen by the server).
    pub mapped_addr: SocketAddr,
    /// Lifetime in seconds.
    pub lifetime: u32,
    /// Realm used for authentication.
    pub realm: String,
    /// Nonce used for authentication.
    pub nonce: String,
}

impl Clone for TurnAllocation {
    fn clone(&self) -> (r: Self)
        ensures
            r == *self,
    {
        TurnAllocation {
            relayed_addr: self.relayed_addr,
            mapped_addr: self.mapped_addr,
            lifetime: self.lifetime,
            realm: self.realm.clone(),
            nonce: self.nonce.clone(),
        }
    }
}

/// What an allocation says.
pub struct TurnAllocationView {
    pub relayed_addr: SocketAddr,
    pub mapped_addr: SocketAddr,
    pub lifetime: u32,
    pub realm: Seq<char>,
    pub nonce: Seq<char>,
}

impl View for TurnAllocation {
    type V = TurnAllocationView;

    open spec fn view(&self) -> TurnAllocationView {
        TurnAllocationView {
            relayed_addr: self.relayed_addr,
            mapped_addr: self.mapped_addr,
            lifetime: self.lifetime,
            realm: self.realm@,
            nonce: self.nonce@,
        }
    }
}

/// Authentication context.
pub struct AuthContext {
    pub username: String,
    pub realm: String,
    pub nonce: String,
}

/// What an authentication context says.
pub struct AuthView {
    pub username: Seq<char>,
    pub realm: Seq<char>,
    pub nonce: Seq<char>,
}

impl View for AuthContext {
    type V = AuthView;

    open spec fn view(&self) -> AuthView {
        AuthView { username: self.username@, realm: self.realm@, nonce: self.nonce@ }
    }
}

impl AuthView {
    /// USERNAME, REALM and NONCE as attributes.
    pub open spec fn wire(self) -> Seq<u8> {
        attr_wire(ATTR_USERNAME, encode_utf8(self.username)) + attr_wire(
            ATTR_REALM,
            encode_utf8(self.realm),
        ) + attr_wire(ATTR_NONCE, encode_utf8(self.nonce))
    }
}

/// Result of an Allocate request.
pub enum AllocateResult {
    Success(TurnAllocation),
    AuthRequired { realm: String, nonce: String },
}

/// What the result of an Allocate request says.
pub enum AllocateResultView {
    Success(TurnAllocationView),
    AuthRequired { realm: Seq<char>, nonce: Seq<char> },
}

impl View for AllocateResult {
    type V = AllocateResultView;

    open spec fn view(&self) -> AllocateResultView {
        match self {
            AllocateResult::Success(a) => AllocateResultView::Success(a@),
            AllocateResult::AuthRequired { realm, nonce } => AllocateResultView::AuthRequired {
                realm: realm@,
                nonce: nonce@,
            },
        }
    }
}

/// Generate a random transaction ID.
pub fn generate_transaction_id() -> (r: [u8; 12]) {
    random_bytes::<12>()
}

/// An Allocate request, with credentials or without.
pub open spec fn allocate_request(txn: Seq<u8>, auth: Option<AuthView>) -> Seq<u8> {
    let transport = attr_wire(ATTR_REQUESTED_TRANSPORT, seq![TRANSPORT_UDP, 0u8, 0u8, 0u8]);
    message_wire(
        ALLOCATE_REQUEST,
        txn,
        match auth {
            None => transport,
            Some(a) => transport + a.wire(),
        },
    )
}

/// A Refresh request.
pub open spec fn refresh_request(txn: Seq<u8>, lifetime: u32, auth: AuthView) -> Seq<u8> {
    message_wire(REFRESH_REQUEST, txn, attr_wire(ATTR_LIFETIME, be32(lifetime)) + auth.wire())
}

/// A CreatePermission request.
pub open spec fn permission_request(txn: Seq<u8>, peer: SocketAddr, auth: AuthView) -> Seq<u8> {
    message_wire(
        CREATE_PERMISSION_REQUEST,
        txn,
        attr_wire(ATTR_XOR_PEER_ADDRESS, xor_address(peer, txn)) + auth.wire(),
    )
}

/// A Send indication.
pub open spec fn send_indication(txn: Seq<u8>, peer: SocketAddr, data: Seq<u8>) -> Seq<u8> {
    message_wire(
        SEND_INDICATION,
        txn,
        attr_wire(ATTR_XOR_PEER_ADDRESS, xor_address(peer, txn)) + attr_wire(ATTR_DATA, data),
    )
}

/// Appends USERNAME, REALM and NONCE.
fn put_auth(buf: &mut BytesMut, auth: &AuthContext)
    requires
        fits(written(*old(buf)).len() + auth@.wire().len()),
    ensures
        written(*final(buf)) == written(*old(buf)) + auth@.wire(),
{
    put_attr(buf, ATTR_USERNAME, auth.username.as_str().as_bytes());
    put_attr(buf, ATTR_REALM, auth.realm.as_str().as_bytes());
    put_attr(buf, ATTR_NONCE, auth.nonce.as_str().as_bytes());
    assert(written(*buf) =~= written(*old(buf)) + auth@.wire());
}

/// Build an Allocate request.
pub fn build_allocate_request(txn: &[u8; 12], auth: Option<&AuthContext>) -> (r: Bytes)
    requires
        auth matches Some(a) ==> fits(28 + a@.wire().len()),
    ensures
        frozen(r) == allocate_request(
            txn@,
            match auth {
                Some(a) => Some(a@),
                None => None,
            },
        ),
{
    let mut attrs: BytesMut = new_buffer(8);
    let mut transport: Vec<u8> = Vec::new();
    transport.push(TRANSPORT_UDP);
    transport.push(0);
    transport.push(0);
    transport.push(0);
    assert(transport@ =~= seq![TRANSPORT_UDP, 0u8, 0u8, 0u8]);
    put_attr(&mut attrs, ATTR_REQUESTED_TRANSPORT, transport.as_slice());
    assert(written(attrs) =~= attr_wire(
        ATTR_REQUESTED_TRANSPORT,
        seq![TRANSPORT_UDP, 0u8, 0u8, 0u8],
    ));
    if let Some(a) = auth {
        put_auth(&mut attrs, a);
    }
    freeze(message(ALLOCATE_REQUEST, txn, &attrs))
}

/// Build a Refresh request.
pub fn build_refresh_request(txn: &[u8; 12], lifetime: u32, auth: &AuthContext) -> (r: Bytes)
    requires
        fits(28 + auth@.wire().len()),
    ensures
        frozen(r) == refresh_request(txn@, lifetime, auth@),
{
    let mut value: BytesMut = new_buffer(4);
    put_u32(&mut value, lifetime);
    assert(written(value) =~= be32(lifetime));
    let mut attrs: BytesMut = new_buffer(8);
    put_attr(&mut attrs, ATTR_LIFETIME, crate::buf::buffer_as_slice(&value));
    assert(written(attrs) =~= attr_wire(ATTR_LIFETIME, be32(lifetime)));
    put_auth(&mut attrs, auth);
    freeze(message(REFRESH_REQUEST, txn, &attrs))
}

/// Build a CreatePermission request.
pub fn build_permission_request(
    txn: &[u8; 12],
    peer_addr: SocketAddr,
    auth: &AuthContext,
) -> (r: Bytes)
    requires
        fits(44 + auth@.wire().len()),
    ensures
        frozen(r) == permission_request(txn@, peer_addr, auth@),
{
    let mut attrs: BytesMut = new_buffer(24);
    encode_xor_address(&mut attrs, ATTR_XOR_PEER_ADDRESS, peer_addr, txn);
    assert(written(attrs) =~= attr_wire(ATTR_XOR_PEER_ADDRESS, xor_address(peer_addr, txn@)));
    put_auth(&mut attrs, auth);
    freeze(message(CREATE_PERMISSION_REQUEST, txn, &attrs))
}

/// Build a Send indication.
pub fn build_send_indication(txn: &[u8; 12], peer_addr: SocketAddr, data: &[u8]) -> (r: Bytes)
    requires
        fits(52 + data@.len()),
    ensures
        frozen(r) == send_indication(txn@, peer_addr, data@),
{
    let mut attrs: BytesMut = new_buffer(24);
    encode_xor_address(&mut attrs, ATTR_XOR_PEER_ADDRESS, peer_addr, txn);
    assert(written(attrs) =~= attr_wire(ATTR_XOR_PEER_ADDRESS, xor_address(peer_addr, txn@)));
    put_attr(&mut attrs, ATTR_DATA, data);
    freeze(message(SEND_INDICATION, txn, &attrs))
}

/// Whether a message announces more attribute bytes than it has.
pub open spec fn cut_short(data: Seq<u8>) -> bool {
    data.len() >= 20 && data.len() < 20 + u16_at(data, 2)
}

/// Tests whether a message announces more attribute bytes than it has.
pub fn is_cut_short(data: &[u8]) -> (r: bool)
    ensures
        r == cut_short(data@),
{
    data.len() >= 20 && data.len() - 20 < read_u16(data, 2) as usize
}

/// The attributes of a message.
pub open spec fn body(data: Seq<u8>) -> Seq<u8> {
    data.subrange(20, 20 + u16_at(data, 2))
}

/// The refusal of a message of an unexpected type.
pub open spec fn unexpected(kind: u16) -> TurnErrorView {
    TurnErrorView::InvalidResponse("Unexpected message type: 0x"@ + hex4(kind))
}

fn unexpected_type(kind: u16) -> (r: TurnError)
    ensures
        r@ == unexpected(kind),
{
    let mut m: String = "Unexpected message type: 0x".to_owned();
    push_hex4(&mut m, kind);
    TurnError::InvalidResponse(m)
}

fn too_short() -> (r: TurnError)
    ensures
        r@ == TurnErrorView::InvalidResponse("Message too short"@),
{
    TurnError::InvalidResponse("Message too short".to_owned())
}

/// The address in the last attribute of type `kind`.
pub open spec fn address_in(attrs: Seq<u8>, kind: u16, txn: Seq<u8>) -> Option<SocketAddr> {
    match last_of(attrs_of(attrs), kind, 0) {
        Some(v) => address_of(v, txn),
        None => None,
    }
}

/// The lifetime in the last LIFETIME attribute that holds one.
pub open spec fn lifetime_in(attrs: Seq<u8>) -> u32 {
    match last_of(attrs_of(attrs), ATTR_LIFETIME, 4) {
        Some(v) => u32_at(v, 0),
        None => DEFAULT_LIFETIME,
    }
}

/// The text in the last attribute of type `kind`.
pub open spec fn text_in(attrs: Seq<u8>, kind: u16) -> Option<Seq<char>> {
    match last_of(attrs_of(attrs), kind, 0) {
        Some(v) => Some(utf8_lossy(v)),
        None => None,
    }
}

/// What an error reply with these attributes amounts to: a challenge if it is a 401 with realm
/// and nonce, else an error.
pub open spec fn error_reply(attrs: Seq<u8>) -> Result<AllocateResultView, TurnErrorView> {
    let list = attrs_of(attrs);
    let code: u16 = match last_of(list, ATTR_ERROR_CODE, 4) {
        Some(v) => (v[2] * 100 + v[3]) as u16,
        None => 0,
    };
    let reason = match last_of(list, ATTR_ERROR_CODE, 5) {
        Some(v) => utf8_lossy(v.skip(4)),
        None => Seq::empty(),
    };
    match (text_in(attrs, ATTR_REALM), text_in(attrs, ATTR_NONCE)) {
        (Some(realm), Some(nonce)) if code == 401 => Ok(
            AllocateResultView::AuthRequired { realm, nonce },
        ),
        _ => Err(TurnErrorView::ErrorResponse { code, reason }),
    }
}

/// What the reply `data` to the Allocate request `txn` amounts to.
pub open spec fn allocate_reply(data: Seq<u8>, txn: Seq<u8>) -> Result<
    AllocateResultView,
    TurnErrorView,
> {
    if data.len() < 20 {
        Err(TurnErrorView::InvalidResponse("Message too short"@))
    } else if data.subrange(8, 20) != txn {
        Err(TurnErrorView::InvalidResponse("Transaction ID mismatch"@))
    } else if u16_at(data, 0) == ALLOCATE_ERROR {
        error_reply(body(data))
    } else if u16_at(data, 0) != ALLOCATE_RESPONSE {
        Err(unexpected(u16_at(data, 0)))
    } else {
        match address_in(body(data), ATTR_XOR_RELAYED_ADDRESS, txn) {
            None => Err(TurnErrorView::NoRelayAddress),
            Some(relayed_addr) => Ok(
                AllocateResultView::Success(
                    TurnAllocationView {
                        relayed_addr,
                        mapped_addr: match address_in(body(data), ATTR_XOR_MAPPED_ADDRESS, txn) {
                            Some(a) => a,
                            None => SocketAddr::unspecified(),
                        },
                        lifetime: lifetime_in(body(data)),
                        realm: Seq::empty(),
                        nonce: Seq::empty(),
                    },
                ),
            ),
        }
    }
}

/// Whether the attributes of the reply `data` to the Allocate request `txn` are read.
pub open spec fn reads_allocate_body(data: Seq<u8>, txn: Seq<u8>) -> bool {
    &&& data.len() >= 20
    &&& data.subrange(8, 20) == txn
    &&& u16_at(data, 0) == ALLOCATE_ERROR || u16_at(data, 0) == ALLOCATE_RESPONSE
}

fn find_address(data: &[u8], list: &Vec<Attr>, kind: u16, txn: &[u8; 12]) -> (r: Option<
    SocketAddr,
>)
    requires
        super::wire::locates_all(list@, data@, attrs_of(data@)),
    ensures
        r == address_in(data@, kind, txn@),
{
    match find_last(data, list, kind, 0) {
        Some(v) => parse_xor_address(v, txn),
        None => None,
    }
}

fn find_lifetime(data: &[u8], list: &Vec<Attr>) -> (r: u32)
    requires
        super::wire::locates_all(list@, data@, attrs_of(data@)),
    ensures
        r == lifetime_in(data@),
{
    proof {
        lemma_last_of_len(attrs_of(data@), ATTR_LIFETIME, 4);
    }
    match find_last(data, list, ATTR_LIFETIME, 4) {
        Some(v) => read_u32(v, 0),
        None => DEFAULT_LIFETIME,
    }
}

fn find_text(data: &[u8], list: &Vec<Attr>, kind: u16) -> (r: Option<String>)
    requires
        super::wire::locates_all(list@, data@, attrs_of(data@)),
    ensures
        match r {
            Some(t) => text_in(data@, kind) == Some(t@),
            None => text_in(data@, kind) is None,
        },
{
    match find_last(data, list, kind, 0) {
        Some(v) => Some(from_utf8_lossy(v)),
        None => None,
    }
}

proof fn lemma_last_of_len(attrs: Seq<AttrView>, kind: u16, min: int)
    ensures
        last_of(attrs, kind, min) matches Some(v) ==> v.len() >= min,
    decreases attrs.len(),
{
    if attrs.len() > 0 {
        lemma_last_of_len(attrs.drop_last(), kind, min);
    }
}

/// Parse an error response.
pub fn parse_error_response(attrs: &[u8]) -> (r: Result<AllocateResult, TurnError>)
    ensures
        match r {
            Ok(a) => error_reply(attrs@) == Ok::<_, TurnErrorView>(a@),
            Err(e) => error_reply(attrs@) == Err::<AllocateResultView, _>(e@),
        },
{
    let list: Vec<Attr> = attributes(attrs);
    proof {
        lemma_last_of_len(attrs_of(attrs@), ATTR_ERROR_CODE, 4);
        lemma_last_of_len(attrs_of(attrs@), ATTR_ERROR_CODE, 5);
    }
    let code: u16 = match find_last(attrs, &list, ATTR_ERROR_CODE, 4) {
        Some(v) => v[2] as u16 * 100 + v[3] as u16,
        None => 0,
    };
    let reason: String = match find_last(attrs, &list, ATTR_ERROR_CODE, 5) {
        Some(v) => {
            assert(v@.skip(4) =~= v@.subrange(4, v@.len() as int));
            from_utf8_lossy(&v[4..v.len()])
        },
        None => String::new(),
    };
    let realm: Option<String> = find_text(attrs, &list, ATTR_REALM);
    let nonce: Option<String> = find_text(attrs, &list, ATTR_NONCE);
    if code == 401 {
        if let (Some(realm), Some(nonce)) = (realm, nonce) {
            return Ok(AllocateResult::AuthRequired { realm, nonce });
        }
    }
    Err(TurnError::ErrorResponse { code, reason })
}

/// Parse an Allocate response.
pub fn parse_allocate_response(data: &[u8], txn: &[u8; 12]) -> (r: Result<
    AllocateResult,
    TurnError,
>)
    requires
        reads_allocate_body(data@, txn@) ==> !cut_short(data@),
    ensures
        match r {
            Ok(a) => allocate_reply(data@, txn@) == Ok::<_, TurnErrorView>(a@),
            Err(e) => allocate_reply(data@, txn@) == Err::<AllocateResultView, _>(e@),
        },
{
    if data.len() < 20 {
        return Err(too_short());
    }
    let msg_type: u16 = read_u16(data, 0);
    let msg_len: usize = read_u16(data, 2) as usize;
    if !same_bytes(&data[8..20], txn.as_slice()) {
        return Err(TurnError::InvalidResponse("Transaction ID mismatch".to_owned()));
    }
    if msg_type == ALLOCATE_ERROR {
        return parse_error_response(&data[20..20 + msg_len]);
    }
    if msg_type != ALLOCATE_RESPONSE {
        return Err(unexpected_type(msg_type));
    }
    let attrs: &[u8] = &data[20..20 + msg_len];
    let list: Vec<Attr> = attributes(attrs);
    let relayed_addr: SocketAddr = match find_address(
        attrs,
        &list,
        ATTR_XOR_RELAYED_ADDRESS,
        txn,
    ) {
        Some(a) => a,
        None => return Err(TurnError::NoRelayAddress),
    };
    let mapped_addr: SocketAddr = match find_address(attrs, &list, ATTR_XOR_MAPPED_ADDRESS, txn) {
        Some(a) => a,
        None => SocketAddr { ip: crate::net::IpAddr::V4(0), port: 0 },
    };
    Ok(
        AllocateResult::Success(
            TurnAllocation {
                relayed_addr,
                mapped_addr,
                lifetime: find_lifetime(attrs, &list),
                realm: String::new(),
                nonce: String::new(),
            },
        ),
    )
}

/// What the reply `data` to a Refresh request amounts to: the granted lifetime.
pub open spec fn refresh_reply(data: Seq<u8>) -> Result<u32, TurnErrorView> {
    if data.len() < 20 {
        Err(TurnErrorView::InvalidResponse("Message too short"@))
    } else if u16_at(data, 0) != REFRESH_RESPONSE {
        Err(unexpected(u16_at(data, 0)))
    } else {
        Ok(lifetime_in(body(data)))
    }
}

/// Parse a Refresh response.
pub fn parse_refresh_response(data: &[u8]) -> (r: Result<u32, TurnError>)
    requires
        data@.len() >= 20 && u16_at(data@, 0) == REFRESH_RESPONSE ==> !cut_short(data@),
    ensures
        match r {
            Ok(n) => refresh_reply(data@) == Ok::<_, TurnErrorView>(n),
            Err(e) => refresh_reply(data@) == Err::<u32, _>(e@),
        },
{
    if data.len() < 20 {
        return Err(too_short());
    }
    let msg_type: u16 = read_u16(data, 0);
    let msg_len: usize = read_u16(data, 2) as usize;
    if msg_type != REFRESH_RESPONSE {
        return Err(unexpected_type(msg_type));
    }
    let attrs: &[u8] = &data[20..20 + msg_len];
    let list: Vec<Attr> = attributes(attrs);
    Ok(find_lifetime(attrs, &list))
}

/// What the reply `data` to a CreatePermission request amounts to.
pub open spec fn permission_reply(data: Seq<u8>) -> Result<(), TurnErrorView> {
    if data.len() < 20 {
        Err(TurnErrorView::InvalidResponse("Message too short"@))
    } else if u16_at(data, 0) != CREATE_PERMISSION_RESPONSE {
        Err(unexpected(u16_at(data, 0)))
    } else {
        Ok(())
    }
}

/// Parse a CreatePermission response.
pub fn parse_permission_response(data: &[u8]) -> (r: Result<(), TurnError>)
    ensures
        match r {
            Ok(n) => permission_reply(data@) == Ok::<_, TurnErrorView>(n),
            Err(e) => permission_reply(data@) == Err::<(), _>(e@),
        },
{
    if data.len() < 20 {
        return Err(too_short());
    }
    let msg_type: u16 = read_u16(data, 0);
    if msg_type != CREATE_PERMISSION_RESPONSE {
        return Err(unexpected_type(msg_type));
    }
    Ok(())
}

/// The peer and payload that the Data indication `data` relays.
pub open spec fn data_indication(data: Seq<u8>) -> Result<(SocketAddr, Seq<u8>), TurnErrorView> {
    if data.len() < 20 {
        Err(TurnErrorView::InvalidResponse("Message too short"@))
    } else if u16_at(data, 0) != DATA_INDICATION {
        Err(
            TurnErrorView::InvalidResponse(
                "Expected Data indication, got 0x"@ + hex4(u16_at(data, 0)),
            ),
        )
    } else {
        match (
            address_in(body(data), ATTR_XOR_PEER_ADDRESS, data.subrange(8, 20)),
            last_of(attrs_of(body(data)), ATTR_DATA, 0),
        ) {
            (Some(peer), Some(payload)) => Ok((peer, payload)),
            _ => Err(TurnErrorView::InvalidResponse("Missing peer address or data"@)),
        }
    }
}

/// The transaction ID of a message.
fn transaction_id_of(data: &[u8]) -> (r: [u8; 12])
    requires
        data@.len() >= 20,
    ensures
        r@ == data@.subrange(8, 20),
{
    let r: [u8; 12] = [
        data[8],
        data[9],
        data[10],
        data[11],
        data[12],
        data[13],
        data[14],
        data[15],
        data[16],
        data[17],
        data[18],
        data[19],
    ];
    assert(r@ =~= data@.subrange(8, 20));
    r
}

/// Parse a Data indication.
pub fn parse_data_indication(data: &[u8]) -> (r: Result<(SocketAddr, Vec<u8>), TurnError>)
    requires
        data@.len() >= 20 && u16_at(data@, 0) == DATA_INDICATION ==> !cut_short(data@),
    ensures
        match r {
            Ok((peer, payload)) => data_indication(data@) == Ok::<_, TurnErrorView>(
                (peer, payload@),
            ),
            Err(e) => data_indication(data@) == Err::<(SocketAddr, Seq<u8>), _>(e@),
        },
{
    if data.len() < 20 {
        return Err(too_short());
    }
    let msg_type: u16 = read_u16(data, 0);
    let msg_len: usize = read_u16(data, 2) as usize;
    if msg_type != DATA_INDICATION {
        let mut m: String = "Expected Data indication, got 0x".to_owned();
        push_hex4(&mut m, msg_type);
        return Err(TurnError::InvalidResponse(m));
    }
    let txn_id: [u8; 12] = transaction_id_of(data);
    let attrs: &[u8] = &data[20..20 + msg_len];
    let list: Vec<Attr> = attributes(attrs);
    let peer: Option<SocketAddr> = find_address(attrs, &list, ATTR_XOR_PEER_ADDRESS, &txn_id);
    match (peer, find_last(attrs, &list, ATTR_DATA, 0)) {
        (Some(peer), Some(payload)) => Ok((peer, vstd::slice::slice_to_vec(payload))),
        _ => Err(TurnError::InvalidResponse("Missing peer address or data".to_owned())),
    }
}

/// Two attributes of different types, one behind the other, are both found.
proof fn lemma_two_attrs(k1: u16, v1: Seq<u8>, k2: u16, v2: Seq<u8>)
    requires
        k1 != k2,
        v1.len() < 0x1_0000,
        v2.len() < 0x1_0000,
    ensures
        last_of(attrs_of(attr_wire(k1, v1) + attr_wire(k2, v2)), k1, 0) == Some(v1),
        last_of(attrs_of(attr_wire(k1, v1) + attr_wire(k2, v2)), k2, 0) == Some(v2),
        (attr_wire(k1, v1) + attr_wire(k2, v2)).len() == attr_len(v1.len()) + attr_len(v2.len()),
{
    let second = attr_wire(k2, v2);
    lemma_attr_round_trip(k1, v1, second);
    lemma_attr_round_trip(k2, v2, Seq::empty());
    assert(second + Seq::<u8>::empty() =~= second);
    let a = AttrView { kind: k1, value: v1 };
    let d = AttrView { kind: k2, value: v2 };
    let list = attrs_of(attr_wire(k1, v1) + second);
    assert(attrs_of(Seq::<u8>::empty()) =~= Seq::empty());
    assert(list =~= seq![a, d]);
    assert(list.drop_last() =~= seq![a]);
    assert(seq![a].last() == a);
    assert(last_of(seq![a], k1, 0) == Some(v1));
}

/// A Data indication that relays `data` from `peer` is read as just that, whichever of the two
/// comes first in it, as long as its length field can count them.
pub proof fn lemma_data_indication(txn: Seq<u8>, peer: SocketAddr, data: Seq<u8>)
    requires
        txn.len() == 12,
        attr_len(xor_address(peer, txn).len()) + attr_len(data.len()) < 0x1_0000,
    ensures
        ({
            let from = attr_wire(ATTR_XOR_PEER_ADDRESS, xor_address(peer, txn));
            let relayed = attr_wire(ATTR_DATA, data);
            let m = message_wire(DATA_INDICATION, txn, from + relayed);
            let n = message_wire(DATA_INDICATION, txn, relayed + from);
            &&& data_indication(m) == Ok::<_, TurnErrorView>((peer, data))
            &&& data_indication(n) == Ok::<_, TurnErrorView>((peer, data))
            &&& !cut_short(m)
            &&& !cut_short(n)
        }),
{
    let address = xor_address(peer, txn);
    let from = attr_wire(ATTR_XOR_PEER_ADDRESS, address);
    let relayed = attr_wire(ATTR_DATA, data);
    assert(address.len() <= 20);
    lemma_two_attrs(ATTR_XOR_PEER_ADDRESS, address, ATTR_DATA, data);
    lemma_two_attrs(ATTR_DATA, data, ATTR_XOR_PEER_ADDRESS, address);
    lemma_xor_address_round_trip(peer, txn);
    lemma_whole_body(DATA_INDICATION, txn, from + relayed);
    lemma_whole_body(DATA_INDICATION, txn, relayed + from);
}

/// The attributes of a message that was built are read whole.
proof fn lemma_whole_body(kind: u16, txn: Seq<u8>, attrs: Seq<u8>)
    requires
        txn.len() == 12,
        attrs.len() < 0x1_0000,
    ensures
        message_wire(kind, txn, attrs).len() >= 20,
        u16_at(message_wire(kind, txn, attrs), 0) == kind,
        message_wire(kind, txn, attrs).subrange(8, 20) == txn,
        body(message_wire(kind, txn, attrs)) == attrs,
        !cut_short(message_wire(kind, txn, attrs)),
{
    let w = message_wire(kind, txn, attrs);
    lemma_message_fields(kind, txn, attrs);
    assert(body(w) =~= w.skip(20));
}

} // verus!
