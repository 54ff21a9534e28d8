//! What the game server does with each datagram it receives.
use bytes::BytesMut;
use std::path::PathBuf;
use vstd::prelude::*;
use vstd::utf8::{decode_utf8, valid_utf8};
use crate::buffer::{buf_view, be16, le16, be32, signed32, buf_len, buf_get_u8, buf_get_u16,
    buf_get_u16_le, buf_get_i32, buf_put_slice, buf_put_u8};
use crate::coord::Coord;
use crate::global_state::{global, add_session_spec};
use crate::message::{Message, MessageAddr, MessageType, PeerAddr, message_type_of, ser_spec,
    carries_payload};
use crate::msg_util::{get_next_string_utf8, get_next_32_bytes, nul_field, after_nul_field,
    law_nul_field_roundtrip};
use crate::session::{Session, SessionError, SessionView, session_error_code, new_session_view,
    coord_pairs};

verus! {

/// Command-line options of the game server.
pub struct Options {
    /// Address to bind.
    pub addr: String,
    /// Certificate file.
    pub cert: PathBuf,
    /// Private key file.
    pub key: PathBuf,
    /// Echo mode.
    pub echo_mode: bool,
}

/// The header of a reliable message.
#[derive(Debug, PartialEq, Eq, Structural, Clone, Copy)]
pub struct Relative {
    pub seq: u16,
    pub msg_type: u8,
}

/// A client's request to open a session.
#[derive(Debug)]
pub struct SessionReq {
    pub seq: u16,
    pub protocol: String,
    pub pver: u16,
    pub username: String,
    pub cookie_len: u16,
    pub cookie: [u8; 32],
}

/// An acknowledgement of object data.
#[derive(Debug, PartialEq, Eq, Structural, Clone, Copy)]
pub struct ObjAck {
    pub id: u64,
    pub frame: i32,
    pub received: u64,
    pub sent: u64,
}

/// Why a session request is not acted on.
#[derive(Debug, PartialEq, Eq, Structural, Clone, Copy)]
pub enum SessionParseError {
    /// Too short to hold a sequence number, or a string is not UTF-8: dropped silently.
    Ignored,
    /// A field past the strings runs beyond the end of the request. Such a request is
    /// outside what the session handlers accept.
    Truncated,
}

/// What a session request holds after the sequence number and the protocol name.
pub open spec fn sess_after_protocol(s: Seq<u8>) -> Seq<u8> {
    after_nul_field(s.skip(2))
}

/// What a session request holds after the protocol version.
pub open spec fn sess_after_pver(s: Seq<u8>) -> Seq<u8> {
    sess_after_protocol(s).skip(2)
}

/// What a session request holds after the user name.
pub open spec fn sess_after_username(s: Seq<u8>) -> Seq<u8> {
    after_nul_field(sess_after_pver(s))
}

/// What a session request holds after the cookie length.
pub open spec fn sess_after_cookie_len(s: Seq<u8>) -> Seq<u8> {
    sess_after_username(s).skip(2)
}

/// Why the session request `s` is not acted on, or `None` when it is read whole:
/// a little-endian sequence number, a NUL-terminated protocol name, a little-endian
/// protocol version, a NUL-terminated user name, a little-endian cookie length and a
/// 32-byte cookie.
pub open spec fn session_parse_fault(s: Seq<u8>) -> Option<SessionParseError> {
    if s.len() < 3 {
        Some(SessionParseError::Ignored)
    } else if !valid_utf8(nul_field(s.skip(2))) {
        Some(SessionParseError::Ignored)
    } else if sess_after_protocol(s).len() < 2 {
        Some(SessionParseError::Truncated)
    } else if !valid_utf8(nul_field(sess_after_pver(s))) {
        Some(SessionParseError::Ignored)
    } else if sess_after_username(s).len() < 2 {
        Some(SessionParseError::Truncated)
    } else if sess_after_cookie_len(s).len() < 32 {
        Some(SessionParseError::Truncated)
    } else {
        None
    }
}

/// `req` holds the fields of the session request `s`.
pub open spec fn session_req_of(req: SessionReq, s: Seq<u8>) -> bool {
    &&& req.seq == le16(s)
    &&& req.protocol@ == decode_utf8(nul_field(s.skip(2)))
    &&& req.pver == le16(sess_after_protocol(s))
    &&& req.username@ == decode_utf8(nul_field(sess_after_pver(s)))
    &&& req.cookie_len == le16(sess_after_username(s))
    &&& req.cookie@ == sess_after_cookie_len(s).take(32)
}

/// The user name that the session request `s` asks for.
pub open spec fn session_username(s: Seq<u8>) -> Seq<char> {
    decode_utf8(nul_field(sess_after_pver(s)))
}

/// True when the session request `s` is cut short in a field after its strings.
pub open spec fn session_request_cut(s: Seq<u8>) -> bool {
    session_parse_fault(s) == Some(SessionParseError::Truncated)
}

/// The one-byte answer to a session request from `addr` when `users` are the open sessions.
pub open spec fn session_reply_bytes(users: Map<PeerAddr, SessionView>, addr: PeerAddr) -> Seq<u8> {
    if users.dom().contains(addr) {
        seq![session_error_code(SessionError::Busy)]
    } else {
        seq![session_error_code(SessionError::Success)]
    }
}

/// What handling the session request `s` from `addr` does when `table` holds the open
/// sessions: a request read whole is answered with `reply` and opens a fresh session for
/// the requested user at `addr` (last heard from at some time), unless one is open there;
/// a dropped request gets no answer and changes nothing.
pub open spec fn session_step(
    table: Map<PeerAddr, SessionView>,
    addr: PeerAddr,
    s: Seq<u8>,
    reply: Option<Seq<u8>>,
    after: Map<PeerAddr, SessionView>,
) -> bool {
    if session_parse_fault(s) is None {
        &&& reply == Some(session_reply_bytes(table, addr))
        &&& after == add_session_spec(
            table,
            addr,
            new_session_view(session_username(s), addr, after[addr].3),
        ).1
    } else {
        reply is None && after == table
    }
}

/// The payload of the answer to a session request, if there is one.
pub open spec fn reply_payload(r: Option<MessageAddr>) -> Option<Seq<u8>> {
    match r {
        Some(m) => Some(buf_view(m.msg.msg_data)),
        None => None,
    }
}

/// Reads a session request off the front of `data`, telling the two ways it can fail apart.
fn read_session_req(data: &mut BytesMut) -> (r: Result<SessionReq, SessionParseError>)
    ensures
        r is Ok <==> session_parse_fault(buf_view(*old(data))) is None,
        r matches Err(e) ==> session_parse_fault(buf_view(*old(data))) == Some(e),
        r matches Ok(req) ==> session_req_of(req, buf_view(*old(data))),
{
    let ghost s = buf_view(*data);
    if buf_len(data) < 3 {
        return Err(SessionParseError::Ignored);
    }
    let seq = buf_get_u16_le(data);
    let protocol = match get_next_string_utf8(data) {
        Ok(p) => p,
        Err(_) => {
            return Err(SessionParseError::Ignored);
        },
    };
    if buf_len(data) < 2 {
        return Err(SessionParseError::Truncated);
    }
    let pver = buf_get_u16_le(data);
    let username = match get_next_string_utf8(data) {
        Ok(u) => u,
        Err(_) => {
            return Err(SessionParseError::Ignored);
        },
    };
    if buf_len(data) < 2 {
        return Err(SessionParseError::Truncated);
    }
    let cookie_len = buf_get_u16_le(data);
    let cookie = match get_next_32_bytes(data) {
        Ok(c) => c,
        Err(_) => {
            return Err(SessionParseError::Truncated);
        },
    };
    Ok(SessionReq { seq, protocol, pver, username, cookie_len, cookie })
}

/// Reads a session request off the front of `data`; `None` when it is dropped. The request
/// must not be cut short after its strings.
pub fn parse_session_req(data: &mut BytesMut) -> (r: Option<SessionReq>)
    requires
        !session_request_cut(buf_view(*old(data))),
    ensures
        r is Some <==> session_parse_fault(buf_view(*old(data))) is None,
        r matches Some(req) ==> session_req_of(req, buf_view(*old(data))),
{
    match read_session_req(data) {
        Ok(req) => Some(req),
        Err(_) => None,
    }
}

/// Handles a session request: opens a session for the sender under the requested user
/// name and gives back the answer to send, which holds the outcome's code. A dropped
/// request gives `None` and leaves the sessions as they were. The request must not be cut
/// short after its strings.
pub fn parse_session(msg_addr: MessageAddr, global: &mut global) -> (r: Option<MessageAddr>)
    requires
        !session_request_cut(buf_view(msg_addr.msg.msg_data)),
    ensures
        session_step(
            old(global).table(),
            msg_addr.socket_addr,
            buf_view(msg_addr.msg.msg_data),
            reply_payload(r),
            final(global).table(),
        ),
        r matches Some(reply) ==> reply.socket_addr == msg_addr.socket_addr && reply.msg.msg_type
            == MessageType::Session,
{
    let mut msg_addr = msg_addr;
    let req = match parse_session_req(&mut msg_addr.msg.msg_data) {
        Some(req) => req,
        None => {
            return None;
        },
    };
    let session = Session::new(req.username.clone(), msg_addr.socket_addr);
    assert(coord_pairs(session.map_requests()) =~= Seq::<(i32, i32)>::empty());
    let res = global.add_session(msg_addr.socket_addr, session);
    let mut rep = Message::new(MessageType::Session);
    buf_put_u8(&mut rep.msg_data, res.as_u8());
    assert(buf_view(rep.msg_data) =~= session_reply_bytes(old(global).table(), msg_addr.socket_addr));
    Some(MessageAddr::new(msg_addr.socket_addr, rep))
}

/// Reads the header of a reliable message: a big-endian sequence number and the type of
/// what follows, which must not be empty.
pub fn parse_reliable(msg: MessageAddr) -> (r: Option<Relative>)
    ensures
        r is Some <==> buf_view(msg.msg.msg_data).len() >= 4,
        r matches Some(rel) ==> rel.seq == be16(buf_view(msg.msg.msg_data)) && rel.msg_type
            == buf_view(msg.msg.msg_data)[2],
{
    let mut msg = msg;
    if buf_len(&msg.msg.msg_data) < 3 {
        return None;
    }
    let seq = buf_get_u16(&mut msg.msg.msg_data);
    if buf_len(&msg.msg.msg_data) < 2 {
        return None;
    }
    let msg_type = buf_get_u8(&mut msg.msg.msg_data);
    if buf_len(&msg.msg.msg_data) < 1 {
        return None;
    }
    Some(Relative { seq, msg_type })
}

/// Acknowledgements carry nothing the server acts on yet.
pub fn parse_ack(msg: MessageAddr) {
}

/// Hands a heartbeat to the sender's session.
pub fn parse_beat(msg: MessageAddr, global: &global) {
    global.receive_msg(msg)
}

/// Reads a map request: two big-endian `i32`s, the coordinates asked for.
pub fn parse_map_req(msg: MessageAddr) -> (r: Option<Coord>)
    ensures
        r is Some <==> buf_view(msg.msg.msg_data).len() >= 8,
        r matches Some(c) ==> c.x == signed32(be32(buf_view(msg.msg.msg_data))) && c.y
            == signed32(be32(buf_view(msg.msg.msg_data).skip(4))),
{
    let mut msg = msg;
    if buf_len(&msg.msg.msg_data) < 8 {
        return None;
    }
    let x = buf_get_i32(&mut msg.msg.msg_data);
    let y = buf_get_i32(&mut msg.msg.msg_data);
    Some(Coord::new(x, y))
}

/// Object acknowledgements carry nothing the server acts on yet.
pub fn parse_obj_ack(msg: MessageAddr) {
}

/// Closing a session on the client's request does nothing yet.
pub fn close_sess(addr: PeerAddr) {
}

/// What the server does with a datagram.
#[derive(Debug)]
pub enum ProcessOutcome {
    /// Nothing to send.
    Ignored,
    /// Send this answer.
    Reply(MessageAddr),
}

/// The payload of the answer to a datagram, if there is one.
pub open spec fn outcome_payload(r: ProcessOutcome) -> Option<Seq<u8>> {
    match r {
        ProcessOutcome::Reply(m) => Some(buf_view(m.msg.msg_data)),
        ProcessOutcome::Ignored => None,
    }
}

/// What handling the datagram `buf` from `src` does when `table` holds the open sessions:
/// a session request is handled as `session_step` on the bytes after its type byte; every
/// other datagram gets no answer and changes nothing.
pub open spec fn process_step(
    table: Map<PeerAddr, SessionView>,
    src: PeerAddr,
    buf: Seq<u8>,
    reply: Option<Seq<u8>>,
    after: Map<PeerAddr, SessionView>,
) -> bool {
    if buf.len() > 0 && message_type_of(buf[0]) == MessageType::Session {
        session_step(table, src, buf.skip(1), reply, after)
    } else {
        reply is None && after == table
    }
}

/// True when `buf` is a session request cut short after its strings.
pub open spec fn datagram_cut(buf: Seq<u8>) -> bool {
    buf.len() > 0 && message_type_of(buf[0]) == MessageType::Session && session_request_cut(
        buf.skip(1),
    )
}

/// The message a non-empty datagram carries: the kind its first byte announces and the
/// bytes after it.
pub fn message_from_datagram(buf: &[u8]) -> (m: Message)
    requires
        buf@.len() >= 1,
        buf@.len() <= isize::MAX,
    ensures
        m.msg_type == message_type_of(buf@[0]),
        buf_view(m.msg_data) == buf@.skip(1),
{
    let msg_type = MessageType::from_u8(buf[0]);
    let mut msg = Message::new(msg_type);
    let rest = &buf[1..buf.len()];
    buf_put_slice(&mut msg.msg_data, rest);
    msg
}

/// Whether `buf` is a session request cut short after its strings, which `process` does
/// not accept.
pub fn datagram_is_cut(buf: &[u8]) -> (r: bool)
    requires
        buf@.len() <= isize::MAX,
    ensures
        r == datagram_cut(buf@),
{
    if buf.len() < 1 {
        return false;
    }
    let mut msg = message_from_datagram(buf);
    match msg.msg_type {
        MessageType::Session => {
            match read_session_req(&mut msg.msg_data) {
                Err(SessionParseError::Truncated) => true,
                _ => false,
            }
        },
        _ => false,
    }
}

/// Handles one datagram from `src`: a session request opens a session and is answered;
/// every other kind is read and acted on without an answer, and leaves the sessions as
/// they were. A session request cut short after its strings is not accepted.
pub fn process(buf: &[u8], src: PeerAddr, global: &mut global) -> (r: ProcessOutcome)
    requires
        buf@.len() <= isize::MAX,
        !datagram_cut(buf@),
    ensures
        process_step(old(global).table(), src, buf@, outcome_payload(r), final(global).table()),
        r matches ProcessOutcome::Reply(reply) ==> reply.socket_addr == src && reply.msg.msg_type
            == MessageType::Session,
{
    if buf.len() < 1 {
        return ProcessOutcome::Ignored;
    }
    let msg = message_from_datagram(buf);
    let msg_addr = MessageAddr::new(src, msg);
    match msg_addr.msg.msg_type {
        MessageType::Session => {
            match parse_session(msg_addr, global) {
                Some(reply) => ProcessOutcome::Reply(reply),
                None => ProcessOutcome::Ignored,
            }
        },
        MessageType::Reliable => {
            parse_reliable(msg_addr);
            ProcessOutcome::Ignored
        },
        MessageType::Ack => {
            parse_ack(msg_addr);
            ProcessOutcome::Ignored
        },
        MessageType::Beat => {
            parse_beat(msg_addr, global);
            ProcessOutcome::Ignored
        },
        MessageType::MapRequest => {
            parse_map_req(msg_addr);
            ProcessOutcome::Ignored
        },
        MessageType::ObjectAck => {
            parse_obj_ack(msg_addr);
            ProcessOutcome::Ignored
        },
        MessageType::Close => {
            close_sess(msg_addr.socket_addr);
            ProcessOutcome::Ignored
        },
        _ => ProcessOutcome::Ignored,
    }
}

/// A message that goes out with its payload comes back, when received as a datagram, as
/// the same kind with the same payload.
pub proof fn law_datagram_roundtrip(t: MessageType, data: Seq<u8>)
    requires
        carries_payload(t),
    ensures
        ser_spec(t, data).len() >= 1,
        message_type_of(ser_spec(t, data)[0]) == t,
        ser_spec(t, data).skip(1) == data,
{
    assert(ser_spec(t, data).skip(1) =~= data);
}

/// A session request written field by field (a two-byte sequence number, the protocol
/// name and a NUL, a two-byte protocol version, the user name and a NUL, a two-byte cookie
/// length and a 32-byte cookie, then anything) is read whole, whatever the names hold
/// besides NUL bytes. Handled from an address with no open session, it opens there a
/// session for the user named in the second string, the one after the protocol name and
/// its version, and is answered with the single byte 0, the success code; no other session changes.
pub proof fn law_session_opens_for_requested_user(
    table: Map<PeerAddr, SessionView>,
    addr: PeerAddr,
    seqno: Seq<u8>,
    protocol: Seq<u8>,
    pver: Seq<u8>,
    user: Seq<u8>,
    cookie_len: Seq<u8>,
    cookie: Seq<u8>,
    rest: Seq<u8>,
    reply: Option<Seq<u8>>,
    after: Map<PeerAddr, SessionView>,
)
    requires
        seqno.len() == 2,
        pver.len() == 2,
        cookie_len.len() == 2,
        cookie.len() == 32,
        forall|i: int| 0 <= i < protocol.len() ==> protocol[i] != 0,
        forall|i: int| 0 <= i < user.len() ==> user[i] != 0,
        valid_utf8(protocol),
        valid_utf8(user),
        !table.dom().contains(addr),
        session_step(
            table,
            addr,
            seqno + protocol + seq![0u8] + pver + user + seq![0u8] + cookie_len + cookie + rest,
            reply,
            after,
        ),
    ensures
        session_parse_fault(
            seqno + protocol + seq![0u8] + pver + user + seq![0u8] + cookie_len + cookie + rest,
        ) is None,
        after.dom() == table.dom().insert(addr),
        after[addr].0 == decode_utf8(user),
        after[addr].1 == addr,
        after[addr].2 == Seq::<(i32, i32)>::empty(),
        forall|a: PeerAddr| a != addr && table.dom().contains(a) ==> after[a] == table[a],
        reply == Some(seq![0u8]),
{
    let w = seqno + protocol + seq![0u8] + pver + user + seq![0u8] + cookie_len + cookie + rest;
    let y = cookie_len + cookie + rest;
    let x = pver + user + seq![0u8] + y;
    assert(w.skip(2) =~= protocol + seq![0u8] + x);
    law_nul_field_roundtrip(protocol, x);
    assert(sess_after_protocol(w) == x);
    assert(x.skip(2) =~= user + seq![0u8] + y);
    law_nul_field_roundtrip(user, y);
    assert(sess_after_pver(w) == user + seq![0u8] + y);
    assert(sess_after_username(w) == y);
    assert(y.skip(2) =~= cookie + rest);
    assert(session_parse_fault(w) is None);
    assert(after.dom() =~= table.dom().insert(addr));
}

/// A session datagram that is not cut short has exactly the effect of `parse_session` on
/// the bytes after its type byte: the same answer and the same sessions afterwards.
pub proof fn law_process_is_parse_session(
    table: Map<PeerAddr, SessionView>,
    src: PeerAddr,
    buf: Seq<u8>,
    reply: Option<Seq<u8>>,
    after: Map<PeerAddr, SessionView>,
)
    requires
        buf.len() > 0,
        message_type_of(buf[0]) == MessageType::Session,
        !datagram_cut(buf),
    ensures
        process_step(table, src, buf, reply, after) == session_step(
            table,
            src,
            buf.skip(1),
            reply,
            after,
        ),
{
}

} // verus!
