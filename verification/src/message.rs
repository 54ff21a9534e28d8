//! Datagram messages of the game protocol.
use bytes::BytesMut;
use vstd::prelude::*;
use crate::buffer::{buf_view, buf_new, buf_as_slice, buf_put};

verus! {

pub const MSG_SESS: u8 = 0;
pub const MSG_REL: u8 = 1;
pub const MSG_ACK: u8 = 2;
pub const MSG_BEAT: u8 = 3;
pub const MSG_MAPREQ: u8 = 4;
pub const MSG_MAPDATA: u8 = 5;
pub const MSG_OBJDATA: u8 = 6;
pub const MSG_OBJACK: u8 = 7;
pub const MSG_CLOSE: u8 = 8;

/// A peer's socket address as plain values: address family (4 or 6), address bits,
/// port, IPv6 flow information and IPv6 scope id (the last two are 0 for IPv4).
/// Two addresses are the same peer exactly when the tuples are equal.
pub type PeerAddr = (u8, u128, u16, u32, u32);

/// The kind of a datagram, given by its first byte.
#[derive(PartialEq, Eq, Debug, Clone, Copy, Structural)]
pub enum MessageType {
    Session,
    Reliable,
    Ack,
    Beat,
    MapRequest,
    MapData,
    ObjectData,
    ObjectAck,
    Close,
    Error,
}

/// The kind that a type byte announces; unknown bytes are `Error`.
pub open spec fn message_type_of(val: u8) -> MessageType {
    if val == MSG_SESS {
        MessageType::Session
    } else if val == MSG_REL {
        MessageType::Reliable
    } else if val == MSG_ACK {
        MessageType::Ack
    } else if val == MSG_BEAT {
        MessageType::Beat
    } else if val == MSG_MAPREQ {
        MessageType::MapRequest
    } else if val == MSG_MAPDATA {
        MessageType::MapData
    } else if val == MSG_OBJDATA {
        MessageType::ObjectData
    } else if val == MSG_OBJACK {
        MessageType::ObjectAck
    } else if val == MSG_CLOSE {
        MessageType::Close
    } else {
        MessageType::Error
    }
}

/// The type byte of a kind; `Error` has none.
pub open spec fn message_type_code(t: MessageType) -> Option<u8> {
    match t {
        MessageType::Session => Some(MSG_SESS),
        MessageType::Reliable => Some(MSG_REL),
        MessageType::Ack => Some(MSG_ACK),
        MessageType::Beat => Some(MSG_BEAT),
        MessageType::MapRequest => Some(MSG_MAPREQ),
        MessageType::MapData => Some(MSG_MAPDATA),
        MessageType::ObjectData => Some(MSG_OBJDATA),
        MessageType::ObjectAck => Some(MSG_OBJACK),
        MessageType::Close => Some(MSG_CLOSE),
        MessageType::Error => None,
    }
}

impl MessageType {
    /// The kind that a type byte announces; unknown bytes give `Error`.
    pub fn from_u8(val: u8) -> (t: Self)
        ensures
            t == message_type_of(val),
    {
        if val == MSG_SESS {
            MessageType::Session
        } else if val == MSG_REL {
            MessageType::Reliable
        } else if val == MSG_ACK {
            MessageType::Ack
        } else if val == MSG_BEAT {
            MessageType::Beat
        } else if val == MSG_MAPREQ {
            MessageType::MapRequest
        } else if val == MSG_MAPDATA {
            MessageType::MapData
        } else if val == MSG_OBJDATA {
            MessageType::ObjectData
        } else if val == MSG_OBJACK {
            MessageType::ObjectAck
        } else if val == MSG_CLOSE {
            MessageType::Close
        } else {
            MessageType::Error
        }
    }
}

/// The bytes that a message of kind `t` with payload `data` goes out as. Kinds that
/// only clients send give nothing; `Close` carries no payload.
pub open spec fn ser_spec(t: MessageType, data: Seq<u8>) -> Seq<u8> {
    match t {
        MessageType::Session => seq![MSG_SESS] + data,
        MessageType::Reliable => seq![MSG_REL] + data,
        MessageType::Ack => seq![MSG_ACK] + data,
        MessageType::MapData => seq![MSG_MAPDATA] + data,
        MessageType::ObjectData => seq![MSG_OBJDATA] + data,
        MessageType::Close => seq![MSG_CLOSE],
        _ => Seq::empty(),
    }
}

/// True for the kinds whose payload goes out whole behind the type byte.
pub open spec fn carries_payload(t: MessageType) -> bool {
    t == MessageType::Session || t == MessageType::Reliable || t == MessageType::Ack || t
        == MessageType::MapData || t == MessageType::ObjectData
}

/// A datagram: its kind and the bytes after the type byte.
#[derive(Debug)]
pub struct Message {
    pub msg_type: MessageType,
    pub msg_data: BytesMut,
}

impl Message {
    pub fn new(msg_type: MessageType) -> (m: Self)
        ensures
            m.msg_type == msg_type,
            buf_view(m.msg_data) == Seq::<u8>::empty(),
    {
        Message { msg_type, msg_data: buf_new() }
    }

    /// Serializes the message into a byte vector. Messages of kind `Error` cannot be
    /// sent.
    pub fn ser(&self) -> (buf: Vec<u8>)
        requires
            self.msg_type != MessageType::Error,
        ensures
            buf@ == ser_spec(self.msg_type, buf_view(self.msg_data)),
    {
        let mut buf: Vec<u8> = Vec::new();
        match self.msg_type {
            MessageType::Session => {
                buf.push(MSG_SESS);
                buf.extend_from_slice(buf_as_slice(&self.msg_data));
            },
            MessageType::Reliable => {
                buf.push(MSG_REL);
                buf.extend_from_slice(buf_as_slice(&self.msg_data));
            },
            MessageType::Ack => {
                buf.push(MSG_ACK);
                buf.extend_from_slice(buf_as_slice(&self.msg_data));
            },
            MessageType::Beat => {},
            MessageType::MapRequest => {},
            MessageType::MapData => {
                buf.push(MSG_MAPDATA);
                buf.extend_from_slice(buf_as_slice(&self.msg_data));
            },
            MessageType::ObjectData => {
                buf.push(MSG_OBJDATA);
                buf.extend_from_slice(buf_as_slice(&self.msg_data));
            },
            MessageType::ObjectAck => {},
            MessageType::Close => {
                buf.push(MSG_CLOSE);
            },
            MessageType::Error => {},
        }
        assert(buf@ =~= ser_spec(self.msg_type, buf_view(self.msg_data)));
        buf
    }
}

/// A message together with the peer it comes from or goes to.
#[derive(Debug)]
pub struct MessageAddr {
    pub socket_addr: PeerAddr,
    pub msg: Message,
}

impl MessageAddr {
    pub fn new(socket_addr: PeerAddr, msg: Message) -> (m: Self)
        ensures
            m.socket_addr == socket_addr,
            m.msg == msg,
    {
        MessageAddr { socket_addr, msg }
    }
}

/// An attribute payload of a given type.
pub struct PMessage {
    p_type: u8,
    pub(crate) msg: BytesMut,
}

impl PMessage {
    pub fn new(p_type: u8) -> (m: Self)
        ensures
            m.p_type() == p_type,
            m.payload() == Seq::<u8>::empty(),
    {
        PMessage { p_type, msg: buf_new() }
    }

    pub closed spec fn p_type(&self) -> u8 {
        self.p_type
    }

    /// The bytes of the attribute.
    pub closed spec fn payload(&self) -> Seq<u8> {
        buf_view(self.msg)
    }

    /// Appends the bytes of `src` to the attribute.
    pub(crate) fn put(&mut self, src: BytesMut)
        requires
            old(self).payload().len() + buf_view(src).len() <= isize::MAX,
        ensures
            final(self).payload() == old(self).payload() + buf_view(src),
            final(self).p_type() == old(self).p_type(),
    {
        buf_put(&mut self.msg, src);
    }
}

/// A reliable message awaiting acknowledgement.
pub struct RMessage {
    p_msg: PMessage,
    seq: u16,
    last: u64,
    re_tx: u8,
}

/// Every kind but `Error` has a type byte, and reading that byte gives the kind back.
pub proof fn law_type_code_roundtrip(t: MessageType)
    requires
        t != MessageType::Error,
    ensures
        message_type_code(t) is Some,
        message_type_of(message_type_code(t)->0) == t,
{
}

/// Exactly the bytes up to `MSG_CLOSE` announce a kind, and the kind they announce
/// has that byte as its code.
pub proof fn law_code_type_roundtrip(val: u8)
    ensures
        (message_type_of(val) != MessageType::Error) <==> val <= MSG_CLOSE,
        message_type_of(val) != MessageType::Error ==> message_type_code(message_type_of(val))
            == Some(val),
{
}

} // verus!
