//! Object acknowledgements.
use vstd::prelude::*;
use crate::buffer::{buf_view, be32, buf_len, buf_get_u32};
use crate::message::Message;

verus! {

/// The longest acknowledgement payload that is read; longer ones are dropped.
pub const MAX_OBJ_ACK_LEN: usize = 1000;

/// The acknowledgement of one object frame.
#[derive(Debug, PartialEq, Eq, Structural, Clone, Copy)]
pub struct objack {
    pub id: u32,
    pub frame: u32,
}

/// Whether `parse_obj_ack_msg` accepts the payload of `msg`: longer than
/// `MAX_OBJ_ACK_LEN` bytes, or ending in at most three bytes past its last record.
pub fn obj_ack_len_accepted(msg: &Message) -> (r: bool)
    ensures
        r == (buf_view(msg.msg_data).len() > MAX_OBJ_ACK_LEN || buf_view(msg.msg_data).len() % 8 < 4),
{
    let n = buf_len(&msg.msg_data);
    n > MAX_OBJ_ACK_LEN || n % 8 < 4
}

/// Reads the acknowledgements of an object-ack payload: eight-byte records, each a
/// big-endian object id and frame number. A payload longer than `MAX_OBJ_ACK_LEN` bytes
/// gives none. Up to three trailing bytes are ignored; a payload of at most
/// `MAX_OBJ_ACK_LEN` bytes must not end in four to seven bytes past its last record.
pub fn parse_obj_ack_msg(msg: Message) -> (acks: Vec<objack>)
    requires
        buf_view(msg.msg_data).len() > MAX_OBJ_ACK_LEN || buf_view(msg.msg_data).len() % 8 < 4,
    ensures
        buf_view(msg.msg_data).len() > MAX_OBJ_ACK_LEN ==> acks@.len() == 0,
        buf_view(msg.msg_data).len() <= MAX_OBJ_ACK_LEN ==> acks@.len() == buf_view(msg.msg_data).len() / 8,
        forall|i: int|
            0 <= i < acks@.len() ==> #[trigger] acks@[i].id == be32(buf_view(msg.msg_data).skip(8 * i))
                && acks@[i].frame == be32(buf_view(msg.msg_data).skip(8 * i + 4)),
{
    let ghost s = buf_view(msg.msg_data);
    let mut msg = msg;
    let mut acks: Vec<objack> = Vec::new();
    if buf_len(&msg.msg_data) > MAX_OBJ_ACK_LEN {
        return acks;
    }
    while buf_len(&msg.msg_data) > 3
        invariant
            s.len() <= MAX_OBJ_ACK_LEN,
            s.len() % 8 < 4,
            8 * acks@.len() <= s.len(),
            buf_view(msg.msg_data) == s.skip(8 * acks@.len() as int),
            forall|i: int|
                0 <= i < acks@.len() ==> #[trigger] acks@[i].id == be32(s.skip(8 * i))
                    && acks@[i].frame == be32(s.skip(8 * i + 4)),
        decreases buf_view(msg.msg_data).len(),
    {
        let ghost k: int = acks@.len() as int;
        assert(s.len() - 8 * k >= 8);
        let id = buf_get_u32(&mut msg.msg_data);
        let frame = buf_get_u32(&mut msg.msg_data);
        proof {
            assert(s.skip(8 * k).skip(4) =~= s.skip(8 * k + 4));
            assert(s.skip(8 * k + 4).skip(4) =~= s.skip(8 * (k + 1)));
        }
        acks.push(objack { id, frame });
    }
    acks
}

} // verus!
