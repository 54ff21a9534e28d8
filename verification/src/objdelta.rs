//! Object deltas: attribute headers and the object-data record reader.
use vstd::prelude::*;
use crate::buffer::{buf_view, be16, be32, signed32, buf_len, buf_get_u8, buf_get_u16, buf_get_u32,
    buf_get_i32, buf_split_to, vec_put_u16, buf_as_slice};
use crate::message::{Message, PMessage};

verus! {

pub const OD_REM: u8 = 0;
pub const OD_MOVE: u8 = 1;
pub const OD_RES: u8 = 2;
pub const OD_LINBEG: u8 = 3;
pub const OD_LINSTEP: u8 = 4;
pub const OD_SPEECH: u8 = 5;
pub const OD_COMPOSE: u8 = 6;
pub const OD_ZOFF: u8 = 7;
pub const OD_LUMIN: u8 = 8;
pub const OD_AVATAR: u8 = 9;
pub const OD_FOLLOW: u8 = 10;
pub const OD_HOMING: u8 = 11;
pub const OD_OVERLAY: u8 = 12;
pub const OD_HEALTH: u8 = 14;
pub const OD_BUDDY: u8 = 15;
pub const OD_CMPPOSE: u8 = 16;
pub const OD_CMPMOD: u8 = 17;
pub const OD_CMPEQU: u8 = 18;
pub const OD_ICON: u8 = 19;
pub const OD_RESATTR: u8 = 20;
pub const OD_END: u8 = 255;

/// The attribute types that have a compact header, in the order of their compact index.
pub const COMP_OD_MAP: [u8; 8] = [0, 20, 10, 1, 2, 3, 4, 11];

/// The kinds of object attribute.
#[derive(Clone, Copy, Debug, PartialEq, Eq, Structural)]
pub enum obj_type {
    OD_REM,
    OD_MOVE,
    OD_RES,
    OD_LINBEG,
    OD_LINSTEP,
    OD_SPEECH,
    OD_COMPOSE,
    OD_ZOFF,
    OD_LUMIN,
    OD_AVATAR,
    OD_FOLLOW,
    OD_HOMING,
    OD_OVERLAY,
    OD_HEALTH,
    OD_BUDDY,
    OD_CMPPOSE,
    OD_CMPMOD,
    OD_CMPEQU,
    OD_ICON,
    OD_RESATTR,
    OD_END,
}

/// The wire code of an attribute kind.
pub open spec fn od_code(t: obj_type) -> u8 {
    match t {
        obj_type::OD_REM => OD_REM,
        obj_type::OD_MOVE => OD_MOVE,
        obj_type::OD_RES => OD_RES,
        obj_type::OD_LINBEG => OD_LINBEG,
        obj_type::OD_LINSTEP => OD_LINSTEP,
        obj_type::OD_SPEECH => OD_SPEECH,
        obj_type::OD_COMPOSE => OD_COMPOSE,
        obj_type::OD_ZOFF => OD_ZOFF,
        obj_type::OD_LUMIN => OD_LUMIN,
        obj_type::OD_AVATAR => OD_AVATAR,
        obj_type::OD_FOLLOW => OD_FOLLOW,
        obj_type::OD_HOMING => OD_HOMING,
        obj_type::OD_OVERLAY => OD_OVERLAY,
        obj_type::OD_HEALTH => OD_HEALTH,
        obj_type::OD_BUDDY => OD_BUDDY,
        obj_type::OD_CMPPOSE => OD_CMPPOSE,
        obj_type::OD_CMPMOD => OD_CMPMOD,
        obj_type::OD_CMPEQU => OD_CMPEQU,
        obj_type::OD_ICON => OD_ICON,
        obj_type::OD_RESATTR => OD_RESATTR,
        obj_type::OD_END => OD_END,
    }
}

impl obj_type {
    /// The wire code of the attribute kind.
    pub fn code(self) -> (c: u8)
        ensures
            c == od_code(self),
    {
        match self {
            obj_type::OD_REM => OD_REM,
            obj_type::OD_MOVE => OD_MOVE,
            obj_type::OD_RES => OD_RES,
            obj_type::OD_LINBEG => OD_LINBEG,
            obj_type::OD_LINSTEP => OD_LINSTEP,
            obj_type::OD_SPEECH => OD_SPEECH,
            obj_type::OD_COMPOSE => OD_COMPOSE,
            obj_type::OD_ZOFF => OD_ZOFF,
            obj_type::OD_LUMIN => OD_LUMIN,
            obj_type::OD_AVATAR => OD_AVATAR,
            obj_type::OD_FOLLOW => OD_FOLLOW,
            obj_type::OD_HOMING => OD_HOMING,
            obj_type::OD_OVERLAY => OD_OVERLAY,
            obj_type::OD_HEALTH => OD_HEALTH,
            obj_type::OD_BUDDY => OD_BUDDY,
            obj_type::OD_CMPPOSE => OD_CMPPOSE,
            obj_type::OD_CMPMOD => OD_CMPMOD,
            obj_type::OD_CMPEQU => OD_CMPEQU,
            obj_type::OD_ICON => OD_ICON,
            obj_type::OD_RESATTR => OD_RESATTR,
            obj_type::OD_END => OD_END,
        }
    }
}

/// The table of attribute types with a compact header.
pub open spec fn comp_od_map() -> Seq<u8> {
    seq![OD_REM, OD_RESATTR, OD_FOLLOW, OD_MOVE, OD_RES, OD_LINBEG, OD_LINSTEP, OD_HOMING]
}

/// The compact index of an attribute type: its position in `comp_od_map`, if it has one.
pub open spec fn comp_index(code: u8) -> Option<nat> {
    if code == OD_REM {
        Some(0)
    } else if code == OD_RESATTR {
        Some(1)
    } else if code == OD_FOLLOW {
        Some(2)
    } else if code == OD_MOVE {
        Some(3)
    } else if code == OD_RES {
        Some(4)
    } else if code == OD_LINBEG {
        Some(5)
    } else if code == OD_LINSTEP {
        Some(6)
    } else if code == OD_HOMING {
        Some(7)
    } else {
        None
    }
}

/// `comp_index` is the position of a type in the compact table.
pub proof fn lemma_comp_index(code: u8, i: int)
    requires
        0 <= i < 8,
    ensures
        comp_index(comp_od_map()[i]) == Some(i as nat),
        comp_index(code) matches Some(k) ==> k < 8 && comp_od_map()[k as int] == code,
{
}

/// True when the attribute header for payload length `len` of type `code` is compact:
/// the type has a compact index and the length is 0 or from 2 to 16.
pub open spec fn compact_header(len: u8, code: u8) -> bool {
    comp_index(code) is Some && (len == 0 || 2 <= len <= 16)
}

/// The length field of a compact header: 0 for an empty payload, else the length less one.
pub open spec fn compact_field(len: u8) -> int {
    if len == 0 {
        0
    } else {
        len - 1
    }
}

/// The attribute header for a payload of `len` bytes of type `code`: compact, one byte of
/// the length field times eight plus the compact index; else the type with its high bit
/// set, followed by `len` in one byte when it is below 0x80, or by 0x80 and `len` as a
/// big-endian u16.
pub open spec fn od_header(len: u8, code: u8) -> Seq<u8> {
    if compact_header(len, code) {
        seq![(compact_field(len) * 8 + comp_index(code)->0) as u8]
    } else if len > 0x7f {
        seq![0x80u8 | code, 0x80u8, 0u8, len]
    } else {
        seq![0x80u8 | code, len]
    }
}

/// Payload length announced by a compact header byte (below 0x80): bits 3 to 6, plus one
/// when not zero.
pub open spec fn compact_len(b: u8) -> int {
    if b / 8 > 0 {
        b / 8 + 1
    } else {
        0
    }
}

/// True when `s` is a whole sequence of attributes: each a header (compact, or expanded
/// with a one-byte or a big-endian two-byte length) followed by as many payload bytes as
/// it announces.
pub open spec fn od_attrs_ok(s: Seq<u8>) -> bool
    decreases s.len(),
{
    if s.len() == 0 {
        true
    } else if s[0] < 0x80 {
        compact_len(s[0]) <= s.len() - 1 && od_attrs_ok(s.skip(1 + compact_len(s[0])))
    } else if s.len() < 2 {
        false
    } else if s[1] < 0x80 {
        s[1] <= s.len() - 2 && od_attrs_ok(s.skip(2 + s[1]))
    } else if s.len() < 4 {
        false
    } else {
        be16(s.skip(2)) <= s.len() - 4 && od_attrs_ok(s.skip(4 + be16(s.skip(2))))
    }
}

/// The header of an object-data record and its attributes.
#[derive(Debug)]
pub struct ObjDelta {
    pub flags: u8,
    pub id: u32,
    pub frame: i32,
    pub deltas: Vec<obj_type>,
}

/// Position of `code` in the compact table.
fn comp_position(code: u8) -> (r: Option<u8>)
    ensures
        r is Some <==> comp_index(code) is Some,
        r matches Some(p) ==> p == comp_index(code)->0 && p < 8,
{
    assert(COMP_OD_MAP@ =~= comp_od_map());
    let mut i: usize = 0;
    while i < 8
        invariant
            i <= 8,
            forall|j: int| 0 <= j < i ==> comp_od_map()[j] != code,
            COMP_OD_MAP@ == comp_od_map(),
        decreases 8 - i,
    {
        if COMP_OD_MAP[i] == code {
            proof {
                lemma_comp_index(code, i as int);
            }
            return Some(i as u8);
        }
        i = i + 1;
    }
    proof {
        lemma_comp_index(code, 0);
    }
    None
}

/// Whether `data` is a whole sequence of attributes, as `ObjDelta::parse` asks of what
/// follows a record's header.
pub fn od_attrs_valid(data: &[u8]) -> (r: bool)
    ensures
        r == od_attrs_ok(data@),
{
    let ghost d = data@;
    let n = data.len();
    let mut i: usize = 0;
    assert(d.skip(0) =~= d);
    while i < n
        invariant
            n == d.len(),
            d == data@,
            i <= n,
            od_attrs_ok(d) == od_attrs_ok(d.skip(i as int)),
        decreases n - i,
    {
        let ghost s = d.skip(i as int);
        let b = data[i];
        assert(s[0] == b);
        if b < 0x80 {
            let len: usize = if b / 8 > 0 {
                (b / 8 + 1) as usize
            } else {
                0
            };
            if len > n - i - 1 {
                return false;
            }
            proof {
                assert(s.skip(1 + len) =~= d.skip(i + 1 + len));
            }
            i = i + 1 + len;
        } else {
            if n - i < 2 {
                return false;
            }
            let a = data[i + 1];
            assert(s[1] == a);
            if a < 0x80 {
                if (a as usize) > n - i - 2 {
                    return false;
                }
                proof {
                    assert(s.skip(2 + a) =~= d.skip(i + 2 + a));
                }
                i = i + 2 + a as usize;
            } else {
                if n - i < 4 {
                    return false;
                }
                let len: usize = data[i + 2] as usize * 0x100 + data[i + 3] as usize;
                assert(be16(s.skip(2)) == len) by {
                    assert(s.skip(2)[0] == data@[i + 2] && s.skip(2)[1] == data@[i + 3]);
                }
                if len > n - i - 4 {
                    return false;
                }
                proof {
                    assert(s.skip(4 + len) =~= d.skip(i + 4 + len));
                }
                i = i + 4 + len;
            }
        }
    }
    proof {
        assert(d.skip(n as int) =~= Seq::<u8>::empty());
    }
    true
}

impl ObjDelta {
    /// The attribute header for a payload of `len` bytes of type `o_type`: compact when
    /// the type has a compact index and the length is 0 or from 2 to 16, expanded
    /// otherwise.
    pub fn ser(len: u8, o_type: obj_type) -> (buf: Vec<u8>)
        ensures
            buf@ == od_header(len, od_code(o_type)),
    {
        let mut buf: Vec<u8> = Vec::new();
        let code = o_type.code();
        let pos = comp_position(code);
        match pos {
            Some(p) if len == 0 || (len > 1 && len <= 16) => {
                let field: u8 = if len == 0 {
                    0
                } else {
                    len - 1
                };
                let head: u8 = (field << 3) | (p & 0x07);
                assert((field << 3) | (p & 0x07) == field * 8 + p) by (bit_vector)
                    requires
                        field <= 15,
                        p < 8,
                ;
                buf.push(head);
            },
            _ => {
                buf.push(0x80 | code);
                if len > 0x7f {
                    buf.push(0x80);
                    vec_put_u16(&mut buf, len as u16);
                } else {
                    assert(len & 0x7f == len) by (bit_vector)
                        requires
                            len <= 0x7f,
                    ;
                    buf.push(len & 0x7F);
                }
            },
        }
        assert(buf@ =~= od_header(len, code));
        buf
    }

    /// Reads an object-data record: a flag byte, a big-endian object id and a big-endian
    /// frame number, then attributes up to the end. The attributes are read and their
    /// payloads taken off, but not kept. The record must hold its header and whole
    /// attributes.
    pub fn parse(msg: Message) -> (d: ObjDelta)
        requires
            buf_view(msg.msg_data).len() >= 9,
            od_attrs_ok(buf_view(msg.msg_data).skip(9)),
        ensures
            d.flags == buf_view(msg.msg_data)[0],
            d.id == be32(buf_view(msg.msg_data).skip(1)),
            d.frame == signed32(be32(buf_view(msg.msg_data).skip(5))),
            d.deltas@.len() == 0,
    {
        let ghost s = buf_view(msg.msg_data);
        let mut data = msg.msg_data;
        let flags = buf_get_u8(&mut data);
        let id = buf_get_u32(&mut data);
        let frame = buf_get_i32(&mut data);
        proof {
            assert(s.skip(1).skip(4) =~= s.skip(5));
            assert(s.skip(5).skip(4) =~= s.skip(9));
        }
        let deltas: Vec<obj_type> = Vec::new();
        while buf_len(&data) > 0
            invariant
                od_attrs_ok(buf_view(data)),
            decreases buf_view(data).len(),
        {
            let ghost cur = buf_view(data);
            let b = buf_get_u8(&mut data);
            let mut len: u16 = 0;
            let attr_type: u8;
            if b & 0x80 == 0 {
                assert(b & 0x80 == 0 ==> b < 0x80 && (b & 0x78) >> 3 == b / 8 && b & 0x07 == b % 8)
                    by (bit_vector);
                len = ((b & 0x78) >> 3) as u16;
                if len > 0 {
                    len = len + 1;
                }
                attr_type = COMP_OD_MAP[(b & 0x07) as usize];
            } else {
                assert(b & 0x80 != 0 ==> b >= 0x80) by (bit_vector);
                attr_type = b & 0x7f;
                let afl = buf_get_u8(&mut data);
                if (afl & 0x80) == 0 {
                    assert(afl & 0x80 == 0 ==> afl < 0x80 && afl & 0x7f == afl) by (bit_vector);
                    len = (afl & 0x7f) as u16;
                    proof {
                        assert(cur.skip(1).skip(1) =~= cur.skip(2));
                    }
                } else {
                    assert(afl & 0x80 != 0 ==> afl >= 0x80) by (bit_vector);
                    proof {
                        assert(cur.skip(1).skip(1) =~= cur.skip(2));
                    }
                    len = buf_get_u16(&mut data);
                    proof {
                        assert(cur.skip(2).skip(2) =~= cur.skip(4));
                    }
                }
            }
            let chunk = buf_split_to(&mut data, len as usize);
            proof {
                assert(buf_view(data) =~= cur.skip(cur.len() - buf_view(data).len()));
            }
            let mut attr = PMessage::new(attr_type);
            attr.put(chunk);
        }
        ObjDelta { flags, id, frame, deltas }
    }

    /// Reads an object-data record as `parse` does, when it holds its header and whole
    /// attributes; `None` otherwise.
    pub fn parse_checked(msg: Message) -> (r: Option<ObjDelta>)
        ensures
            r is Some <==> buf_view(msg.msg_data).len() >= 9 && od_attrs_ok(
                buf_view(msg.msg_data).skip(9),
            ),
            r matches Some(d) ==> d.flags == buf_view(msg.msg_data)[0] && d.id == be32(
                buf_view(msg.msg_data).skip(1),
            ) && d.frame == signed32(be32(buf_view(msg.msg_data).skip(5))) && d.deltas@.len() == 0,
    {
        let bytes = buf_as_slice(&msg.msg_data);
        let n = bytes.len();
        if n < 9 {
            return None;
        }
        let attrs = &bytes[9..n];
        proof {
            assert(attrs@ =~= buf_view(msg.msg_data).skip(9));
        }
        if !od_attrs_valid(attrs) {
            return None;
        }
        Some(ObjDelta::parse(msg))
    }
}

/// Every header that `ser` writes, followed by exactly the payload it announces, reads as
/// one whole attribute in front of whatever follows.
pub proof fn law_written_header_reads_back(len: u8, code: u8, payload: Seq<u8>, rest: Seq<u8>)
    requires
        payload.len() == len,
        od_attrs_ok(rest),
    ensures
        od_attrs_ok(od_header(len, code) + payload + rest),
{
    let h = od_header(len, code);
    let all = h + payload + rest;
    lemma_comp_index(code, 0);
    assert(0x80u8 | code >= 0x80) by (bit_vector);
    if compact_header(len, code) {
        let f = compact_field(len);
        let i = comp_index(code)->0;
        assert(0 <= f <= 15 && i < 8);
        assert(all[0] == h[0]);
        assert(h[0] == f * 8 + i);
        assert((f * 8 + i) / 8 == f);
        assert(compact_len(all[0]) == len);
        assert(all.skip(1 + len) =~= rest);
    } else if len <= 0x7f {
        assert(all[0] == h[0] && all[1] == len);
        assert(all.skip(2 + len) =~= rest);
    } else {
        assert(all[0] == h[0] && all[1] == 0x80u8);
        assert(all.skip(2)[0] == 0u8 && all.skip(2)[1] == len);
        assert(all.skip(4 + len) =~= rest);
    }
}

/// Each of the three attribute forms, followed by exactly the payload it announces, reads
/// as one whole attribute in front of whatever follows: a compact header (high bit clear)
/// with no payload when bits 3 to 6 are zero and otherwise with one more byte than they
/// count; an expanded header (high bit set) with a length byte below 0x80 and that many
/// bytes; an expanded header with a length byte of 0x80 or more, then any big-endian u16
/// and that many bytes, up to 65535.
pub proof fn law_attribute_forms(h: u8, a: u8, n: u16, payload: Seq<u8>, rest: Seq<u8>)
    requires
        od_attrs_ok(rest),
    ensures
        h < 0x80 && h / 8 == 0 && payload.len() == 0 ==> od_attrs_ok(seq![h] + payload + rest),
        h < 0x80 && h / 8 > 0 && payload.len() == h / 8 + 1 ==> od_attrs_ok(
            seq![h] + payload + rest,
        ),
        h >= 0x80 && a < 0x80 && payload.len() == a ==> od_attrs_ok(seq![h, a] + payload + rest),
        h >= 0x80 && a >= 0x80 && payload.len() == n ==> od_attrs_ok(
            seq![h, a, (n / 256) as u8, (n % 256) as u8] + payload + rest,
        ),
{
    if h < 0x80 && payload.len() == compact_len(h) {
        let all = seq![h] + payload + rest;
        assert(all[0] == h);
        assert(all.skip(1 + compact_len(h)) =~= rest);
    }
    if h >= 0x80 && a < 0x80 && payload.len() == a {
        let all = seq![h, a] + payload + rest;
        assert(all[0] == h && all[1] == a);
        assert(all.skip(2 + a) =~= rest);
    }
    if h >= 0x80 && a >= 0x80 && payload.len() == n {
        let hi = (n / 256) as u8;
        let lo = (n % 256) as u8;
        let all = seq![h, a, hi, lo] + payload + rest;
        assert(all[0] == h && all[1] == a);
        assert(all.skip(2)[0] == hi && all.skip(2)[1] == lo);
        assert(hi * 256 + lo == n);
        assert(be16(all.skip(2)) == n);
        assert(all.skip(4 + n) =~= rest);
    }
}

/// The wire codes of the attribute kinds are the protocol's: 0 to 12 for removal through
/// overlay, 14 to 20 for health through resource attribute (13 is no longer used), and
/// 255 for the end marker. No two kinds share a code. The kinds with a compact header are
/// removal, resource attribute, follow, move, resource, line start, line step and homing,
/// at compact indices 0 to 7 in that order.
pub proof fn law_od_codes()
    ensures
        od_code(obj_type::OD_REM) == 0,
        od_code(obj_type::OD_MOVE) == 1,
        od_code(obj_type::OD_RES) == 2,
        od_code(obj_type::OD_LINBEG) == 3,
        od_code(obj_type::OD_LINSTEP) == 4,
        od_code(obj_type::OD_SPEECH) == 5,
        od_code(obj_type::OD_COMPOSE) == 6,
        od_code(obj_type::OD_ZOFF) == 7,
        od_code(obj_type::OD_LUMIN) == 8,
        od_code(obj_type::OD_AVATAR) == 9,
        od_code(obj_type::OD_FOLLOW) == 10,
        od_code(obj_type::OD_HOMING) == 11,
        od_code(obj_type::OD_OVERLAY) == 12,
        od_code(obj_type::OD_HEALTH) == 14,
        od_code(obj_type::OD_BUDDY) == 15,
        od_code(obj_type::OD_CMPPOSE) == 16,
        od_code(obj_type::OD_CMPMOD) == 17,
        od_code(obj_type::OD_CMPEQU) == 18,
        od_code(obj_type::OD_ICON) == 19,
        od_code(obj_type::OD_RESATTR) == 20,
        od_code(obj_type::OD_END) == 255,
        forall|t: obj_type| od_code(t) != 13,
        forall|t: obj_type, u: obj_type| od_code(t) == od_code(u) ==> t == u,
        comp_index(od_code(obj_type::OD_REM)) == Some(0nat),
        comp_index(od_code(obj_type::OD_RESATTR)) == Some(1nat),
        comp_index(od_code(obj_type::OD_FOLLOW)) == Some(2nat),
        comp_index(od_code(obj_type::OD_MOVE)) == Some(3nat),
        comp_index(od_code(obj_type::OD_RES)) == Some(4nat),
        comp_index(od_code(obj_type::OD_LINBEG)) == Some(5nat),
        comp_index(od_code(obj_type::OD_LINSTEP)) == Some(6nat),
        comp_index(od_code(obj_type::OD_HOMING)) == Some(7nat),
        forall|t: obj_type|
            comp_index(#[trigger] od_code(t)) is Some <==> (t == obj_type::OD_REM || t
                == obj_type::OD_RESATTR || t == obj_type::OD_FOLLOW || t == obj_type::OD_MOVE || t
                == obj_type::OD_RES || t == obj_type::OD_LINBEG || t == obj_type::OD_LINSTEP || t
                == obj_type::OD_HOMING),
{
}

} // verus!
