use bytes::BytesMut;
use mmo_server::message::{Message, MessageType};
use mmo_server::objack::{obj_ack_len_accepted, objack, parse_obj_ack_msg};
use mmo_server::objdelta::{obj_type, od_attrs_valid, ObjDelta};

fn msg(data: &[u8]) -> Message {
    let mut m = Message::new(MessageType::ObjectAck);
    m.msg_data = BytesMut::from(data);
    m
}

#[test]
fn object_acks_are_read() {
    let acks = parse_obj_ack_msg(msg(&[0, 0, 0, 1, 0, 0, 0, 2, 0, 0, 1, 0, 0, 0, 0, 3, 9, 9]));
    assert_eq!(acks, vec![objack { id: 1, frame: 2 }, objack { id: 256, frame: 3 }]);
}

#[test]
fn empty_object_ack() {
    assert!(parse_obj_ack_msg(msg(&[])).is_empty());
    assert!(parse_obj_ack_msg(msg(&[1, 2, 3])).is_empty());
}

#[test]
fn overlong_object_ack_is_dropped() {
    assert!(parse_obj_ack_msg(msg(&[0u8; 1001])).is_empty());
    assert_eq!(parse_obj_ack_msg(msg(&[0u8; 1000])).len(), 125);
}

#[test]
fn attribute_headers() {
    assert_eq!(ObjDelta::ser(0, obj_type::OD_REM), vec![0]);
    assert_eq!(ObjDelta::ser(0, obj_type::OD_MOVE), vec![3]);
    assert_eq!(ObjDelta::ser(2, obj_type::OD_MOVE), vec![(1 << 3) | 3]);
    assert_eq!(ObjDelta::ser(5, obj_type::OD_MOVE), vec![0x23]);
    assert_eq!(ObjDelta::ser(16, obj_type::OD_HOMING), vec![0x7f]);
    assert_eq!(ObjDelta::ser(1, obj_type::OD_MOVE), vec![0x81, 1]);
    assert_eq!(ObjDelta::ser(17, obj_type::OD_MOVE), vec![0x81, 17]);
    assert_eq!(ObjDelta::ser(20, obj_type::OD_RES), vec![0x82, 20]);
    assert_eq!(ObjDelta::ser(5, obj_type::OD_SPEECH), vec![0x85, 5]);
    assert_eq!(ObjDelta::ser(0, obj_type::OD_SPEECH), vec![0x85, 0]);
    assert_eq!(ObjDelta::ser(200, obj_type::OD_SPEECH), vec![0x85, 0x80, 0, 200]);
    assert_eq!(ObjDelta::ser(3, obj_type::OD_END), vec![0xff, 3]);
}

#[test]
fn object_record_is_read() {
    let mut data = vec![7u8, 0, 0, 1, 0, 0xff, 0xff, 0xff, 0xff];
    data.extend_from_slice(&[0x85, 2, b'h', b'i']);
    data.extend_from_slice(&[0x00]);
    data.extend_from_slice(&[(1 << 3) | 4, 1, 2]);
    data.extend_from_slice(&[0x8e, 0x80, 0, 1, 42]);
    let d = ObjDelta::parse(msg(&data));
    assert_eq!(d.flags, 7);
    assert_eq!(d.id, 256);
    assert_eq!(d.frame, -1);
    assert!(d.deltas.is_empty());
}

#[test]
fn written_headers_read_back() {
    let cases = [
        (0u8, obj_type::OD_REM),
        (2, obj_type::OD_MOVE),
        (5, obj_type::OD_MOVE),
        (16, obj_type::OD_HOMING),
        (1, obj_type::OD_MOVE),
        (3, obj_type::OD_SPEECH),
        (0, obj_type::OD_SPEECH),
        (200, obj_type::OD_SPEECH),
    ];
    for (len, t) in cases.iter() {
        let mut data = vec![1u8, 0, 0, 0, 2, 0, 0, 0, 3];
        data.extend_from_slice(&ObjDelta::ser(*len, *t));
        data.extend_from_slice(&vec![9u8; *len as usize]);
        data.extend_from_slice(&ObjDelta::ser(0, obj_type::OD_REM));
        let d = ObjDelta::parse(msg(&data));
        assert_eq!(d.flags, 1);
        assert_eq!(d.id, 2);
        assert_eq!(d.frame, 3);
    }
}

#[test]
fn attribute_streams_are_checked() {
    assert!(od_attrs_valid(&[]));
    assert!(od_attrs_valid(&[0x85, 2, b'h', b'i', 0x00, (1 << 3) | 4, 1, 2, 0x8e, 0x80, 0, 1, 42]));
    assert!(!od_attrs_valid(&[0x85, 5, 1]));
    assert!(!od_attrs_valid(&[0x85]));
    assert!(!od_attrs_valid(&[0x85, 0x80, 0]));
    assert!(!od_attrs_valid(&[0x85, 0x80, 0, 2, 1]));
    assert!(!od_attrs_valid(&[(1 << 3) | 4, 1]));
}

#[test]
fn object_ack_lengths_are_checked() {
    assert!(obj_ack_len_accepted(&msg(&[0u8; 11])));
    assert!(!obj_ack_len_accepted(&msg(&[0u8; 12])));
    assert!(obj_ack_len_accepted(&msg(&[0u8; 1004])));
    assert!(obj_ack_len_accepted(&msg(&[])));
}

#[test]
fn checked_record_reading() {
    let mut data = vec![7u8, 0, 0, 1, 0, 0, 0, 0, 5];
    data.extend_from_slice(&[0x85, 1, b'x']);
    let d = ObjDelta::parse_checked(msg(&data)).unwrap();
    assert_eq!(d.flags, 7);
    assert_eq!(d.id, 256);
    assert_eq!(d.frame, 5);
    data.push(0x85);
    assert!(ObjDelta::parse_checked(msg(&data)).is_none());
    assert!(ObjDelta::parse_checked(msg(&[1, 2, 3])).is_none());
}
