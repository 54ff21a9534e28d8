use bytes::BytesMut;
use mmo_server::message::{Message, MessageAddr, MessageType, PMessage};

#[test]
fn type_bytes_are_read() {
    let kinds = [
        MessageType::Session,
        MessageType::Reliable,
        MessageType::Ack,
        MessageType::Beat,
        MessageType::MapRequest,
        MessageType::MapData,
        MessageType::ObjectData,
        MessageType::ObjectAck,
        MessageType::Close,
    ];
    for (i, k) in kinds.iter().enumerate() {
        assert_eq!(MessageType::from_u8(i as u8), *k);
    }
    assert_eq!(MessageType::from_u8(9), MessageType::Error);
    assert_eq!(MessageType::from_u8(255), MessageType::Error);
}

fn with_data(t: MessageType, data: &[u8]) -> Message {
    let mut m = Message::new(t);
    m.msg_data = BytesMut::from(data);
    m
}

#[test]
fn new_message_is_empty() {
    let m = Message::new(MessageType::Ack);
    assert_eq!(m.msg_type, MessageType::Ack);
    assert!(m.msg_data.is_empty());
}

#[test]
fn payload_kinds_serialize_with_type_byte() {
    assert_eq!(with_data(MessageType::Session, &[7, 8]).ser(), vec![0, 7, 8]);
    assert_eq!(with_data(MessageType::Reliable, &[1]).ser(), vec![1, 1]);
    assert_eq!(with_data(MessageType::Ack, &[]).ser(), vec![2]);
    assert_eq!(with_data(MessageType::MapData, &[5]).ser(), vec![5, 5]);
    assert_eq!(with_data(MessageType::ObjectData, &[9, 9]).ser(), vec![6, 9, 9]);
}

#[test]
fn close_has_no_payload() {
    assert_eq!(with_data(MessageType::Close, &[1, 2]).ser(), vec![8]);
}

#[test]
fn receive_only_kinds_serialize_to_nothing() {
    assert!(with_data(MessageType::Beat, &[1]).ser().is_empty());
    assert!(with_data(MessageType::MapRequest, &[1]).ser().is_empty());
    assert!(with_data(MessageType::ObjectAck, &[1]).ser().is_empty());
}

#[test]
fn type_code_round_trip() {
    for b in 0u8..=8 {
        let m = with_data(MessageType::from_u8(b), &[42]);
        let out = m.ser();
        if !out.is_empty() {
            assert_eq!(out[0], b);
            assert_eq!(MessageType::from_u8(out[0]), m.msg_type);
        }
    }
}

#[test]
fn message_addr_keeps_its_parts() {
    let addr = (4u8, 0x7f00_0001u128, 1870u16, 0u32, 0u32);
    let ma = MessageAddr::new(addr, Message::new(MessageType::Close));
    assert_eq!(ma.socket_addr, addr);
    assert_eq!(ma.msg.msg_type, MessageType::Close);
}

#[test]
fn attribute_message_starts_empty() {
    let _p = PMessage::new(3);
}
