use bytes::BytesMut;
use mmo_server::coord::Coord;
use mmo_server::game_server::{
    datagram_is_cut, message_from_datagram, parse_map_req, parse_reliable, parse_session,
    parse_session_req, process, ProcessOutcome, Relative,
};
use mmo_server::global_state::UnknownSession;
use mmo_server::global_state::global;
use mmo_server::message::{Message, MessageAddr, MessageType};

const A: (u8, u128, u16, u32, u32) = (4, 0x7f00_0001, 40000, 0, 0);

fn session_request() -> Vec<u8> {
    let mut v = vec![0x01, 0x02];
    v.extend_from_slice(b"Haven\0");
    v.extend_from_slice(&[26, 0]);
    v.extend_from_slice(b"alice\0");
    v.extend_from_slice(&[32, 0]);
    v.extend_from_slice(&[7u8; 32]);
    v
}

fn addr_msg(t: MessageType, data: &[u8]) -> MessageAddr {
    let mut m = Message::new(t);
    m.msg_data = BytesMut::from(data);
    MessageAddr::new(A, m)
}

#[test]
fn session_request_is_read() {
    let mut b = BytesMut::from(&session_request()[..]);
    let req = parse_session_req(&mut b).unwrap();
    assert!(b.is_empty());
    assert_eq!(req.seq, 0x0201);
    assert_eq!(req.protocol, "Haven");
    assert_eq!(req.pver, 26);
    assert_eq!(req.username, "alice");
    assert_eq!(req.cookie_len, 32);
    assert_eq!(req.cookie, [7u8; 32]);
}

#[test]
fn short_session_request_is_ignored() {
    let mut b = BytesMut::from(&[1u8, 2][..]);
    assert!(parse_session_req(&mut b).is_none());
}

#[test]
fn invalid_protocol_name_is_ignored() {
    let mut b = BytesMut::from(&[1u8, 2, 0xff, 0, 26, 0][..]);
    assert!(parse_session_req(&mut b).is_none());
}

#[test]
fn cut_session_requests_are_recognised() {
    let mut v = vec![0u8];
    v.extend_from_slice(&session_request());
    assert!(!datagram_is_cut(&v));
    v.truncate(v.len() - 1);
    assert!(datagram_is_cut(&v));
    assert!(datagram_is_cut(b"\x00\x01\x02Haven\0"));
    assert!(!datagram_is_cut(b"\x00\x01"));
    assert!(!datagram_is_cut(b"\x04\x01\x02Haven\0"));
    assert!(!datagram_is_cut(b""));
}

#[test]
fn session_is_stored_for_the_sender() {
    let mut g = global::new();
    let reply = parse_session(addr_msg(MessageType::Session, &session_request()), &mut g).unwrap();
    assert_eq!(reply.socket_addr, A);
    assert_eq!(&reply.msg.msg_data[..], &[0u8][..]);
    assert_eq!(g.close_session(A), Ok(0));
    assert!(parse_session(addr_msg(MessageType::Session, &[1, 2]), &mut g).is_none());
    assert_eq!(g.close_session(A), Err(UnknownSession));
}

#[test]
fn datagram_is_split_into_kind_and_payload() {
    let m = message_from_datagram(&[6, 1, 2, 3]);
    assert_eq!(m.msg_type, MessageType::ObjectData);
    assert_eq!(&m.msg_data[..], &[1u8, 2, 3][..]);
}

#[test]
fn datagram_round_trip() {
    let mut m = Message::new(MessageType::MapData);
    m.msg_data = BytesMut::from(&[4u8, 5][..]);
    let out = m.ser();
    let back = message_from_datagram(&out);
    assert_eq!(back.msg_type, MessageType::MapData);
    assert_eq!(&back.msg_data[..], &[4u8, 5][..]);
}

#[test]
fn session_datagram_opens_a_session_once() {
    let mut g = global::new();
    let mut dg = vec![0u8];
    dg.extend_from_slice(&session_request());
    match process(&dg, A, &mut g) {
        ProcessOutcome::Reply(r) => {
            assert_eq!(r.socket_addr, A);
            assert_eq!(r.msg.msg_type, MessageType::Session);
            assert_eq!(&r.msg.msg_data[..], &[0u8][..]);
            assert_eq!(r.msg.ser(), vec![0, 0]);
        }
        other => panic!("unexpected {:?}", other),
    }
    match process(&dg, A, &mut g) {
        ProcessOutcome::Reply(r) => assert_eq!(&r.msg.msg_data[..], &[2u8][..]),
        other => panic!("unexpected {:?}", other),
    }
}

#[test]
fn other_datagrams_get_no_answer() {
    let mut g = global::new();
    assert!(matches!(process(&[], A, &mut g), ProcessOutcome::Ignored));
    assert!(matches!(process(&[3], A, &mut g), ProcessOutcome::Ignored));
    assert!(matches!(process(&[4, 0, 0, 0, 1, 0, 0, 0, 2], A, &mut g), ProcessOutcome::Ignored));
    assert!(matches!(process(&[8], A, &mut g), ProcessOutcome::Ignored));
    assert!(matches!(process(&[200, 1], A, &mut g), ProcessOutcome::Ignored));
    assert_eq!(g.close_session(A), Err(UnknownSession));
}

#[test]
fn reliable_header_is_read() {
    assert_eq!(
        parse_reliable(addr_msg(MessageType::Reliable, &[0x01, 0x02, 9, 0])),
        Some(Relative { seq: 0x0102, msg_type: 9 })
    );
    assert_eq!(parse_reliable(addr_msg(MessageType::Reliable, &[1, 2, 9])), None);
    assert_eq!(parse_reliable(addr_msg(MessageType::Reliable, &[1, 2])), None);
}

#[test]
fn map_request_is_read() {
    assert_eq!(
        parse_map_req(addr_msg(MessageType::MapRequest, &[0, 0, 0, 5, 0xff, 0xff, 0xff, 0xfe])),
        Some(Coord::new(5, -2))
    );
    assert_eq!(parse_map_req(addr_msg(MessageType::MapRequest, &[0; 7])), None);
}
