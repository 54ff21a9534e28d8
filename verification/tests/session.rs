use mmo_server::coord::{Coord, Coord2d};
use mmo_server::global_state::{global, UnknownSession};
use mmo_server::message::{Message, MessageAddr, MessageType};
use mmo_server::session::{Session, SessionError};

const A: (u8, u128, u16, u32, u32) = (4, 0x7f00_0001, 1870, 0, 0);
const B: (u8, u128, u16, u32, u32) = (6, 1, 1870, 0, 0);

#[test]
fn coords_are_built() {
    let c = Coord::new(3, -4);
    assert_eq!(c, Coord { x: 3, y: -4 });
    let d = Coord2d::new(1, 2);
    assert_eq!(d.x, 1);
    assert_eq!(d.y, 2);
    assert_eq!(d.z, Coord::new(0, 0));
}

#[test]
fn session_error_codes() {
    assert_eq!(SessionError::Success.as_u8(), 0);
    assert_eq!(SessionError::Auth.as_u8(), 1);
    assert_eq!(SessionError::Busy.as_u8(), 2);
    assert_eq!(SessionError::Conn.as_u8(), 3);
    assert_eq!(SessionError::Pver.as_u8(), 4);
    assert_eq!(SessionError::Expr.as_u8(), 5);
    assert_eq!(SessionError::Mesg.as_u8(), 6);
    assert_eq!(SessionError::Error.as_u8(), 255);
}

#[test]
fn map_requests_are_kept_once() {
    let mut s = Session::new("bob".to_string(), A);
    assert!(s.get_map_requests().is_empty());
    s.add_map_request(Coord::new(1, 1));
    s.add_map_request(Coord::new(2, 2));
    s.add_map_request(Coord::new(1, 1));
    assert_eq!(s.get_map_requests(), &vec![Coord::new(1, 1), Coord::new(2, 2)]);
}

#[test]
fn map_requests_are_removed() {
    let mut s = Session::new("bob".to_string(), A);
    s.add_map_request(Coord::new(1, 1));
    s.add_map_request(Coord::new(2, 2));
    s.add_map_request(Coord::new(3, 3));
    s.remove_map_request(Coord::new(2, 2));
    assert_eq!(s.get_map_requests(), &vec![Coord::new(1, 1), Coord::new(3, 3)]);
    s.remove_map_request(Coord::new(9, 9));
    assert_eq!(s.get_map_requests(), &vec![Coord::new(1, 1), Coord::new(3, 3)]);
}

#[test]
fn remove_undoes_add() {
    let mut s = Session::new("bob".to_string(), A);
    s.add_map_request(Coord::new(1, 1));
    let before = s.get_map_requests().clone();
    s.add_map_request(Coord::new(5, 5));
    s.remove_map_request(Coord::new(5, 5));
    assert_eq!(s.get_map_requests(), &before);
}

#[test]
fn session_at_a_given_time() {
    let now = std::time::SystemTime::UNIX_EPOCH;
    let mut s = Session::new_at("carol".to_string(), B, now);
    assert!(s.get_map_requests().is_empty());
    s.beat_at(now);
    s.add_map_request(Coord::new(0, 1));
    assert_eq!(s.get_map_requests(), &vec![Coord::new(0, 1)]);
}

#[test]
fn message_at_a_given_time() {
    let now = std::time::SystemTime::UNIX_EPOCH;
    let mut s = Session::new("dan".to_string(), A);
    s.add_map_request(Coord::new(2, 3));
    s.receive_msg_at(Message::new(MessageType::Beat), now);
    s.receive_msg_at(Message::new(MessageType::Close), now);
    assert_eq!(s.get_map_requests(), &vec![Coord::new(2, 3)]);
}

#[test]
fn heartbeat_keeps_requests() {
    let mut s = Session::new("bob".to_string(), A);
    s.add_map_request(Coord::new(1, 1));
    s.beat();
    s.receive_msg(Message::new(MessageType::Beat));
    s.receive_msg(Message::new(MessageType::MapRequest));
    assert_eq!(s.get_map_requests(), &vec![Coord::new(1, 1)]);
}

#[test]
fn second_session_at_an_address_is_busy() {
    let mut g = global::new();
    assert_eq!(g.add_session(A, Session::new("a".to_string(), A)), SessionError::Success);
    assert_eq!(g.add_session(A, Session::new("a".to_string(), A)), SessionError::Busy);
    assert_eq!(g.add_session(B, Session::new("b".to_string(), B)), SessionError::Success);
}

#[test]
fn close_undoes_add() {
    let mut g = global::new();
    assert_eq!(g.close_session(A), Err(UnknownSession));
    g.add_session(A, Session::new("a".to_string(), A));
    assert_eq!(g.close_session(A), Ok(0));
    assert_eq!(g.close_session(A), Err(UnknownSession));
    assert_eq!(g.add_session(A, Session::new("a".to_string(), A)), SessionError::Success);
}

#[test]
fn messages_reach_known_sessions_only() {
    let mut g = global::new();
    g.add_session(A, Session::new("a".to_string(), A));
    g.receive_msg(MessageAddr::new(A, Message::new(MessageType::Beat)));
    g.receive_msg(MessageAddr::new(B, Message::new(MessageType::Beat)));
    assert_eq!(g.close_session(A), Ok(0));
    assert_eq!(g.close_session(B), Err(UnknownSession));
}
