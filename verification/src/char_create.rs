//! Character creation.
use vstd::prelude::*;
use crate::global_state::global;
use crate::message::{Message, MessageAddr, MessageType, PeerAddr};

verus! {

/// Prepares the object data that announces a new character to `socket_addr`; nothing is
/// sent yet.
pub fn send_char_create(global: &global, socket_addr: PeerAddr) {
    let msg = Message::new(MessageType::ObjectData);
    let send = MessageAddr::new(socket_addr, msg);
}

} // verus!
