//! Verified core of an MMO game server: wire framing, message codecs,
//! session bookkeeping and the login handshake's decisions.
#![allow(non_camel_case_types)]

pub mod buffer;
pub mod msg_util;
pub mod coord;
pub mod message;
pub mod session;
pub mod global_state;
pub mod game_server;
pub mod objack;
pub mod objdelta;
pub mod auth;
pub mod auth_service;
pub mod inventory;
pub mod account;
pub mod char_create;
