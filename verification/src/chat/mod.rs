//! Chat in a room.

pub mod chat;
