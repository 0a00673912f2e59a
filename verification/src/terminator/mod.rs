//! The chat-room side of the bot ("terminator"): the messages exchanged in a
//! room and what a websocket session does with them.

pub mod message;
pub mod session;
