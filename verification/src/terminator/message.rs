//! The messages of the chat rooms.

use vstd::prelude::*;

verus! {

/// Text delivered to one session.
#[derive(Debug, Clone, PartialEq, Eq)]
pub struct ChatMessage(pub String);

/// A session leaves a room: room, member name, session id.
#[derive(Debug, Clone, PartialEq, Eq)]
pub struct LeaveRoom(pub String, pub String, pub usize);

/// A request for the names of the rooms.
#[derive(Debug, Clone, Copy, PartialEq, Eq)]
pub struct ListRooms;

/// Text published to a room: room, sending session id, text.
#[derive(Debug, Clone, PartialEq, Eq)]
pub struct SendMessage(pub String, pub usize, pub String);

/// What travels over a room's websockets, tagged by its `type`.
#[allow(non_camel_case_types)]
#[derive(Debug, Clone, PartialEq, Eq)]
pub enum WsMessage {
    message(Message),
    reply(Text),
    system_message(Text),
    received(Text),
    pin(Message),
    unpin,
}

/// A member's message; `reliable` asks the bot to answer it.
#[allow(non_snake_case)]
#[derive(Debug, Clone, PartialEq, Eq)]
pub struct Message {
    pub name: String,
    pub iconType: i32,
    pub text: String,
    pub reliable: bool,
}

/// A bare text.
#[derive(Debug, Clone, PartialEq, Eq)]
pub struct Text {
    pub text: String,
}

} // verus!
