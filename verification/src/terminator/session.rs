//! A member's websocket session: which room it is in, and what it does with
//! each frame it receives.

use crate::random::choose_one;
use crate::terminator::message::{LeaveRoom, SendMessage, Text, WsMessage};
use vstd::prelude::*;

verus! {

/// A websocket session of a room member.
#[allow(non_snake_case)]
#[derive(Debug, Clone, PartialEq, Eq)]
pub struct WsChatSession {
    pub id: usize,
    pub room: String,
    pub name: String,
    pub iconType: i32,
}

/// A request to join a room under a member name.
#[derive(Debug, Clone, PartialEq, Eq)]
pub struct JoinRequest {
    pub room: String,
    pub name: String,
}

/// A frame received on the websocket.
pub enum Frame {
    /// The protocol failed.
    Broken,
    /// A text frame, with what it parses to as a `WsMessage` (`None` when it
    /// does not parse).
    Text(String, Option<WsMessage>),
    /// The peer closes the socket.
    Close,
    /// Any other frame.
    Other,
}

/// What the session does, in order, for a frame.
pub enum SessionAction {
    /// Stop the session.
    Stop,
    /// Close the socket with the peer's reason.
    Close,
    /// Publish this message to the room.
    Relay(SendMessage),
    /// Publish this message, written as JSON, to the session's room.
    Announce(WsMessage),
    /// Look up the bot's replies for this text, then publish `bot_verdict`.
    AskBot(String),
}

/// The notice that the bot is thinking about a message.
pub open spec fn thinking_text() -> Seq<char> {
    "bot 判斷中"@
}

/// The notice that the bot passes on a message.
pub open spec fn pass_text() -> Seq<char> {
    "bot 決定跳過"@
}

/// `a` publishes `text` to the session's room under its id.
pub open spec fn relays(a: SessionAction, s: WsChatSession, text: Seq<char>) -> bool {
    a matches SessionAction::Relay(SendMessage(room, id, t)) && room@ == s.room@ && id == s.id
        && t@ == text
}

/// `a` announces that the bot is thinking.
pub open spec fn announces_thinking(a: SessionAction) -> bool {
    a matches SessionAction::Announce(WsMessage::received(Text { text })) && text@ == thinking_text()
}

/// `m` is a system message saying the bot passes.
pub open spec fn is_pass(m: WsMessage) -> bool {
    m matches WsMessage::system_message(Text { text }) && text@ == pass_text()
}

impl WsChatSession {
    /// A session of member `name` (with icon `iconType`) that will join `room`.
    #[allow(non_snake_case)]
    pub fn new(id: usize, room: String, name: String, iconType: i32) -> (s: Self)
        ensures
            s.id == id,
            s.room@ == room@,
            s.name@ == name@,
            s.iconType == iconType,
    {
        WsChatSession { id, room, name, iconType }
    }

    /// The request to join `room_name` under this session's member name.
    pub fn join_room(&self, room_name: &str) -> (r: JoinRequest)
        ensures
            r.room@ == room_name@,
            r.name@ == self.name@,
    {
        JoinRequest { room: room_name.to_owned(), name: self.name.clone() }
    }

    /// The answer to a join request came back: the session is in the room if
    /// the join was accepted, and stays where it was otherwise.
    pub fn joined(&mut self, room_name: String, accepted: bool)
        ensures
            final(self).id == old(self).id,
            final(self).name == old(self).name,
            final(self).iconType == old(self).iconType,
            accepted ==> final(self).room@ == room_name@,
            !accepted ==> final(self).room == old(self).room,
    {
        if accepted {
            self.room = room_name;
        }
    }

    /// The texts sent to the member for a room listing: every room name, in
    /// order; nothing when the listing failed.
    pub fn list_rooms(&self, rooms: Option<Vec<String>>) -> (r: Vec<String>)
        ensures
            match rooms {
                Some(v) => r@ == v@,
                None => r@.len() == 0,
            },
    {
        match rooms {
            Some(v) => v,
            None => Vec::new(),
        }
    }

    /// `msg` as published to the session's room under its id.
    pub fn send_msg(&self, msg: String) -> (r: SendMessage)
        ensures
            r.0@ == self.room@,
            r.1 == self.id,
            r.2@ == msg@,
    {
        SendMessage(self.room.clone(), self.id, msg)
    }

    /// The notice that the session leaves its room.
    pub fn leave_msg(&self) -> (r: LeaveRoom)
        ensures
            r.0@ == self.room@,
            r.1@ == self.name@,
            r.2 == self.id,
    {
        LeaveRoom(self.room.clone(), self.name.clone(), self.id)
    }

    /// What the session does for a frame: stop on a broken protocol; close and
    /// stop when the peer closes; for a text that parses as a member's message,
    /// relay it and, when it asks for the bot, announce that the bot is
    /// thinking and ask it; relay a pin as it is; announce an unpin; ignore
    /// everything else.
    pub fn handle(&self, frame: Frame) -> (r: Vec<SessionAction>)
        ensures
            match frame {
                Frame::Broken => r@.len() == 1 && r@[0] is Stop,
                Frame::Close => r@.len() == 2 && r@[0] is Close && r@[1] is Stop,
                Frame::Other => r@.len() == 0,
                Frame::Text(raw, parsed) => match parsed {
                    Some(WsMessage::message(m)) => if m.reliable {
                        &&& r@.len() == 3
                        &&& relays(r@[0], *self, raw@)
                        &&& announces_thinking(r@[1])
                        &&& r@[2] matches SessionAction::AskBot(q) && q@ == m.text@
                    } else {
                        r@.len() == 1 && relays(r@[0], *self, raw@)
                    },
                    Some(WsMessage::pin(_)) => r@.len() == 1 && relays(r@[0], *self, raw@),
                    Some(WsMessage::unpin) => r@.len() == 1 && r@[0] matches SessionAction::Announce(
                        WsMessage::unpin,
                    ),
                    _ => r@.len() == 0,
                },
            },
    {
        let mut actions: Vec<SessionAction> = Vec::new();
        match frame {
            Frame::Broken => {
                actions.push(SessionAction::Stop);
            },
            Frame::Close => {
                actions.push(SessionAction::Close);
                actions.push(SessionAction::Stop);
            },
            Frame::Other => {},
            Frame::Text(raw, parsed) => match parsed {
                Some(WsMessage::message(m)) => {
                    actions.push(SessionAction::Relay(self.send_msg(raw)));
                    if m.reliable {
                        actions.push(
                            SessionAction::Announce(
                                WsMessage::received(Text { text: "bot 判斷中".to_owned() }),
                            ),
                        );
                        actions.push(SessionAction::AskBot(m.text));
                    }
                },
                Some(WsMessage::pin(_)) => {
                    actions.push(SessionAction::Relay(self.send_msg(raw)));
                },
                Some(WsMessage::unpin) => {
                    actions.push(SessionAction::Announce(WsMessage::unpin));
                },
                _ => {},
            },
        }
        actions
    }
}

/// The bot's verdict on a member's message, from the replies looked up for
/// it: one of them, picked at random, as a reply; a pass when there are none.
pub fn bot_verdict(replies: Option<Vec<String>>) -> (r: WsMessage)
    ensures
        match replies {
            Some(v) => if v@.len() > 0 {
                r matches WsMessage::reply(Text { text }) && exists|i: int|
                    0 <= i < v@.len() && (#[trigger] v@[i])@ == text@
            } else {
                is_pass(r)
            },
            None => is_pass(r),
        },
{
    match replies {
        Some(v) => match choose_one(v.as_slice()) {
            Some(t) => WsMessage::reply(Text { text: t }),
            None => WsMessage::system_message(Text { text: "bot 決定跳過".to_owned() }),
        },
        None => WsMessage::system_message(Text { text: "bot 決定跳過".to_owned() }),
    }
}

} // verus!
