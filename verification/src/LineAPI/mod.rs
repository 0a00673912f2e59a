//! The first, text-only version of the LINE messaging data.

use vstd::prelude::*;

pub mod keyword_switch;

verus! {

/// A message sent to the bot. `kind` is LINE's `type` field.
#[derive(Debug, Clone, PartialEq, Eq)]
pub struct LineMessage {
    pub kind: String,
    pub id: String,
    pub text: String,
}

/// A text message of a reply. `kind` is LINE's `type` field.
#[derive(Debug, Clone, PartialEq, Eq)]
pub struct LineReplyMessage {
    pub kind: String,
    pub text: String,
}

/// Who sent an event. `kind` is LINE's `type` field.
#[derive(Debug, Clone, PartialEq, Eq)]
pub struct LineSource {
    pub user_id: String,
    pub kind: String,
}

/// One webhook event. `kind` is LINE's `type` field.
#[derive(Debug, Clone, PartialEq, Eq)]
pub struct LineEvent {
    pub kind: String,
    pub reply_token: String,
    pub source: LineSource,
    pub timestamp: i64,
    pub mode: String,
    pub message: LineMessage,
}

/// A webhook call: its events and the bot it is for.
#[derive(Debug, Clone, PartialEq, Eq)]
pub struct LineMsg {
    pub events: Vec<LineEvent>,
    pub destination: String,
}

/// A reply: the token of the event answered and its text messages.
#[derive(Debug, Clone, PartialEq, Eq)]
pub struct LineReply {
    pub reply_token: String,
    pub messages: Vec<LineReplyMessage>,
}

} // verus!
