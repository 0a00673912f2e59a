//! The LINE messaging data the bot reads and writes, and the reply it sends
//! back for an incoming event.

use vstd::prelude::*;

pub mod keyword_switch;
pub mod laws;

verus! {

/// A message sent to the bot. `kind` is LINE's `type` field.
#[derive(Debug, Clone, PartialEq, Eq)]
pub struct LineMessage {
    pub kind: String,
    pub id: String,
    pub text: String,
}

/// Who sent an event. `kind` is LINE's `type` field.
#[derive(Debug, Clone, PartialEq, Eq)]
pub struct LineSource {
    pub user_id: String,
    pub kind: String,
}

/// One webhook event. `kind` is LINE's `type` field.
#[derive(Debug, Clone, PartialEq, Eq)]
pub struct LineEvent {
    pub kind: String,
    pub reply_token: String,
    pub source: LineSource,
    pub timestamp: i64,
    pub mode: String,
    pub message: LineMessage,
}

/// A webhook call: its events and the bot it is for.
#[derive(Debug, Clone, PartialEq, Eq)]
pub struct LineMsg {
    pub events: Vec<LineEvent>,
    pub destination: String,
}

/// A reply: the token of the event answered and the messages to send.
#[derive(Debug, Clone, PartialEq, Eq)]
pub struct LineReply {
    pub reply_token: String,
    pub messages: Vec<LineMessageType>,
}

/// The messages a reply can carry. A location's latitude and longitude are
/// held as the bit patterns of their `f64` values (`f64::to_bits`).
#[derive(Debug, Clone, PartialEq, Eq)]
pub enum LineMessageType {
    Text { text: String },
    Image { original_content_url: String, preview_image_url: String },
    Video { original_content_url: String, preview_image_url: String },
    Audio { original_content_url: String, duration: u64 },
    Location { title: String, address: String, latitude_bits: u64, longitude_bits: u64 },
    File { file_name: String, file_size: u64 },
    Sticker { package_id: String, sticker_id: String },
    Flex { alt_text: String, contents: SimpleImageFlexContainer },
}

/// A flex message that shows one image. `kind` is LINE's `type` field.
#[derive(Debug, Clone, PartialEq, Eq)]
pub struct SimpleImageFlexContainer {
    pub kind: String,
    pub hero: SimpleImageComponent,
}

/// The image of a flex message. `kind` is LINE's `type` field.
#[allow(non_snake_case)]
#[derive(Debug, Clone, PartialEq, Eq)]
pub struct SimpleImageComponent {
    pub kind: String,
    pub url: String,
    pub size: String,
    pub aspectRatio: String,
    pub aspectMode: String,
    pub action: Action,
}

/// What tapping a flex image does. `kind` is LINE's `type` field.
#[derive(Debug, Clone, PartialEq, Eq)]
pub struct Action {
    pub kind: String,
    pub uri: String,
}

/// `r` is a fresh reply (no reply token yet) with one text message `t`.
pub open spec fn is_text_reply(r: LineReply, t: Seq<char>) -> bool {
    &&& r.reply_token@ == Seq::<char>::empty()
    &&& r.messages@.len() == 1
    &&& r.messages@[0] matches LineMessageType::Text { text } && text@ == t
}

/// `r` is a fresh reply (no reply token yet) with one image whose full and
/// preview addresses are both `url`.
pub open spec fn is_image_reply(r: LineReply, url: Seq<char>) -> bool {
    &&& r.reply_token@ == Seq::<char>::empty()
    &&& r.messages@.len() == 1
    &&& r.messages@[0] matches LineMessageType::Image { original_content_url, preview_image_url }
        && original_content_url@ == url && preview_image_url@ == url
}

/// A fresh reply with one text message.
pub fn text_reply(text: String) -> (r: LineReply)
    ensures
        is_text_reply(r, text@),
{
    LineReply { reply_token: String::new(), messages: vec![LineMessageType::Text { text }] }
}

/// A fresh reply with one image, shown and previewed from `url`.
pub fn image_reply(url: String) -> (r: LineReply)
    ensures
        is_image_reply(r, url@),
{
    let preview = url.clone();
    LineReply {
        reply_token: String::new(),
        messages: vec![LineMessageType::Image { original_content_url: url, preview_image_url: preview }],
    }
}

/// The reply the webhook sends for `event` once the keyword rules have
/// answered: the answer's messages under the event's reply token, or nothing
/// when the rules gave no answer.
pub fn reply_for_event(event: &LineEvent, answer: Result<LineReply, String>) -> (r: Option<LineReply>)
    ensures
        match answer {
            Ok(a) => r matches Some(reply) && reply.reply_token@ == event.reply_token@
                && reply.messages@ == a.messages@,
            Err(_) => r is None,
        },
{
    match answer {
        Ok(a) => Some(LineReply { reply_token: event.reply_token.clone(), messages: a.messages }),
        Err(_) => None,
    }
}

} // verus!
