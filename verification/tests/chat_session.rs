use wakeupscrew::terminator::message::{LeaveRoom, Message, SendMessage, Text, WsMessage};
use wakeupscrew::terminator::session::{bot_verdict, Frame, SessionAction, WsChatSession};

fn session() -> WsChatSession {
    WsChatSession::new(7, "lobby".to_string(), "alice".to_string(), 3)
}

fn message(text: &str, reliable: bool) -> WsMessage {
    WsMessage::message(Message { name: "alice".to_string(), iconType: 3, text: text.to_string(), reliable })
}

#[test]
fn new_session_fields() {
    let s = session();
    assert_eq!(s.id, 7);
    assert_eq!(s.room, "lobby");
    assert_eq!(s.name, "alice");
    assert_eq!(s.iconType, 3);
}

#[test]
fn joining_a_room() {
    let mut s = session();
    let req = s.join_room("garden");
    assert_eq!(req.room, "garden");
    assert_eq!(req.name, "alice");
    s.joined("garden".to_string(), false);
    assert_eq!(s.room, "lobby");
    s.joined("garden".to_string(), true);
    assert_eq!(s.room, "garden");
    assert_eq!(s.id, 7);
}

#[test]
fn messages_of_a_session() {
    let s = session();
    assert_eq!(s.send_msg("hi".to_string()), SendMessage("lobby".to_string(), 7, "hi".to_string()));
    assert_eq!(s.leave_msg(), LeaveRoom("lobby".to_string(), "alice".to_string(), 7));
    assert_eq!(s.list_rooms(Some(vec!["a".to_string(), "b".to_string()])), vec!["a".to_string(), "b".to_string()]);
    assert!(s.list_rooms(None).is_empty());
}

#[test]
fn reliable_message_asks_the_bot() {
    let s = session();
    let raw = r#"{"type":"message","name":"alice","iconType":3,"text":"天氣","reliable":true}"#.to_string();
    let actions = s.handle(Frame::Text(raw.clone(), Some(message("天氣", true))));
    assert_eq!(actions.len(), 3);
    match &actions[0] {
        SessionAction::Relay(m) => assert_eq!(*m, SendMessage("lobby".to_string(), 7, raw)),
        _ => panic!("expected a relay"),
    }
    match &actions[1] {
        SessionAction::Announce(WsMessage::received(Text { text })) => assert_eq!(text, "bot 判斷中"),
        _ => panic!("expected the thinking notice"),
    }
    match &actions[2] {
        SessionAction::AskBot(q) => assert_eq!(q, "天氣"),
        _ => panic!("expected a bot question"),
    }
}

#[test]
fn other_frames() {
    let s = session();
    assert_eq!(s.handle(Frame::Text("x".to_string(), Some(message("x", false)))).len(), 1);
    let pin = WsMessage::pin(Message { name: "a".to_string(), iconType: 0, text: "t".to_string(), reliable: false });
    assert!(matches!(s.handle(Frame::Text("p".to_string(), Some(pin)))[..], [SessionAction::Relay(_)]));
    assert!(matches!(s.handle(Frame::Text("u".to_string(), Some(WsMessage::unpin)))[..], [SessionAction::Announce(WsMessage::unpin)]));
    assert!(s.handle(Frame::Text("{".to_string(), None)).is_empty());
    assert!(s.handle(Frame::Text("r".to_string(), Some(WsMessage::reply(Text { text: "r".to_string() })))).is_empty());
    assert!(matches!(s.handle(Frame::Broken)[..], [SessionAction::Stop]));
    assert!(matches!(s.handle(Frame::Close)[..], [SessionAction::Close, SessionAction::Stop]));
    assert!(s.handle(Frame::Other).is_empty());
}

#[test]
fn verdicts() {
    assert_eq!(bot_verdict(Some(vec!["好".to_string()])), WsMessage::reply(Text { text: "好".to_string() }));
    let pass = WsMessage::system_message(Text { text: "bot 決定跳過".to_string() });
    assert_eq!(bot_verdict(Some(vec![])), pass);
    assert_eq!(bot_verdict(None), pass);
}
