use wakeupscrew::fetch::FetchFailure;
use wakeupscrew::google_image::ImageTarget;
use wakeupscrew::line_api::keyword_switch::{
    answer_image, answer_page, answer_topic, fallback, read_page, switch, title_of, SwitchStep,
};
use wakeupscrew::line_api::{
    image_reply, reply_for_event, text_reply, LineEvent, LineMessage, LineMessageType, LineReply,
    LineSource,
};
use wakeupscrew::LineAPI::keyword_switch::switch as first_switch;

const NOTICE: &str = "系統轉換中，本功能目前無法使用";

fn only_text(r: &LineReply) -> String {
    assert_eq!(r.reply_token, "");
    assert_eq!(r.messages.len(), 1);
    match &r.messages[0] {
        LineMessageType::Text { text } => text.clone(),
        other => panic!("not a text message: {:?}", other),
    }
}

#[test]
fn first_rules_recognise_their_keywords() {
    assert_eq!(first_switch("abc..."), Ok(NOTICE));
    assert_eq!(first_switch("cat.jpg"), Ok(NOTICE));
    assert_eq!(first_switch("快醒醒"), Ok(NOTICE));
}

#[test]
fn first_rules_refuse_the_rest() {
    assert_eq!(first_switch("hello"), Err("no matched"));
    assert_eq!(first_switch("..."), Err("no matched"));
    assert_eq!(first_switch("a...."), Err("no matched"));
    assert_eq!(first_switch(" .jpg"), Err("no matched"));
    assert_eq!(first_switch("醒醒"), Err("no matched"));
    assert_eq!(first_switch("\n醒醒"), Err("no matched"));
    assert_eq!(first_switch(""), Err("no matched"));
}

#[test]
fn topic_before_three_dots() {
    match switch("今天天氣...") {
        SwitchStep::SearchReplies { topic } => assert_eq!(topic, "今天天氣"),
        _ => panic!("expected a reply search"),
    }
}

#[test]
fn topic_is_the_last_run_without_dots() {
    match switch("a.b…") {
        SwitchStep::SearchReplies { topic } => assert_eq!(topic, "b"),
        _ => panic!("expected a reply search"),
    }
    match switch("x y⋯") {
        SwitchStep::SearchReplies { topic } => assert_eq!(topic, "x y"),
        _ => panic!("expected a reply search"),
    }
}

#[test]
fn dots_alone_give_no_topic() {
    assert!(matches!(switch("a...."), SwitchStep::Answer(Err(_))));
    assert!(matches!(switch("…"), SwitchStep::Answer(Err(_))));
    assert!(matches!(switch("a.…"), SwitchStep::Answer(Err(_))));
}

#[test]
fn topic_rule_comes_before_image_rule() {
    match switch("cat.jpg...") {
        SwitchStep::SearchReplies { topic } => assert_eq!(topic, "jpg"),
        _ => panic!("expected a reply search"),
    }
}

#[test]
fn image_name_asks_for_an_image_search() {
    match switch("cute.cat.PNG") {
        SwitchStep::FindImage { query } => assert_eq!(query, "cute.cat"),
        _ => panic!("expected an image search"),
    }
    assert!(matches!(switch("cute cat.png"), SwitchStep::Answer(Err(_))));
    assert!(matches!(switch("cat.gif"), SwitchStep::Answer(Err(_))));
}

#[test]
fn image_address_is_answered_directly() {
    match switch("https://example.com/a.jpg") {
        SwitchStep::Answer(Ok(r)) => assert_eq!(r, image_reply("https://example.com/a.jpg".to_string())),
        _ => panic!("expected an image answer"),
    }
}

#[test]
fn plain_http_image_is_searched_by_name() {
    match switch("http://example.com/a.jpg") {
        SwitchStep::FindImage { query } => assert_eq!(query, "http://example.com/a"),
        _ => panic!("expected an image search"),
    }
}

#[test]
fn web_address_asks_for_the_page() {
    match switch("https://example.com/news?id=1") {
        SwitchStep::FetchPage { url } => assert_eq!(url, "https://example.com/news?id=1"),
        _ => panic!("expected a page fetch"),
    }
    match switch("https") {
        SwitchStep::FetchPage { url } => assert_eq!(url, "https"),
        _ => panic!("expected a page fetch"),
    }
    assert!(matches!(switch("http"), SwitchStep::Answer(Err(_))));
    assert!(matches!(switch("http://a b"), SwitchStep::Answer(Err(_))));
}

#[test]
fn wakeup_call_gets_the_notice() {
    match switch("螺絲醒醒") {
        SwitchStep::Answer(Ok(r)) => assert_eq!(only_text(&r), NOTICE),
        _ => panic!("expected the notice"),
    }
}

#[test]
fn unknown_keyword_is_not_matched() {
    match switch("hello") {
        SwitchStep::Answer(Err(e)) => assert_eq!(e, "no matched"),
        _ => panic!("expected no match"),
    }
}

#[test]
fn fallback_decides_after_a_page_without_replies() {
    assert_eq!(only_text(&fallback("http://x.tw/醒醒").unwrap()), NOTICE);
    assert_eq!(fallback("http://x.tw").unwrap_err(), "no matched");
}

#[test]
fn topic_answer_picks_one_reply() {
    let replies = vec!["甲".to_string(), "乙".to_string()];
    let text = only_text(&answer_topic(Some(replies.clone())));
    assert!(replies.contains(&text));
    assert_eq!(only_text(&answer_topic(Some(vec!["丙".to_string()]))), "丙");
}

#[test]
fn topic_without_replies_gets_the_shrug() {
    assert_eq!(only_text(&answer_topic(None)), "阿哈哈，螺絲不知道");
}

#[test]
fn image_answer() {
    let found = ImageTarget { img_url: "https://i.imgur.com/x.png".to_string(), page_url: "p".to_string() };
    assert_eq!(answer_image(Ok(found)), image_reply("https://i.imgur.com/x.png".to_string()));
    assert_eq!(only_text(&answer_image(Err("not found".to_string()))), "螺絲找不到，螺絲 QQ");
}

#[test]
fn page_answer() {
    let r = answer_page("https://a.tw", Some(vec!["好".to_string()])).unwrap();
    assert_eq!(only_text(&r), "好");
    assert_eq!(answer_page("https://a.tw", None).unwrap_err(), "no matched");
}

#[test]
fn title_is_the_first_complete_one() {
    assert_eq!(title_of("<html><title>Hello</title></html>"), Some("Hello".to_string()));
    assert_eq!(title_of("<title></title>"), Some("".to_string()));
    assert_eq!(title_of("<title>a</title><title>b</title>"), Some("a".to_string()));
    assert_eq!(title_of("<title>a\nb</title><title>c</title>"), Some("c".to_string()));
    assert_eq!(title_of("<title>a</titl"), None);
    assert_eq!(title_of("no title"), None);
    assert_eq!(title_of("<title>新聞</title>"), Some("新聞".to_string()));
}

#[test]
fn reading_a_page() {
    let page = b"<head><title>Rust</title></head>".to_vec();
    assert_eq!(read_page(Ok(page)), Ok("Rust".to_string()));
    assert_eq!(read_page(Ok(b"<p>x</p>".to_vec())), Err("keyword fetch fail".to_string()));
    assert_eq!(read_page(Err(FetchFailure::BadUri)), Err("uri parse fail".to_string()));
    assert_eq!(read_page(Err(FetchFailure::Unreachable)), Err("page fetch fail".to_string()));
    assert_eq!(read_page(Err(FetchFailure::BrokenBody)), Err("body to bytes fail".to_string()));
}

#[test]
fn reading_a_page_with_broken_utf8() {
    let mut page = b"<title>a".to_vec();
    page.push(0xff);
    page.extend_from_slice(b"b</title>");
    assert_eq!(read_page(Ok(page)), Ok("a\u{fffd}b".to_string()));
}

#[test]
fn reply_goes_back_under_the_event_token() {
    let event = LineEvent {
        kind: "message".to_string(),
        reply_token: "tok".to_string(),
        source: LineSource { user_id: "u".to_string(), kind: "user".to_string() },
        timestamp: 1,
        mode: "active".to_string(),
        message: LineMessage { kind: "text".to_string(), id: "1".to_string(), text: "hi".to_string() },
    };
    let answer = text_reply("yo".to_string());
    let r = reply_for_event(&event, Ok(answer.clone())).unwrap();
    assert_eq!(r.reply_token, "tok");
    assert_eq!(r.messages, answer.messages);
    assert_eq!(reply_for_event(&event, Err("no matched".to_string())), None);
}

#[test]
fn first_rules_ellipsis_is_a_topic_for_the_later_rules() {
    assert_eq!(first_switch("晚安..."), Ok(NOTICE));
    match switch("晚安...") {
        SwitchStep::SearchReplies { topic } => assert_eq!(topic, "晚安"),
        _ => panic!("expected a reply search"),
    }
}
