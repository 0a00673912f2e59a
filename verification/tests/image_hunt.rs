use wakeupscrew::fetch::{page_text, FetchFailure};
use wakeupscrew::google_image::{
    image_link_of, percent_encode, read_search_page, search_uri, uses_tls, HuntEvent, HuntPhase,
    HuntStep, ImageHunt, ImageTarget, MAX_SEARCHES,
};

#[test]
fn percent_encoding_of_ascii_and_utf8() {
    assert_eq!(percent_encode("a b"), "a%20b");
    assert_eq!(percent_encode("<\"`>"), "%3C%22%60%3E");
    assert_eq!(percent_encode("x/y?z=1&w"), "x/y?z=1&w");
    assert_eq!(percent_encode("今"), "%E4%BB%8A");
    assert_eq!(percent_encode("\t\u{7f}"), "%09%7F");
}

#[test]
fn search_address() {
    assert_eq!(
        search_uri("cat dog"),
        "https://www.google.com/search?q=cat%20dog&espv=2&biw=1920&bih=966&site=webhp&source=lnms&tbm=isch&sa=X&ei=XosDVaCXD8TasATItgE&ved=0CAcQ_AUoAg&safe=active"
    );
}

#[test]
fn image_link_in_a_search_page() {
    let page = r#"var a=["x",1];b=["https://img.tw/cat.jpg",480,640],["http://c.tw/d.png",1,2]"#;
    assert_eq!(image_link_of(page), Some("https://img.tw/cat.jpg".to_string()));
}

#[test]
fn image_link_needs_both_numbers() {
    assert_eq!(image_link_of(r#"["https://img.tw/cat.jpg",480]"#), None);
    assert_eq!(image_link_of(r#"["https://img.tw/cat.jpg",,1]"#), None);
    assert_eq!(
        image_link_of(r#"["https://img.tw/cat.jpg",4,x]["http://b.tw/e.JPEG",1,2]"#),
        Some("http://b.tw/e.JPEG".to_string())
    );
}

#[test]
fn image_link_numbers_may_be_any_decimal_digits() {
    assert_eq!(
        image_link_of("[\"https://img.tw/cat.jpeg\",\u{661}\u{662},\u{ff13}]"),
        Some("https://img.tw/cat.jpeg".to_string())
    );
}

#[test]
fn image_link_needs_http_and_an_image_extension() {
    assert_eq!(image_link_of(r#"["ftp://img.tw/cat.jpg",1,2]"#), None);
    assert_eq!(image_link_of(r#"["https://img.tw/cat.gif",1,2]"#), None);
    assert_eq!(image_link_of(r#"["http.jpg",1,2]"#), None);
    assert_eq!(image_link_of(r#"["httpx.jpg",1,2]"#), Some("httpx.jpg".to_string()));
}

#[test]
fn search_page_outcome() {
    let page = br#"["https://img.tw/a.png",1,2]"#.to_vec();
    assert_eq!(
        read_search_page(Ok(page.clone()), 0),
        Ok(ImageTarget { img_url: "https://img.tw/a.png".to_string(), page_url: "https://img.tw/a.png".to_string() })
    );
    assert_eq!(read_search_page(Ok(page), 1), Err("img_url not found".to_string()));
    assert_eq!(read_search_page(Ok(b"nothing".to_vec()), 0), Err("img_url not found".to_string()));
    assert_eq!(read_search_page(Err(FetchFailure::Unreachable), 0), Err("page fetch fail".to_string()));
}

#[test]
fn page_text_of_fetches() {
    assert_eq!(page_text(Ok(b"abc".to_vec())), Ok("abc".to_string()));
    assert_eq!(page_text(Err(FetchFailure::BadUri)), Err("uri parse fail".to_string()));
}

#[test]
fn tls_for_https_only() {
    assert!(uses_tls("https://a.tw/x.png"));
    assert!(!uses_tls("http://a.tw/x.png"));
}

fn target(url: &str, page: &str) -> ImageTarget {
    ImageTarget { img_url: url.to_string(), page_url: page.to_string() }
}

#[test]
fn hunt_that_succeeds_first_time() {
    let (mut hunt, first) = ImageHunt::new();
    assert!(matches!(first, HuntStep::Search { num: 0 }));
    match hunt.step(HuntEvent::Searched(Ok(target("https://a/x.png", "https://a/page")))) {
        HuntStep::Download { url } => assert_eq!(url, "https://a/x.png"),
        _ => panic!("expected a download"),
    }
    assert!(matches!(hunt.step(HuntEvent::Downloaded(true)), HuntStep::Upload));
    match hunt.step(HuntEvent::Uploaded(Ok("https://i.imgur.com/y.png".to_string()))) {
        HuntStep::Finish(Ok(t)) => assert_eq!(t, target("https://i.imgur.com/y.png", "https://a/page")),
        _ => panic!("expected a finished hunt"),
    }
    assert_eq!(hunt.phase, HuntPhase::Finished);
}

#[test]
fn hunt_stops_on_a_failed_search() {
    let (mut hunt, _) = ImageHunt::new();
    match hunt.step(HuntEvent::Searched(Err("img_url not found".to_string()))) {
        HuntStep::Finish(Err(m)) => assert_eq!(m, "img_url not found"),
        _ => panic!("expected the search error"),
    }
}

#[test]
fn hunt_retries_then_gives_up() {
    let (mut hunt, _) = ImageHunt::new();
    let mut searches = 1;
    loop {
        let next = hunt.step(HuntEvent::Searched(Ok(target("u", "p"))));
        assert!(matches!(next, HuntStep::Download { .. }));
        let next = if searches % 2 == 0 {
            hunt.step(HuntEvent::Downloaded(false))
        } else {
            assert!(matches!(hunt.step(HuntEvent::Downloaded(true)), HuntStep::Upload));
            hunt.step(HuntEvent::Uploaded(Err("upload request fail".to_string())))
        };
        match next {
            HuntStep::Search { num } => {
                assert_eq!(num, searches);
                searches += 1;
            }
            HuntStep::Finish(Err(m)) => {
                assert_eq!(m, "not found");
                break;
            }
            _ => panic!("unexpected step"),
        }
    }
    assert_eq!(searches, MAX_SEARCHES);
}
