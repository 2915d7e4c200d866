use crawler_core::model::{
    AudioPlay, BookContent, ChapterItem, EpisodeItem, MangaContent, PlayLine, SearchItem,
    TrackItem, VideoPlay,
};
use crawler_core::webview::{WebViewCloseReason, WebViewRequest, WebViewResponse};

#[test]
fn test_search_item_builders() {
    let item = SearchItem::new("T".to_string(), "u".to_string())
        .with_cover("c")
        .with_author("a")
        .with_summary("s");
    assert_eq!(item.title, "T");
    assert_eq!(item.cover.as_deref(), Some("c"));
    assert_eq!(item.author.as_deref(), Some("a"));
    assert_eq!(item.summary.as_deref(), Some("s"));
}

#[test]
fn test_play_line() {
    let mut line = PlayLine::new("HD");
    line.add_episode(EpisodeItem::new("1", "/e1"));
    line.add_episode(EpisodeItem::new("2", "/e2"));
    assert_eq!(line.episodes.len(), 2);
    assert_eq!(line.episodes[1].url, "/e2");
}

#[test]
fn test_book_content() {
    let c = BookContent::new("body")
        .with_title("ch1")
        .with_pagination(Some("/p".to_string()), None);
    assert_eq!(c.content, "body");
    assert_eq!(c.title.as_deref(), Some("ch1"));
    assert_eq!(c.prev_url.as_deref(), Some("/p"));
    assert!(c.next_url.is_none());
}

#[test]
fn test_manga_content() {
    let mut c = MangaContent::new(vec!["/1.png".to_string()]).with_title("ch");
    c.add_image("/2.png");
    assert_eq!(c.images.len(), 2);
    assert_eq!(c.images[1], "/2.png");
}

#[test]
fn test_track_and_plays() {
    let t = TrackItem::new("n", "u").with_duration("3:14");
    assert_eq!(t.duration.as_deref(), Some("3:14"));
    let a = AudioPlay::new("stream").with_title("t").with_artist("ar");
    assert_eq!(a.play_url, "stream");
    assert_eq!(a.artist.as_deref(), Some("ar"));
    let v = VideoPlay::new("stream").with_title("t").with_quality("1080p");
    assert_eq!(v.quality.as_deref(), Some("1080p"));
    let ch = ChapterItem::new("c", "/c");
    assert_eq!(ch.title, "c");
}

#[test]
fn test_webview_request_builders() {
    let r = WebViewRequest::new("https://gate")
        .with_title("t")
        .with_tip("wait")
        .with_user_agent("ua")
        .with_timeout(30)
        .with_success_check("done()")
        .with_check_interval(100)
        .with_cookie("k", "v")
        .with_inject_script("init()")
        .with_finish_script("grab()")
        .with_extract_cookies(vec!["cf".to_string()]);
    assert_eq!(r.url, "https://gate");
    assert_eq!(r.timeout_secs, 30);
    assert_eq!(r.check_interval_ms, 100);
    assert_eq!(r.initial_cookies, vec![("k".to_string(), "v".to_string())]);
    assert_eq!(r.extract_cookies, Some(vec!["cf".to_string()]));
    assert!(r.allow_redirects);
}

#[test]
fn test_webview_response_builders() {
    let ok = WebViewResponse::success()
        .with_cookies(vec![("s".to_string(), "1".to_string())])
        .with_headers(vec![("h".to_string(), "2".to_string())])
        .with_final_url("https://end")
        .with_script_result("out");
    assert!(ok.success);
    assert_eq!(ok.close_reason, WebViewCloseReason::Success);
    assert_eq!(ok.final_url.as_deref(), Some("https://end"));
    assert_eq!(ok.script_result.as_deref(), Some("out"));

    let bad = WebViewResponse::failure(WebViewCloseReason::Timeout, Some("slow".to_string()));
    assert!(!bad.success);
    assert_eq!(bad.close_reason, WebViewCloseReason::Timeout);
    assert_eq!(bad.error.as_deref(), Some("slow"));
}
