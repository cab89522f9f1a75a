use hackernews_tui::decimal::{decimal_len, decimal_string, padded_decimal, parse_decimal, spaces_string};
use hackernews_tui::story::{story_text_with_domain, Story, StyledSpan, TextStyle};
use hackernews_tui::story_view::StoryView;

fn flat(spans: Vec<StyledSpan>) -> String {
    spans.into_iter().map(|s| s.text).collect()
}

fn pieces(spans: Vec<StyledSpan>) -> Vec<(String, TextStyle)> {
    spans.into_iter().map(|s| (s.text, s.style)).collect()
}

fn story(id: u32, title: &str, url: &str) -> Story {
    Story {
        id,
        title: title.to_string(),
        url: url.to_string(),
        author: "pg".to_string(),
        points: 512,
        num_comments: 37,
        time: 0,
    }
}

#[test]
fn decimal_numerals() {
    assert_eq!(decimal_string(0), "0");
    assert_eq!(decimal_string(7), "7");
    assert_eq!(decimal_string(10), "10");
    assert_eq!(decimal_string(12345), "12345");
    assert_eq!(decimal_string(usize::MAX), usize::MAX.to_string());
    assert_eq!(decimal_len(0), 1);
    assert_eq!(decimal_len(99), 2);
    assert_eq!(decimal_len(100), 3);
}

#[test]
fn padding_right_aligns() {
    assert_eq!(spaces_string(0), "");
    assert_eq!(spaces_string(3), "   ");
    assert_eq!(padded_decimal(7, 3), "  7");
    assert_eq!(padded_decimal(21, 2), "21");
    assert_eq!(padded_decimal(1234, 2), "1234");
    assert_eq!(padded_decimal(5, 0), "5");
}

#[test]
fn parsing_typed_numbers() {
    assert_eq!(parse_decimal("42"), Some(42));
    assert_eq!(parse_decimal("007"), Some(7));
    assert_eq!(parse_decimal("0"), Some(0));
    assert_eq!(parse_decimal(""), None);
    let max = usize::MAX.to_string();
    assert_eq!(parse_decimal(&max), Some(usize::MAX));
    let over = format!("{}0", usize::MAX);
    assert_eq!(parse_decimal(&over), None);
}

#[test]
fn parsing_agrees_with_std() {
    for text in ["1", "20", "000", "123456789", "99999"] {
        assert_eq!(parse_decimal(text), text.parse::<usize>().ok());
    }
}

#[test]
fn story_text_with_and_without_domain() {
    let s = story(1, "Show HN: a thing", "https://example.com/x");
    assert_eq!(
        flat(story_text_with_domain(2, &s, Some("example.com"), "3 hours")),
        "Show HN: a thing (example.com)\n    512 points | by pg | 3 hours ago | 37 comments"
    );
    assert_eq!(
        flat(story_text_with_domain(0, &s, None, "1 day")),
        "Show HN: a thing\n  512 points | by pg | 1 day ago | 37 comments"
    );
}

#[test]
fn story_text_takes_domain_from_url() {
    let s = story(1, "T", "https://news.example.org:8080/path?q=1");
    assert_eq!(
        flat(StoryView::get_story_text(1, &s, "2 minutes")),
        "T (news.example.org)\n   512 points | by pg | 2 minutes ago | 37 comments"
    );
}

#[test]
fn story_text_without_domain_for_ip_or_bad_url() {
    let ip = story(1, "T", "http://127.0.0.1/page");
    assert_eq!(
        flat(StoryView::get_story_text(1, &ip, "x")),
        "T\n   512 points | by pg | x ago | 37 comments"
    );
    let empty = story(1, "Ask HN: why?", "");
    assert_eq!(
        flat(StoryView::get_story_text(1, &empty, "x")),
        "Ask HN: why?\n   512 points | by pg | x ago | 37 comments"
    );
}

#[test]
fn story_item_is_numbered() {
    let s = story(9, "Title", "https://rust-lang.org");
    assert_eq!(
        flat(StoryView::construct_story_item(&s, 3, 2, "5 hours")),
        " 3. Title (rust-lang.org)\n    512 points | by pg | 5 hours ago | 37 comments"
    );
    assert_eq!(
        flat(StoryView::construct_story_item(&s, 123, 2, "5 hours")),
        "123. Title (rust-lang.org)\n    512 points | by pg | 5 hours ago | 37 comments"
    );
}

#[test]
fn id_width_of_a_page() {
    assert_eq!(StoryView::max_id_len(0), 2);
    assert_eq!(StoryView::max_id_len(80), 3);
    assert_eq!(StoryView::max_id_len(979), 3);
    assert_eq!(StoryView::max_id_len(980), 4);
}

#[test]
fn entry_styles() {
    let s = story(9, "Title", "https://rust-lang.org/learn");
    assert_eq!(
        pieces(StoryView::construct_story_item(&s, 7, 2, "1 hour")),
        vec![
            (" 7. ".to_string(), TextStyle::Metadata),
            ("Title".to_string(), TextStyle::Title),
            (" (rust-lang.org)".to_string(), TextStyle::Link),
            ("\n".to_string(), TextStyle::Plain),
            ("    512 points | by pg | 1 hour ago | 37 comments".to_string(), TextStyle::Metadata),
        ]
    );
    let ask = story(9, "Ask HN: x", "");
    assert_eq!(
        pieces(StoryView::get_story_text(0, &ask, "2 days")),
        vec![
            ("Ask HN: x".to_string(), TextStyle::Title),
            ("\n".to_string(), TextStyle::Plain),
            ("  512 points | by pg | 2 days ago | 37 comments".to_string(), TextStyle::Metadata),
        ]
    );
}
