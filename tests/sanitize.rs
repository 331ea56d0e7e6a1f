use dj_cli::link::extract_link;
use dj_cli::sanitize::sanitize;
use dj_cli::text::{clean_text, contains, starts_with, trim};
use dj_cli::App;

const CANON: &str = "https://www.youtube.com/watch?v=dQw4w9WgXcQ";

#[test]
fn sanitize_extracts_full_link_from_chatter() {
    let raw = "check this out https://www.youtube.com/watch?v=dQw4w9WgXcQ&list=abc lol";
    assert_eq!(sanitize(raw), CANON);
}

#[test]
fn sanitize_extracts_short_link_without_scheme() {
    assert_eq!(sanitize("youtu.be/dQw4w9WgXcQ?t=30"), CANON);
}

#[test]
fn sanitize_strips_controls_and_squeezes_spaces() {
    assert_eq!(sanitize("hello    world\x07\x02"), "hello world");
}

#[test]
fn extract_each_shape() {
    let cases = [
        "see https://www.youtube.com/watch?v=abc_-1 now",
        "see https://youtube.com/watch?v=abc_-1&t=3",
        "https://youtu.be/abc_-1?si=x",
        "www.youtube.com/watch?v=abc_-1",
        "go to youtube.com/watch?v=abc_-1.",
        "youtu.be/abc_-1",
        "just watch?v=abc_-1 please",
    ];
    for c in cases {
        assert_eq!(
            extract_link(c),
            Some("https://www.youtube.com/watch?v=abc_-1".to_string()),
            "{}",
            c
        );
    }
}

#[test]
fn extract_prefers_full_link_over_earlier_fragment() {
    let t = "watch?v=first1 then https://youtu.be/second2";
    assert_eq!(
        extract_link(t),
        Some("https://www.youtube.com/watch?v=second2".to_string())
    );
}

#[test]
fn extract_takes_leftmost_match_of_a_shape() {
    let t = "youtu.be/one1 and youtu.be/two2";
    assert_eq!(
        extract_link(t),
        Some("https://www.youtube.com/watch?v=one1".to_string())
    );
}

#[test]
fn extract_needs_an_id_character() {
    assert_eq!(extract_link("watch?v= nothing"), None);
    assert_eq!(extract_link("https://youtu.be/?x=1 watch?v=ok"), Some("https://www.youtube.com/watch?v=ok".to_string()));
}

#[test]
fn extract_finds_nothing_in_plain_text() {
    assert_eq!(extract_link("no links here, only youtube talk"), None);
    assert_eq!(extract_link(""), None);
}

#[test]
fn plain_text_is_cleaned() {
    assert_eq!(sanitize("  a\tb\n\n c \u{a0} d  "), "a b c d");
    assert_eq!(sanitize("x\u{7f}y\u{0b}z"), "xyz");
    assert_eq!(sanitize("caf\u{e9}  \u{65e5}\u{672c}"), "caf\u{e9} \u{65e5}\u{672c}");
    assert_eq!(sanitize(""), "");
    assert_eq!(sanitize(" \t\r\n "), "");
}

#[test]
fn cleaned_text_is_cut_to_input_limit() {
    let raw = "ab".repeat(400);
    let s = sanitize(&raw);
    assert_eq!(s.chars().count(), 500);
    assert_eq!(s, "ab".repeat(250));
}

#[test]
fn paste_is_truncated_before_extraction() {
    let mut raw = "x".repeat(10000);
    raw.push_str(" https://youtu.be/late1");
    let s = sanitize(&raw);
    assert_eq!(s, "x".repeat(500));
}

#[test]
fn paste_truncation_counts_characters() {
    let mut raw = "\u{e9}".repeat(9990);
    raw.push_str("youtu.be/abcdefghijklmnop");
    assert_eq!(sanitize(&raw), "https://www.youtube.com/watch?v=a");
}

#[test]
fn sanitize_twice_changes_nothing() {
    for raw in [
        "check this out https://www.youtube.com/watch?v=dQw4w9WgXcQ&list=abc lol",
        "hello    world\x07\x02",
        "  spaced   out\ttext ",
        "",
        "\u{3000}wide\u{3000}space\u{3000}",
    ] {
        let once = sanitize(raw);
        assert_eq!(sanitize(&once), once);
    }
}

#[test]
fn clean_text_keeps_words_only() {
    assert_eq!(clean_text("\x01one\x02  two\r\nthree\x1b"), "one two three");
}

#[test]
fn app_methods_delegate() {
    let mut app = App::new();
    assert_eq!(app.sanitize_input("youtu.be/dQw4w9WgXcQ?t=30"), CANON);
    assert_eq!(app.clean_text(" a  b "), "a b");
    assert_eq!(
        app.extract_youtube_url("watch?v=dQw4w9WgXcQ"),
        Some(CANON.to_string())
    );
}

#[test]
fn string_helpers() {
    assert_eq!(trim("  \u{2003}hi there\n"), "hi there");
    assert!(contains("https://youtu.be/x", "youtu.be"));
    assert!(!contains("youtu", "youtu.be"));
    assert!(contains("abc", ""));
    assert!(starts_with("Input limit reached (500)", "Input limit"));
    assert!(!starts_with("Input", "Input limit"));
}
