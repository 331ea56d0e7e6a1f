use dj_cli::app::{short_name, Bitrate, DownloadError, Key, KeyCode};
use dj_cli::{App, DownloadStatus, Focus};

fn key(code: KeyCode) -> Key {
    Key { code, ctrl: false }
}

fn ctrl(c: char) -> Key {
    Key { code: KeyCode::Char(c), ctrl: true }
}

fn typed(app: &mut App, s: &str) {
    for c in s.chars() {
        app.handle_char_input(c);
    }
}

#[test]
fn new_session_state() {
    let app = App::new();
    assert!(app.running);
    assert_eq!(app.input_value(), "");
    assert_eq!(app.status_message, "Paste a YouTube URL and press Enter to download MP3");
    assert!(matches!(app.download_status, DownloadStatus::Idle));
    assert_eq!(app.focus, Focus::Input);
    assert!(app.download_history.is_empty());
    assert!(app.is_input_focused());
    let d = App::default();
    assert_eq!(d.status_message, app.status_message);
}

#[test]
fn typing_appends_characters() {
    let mut app = App::new();
    typed(&mut app, "ab\tc\u{e9}");
    assert_eq!(app.input_value(), "ab\tc\u{e9}");
}

#[test]
fn control_characters_are_ignored() {
    let mut app = App::new();
    typed(&mut app, "a\x07\n\r\x1b\u{7f}\u{85}b");
    assert_eq!(app.input_value(), "ab");
}

#[test]
fn full_input_refuses_more() {
    let mut app = App::new();
    typed(&mut app, &"x".repeat(500));
    assert_eq!(app.input.chars().count(), 500);
    for c in ['y', '\t', '\u{7}', '\u{e9}'] {
        app.handle_char_input(c);
        assert_eq!(app.input.chars().count(), 500);
    }
    assert_eq!(app.status_message, "Input limit reached (500 characters)");
    app.handle_key_event(key(KeyCode::Backspace));
    assert_eq!(app.input.chars().count(), 499);
    app.handle_char_input('z');
    assert_eq!(app.status_message, "");
    assert!(app.input.ends_with('z'));
}

#[test]
fn other_status_survives_typing() {
    let mut app = App::new();
    app.handle_char_input('q');
    assert_eq!(app.status_message, "Paste a YouTube URL and press Enter to download MP3");
}

#[test]
fn paste_cleans_and_says_so() {
    let mut app = App::new();
    app.handle_paste("look youtu.be/dQw4w9WgXcQ?t=30");
    assert_eq!(app.input_value(), "https://www.youtube.com/watch?v=dQw4w9WgXcQ");
    assert_eq!(app.status_message, "Input cleaned and URL extracted");
}

#[test]
fn paste_of_clean_text_keeps_status() {
    let mut app = App::new();
    app.handle_paste("already clean");
    assert_eq!(app.input_value(), "already clean");
    assert_eq!(app.status_message, "Paste a YouTube URL and press Enter to download MP3");
}

#[test]
fn large_paste_reports_sizes() {
    let mut app = App::new();
    let raw = "y".repeat(10001);
    app.handle_paste(&raw);
    assert_eq!(app.input.chars().count(), 500);
    assert_eq!(
        app.status_message,
        "Large input sanitized: 10001 → 500 chars (extracted URL or cleaned text)"
    );
    app.handle_key_event(key(KeyCode::Delete));
    app.handle_char_input('k');
    assert_eq!(app.status_message, "");
}

#[test]
fn blank_input_gives_empty_input_error() {
    let mut app = App::new();
    typed(&mut app, "   ");
    assert_eq!(app.start_download(Bitrate::Kbps128).err(), Some(DownloadError::EmptyInput));
    assert_eq!(app.status_message, "Please enter a YouTube URL");
    assert_eq!(app.input_value(), "   ");
}

#[test]
fn foreign_host_gives_invalid_host_error() {
    let mut app = App::new();
    typed(&mut app, "https://vimeo.com/123");
    assert_eq!(app.start_download(Bitrate::Kbps256).err(), Some(DownloadError::InvalidHost));
    assert_eq!(app.status_message, "Please enter a valid YouTube URL");
    assert_eq!(app.input_value(), "https://vimeo.com/123");
}

#[test]
fn start_download_hands_out_trimmed_job() {
    let mut app = App::new();
    typed(&mut app, "  https://youtu.be/abc ");
    let job = app.start_download(Bitrate::Kbps256).unwrap();
    assert_eq!(job.url, "https://youtu.be/abc");
    assert_eq!(job.bitrate, Bitrate::Kbps256);
    assert_eq!(job.bitrate.kbps(), 256);
    assert!(matches!(app.download_status, DownloadStatus::Downloading));
    assert_eq!(app.status_message, "🎵 Downloading MP3 at 256kbps... Please wait");
    assert_eq!(app.input_value(), "");
}

#[test]
fn finished_download_goes_to_history() {
    let mut app = App::new();
    app.finish_download(Ok("Song.mp3".to_string()));
    match &app.download_status {
        DownloadStatus::Success(p) => assert_eq!(p, "✅ Downloaded: Song.mp3"),
        other => panic!("unexpected {:?}", other),
    }
    assert_eq!(app.status_message, "✅ Successfully downloaded: ✅ Downloaded: Song.mp3");
    assert_eq!(app.download_history, vec!["Song.mp3".to_string()]);
}

#[test]
fn failed_downloads_report_their_cause() {
    let cases = [
        (
            DownloadError::ToolUnavailable,
            "Download failed: yt-dlp not found. Please install: brew install yt-dlp",
        ),
        (
            DownloadError::ExtractionFailed,
            "Download failed: Download failed. Check if the YouTube URL is valid and accessible.",
        ),
        (
            DownloadError::FilesystemError,
            "Download failed: Could not read the download folder",
        ),
    ];
    for (e, text) in cases {
        let mut app = App::new();
        app.finish_download(Err(e));
        match &app.download_status {
            DownloadStatus::Error(t) => assert_eq!(t, text),
            other => panic!("unexpected {:?}", other),
        }
        assert_eq!(app.status_message, format!("❌ Download failed: {}", text));
        assert!(app.download_history.is_empty());
    }
    assert_eq!(DownloadError::EmptyInput.message(), "Please enter a YouTube URL");
    assert_eq!(DownloadError::InvalidHost.message(), "Please enter a valid YouTube URL");
}

#[test]
fn keys_quit() {
    let mut app = App::new();
    assert!(app.handle_key_event(ctrl('c')).is_none());
    assert!(!app.running);
    let mut app = App::new();
    app.handle_key_event(key(KeyCode::Esc));
    assert!(!app.running);
}

#[test]
fn keys_edit_input() {
    let mut app = App::new();
    for c in "abc".chars() {
        app.handle_key_event(key(KeyCode::Char(c)));
    }
    assert_eq!(app.input_value(), "abc");
    app.handle_key_event(ctrl('x'));
    assert_eq!(app.input_value(), "abc");
    app.handle_key_event(key(KeyCode::Backspace));
    assert_eq!(app.input_value(), "ab");
    app.handle_key_event(key(KeyCode::Tab));
    assert_eq!(app.input_value(), "ab");
    app.handle_key_event(key(KeyCode::Delete));
    assert_eq!(app.input_value(), "");
    app.handle_key_event(key(KeyCode::Backspace));
    assert_eq!(app.input_value(), "");
}

#[test]
fn f5_cleans_the_input() {
    let mut app = App::new();
    typed(&mut app, "see  watch?v=dQw4w9WgXcQ ok");
    app.handle_key_event(key(KeyCode::F(5)));
    assert_eq!(app.input_value(), "https://www.youtube.com/watch?v=dQw4w9WgXcQ");
    assert_eq!(app.status_message, "Input cleaned and URL extracted");
    app.handle_key_event(key(KeyCode::F(4)));
    assert_eq!(app.input_value(), "https://www.youtube.com/watch?v=dQw4w9WgXcQ");
}

#[test]
fn ctrl_v_shows_hint() {
    let mut app = App::new();
    app.handle_key_event(ctrl('v'));
    assert_eq!(
        app.status_message,
        "💡 Paste detected! Press F5 to clean and extract URL from pasted content"
    );
}

#[test]
fn submit_keys_pick_bitrate() {
    for (k, rate) in [
        (key(KeyCode::Enter), Bitrate::Kbps128),
        (ctrl('1'), Bitrate::Kbps128),
        (ctrl('2'), Bitrate::Kbps256),
    ] {
        let mut app = App::new();
        typed(&mut app, "youtu.be/abc");
        let job = app.handle_key_event(k).expect("a job");
        assert_eq!(job.bitrate, rate);
        assert_eq!(job.url, "youtu.be/abc");
        typed(&mut app, "youtu.be/def");
        assert!(app.handle_key_event(k).is_none());
        assert_eq!(app.input_value(), "youtu.be/def");
        assert!(matches!(app.download_status, DownloadStatus::Downloading));
    }
}

#[test]
fn blank_submit_asks_for_a_link() {
    let mut app = App::new();
    typed(&mut app, "  ");
    assert!(app.handle_key_event(key(KeyCode::Enter)).is_none());
    assert_eq!(app.status_message, "Please enter a YouTube URL");
    assert_eq!(app.input_value(), "  ");
    typed(&mut app, "x");
    assert!(app.handle_key_event(key(KeyCode::Enter)).is_none());
    assert_eq!(app.status_message, "Please enter a valid YouTube URL");
}

#[test]
fn long_names_are_shortened() {
    assert_eq!(short_name("short.mp3"), "short.mp3");
    let long = format!("{}.mp3", "n".repeat(60));
    assert_eq!(short_name(&long), format!("{}...", "n".repeat(47)));
    let fifty = "m".repeat(50);
    assert_eq!(short_name(&fifty), fifty);
}
