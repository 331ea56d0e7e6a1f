//! Session state: the input field, the status line, the download status and
//! the download history, and how keys, pastes and finished downloads change
//! them.
//!
//! The terminal loop and the downloads themselves run outside: a key that
//! submits a link hands back a `DownloadJob`, and the outcome comes back
//! through `finish_download`.
use vstd::prelude::*;
use vstd::string::*;
use crate::link::extract_link;
use crate::link::extracted;
use crate::sanitize::{sanitize, sanitized, MAX_INPUT_LENGTH, MAX_PASTE_LENGTH};
use crate::text::{
    begins, char_is_control, clean_text, cleaned, contains, decimal, holds, is_control,
    push_char, push_decimal, starts_with, trim, trimmed,
};

verus! {

pub const WELCOME_MESSAGE: &'static str = "Paste a YouTube URL and press Enter to download MP3";

pub const LIMIT_MESSAGE: &'static str = "Input limit reached (500 characters)";

pub const LIMIT_PREFIX: &'static str = "Input limit reached";

pub const LARGE_PREFIX: &'static str = "Large input sanitized";

pub const LARGE_HEAD: &'static str = "Large input sanitized: ";

pub const LARGE_ARROW: &'static str = " → ";

pub const LARGE_TAIL: &'static str = " chars (extracted URL or cleaned text)";

pub const CLEANED_MESSAGE: &'static str = "Input cleaned and URL extracted";

pub const PASTE_HINT: &'static str =
    "💡 Paste detected! Press F5 to clean and extract URL from pasted content";

pub const EMPTY_URL_MESSAGE: &'static str = "Please enter a YouTube URL";

pub const INVALID_URL_MESSAGE: &'static str = "Please enter a valid YouTube URL";

pub const TOOL_MISSING_MESSAGE: &'static str =
    "yt-dlp not found. Please install: brew install yt-dlp";

pub const TOOL_FAILED_MESSAGE: &'static str =
    "Download failed. Check if the YouTube URL is valid and accessible.";

pub const FOLDER_MESSAGE: &'static str = "Could not read the download folder";

pub const DOWNLOADING_128: &'static str = "🎵 Downloading MP3 at 128kbps... Please wait";

pub const DOWNLOADING_256: &'static str = "🎵 Downloading MP3 at 256kbps... Please wait";

pub const DOWNLOADED_PREFIX: &'static str = "✅ Downloaded: ";

pub const SUCCESS_PREFIX: &'static str = "✅ Successfully downloaded: ";

pub const ERROR_PREFIX: &'static str = "Download failed: ";

pub const FAILED_PREFIX: &'static str = "❌ Download failed: ";

pub const WATCH_HOST: &'static str = "youtube.com";

pub const SHORT_HOST: &'static str = "youtu.be";

/// The status of the most recent download.
#[derive(Debug, Clone)]
pub enum DownloadStatus {
    /// No download yet.
    Idle,
    /// A download runs.
    Downloading,
    /// The last download ended well; what was written.
    Success(String),
    /// The last download failed; why.
    Error(String),
}

/// Which element has the keyboard.
#[derive(Debug, Clone, Copy, PartialEq, Eq, Structural)]
pub enum Focus {
    Input,
}

/// The audio bitrate asked of the extraction tool.
#[derive(Debug, Clone, Copy, PartialEq, Eq, Structural)]
pub enum Bitrate {
    Kbps128,
    Kbps256,
}

/// What can go wrong with one download.
#[derive(Debug, Clone, Copy, PartialEq, Eq, Structural)]
pub enum DownloadError {
    /// The input was blank.
    EmptyInput,
    /// The input names no YouTube host.
    InvalidHost,
    /// The extraction tool could not be started.
    ToolUnavailable,
    /// The extraction tool ran and failed.
    ExtractionFailed,
    /// The download folder could not be read.
    FilesystemError,
}

/// One download to perform.
#[derive(Debug)]
pub struct DownloadJob {
    pub url: String,
    pub bitrate: Bitrate,
}

/// A key as the session sees it.
#[derive(Debug, Clone, Copy, PartialEq, Eq, Structural)]
pub enum KeyCode {
    Esc,
    Enter,
    Backspace,
    Delete,
    Tab,
    F(u8),
    Char(char),
    Other,
}

/// A key press, with whether Control was held.
#[derive(Debug, Clone, Copy, PartialEq, Eq, Structural)]
pub struct Key {
    pub code: KeyCode,
    pub ctrl: bool,
}

/// Application state.
#[derive(Debug)]
pub struct App {
    /// Whether the application keeps running.
    pub running: bool,
    /// The text in the input field.
    pub input: String,
    /// The status line.
    pub status_message: String,
    /// The status of the most recent download.
    pub download_status: DownloadStatus,
    /// Which element has the keyboard.
    pub focus: Focus,
    /// The names of the files downloaded so far, oldest first.
    pub download_history: Vec<String>,
}

impl Bitrate {
    pub open spec fn kbps_spec(self) -> u32 {
        match self {
            Bitrate::Kbps128 => 128,
            Bitrate::Kbps256 => 256,
        }
    }

    /// The bitrate in kilobits per second.
    pub fn kbps(&self) -> (r: u32)
        ensures
            r == self.kbps_spec(),
    {
        match self {
            Bitrate::Kbps128 => 128,
            Bitrate::Kbps256 => 256,
        }
    }
}

/// The status line while a download at `b` runs.
pub open spec fn downloading_text(b: Bitrate) -> Seq<char> {
    match b {
        Bitrate::Kbps128 => DOWNLOADING_128@,
        Bitrate::Kbps256 => DOWNLOADING_256@,
    }
}

/// What the user is told of `e`.
pub open spec fn error_text(e: DownloadError) -> Seq<char> {
    match e {
        DownloadError::EmptyInput => EMPTY_URL_MESSAGE@,
        DownloadError::InvalidHost => INVALID_URL_MESSAGE@,
        DownloadError::ToolUnavailable => TOOL_MISSING_MESSAGE@,
        DownloadError::ExtractionFailed => TOOL_FAILED_MESSAGE@,
        DownloadError::FilesystemError => FOLDER_MESSAGE@,
    }
}

impl DownloadError {
    /// What the user is told of this error.
    pub fn message(&self) -> (r: String)
        ensures
            r@ == error_text(*self),
    {
        let text: &str = match self {
            DownloadError::EmptyInput => EMPTY_URL_MESSAGE,
            DownloadError::InvalidHost => INVALID_URL_MESSAGE,
            DownloadError::ToolUnavailable => TOOL_MISSING_MESSAGE,
            DownloadError::ExtractionFailed => TOOL_FAILED_MESSAGE,
            DownloadError::FilesystemError => FOLDER_MESSAGE,
        };
        String::from_str(text)
    }
}

/// `s` names a YouTube host.
pub open spec fn names_host(s: Seq<char>) -> bool {
    holds(s, WATCH_HOST@) || holds(s, SHORT_HOST@)
}

/// The status line after a paste of `len` characters that sanitized to
/// `now` characters.
pub open spec fn large_notice(len: nat, now: nat) -> Seq<char> {
    LARGE_HEAD@ + decimal(len) + LARGE_ARROW@ + decimal(now) + LARGE_TAIL@
}

/// The state at the start of a session.
pub open spec fn fresh(a: App) -> bool {
    &&& a.running
    &&& a.input@ == Seq::<char>::empty()
    &&& a.status_message@ == WELCOME_MESSAGE@
    &&& a.download_status is Idle
    &&& a.focus == Focus::Input
    &&& a.download_history@ == Seq::<String>::empty()
}

/// `new` is `old` with character `c` typed: refused with a notice once the
/// input holds `MAX_INPUT_LENGTH` characters, ignored if it is a control
/// character other than tab, and otherwise appended, clearing a notice about
/// the input's length.
pub open spec fn typed(old: App, new: App, c: char) -> bool {
    &&& new == App { input: new.input, status_message: new.status_message, ..old }
    &&& if old.input@.len() >= MAX_INPUT_LENGTH {
        new.input@ == old.input@ && new.status_message@ == LIMIT_MESSAGE@
    } else if is_control(c) && c != '\t' {
        new.input@ == old.input@ && new.status_message@ == old.status_message@
    } else {
        &&& new.input@ == old.input@.push(c)
        &&& new.status_message@ == if begins(old.status_message@, LIMIT_PREFIX@) || begins(
            old.status_message@,
            LARGE_PREFIX@,
        ) {
            Seq::empty()
        } else {
            old.status_message@
        }
    }
}

/// `new` is `old` with `text` pasted: the input becomes the sanitized text,
/// and where sanitizing changed it the status line says so.
pub open spec fn pasted(old: App, new: App, text: Seq<char>) -> bool {
    &&& new == App { input: new.input, status_message: new.status_message, ..old }
    &&& new.input@ == sanitized(text)
    &&& new.status_message@ == if sanitized(text) != text {
        if text.len() > MAX_PASTE_LENGTH {
            large_notice(text.len(), sanitized(text).len())
        } else {
            CLEANED_MESSAGE@
        }
    } else {
        old.status_message@
    }
}

/// `new` is `old` once a download of `old`'s input at `b` was asked for,
/// with `r` handed back: refused with a notice where the trimmed input is
/// blank or names no YouTube host; otherwise the job for the trimmed input,
/// with the status set to downloading and the input cleared.
pub open spec fn started(old: App, new: App, b: Bitrate, r: Result<DownloadJob, DownloadError>) -> bool {
    let url = trimmed(old.input@);
    if url.len() == 0 {
        &&& r == Err::<DownloadJob, DownloadError>(DownloadError::EmptyInput)
        &&& new == App { status_message: new.status_message, ..old }
        &&& new.status_message@ == EMPTY_URL_MESSAGE@
    } else if !names_host(url) {
        &&& r == Err::<DownloadJob, DownloadError>(DownloadError::InvalidHost)
        &&& new == App { status_message: new.status_message, ..old }
        &&& new.status_message@ == INVALID_URL_MESSAGE@
    } else {
        &&& r is Ok
        &&& r->Ok_0.url@ == url
        &&& r->Ok_0.bitrate == b
        &&& new == App {
            input: new.input,
            status_message: new.status_message,
            download_status: DownloadStatus::Downloading,
            ..old
        }
        &&& new.input@ == Seq::<char>::empty()
        &&& new.status_message@ == downloading_text(b)
    }
}

/// `new` is `old` once a download ended with `outcome`: the file's name, or
/// the error.
pub open spec fn finished(old: App, new: App, outcome: Result<String, DownloadError>) -> bool {
    &&& new.running == old.running
    &&& new.input == old.input
    &&& new.focus == old.focus
    &&& match outcome {
        Ok(name) => {
            &&& new.download_status matches DownloadStatus::Success(path) && path@
                == DOWNLOADED_PREFIX@ + name@
            &&& new.status_message@ == SUCCESS_PREFIX@ + DOWNLOADED_PREFIX@ + name@
            &&& new.download_history@ == old.download_history@.push(name)
        },
        Err(e) => {
            &&& new.download_status matches DownloadStatus::Error(text) && text@ == ERROR_PREFIX@
                + error_text(e)
            &&& new.status_message@ == FAILED_PREFIX@ + ERROR_PREFIX@ + error_text(e)
            &&& new.download_history == old.download_history
        },
    }
}

/// The bitrate a key submits the input at, if it submits it.
pub open spec fn submit_rate(key: Key) -> Option<Bitrate> {
    match key.code {
        KeyCode::Enter => Some(Bitrate::Kbps128),
        KeyCode::Char(c) => if key.ctrl && c == '1' {
            Some(Bitrate::Kbps128)
        } else if key.ctrl && c == '2' {
            Some(Bitrate::Kbps256)
        } else {
            None
        },
        _ => None,
    }
}

/// The key quits: Control-C, or Escape.
pub open spec fn quits(key: Key) -> bool {
    (key.ctrl && key.code == KeyCode::Char('c')) || key.code == KeyCode::Esc
}

/// `new` is `old` after `key`, with `r` handed back.
pub open spec fn key_effect(old: App, new: App, key: Key, r: Option<DownloadJob>) -> bool {
    if quits(key) {
        new == App { running: false, ..old } && r is None
    } else if submit_rate(key) is Some {
        if old.download_status is Downloading {
            new == old && r is None
        } else {
            exists|res: Result<DownloadJob, DownloadError>|
                started(old, new, submit_rate(key)->0, res) && r == match res {
                    Ok(job) => Some(job),
                    Err(_) => None::<DownloadJob>,
                }
        }
    } else {
        &&& r is None
        &&& match key.code {
            KeyCode::Backspace => new == App { input: new.input, ..old } && new.input@
                == if old.input@.len() > 0 {
                old.input@.drop_last()
            } else {
                old.input@
            },
            KeyCode::Delete => new == App { input: new.input, ..old } && new.input@
                == Seq::<char>::empty(),
            KeyCode::F(n) => if n == 5 && old.input@.len() > 0 {
                pasted(old, new, old.input@)
            } else {
                new == old
            },
            KeyCode::Char(c) => if !key.ctrl {
                typed(old, new, c)
            } else if c == 'v' {
                new == App { status_message: new.status_message, ..old }
                    && new.status_message@ == PASTE_HINT@
            } else {
                new == old
            },
            _ => new == old,
        }
    }
}

impl App {
    /// A session at its start: running, empty input, a welcome line, no
    /// download yet.
    pub fn new() -> (r: Self)
        ensures
            fresh(r),
    {
        App {
            running: true,
            input: String::new(),
            status_message: String::from_str(WELCOME_MESSAGE),
            download_status: DownloadStatus::Idle,
            focus: Focus::Input,
            download_history: Vec::new(),
        }
    }

    /// The text in the input field.
    pub fn input_value(&self) -> (r: &str)
        ensures
            r@ == self.input@,
    {
        self.input.as_str()
    }

    /// Whether the input field has the keyboard; it is the only element
    /// that can.
    pub fn is_input_focused(&self) -> (r: bool)
        ensures
            r,
    {
        true
    }

    /// What pasted text becomes (see `sanitized`).
    pub fn sanitize_input(&mut self, input: &str) -> (r: String)
        ensures
            r@ == sanitized(input@),
            *final(self) == *old(self),
    {
        sanitize(input)
    }

    /// The canonical watch link that `text` holds, if any (see `extracted`).
    pub fn extract_youtube_url(&self, text: &str) -> (r: Option<String>)
        ensures
            match r {
                Some(u) => extracted(text@) == Some(u@),
                None => extracted(text@) is None,
            },
    {
        extract_link(text)
    }

    /// `text` cleaned (see `cleaned`).
    pub fn clean_text(&self, text: &str) -> (r: String)
        ensures
            r@ == cleaned(text@),
    {
        clean_text(text)
    }

    /// Types `c` into the input field (see `typed`).
    pub fn handle_char_input(&mut self, c: char)
        ensures
            typed(*old(self), *final(self), c),
            old(self).input@.len() >= MAX_INPUT_LENGTH ==> final(self).input@ == old(self).input@,
            final(self).input@ == old(self).input@ || (final(self).input@ == old(self).input@.push(c)
                && !(is_control(c) && c != '\t')),
    {
        if self.input.as_str().unicode_len() >= MAX_INPUT_LENGTH {
            self.status_message = String::from_str(LIMIT_MESSAGE);
            return;
        }
        if char_is_control(c) && c != '\t' {
            return;
        }
        push_char(&mut self.input, c);
        if starts_with(self.status_message.as_str(), LIMIT_PREFIX) || starts_with(
            self.status_message.as_str(),
            LARGE_PREFIX,
        ) {
            self.status_message = String::new();
        }
    }

    /// Replaces the input with `pasted_text` sanitized (see `pasted`).
    pub fn handle_paste(&mut self, pasted_text: &str)
        ensures
            pasted(*old(self), *final(self), pasted_text@),
    {
        let original_len = pasted_text.unicode_len();
        let clean = self.sanitize_input(pasted_text);
        if clean.as_str().unicode_len() != original_len || !same_text(clean.as_str(), pasted_text) {
            if original_len > MAX_PASTE_LENGTH {
                let mut notice = String::from_str(LARGE_HEAD);
                push_decimal(&mut notice, original_len);
                notice.append(LARGE_ARROW);
                push_decimal(&mut notice, clean.as_str().unicode_len());
                notice.append(LARGE_TAIL);
                self.status_message = notice;
            } else {
                self.status_message = String::from_str(CLEANED_MESSAGE);
            }
        }
        self.input = clean;
    }

    /// Asks for a download of the input at `bitrate` (see `started`).
    pub fn start_download(&mut self, bitrate: Bitrate) -> (r: Result<DownloadJob, DownloadError>)
        ensures
            started(*old(self), *final(self), bitrate, r),
    {
        let url = trim(self.input.as_str());
        if url.as_str().unicode_len() == 0 {
            self.status_message = String::from_str(EMPTY_URL_MESSAGE);
            return Err(DownloadError::EmptyInput);
        }
        if !contains(url.as_str(), WATCH_HOST) && !contains(url.as_str(), SHORT_HOST) {
            self.status_message = String::from_str(INVALID_URL_MESSAGE);
            return Err(DownloadError::InvalidHost);
        }
        self.download_status = DownloadStatus::Downloading;
        self.status_message = match bitrate {
            Bitrate::Kbps128 => String::from_str(DOWNLOADING_128),
            Bitrate::Kbps256 => String::from_str(DOWNLOADING_256),
        };
        self.input = String::new();
        Ok(DownloadJob { url, bitrate })
    }

    /// Records how a download ended (see `finished`).
    pub fn finish_download(&mut self, outcome: Result<String, DownloadError>)
        ensures
            finished(*old(self), *final(self), outcome),
    {
        match outcome {
            Ok(name) => {
                let mut path = String::from_str(DOWNLOADED_PREFIX);
                path.append(name.as_str());
                let mut line = String::from_str(SUCCESS_PREFIX);
                line.append(path.as_str());
                assert(line@ =~= SUCCESS_PREFIX@ + DOWNLOADED_PREFIX@ + name@);
                self.download_status = DownloadStatus::Success(path);
                self.status_message = line;
                self.download_history.push(name);
            },
            Err(e) => {
                let mut text = String::from_str(ERROR_PREFIX);
                text.append(e.message().as_str());
                let mut line = String::from_str(FAILED_PREFIX);
                line.append(text.as_str());
                assert(line@ =~= FAILED_PREFIX@ + ERROR_PREFIX@ + error_text(e));
                self.download_status = DownloadStatus::Error(text);
                self.status_message = line;
            },
        }
    }

    /// Handles one key press (see `key_effect`); a key that submits the
    /// input hands back the download to perform, or leaves a notice where
    /// the input is blank or names no YouTube host. While a download runs,
    /// keys that submit do nothing.
    pub fn handle_key_event(&mut self, key: Key) -> (r: Option<DownloadJob>)
        ensures
            key_effect(*old(self), *final(self), key, r),
    {
        if key.ctrl && key.code == KeyCode::Char('c') {
            self.running = false;
            return None;
        }
        let rate = match key.code {
            KeyCode::Enter => Some(Bitrate::Kbps128),
            KeyCode::Char(c) => if key.ctrl && c == '1' {
                Some(Bitrate::Kbps128)
            } else if key.ctrl && c == '2' {
                Some(Bitrate::Kbps256)
            } else {
                None
            },
            _ => None,
        };
        if let Some(b) = rate {
            let busy = match self.download_status {
                DownloadStatus::Downloading => true,
                _ => false,
            };
            if busy {
                return None;
            }
            let res = self.start_download(b);
            return match res {
                Ok(job) => Some(job),
                Err(_) => None,
            };
        }
        match key.code {
            KeyCode::Esc => {
                self.running = false;
            },
            KeyCode::Backspace => {
                let n = self.input.as_str().unicode_len();
                if n > 0 {
                    self.input = String::from_str(self.input.as_str().substring_char(0, n - 1));
                }
            },
            KeyCode::Delete => {
                self.input = String::new();
            },
            KeyCode::F(n) => {
                if n == 5 && self.input.as_str().unicode_len() > 0 {
                    let original = self.input.clone();
                    self.handle_paste(original.as_str());
                }
            },
            KeyCode::Char(c) => {
                if !key.ctrl {
                    self.handle_char_input(c);
                } else if c == 'v' {
                    self.status_message = String::from_str(PASTE_HINT);
                }
            },
            _ => {},
        }
        None
    }
}

/// Longest file name, in characters, shown whole in the history.
pub const SHOWN_NAME_LIMIT: usize = 50;

/// How much of a longer name is shown before the ellipsis.
pub const SHOWN_NAME_KEEP: usize = 47;

pub const ELLIPSIS: &'static str = "...";

/// How a file name is shown in the history.
pub open spec fn shown_name(s: Seq<char>) -> Seq<char> {
    if s.len() > SHOWN_NAME_LIMIT {
        s.take(SHOWN_NAME_KEEP as int) + ELLIPSIS@
    } else {
        s
    }
}

/// A file name as the history shows it: cut to `SHOWN_NAME_KEEP`
/// characters and an ellipsis where longer than `SHOWN_NAME_LIMIT`.
pub fn short_name(name: &str) -> (r: String)
    ensures
        r@ == shown_name(name@),
{
    if name.unicode_len() > SHOWN_NAME_LIMIT {
        let mut s = String::from_str(name.substring_char(0, SHOWN_NAME_KEEP));
        s.append(ELLIPSIS);
        s
    } else {
        String::from_str(name)
    }
}

/// Whether two strings hold the same characters.
fn same_text(a: &str, b: &str) -> (r: bool)
    ensures
        r == (a@ == b@),
{
    let x = crate::text::chars_of(a);
    let y = crate::text::chars_of(b);
    if x.len() != y.len() {
        return false;
    }
    let mut i: usize = 0;
    while i < x.len()
        invariant
            x@ == a@,
            y@ == b@,
            x.len() == y.len(),
            0 <= i <= x.len(),
            forall|m: int| 0 <= m < i ==> x@[m] == y@[m],
        decreases x.len() - i,
    {
        if x[i] != y[i] {
            return false;
        }
        i = i + 1;
    }
    assert(x@ =~= y@);
    true
}

impl Default for App {
    fn default() -> (r: Self)
        ensures
            fresh(r),
    {
        Self::new()
    }
}

} // verus!
