//! A terminal helper that takes a pasted YouTube link, or messy text holding
//! one, and has an external tool save its audio as MP3.
//!
//! The verified core: cleaning pasted text and finding the link in it
//! (`text`, `link`, `sanitize`), the session state that keys and finished
//! downloads change (`app`), the batch runs (`batch`), and working out which
//! file a download wrote (`resolve`).
pub mod app;
pub mod batch;
pub mod link;
pub mod resolve;
pub mod sanitize;
pub mod text;

pub use app::{App, DownloadStatus, Focus};
