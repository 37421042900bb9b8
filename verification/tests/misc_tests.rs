//! Tests for the status bar, the PTY read batching buffer, and the terminal
//! configuration defaults.

use warp_foss::config::settings::TerminalConfig;
use warp_foss::terminal::pty::PtyConfig;
use warp_foss::terminal::pty::PtyError;
use warp_foss::terminal::pty::PtyReader;
use warp_foss::ui::status_bar::StatusBar;

#[test]
fn test_status_bar_creation() {
    let status_bar = StatusBar::new();
    assert!(status_bar.current_dir.is_empty());
    assert!(status_bar.git_branch.is_none());
    assert!(status_bar.visible);
}

#[test]
fn test_status_bar_toggle() {
    let mut status_bar = StatusBar::new();
    assert!(status_bar.is_visible());

    status_bar.toggle();
    assert!(!status_bar.is_visible());

    status_bar.toggle();
    assert!(status_bar.is_visible());
}

#[test]
fn test_status_bar_update_and_branch() {
    let mut status_bar = StatusBar::new();
    status_bar.update("/tmp/somewhere");
    assert_eq!(status_bar.current_dir, "/tmp/somewhere");
    assert!(status_bar.git_branch.is_none());
    status_bar.set_git_branch(Some("main".to_string()));
    assert_eq!(status_bar.git_branch.as_deref(), Some("main"));
}

#[test]
fn test_pty_reader_batching() {
    let mut reader = PtyReader::new();
    assert!(!reader.has_batched_data());
    assert_eq!(reader.batched_len(), 0);

    reader.feed(b"hel");
    reader.feed(b"lo");
    assert!(reader.has_batched_data());
    assert_eq!(reader.batched_len(), 5);

    let batch = reader.take_batch();
    assert_eq!(batch, b"hello".to_vec());
    assert!(!reader.has_batched_data());
    assert_eq!(reader.batched_len(), 0);
}

#[test]
fn test_pty_reader_clear() {
    let mut reader = PtyReader::new();
    reader.feed(b"data");
    reader.clear_batch();
    assert!(!reader.has_batched_data());
    assert_eq!(reader.take_batch(), Vec::<u8>::new());
}

#[test]
fn test_pty_config_default() {
    let config = PtyConfig::default();
    assert!(config.shell.is_none());
    assert_eq!(config.cols, 80);
    assert_eq!(config.rows, 24);
    assert!(config.working_dir.is_none());
    assert!(config.env.is_empty());
}

#[test]
fn test_pty_error_values() {
    let e = PtyError::ReadError("broken pipe".to_string());
    assert_eq!(e, PtyError::ReadError("broken pipe".to_string()));
    assert_ne!(e, PtyError::NotInitialized);
    assert_ne!(PtyError::ShellNotFound, PtyError::NotInitialized);
}

#[test]
fn test_terminal_config_default() {
    let config = TerminalConfig::default();
    assert_eq!(config.cols, 120);
    assert_eq!(config.rows, 40);
    assert!(config.shell.is_none());
    assert!(config.working_dir.is_none());
    assert!(config.env.is_empty());
}
