//! Core of a terminal emulator: a screen buffer (grid) of styled cells,
//! an ANSI/VT escape-sequence parser that drives it, and a tree of panes.

pub mod config;
pub mod search;
pub mod terminal;
pub mod ui;
pub mod util;
