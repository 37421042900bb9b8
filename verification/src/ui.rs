//! User-facing state around the terminal core: pane layout, keyboard input
//! translation, mouse selection, and the status bar.

pub mod input;
pub mod layout;
pub mod selection;
pub mod status_bar;
