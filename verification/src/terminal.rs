//! Terminal core: screen buffer, escape-sequence parser, and PTY data types.

pub mod grid;
pub mod parser;
pub mod pty;
