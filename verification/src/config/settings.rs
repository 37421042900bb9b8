//! Application settings loaded from a config file.
//!
//! Reading and writing the file on disk, and the serialization format, live
//! with the embedding layer; this module holds the plain terminal settings
//! the core consumes.

use vstd::prelude::*;

verus! {

/// Terminal configuration
#[derive(Debug, Clone)]
pub struct TerminalConfig {
    /// Shell command to spawn (defaults to $SHELL or /bin/sh)
    pub shell: Option<String>,
    /// Initial terminal width in columns
    pub cols: u16,
    /// Initial terminal height in rows
    pub rows: u16,
    /// Working directory for the shell (empty means current directory)
    pub working_dir: Option<String>,
    /// Environment variables to set
    pub env: Vec<(String, String)>,
}

impl Default for TerminalConfig {
    fn default() -> (r: Self)
        ensures
            r.shell is None,
            r.cols == 120,
            r.rows == 40,
            r.working_dir is None,
            r.env@ == Seq::<(String, String)>::empty(),
    {
        TerminalConfig { shell: None, cols: 120, rows: 40, working_dir: None, env: Vec::new() }
    }
}

} // verus!
