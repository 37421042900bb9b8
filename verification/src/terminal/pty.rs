//! PTY (pseudo-terminal) data types and read batching.
//!
//! The actual pseudo-terminal (spawning a shell, reading and writing file
//! descriptors) is an external collaborator; this module holds the plain
//! configuration and error values it exchanges with the core, and the
//! batching buffer that accumulates raw bytes between parse passes.

use vstd::prelude::*;

verus! {

/// Errors that can occur during PTY operations
#[derive(Debug, Clone, PartialEq, Eq)]
pub enum PtyError {
    CreationFailed(String),
    SpawnFailed(String),
    ReadError(String),
    WriteError(String),
    ResizeError(String),
    NotInitialized,
    ShellNotFound,
}

/// Result type for PTY operations
pub type PtyResult<T> = Result<T, PtyError>;

/// Configuration for PTY session
#[derive(Debug, Clone)]
pub struct PtyConfig {
    /// Shell command to spawn (defaults to $SHELL or /bin/sh)
    pub shell: Option<String>,
    /// Initial terminal width in columns
    pub cols: u16,
    /// Initial terminal height in rows
    pub rows: u16,
    /// Working directory for the shell
    pub working_dir: Option<String>,
    /// Environment variables to set
    pub env: Vec<(String, String)>,
}

impl Default for PtyConfig {
    fn default() -> (r: Self)
        ensures
            r.shell is None,
            r.cols == 80,
            r.rows == 24,
            r.working_dir is None,
            r.env@ == Seq::<(String, String)>::empty(),
    {
        PtyConfig {
            shell: None,
            cols: 80,
            rows: 24,
            working_dir: None,
            env: Vec::new(),
        }
    }
}

/// Buffer that accumulates bytes read off a PTY for batched processing.
///
/// Bytes are appended in read order and handed out in one batch, so the
/// parser sees them in exactly the order they arrived.
pub struct PtyReader {
    /// Buffer for batched reads
    read_buffer: Vec<u8>,
}

impl PtyReader {
    /// The bytes not yet taken, in arrival order.
    pub closed spec fn pending(&self) -> Seq<u8> {
        self.read_buffer@
    }

    /// Create an empty batching buffer.
    pub fn new() -> (r: Self)
        ensures
            r.pending() == Seq::<u8>::empty(),
    {
        let r = PtyReader { read_buffer: Vec::new() };
        proof {
            assert(r.pending() =~= Seq::<u8>::empty());
        }
        r
    }

    /// Append freshly read bytes to the batch, preserving their order.
    pub fn feed(&mut self, bytes: &[u8])
        ensures
            final(self).pending() == old(self).pending() + bytes@,
    {
        self.read_buffer.extend_from_slice(bytes);
        proof {
            assert(final(self).pending() =~= old(self).pending() + bytes@);
        }
    }

    /// Take all accumulated batched data and clear the internal buffer.
    ///
    /// Returns the accumulated bytes and clears the buffer for the next batch.
    pub fn take_batch(&mut self) -> (r: Vec<u8>)
        ensures
            r@ == old(self).pending(),
            final(self).pending() == Seq::<u8>::empty(),
    {
        let mut out: Vec<u8> = Vec::new();
        core::mem::swap(&mut out, &mut self.read_buffer);
        proof {
            assert(final(self).pending() =~= Seq::<u8>::empty());
        }
        out
    }

    /// Check if there is accumulated batched data available.
    pub fn has_batched_data(&self) -> (r: bool)
        ensures
            r == (self.pending().len() > 0),
    {
        self.read_buffer.len() > 0
    }

    /// Get the amount of batched data currently accumulated.
    pub fn batched_len(&self) -> (r: usize)
        ensures
            r == self.pending().len(),
    {
        self.read_buffer.len()
    }

    /// Clear the internal batch buffer without processing.
    pub fn clear_batch(&mut self)
        ensures
            final(self).pending() == Seq::<u8>::empty(),
    {
        self.read_buffer.clear();
        proof {
            assert(final(self).pending() =~= Seq::<u8>::empty());
        }
    }
}

} // verus!
