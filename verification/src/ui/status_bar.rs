//! Status bar for displaying current directory and git branch
//!
//! Holds the state behind a status bar at the bottom of the terminal: the
//! working directory, the git branch, and visibility. Discovering the
//! branch requires running a subprocess, so the embedding layer computes it
//! and hands the result in.

use vstd::prelude::*;

verus! {

/// Status bar information
#[derive(Debug, Clone)]
pub struct StatusBar {
    /// Current working directory
    pub current_dir: String,
    /// Git branch (None if not in a git repo)
    pub git_branch: Option<String>,
    /// Whether the status bar is visible
    pub visible: bool,
}

impl StatusBar {
    /// Create a new status bar
    pub fn new() -> (r: Self)
        ensures
            r.current_dir@ == Seq::<char>::empty(),
            r.git_branch is None,
            r.visible,
    {
        StatusBar { current_dir: String::new(), git_branch: None, visible: true }
    }

    /// Update the status bar with the current directory. The git branch is
    /// stale after a directory change until the embedding layer supplies a
    /// fresh one.
    pub fn update(&mut self, dir: &str)
        ensures
            final(self).current_dir@ == dir@,
            final(self).git_branch is None,
            final(self).visible == old(self).visible,
    {
        self.current_dir = dir.to_owned();
        self.git_branch = None;
    }

    /// Record the git branch that the embedding layer discovered for the
    /// current directory.
    pub fn set_git_branch(&mut self, branch: Option<String>)
        ensures
            final(self).current_dir == old(self).current_dir,
            final(self).git_branch == branch,
            final(self).visible == old(self).visible,
    {
        self.git_branch = branch;
    }

    /// Toggle status bar visibility
    pub fn toggle(&mut self)
        ensures
            final(self).visible == !old(self).visible,
            final(self).current_dir == old(self).current_dir,
            final(self).git_branch == old(self).git_branch,
    {
        self.visible = !self.visible;
    }

    /// Check if status bar is visible
    pub fn is_visible(&self) -> (r: bool)
        ensures
            r == self.visible,
    {
        self.visible
    }
}

impl Default for StatusBar {
    fn default() -> (r: Self)
        ensures
            r.current_dir@ == Seq::<char>::empty(),
            r.git_branch is None,
            r.visible,
    {
        Self::new()
    }
}

} // verus!
