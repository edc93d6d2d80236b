//! The result of a command that ran to completion.

use vstd::prelude::*;

verus! {

/// Result of a captured command.
#[derive(Debug)]
pub struct CommandResult {
    pub stdout: String,
    pub stderr: String,
    /// The exit code; `None` when the command did not exit by itself.
    pub status: Option<i32>,
}

impl CommandResult {
    /// Whether the command exited with code zero.
    pub fn success(&self) -> (r: bool)
        ensures
            r == (self.status == Some(0i32)),
    {
        match self.status {
            Some(code) => code == 0,
            None => false,
        }
    }

    /// The exit code.
    pub fn code(&self) -> (r: Option<i32>)
        ensures
            r == self.status,
    {
        self.status
    }
}

} // verus!
