//! What is known of a process once it has ended.

use vstd::prelude::*;
use crate::stdio::Stdio;

verus! {

/// How a process ended: with an exit code, or with none when something
/// other than the process itself ended it.
#[derive(Debug, Clone, Copy, PartialEq, Eq)]
pub struct ExitStatus {
    pub code: Option<i32>,
}

impl ExitStatus {
    /// The status of a process that ended with `code`.
    pub fn from_code(code: i32) -> (status: Self)
        ensures
            status.code == Some(code),
    {
        ExitStatus { code: Some(code) }
    }

    /// Whether the process ended with code zero.
    pub open spec fn spec_success(&self) -> bool {
        self.code == Some(0i32)
    }

    /// Whether the process ended with code zero.
    #[verifier::when_used_as_spec(spec_success)]
    pub fn success(&self) -> (ok: bool)
        ensures
            ok == self.spec_success(),
    {
        match self.code {
            Some(code) => code == 0,
            None => false,
        }
    }
}

/// The outcome of spawning a process and waiting for it: its exit status,
/// and the streams that the runtime kept open so that they can be connected
/// to a later process.
#[derive(Debug)]
pub struct SpawnStatus {
    pub status: ExitStatus,
    pub stdin: Option<Stdio>,
    pub stdout: Option<Stdio>,
    pub stderr: Option<Stdio>,
}

/// The outcome of spawning a process and collecting what it wrote: its exit
/// status and the whole of its standard output and standard error.
#[derive(Debug)]
pub struct SpawnOutput {
    pub status: ExitStatus,
    pub stdout: Vec<u8>,
    pub stderr: Vec<u8>,
}

} // verus!
