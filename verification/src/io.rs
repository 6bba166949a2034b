//! What a coroutine asks of a runtime, and what the runtime answers.

use vstd::prelude::*;
use crate::command::Command;
use crate::status::{SpawnOutput, SpawnStatus};

verus! {

/// The two kinds of work that a runtime does for a coroutine.
#[derive(Debug, Clone, Copy, PartialEq, Eq)]
pub enum IoKind {
    /// Spawn a process and wait for its exit status.
    SpawnThenWait,
    /// Spawn a process and wait for its exit status and all it wrote.
    SpawnThenWaitWithOutput,
}

/// A request to a runtime or the runtime's answer to it, tagged by the kind
/// of work.
///
/// `Err(command)` asks: spawn what `command` describes. `Ok(outcome)`
/// answers: this is how it ended. A runtime answers a request with a value
/// of the same kind; where it could not start the process it may hand the
/// description back unchanged.
#[derive(Debug)]
pub enum ProcessIo {
    /// Spawn a process and wait for its exit status.
    SpawnThenWait(Result<SpawnStatus, Command>),
    /// Spawn a process and wait for its exit status and all it wrote.
    SpawnThenWaitWithOutput(Result<SpawnOutput, Command>),
}

impl ProcessIo {
    /// The kind of work that the value belongs to.
    pub open spec fn spec_kind(&self) -> IoKind {
        match self {
            ProcessIo::SpawnThenWait(_) => IoKind::SpawnThenWait,
            ProcessIo::SpawnThenWaitWithOutput(_) => IoKind::SpawnThenWaitWithOutput,
        }
    }

    /// The description that the value carries, if it is a request.
    pub open spec fn command(&self) -> Option<Command> {
        match self {
            ProcessIo::SpawnThenWait(Err(command)) => Some(*command),
            ProcessIo::SpawnThenWaitWithOutput(Err(command)) => Some(*command),
            _ => None,
        }
    }

    /// Whether the value asks for work, rather than reporting an outcome.
    pub open spec fn spec_is_request(&self) -> bool {
        self.command() is Some
    }

    /// Whether `self` is an answer that a runtime may give to `request`: of
    /// the same kind, and either an outcome or the description of the
    /// request handed back.
    pub open spec fn answers(&self, request: &ProcessIo) -> bool {
        &&& request.spec_is_request()
        &&& self.spec_kind() == request.spec_kind()
        &&& self.spec_is_request() ==> self.command() == request.command()
    }

    /// The kind of work that the value belongs to.
    #[verifier::when_used_as_spec(spec_kind)]
    pub fn kind(&self) -> (kind: IoKind)
        ensures
            kind == self.spec_kind(),
    {
        match self {
            ProcessIo::SpawnThenWait(_) => IoKind::SpawnThenWait,
            ProcessIo::SpawnThenWaitWithOutput(_) => IoKind::SpawnThenWaitWithOutput,
        }
    }

    /// Whether the value asks for work, rather than reporting an outcome.
    #[verifier::when_used_as_spec(spec_is_request)]
    pub fn is_request(&self) -> (asks: bool)
        ensures
            asks == self.spec_is_request(),
    {
        match self {
            ProcessIo::SpawnThenWait(Err(_)) => true,
            ProcessIo::SpawnThenWaitWithOutput(Err(_)) => true,
            _ => false,
        }
    }
}

} // verus!
