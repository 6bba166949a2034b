//! What a runtime does with a request before it touches the operating
//! system: find out what is to be run.
//!
//! Spawning and waiting are the runtime's own business. What is decided
//! here is the same for every runtime, blocking or not: whether a value is
//! a request at all, and what exactly the process is started with.

use vstd::prelude::*;
use crate::command::Command;
use crate::envs::EnvMap;
use crate::expand::Ambient;
use crate::io::{IoKind, ProcessIo};
use crate::stdio::Stdio;
use crate::text::texts;

verus! {

/// A process to start, after expansion: every field is as the operating
/// system is to receive it.
#[derive(Debug)]
pub struct Invocation {
    /// The program to run.
    pub program: String,
    /// The arguments, in order; empty where the description had none.
    pub args: Vec<String>,
    /// Variables to set for the child on top of those it inherits.
    pub envs: Option<EnvMap>,
    /// Working directory of the child.
    pub current_dir: Option<String>,
    /// Where the child's standard input comes from.
    pub stdin: Option<Stdio>,
    /// Where the child's standard output goes.
    pub stdout: Option<Stdio>,
    /// Where the child's standard error goes.
    pub stderr: Option<Stdio>,
}

/// Why a runtime cannot act on a value.
#[derive(Debug, Clone, Copy, PartialEq, Eq)]
pub enum HandleError {
    /// The value carries an outcome, not a description: there is nothing
    /// to run.
    MissingCommand,
}

impl HandleError {
    /// The error in words.
    pub fn message(&self) -> (text: &'static str)
        ensures
            text@ == "missing command"@,
    {
        "missing command"
    }
}

/// Whether `invocation` is what `command` asks to start when expansions
/// draw on `ambient`.
pub open spec fn invokes(invocation: Invocation, command: Command, ambient: Ambient) -> bool {
    &&& invocation.program@ == command@.resolved_program(ambient@)
    &&& texts(invocation.args@) == match command@.resolved_args(ambient@) {
        Some(args) => args,
        None => Seq::<Seq<char>>::empty(),
    }
    &&& invocation.envs == command.envs
    &&& invocation.current_dir == command.current_dir
    &&& invocation.stdin == command.stdin
    &&& invocation.stdout == command.stdout
    &&& invocation.stderr == command.stderr
}

impl Invocation {
    /// What `command` asks to start: its program and arguments as a runtime
    /// reads them, and everything else as it stands in the description.
    pub fn new(command: Command, ambient: &Ambient) -> (invocation: Self)
        ensures
            invokes(invocation, command, *ambient),
    {
        let program = command.get_program(ambient);
        let args = match command.get_args(ambient) {
            Some(args) => args,
            None => Vec::new(),
        };
        proof {
            if command@.resolved_args(ambient@) is None {
                assert(texts(args@) =~= Seq::<Seq<char>>::empty());
            }
        }
        Invocation {
            program,
            args,
            envs: command.envs,
            current_dir: command.current_dir,
            stdin: command.stdin,
            stdout: command.stdout,
            stderr: command.stderr,
        }
    }
}

/// What `io` asks a runtime to do: the kind of work and the process to
/// start. A value that carries an outcome asks for nothing and is refused.
pub fn prepare(io: ProcessIo, ambient: &Ambient) -> (work: Result<
    (IoKind, Invocation),
    HandleError,
>)
    ensures
        match work {
            Ok((kind, invocation)) => {
                &&& io.command() is Some
                &&& kind == io.spec_kind()
                &&& invokes(invocation, io.command()->0, *ambient)
            },
            Err(error) => io.command() is None && error == HandleError::MissingCommand,
        },
{
    match io {
        ProcessIo::SpawnThenWait(Err(command)) => Ok(
            (IoKind::SpawnThenWait, Invocation::new(command, ambient)),
        ),
        ProcessIo::SpawnThenWaitWithOutput(Err(command)) => Ok(
            (IoKind::SpawnThenWaitWithOutput, Invocation::new(command, ambient)),
        ),
        _ => Err(HandleError::MissingCommand),
    }
}

} // verus!
