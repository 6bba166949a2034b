//! State machines that drive a process to its end without doing any I/O.
//!
//! A coroutine is resumed until it ends. Each call of `resume` returns at
//! once: with a request for a runtime, with the outcome, or with an error.
//! An outcome or an error is the last thing a coroutine yields.

use vstd::prelude::*;
use crate::command::Command;

pub mod spawn_then_wait;
pub mod spawn_then_wait_with_output;

verus! {

/// Where a coroutine stands.
pub enum State {
    /// It holds the description and has yet to hand it out.
    Pending(Command),
    /// It has handed the description out and waits for the answer.
    Dispatched,
    /// It has yielded its outcome or an error, and is done for good.
    Ended,
}

/// The two coroutines name the kind they wait for differently, so that an
/// `InvalidArgument` tells which of them was handed the wrong value.
pub proof fn lemma_labels_differ()
    ensures
        spawn_then_wait::expected()@ != spawn_then_wait_with_output::expected()@,
{
    reveal_strlit("spawn status");
    reveal_strlit("spawn output");
    assert("spawn status"@[6] != "spawn output"@[6]);
}

} // verus!
