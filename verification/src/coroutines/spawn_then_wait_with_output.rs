//! Spawn a process and wait for its exit status and all that it wrote.

use vstd::prelude::*;
use crate::command::Command;
use crate::coroutines::State;
use crate::io::{IoKind, ProcessIo};
use crate::status::SpawnOutput;

verus! {

/// Why the coroutine could not go on.
#[derive(Debug)]
pub enum SpawnThenWaitWithOutputError {
    /// The coroutine was handed a value of another kind than the one it
    /// waits for. Holds the kind that it waits for, in words, and what
    /// came.
    InvalidArgument(&'static str, ProcessIo),
    /// The coroutine was resumed though it has no description left to hand
    /// out, or has ended.
    NotInitialized,
}

/// What one call of `resume` yields.
#[derive(Debug)]
pub enum SpawnThenWaitWithOutputResult {
    /// The process has ended; the coroutine is done.
    Done(SpawnOutput),
    /// A runtime has to process this request before the coroutine is
    /// resumed with the answer.
    Io(ProcessIo),
    /// The coroutine failed.
    Failed(SpawnThenWaitWithOutputError),
}

/// The kind of response that the coroutine waits for, in words.
pub open spec fn expected() -> &'static str {
    "spawn output"
}

/// The request by which the coroutine hands out `command`.
pub open spec fn request(command: Command) -> SpawnThenWaitWithOutputResult {
    SpawnThenWaitWithOutputResult::Io(ProcessIo::SpawnThenWaitWithOutput(Err(command)))
}

/// The outcome with which the coroutine ends.
pub open spec fn done(output: SpawnOutput) -> SpawnThenWaitWithOutputResult {
    SpawnThenWaitWithOutputResult::Done(output)
}

/// The error for a value of the other kind, which is handed back in it.
pub open spec fn refused(got: ProcessIo) -> SpawnThenWaitWithOutputResult {
    let error = SpawnThenWaitWithOutputError::InvalidArgument(expected(), got);
    SpawnThenWaitWithOutputResult::Failed(error)
}

/// The error of a coroutine that has nothing left to do.
pub open spec fn not_initialized() -> SpawnThenWaitWithOutputResult {
    SpawnThenWaitWithOutputResult::Failed(SpawnThenWaitWithOutputError::NotInitialized)
}

/// Whether `result` ends the coroutine: an outcome or an error does, a
/// request does not.
pub open spec fn is_terminal(result: SpawnThenWaitWithOutputResult) -> bool {
    result is Done || result is Failed
}

/// The next state and what is yielded when a coroutine in `state` is
/// resumed with `arg`.
///
/// A coroutine that has ended is not initialized, whatever it is resumed
/// with. Before that, resumed without a response, it hands out its
/// description in a request of its own kind, or ends as not initialized
/// where it has handed it out already. Resumed with an outcome of its own
/// kind, it ends with that outcome. Resumed with a description of its own
/// kind, which a runtime hands back where it could not start the process,
/// it requests that description again and stays as it is. Resumed with a
/// value of the other kind, it ends with that value refused.
pub open spec fn step(state: State, arg: Option<ProcessIo>) -> (
    State,
    SpawnThenWaitWithOutputResult,
) {
    match (state, arg) {
        (State::Ended, _) => (State::Ended, not_initialized()),
        (State::Pending(command), None) => (State::Dispatched, request(command)),
        (State::Dispatched, None) => (State::Ended, not_initialized()),
        (_, Some(ProcessIo::SpawnThenWaitWithOutput(Ok(output)))) => (State::Ended, done(output)),
        (_, Some(ProcessIo::SpawnThenWaitWithOutput(Err(command)))) => (state, request(command)),
        (_, Some(other)) => (State::Ended, refused(other)),
    }
}

/// Spawns a process and waits for its exit status together with the whole
/// of what it wrote to its standard output and standard error.
#[derive(Debug)]
pub struct SpawnThenWaitWithOutput {
    cmd: Option<Command>,
    ended: bool,
}

impl View for SpawnThenWaitWithOutput {
    type V = State;

    closed spec fn view(&self) -> State {
        if self.ended {
            State::Ended
        } else {
            match self.cmd {
                Some(command) => State::Pending(command),
                None => State::Dispatched,
            }
        }
    }
}

impl SpawnThenWaitWithOutput {
    /// A coroutine that has yet to hand out `command`.
    pub fn new(command: Command) -> (coroutine: Self)
        ensures
            coroutine@ == State::Pending(command),
    {
        SpawnThenWaitWithOutput { cmd: Some(command), ended: false }
    }

    /// Makes the coroutine progress, as `step` says. The call returns at
    /// once and performs no I/O.
    pub fn resume(&mut self, arg: Option<ProcessIo>) -> (result: SpawnThenWaitWithOutputResult)
        ensures
            (final(self)@, result) == step(old(self)@, arg),
    {
        if self.ended {
            let err = SpawnThenWaitWithOutputError::NotInitialized;
            return SpawnThenWaitWithOutputResult::Failed(err);
        }
        match arg {
            None => match self.cmd.take() {
                Some(command) => {
                    let io = ProcessIo::SpawnThenWaitWithOutput(Err(command));
                    SpawnThenWaitWithOutputResult::Io(io)
                },
                None => {
                    self.ended = true;
                    let err = SpawnThenWaitWithOutputError::NotInitialized;
                    SpawnThenWaitWithOutputResult::Failed(err)
                },
            },
            Some(ProcessIo::SpawnThenWaitWithOutput(Ok(output))) => {
                self.cmd = None;
                self.ended = true;
                SpawnThenWaitWithOutputResult::Done(output)
            },
            Some(ProcessIo::SpawnThenWaitWithOutput(Err(command))) => {
                let io = ProcessIo::SpawnThenWaitWithOutput(Err(command));
                SpawnThenWaitWithOutputResult::Io(io)
            },
            Some(other) => {
                self.cmd = None;
                self.ended = true;
                let err = SpawnThenWaitWithOutputError::InvalidArgument("spawn output", other);
                SpawnThenWaitWithOutputResult::Failed(err)
            },
        }
    }
}

/// The state of a coroutine that started in `start` once it has been
/// resumed with each of `args` in turn.
pub open spec fn state_after(start: State, args: Seq<Option<ProcessIo>>) -> State
    decreases args.len(),
{
    if args.len() == 0 {
        start
    } else {
        step(state_after(start, args.drop_last()), args.last()).0
    }
}

/// What the call numbered `at` yields when a coroutine that started in
/// `start` is resumed with each of `args` in turn.
pub open spec fn result_at(start: State, args: Seq<Option<ProcessIo>>, at: int)
    -> SpawnThenWaitWithOutputResult {
    step(state_after(start, args.take(at)), args[at]).1
}

/// The state after the first `at + 1` calls is one step from the state
/// after the first `at`.
pub proof fn lemma_state_after_next(start: State, args: Seq<Option<ProcessIo>>, at: int)
    requires
        0 <= at < args.len(),
    ensures
        state_after(start, args.take(at + 1)) == step(
            state_after(start, args.take(at)),
            args[at],
        ).0,
{
    assert(args.take(at + 1).drop_last() =~= args.take(at));
}

/// A coroutine built from a valid description, resumed for the first time
/// and without a response, yields one request of its own kind that carries
/// that very description, and has then handed it out.
pub proof fn lemma_first_resume_requests(command: Command)
    requires
        command.wf(),
    ensures
        step(State::Pending(command), None) == (State::Dispatched, request(command)),
        request(command)->Io_0.spec_kind() == IoKind::SpawnThenWaitWithOutput,
        request(command)->Io_0.command() == Some(command),
{
}

/// A response of the other kind yields `InvalidArgument` with the kind
/// that the coroutine waits for and the value that came, and ends the
/// coroutine. This holds in every state but the last, so in particular of
/// the second call, after the request.
pub proof fn lemma_wrong_kind_is_refused(state: State, response: ProcessIo)
    requires
        response.spec_kind() != IoKind::SpawnThenWaitWithOutput,
        !(state is Ended),
    ensures
        step(state, Some(response)) == (State::Ended, refused(response)),
        refused(response)->Failed_0->InvalidArgument_0@ == "spawn output"@,
        state is Pending ==> step(step(state, None).0, Some(response)).1 == refused(response),
{
}

/// A coroutine that has made its request takes every answer that a runtime
/// may give to it: an outcome ends it with that outcome, and the
/// description handed back is requested once more, unchanged, by a
/// coroutine that then waits as before.
pub proof fn lemma_answer_is_accepted(command: Command, response: ProcessIo)
    requires
        response.answers(&request(command)->Io_0),
    ensures
        step(State::Dispatched, Some(response)) == match response {
            ProcessIo::SpawnThenWaitWithOutput(Ok(output)) => (State::Ended, done(output)),
            _ => (State::Dispatched, request(command)),
        },
{
}

/// A coroutine that has ended stays so, whatever it is resumed with.
pub proof fn lemma_ended_for_good(
    start: State,
    args: Seq<Option<ProcessIo>>,
    ended: int,
    later: int,
)
    requires
        0 <= ended <= later <= args.len(),
        state_after(start, args.take(ended)) is Ended,
    ensures
        state_after(start, args.take(later)) is Ended,
    decreases later - ended,
{
    if ended < later {
        lemma_ended_for_good(start, args, ended, later - 1);
        lemma_state_after_next(start, args, later - 1);
    }
}

/// Every result and every error is the last: once a call has yielded an
/// outcome or an error, every later call yields `NotInitialized`, with a
/// response or without one, of the coroutine's kind or of the other.
pub proof fn lemma_resumed_again_is_not_initialized(
    start: State,
    args: Seq<Option<ProcessIo>>,
    ended: int,
    again: int,
)
    requires
        0 <= ended < again < args.len(),
        is_terminal(result_at(start, args, ended)),
    ensures
        result_at(start, args, again) == not_initialized(),
        state_after(start, args.take(again + 1)) is Ended,
{
    lemma_state_after_next(start, args, ended);
    lemma_ended_for_good(start, args, ended + 1, again);
    lemma_ended_for_good(start, args, ended + 1, again + 1);
}

/// A coroutine that has handed out its description never holds one again.
pub proof fn lemma_dispatched_for_good(
    start: State,
    args: Seq<Option<ProcessIo>>,
    dispatched: int,
    later: int,
)
    requires
        0 <= dispatched <= later <= args.len(),
        !(state_after(start, args.take(dispatched)) is Pending),
    ensures
        !(state_after(start, args.take(later)) is Pending),
    decreases later - dispatched,
{
    if dispatched < later {
        lemma_dispatched_for_good(start, args, dispatched, later - 1);
        lemma_state_after_next(start, args, later - 1);
    }
}

/// A coroutine hands out its description once. Of two calls without a
/// response, the later one yields `NotInitialized`, whatever the coroutine
/// was resumed with in between.
pub proof fn lemma_description_is_handed_out_once(
    start: State,
    args: Seq<Option<ProcessIo>>,
    first: int,
    again: int,
)
    requires
        0 <= first < again < args.len(),
        args[first] is None,
        args[again] is None,
    ensures
        result_at(start, args, again) == not_initialized(),
{
    lemma_state_after_next(start, args, first);
    lemma_dispatched_for_good(start, args, first + 1, again);
}

/// One run by the rules is one round trip. A coroutine built from a valid
/// description first requests that description; resumed with the outcome,
/// it ends with that outcome; resumed once more, it is not initialized.
pub proof fn lemma_round_trip(command: Command, output: SpawnOutput)
    requires
        command.wf(),
    ensures
        ({
            let answer = Some(ProcessIo::SpawnThenWaitWithOutput(Ok(output)));
            let args = seq![None, answer, None];
            &&& result_at(State::Pending(command), args, 0) == request(command)
            &&& result_at(State::Pending(command), args, 1) == done(output)
            &&& result_at(State::Pending(command), args, 2) == not_initialized()
        }),
{
    let answer = Some(ProcessIo::SpawnThenWaitWithOutput(Ok(output)));
    let args = seq![None, answer, None];
    let start = State::Pending(command);
    assert(args.take(0) =~= Seq::empty());
    lemma_state_after_next(start, args, 0);
    lemma_state_after_next(start, args, 1);
}

/// The states of two coroutines that started in `first` and `second` once
/// each of `calls` has been made in turn, a call being the argument of a
/// `resume` and whether it went to the second coroutine.
pub open spec fn states_after(
    first: State,
    second: State,
    calls: Seq<(bool, Option<ProcessIo>)>,
) -> (State, State)
    decreases calls.len(),
{
    if calls.len() == 0 {
        (first, second)
    } else {
        let before = states_after(first, second, calls.drop_last());
        if calls.last().0 {
            (before.0, step(before.1, calls.last().1).0)
        } else {
            (step(before.0, calls.last().1).0, before.1)
        }
    }
}

/// The arguments of those of `calls` that went to one of two coroutines:
/// to the second if `to_second`, else to the first.
pub open spec fn calls_to(calls: Seq<(bool, Option<ProcessIo>)>, to_second: bool) -> Seq<
    Option<ProcessIo>,
>
    decreases calls.len(),
{
    if calls.len() == 0 {
        Seq::empty()
    } else if calls.last().0 == to_second {
        calls_to(calls.drop_last(), to_second).push(calls.last().1)
    } else {
        calls_to(calls.drop_last(), to_second)
    }
}

/// A copy made of a description before it is given to a coroutine serves a
/// second coroutine, and the two run apart. The copy is valid and describes
/// the same program, arguments, bindings of variables, working directory
/// and expansion flag. However the calls on the two coroutines are
/// interleaved, each is in the state that its own calls alone would have
/// brought it to.
pub proof fn lemma_copy_runs_alone(
    command: Command,
    copy: Command,
    calls: Seq<(bool, Option<ProcessIo>)>,
)
    requires
        command.wf(),
        copy@ == command@.copied(),
    ensures
        copy.wf(),
        copy@.program == command@.program,
        copy@.args == command@.args,
        copy@.bindings() == command@.bindings(),
        copy@.current_dir == command@.current_dir,
        copy@.expand == command@.expand,
        states_after(State::Pending(command), State::Pending(copy), calls) == (
            state_after(State::Pending(command), calls_to(calls, false)),
            state_after(State::Pending(copy), calls_to(calls, true)),
        ),
    decreases calls.len(),
{
    command@.lemma_copied_alike();
    if calls.len() > 0 {
        lemma_copy_runs_alone(command, copy, calls.drop_last());
        let to_second = calls.last().0;
        let mine = calls_to(calls, to_second);
        assert(mine.drop_last() == calls_to(calls.drop_last(), to_second));
        assert(mine.last() == calls.last().1);
    }
}

} // verus!
