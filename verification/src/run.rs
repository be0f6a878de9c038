//! The decisions of the evaluator and of the read loop.
//!
//! Running a command means opening files, creating pipes, starting processes
//! and threads. None of that happens here. This module decides what is to be
//! done for a command and with which streams; the program around the library
//! does it and reports back.

use crate::args_analysis::{Redirection, RedirectionView};
use crate::builtins::{builtin_named, lookup, Builtin};
use crate::error::{ShellError, ShellErrorView};
use crate::lexer::is_blank;
use crate::parser::{
    lemma_blank_line_is_empty, outcome, parse_line, parsed, Command, CommandView,
};
use crate::text::trimmed_end;
use vstd::prelude::*;

verus! {

/// How a redirection file is opened.
#[derive(Debug, Clone, Copy, PartialEq, Eq, Structural)]
pub enum FileMode {
    /// For reading; the file must exist.
    Read,
    /// For writing; the file is created, or emptied where it exists.
    Write,
}

/// Where a stage's standard input comes from, or where its standard output goes.
#[derive(Debug, PartialEq, Eq)]
pub enum Endpoint {
    /// The stream that the shell itself has.
    Inherited,
    /// The read end of the pipe that the stage before writes to.
    PipeRead,
    /// The write end of the pipe that the stage after reads from.
    PipeWrite,
    /// A file, by its path.
    File(String, FileMode),
}

/// The mathematical view of an `Endpoint`.
pub enum EndpointView {
    Inherited,
    PipeRead,
    PipeWrite,
    File(Seq<char>, FileMode),
}

impl View for Endpoint {
    type V = EndpointView;

    open spec fn view(&self) -> EndpointView {
        match self {
            Endpoint::Inherited => EndpointView::Inherited,
            Endpoint::PipeRead => EndpointView::PipeRead,
            Endpoint::PipeWrite => EndpointView::PipeWrite,
            Endpoint::File(path, mode) => EndpointView::File(path@, *mode),
        }
    }
}

/// The standard input of a stage: the input file where one is named, else
/// the pipe from the stage before where there is one, else the shell's own.
pub open spec fn stdin_of(rdr: RedirectionView, upstream: bool) -> EndpointView {
    match rdr.input_file {
        Some(path) => EndpointView::File(path, FileMode::Read),
        None => if upstream {
            EndpointView::PipeRead
        } else {
            EndpointView::Inherited
        },
    }
}

/// The standard output of a stage: the output file where one is named, else
/// the pipe to the stage after where there is one, else the shell's own.
pub open spec fn stdout_of(rdr: RedirectionView, downstream: bool) -> EndpointView {
    match rdr.output_file {
        Some(path) => EndpointView::File(path, FileMode::Write),
        None => if downstream {
            EndpointView::PipeWrite
        } else {
            EndpointView::Inherited
        },
    }
}

/// Settles the two streams of a stage. A redirection overrides a pipe.
pub fn resolve_streams(rdr: Redirection, upstream: bool, downstream: bool) -> (r: (
    Endpoint,
    Endpoint,
))
    ensures
        r.0@ == stdin_of(rdr@, upstream),
        r.1@ == stdout_of(rdr@, downstream),
{
    let stdin = match rdr.input_file {
        Some(path) => Endpoint::File(path, FileMode::Read),
        None => if upstream {
            Endpoint::PipeRead
        } else {
            Endpoint::Inherited
        },
    };
    let stdout = match rdr.output_file {
        Some(path) => Endpoint::File(path, FileMode::Write),
        None => if downstream {
            Endpoint::PipeWrite
        } else {
            Endpoint::Inherited
        },
    };
    (stdin, stdout)
}

/// What the evaluator does next for a command.
#[derive(Debug)]
pub enum Step {
    /// Nothing at all.
    Nothing,
    /// Announce the exit on standard output and end the shell with success.
    Exit,
    /// Report the error on standard error and return.
    Report(ShellError),
    /// Run a built-in with these arguments and streams. Unless its standard
    /// input is inherited, the input is read to its end first and handed to
    /// the handler.
    RunBuiltin(Builtin, Vec<String>, Endpoint, Endpoint),
    /// Start a program with these arguments and streams, and wait for it.
    Spawn(String, Vec<String>, Endpoint, Endpoint),
    /// Create a pipe and evaluate both commands at once, each in a worker of
    /// its own: the first with the pipe's write end as its downstream, the
    /// second with the read end as its upstream. Wait for both.
    Pipe(Command, Command),
    /// Evaluate the command in a detached worker, with the streams that the
    /// evaluator was given, and return at once.
    Detach(Command),
}

/// The mathematical view of a `Step`.
pub enum StepView {
    Nothing,
    Exit,
    Report(ShellErrorView),
    RunBuiltin(Builtin, Seq<Seq<char>>, EndpointView, EndpointView),
    Spawn(Seq<char>, Seq<Seq<char>>, EndpointView, EndpointView),
    Pipe(CommandView, CommandView),
    Detach(CommandView),
}

impl View for Step {
    type V = StepView;

    open spec fn view(&self) -> StepView {
        match self {
            Step::Nothing => StepView::Nothing,
            Step::Exit => StepView::Exit,
            Step::Report(e) => StepView::Report(e@),
            Step::RunBuiltin(builtin, args, stdin, stdout) => StepView::RunBuiltin(
                *builtin,
                args.deep_view(),
                stdin@,
                stdout@,
            ),
            Step::Spawn(program, args, stdin, stdout) => StepView::Spawn(
                program@,
                args.deep_view(),
                stdin@,
                stdout@,
            ),
            Step::Pipe(left, right) => StepView::Pipe(left@, right@),
            Step::Detach(inner) => StepView::Detach(inner@),
        }
    }
}

/// The step for a command, or for the error that parsing ended in.
/// `upstream` and `downstream` say whether the evaluator was handed a pipe to
/// read from and one to write to.
pub open spec fn step_for(
    command: Result<CommandView, ShellErrorView>,
    upstream: bool,
    downstream: bool,
) -> StepView {
    match command {
        Err(e) => StepView::Report(e),
        Ok(CommandView::Empty) => StepView::Nothing,
        Ok(CommandView::Exit) => StepView::Exit,
        Ok(CommandView::Builtin(name, args, rdr)) => match builtin_named(name) {
            Some(builtin) => StepView::RunBuiltin(
                builtin,
                args,
                stdin_of(rdr, upstream),
                stdout_of(rdr, downstream),
            ),
            None => StepView::Nothing,
        },
        Ok(CommandView::External(program, args, rdr)) => StepView::Spawn(
            program,
            args,
            stdin_of(rdr, upstream),
            stdout_of(rdr, downstream),
        ),
        Ok(CommandView::Pipe(left, right)) => StepView::Pipe(*left, *right),
        Ok(CommandView::Background(inner)) => StepView::Detach(*inner),
    }
}

/// Decides what the evaluator does for `command`.
pub fn next_step(command: Result<Command, ShellError>, upstream: bool, downstream: bool) -> (r:
    Step)
    ensures
        r@ == step_for(outcome(command), upstream, downstream),
{
    match command {
        Err(e) => Step::Report(e),
        Ok(Command::Empty) => Step::Nothing,
        Ok(Command::Exit) => Step::Exit,
        Ok(Command::Builtin(name, args, rdr)) => match lookup(name.as_str()) {
            Some(builtin) => {
                let (stdin, stdout) = resolve_streams(rdr, upstream, downstream);
                Step::RunBuiltin(builtin, args, stdin, stdout)
            },
            None => Step::Nothing,
        },
        Ok(Command::External(program, args, rdr)) => {
            let (stdin, stdout) = resolve_streams(rdr, upstream, downstream);
            Step::Spawn(program, args, stdin, stdout)
        },
        Ok(Command::Pipe(left, right)) => Step::Pipe(*left, *right),
        Ok(Command::Background(inner)) => Step::Detach(*inner),
    }
}

/// A blank line has no effect: the evaluator does nothing for it.
pub proof fn lemma_blank_line_does_nothing(line: Seq<char>, upstream: bool, downstream: bool)
    requires
        is_blank(line),
    ensures
        step_for(parsed(line), upstream, downstream) is Nothing,
{
    lemma_blank_line_is_empty(line);
}

/// A line whose last visible character is `&` is never run in the
/// foreground: the evaluator detaches what it parses to, or reports the
/// error, and returns.
pub proof fn lemma_trailing_ampersand_detaches(line: Seq<char>, upstream: bool, downstream: bool)
    requires
        trimmed_end(line).len() > 0,
        trimmed_end(line).last() == '&',
    ensures
        step_for(parsed(line), upstream, downstream) is Detach || step_for(
            parsed(line),
            upstream,
            downstream,
        ) is Report,
        parsed(line) is Ok ==> step_for(parsed(line), upstream, downstream) is Detach,
{
}

/// What the shell writes on standard output before it exits.
pub fn exit_notice() -> (r: &'static str)
    ensures
        r@ == "Exiting..."@,
{
    "Exiting..."
}

/// Where a pipeline stage stands in its life.
#[derive(Debug, Clone, Copy, PartialEq, Eq, Structural)]
pub enum StageState {
    Created,
    Running,
    Completed,
    Failed,
}

impl StageState {
    /// The stage has ended, well or badly.
    pub open spec fn is_final(self) -> bool {
        self is Completed || self is Failed
    }
}

/// What happens to a stage.
#[derive(Debug)]
pub enum StageEvent {
    /// Its streams are open and its work begins.
    Started,
    /// Its work ended without error.
    Succeeded,
    /// Its work ended with this error.
    Failed(ShellError),
}

/// What follows from an event: the stage's new state, whether it gives up
/// the endpoints it owns, and the error to report, if any.
#[derive(Debug)]
pub struct Transition {
    pub state: StageState,
    pub release: bool,
    pub report: Option<ShellError>,
}

/// The life of a stage: `Created`, then `Running`, then `Completed` or
/// `Failed`. A stage that ends gives up every endpoint it owns, so that the
/// reader of a pipe sees its end; one that fails reports its error as well.
/// No other event fits a state: the answer is then `None`.
pub fn advance(state: StageState, event: StageEvent) -> (r: Option<Transition>)
    ensures
        match (state, event) {
            (StageState::Created, StageEvent::Started) => r matches Some(t) && t.state
                == StageState::Running && !t.release && t.report is None,
            (StageState::Running, StageEvent::Succeeded) => r matches Some(t) && t.state
                == StageState::Completed && t.release && t.report is None,
            (StageState::Running, StageEvent::Failed(e)) => r matches Some(t) && t.state
                == StageState::Failed && t.release && t.report == Some(e),
            _ => r is None,
        },
        r matches Some(t) ==> (t.release <==> t.state.is_final()),
        r is Some ==> !state.is_final(),
{
    match state {
        StageState::Created => match event {
            StageEvent::Started => Some(
                Transition { state: StageState::Running, release: false, report: None },
            ),
            _ => None,
        },
        StageState::Running => match event {
            StageEvent::Succeeded => Some(
                Transition { state: StageState::Completed, release: true, report: None },
            ),
            StageEvent::Failed(e) => Some(
                Transition { state: StageState::Failed, release: true, report: Some(e) },
            ),
            StageEvent::Started => None,
        },
        _ => None,
    }
}

/// What reading a line ended in.
#[derive(Debug)]
pub enum ReadEvent {
    /// The user entered this line.
    Line(String),
    /// The user interrupted the line being typed.
    Interrupted,
    /// The input is at its end.
    EndOfInput,
    /// Reading failed; the text describes how.
    Failed(String),
}

/// What the read loop does after a read.
#[derive(Debug)]
pub enum ReplAction {
    /// Add the line to the history, then evaluate what it parsed to, with no
    /// pipe on either side.
    Evaluate(String, Result<Command, ShellError>),
    /// Drop the line and prompt again.
    Again,
    /// End the shell with success.
    Quit,
    /// Print the text and leave the loop.
    Abort(String),
}

/// One turn of the read loop. The loop runs no command itself: a line is
/// parsed and handed on to the evaluator.
pub fn on_read(event: ReadEvent) -> (r: ReplAction)
    ensures
        match event {
            ReadEvent::Line(line) => r matches ReplAction::Evaluate(history, command)
                && history@ == line@ && outcome(command) == parsed(line@),
            ReadEvent::Interrupted => r is Again,
            ReadEvent::EndOfInput => r is Quit,
            ReadEvent::Failed(text) => r matches ReplAction::Abort(shown) && shown@ == "Error: "@
                + text@,
        },
{
    match event {
        ReadEvent::Line(line) => {
            let command = parse_line(line.as_str());
            ReplAction::Evaluate(line, command)
        },
        ReadEvent::Interrupted => ReplAction::Again,
        ReadEvent::EndOfInput => ReplAction::Quit,
        ReadEvent::Failed(text) => {
            let mut shown = "Error: ".to_owned();
            shown.append(text.as_str());
            ReplAction::Abort(shown)
        },
    }
}

impl ReplAction {
    /// The status that the shell process ends with after this action, where
    /// the action ends it: success for `Quit`, failure for `Abort`.
    pub fn exit_code(&self) -> (r: Option<i32>)
        ensures
            r == match self {
                ReplAction::Quit => Some(0i32),
                ReplAction::Abort(_) => Some(1i32),
                _ => None::<i32>,
            },
    {
        match self {
            ReplAction::Quit => Some(0),
            ReplAction::Abort(_) => Some(1),
            _ => None,
        }
    }
}

impl Step {
    /// The status that the shell process ends with after this step, where
    /// the step ends it: `Exit` ends it with success.
    pub fn exit_code(&self) -> (r: Option<i32>)
        ensures
            r == if self is Exit {
                Some(0i32)
            } else {
                None::<i32>
            },
    {
        match self {
            Step::Exit => Some(0),
            _ => None,
        }
    }
}

/// What the two workers of a pipe leave behind. `first_ended` and
/// `second_ended` say whether each worker ran to its end. A worker that did
/// not is one failure of the pipe, reported as such and no further.
pub fn workers_outcome(first_ended: bool, second_ended: bool) -> (r: Option<ShellError>)
    ensures
        match r {
            Some(e) => !(first_ended && second_ended) && e@ == ShellErrorView::Execute(
                "worker failed"@,
            ),
            None => first_ended && second_ended,
        },
{
    if first_ended && second_ended {
        None
    } else {
        Some(ShellError::ExecuteError("worker failed".to_owned()))
    }
}

/// The error for a child process that could not be waited for; `detail` is
/// what the system says.
pub fn wait_failure(detail: &str) -> (r: ShellError)
    ensures
        r@ == ShellErrorView::Execute("failed to wait on process: "@ + detail@),
{
    let mut text = "failed to wait on process: ".to_owned();
    text.append(detail);
    ShellError::ExecuteError(text)
}

} // verus!
