//! The parser: a line becomes a command tree.
//!
//! A trailing `&` puts the whole line in the background. What is left is cut
//! at its first `|` into a stage and the pipeline that follows it. A stage is
//! split into tokens: the first names the command, the others are its
//! arguments, out of which the redirections are taken.

use crate::args_analysis::{
    cleaned, is_operator, lacks_operand, redirection_analysis, resolved, Redirection,
    RedirectionView,
};
use crate::builtins::{builtin_named, lookup};
use crate::error::{ShellError, ShellErrorView};
use crate::lexer::{is_blank, lemma_blank_has_no_tokens, split_range, tokens};
use crate::text::{
    chars_of, is_whitespace, lemma_until_is, same_text, seek, trim_end, trimmed_end, until,
};
use vstd::prelude::*;

verus! {

/// A parsed line.
#[derive(Debug, PartialEq, Eq)]
pub enum Command {
    /// A blank line, or `quit`: nothing to do.
    Empty,
    /// `exit`: leave the shell.
    Exit,
    /// A built-in, its arguments and its redirections.
    Builtin(String, Vec<String>, Redirection),
    /// A program to start, its arguments and its redirections.
    External(String, Vec<String>, Redirection),
    /// A command that runs detached.
    Background(Box<Command>),
    /// Two commands, the output of the first feeding the second.
    Pipe(Box<Command>, Box<Command>),
}

/// The mathematical view of a `Command`.
pub enum CommandView {
    Empty,
    Exit,
    Builtin(Seq<char>, Seq<Seq<char>>, RedirectionView),
    External(Seq<char>, Seq<Seq<char>>, RedirectionView),
    Background(Box<CommandView>),
    Pipe(Box<CommandView>, Box<CommandView>),
}

impl View for Command {
    type V = CommandView;

    open spec fn view(&self) -> CommandView
        decreases self,
    {
        match self {
            Command::Empty => CommandView::Empty,
            Command::Exit => CommandView::Exit,
            Command::Builtin(name, args, rdr) => CommandView::Builtin(
                name@,
                args.deep_view(),
                rdr@,
            ),
            Command::External(name, args, rdr) => CommandView::External(
                name@,
                args.deep_view(),
                rdr@,
            ),
            Command::Background(inner) => CommandView::Background(Box::new((**inner).view())),
            Command::Pipe(left, right) => CommandView::Pipe(
                Box::new((**left).view()),
                Box::new((**right).view()),
            ),
        }
    }
}

impl CommandView {
    /// A command that does no work of its own: `Empty` or `Exit`.
    pub open spec fn is_idle(self) -> bool {
        self is Empty || self is Exit
    }

    /// Neither `Background` nor `Pipe` wraps an idle command, at any depth.
    pub open spec fn well_formed(self) -> bool
        decreases self,
    {
        match self {
            CommandView::Background(inner) => !inner.is_idle() && inner.well_formed(),
            CommandView::Pipe(left, right) => {
                &&& !left.is_idle()
                &&& left.well_formed()
                &&& !right.is_idle()
                &&& right.well_formed()
            },
            _ => true,
        }
    }
}

/// The view of what a parsing function returns.
pub open spec fn outcome(r: Result<Command, ShellError>) -> Result<CommandView, ShellErrorView> {
    match r {
        Ok(c) => Ok(c@),
        Err(e) => Err(e@),
    }
}

/// The error for a stage that begins with a redirection operator.
pub open spec fn missing_command() -> ShellErrorView {
    ShellErrorView::Redirection("missing command before operator"@)
}

/// The error for an operator that no file name follows.
pub open spec fn missing_filename() -> ShellErrorView {
    ShellErrorView::Redirection("missing filename after operator"@)
}

/// The error for a pipeline with a stage that does no work.
pub open spec fn empty_stage() -> ShellErrorView {
    ShellErrorView::Parse("empty command in pipeline"@)
}

/// The error for `&` after a command that does no work.
pub open spec fn empty_background() -> ShellErrorView {
    ShellErrorView::Parse("cannot background an empty command"@)
}

/// What one stage, a segment without `|`, parses to.
///
/// No token: `Empty`. A first token that is an operator, or an operator
/// without operand among the arguments: an error. Then the first token
/// decides: `exit`, `quit`, a built-in's name, or a program's.
pub open spec fn simple_command(segment: Seq<char>) -> Result<CommandView, ShellErrorView> {
    let toks = tokens(segment);
    if toks.len() == 0 {
        Ok(CommandView::Empty)
    } else {
        let name = toks[0];
        let args = toks.skip(1);
        if is_operator(name) {
            Err(missing_command())
        } else if lacks_operand(args) {
            Err(missing_filename())
        } else if name == "exit"@ {
            Ok(CommandView::Exit)
        } else if name == "quit"@ {
            Ok(CommandView::Empty)
        } else if builtin_named(name) is Some {
            Ok(CommandView::Builtin(name, cleaned(args), resolved(args)))
        } else {
            Ok(CommandView::External(name, cleaned(args), resolved(args)))
        }
    }
}

/// The number of characters of `s` before its first `|`; the length of `s`
/// where it has none.
pub open spec fn stage_len(s: Seq<char>) -> nat {
    until(s, '|')
}

/// What a segment parses to. Without `|` it is one stage. Otherwise it is cut
/// at the first `|`: the stage before it and the pipeline after it must both
/// parse to commands that do work, and form a `Pipe`.
pub open spec fn pipeline(s: Seq<char>) -> Result<CommandView, ShellErrorView>
    decreases s.len(),
{
    let n = stage_len(s) as int;
    if n < s.len() {
        match simple_command(s.take(n)) {
            Err(e) => Err(e),
            Ok(left) => if left.is_idle() {
                Err(empty_stage())
            } else {
                match pipeline(s.skip(n + 1)) {
                    Err(e) => Err(e),
                    Ok(right) => if right.is_idle() {
                        Err(empty_stage())
                    } else {
                        Ok(CommandView::Pipe(Box::new(left), Box::new(right)))
                    },
                }
            },
        }
    } else {
        simple_command(s)
    }
}

/// A command put in the background; one that does no work is refused.
pub open spec fn backgrounded(c: CommandView) -> Result<CommandView, ShellErrorView> {
    if c.is_idle() {
        Err(empty_background())
    } else {
        Ok(CommandView::Background(Box::new(c)))
    }
}

/// What a line parses to. If its last visible character is `&`, what stands
/// before the `&` is parsed and put in the background; otherwise the line is
/// parsed as it is.
pub open spec fn parsed(line: Seq<char>) -> Result<CommandView, ShellErrorView> {
    let body = trimmed_end(line);
    if body.len() > 0 && body.last() == '&' {
        match pipeline(body.drop_last()) {
            Err(e) => Err(e),
            Ok(c) => backgrounded(c),
        }
    } else {
        pipeline(line)
    }
}

/// A single stage never holds a `Background` or a `Pipe`.
proof fn lemma_stage_is_well_formed(segment: Seq<char>)
    ensures
        simple_command(segment) matches Ok(c) ==> c.well_formed() && !(c is Background) && !(c
            is Pipe),
{
}

/// Whatever parses is well formed: neither `Background` nor `Pipe` wraps
/// `Empty` or `Exit`.
pub proof fn lemma_pipeline_is_well_formed(s: Seq<char>)
    ensures
        pipeline(s) matches Ok(c) ==> c.well_formed(),
    decreases s.len(),
{
    let n = stage_len(s) as int;
    if n < s.len() {
        lemma_pipeline_is_well_formed(s.skip(n + 1));
        lemma_stage_is_well_formed(s.take(n));
    } else {
        lemma_stage_is_well_formed(s);
    }
}

/// Every command tree that a line parses to is well formed: `Background` and
/// `Pipe` never directly wrap `Empty` or `Exit`.
pub proof fn lemma_parsed_is_well_formed(line: Seq<char>)
    ensures
        parsed(line) matches Ok(c) ==> c.well_formed(),
{
    let body = trimmed_end(line);
    if body.len() > 0 && body.last() == '&' {
        lemma_pipeline_is_well_formed(body.drop_last());
    } else {
        lemma_pipeline_is_well_formed(line);
    }
}

/// Nothing is left of a blank line once the white space at its end is gone.
proof fn lemma_blank_trims_to_nothing(s: Seq<char>)
    requires
        is_blank(s),
    ensures
        trimmed_end(s).len() == 0,
    decreases s.len(),
{
    if s.len() > 0 {
        let rest = s.drop_last();
        assert(is_whitespace(s.last()));
        assert forall|k: int| 0 <= k < rest.len() implies is_whitespace(#[trigger] rest[k]) by {
            assert(rest[k] == s[k]);
        }
        lemma_blank_trims_to_nothing(rest);
    }
}

/// A blank line, the empty one among them, parses to `Empty`.
pub proof fn lemma_blank_line_is_empty(line: Seq<char>)
    requires
        is_blank(line),
    ensures
        parsed(line) == Ok::<CommandView, ShellErrorView>(CommandView::Empty),
{
    lemma_blank_trims_to_nothing(line);
    lemma_blank_has_no_tokens(line);
    assert forall|k: int| 0 <= k < line.len() implies #[trigger] line[k] != '|' by {
        assert(is_whitespace(line[k]));
    }
    lemma_until_is(line, '|', line.len() as int);
}

/// A line whose last visible character is `&` parses to a `Background`
/// command or not at all.
pub proof fn lemma_trailing_ampersand_backgrounds(line: Seq<char>)
    requires
        trimmed_end(line).len() > 0,
        trimmed_end(line).last() == '&',
    ensures
        parsed(line) matches Ok(c) ==> c is Background,
{
}

/// Tells whether a command does no work of its own.
fn is_idle(command: &Command) -> (r: bool)
    ensures
        r == command@.is_idle(),
{
    match command {
        Command::Empty => true,
        Command::Exit => true,
        _ => false,
    }
}

/// Puts `command` in the background where `is_background` says so. `Empty`
/// and `Exit` cannot run there.
pub fn test_background(command: Command, is_background: bool) -> (r: Result<Command, ShellError>)
    ensures
        outcome(r) == if is_background {
            backgrounded(command@)
        } else {
            Ok(command@)
        },
{
    if is_background {
        if is_idle(&command) {
            Err(ShellError::ParseError("cannot background an empty command".to_owned()))
        } else {
            Ok(Command::Background(Box::new(command)))
        }
    } else {
        Ok(command)
    }
}

/// Parses the stage `chars[from..to]`.
fn parse_stage(chars: &Vec<char>, from: usize, to: usize) -> (r: Result<Command, ShellError>)
    requires
        from <= to <= chars.len(),
    ensures
        outcome(r) == simple_command(chars@.subrange(from as int, to as int)),
{
    let mut toks = split_range(chars, from, to);
    if toks.len() == 0 {
        return Ok(Command::Empty);
    }
    let ghost all = toks.deep_view();
    let name = toks.remove(0);
    let mut args = toks;
    assert(name@ == all[0]);
    assert(args.deep_view() =~= all.skip(1));
    proof {
        reveal_strlit(">");
        reveal_strlit("<");
        assert(">"@ =~= seq!['>']);
        assert("<"@ =~= seq!['<']);
    }
    if same_text(name.as_str(), ">") || same_text(name.as_str(), "<") {
        return Err(ShellError::RedirectionError("missing command before operator".to_owned()));
    }
    let rdr = match redirection_analysis(&mut args) {
        Ok(rdr) => rdr,
        Err(e) => {
            return Err(e);
        },
    };
    if same_text(name.as_str(), "exit") {
        Ok(Command::Exit)
    } else if same_text(name.as_str(), "quit") {
        Ok(Command::Empty)
    } else if lookup(name.as_str()).is_some() {
        Ok(Command::Builtin(name, args, rdr))
    } else {
        Ok(Command::External(name, args, rdr))
    }
}

/// Parses the segment `chars[from..to]`.
fn parse_range(chars: &Vec<char>, from: usize, to: usize) -> (r: Result<Command, ShellError>)
    requires
        from <= to <= chars.len(),
    ensures
        outcome(r) == pipeline(chars@.subrange(from as int, to as int)),
    decreases to - from,
{
    let ghost s = chars@.subrange(from as int, to as int);
    let bar = seek(chars, from, to, '|');
    proof {
        let n = bar - from;
        assert(s.take(n) =~= chars@.subrange(from as int, bar as int));
        if bar < to {
            assert(s.skip(n + 1) =~= chars@.subrange(bar + 1, to as int));
        }
    }
    if bar == to {
        return parse_stage(chars, from, to);
    }
    let left = match parse_stage(chars, from, bar) {
        Ok(c) => c,
        Err(e) => {
            return Err(e);
        },
    };
    if is_idle(&left) {
        return Err(ShellError::ParseError("empty command in pipeline".to_owned()));
    }
    let right = match parse_range(chars, bar + 1, to) {
        Ok(c) => c,
        Err(e) => {
            return Err(e);
        },
    };
    if is_idle(&right) {
        return Err(ShellError::ParseError("empty command in pipeline".to_owned()));
    }
    Ok(Command::Pipe(Box::new(left), Box::new(right)))
}

/// Parses a segment of a line: one stage, or stages separated by `|`.
///
/// The segment is cut at its first `|`, so the tree leans to the right. A
/// stage that is blank, `exit` or `quit` cannot stand in a pipeline.
pub fn parse_command(cmd: &str) -> (r: Result<Command, ShellError>)
    ensures
        outcome(r) == pipeline(cmd@),
        r matches Ok(c) ==> c@.well_formed(),
{
    let chars = chars_of(cmd);
    assert(chars@.subrange(0, chars@.len() as int) =~= cmd@);
    proof {
        lemma_pipeline_is_well_formed(cmd@);
    }
    parse_range(&chars, 0, chars.len())
}

/// Parses a line.
///
/// A blank line is `Empty`. A line whose last visible character is `&` is
/// parsed without it and put in the background as a whole; nothing, `exit`
/// and `quit` cannot be put there.
pub fn parse_line(line: &str) -> (r: Result<Command, ShellError>)
    ensures
        outcome(r) == parsed(line@),
        r matches Ok(c) ==> c@.well_formed(),
{
    let chars = chars_of(line);
    let end = trim_end(&chars, chars.len());
    proof {
        assert(chars@.take(chars@.len() as int) =~= line@);
        lemma_parsed_is_well_formed(line@);
    }
    let is_background = end > 0 && chars[end - 1] == '&';
    if is_background {
        proof {
            let body = trimmed_end(line@);
            assert(body == chars@.take(end as int));
            assert(body.last() == chars@[end - 1]);
            assert(body.drop_last() =~= chars@.subrange(0, end - 1));
        }
        let command = match parse_range(&chars, 0, end - 1) {
            Ok(c) => c,
            Err(e) => {
                return Err(e);
            },
        };
        test_background(command, true)
    } else {
        proof {
            let body = trimmed_end(line@);
            assert(body == chars@.take(end as int));
            if end > 0 {
                assert(body.last() == chars@[end - 1]);
            }
            assert(chars@.subrange(0, chars@.len() as int) =~= line@);
        }
        let command = match parse_range(&chars, 0, chars.len()) {
            Ok(c) => c,
            Err(e) => {
                return Err(e);
            },
        };
        test_background(command, false)
    }
}

} // verus!
