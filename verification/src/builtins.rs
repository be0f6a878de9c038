//! The built-in commands: the registry of their names, and the handlers that
//! compute without touching the outside world.

use crate::error::{ShellError, ShellErrorView};
use crate::text::{
    chars_of, contains, emit, holds, join, joined, lines, same_text, seek, string_of, text_of,
    trim_line_ends, until, without_cr, without_line_ends,
};
use vstd::prelude::*;
use vstd::utf8::encode_utf8;

verus! {

/// The commands that the shell runs itself, without a child process.
#[derive(Debug, Clone, Copy, PartialEq, Eq, Structural)]
pub enum Builtin {
    Cd,
    Pwd,
    Echo,
    Ls,
    Grep,
    Chat,
}

/// The registry: the built-in that a command name stands for, if any.
pub open spec fn builtin_named(name: Seq<char>) -> Option<Builtin> {
    if name == "cd"@ {
        Some(Builtin::Cd)
    } else if name == "pwd"@ {
        Some(Builtin::Pwd)
    } else if name == "echo"@ {
        Some(Builtin::Echo)
    } else if name == "ls"@ {
        Some(Builtin::Ls)
    } else if name == "grep"@ {
        Some(Builtin::Grep)
    } else if name == "chat"@ {
        Some(Builtin::Chat)
    } else {
        None
    }
}

/// Looks a command name up in the registry.
pub fn lookup(name: &str) -> (r: Option<Builtin>)
    ensures
        r == builtin_named(name@),
{
    if same_text(name, "cd") {
        Some(Builtin::Cd)
    } else if same_text(name, "pwd") {
        Some(Builtin::Pwd)
    } else if same_text(name, "echo") {
        Some(Builtin::Echo)
    } else if same_text(name, "ls") {
        Some(Builtin::Ls)
    } else if same_text(name, "grep") {
        Some(Builtin::Grep)
    } else if same_text(name, "chat") {
        Some(Builtin::Chat)
    } else {
        None
    }
}

/// What `echo` joins: its arguments and, where input was piped in, that
/// input without the line ends at its end, as one more argument. Other white
/// space at the end of the input stays.
pub open spec fn echo_parts(args: Seq<Seq<char>>, piped: Option<Seq<char>>) -> Seq<Seq<char>> {
    match piped {
        Some(input) => args.push(without_line_ends(input)),
        None => args,
    }
}

/// What `echo` writes: its parts with single spaces between them, and a line feed.
pub open spec fn echo_output(args: Seq<Seq<char>>, piped: Option<Seq<char>>) -> Seq<char> {
    joined(echo_parts(args, piped), seq![' ']) + seq!['\n']
}

/// `echo`: writes the arguments, separated by single spaces, and a line feed.
/// Piped input is added after the arguments, without its trailing line ends.
pub fn builtin_echo(args: Vec<String>, piped_input: Option<String>, stdout: &mut Vec<u8>) -> (r:
    Result<(), ShellError>)
    ensures
        r is Ok,
        final(stdout)@ == old(stdout)@ + encode_utf8(
            echo_output(args.deep_view(), text_of(piped_input)),
        ),
{
    let ghost given = args.deep_view();
    let mut parts = args;
    if let Some(input) = piped_input {
        let chars = chars_of(input.as_str());
        let n = trim_line_ends(&chars);
        let last = string_of(&chars, 0, n);
        proof {
            assert(chars@.subrange(0, n as int) =~= chars@.take(n as int));
        }
        parts.push(last);
        assert(parts.deep_view() =~= given.push(without_line_ends(input@)));
    }
    let mut text = join(&parts, " ");
    text.push('\n');
    proof {
        reveal_strlit(" ");
        assert(" "@ =~= seq![' ']);
        assert(text@ =~= echo_output(given, text_of(piped_input)));
    }
    emit(stdout, text.as_str());
    Ok(())
}

/// The lines among `ls` that hold `pattern`, each followed by a line feed.
pub open spec fn matching_lines(ls: Seq<Seq<char>>, pattern: Seq<char>) -> Seq<char>
    decreases ls.len(),
{
    if ls.len() == 0 {
        Seq::empty()
    } else if contains(ls[0], pattern) {
        ls[0] + seq!['\n'] + matching_lines(ls.skip(1), pattern)
    } else {
        matching_lines(ls.skip(1), pattern)
    }
}

/// The text that `grep` searches: the piped input where there is one, else
/// the arguments after the pattern, joined by single spaces.
pub open spec fn grep_content(args: Seq<Seq<char>>, piped: Option<Seq<char>>) -> Seq<char> {
    match piped {
        Some(input) => input,
        None => joined(args.skip(1), seq![' ']),
    }
}

/// `grep` has nothing to search: no argument follows the pattern, and no
/// input was piped in or the piped input is empty.
pub open spec fn grep_lacks_input(args: Seq<Seq<char>>, piped: Option<Seq<char>>) -> bool {
    args.len() <= 1 && match piped {
        Some(input) => input.len() == 0,
        None => true,
    }
}

/// What `grep` returns and writes. Without a pattern, or with nothing to
/// search, it fails and writes nothing; otherwise it writes the lines of its
/// content that hold the pattern.
pub open spec fn grep_result(args: Seq<Seq<char>>, piped: Option<Seq<char>>) -> Result<
    Seq<char>,
    ShellErrorView,
> {
    if args.len() == 0 {
        Err(ShellErrorView::Builtin("grep requires a pattern"@))
    } else if grep_lacks_input(args, piped) {
        Err(ShellErrorView::Builtin("grep requires input (from pipe or arguments)"@))
    } else {
        Ok(matching_lines(lines(grep_content(args, piped)), args[0]))
    }
}

/// The lines of `content` that hold `pattern`, each with a line feed.
fn select_lines(content: &Vec<char>, pattern: &Vec<char>) -> (r: String)
    ensures
        r@ == matching_lines(lines(content@), pattern@),
{
    let mut out = String::new();
    let mut at: usize = 0;
    let total = content.len();
    assert(content@.skip(0) =~= content@);
    assert(out@ + matching_lines(lines(content@), pattern@) =~= matching_lines(
        lines(content@),
        pattern@,
    ));
    while at < total
        invariant
            at <= total == content.len(),
            matching_lines(lines(content@), pattern@) == out@ + matching_lines(
                lines(content@.skip(at as int)),
                pattern@,
            ),
        decreases total - at,
    {
        let ghost rest = content@.skip(at as int);
        let ghost before = out@;
        assert(rest =~= content@.subrange(at as int, total as int));
        let stop = seek(content, at, total, '\n');
        let mut end: usize = stop;
        if stop < total && end > at && content[end - 1] == '\r' {
            end -= 1;
        }
        let next: usize = if stop < total {
            stop + 1
        } else {
            total
        };
        let ghost line = content@.subrange(at as int, end as int);
        proof {
            let n = stop - at;
            assert(n == until(rest, '\n'));
            if stop < total {
                assert(rest.take(n) =~= content@.subrange(at as int, stop as int));
                if n > 0 {
                    assert(rest.take(n).last() == content@[stop - 1]);
                }
                assert(without_cr(rest.take(n)) =~= line);
                assert(rest.skip(n + 1) =~= content@.skip(next as int));
                assert(lines(rest) == seq![line] + lines(content@.skip(next as int)));
            } else {
                assert(line =~= rest);
                assert(content@.skip(next as int) =~= Seq::<char>::empty());
                assert(lines(content@.skip(next as int)) =~= Seq::<Seq<char>>::empty());
                assert(lines(rest) =~= seq![line] + lines(content@.skip(next as int)));
            }
            let all = seq![line] + lines(content@.skip(next as int));
            assert(all[0] == line);
            assert(all.skip(1) =~= lines(content@.skip(next as int)));
        }
        if holds(content, at, end, pattern) {
            let mut i: usize = at;
            while i < end
                invariant
                    at <= i <= end <= content.len(),
                    out@ == before + content@.subrange(at as int, i as int),
                decreases end - i,
            {
                out.push(content[i]);
                assert(content@.subrange(at as int, i + 1) =~= content@.subrange(
                    at as int,
                    i as int,
                ).push(content@[i as int]));
                i += 1;
            }
            out.push('\n');
            assert(out@ =~= before + (line + seq!['\n']));
            assert(before + (line + seq!['\n'] + matching_lines(
                lines(content@.skip(next as int)),
                pattern@,
            )) =~= out@ + matching_lines(lines(content@.skip(next as int)), pattern@));
        }
        at = next;
    }
    proof {
        assert(content@.skip(at as int) =~= Seq::<char>::empty());
        assert(lines(content@.skip(at as int)) =~= Seq::<Seq<char>>::empty());
        assert(out@ + Seq::<char>::empty() =~= out@);
    }
    out
}

/// `grep`: the first argument is the pattern. The text searched is the piped
/// input or, without one, the other arguments joined by single spaces. Each
/// line that holds the pattern as a substring is written, with a line feed.
pub fn builtin_grep(args: Vec<String>, piped_input: Option<String>, stdout: &mut Vec<u8>) -> (r:
    Result<(), ShellError>)
    ensures
        match grep_result(args.deep_view(), text_of(piped_input)) {
            Ok(text) => r is Ok && final(stdout)@ == old(stdout)@ + encode_utf8(text),
            Err(error) => r matches Err(e) && e@ == error && final(stdout)@ == old(stdout)@,
        },
{
    let ghost given = args.deep_view();
    let mut args = args;
    if args.len() == 0 {
        return Err(ShellError::BuiltinError("grep requires a pattern".to_owned()));
    }
    let pattern = args.remove(0);
    assert(pattern@ == given[0]);
    assert(args.deep_view() =~= given.skip(1));
    let content = match piped_input {
        Some(input) => {
            if args.len() == 0 && input.as_str().unicode_len() == 0 {
                return Err(
                    ShellError::BuiltinError(
                        "grep requires input (from pipe or arguments)".to_owned(),
                    ),
                );
            }
            input
        },
        None => {
            if args.len() == 0 {
                return Err(
                    ShellError::BuiltinError(
                        "grep requires input (from pipe or arguments)".to_owned(),
                    ),
                );
            }
            proof {
                reveal_strlit(" ");
                assert(" "@ =~= seq![' ']);
            }
            join(&args, " ")
        },
    };
    let text = select_lines(&chars_of(content.as_str()), &chars_of(pattern.as_str()));
    emit(stdout, text.as_str());
    Ok(())
}

/// Appends `text` and a line feed to the byte sink `out`.
pub fn emit_line(out: &mut Vec<u8>, text: &str)
    ensures
        final(out)@ == old(out)@ + encode_utf8(text@ + seq!['\n']),
{
    let mut line = text.to_owned();
    line.push('\n');
    assert(line@ =~= text@ + seq!['\n']);
    emit(out, line.as_str());
}

/// The directory that `cd` changes to: its first argument; without one the
/// home directory; without that the root.
pub open spec fn cd_destination(args: Seq<Seq<char>>, home: Option<Seq<char>>) -> Seq<char> {
    if args.len() > 0 {
        args[0]
    } else {
        match home {
            Some(dir) => dir,
            None => "/"@,
        }
    }
}

/// Picks the directory for `cd`. `home` is the value of `HOME`, if it is set.
pub fn cd_target(args: &Vec<String>, home: Option<String>) -> (r: String)
    ensures
        r@ == cd_destination(args.deep_view(), text_of(home)),
{
    if args.len() > 0 {
        args[0].clone()
    } else {
        match home {
            Some(dir) => dir,
            None => "/".to_owned(),
        }
    }
}

/// The directory that `ls` lists: its first argument, or `.` without one.
pub open spec fn ls_directory(args: Seq<Seq<char>>) -> Seq<char> {
    if args.len() > 0 {
        args[0]
    } else {
        "."@
    }
}

/// Picks the directory for `ls`.
pub fn ls_target(args: &Vec<String>) -> (r: String)
    ensures
        r@ == ls_directory(args.deep_view()),
{
    if args.len() > 0 {
        args[0].clone()
    } else {
        ".".to_owned()
    }
}

/// The prompt that `chat` sends: its arguments joined by single spaces.
/// Without arguments there is nothing to send.
pub open spec fn chat_request(args: Seq<Seq<char>>) -> Result<Seq<char>, ShellErrorView> {
    if args.len() == 0 {
        Err(ShellErrorView::Builtin("chat requires a message"@))
    } else {
        Ok(joined(args, seq![' ']))
    }
}

/// Builds the prompt for `chat`, or says why there is none.
pub fn chat_prompt(args: &Vec<String>) -> (r: Result<String, ShellError>)
    ensures
        match chat_request(args.deep_view()) {
            Ok(text) => r matches Ok(prompt) && prompt@ == text,
            Err(error) => r matches Err(e) && e@ == error,
        },
{
    if args.len() == 0 {
        return Err(ShellError::BuiltinError("chat requires a message".to_owned()));
    }
    proof {
        reveal_strlit(" ");
        assert(" "@ =~= seq![' ']);
    }
    Ok(join(args, " "))
}

/// The status line that `chat` writes before it asks: an empty line, then
/// the glyph and the word that says the answer is on its way.
pub fn thinking_line(glyph: &str) -> (r: String)
    ensures
        r@ == "\n"@ + glyph@ + " Thinking...\n"@,
{
    let mut line = "\n".to_owned();
    line.append(glyph);
    line.append(" Thinking...\n");
    line
}

} // verus!
