use palmshell::args_analysis::Redirection;
use palmshell::error::ShellError;
use palmshell::parser::{parse_command, parse_line, test_background, Command};

fn list(items: &[&str]) -> Vec<String> {
    items.iter().map(|s| s.to_string()).collect()
}

fn external(name: &str, args: &[&str]) -> Command {
    Command::External(name.to_string(), list(args), Redirection::new())
}

fn builtin(name: &str, args: &[&str]) -> Command {
    Command::Builtin(name.to_string(), list(args), Redirection::new())
}

fn pipe(left: Command, right: Command) -> Command {
    Command::Pipe(Box::new(left), Box::new(right))
}

fn parse_error(line: &str) -> String {
    match parse_line(line) {
        Err(ShellError::ParseError(message)) => message,
        other => panic!("unexpected: {:?}", other),
    }
}

fn redirection_error(line: &str) -> String {
    match parse_line(line) {
        Err(ShellError::RedirectionError(message)) => message,
        other => panic!("unexpected: {:?}", other),
    }
}

fn wraps_idle(command: &Command) -> bool {
    let idle = |c: &Command| matches!(c, Command::Empty | Command::Exit);
    match command {
        Command::Background(inner) => idle(inner) || wraps_idle(inner),
        Command::Pipe(left, right) => {
            idle(left) || idle(right) || wraps_idle(left) || wraps_idle(right)
        }
        _ => false,
    }
}

#[test]
fn empty_line_is_empty_command() {
    assert_eq!(parse_line("").unwrap(), Command::Empty);
}

#[test]
fn blank_line_is_empty_command() {
    assert_eq!(parse_line(" \t  ").unwrap(), Command::Empty);
}

#[test]
fn exit_is_exit_whatever_follows() {
    assert_eq!(parse_line("exit").unwrap(), Command::Exit);
    assert_eq!(parse_line("  exit now please ").unwrap(), Command::Exit);
}

#[test]
fn quit_is_silently_nothing() {
    assert_eq!(parse_line("quit").unwrap(), Command::Empty);
    assert_eq!(parse_line("quit 3").unwrap(), Command::Empty);
}

#[test]
fn registered_names_are_builtins() {
    for name in ["cd", "pwd", "echo", "ls", "grep", "chat"] {
        let line = format!("{} a b", name);
        assert_eq!(parse_line(&line).unwrap(), builtin(name, &["a", "b"]));
    }
}

#[test]
fn other_names_are_external() {
    assert_eq!(parse_line("nosuchprogram").unwrap(), external("nosuchprogram", &[]));
    assert_eq!(parse_line("cat -n file").unwrap(), external("cat", &["-n", "file"]));
    assert_eq!(parse_line("Echo x").unwrap(), external("Echo", &["x"]));
    assert_eq!(parse_line("exits").unwrap(), external("exits", &[]));
}

#[test]
fn redirections_are_taken_out_of_the_arguments() {
    let expected = Command::Builtin(
        "pwd".to_string(),
        Vec::new(),
        Redirection { output_file: Some("/tmp/psh_test.out".to_string()), input_file: None },
    );
    assert_eq!(parse_line("pwd > /tmp/psh_test.out\n").unwrap(), expected);
    let expected = Command::External(
        "sort".to_string(),
        list(&["-r"]),
        Redirection { output_file: Some("out".to_string()), input_file: Some("in".to_string()) },
    );
    assert_eq!(parse_line("sort < in -r > out").unwrap(), expected);
}

#[test]
fn later_redirection_wins() {
    let expected = Command::External(
        "cmd".to_string(),
        Vec::new(),
        Redirection { output_file: Some("b".to_string()), input_file: None },
    );
    assert_eq!(parse_line("cmd > a > b").unwrap(), expected);
}

#[test]
fn operator_without_filename_is_redirection_error() {
    assert_eq!(redirection_error("cmd >"), "missing filename after operator");
    assert_eq!(redirection_error("echo a <"), "missing filename after operator");
    assert_eq!(redirection_error("exit >"), "missing filename after operator");
}

#[test]
fn operator_without_command_is_redirection_error() {
    assert_eq!(redirection_error("> foo"), "missing command before operator");
    assert_eq!(redirection_error("< foo cat"), "missing command before operator");
    assert_eq!(redirection_error(">"), "missing command before operator");
}

#[test]
fn pipe_splits_at_first_bar_and_leans_right() {
    assert_eq!(
        parse_line("echo abc | grep b").unwrap(),
        pipe(builtin("echo", &["abc"]), builtin("grep", &["b"]))
    );
    assert_eq!(
        parse_line("a|b|c").unwrap(),
        pipe(external("a", &[]), pipe(external("b", &[]), external("c", &[])))
    );
}

#[test]
fn each_stage_has_its_own_redirection() {
    let left = Command::External(
        "a".to_string(),
        Vec::new(),
        Redirection { output_file: None, input_file: Some("in".to_string()) },
    );
    let right = Command::External(
        "b".to_string(),
        list(&["x"]),
        Redirection { output_file: Some("out".to_string()), input_file: None },
    );
    assert_eq!(parse_line("a < in | b x > out").unwrap(), pipe(left, right));
}

#[test]
fn empty_stage_in_pipeline_is_parse_error() {
    for line in ["a |", "| a", "a | | b", "|", "a | b |", "  |  "] {
        assert_eq!(parse_error(line), "empty command in pipeline", "{:?}", line);
    }
}

#[test]
fn exit_and_quit_cannot_stand_in_a_pipeline() {
    for line in ["exit | a", "a | exit", "quit | a", "a | quit", "a | b | exit"] {
        assert_eq!(parse_error(line), "empty command in pipeline", "{:?}", line);
    }
}

#[test]
fn error_of_the_left_stage_comes_first() {
    assert_eq!(redirection_error("a > | b <"), "missing filename after operator");
    assert_eq!(parse_error(" | b <"), "empty command in pipeline");
    assert_eq!(redirection_error("a | b <"), "missing filename after operator");
}

#[test]
fn trailing_ampersand_backgrounds_the_command() {
    assert_eq!(
        parse_line("sleep 1 &\n").unwrap(),
        Command::Background(Box::new(external("sleep", &["1"])))
    );
    assert_eq!(
        parse_line("sleep 1&").unwrap(),
        Command::Background(Box::new(external("sleep", &["1"])))
    );
}

#[test]
fn trailing_ampersand_backgrounds_the_whole_pipeline() {
    assert_eq!(
        parse_line("a | b &").unwrap(),
        Command::Background(Box::new(pipe(external("a", &[]), external("b", &[]))))
    );
}

#[test]
fn only_the_last_ampersand_is_a_marker() {
    assert_eq!(
        parse_line("a & b &").unwrap(),
        Command::Background(Box::new(external("a", &["&", "b"])))
    );
    assert_eq!(parse_line("a & b").unwrap(), external("a", &["&", "b"]));
    assert_eq!(
        parse_line("a &&").unwrap(),
        Command::Background(Box::new(external("a", &["&"])))
    );
}

#[test]
fn nothing_cannot_be_backgrounded() {
    assert_eq!(parse_error("&"), "cannot background an empty command");
    assert_eq!(parse_error("   &  "), "cannot background an empty command");
}

#[test]
fn exit_and_quit_cannot_be_backgrounded() {
    assert_eq!(parse_error("exit &"), "cannot background an empty command");
    assert_eq!(parse_error("quit &"), "cannot background an empty command");
}

#[test]
fn errors_inside_a_backgrounded_line_are_kept() {
    assert_eq!(parse_error("a | &"), "empty command in pipeline");
    assert_eq!(redirection_error("a > &"), "missing filename after operator");
}

#[test]
fn parse_command_parses_a_segment_without_background() {
    assert_eq!(parse_command("ls -l").unwrap(), builtin("ls", &["-l"]));
    assert_eq!(parse_command("a &").unwrap(), external("a", &["&"]));
    assert_eq!(parse_command("").unwrap(), Command::Empty);
    assert_eq!(
        parse_command("a | b").unwrap(),
        pipe(external("a", &[]), external("b", &[]))
    );
}

#[test]
fn test_background_wraps_or_passes() {
    assert_eq!(test_background(external("a", &[]), false).unwrap(), external("a", &[]));
    assert_eq!(
        test_background(external("a", &[]), true).unwrap(),
        Command::Background(Box::new(external("a", &[])))
    );
    assert_eq!(test_background(Command::Exit, false).unwrap(), Command::Exit);
    assert_eq!(test_background(Command::Empty, false).unwrap(), Command::Empty);
}

#[test]
fn test_background_refuses_idle_commands() {
    for command in [Command::Exit, Command::Empty] {
        match test_background(command, true) {
            Err(ShellError::ParseError(message)) => {
                assert_eq!(message, "cannot background an empty command")
            }
            other => panic!("unexpected: {:?}", other),
        }
    }
}

#[test]
fn parsed_trees_never_wrap_idle_commands() {
    let lines = [
        "", "exit", "quit", "a", "a | b", "a | b | c &", "echo x > f | grep x &", "a &",
        "exit &", "a | exit", "| |", "a | quit &", "cd /tmp", "a | b | c | d",
    ];
    for line in lines {
        if let Ok(command) = parse_line(line) {
            assert!(!wraps_idle(&command), "{:?} gave {:?}", line, command);
        }
    }
}

fn shown(result: Result<Command, ShellError>) -> String {
    match result {
        Ok(command) => format!("{:?}", command),
        Err(error) => error.report(),
    }
}

#[test]
fn spacing_does_not_change_what_a_line_parses_to() {
    let lines = [
        "", "   ", "\t", "ls", "  ls  ", "ls\t-l   /tmp", " echo  a   b ", "a|b", " a |b ", "a  |  b",
        "a | b | c", "a  >  out   <  in", "a >", "  > foo", "a &", "a&", "  a   &  ", "&", " & ",
        "a | b &", "a|b&", "a | &", "exit", " exit  now ", "exit &", "quit", "a & b", "a&b &",
        "| a", "a |", " | ", "a || b", "grep  x\ty  |  grep\u{3000}x", "a\u{A0}b   c\r\n",
    ];
    for line in lines {
        let normalised = line.split_whitespace().collect::<Vec<_>>().join(" ");
        assert_eq!(shown(parse_line(line)), shown(parse_line(&normalised)), "{:?}", line);
    }
}
