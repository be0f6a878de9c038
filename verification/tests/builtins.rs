use palmshell::builtins::{
    builtin_echo, builtin_grep, cd_target, chat_prompt, emit_line, lookup, ls_target,
    thinking_line, Builtin,
};
use palmshell::error::ShellError;
use palmshell::parser::{parse_line, Command};
use palmshell::text::emit;

fn list(items: &[&str]) -> Vec<String> {
    items.iter().map(|s| s.to_string()).collect()
}

fn echo(args: &[&str], piped: Option<&str>) -> String {
    let mut out = Vec::new();
    builtin_echo(list(args), piped.map(String::from), &mut out).unwrap();
    String::from_utf8(out).unwrap()
}

fn grep(args: &[&str], piped: Option<&str>) -> String {
    let mut out = Vec::new();
    builtin_grep(list(args), piped.map(String::from), &mut out).unwrap();
    String::from_utf8(out).unwrap()
}

fn grep_error(args: &[&str], piped: Option<&str>) -> String {
    let mut out = vec![7u8];
    match builtin_grep(list(args), piped.map(String::from), &mut out) {
        Err(ShellError::BuiltinError(message)) => {
            assert_eq!(out, vec![7u8]);
            message
        }
        other => panic!("unexpected: {:?}", other),
    }
}

#[test]
fn registry_knows_the_six_builtins() {
    assert_eq!(lookup("cd"), Some(Builtin::Cd));
    assert_eq!(lookup("pwd"), Some(Builtin::Pwd));
    assert_eq!(lookup("echo"), Some(Builtin::Echo));
    assert_eq!(lookup("ls"), Some(Builtin::Ls));
    assert_eq!(lookup("grep"), Some(Builtin::Grep));
    assert_eq!(lookup("chat"), Some(Builtin::Chat));
}

#[test]
fn registry_knows_nothing_else() {
    for name in ["", "exit", "quit", "CD", "echo ", "cat", "lss"] {
        assert_eq!(lookup(name), None, "{:?}", name);
    }
}

#[test]
fn echo_hello_world() {
    assert_eq!(echo(&["hello", "world"], None), "hello world\n");
}

#[test]
fn echo_without_arguments_writes_a_line_feed() {
    assert_eq!(echo(&[], None), "\n");
}

#[test]
fn echo_appends_piped_input_as_last_part() {
    assert_eq!(echo(&["a", "b"], Some("x\n")), "a b x\n");
    assert_eq!(echo(&[], Some("x\n")), "x\n");
}

#[test]
fn echo_trims_only_the_line_ends_of_piped_input() {
    assert_eq!(echo(&[], Some("abc \n")), "abc \n");
    assert_eq!(echo(&["a"], Some("  x y \t\n")), "a   x y \t\n");
    assert_eq!(echo(&["a"], Some("x\r\n")), "a x\n");
    assert_eq!(echo(&["a"], Some("x\n\n")), "a x\n");
    assert_eq!(echo(&["a"], Some("x\ny\n")), "a x\ny\n");
    assert_eq!(echo(&["a"], Some("x\n ")), "a x\n \n");
    assert_eq!(echo(&["a"], Some("")), "a \n");
    assert_eq!(echo(&["a"], Some("\n")), "a \n");
}

#[test]
fn echo_appends_to_what_the_sink_holds() {
    let mut out = b"before|".to_vec();
    builtin_echo(list(&["héllo"]), None, &mut out).unwrap();
    assert_eq!(out, "before|héllo\n".as_bytes());
}

#[test]
fn echo_line_end_to_end() {
    match parse_line("echo hello world\n").unwrap() {
        Command::Builtin(name, args, _) => {
            assert_eq!(lookup(&name), Some(Builtin::Echo));
            let mut out = Vec::new();
            builtin_echo(args, None, &mut out).unwrap();
            assert_eq!(out, b"hello world\n");
        }
        other => panic!("unexpected: {:?}", other),
    }
}

#[test]
fn grep_without_pattern_fails() {
    assert_eq!(grep_error(&[], None), "grep requires a pattern");
    assert_eq!(grep_error(&[], Some("text")), "grep requires a pattern");
}

#[test]
fn grep_pattern_without_input_fails() {
    assert_eq!(grep_error(&["pattern"], None), "grep requires input (from pipe or arguments)");
}

#[test]
fn grep_pattern_with_empty_pipe_and_no_arguments_fails() {
    assert_eq!(grep_error(&["p"], Some("")), "grep requires input (from pipe or arguments)");
}

#[test]
fn grep_with_empty_pipe_and_arguments_searches_the_pipe() {
    assert_eq!(grep(&["p", "p"], Some("")), "");
}

#[test]
fn grep_searches_piped_input_line_by_line() {
    assert_eq!(grep(&["b"], Some("abc\nxyz\ncab\n")), "abc\ncab\n");
    assert_eq!(grep(&["b"], Some("abc\nxyz\ncab")), "abc\ncab\n");
    assert_eq!(grep(&["q"], Some("abc\nxyz\n")), "");
}

#[test]
fn grep_prefers_the_pipe_over_arguments() {
    assert_eq!(grep(&["a", "a-in-args"], Some("b\n")), "");
}

#[test]
fn grep_joins_arguments_as_content() {
    assert_eq!(grep(&["two", "one", "two", "three"], None), "one two three\n");
    assert_eq!(grep(&["e t", "one", "two"], None), "one two\n");
    assert_eq!(grep(&["four", "one", "two"], None), "");
}

#[test]
fn grep_takes_crlf_as_one_line_end() {
    assert_eq!(grep(&["a"], Some("ab\r\ncd\r\nae\r")), "ab\nae\r\n");
    assert_eq!(grep(&["\r"], Some("a\r\nb\rc\n")), "b\rc\n");
}

#[test]
fn grep_with_empty_pattern_keeps_every_line() {
    assert_eq!(grep(&[""], Some("a\n\nb\n")), "a\n\nb\n");
    assert_eq!(grep(&[""], Some("\n")), "\n");
}

#[test]
fn grep_agrees_with_std_lines_and_contains() {
    let texts = ["", "\n", "a", "a\n", "a\r\n", "\r\n\r\n", "ab\ncd\r\n\nef\r", "x\n\n\ny", "\r"];
    let patterns = ["", "a", "b\n", "\r", "cd", "xy"];
    for text in texts {
        for pattern in patterns {
            let mut expected = String::new();
            for line in text.lines() {
                if line.contains(pattern) {
                    expected.push_str(line);
                    expected.push('\n');
                }
            }
            assert_eq!(grep(&[pattern, "arg"], Some(text)), expected, "{:?} {:?}", text, pattern);
        }
    }
}

#[test]
fn echo_piped_into_grep() {
    let mut first = Vec::new();
    builtin_echo(list(&["abc"]), None, &mut first).unwrap();
    let piped = String::from_utf8(first).unwrap();
    assert_eq!(grep(&["b"], Some(&piped)), "abc\n");
}

#[test]
fn echo_three_words_piped_into_grep() {
    let mut first = Vec::new();
    builtin_echo(list(&["one", "two", "three"]), None, &mut first).unwrap();
    let piped = String::from_utf8(first).unwrap();
    assert_eq!(grep(&["two"], Some(&piped)), "one two three\n");
}

#[test]
fn grep_finds_patterns_at_both_ends_and_across_words() {
    assert_eq!(grep(&["hello world"], Some("hello world")), "hello world\n");
    assert_eq!(grep(&["hello world!"], Some("hello world")), "");
    assert_eq!(grep(&["lo w"], Some("hello world")), "hello world\n");
    assert_eq!(grep(&["h"], Some("hello")), "hello\n");
    assert_eq!(grep(&["o"], Some("hello")), "hello\n");
    assert_eq!(grep(&["ab"], Some("aab")), "aab\n");
    assert_eq!(grep(&["aab"], Some("aaab")), "aaab\n");
    assert_eq!(grep(&["é"], Some("caf\né\n")), "é\n");
}

#[test]
fn emit_writes_utf8() {
    let mut out = vec![1u8];
    emit(&mut out, "aé€");
    assert_eq!(out, vec![1u8, b'a', 0xC3, 0xA9, 0xE2, 0x82, 0xAC]);
    emit_line(&mut out, "z");
    assert_eq!(&out[7..], b"z\n");
}

#[test]
fn cd_goes_to_first_argument_then_home_then_root() {
    assert_eq!(cd_target(&list(&["/tmp", "x"]), Some("/home/u".to_string())), "/tmp");
    assert_eq!(cd_target(&list(&[]), Some("/home/u".to_string())), "/home/u");
    assert_eq!(cd_target(&list(&[]), None), "/");
}

#[test]
fn ls_lists_first_argument_or_here() {
    assert_eq!(ls_target(&list(&["/tmp", "x"])), "/tmp");
    assert_eq!(ls_target(&list(&[])), ".");
}

#[test]
fn chat_needs_a_message() {
    match chat_prompt(&list(&[])) {
        Err(ShellError::BuiltinError(message)) => assert_eq!(message, "chat requires a message"),
        other => panic!("unexpected: {:?}", other),
    }
}

#[test]
fn chat_joins_its_words() {
    assert_eq!(chat_prompt(&list(&["what", "is", "rust?"])).unwrap(), "what is rust?");
    assert_eq!(chat_prompt(&list(&["hi"])).unwrap(), "hi");
}

#[test]
fn chat_status_line() {
    assert_eq!(thinking_line("🤖"), "\n🤖 Thinking...\n");
}
