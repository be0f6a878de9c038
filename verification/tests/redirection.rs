use palmshell::args_analysis::{redirection_analysis, Redirection};
use palmshell::error::ShellError;

fn list(items: &[&str]) -> Vec<String> {
    items.iter().map(|s| s.to_string()).collect()
}

#[test]
fn new_redirection_is_empty() {
    let rdr = Redirection::new();
    assert_eq!(rdr.output_file, None);
    assert_eq!(rdr.input_file, None);
}

#[test]
fn analysis_without_operators_changes_nothing() {
    let mut args = list(&["-l", "/tmp"]);
    let rdr = redirection_analysis(&mut args).unwrap();
    assert_eq!(rdr, Redirection::new());
    assert_eq!(args, list(&["-l", "/tmp"]));
}

#[test]
fn analysis_takes_output_redirection_out() {
    let mut args = list(&["a", ">", "out.txt", "b"]);
    let rdr = redirection_analysis(&mut args).unwrap();
    assert_eq!(rdr.output_file, Some("out.txt".to_string()));
    assert_eq!(rdr.input_file, None);
    assert_eq!(args, list(&["a", "b"]));
}

#[test]
fn analysis_takes_input_redirection_out() {
    let mut args = list(&["<", "in.txt", "x"]);
    let rdr = redirection_analysis(&mut args).unwrap();
    assert_eq!(rdr.input_file, Some("in.txt".to_string()));
    assert_eq!(rdr.output_file, None);
    assert_eq!(args, list(&["x"]));
}

#[test]
fn analysis_takes_both_directions() {
    let mut args = list(&["<", "in", "mid", ">", "out"]);
    let rdr = redirection_analysis(&mut args).unwrap();
    assert_eq!(rdr.input_file, Some("in".to_string()));
    assert_eq!(rdr.output_file, Some("out".to_string()));
    assert_eq!(args, list(&["mid"]));
}

#[test]
fn analysis_lets_the_last_occurrence_win() {
    let mut args = list(&[">", "first", "<", "one", ">", "second", "<", "two"]);
    let rdr = redirection_analysis(&mut args).unwrap();
    assert_eq!(rdr.output_file, Some("second".to_string()));
    assert_eq!(rdr.input_file, Some("two".to_string()));
    assert!(args.is_empty());
}

#[test]
fn analysis_takes_an_operator_as_operand() {
    let mut args = list(&[">", "<", "x"]);
    let rdr = redirection_analysis(&mut args).unwrap();
    assert_eq!(rdr.output_file, Some("<".to_string()));
    assert_eq!(rdr.input_file, None);
    assert_eq!(args, list(&["x"]));
}

#[test]
fn analysis_does_not_split_glued_operators() {
    let mut args = list(&[">out", "a<b", ">>"]);
    let rdr = redirection_analysis(&mut args).unwrap();
    assert_eq!(rdr, Redirection::new());
    assert_eq!(args, list(&[">out", "a<b", ">>"]));
}

#[test]
fn analysis_fails_on_operator_without_filename() {
    let mut args = list(&["a", ">"]);
    match redirection_analysis(&mut args) {
        Err(ShellError::RedirectionError(message)) => {
            assert_eq!(message, "missing filename after operator")
        }
        other => panic!("unexpected: {:?}", other),
    }
    assert_eq!(args, list(&["a"]));
}

#[test]
fn analysis_fails_on_dangling_input_operator_after_a_redirection() {
    let mut args = list(&[">", "out", "keep", "<"]);
    match redirection_analysis(&mut args) {
        Err(ShellError::RedirectionError(message)) => {
            assert_eq!(message, "missing filename after operator")
        }
        other => panic!("unexpected: {:?}", other),
    }
    assert_eq!(args, list(&["keep"]));
}

#[test]
fn analysis_is_idempotent() {
    let mut args = list(&["x", ">", "out", "y", "<", "in", ">", "other"]);
    let first = redirection_analysis(&mut args).unwrap();
    assert_eq!(first.output_file, Some("other".to_string()));
    let cleaned = args.clone();
    let second = redirection_analysis(&mut args).unwrap();
    assert_eq!(second, Redirection::new());
    assert_eq!(args, cleaned);
}
