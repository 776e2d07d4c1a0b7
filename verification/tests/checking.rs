use codeblock_lint::check::{default_cmd, CheckResult, CheckerCommand};

#[test]
fn no_output_is_clean() {
    assert_eq!(CheckResult::of_output(b""), CheckResult::Clean);
    assert_eq!(CheckResult::of_text(String::new()), CheckResult::Clean);
    assert!(CheckResult::of_output(b"").is_clean());
}

#[test]
fn output_is_the_issues_as_written() {
    let line = "block:1:2: E225 missing whitespace around operator\n";
    assert_eq!(CheckResult::of_output(line.as_bytes()), CheckResult::Issues(line.to_string()));
    assert_eq!(CheckResult::of_text(line.to_string()), CheckResult::Issues(line.to_string()));
    assert!(!CheckResult::of_output(line.as_bytes()).is_clean());
}

#[test]
fn blank_output_is_not_clean() {
    assert_eq!(CheckResult::of_output(b"\n"), CheckResult::Issues("\n".to_string()));
    assert_eq!(CheckResult::of_output(b" "), CheckResult::Issues(" ".to_string()));
}

#[test]
fn output_outside_ascii_is_decoded() {
    assert_eq!(
        CheckResult::of_output("caf\u{e9} \u{1f40d}".as_bytes()),
        CheckResult::Issues("caf\u{e9} \u{1f40d}".to_string())
    );
}

#[test]
fn invalid_bytes_are_replaced() {
    assert_eq!(CheckResult::of_output(&[0x66, 0xff, 0x6f]), CheckResult::Issues("f\u{fffd}o".to_string()));
    assert_eq!(CheckResult::of_output(&[0xff]), CheckResult::Issues("\u{fffd}".to_string()));
}

#[test]
fn default_command_is_flake8_on_stdin() {
    assert_eq!(
        default_cmd(),
        vec!["flake8".to_string(), "--stdin-display-name".to_string(), "block".to_string(), "-".to_string()]
    );
}

#[test]
fn standard_command_is_the_default() {
    let command = CheckerCommand::standard();
    assert_eq!(command.program(), "flake8");
    assert_eq!(
        command.arguments(),
        vec!["--stdin-display-name".to_string(), "block".to_string(), "-".to_string()]
    );
}

#[test]
fn command_needs_a_program() {
    assert!(CheckerCommand::new(Vec::new()).is_none());
}

#[test]
fn command_of_one_word_has_no_arguments() {
    let command = CheckerCommand::new(vec!["pycodestyle".to_string()]).unwrap();
    assert_eq!(command.program(), "pycodestyle");
    assert_eq!(command.arguments(), Vec::<String>::new());
}

#[test]
fn command_keeps_its_words_in_order() {
    let command = CheckerCommand::new(vec!["a".to_string(), "b".to_string(), "c".to_string()]).unwrap();
    assert_eq!(command.program(), "a");
    assert_eq!(command.arguments(), vec!["b".to_string(), "c".to_string()]);
}
