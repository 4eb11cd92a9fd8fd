use tasker::runner::parse_command_from_string;
use tasker::strings::{parse_task_name_from_string, split_exclude_quotes};

#[test]
fn test_split_exclude_quotes() {
    let spl = split_exclude_quotes("echo \"beginning is here\" end".to_string());
    assert_eq!(vec!["echo", "beginning is here", "end"], spl);
}

#[test]
fn test_split_exclude_quotes_2() {
    let spl = split_exclude_quotes("echo \"beginning is here\" \"end is here\"".to_string());
    assert_eq!(vec!["echo", "beginning is here", "end is here"], spl);
}

#[test]
fn builder_test_parse_task_name_from_string() {
    let task_name = parse_task_name_from_string(&"test".to_string());
    assert_eq!(task_name, "test");
}

#[test]
fn mod_test_parse_task_name_from_string() {
    let task_name = parse_task_name_from_string(&"test with args".to_string());
    assert_eq!(task_name, "test");
}

#[test]
fn mod_test_parse_command_from_string() {
    let cmd = parse_command_from_string(
        "echo \"beginning is here\" \"end is here\"".to_string(),
    );
    let cmd = cmd.unwrap();
    assert_eq!(cmd.program, "echo");
    assert_eq!(
        cmd.args,
        vec!["\"beginning", "is", "here\"", "\"end", "is", "here\""]
    );
}

#[test]
fn runner_test_parse_command_from_string() {
    let cmd = parse_command_from_string(
        "echo \"beginning is here\" \"end is here\"".to_string(),
    );
    let cmd = cmd.unwrap();
    assert_eq!(cmd.program, "echo");
    assert_eq!(
        cmd.args,
        vec!["\"beginning", "is", "here\"", "\"end", "is", "here\""]
    );
}

#[test]
fn parse_command_from_empty_string_fails() {
    let cmd = parse_command_from_string("   ".to_string());
    let err = cmd.unwrap_err();
    assert_eq!(
        err.display_string(),
        "Command not found:\n    \u{1b}[31mMISSING_CMD\u{1b}[0m: command could not be parsed from cmd string:    "
    );
}

#[test]
fn quoted_value_survives_retokenization() {
    // A value holding a space, wrapped in double quotes, comes back from the
    // quote-aware splitter as exactly one token equal to the value.
    let tokens = split_exclude_quotes("\"a value with spaces\"".to_string());
    assert_eq!(tokens, vec!["a value with spaces"]);
}

#[test]
fn split_collapses_nothing_outside_quotes() {
    let tokens = split_exclude_quotes("a b".to_string());
    assert_eq!(tokens, vec!["a", "b"]);
}

#[test]
fn split_keeps_empty_tokens_between_spaces() {
    // Every unquoted space ends a token, so doubled spaces yield an empty
    // token between them.
    let tokens = split_exclude_quotes("a  b".to_string());
    assert_eq!(tokens, vec!["a", "", "b"]);
}

#[test]
fn parse_command_splits_on_any_whitespace() {
    let cmd = parse_command_from_string("a\tb\nc\rd e\u{000B}f\u{000C}g\u{00A0}h".to_string())
        .unwrap();
    assert_eq!(cmd.program, "a");
    assert_eq!(cmd.args, vec!["b", "c", "d", "e", "f", "g", "h"]);
}

#[test]
fn parse_command_rejects_whitespace_only_strings() {
    assert!(parse_command_from_string("\t \n".to_string()).is_err());
    assert!(parse_command_from_string("\u{000B}".to_string()).is_err());
    assert!(parse_command_from_string("\u{2028}\u{3000}".to_string()).is_err());
}
