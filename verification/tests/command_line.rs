use shellmars::models::connection::{CommandOptions, ConnectionConfig};
use shellmars::services::command::SshCommandExecutor;

fn config() -> ConnectionConfig {
    ConnectionConfig::with_identity(
        "id-1".to_string(),
        "box".to_string(),
        "test".to_string(),
        "u".to_string(),
        1_000,
    )
}

#[test]
fn command_without_line_end_gets_one() {
    assert_eq!(SshCommandExecutor::command_line("echo hi"), "echo hi\n");
}

#[test]
fn command_with_one_line_feed_stays() {
    assert_eq!(SshCommandExecutor::command_line("echo hi\n"), "echo hi\n");
}

#[test]
fn command_with_several_line_ends_keeps_exactly_one() {
    assert_eq!(SshCommandExecutor::command_line("echo hi\n\n\n"), "echo hi\n");
    assert_eq!(SshCommandExecutor::command_line("echo hi\r\n"), "echo hi\n");
    assert_eq!(SshCommandExecutor::command_line("echo hi\r"), "echo hi\n");
}

#[test]
fn empty_command_is_a_bare_line_feed() {
    assert_eq!(SshCommandExecutor::command_line(""), "\n");
    assert_eq!(SshCommandExecutor::command_line("\n"), "\n");
}

#[test]
fn line_ends_inside_the_command_stay() {
    assert_eq!(SshCommandExecutor::command_line("a\nb"), "a\nb\n");
}

#[test]
fn execute_command_uses_the_configured_settings() {
    let run = SshCommandExecutor::execute_command(&config(), "ls -l");
    assert_eq!(run.line, "ls -l\n");
    assert_eq!(run.reader.output(), "");
    assert_eq!(run.reader.stopped(), None);
    assert_eq!(run.reader.empty_reads(), 0);
}

#[test]
fn execute_command_with_options_normalises_the_command() {
    let options = CommandOptions {
        custom_prompts: Some(vec![">>> ".to_string()]),
        timeout: Some(5),
        wait_for_prompt: false,
        debug_output: true,
    };
    let run = SshCommandExecutor::execute_command_with_options(&config(), "python\n", options);
    assert_eq!(run.line, "python\n");
}
