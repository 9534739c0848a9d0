use shellmars::models::connection::{default_prompt_config, PromptConfig};
use shellmars::services::command::SshCommandExecutor;

fn smart() -> PromptConfig {
    default_prompt_config()
}

fn simple() -> PromptConfig {
    let mut config = default_prompt_config();
    config.smart_detection = false;
    config
}

fn one(pattern: &str) -> Vec<String> {
    vec![pattern.to_string()]
}

#[test]
fn smart_detection_fires_on_prompt_in_last_line() {
    let chunk = "total 0\ndrwxr-xr-x  2 root root 4096 Jan 1 00:00 .\n[root@host ~]# ";
    assert!(SshCommandExecutor::detect_prompt(chunk, &one("]# "), &smart()));
}

#[test]
fn smart_detection_ignores_prompt_text_inside_output() {
    let chunk = "echo \"]# \"\n]# \nmore output follows\n";
    assert!(!SshCommandExecutor::detect_prompt(chunk, &one("]# "), &smart()));
}

#[test]
fn smart_detection_ignores_prompt_text_before_the_last_line() {
    let chunk = "[root@host ~]# echo \"]# \"\n]# \nstill printing";
    assert!(!SshCommandExecutor::detect_prompt(chunk, &one("]# "), &smart()));
}

#[test]
fn simple_detection_fires_on_any_occurrence() {
    let chunk = "echo \"]# \"\n]# \nmore output follows\n";
    assert!(SshCommandExecutor::detect_prompt(chunk, &one("]# "), &simple()));
}

#[test]
fn simple_detection_needs_an_occurrence() {
    assert!(!SshCommandExecutor::detect_prompt("no prompt here", &one("]# "), &simple()));
}

#[test]
fn smart_detection_trims_the_last_line_and_the_pattern() {
    // The pattern occurs with its blank; the last line is followed by tabs and blanks.
    let chunk = "out\nuser@host:~$ \t  ";
    assert!(SshCommandExecutor::detect_prompt(chunk, &one("$ "), &smart()));
}

#[test]
fn smart_detection_needs_the_untrimmed_pattern_in_the_chunk() {
    // The last line ends with "$", yet "$ " with its blank occurs nowhere.
    let chunk = "out\nuser@host:~$";
    assert!(!SshCommandExecutor::detect_prompt(chunk, &one("$ "), &smart()));
}

#[test]
fn detection_tries_every_pattern() {
    let patterns = vec!["]# ".to_string(), "$ ".to_string(), "> ".to_string()];
    assert!(SshCommandExecutor::detect_prompt("a\nmysql> ", &patterns, &smart()));
    assert!(!SshCommandExecutor::detect_prompt("a\nmysql% ", &patterns, &smart()));
}

#[test]
fn detection_without_patterns_never_fires() {
    let none: Vec<String> = Vec::new();
    assert!(!SshCommandExecutor::detect_prompt("user@host:~$ ", &none, &smart()));
    assert!(!SshCommandExecutor::detect_prompt("user@host:~$ ", &none, &simple()));
}

#[test]
fn detection_on_a_chunk_that_ends_with_a_line_feed_looks_at_the_empty_last_line() {
    // After the final line feed the last line is empty, so no prompt ends it.
    assert!(!SshCommandExecutor::detect_prompt("user@host:~$ \n", &one("$ "), &smart()));
    assert!(SshCommandExecutor::detect_prompt("user@host:~$ \n", &one("$ "), &simple()));
}

#[test]
fn detection_with_the_default_patterns() {
    let config = default_prompt_config();
    assert!(SshCommandExecutor::detect_prompt("hi\nu@test:~$ ", &config.patterns, &config));
    assert!(SshCommandExecutor::detect_prompt("[root@box ~]# ", &config.patterns, &config));
    assert!(!SshCommandExecutor::detect_prompt("plain output\n", &config.patterns, &config));
}
