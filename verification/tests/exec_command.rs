use codex_tui::exec_command::{escape_command, strip_bash_lc_and_escape};

#[test]
fn test_escape_command() {
    let args = vec!["foo".into(), "bar baz".into(), "weird&stuff".into()];
    let cmdline = escape_command(&args);
    assert_eq!(cmdline, "foo 'bar baz' 'weird&stuff'");
}

#[test]
fn test_strip_bash_lc_and_escape() {
    let args = vec!["bash".into(), "-lc".into(), "echo hello".into()];
    let cmdline = strip_bash_lc_and_escape(&args);
    assert_eq!(cmdline, "echo hello");
}

#[test]
fn non_bash_commands_are_escaped() {
    let args: Vec<String> = vec!["ls".into(), "-la".into(), "my dir".into()];
    assert_eq!(strip_bash_lc_and_escape(&args), "ls -la 'my dir'");
}

#[test]
fn words_with_nul_are_joined_plainly() {
    let args: Vec<String> = vec!["a\0b".into(), "c d".into()];
    assert_eq!(escape_command(&args), "a\0b c d");
}
