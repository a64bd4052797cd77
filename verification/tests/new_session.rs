use latch::commands::new::{session_command, session_name};

#[test]
fn name_defaults_to_id() {
    let id = "session-abc123".to_string();
    assert_eq!(session_name(None, &id), "session-abc123");
    assert_eq!(session_name(Some("work".to_string()), &id), "work");
}

#[test]
fn command_defaults_to_shell_then_sh() {
    assert_eq!(session_command(Some("htop".to_string()), Some("/bin/zsh".to_string())), "htop");
    assert_eq!(session_command(None, Some("/bin/zsh".to_string())), "/bin/zsh");
    assert_eq!(session_command(None, None), "/bin/sh");
}
