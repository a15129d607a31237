use weft_terminal::terminal::TerminalEvent;
use weft_terminal::terminal::{parse_input, validate_command, CommandValidation, TerminalEngine};

#[test]
fn typed_input_first_line_is_the_command() {
    assert_eq!(parse_input(b"ls -la\r\nrest"), Some("ls -la".to_string()));
    assert_eq!(parse_input(b"echo hi"), Some("echo hi".to_string()));
    assert_eq!(parse_input(b"   \nls"), None);
    assert_eq!(parse_input(b""), None);
}

#[test]
fn sessions_record_their_commands() {
    let mut t = TerminalEngine::new();
    let id = t.create_session(None, "/home".to_string(), Vec::new());
    assert_eq!(id.len(), 36);
    assert_eq!(t.get_session(&id).unwrap().working_directory, "/home");
    let cmd = t.handle_input(&id, b"make\n");
    assert_eq!(cmd, Some("make".to_string()));
    t.handle_output(&id, 12);
    t.handle_output(&id, 3);
    t.handle_command_executed(&id, 0);
    let s = t.get_session(&id).unwrap();
    assert_eq!(s.history.len(), 1);
    assert_eq!(s.history[0].command, "make");
    assert_eq!(s.history[0].output_size, 15);
    assert_eq!(s.history[0].exit_code, Some(0));
    assert_eq!(t.command_directory(&id, "/".to_string()), "/home");
    assert_eq!(t.command_directory("other", "/".to_string()), "/");
}

#[test]
fn closing_removes_only_that_session() {
    let mut t = TerminalEngine::new();
    let a = t.create_session(Some("/a".to_string()), "/".to_string(), Vec::new());
    let b = t.create_session(None, "/".to_string(), Vec::new());
    assert_ne!(a, b);
    t.handle_session_closed(&a);
    assert!(t.get_session(&a).is_none());
    assert!(t.get_session(&b).is_some());
    assert_eq!(t.get_all_sessions().len(), 1);
}

#[test]
fn events_drive_the_sessions() {
    let mut t = TerminalEngine::new();
    let id = t.create_session(None, "/w".to_string(), Vec::new());
    let cmd = t.handle_event(&TerminalEvent::Input { session_id: id.clone(), data: b"cargo build\n".to_vec() });
    assert_eq!(cmd, Some("cargo build".to_string()));
    assert!(t.handle_event(&TerminalEvent::Output { session_id: id.clone(), data: vec![0u8; 7] }).is_none());
    t.handle_event(&TerminalEvent::CommandExecuted { session_id: id.clone(), command: "cargo build".to_string(), exit_code: 101 });
    let s = t.get_session(&id).unwrap();
    assert_eq!(s.history[0].output_size, 7);
    assert_eq!(s.history[0].exit_code, Some(101));
    t.handle_event(&TerminalEvent::SessionClosed { session_id: id.clone() });
    assert!(t.get_all_sessions().is_empty());
}

#[test]
fn dangerous_commands_are_blocked() {
    assert!(validate_command("rm -rf /").blocked);
    assert!(validate_command("sudo rm -rf / --no-preserve-root").blocked);
    assert!(validate_command("rm -rf /*").blocked);
    assert!(validate_command(":(){ :|:& };:").blocked);
    assert!(validate_command("mkfs.ext4 /dev/sda").blocked);
    assert!(validate_command("dd if=/dev/zero of=/dev/sda bs=1M").blocked);
    assert!(!validate_command("rm -rf /tmp/x").blocked);
    assert!(!validate_command("rm -rf ./build").blocked);
}

#[test]
fn system_modifying_and_chained_commands_are_flagged() {
    assert_eq!(
        validate_command("ls -la"),
        CommandValidation { blocked: false, system_modifying: false, chained: false }
    );
    assert!(validate_command("sudo apt update").system_modifying);
    assert!(validate_command("chmod +x run.sh").system_modifying);
    assert!(validate_command("cd /srv && chown me file").system_modifying);
    assert!(!validate_command("echo chmodder").system_modifying);
    assert!(validate_command("make && make install").chained);
    assert!(validate_command("false || true").chained);
    assert!(validate_command("cd /tmp; ls").chained);
    assert!(!validate_command("git status").chained);
}

#[test]
fn dangerous_input_is_refused_and_not_recorded() {
    let mut t = TerminalEngine::new();
    let id = t.create_session(None, "/".to_string(), Vec::new());
    assert_eq!(t.handle_input(&id, b"rm -rf /\n"), None);
    assert_eq!(t.handle_input(&id, b":(){ :|:& };:\n"), None);
    assert!(t.get_session(&id).unwrap().history.is_empty());
    assert_eq!(t.handle_input(&id, b"rm -rf /tmp/x\n"), Some("rm -rf /tmp/x".to_string()));
    assert_eq!(t.get_session(&id).unwrap().history.len(), 1);
}

#[test]
fn recording_output_and_exit_keeps_the_command_start() {
    let mut t = TerminalEngine::new();
    let env = vec![("TERM".to_string(), "xterm".to_string())];
    let id = t.create_session(None, "/".to_string(), env.clone());
    t.handle_input(&id, b"ls\n");
    let (created, started) = {
        let s = t.get_session(&id).unwrap();
        (s.created_at, s.history[0].timestamp)
    };
    t.handle_output(&id, 4);
    t.handle_command_executed(&id, 0);
    let s = t.get_session(&id).unwrap();
    assert_eq!(s.created_at, created);
    assert_eq!(s.history[0].timestamp, started);
    assert_eq!(s.history[0].duration, None);
    assert_eq!(s.environment, env);
}
