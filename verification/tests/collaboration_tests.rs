use weft_terminal::collaboration::CollaborationEvent;
use weft_terminal::collaboration::{
    color_from_hash, remote_join_url, CollaborationEngine, MessageContent, MessageType, ParticipantRole,
    SessionSettings, TerminalState,
};

#[test]
fn sessions_are_named_after_their_id() {
    let mut e = CollaborationEngine::new(true);
    let state = TerminalState::new("/".to_string(), Vec::new());
    e.handle_session_created("0123456789abcdef".to_string(), "ana".to_string(), state);
    let s = e.get_session("0123456789abcdef").unwrap();
    assert_eq!(s.name, "Session 01234567");
    assert_eq!(s.owner, "ana");
    assert!(s.settings == SessionSettings::default());
    assert_eq!(s.settings.max_participants, 10);
}

#[test]
fn participants_join_and_leave() {
    let mut e = CollaborationEngine::new(false);
    e.handle_session_created("abcdefgh-1".to_string(), "o".to_string(), TerminalState::new("/".to_string(), Vec::new()));
    e.handle_session_joined("abcdefgh-1", "bo".to_string(), (1, 2, 3));
    e.handle_session_joined("abcdefgh-1", "cy".to_string(), (4, 5, 6));
    e.handle_session_joined("missing", "dd".to_string(), (0, 0, 0));
    let s = e.get_session("abcdefgh-1").unwrap();
    assert_eq!(s.participants.len(), 2);
    assert!(s.participants[0].role == ParticipantRole::Editor);
    assert_eq!(s.participants[1].color, (4, 5, 6));
    e.handle_session_left("abcdefgh-1", "bo");
    let s = e.get_session("abcdefgh-1").unwrap();
    assert_eq!(s.participants.len(), 1);
    assert_eq!(s.participants[0].name, "cy");
}

#[test]
fn messages_and_their_targets() {
    let mut e = CollaborationEngine::new(true);
    let m = e.terminal_output_message("done".to_string());
    assert!(m.message_type == MessageType::Output && m.encrypted);
    assert_eq!(m.sender, "system");
    assert!(matches!(m.content, MessageContent::Output(ref o) if o == "done"));
    let c = e.cursor_message("u".to_string(), (1, 2));
    assert!(!c.encrypted);
    let c1 = e.add_connection("s1".to_string(), "u1".to_string());
    let _c2 = e.add_connection("s2".to_string(), "u2".to_string());
    let c3 = e.add_connection("s1".to_string(), "u3".to_string());
    assert_eq!(e.broadcast_targets("s1"), vec![c1, c3]);
    assert!(e.broadcast_targets("s9").is_empty());
}

#[test]
fn colors_and_urls() {
    assert_eq!(color_from_hash(0x00ab_cdef), (0xab, 0xcd, 0xef));
    assert_eq!(color_from_hash(0xffff_ffff_ff12_3456), (0x12, 0x34, 0x56));
    assert_eq!(remote_join_url("ws://h", "s1", "bo"), "ws://h/session/s1/join/bo");
}

#[test]
fn events_update_sessions_or_give_messages() {
    let mut e = CollaborationEngine::new(true);
    let st = || TerminalState::new("/".to_string(), Vec::new());
    let r = e.handle_event(
        CollaborationEvent::SessionCreated { session_id: "sessid-123".to_string(), owner: "o".to_string() },
        st(),
        (0, 0, 0),
    );
    assert!(r.is_none());
    e.handle_event(CollaborationEvent::SessionJoined { session_id: "sessid-123".to_string(), user: "u".to_string() }, st(), (9, 9, 9));
    assert_eq!(e.get_session("sessid-123").unwrap().participants[0].color, (9, 9, 9));
    let out = e.handle_event(
        CollaborationEvent::TerminalInputShared { session_id: "sessid-123".to_string(), user: "u".to_string(), input: "ls".to_string() },
        st(),
        (0, 0, 0),
    );
    let (sid, m) = out.unwrap();
    assert_eq!(sid, "sessid-123");
    assert!(m.message_type == MessageType::Command && m.encrypted && m.sender == "u");
    e.handle_event(CollaborationEvent::SessionLeft { session_id: "sessid-123".to_string(), user: "u".to_string() }, st(), (0, 0, 0));
    assert!(e.get_session("sessid-123").unwrap().participants.is_empty());
}

#[test]
fn session_name_takes_the_first_eight_bytes() {
    let mut e = CollaborationEngine::new(false);
    let id = "ab\u{20ac}def-rest".to_string();
    assert_eq!(&id[..8], "ab\u{20ac}def");
    e.handle_session_created(id.clone(), "o".to_string(), TerminalState::new("/".to_string(), Vec::new()));
    assert_eq!(e.get_session(&id).unwrap().name, "Session ab\u{20ac}def");
}
