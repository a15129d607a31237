use weft_terminal::pty::{
    after_read, initial_geometry, keep_relaying, request_shutdown, settle_child, start_relay, term_value,
    ChildAction, ChildStatus, ReadOutcome, RelayAction,
};

#[test]
fn shutdown_stops_the_relay() {
    let mut s = start_relay();
    assert!(keep_relaying(&s));
    request_shutdown(&mut s);
    assert!(!keep_relaying(&s));
    request_shutdown(&mut s);
    assert!(!keep_relaying(&s));
}

#[test]
fn reads_forward_or_stop() {
    assert!(after_read(ReadOutcome::Data(5)) == RelayAction::Forward(5));
    assert!(after_read(ReadOutcome::Data(0)) == RelayAction::Stop);
    assert!(after_read(ReadOutcome::Failed) == RelayAction::Stop);
}

#[test]
fn child_is_settled_by_its_status() {
    assert!(settle_child(ChildStatus::Exited) == ChildAction::ReportExit);
    assert!(settle_child(ChildStatus::Running) == ChildAction::KillAndReap);
    assert!(settle_child(ChildStatus::WaitFailed) == ChildAction::ReportWaitError);
}

#[test]
fn terminal_defaults() {
    let g = initial_geometry();
    assert_eq!((g.rows, g.cols, g.pixel_width, g.pixel_height), (24, 80, 0, 0));
    assert_eq!(term_value(None), "xterm-256color");
    assert_eq!(term_value(Some("vt100".to_string())), "vt100");
}
