//! Decisions of the pseudo-terminal relay: when to keep copying output, when to stop, and
//! what to do with the shell process afterwards.
use vstd::prelude::*;

verus! {

/// Shared stop request of the relay loops.
#[derive(Debug, Clone, Copy, PartialEq, Eq, Structural)]
pub struct RelayState {
    pub shutdown: bool,
}

/// What one read from the terminal gave.
#[derive(Debug, Clone, Copy, PartialEq, Eq, Structural)]
pub enum ReadOutcome {
    Data(usize),
    Failed,
}

/// What the relay does next.
#[derive(Debug, Clone, Copy, PartialEq, Eq, Structural)]
pub enum RelayAction {
    Forward(usize),
    Stop,
}

/// What waiting on the shell process showed after the relay stopped.
#[derive(Debug, Clone, Copy, PartialEq, Eq, Structural)]
pub enum ChildStatus {
    Exited,
    Running,
    WaitFailed,
}

/// What to do with the shell process.
#[derive(Debug, Clone, Copy, PartialEq, Eq, Structural)]
pub enum ChildAction {
    ReportExit,
    KillAndReap,
    ReportWaitError,
}

/// Terminal geometry the shell starts with.
#[derive(Debug, Clone, Copy, PartialEq, Eq, Structural)]
pub struct PtyGeometry {
    pub rows: u16,
    pub cols: u16,
    pub pixel_width: u16,
    pub pixel_height: u16,
}

/// A fresh relay: no stop requested.
pub fn start_relay() -> (r: RelayState)
    ensures
        !r.shutdown,
{
    RelayState { shutdown: false }
}

/// Signals the relay loops to stop (used on Ctrl+C and when the output loop ends).
pub fn request_shutdown(state: &mut RelayState)
    ensures
        final(state).shutdown,
{
    state.shutdown = true;
}

/// Whether a relay loop reads again.
pub fn keep_relaying(state: &RelayState) -> (r: bool)
    ensures
        r == !state.shutdown,
{
    !state.shutdown
}

/// A read of `n > 0` bytes is forwarded; end of input or a failed read stops the loop.
pub fn after_read(outcome: ReadOutcome) -> (r: RelayAction)
    ensures
        r == (match outcome {
            ReadOutcome::Data(n) => if n > 0 {
                RelayAction::Forward(n)
            } else {
                RelayAction::Stop
            },
            ReadOutcome::Failed => RelayAction::Stop,
        }),
{
    match outcome {
        ReadOutcome::Data(n) => if n > 0 {
            RelayAction::Forward(n)
        } else {
            RelayAction::Stop
        },
        ReadOutcome::Failed => RelayAction::Stop,
    }
}

/// An exited shell is reported, a running one killed and reaped, a failed wait reported.
pub fn settle_child(status: ChildStatus) -> (r: ChildAction)
    ensures
        r == (match status {
            ChildStatus::Exited => ChildAction::ReportExit,
            ChildStatus::Running => ChildAction::KillAndReap,
            ChildStatus::WaitFailed => ChildAction::ReportWaitError,
        }),
{
    match status {
        ChildStatus::Exited => ChildAction::ReportExit,
        ChildStatus::Running => ChildAction::KillAndReap,
        ChildStatus::WaitFailed => ChildAction::ReportWaitError,
    }
}

/// 24 rows by 80 columns.
pub fn initial_geometry() -> (r: PtyGeometry)
    ensures
        r == (PtyGeometry { rows: 24, cols: 80, pixel_width: 0, pixel_height: 0 }),
{
    PtyGeometry { rows: 24, cols: 80, pixel_width: 0, pixel_height: 0 }
}

/// The `TERM` the shell gets: the caller's, else `xterm-256color`.
pub fn term_value(env_term: Option<String>) -> (r: String)
    ensures
        r@ == (match env_term {
            Some(t) => t@,
            None => "xterm-256color"@,
        }),
{
    match env_term {
        Some(t) => t,
        None => String::from_str("xterm-256color"),
    }
}

} // verus!
