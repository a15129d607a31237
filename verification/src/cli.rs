//! Command-line surface: the commands and actions, and the decisions and lines that do not
//! depend on I/O.
use vstd::prelude::*;
use crate::suggest::Suggestion;
use crate::text::{decimal, decimal_seq, pad_right, pad_right_seq};

verus! {

#[derive(Debug, Clone)]
pub enum ConfigAction {
    Show,
    Reset,
    SetValue { key: String, value: String },
    Get { key: String },
    Validate,
    Path,
}

#[derive(Debug, Clone)]
pub enum PluginAction {
    List,
    Install { path: String },
    Remove { name: String },
    Enable { name: String },
    Disable { name: String },
}

#[derive(Debug, Clone)]
pub enum Command {
    Run { config: Option<String>, debug: bool },
    Config { action: ConfigAction },
    Plugin { action: PluginAction },
    Suggest { query: String, config: Option<String> },
    Doctor { config: Option<String> },
}

/// How verbose logging is.
#[derive(Debug, Clone, Copy, PartialEq, Eq, Structural)]
pub enum LogLevel {
    Debug,
    Warn,
}

/// Actions that read the stored configuration before acting.
pub open spec fn needs_load(action: ConfigAction) -> bool {
    match action {
        ConfigAction::Show | ConfigAction::SetValue { .. } | ConfigAction::Get { .. }
        | ConfigAction::Validate => true,
        ConfigAction::Reset | ConfigAction::Path => false,
    }
}

/// Whether a `config` action needs the stored configuration loaded first.
pub fn config_action_needs_load(action: &ConfigAction) -> (r: bool)
    ensures
        r == needs_load(*action),
{
    match action {
        ConfigAction::Show | ConfigAction::SetValue { .. } | ConfigAction::Get { .. }
        | ConfigAction::Validate => true,
        ConfigAction::Reset | ConfigAction::Path => false,
    }
}

/// The command to run: the one given, else an interactive session without debugging.
pub fn command_or_default(command: Option<Command>) -> (r: Command)
    ensures
        match command {
            Some(c) => r == c,
            None => r matches Command::Run { config: None, debug: false },
        },
{
    match command {
        Some(c) => c,
        None => Command::Run { config: None, debug: false },
    }
}

/// Debug logging for `run --debug`, warnings otherwise.
pub fn log_level_for(command: &Command) -> (r: LogLevel)
    ensures
        r == (if command matches Command::Run { debug: true, .. } {
            LogLevel::Debug
        } else {
            LogLevel::Warn
        }),
{
    match command {
        Command::Run { debug, .. } => if *debug {
            LogLevel::Debug
        } else {
            LogLevel::Warn
        },
        _ => LogLevel::Warn,
    }
}

/// The heading of the plugin listing.
pub fn plugin_list_header() -> (r: String)
    ensures
        r@ == pad_right_seq("ID"@, 24) + " "@ + pad_right_seq("ENABLED"@, 8) + " PATH"@,
{
    let mut r = pad_right("ID", 24);
    r.append(" ");
    let e = pad_right("ENABLED", 8);
    r.append(e.as_str());
    r.append(" PATH");
    r
}

/// One row of the plugin listing.
pub fn plugin_list_row(id: &str, enabled: bool, path: &str) -> (r: String)
    ensures
        r@ == pad_right_seq(id@, 24) + " "@ + pad_right_seq(
            if enabled {
                "yes"@
            } else {
                "no"@
            },
            8,
        ) + " "@ + path@,
{
    let mut r = pad_right(id, 24);
    r.append(" ");
    let e = if enabled {
        pad_right("yes", 8)
    } else {
        pad_right("no", 8)
    };
    r.append(e.as_str());
    r.append(" ");
    r.append(path);
    r
}

/// `95%  [static]  git status`.
pub fn suggestion_line(s: &Suggestion) -> (r: String)
    ensures
        r@ == decimal_seq(s.confidence as nat) + "%  ["@ + s.source@ + "]  "@ + s.command@,
{
    let mut r = decimal(s.confidence as u64);
    r.append("%  [");
    r.append(s.source.as_str());
    r.append("]  ");
    r.append(s.command.as_str());
    r
}

} // verus!
