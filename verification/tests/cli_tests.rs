use weft_terminal::cli::{
    command_or_default, config_action_needs_load, log_level_for, plugin_list_row, suggestion_line, Command,
    ConfigAction, LogLevel,
};
use weft_terminal::suggest::Suggestion;

#[test]
fn config_actions_that_should_not_require_loading_are_recoverable() {
    assert!(!config_action_needs_load(&ConfigAction::Path));
    assert!(!config_action_needs_load(&ConfigAction::Reset));
}

#[test]
fn config_actions_that_require_existing_config_are_marked_correctly() {
    assert!(config_action_needs_load(&ConfigAction::Show));
    assert!(config_action_needs_load(&ConfigAction::Get { key: "ai.model".to_string() }));
}

#[test]
fn setting_and_validating_need_the_stored_config() {
    assert!(config_action_needs_load(&ConfigAction::SetValue {
        key: "ai.model".to_string(),
        value: "x".to_string()
    }));
    assert!(config_action_needs_load(&ConfigAction::Validate));
}

#[test]
fn no_command_means_run() {
    match command_or_default(None) {
        Command::Run { config, debug } => {
            assert!(config.is_none());
            assert!(!debug);
        }
        _ => panic!("expected run"),
    }
}

#[test]
fn debug_flag_selects_debug_logging() {
    let c = Command::Run { config: None, debug: true };
    assert!(log_level_for(&c) == LogLevel::Debug);
    let c = Command::Run { config: None, debug: false };
    assert!(log_level_for(&c) == LogLevel::Warn);
    let c = Command::Doctor { config: None };
    assert!(log_level_for(&c) == LogLevel::Warn);
}

#[test]
fn plugin_row_mentions_state_and_path() {
    let row = plugin_list_row("demo", true, "/p/demo");
    assert_eq!(row, format!("{:<24} {:<8} {}", "demo", "yes", "/p/demo"));
    let row = plugin_list_row("demo", false, "/p/demo");
    assert_eq!(row, format!("{:<24} {:<8} {}", "demo", "no", "/p/demo"));
}

#[test]
fn suggestion_line_shows_percent_source_and_command() {
    let s = Suggestion { command: "git status".to_string(), confidence: 95, source: "static".to_string() };
    assert_eq!(suggestion_line(&s), "95%  [static]  git status");
}
