use weft_terminal::config_simple::{parse_bool, parse_key, Config, ConfigError, ConfigKey, ConfigValue};
use weft_terminal::WeftApp;

#[test]
fn default_config_has_plugins_section() {
    let c = Config::default_with_shell(None);
    assert!(c.plugins.enabled);
    assert!(c.terminal.use_pty);
}

#[test]
fn defaults_match_the_documented_file() {
    let c = Config::default_with_shell(Some("/bin/zsh".to_string()));
    assert_eq!(c.terminal.shell, "/bin/zsh");
    assert_eq!(c.terminal.font_family, "JetBrains Mono");
    assert_eq!(f32::from_bits(c.terminal.font_size_bits), 14.0f32);
    assert_eq!(c.ai.provider, "ollama");
    assert_eq!(c.ai.model, "llama3.2");
    assert_eq!(c.ai.endpoint, "http://127.0.0.1:11434");
    assert!(c.plugins.run_hooks_on_startup);
    assert!(c.plugins.plugins_dir.is_none());
    assert_eq!(Config::default_with_shell(None).terminal.shell, "/bin/sh");
}

#[test]
fn set_then_get_reads_back() {
    let mut c = Config::default_with_shell(None);
    assert!(c.set_value("ai.model", "mistral", Err("unused".to_string())).is_ok());
    match c.get_value("ai.model") {
        Some(ConfigValue::Text(t)) => assert_eq!(t, "mistral"),
        _ => panic!("expected text"),
    }
    assert!(c.set_value("terminal.use_pty", "false", Err("unused".to_string())).is_ok());
    match c.get_value("terminal.use_pty") {
        Some(ConfigValue::Text(t)) => assert_eq!(t, "false"),
        _ => panic!("expected text"),
    }
    assert!(c.set_value("terminal.font_size", "16", Ok(16.0f32.to_bits())).is_ok());
    match c.get_value("terminal.font_size") {
        Some(ConfigValue::FontSize(b)) => assert_eq!(f32::from_bits(b), 16.0),
        _ => panic!("expected font size"),
    }
    assert!(c.get_value("plugins.plugins_dir").is_none());
    assert!(c.set_value("plugins.plugins_dir", "/x/plugins", Err(String::new())).is_ok());
    assert_eq!(c.resolved_plugins_dir(Some("/data".to_string())), "/x/plugins");
}

#[test]
fn unknown_key_is_refused() {
    let mut c = Config::default_with_shell(None);
    match c.set_value("nope", "1", Err(String::new())) {
        Err(ConfigError::UnknownKey { key }) => assert_eq!(key, "nope"),
        _ => panic!("expected unknown key"),
    }
    assert!(c.get_value("nope").is_none());
    assert_eq!(ConfigError::UnknownKey { key: "nope".to_string() }.message(), "Unknown config key 'nope'");
}

#[test]
fn bad_bool_is_refused_and_nothing_changes() {
    let mut c = Config::default_with_shell(None);
    match c.set_value("ai.enabled", "yes", Err(String::new())) {
        Err(ConfigError::InvalidBool { key, value }) => {
            assert_eq!(key, "ai.enabled");
            assert_eq!(value, "yes");
        }
        _ => panic!("expected invalid bool"),
    }
    assert!(c.ai.enabled);
    assert!(matches!(parse_bool("true", "k"), Ok(true)));
    assert!(matches!(parse_bool("false", "k"), Ok(false)));
    assert!(parse_bool("True", "k").is_err());
}

#[test]
fn bad_font_size_is_refused() {
    let mut c = Config::default_with_shell(None);
    match c.set_value("terminal.font_size", "big", Err("invalid float literal".to_string())) {
        Err(e) => assert_eq!(e.message(), "Invalid terminal.font_size 'big': invalid float literal"),
        Ok(_) => panic!("expected error"),
    }
    assert_eq!(f32::from_bits(c.terminal.font_size_bits), 14.0);
}

#[test]
fn stored_value_stays_even_when_validation_fails() {
    let mut c = Config::default_with_shell(None);
    let r = c.set_value("terminal.font_size", "0", Ok(0.0f32.to_bits()));
    assert!(matches!(r, Err(ConfigError::FontSizeNotPositive)));
    assert_eq!(c.terminal.font_size_bits, 0);
}

#[test]
fn validation_reports_first_broken_rule() {
    let mut c = Config::default_with_shell(None);
    assert!(c.validate().is_ok());
    c.ai.endpoint = " ".to_string();
    assert!(matches!(c.validate(), Err(ConfigError::EndpointEmpty)));
    c.ai.model = "".to_string();
    assert!(matches!(c.validate(), Err(ConfigError::ModelEmpty)));
    c.terminal.shell = "\t".to_string();
    assert!(matches!(c.validate(), Err(ConfigError::ShellEmpty)));
    c.terminal.font_size_bits = (-1.0f32).to_bits();
    assert!(matches!(c.validate(), Err(ConfigError::FontSizeNotPositive)));
    assert_eq!(ConfigError::ShellEmpty.message(), "terminal.shell cannot be empty");
    assert_eq!(ConfigError::ModelEmpty.message(), "ai.model cannot be empty");
    assert_eq!(ConfigError::EndpointEmpty.message(), "ai.endpoint cannot be empty");
    assert_eq!(ConfigError::FontSizeNotPositive.message(), "terminal.font_size must be > 0");
}

#[test]
fn nan_font_size_passes_like_the_float_comparison() {
    let mut c = Config::default_with_shell(None);
    c.terminal.font_size_bits = f32::NAN.to_bits();
    assert!(c.validate().is_ok());
}

#[test]
fn keys_parse_by_their_dotted_names() {
    assert!(parse_key("terminal.shell") == Some(ConfigKey::TerminalShell));
    assert!(parse_key("plugins.run_hooks_on_startup") == Some(ConfigKey::PluginsRunHooksOnStartup));
    assert!(parse_key("terminal").is_none());
}

#[test]
fn app_accepts_only_valid_config() {
    let c = Config::default_with_shell(None);
    let app = WeftApp::new_with_config(c).ok().unwrap();
    assert_eq!(app.config().ai.model, "llama3.2");
    assert!(app.startup_hooks_enabled());
    let mut bad = Config::default_with_shell(None);
    bad.ai.model = String::new();
    assert!(matches!(WeftApp::new_with_config(bad), Err(ConfigError::ModelEmpty)));
}

#[test]
fn test_weft_app_creation() {
    let app = WeftApp::new_with_config(Config::default_with_shell(Some("/bin/sh".to_string())));
    assert!(app.is_ok());
}

#[test]
fn default_plugin_directory_is_under_the_data_directory() {
    let c = Config::default_with_shell(None);
    assert_eq!(c.resolved_plugins_dir(Some("/home/u/.local/share".to_string())), "/home/u/.local/share/weft/plugins");
    assert_eq!(c.resolved_plugins_dir(None), "/tmp/weft/plugins");
    assert_eq!(Config::default_plugins_dir(Some("/d/".to_string())), "/d/weft/plugins");
}
