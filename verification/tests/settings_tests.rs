use weft_terminal::config::{BellStyle, Config, CursorStyle, CustomPrompt, SecurityPolicy, SettingsError};

#[test]
fn full_defaults_validate() {
    let c = Config::default_with(None, Some("/home/u".to_string()));
    assert!(c.validate().is_ok());
    assert_eq!(c.terminal.shell, "/bin/sh");
    assert!(c.terminal.cursor_style == CursorStyle::Block);
    assert!(c.terminal.bell_style == BellStyle::Visual);
    assert_eq!(f32::from_bits(c.terminal.line_height), 1.2f32);
    assert_eq!(f32::from_bits(c.ai.prediction_threshold), 0.7f32);
    assert_eq!(c.ai.model, "llama2");
    assert_eq!(c.rendering.max_fps, 60);
    assert_eq!(c.plugins.plugin_directories, vec!["/home/u/.weft/plugins".to_string()]);
    assert!(c.plugins.security_policy == SecurityPolicy::Prompt);
    assert!(c.collaboration.encryption_enabled);
    assert!(!c.debugging.enabled);
    let root = Config::default_with(None, None);
    assert_eq!(root.plugins.plugin_directories, vec!["/.weft/plugins".to_string()]);
}

#[test]
fn validation_rules_in_order() {
    let mut c = Config::default_with(None, None);
    c.rendering.transparency = 1.5f32.to_bits();
    assert!(c.validate() == Err(SettingsError::TransparencyOutOfRange));
    c.rendering.max_fps = 0;
    assert!(c.validate() == Err(SettingsError::MaxFpsZero));
    c.ai.prediction_threshold = (-0.1f32).to_bits();
    assert!(c.validate() == Err(SettingsError::ThresholdOutOfRange));
    c.ai.context_window = 0;
    assert!(c.validate() == Err(SettingsError::ContextWindowZero));
    c.terminal.line_height = 0;
    assert!(c.validate() == Err(SettingsError::LineHeightNotPositive));
    c.terminal.font_size = (-2.0f32).to_bits();
    assert!(c.validate() == Err(SettingsError::FontSizeNotPositive));
    assert_eq!(SettingsError::FontSizeNotPositive.message(), "Font size must be positive");
    let mut d = Config::default_with(None, None);
    d.ai.enabled = false;
    d.ai.context_window = 0;
    d.ai.prediction_threshold = 1.0f32.to_bits();
    d.rendering.transparency = (-0.0f32).to_bits();
    assert!(d.validate().is_ok());
}

#[test]
fn paths_under_the_weft_directory() {
    assert_eq!(Config::config_file_path(Some("/home/u/.config".to_string())), "/home/u/.config/weft/config.toml");
    assert_eq!(Config::config_file_path(None), "/tmp/weft/config.toml");
    assert_eq!(Config::weft_dir(Some("/data".to_string())), "/data/weft");
    let c = Config::default_with(None, Some("/h".to_string()));
    assert_eq!(c.get_theme_path("/data/weft"), "/data/weft/themes/dark.toml");
    assert_eq!(c.plugin_path_candidates("x"), vec!["/h/.weft/plugins/x.weft".to_string()]);
}

#[test]
fn prompts_and_trusted_plugins() {
    let mut c = Config::default_with(None, None);
    c.add_custom_prompt(CustomPrompt { name: "a".to_string(), template: "t".to_string(), triggers: Vec::new() });
    c.add_custom_prompt(CustomPrompt { name: "b".to_string(), template: "t".to_string(), triggers: Vec::new() });
    assert!(c.remove_custom_prompt("a"));
    assert!(!c.remove_custom_prompt("a"));
    assert_eq!(c.ai.custom_prompts.len(), 1);
    assert!(c.add_trusted_plugin("p".to_string()));
    assert!(!c.add_trusted_plugin("p".to_string()));
    assert_eq!(c.plugins.trusted_plugins, vec!["p".to_string()]);
    assert!(c.remove_trusted_plugin("p"));
    assert!(!c.remove_trusted_plugin("p"));
    assert!(c.plugins.trusted_plugins.is_empty());
}
