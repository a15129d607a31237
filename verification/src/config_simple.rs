//! Configuration model for Weft Terminal: defaults, key lookup, key updates and validation.
//!
//! The font size is a binary32 value; it is held here as its IEEE-754 bit pattern, and the
//! library reasons about it through that pattern only.
use vstd::prelude::*;
use crate::plugin_store::{join_path, join_spec};
use crate::text::{is_blank, is_blank_seq, str_eq};

verus! {

#[derive(Debug, Clone)]
pub struct TerminalConfig {
    pub shell: String,
    pub font_family: String,
    /// IEEE-754 binary32 bit pattern of the font size.
    pub font_size_bits: u32,
    pub cursor_blink: bool,
    pub use_pty: bool,
}

#[derive(Debug, Clone)]
pub struct AIConfig {
    pub enabled: bool,
    pub provider: String,
    pub model: String,
    pub auto_suggestions: bool,
    pub endpoint: String,
}

#[derive(Debug, Clone)]
pub struct PluginConfig {
    pub enabled: bool,
    pub plugins_dir: Option<String>,
    pub run_hooks_on_startup: bool,
}

#[derive(Debug, Clone)]
pub struct Config {
    pub terminal: TerminalConfig,
    pub ai: AIConfig,
    pub plugins: PluginConfig,
}

/// The settings of a `Config` as mathematical values.
pub struct ConfigView {
    pub shell: Seq<char>,
    pub font_family: Seq<char>,
    pub font_size_bits: u32,
    pub cursor_blink: bool,
    pub use_pty: bool,
    pub ai_enabled: bool,
    pub provider: Seq<char>,
    pub model: Seq<char>,
    pub auto_suggestions: bool,
    pub endpoint: Seq<char>,
    pub plugins_enabled: bool,
    pub plugins_dir: Option<Seq<char>>,
    pub run_hooks_on_startup: bool,
}

pub open spec fn opt_view(o: Option<String>) -> Option<Seq<char>> {
    match o {
        Some(s) => Some(s@),
        None => None,
    }
}

/// The default plugin directory: `weft/plugins` under the local data directory, or under
/// `/tmp` when there is none.
pub open spec fn default_plugins_dir_spec(data_dir: Option<Seq<char>>) -> Seq<char> {
    join_spec(
        join_spec(
            match data_dir {
                Some(d) => d,
                None => "/tmp"@,
            },
            "weft"@,
        ),
        "plugins"@,
    )
}

impl View for Config {
    type V = ConfigView;

    open spec fn view(&self) -> ConfigView {
        ConfigView {
            shell: self.terminal.shell@,
            font_family: self.terminal.font_family@,
            font_size_bits: self.terminal.font_size_bits,
            cursor_blink: self.terminal.cursor_blink,
            use_pty: self.terminal.use_pty,
            ai_enabled: self.ai.enabled,
            provider: self.ai.provider@,
            model: self.ai.model@,
            auto_suggestions: self.ai.auto_suggestions,
            endpoint: self.ai.endpoint@,
            plugins_enabled: self.plugins.enabled,
            plugins_dir: opt_view(self.plugins.plugins_dir),
            run_hooks_on_startup: self.plugins.run_hooks_on_startup,
        }
    }
}

/// The keys that `config get` and `config set` accept.
#[derive(Debug, Clone, Copy, PartialEq, Eq, Structural)]
pub enum ConfigKey {
    TerminalShell,
    TerminalFontFamily,
    TerminalFontSize,
    TerminalCursorBlink,
    TerminalUsePty,
    AiEnabled,
    AiProvider,
    AiModel,
    AiAutoSuggestions,
    AiEndpoint,
    PluginsEnabled,
    PluginsRunHooksOnStartup,
    PluginsDir,
}

/// A value read from the configuration: text, or the font size's bit pattern
/// (which the caller renders as a binary32 number).
#[derive(Debug, Clone)]
pub enum ConfigValue {
    Text(String),
    FontSize(u32),
}

/// Why a configuration operation was refused.
#[derive(Debug, Clone)]
pub enum ConfigError {
    UnknownKey { key: String },
    InvalidBool { key: String, value: String },
    InvalidFontSize { value: String, reason: String },
    FontSizeNotPositive,
    ShellEmpty,
    ModelEmpty,
    EndpointEmpty,
}

/// The key that a dotted name stands for.
pub open spec fn key_of(name: Seq<char>) -> Option<ConfigKey> {
    if name == "terminal.shell"@ {
        Some(ConfigKey::TerminalShell)
    } else if name == "terminal.font_family"@ {
        Some(ConfigKey::TerminalFontFamily)
    } else if name == "terminal.font_size"@ {
        Some(ConfigKey::TerminalFontSize)
    } else if name == "terminal.cursor_blink"@ {
        Some(ConfigKey::TerminalCursorBlink)
    } else if name == "terminal.use_pty"@ {
        Some(ConfigKey::TerminalUsePty)
    } else if name == "ai.enabled"@ {
        Some(ConfigKey::AiEnabled)
    } else if name == "ai.provider"@ {
        Some(ConfigKey::AiProvider)
    } else if name == "ai.model"@ {
        Some(ConfigKey::AiModel)
    } else if name == "ai.auto_suggestions"@ {
        Some(ConfigKey::AiAutoSuggestions)
    } else if name == "ai.endpoint"@ {
        Some(ConfigKey::AiEndpoint)
    } else if name == "plugins.enabled"@ {
        Some(ConfigKey::PluginsEnabled)
    } else if name == "plugins.run_hooks_on_startup"@ {
        Some(ConfigKey::PluginsRunHooksOnStartup)
    } else if name == "plugins.plugins_dir"@ {
        Some(ConfigKey::PluginsDir)
    } else {
        None
    }
}

/// Keys whose values are booleans.
pub open spec fn is_bool_key(k: ConfigKey) -> bool {
    match k {
        ConfigKey::TerminalCursorBlink | ConfigKey::TerminalUsePty | ConfigKey::AiEnabled
        | ConfigKey::AiAutoSuggestions | ConfigKey::PluginsEnabled
        | ConfigKey::PluginsRunHooksOnStartup => true,
        _ => false,
    }
}

/// `bool::from_str`: exactly `true` or `false`.
pub open spec fn bool_of(s: Seq<char>) -> Option<bool> {
    if s == "true"@ {
        Some(true)
    } else if s == "false"@ {
        Some(false)
    } else {
        None
    }
}

/// `bool::to_string`.
pub open spec fn bool_text(b: bool) -> Seq<char> {
    if b {
        "true"@
    } else {
        "false"@
    }
}

/// What `get_value` reports for a key.
pub open spec fn read_key(c: ConfigView, k: ConfigKey) -> Option<Seq<char>> {
    match k {
        ConfigKey::TerminalShell => Some(c.shell),
        ConfigKey::TerminalFontFamily => Some(c.font_family),
        ConfigKey::TerminalFontSize => None,
        ConfigKey::TerminalCursorBlink => Some(bool_text(c.cursor_blink)),
        ConfigKey::TerminalUsePty => Some(bool_text(c.use_pty)),
        ConfigKey::AiEnabled => Some(bool_text(c.ai_enabled)),
        ConfigKey::AiProvider => Some(c.provider),
        ConfigKey::AiModel => Some(c.model),
        ConfigKey::AiAutoSuggestions => Some(bool_text(c.auto_suggestions)),
        ConfigKey::AiEndpoint => Some(c.endpoint),
        ConfigKey::PluginsEnabled => Some(bool_text(c.plugins_enabled)),
        ConfigKey::PluginsRunHooksOnStartup => Some(bool_text(c.run_hooks_on_startup)),
        ConfigKey::PluginsDir => c.plugins_dir,
    }
}

/// The text of a value, if it is text.
pub open spec fn value_text(v: Option<ConfigValue>) -> Option<Seq<char>> {
    match v {
        Some(ConfigValue::Text(t)) => Some(t@),
        _ => None,
    }
}

/// The configuration after a text setting, a boolean setting, or a font size
/// (only the argument that fits the key is read).
pub open spec fn write_key(
    c: ConfigView,
    k: ConfigKey,
    text: Seq<char>,
    flag: bool,
    bits: u32,
) -> ConfigView {
    match k {
        ConfigKey::TerminalShell => ConfigView { shell: text, ..c },
        ConfigKey::TerminalFontFamily => ConfigView { font_family: text, ..c },
        ConfigKey::TerminalFontSize => ConfigView { font_size_bits: bits, ..c },
        ConfigKey::TerminalCursorBlink => ConfigView { cursor_blink: flag, ..c },
        ConfigKey::TerminalUsePty => ConfigView { use_pty: flag, ..c },
        ConfigKey::AiEnabled => ConfigView { ai_enabled: flag, ..c },
        ConfigKey::AiProvider => ConfigView { provider: text, ..c },
        ConfigKey::AiModel => ConfigView { model: text, ..c },
        ConfigKey::AiAutoSuggestions => ConfigView { auto_suggestions: flag, ..c },
        ConfigKey::AiEndpoint => ConfigView { endpoint: text, ..c },
        ConfigKey::PluginsEnabled => ConfigView { plugins_enabled: flag, ..c },
        ConfigKey::PluginsRunHooksOnStartup => ConfigView { run_hooks_on_startup: flag, ..c },
        ConfigKey::PluginsDir => ConfigView { plugins_dir: Some(text), ..c },
    }
}

/// The binary32 value with bit pattern `b` compares `<= 0.0`: a zero of either sign,
/// a negative number or negative infinity (a NaN compares false).
pub open spec fn f32_bits_le_zero(b: u32) -> bool {
    b == 0 || (0x8000_0000u32 <= b <= 0xff80_0000u32)
}

/// The first rule that a configuration breaks, in the order `validate` checks them.
pub open spec fn first_violation(c: ConfigView) -> Option<ConfigError> {
    if f32_bits_le_zero(c.font_size_bits) {
        Some(ConfigError::FontSizeNotPositive)
    } else if is_blank_seq(c.shell) {
        Some(ConfigError::ShellEmpty)
    } else if is_blank_seq(c.model) {
        Some(ConfigError::ModelEmpty)
    } else if is_blank_seq(c.endpoint) {
        Some(ConfigError::EndpointEmpty)
    } else {
        None
    }
}

/// `validate`'s result.
pub open spec fn validation(c: ConfigView) -> Result<(), ConfigError> {
    match first_violation(c) {
        Some(e) => Err(e),
        None => Ok(()),
    }
}

/// The message that an error displays.
pub open spec fn error_message(e: ConfigError) -> Seq<char> {
    match e {
        ConfigError::UnknownKey { key } => "Unknown config key '"@ + key@ + "'"@,
        ConfigError::InvalidBool { key, value } => "Invalid "@ + key@ + " '"@ + value@
            + "': provided string was not `true` or `false`"@,
        ConfigError::InvalidFontSize { value, reason } => "Invalid terminal.font_size '"@
            + value@ + "': "@ + reason@,
        ConfigError::FontSizeNotPositive => "terminal.font_size must be > 0"@,
        ConfigError::ShellEmpty => "terminal.shell cannot be empty"@,
        ConfigError::ModelEmpty => "ai.model cannot be empty"@,
        ConfigError::EndpointEmpty => "ai.endpoint cannot be empty"@,
    }
}

/// The bit pattern of `14.0f32`.
pub open spec fn default_font_size_bits() -> u32 {
    0x4160_0000u32
}

/// Whether pseudo-terminal mode is on when a configuration leaves it unset.
pub fn default_use_pty() -> (r: bool)
    ensures
        r,
{
    true
}

/// The Ollama endpoint used when a configuration leaves it unset.
pub fn default_ollama_endpoint() -> (r: String)
    ensures
        r@ == "http://127.0.0.1:11434"@,
{
    String::from_str("http://127.0.0.1:11434")
}

impl TerminalConfig {
    /// Terminal defaults; `env_shell` is the `SHELL` environment variable, if set.
    pub fn default_with_shell(env_shell: Option<String>) -> (r: TerminalConfig)
        ensures
            r.shell@ == (match env_shell {
                Some(s) => s@,
                None => "/bin/sh"@,
            }),
            r.font_family@ == "JetBrains Mono"@,
            r.font_size_bits == default_font_size_bits(),
            r.cursor_blink,
            r.use_pty,
    {
        let shell = match env_shell {
            Some(s) => s,
            None => String::from_str("/bin/sh"),
        };
        TerminalConfig {
            shell,
            font_family: String::from_str("JetBrains Mono"),
            font_size_bits: 0x4160_0000u32,
            cursor_blink: true,
            use_pty: default_use_pty(),
        }
    }
}

impl Default for AIConfig {
    fn default() -> (r: AIConfig)
        ensures
            r.enabled,
            r.provider@ == "ollama"@,
            r.model@ == "llama3.2"@,
            r.auto_suggestions,
            r.endpoint@ == "http://127.0.0.1:11434"@,
    {
        AIConfig {
            enabled: true,
            provider: String::from_str("ollama"),
            model: String::from_str("llama3.2"),
            auto_suggestions: true,
            endpoint: default_ollama_endpoint(),
        }
    }
}

impl Default for PluginConfig {
    fn default() -> (r: PluginConfig)
        ensures
            r.enabled,
            r.plugins_dir is None,
            r.run_hooks_on_startup,
    {
        PluginConfig { enabled: true, plugins_dir: None, run_hooks_on_startup: true }
    }
}

/// `bool::from_str` on `value`, reported against `key`.
pub fn parse_bool(value: &str, key: &str) -> (r: Result<bool, ConfigError>)
    ensures
        bool_of(value@) matches Some(b) ==> r == Ok::<bool, ConfigError>(b),
        bool_of(value@) is None ==> (r matches Err(ConfigError::InvalidBool { key: k, value: v })
            && k@ == key@ && v@ == value@),
{
    if str_eq(value, "true") {
        Ok(true)
    } else if str_eq(value, "false") {
        Ok(false)
    } else {
        Err(ConfigError::InvalidBool { key: String::from_str(key), value: String::from_str(value) })
    }
}

/// The key a dotted name stands for.
pub fn parse_key(name: &str) -> (r: Option<ConfigKey>)
    ensures
        r == key_of(name@),
{
    if str_eq(name, "terminal.shell") {
        Some(ConfigKey::TerminalShell)
    } else if str_eq(name, "terminal.font_family") {
        Some(ConfigKey::TerminalFontFamily)
    } else if str_eq(name, "terminal.font_size") {
        Some(ConfigKey::TerminalFontSize)
    } else if str_eq(name, "terminal.cursor_blink") {
        Some(ConfigKey::TerminalCursorBlink)
    } else if str_eq(name, "terminal.use_pty") {
        Some(ConfigKey::TerminalUsePty)
    } else if str_eq(name, "ai.enabled") {
        Some(ConfigKey::AiEnabled)
    } else if str_eq(name, "ai.provider") {
        Some(ConfigKey::AiProvider)
    } else if str_eq(name, "ai.model") {
        Some(ConfigKey::AiModel)
    } else if str_eq(name, "ai.auto_suggestions") {
        Some(ConfigKey::AiAutoSuggestions)
    } else if str_eq(name, "ai.endpoint") {
        Some(ConfigKey::AiEndpoint)
    } else if str_eq(name, "plugins.enabled") {
        Some(ConfigKey::PluginsEnabled)
    } else if str_eq(name, "plugins.run_hooks_on_startup") {
        Some(ConfigKey::PluginsRunHooksOnStartup)
    } else if str_eq(name, "plugins.plugins_dir") {
        Some(ConfigKey::PluginsDir)
    } else {
        None
    }
}

fn bool_string(b: bool) -> (r: String)
    ensures
        r@ == bool_text(b),
{
    if b {
        String::from_str("true")
    } else {
        String::from_str("false")
    }
}

impl ConfigError {
    /// The text the error displays.
    pub fn message(&self) -> (r: String)
        ensures
            r@ == error_message(*self),
    {
        match self {
            ConfigError::UnknownKey { key } => {
                let mut m = String::from_str("Unknown config key '");
                m.append(key.as_str());
                m.append("'");
                m
            },
            ConfigError::InvalidBool { key, value } => {
                let mut m = String::from_str("Invalid ");
                m.append(key.as_str());
                m.append(" '");
                m.append(value.as_str());
                m.append("': provided string was not `true` or `false`");
                m
            },
            ConfigError::InvalidFontSize { value, reason } => {
                let mut m = String::from_str("Invalid terminal.font_size '");
                m.append(value.as_str());
                m.append("': ");
                m.append(reason.as_str());
                m
            },
            ConfigError::FontSizeNotPositive => String::from_str("terminal.font_size must be > 0"),
            ConfigError::ShellEmpty => String::from_str("terminal.shell cannot be empty"),
            ConfigError::ModelEmpty => String::from_str("ai.model cannot be empty"),
            ConfigError::EndpointEmpty => String::from_str("ai.endpoint cannot be empty"),
        }
    }
}

impl Config {
    /// Defaults for every section; `env_shell` is the `SHELL` environment variable, if set.
    pub fn default_with_shell(env_shell: Option<String>) -> (r: Config)
        ensures
            r.terminal.shell@ == (match env_shell {
                Some(s) => s@,
                None => "/bin/sh"@,
            }),
            r.terminal.font_family@ == "JetBrains Mono"@,
            r.terminal.font_size_bits == default_font_size_bits(),
            r.terminal.cursor_blink,
            r.terminal.use_pty,
            r.ai.enabled,
            r.ai.provider@ == "ollama"@,
            r.ai.model@ == "llama3.2"@,
            r.ai.auto_suggestions,
            r.ai.endpoint@ == "http://127.0.0.1:11434"@,
            r.plugins.enabled,
            r.plugins.plugins_dir is None,
            r.plugins.run_hooks_on_startup,
    {
        Config {
            terminal: TerminalConfig::default_with_shell(env_shell),
            ai: AIConfig::default(),
            plugins: PluginConfig::default(),
        }
    }

    /// `weft/plugins` under the local data directory `data_dir`, or under `/tmp` without one.
    pub fn default_plugins_dir(data_dir: Option<String>) -> (r: String)
        ensures
            r@ == default_plugins_dir_spec(opt_view(data_dir)),
    {
        let base = match data_dir {
            Some(d) => d,
            None => String::from_str("/tmp"),
        };
        let weft = join_path(base.as_str(), "weft");
        join_path(weft.as_str(), "plugins")
    }

    /// The plugin directory: the configured one, else the default one under the local data
    /// directory `data_dir`.
    pub fn resolved_plugins_dir(&self, data_dir: Option<String>) -> (r: String)
        ensures
            r@ == (match self.plugins.plugins_dir {
                Some(d) => d@,
                None => default_plugins_dir_spec(opt_view(data_dir)),
            }),
    {
        match &self.plugins.plugins_dir {
            Some(d) => d.clone(),
            None => Config::default_plugins_dir(data_dir),
        }
    }

    /// The value stored under a dotted key; `None` for an unknown key or an unset directory.
    pub fn get_value(&self, key: &str) -> (r: Option<ConfigValue>)
        ensures
            match key_of(key@) {
                None => r is None,
                Some(k) => if k == ConfigKey::TerminalFontSize {
                    r matches Some(ConfigValue::FontSize(b)) && b == self.terminal.font_size_bits
                } else {
                    value_text(r) == read_key(self@, k) && (r is Some ==> r matches Some(
                        ConfigValue::Text(_),
                    ))
                },
            },
    {
        let k = match parse_key(key) {
            Some(k) => k,
            None => return None,
        };
        let text = match k {
            ConfigKey::TerminalShell => self.terminal.shell.clone(),
            ConfigKey::TerminalFontFamily => self.terminal.font_family.clone(),
            ConfigKey::TerminalFontSize => {
                return Some(ConfigValue::FontSize(self.terminal.font_size_bits));
            },
            ConfigKey::TerminalCursorBlink => bool_string(self.terminal.cursor_blink),
            ConfigKey::TerminalUsePty => bool_string(self.terminal.use_pty),
            ConfigKey::AiEnabled => bool_string(self.ai.enabled),
            ConfigKey::AiProvider => self.ai.provider.clone(),
            ConfigKey::AiModel => self.ai.model.clone(),
            ConfigKey::AiAutoSuggestions => bool_string(self.ai.auto_suggestions),
            ConfigKey::AiEndpoint => self.ai.endpoint.clone(),
            ConfigKey::PluginsEnabled => bool_string(self.plugins.enabled),
            ConfigKey::PluginsRunHooksOnStartup => bool_string(self.plugins.run_hooks_on_startup),
            ConfigKey::PluginsDir => match &self.plugins.plugins_dir {
                Some(d) => d.clone(),
                None => return None,
            },
        };
        Some(ConfigValue::Text(text))
    }

    /// Checks the configuration, reporting the first rule it breaks.
    pub fn validate(&self) -> (r: Result<(), ConfigError>)
        ensures
            r == validation(self@),
    {
        let b = self.terminal.font_size_bits;
        if b == 0 || (0x8000_0000u32 <= b && b <= 0xff80_0000u32) {
            return Err(ConfigError::FontSizeNotPositive);
        }
        if is_blank(self.terminal.shell.as_str()) {
            return Err(ConfigError::ShellEmpty);
        }
        if is_blank(self.ai.model.as_str()) {
            return Err(ConfigError::ModelEmpty);
        }
        if is_blank(self.ai.endpoint.as_str()) {
            return Err(ConfigError::EndpointEmpty);
        }
        Ok(())
    }

    /// Sets a dotted key from its text and then validates the result.
    /// `font_size` is the caller's binary32 reading of `value` (its bit pattern, or the
    /// parse error's text); it is read only for `terminal.font_size`.
    /// A refused key or value leaves the configuration as it was; a value that is stored
    /// stays stored even when validation then fails.
    pub fn set_value(&mut self, key: &str, value: &str, font_size: Result<u32, String>) -> (r:
        Result<(), ConfigError>)
        ensures
            key_of(key@) is None ==> final(self)@ == old(self)@ && (r matches Err(
                ConfigError::UnknownKey { key: k },
            ) && k@ == key@),
            key_of(key@) == Some(ConfigKey::TerminalFontSize) ==> match font_size {
                Ok(bits) => final(self)@ == write_key(
                    old(self)@,
                    ConfigKey::TerminalFontSize,
                    value@,
                    false,
                    bits,
                ) && r == validation(final(self)@),
                Err(reason) => final(self)@ == old(self)@ && (r matches Err(
                    ConfigError::InvalidFontSize { value: v, reason: e },
                ) && v@ == value@ && e@ == reason@),
            },
            match key_of(key@) {
                Some(k) => if is_bool_key(k) {
                    match bool_of(value@) {
                        Some(b) => final(self)@ == write_key(old(self)@, k, value@, b, 0) && r
                            == validation(final(self)@),
                        None => final(self)@ == old(self)@ && (r matches Err(
                            ConfigError::InvalidBool { key: kk, value: v },
                        ) && kk@ == key@ && v@ == value@),
                    }
                } else if k != ConfigKey::TerminalFontSize {
                    final(self)@ == write_key(old(self)@, k, value@, false, 0) && r
                        == validation(final(self)@)
                } else {
                    true
                },
                None => true,
            },
    {
        let k = match parse_key(key) {
            Some(k) => k,
            None => {
                return Err(ConfigError::UnknownKey { key: String::from_str(key) });
            },
        };
        match k {
            ConfigKey::TerminalShell => {
                self.terminal.shell = String::from_str(value);
            },
            ConfigKey::TerminalFontFamily => {
                self.terminal.font_family = String::from_str(value);
            },
            ConfigKey::TerminalFontSize => {
                match font_size {
                    Ok(bits) => {
                        self.terminal.font_size_bits = bits;
                    },
                    Err(reason) => {
                        return Err(
                            ConfigError::InvalidFontSize { value: String::from_str(value), reason },
                        );
                    },
                }
            },
            ConfigKey::TerminalCursorBlink => {
                self.terminal.cursor_blink = parse_bool(value, key)?;
            },
            ConfigKey::TerminalUsePty => {
                self.terminal.use_pty = parse_bool(value, key)?;
            },
            ConfigKey::AiEnabled => {
                self.ai.enabled = parse_bool(value, key)?;
            },
            ConfigKey::AiProvider => {
                self.ai.provider = String::from_str(value);
            },
            ConfigKey::AiModel => {
                self.ai.model = String::from_str(value);
            },
            ConfigKey::AiAutoSuggestions => {
                self.ai.auto_suggestions = parse_bool(value, key)?;
            },
            ConfigKey::AiEndpoint => {
                self.ai.endpoint = String::from_str(value);
            },
            ConfigKey::PluginsEnabled => {
                self.plugins.enabled = parse_bool(value, key)?;
            },
            ConfigKey::PluginsRunHooksOnStartup => {
                self.plugins.run_hooks_on_startup = parse_bool(value, key)?;
            },
            ConfigKey::PluginsDir => {
                self.plugins.plugins_dir = Some(String::from_str(value));
            },
        }
        self.validate()
    }
}


/// A value set under a key reads back as given, and every other key reads as before.
pub proof fn lemma_read_after_write(
    c: ConfigView,
    k: ConfigKey,
    text: Seq<char>,
    flag: bool,
    bits: u32,
    other: ConfigKey,
)
    requires
        k != ConfigKey::TerminalFontSize,
        is_bool_key(k) ==> bool_of(text) == Some(flag),
    ensures
        read_key(write_key(c, k, text, flag, bits), k) == Some(text),
        other != k ==> read_key(write_key(c, k, text, flag, bits), other) == read_key(c, other),
{
}

/// A font size set reads back as the same bit pattern.
pub proof fn lemma_font_size_after_write(c: ConfigView, text: Seq<char>, bits: u32)
    ensures
        write_key(c, ConfigKey::TerminalFontSize, text, false, bits).font_size_bits == bits,
{
}

/// The dotted name of each configuration key: its section, a dot, its field.
pub open spec fn key_name(k: ConfigKey) -> Seq<char> {
    match k {
        ConfigKey::TerminalShell => "terminal.shell"@,
        ConfigKey::TerminalFontFamily => "terminal.font_family"@,
        ConfigKey::TerminalFontSize => "terminal.font_size"@,
        ConfigKey::TerminalCursorBlink => "terminal.cursor_blink"@,
        ConfigKey::TerminalUsePty => "terminal.use_pty"@,
        ConfigKey::AiEnabled => "ai.enabled"@,
        ConfigKey::AiProvider => "ai.provider"@,
        ConfigKey::AiModel => "ai.model"@,
        ConfigKey::AiAutoSuggestions => "ai.auto_suggestions"@,
        ConfigKey::AiEndpoint => "ai.endpoint"@,
        ConfigKey::PluginsEnabled => "plugins.enabled"@,
        ConfigKey::PluginsRunHooksOnStartup => "plugins.run_hooks_on_startup"@,
        ConfigKey::PluginsDir => "plugins.plugins_dir"@,
    }
}

/// Each key's dotted name selects that key and no other, and only those names select a
/// key: `get_value` and `set_value` on a name read and write the field it names.
pub proof fn lemma_key_names(k: ConfigKey, name: Seq<char>)
    ensures
        key_of(key_name(k)) == Some(k),
        key_of(name) == Some(k) <==> name == key_name(k),
{
    match k {
        ConfigKey::TerminalShell => {
            reveal_strlit("terminal.shell");
        },
        ConfigKey::TerminalFontFamily => {
            reveal_strlit("terminal.font_family");
            reveal_strlit("terminal.shell");
            assert("terminal.font_family"@.len() != "terminal.shell"@.len());
        },
        ConfigKey::TerminalFontSize => {
            reveal_strlit("terminal.font_size");
            reveal_strlit("terminal.shell");
            assert("terminal.font_size"@.len() != "terminal.shell"@.len());
            reveal_strlit("terminal.font_family");
            assert("terminal.font_size"@.len() != "terminal.font_family"@.len());
        },
        ConfigKey::TerminalCursorBlink => {
            reveal_strlit("terminal.cursor_blink");
            reveal_strlit("terminal.shell");
            assert("terminal.cursor_blink"@.len() != "terminal.shell"@.len());
            reveal_strlit("terminal.font_family");
            assert("terminal.cursor_blink"@.len() != "terminal.font_family"@.len());
            reveal_strlit("terminal.font_size");
            assert("terminal.cursor_blink"@.len() != "terminal.font_size"@.len());
        },
        ConfigKey::TerminalUsePty => {
            reveal_strlit("terminal.use_pty");
            reveal_strlit("terminal.shell");
            assert("terminal.use_pty"@.len() != "terminal.shell"@.len());
            reveal_strlit("terminal.font_family");
            assert("terminal.use_pty"@.len() != "terminal.font_family"@.len());
            reveal_strlit("terminal.font_size");
            assert("terminal.use_pty"@.len() != "terminal.font_size"@.len());
            reveal_strlit("terminal.cursor_blink");
            assert("terminal.use_pty"@.len() != "terminal.cursor_blink"@.len());
        },
        ConfigKey::AiEnabled => {
            reveal_strlit("ai.enabled");
            reveal_strlit("terminal.shell");
            assert("ai.enabled"@.len() != "terminal.shell"@.len());
            reveal_strlit("terminal.font_family");
            assert("ai.enabled"@.len() != "terminal.font_family"@.len());
            reveal_strlit("terminal.font_size");
            assert("ai.enabled"@.len() != "terminal.font_size"@.len());
            reveal_strlit("terminal.cursor_blink");
            assert("ai.enabled"@.len() != "terminal.cursor_blink"@.len());
            reveal_strlit("terminal.use_pty");
            assert("ai.enabled"@.len() != "terminal.use_pty"@.len());
        },
        ConfigKey::AiProvider => {
            reveal_strlit("ai.provider");
            reveal_strlit("terminal.shell");
            assert("ai.provider"@.len() != "terminal.shell"@.len());
            reveal_strlit("terminal.font_family");
            assert("ai.provider"@.len() != "terminal.font_family"@.len());
            reveal_strlit("terminal.font_size");
            assert("ai.provider"@.len() != "terminal.font_size"@.len());
            reveal_strlit("terminal.cursor_blink");
            assert("ai.provider"@.len() != "terminal.cursor_blink"@.len());
            reveal_strlit("terminal.use_pty");
            assert("ai.provider"@.len() != "terminal.use_pty"@.len());
            reveal_strlit("ai.enabled");
            assert("ai.provider"@.len() != "ai.enabled"@.len());
        },
        ConfigKey::AiModel => {
            reveal_strlit("ai.model");
            reveal_strlit("terminal.shell");
            assert("ai.model"@.len() != "terminal.shell"@.len());
            reveal_strlit("terminal.font_family");
            assert("ai.model"@.len() != "terminal.font_family"@.len());
            reveal_strlit("terminal.font_size");
            assert("ai.model"@.len() != "terminal.font_size"@.len());
            reveal_strlit("terminal.cursor_blink");
            assert("ai.model"@.len() != "terminal.cursor_blink"@.len());
            reveal_strlit("terminal.use_pty");
            assert("ai.model"@.len() != "terminal.use_pty"@.len());
            reveal_strlit("ai.enabled");
            assert("ai.model"@.len() != "ai.enabled"@.len());
            reveal_strlit("ai.provider");
            assert("ai.model"@.len() != "ai.provider"@.len());
        },
        ConfigKey::AiAutoSuggestions => {
            reveal_strlit("ai.auto_suggestions");
            reveal_strlit("terminal.shell");
            assert("ai.auto_suggestions"@.len() != "terminal.shell"@.len());
            reveal_strlit("terminal.font_family");
            assert("ai.auto_suggestions"@.len() != "terminal.font_family"@.len());
            reveal_strlit("terminal.font_size");
            assert("ai.auto_suggestions"@.len() != "terminal.font_size"@.len());
            reveal_strlit("terminal.cursor_blink");
            assert("ai.auto_suggestions"@.len() != "terminal.cursor_blink"@.len());
            reveal_strlit("terminal.use_pty");
            assert("ai.auto_suggestions"@.len() != "terminal.use_pty"@.len());
            reveal_strlit("ai.enabled");
            assert("ai.auto_suggestions"@.len() != "ai.enabled"@.len());
            reveal_strlit("ai.provider");
            assert("ai.auto_suggestions"@.len() != "ai.provider"@.len());
            reveal_strlit("ai.model");
            assert("ai.auto_suggestions"@.len() != "ai.model"@.len());
        },
        ConfigKey::AiEndpoint => {
            reveal_strlit("ai.endpoint");
            reveal_strlit("terminal.shell");
            assert("ai.endpoint"@.len() != "terminal.shell"@.len());
            reveal_strlit("terminal.font_family");
            assert("ai.endpoint"@.len() != "terminal.font_family"@.len());
            reveal_strlit("terminal.font_size");
            assert("ai.endpoint"@.len() != "terminal.font_size"@.len());
            reveal_strlit("terminal.cursor_blink");
            assert("ai.endpoint"@.len() != "terminal.cursor_blink"@.len());
            reveal_strlit("terminal.use_pty");
            assert("ai.endpoint"@.len() != "terminal.use_pty"@.len());
            reveal_strlit("ai.enabled");
            assert("ai.endpoint"@.len() != "ai.enabled"@.len());
            reveal_strlit("ai.provider");
            assert("ai.endpoint"@[3] != "ai.provider"@[3]);
            reveal_strlit("ai.model");
            assert("ai.endpoint"@.len() != "ai.model"@.len());
            reveal_strlit("ai.auto_suggestions");
            assert("ai.endpoint"@.len() != "ai.auto_suggestions"@.len());
        },
        ConfigKey::PluginsEnabled => {
            reveal_strlit("plugins.enabled");
            reveal_strlit("terminal.shell");
            assert("plugins.enabled"@.len() != "terminal.shell"@.len());
            reveal_strlit("terminal.font_family");
            assert("plugins.enabled"@.len() != "terminal.font_family"@.len());
            reveal_strlit("terminal.font_size");
            assert("plugins.enabled"@.len() != "terminal.font_size"@.len());
            reveal_strlit("terminal.cursor_blink");
            assert("plugins.enabled"@.len() != "terminal.cursor_blink"@.len());
            reveal_strlit("terminal.use_pty");
            assert("plugins.enabled"@.len() != "terminal.use_pty"@.len());
            reveal_strlit("ai.enabled");
            assert("plugins.enabled"@.len() != "ai.enabled"@.len());
            reveal_strlit("ai.provider");
            assert("plugins.enabled"@.len() != "ai.provider"@.len());
            reveal_strlit("ai.model");
            assert("plugins.enabled"@.len() != "ai.model"@.len());
            reveal_strlit("ai.auto_suggestions");
            assert("plugins.enabled"@.len() != "ai.auto_suggestions"@.len());
            reveal_strlit("ai.endpoint");
            assert("plugins.enabled"@.len() != "ai.endpoint"@.len());
        },
        ConfigKey::PluginsRunHooksOnStartup => {
            reveal_strlit("plugins.run_hooks_on_startup");
            reveal_strlit("terminal.shell");
            assert("plugins.run_hooks_on_startup"@.len() != "terminal.shell"@.len());
            reveal_strlit("terminal.font_family");
            assert("plugins.run_hooks_on_startup"@.len() != "terminal.font_family"@.len());
            reveal_strlit("terminal.font_size");
            assert("plugins.run_hooks_on_startup"@.len() != "terminal.font_size"@.len());
            reveal_strlit("terminal.cursor_blink");
            assert("plugins.run_hooks_on_startup"@.len() != "terminal.cursor_blink"@.len());
            reveal_strlit("terminal.use_pty");
            assert("plugins.run_hooks_on_startup"@.len() != "terminal.use_pty"@.len());
            reveal_strlit("ai.enabled");
            assert("plugins.run_hooks_on_startup"@.len() != "ai.enabled"@.len());
            reveal_strlit("ai.provider");
            assert("plugins.run_hooks_on_startup"@.len() != "ai.provider"@.len());
            reveal_strlit("ai.model");
            assert("plugins.run_hooks_on_startup"@.len() != "ai.model"@.len());
            reveal_strlit("ai.auto_suggestions");
            assert("plugins.run_hooks_on_startup"@.len() != "ai.auto_suggestions"@.len());
            reveal_strlit("ai.endpoint");
            assert("plugins.run_hooks_on_startup"@.len() != "ai.endpoint"@.len());
            reveal_strlit("plugins.enabled");
            assert("plugins.run_hooks_on_startup"@.len() != "plugins.enabled"@.len());
        },
        ConfigKey::PluginsDir => {
            reveal_strlit("plugins.plugins_dir");
            reveal_strlit("terminal.shell");
            assert("plugins.plugins_dir"@.len() != "terminal.shell"@.len());
            reveal_strlit("terminal.font_family");
            assert("plugins.plugins_dir"@.len() != "terminal.font_family"@.len());
            reveal_strlit("terminal.font_size");
            assert("plugins.plugins_dir"@.len() != "terminal.font_size"@.len());
            reveal_strlit("terminal.cursor_blink");
            assert("plugins.plugins_dir"@.len() != "terminal.cursor_blink"@.len());
            reveal_strlit("terminal.use_pty");
            assert("plugins.plugins_dir"@.len() != "terminal.use_pty"@.len());
            reveal_strlit("ai.enabled");
            assert("plugins.plugins_dir"@.len() != "ai.enabled"@.len());
            reveal_strlit("ai.provider");
            assert("plugins.plugins_dir"@.len() != "ai.provider"@.len());
            reveal_strlit("ai.model");
            assert("plugins.plugins_dir"@.len() != "ai.model"@.len());
            reveal_strlit("ai.auto_suggestions");
            assert("plugins.plugins_dir"@[0] != "ai.auto_suggestions"@[0]);
            reveal_strlit("ai.endpoint");
            assert("plugins.plugins_dir"@.len() != "ai.endpoint"@.len());
            reveal_strlit("plugins.enabled");
            assert("plugins.plugins_dir"@.len() != "plugins.enabled"@.len());
            reveal_strlit("plugins.run_hooks_on_startup");
            assert("plugins.plugins_dir"@.len() != "plugins.run_hooks_on_startup"@.len());
        },
    }
}

} // verus!
