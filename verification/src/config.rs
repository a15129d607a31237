//! The full settings of the terminal: appearance, assistant, rendering, plugins,
//! collaboration and debugging, their defaults, their validation and the lists kept in
//! them. Floating-point settings are held as their IEEE-754 single-precision bits.
use vstd::prelude::*;
use crate::plugin_store::{join_path, join_spec};
use crate::text::str_eq;

verus! {

#[derive(Debug, Clone, Copy, PartialEq, Eq, Structural)]
pub enum CursorStyle {
    Block,
    Underline,
    Beam,
}

#[derive(Debug, Clone, Copy, PartialEq, Eq, Structural)]
pub enum BellStyle {
    /// No bell at all.
    Off,
    Visual,
    Audible,
    Both,
}

#[derive(Debug, Clone, Copy, PartialEq, Eq, Structural)]
pub enum RightClickAction {
    Paste,
    ContextMenu,
    ExtendSelection,
}

#[derive(Debug, Clone, Copy, PartialEq, Eq, Structural)]
pub enum AIProvider {
    Ollama,
    OpenAI,
    Anthropic,
    Custom,
}

#[derive(Debug, Clone, Copy, PartialEq, Eq, Structural)]
pub enum RendererType {
    Wgpu,
    OpenGL,
    Software,
}

/// How much plugins are trusted.
#[derive(Debug, Clone, Copy, PartialEq, Eq, Structural)]
pub enum SecurityPolicy {
    AllowAll,
    AllowTrusted,
    Prompt,
    DenyAll,
}

#[derive(Debug, Clone, Copy, PartialEq, Eq, Structural)]
pub enum LogLevel {
    Error,
    Warn,
    Info,
    Debug,
    Trace,
}

/// A prompt the assistant offers when one of its triggers is typed.
#[derive(Debug)]
pub struct CustomPrompt {
    pub name: String,
    pub template: String,
    pub triggers: Vec<String>,
}

#[derive(Debug)]
pub struct TerminalConfig {
    pub shell: String,
    pub font_family: String,
    /// `f32` bits.
    pub font_size: u32,
    /// `f32` bits.
    pub line_height: u32,
    pub cursor_blink: bool,
    pub cursor_style: CursorStyle,
    pub scrollback_size: usize,
    pub bell_style: BellStyle,
    pub copy_on_select: bool,
    pub right_click_action: RightClickAction,
}

#[derive(Debug)]
pub struct AIConfig {
    pub enabled: bool,
    pub provider: AIProvider,
    pub model: String,
    pub api_key: Option<String>,
    pub endpoint: Option<String>,
    pub context_window: usize,
    /// `f32` bits.
    pub prediction_threshold: u32,
    pub auto_suggestions: bool,
    pub learning_enabled: bool,
    pub custom_prompts: Vec<CustomPrompt>,
}

#[derive(Debug)]
pub struct RenderingConfig {
    pub renderer: RendererType,
    pub vsync: bool,
    pub max_fps: u32,
    pub theme: String,
    /// `f32` bits.
    pub transparency: u32,
    pub blur_background: bool,
    pub gpu_acceleration: bool,
    pub custom_shaders: bool,
}

#[derive(Debug)]
pub struct PluginConfig {
    pub enabled: bool,
    pub auto_load: bool,
    pub plugin_directories: Vec<String>,
    pub security_policy: SecurityPolicy,
    pub trusted_plugins: Vec<String>,
}

#[derive(Debug)]
pub struct CollaborationConfig {
    pub enabled: bool,
    pub server_url: Option<String>,
    pub auto_sync: bool,
    pub session_sharing: bool,
    pub real_time_collaboration: bool,
    pub encryption_enabled: bool,
}

#[derive(Debug, Clone, Copy, PartialEq, Eq, Structural)]
pub struct DebuggingConfig {
    pub enabled: bool,
    pub log_level: LogLevel,
    pub performance_monitoring: bool,
    pub memory_profiling: bool,
    pub network_inspection: bool,
    pub command_tracing: bool,
}

#[derive(Debug)]
pub struct Config {
    pub terminal: TerminalConfig,
    pub ai: AIConfig,
    pub rendering: RenderingConfig,
    pub plugins: PluginConfig,
    pub collaboration: CollaborationConfig,
    pub debugging: DebuggingConfig,
}

/// Why settings are refused.
#[derive(Debug, Clone, Copy, PartialEq, Eq, Structural)]
pub enum SettingsError {
    FontSizeNotPositive,
    LineHeightNotPositive,
    ContextWindowZero,
    ThresholdOutOfRange,
    MaxFpsZero,
    TransparencyOutOfRange,
}

/// The `f32` with bits `b` is at most zero (false for NaN).
pub open spec fn f32_le_zero(b: u32) -> bool {
    b == 0 || (0x8000_0000u32 <= b <= 0xff80_0000u32)
}

/// The `f32` with bits `b` is below zero (false for NaN and for negative zero).
pub open spec fn f32_lt_zero(b: u32) -> bool {
    0x8000_0001u32 <= b <= 0xff80_0000u32
}

/// The `f32` with bits `b` is above one (false for NaN).
pub open spec fn f32_gt_one(b: u32) -> bool {
    0x3f80_0001u32 <= b <= 0x7f80_0000u32
}

/// The first rule the settings break, in the order they are checked.
pub open spec fn settings_check(c: Config) -> Result<(), SettingsError> {
    if f32_le_zero(c.terminal.font_size) {
        Err(SettingsError::FontSizeNotPositive)
    } else if f32_le_zero(c.terminal.line_height) {
        Err(SettingsError::LineHeightNotPositive)
    } else if c.ai.enabled && c.ai.context_window == 0 {
        Err(SettingsError::ContextWindowZero)
    } else if f32_lt_zero(c.ai.prediction_threshold) || f32_gt_one(c.ai.prediction_threshold) {
        Err(SettingsError::ThresholdOutOfRange)
    } else if c.rendering.max_fps == 0 {
        Err(SettingsError::MaxFpsZero)
    } else if f32_lt_zero(c.rendering.transparency) || f32_gt_one(c.rendering.transparency) {
        Err(SettingsError::TransparencyOutOfRange)
    } else {
        Ok(())
    }
}

/// The terminal defaults, the shell taken from `SHELL` when it is set.
pub open spec fn terminal_defaults(t: TerminalConfig, env_shell: Option<Seq<char>>) -> bool {
    &&& t.shell@ == match env_shell {
        Some(s) => s,
        None => "/bin/sh"@,
    }
    &&& t.font_family@ == "JetBrains Mono"@
    &&& t.font_size == 0x4160_0000u32
    &&& t.line_height == 0x3f99_999au32
    &&& t.cursor_blink
    &&& t.cursor_style == CursorStyle::Block
    &&& t.scrollback_size == 10000
    &&& t.bell_style == BellStyle::Visual
    &&& !t.copy_on_select
    &&& t.right_click_action == RightClickAction::ContextMenu
}

/// The assistant defaults: llama2 on a local Ollama.
pub open spec fn ai_defaults(a: AIConfig) -> bool {
    &&& a.enabled && a.provider == AIProvider::Ollama
    &&& a.model@ == "llama2"@
    &&& a.api_key is None
    &&& (a.endpoint matches Some(e) && e@ == "http://localhost:11434"@)
    &&& a.context_window == 4096
    &&& a.prediction_threshold == 0x3f33_3333u32
    &&& a.auto_suggestions && a.learning_enabled
    &&& a.custom_prompts@.len() == 0
}

/// The rendering defaults: wgpu at sixty frames, dark, opaque.
pub open spec fn rendering_defaults(r: RenderingConfig) -> bool {
    &&& r.renderer == RendererType::Wgpu
    &&& r.vsync && r.max_fps == 60
    &&& r.theme@ == "dark"@
    &&& r.transparency == 0x3f80_0000u32
    &&& !r.blur_background && r.gpu_acceleration && !r.custom_shaders
}

/// The plugin defaults: `<home or />/.weft/plugins`, prompting, nothing trusted.
pub open spec fn plugin_defaults(p: PluginConfig, home: Option<Seq<char>>) -> bool {
    &&& p.enabled && p.auto_load
    &&& strs(p.plugin_directories@) == seq![
        join_spec(
            join_spec(
                match home {
                    Some(h) => h,
                    None => "/"@,
                },
                ".weft"@,
            ),
            "plugins"@,
        ),
    ]
    &&& p.security_policy == SecurityPolicy::Prompt
    &&& p.trusted_plugins@.len() == 0
}

/// Collaboration is off, and encrypted when turned on.
pub open spec fn collaboration_defaults(c: CollaborationConfig) -> bool {
    &&& !c.enabled && c.server_url is None
    &&& !c.auto_sync && !c.session_sharing && !c.real_time_collaboration
    &&& c.encryption_enabled
}

/// Debugging is off, logging at `Info`.
pub open spec fn debugging_defaults() -> DebuggingConfig {
    DebuggingConfig {
        enabled: false,
        log_level: LogLevel::Info,
        performance_monitoring: false,
        memory_profiling: false,
        network_inspection: false,
        command_tracing: false,
    }
}

pub open spec fn strs(v: Seq<String>) -> Seq<Seq<char>> {
    v.map_values(|s: String| s@)
}

/// The prompts not named `name`, in order.
pub open spec fn prompts_without(v: Seq<CustomPrompt>, name: Seq<char>) -> Seq<CustomPrompt>
    decreases v.len(),
{
    if v.len() == 0 {
        v
    } else if v.last().name@ == name {
        prompts_without(v.drop_last(), name)
    } else {
        prompts_without(v.drop_last(), name).push(v.last())
    }
}

/// The names other than `name`, in order.
pub open spec fn names_without(v: Seq<Seq<char>>, name: Seq<char>) -> Seq<Seq<char>>
    decreases v.len(),
{
    if v.len() == 0 {
        v
    } else if v.last() == name {
        names_without(v.drop_last(), name)
    } else {
        names_without(v.drop_last(), name).push(v.last())
    }
}

pub open spec fn has_name(v: Seq<Seq<char>>, name: Seq<char>) -> bool {
    exists|i: int| 0 <= i < v.len() && v[i] == name
}

/// `<base or /tmp>/weft`.
pub open spec fn weft_dir(base: Option<Seq<char>>) -> Seq<char> {
    join_spec(
        match base {
            Some(b) => b,
            None => "/tmp"@,
        },
        "weft"@,
    )
}

impl SettingsError {
    pub fn message(&self) -> (r: &'static str)
        ensures
            r@ == match *self {
                SettingsError::FontSizeNotPositive => "Font size must be positive"@,
                SettingsError::LineHeightNotPositive => "Line height must be positive"@,
                SettingsError::ContextWindowZero => "Context window must be positive when AI is enabled"@,
                SettingsError::ThresholdOutOfRange => "Prediction threshold must be between 0.0 and 1.0"@,
                SettingsError::MaxFpsZero => "Max FPS must be positive"@,
                SettingsError::TransparencyOutOfRange => "Transparency must be between 0.0 and 1.0"@,
            },
    {
        match self {
            SettingsError::FontSizeNotPositive => "Font size must be positive",
            SettingsError::LineHeightNotPositive => "Line height must be positive",
            SettingsError::ContextWindowZero => "Context window must be positive when AI is enabled",
            SettingsError::ThresholdOutOfRange => "Prediction threshold must be between 0.0 and 1.0",
            SettingsError::MaxFpsZero => "Max FPS must be positive",
            SettingsError::TransparencyOutOfRange => "Transparency must be between 0.0 and 1.0",
        }
    }
}

impl TerminalConfig {
    /// The defaults, with the shell taken from `SHELL` when it is set and `/bin/sh` else.
    pub fn default_with_shell(env_shell: Option<String>) -> (r: TerminalConfig)
        ensures
            terminal_defaults(r, opt_view(env_shell)),
    {
        TerminalConfig {
            shell: match env_shell {
                Some(s) => s,
                None => String::from_str("/bin/sh"),
            },
            font_family: String::from_str("JetBrains Mono"),
            font_size: 0x4160_0000,
            line_height: 0x3f99_999a,
            cursor_blink: true,
            cursor_style: CursorStyle::Block,
            scrollback_size: 10000,
            bell_style: BellStyle::Visual,
            copy_on_select: false,
            right_click_action: RightClickAction::ContextMenu,
        }
    }
}

impl Default for AIConfig {
    fn default() -> (r: AIConfig)
        ensures
            ai_defaults(r),
    {
        AIConfig {
            enabled: true,
            provider: AIProvider::Ollama,
            model: String::from_str("llama2"),
            api_key: None,
            endpoint: Some(String::from_str("http://localhost:11434")),
            context_window: 4096,
            prediction_threshold: 0x3f33_3333,
            auto_suggestions: true,
            learning_enabled: true,
            custom_prompts: Vec::new(),
        }
    }
}

impl Default for RenderingConfig {
    fn default() -> (r: RenderingConfig)
        ensures
            rendering_defaults(r),
    {
        RenderingConfig {
            renderer: RendererType::Wgpu,
            vsync: true,
            max_fps: 60,
            theme: String::from_str("dark"),
            transparency: 0x3f80_0000,
            blur_background: false,
            gpu_acceleration: true,
            custom_shaders: false,
        }
    }
}

impl PluginConfig {
    /// The defaults: one plugin directory, `<home or />/.weft/plugins`, prompting for
    /// permissions, nothing trusted.
    pub fn default_with_home(home: Option<String>) -> (r: PluginConfig)
        ensures
            plugin_defaults(r, opt_view(home)),
    {
        let base = match home {
            Some(h) => h,
            None => String::from_str("/"),
        };
        let dot = join_path(base.as_str(), ".weft");
        let dir = join_path(dot.as_str(), "plugins");
        let mut dirs: Vec<String> = Vec::new();
        dirs.push(dir);
        assert(strs(dirs@) =~= seq![dir@]);
        PluginConfig {
            enabled: true,
            auto_load: true,
            plugin_directories: dirs,
            security_policy: SecurityPolicy::Prompt,
            trusted_plugins: Vec::new(),
        }
    }
}

impl Default for CollaborationConfig {
    fn default() -> (r: CollaborationConfig)
        ensures
            collaboration_defaults(r),
    {
        CollaborationConfig {
            enabled: false,
            server_url: None,
            auto_sync: false,
            session_sharing: false,
            real_time_collaboration: false,
            encryption_enabled: true,
        }
    }
}

impl Default for DebuggingConfig {
    fn default() -> (r: DebuggingConfig)
        ensures
            r == debugging_defaults(),
    {
        DebuggingConfig {
            enabled: false,
            log_level: LogLevel::Info,
            performance_monitoring: false,
            memory_profiling: false,
            network_inspection: false,
            command_tracing: false,
        }
    }
}

fn contains_name(v: &Vec<String>, x: &str) -> (r: bool)
    ensures
        r == has_name(strs(v@), x@),
{
    let mut i: usize = 0;
    while i < v.len()
        invariant
            i <= v@.len(),
            forall|j: int| 0 <= j < i ==> strs(v@)[j] != x@,
        decreases v@.len() - i,
    {
        if str_eq(v[i].as_str(), x) {
            assert(strs(v@)[i as int] == x@);
            return true;
        }
        i = i + 1;
    }
    false
}

impl Config {
    /// Every section at its defaults.
    pub fn default_with(env_shell: Option<String>, home: Option<String>) -> (r: Config)
        ensures
            terminal_defaults(r.terminal, opt_view(env_shell)),
            ai_defaults(r.ai),
            rendering_defaults(r.rendering),
            plugin_defaults(r.plugins, opt_view(home)),
            collaboration_defaults(r.collaboration),
            r.debugging == debugging_defaults(),
            settings_check(r) is Ok,
    {
        Config {
            terminal: TerminalConfig::default_with_shell(env_shell),
            ai: AIConfig::default(),
            rendering: RenderingConfig::default(),
            plugins: PluginConfig::default_with_home(home),
            collaboration: CollaborationConfig::default(),
            debugging: DebuggingConfig::default(),
        }
    }

    /// The first rule the settings break: font size and line height positive, a context
    /// window for an enabled assistant, a prediction threshold in [0, 1], a frame rate, a
    /// transparency in [0, 1].
    pub fn validate(&self) -> (r: Result<(), SettingsError>)
        ensures
            r == settings_check(*self),
    {
        let fs = self.terminal.font_size;
        if fs == 0 || (0x8000_0000u32 <= fs && fs <= 0xff80_0000u32) {
            return Err(SettingsError::FontSizeNotPositive);
        }
        let lh = self.terminal.line_height;
        if lh == 0 || (0x8000_0000u32 <= lh && lh <= 0xff80_0000u32) {
            return Err(SettingsError::LineHeightNotPositive);
        }
        if self.ai.enabled && self.ai.context_window == 0 {
            return Err(SettingsError::ContextWindowZero);
        }
        let th = self.ai.prediction_threshold;
        if (0x8000_0001u32 <= th && th <= 0xff80_0000u32) || (0x3f80_0001u32 <= th && th <= 0x7f80_0000u32) {
            return Err(SettingsError::ThresholdOutOfRange);
        }
        if self.rendering.max_fps == 0 {
            return Err(SettingsError::MaxFpsZero);
        }
        let tr = self.rendering.transparency;
        if (0x8000_0001u32 <= tr && tr <= 0xff80_0000u32) || (0x3f80_0001u32 <= tr && tr <= 0x7f80_0000u32) {
            return Err(SettingsError::TransparencyOutOfRange);
        }
        Ok(())
    }

    /// `<config dir or /tmp>/weft/config.toml`.
    pub fn config_file_path(config_dir: Option<String>) -> (r: String)
        ensures
            r@ == join_spec(weft_dir(opt_view(config_dir)), "config.toml"@),
    {
        let d = Self::weft_dir(config_dir);
        join_path(d.as_str(), "config.toml")
    }

    /// `<base or /tmp>/weft`, for the data and cache directories alike.
    pub fn weft_dir(base: Option<String>) -> (r: String)
        ensures
            r@ == weft_dir(opt_view(base)),
    {
        let b = match base {
            Some(b) => b,
            None => String::from_str("/tmp"),
        };
        join_path(b.as_str(), "weft")
    }

    /// `<data dir>/themes/<theme>.toml`.
    pub fn get_theme_path(&self, data_dir: &str) -> (r: String)
        ensures
            r@ == join_spec(join_spec(data_dir@, "themes"@), self.rendering.theme@ + ".toml"@),
    {
        let themes = join_path(data_dir, "themes");
        let mut file = self.rendering.theme.clone();
        file.append(".toml");
        join_path(themes.as_str(), file.as_str())
    }

    /// Where a plugin file may be, one path per plugin directory, in order.
    pub fn plugin_path_candidates(&self, plugin_name: &str) -> (r: Vec<String>)
        ensures
            r@.len() == self.plugins.plugin_directories@.len(),
            forall|i: int| 0 <= i < r@.len() ==> (#[trigger] r@[i])@ == join_spec(
                self.plugins.plugin_directories@[i]@,
                plugin_name@ + ".weft"@,
            ),
    {
        let mut file = String::from_str(plugin_name);
        file.append(".weft");
        let mut r: Vec<String> = Vec::new();
        let mut i: usize = 0;
        while i < self.plugins.plugin_directories.len()
            invariant
                i <= self.plugins.plugin_directories@.len(),
                r@.len() == i,
                file@ == plugin_name@ + ".weft"@,
                forall|j: int| 0 <= j < i ==> (#[trigger] r@[j])@ == join_spec(
                    self.plugins.plugin_directories@[j]@,
                    plugin_name@ + ".weft"@,
                ),
            decreases self.plugins.plugin_directories@.len() - i,
        {
            r.push(join_path(self.plugins.plugin_directories[i].as_str(), file.as_str()));
            i = i + 1;
        }
        r
    }

    /// Adds a prompt after the others.
    pub fn add_custom_prompt(&mut self, prompt: CustomPrompt)
        ensures
            final(self).ai.custom_prompts@ == old(self).ai.custom_prompts@.push(prompt),
            final(self).plugins == old(self).plugins,
    {
        self.ai.custom_prompts.push(prompt);
    }

    /// Removes every prompt called `name`; says whether any was.
    pub fn remove_custom_prompt(&mut self, name: &str) -> (r: bool)
        ensures
            final(self).ai.custom_prompts@ == prompts_without(old(self).ai.custom_prompts@, name@),
            r == (prompts_without(old(self).ai.custom_prompts@, name@).len() < old(self).ai.custom_prompts@.len()),
            final(self).plugins == old(self).plugins,
    {
        let mut old_p = Vec::new();
        std::mem::swap(&mut old_p, &mut self.ai.custom_prompts);
        let len_before = old_p.len();
        let ghost p0 = old_p@;
        let mut kept: Vec<CustomPrompt> = Vec::new();
        let ghost mut seen: Seq<CustomPrompt> = Seq::empty();
        while old_p.len() > 0
            invariant
                p0 == seen + old_p@,
                kept@ == prompts_without(seen, name@),
                kept@.len() <= seen.len(),
            decreases old_p@.len(),
        {
            let ghost before = old_p@;
            let p = old_p.remove(0);
            assert(before =~= seq![p] + old_p@);
            let ghost s0 = seen;
            proof {
                seen = seen.push(p);
            }
            assert(seen.drop_last() =~= s0);
            if !str_eq(p.name.as_str(), name) {
                kept.push(p);
            }
            assert(p0 =~= seen + old_p@);
        }
        assert(seen =~= p0);
        let removed = kept.len() < len_before;
        self.ai.custom_prompts = kept;
        removed
    }

    /// Trusts a plugin unless it already is; says whether it was added.
    pub fn add_trusted_plugin(&mut self, plugin_name: String) -> (r: bool)
        ensures
            r == !has_name(strs(old(self).plugins.trusted_plugins@), plugin_name@),
            strs(final(self).plugins.trusted_plugins@) == if r {
                strs(old(self).plugins.trusted_plugins@).push(plugin_name@)
            } else {
                strs(old(self).plugins.trusted_plugins@)
            },
            final(self).ai.custom_prompts == old(self).ai.custom_prompts,
    {
        if contains_name(&self.plugins.trusted_plugins, plugin_name.as_str()) {
            false
        } else {
            let ghost n = plugin_name@;
            self.plugins.trusted_plugins.push(plugin_name);
            assert(strs(self.plugins.trusted_plugins@) =~= strs(old(self).plugins.trusted_plugins@).push(n));
            true
        }
    }

    /// Stops trusting a plugin; says whether it was trusted.
    pub fn remove_trusted_plugin(&mut self, plugin_name: &str) -> (r: bool)
        ensures
            strs(final(self).plugins.trusted_plugins@) == names_without(
                strs(old(self).plugins.trusted_plugins@),
                plugin_name@,
            ),
            r == (names_without(strs(old(self).plugins.trusted_plugins@), plugin_name@).len()
                < old(self).plugins.trusted_plugins@.len()),
            final(self).ai.custom_prompts == old(self).ai.custom_prompts,
    {
        let mut old_t = Vec::new();
        std::mem::swap(&mut old_t, &mut self.plugins.trusted_plugins);
        let len_before = old_t.len();
        let ghost t0 = strs(old_t@);
        let mut kept: Vec<String> = Vec::new();
        let ghost mut seen: Seq<Seq<char>> = Seq::empty();
        while old_t.len() > 0
            invariant
                t0 == seen + strs(old_t@),
                strs(kept@) == names_without(seen, plugin_name@),
                kept@.len() <= seen.len(),
            decreases old_t@.len(),
        {
            let ghost before = old_t@;
            let t = old_t.remove(0);
            assert(strs(before) =~= seq![t@] + strs(old_t@));
            let ghost s0 = seen;
            proof {
                seen = seen.push(t@);
            }
            assert(seen.drop_last() =~= s0);
            if !str_eq(t.as_str(), plugin_name) {
                let ghost k0 = strs(kept@);
                let ghost tv = t@;
                kept.push(t);
                assert(strs(kept@) =~= k0.push(tv));
            }
            assert(t0 =~= seen + strs(old_t@));
        }
        assert(seen =~= t0);
        let removed = kept.len() < len_before;
        self.plugins.trusted_plugins = kept;
        removed
    }
}

pub open spec fn opt_view(o: Option<String>) -> Option<Seq<char>> {
    match o {
        Some(s) => Some(s@),
        None => None,
    }
}


/// After a plugin stops being trusted it is not trusted, and every other trusted plugin
/// still is.
pub proof fn lemma_untrusted_after_remove(v: Seq<Seq<char>>, name: Seq<char>)
    ensures
        !has_name(names_without(v, name), name),
        forall|x: Seq<char>| x != name ==> (#[trigger] has_name(names_without(v, name), x) == has_name(v, x)),
    decreases v.len(),
{
    if v.len() > 0 {
        lemma_untrusted_after_remove(v.drop_last(), name);
        let w = names_without(v.drop_last(), name);
        let a = v.last();
        assert forall|x: Seq<char>| #[trigger] has_name(names_without(v, name), x) == (has_name(v, x) && x != name) by {
            assert(has_name(w, x) == (has_name(v.drop_last(), x) && x != name));
            if has_name(v, x) {
                let j = choose|j: int| 0 <= j < v.len() && v[j] == x;
                if j < v.len() - 1 {
                    assert(v.drop_last()[j] == x);
                }
            }
            if has_name(v.drop_last(), x) {
                let j = choose|j: int| 0 <= j < v.drop_last().len() && v.drop_last()[j] == x;
                assert(v[j] == x);
            }
            if a == x {
                assert(v[v.len() - 1] == x);
            }
            if a != name {
                if has_name(w.push(a), x) {
                    let j = choose|j: int| 0 <= j < w.push(a).len() && w.push(a)[j] == x;
                    if j < w.len() {
                        assert(w[j] == x);
                    }
                }
                if has_name(w, x) {
                    let j = choose|j: int| 0 <= j < w.len() && w[j] == x;
                    assert(w.push(a)[j] == x);
                }
                if x == a {
                    assert(w.push(a)[w.len() as int] == x);
                }
            }
        }
    }
}

/// Once a plugin is trusted it stays trusted, so trusting it again adds nothing.
pub proof fn lemma_trusted_after_add(v: Seq<Seq<char>>, name: Seq<char>)
    ensures
        has_name(if has_name(v, name) { v } else { v.push(name) }, name),
{
    assert(v.push(name)[v.len() as int] == name);
}

} // verus!
