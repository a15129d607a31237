//! Health checks for shell, config, plugins, and AI backend: each check's verdict from what
//! was observed, and the report that sums them up.
use vstd::prelude::*;
use crate::config_simple::{error_message, validation, Config, ConfigError, ConfigView};
use crate::plugin_store::PluginEntry;
use crate::text::{decimal, decimal_seq, trim_end_char, trim_end_char_seq};

verus! {

#[derive(Debug, Clone, Copy, PartialEq, Eq, Structural)]
pub enum CheckStatus {
    Pass,
    Warn,
    Fail,
}

#[derive(Debug, Clone)]
pub struct CheckResult {
    pub name: String,
    pub status: CheckStatus,
    pub message: String,
}

/// What probing the Ollama endpoint gave.
#[derive(Debug, Clone)]
pub enum OllamaProbe {
    /// The HTTP client could not be built; the error's text.
    ClientError(String),
    /// A reply came; whether its status is a success, and the status as displayed.
    Reply { success: bool, status: String },
    /// No reply; the error's text.
    Unreachable(String),
}

/// How many failures and warnings a report holds.
#[derive(Debug, Clone, Copy, PartialEq, Eq, Structural)]
pub struct ReportSummary {
    pub fails: usize,
    pub warns: usize,
}

/// A check result made of a name, a status and a message.
pub open spec fn result_is(r: CheckResult, name: Seq<char>, status: CheckStatus, message: Seq<char>) -> bool {
    r.name@ == name && r.status == status && r.message@ == message
}

/// The configuration check's verdict.
pub open spec fn config_check(r: CheckResult, config: ConfigView, config_path: Seq<char>) -> bool {
    match validation(config) {
        Ok(_) => result_is(
            r,
            "config.validate"@,
            CheckStatus::Pass,
            "Config OK ("@ + config_path + ")"@,
        ),
        Err(e) => result_is(r, "config.validate"@, CheckStatus::Fail, error_message(e)),
    }
}

/// The shell check's verdict.
pub open spec fn shell_check(r: CheckResult, shell: Seq<char>, executable_file: bool, on_path: bool) -> bool {
    if executable_file {
        result_is(r, "terminal.shell"@, CheckStatus::Pass, "Shell executable: "@ + shell)
    } else if on_path {
        result_is(r, "terminal.shell"@, CheckStatus::Pass, "Shell found on PATH: "@ + shell)
    } else {
        result_is(r, "terminal.shell"@, CheckStatus::Fail, "Shell not found or not executable: "@ + shell)
    }
}

/// The plugin-directory check's verdict.
pub open spec fn plugins_dir_check(r: CheckResult, dir: Seq<char>, created: Result<(), String>) -> bool {
    match created {
        Ok(_) => result_is(
            r,
            "plugins.dir"@,
            CheckStatus::Pass,
            "Plugins directory writable: "@ + dir,
        ),
        Err(e) => result_is(
            r,
            "plugins.dir"@,
            CheckStatus::Fail,
            "Cannot create plugins dir "@ + dir + ": "@ + e@,
        ),
    }
}

/// The installed-plugins check's verdict.
pub open spec fn plugin_state_check(r: CheckResult, listing: Result<Vec<PluginEntry>, String>) -> bool {
    match listing {
        Ok(p) => result_is(
            r,
            "plugins.installed"@,
            CheckStatus::Pass,
            decimal_seq(p@.len()) + " plugin(s) installed, "@ + decimal_seq(count_enabled(p@))
                + " enabled"@,
        ),
        Err(e) => result_is(
            r,
            "plugins.installed"@,
            CheckStatus::Warn,
            "Could not list plugins: "@ + e@,
        ),
    }
}

/// The AI-backend check's verdict.
pub open spec fn ollama_check(r: CheckResult, endpoint: Seq<char>, probe: OllamaProbe) -> bool {
    match probe {
        OllamaProbe::ClientError(e) => result_is(
            r,
            "ai.ollama"@,
            CheckStatus::Fail,
            "HTTP client error: "@ + e@,
        ),
        OllamaProbe::Reply { success: true, status: _ } => result_is(
            r,
            "ai.ollama"@,
            CheckStatus::Pass,
            "Ollama reachable at "@ + endpoint,
        ),
        OllamaProbe::Reply { success: false, status } => result_is(
            r,
            "ai.ollama"@,
            CheckStatus::Warn,
            "Ollama at "@ + endpoint + " returned "@ + status@,
        ),
        OllamaProbe::Unreachable(e) => result_is(
            r,
            "ai.ollama"@,
            CheckStatus::Warn,
            "Ollama not reachable at "@ + endpoint + ": "@ + e@,
        ),
    }
}

pub open spec fn count_status(s: Seq<CheckResult>, st: CheckStatus) -> nat
    decreases s.len(),
{
    if s.len() == 0 {
        0
    } else {
        count_status(s.drop_last(), st) + if s.last().status == st {
            1nat
        } else {
            0nat
        }
    }
}

pub open spec fn count_enabled(s: Seq<PluginEntry>) -> nat
    decreases s.len(),
{
    if s.len() == 0 {
        0
    } else {
        count_enabled(s.drop_last()) + if s.last().enabled {
            1nat
        } else {
            0nat
        }
    }
}

/// The process exit code a report leads to.
pub open spec fn exit_code_spec(s: ReportSummary) -> i32 {
    if s.fails > 0 {
        1
    } else {
        0
    }
}

pub open spec fn icon_spec(st: CheckStatus) -> Seq<char> {
    match st {
        CheckStatus::Pass => "ok"@,
        CheckStatus::Warn => "warn"@,
        CheckStatus::Fail => "fail"@,
    }
}

/// The closing line of a report.
pub open spec fn summary_line_spec(s: ReportSummary) -> Seq<char> {
    if s.fails > 0 {
        "\nDoctor: "@ + decimal_seq(s.fails as nat) + " failure(s), "@ + decimal_seq(s.warns as nat)
            + " warning(s)"@
    } else if s.warns > 0 {
        "\nDoctor: passed with "@ + decimal_seq(s.warns as nat) + " warning(s)"@
    } else {
        "\nDoctor: all checks passed"@
    }
}

fn result(name: &str, status: CheckStatus, message: String) -> (r: CheckResult)
    ensures
        result_is(r, name@, status, message@),
{
    CheckResult { name: String::from_str(name), status, message }
}

fn text2(a: &str, b: &str) -> (r: String)
    ensures
        r@ == a@ + b@,
{
    let mut m = String::from_str(a);
    m.append(b);
    m
}

/// The configuration check; `config_path` is the configuration file's path as displayed.
pub fn check_config_valid(config: &Config, config_path: &str) -> (r: CheckResult)
    ensures
        config_check(r, config@, config_path@),
{
    match config.validate() {
        Ok(()) => {
            let mut m = text2("Config OK (", config_path);
            m.append(")");
            result("config.validate", CheckStatus::Pass, m)
        },
        Err(e) => result("config.validate", CheckStatus::Fail, e.message()),
    }
}

/// Whether file permission bits allow execution by anyone (`None`: no metadata).
pub fn is_executable(mode: Option<u32>) -> (r: bool)
    ensures
        r == (match mode {
            Some(m) => m & 0o111u32 != 0,
            None => false,
        }),
{
    match mode {
        Some(m) => m & 0o111u32 != 0,
        None => false,
    }
}

/// The shell check: `executable_file` is whether the shell names an executable regular file,
/// `on_path` whether `command -v` finds it (only consulted when it does not).
pub fn check_shell(shell: &str, executable_file: bool, on_path: bool) -> (r: CheckResult)
    ensures
        shell_check(r, shell@, executable_file, on_path),
{
    if executable_file {
        result("terminal.shell", CheckStatus::Pass, text2("Shell executable: ", shell))
    } else if on_path {
        result("terminal.shell", CheckStatus::Pass, text2("Shell found on PATH: ", shell))
    } else {
        result("terminal.shell", CheckStatus::Fail, text2("Shell not found or not executable: ", shell))
    }
}

/// The plugin-directory check, given whether creating it worked (or the error's text).
pub fn check_plugins_dir(dir: &str, created: Result<(), String>) -> (r: CheckResult)
    ensures
        plugins_dir_check(r, dir@, created),
{
    match created {
        Ok(()) => result("plugins.dir", CheckStatus::Pass, text2("Plugins directory writable: ", dir)),
        Err(e) => {
            let mut m = text2("Cannot create plugins dir ", dir);
            m.append(": ");
            m.append(e.as_str());
            result("plugins.dir", CheckStatus::Fail, m)
        },
    }
}

fn count_enabled_exec(plugins: &Vec<PluginEntry>) -> (r: usize)
    ensures
        r == count_enabled(plugins@),
{
    let mut n: usize = 0;
    let mut i: usize = 0;
    while i < plugins.len()
        invariant
            0 <= i <= plugins@.len(),
            n == count_enabled(plugins@.take(i as int)),
            n <= i,
        decreases plugins@.len() - i,
    {
        assert(plugins@.take(i + 1).drop_last() =~= plugins@.take(i as int));
        if plugins[i].enabled {
            n = n + 1;
        }
        i = i + 1;
    }
    assert(plugins@.take(plugins@.len() as int) =~= plugins@);
    n
}

/// The installed-plugins check, given the listing (or the error's text).
pub fn check_plugin_state(listing: Result<Vec<PluginEntry>, String>) -> (r: CheckResult)
    ensures
        plugin_state_check(r, listing),
{
    match listing {
        Ok(plugins) => {
            let enabled = count_enabled_exec(&plugins);
            let mut m = decimal(plugins.len() as u64);
            m.append(" plugin(s) installed, ");
            let e = decimal(enabled as u64);
            m.append(e.as_str());
            m.append(" enabled");
            result("plugins.installed", CheckStatus::Pass, m)
        },
        Err(e) => result("plugins.installed", CheckStatus::Warn, text2("Could not list plugins: ", e.as_str())),
    }
}

/// The URL that lists the endpoint's models.
pub fn ollama_tags_url(endpoint: &str) -> (r: String)
    ensures
        r@ == trim_end_char_seq(endpoint@, '/') + "/api/tags"@,
{
    let mut u = trim_end_char(endpoint, '/');
    u.append("/api/tags");
    u
}

/// The AI-backend check, given what probing the endpoint gave.
pub fn check_ollama(endpoint: &str, probe: OllamaProbe) -> (r: CheckResult)
    ensures
        ollama_check(r, endpoint@, probe),
{
    match probe {
        OllamaProbe::ClientError(e) => result("ai.ollama", CheckStatus::Fail, text2("HTTP client error: ", e.as_str())),
        OllamaProbe::Reply { success, status } => {
            if success {
                result("ai.ollama", CheckStatus::Pass, text2("Ollama reachable at ", endpoint))
            } else {
                let mut m = text2("Ollama at ", endpoint);
                m.append(" returned ");
                m.append(status.as_str());
                result("ai.ollama", CheckStatus::Warn, m)
            }
        },
        OllamaProbe::Unreachable(e) => {
            let mut m = text2("Ollama not reachable at ", endpoint);
            m.append(": ");
            m.append(e.as_str());
            result("ai.ollama", CheckStatus::Warn, m)
        },
    }
}

/// The AI-backend check when AI is disabled: it passes without probing.
pub fn ai_skipped() -> (r: CheckResult)
    ensures
        result_is(r, "ai.ollama"@, CheckStatus::Pass, "AI disabled in config (skipped)"@),
{
    result("ai.ollama", CheckStatus::Pass, String::from_str("AI disabled in config (skipped)"))
}

/// The report of `weft doctor`, in its order: the configuration, the shell, the plugin
/// directory, the installed plugins, then the AI backend, probed only when AI is enabled.
/// The rest is what the caller observed: whether the shell is an executable file or on
/// the path, whether creating the plugin directory worked, the plugin listing, and, when AI
/// is enabled, what probing the endpoint gave.
pub fn run_doctor(
    config: &Config,
    config_path: &str,
    shell_executable_file: bool,
    shell_on_path: bool,
    plugins_dir: &str,
    created: Result<(), String>,
    listing: Result<Vec<PluginEntry>, String>,
    probe: Option<OllamaProbe>,
) -> (r: Vec<CheckResult>)
    requires
        config.ai.enabled ==> probe is Some,
    ensures
        r@.len() == 5,
        config_check(r@[0], config@, config_path@),
        shell_check(r@[1], config.terminal.shell@, shell_executable_file, shell_on_path),
        plugins_dir_check(r@[2], plugins_dir@, created),
        plugin_state_check(r@[3], listing),
        config.ai.enabled ==> (probe matches Some(p) && ollama_check(r@[4], config.ai.endpoint@, p)),
        !config.ai.enabled ==> result_is(
            r@[4],
            "ai.ollama"@,
            CheckStatus::Pass,
            "AI disabled in config (skipped)"@,
        ),
{
    let mut results: Vec<CheckResult> = Vec::new();
    results.push(check_config_valid(config, config_path));
    results.push(check_shell(config.terminal.shell.as_str(), shell_executable_file, shell_on_path));
    results.push(check_plugins_dir(plugins_dir, created));
    results.push(check_plugin_state(listing));
    if config.ai.enabled {
        match probe {
            Some(p) => results.push(check_ollama(config.ai.endpoint.as_str(), p)),
            None => results.push(ai_skipped()),
        }
    } else {
        results.push(ai_skipped());
    }
    results
}

/// Counts the failures and warnings of a report.
pub fn summarize(results: &Vec<CheckResult>) -> (r: ReportSummary)
    ensures
        r.fails == count_status(results@, CheckStatus::Fail),
        r.warns == count_status(results@, CheckStatus::Warn),
{
    let mut fails: usize = 0;
    let mut warns: usize = 0;
    let mut i: usize = 0;
    while i < results.len()
        invariant
            0 <= i <= results@.len(),
            fails == count_status(results@.take(i as int), CheckStatus::Fail),
            warns == count_status(results@.take(i as int), CheckStatus::Warn),
            fails + warns <= i,
        decreases results@.len() - i,
    {
        assert(results@.take(i + 1).drop_last() =~= results@.take(i as int));
        match results[i].status {
            CheckStatus::Fail => {
                fails = fails + 1;
            },
            CheckStatus::Warn => {
                warns = warns + 1;
            },
            CheckStatus::Pass => {},
        }
        i = i + 1;
    }
    assert(results@.take(results@.len() as int) =~= results@);
    ReportSummary { fails, warns }
}

/// 1 when any check failed, else 0.
pub fn exit_code(summary: ReportSummary) -> (r: i32)
    ensures
        r == exit_code_spec(summary),
{
    if summary.fails > 0 {
        1
    } else {
        0
    }
}

/// The word shown for a status.
pub fn status_icon(status: CheckStatus) -> (r: String)
    ensures
        r@ == icon_spec(status),
{
    match status {
        CheckStatus::Pass => String::from_str("ok"),
        CheckStatus::Warn => String::from_str("warn"),
        CheckStatus::Fail => String::from_str("fail"),
    }
}

/// `[icon] name — message`.
pub fn report_line(r: &CheckResult) -> (line: String)
    ensures
        line@ == "["@ + icon_spec(r.status) + "] "@ + r.name@ + " — "@ + r.message@,
{
    let mut m = String::from_str("[");
    let icon = status_icon(r.status);
    m.append(icon.as_str());
    m.append("] ");
    m.append(r.name.as_str());
    m.append(" — ");
    m.append(r.message.as_str());
    m
}

/// The closing line of a report.
pub fn summary_line(s: ReportSummary) -> (line: String)
    ensures
        line@ == summary_line_spec(s),
{
    if s.fails > 0 {
        let mut m = String::from_str("\nDoctor: ");
        let f = decimal(s.fails as u64);
        m.append(f.as_str());
        m.append(" failure(s), ");
        let w = decimal(s.warns as u64);
        m.append(w.as_str());
        m.append(" warning(s)");
        m
    } else if s.warns > 0 {
        let mut m = String::from_str("\nDoctor: passed with ");
        let w = decimal(s.warns as u64);
        m.append(w.as_str());
        m.append(" warning(s)");
        m
    } else {
        String::from_str("\nDoctor: all checks passed")
    }
}

/// The enabled count is the number of listed plugins whose enabled flag is set.
pub proof fn lemma_count_enabled_counts_enabled(s: Seq<PluginEntry>)
    ensures
        count_enabled(s) == s.filter(|e: PluginEntry| e.enabled).len(),
        count_enabled(s) <= s.len(),
        (forall|i: int| 0 <= i < s.len() ==> (#[trigger] s[i]).enabled) ==> count_enabled(s) == s.len(),
        (forall|i: int| 0 <= i < s.len() ==> !(#[trigger] s[i]).enabled) ==> count_enabled(s) == 0,
    decreases s.len(),
{
    reveal(Seq::filter);
    if s.len() > 0 {
        let d = s.drop_last();
        lemma_count_enabled_counts_enabled(d);
        assert(forall|i: int| 0 <= i < d.len() ==> d[i] == s[i]);
        assert(s.last() == s[s.len() - 1]);
    }
}

} // verus!
