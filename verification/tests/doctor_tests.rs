use weft_terminal::config_simple::Config;
use weft_terminal::doctor::{
    ai_skipped, check_config_valid, check_ollama, check_plugin_state, check_plugins_dir, check_shell, exit_code,
    is_executable, ollama_tags_url, report_line, run_doctor, status_icon, summarize, summary_line, CheckStatus, OllamaProbe,
    ReportSummary,
};
use weft_terminal::plugin_store::PluginEntry;

#[test]
fn executable_bits_are_any_of_three() {
    assert!(is_executable(Some(0o755)));
    assert!(is_executable(Some(0o001)));
    assert!(!is_executable(Some(0o644)));
    assert!(!is_executable(None));
}

#[test]
fn shell_check_passes_warns_or_fails() {
    let r = check_shell("/bin/sh", true, false);
    assert!(r.status == CheckStatus::Pass);
    assert_eq!(r.message, "Shell executable: /bin/sh");
    let r = check_shell("zsh", false, true);
    assert!(r.status == CheckStatus::Pass);
    assert_eq!(r.message, "Shell found on PATH: zsh");
    let r = check_shell("nosuch", false, false);
    assert!(r.status == CheckStatus::Fail);
    assert_eq!(r.name, "terminal.shell");
}

#[test]
fn config_check_reports_validation() {
    let c = Config::default_with_shell(None);
    assert!(check_config_valid(&c, "/c/config.toml").status == CheckStatus::Pass);
    let mut bad = Config::default_with_shell(None);
    bad.ai.model = String::new();
    let r = check_config_valid(&bad, "/c/config.toml");
    assert!(r.status == CheckStatus::Fail);
    assert_eq!(r.message, "ai.model cannot be empty");
    assert_eq!(check_config_valid(&c, "/c/config.toml").message, "Config OK (/c/config.toml)");
}

#[test]
fn plugin_checks() {
    assert!(check_plugins_dir("/p", Ok(())).status == CheckStatus::Pass);
    assert!(check_plugins_dir("/p", Err("denied".to_string())).status == CheckStatus::Fail);
    let entries = vec![
        PluginEntry { id: "a".to_string(), path: "/p/a".to_string(), enabled: true },
        PluginEntry { id: "b".to_string(), path: "/p/b".to_string(), enabled: false },
    ];
    let r = check_plugin_state(Ok(entries));
    assert!(r.status == CheckStatus::Pass);
    assert_eq!(r.message, "2 plugin(s) installed, 1 enabled");
    assert!(check_plugin_state(Err("broken".to_string())).status == CheckStatus::Warn);
}

#[test]
fn ollama_checks() {
    assert_eq!(ollama_tags_url("http://h:1/"), "http://h:1/api/tags");
    let ok = check_ollama("http://h:1", OllamaProbe::Reply { success: true, status: "200 OK".to_string() });
    assert!(ok.status == CheckStatus::Pass);
    let bad = check_ollama("http://h:1", OllamaProbe::Reply { success: false, status: "500".to_string() });
    assert!(bad.status == CheckStatus::Warn);
    assert_eq!(bad.message, "Ollama at http://h:1 returned 500");
    let down = check_ollama("http://h:1", OllamaProbe::Unreachable("refused".to_string()));
    assert!(down.status == CheckStatus::Warn);
    assert_eq!(down.message, "Ollama not reachable at http://h:1: refused");
    let client = check_ollama("http://h:1", OllamaProbe::ClientError("tls".to_string()));
    assert!(client.status == CheckStatus::Fail);
    assert!(ai_skipped().status == CheckStatus::Pass);
}

#[test]
fn report_summary_and_exit_code() {
    let results = vec![
        check_shell("/bin/sh", true, false),
        check_plugin_state(Err("unreadable".to_string())),
        check_shell("x", false, false),
    ];
    let s = summarize(&results);
    assert!(s == ReportSummary { fails: 1, warns: 1 });
    assert_eq!(exit_code(s), 1);
    assert_eq!(exit_code(ReportSummary { fails: 0, warns: 3 }), 0);
    assert_eq!(summary_line(s), "\nDoctor: 1 failure(s), 1 warning(s)");
    assert_eq!(summary_line(ReportSummary { fails: 0, warns: 2 }), "\nDoctor: passed with 2 warning(s)");
    assert_eq!(summary_line(ReportSummary { fails: 0, warns: 0 }), "\nDoctor: all checks passed");
    assert_eq!(status_icon(CheckStatus::Warn), "warn");
    assert_eq!(report_line(&results[0]), "[ok] terminal.shell — Shell executable: /bin/sh");
}

#[test]
fn doctor_runs_the_checks_in_order() {
    let mut c = Config::default_with_shell(Some("/bin/sh".to_string()));
    c.ai.enabled = false;
    let r = run_doctor(&c, "/c/config.toml", true, false, "/p", Ok(()), Err("gone".to_string()), None);
    let names: Vec<&str> = r.iter().map(|x| x.name.as_str()).collect();
    assert_eq!(names, vec!["config.validate", "terminal.shell", "plugins.dir", "plugins.installed", "ai.ollama"]);
    assert_eq!(r[4].message, "AI disabled in config (skipped)");
    assert!(r[3].status == CheckStatus::Warn);
    c.ai.enabled = true;
    let r = run_doctor(
        &c,
        "/c/config.toml",
        false,
        false,
        "/p",
        Ok(()),
        Ok(Vec::new()),
        Some(OllamaProbe::Unreachable("refused".to_string())),
    );
    assert!(r[1].status == CheckStatus::Fail);
    assert_eq!(r[3].message, "0 plugin(s) installed, 0 enabled");
    assert!(r[4].status == CheckStatus::Warn);
    assert_eq!(summarize(&r), ReportSummary { fails: 1, warns: 1 });
}
