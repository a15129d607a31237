use weft_terminal::config_simple::Config;
use weft_terminal::suggest::{
    check_rate_limit, ollama_generate_url, ollama_prompt, parse_ollama_response, rank_suggestions,
    rule_suggestions, static_suggestions, suggest, suggest_stage, RateLimiter, SuggestStage, Suggestion,
};

fn sug(c: &str, conf: u32, src: &str) -> Suggestion {
    Suggestion { command: c.to_string(), confidence: conf, source: src.to_string() }
}

#[test]
fn test_static_suggestions_git() {
    let suggestions = static_suggestions("git");
    assert!(!suggestions.is_empty());
    assert!(suggestions.iter().any(|s| s.command.contains("git status")));
}

#[test]
fn test_static_suggestions_docker() {
    let suggestions = static_suggestions("docker");
    assert!(!suggestions.is_empty());
    assert!(suggestions.iter().any(|s| s.command.contains("docker ps")));
}

#[test]
fn test_static_suggestions_cargo() {
    let suggestions = static_suggestions("cargo");
    assert!(!suggestions.is_empty());
    assert!(suggestions.iter().any(|s| s.command.contains("cargo build")));
}

#[test]
fn test_static_suggestions_empty() {
    let suggestions = static_suggestions("");
    assert!(!suggestions.is_empty());
    assert!(suggestions.iter().any(|s| s.command.contains("ls")));
}

#[test]
fn test_static_suggestions_no_match() {
    let suggestions = static_suggestions("xyz123");
    assert!(!suggestions.is_empty());
    assert_eq!(suggestions[0].command, "xyz123");
}

#[test]
fn test_suggestion_source_static() {
    let suggestions = static_suggestions("git");
    assert!(suggestions.iter().all(|s| s.source == "static"));
}

#[test]
fn test_suggestion_confidence_sorted() {
    let mut suggestions = static_suggestions("git");
    suggestions.sort_by(|a, b| b.confidence.partial_cmp(&a.confidence).unwrap_or(std::cmp::Ordering::Equal));
    for i in 1..suggestions.len() {
        assert!(suggestions[i - 1].confidence >= suggestions[i].confidence);
    }
}

#[test]
fn git_rules_come_in_table_order() {
    let s = static_suggestions("git");
    let cmds: Vec<&str> = s.iter().map(|x| x.command.as_str()).collect();
    assert_eq!(cmds, vec!["git status", "git add .", "git commit -m \"\"", "git push", "git pull"]);
    assert_eq!(s[0].confidence, 95);
    assert_eq!(s[4].confidence, 80);
}

#[test]
fn typed_prefix_narrows_rules() {
    let s = static_suggestions("git p");
    let cmds: Vec<&str> = s.iter().map(|x| x.command.as_str()).collect();
    assert_eq!(cmds, vec!["git push", "git pull"]);
}

#[test]
fn empty_query_gives_three_defaults() {
    let s = static_suggestions("   ");
    let cmds: Vec<&str> = s.iter().map(|x| x.command.as_str()).collect();
    assert_eq!(cmds, vec!["ls -la", "pwd", "git status"]);
    assert_eq!(s[0].confidence, 70);
}

#[test]
fn unmatched_query_is_echoed_trimmed_at_half_confidence() {
    let s = static_suggestions("  make all ");
    assert_eq!(s.len(), 1);
    assert_eq!(s[0].command, "make all");
    assert_eq!(s[0].confidence, 50);
}

#[test]
fn rank_keeps_ten_most_confident_stably() {
    let mut v = Vec::new();
    for i in 0..12u32 {
        v.push(sug(&format!("c{}", i), if i % 2 == 0 { 50 } else { 60 }, "x"));
    }
    let r = rank_suggestions(v);
    assert_eq!(r.len(), 10);
    assert_eq!(r[0].command, "c1");
    assert_eq!(r[5].command, "c11");
    assert_eq!(r[6].command, "c0");
    assert_eq!(r[9].confidence, 50);
}

#[test]
fn rate_limit_spaces_requests_six_seconds() {
    let mut l = RateLimiter { last_request_ns: None };
    assert!(check_rate_limit(&mut l, 1_000));
    assert_eq!(l.last_request_ns, Some(1_000));
    assert!(!check_rate_limit(&mut l, 1_000 + 5_999_999_999));
    assert_eq!(l.last_request_ns, Some(1_000));
    assert!(check_rate_limit(&mut l, 1_000 + 6_000_000_000));
    assert_eq!(l.last_request_ns, Some(6_000_001_000));
}

#[test]
fn stage_follows_config_and_limiter() {
    let mut c = Config::default_with_shell(None);
    let mut l = RateLimiter { last_request_ns: None };
    assert!(suggest_stage(&c, &mut l, 10) == SuggestStage::QueryAi);
    assert!(suggest_stage(&c, &mut l, 20) == SuggestStage::RateLimited);
    c.ai.enabled = false;
    assert!(suggest_stage(&c, &mut l, 7_000_000_000) == SuggestStage::NoAi);
}

#[test]
fn suggest_without_ai_is_all_static() {
    let s = suggest("git", SuggestStage::NoAi, None);
    assert!(!s.is_empty());
    assert!(s.iter().all(|x| x.source == "static"));
}

#[test]
fn suggest_merges_new_ai_commands_only() {
    let ai = vec![sug("git status", 75, "ollama"), sug("git stash", 75, "ollama")];
    let s = suggest("git", SuggestStage::QueryAi, Some(ai));
    assert_eq!(s.iter().filter(|x| x.command == "git status").count(), 1);
    assert!(s.iter().any(|x| x.command == "git stash" && x.source == "ollama"));
    for i in 1..s.len() {
        assert!(s[i - 1].confidence >= s[i].confidence);
    }
}

#[test]
fn generate_url_drops_trailing_slashes() {
    assert_eq!(ollama_generate_url("http://127.0.0.1:11434//"), "http://127.0.0.1:11434/api/generate");
    assert_eq!(ollama_generate_url("http://h:1"), "http://h:1/api/generate");
}

#[test]
fn prompt_quotes_the_query() {
    let p = ollama_prompt("list files");
    assert!(p.starts_with("You are a shell assistant. Given this user intent or partial command: \"list files\""));
    assert!(p.ends_with("no numbering or explanation."));
}

#[test]
fn ollama_reply_lines_become_suggestions() {
    let r = parse_ollama_response("1. ls -la\n\n# comment\n2) git status  \n- pwd");
    let cmds: Vec<&str> = r.iter().map(|x| x.command.as_str()).collect();
    assert_eq!(cmds, vec!["ls -la", "git status", "pwd"]);
    assert!(r.iter().all(|x| x.confidence == 75 && x.source == "ollama"));
}

#[test]
fn test_suggest_ai_disabled() {
    let mut config = Config::default_with_shell(None);
    config.ai.enabled = false;
    let mut limiter = RateLimiter { last_request_ns: None };
    let stage = suggest_stage(&config, &mut limiter, 0);
    let suggestions = suggest("git", stage, None);
    assert!(!suggestions.is_empty());
    assert!(suggestions.iter().all(|s| s.source == "static"));
}

#[test]
fn test_suggest_auto_suggestions_disabled() {
    let mut config = Config::default_with_shell(None);
    config.ai.auto_suggestions = false;
    let mut limiter = RateLimiter { last_request_ns: None };
    let stage = suggest_stage(&config, &mut limiter, 0);
    let suggestions = suggest("git", stage, None);
    assert!(!suggestions.is_empty());
    assert!(suggestions.iter().all(|s| s.source == "static"));
}

#[test]
fn at_most_ten_requests_a_minute() {
    let mut l = RateLimiter { last_request_ns: None };
    let mut allowed = 0;
    let mut t: u64 = 0;
    while t < 60_000_000_000 {
        if check_rate_limit(&mut l, t) {
            allowed += 1;
        }
        t += 500_000_000;
    }
    assert_eq!(allowed, 10);
}

#[test]
fn rules_apply_to_the_lowercased_query() {
    let r = rule_suggestions("git st", "git st");
    assert_eq!(r.len(), 1);
    assert_eq!(r[0].command, "git status");
    assert_eq!(r[0].confidence, 95);
    let r = rule_suggestions("", "");
    assert_eq!(r.len(), 3);
    assert_eq!(r[0].command, "ls -la");
    let r = rule_suggestions("zz", "zz");
    assert_eq!(r.len(), 1);
    assert_eq!(r[0].command, "zz");
    assert_eq!(r[0].confidence, 50);
}
