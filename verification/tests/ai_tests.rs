use weft_terminal::ai::{contains_str, generate_automation_suggestions, AIEngine, AIEvent, ModelManager, ModelProvider};

#[test]
fn model_catalogue_defaults() {
    let m = ModelManager::new();
    assert_eq!(m.active_model, "llama2");
    assert_eq!(m.available_models.len(), 2);
    assert_eq!(m.available_models[1].name, "codellama");
    assert!(m.available_models[0].provider == ModelProvider::Ollama);
}

#[test]
fn preloaded_prefix_answers_as_stored() {
    let mut e = AIEngine::new();
    e.load_prediction_models();
    let p = e.generate_predictions("git st");
    let cmds: Vec<&str> = p.iter().map(|x| x.command.as_str()).collect();
    assert_eq!(cmds, vec!["git status", "git add .", "git commit -m"]);
    assert_eq!(p[0].confidence, 95);
    assert_eq!(p[0].tags, vec!["git".to_string(), "status".to_string()]);
}

#[test]
fn empty_line_gets_common_commands() {
    let e = AIEngine::new();
    let p = e.generate_predictions("  ");
    let cmds: Vec<&str> = p.iter().map(|x| x.command.as_str()).collect();
    assert_eq!(cmds, vec!["ls", "cd", "git status"]);
    assert!(e.generate_predictions("unknown cmd").is_empty());
}

#[test]
fn successful_commands_are_learnt_once() {
    let mut e = AIEngine::new();
    e.handle_event(&AIEvent::CommandExecuted { session_id: "s".to_string(), command: "make test".to_string(), exit_code: 0 });
    e.handle_event(&AIEvent::CommandExecuted { session_id: "s".to_string(), command: "make test".to_string(), exit_code: 0 });
    e.handle_event(&AIEvent::CommandExecuted { session_id: "s".to_string(), command: "make fail".to_string(), exit_code: 2 });
    let p = e.get_predictions("make");
    assert_eq!(p.len(), 1);
    assert_eq!(p[0].command, "make test");
    assert_eq!(p[0].confidence, 60);
    assert_eq!(p[0].tags, vec!["make".to_string()]);
}

#[test]
fn typed_input_is_cached_per_session() {
    let mut e = AIEngine::new();
    e.load_prediction_models();
    e.handle_command_input("s1", "docker");
    let p = e.get_predictions("s1:docker");
    assert_eq!(p.len(), 2);
    assert_eq!(p[0].command, "docker ps");
}

#[test]
fn automation_by_keywords() {
    let a = generate_automation_suggestions("please deploy and test it");
    let names: Vec<&str> = a.iter().map(|x| x.name.as_str()).collect();
    assert_eq!(names, vec!["Deploy Application", "Run Tests"]);
    assert_eq!(a[1].script, "cargo test && npm test");
    assert!(generate_automation_suggestions("nothing").is_empty());
    assert!(contains_str("abcdef", "cde"));
    assert!(!contains_str("abc", "abcd"));
    assert!(contains_str("abc", ""));
}
