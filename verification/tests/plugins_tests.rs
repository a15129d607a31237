use weft_terminal::plugins::{scan_entry, ScanTarget};
use weft_terminal::config::SecurityPolicy;
use weft_terminal::plugins::{
    check_plugin_dependencies, check_plugin_permissions, discover_plugin, hook_to_string, is_plugin_compatible,
    string_to_hook_id, Discovery, PluginHook, PluginManager, PluginManifest,
};

fn manifest(name: &str, version: &str, deps: &[&str], hooks: Vec<PluginHook>) -> PluginManifest {
    PluginManifest {
        name: name.to_string(),
        version: "1.0.0".to_string(),
        description: String::new(),
        author: String::new(),
        license: "MIT".to_string(),
        homepage: None,
        repository: None,
        weft_version: version.to_string(),
        permissions: Vec::new(),
        hooks,
        dependencies: deps.iter().map(|d| d.to_string()).collect(),
        entry_point: "libplugin.so".to_string(),
    }
}

#[test]
fn hook_names_round_trip() {
    let all = [
        PluginHook::PreCommand,
        PluginHook::PostCommand,
        PluginHook::OnStartup,
        PluginHook::OnShutdown,
        PluginHook::OnInput,
        PluginHook::OnOutput,
        PluginHook::OnSessionCreate,
        PluginHook::OnSessionClose,
    ];
    for (i, h) in all.iter().enumerate() {
        assert_eq!(string_to_hook_id(hook_to_string(*h)), i as u32);
    }
    assert_eq!(string_to_hook_id("on_nothing"), 999);
}

#[test]
fn compatibility_permissions_dependencies() {
    assert!(is_plugin_compatible(&manifest("p", "0.1.0", &[], vec![])));
    assert!(is_plugin_compatible(&manifest("p", "*", &[], vec![])));
    assert!(!is_plugin_compatible(&manifest("p", "0.2.0", &[], vec![])));
    let trusted = vec!["p".to_string()];
    let m = manifest("p", "*", &["base"], vec![]);
    assert!(check_plugin_permissions(SecurityPolicy::AllowAll, &Vec::new(), &m));
    assert!(check_plugin_permissions(SecurityPolicy::AllowTrusted, &trusted, &m));
    assert!(!check_plugin_permissions(SecurityPolicy::AllowTrusted, &Vec::new(), &m));
    assert!(!check_plugin_permissions(SecurityPolicy::Prompt, &trusted, &m));
    assert!(!check_plugin_permissions(SecurityPolicy::DenyAll, &trusted, &m));
    assert!(!check_plugin_dependencies(&m, &Vec::new()));
    assert!(check_plugin_dependencies(&m, &vec!["base".to_string()]));
}

#[test]
fn discovery_runs_the_checks_in_order() {
    let trusted = vec!["p".to_string()];
    let loaded = vec!["base".to_string()];
    let old = manifest("p", "9", &[], vec![]);
    assert!(discover_plugin(&old, SecurityPolicy::AllowAll, &trusted, &loaded, true) == Discovery::Incompatible);
    let m = manifest("p", "0.1.0", &["base"], vec![]);
    assert!(discover_plugin(&m, SecurityPolicy::DenyAll, &trusted, &loaded, true) == Discovery::PermissionDenied);
    assert!(discover_plugin(&m, SecurityPolicy::AllowAll, &trusted, &Vec::new(), true) == Discovery::MissingDependencies);
    assert!(discover_plugin(&m, SecurityPolicy::AllowAll, &trusted, &loaded, true) == Discovery::Discovered { load: true });
    assert!(discover_plugin(&m, SecurityPolicy::AllowAll, &Vec::new(), &loaded, true) == Discovery::Discovered { load: false });
}

#[test]
fn registry_enables_disables_and_targets_hooks() {
    let mut pm = PluginManager::new();
    pm.insert("a".to_string(), manifest("a", "*", &[], vec![PluginHook::OnStartup]), 1);
    pm.insert("b".to_string(), manifest("b", "*", &[], vec![PluginHook::OnStartup, PluginHook::OnInput]), 2);
    assert_eq!(pm.hook_targets("on_startup"), vec!["a".to_string(), "b".to_string()]);
    assert!(pm.disable_plugin("a").is_ok());
    assert_eq!(pm.hook_targets("on_startup"), vec!["b".to_string()]);
    assert_eq!(pm.hook_targets("on_input"), vec!["b".to_string()]);
    match pm.enable_plugin("zzz") {
        Err(e) => assert_eq!(e.name, "zzz"),
        Ok(_) => panic!("expected not found"),
    }
    let list = pm.list_plugins();
    assert_eq!(list.len(), 2);
    assert!(!list[0].enabled && list[1].enabled);
    assert_eq!(list[1].last_execution, Some(2));
    assert!(pm.unload_plugin("a").is_some());
    assert!(pm.unload_plugin("a").is_none());
    assert_eq!(pm.loaded_plugin_names(), vec!["b".to_string()]);
}

#[test]
fn scanning_takes_manifest_dirs_and_weft_files() {
    assert!(scan_entry(true, true, None) == ScanTarget::PluginDir);
    assert!(scan_entry(true, false, Some("weft")) == ScanTarget::Skip);
    assert!(scan_entry(false, false, Some("weft")) == ScanTarget::ParentOfFile);
    assert!(scan_entry(false, true, Some("so")) == ScanTarget::Skip);
    assert!(scan_entry(false, false, None) == ScanTarget::Skip);
}
