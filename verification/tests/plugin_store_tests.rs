use weft_terminal::plugin_store::{
    ensure_installed, ensure_not_installed, ensure_source_dir, join_path, list_plugins, plugin_id_from_source,
    remove_plugin, set_enabled, validate_plugin, has_suspicious_url, is_native_library, PluginError, PluginFile,
    PluginManifestToml, PluginPaths, PluginStateFile,
};

fn items(names: &[&str]) -> Vec<(String, String)> {
    names.iter().map(|n| (n.to_string(), format!("/root/plugins/{}", n))).collect()
}

#[test]
fn install_list_remove_roundtrip() {
    let paths = PluginPaths::for_tests("/root");
    assert_eq!(paths.plugins_dir, "/root/plugins");
    assert_eq!(paths.state_file, "/root/plugin-state.toml");
    let manifest = PluginManifestToml { name: Some("demo-plugin".to_string()) };
    let id = plugin_id_from_source(Some(&manifest), Some("src-plugin".to_string()), "/root/src-plugin")
        .ok()
        .unwrap();
    assert_eq!(id, "demo-plugin");
    assert_eq!(paths.plugin_dir(&id), "/root/plugins/demo-plugin");

    let mut state = PluginStateFile { disabled: Vec::new() };
    let list = list_plugins(items(&["demo-plugin"]), &state);
    assert_eq!(list.len(), 1);
    assert!(list[0].enabled);

    set_enabled(&mut state, "demo-plugin", false);
    let list = list_plugins(items(&["demo-plugin"]), &state);
    assert!(!list[0].enabled);

    set_enabled(&mut state, "demo-plugin", true);
    let list = list_plugins(items(&["demo-plugin"]), &state);
    assert!(list[0].enabled);

    remove_plugin(&mut state, "demo-plugin");
    assert!(list_plugins(Vec::new(), &state).is_empty());
}

#[test]
fn disabling_twice_keeps_one_sorted_mention() {
    let mut state = PluginStateFile { disabled: vec!["zeta".to_string()] };
    set_enabled(&mut state, "alpha", false);
    set_enabled(&mut state, "alpha", false);
    assert_eq!(state.disabled, vec!["alpha".to_string(), "zeta".to_string()]);
    set_enabled(&mut state, "alpha", true);
    assert_eq!(state.disabled, vec!["zeta".to_string()]);
}

#[test]
fn listing_is_sorted_by_id() {
    let state = PluginStateFile { disabled: vec!["b".to_string()] };
    let list = list_plugins(items(&["c", "a", "b"]), &state);
    let ids: Vec<&str> = list.iter().map(|e| e.id.as_str()).collect();
    assert_eq!(ids, vec!["a", "b", "c"]);
    assert!(list[0].enabled && !list[1].enabled && list[2].enabled);
    assert_eq!(list[1].path, "/root/plugins/b");
}

#[test]
fn id_falls_back_to_directory_name() {
    let blank = PluginManifestToml { name: Some("   ".to_string()) };
    assert_eq!(plugin_id_from_source(Some(&blank), Some("dir".to_string()), "/s/dir").ok().unwrap(), "dir");
    assert_eq!(plugin_id_from_source(None, Some("dir".to_string()), "/s/dir").ok().unwrap(), "dir");
    let spaced = PluginManifestToml { name: Some("  nice  ".to_string()) };
    assert_eq!(plugin_id_from_source(Some(&spaced), None, "/s").ok().unwrap(), "nice");
    match plugin_id_from_source(None, None, "/") {
        Err(PluginError::CannotDeriveId { path }) => assert_eq!(path, "/"),
        _ => panic!("expected error"),
    }
}

#[test]
fn store_checks_refuse_bad_requests() {
    assert!(ensure_installed("x", true).is_ok());
    assert!(matches!(ensure_installed("x", false), Err(PluginError::NotFound { .. })));
    assert!(ensure_source_dir("/s", true).is_ok());
    assert!(matches!(ensure_source_dir("/s", false), Err(PluginError::NotADirectory { .. })));
    assert!(ensure_not_installed("x", "/p/x", false).is_ok());
    match ensure_not_installed("x", "/p/x", true) {
        Err(PluginError::AlreadyInstalled { id, dest }) => {
            assert_eq!(id, "x");
            assert_eq!(dest, "/p/x");
        }
        _ => panic!("expected already installed"),
    }
}

#[test]
fn paths_join_with_one_separator() {
    assert_eq!(join_path("/a/", "b"), "/a/b");
    assert_eq!(join_path("/a", "b"), "/a/b");
    assert_eq!(join_path("", "b"), "b");
}

fn file(path: &str, executable: bool) -> PluginFile {
    PluginFile { path: path.to_string(), executable }
}

#[test]
fn native_libraries_block_a_plugin() {
    assert!(is_native_library("lib/libx.so"));
    assert!(is_native_library("x.dll"));
    assert!(is_native_library("a/b/x.dylib"));
    assert!(!is_native_library("hooks/on_startup.sh"));
    assert!(!is_native_library("so"));
    let files = vec![file("plugin.toml", false), file("lib/a.so", false), file("b.dll", false)];
    match validate_plugin(&files, "") {
        Err(PluginError::NativeLibraryBlocked { path }) => assert_eq!(path, "lib/a.so"),
        _ => panic!("a native library must be refused"),
    }
}

#[test]
fn stray_executables_and_urls_are_reported() {
    let files = vec![
        file("plugin.toml", false),
        file("hooks/on_startup.sh", true),
        file("bin/tool", true),
        file("README.md", false),
    ];
    let report = validate_plugin(&files, "homepage = \"http://example.com/x\"").ok().unwrap();
    assert_eq!(report.stray_executables, vec!["bin/tool".to_string()]);
    assert!(report.suspicious_url);
    let report = validate_plugin(&files[..2].to_vec(), "url = \"http://localhost:8080\"").ok().unwrap();
    assert!(report.stray_executables.is_empty());
    assert!(!report.suspicious_url);
}

#[test]
fn only_plain_http_to_other_machines_is_suspicious() {
    assert!(has_suspicious_url("see http://evil.example"));
    assert!(!has_suspicious_url("see https://example.com"));
    assert!(!has_suspicious_url("http://127.0.0.1:11434/api"));
    assert!(!has_suspicious_url("http://localhost"));
    assert!(!has_suspicious_url(""));
    assert!(has_suspicious_url("http://localhost http://10.0.0.1"));
}

#[test]
fn setting_enabled_twice_is_like_once() {
    for enabled in [false, true] {
        let mut state = PluginStateFile { disabled: vec!["b".to_string(), "a".to_string(), "c".to_string()] };
        set_enabled(&mut state, "c", enabled);
        let once = state.disabled.clone();
        set_enabled(&mut state, "c", enabled);
        assert_eq!(state.disabled, once);
    }
}

#[test]
fn refusals_have_their_messages() {
    match ensure_installed("ghost", false) {
        Err(e) => assert_eq!(e.message(), "plugin not found: ghost"),
        Ok(()) => panic!("expected a refusal"),
    }
    assert_eq!(
        PluginError::NotADirectory { path: "/s".to_string() }.message(),
        "install source must be a directory: /s"
    );
    assert_eq!(
        PluginError::AlreadyInstalled { id: "p".to_string(), dest: "/d/p".to_string() }.message(),
        "plugin 'p' already installed at /d/p"
    );
    assert_eq!(
        PluginError::CannotDeriveId { path: "/".to_string() }.message(),
        "could not derive plugin id from /"
    );
    assert_eq!(
        PluginError::NativeLibraryBlocked { path: "a.so".to_string() }.message(),
        "native library not allowed in a plugin: a.so"
    );
}

#[test]
fn default_store_uses_data_and_config_directories() {
    let p = PluginPaths::default_xdg(Some("/c".to_string()), Some("/d".to_string()));
    assert_eq!(p.plugins_dir, "/d/weft/plugins");
    assert_eq!(p.state_file, "/c/weft/plugin-state.toml");
    let p = PluginPaths::default_xdg(None, None);
    assert_eq!(p.plugins_dir, "/tmp/weft/plugins");
    assert_eq!(p.state_file, "/tmp/weft/plugin-state.toml");
}
