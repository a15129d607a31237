//! Dynamic plugins: their manifests, the hooks they answer, the checks a plugin passes
//! before it is loaded and the registry of loaded plugins. Loading libraries and calling
//! into them is the caller's.
use vstd::prelude::*;
use crate::config::SecurityPolicy;
use crate::text::str_eq;

verus! {

#[derive(Debug, Clone)]
pub enum PluginPermission {
    FileSystem { read: bool, write: bool },
    Network { domains: Vec<String> },
    System { commands: Vec<String> },
    Terminal { sessions: bool, input: bool, output: bool },
    AI { predictions: bool, training: bool },
}

#[derive(Debug, Clone, Copy, PartialEq, Eq, Structural)]
pub enum PluginHook {
    PreCommand,
    PostCommand,
    OnStartup,
    OnShutdown,
    OnInput,
    OnOutput,
    OnSessionCreate,
    OnSessionClose,
}

/// What `plugin.toml` describes.
#[derive(Debug)]
pub struct PluginManifest {
    pub name: String,
    pub version: String,
    pub description: String,
    pub author: String,
    pub license: String,
    pub homepage: Option<String>,
    pub repository: Option<String>,
    pub weft_version: String,
    pub permissions: Vec<PluginPermission>,
    pub hooks: Vec<PluginHook>,
    pub dependencies: Vec<String>,
    pub entry_point: String,
}

/// The outcome of looking at a plugin found on disk.
#[derive(Debug, Clone, Copy, PartialEq, Eq, Structural)]
pub enum Discovery {
    /// Written for another version of the terminal.
    Incompatible,
    /// The security policy refuses it.
    PermissionDenied,
    /// A plugin it needs is not loaded.
    MissingDependencies,
    /// Accepted; `load` says whether it is loaded now.
    Discovered { load: bool },
}

/// What an entry of a plugin directory is looked at as.
#[derive(Debug, Clone, Copy, PartialEq, Eq, Structural)]
pub enum ScanTarget {
    /// Neither a plugin directory nor a plugin file.
    Skip,
    /// A directory holding `plugin.toml`: the plugin is that directory.
    PluginDir,
    /// A `.weft` file: the plugin is the directory that holds it.
    ParentOfFile,
}

/// A loaded plugin; `last_activity` in milliseconds since the Unix epoch.
#[derive(Debug)]
pub struct LoadedPlugin {
    pub name: String,
    pub manifest: PluginManifest,
    pub enabled: bool,
    pub last_activity: i64,
}

/// What is listed of a loaded plugin.
#[derive(Debug)]
pub struct PluginStatus {
    pub name: String,
    pub loaded: bool,
    pub enabled: bool,
    pub last_execution: Option<i64>,
}

/// The named plugin is not loaded.
#[derive(Debug, Clone)]
pub struct PluginNotFound {
    pub name: String,
}

/// The loaded plugins by name, in the order they were loaded.
#[derive(Debug)]
pub struct PluginManager {
    pub plugins: Vec<LoadedPlugin>,
}

/// The name a hook is called by.
pub open spec fn hook_name(h: PluginHook) -> Seq<char> {
    match h {
        PluginHook::PreCommand => "pre_command"@,
        PluginHook::PostCommand => "post_command"@,
        PluginHook::OnStartup => "on_startup"@,
        PluginHook::OnShutdown => "on_shutdown"@,
        PluginHook::OnInput => "on_input"@,
        PluginHook::OnOutput => "on_output"@,
        PluginHook::OnSessionCreate => "on_session_create"@,
        PluginHook::OnSessionClose => "on_session_close"@,
    }
}

/// The number a hook is passed to a plugin as.
pub open spec fn hook_index(h: PluginHook) -> u32 {
    match h {
        PluginHook::PreCommand => 0,
        PluginHook::PostCommand => 1,
        PluginHook::OnStartup => 2,
        PluginHook::OnShutdown => 3,
        PluginHook::OnInput => 4,
        PluginHook::OnOutput => 5,
        PluginHook::OnSessionCreate => 6,
        PluginHook::OnSessionClose => 7,
    }
}

/// The number for a hook name, 999 for a name that is no hook's.
pub open spec fn hook_id_spec(name: Seq<char>) -> u32 {
    if name == "pre_command"@ {
        0
    } else if name == "post_command"@ {
        1
    } else if name == "on_startup"@ {
        2
    } else if name == "on_shutdown"@ {
        3
    } else if name == "on_input"@ {
        4
    } else if name == "on_output"@ {
        5
    } else if name == "on_session_create"@ {
        6
    } else if name == "on_session_close"@ {
        7
    } else {
        999
    }
}

pub open spec fn seq_has(s: Seq<Seq<char>>, x: Seq<char>) -> bool {
    exists|i: int| 0 <= i < s.len() && s[i] == x
}

pub open spec fn strs(v: Seq<String>) -> Seq<Seq<char>> {
    v.map_values(|s: String| s@)
}

pub open spec fn compatible(m: PluginManifest) -> bool {
    m.weft_version@ == "0.1.0"@ || m.weft_version@ == "*"@
}

pub open spec fn permitted(policy: SecurityPolicy, trusted: Seq<Seq<char>>, name: Seq<char>) -> bool {
    match policy {
        SecurityPolicy::AllowAll => true,
        SecurityPolicy::AllowTrusted => seq_has(trusted, name),
        SecurityPolicy::Prompt => false,
        SecurityPolicy::DenyAll => false,
    }
}

pub open spec fn dependencies_met(deps: Seq<Seq<char>>, loaded: Seq<Seq<char>>) -> bool {
    forall|i: int| 0 <= i < deps.len() ==> seq_has(loaded, #[trigger] deps[i])
}

pub open spec fn discovery_spec(
    m: PluginManifest,
    policy: SecurityPolicy,
    trusted: Seq<Seq<char>>,
    loaded: Seq<Seq<char>>,
    auto_load: bool,
) -> Discovery {
    if !compatible(m) {
        Discovery::Incompatible
    } else if !permitted(policy, trusted, m.name@) {
        Discovery::PermissionDenied
    } else if !dependencies_met(strs(m.dependencies@), loaded) {
        Discovery::MissingDependencies
    } else {
        Discovery::Discovered { load: auto_load && seq_has(trusted, m.name@) }
    }
}

/// First plugin at or after `i` named `name` (or the length).
pub open spec fn find_plugin(p: Seq<LoadedPlugin>, name: Seq<char>, i: int) -> int
    decreases p.len() - i,
{
    if 0 <= i < p.len() && p[i].name@ != name {
        find_plugin(p, name, i + 1)
    } else if i < 0 {
        p.len() as int
    } else {
        i
    }
}

pub open spec fn loaded_names(p: Seq<LoadedPlugin>) -> Seq<Seq<char>> {
    p.map_values(|x: LoadedPlugin| x.name@)
}

/// The plugin answers the hook called `hook`.
pub open spec fn answers(m: PluginManifest, hook: Seq<char>) -> bool {
    exists|i: int| 0 <= i < m.hooks@.len() && hook_name(#[trigger] m.hooks@[i]) == hook
}

/// The enabled plugins that answer `hook`, in order.
pub open spec fn hook_targets_spec(p: Seq<LoadedPlugin>, hook: Seq<char>) -> Seq<Seq<char>>
    decreases p.len(),
{
    if p.len() == 0 {
        seq![]
    } else if p.last().enabled && answers(p.last().manifest, hook) {
        hook_targets_spec(p.drop_last(), hook).push(p.last().name@)
    } else {
        hook_targets_spec(p.drop_last(), hook)
    }
}

/// The plugins other than `idx` are as they were.
pub open spec fn others_same(a: Seq<LoadedPlugin>, b: Seq<LoadedPlugin>, idx: int) -> bool {
    &&& a.len() == b.len()
    &&& forall|k: int| 0 <= k < a.len() && k != idx ==> #[trigger] b[k] == a[k]
}

/// The name a hook is called by.
pub fn hook_to_string(hook: PluginHook) -> (r: &'static str)
    ensures
        r@ == hook_name(hook),
{
    match hook {
        PluginHook::PreCommand => "pre_command",
        PluginHook::PostCommand => "post_command",
        PluginHook::OnStartup => "on_startup",
        PluginHook::OnShutdown => "on_shutdown",
        PluginHook::OnInput => "on_input",
        PluginHook::OnOutput => "on_output",
        PluginHook::OnSessionCreate => "on_session_create",
        PluginHook::OnSessionClose => "on_session_close",
    }
}

/// The number a named hook is passed as; 999 for an unknown name.
pub fn string_to_hook_id(name: &str) -> (r: u32)
    ensures
        r == hook_id_spec(name@),
{
    if str_eq(name, "pre_command") {
        0
    } else if str_eq(name, "post_command") {
        1
    } else if str_eq(name, "on_startup") {
        2
    } else if str_eq(name, "on_shutdown") {
        3
    } else if str_eq(name, "on_input") {
        4
    } else if str_eq(name, "on_output") {
        5
    } else if str_eq(name, "on_session_create") {
        6
    } else if str_eq(name, "on_session_close") {
        7
    } else {
        999
    }
}

/// Each hook's name gives back its number, so no two hooks share a name.
pub proof fn lemma_hook_name_round_trip(h: PluginHook)
    ensures
        hook_id_spec(hook_name(h)) == hook_index(h),
{
    reveal_strlit("pre_command");
    reveal_strlit("post_command");
    reveal_strlit("on_startup");
    reveal_strlit("on_shutdown");
    reveal_strlit("on_input");
    reveal_strlit("on_output");
    reveal_strlit("on_session_create");
    reveal_strlit("on_session_close");
    match h {
        PluginHook::PreCommand => {

        },
        PluginHook::PostCommand => {
            assert("post_command"@.len() != "pre_command"@.len());
        },
        PluginHook::OnStartup => {
            assert("on_startup"@.len() != "pre_command"@.len());
            assert("on_startup"@.len() != "post_command"@.len());
        },
        PluginHook::OnShutdown => {
            assert("on_shutdown"@[0] != "pre_command"@[0]);
            assert("on_shutdown"@.len() != "post_command"@.len());
            assert("on_shutdown"@.len() != "on_startup"@.len());
        },
        PluginHook::OnInput => {
            assert("on_input"@.len() != "pre_command"@.len());
            assert("on_input"@.len() != "post_command"@.len());
            assert("on_input"@.len() != "on_startup"@.len());
            assert("on_input"@.len() != "on_shutdown"@.len());
        },
        PluginHook::OnOutput => {
            assert("on_output"@.len() != "pre_command"@.len());
            assert("on_output"@.len() != "post_command"@.len());
            assert("on_output"@.len() != "on_startup"@.len());
            assert("on_output"@.len() != "on_shutdown"@.len());
            assert("on_output"@.len() != "on_input"@.len());
        },
        PluginHook::OnSessionCreate => {
            assert("on_session_create"@.len() != "pre_command"@.len());
            assert("on_session_create"@.len() != "post_command"@.len());
            assert("on_session_create"@.len() != "on_startup"@.len());
            assert("on_session_create"@.len() != "on_shutdown"@.len());
            assert("on_session_create"@.len() != "on_input"@.len());
            assert("on_session_create"@.len() != "on_output"@.len());
        },
        PluginHook::OnSessionClose => {
            assert("on_session_close"@.len() != "pre_command"@.len());
            assert("on_session_close"@.len() != "post_command"@.len());
            assert("on_session_close"@.len() != "on_startup"@.len());
            assert("on_session_close"@.len() != "on_shutdown"@.len());
            assert("on_session_close"@.len() != "on_input"@.len());
            assert("on_session_close"@.len() != "on_output"@.len());
            assert("on_session_close"@.len() != "on_session_create"@.len());
        },
    }
}

fn contains_string(v: &Vec<String>, x: &str) -> (r: bool)
    ensures
        r == seq_has(strs(v@), x@),
{
    let mut i: usize = 0;
    while i < v.len()
        invariant
            i <= v@.len(),
            forall|j: int| 0 <= j < i ==> strs(v@)[j] != x@,
        decreases v@.len() - i,
    {
        if str_eq(v[i].as_str(), x) {
            assert(strs(v@)[i as int] == x@);
            return true;
        }
        i = i + 1;
    }
    false
}

/// The plugin was written for this version of the terminal (or for any).
pub fn is_plugin_compatible(manifest: &PluginManifest) -> (r: bool)
    ensures
        r == compatible(*manifest),
{
    str_eq(manifest.weft_version.as_str(), "0.1.0") || str_eq(manifest.weft_version.as_str(), "*")
}

/// Whether the policy lets the plugin in: all, only trusted ones, or none (a prompt is
/// never answered yes).
pub fn check_plugin_permissions(policy: SecurityPolicy, trusted_plugins: &Vec<String>, manifest: &PluginManifest) -> (r: bool)
    ensures
        r == permitted(policy, strs(trusted_plugins@), manifest.name@),
{
    match policy {
        SecurityPolicy::AllowAll => true,
        SecurityPolicy::AllowTrusted => contains_string(trusted_plugins, manifest.name.as_str()),
        SecurityPolicy::Prompt => false,
        SecurityPolicy::DenyAll => false,
    }
}

/// Every plugin the manifest depends on is loaded.
pub fn check_plugin_dependencies(manifest: &PluginManifest, loaded: &Vec<String>) -> (r: bool)
    ensures
        r == dependencies_met(strs(manifest.dependencies@), strs(loaded@)),
{
    let deps = &manifest.dependencies;
    let mut i: usize = 0;
    while i < deps.len()
        invariant
            i <= deps@.len(),
            deps == &manifest.dependencies,
            forall|j: int| 0 <= j < i ==> seq_has(strs(loaded@), #[trigger] strs(deps@)[j]),
        decreases deps@.len() - i,
    {
        if !contains_string(loaded, deps[i].as_str()) {
            assert(!seq_has(strs(loaded@), strs(deps@)[i as int]));
            return false;
        }
        i = i + 1;
    }
    true
}

/// The checks a plugin found on disk goes through, in order: version, policy, dependencies;
/// an accepted plugin is loaded now when auto-loading is on and it is trusted.
pub fn discover_plugin(
    manifest: &PluginManifest,
    policy: SecurityPolicy,
    trusted_plugins: &Vec<String>,
    loaded: &Vec<String>,
    auto_load: bool,
) -> (r: Discovery)
    ensures
        r == discovery_spec(*manifest, policy, strs(trusted_plugins@), strs(loaded@), auto_load),
{
    if !is_plugin_compatible(manifest) {
        Discovery::Incompatible
    } else if !check_plugin_permissions(policy, trusted_plugins, manifest) {
        Discovery::PermissionDenied
    } else if !check_plugin_dependencies(manifest, loaded) {
        Discovery::MissingDependencies
    } else {
        Discovery::Discovered { load: auto_load && contains_string(trusted_plugins, manifest.name.as_str()) }
    }
}

/// How a directory entry is scanned: a directory counts when it has a manifest, a file when
/// its extension is `weft`.
pub fn scan_entry(is_dir: bool, has_manifest: bool, extension: Option<&str>) -> (r: ScanTarget)
    ensures
        r == if is_dir {
            if has_manifest {
                ScanTarget::PluginDir
            } else {
                ScanTarget::Skip
            }
        } else {
            match extension {
                Some(e) => if e@ == "weft"@ {
                    ScanTarget::ParentOfFile
                } else {
                    ScanTarget::Skip
                },
                None => ScanTarget::Skip,
            }
        },
{
    if is_dir {
        if has_manifest {
            ScanTarget::PluginDir
        } else {
            ScanTarget::Skip
        }
    } else {
        match extension {
            Some(e) => if str_eq(e, "weft") {
                ScanTarget::ParentOfFile
            } else {
                ScanTarget::Skip
            },
            None => ScanTarget::Skip,
        }
    }
}

impl PluginManager {
    pub fn new() -> (r: PluginManager)
        ensures
            r.plugins@.len() == 0,
    {
        PluginManager { plugins: Vec::new() }
    }

    pub fn plugin_index(&self, name: &str) -> (r: usize)
        ensures
            r == find_plugin(self.plugins@, name@, 0),
            r <= self.plugins@.len(),
            r < self.plugins@.len() ==> self.plugins@[r as int].name@ == name@,
    {
        let mut i: usize = 0;
        while i < self.plugins.len()
            invariant
                i <= self.plugins@.len(),
                find_plugin(self.plugins@, name@, 0) == find_plugin(self.plugins@, name@, i as int),
            decreases self.plugins@.len() - i,
        {
            if str_eq(self.plugins[i].name.as_str(), name) {
                return i;
            }
            i = i + 1;
        }
        i
    }

    /// The names of the loaded plugins.
    pub fn loaded_plugin_names(&self) -> (r: Vec<String>)
        ensures
            strs(r@) == loaded_names(self.plugins@),
    {
        let mut r: Vec<String> = Vec::new();
        let mut i: usize = 0;
        while i < self.plugins.len()
            invariant
                i <= self.plugins@.len(),
                strs(r@) == loaded_names(self.plugins@).take(i as int),
            decreases self.plugins@.len() - i,
        {
            let ghost before = r@;
            let n = self.plugins[i].name.clone();
            r.push(n);
            assert(strs(r@) =~= strs(before).push(n@));
            assert(loaded_names(self.plugins@).take(i + 1) =~= loaded_names(self.plugins@).take(i as int).push(n@));
            i = i + 1;
        }
        assert(loaded_names(self.plugins@).take(i as int) =~= loaded_names(self.plugins@));
        r
    }

    /// Registers a plugin that was loaded, enabled; it replaces one of the same name.
    pub fn insert(&mut self, name: String, manifest: PluginManifest, now: i64)
        ensures
            ({
                let idx = find_plugin(old(self).plugins@, name@, 0);
                let p = LoadedPlugin { name, manifest, enabled: true, last_activity: now };
                final(self).plugins@ == if idx < old(self).plugins@.len() {
                    old(self).plugins@.update(idx, p)
                } else {
                    old(self).plugins@.push(p)
                }
            }),
    {
        let idx = self.plugin_index(name.as_str());
        let p = LoadedPlugin { name, manifest, enabled: true, last_activity: now };
        if idx < self.plugins.len() {
            self.plugins.set(idx, p);
        } else {
            self.plugins.push(p);
        }
    }

    /// Takes a plugin out of the registry and gives it back, for it to be shut down.
    pub fn unload_plugin(&mut self, name: &str) -> (r: Option<LoadedPlugin>)
        ensures
            ({
                let idx = find_plugin(old(self).plugins@, name@, 0);
                if idx < old(self).plugins@.len() {
                    r == Some(old(self).plugins@[idx]) && final(self).plugins@ == old(self).plugins@.remove(idx)
                } else {
                    r is None && final(self).plugins@ == old(self).plugins@
                }
            }),
    {
        let idx = self.plugin_index(name);
        if idx < self.plugins.len() {
            Some(self.plugins.remove(idx))
        } else {
            None
        }
    }

    fn set_enabled(&mut self, name: &str, enabled: bool) -> (r: Result<(), PluginNotFound>)
        ensures
            ({
                let idx = find_plugin(old(self).plugins@, name@, 0);
                &&& others_same(old(self).plugins@, final(self).plugins@, idx)
                &&& idx < old(self).plugins@.len() ==> {
                    &&& r is Ok
                    &&& final(self).plugins@[idx].enabled == enabled
                    &&& final(self).plugins@[idx].name == old(self).plugins@[idx].name
                    &&& final(self).plugins@[idx].manifest == old(self).plugins@[idx].manifest
                    &&& final(self).plugins@[idx].last_activity == old(self).plugins@[idx].last_activity
                }
                &&& idx == old(self).plugins@.len() ==> (r matches Err(e) && e.name@ == name@)
            }),
    {
        let idx = self.plugin_index(name);
        if idx < self.plugins.len() {
            let mut plugins = Vec::new();
            std::mem::swap(&mut plugins, &mut self.plugins);
            let mut p = plugins.remove(idx);
            p.enabled = enabled;
            plugins.insert(idx, p);
            assert(forall|k: int| 0 <= k < plugins@.len() && k != idx ==> plugins@[k] == old(self).plugins@[k]);
            self.plugins = plugins;
            assert(others_same(old(self).plugins@, self.plugins@, idx as int));
            Ok(())
        } else {
            Err(PluginNotFound { name: String::from_str(name) })
        }
    }

    /// Turns a loaded plugin on; an unknown name is an error.
    pub fn enable_plugin(&mut self, name: &str) -> (r: Result<(), PluginNotFound>)
        ensures
            ({
                let idx = find_plugin(old(self).plugins@, name@, 0);
                &&& others_same(old(self).plugins@, final(self).plugins@, idx)
                &&& idx < old(self).plugins@.len() ==> r is Ok && final(self).plugins@[idx].enabled
                    && final(self).plugins@[idx].name == old(self).plugins@[idx].name
                &&& idx == old(self).plugins@.len() ==> (r matches Err(e) && e.name@ == name@)
            }),
    {
        self.set_enabled(name, true)
    }

    /// Turns a loaded plugin off; an unknown name is an error.
    pub fn disable_plugin(&mut self, name: &str) -> (r: Result<(), PluginNotFound>)
        ensures
            ({
                let idx = find_plugin(old(self).plugins@, name@, 0);
                &&& others_same(old(self).plugins@, final(self).plugins@, idx)
                &&& idx < old(self).plugins@.len() ==> r is Ok && !final(self).plugins@[idx].enabled
                    && final(self).plugins@[idx].name == old(self).plugins@[idx].name
                &&& idx == old(self).plugins@.len() ==> (r matches Err(e) && e.name@ == name@)
            }),
    {
        self.set_enabled(name, false)
    }

    fn answers_exec(manifest: &PluginManifest, hook: &str) -> (r: bool)
        ensures
            r == answers(*manifest, hook@),
    {
        let mut i: usize = 0;
        while i < manifest.hooks.len()
            invariant
                i <= manifest.hooks@.len(),
                forall|j: int| 0 <= j < i ==> hook_name(#[trigger] manifest.hooks@[j]) != hook@,
            decreases manifest.hooks@.len() - i,
        {
            if str_eq(hook_to_string(manifest.hooks[i]), hook) {
                return true;
            }
            i = i + 1;
        }
        false
    }

    /// The enabled plugins that answer the hook called `hook`, in order.
    pub fn hook_targets(&self, hook: &str) -> (r: Vec<String>)
        ensures
            strs(r@) == hook_targets_spec(self.plugins@, hook@),
    {
        let mut r: Vec<String> = Vec::new();
        let mut i: usize = 0;
        while i < self.plugins.len()
            invariant
                i <= self.plugins@.len(),
                strs(r@) == hook_targets_spec(self.plugins@.take(i as int), hook@),
            decreases self.plugins@.len() - i,
        {
            assert(self.plugins@.take(i + 1).drop_last() =~= self.plugins@.take(i as int));
            let p = &self.plugins[i];
            if p.enabled && Self::answers_exec(&p.manifest, hook) {
                let ghost before = r@;
                let n = p.name.clone();
                r.push(n);
                assert(strs(r@) =~= strs(before).push(n@));
            }
            i = i + 1;
        }
        assert(self.plugins@.take(i as int) =~= self.plugins@);
        r
    }

    /// What is listed of each loaded plugin, in order.
    pub fn list_plugins(&self) -> (r: Vec<PluginStatus>)
        ensures
            r@.len() == self.plugins@.len(),
            forall|i: int| 0 <= i < r@.len() ==> {
                &&& (#[trigger] r@[i]).name@ == self.plugins@[i].name@
                &&& r@[i].loaded
                &&& r@[i].enabled == self.plugins@[i].enabled
                &&& r@[i].last_execution == Some(self.plugins@[i].last_activity)
            },
    {
        let mut r: Vec<PluginStatus> = Vec::new();
        let mut i: usize = 0;
        while i < self.plugins.len()
            invariant
                i <= self.plugins@.len(),
                r@.len() == i,
                forall|j: int| 0 <= j < i ==> {
                    &&& (#[trigger] r@[j]).name@ == self.plugins@[j].name@
                    &&& r@[j].loaded
                    &&& r@[j].enabled == self.plugins@[j].enabled
                    &&& r@[j].last_execution == Some(self.plugins@[j].last_activity)
                },
            decreases self.plugins@.len() - i,
        {
            let p = &self.plugins[i];
            r.push(
                PluginStatus {
                    name: p.name.clone(),
                    loaded: true,
                    enabled: p.enabled,
                    last_execution: Some(p.last_activity),
                },
            );
            i = i + 1;
        }
        r
    }
}

} // verus!
