//! Plugin registry: where plugins live, which are disabled, and how entries are listed.
//!
//! The file system is read and written by the caller; this module decides what to read,
//! what to write, and what the listing says.
use vstd::prelude::*;
use crate::ai::piece_at;
use crate::config_simple::{default_plugins_dir_spec, opt_view, Config};
use crate::text::{
    chars_of, is_blank, is_blank_seq, lemma_seq_lt_asymmetric, lemma_seq_lt_transitive, seq_lt, starts_with,
    str_eq, str_lt, trim, trim_seq,
};

verus! {

/// Where plugins are installed and where the enabled/disabled state is kept.
#[derive(Debug, Clone)]
pub struct PluginPaths {
    pub plugins_dir: String,
    pub state_file: String,
}

/// The part of `plugin.toml` that names a plugin.
#[derive(Debug, Clone)]
pub struct PluginManifestToml {
    pub name: Option<String>,
}

/// One installed plugin.
#[derive(Debug, Clone)]
pub struct PluginEntry {
    pub id: String,
    pub path: String,
    pub enabled: bool,
}

/// The persisted plugin state: the ids of disabled plugins.
#[derive(Debug, Clone)]
pub struct PluginStateFile {
    pub disabled: Vec<String>,
}

/// Why a plugin operation was refused.
#[derive(Debug, Clone)]
pub enum PluginError {
    NotFound { id: String },
    NotADirectory { path: String },
    AlreadyInstalled { id: String, dest: String },
    CannotDeriveId { path: String },
    NativeLibraryBlocked { path: String },
}

/// The message that a refusal displays.
pub open spec fn plugin_error_message(e: PluginError) -> Seq<char> {
    match e {
        PluginError::NotFound { id } => "plugin not found: "@ + id@,
        PluginError::NotADirectory { path } => "install source must be a directory: "@ + path@,
        PluginError::AlreadyInstalled { id, dest } => "plugin '"@ + id@ + "' already installed at "@
            + dest@,
        PluginError::CannotDeriveId { path } => "could not derive plugin id from "@ + path@,
        PluginError::NativeLibraryBlocked { path } => "native library not allowed in a plugin: "@
            + path@,
    }
}

impl PluginError {
    pub fn message(&self) -> (r: String)
        ensures
            r@ == plugin_error_message(*self),
    {
        match self {
            PluginError::NotFound { id } => {
                let mut m = String::from_str("plugin not found: ");
                m.append(id.as_str());
                m
            },
            PluginError::NotADirectory { path } => {
                let mut m = String::from_str("install source must be a directory: ");
                m.append(path.as_str());
                m
            },
            PluginError::AlreadyInstalled { id, dest } => {
                let mut m = String::from_str("plugin '");
                m.append(id.as_str());
                m.append("' already installed at ");
                m.append(dest.as_str());
                m
            },
            PluginError::CannotDeriveId { path } => {
                let mut m = String::from_str("could not derive plugin id from ");
                m.append(path.as_str());
                m
            },
            PluginError::NativeLibraryBlocked { path } => {
                let mut m = String::from_str("native library not allowed in a plugin: ");
                m.append(path.as_str());
                m
            },
        }
    }
}

/// A file found in a plugin's source directory: its path below that directory, with `/`
/// between components, and whether any execute permission is set on it.
#[derive(Debug, Clone)]
pub struct PluginFile {
    pub path: String,
    pub executable: bool,
}

/// What the security check warns of in a plugin that it lets through.
#[derive(Debug, Clone)]
pub struct SecurityReport {
    pub stray_executables: Vec<String>,
    pub suspicious_url: bool,
}

/// An entry as mathematical values.
pub struct EntryView {
    pub id: Seq<char>,
    pub path: Seq<char>,
    pub enabled: bool,
}

impl View for PluginEntry {
    type V = EntryView;

    open spec fn view(&self) -> EntryView {
        EntryView { id: self.id@, path: self.path@, enabled: self.enabled }
    }
}

pub open spec fn entry_views(v: Seq<PluginEntry>) -> Seq<EntryView> {
    v.map_values(|e: PluginEntry| e@)
}

pub open spec fn str_views(v: Seq<String>) -> Seq<Seq<char>> {
    v.map_values(|s: String| s@)
}

pub open spec fn file_views(v: Seq<PluginFile>) -> Seq<(Seq<char>, bool)> {
    v.map_values(|f: PluginFile| (f.path@, f.executable))
}

/// `p` occurs in `s` at `i`, within its bounds.
pub open spec fn piece_fits(s: Seq<char>, p: Seq<char>, i: int) -> bool {
    0 <= i && i + p.len() <= s.len() && piece_at(s, p, i)
}

/// A native library: a file whose name ends in `.so`, `.dll` or `.dylib`.
pub open spec fn native_library(path: Seq<char>) -> bool {
    ||| piece_fits(path, ".so"@, path.len() - ".so"@.len())
    ||| piece_fits(path, ".dll"@, path.len() - ".dll"@.len())
    ||| piece_fits(path, ".dylib"@, path.len() - ".dylib"@.len())
}

/// An executable file outside the plugin's `hooks/` directory.
pub open spec fn stray_executable(f: (Seq<char>, bool)) -> bool {
    f.1 && !"hooks/"@.is_prefix_of(f.0)
}

/// The paths of the native libraries among `files`, in order.
pub open spec fn native_paths(files: Seq<(Seq<char>, bool)>) -> Seq<Seq<char>>
    decreases files.len(),
{
    if files.len() == 0 {
        Seq::empty()
    } else if native_library(files.last().0) {
        native_paths(files.drop_last()).push(files.last().0)
    } else {
        native_paths(files.drop_last())
    }
}

/// The paths of the stray executables among `files`, in order.
pub open spec fn stray_paths(files: Seq<(Seq<char>, bool)>) -> Seq<Seq<char>>
    decreases files.len(),
{
    if files.len() == 0 {
        Seq::empty()
    } else if stray_executable(files.last()) {
        stray_paths(files.drop_last()).push(files.last().0)
    } else {
        stray_paths(files.drop_last())
    }
}

/// An `http://` address starts at `i` that is neither `localhost` nor `127.0.0.1`.
pub open spec fn suspicious_at(text: Seq<char>, i: int) -> bool {
    &&& piece_fits(text, "http://"@, i)
    &&& !piece_fits(text, "http://localhost"@, i)
    &&& !piece_fits(text, "http://127.0.0.1"@, i)
}

/// The text holds a plain-HTTP address of another machine.
pub open spec fn suspicious_url(text: Seq<char>) -> bool {
    exists|i: int| 0 <= i < text.len() && #[trigger] suspicious_at(text, i)
}

/// `Path::join` with a relative component: a separator is put between unless `base` is empty
/// or already ends with one.
pub open spec fn join_spec(base: Seq<char>, name: Seq<char>) -> Seq<char> {
    if base.len() == 0 || base.last() == '/' {
        base + name
    } else {
        base + seq!['/'] + name
    }
}

/// First index at or after `k` whose text orders after `x` (or the length).
pub open spec fn first_after(s: Seq<Seq<char>>, x: Seq<char>, k: int) -> int
    decreases s.len() - k,
{
    if 0 <= k < s.len() && !seq_lt(x, s[k]) {
        first_after(s, x, k + 1)
    } else {
        k
    }
}

/// Sorting texts in `str`'s order (insertion after equal elements).
pub open spec fn sort_strs(s: Seq<Seq<char>>) -> Seq<Seq<char>>
    decreases s.len(),
{
    if s.len() == 0 {
        s
    } else {
        let p = sort_strs(s.drop_last());
        let k = first_after(p, s.last(), 0);
        p.take(k) + seq![s.last()] + p.skip(k)
    }
}

/// The ids of a sequence of entries.
pub open spec fn ids(s: Seq<EntryView>) -> Seq<Seq<char>> {
    s.map_values(|e: EntryView| e.id)
}

/// First index at or after `k` whose id orders after `x` (or the length).
pub open spec fn first_entry_after(s: Seq<EntryView>, x: Seq<char>, k: int) -> int
    decreases s.len() - k,
{
    if 0 <= k < s.len() && !seq_lt(x, s[k].id) {
        first_entry_after(s, x, k + 1)
    } else {
        k
    }
}

/// Sorting entries by id, stable (what `sort_by` on ids gives).
pub open spec fn sort_entries(s: Seq<EntryView>) -> Seq<EntryView>
    decreases s.len(),
{
    if s.len() == 0 {
        s
    } else {
        let p = sort_entries(s.drop_last());
        let k = first_entry_after(p, s.last().id, 0);
        p.take(k) + seq![s.last()] + p.skip(k)
    }
}

/// The entries for `(file name, path)` directory items under a disabled list, unsorted.
pub open spec fn raw_entries(items: Seq<(Seq<char>, Seq<char>)>, disabled: Seq<Seq<char>>) -> Seq<
    EntryView,
> {
    items.map_values(
        |it: (Seq<char>, Seq<char>)|
            EntryView { id: it.0, path: it.1, enabled: !disabled.contains(it.0) },
    )
}

/// Every occurrence of `id` removed.
pub open spec fn without(s: Seq<Seq<char>>, id: Seq<char>) -> Seq<Seq<char>> {
    s.filter(|x: Seq<char>| x != id)
}

/// The disabled list after enabling or disabling `id` (before sorting).
pub open spec fn toggled(s: Seq<Seq<char>>, id: Seq<char>, enabled: bool) -> Seq<Seq<char>> {
    if enabled {
        without(s, id)
    } else if s.contains(id) {
        s
    } else {
        s.push(id)
    }
}

/// The id a source directory installs under: the manifest's name (trimmed) when it is not
/// blank, else the directory's own name.
pub open spec fn derived_id(manifest_name: Option<Seq<char>>, dir_name: Option<Seq<char>>) -> Option<
    Seq<char>,
> {
    match manifest_name {
        Some(n) if !is_blank_seq(n) => Some(trim_seq(n)),
        _ => dir_name,
    }
}

/// `base.join(name)` for a relative `name`.
pub fn join_path(base: &str, name: &str) -> (r: String)
    ensures
        r@ == join_spec(base@, name@),
{
    let mut r = String::from_str(base);
    let n = base.unicode_len();
    if n == 0 || base.get_char(n - 1) == '/' {
        r.append(name);
        r
    } else {
        r.append("/");
        r.append(name);
        proof {
            reveal_strlit("/");
        }
        assert(r@ =~= join_spec(base@, name@));
        r
    }
}

impl PluginPaths {
    /// The store under a root directory: `root/plugins` and `root/plugin-state.toml`.
    pub fn for_tests(root: &str) -> (r: PluginPaths)
        ensures
            r.plugins_dir@ == join_spec(root@, "plugins"@),
            r.state_file@ == join_spec(root@, "plugin-state.toml"@),
    {
        PluginPaths {
            plugins_dir: join_path(root, "plugins"),
            state_file: join_path(root, "plugin-state.toml"),
        }
    }

    /// The store a configuration selects: its plugin directory, else the default one; the
    /// state file is the default one.
    pub fn from_config(config: &Config, defaults: &PluginPaths) -> (r: PluginPaths)
        ensures
            r.plugins_dir@ == (match config.plugins.plugins_dir {
                Some(d) => d@,
                None => defaults.plugins_dir@,
            }),
            r.state_file@ == defaults.state_file@,
    {
        PluginPaths {
            plugins_dir: match &config.plugins.plugins_dir {
                Some(d) => d.clone(),
                None => defaults.plugins_dir.clone(),
            },
            state_file: defaults.state_file.clone(),
        }
    }

    /// The platform's store: plugins in `weft/plugins` under the local data directory, the
    /// state in `weft/plugin-state.toml` under the configuration directory (`/tmp` for
    /// either directory the platform lacks).
    pub fn default_xdg(config_dir: Option<String>, data_dir: Option<String>) -> (r: PluginPaths)
        ensures
            r.plugins_dir@ == default_plugins_dir_spec(opt_view(data_dir)),
            r.state_file@ == join_spec(
                join_spec(
                    match opt_view(config_dir) {
                        Some(d) => d,
                        None => "/tmp"@,
                    },
                    "weft"@,
                ),
                "plugin-state.toml"@,
            ),
    {
        let base = match config_dir {
            Some(d) => d,
            None => String::from_str("/tmp"),
        };
        let weft = join_path(base.as_str(), "weft");
        PluginPaths {
            plugins_dir: Config::default_plugins_dir(data_dir),
            state_file: join_path(weft.as_str(), "plugin-state.toml"),
        }
    }

    /// Where a plugin with this id is (or would be) installed.
    pub fn plugin_dir(&self, id: &str) -> (r: String)
        ensures
            r@ == join_spec(self.plugins_dir@, id@),
    {
        join_path(self.plugins_dir.as_str(), id)
    }
}

/// The id a source directory installs under, from its manifest (if it has one) and its
/// final path component (if it has a textual one); `source` names it in the error.
pub fn plugin_id_from_source(
    manifest: Option<&PluginManifestToml>,
    dir_name: Option<String>,
    source: &str,
) -> (r: Result<String, PluginError>)
    ensures
        match derived_id(
            match manifest {
                Some(m) => opt_str(m.name),
                None => None,
            },
            opt_str(dir_name),
        ) {
            Some(id) => r matches Ok(s) && s@ == id,
            None => r matches Err(PluginError::CannotDeriveId { path: p }) && p@ == source@,
        },
{
    if let Some(m) = manifest {
        if let Some(n) = &m.name {
            if !is_blank(n.as_str()) {
                return Ok(trim(n.as_str()));
            }
        }
    }
    match dir_name {
        Some(d) => Ok(d),
        None => Err(PluginError::CannotDeriveId { path: String::from_str(source) }),
    }
}

pub open spec fn opt_str(o: Option<String>) -> Option<Seq<char>> {
    match o {
        Some(s) => Some(s@),
        None => None,
    }
}

/// Refuses an operation on a plugin that is not installed.
pub fn ensure_installed(id: &str, installed: bool) -> (r: Result<(), PluginError>)
    ensures
        installed ==> r is Ok,
        !installed ==> (r matches Err(PluginError::NotFound { id: i }) && i@ == id@),
{
    if installed {
        Ok(())
    } else {
        Err(PluginError::NotFound { id: String::from_str(id) })
    }
}

/// Refuses an install source that is not a directory.
pub fn ensure_source_dir(source: &str, is_dir: bool) -> (r: Result<(), PluginError>)
    ensures
        is_dir ==> r is Ok,
        !is_dir ==> (r matches Err(PluginError::NotADirectory { path: p }) && p@ == source@),
{
    if is_dir {
        Ok(())
    } else {
        Err(PluginError::NotADirectory { path: String::from_str(source) })
    }
}

/// Refuses to install over an existing plugin directory `dest`.
pub fn ensure_not_installed(id: &str, dest: &str, exists: bool) -> (r: Result<(), PluginError>)
    ensures
        !exists ==> r is Ok,
        exists ==> (r matches Err(PluginError::AlreadyInstalled { id: i, dest: d }) && i@ == id@
            && d@ == dest@),
{
    if exists {
        Err(PluginError::AlreadyInstalled { id: String::from_str(id), dest: String::from_str(dest) })
    } else {
        Ok(())
    }
}

/// Whether `p` occurs in `s` at `i`.
fn piece_at_chars(s: &Vec<char>, p: &Vec<char>, i: usize) -> (r: bool)
    ensures
        r == piece_fits(s@, p@, i as int),
{
    if i > s.len() || p.len() > s.len() - i {
        return false;
    }
    let mut k: usize = 0;
    while k < p.len()
        invariant
            i + p@.len() <= s@.len() <= usize::MAX,
            k <= p@.len(),
            forall|t: int| 0 <= t < k ==> s@[i + t] == p@[t],
        decreases p@.len() - k,
    {
        if s[i + k] != p[k] {
            assert(s@.subrange(i as int, i + p@.len())[k as int] == s@[i + k]);
            return false;
        }
        k = k + 1;
    }
    assert(s@.subrange(i as int, i + p@.len()) =~= p@);
    true
}

/// Whether `s` ends with `p`.
fn ends_with_chars(s: &Vec<char>, p: &str) -> (r: bool)
    ensures
        r == piece_fits(s@, p@, s@.len() - p@.len()),
{
    let pc = chars_of(p);
    if pc.len() > s.len() {
        return false;
    }
    piece_at_chars(s, &pc, s.len() - pc.len())
}

/// Whether the file at `path` is a native library, by its name.
pub fn is_native_library(path: &str) -> (r: bool)
    ensures
        r == native_library(path@),
{
    let s = chars_of(path);
    ends_with_chars(&s, ".so") || ends_with_chars(&s, ".dll") || ends_with_chars(&s, ".dylib")
}

/// The native libraries among a plugin's files, in order.
pub fn native_libraries(files: &Vec<PluginFile>) -> (r: Vec<String>)
    ensures
        str_views(r@) == native_paths(file_views(files@)),
{
    let ghost fv = file_views(files@);
    let mut out: Vec<String> = Vec::new();
    let mut i: usize = 0;
    while i < files.len()
        invariant
            i <= files@.len(),
            fv == file_views(files@),
            str_views(out@) == native_paths(fv.take(i as int)),
        decreases files@.len() - i,
    {
        assert(fv.take(i + 1).drop_last() =~= fv.take(i as int));
        assert(fv.take(i + 1).last() == (files@[i as int].path@, files@[i as int].executable));
        if is_native_library(files[i].path.as_str()) {
            let ghost before = str_views(out@);
            out.push(files[i].path.clone());
            assert(str_views(out@) =~= before.push(files@[i as int].path@));
        }
        i = i + 1;
    }
    assert(fv.take(files@.len() as int) =~= fv);
    out
}

/// The executables among a plugin's files that lie outside `hooks/`, in order.
pub fn stray_executables(files: &Vec<PluginFile>) -> (r: Vec<String>)
    ensures
        str_views(r@) == stray_paths(file_views(files@)),
{
    let ghost fv = file_views(files@);
    let mut out: Vec<String> = Vec::new();
    let mut i: usize = 0;
    while i < files.len()
        invariant
            i <= files@.len(),
            fv == file_views(files@),
            str_views(out@) == stray_paths(fv.take(i as int)),
        decreases files@.len() - i,
    {
        assert(fv.take(i + 1).drop_last() =~= fv.take(i as int));
        assert(fv.take(i + 1).last() == (files@[i as int].path@, files@[i as int].executable));
        if files[i].executable && !starts_with(files[i].path.as_str(), "hooks/") {
            let ghost before = str_views(out@);
            out.push(files[i].path.clone());
            assert(str_views(out@) =~= before.push(files@[i as int].path@));
        }
        i = i + 1;
    }
    assert(fv.take(files@.len() as int) =~= fv);
    out
}

/// Whether a manifest's text names a plain-HTTP address other than the local machine.
pub fn has_suspicious_url(text: &str) -> (r: bool)
    ensures
        r == suspicious_url(text@),
{
    let s = chars_of(text);
    let http = chars_of("http://");
    let local = chars_of("http://localhost");
    let loopback = chars_of("http://127.0.0.1");
    let mut i: usize = 0;
    while i < s.len()
        invariant
            i <= s@.len(),
            s@ == text@,
            http@ == "http://"@,
            local@ == "http://localhost"@,
            loopback@ == "http://127.0.0.1"@,
            forall|j: int| 0 <= j < i ==> !#[trigger] suspicious_at(text@, j),
        decreases s@.len() - i,
    {
        if piece_at_chars(&s, &http, i) && !piece_at_chars(&s, &local, i) && !piece_at_chars(
            &s,
            &loopback,
            i,
        ) {
            assert(suspicious_at(text@, i as int));
            return true;
        }
        i = i + 1;
    }
    false
}

/// Checks a plugin before it is installed: a native library among its files refuses it
/// (the first one is named); otherwise the report lists the executables outside `hooks/`
/// and tells whether the manifest's text names a suspicious address.
pub fn validate_plugin(files: &Vec<PluginFile>, manifest: &str) -> (r: Result<SecurityReport, PluginError>)
    ensures
        r is Ok <==> native_paths(file_views(files@)).len() == 0,
        r is Err ==> (r matches Err(PluginError::NativeLibraryBlocked { path }) && path@ == native_paths(
            file_views(files@),
        )[0]),
        r matches Ok(rep) ==> str_views(rep.stray_executables@) == stray_paths(file_views(files@))
            && rep.suspicious_url == suspicious_url(manifest@),
{
    let natives = native_libraries(files);
    if natives.len() > 0 {
        assert(str_views(natives@)[0] == natives@[0]@);
        let path = natives[0].clone();
        return Err(PluginError::NativeLibraryBlocked { path });
    }
    let stray = stray_executables(files);
    let suspicious = has_suspicious_url(manifest);
    Ok(SecurityReport { stray_executables: stray, suspicious_url: suspicious })
}

fn contains_str(v: &Vec<String>, x: &str) -> (r: bool)
    ensures
        r == str_views(v@).contains(x@),
{
    let mut i: usize = 0;
    while i < v.len()
        invariant
            0 <= i <= v@.len(),
            forall|k: int| 0 <= k < i ==> v@[k]@ != x@,
        decreases v@.len() - i,
    {
        if str_eq(v[i].as_str(), x) {
            assert(str_views(v@)[i as int] == x@);
            return true;
        }
        i = i + 1;
    }
    assert forall|k: int| 0 <= k < str_views(v@).len() implies str_views(v@)[k] != x@ by {
        assert(str_views(v@)[k] == v@[k]@);
    }
    false
}

/// Sorts texts in place in `str`'s order.
pub fn sort_strings(v: &mut Vec<String>)
    ensures
        str_views(final(v)@) == sort_strs(str_views(old(v)@)),
{
    let ghost v0 = str_views(v@);
    let ghost n = v@.len();
    let mut out: Vec<String> = Vec::new();
    let ghost mut i: int = 0;
    while v.len() > 0
        invariant
            0 <= i <= n,
            i + v@.len() == n,
            v0.len() == n,
            str_views(v@) == v0.skip(i),
            str_views(out@) == sort_strs(v0.take(i)),
        decreases v@.len(),
    {
        let ghost vx = v@;
        let x = v.remove(0);
        assert(str_views(vx)[0] == vx[0]@);
        assert(x@ == v0[i]);
        assert(v0.take(i + 1).drop_last() =~= v0.take(i));
        assert(str_views(v@) =~= str_views(vx).skip(1));
        assert(str_views(vx).skip(1) =~= v0.skip(i + 1));
        let ghost before = str_views(out@);
        let mut k: usize = 0;
        while k < out.len() && !str_lt(x.as_str(), out[k].as_str())
            invariant
                0 <= k <= out@.len(),
                before == str_views(out@),
                first_after(before, x@, 0) == first_after(before, x@, k as int),
            decreases out@.len() - k,
        {
            assert(before[k as int] == out@[k as int]@);
            k = k + 1;
        }
        proof {
            if k < out@.len() {
                assert(before[k as int] == out@[k as int]@);
            }
        }
        out.insert(k, x);
        assert(str_views(out@) =~= before.take(k as int) + seq![x@] + before.skip(k as int));
        proof {
            i = i + 1;
        }
    }
    assert(v0.take(i) =~= v0);
    *v = out;
}

/// Enables or disables `id` in the state: enabling removes every mention of it from the
/// disabled list, disabling adds it once; the list is then sorted. Doing the same again
/// would leave the list as it now is.
pub fn set_enabled(state: &mut PluginStateFile, id: &str, enabled: bool)
    ensures
        str_views(final(state).disabled@) == sort_strs(
            toggled(str_views(old(state).disabled@), id@, enabled),
        ),
        sort_strs(toggled(str_views(final(state).disabled@), id@, enabled)) == str_views(
            final(state).disabled@,
        ),
{
    let ghost d0 = str_views(state.disabled@);
    proof {
        lemma_set_enabled_idempotent(d0, id@, enabled);
    }
    if enabled {
        remove_id(&mut state.disabled, id);
    } else if !contains_str(&state.disabled, id) {
        state.disabled.push(String::from_str(id));
        assert(str_views(state.disabled@) =~= d0.push(id@));
    }
    sort_strings(&mut state.disabled);
}

/// Removes every mention of `id`, keeping the order of the rest.
pub fn remove_id(v: &mut Vec<String>, id: &str)
    ensures
        str_views(final(v)@) == without(str_views(old(v)@), id@),
{
    let ghost v0 = str_views(v@);
    let ghost n = v@.len();
    let mut out: Vec<String> = Vec::new();
    let ghost mut i: int = 0;
    while v.len() > 0
        invariant
            0 <= i <= n,
            i + v@.len() == n,
            v0.len() == n,
            str_views(v@) == v0.skip(i),
            str_views(out@) == without(v0.take(i), id@),
        decreases v@.len(),
    {
        let ghost vx = v@;
        let x = v.remove(0);
        assert(str_views(vx)[0] == vx[0]@);
        assert(x@ == v0[i]);
        assert(v0.take(i + 1).drop_last() =~= v0.take(i));
        assert(str_views(v@) =~= str_views(vx).skip(1));
        assert(str_views(vx).skip(1) =~= v0.skip(i + 1));
        let ghost before = str_views(out@);
        reveal_with_fuel(Seq::filter, 1);
        if !str_eq(x.as_str(), id) {
            out.push(x);
            assert(str_views(out@) =~= before.push(v0[i]));
        }
        proof {
            i = i + 1;
        }
    }
    assert(v0.take(i) =~= v0);
    *v = out;
}

/// The state after a plugin is removed: it is no longer mentioned as disabled.
pub fn remove_plugin(state: &mut PluginStateFile, id: &str)
    ensures
        str_views(final(state).disabled@) == without(str_views(old(state).disabled@), id@),
{
    remove_id(&mut state.disabled, id);
}

/// The listing for the directory items `(file name, path)` found under the plugin directory:
/// each is enabled unless its name is disabled; entries come sorted by id.
pub fn list_plugins(items: Vec<(String, String)>, state: &PluginStateFile) -> (r: Vec<PluginEntry>)
    ensures
        entry_views(r@) == sort_entries(
            raw_entries(
                items@.map_values(|it: (String, String)| (it.0@, it.1@)),
                str_views(state.disabled@),
            ),
        ),
{
    let ghost raw = raw_entries(
        items@.map_values(|it: (String, String)| (it.0@, it.1@)),
        str_views(state.disabled@),
    );
    let ghost n = items@.len();
    let mut items = items;
    let mut out: Vec<PluginEntry> = Vec::new();
    let ghost mut i: int = 0;
    while items.len() > 0
        invariant
            0 <= i <= n,
            i + items@.len() == n,
            raw.len() == n,
            forall|k: int|
                0 <= k < items@.len() ==> #[trigger] raw[i + k] == (EntryView {
                    id: items@[k].0@,
                    path: items@[k].1@,
                    enabled: !str_views(state.disabled@).contains(items@[k].0@),
                }),
            entry_views(out@) == sort_entries(raw.take(i)),
        decreases items@.len(),
    {
        let ghost ix = items@;
        let (id, path) = items.remove(0);
        assert(raw[i + 0] == (EntryView {
            id: ix[0].0@,
            path: ix[0].1@,
            enabled: !str_views(state.disabled@).contains(ix[0].0@),
        }));
        assert forall|k: int| 0 <= k < items@.len() implies #[trigger] raw[(i + 1) + k] == (
        EntryView {
            id: items@[k].0@,
            path: items@[k].1@,
            enabled: !str_views(state.disabled@).contains(items@[k].0@),
        }) by {
            assert(items@[k] == ix[k + 1]);
            assert(raw[i + (k + 1)] == raw[(i + 1) + k]);
        }
        let enabled = !contains_str(&state.disabled, id.as_str());
        let e = PluginEntry { id, path, enabled };
        assert(e@ == raw[i]);
        assert(raw.take(i + 1).drop_last() =~= raw.take(i));
        let ghost before = entry_views(out@);
        let mut k: usize = 0;
        while k < out.len() && !str_lt(e.id.as_str(), out[k].id.as_str())
            invariant
                0 <= k <= out@.len(),
                before == entry_views(out@),
                first_entry_after(before, e.id@, 0) == first_entry_after(before, e.id@, k as int),
            decreases out@.len() - k,
        {
            assert(before[k as int] == out@[k as int]@);
            k = k + 1;
        }
        proof {
            if k < out@.len() {
                assert(before[k as int] == out@[k as int]@);
            }
        }
        out.insert(k, e);
        assert(entry_views(out@) =~= before.take(k as int) + seq![e@] + before.skip(k as int));
        proof {
            i = i + 1;
        }
    }
    assert(raw.take(i) =~= raw);
    out
}


proof fn lemma_first_after_range(s: Seq<Seq<char>>, x: Seq<char>, k: int)
    requires
        0 <= k <= s.len(),
    ensures
        k <= first_after(s, x, k) <= s.len(),
        forall|i: int| k <= i < first_after(s, x, k) ==> !seq_lt(x, #[trigger] s[i]),
        first_after(s, x, k) < s.len() ==> seq_lt(x, s[first_after(s, x, k)]),
    decreases s.len() - k,
{
    if k < s.len() && !seq_lt(x, s[k]) {
        lemma_first_after_range(s, x, k + 1);
    }
}

proof fn lemma_first_entry_after_range(s: Seq<EntryView>, x: Seq<char>, k: int)
    requires
        0 <= k <= s.len(),
    ensures
        k <= first_entry_after(s, x, k) <= s.len(),
        forall|i: int| k <= i < first_entry_after(s, x, k) ==> !seq_lt(x, #[trigger] s[i].id),
        first_entry_after(s, x, k) < s.len() ==> seq_lt(x, s[first_entry_after(s, x, k)].id),
    decreases s.len() - k,
{
    if k < s.len() && !seq_lt(x, s[k].id) {
        lemma_first_entry_after_range(s, x, k + 1);
    }
}

/// Sorting keeps exactly the texts it was given.
pub proof fn lemma_sort_strs_permutation(s: Seq<Seq<char>>)
    ensures
        sort_strs(s).to_multiset() == s.to_multiset(),
    decreases s.len(),
{
    broadcast use vstd::seq_lib::to_multiset_build, vstd::seq_lib::to_multiset_insert;

    if s.len() > 0 {
        lemma_sort_strs_permutation(s.drop_last());
        let p = sort_strs(s.drop_last());
        let k = first_after(p, s.last(), 0);
        lemma_first_after_range(p, s.last(), 0);
        assert(p.take(k) + seq![s.last()] + p.skip(k) =~= p.insert(k, s.last()));
        assert(s =~= s.drop_last().push(s.last()));
    }
}

/// Sorting the listing keeps exactly the entries it was given.
pub proof fn lemma_sort_entries_permutation(s: Seq<EntryView>)
    ensures
        sort_entries(s).to_multiset() == s.to_multiset(),
    decreases s.len(),
{
    broadcast use vstd::seq_lib::to_multiset_build, vstd::seq_lib::to_multiset_insert;

    if s.len() > 0 {
        lemma_sort_entries_permutation(s.drop_last());
        let p = sort_entries(s.drop_last());
        let k = first_entry_after(p, s.last().id, 0);
        lemma_first_entry_after_range(p, s.last().id, 0);
        assert(p.take(k) + seq![s.last()] + p.skip(k) =~= p.insert(k, s.last()));
        assert(s =~= s.drop_last().push(s.last()));
    }
}

proof fn lemma_without_contains(s: Seq<Seq<char>>, id: Seq<char>, x: Seq<char>)
    ensures
        without(s, id).contains(x) <==> (s.contains(x) && x != id),
    decreases s.len(),
{
    reveal(Seq::filter);
    if s.len() > 0 {
        lemma_without_contains(s.drop_last(), id, x);
        let sub = without(s.drop_last(), id);
        let a = s.last();
        assert(s =~= s.drop_last().push(a));
        if a != id {
            assert(without(s, id) == sub.push(a));
            if sub.push(a).contains(x) && x != a {
                let j = choose|j: int| 0 <= j < sub.push(a).len() && sub.push(a)[j] == x;
                assert(sub[j] == x);
            }
            if sub.contains(x) {
                let j = choose|j: int| 0 <= j < sub.len() && sub[j] == x;
                assert(sub.push(a)[j] == x);
            }
            if x == a {
                assert(sub.push(a)[sub.len() as int] == x);
            }
        } else {
            assert(without(s, id) == sub);
        }
        if s.contains(x) && x != s.last() {
            let j = choose|j: int| 0 <= j < s.len() && s[j] == x;
            assert(s.drop_last()[j] == x);
        }
        if s.drop_last().contains(x) {
            let j = choose|j: int| 0 <= j < s.drop_last().len() && s.drop_last()[j] == x;
            assert(s[j] == x);
        }
        if x == s.last() {
            assert(s[s.len() - 1] == x);
        }
    }
}

/// After enabling or disabling a plugin, it is on the disabled list exactly when it was
/// disabled, and every other plugin is on it exactly as before.
pub proof fn lemma_toggle_disabled(s: Seq<Seq<char>>, id: Seq<char>, enabled: bool)
    ensures
        sort_strs(toggled(s, id, enabled)).contains(id) == !enabled,
        forall|x: Seq<char>| x != id ==> #[trigger] sort_strs(toggled(s, id, enabled)).contains(x) == s.contains(x),
{
    broadcast use vstd::seq_lib::to_multiset_contains;

    let t = toggled(s, id, enabled);
    lemma_sort_strs_permutation(t);
    let r = sort_strs(t);
    assert forall|x: Seq<char>| #[trigger] r.contains(x) == t.contains(x) by {
        assert(r.to_multiset().count(x) == t.to_multiset().count(x));
    }
    lemma_without_contains(s, id, id);
    assert forall|x: Seq<char>| x != id implies #[trigger] t.contains(x) == s.contains(x) by {
        if enabled {
            lemma_without_contains(s, id, x);
        } else if !s.contains(id) {
            if s.push(id).contains(x) {
                let j = choose|j: int| 0 <= j < s.push(id).len() && s.push(id)[j] == x;
                assert(s[j] == x);
            }
            if s.contains(x) {
                let j = choose|j: int| 0 <= j < s.len() && s[j] == x;
                assert(s.push(id)[j] == x);
            }
        }
    }
    if !enabled && !s.contains(id) {
        assert(s.push(id)[s.len() as int] == id);
    }
    assert(r.contains(id) == t.contains(id));
}

/// Texts in `str`'s order: none orders before one that comes earlier.
pub open spec fn sorted_strs(s: Seq<Seq<char>>) -> bool {
    forall|i: int, j: int| 0 <= i < j < s.len() ==> !seq_lt(#[trigger] s[j], #[trigger] s[i])
}

/// Sorting gives texts in order.
pub proof fn lemma_sort_strs_sorted(s: Seq<Seq<char>>)
    ensures
        sorted_strs(sort_strs(s)),
    decreases s.len(),
{
    if s.len() > 0 {
        lemma_sort_strs_sorted(s.drop_last());
        let p = sort_strs(s.drop_last());
        let x = s.last();
        let k = first_after(p, x, 0);
        lemma_first_after_range(p, x, 0);
        let q = p.take(k) + seq![x] + p.skip(k);
        assert(q == sort_strs(s));
        assert forall|i: int, j: int| 0 <= i < j < q.len() implies !seq_lt(#[trigger] q[j], #[trigger] q[i]) by {
            if j < k {
                assert(q[i] == p[i] && q[j] == p[j]);
            } else if j == k {
                assert(q[i] == p[i] && q[j] == x);
            } else {
                assert(q[j] == p[j - 1]);
                if i < k {
                    assert(q[i] == p[i]);
                } else if i == k {
                    assert(q[i] == x);
                    lemma_seq_lt_asymmetric(x, p[k]);
                    if j - 1 > k && seq_lt(p[j - 1], x) {
                        lemma_seq_lt_transitive(p[j - 1], x, p[k]);
                    }
                } else {
                    assert(q[i] == p[i - 1]);
                }
            }
        }
    }
}

/// Texts already in order are left as they are by sorting.
pub proof fn lemma_sort_strs_sorted_unchanged(s: Seq<Seq<char>>)
    requires
        sorted_strs(s),
    ensures
        sort_strs(s) == s,
    decreases s.len(),
{
    if s.len() > 0 {
        let d = s.drop_last();
        let x = s.last();
        assert(sorted_strs(d)) by {
            assert forall|i: int, j: int| 0 <= i < j < d.len() implies !seq_lt(#[trigger] d[j], #[trigger] d[i]) by {
                assert(d[i] == s[i] && d[j] == s[j]);
            }
        }
        lemma_sort_strs_sorted_unchanged(d);
        lemma_first_after_range(d, x, 0);
        let k = first_after(d, x, 0);
        if k < d.len() {
            assert(d[k] == s[k]);
            assert(x == s[s.len() - 1]);
        }
        assert(d.take(k) + seq![x] + d.skip(k) =~= s);
    }
}

/// Removing a text that does not occur changes nothing.
proof fn lemma_without_absent(s: Seq<Seq<char>>, id: Seq<char>)
    requires
        !s.contains(id),
    ensures
        without(s, id) == s,
    decreases s.len(),
{
    reveal(Seq::filter);
    if s.len() > 0 {
        let d = s.drop_last();
        if d.contains(id) {
            let j = choose|j: int| 0 <= j < d.len() && d[j] == id;
            assert(s[j] == id);
        }
        lemma_without_absent(d, id);
        assert(s[s.len() - 1] == s.last());
        assert(s =~= d.push(s.last()));
    }
}

/// Enabling or disabling a plugin a second time leaves the disabled list as the first
/// time left it.
pub proof fn lemma_set_enabled_idempotent(s: Seq<Seq<char>>, id: Seq<char>, enabled: bool)
    ensures
        sort_strs(toggled(sort_strs(toggled(s, id, enabled)), id, enabled)) == sort_strs(
            toggled(s, id, enabled),
        ),
{
    let r = sort_strs(toggled(s, id, enabled));
    lemma_toggle_disabled(s, id, enabled);
    lemma_sort_strs_sorted(toggled(s, id, enabled));
    if enabled {
        lemma_without_absent(r, id);
    }
    assert(toggled(r, id, enabled) == r);
    lemma_sort_strs_sorted_unchanged(r);
}

/// Every plugin listed is enabled exactly when it is not on the disabled list, and every
/// listed entry is one of the directory's items.
pub proof fn lemma_listing_follows_disabled(items: Seq<(Seq<char>, Seq<char>)>, disabled: Seq<Seq<char>>)
    ensures
        sort_entries(raw_entries(items, disabled)).len() == items.len(),
        forall|i: int| 0 <= i < sort_entries(raw_entries(items, disabled)).len() ==> {
            let e = #[trigger] sort_entries(raw_entries(items, disabled))[i];
            &&& e.enabled == !disabled.contains(e.id)
            &&& items.contains((e.id, e.path))
        },
{
    broadcast use vstd::seq_lib::to_multiset_contains, vstd::seq_lib::to_multiset_len;

    let raw = raw_entries(items, disabled);
    lemma_sort_entries_permutation(raw);
    let r = sort_entries(raw);
    assert(r.to_multiset().len() == raw.to_multiset().len());
    assert forall|i: int| 0 <= i < r.len() implies {
        let e = #[trigger] r[i];
        &&& e.enabled == !disabled.contains(e.id)
        &&& items.contains((e.id, e.path))
    } by {
        let e = r[i];
        assert(r.contains(e));
        assert(r.to_multiset().count(e) > 0);
        assert(raw.contains(e));
        let j = choose|j: int| 0 <= j < raw.len() && raw[j] == e;
        assert(items[j].0 == e.id && items[j].1 == e.path);
        assert(items[j] == (e.id, e.path));
    }
}

/// The listing comes in `str` order of ids: no entry's id orders before that of an entry
/// listed earlier.
pub proof fn lemma_sort_entries_sorted(s: Seq<EntryView>)
    ensures
        forall|i: int, j: int|
            0 <= i < j < sort_entries(s).len() ==> !seq_lt(
                (#[trigger] sort_entries(s)[j]).id,
                (#[trigger] sort_entries(s)[i]).id,
            ),
    decreases s.len(),
{
    if s.len() > 0 {
        lemma_sort_entries_sorted(s.drop_last());
        let p = sort_entries(s.drop_last());
        let x = s.last();
        let k = first_entry_after(p, x.id, 0);
        lemma_first_entry_after_range(p, x.id, 0);
        let q = p.take(k) + seq![x] + p.skip(k);
        assert(q == sort_entries(s));
        assert forall|i: int, j: int| 0 <= i < j < q.len() implies !seq_lt((#[trigger] q[j]).id, (#[trigger] q[i]).id) by {
            if j < k {
                assert(q[i] == p[i] && q[j] == p[j]);
            } else if j == k {
                assert(q[i] == p[i] && q[j] == x);
            } else {
                assert(q[j] == p[j - 1]);
                if i < k {
                    assert(q[i] == p[i]);
                } else if i == k {
                    assert(q[i] == x);
                    lemma_seq_lt_asymmetric(x.id, p[k].id);
                    if j - 1 > k && seq_lt(p[j - 1].id, x.id) {
                        lemma_seq_lt_transitive(p[j - 1].id, x.id, p[k].id);
                    }
                } else {
                    assert(q[i] == p[i - 1]);
                }
            }
        }
    }
}

} // verus!
