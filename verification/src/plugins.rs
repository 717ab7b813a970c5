//! The plugin loader's bookkeeping: which plugin binaries are loaded
//! (each path once), what a load request is answered at each step, which
//! files of the FX folder are loaded eagerly, and the name of a plugin.
use vstd::prelude::*;

use crate::text::{
    append_chars, chars_of, contains_seq, path_file_stem, plain_extension_text, plain_path, plain_stem,
    string_of,
};

verus! {

/// The plugin loader service.
#[derive(Clone, Copy, Debug)]
pub struct ReaperPluginLoader;

impl ReaperPluginLoader {
    /// The plugin loader service.
    pub fn new() -> (r: Self)
        ensures
            r == ReaperPluginLoader,
    {
        ReaperPluginLoader
    }
}

/// The name given to a plugin whose path has no usable file stem.
pub open spec fn unknown_name() -> Seq<char> {
    "unknown"@
}

/// The name of a plugin given the file stem of its path: the stem, or `unknown`.
pub fn plugin_name_from_stem(stem: Option<String>) -> (r: String)
    ensures
        r@ == match stem { Some(s) => s@, None => unknown_name() },
{
    match stem {
        Some(s) => s,
        None => string_of(&chars_of("unknown")),
    }
}

/// What is known of the name derived from the plugin path `path`: it is
/// `unknown` or a non-empty part of the path; for a plain path (only `/`
/// separates) it is exactly the file stem, or `unknown` when there is none.
pub open spec fn derived_name_fits(path: Seq<char>, name: Seq<char>) -> bool {
    &&& (name == unknown_name() || (name.len() > 0 && contains_seq(path, name)))
    &&& plain_path(path) ==> name == match plain_stem(path) {
        Some(s) => s,
        None => unknown_name(),
    }
}

/// The name of the plugin at `path`: its file stem, a non-empty part of
/// the path, or `unknown` when it has none.
pub fn derive_plugin_name(path: &str) -> (r: String)
    ensures
        derived_name_fits(path@, r@),
{
    plugin_name_from_stem(path_file_stem(path))
}

/// `Path::extension` (std) of `path`, as text (empty when there is none or
/// it is not text). It is always empty or a part of the path. Which part
/// it is depends on the platform's path separators, except for a plain path
/// (only `/` separates), where it is `plain_extension_text`. Other paths
/// are not stated here.
#[verifier::external_body]
fn path_extension(path: &str) -> (r: String)
    ensures
        r@.len() == 0 || contains_seq(path@, r@),
        plain_path(path@) ==> r@ == plain_extension_text(path@),
{
    std::path::Path::new(path).extension().and_then(|e| e.to_str()).unwrap_or("").to_string()
}

/// Whether a file with this extension is a candidate for eager loading:
/// `clap`, `so` or `dylib`.
pub open spec fn plugin_extension_spec(ext: Seq<char>) -> bool {
    ext == "clap"@ || ext == "so"@ || ext == "dylib"@
}

/// Whether a file with this extension is a candidate for eager loading.
pub fn is_plugin_extension(ext: &str) -> (r: bool)
    ensures
        r == plugin_extension_spec(ext@),
{
    crate::strmap::str_eq(ext, "clap") || crate::strmap::str_eq(ext, "so") || crate::strmap::str_eq(ext, "dylib")
}

/// Whether the file at `path` has a plugin extension.
pub fn has_plugin_extension(path: &str) -> (r: bool)
    ensures
        r ==> exists|e: Seq<char>| plugin_extension_spec(e) && contains_seq(path@, e),
        plain_path(path@) ==> r == plugin_extension_spec(plain_extension_text(path@)),
{
    let ext = path_extension(path);
    let r = is_plugin_extension(ext.as_str());
    proof {
        reveal_strlit("clap");
        reveal_strlit("so");
        reveal_strlit("dylib");
        if r {
            assert(plugin_extension_spec(ext@) && contains_seq(path@, ext@));
        }
    }
    r
}

/// What a load request is answered.
pub enum PluginLoadResult {
    /// The plugin is loaded now.
    Loaded,
    /// The plugin was loaded before.
    AlreadyLoaded,
    /// The plugin could not be loaded, for this reason.
    Error(String),
}

/// A load answer as a value.
pub enum LoadAnswer {
    Loaded,
    AlreadyLoaded,
    Error(Seq<char>),
}

impl View for PluginLoadResult {
    type V = LoadAnswer;

    open spec fn view(&self) -> LoadAnswer {
        match self {
            PluginLoadResult::Loaded => LoadAnswer::Loaded,
            PluginLoadResult::AlreadyLoaded => LoadAnswer::AlreadyLoaded,
            PluginLoadResult::Error(m) => LoadAnswer::Error(m@),
        }
    }
}

/// The answer when the loader's host context was never stored.
pub open spec fn no_context_message() -> Seq<char> {
    "Plugin context not initialized — set_plugin_context() not called"@
}

/// The answer when the entry point reported failure.
pub open spec fn entry_failed_message() -> Seq<char> {
    "ReaperPluginEntry returned 0"@
}

fn message(prefix: &str, detail: &str) -> (r: String)
    ensures
        r@ == prefix@ + detail@,
{
    let mut v = chars_of(prefix);
    append_chars(&mut v, &chars_of(detail));
    string_of(&v)
}

/// The answer when the plugin file does not exist: `Plugin not found: ` and its path.
pub fn not_found_error(path: &str) -> (r: PluginLoadResult)
    ensures
        r@ == LoadAnswer::Error("Plugin not found: "@ + path@),
{
    PluginLoadResult::Error(message("Plugin not found: ", path))
}

/// The answer when the library cannot be opened: `Failed to load library: ` and why.
pub fn library_error(reason: &str) -> (r: PluginLoadResult)
    ensures
        r@ == LoadAnswer::Error("Failed to load library: "@ + reason@),
{
    PluginLoadResult::Error(message("Failed to load library: ", reason))
}

/// The answer when the library has no entry point: `ReaperPluginEntry symbol not found: ` and why.
pub fn missing_entry_error(reason: &str) -> (r: PluginLoadResult)
    ensures
        r@ == LoadAnswer::Error("ReaperPluginEntry symbol not found: "@ + reason@),
{
    PluginLoadResult::Error(message("ReaperPluginEntry symbol not found: ", reason))
}

/// Whether one of the (path, name) entries has path `path`.
pub open spec fn has_path(entries: Seq<(Seq<char>, Seq<char>)>, path: Seq<char>) -> bool {
    exists|i: int| 0 <= i < entries.len() && #[trigger] entries[i].0 == path
}

/// The plugins loaded so far: path and name of each, in load order.
pub struct LoadedPlugins {
    loaded: Vec<(String, String)>,
}

impl LoadedPlugins {
    /// The loaded plugins as (path, name), in load order.
    pub closed spec fn entries(&self) -> Seq<(Seq<char>, Seq<char>)> {
        self.loaded@.map_values(|e: (String, String)| (e.0@, e.1@))
    }

    /// Whether the plugin at `path` is loaded.
    pub open spec fn contains_path(&self, path: Seq<char>) -> bool {
        has_path(self.entries(), path)
    }

    /// None loaded.
    pub fn new() -> (r: Self)
        ensures
            r.entries().len() == 0,
    {
        let r = LoadedPlugins { loaded: Vec::new() };
        assert(r.entries() =~= Seq::<(Seq<char>, Seq<char>)>::empty());
        r
    }

    /// Whether the plugin at `path` is loaded.
    pub fn is_loaded(&self, path: &str) -> (r: bool)
        ensures
            r == self.contains_path(path@),
    {
        let mut i: usize = 0;
        while i < self.loaded.len()
            invariant
                i <= self.loaded@.len(),
                forall|j: int| 0 <= j < i ==> #[trigger] self.entries()[j].0 != path@,
            decreases self.loaded.len() - i,
        {
            assert(self.entries()[i as int].0 == self.loaded@[i as int].0@);
            if crate::strmap::str_eq(self.loaded[i].0.as_str(), path) {
                return true;
            }
            i = i + 1;
        }
        false
    }

    /// The loaded plugins as (path, name), in load order.
    pub fn list_loaded(&self) -> (r: Vec<(String, String)>)
        ensures
            r@.map_values(|e: (String, String)| (e.0@, e.1@)) == self.entries(),
    {
        let mut r: Vec<(String, String)> = Vec::new();
        let mut i: usize = 0;
        while i < self.loaded.len()
            invariant
                i <= self.loaded@.len(),
                r@.map_values(|e: (String, String)| (e.0@, e.1@)) == self.entries().take(i as int),
            decreases self.loaded.len() - i,
        {
            let e = (string_of(&chars_of(self.loaded[i].0.as_str())), string_of(&chars_of(self.loaded[i].1.as_str())));
            assert(self.entries()[i as int] == (self.loaded@[i as int].0@, self.loaded@[i as int].1@));
            let ghost prev = r@;
            r.push(e);
            assert(r@ == prev.push(e));
            assert(self.entries().take(i + 1) =~= self.entries().take(i as int).push(self.entries()[i as int]));
            assert(r@.map_values(|e: (String, String)| (e.0@, e.1@)) =~= prev.map_values(|e: (String, String)| (e.0@, e.1@)).push((e.0@, e.1@)));
            i = i + 1;
        }
        assert(self.entries().take(self.loaded@.len() as int) =~= self.entries());
        r
    }

    /// The first step of a load request: a plugin loaded before is answered
    /// `AlreadyLoaded`; without the host context the request fails; a
    /// missing file fails. `None` means: go on and open the library.
    pub fn precheck(&self, path: &str, context_set: bool, path_exists: bool) -> (r: Option<PluginLoadResult>)
        ensures
            self.contains_path(path@) ==> (r matches Some(a) && a@ == LoadAnswer::AlreadyLoaded),
            !self.contains_path(path@) && !context_set ==> (r matches Some(a) && a@ == LoadAnswer::Error(no_context_message())),
            !self.contains_path(path@) && context_set && !path_exists ==> (r matches Some(a) && a@ == LoadAnswer::Error("Plugin not found: "@ + path@)),
            !self.contains_path(path@) && context_set && path_exists ==> r is None,
    {
        if self.is_loaded(path) {
            return Some(PluginLoadResult::AlreadyLoaded);
        }
        if !context_set {
            return Some(PluginLoadResult::Error(string_of(&chars_of("Plugin context not initialized — set_plugin_context() not called"))));
        }
        if !path_exists {
            return Some(not_found_error(path));
        }
        None
    }

    fn push_entry(&mut self, path: &str, name: String)
        ensures
            final(self).entries() == old(self).entries().push((path@, name@)),
    {
        let ghost before = self.entries();
        self.loaded.push((string_of(&chars_of(path)), name));
        assert(self.entries() =~= before.push((path@, name@)));
    }

    /// The last step of a load request, once the entry point ran and
    /// returned `entry_result`: 0 means it failed; otherwise the plugin is
    /// recorded as loaded, under the name derived from its path.
    pub fn finish_load(&mut self, path: &str, entry_result: i32) -> (r: PluginLoadResult)
        ensures
            entry_result == 0 ==> r@ == LoadAnswer::Error(entry_failed_message()) && final(self).entries() == old(self).entries(),
            entry_result != 0 ==> r@ == LoadAnswer::Loaded && final(self).entries().len() == old(self).entries().len() + 1
                && final(self).entries().drop_last() == old(self).entries()
                && final(self).entries().last().0 == path@
                && derived_name_fits(path@, final(self).entries().last().1),
    {
        if entry_result == 0 {
            return PluginLoadResult::Error(string_of(&chars_of("ReaperPluginEntry returned 0")));
        }
        let name = derive_plugin_name(path);
        self.push_entry(path, name);
        PluginLoadResult::Loaded
    }

    /// Whether a file of the FX folder is loaded eagerly: it has a plugin
    /// extension and is not loaded yet.
    pub fn eager_candidate(&self, ext: &str, path: &str) -> (r: bool)
        ensures
            r == (plugin_extension_spec(ext@) && !self.contains_path(path@)),
    {
        is_plugin_extension(ext) && !self.is_loaded(path)
    }

    /// Record an eagerly loaded plugin whose initialisation returned
    /// `entry_result` (0: failed, not kept). Returns whether it is kept.
    pub fn finish_eager_load(&mut self, path: &str, entry_result: i32) -> (r: bool)
        ensures
            r == (entry_result != 0),
            !r ==> final(self).entries() == old(self).entries(),
            r ==> final(self).entries().len() == old(self).entries().len() + 1
                && final(self).entries().drop_last() == old(self).entries()
                && final(self).entries().last().0 == path@
                && derived_name_fits(path@, final(self).entries().last().1),
    {
        if entry_result == 0 {
            return false;
        }
        let name = derive_plugin_name(path);
        self.push_entry(path, name);
        true
    }
}

/// A plugin that loaded is found loaded afterwards, so a second request
/// to load it is answered `AlreadyLoaded`; plugins loaded before stay loaded.
pub proof fn lemma_loaded_stays_loaded(before: Seq<(Seq<char>, Seq<char>)>, after: Seq<(Seq<char>, Seq<char>)>, path: Seq<char>)
    requires
        after.len() == before.len() + 1,
        after.drop_last() == before,
        after.last().0 == path,
    ensures
        has_path(after, path),
        forall|p: Seq<char>| #[trigger] has_path(before, p) ==> has_path(after, p),
{
    assert(after[after.len() - 1].0 == path);
    assert forall|p: Seq<char>| #[trigger] has_path(before, p) implies has_path(after, p) by {
        let i = choose|i: int| 0 <= i < before.len() && #[trigger] before[i].0 == p;
        assert(after[i] == before[i]);
    }
}

} // verus!
