//! The extension registry: validating, loading, reloading and removing
//! modules, their resolved configuration and UI contribution, and calls into
//! their exported functions.
//!
//! The registry does no I/O and does not know how a module instance is made
//! or run: the embedding process reads files, parses the metadata document,
//! and supplies a `ModuleBuilder` and instances that implement
//! `ModuleInstance`.

use vstd::prelude::*;
use crate::config::{decimal_spec, decimal_text, ConfigTypes, PluginConfig};
use crate::fad::{
    is_allowed_location, location_allowed, opt_seq, popups_view, screens_view, FadButton, FadConfig,
    FadPopup, FadScreen, FadV, PanelV,
};
use crate::json::{text_eq, JsonValue};
use crate::policy::{check_plugins_enabled, plugins_allowed};
use crate::store::ValueStore;
use crate::metadata::{
    loaded_config, loaded_fad, metadata_config, resolve_metadata, rewrite_ok, rewritten, set_entry_value,
};
use crate::paths::{
    contains_dot, extension_from_back, extension_spec, file_name_spec, file_stem, has_dot, name_stem,
};

verus! {

#[derive(Debug, PartialEq)]
pub enum PluginManErr {
    FileNotFound(String),
    BadFile(String),
    PluginError(Option<String>),
    PluginNotLoaded(String),
    PluginAlreadyLoaded(String),
    MetadataNotFound(String),
    InvalidMeta(String),
    PluginManNotLoaded,
}

/// The sentence that describes an error.
pub open spec fn message_spec(e: PluginManErr) -> Seq<char> {
    match e {
        PluginManErr::FileNotFound(p) => "File not found: "@ + p@,
        PluginManErr::BadFile(p) => "Provided file is not a wasm file or has no stem: "@ + p@,
        PluginManErr::PluginError(Some(m)) => "A plugin error occurred: "@ + m@,
        PluginManErr::PluginError(None) => "A plugin error occurred: No error message returned"@,
        PluginManErr::PluginNotLoaded(p) => "Plugin: "@ + p@ + " is not loaded"@,
        PluginManErr::PluginAlreadyLoaded(p) => "The plugin: "@ + p@ + " was already loaded"@,
        PluginManErr::MetadataNotFound(p) => "Metadata for plugin: "@ + p@ + " not found. Ensure it has the same name as the plugin and is json type whilst being in the same (valid) directory as the plugin"@,
        PluginManErr::InvalidMeta(p) => "Metadata found for: "@ + p@ + " is invalid"@,
        PluginManErr::PluginManNotLoaded => "The plugin manager has not been loaded."@,
    }
}

impl PluginManErr {
    /// The sentence that describes the error.
    pub fn message(&self) -> (r: String)
        ensures
            r@ == message_spec(*self),
    {
        match self {
            PluginManErr::FileNotFound(path) => "File not found: ".to_string().concat(path.as_str()),
            PluginManErr::BadFile(path) => "Provided file is not a wasm file or has no stem: ".to_string().concat(
                path.as_str(),
            ),
            PluginManErr::PluginError(e) => match e {
                Some(m) => "A plugin error occurred: ".to_string().concat(m.as_str()),
                None => "A plugin error occurred: No error message returned".to_string(),
            },
            PluginManErr::PluginNotLoaded(path) => "Plugin: ".to_string().concat(path.as_str()).concat(
                " is not loaded",
            ),
            PluginManErr::PluginAlreadyLoaded(path) => "The plugin: ".to_string().concat(path.as_str()).concat(
                " was already loaded",
            ),
            PluginManErr::MetadataNotFound(path) => "Metadata for plugin: ".to_string().concat(
                path.as_str(),
            ).concat(" not found. Ensure it has the same name as the plugin and is json type whilst being in the same (valid) directory as the plugin"),
            PluginManErr::InvalidMeta(path) => "Metadata found for: ".to_string().concat(path.as_str()).concat(
                " is invalid",
            ),
            PluginManErr::PluginManNotLoaded => "The plugin manager has not been loaded.".to_string(),
        }
    }
}

/// A loaded, executable module instance.
pub trait ModuleInstance {
    /// Whether the module exports a function of this name.
    fn has_function(&self, name: &str) -> bool;

    /// Runs an exported function with no input; an error carries the
    /// module's message.
    fn call_function(&mut self, name: &str) -> Result<(), String>;
}

/// What became of a call into one module.
#[derive(Clone, Debug, PartialEq)]
pub enum CallOutcome {
    /// The module does not export the function; nothing was called.
    NotExported,
    Succeeded,
    /// The call failed with the module's message.
    Failed(String),
}

/// Makes module instances with the host bridge attached.
pub trait ModuleBuilder<H> {
    /// Builds the module in the file at `path`, with `config` as its initial
    /// key/value environment.
    fn build(&self, path: &str, config: &Option<PluginConfig>) -> Result<H, String>;
}

/// What the embedding process read of a candidate module file.
#[derive(Clone, Debug)]
pub struct ModuleFile {
    pub exists: bool,
    /// The first bytes of the file (at most four are looked at).
    pub head: Vec<u8>,
}

/// A registry entry.
pub struct PluginInode<H> {
    pub plugin: H,
    pub config: Option<PluginConfig>,
    pub fad: Option<FadConfig>,
}

/// A registry entry as a value: key, resolved configuration, UI contribution.
pub type EntryV = (Seq<char>, Option<Map<Seq<char>, ConfigTypes>>, Option<FadV>);

pub open spec fn config_view(c: Option<PluginConfig>) -> Option<Map<Seq<char>, ConfigTypes>> {
    match c {
        Some(p) => Some(p@),
        None => None,
    }
}

pub open spec fn fad_view(f: Option<FadConfig>) -> Option<FadV> {
    match f {
        Some(x) => Some(x@),
        None => None,
    }
}

impl<H> PluginInode<H> {
    pub open spec fn view(&self) -> (Option<Map<Seq<char>, ConfigTypes>>, Option<FadV>) {
        (config_view(self.config), fad_view(self.fad))
    }

    pub open spec fn wf(&self) -> bool {
        self.config is Some ==> self.config->0.wf()
    }
}

/// The registry holds the key.
pub open spec fn has_key(s: Seq<EntryV>, k: Seq<char>) -> bool {
    exists|i: int| 0 <= i < s.len() && (#[trigger] s[i]).0 == k
}

pub open spec fn keys_unique(s: Seq<EntryV>) -> bool {
    forall|i: int, j: int| 0 <= i < j < s.len() ==> (#[trigger] s[i]).0 != (#[trigger] s[j]).0
}

/// The four bytes that open a module binary.
pub open spec fn magic_ok(head: Seq<u8>) -> bool {
    head.len() >= 4 && head[0] == 0x00 && head[1] == 0x61 && head[2] == 0x73 && head[3] == 0x6d
}

/// A module file name: the `wasm` extension and a stem without a dot.
pub open spec fn module_name_ok(p: Seq<char>) -> bool {
    extension_spec(p) == "wasm"@ && file_name_spec(p) is Some && !has_dot(name_stem(file_name_spec(p)->0))
}

/// Whether a file is a candidate module: its name and its first bytes.
pub open spec fn module_file_ok(p: Seq<char>, head: Seq<u8>) -> bool {
    module_name_ok(p) && magic_ok(head)
}

pub struct AdiPluginMan<H> {
    plugin_meta: Vec<(String, PluginInode<H>)>,
}

impl<H> AdiPluginMan<H> {
    /// The entries in the order in which they were loaded.
    pub closed spec fn view(&self) -> Seq<EntryV> {
        self.plugin_meta@.map_values(|e: (String, PluginInode<H>)| (e.0@, e.1@.0, e.1@.1))
    }

    pub closed spec fn wf(&self) -> bool {
        &&& keys_unique(self@)
        &&& forall|i: int| 0 <= i < self.plugin_meta@.len() ==> (#[trigger] self.plugin_meta@[i]).1.wf()
    }

    /// A well-formed registry holds each key at most once.
    pub proof fn lemma_keys_unique(&self)
        requires
            self.wf(),
        ensures
            keys_unique(self@),
    {
    }

    pub fn new() -> (r: AdiPluginMan<H>)
        ensures
            r.wf(),
            r@ == Seq::<EntryV>::empty(),
    {
        let r = AdiPluginMan { plugin_meta: Vec::new() };
        assert(r@ =~= Seq::<EntryV>::empty());
        r
    }

    /// Index of the entry with key `path`.
    fn find(&self, path: &str) -> (r: Option<usize>)
        requires
            self.wf(),
        ensures
            match r {
                Some(i) => i < self@.len() && self@[i as int].0 == path@,
                None => !has_key(self@, path@),
            },
    {
        let mut i: usize = 0;
        while i < self.plugin_meta.len()
            invariant
                i <= self.plugin_meta@.len(),
                self@.len() == self.plugin_meta@.len(),
                forall|j: int| 0 <= j < i ==> (#[trigger] self@[j]).0 != path@,
            decreases self.plugin_meta@.len() - i,
        {
            assert(self@[i as int].0 == self.plugin_meta@[i as int].0@);
            if text_eq(self.plugin_meta[i].0.as_str(), path) {
                return Some(i);
            }
            i = i + 1;
        }
        None
    }

    /// Whether a module is loaded under `path`.
    pub fn is_loaded(&self, path: &str) -> (r: bool)
        requires
            self.wf(),
        ensures
            r == has_key(self@, path@),
    {
        self.find(path).is_some()
    }

    /// The keys of the loaded modules, in load order.
    pub fn loaded_keys(&self) -> (r: Vec<String>)
        ensures
            r@.map_values(|s: String| s@) == self@.map_values(|e: EntryV| e.0),
    {
        let mut out: Vec<String> = Vec::new();
        let mut i: usize = 0;
        while i < self.plugin_meta.len()
            invariant
                i <= self.plugin_meta@.len(),
                self@.len() == self.plugin_meta@.len(),
                out@.map_values(|s: String| s@) == self@.subrange(0, i as int).map_values(|e: EntryV| e.0),
            decreases self.plugin_meta@.len() - i,
        {
            assert(self@[i as int].0 == self.plugin_meta@[i as int].0@);
            let ghost before = out@;
            out.push(self.plugin_meta[i].0.clone());
            assert(out@.map_values(|s: String| s@) =~= before.map_values(|s: String| s@).push(self@[i as int].0));
            assert(self@.subrange(0, i + 1).map_values(|e: EntryV| e.0) =~= self@.subrange(0, i as int).map_values(|e: EntryV| e.0).push(self@[i as int].0));
            i = i + 1;
            assert(out@.map_values(|s: String| s@) =~= self@.subrange(0, i as int).map_values(|e: EntryV| e.0));
        }
        assert(self@.subrange(0, i as int) =~= self@);
        out
    }
}

/// The registry after the entry at `i` was removed and its module loaded
/// again with the metadata document `metadata`.
pub open spec fn reloaded(s: Seq<EntryV>, i: int, key: Seq<char>, metadata: Option<JsonValue>) -> Seq<EntryV> {
    s.remove(i).push((key, loaded_config(metadata), loaded_fad(metadata)))
}

/// After a reload, the one entry under the key is the last one, and its
/// configuration and UI contribution are those of the metadata document read
/// at reload time, whatever the entry held before.
pub proof fn lemma_reload_reflects_metadata(s: Seq<EntryV>, i: int, key: Seq<char>, metadata: Option<JsonValue>)
    requires
        keys_unique(s),
        0 <= i < s.len(),
        s[i].0 == key,
    ensures
        keys_unique(reloaded(s, i, key, metadata)),
        reloaded(s, i, key, metadata).len() == s.len(),
        reloaded(s, i, key, metadata).last() == (key, loaded_config(metadata), loaded_fad(metadata)),
        forall|j: int| 0 <= j < s.len() - 1 ==> (#[trigger] reloaded(s, i, key, metadata)[j]).0 != key,
{
    let r = s.remove(i);
    let t = reloaded(s, i, key, metadata);
    assert forall|j: int| 0 <= j < r.len() implies (#[trigger] r[j]).0 != key by {
        if j < i {
            assert(r[j] == s[j]);
        } else {
            assert(r[j] == s[j + 1]);
        }
    }
    assert forall|a: int, b: int| 0 <= a < b < t.len() implies (#[trigger] t[a]).0 != (#[trigger] t[b]).0 by {
        if b == t.len() - 1 {
            assert(t[a] == r[a]);
        } else {
            assert(t[a] == r[a] && t[b] == r[b]);
            if a < i {
                assert(r[a] == s[a]);
            } else {
                assert(r[a] == s[a + 1]);
            }
            if b < i {
                assert(r[b] == s[b]);
            } else {
                assert(r[b] == s[b + 1]);
            }
        }
    }
    assert forall|j: int| 0 <= j < s.len() - 1 implies (#[trigger] t[j]).0 != key by {
        assert(t[j] == r[j]);
    }
}

/// After a module is registered under a key, the key is present: a second
/// load of the same key is refused with `PluginAlreadyLoaded` and leaves the
/// registry as it is (see `load_plugin`).
pub proof fn lemma_loaded_key_present(s: Seq<EntryV>, e: EntryV)
    ensures
        has_key(s.push(e), e.0),
{
    assert(s.push(e)[s.len() as int] == e);
}

/// Whether the name of a module file is acceptable.
pub fn valid_module_name(path: &str) -> (r: bool)
    ensures
        r == module_name_ok(path@),
{
    let ext = extension_from_back(path);
    if !text_eq(ext.as_str(), "wasm") {
        return false;
    }
    match file_stem(path) {
        Some(stem) => !contains_dot(stem.as_str()),
        None => false,
    }
}

/// Whether the first bytes of a file are those of a module binary.
pub fn valid_magic(head: &Vec<u8>) -> (r: bool)
    ensures
        r == magic_ok(head@),
{
    head.len() >= 4 && head[0] == 0x00u8 && head[1] == 0x61u8 && head[2] == 0x73u8 && head[3] == 0x6du8
}

/// Whether a file is a candidate module, by its name and first bytes.
pub fn plugin_file_validity(path: &str, head: &Vec<u8>) -> (r: bool)
    ensures
        r == module_file_ok(path@, head@),
{
    valid_module_name(path) && valid_magic(head)
}

impl<H> AdiPluginMan<H> {
    /// The candidate module files of a directory listing: `listing` holds,
    /// for each file directly in the directory or in one of its direct
    /// subdirectories, its path and first bytes; `None` when the directory
    /// does not exist, is not a directory or could not be read.
    pub fn scan_dir(&self, listing: Option<Vec<(String, Vec<u8>)>>) -> (r: Option<Vec<String>>)
        ensures
            listing is None ==> r is None,
            listing is Some ==> r is Some && r->0@.map_values(|s: String| s@) == listing->0@.filter(
                |f: (String, Vec<u8>)| module_file_ok(f.0@, f.1@),
            ).map_values(|f: (String, Vec<u8>)| f.0@),
    {
        let files = match listing {
            None => {
                return None;
            },
            Some(files) => files,
        };
        let mut out: Vec<String> = Vec::new();
        let mut i: usize = 0;
        while i < files.len()
            invariant
                i <= files@.len(),
                out@.map_values(|s: String| s@) == files@.subrange(0, i as int).filter(
                    |f: (String, Vec<u8>)| module_file_ok(f.0@, f.1@),
                ).map_values(|f: (String, Vec<u8>)| f.0@),
            decreases files@.len() - i,
        {
            proof {
                let p = files@.subrange(0, i + 1);
                assert(p.drop_last() =~= files@.subrange(0, i as int));
                reveal_with_fuel(Seq::filter, 1);
            }
            let ghost before = out@;
            if plugin_file_validity(files[i].0.as_str(), &files[i].1) {
                out.push(files[i].0.clone());
                assert(out@.map_values(|s: String| s@) =~= before.map_values(|s: String| s@).push(files@[i as int].0@));
            }
            i = i + 1;
            assert(out@.map_values(|s: String| s@) =~= files@.subrange(0, i as int).filter(
                |f: (String, Vec<u8>)| module_file_ok(f.0@, f.1@),
            ).map_values(|f: (String, Vec<u8>)| f.0@));
        }
        assert(files@.subrange(0, files@.len() as int) =~= files@);
        Some(out)
    }
}

impl<H: ModuleInstance> AdiPluginMan<H> {
    /// Loads the module file at `path`. `file` is what was read of the file;
    /// `metadata` is the parsed metadata document beside it (`None` when it
    /// is missing, unreadable or not JSON). The checks come in this order:
    /// the key is not loaded, the file exists, the name is that of a module
    /// file, the file opens with the module magic. Then the instance is
    /// built with the resolved configuration, its `init` (if it exports one)
    /// is run, and only on success is the module registered.
    pub fn load_plugin<B: ModuleBuilder<H>>(
        &mut self,
        path: String,
        file: &ModuleFile,
        metadata: Option<JsonValue>,
        builder: &B,
    ) -> (r: Result<(), PluginManErr>)
        requires
            old(self).wf(),
        ensures
            final(self).wf(),
            has_key(old(self)@, path@) ==> r == Err::<(), PluginManErr>(PluginManErr::PluginAlreadyLoaded(path))
                && *final(self) == *old(self),
            !has_key(old(self)@, path@) && !file.exists ==> r == Err::<(), PluginManErr>(
                PluginManErr::FileNotFound(path),
            ) && *final(self) == *old(self),
            file.exists && !has_key(old(self)@, path@) && !module_file_ok(path@, file.head@) ==> r == Err::<
                (),
                PluginManErr,
            >(PluginManErr::BadFile(path)) && *final(self) == *old(self),
            file.exists && !has_key(old(self)@, path@) && module_file_ok(path@, file.head@) ==> {
                ||| r is Ok && final(self)@ == old(self)@.push((path@, loaded_config(metadata), loaded_fad(metadata)))
                ||| (r matches Err(PluginManErr::PluginError(_))) && *final(self) == *old(self)
            },
    {
        if self.find(path.as_str()).is_some() {
            return Err(PluginManErr::PluginAlreadyLoaded(path));
        }
        if !file.exists {
            return Err(PluginManErr::FileNotFound(path));
        }
        if !valid_module_name(path.as_str()) || !valid_magic(&file.head) {
            return Err(PluginManErr::BadFile(path));
        }
        let ghost cfg = loaded_config(metadata);
        let ghost fad_v = loaded_fad(metadata);
        let (config, fad) = resolve_metadata(metadata);
        let mut instance = match builder.build(path.as_str(), &config) {
            Ok(h) => h,
            Err(e) => {
                return Err(PluginManErr::PluginError(Some(e)));
            },
        };
        if instance.has_function("init") {
            if let Err(e) = instance.call_function("init") {
                return Err(PluginManErr::PluginError(Some(e)));
            }
        }
        let ghost old_view = self@;
        let inode = PluginInode { plugin: instance, config, fad };
        assert(inode@ == (cfg, fad_v));
        self.plugin_meta.push((path, inode));
        proof {
            assert(self@ =~= old_view.push((path@, cfg, fad_v)));
            assert(keys_unique(self@)) by {
                assert forall|i: int, j: int| 0 <= i < j < self@.len() implies (#[trigger] self@[i]).0 != (#[trigger] self@[j]).0 by {
                    if j == self@.len() - 1 {
                        assert(self@[i] == old_view[i]);
                    } else {
                        assert(self@[i] == old_view[i] && self@[j] == old_view[j]);
                    }
                }
            }
            assert forall|i: int| 0 <= i < self.plugin_meta@.len() implies (#[trigger] self.plugin_meta@[i]).1.wf() by {
                if i < self.plugin_meta@.len() - 1 {
                    assert(self.plugin_meta@[i] == old(self).plugin_meta@[i]);
                }
            }
        }
        Ok(())
    }

    /// Removes the module under `path`. Its `stop` (if it exports one) is
    /// run; an error from it is returned, but the module is removed whatever
    /// `stop` did.
    pub fn remove_plugin(&mut self, path: String) -> (r: Result<(), PluginManErr>)
        requires
            old(self).wf(),
        ensures
            final(self).wf(),
            !has_key(old(self)@, path@) ==> r == Err::<(), PluginManErr>(PluginManErr::PluginNotLoaded(path))
                && final(self)@ == old(self)@,
            !has_key(final(self)@, path@),
            has_key(old(self)@, path@) ==> (r is Ok || (r matches Err(PluginManErr::PluginError(Some(_)))))
                && exists|i: int| 0 <= i < old(self)@.len() && old(self)@[i].0 == path@ && final(self)@ == old(self)@.remove(i),
    {
        let idx = match self.find(path.as_str()) {
            Some(i) => i,
            None => {
                return Err(PluginManErr::PluginNotLoaded(path));
            },
        };
        let ghost old_view = self@;
        let ghost old_meta = self.plugin_meta@;
        let (_, mut entry) = self.plugin_meta.remove(idx);
        proof {
            assert(self@ =~= old_view.remove(idx as int));
            assert(keys_unique(self@)) by {
                assert forall|i: int, j: int| 0 <= i < j < self@.len() implies (#[trigger] self@[i]).0 != (#[trigger] self@[j]).0 by {
                    if i < idx {
                        if j < idx {
                            assert(self@[i] == old_view[i] && self@[j] == old_view[j]);
                        } else {
                            assert(self@[i] == old_view[i] && self@[j] == old_view[j + 1]);
                        }
                    } else {
                        assert(self@[i] == old_view[i + 1] && self@[j] == old_view[j + 1]);
                    }
                }
            }
            assert forall|i: int| 0 <= i < self.plugin_meta@.len() implies (#[trigger] self.plugin_meta@[i]).1.wf() by {
                if i < idx {
                    assert(self.plugin_meta@[i] == old_meta[i]);
                } else {
                    assert(self.plugin_meta@[i] == old_meta[i + 1]);
                }
            }
        }
        if entry.plugin.has_function("stop") {
            if let Err(e) = entry.plugin.call_function("stop") {
                return Err(PluginManErr::PluginError(Some(e)));
            }
        }
        Ok(())
    }

    /// Removes the module under `path` and loads it again from what is on
    /// disk now. When the removal fails, its error is returned and no load is
    /// attempted.
    pub fn reload_plugin<B: ModuleBuilder<H>>(
        &mut self,
        path: String,
        file: &ModuleFile,
        metadata: Option<JsonValue>,
        builder: &B,
    ) -> (r: Result<(), PluginManErr>)
        requires
            old(self).wf(),
        ensures
            final(self).wf(),
            !has_key(old(self)@, path@) ==> r == Err::<(), PluginManErr>(PluginManErr::PluginNotLoaded(path))
                && final(self)@ == old(self)@,
            has_key(old(self)@, path@) ==> exists|i: int|
                0 <= i < old(self)@.len() && old(self)@[i].0 == path@ && {
                    ||| (r matches Err(PluginManErr::PluginError(_))) && final(self)@ == old(self)@.remove(i)
                    ||| r is Ok && file.exists && module_file_ok(path@, file.head@) && final(self)@
                        == reloaded(old(self)@, i, path@, metadata)
                    ||| !file.exists && r == Err::<(), PluginManErr>(PluginManErr::FileNotFound(path)) && final(self)@
                        == old(self)@.remove(i)
                    ||| file.exists && !module_file_ok(path@, file.head@) && r == Err::<(), PluginManErr>(
                        PluginManErr::BadFile(path),
                    ) && final(self)@ == old(self)@.remove(i)
                },
    {
        let ghost v0 = self@;
        let r = self.remove_plugin(path.clone());
        if r.is_err() {
            return r;
        }
        let ghost v1 = self@;
        proof {
            let i = choose|i: int| 0 <= i < v0.len() && v0[i].0 == path@ && v1 == v0.remove(i);
            assert(!has_key(v1, path@)) by {
                if has_key(v1, path@) {
                    let j = choose|j: int| 0 <= j < v1.len() && (#[trigger] v1[j]).0 == path@;
                    if j < i {
                        assert(v1[j] == v0[j]);
                    } else {
                        assert(v1[j] == v0[j + 1]);
                    }
                }
            }
        }
        self.load_plugin(path, file, metadata, builder)
    }

    /// Calls `func` on every loaded module that exports it; a module without
    /// it is passed over, which is no failure. Returns, for every module in
    /// load order, its key and what became of the call; the registry is
    /// unchanged.
    pub fn call_func_plugins(&mut self, func: &str) -> (r: Vec<(String, CallOutcome)>)
        requires
            old(self).wf(),
        ensures
            final(self).wf(),
            final(self)@ == old(self)@,
            r@.len() == old(self)@.len(),
            forall|i: int| 0 <= i < r@.len() ==> (#[trigger] r@[i]).0@ == old(self)@[i].0,
    {
        let mut report: Vec<(String, CallOutcome)> = Vec::new();
        let mut i: usize = 0;
        while i < self.plugin_meta.len()
            invariant
                self.wf(),
                self@ == old(self)@,
                i <= self.plugin_meta@.len(),
                self@.len() == self.plugin_meta@.len(),
                report@.len() == i,
                forall|j: int| 0 <= j < i ==> (#[trigger] report@[j]).0@ == old(self)@[j].0,
            decreases self.plugin_meta@.len() - i,
        {
            let outcome = self.call_at(i, func);
            assert(self@[i as int].0 == self.plugin_meta@[i as int].0@);
            let key = self.plugin_meta[i].0.clone();
            report.push((key, outcome));
            i = i + 1;
        }
        report
    }

    /// Calls `func` on the module at index `i`, if it exports it.
    fn call_at(&mut self, i: usize, func: &str) -> (r: CallOutcome)
        requires
            old(self).wf(),
            i < old(self).plugin_meta@.len(),
        ensures
            final(self).wf(),
            final(self)@ == old(self)@,
            final(self).plugin_meta@.len() == old(self).plugin_meta@.len(),
    {
        let ghost before = self.plugin_meta@;
        let (key, mut entry) = self.plugin_meta.remove(i);
        let outcome = if entry.plugin.has_function(func) {
            match entry.plugin.call_function(func) {
                Ok(()) => CallOutcome::Succeeded,
                Err(e) => CallOutcome::Failed(e),
            }
        } else {
            CallOutcome::NotExported
        };
        self.plugin_meta.insert(i, (key, entry));
        proof {
            assert(self.plugin_meta@ =~= before.update(i as int, self.plugin_meta@[i as int]));
            assert(self@ =~= old(self)@);
            assert forall|j: int| 0 <= j < self.plugin_meta@.len() implies (#[trigger] self.plugin_meta@[j]).1.wf() by {
                assert(self.plugin_meta@[j].1.config == before[j].1.config);
            }
        }
        outcome
    }

    /// Calls `func` on the module under `plugin`: `None` when no module is
    /// loaded under that key; the registry is unchanged.
    pub fn call_plugin(&mut self, func: &str, plugin: &str) -> (r: Option<CallOutcome>)
        requires
            old(self).wf(),
        ensures
            final(self).wf(),
            final(self)@ == old(self)@,
            r is Some <==> has_key(old(self)@, plugin@),
    {
        match self.find(plugin) {
            Some(i) => Some(self.call_at(i, func)),
            None => None,
        }
    }

    /// Calls `func` on the module under `plugin`: false when no module is
    /// loaded under that key or the call failed; a module that does not
    /// export `func` is passed over, which is no failure.
    pub fn call_plugin_func(&mut self, func: &str, plugin: &str) -> (r: bool)
        requires
            old(self).wf(),
        ensures
            final(self).wf(),
            final(self)@ == old(self)@,
            r ==> has_key(old(self)@, plugin@),
    {
        match self.call_plugin(func, plugin) {
            Some(CallOutcome::Failed(_)) => false,
            Some(_) => true,
            None => false,
        }
    }
}

/// The configuration of an entry after `key` was set to `value`.
pub open spec fn config_with(c: Option<Map<Seq<char>, ConfigTypes>>, key: Seq<char>, value: ConfigTypes) -> Option<
    Map<Seq<char>, ConfigTypes>,
> {
    match c {
        Some(m) => Some(m.insert(key, value)),
        None => Some(Map::empty().insert(key, value)),
    }
}

impl<H> AdiPluginMan<H> {
    /// Sets `key` of the module at `path` to `value`: rewrites the set value
    /// in the module's metadata document `doc` and, when the module is
    /// loaded, in its resolved configuration. Returns the document to be
    /// written back.
    pub fn set_plugin_config(&mut self, path: String, key: String, value: ConfigTypes, doc: JsonValue) -> (r:
        Result<JsonValue, PluginManErr>)
        requires
            old(self).wf(),
        ensures
            final(self).wf(),
            r is Ok <==> rewrite_ok(doc, key@, value),
            r matches Ok(d) ==> rewritten(doc, d, key@, value) && metadata_config(d) == Some(
                metadata_config(doc)->0.insert(key@, value),
            ),
            r is Err ==> r matches Err(PluginManErr::InvalidMeta(_)),
            r is Err || !has_key(old(self)@, path@) ==> final(self)@ == old(self)@,
            r is Ok && has_key(old(self)@, path@) ==> exists|i: int|
                0 <= i < old(self)@.len() && old(self)@[i].0 == path@ && final(self)@ == old(self)@.update(
                    i,
                    (path@, config_with(old(self)@[i].1, key@, value), old(self)@[i].2),
                ),
    {
        let d = match set_entry_value(doc, key.as_str(), &value) {
            Ok(d) => d,
            Err(e) => {
                return Err(e);
            },
        };
        let i = match self.find(path.as_str()) {
            Some(i) => i,
            None => {
                return Ok(d);
            },
        };
        let ghost before = self.plugin_meta@;
        let ghost old_view = self@;
        let (k, mut entry) = self.plugin_meta.remove(i);
        let ghost kv = key@;
        match entry.config {
            Some(ref mut c) => {
                c.insert(key, value);
            },
            None => {
                let mut c = PluginConfig::new();
                c.insert(key, value);
                entry.config = Some(c);
            },
        }
        self.plugin_meta.insert(i, (k, entry));
        proof {
            assert(self.plugin_meta@ =~= before.update(i as int, self.plugin_meta@[i as int]));
            assert(self@ =~= old_view.update(i as int, (path@, config_with(old_view[i as int].1, kv, value), old_view[i as int].2)));
            assert(keys_unique(self@)) by {
                assert forall|a: int, b: int| 0 <= a < b < self@.len() implies (#[trigger] self@[a]).0 != (#[trigger] self@[b]).0 by {
                    assert(self@[a].0 == old_view[a].0 && self@[b].0 == old_view[b].0);
                }
            }
            assert forall|j: int| 0 <= j < self.plugin_meta@.len() implies (#[trigger] self.plugin_meta@[j]).1.wf() by {
                if j != i {
                    assert(self.plugin_meta@[j] == before[j]);
                }
            }
        }
        Ok(d)
    }

    /// The resolved configuration of the module under `path`.
    pub fn get_plugin_config(&self, path: &str) -> (r: Result<Option<PluginConfig>, PluginManErr>)
        requires
            self.wf(),
        ensures
            !has_key(self@, path@) ==> (r matches Err(PluginManErr::PluginNotLoaded(p)) && p@ == path@),
            has_key(self@, path@) ==> (r matches Ok(c) && exists|i: int|
                0 <= i < self@.len() && self@[i].0 == path@ && config_view(c) == self@[i].1),
            r matches Ok(Some(c)) ==> c.wf(),
    {
        match self.find(path) {
            None => Err(PluginManErr::PluginNotLoaded(path.to_string())),
            Some(i) => {
                assert(self.plugin_meta@[i as int].1.wf());
                match &self.plugin_meta[i].1.config {
                    Some(c) => Ok(Some(c.copy())),
                    None => Ok(None),
                }
            },
        }
    }

    /// The UI contribution of the module under `path`; `None` when it is not
    /// loaded or declares none.
    pub fn get_plugin_fad_config(&self, path: &str) -> (r: Option<FadConfig>)
        requires
            self.wf(),
        ensures
            !has_key(self@, path@) ==> r is None,
            has_key(self@, path@) ==> exists|i: int| 0 <= i < self@.len() && self@[i].0 == path@ && fad_view(r) == self@[i].2,
    {
        match self.find(path) {
            None => None,
            Some(i) => match &self.plugin_meta[i].1.fad {
                Some(f) => Some(f.copy()),
                None => None,
            },
        }
    }
}

pub open spec fn opt_s<T>(o: Option<Seq<T>>) -> Seq<T> {
    match o {
        Some(s) => s,
        None => Seq::empty(),
    }
}

pub open spec fn filter_view(f: Option<&str>) -> Option<Seq<char>> {
    match f {
        Some(l) => Some(l@),
        None => None,
    }
}

/// A button is at the location asked for; with no location asked for, every
/// button is.
pub open spec fn location_matches(filter: Option<Seq<char>>, b: FadButton) -> bool {
    match filter {
        None => true,
        Some(l) => b.location is Some && b.location->0@ == l,
    }
}

pub open spec fn matched(bs: Seq<FadButton>, filter: Option<Seq<char>>, key: Seq<char>) -> Seq<(Seq<char>, FadButton)> {
    bs.filter(|b: FadButton| location_matches(filter, b)).map_values(|b: FadButton| (key, b))
}

pub open spec fn panels_matched(ps: Seq<PanelV>, filter: Option<Seq<char>>, key: Seq<char>) -> Seq<(Seq<char>, FadButton)>
    decreases ps.len(),
{
    if ps.len() == 0 {
        Seq::empty()
    } else {
        panels_matched(ps.drop_last(), filter, key) + matched(opt_s(ps.last().1), filter, key)
    }
}

/// The buttons of one module that match: its top-level buttons, then those
/// of its screens, then those of its popups.
pub open spec fn entry_matched(e: EntryV, filter: Option<Seq<char>>) -> Seq<(Seq<char>, FadButton)> {
    match e.2 {
        None => Seq::empty(),
        Some(f) => matched(opt_s(f.2), filter, e.0) + panels_matched(opt_s(f.0), filter, e.0) + panels_matched(
            opt_s(f.1),
            filter,
            e.0,
        ),
    }
}

/// The buttons of all modules, in load order, that match the filter.
pub open spec fn buttons_of(s: Seq<EntryV>, filter: Option<Seq<char>>) -> Seq<(Seq<char>, FadButton)>
    decreases s.len(),
{
    if s.len() == 0 {
        Seq::empty()
    } else {
        buttons_of(s.drop_last(), filter) + entry_matched(s.last(), filter)
    }
}

pub open spec fn pairs_view(v: Seq<(String, FadButton)>) -> Seq<(Seq<char>, FadButton)> {
    v.map_values(|x: (String, FadButton)| (x.0@, x.1))
}

/// The screens of all modules, in load order.
pub open spec fn screens_of(s: Seq<EntryV>) -> Seq<(Seq<char>, PanelV)>
    decreases s.len(),
{
    if s.len() == 0 {
        Seq::empty()
    } else {
        screens_of(s.drop_last()) + match s.last().2 {
            Some(f) => opt_s(f.0).map_values(|p: PanelV| (s.last().0, p)),
            None => Seq::empty(),
        }
    }
}

/// The popups of all modules, in load order.
pub open spec fn popups_of(s: Seq<EntryV>) -> Seq<(Seq<char>, PanelV)>
    decreases s.len(),
{
    if s.len() == 0 {
        Seq::empty()
    } else {
        popups_of(s.drop_last()) + match s.last().2 {
            Some(f) => opt_s(f.1).map_values(|p: PanelV| (s.last().0, p)),
            None => Seq::empty(),
        }
    }
}

fn location_matches_exec(filter: Option<&str>, b: &FadButton) -> (r: bool)
    ensures
        r == location_matches(filter_view(filter), *b),
{
    match filter {
        None => true,
        Some(l) => match &b.location {
            Some(bl) => text_eq(bl.as_str(), l),
            None => false,
        },
    }
}

/// Appends the buttons of `buttons` that match, paired with `key`.
fn push_matching(out: &mut Vec<(String, FadButton)>, key: &String, buttons: &Option<Vec<FadButton>>, filter: Option<&str>)
    ensures
        pairs_view(final(out)@) == pairs_view(old(out)@) + matched(opt_s(opt_seq(*buttons)), filter_view(filter), key@),
{
    let ghost fv = filter_view(filter);
    match buttons {
        None => {
            assert(matched(Seq::<FadButton>::empty(), fv, key@) =~= Seq::empty());
            assert(pairs_view(out@) + Seq::empty() =~= pairs_view(out@));
        },
        Some(v) => {
            let ghost start = pairs_view(out@);
            let mut i: usize = 0;
            while i < v.len()
                invariant
                    i <= v@.len(),
                    pairs_view(out@) == start + matched(v@.subrange(0, i as int), fv, key@),
                    fv == filter_view(filter),
                decreases v@.len() - i,
            {
                proof {
                    let p = v@.subrange(0, i + 1);
                    assert(p.drop_last() =~= v@.subrange(0, i as int));
                    reveal_with_fuel(Seq::filter, 1);
                }
                let ghost before = out@;
                if location_matches_exec(filter, &v[i]) {
                    out.push((key.clone(), v[i].copy()));
                    assert(pairs_view(out@) =~= pairs_view(before).push((key@, v@[i as int])));
                }
                i = i + 1;
                assert(pairs_view(out@) =~= start + matched(v@.subrange(0, i as int), fv, key@));
            }
            assert(v@.subrange(0, v@.len() as int) =~= v@);
        },
    }
}

impl<H> AdiPluginMan<H> {
    /// The buttons that all modules contribute, paired with the module's key:
    /// per module its top-level buttons, then those of its screens, then
    /// those of its popups. With a location, only the buttons placed there;
    /// with a location outside the allowed set, none.
    pub fn get_all_buttons(&self, location_filter: Option<&str>) -> (r: Vec<(String, FadButton)>)
        ensures
            (location_filter matches Some(l) && !location_allowed(l@)) ==> r@.len() == 0,
            !(location_filter matches Some(l) && !location_allowed(l@)) ==> pairs_view(r@) == buttons_of(
                self@,
                filter_view(location_filter),
            ),
    {
        let mut all_buttons: Vec<(String, FadButton)> = Vec::new();
        if let Some(location) = location_filter {
            if !is_allowed_location(location) {
                return all_buttons;
            }
        }
        let ghost fv = filter_view(location_filter);
        let mut i: usize = 0;
        while i < self.plugin_meta.len()
            invariant
                i <= self.plugin_meta@.len(),
                self@.len() == self.plugin_meta@.len(),
                fv == filter_view(location_filter),
                pairs_view(all_buttons@) == buttons_of(self@.subrange(0, i as int), fv),
            decreases self.plugin_meta@.len() - i,
        {
            let ghost e = self@[i as int];
            proof {
                assert(self@.subrange(0, i + 1).drop_last() =~= self@.subrange(0, i as int));
                assert(self@.subrange(0, i + 1).last() == e);
            }
            let key = &self.plugin_meta[i].0;
            assert(key@ == e.0);
            if let Some(fad_config) = &self.plugin_meta[i].1.fad {
                let ghost start = pairs_view(all_buttons@);
                push_matching(&mut all_buttons, key, &fad_config.buttons, location_filter);
                if let Some(screens) = &fad_config.screens {
                    let mut j: usize = 0;
                    let ghost mid = pairs_view(all_buttons@);
                    while j < screens.len()
                        invariant
                            j <= screens@.len(),
                            fv == filter_view(location_filter),
                            pairs_view(all_buttons@) == mid + panels_matched(screens_view(screens@).subrange(0, j as int), fv, key@),
                        decreases screens@.len() - j,
                    {
                        proof {
                            let ps = screens_view(screens@).subrange(0, j + 1);
                            assert(ps.drop_last() =~= screens_view(screens@).subrange(0, j as int));
                            assert(ps.last() == screens@[j as int]@);
                        }
                        push_matching(&mut all_buttons, key, &screens[j].buttons, location_filter);
                        j = j + 1;
                    }
                    assert(screens_view(screens@).subrange(0, screens@.len() as int) =~= screens_view(screens@));
                } else {
                    assert(panels_matched(Seq::<PanelV>::empty(), fv, key@) =~= Seq::empty());
                    assert(pairs_view(all_buttons@) + Seq::empty() =~= pairs_view(all_buttons@));
                }
                let ghost mid2 = pairs_view(all_buttons@);
                if let Some(popups) = &fad_config.popups {
                    let mut j: usize = 0;
                    while j < popups.len()
                        invariant
                            j <= popups@.len(),
                            fv == filter_view(location_filter),
                            pairs_view(all_buttons@) == mid2 + panels_matched(popups_view(popups@).subrange(0, j as int), fv, key@),
                        decreases popups@.len() - j,
                    {
                        proof {
                            let ps = popups_view(popups@).subrange(0, j + 1);
                            assert(ps.drop_last() =~= popups_view(popups@).subrange(0, j as int));
                            assert(ps.last() == popups@[j as int]@);
                        }
                        push_matching(&mut all_buttons, key, &popups[j].buttons, location_filter);
                        j = j + 1;
                    }
                    assert(popups_view(popups@).subrange(0, popups@.len() as int) =~= popups_view(popups@));
                } else {
                    assert(panels_matched(Seq::<PanelV>::empty(), fv, key@) =~= Seq::empty());
                    assert(pairs_view(all_buttons@) + Seq::empty() =~= pairs_view(all_buttons@));
                }
                assert(pairs_view(all_buttons@) =~= start + entry_matched(e, fv));
            } else {
                assert(entry_matched(e, fv) =~= Seq::empty());
                assert(pairs_view(all_buttons@) + Seq::empty() =~= pairs_view(all_buttons@));
            }
            i = i + 1;
        }
        assert(self@.subrange(0, self@.len() as int) =~= self@);
        all_buttons
    }
}

pub open spec fn screens_pairs_view(v: Seq<(String, FadScreen)>) -> Seq<(Seq<char>, PanelV)> {
    v.map_values(|x: (String, FadScreen)| (x.0@, x.1@))
}

impl<H> AdiPluginMan<H> {
    /// The screens of all modules, each paired with its module's key.
    pub fn get_all_screens(&self) -> (r: Vec<(String, FadScreen)>)
        ensures
            screens_pairs_view(r@) == screens_of(self@),
    {
        let mut out: Vec<(String, FadScreen)> = Vec::new();
        let mut i: usize = 0;
        while i < self.plugin_meta.len()
            invariant
                i <= self.plugin_meta@.len(),
                self@.len() == self.plugin_meta@.len(),
                screens_pairs_view(out@) == screens_of(self@.subrange(0, i as int)),
            decreases self.plugin_meta@.len() - i,
        {
            let ghost e = self@[i as int];
            proof {
                assert(self@.subrange(0, i + 1).drop_last() =~= self@.subrange(0, i as int));
                assert(self@.subrange(0, i + 1).last() == e);
            }
            let key = &self.plugin_meta[i].0;
            let ghost start = screens_pairs_view(out@);
            let mut added = false;
            if let Some(fad_config) = &self.plugin_meta[i].1.fad {
                if let Some(items) = &fad_config.screens {
                    let mut j: usize = 0;
                    while j < items.len()
                        invariant
                            j <= items@.len(),
                            screens_pairs_view(out@) == start + screens_view(items@).subrange(0, j as int).map_values(|p: PanelV| (key@, p)),
                        decreases items@.len() - j,
                    {
                        let c = items[j].copy();
                        let ghost before = out@;
                        out.push((key.clone(), c));
                        assert(screens_pairs_view(out@) =~= screens_pairs_view(before).push((key@, c@)));
                        j = j + 1;
                        assert(screens_view(items@).subrange(0, j as int).map_values(|p: PanelV| (key@, p)) =~= screens_view(items@).subrange(0, j - 1).map_values(|p: PanelV| (key@, p)).push((key@, items@[j - 1]@)));
                    }
                    assert(screens_view(items@).subrange(0, items@.len() as int) =~= screens_view(items@));
                    added = true;
                }
            }
            if !added {
                assert(screens_pairs_view(out@) =~= start + Seq::empty());
            }
            i = i + 1;
        }
        assert(self@.subrange(0, self@.len() as int) =~= self@);
        out
    }
}

pub open spec fn popups_pairs_view(v: Seq<(String, FadPopup)>) -> Seq<(Seq<char>, PanelV)> {
    v.map_values(|x: (String, FadPopup)| (x.0@, x.1@))
}

impl<H> AdiPluginMan<H> {
    /// The popups of all modules, each paired with its module's key.
    pub fn get_all_popups(&self) -> (r: Vec<(String, FadPopup)>)
        ensures
            popups_pairs_view(r@) == popups_of(self@),
    {
        let mut out: Vec<(String, FadPopup)> = Vec::new();
        let mut i: usize = 0;
        while i < self.plugin_meta.len()
            invariant
                i <= self.plugin_meta@.len(),
                self@.len() == self.plugin_meta@.len(),
                popups_pairs_view(out@) == popups_of(self@.subrange(0, i as int)),
            decreases self.plugin_meta@.len() - i,
        {
            let ghost e = self@[i as int];
            proof {
                assert(self@.subrange(0, i + 1).drop_last() =~= self@.subrange(0, i as int));
                assert(self@.subrange(0, i + 1).last() == e);
            }
            let key = &self.plugin_meta[i].0;
            let ghost start = popups_pairs_view(out@);
            let mut added = false;
            if let Some(fad_config) = &self.plugin_meta[i].1.fad {
                if let Some(items) = &fad_config.popups {
                    let mut j: usize = 0;
                    while j < items.len()
                        invariant
                            j <= items@.len(),
                            popups_pairs_view(out@) == start + popups_view(items@).subrange(0, j as int).map_values(|p: PanelV| (key@, p)),
                        decreases items@.len() - j,
                    {
                        let c = items[j].copy();
                        let ghost before = out@;
                        out.push((key.clone(), c));
                        assert(popups_pairs_view(out@) =~= popups_pairs_view(before).push((key@, c@)));
                        j = j + 1;
                        assert(popups_view(items@).subrange(0, j as int).map_values(|p: PanelV| (key@, p)) =~= popups_view(items@).subrange(0, j - 1).map_values(|p: PanelV| (key@, p)).push((key@, items@[j - 1]@)));
                    }
                    assert(popups_view(items@).subrange(0, items@.len() as int) =~= popups_view(items@));
                    added = true;
                }
            }
            if !added {
                assert(popups_pairs_view(out@) =~= start + Seq::empty());
            }
            i = i + 1;
        }
        assert(self@.subrange(0, self@.len() as int) =~= self@);
        out
    }
}

impl<H> AdiPluginMan<H> {
    /// The buttons of all modules that have the given name.
    pub fn find_buttons_by_name(&self, name: &str) -> (r: Vec<(String, FadButton)>)
        ensures
            pairs_view(r@) == buttons_of(self@, None).filter(|p: (Seq<char>, FadButton)| p.1.name@ == name@),
    {
        let all = self.get_all_buttons(None);
        let ghost all_v = pairs_view(all@);
        assert(all_v == buttons_of(self@, None));
        let mut out: Vec<(String, FadButton)> = Vec::new();
        let mut i: usize = 0;
        while i < all.len()
            invariant
                i <= all@.len(),
                all_v == pairs_view(all@),
                pairs_view(out@) == all_v.subrange(0, i as int).filter(|p: (Seq<char>, FadButton)| p.1.name@ == name@),
            decreases all@.len() - i,
        {
            proof {
                let p = all_v.subrange(0, i + 1);
                assert(p.drop_last() =~= all_v.subrange(0, i as int));
                assert(p.last() == (all@[i as int].0@, all@[i as int].1));
                reveal_with_fuel(Seq::filter, 1);
            }
            let ghost before = out@;
            if text_eq(all[i].1.name.as_str(), name) {
                out.push((all[i].0.clone(), all[i].1.copy()));
                assert(pairs_view(out@) =~= pairs_view(before).push((all@[i as int].0@, all@[i as int].1)));
            }
            i = i + 1;
        }
        assert(all_v.subrange(0, all_v.len() as int) =~= all_v);
        out
    }
}

pub open spec fn labelled(bs: Seq<FadButton>, cb: Seq<char>, key: Seq<char>, pre: Seq<char>) -> Seq<(Seq<char>, Seq<char>)> {
    bs.filter(|b: FadButton| b.callback@ == cb).map_values(|b: FadButton| (key, pre + b.name@))
}

/// The label prefix of the buttons of the panel at `idx`.
pub open spec fn panel_prefix(kind: Seq<char>, idx: nat) -> Seq<char> {
    kind + decimal_spec(idx) + ":button:"@
}

pub open spec fn panels_labelled(ps: Seq<PanelV>, cb: Seq<char>, key: Seq<char>, kind: Seq<char>) -> Seq<(Seq<char>, Seq<char>)>
    decreases ps.len(),
{
    if ps.len() == 0 {
        Seq::empty()
    } else {
        panels_labelled(ps.drop_last(), cb, key, kind) + labelled(
            opt_s(ps.last().1),
            cb,
            key,
            panel_prefix(kind, (ps.len() - 1) as nat),
        )
    }
}

/// The items of one module whose callback is `cb`: `button:<name>` for a
/// top-level button, `screen_<i>:button:<name>` and `popup_<i>:button:<name>`
/// for a button of the screen or popup at index `i`.
pub open spec fn entry_items(e: EntryV, cb: Seq<char>) -> Seq<(Seq<char>, Seq<char>)> {
    match e.2 {
        None => Seq::empty(),
        Some(f) => labelled(opt_s(f.2), cb, e.0, "button:"@) + panels_labelled(opt_s(f.0), cb, e.0, "screen_"@)
            + panels_labelled(opt_s(f.1), cb, e.0, "popup_"@),
    }
}

pub open spec fn items_of(s: Seq<EntryV>, cb: Seq<char>) -> Seq<(Seq<char>, Seq<char>)>
    decreases s.len(),
{
    if s.len() == 0 {
        Seq::empty()
    } else {
        items_of(s.drop_last(), cb) + entry_items(s.last(), cb)
    }
}

pub open spec fn texts_view(v: Seq<(String, String)>) -> Seq<(Seq<char>, Seq<char>)> {
    v.map_values(|x: (String, String)| (x.0@, x.1@))
}

fn push_labelled(out: &mut Vec<(String, String)>, key: &String, buttons: &Option<Vec<FadButton>>, cb: &str, pre: &str)
    ensures
        texts_view(final(out)@) == texts_view(old(out)@) + labelled(opt_s(opt_seq(*buttons)), cb@, key@, pre@),
{
    match buttons {
        None => {
            assert(labelled(Seq::<FadButton>::empty(), cb@, key@, pre@) =~= Seq::empty());
            assert(texts_view(out@) + Seq::empty() =~= texts_view(out@));
        },
        Some(v) => {
            let ghost start = texts_view(out@);
            let mut i: usize = 0;
            while i < v.len()
                invariant
                    i <= v@.len(),
                    texts_view(out@) == start + labelled(v@.subrange(0, i as int), cb@, key@, pre@),
                decreases v@.len() - i,
            {
                proof {
                    let p = v@.subrange(0, i + 1);
                    assert(p.drop_last() =~= v@.subrange(0, i as int));
                    reveal_with_fuel(Seq::filter, 1);
                }
                let ghost before = out@;
                if text_eq(v[i].callback.as_str(), cb) {
                    let label = pre.to_string().concat(v[i].name.as_str());
                    out.push((key.clone(), label));
                    assert(texts_view(out@) =~= texts_view(before).push((key@, pre@ + v@[i as int].name@)));
                }
                i = i + 1;
                assert(texts_view(out@) =~= start + labelled(v@.subrange(0, i as int), cb@, key@, pre@));
            }
            assert(v@.subrange(0, v@.len() as int) =~= v@);
        },
    }
}

fn panel_label_prefix(kind: &str, idx: usize) -> (r: String)
    ensures
        r@ == panel_prefix(kind@, idx as nat),
{
    let r = kind.to_string().concat(decimal_text(idx as u128).as_str()).concat(":button:");
    assert(r@ =~= panel_prefix(kind@, idx as nat));
    r
}

impl<H> AdiPluginMan<H> {
    /// The buttons of all modules whose callback is `callback`, each as its
    /// module's key and a label that says where the button is.
    pub fn find_items_by_callback(&self, callback: &str) -> (r: Vec<(String, String)>)
        ensures
            texts_view(r@) == items_of(self@, callback@),
    {
        let mut results: Vec<(String, String)> = Vec::new();
        let mut i: usize = 0;
        proof {
            reveal_strlit("screen_");
            reveal_strlit("popup_");
        }
        while i < self.plugin_meta.len()
            invariant
                i <= self.plugin_meta@.len(),
                self@.len() == self.plugin_meta@.len(),
                texts_view(results@) == items_of(self@.subrange(0, i as int), callback@),
            decreases self.plugin_meta@.len() - i,
        {
            let ghost e = self@[i as int];
            proof {
                assert(self@.subrange(0, i + 1).drop_last() =~= self@.subrange(0, i as int));
                assert(self@.subrange(0, i + 1).last() == e);
            }
            let key = &self.plugin_meta[i].0;
            if let Some(fad_config) = &self.plugin_meta[i].1.fad {
                let ghost start = texts_view(results@);
                push_labelled(&mut results, key, &fad_config.buttons, callback, "button:");
                let ghost mid = texts_view(results@);
                if let Some(screens) = &fad_config.screens {
                    let mut j: usize = 0;
                    while j < screens.len()
                        invariant
                            j <= screens@.len(),
                            texts_view(results@) == mid + panels_labelled(screens_view(screens@).subrange(0, j as int), callback@, key@, "screen_"@),
                        decreases screens@.len() - j,
                    {
                        proof {
                            let ps = screens_view(screens@).subrange(0, j + 1);
                            assert(ps.drop_last() =~= screens_view(screens@).subrange(0, j as int));
                            assert(ps.last() == screens@[j as int]@);
                        }
                        let pre = panel_label_prefix("screen_", j);
                        push_labelled(&mut results, key, &screens[j].buttons, callback, pre.as_str());
                        j = j + 1;
                    }
                    assert(screens_view(screens@).subrange(0, screens@.len() as int) =~= screens_view(screens@));
                } else {
                    assert(texts_view(results@) + Seq::empty() =~= texts_view(results@));
                }
                let ghost mid2 = texts_view(results@);
                if let Some(popups) = &fad_config.popups {
                    let mut j: usize = 0;
                    while j < popups.len()
                        invariant
                            j <= popups@.len(),
                            texts_view(results@) == mid2 + panels_labelled(popups_view(popups@).subrange(0, j as int), callback@, key@, "popup_"@),
                        decreases popups@.len() - j,
                    {
                        proof {
                            let ps = popups_view(popups@).subrange(0, j + 1);
                            assert(ps.drop_last() =~= popups_view(popups@).subrange(0, j as int));
                            assert(ps.last() == popups@[j as int]@);
                        }
                        let pre = panel_label_prefix("popup_", j);
                        push_labelled(&mut results, key, &popups[j].buttons, callback, pre.as_str());
                        j = j + 1;
                    }
                    assert(popups_view(popups@).subrange(0, popups@.len() as int) =~= popups_view(popups@));
                } else {
                    assert(texts_view(results@) + Seq::empty() =~= texts_view(results@));
                }
                assert(texts_view(results@) =~= start + entry_items(e, callback@));
            } else {
                assert(texts_view(results@) + Seq::empty() =~= texts_view(results@));
            }
            i = i + 1;
        }
        assert(self@.subrange(0, self@.len() as int) =~= self@);
        results
    }
}

/// Puts an empty registry into `slot` unless one is there.
pub fn init_plugin_man<H>(slot: &mut Option<AdiPluginMan<H>>)
    requires
        (*old(slot)) is Some ==> old(slot)->0.wf(),
    ensures
        (*final(slot)) is Some,
        final(slot)->0.wf(),
        (*old(slot)) is Some ==> final(slot)->0@ == old(slot)->0@,
        (*old(slot)) is None ==> final(slot)->0@ == Seq::<EntryV>::empty(),
{
    if slot.is_none() {
        *slot = Some(AdiPluginMan::new());
    }
}

/// Whether the registry has been initialised.
pub fn check_plugin_man<H>(slot: &Option<AdiPluginMan<H>>) -> (r: bool)
    ensures
        r == slot is Some,
{
    slot.is_some()
}

/// The stem of a module path, as messages name the module.
pub open spec fn stem_spec(path: Seq<char>) -> Seq<char> {
    match file_name_spec(path) {
        Some(n) => name_stem(n),
        None => Seq::empty(),
    }
}

fn stem_text(path: &str) -> (r: String)
    ensures
        r@ == stem_spec(path@),
{
    match file_stem(path) {
        Some(s) => s,
        None => String::new(),
    }
}

/// Loads a module into the registry in `slot`; a message for the user either
/// way.
pub fn load_plugin<H: ModuleInstance, B: ModuleBuilder<H>>(
    slot: &mut Option<AdiPluginMan<H>>,
    path: String,
    file: &ModuleFile,
    metadata: Option<JsonValue>,
    builder: &B,
) -> (r: Result<String, String>)
    requires
        (*old(slot)) is Some ==> old(slot)->0.wf(),
    ensures
        (*old(slot)) is None ==> *final(slot) == *old(slot) && (r matches Err(m) && m@
            == "[ERR]: The plugin manager has not been loaded."@),
        (*old(slot)) is Some ==> (*final(slot)) is Some && final(slot)->0.wf(),
        (*old(slot)) is Some && r is Ok ==> final(slot)->0@ == old(slot)->0@.push(
            (path@, loaded_config(metadata), loaded_fad(metadata)),
        ) && (r matches Ok(m) && m@ == "Loaded plugin: "@ + stem_spec(path@)),
        (*old(slot)) is Some && r is Err ==> final(slot)->0@ == old(slot)->0@,
        (*old(slot)) is Some && has_key(old(slot)->0@, path@) ==> (r matches Err(m) && m@
            == "Failed to load plugin: "@ + message_spec(PluginManErr::PluginAlreadyLoaded(path))),
        (*old(slot)) is Some && !has_key(old(slot)->0@, path@) && !file.exists ==> (r matches Err(m) && m@
            == "Failed to load plugin: "@ + message_spec(PluginManErr::FileNotFound(path))),
        (*old(slot)) is Some && !has_key(old(slot)->0@, path@) && file.exists && !module_file_ok(path@, file.head@)
            ==> (r matches Err(m) && m@ == "Failed to load plugin: "@ + message_spec(PluginManErr::BadFile(path))),
{
    match slot {
        None => Err("[ERR]: The plugin manager has not been loaded.".to_string()),
        Some(man) => {
            let stem = stem_text(path.as_str());
            match man.load_plugin(path, file, metadata, builder) {
                Ok(()) => Ok("Loaded plugin: ".to_string().concat(stem.as_str())),
                Err(e) => Err("Failed to load plugin: ".to_string().concat(e.message().as_str())),
            }
        },
    }
}

/// Removes a module from the registry in `slot`; a message either way.
pub fn remove_plugin<H: ModuleInstance>(slot: &mut Option<AdiPluginMan<H>>, path: String) -> (r: Result<String, String>)
    requires
        (*old(slot)) is Some ==> old(slot)->0.wf(),
    ensures
        (*old(slot)) is None ==> *final(slot) == *old(slot) && (r matches Err(m) && m@
            == "[ERR]: The plugin manager has not been loaded."@),
        (*old(slot)) is Some ==> (*final(slot)) is Some && final(slot)->0.wf(),
        (*old(slot)) is Some && !has_key(old(slot)->0@, path@) ==> final(slot)->0@ == old(slot)->0@ && (r matches Err(
            m,
        ) && m@ == "Failed to remove plugin: "@ + message_spec(PluginManErr::PluginNotLoaded(path))),
        (*old(slot)) is Some && r is Ok ==> (r matches Ok(m) && m@ == "Removed plugin "@ + stem_spec(path@)),
        (*old(slot)) is Some && has_key(old(slot)->0@, path@) ==> exists|i: int|
            0 <= i < old(slot)->0@.len() && old(slot)->0@[i].0 == path@ && final(slot)->0@ == old(slot)->0@.remove(i),
{
    match slot {
        None => Err("[ERR]: The plugin manager has not been loaded.".to_string()),
        Some(man) => {
            let stem = stem_text(path.as_str());
            match man.remove_plugin(path) {
                Ok(()) => Ok("Removed plugin ".to_string().concat(stem.as_str())),
                Err(e) => Err("Failed to remove plugin: ".to_string().concat(e.message().as_str())),
            }
        },
    }
}

/// Reloads a module of the registry in `slot`; a message either way.
pub fn reload_plugin<H: ModuleInstance, B: ModuleBuilder<H>>(
    slot: &mut Option<AdiPluginMan<H>>,
    path: String,
    file: &ModuleFile,
    metadata: Option<JsonValue>,
    builder: &B,
) -> (r: Result<String, String>)
    requires
        (*old(slot)) is Some ==> old(slot)->0.wf(),
    ensures
        (*old(slot)) is None ==> *final(slot) == *old(slot) && (r matches Err(m) && m@
            == "[ERR]: Plugin man not loaded"@),
        (*old(slot)) is Some ==> (*final(slot)) is Some && final(slot)->0.wf(),
        (*old(slot)) is Some && !has_key(old(slot)->0@, path@) ==> final(slot)->0@ == old(slot)->0@ && (r matches Err(
            m,
        ) && m@ == "Failed to reload plugin: "@ + message_spec(PluginManErr::PluginNotLoaded(path))),
        (*old(slot)) is Some && r is Ok ==> (r matches Ok(m) && m@ == "Reloaded plugin: "@ + stem_spec(path@))
            && exists|i: int|
            0 <= i < old(slot)->0@.len() && old(slot)->0@[i].0 == path@ && final(slot)->0@ == reloaded(
                old(slot)->0@,
                i,
                path@,
                metadata,
            ),
{
    match slot {
        None => Err("[ERR]: Plugin man not loaded".to_string()),
        Some(man) => {
            let stem = stem_text(path.as_str());
            match man.reload_plugin(path, file, metadata, builder) {
                Ok(()) => Ok("Reloaded plugin: ".to_string().concat(stem.as_str())),
                Err(e) => Err("Failed to reload plugin: ".to_string().concat(e.message().as_str())),
            }
        },
    }
}

/// Whether a module is loaded; false without a registry.
pub fn is_plugin_loaded<H>(slot: &Option<AdiPluginMan<H>>, path: &str) -> (r: bool)
    requires
        (*slot) is Some ==> slot->0.wf(),
    ensures
        r == ((*slot) is Some && has_key(slot->0@, path@)),
{
    match slot {
        None => false,
        Some(man) => man.is_loaded(path),
    }
}

/// The keys of the loaded modules; empty without a registry.
pub fn list_loaded_plugins<H>(slot: &Option<AdiPluginMan<H>>) -> (r: Vec<String>)
    ensures
        (*slot) is None ==> r@.len() == 0,
        (*slot) is Some ==> r@.map_values(|s: String| s@) == slot->0@.map_values(|e: EntryV| e.0),
{
    match slot {
        None => Vec::new(),
        Some(man) => man.loaded_keys(),
    }
}

/// Calls `func` on every loaded module that exports it, when extensions are
/// switched on. Returns each module's key and what became of its call.
pub fn call_func_plugins<H: ModuleInstance>(
    store: &Option<ValueStore>,
    slot: &mut Option<AdiPluginMan<H>>,
    func: &str,
) -> (r: Vec<(String, CallOutcome)>)
    requires
        (*old(slot)) is Some ==> old(slot)->0.wf(),
    ensures
        !plugins_allowed(*store) ==> r@.len() == 0 && *final(slot) == *old(slot),
        (*old(slot)) is None ==> r@.len() == 0 && *final(slot) == *old(slot),
        (*old(slot)) is Some ==> (*final(slot)) is Some && final(slot)->0.wf() && final(slot)->0@ == old(slot)->0@,
        (*old(slot)) is Some && plugins_allowed(*store) ==> r@.len() == old(slot)->0@.len() && forall|i: int|
            0 <= i < r@.len() ==> (#[trigger] r@[i]).0@ == old(slot)->0@[i].0,
{
    if !check_plugins_enabled(store) {
        return Vec::new();
    }
    match slot {
        None => Vec::new(),
        Some(man) => man.call_func_plugins(func),
    }
}

/// Calls `func` on one module, when extensions are switched on: false when
/// they are off, no module is loaded under `plugin`, or the call failed.
pub fn call_plugin_func<H: ModuleInstance>(
    store: &Option<ValueStore>,
    slot: &mut Option<AdiPluginMan<H>>,
    func: &str,
    plugin: &str,
) -> (r: bool)
    requires
        (*old(slot)) is Some ==> old(slot)->0.wf(),
    ensures
        !plugins_allowed(*store) ==> !r && *final(slot) == *old(slot),
        (*old(slot)) is None ==> !r && *final(slot) == *old(slot),
        (*old(slot)) is Some ==> (*final(slot)) is Some && final(slot)->0.wf() && final(slot)->0@ == old(slot)->0@,
        r ==> (*old(slot)) is Some && has_key(old(slot)->0@, plugin@),
{
    if !check_plugins_enabled(store) {
        return false;
    }
    match slot {
        None => false,
        Some(man) => man.call_plugin_func(func, plugin),
    }
}

} // verus!
