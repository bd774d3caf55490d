//! A plugin backed by scripts in its own directory.
//!
//! This module holds the plugin's data and every decision it takes; running
//! the scripts, reading files and reading or writing caches is up to the
//! caller, who hands the outcomes back in.
use crate::cache::CacheManager;
use crate::plugin::PluginError;
use crate::script_manager::{
    insert_entries, lemma_insert_entries_push, Script, ScriptManager,
};
use crate::text::{lines, split_lines, split_words, trim_text, trimmed, words};
use crate::request::RequestView;
use crate::text::{
    find_char, find_last_char, index_of_from, is_ref_text, last_index_of, ref_text, split_at_char,
    split_scan,
};
use crate::tool_version::{hash_to_str, path_hash_of, join, join_path, pairs_view, Dirs, ToolVersion};
use crate::version_select::same_text;
use crate::version_order::views;
use crate::version_select::opt_view;
use vstd::prelude::*;
use vstd::string::*;

verus! {

/// What a plugin's manifest declares: literal alias and legacy-filename data
/// that replace the scripts, and a cache key template for `exec-env`.
#[derive(Debug, Clone, Default)]
pub struct PluginManifest {
    pub list_aliases_data: Option<String>,
    pub list_legacy_filenames_data: Option<String>,
    pub exec_env_cache_key: Option<String>,
}

/// A plugin installed under the plugins root, run through its scripts.
#[derive(Debug, Clone)]
pub struct ExternalPlugin {
    pub name: String,
    pub plugin_path: String,
    pub repo_url: Option<String>,
    pub toml: PluginManifest,
    pub cache_path: String,
    pub downloads_path: String,
    pub installs_path: String,
    pub script_man: ScriptManager,
    pub remote_version_cache: CacheManager,
    pub latest_stable_cache: CacheManager,
    pub alias_cache: CacheManager,
    pub legacy_filename_cache: CacheManager,
}

/// Either the answer is known without running anything, or a script must run.
#[derive(Debug)]
pub enum Lookup<T> {
    Known(T),
    RunScript(Script),
}

/// A change to one environment variable made by sourcing a script.
#[derive(Debug, Clone, PartialEq, Eq)]
pub enum EnvDiffOperation {
    Add(String, String),
    Change(String, String),
    Remove(String),
}

/// What `str::to_uppercase` makes of a text.
pub uninterp spec fn upper_of(s: Seq<char>) -> Seq<char>;

/// Relies on `str::to_uppercase`; the result depends on the text alone.
#[verifier::external_body]
fn to_upper(s: &str) -> (r: String)
    ensures
        r@ == upper_of(s@),
{
    s.to_uppercase()
}

/// One variable per user option, `RTX_TOOL_OPTS__<NAME>`.
pub open spec fn opts_env(opts: Seq<(Seq<char>, Seq<char>)>) -> Seq<(Seq<char>, Seq<char>)> {
    opts.map_values(|p: (Seq<char>, Seq<char>)| ("RTX_TOOL_OPTS__"@ + upper_of(p.0), p.1))
}

pub open spec fn install_type(r: RequestView) -> Seq<char> {
    match r {
        RequestView::Ref(_, _) => "ref"@,
        RequestView::Path(_, _) => "path"@,
        _ => "version"@,
    }
}

/// The version a script installs: a reference without its `ref:` marker, else
/// the resolved version.
pub open spec fn install_version(tv: ToolVersion) -> Seq<char> {
    match tv.request@ {
        RequestView::Ref(_, v) => v,
        _ => tv.version@,
    }
}

/// The variables a script gets for tool version `tv`, in the order they are set.
pub open spec fn tool_env(tv: ToolVersion, project_root: Option<Seq<char>>) -> Seq<
    (Seq<char>, Seq<char>),
> {
    opts_env(pairs_view(tv.opts@)) + match project_root {
        Some(root) => seq![("RTX_PROJECT_ROOT"@, root)],
        None => Seq::empty(),
    } + seq![
        ("RTX_INSTALL_PATH"@, tv.install_path@),
        ("ASDF_INSTALL_PATH"@, tv.install_path@),
        ("RTX_DOWNLOAD_PATH"@, tv.download_path@),
        ("ASDF_DOWNLOAD_PATH"@, tv.download_path@),
        ("RTX_INSTALL_TYPE"@, install_type(tv.request@)),
        ("ASDF_INSTALL_TYPE"@, install_type(tv.request@)),
        ("RTX_INSTALL_VERSION"@, install_version(tv)),
        ("ASDF_INSTALL_VERSION"@, install_version(tv)),
    ]
}

/// The bin directories of `tv`: none for a system tool, the words the
/// `list-bin-paths` script printed if it ran, else `bin`; each under the
/// install path.
pub open spec fn bin_paths_of(tv: ToolVersion, listed: Option<Seq<char>>) -> Seq<Seq<char>> {
    if tv.request@ is System {
        Seq::empty()
    } else {
        match listed {
            Some(out) => words(out).map_values(|w: Seq<char>| join(tv.install_path@, w)),
            None => seq![join(tv.install_path@, "bin"@)],
        }
    }
}

/// The additions and changes of an environment diff, in order; removals dropped.
pub open spec fn env_additions_of(ops: Seq<EnvDiffOperation>) -> Seq<(Seq<char>, Seq<char>)>
    decreases ops.len(),
{
    if ops.len() == 0 {
        Seq::empty()
    } else {
        match ops.last() {
            EnvDiffOperation::Add(k, v) => env_additions_of(ops.drop_last()).push((k@, v@)),
            EnvDiffOperation::Change(k, v) => env_additions_of(ops.drop_last()).push((k@, v@)),
            EnvDiffOperation::Remove(_) => env_additions_of(ops.drop_last()),
        }
    }
}

/// A repository given as `url#ref` or `url@ref`, split. `#` is split at its
/// first occurrence; `@` at its last, and only when what follows holds no `/`
/// or `:` (in `git@host:org/repo` or `https://user@host/repo` it is part of
/// the URL). Otherwise there is no ref.
pub open spec fn split_url_and_ref(s: Seq<char>) -> (Seq<char>, Option<Seq<char>>) {
    match index_of_from(s, '#', 0) {
        Some(i) => (s.take(i), Some(s.skip(i + 1))),
        None => match last_index_of(s, '@', s.len() as int) {
            Some(i) => if is_ref_text(s.skip(i + 1)) {
                (s.take(i), Some(s.skip(i + 1)))
            } else {
                (s, None)
            },
            None => (s, None),
        },
    }
}

/// A file `command-<a>-<b>.bash` provides the subcommand `a b`.
pub open spec fn is_command_file(f: Seq<char>) -> bool {
    &&& f.len() >= 13
    &&& f.take(8) == "command-"@
    &&& f.skip(f.len() - 5) == ".bash"@
}

pub open spec fn command_of(name: Seq<char>, f: Seq<char>) -> Seq<Seq<char>> {
    seq![name] + split_scan(f.subrange(8, f.len() - 5), '-', 0, 0)
}

/// The subcommands the files of a plugin's command directory provide, each
/// led by the plugin name.
pub open spec fn commands_of(name: Seq<char>, files: Seq<Seq<char>>) -> Seq<Seq<Seq<char>>>
    decreases files.len(),
{
    if files.len() == 0 {
        Seq::empty()
    } else if is_command_file(files.last()) {
        commands_of(name, files.drop_last()).push(command_of(name, files.last()))
    } else {
        commands_of(name, files.drop_last())
    }
}

pub open spec fn nested_views(v: Seq<Vec<String>>) -> Seq<Seq<Seq<char>>> {
    v.map_values(|c: Vec<String>| views(c@))
}

fn with_env_tracked(
    sm: ScriptManager,
    k: String,
    v: String,
    Ghost(base): Ghost<Seq<(Seq<char>, Seq<char>)>>,
    Ghost(adds): Ghost<Seq<(Seq<char>, Seq<char>)>>,
) -> (r: ScriptManager)
    requires
        pairs_view(sm.env@) == insert_entries(base, adds),
    ensures
        pairs_view(r.env@) == insert_entries(base, adds.push((k@, v@))),
        r.plugin_path == sm.plugin_path,
{
    proof {
        lemma_insert_entries_push(base, adds, k@, v@);
    }
    sm.with_env(k, v)
}

fn concat_str(a: &str, b: &str) -> (r: String)
    ensures
        r@ == a@ + b@,
{
    let mut r = String::from_str(a);
    r.append(b);
    r
}

impl ExternalPlugin {
    /// The list-all script's output as a version list, or the failure it
    /// reports, naming the plugin and the script's path.
    pub fn remote_versions_from_output(
        &self,
        success: bool,
        code: Option<i32>,
        stdout: &str,
        stderr: &str,
    ) -> (r: Result<Vec<String>, PluginError>)
        ensures
            success ==> (r matches Ok(v) && views(v@) == words(stdout@)),
            !success ==> (r matches Err(
                PluginError::ScriptFailed { plugin, script, code: c, stderr: e },
            ) && plugin@ == self.name@ && script@ == join(
                join(self.script_man.plugin_path@, "bin"@),
                "list-all"@,
            ) && c == (match code {
                Some(x) => x,
                None => 0,
            }) && e@ == trimmed(stderr@)),
    {
        if success {
            Ok(split_words(stdout))
        } else {
            Err(
                PluginError::ScriptFailed {
                    plugin: self.name.clone(),
                    script: self.script_man.get_script_path(&Script::ListAll),
                    code: match code {
                        Some(x) => x,
                        None => 0,
                    },
                    stderr: trim_text(stderr),
                },
            )
        }
    }
}

/// The latest-stable script's output: the trimmed text, `None` when empty.
pub fn latest_stable_from_output(stdout: &str) -> (r: Option<String>)
    ensures
        trimmed(stdout@).len() == 0 ==> r is None,
        trimmed(stdout@).len() > 0 ==> (r matches Some(v) && v@ == trimmed(stdout@)),
{
    let t = trim_text(stdout);
    if t.unicode_len() == 0 {
        None
    } else {
        Some(t)
    }
}

/// The bin directories of `tv`, given what `list-bin-paths` printed if it ran.
pub fn bin_paths(tv: &ToolVersion, listed: Option<&str>) -> (r: Vec<String>)
    ensures
        views(r@) == bin_paths_of(
            *tv,
            match listed {
                Some(s) => Some(s@),
                None => None,
            },
        ),
{
    if matches!(tv.request, crate::request::ToolVersionRequest::System(_)) {
        return Vec::new();
    }
    match listed {
        Some(out) => {
            let ws = split_words(out);
            let mut r: Vec<String> = Vec::new();
            let mut i: usize = 0;
            while i < ws.len()
                invariant
                    i <= ws.len(),
                    views(r@) == views(ws@).take(i as int).map_values(
                        |w: Seq<char>| join(tv.install_path@, w),
                    ),
                decreases ws.len() - i,
            {
                let ghost prev = r@;
                let p = join_path(tv.install_path.as_str(), ws[i].as_str());
                r.push(p);
                assert(views(r@) =~= views(prev).push(p@));
                assert(views(r@) =~= views(ws@).take(i + 1).map_values(
                    |w: Seq<char>| join(tv.install_path@, w),
                ));
                i = i + 1;
            }
            assert(views(ws@).take(ws.len() as int) =~= views(ws@));
            r
        },
        None => {
            let mut r: Vec<String> = Vec::new();
            let p = join_path(tv.install_path.as_str(), "bin");
            r.push(p);
            assert(views(r@) =~= seq![p@]);
            r
        },
    }
}

/// The additions and changes of an environment diff; removals are dropped,
/// since the managed environment only grows.
pub fn env_additions(ops: Vec<EnvDiffOperation>) -> (r: Vec<(String, String)>)
    ensures
        pairs_view(r@) == env_additions_of(ops@),
{
    let mut ops = ops;
    let ghost all = ops@;
    let n = ops.len();
    let mut out: Vec<(String, String)> = Vec::new();
    let mut i: usize = 0;
    assert(all.skip(0) =~= all);
    assert(all.take(0) =~= Seq::<EnvDiffOperation>::empty());
    while i < n
        invariant
            n == all.len(),
            i <= n,
            ops@ == all.skip(i as int),
            pairs_view(out@) == env_additions_of(all.take(i as int)),
        decreases n - i,
    {
        let op = ops.remove(0);
        assert(op == all[i as int]);
        assert(ops@ =~= all.skip(i + 1));
        assert(all.take(i + 1).drop_last() =~= all.take(i as int));
        let ghost prev = out@;
        match op {
            EnvDiffOperation::Add(k, v) => {
                out.push((k, v));
                assert(pairs_view(out@) =~= pairs_view(prev).push((k@, v@)));
            },
            EnvDiffOperation::Change(k, v) => {
                out.push((k, v));
                assert(pairs_view(out@) =~= pairs_view(prev).push((k@, v@)));
            },
            EnvDiffOperation::Remove(_) => {},
        }
        i = i + 1;
    }
    assert(all.take(n as int) =~= all);
    out
}

/// Whether `exec-env` must run for `tv`: not for a system tool, not without
/// the script, and not from within a script already (which would loop).
pub fn exec_env_wanted(tv: &ToolVersion, has_script: bool, in_script: bool) -> (r: bool)
    ensures
        r == (!(tv.request@ is System) && has_script && !in_script),
{
    !matches!(tv.request, crate::request::ToolVersionRequest::System(_)) && has_script && !in_script
}

/// A cached parse of a legacy file holds while the cache is not older than the file.
pub open spec fn legacy_cache_current(cache_mtime: Option<u64>, file_mtime: u64) -> bool {
    cache_mtime matches Some(m) && m >= file_mtime
}

/// Parsing a legacy file writes its cache after reading the file; until the
/// file is modified again, every later parse is served from that cache and
/// runs nothing.
pub proof fn lemma_legacy_parse_reused(file_mtime: u64, cache_written: u64)
    requires
        cache_written >= file_mtime,
    ensures
        legacy_cache_current(Some(cache_written), file_mtime),
{
}

/// Whether a cached parse of a legacy file still holds: the cache exists and
/// is not older than the file.
pub fn legacy_cache_is_current(cache_mtime: Option<u64>, file_mtime: u64) -> (r: bool)
    ensures
        r == legacy_cache_current(cache_mtime, file_mtime),
{
    match cache_mtime {
        Some(m) => m >= file_mtime,
        None => false,
    }
}

/// The scripts an install runs, in order: `download` when present, then `install`.
pub fn install_scripts(has_download: bool) -> (r: Vec<Script>)
    ensures
        has_download ==> r@ == seq![Script::Download, Script::Install],
        !has_download ==> r@ == seq![Script::Install],
{
    let mut r: Vec<Script> = Vec::new();
    if has_download {
        r.push(Script::Download);
    }
    r.push(Script::Install);
    assert(has_download ==> r@ =~= seq![Script::Download, Script::Install]);
    assert(!has_download ==> r@ =~= seq![Script::Install]);
    r
}

/// A cache with this file, time-to-live and freshness files.
pub open spec fn is_cache(c: CacheManager, path: Seq<char>, ttl: Option<u64>, files: Seq<Seq<char>>) -> bool {
    &&& c.cache_file_path@ == path
    &&& c.fresh_duration == ttl
    &&& views(c.fresh_files@) == files
}

/// The variables every script of plugin `name` gets.
pub open spec fn base_env(name: Seq<char>, plugin_path: Seq<char>, shims: Seq<char>) -> Seq<
    (Seq<char>, Seq<char>),
> {
    seq![
        ("RTX_PLUGIN_NAME"@, name),
        ("RTX_PLUGIN_PATH"@, plugin_path),
        ("RTX_SHIMS_DIR"@, shims),
    ]
}

/// The alias pairs of a listing: the lines of exactly two words, in order.
pub open spec fn alias_lines(ls: Seq<Seq<char>>) -> Seq<(Seq<char>, Seq<char>)>
    decreases ls.len(),
{
    if ls.len() == 0 {
        Seq::empty()
    } else {
        let w = words(ls.last());
        if w.len() == 2 {
            alias_lines(ls.drop_last()).push((w[0], w[1]))
        } else {
            alias_lines(ls.drop_last())
        }
    }
}

/// A cache of this plugin, in `cache_dir`, for the output of `script`.
fn script_cache(
    cache_dir: &str,
    file: &str,
    ttl: Option<u64>,
    plugin_path: &String,
    script: &str,
) -> (r: CacheManager)
    ensures
        is_cache(
            r,
            join(cache_dir@, file@),
            ttl,
            seq![plugin_path@, join(join(plugin_path@, "bin"@), script@)],
        ),
{
    let bin = join_path(plugin_path.as_str(), "bin");
    let script_path = join_path(bin.as_str(), script);
    let c = CacheManager::new(join_path(cache_dir, file)).with_fresh_duration(ttl).with_fresh_file(
        plugin_path.clone(),
    ).with_fresh_file(script_path);
    assert(views(c.fresh_files@) =~= seq![plugin_path@, join(join(plugin_path@, "bin"@), script@)]);
    c
}

/// The script manager of plugin `name`: scripts under `plugin_path`, with the
/// plugin's name, its path and the shims directory in the environment.
pub fn build_script_man(name: &str, plugin_path: &str, shims: &str) -> (r: ScriptManager)
    ensures
        r.plugin_path@ == plugin_path@,
        pairs_view(r.env@) == insert_entries(Seq::empty(), base_env(name@, plugin_path@, shims@)),
{
    let sm = ScriptManager::new(String::from_str(plugin_path));
    let ghost e0 = Seq::<(Seq<char>, Seq<char>)>::empty();
    assert(pairs_view(sm.env@) =~= e0);
    proof {
        assert(insert_entries(e0, e0) == e0);
        lemma_insert_entries_push(e0, e0, "RTX_PLUGIN_NAME"@, name@);
        assert(e0.push(("RTX_PLUGIN_NAME"@, name@)) =~= seq![("RTX_PLUGIN_NAME"@, name@)]);
    }
    let sm = sm.with_env(String::from_str("RTX_PLUGIN_NAME"), String::from_str(name));
    let ghost a1 = seq![("RTX_PLUGIN_NAME"@, name@)];
    proof {
        lemma_insert_entries_push(e0, a1, "RTX_PLUGIN_PATH"@, plugin_path@);
    }
    let sm = sm.with_env(String::from_str("RTX_PLUGIN_PATH"), String::from_str(plugin_path));
    let ghost a2 = a1.push(("RTX_PLUGIN_PATH"@, plugin_path@));
    proof {
        lemma_insert_entries_push(e0, a2, "RTX_SHIMS_DIR"@, shims@);
    }
    let sm = sm.with_env(String::from_str("RTX_SHIMS_DIR"), String::from_str(shims));
    assert(a2.push(("RTX_SHIMS_DIR"@, shims@)) =~= base_env(name@, plugin_path@, shims@));
    sm
}

impl ExternalPlugin {
    /// The plugin `name` with manifest `toml`. Its directories are
    /// `<root>/<name>` under the plugins, cache, downloads and installs roots.
    /// Version lists and the latest stable version stay fresh for a day (for
    /// ever when `prefer_stale`); every cache is invalidated by a change to the
    /// plugin directory or to the script that fills it.
    pub fn new(dirs: &Dirs, name: &String, toml: PluginManifest, prefer_stale: bool) -> (r: ExternalPlugin)
        ensures
            r.name@ == name@,
            r.plugin_path@ == join(dirs.plugins@, name@),
            r.cache_path@ == join(dirs.cache@, name@),
            r.downloads_path@ == join(dirs.downloads@, name@),
            r.installs_path@ == join(dirs.installs@, name@),
            r.repo_url is None,
            r.toml == toml,
            r.script_man.plugin_path@ == r.plugin_path@,
            pairs_view(r.script_man.env@) == insert_entries(
                Seq::empty(),
                base_env(name@, r.plugin_path@, dirs.shims@),
            ),
            is_cache(
                r.remote_version_cache,
                join(r.cache_path@, "remote_versions.cache"@),
                if prefer_stale { None } else { Some(86400) },
                seq![r.plugin_path@, join(join(r.plugin_path@, "bin"@), "list-all"@)],
            ),
            is_cache(
                r.latest_stable_cache,
                join(r.cache_path@, "latest_stable.cache"@),
                if prefer_stale { None } else { Some(86400) },
                seq![r.plugin_path@, join(join(r.plugin_path@, "bin"@), "latest-stable"@)],
            ),
            is_cache(
                r.alias_cache,
                join(r.cache_path@, "aliases.cache"@),
                None,
                seq![r.plugin_path@, join(join(r.plugin_path@, "bin"@), "list-aliases"@)],
            ),
            is_cache(
                r.legacy_filename_cache,
                join(r.cache_path@, "legacy_filenames.cache"@),
                None,
                seq![r.plugin_path@, join(join(r.plugin_path@, "bin"@), "list-legacy-filenames"@)],
            ),
    {
        let plugin_path = join_path(dirs.plugins.as_str(), name.as_str());
        let cache_path = join_path(dirs.cache.as_str(), name.as_str());
        let fresh_duration: Option<u64> = if prefer_stale {
            None
        } else {
            Some(86400)
        };
        let script_man = build_script_man(name.as_str(), plugin_path.as_str(), dirs.shims.as_str());
        let remote_version_cache = script_cache(
            cache_path.as_str(),
            "remote_versions.cache",
            fresh_duration,
            &plugin_path,
            "list-all",
        );
        let latest_stable_cache = script_cache(
            cache_path.as_str(),
            "latest_stable.cache",
            fresh_duration,
            &plugin_path,
            "latest-stable",
        );
        let alias_cache = script_cache(
            cache_path.as_str(),
            "aliases.cache",
            None,
            &plugin_path,
            "list-aliases",
        );
        let legacy_filename_cache = script_cache(
            cache_path.as_str(),
            "legacy_filenames.cache",
            None,
            &plugin_path,
            "list-legacy-filenames",
        );
        ExternalPlugin {
            name: name.clone(),
            script_man,
            downloads_path: join_path(dirs.downloads.as_str(), name.as_str()),
            installs_path: join_path(dirs.installs.as_str(), name.as_str()),
            remote_version_cache,
            latest_stable_cache,
            alias_cache,
            legacy_filename_cache,
            plugin_path,
            cache_path,
            repo_url: None,
            toml,
        }
    }

    /// The alias pairs of a listing: each line of exactly two words gives an
    /// alias and its target; other lines are ignored.
    pub fn parse_aliases(&self, data: &str) -> (r: Vec<(String, String)>)
        ensures
            pairs_view(r@) == alias_lines(lines(data@)),
    {
        let ls = split_lines(data);
        let mut out: Vec<(String, String)> = Vec::new();
        let mut i: usize = 0;
        while i < ls.len()
            invariant
                i <= ls.len(),
                views(ls@) == lines(data@),
                pairs_view(out@) == alias_lines(views(ls@).take(i as int)),
            decreases ls.len() - i,
        {
            let w = split_words(ls[i].as_str());
            let ghost pre = views(ls@).take(i + 1);
            assert(pre.drop_last() =~= views(ls@).take(i as int));
            assert(pre.last() == ls@[i as int]@);
            if w.len() == 2 {
                let ghost prev = out@;
                let a = w[0].clone();
                let b = w[1].clone();
                out.push((a, b));
                assert(pairs_view(out@) =~= pairs_view(prev).push((a@, b@)));
                assert(views(w@)[0] == a@ && views(w@)[1] == b@);
            }
            i = i + 1;
        }
        assert(views(ls@).take(ls.len() as int) =~= views(ls@));
        out
    }

    /// The legacy file names of a listing: its whitespace-separated words.
    pub fn parse_legacy_filenames(&self, data: &str) -> (r: Vec<String>)
        ensures
            views(r@) == words(data@),
    {
        split_words(data)
    }

    /// How to list aliases: the manifest's literal data if it has some, none
    /// when there is no `list-aliases` script, else that script.
    pub fn aliases_lookup(&self, has_script: bool) -> (r: Lookup<Vec<(String, String)>>)
        ensures
            match self.toml.list_aliases_data {
                Some(d) => r matches Lookup::Known(v) && pairs_view(v@) == alias_lines(lines(d@)),
                None => if has_script {
                    r matches Lookup::RunScript(s) && s == Script::ListAliases
                } else {
                    r matches Lookup::Known(v) && v@.len() == 0
                },
            },
    {
        match &self.toml.list_aliases_data {
            Some(d) => Lookup::Known(self.parse_aliases(d.as_str())),
            None => if has_script {
                Lookup::RunScript(Script::ListAliases)
            } else {
                Lookup::Known(Vec::new())
            },
        }
    }

    /// How to list legacy file names: the manifest's literal data if it has
    /// some, none when there is no `list-legacy-filenames` script, else that script.
    pub fn legacy_filenames_lookup(&self, has_script: bool) -> (r: Lookup<Vec<String>>)
        ensures
            match self.toml.list_legacy_filenames_data {
                Some(d) => r matches Lookup::Known(v) && views(v@) == words(d@),
                None => if has_script {
                    r matches Lookup::RunScript(s) && s == Script::ListLegacyFilenames
                } else {
                    r matches Lookup::Known(v) && v@.len() == 0
                },
            },
    {
        match &self.toml.list_legacy_filenames_data {
            Some(d) => Lookup::Known(self.parse_legacy_filenames(d.as_str())),
            None => if has_script {
                Lookup::RunScript(Script::ListLegacyFilenames)
            } else {
                Lookup::Known(Vec::new())
            },
        }
    }

    /// How to find the latest stable version: without a `latest-stable`
    /// script there is none, and nothing runs.
    pub fn latest_stable_lookup(&self, has_script: bool) -> (r: Lookup<Option<String>>)
        ensures
            !has_script ==> (r matches Lookup::Known(v) && v is None),
            has_script ==> (r matches Lookup::RunScript(s) && s == Script::LatestStable),
    {
        if has_script {
            Lookup::RunScript(Script::LatestStable)
        } else {
            Lookup::Known(None)
        }
    }

    /// The script that lists remote versions; a plugin without `list-all`
    /// cannot list them.
    pub fn remote_versions_script(&self, has_script: bool) -> (r: Result<Script, PluginError>)
        ensures
            has_script ==> r == Ok::<Script, PluginError>(Script::ListAll),
            !has_script ==> (r matches Err(PluginError::Unsupported { plugin, operation })
                && plugin@ == self.name@ && operation@ == "list-all"@),
    {
        if has_script {
            Ok(Script::ListAll)
        } else {
            Err(
                PluginError::Unsupported {
                    plugin: self.name.clone(),
                    operation: String::from_str("list-all"),
                },
            )
        }
    }
}

impl ExternalPlugin {
    /// The script manager for tool version `tv`: the plugin's variables plus
    /// one per user option, the project root if any, the install and download
    /// paths, the install type and the version, the last four under both
    /// `RTX_` and `ASDF_` names.
    pub fn script_man_for_tv(&self, tv: &ToolVersion, project_root: &Option<String>) -> (r: ScriptManager)
        requires
            !(tv.request@ is System),
        ensures
            r.plugin_path == self.script_man.plugin_path,
            pairs_view(r.env@) == insert_entries(
                pairs_view(self.script_man.env@),
                tool_env(*tv, opt_view(*project_root)),
            ),
    {
        let ghost base = pairs_view(self.script_man.env@);
        let mut sm = ScriptManager { plugin_path: self.script_man.plugin_path.clone(), env: crate::tool_version::clone_pairs(&self.script_man.env) };
        let ghost path = sm.plugin_path;
        let ghost mut adds = Seq::<(Seq<char>, Seq<char>)>::empty();
        assert(insert_entries(base, adds) == base);
        let ghost ov = opts_env(pairs_view(tv.opts@));
        let mut i: usize = 0;
        while i < tv.opts.len()
            invariant
                i <= tv.opts.len(),
                ov == opts_env(pairs_view(tv.opts@)),
                adds == ov.take(i as int),
                pairs_view(sm.env@) == insert_entries(base, adds),
                sm.plugin_path == path,
            decreases tv.opts.len() - i,
        {
            let key = concat_str("RTX_TOOL_OPTS__", to_upper(tv.opts[i].0.as_str()).as_str());
            let value = tv.opts[i].1.clone();
            sm = with_env_tracked(sm, key, value, Ghost(base), Ghost(adds));
            proof {
                adds = adds.push((key@, value@));
                assert(adds =~= ov.take(i + 1));
            }
            i = i + 1;
        }
        assert(ov.take(tv.opts.len() as int) =~= ov);
        let ghost after_opts = adds;
        match project_root {
            Some(root) => {
                let v = root.clone();
                sm = with_env_tracked(sm, String::from_str("RTX_PROJECT_ROOT"), v, Ghost(base), Ghost(adds));
                proof {
                    adds = adds.push(("RTX_PROJECT_ROOT"@, v@));
                }
            },
            None => {},
        }
        let ghost after_root = adds;
        let itype = match &tv.request {
            crate::request::ToolVersionRequest::Ref(_, _) => "ref",
            crate::request::ToolVersionRequest::Path(_, _) => "path",
            _ => "version",
        };
        let iversion = match &tv.request {
            crate::request::ToolVersionRequest::Ref(_, v) => v.clone(),
            _ => tv.version.clone(),
        };
        let k1 = String::from_str("RTX_INSTALL_PATH");
        let v1 = tv.install_path.clone();
        sm = with_env_tracked(sm, k1, v1, Ghost(base), Ghost(adds));
        proof { adds = adds.push((k1@, v1@)); }
        let k2 = String::from_str("ASDF_INSTALL_PATH");
        let v2 = tv.install_path.clone();
        sm = with_env_tracked(sm, k2, v2, Ghost(base), Ghost(adds));
        proof { adds = adds.push((k2@, v2@)); }
        let k3 = String::from_str("RTX_DOWNLOAD_PATH");
        let v3 = tv.download_path.clone();
        sm = with_env_tracked(sm, k3, v3, Ghost(base), Ghost(adds));
        proof { adds = adds.push((k3@, v3@)); }
        let k4 = String::from_str("ASDF_DOWNLOAD_PATH");
        let v4 = tv.download_path.clone();
        sm = with_env_tracked(sm, k4, v4, Ghost(base), Ghost(adds));
        proof { adds = adds.push((k4@, v4@)); }
        let k5 = String::from_str("RTX_INSTALL_TYPE");
        let v5 = String::from_str(itype);
        sm = with_env_tracked(sm, k5, v5, Ghost(base), Ghost(adds));
        proof { adds = adds.push((k5@, v5@)); }
        let k6 = String::from_str("ASDF_INSTALL_TYPE");
        let v6 = String::from_str(itype);
        sm = with_env_tracked(sm, k6, v6, Ghost(base), Ghost(adds));
        proof { adds = adds.push((k6@, v6@)); }
        let k7 = String::from_str("RTX_INSTALL_VERSION");
        let v7 = iversion.clone();
        sm = with_env_tracked(sm, k7, v7, Ghost(base), Ghost(adds));
        proof { adds = adds.push((k7@, v7@)); }
        let k8 = String::from_str("ASDF_INSTALL_VERSION");
        let v8 = iversion;
        sm = with_env_tracked(sm, k8, v8, Ghost(base), Ghost(adds));
        proof {
            adds = adds.push((k8@, v8@));
            assert(adds =~= tool_env(*tv, opt_view(*project_root)));
        }
        sm
    }

    /// Where the parse of legacy file `legacy_file` is cached:
    /// `<cache>/legacy/<hash of the file's path>.txt`.
    pub fn legacy_cache_file_path(&self, legacy_file: &str) -> (r: String)
        ensures
            r@ == join(join(self.cache_path@, "legacy"@), path_hash_of(legacy_file@) + ".txt"@),
    {
        let dir = join_path(self.cache_path.as_str(), "legacy");
        let h = hash_to_str(legacy_file);
        let file = concat_str(h.as_str(), ".txt");
        join_path(dir.as_str(), file.as_str())
    }

    /// The directories an uninstall removes, in order: downloads, installs,
    /// and the plugin itself.
    pub fn uninstall_dirs(&self) -> (r: Vec<String>)
        ensures
            views(r@) == seq![self.downloads_path@, self.installs_path@, self.plugin_path@],
    {
        let mut r: Vec<String> = Vec::new();
        r.push(self.downloads_path.clone());
        r.push(self.installs_path.clone());
        r.push(self.plugin_path.clone());
        assert(views(r@) =~= seq![self.downloads_path@, self.installs_path@, self.plugin_path@]);
        r
    }

    /// The repository to clone and the ref to check out: the plugin's own URL,
    /// else the one the short-name registry gives, split as
    /// `split_url_and_ref` says.
    pub fn install_source(&self, registry_url: Option<String>) -> (r: Result<(String, Option<String>), PluginError>)
        ensures
            match (self.repo_url, registry_url) {
                (None, None) => r matches Err(PluginError::NoRepository(n)) && n@ == self.name@,
                (Some(u), _) => r matches Ok((url, rf)) && (url@, opt_view(rf)) == split_url_and_ref(u@),
                (None, Some(u)) => r matches Ok((url, rf)) && (url@, opt_view(rf)) == split_url_and_ref(u@),
            },
    {
        let repository = match &self.repo_url {
            Some(u) => u.clone(),
            None => match registry_url {
                Some(u) => u,
                None => {
                    return Err(PluginError::NoRepository(self.name.clone()));
                },
            },
        };
        match find_char(repository.as_str(), '#') {
            Some(i) => {
                let n = repository.unicode_len();
                let url = String::from_str(repository.substring_char(0, i));
                let rf = String::from_str(repository.substring_char(i + 1, n));
                Ok((url, Some(rf)))
            },
            None => match find_last_char(repository.as_str(), '@') {
                Some(i) => {
                    let n = repository.unicode_len();
                    let rf = repository.substring_char(i + 1, n);
                    if ref_text(rf) {
                        let url = String::from_str(repository.substring_char(0, i));
                        let rf = String::from_str(rf);
                        Ok((url, Some(rf)))
                    } else {
                        Ok((repository, None))
                    }
                },
                None => Ok((repository, None)),
            },
        }
    }

    /// The subcommands offered by the files of the plugin's command directory:
    /// `command-<a>-<b>.bash` gives `[<plugin>, a, b]`; other files give none.
    pub fn external_commands_from(&self, files: &Vec<String>) -> (r: Vec<Vec<String>>)
        ensures
            nested_views(r@) == commands_of(self.name@, views(files@)),
    {
        let mut out: Vec<Vec<String>> = Vec::new();
        let mut i: usize = 0;
        while i < files.len()
            invariant
                i <= files.len(),
                nested_views(out@) == commands_of(self.name@, views(files@).take(i as int)),
            decreases files.len() - i,
        {
            let f = files[i].as_str();
            let ghost pre = views(files@).take(i + 1);
            assert(pre.drop_last() =~= views(files@).take(i as int));
            assert(pre.last() == f@);
            let n = f.unicode_len();
            if n >= 13 && same_text(f.substring_char(0, 8), "command-") && same_text(
                f.substring_char(n - 5, n),
                ".bash",
            ) {
                assert(f@.subrange(0, 8) =~= f@.take(8));
                assert(f@.subrange(n - 5, n as int) =~= f@.skip(n - 5));
                let middle = f.substring_char(8, n - 5);
                let parts = split_at_char(middle, '-');
                let mut cmd: Vec<String> = Vec::new();
                cmd.push(self.name.clone());
                let mut parts = parts;
                let ghost pv = views(parts@);
                let ghost c0 = views(cmd@);
                cmd.append(&mut parts);
                assert(views(cmd@) =~= c0 + pv);
                assert(views(cmd@) =~= command_of(self.name@, f@));
                let ghost prev = out@;
                out.push(cmd);
                assert(nested_views(out@) =~= nested_views(prev).push(views(cmd@)));
            } else {
                assert(!is_command_file(f@)) by {
                    if is_command_file(f@) {
                        assert(f@.subrange(0, 8) =~= f@.take(8));
                        assert(f@.subrange(n - 5, n as int) =~= f@.skip(n - 5));
                    }
                }
            }
            i = i + 1;
        }
        assert(views(files@).take(files.len() as int) =~= views(files@));
        out
    }
}

} // verus!
