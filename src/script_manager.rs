//! Backend scripts of a plugin and the environment they run with.
use crate::tool_version::{join, join_path, pairs_view};
use crate::version_select::same_text;
use vstd::prelude::*;
use vstd::string::*;

verus! {

/// A script a plugin backend may provide under its `bin` directory.
#[derive(Debug, Clone, PartialEq, Eq)]
pub enum Script {
    Download,
    ExecEnv,
    Install,
    LatestStable,
    ListAliases,
    ListAll,
    ListBinPaths,
    ListLegacyFilenames,
    /// Parses the legacy version file at this path.
    ParseLegacyFile(String),
    Uninstall,
}

pub open spec fn script_file_name(s: Script) -> Seq<char> {
    match s {
        Script::Download => "download"@,
        Script::ExecEnv => "exec-env"@,
        Script::Install => "install"@,
        Script::LatestStable => "latest-stable"@,
        Script::ListAliases => "list-aliases"@,
        Script::ListAll => "list-all"@,
        Script::ListBinPaths => "list-bin-paths"@,
        Script::ListLegacyFilenames => "list-legacy-filenames"@,
        Script::ParseLegacyFile(_) => "parse-legacy-file"@,
        Script::Uninstall => "uninstall"@,
    }
}

impl Script {
    /// The script's file name.
    pub fn file_name(&self) -> (r: String)
        ensures
            r@ == script_file_name(*self),
    {
        match self {
            Script::Download => String::from_str("download"),
            Script::ExecEnv => String::from_str("exec-env"),
            Script::Install => String::from_str("install"),
            Script::LatestStable => String::from_str("latest-stable"),
            Script::ListAliases => String::from_str("list-aliases"),
            Script::ListAll => String::from_str("list-all"),
            Script::ListBinPaths => String::from_str("list-bin-paths"),
            Script::ListLegacyFilenames => String::from_str("list-legacy-filenames"),
            Script::ParseLegacyFile(_) => String::from_str("parse-legacy-file"),
            Script::Uninstall => String::from_str("uninstall"),
        }
    }
}

/// Runs a plugin's scripts: where they are and the variables they get.
#[derive(Debug, Clone)]
pub struct ScriptManager {
    pub plugin_path: String,
    /// Variable names and values, each name once, in order of first setting.
    pub env: Vec<(String, String)>,
}

/// Position of the first entry named `k`.
pub open spec fn key_index(env: Seq<(Seq<char>, Seq<char>)>, k: Seq<char>, i: int) -> Option<int>
    decreases env.len() - i,
{
    if i < 0 || i >= env.len() {
        None
    } else if env[i].0 == k {
        Some(i)
    } else {
        key_index(env, k, i + 1)
    }
}

/// `env` with `k` set to `v`: the entry replaced in place, or appended.
pub open spec fn insert_entry(env: Seq<(Seq<char>, Seq<char>)>, k: Seq<char>, v: Seq<char>) -> Seq<
    (Seq<char>, Seq<char>),
> {
    match key_index(env, k, 0) {
        Some(i) => env.update(i, (k, v)),
        None => env.push((k, v)),
    }
}

/// `env` with each pair of `adds` set in turn.
pub open spec fn insert_entries(
    env: Seq<(Seq<char>, Seq<char>)>,
    adds: Seq<(Seq<char>, Seq<char>)>,
) -> Seq<(Seq<char>, Seq<char>)>
    decreases adds.len(),
{
    if adds.len() == 0 {
        env
    } else {
        insert_entry(insert_entries(env, adds.drop_last()), adds.last().0, adds.last().1)
    }
}

pub proof fn lemma_insert_entries_push(
    env: Seq<(Seq<char>, Seq<char>)>,
    adds: Seq<(Seq<char>, Seq<char>)>,
    k: Seq<char>,
    v: Seq<char>,
)
    ensures
        insert_entries(env, adds.push((k, v))) == insert_entry(insert_entries(env, adds), k, v),
{
    assert(adds.push((k, v)).drop_last() =~= adds);
}

impl ScriptManager {
    /// Scripts under `plugin_path/bin`, with no variables set.
    pub fn new(plugin_path: String) -> (r: ScriptManager)
        ensures
            r.plugin_path == plugin_path,
            r.env@.len() == 0,
    {
        ScriptManager { plugin_path, env: Vec::new() }
    }

    /// The same manager with variable `k` set to `v`.
    pub fn with_env(self, k: String, v: String) -> (r: ScriptManager)
        ensures
            r.plugin_path == self.plugin_path,
            pairs_view(r.env@) == insert_entry(pairs_view(self.env@), k@, v@),
    {
        let ScriptManager { plugin_path, env } = self;
        let mut env = env;
        let ghost ev = pairs_view(env@);
        let mut i: usize = 0;
        while i < env.len()
            invariant
                ev == pairs_view(env@),
                ev == pairs_view(self.env@),
                plugin_path == self.plugin_path,
                i <= env.len(),
                key_index(ev, k@, 0) == key_index(ev, k@, i as int),
            decreases env.len() - i,
        {
            if same_text(env[i].0.as_str(), k.as_str()) {
                assert(ev[i as int].0 == k@);
                assert(key_index(ev, k@, i as int) == Some(i as int));
                env.set(i, (k, v));
                assert(pairs_view(env@) =~= ev.update(i as int, (k@, v@)));
                return ScriptManager { plugin_path, env };
            }
            i = i + 1;
        }
        assert(key_index(ev, k@, i as int) is None);
        env.push((k, v));
        assert(pairs_view(env@) =~= ev.push((k@, v@)));
        ScriptManager { plugin_path, env }
    }

    /// Where `script` lives: `<plugin>/bin/<name>`.
    pub fn get_script_path(&self, script: &Script) -> (r: String)
        ensures
            r@ == join(join(self.plugin_path@, "bin"@), script_file_name(*script)),
    {
        let bin = join_path(self.plugin_path.as_str(), "bin");
        let name = script.file_name();
        join_path(bin.as_str(), name.as_str())
    }
}

} // verus!
