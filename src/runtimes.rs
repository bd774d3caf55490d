//! An installed version of a tool, with the cache of its script environment.
use crate::cache::CacheManager;
use crate::external_plugin::ExternalPlugin;
use crate::tool_version::{join, join_path, Dirs, ToolVersion};
use crate::version_order::views;
use vstd::prelude::*;
use vstd::string::*;

verus! {

/// A plugin and version pair installed under the installs root.
#[derive(Debug, Clone)]
pub struct RuntimeVersion {
    pub version: String,
    pub plugin_name: String,
    /// Where the variables the `exec-env` script sets are cached.
    pub exec_env_cache: CacheManager,
}

/// The file caching `exec-env` output: keyed by the rendered cache key when the
/// manifest declares one, else a single file per version.
pub open spec fn exec_env_cache_file(cache_path: Seq<char>, key: Option<Seq<char>>) -> Seq<char> {
    match key {
        Some(k) => join(join(cache_path, "exec_env"@), k + ".cache"@),
        None => join(cache_path, "exec_env.cache"@),
    }
}

impl RuntimeVersion {
    /// Version `version` of `plugin`, resolved as `tv`. `rendered_key` is the
    /// manifest's cache key template rendered for `tv`, if it has one. The
    /// environment cache never expires by age; it is invalidated by changes to
    /// the data root, the plugin, or the install.
    pub fn new(
        dirs: &Dirs,
        plugin: &ExternalPlugin,
        version: String,
        tv: &ToolVersion,
        rendered_key: Option<String>,
    ) -> (r: RuntimeVersion)
        ensures
            r.version == version,
            r.plugin_name@ == plugin.name@,
            r.exec_env_cache.cache_file_path@ == exec_env_cache_file(
                tv.cache_path@,
                match rendered_key {
                    Some(k) => Some(k@),
                    None => None,
                },
            ),
            r.exec_env_cache.fresh_duration is None,
            views(r.exec_env_cache.fresh_files@) == seq![
                dirs.root@,
                plugin.plugin_path@,
                tv.install_path@,
            ],
    {
        let file = match &rendered_key {
            Some(k) => {
                let dir = join_path(tv.cache_path.as_str(), "exec_env");
                let mut name = k.clone();
                name.append(".cache");
                join_path(dir.as_str(), name.as_str())
            },
            None => join_path(tv.cache_path.as_str(), "exec_env.cache"),
        };
        let cm = CacheManager::new(file).with_fresh_file(dirs.root.clone()).with_fresh_file(
            plugin.plugin_path.clone(),
        ).with_fresh_file(tv.install_path.clone());
        assert(views(cm.fresh_files@) =~= seq![dirs.root@, plugin.plugin_path@, tv.install_path@]);
        RuntimeVersion { exec_env_cache: cm, version, plugin_name: plugin.name.clone() }
    }
}

} // verus!
