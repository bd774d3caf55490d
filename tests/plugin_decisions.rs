use rtx_core::cache::{CacheAction, CacheManager};
use rtx_core::external_plugin::{
    bin_paths, env_additions, install_scripts, latest_stable_from_output, legacy_cache_is_current,
    EnvDiffOperation, ExternalPlugin, Lookup, PluginManifest,
};
use rtx_core::plugin::PluginError;
use rtx_core::request::ToolVersionRequest;
use rtx_core::runtimes::RuntimeVersion;
use rtx_core::script_manager::Script;
use rtx_core::text::{split_words, trim_text};
use rtx_core::tool_version::{Dirs, ToolVersion};

fn dirs() -> Dirs {
    Dirs {
        installs: "/d/installs".to_string(),
        cache: "/c".to_string(),
        downloads: "/d/downloads".to_string(),
        plugins: "/d/plugins".to_string(),
        shims: "/d/shims".to_string(),
        root: "/d".to_string(),
    }
}

fn plugin(toml: PluginManifest) -> ExternalPlugin {
    ExternalPlugin::new(&dirs(), &"tiny".to_string(), toml, false)
}

fn tv(spec: &str, opts: Vec<(String, String)>) -> ToolVersion {
    let req = ToolVersionRequest::new("tiny".to_string(), spec).unwrap();
    let version = req.version();
    ToolVersion::new(&dirs(), req, opts, version)
}

fn env_value(env: &[(String, String)], key: &str) -> Option<String> {
    env.iter().find(|(k, _)| k == key).map(|(_, v)| v.clone())
}

#[test]
fn new_plugin_layout() {
    let p = plugin(PluginManifest::default());
    assert_eq!(p.plugin_path, "/d/plugins/tiny");
    assert_eq!(p.cache_path, "/c/tiny");
    assert_eq!(p.installs_path, "/d/installs/tiny");
    assert_eq!(p.remote_version_cache.cache_file_path, "/c/tiny/remote_versions.cache");
    assert_eq!(p.remote_version_cache.fresh_duration, Some(86400));
    assert_eq!(
        p.remote_version_cache.fresh_files,
        vec!["/d/plugins/tiny".to_string(), "/d/plugins/tiny/bin/list-all".to_string()]
    );
    assert_eq!(p.alias_cache.fresh_duration, None);
    assert_eq!(env_value(&p.script_man.env, "RTX_PLUGIN_NAME"), Some("tiny".to_string()));
    assert_eq!(env_value(&p.script_man.env, "RTX_SHIMS_DIR"), Some("/d/shims".to_string()));
    let stale = ExternalPlugin::new(&dirs(), &"tiny".to_string(), PluginManifest::default(), true);
    assert_eq!(stale.latest_stable_cache.fresh_duration, None);
    assert_eq!(p.script_man.get_script_path(&Script::ListAll), "/d/plugins/tiny/bin/list-all");
}

#[test]
fn script_env_for_tool_version() {
    let p = plugin(PluginManifest::default());
    let t = tv("ref:main", vec![("python_version".to_string(), "3".to_string())]);
    let sm = p.script_man_for_tv(&t, &Some("/proj".to_string()));
    assert_eq!(env_value(&sm.env, "RTX_TOOL_OPTS__PYTHON_VERSION"), Some("3".to_string()));
    assert_eq!(env_value(&sm.env, "RTX_PROJECT_ROOT"), Some("/proj".to_string()));
    assert_eq!(env_value(&sm.env, "RTX_INSTALL_TYPE"), Some("ref".to_string()));
    assert_eq!(env_value(&sm.env, "ASDF_INSTALL_VERSION"), Some("main".to_string()));
    assert_eq!(env_value(&sm.env, "ASDF_INSTALL_PATH"), Some("/d/installs/tiny/ref-main".to_string()));
    assert_eq!(env_value(&sm.env, "RTX_PLUGIN_NAME"), Some("tiny".to_string()));
    let t = tv("1.2.3", vec![]);
    let sm = p.script_man_for_tv(&t, &None);
    assert_eq!(env_value(&sm.env, "RTX_INSTALL_TYPE"), Some("version".to_string()));
    assert_eq!(env_value(&sm.env, "RTX_INSTALL_VERSION"), Some("1.2.3".to_string()));
    assert_eq!(env_value(&sm.env, "RTX_PROJECT_ROOT"), None);
}

#[test]
fn aliases_and_legacy_filenames() {
    let p = plugin(PluginManifest::default());
    let parsed = p.parse_aliases("lts 18\n\nbad line here\nlatest-14 14.1\n");
    assert_eq!(
        parsed,
        vec![("lts".to_string(), "18".to_string()), ("latest-14".to_string(), "14.1".to_string())]
    );
    assert_eq!(p.parse_legacy_filenames(" .nvmrc\t.node-version\n"), vec![".nvmrc", ".node-version"]);
    match p.aliases_lookup(false) {
        Lookup::Known(v) => assert!(v.is_empty()),
        Lookup::RunScript(_) => panic!("no script to run"),
    }
    assert!(matches!(p.aliases_lookup(true), Lookup::RunScript(Script::ListAliases)));
    let literal = plugin(PluginManifest {
        list_aliases_data: Some("a 1\n".to_string()),
        ..PluginManifest::default()
    });
    match literal.aliases_lookup(true) {
        Lookup::Known(v) => assert_eq!(v, vec![("a".to_string(), "1".to_string())]),
        Lookup::RunScript(_) => panic!("literal data wins"),
    }
}

#[test]
fn no_latest_stable_script_means_none() {
    let p = plugin(PluginManifest::default());
    assert!(matches!(p.latest_stable_lookup(false), Lookup::Known(None)));
    assert!(matches!(p.latest_stable_lookup(true), Lookup::RunScript(Script::LatestStable)));
    assert_eq!(latest_stable_from_output("  2.0.0\n"), Some("2.0.0".to_string()));
    assert_eq!(latest_stable_from_output(" \n"), None);
}

#[test]
fn list_all_output() {
    let p = plugin(PluginManifest::default());
    let ok = p.remote_versions_from_output(true, Some(0), "1.0.0 1.1.0\n2.0.0\n", "");
    assert_eq!(ok, Ok(vec!["1.0.0".to_string(), "1.1.0".to_string(), "2.0.0".to_string()]));
    let err = p.remote_versions_from_output(false, Some(3), "", "  no network \n");
    assert_eq!(
        err,
        Err(PluginError::ScriptFailed {
            plugin: "tiny".to_string(),
            script: "/d/plugins/tiny/bin/list-all".to_string(),
            code: 3,
            stderr: "no network".to_string()
        })
    );
    assert!(matches!(p.remote_versions_script(false), Err(PluginError::Unsupported { .. })));
}

#[test]
fn bin_paths_and_exec_env() {
    let t = tv("1.0.0", vec![]);
    assert_eq!(bin_paths(&t, None), vec!["/d/installs/tiny/1.0.0/bin".to_string()]);
    assert_eq!(
        bin_paths(&t, Some("bin sbin\n")),
        vec!["/d/installs/tiny/1.0.0/bin".to_string(), "/d/installs/tiny/1.0.0/sbin".to_string()]
    );
    assert!(bin_paths(&tv("system", vec![]), Some("bin")).is_empty());
    let ops = vec![
        EnvDiffOperation::Add("A".to_string(), "1".to_string()),
        EnvDiffOperation::Remove("B".to_string()),
        EnvDiffOperation::Change("PATH".to_string(), "/x".to_string()),
    ];
    assert_eq!(
        env_additions(ops),
        vec![("A".to_string(), "1".to_string()), ("PATH".to_string(), "/x".to_string())]
    );
}

#[test]
fn legacy_file_cache_reuse() {
    let p = plugin(PluginManifest::default());
    let a = p.legacy_cache_file_path("/proj/.nvmrc");
    let b = p.legacy_cache_file_path("/proj/.nvmrc");
    assert_eq!(a, b);
    assert!(a.starts_with("/c/tiny/legacy/") && a.ends_with(".txt"));
    assert_ne!(a, "/c/tiny/legacy/.txt");
    assert!(!a.contains(".nvmrc"));
    assert_ne!(a, p.legacy_cache_file_path("/proj/.tool-versions"));
    assert!(legacy_cache_is_current(Some(100), 100));
    assert!(legacy_cache_is_current(Some(150), 100));
    assert!(!legacy_cache_is_current(Some(99), 100));
    assert!(!legacy_cache_is_current(None, 100));
}

#[test]
fn install_and_uninstall_decisions() {
    let p = plugin(PluginManifest::default());
    assert_eq!(
        p.install_source(Some("https://x/y.git#v2".to_string())),
        Ok(("https://x/y.git".to_string(), Some("v2".to_string())))
    );
    assert_eq!(p.install_source(Some("https://x/y.git".to_string())), Ok(("https://x/y.git".to_string(), None)));
    assert_eq!(
        p.install_source(Some("https://x/y.git@v1.2".to_string())),
        Ok(("https://x/y.git".to_string(), Some("v1.2".to_string())))
    );
    assert_eq!(
        p.install_source(Some("git@github.com:org/y.git".to_string())),
        Ok(("git@github.com:org/y.git".to_string(), None))
    );
    assert_eq!(
        p.install_source(Some("git@github.com:org/y.git@main".to_string())),
        Ok(("git@github.com:org/y.git".to_string(), Some("main".to_string())))
    );
    assert_eq!(
        p.install_source(Some("https://user@host/y.git".to_string())),
        Ok(("https://user@host/y.git".to_string(), None))
    );
    assert_eq!(p.install_source(None), Err(PluginError::NoRepository("tiny".to_string())));
    assert_eq!(p.uninstall_dirs(), vec!["/d/downloads/tiny", "/d/installs/tiny", "/d/plugins/tiny"]);
    assert_eq!(install_scripts(true), vec![Script::Download, Script::Install]);
    assert_eq!(install_scripts(false), vec![Script::Install]);
    let files = vec![
        "command-foo-bar.bash".to_string(),
        "README.md".to_string(),
        "command-x.bash".to_string(),
        "command-y.sh".to_string(),
    ];
    assert_eq!(
        p.external_commands_from(&files),
        vec![vec!["tiny".to_string(), "foo".to_string(), "bar".to_string()], vec!["tiny".to_string(), "x".to_string()]]
    );
}

#[test]
fn cache_round_trip_and_invalidation() {
    let cm = CacheManager::new("/c/tiny/x.cache".to_string());
    assert_eq!(cm.action(1000, None, &vec![]), CacheAction::Compute);
    assert_eq!(cm.action(1000, Some(1000), &vec![]), CacheAction::UseCached);
    assert_eq!(cm.action(999_999, Some(1000), &vec![]), CacheAction::UseCached);
    let cm = cm.with_fresh_file("/d/plugins/tiny".to_string()).with_fresh_duration(Some(60));
    assert_eq!(cm.action(1030, Some(1000), &vec![Some(900)]), CacheAction::UseCached);
    assert_eq!(cm.action(1030, Some(1000), &vec![None]), CacheAction::UseCached);
    assert_eq!(cm.action(1030, Some(1000), &vec![Some(1001)]), CacheAction::Compute);
    assert_eq!(cm.action(1060, Some(1000), &vec![Some(900)]), CacheAction::Compute);
}

#[test]
fn runtime_exec_env_cache() {
    let p = plugin(PluginManifest::default());
    let t = tv("1.0.0", vec![]);
    let rv = RuntimeVersion::new(&dirs(), &p, "1.0.0".to_string(), &t, None);
    assert_eq!(rv.exec_env_cache.cache_file_path, "/c/tiny/1.0.0/exec_env.cache");
    assert_eq!(
        rv.exec_env_cache.fresh_files,
        vec!["/d".to_string(), "/d/plugins/tiny".to_string(), "/d/installs/tiny/1.0.0".to_string()]
    );
    let rv = RuntimeVersion::new(&dirs(), &p, "1.0.0".to_string(), &t, Some("k1".to_string()));
    assert_eq!(rv.exec_env_cache.cache_file_path, "/c/tiny/1.0.0/exec_env/k1.cache");
}

#[test]
fn text_helpers() {
    assert_eq!(split_words("  a\tb\n c  "), vec!["a", "b", "c"]);
    assert!(split_words(" \n ").is_empty());
    assert_eq!(trim_text("\t x y \n"), "x y");
    assert_eq!(trim_text("   "), "");
    assert_eq!(split_words("a\u{a0}b\u{2003}c\u{3000}"), vec!["a", "b", "c"]);
    assert_eq!(trim_text("\u{85} x\u{205f}"), "x");
}
