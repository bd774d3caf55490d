use rtx_core::plugin::{Plugin, PluginError, PluginType};
use rtx_core::request::ToolVersionRequest;
use rtx_core::settings::Settings;
use rtx_core::tool_version::{
    bang_choice, candidates_from, choose_version, latest_version, lookup_alias, split_bang, Dirs,
    ResolveError, ToolVersion,
};
use rtx_core::tool_version_list::{ToolSource, ToolVersionList};

/// A backend answering from fixed lists.
struct FakePlugin {
    name: String,
    installed: bool,
    remote: Result<Vec<String>, PluginError>,
    stable: Option<String>,
    local: Result<Vec<String>, PluginError>,
    aliases: Vec<(String, String)>,
}

fn strings(v: &[&str]) -> Vec<String> {
    v.iter().map(|s| s.to_string()).collect()
}

fn fake(name: &str, remote: &[&str], stable: Option<&str>, local: &[&str]) -> FakePlugin {
    FakePlugin {
        name: name.to_string(),
        installed: true,
        remote: Ok(strings(remote)),
        stable: stable.map(|s| s.to_string()),
        local: Ok(strings(local)),
        aliases: vec![],
    }
}

fn failure() -> PluginError {
    PluginError::ScriptFailed { plugin: "dummy".to_string(), script: "list-all".to_string(), code: 1, stderr: "boom".to_string() }
}

impl Plugin for FakePlugin {
    fn name(&self) -> String {
        self.name.clone()
    }
    fn get_type(&self) -> PluginType {
        PluginType::Core
    }
    fn list_remote_versions(&self, _settings: &Settings) -> Result<Vec<String>, PluginError> {
        self.remote.clone()
    }
    fn latest_stable_version(&self, _settings: &Settings) -> Result<Option<String>, PluginError> {
        Ok(self.stable.clone())
    }
    fn get_remote_url(&self) -> Option<String> {
        None
    }
    fn is_installed(&self) -> bool {
        self.installed
    }
    fn get_aliases(&self, _settings: &Settings) -> Result<Vec<(String, String)>, PluginError> {
        Ok(self.aliases.clone())
    }
    fn legacy_filenames(&self, _settings: &Settings) -> Result<Vec<String>, PluginError> {
        Ok(vec![])
    }
    fn parse_legacy_file(&self, _path: &str, _settings: &Settings) -> Result<String, PluginError> {
        Err(failure())
    }
    fn list_installed_versions(&self) -> Result<Vec<String>, PluginError> {
        self.local.clone()
    }
    fn has_install_dir(&self, version: &str) -> bool {
        match &self.local {
            Ok(local) => local.iter().any(|v| v == version),
            Err(_) => false,
        }
    }
    fn canonicalize(&self, path: &str) -> Result<String, PluginError> {
        Ok(format!("/canonical{}", path))
    }
    fn install(&self, _registry_url: Option<String>) -> Result<(), PluginError> {
        panic!("resolution installs nothing")
    }
    fn update(&self, _git_ref: Option<String>) -> Result<(), PluginError> {
        Ok(())
    }
    fn uninstall(&self) -> Result<(), PluginError> {
        panic!("resolution removes nothing")
    }
    fn external_commands(&self) -> Result<Vec<Vec<String>>, PluginError> {
        Ok(vec![])
    }
    fn execute_external_command(&self, _command: &str, _args: Vec<String>) -> Result<i32, PluginError> {
        Ok(0)
    }
    fn install_version(&self, _tv: &ToolVersion) -> Result<(), PluginError> {
        panic!("resolution installs nothing")
    }
    fn uninstall_version(&self, _tv: &ToolVersion) -> Result<(), PluginError> {
        Ok(())
    }
    fn list_bin_paths(&self, _tv: &ToolVersion) -> Result<Vec<String>, PluginError> {
        Ok(vec![])
    }
    fn exec_env(&self, _tv: &ToolVersion) -> Result<Vec<(String, String)>, PluginError> {
        Ok(vec![])
    }
}

/// A backend that must never be asked anything.
struct UntouchablePlugin;

impl Plugin for UntouchablePlugin {
    fn name(&self) -> String {
        panic!("name asked")
    }
    fn get_type(&self) -> PluginType {
        panic!("type asked")
    }
    fn list_remote_versions(&self, _settings: &Settings) -> Result<Vec<String>, PluginError> {
        panic!("script run: list-all")
    }
    fn latest_stable_version(&self, _settings: &Settings) -> Result<Option<String>, PluginError> {
        panic!("script run: latest-stable")
    }
    fn get_remote_url(&self) -> Option<String> {
        panic!("remote asked")
    }
    fn is_installed(&self) -> bool {
        panic!("install state asked")
    }
    fn get_aliases(&self, _settings: &Settings) -> Result<Vec<(String, String)>, PluginError> {
        panic!("script run: list-aliases")
    }
    fn legacy_filenames(&self, _settings: &Settings) -> Result<Vec<String>, PluginError> {
        panic!("script run: list-legacy-filenames")
    }
    fn parse_legacy_file(&self, _path: &str, _settings: &Settings) -> Result<String, PluginError> {
        panic!("script run: parse-legacy-file")
    }
    fn list_installed_versions(&self) -> Result<Vec<String>, PluginError> {
        panic!("installs listed")
    }
    fn has_install_dir(&self, _version: &str) -> bool {
        panic!("install dir checked")
    }
    fn canonicalize(&self, _path: &str) -> Result<String, PluginError> {
        panic!("path canonicalized")
    }
    fn install(&self, _registry_url: Option<String>) -> Result<(), PluginError> {
        panic!("plugin installed")
    }
    fn update(&self, _git_ref: Option<String>) -> Result<(), PluginError> {
        panic!("plugin updated")
    }
    fn uninstall(&self) -> Result<(), PluginError> {
        panic!("plugin uninstalled")
    }
    fn external_commands(&self) -> Result<Vec<Vec<String>>, PluginError> {
        panic!("commands listed")
    }
    fn execute_external_command(&self, _command: &str, _args: Vec<String>) -> Result<i32, PluginError> {
        panic!("command run")
    }
    fn install_version(&self, _tv: &ToolVersion) -> Result<(), PluginError> {
        panic!("script run: install")
    }
    fn uninstall_version(&self, _tv: &ToolVersion) -> Result<(), PluginError> {
        panic!("script run: uninstall")
    }
    fn list_bin_paths(&self, _tv: &ToolVersion) -> Result<Vec<String>, PluginError> {
        panic!("script run: list-bin-paths")
    }
    fn exec_env(&self, _tv: &ToolVersion) -> Result<Vec<(String, String)>, PluginError> {
        panic!("script run: exec-env")
    }
}

fn dirs() -> Dirs {
    Dirs {
        installs: "/data/installs".to_string(),
        cache: "/cache".to_string(),
        downloads: "/data/downloads".to_string(),
        plugins: "/data/plugins".to_string(),
        shims: "/data/shims".to_string(),
        root: "/data".to_string(),
    }
}

fn resolve<P: Plugin>(plugin: &P, name: &str, spec: &str, latest: bool) -> Result<ToolVersion, rtx_core::tool_version::ResolveError> {
    let req = ToolVersionRequest::new(name.to_string(), spec).unwrap();
    req.resolve(&dirs(), plugin, &Settings::default(), vec![], latest)
}

#[test]
fn test_tool_version_request() {
    let p = || "dummy".to_string();
    assert_eq!(ToolVersionRequest::new(p(), "1.2.3").unwrap().to_string(), "1.2.3");
    assert_eq!(ToolVersionRequest::new(p(), "prefix:1.2.3").unwrap().to_string(), "prefix:1.2.3");
    assert_eq!(ToolVersionRequest::new(p(), "ref:1.2.3").unwrap().to_string(), "ref:1.2.3");
    assert_eq!(ToolVersionRequest::new(p(), "path:/foo/bar").unwrap().to_string(), "path:/foo/bar");
    assert_eq!(ToolVersionRequest::new(p(), "system").unwrap().to_string(), "system");
}

#[test]
fn request_versions_and_errors() {
    let r = ToolVersionRequest::new("node".to_string(), "prefix:18").unwrap();
    assert_eq!(r.version(), "prefix-18");
    assert_eq!(r.plugin_name(), "node");
    assert_eq!(ToolVersionRequest::new("node".to_string(), "ref:main").unwrap().version(), "ref-main");
    assert!(ToolVersionRequest::new("node".to_string(), "weird:1").is_err());
    let a = ToolVersionRequest::new("node".to_string(), "10.0").unwrap();
    let b = ToolVersionRequest::new("node".to_string(), "9.0").unwrap();
    assert_eq!(a.compare(&b), std::cmp::Ordering::Less);
}

#[test]
fn test_exact_match() {
    let plugin = fake("tiny", &["1.0.0", "2.0.0", "3.1.0"], None, &[]);
    let settings = Settings::default();
    let version = latest_version(&plugin, &settings, Some("1.0.0".into())).unwrap().unwrap();
    assert_eq!(version, "1.0.0");
    let version = latest_version(&plugin, &settings, None).unwrap().unwrap();
    assert_eq!(version, "3.1.0");
}

#[test]
fn test_latest_stable() {
    let settings = Settings::default();
    let plugin = fake("dummy", &["1.0.0", "2.0.0", "3.0.0-beta"], Some("2.0.0"), &[]);
    let version = latest_version(&plugin, &settings, None).unwrap().unwrap();
    assert_eq!(version, "2.0.0");
}

#[test]
fn system_request_runs_nothing() {
    let tv = resolve(&UntouchablePlugin, "node", "system", false).unwrap();
    assert_eq!(tv.version, "system");
    assert_eq!(tv.install_path, "/data/installs/node/system");
}

#[test]
fn ref_and_path_requests_resolve_directly() {
    let tv = resolve(&UntouchablePlugin, "node", "ref:main", false).unwrap();
    assert_eq!(tv.version, "ref-main");
    assert_eq!(tv.install_path, "/data/installs/node/ref-main");
    assert_eq!(tv.cache_path, "/cache/node/ref-main");
    let plugin = fake("node", &[], None, &[]);
    let tv = resolve(&plugin, "node", "path:/opt/node", false).unwrap();
    assert_eq!(tv.version, "path-/canonical/opt/node");
    assert!(tv.install_path.starts_with("/data/installs/node/path-"));
    assert_ne!(tv.install_path, "/data/installs/node/path-/canonical/opt/node");
}

#[test]
fn latest_without_installs_uses_remote_latest() {
    let plugin = fake("tiny", &["1.0.0", "3.1.0", "2.0.0"], None, &[]);
    let tv = resolve(&plugin, "tiny", "latest", false).unwrap();
    assert_eq!(tv.version, "3.1.0");
    let plugin = fake("tiny", &["1.0.0"], Some("3.1.0"), &[]);
    let tv = resolve(&plugin, "tiny", "latest", false).unwrap();
    assert_eq!(tv.version, "3.1.0");
}

#[test]
fn latest_prefers_installed_unless_asked() {
    let plugin = fake("tiny", &["1.0.0", "3.1.0"], None, &["1.0.0"]);
    assert_eq!(resolve(&plugin, "tiny", "latest", false).unwrap().version, "1.0.0");
    assert_eq!(resolve(&plugin, "tiny", "latest", true).unwrap().version, "3.1.0");
}

#[test]
fn exact_remote_version_gives_install_path() {
    let plugin = fake("tiny", &["0.9.0", "1.0.0", "1.0.1"], None, &[]);
    let tv = resolve(&plugin, "tiny", "1.0.0", false).unwrap();
    assert_eq!(tv.version, "1.0.0");
    assert_eq!(tv.install_path, "/data/installs/tiny/1.0.0");
    assert_eq!(tv.download_path, "/data/downloads/tiny/1.0.0");
}

#[test]
fn prefix_request_picks_greatest_match() {
    let plugin = fake("tiny", &["1.2.0", "1.2.5", "1.3.0"], None, &[]);
    let tv = resolve(&plugin, "tiny", "prefix:1.2", false).unwrap();
    assert_eq!(tv.version, "1.2.5");
    assert_eq!(tv.install_path, "/data/installs/tiny/prefix-1.2");
    let tv = resolve(&plugin, "tiny", "1.2", false).unwrap();
    assert_eq!(tv.version, "1.2.5");
    let tv = resolve(&plugin, "tiny", "4.0", false).unwrap();
    assert_eq!(tv.version, "4.0");
}

#[test]
fn bang_request_subtracts() {
    let plugin = fake("node", &["14.0.0", "16.0.0", "16.5.1", "18.2.3"], None, &[]);
    let tv = resolve(&plugin, "node", "18.2.3!-2", false).unwrap();
    assert_eq!(tv.version, "16.5.1");
    assert!(resolve(&plugin, "node", "1.0.0!-2", false).is_err());
}

#[test]
fn aliases_redirect() {
    let mut plugin = fake("node", &["16.0.0", "18.0.0", "18.1.0"], None, &[]);
    plugin.aliases = vec![("lts".to_string(), "18".to_string()), ("old".to_string(), "ref:v1".to_string())];
    assert_eq!(resolve(&plugin, "node", "lts", false).unwrap().version, "18.1.0");
    let tv = resolve(&plugin, "node", "old", false).unwrap();
    assert_eq!(tv.version, "ref-v1");
}

#[test]
fn test_tool_version_list_failure() {
    let mut plugin = fake("dummy", &[], None, &[]);
    plugin.remote = Err(failure());
    plugin.local = Err(failure());
    let mut tvl = ToolVersionList::new("dummy".to_string(), ToolSource::Argument);
    tvl.requests.push((ToolVersionRequest::new("dummy".to_string(), "1.0.0").unwrap(), vec![]));
    tvl.resolve(&dirs(), Some(&plugin), &Settings::default(), false);
    assert_eq!(tvl.versions.len(), 0);
}

#[test]
fn list_skips_uninstalled_plugin() {
    let mut plugin = fake("dummy", &["1.0.0"], None, &[]);
    plugin.installed = false;
    let mut tvl = ToolVersionList::new("dummy".to_string(), ToolSource::Argument);
    tvl.requests.push((ToolVersionRequest::new("dummy".to_string(), "1.0.0").unwrap(), vec![]));
    tvl.resolve(&dirs(), Some(&plugin), &Settings::default(), false);
    assert_eq!(tvl.versions.len(), 0);
    tvl.resolve::<FakePlugin>(&dirs(), None, &Settings::default(), false);
    assert_eq!(tvl.versions.len(), 0);
    tvl.resolve_if_installed(&dirs(), &UntouchablePlugin, false, &Settings::default(), false);
    assert_eq!(tvl.versions.len(), 0);
}

#[test]
fn list_keeps_successes_in_order() {
    let plugin = fake("dummy", &["1.0.0", "2.0.0"], None, &[]);
    let mut tvl = ToolVersionList::new("dummy".to_string(), ToolSource::Argument);
    for spec in ["2.0.0", "1.0.0!-5", "1.0.0"] {
        tvl.requests.push((ToolVersionRequest::new("dummy".to_string(), spec).unwrap(), vec![]));
    }
    tvl.resolve(&dirs(), Some(&plugin), &Settings::default(), false);
    let got: Vec<&str> = tvl.versions.iter().map(|tv| tv.version.as_str()).collect();
    assert_eq!(got, vec!["2.0.0", "1.0.0"]);
}

#[test]
fn later_alias_wins() {
    let aliases = vec![
        ("lts".to_string(), "16".to_string()),
        ("x".to_string(), "1".to_string()),
        ("lts".to_string(), "18".to_string()),
    ];
    assert_eq!(lookup_alias(&aliases, "lts"), "18");
    assert_eq!(lookup_alias(&aliases, "x"), "1");
    assert_eq!(lookup_alias(&aliases, "none"), "none");
    assert_eq!(lookup_alias(&vec![], "lts"), "lts");
}

#[test]
fn bang_split() {
    assert_eq!(split_bang("18.2.3!-0.1"), Some(("18.2.3".to_string(), "0.1".to_string())));
    assert_eq!(split_bang("latest!-1"), Some(("latest".to_string(), "1".to_string())));
    assert_eq!(split_bang("18!"), None);
}

#[test]
fn resolution_errors() {
    let plugin = fake("node", &["1.0.0"], None, &[]);
    assert_eq!(
        resolve(&plugin, "node", "1.0.0!-2", false).unwrap_err(),
        ResolveError::InvalidVersion("1.0.0!-2".to_string())
    );
    let empty = fake("node", &[], None, &[]);
    assert_eq!(
        resolve(&empty, "node", "latest!-1", false).unwrap_err(),
        ResolveError::NoLatestVersion("node".to_string())
    );
    let mut broken = fake("node", &[], None, &[]);
    broken.remote = Err(failure());
    broken.local = Err(failure());
    assert_eq!(resolve(&broken, "node", "prefix:1", false).unwrap_err(), ResolveError::Plugin(failure()));
}

#[test]
fn unreachable_backend_falls_back_to_installed() {
    let mut plugin = fake("node", &[], None, &["1.2.0", "1.2.7"]);
    plugin.remote = Err(failure());
    assert_eq!(resolve(&plugin, "node", "prefix:1.2", false).unwrap().version, "1.2.7");
}

#[test]
fn latest_orders_chunks_numerically() {
    let plugin = fake("tiny", &["10.0", "9.9"], None, &[]);
    assert_eq!(resolve(&plugin, "tiny", "latest", true).unwrap().version, "10.0");
    let plugin = fake("tiny", &["9.9", "10.0"], None, &[]);
    assert_eq!(resolve(&plugin, "tiny", "latest", true).unwrap().version, "10.0");
}

#[test]
fn version_choice_steps() {
    let s = |v: &[&str]| strings(v);
    let none: Option<String> = None;
    // an existing install of the token wins
    assert_eq!(choose_version("1.2", true, false, &none, &none, &s(&[]), &s(&["1.2.9"]), &none), "1.2");
    // latest: newest installed unless remote data is demanded
    let li = Some("3.0.0".to_string());
    let la = Some("3.1.0".to_string());
    assert_eq!(choose_version("latest", false, false, &li, &la, &s(&[]), &s(&[]), &none), "3.0.0");
    assert_eq!(choose_version("latest", false, true, &li, &la, &s(&[]), &s(&[]), &none), "3.1.0");
    assert_eq!(choose_version("latest", false, false, &none, &la, &s(&[]), &s(&[]), &none), "3.1.0");
    // exact installed, then exact offered
    assert_eq!(choose_version("1.2", false, false, &none, &none, &s(&["1.2"]), &s(&["1.2.5"]), &none), "1.2");
    assert_eq!(choose_version("1.2", false, true, &none, &none, &s(&["1.2"]), &s(&["1.2.5"]), &none), "1.2.5");
    assert_eq!(choose_version("1.0.0", false, false, &none, &none, &s(&[]), &s(&["1.0.0", "1.0.1"]), &none), "1.0.0");
    // bang result, then prefix
    let bang = Some("16.5.1".to_string());
    assert_eq!(choose_version("18!-2", false, false, &none, &none, &s(&[]), &s(&["16.5.1"]), &bang), "16.5.1");
    assert_eq!(choose_version("1.2", false, false, &none, &none, &s(&[]), &s(&["1.2.0", "1.2.5", "1.3.0"]), &none), "1.2.5");
    assert_eq!(choose_version("4", false, false, &none, &none, &s(&[]), &s(&["1.2.0"]), &none), "4");
}

#[test]
fn bang_and_candidates() {
    let node = strings(&["14.0.0", "16.0.0", "16.5.1", "18.2.3"]);
    assert_eq!(bang_choice("18.2.3", "2", &node), Some(Some("16.5.1".to_string())));
    assert_eq!(bang_choice("18.2.3", "10", &node), Some(None));
    assert_eq!(bang_choice("1.0.0", "2", &node), None);
    let remote: Result<Vec<String>, PluginError> = Ok(strings(&["1"]));
    assert_eq!(candidates_from(remote, None), Ok(strings(&["1"])));
    assert_eq!(candidates_from(Err(failure()), Some(Ok(strings(&["2"])))), Ok(strings(&["2"])));
    assert_eq!(
        candidates_from(Err(failure()), Some(Err(failure()))),
        Err(ResolveError::Plugin(failure()))
    );
}

#[test]
fn path_requests_need_an_existing_path() {
    let missing = PluginError::Io { path: "/nope".to_string(), message: "no such file".to_string() };
    assert_eq!(
        ToolVersion::from_canonical_path(&dirs(), "node".to_string(), Err(missing.clone()), vec![]).unwrap_err(),
        ResolveError::Plugin(missing)
    );
    let tv = ToolVersion::from_canonical_path(&dirs(), "node".to_string(), Ok("/opt/n".to_string()), vec![]).unwrap();
    assert_eq!(tv.version, "path-/opt/n");
    let again = ToolVersion::from_canonical_path(&dirs(), "node".to_string(), Ok("/opt/n".to_string()), vec![]).unwrap();
    assert_eq!(tv.install_path, again.install_path);
}

#[test]
fn prefix_takes_chunkwise_maximum() {
    let plugin = fake("tiny", &["1.10.0", "1.9.9"], None, &[]);
    assert_eq!(resolve(&plugin, "tiny", "prefix:1", false).unwrap().version, "1.10.0");
    let plugin = fake("tiny", &["1.2.0", "1.2.5", "1.3.0"], None, &[]);
    assert_eq!(resolve(&plugin, "tiny", "prefix:1.2", false).unwrap().version, "1.2.5");
}
