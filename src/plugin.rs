//! The capability surface every plugin backend offers.
use crate::settings::Settings;
use crate::tool_version::ToolVersion;
use vstd::prelude::*;

verus! {

/// Which kind of backend a plugin is.
#[derive(Debug, Clone, Copy, PartialEq, Eq, Structural)]
pub enum PluginType {
    Core,
    External,
}

/// A failure reported by a plugin backend.
#[derive(Debug, Clone, PartialEq, Eq)]
pub enum PluginError {
    /// A backend script of a plugin exited unsuccessfully: its path, exit
    /// code and what it printed on stderr.
    ScriptFailed { plugin: String, script: String, code: i32, stderr: String },
    /// The plugin has no way to perform this operation.
    Unsupported { plugin: String, operation: String },
    /// A filesystem operation failed on this path.
    Io { path: String, message: String },
    /// The plugin is not installed.
    NotInstalled(String),
    /// No repository is known to install the plugin from.
    NoRepository(String),
}

/// A backend that lists, installs and describes versions of one tool.
///
/// Implementations run scripts, read files and consult caches, so nothing is
/// promised of what their methods return: the resolution logic is verified for
/// every answer they may give.
pub trait Plugin {
    fn name(&self) -> String;

    fn get_type(&self) -> PluginType;

    /// Every version the backend offers.
    fn list_remote_versions(&self, settings: &Settings) -> Result<Vec<String>, PluginError>;

    /// The backend's own idea of the latest stable version, if it has one.
    fn latest_stable_version(&self, settings: &Settings) -> Result<Option<String>, PluginError>;

    fn get_remote_url(&self) -> Option<String>;

    fn is_installed(&self) -> bool;

    /// Alias name and target pairs; a later pair overrides an earlier one.
    fn get_aliases(&self, settings: &Settings) -> Result<Vec<(String, String)>, PluginError>;

    fn legacy_filenames(&self, settings: &Settings) -> Result<Vec<String>, PluginError>;

    fn parse_legacy_file(&self, path: &str, settings: &Settings) -> Result<String, PluginError>;

    /// The versions installed locally.
    fn list_installed_versions(&self) -> Result<Vec<String>, PluginError>;

    /// Whether an install directory for exactly this version exists and is not
    /// a dangling link.
    fn has_install_dir(&self, version: &str) -> bool;

    /// The canonical form of a local path; fails when it does not exist.
    fn canonicalize(&self, path: &str) -> Result<String, PluginError>;

    /// Installs the plugin itself, from its repository or the one the
    /// short-name registry gives.
    fn install(&self, registry_url: Option<String>) -> Result<(), PluginError>;

    /// Updates the plugin to `git_ref`, or to the latest commit.
    fn update(&self, git_ref: Option<String>) -> Result<(), PluginError>;

    /// Removes the plugin with its downloads and installs.
    fn uninstall(&self) -> Result<(), PluginError>;

    /// The subcommands the plugin provides, each led by the plugin name.
    fn external_commands(&self) -> Result<Vec<Vec<String>>, PluginError>;

    /// Runs a subcommand the plugin provides; returns its exit code.
    fn execute_external_command(&self, command: &str, args: Vec<String>) -> Result<i32, PluginError>;

    fn install_version(&self, tv: &ToolVersion) -> Result<(), PluginError>;

    fn uninstall_version(&self, tv: &ToolVersion) -> Result<(), PluginError>;

    fn list_bin_paths(&self, tv: &ToolVersion) -> Result<Vec<String>, PluginError>;

    fn exec_env(&self, tv: &ToolVersion) -> Result<Vec<(String, String)>, PluginError>;
}

} // verus!
