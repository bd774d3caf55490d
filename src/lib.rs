//! Version resolution and plugin decisions for a polyglot tool-version manager.
//!
//! The library turns version requests ("18", "prefix:1.2", "latest",
//! "18.2.3!-2", "ref:main", "path:/opt/node", "system") into concrete tool
//! versions with their install, cache and download directories, deciding for
//! script-backed plugins what to run, what to cache and when a cache is
//! fresh. Running scripts and touching the disk is left to the caller, which
//! implements [`plugin::Plugin`] and hands outcomes back in.
pub mod version_order;
pub mod version_select;
pub mod version_arith;
pub mod request;
pub mod settings;
pub mod text;
pub mod cache;
pub mod codec;
pub mod script_manager;
pub mod external_plugin;
pub mod env_diff;
pub mod runtimes;
pub mod plugin;
pub mod tool_version;
pub mod tool_version_list;
