//! User settings and the builder that merges settings from several sources.
use crate::version_select::{opt_view, same_text};
use crate::script_manager::{insert_entry, insert_entries, lemma_insert_entries_push};
use crate::version_order::views;
use indexmap::IndexMap;
use vstd::prelude::*;
use vstd::string::*;

verus! {

/// What to do when a requested tool version is not installed.
#[derive(Debug, Clone, Copy, PartialEq, Eq, Structural)]
pub enum MissingRuntimeBehavior {
    AutoInstall,
    Prompt,
    Warn,
    Ignore,
}

impl MissingRuntimeBehavior {
    /// The setting's name as written in configuration.
    pub fn to_string(&self) -> (r: String)
        ensures
            r@ == behavior_name(*self),
    {
        match self {
            MissingRuntimeBehavior::AutoInstall => String::from_str("autoinstall"),
            MissingRuntimeBehavior::Prompt => String::from_str("prompt"),
            MissingRuntimeBehavior::Warn => String::from_str("warn"),
            MissingRuntimeBehavior::Ignore => String::from_str("ignore"),
        }
    }
}

pub open spec fn behavior_name(b: MissingRuntimeBehavior) -> Seq<char> {
    match b {
        MissingRuntimeBehavior::AutoInstall => "autoinstall"@,
        MissingRuntimeBehavior::Prompt => "prompt"@,
        MissingRuntimeBehavior::Warn => "warn"@,
        MissingRuntimeBehavior::Ignore => "ignore"@,
    }
}

/// The behaviour a name selects, if it is one of the four names.
pub open spec fn behavior_named(s: Seq<char>) -> Option<MissingRuntimeBehavior> {
    if s == "autoinstall"@ {
        Some(MissingRuntimeBehavior::AutoInstall)
    } else if s == "warn"@ {
        Some(MissingRuntimeBehavior::Warn)
    } else if s == "ignore"@ {
        Some(MissingRuntimeBehavior::Ignore)
    } else if s == "prompt"@ {
        Some(MissingRuntimeBehavior::Prompt)
    } else {
        None
    }
}

/// How much is logged.
#[derive(Debug, Clone, Copy, PartialEq, Eq, Structural)]
pub enum LogLevel {
    Off,
    Error,
    Warn,
    Info,
    Debug,
    Trace,
}

/// The settings in force.
#[derive(Debug, Clone)]
pub struct Settings {
    pub experimental: bool,
    pub missing_runtime_behavior: MissingRuntimeBehavior,
    pub always_keep_download: bool,
    pub always_keep_install: bool,
    pub legacy_version_file: bool,
    /// In seconds.
    pub plugin_autoupdate_last_check_duration: u64,
    pub trusted_config_paths: Vec<String>,
    pub verbose: bool,
    pub asdf_compat: bool,
    pub jobs: usize,
    pub shorthands_file: Option<String>,
    pub disable_default_shorthands: bool,
    pub log_level: LogLevel,
    pub raw: bool,
}

/// Settings from one source; `None` leaves a setting to other sources.
#[derive(Debug, Clone, Default)]
pub struct SettingsBuilder {
    pub experimental: Option<bool>,
    pub missing_runtime_behavior: Option<MissingRuntimeBehavior>,
    pub always_keep_download: Option<bool>,
    pub always_keep_install: Option<bool>,
    pub legacy_version_file: Option<bool>,
    /// In seconds.
    pub plugin_autoupdate_last_check_duration: Option<u64>,
    pub trusted_config_paths: Vec<String>,
    pub verbose: Option<bool>,
    pub asdf_compat: Option<bool>,
    pub jobs: Option<usize>,
    pub shorthands_file: Option<String>,
    pub disable_default_shorthands: Option<bool>,
    pub log_level: Option<LogLevel>,
    pub raw: Option<bool>,
}

pub open spec fn pick<T>(over: Option<T>, base: T) -> T {
    match over {
        Some(v) => v,
        None => base,
    }
}

pub open spec fn pick_opt<T>(over: Option<T>, base: Option<T>) -> Option<T> {
    if over is Some {
        over
    } else {
        base
    }
}

/// The default for each setting: a week between plugin update checks, four
/// jobs, warnings for missing tools.
pub open spec fn is_default_settings(s: Settings) -> bool {
    &&& !s.experimental
    &&& s.missing_runtime_behavior == MissingRuntimeBehavior::Warn
    &&& !s.always_keep_download
    &&& !s.always_keep_install
    &&& s.legacy_version_file
    &&& s.plugin_autoupdate_last_check_duration == 604800
    &&& s.trusted_config_paths@.len() == 0
    &&& !s.verbose
    &&& !s.asdf_compat
    &&& s.jobs == 4
    &&& s.shorthands_file is None
    &&& !s.disable_default_shorthands
    &&& s.log_level == LogLevel::Info
    &&& !s.raw
}

impl Default for Settings {
    /// The settings when nothing is configured.
    fn default() -> (r: Settings)
        ensures
            is_default_settings(r),
    {
        Settings {
            experimental: false,
            missing_runtime_behavior: MissingRuntimeBehavior::Warn,
            always_keep_download: false,
            always_keep_install: false,
            legacy_version_file: true,
            plugin_autoupdate_last_check_duration: 604800,
            trusted_config_paths: Vec::new(),
            verbose: false,
            asdf_compat: false,
            jobs: 4,
            shorthands_file: None,
            disable_default_shorthands: false,
            log_level: LogLevel::Info,
            raw: false,
        }
    }
}

fn clone_strings(v: &Vec<String>) -> (r: Vec<String>)
    ensures
        views(r@) == views(v@),
{
    let mut out: Vec<String> = Vec::new();
    let mut i: usize = 0;
    while i < v.len()
        invariant
            i <= v.len(),
            views(out@) == views(v@).take(i as int),
        decreases v.len() - i,
    {
        let ghost prev = out@;
        let c = v[i].clone();
        out.push(c);
        assert(views(out@) =~= views(prev).push(c@));
        assert(views(out@) =~= views(v@).take(i + 1));
        i = i + 1;
    }
    assert(views(v@).take(v.len() as int) =~= views(v@));
    out
}

fn clone_opt_string(v: &Option<String>) -> (r: Option<String>)
    ensures
        opt_view(r) == opt_view(*v),
{
    match v {
        Some(s) => Some(s.clone()),
        None => None,
    }
}

fn append_strings(dst: &mut Vec<String>, src: Vec<String>)
    ensures
        views(final(dst)@) == views(old(dst)@) + views(src@),
{
    let mut src = src;
    let ghost all = src@;
    dst.append(&mut src);
    assert(views(dst@) =~= views(old(dst)@) + views(all));
}

fn value_or<T>(over: Option<T>, base: T) -> (r: T)
    ensures
        r == pick(over, base),
{
    match over {
        Some(v) => v,
        None => base,
    }
}

fn or_keep<T>(over: Option<T>, base: Option<T>) -> (r: Option<T>)
    ensures
        r == pick_opt(over, base),
{
    match over {
        Some(v) => Some(v),
        None => base,
    }
}

fn behavior_from_env(env_behavior: &Option<String>, fallback: MissingRuntimeBehavior) -> (r:
    MissingRuntimeBehavior)
    ensures
        r == match env_behavior {
            Some(e) => match behavior_named(e@) {
                Some(b) => b,
                None => fallback,
            },
            None => fallback,
        },
{
    match env_behavior {
        Some(e) => {
            if same_text(e.as_str(), "autoinstall") {
                MissingRuntimeBehavior::AutoInstall
            } else if same_text(e.as_str(), "warn") {
                MissingRuntimeBehavior::Warn
            } else if same_text(e.as_str(), "ignore") {
                MissingRuntimeBehavior::Ignore
            } else if same_text(e.as_str(), "prompt") {
                MissingRuntimeBehavior::Prompt
            } else {
                fallback
            }
        },
        None => fallback,
    }
}

impl SettingsBuilder {
    /// Lays `other` over `self`: every setting that `other` sets wins, and
    /// trusted paths of `other` are added after those of `self`.
    pub fn merge(&mut self, other: SettingsBuilder)
        ensures
            final(self).experimental == pick_opt(other.experimental, old(self).experimental),
            final(self).missing_runtime_behavior == pick_opt(
                other.missing_runtime_behavior,
                old(self).missing_runtime_behavior,
            ),
            final(self).always_keep_download == pick_opt(
                other.always_keep_download,
                old(self).always_keep_download,
            ),
            final(self).always_keep_install == pick_opt(
                other.always_keep_install,
                old(self).always_keep_install,
            ),
            final(self).legacy_version_file == pick_opt(
                other.legacy_version_file,
                old(self).legacy_version_file,
            ),
            final(self).plugin_autoupdate_last_check_duration == pick_opt(
                other.plugin_autoupdate_last_check_duration,
                old(self).plugin_autoupdate_last_check_duration,
            ),
            views(final(self).trusted_config_paths@) == views(old(self).trusted_config_paths@)
                + views(other.trusted_config_paths@),
            final(self).verbose == pick_opt(other.verbose, old(self).verbose),
            final(self).asdf_compat == pick_opt(other.asdf_compat, old(self).asdf_compat),
            final(self).jobs == pick_opt(other.jobs, old(self).jobs),
            opt_view(final(self).shorthands_file) == pick_opt(
                opt_view(other.shorthands_file),
                opt_view(old(self).shorthands_file),
            ),
            final(self).disable_default_shorthands == pick_opt(
                other.disable_default_shorthands,
                old(self).disable_default_shorthands,
            ),
            final(self).log_level == pick_opt(other.log_level, old(self).log_level),
            final(self).raw == pick_opt(other.raw, old(self).raw),
    {
        self.experimental = or_keep(other.experimental, self.experimental);
        self.missing_runtime_behavior = or_keep(other.missing_runtime_behavior, self.missing_runtime_behavior);
        self.always_keep_download = or_keep(other.always_keep_download, self.always_keep_download);
        self.always_keep_install = or_keep(other.always_keep_install, self.always_keep_install);
        self.legacy_version_file = or_keep(other.legacy_version_file, self.legacy_version_file);
        self.plugin_autoupdate_last_check_duration = or_keep(other.plugin_autoupdate_last_check_duration, self.plugin_autoupdate_last_check_duration);
        append_strings(&mut self.trusted_config_paths, other.trusted_config_paths);
        self.verbose = or_keep(other.verbose, self.verbose);
        self.asdf_compat = or_keep(other.asdf_compat, self.asdf_compat);
        self.jobs = or_keep(other.jobs, self.jobs);
        if other.shorthands_file.is_some() {
            self.shorthands_file = other.shorthands_file;
        }
        self.disable_default_shorthands = or_keep(other.disable_default_shorthands, self.disable_default_shorthands);
        self.log_level = or_keep(other.log_level, self.log_level);
        self.raw = or_keep(other.raw, self.raw);
    }

    /// The settings in force: each setting this builder sets, else the one of
    /// `base`. A missing-runtime behaviour named in `env_behavior` wins over
    /// both. Raw mode forces verbose output and a single job.
    pub fn build(&self, base: Settings, env_behavior: &Option<String>) -> (r: Settings)
        ensures
            r.experimental == pick(self.experimental, base.experimental),
            r.missing_runtime_behavior == match env_behavior {
                Some(e) => match behavior_named(e@) {
                    Some(b) => b,
                    None => pick(self.missing_runtime_behavior, base.missing_runtime_behavior),
                },
                None => pick(self.missing_runtime_behavior, base.missing_runtime_behavior),
            },
            r.always_keep_download == pick(self.always_keep_download, base.always_keep_download),
            r.always_keep_install == pick(self.always_keep_install, base.always_keep_install),
            r.legacy_version_file == pick(self.legacy_version_file, base.legacy_version_file),
            r.plugin_autoupdate_last_check_duration == pick(
                self.plugin_autoupdate_last_check_duration,
                base.plugin_autoupdate_last_check_duration,
            ),
            views(r.trusted_config_paths@) == views(base.trusted_config_paths@) + views(
                self.trusted_config_paths@,
            ),
            r.verbose == (pick(self.raw, base.raw) || pick(self.verbose, base.verbose)),
            r.asdf_compat == pick(self.asdf_compat, base.asdf_compat),
            r.jobs == if pick(self.raw, base.raw) {
                1
            } else {
                pick(self.jobs, base.jobs)
            },
            opt_view(r.shorthands_file) == pick_opt(
                opt_view(self.shorthands_file),
                opt_view(base.shorthands_file),
            ),
            r.disable_default_shorthands == pick(
                self.disable_default_shorthands,
                base.disable_default_shorthands,
            ),
            r.log_level == pick(self.log_level, base.log_level),
            r.raw == pick(self.raw, base.raw),
    {
        let experimental = value_or(self.experimental, base.experimental);
        let from_builder = value_or(self.missing_runtime_behavior, base.missing_runtime_behavior);
        let missing_runtime_behavior = behavior_from_env(env_behavior, from_builder);
        let always_keep_download = value_or(self.always_keep_download, base.always_keep_download);
        let always_keep_install = value_or(self.always_keep_install, base.always_keep_install);
        let legacy_version_file = value_or(self.legacy_version_file, base.legacy_version_file);
        let plugin_autoupdate_last_check_duration = value_or(
            self.plugin_autoupdate_last_check_duration,
            base.plugin_autoupdate_last_check_duration,
        );
        let asdf_compat = value_or(self.asdf_compat, base.asdf_compat);
        let disable_default_shorthands = value_or(
            self.disable_default_shorthands,
            base.disable_default_shorthands,
        );
        let log_level = value_or(self.log_level, base.log_level);
        let raw = value_or(self.raw, base.raw);
        let verbose = raw || value_or(self.verbose, base.verbose);
        let jobs = if raw {
            1
        } else {
            value_or(self.jobs, base.jobs)
        };
        let shorthands_file = if self.shorthands_file.is_some() {
            clone_opt_string(&self.shorthands_file)
        } else {
            base.shorthands_file
        };
        let mut trusted_config_paths = base.trusted_config_paths;
        append_strings(&mut trusted_config_paths, clone_strings(&self.trusted_config_paths));
        Settings {
            experimental,
            missing_runtime_behavior,
            always_keep_download,
            always_keep_install,
            legacy_version_file,
            plugin_autoupdate_last_check_duration,
            trusted_config_paths,
            verbose,
            asdf_compat,
            jobs,
            shorthands_file,
            disable_default_shorthands,
            log_level,
            raw,
        }
    }
}

#[verifier::external_type_specification]
#[verifier::external_body]
#[verifier::reject_recursive_types(K)]
#[verifier::reject_recursive_types(V)]
#[verifier::reject_recursive_types(S)]
pub struct ExIndexMap<K, V, S>(IndexMap<K, V, S>);

/// The entries of an index map of strings, in order.
pub uninterp spec fn index_entries(m: IndexMap<String, String>) -> Seq<(Seq<char>, Seq<char>)>;

/// What `format!("{:?}", ..)` makes of a list of strings.
pub uninterp spec fn debug_text_of(v: Seq<Seq<char>>) -> Seq<char>;

/// Relies on `IndexMap::new`: a map with no entries.
#[verifier::external_body]
fn index_map_new() -> (r: IndexMap<String, String>)
    ensures
        index_entries(r) == Seq::<(Seq<char>, Seq<char>)>::empty(),
{
    IndexMap::new()
}

/// Relies on `IndexMap::insert`: an existing key keeps its place and takes the
/// new value; a new key goes last.
#[verifier::external_body]
fn index_map_insert(m: &mut IndexMap<String, String>, k: String, v: String)
    ensures
        index_entries(*final(m)) == insert_entry(index_entries(*old(m)), k@, v@),
{
    m.insert(k, v);
}

/// Relies on the `Debug` formatting of a list of strings; the text depends on
/// the strings alone.
#[verifier::external_body]
fn debug_list(v: &Vec<String>) -> (r: String)
    ensures
        r@ == debug_text_of(views(v@)),
{
    format!("{:?}", v)
}

pub open spec fn bool_text(b: bool) -> Seq<char> {
    if b {
        "true"@
    } else {
        "false"@
    }
}

pub open spec fn digit_text(d: nat) -> Seq<char> {
    if d == 0 {
        "0"@
    } else if d == 1 {
        "1"@
    } else if d == 2 {
        "2"@
    } else if d == 3 {
        "3"@
    } else if d == 4 {
        "4"@
    } else if d == 5 {
        "5"@
    } else if d == 6 {
        "6"@
    } else if d == 7 {
        "7"@
    } else if d == 8 {
        "8"@
    } else {
        "9"@
    }
}

/// The decimal digits of `n`.
pub open spec fn decimal(n: nat) -> Seq<char>
    decreases n,
{
    if n < 10 {
        digit_text(n)
    } else {
        decimal(n / 10) + digit_text(n % 10)
    }
}

pub open spec fn log_level_name(l: LogLevel) -> Seq<char> {
    match l {
        LogLevel::Off => "OFF"@,
        LogLevel::Error => "ERROR"@,
        LogLevel::Warn => "WARN"@,
        LogLevel::Info => "INFO"@,
        LogLevel::Debug => "DEBUG"@,
        LogLevel::Trace => "TRACE"@,
    }
}

/// The settings as named texts, in display order; the update check interval
/// in minutes, the shorthands file only when set.
pub open spec fn settings_entries(s: Settings) -> Seq<(Seq<char>, Seq<char>)> {
    seq![
        ("experimental"@, bool_text(s.experimental)),
        ("missing_runtime_behavior"@, behavior_name(s.missing_runtime_behavior)),
        ("always_keep_download"@, bool_text(s.always_keep_download)),
        ("always_keep_install"@, bool_text(s.always_keep_install)),
        ("legacy_version_file"@, bool_text(s.legacy_version_file)),
        (
            "plugin_autoupdate_last_check_duration"@,
            decimal((s.plugin_autoupdate_last_check_duration / 60) as nat),
        ),
        ("trusted_config_paths"@, debug_text_of(views(s.trusted_config_paths@))),
        ("verbose"@, bool_text(s.verbose)),
        ("asdf_compat"@, bool_text(s.asdf_compat)),
        ("jobs"@, decimal(s.jobs as nat)),
    ] + match s.shorthands_file {
        Some(f) => seq![("shorthands_file"@, f@)],
        None => Seq::empty(),
    } + seq![
        ("disable_default_shorthands"@, bool_text(s.disable_default_shorthands)),
        ("log_level"@, log_level_name(s.log_level)),
        ("raw"@, bool_text(s.raw)),
    ]
}

fn digit_str(d: u64) -> (r: &'static str)
    requires
        d < 10,
    ensures
        r@ == digit_text(d as nat),
{
    if d == 0 {
        "0"
    } else if d == 1 {
        "1"
    } else if d == 2 {
        "2"
    } else if d == 3 {
        "3"
    } else if d == 4 {
        "4"
    } else if d == 5 {
        "5"
    } else if d == 6 {
        "6"
    } else if d == 7 {
        "7"
    } else if d == 8 {
        "8"
    } else {
        "9"
    }
}

/// `n` in decimal.
pub fn decimal_string(n: u64) -> (r: String)
    ensures
        r@ == decimal(n as nat),
    decreases n,
{
    if n < 10 {
        String::from_str(digit_str(n))
    } else {
        let mut s = decimal_string(n / 10);
        s.append(digit_str(n % 10));
        s
    }
}

fn bool_string(b: bool) -> (r: String)
    ensures
        r@ == bool_text(b),
{
    if b {
        String::from_str("true")
    } else {
        String::from_str("false")
    }
}

impl LogLevel {
    /// The level's name, upper case.
    pub fn name(&self) -> (r: String)
        ensures
            r@ == log_level_name(*self),
    {
        match self {
            LogLevel::Off => String::from_str("OFF"),
            LogLevel::Error => String::from_str("ERROR"),
            LogLevel::Warn => String::from_str("WARN"),
            LogLevel::Info => String::from_str("INFO"),
            LogLevel::Debug => String::from_str("DEBUG"),
            LogLevel::Trace => String::from_str("TRACE"),
        }
    }
}

fn insert_tracked(
    m: &mut IndexMap<String, String>,
    k: &str,
    v: String,
    Ghost(adds): Ghost<Seq<(Seq<char>, Seq<char>)>>,
)
    requires
        index_entries(*old(m)) == insert_entries(Seq::empty(), adds),
    ensures
        index_entries(*final(m)) == insert_entries(Seq::empty(), adds.push((k@, v@))),
{
    proof {
        lemma_insert_entries_push(Seq::empty(), adds, k@, v@);
    }
    index_map_insert(m, String::from_str(k), v);
}

impl Settings {
    /// The settings as an ordered map from name to text.
    #[verifier::rlimit(60)]
    pub fn to_index_map(&self) -> (r: IndexMap<String, String>)
        ensures
            index_entries(r) == insert_entries(Seq::empty(), settings_entries(*self)),
    {
        let mut map = index_map_new();
        let ghost mut adds = Seq::<(Seq<char>, Seq<char>)>::empty();
        assert(insert_entries(Seq::empty(), adds) == Seq::<(Seq<char>, Seq<char>)>::empty());
        let v = bool_string(self.experimental);
        insert_tracked(&mut map, "experimental", v, Ghost(adds));
        proof { adds = adds.push(("experimental"@, v@)); }
        let v = self.missing_runtime_behavior.to_string();
        insert_tracked(&mut map, "missing_runtime_behavior", v, Ghost(adds));
        proof { adds = adds.push(("missing_runtime_behavior"@, v@)); }
        let v = bool_string(self.always_keep_download);
        insert_tracked(&mut map, "always_keep_download", v, Ghost(adds));
        proof { adds = adds.push(("always_keep_download"@, v@)); }
        let v = bool_string(self.always_keep_install);
        insert_tracked(&mut map, "always_keep_install", v, Ghost(adds));
        proof { adds = adds.push(("always_keep_install"@, v@)); }
        let v = bool_string(self.legacy_version_file);
        insert_tracked(&mut map, "legacy_version_file", v, Ghost(adds));
        proof { adds = adds.push(("legacy_version_file"@, v@)); }
        let v = decimal_string(self.plugin_autoupdate_last_check_duration / 60);
        insert_tracked(&mut map, "plugin_autoupdate_last_check_duration", v, Ghost(adds));
        proof { adds = adds.push(("plugin_autoupdate_last_check_duration"@, v@)); }
        let v = debug_list(&self.trusted_config_paths);
        insert_tracked(&mut map, "trusted_config_paths", v, Ghost(adds));
        proof { adds = adds.push(("trusted_config_paths"@, v@)); }
        let v = bool_string(self.verbose);
        insert_tracked(&mut map, "verbose", v, Ghost(adds));
        proof { adds = adds.push(("verbose"@, v@)); }
        let v = bool_string(self.asdf_compat);
        insert_tracked(&mut map, "asdf_compat", v, Ghost(adds));
        proof { adds = adds.push(("asdf_compat"@, v@)); }
        let v = decimal_string(self.jobs as u64);
        insert_tracked(&mut map, "jobs", v, Ghost(adds));
        proof { adds = adds.push(("jobs"@, v@)); }
        match &self.shorthands_file {
            Some(f) => {
                let v = f.clone();
                insert_tracked(&mut map, "shorthands_file", v, Ghost(adds));
                proof { adds = adds.push(("shorthands_file"@, v@)); }
            },
            None => {},
        }
        let v = bool_string(self.disable_default_shorthands);
        insert_tracked(&mut map, "disable_default_shorthands", v, Ghost(adds));
        proof { adds = adds.push(("disable_default_shorthands"@, v@)); }
        let v = self.log_level.name();
        insert_tracked(&mut map, "log_level", v, Ghost(adds));
        proof { adds = adds.push(("log_level"@, v@)); }
        let v = bool_string(self.raw);
        insert_tracked(&mut map, "raw", v, Ghost(adds));
        proof {
            adds = adds.push(("raw"@, v@));
            let se = settings_entries(*self);
            assert(adds.len() == se.len());
            assert forall|i: int| 0 <= i < adds.len() implies adds[i] == se[i] by {}
            assert(adds =~= se);
        }
        map
    }
}

} // verus!
