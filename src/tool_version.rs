//! Resolved tool versions and the resolution of requests against a plugin.
use crate::plugin::{Plugin, PluginError};
use crate::request::{
    find_colon, request_plugin, request_version, RequestView, ToolVersionRequest,
};
use crate::settings::Settings;
use crate::version_arith::{version_sub, version_sub_result};
use crate::version_order::views;
use crate::version_select::{
    find_latest_matching, find_latest_not_exceeding, find_latest_stable, is_last_greatest,
    is_stable, latest_matching, latest_stable_of, list_contains, matches_prefix,
    not_exceeding, opt_view, prefix_flags, same_text, stable_flags, not_exceeding_flags,
    latest_not_exceeding,
};
use vstd::prelude::*;
use vstd::string::*;

verus! {

/// Where things live on disk: roots of installs, caches, downloads, plugins
/// and shims, and the data root.
#[derive(Debug, Clone)]
pub struct Dirs {
    pub installs: String,
    pub cache: String,
    pub downloads: String,
    pub plugins: String,
    pub shims: String,
    pub root: String,
}

/// A concrete version of a tool for a plugin, with its on-disk locations.
#[derive(Debug, Clone)]
pub struct ToolVersion {
    pub request: ToolVersionRequest,
    pub plugin_name: String,
    pub version: String,
    pub install_path: String,
    pub cache_path: String,
    pub download_path: String,
    /// Options given by the user, in order.
    pub opts: Vec<(String, String)>,
}

/// Why a request could not be resolved.
#[derive(Debug, Clone, PartialEq, Eq)]
pub enum ResolveError {
    Plugin(PluginError),
    /// A `W!-S` specifier whose parts are not versions, or whose subtraction
    /// goes below zero.
    InvalidVersion(String),
    /// `latest` was asked for and the plugin knows no version.
    NoLatestVersion(String),
}

pub open spec fn join(a: Seq<char>, b: Seq<char>) -> Seq<char> {
    a + "/"@ + b
}

pub open spec fn pairs_view(s: Seq<(String, String)>) -> Seq<(Seq<char>, Seq<char>)> {
    s.map_values(|p: (String, String)| (p.0@, p.1@))
}

/// The hexadecimal text std's `DefaultHasher` gives for a string.
pub uninterp spec fn path_hash_of(s: Seq<char>) -> Seq<char>;

/// The directory name a request installs under.
pub open spec fn pathname_of(r: RequestView) -> Seq<char> {
    match r {
        RequestView::Version(_, v) => v,
        RequestView::Prefix(_, p) => "prefix-"@ + p,
        RequestView::Ref(_, v) => "ref-"@ + v,
        RequestView::Path(_, p) => "path-"@ + path_hash_of(p),
        RequestView::System(_) => "system"@,
    }
}

/// `tv` is the version `version` of request `req`, stored under `pathname`.
pub open spec fn is_tool_version(
    tv: ToolVersion,
    dirs: Dirs,
    req: RequestView,
    version: Seq<char>,
    pathname: Seq<char>,
) -> bool {
    let plugin = request_plugin(req);
    &&& tv.request@ == req
    &&& tv.plugin_name@ == plugin
    &&& tv.version@ == version
    &&& tv.install_path@ == join(join(dirs.installs@, plugin), pathname)
    &&& tv.cache_path@ == join(join(dirs.cache@, plugin), pathname)
    &&& tv.download_path@ == join(join(dirs.downloads@, plugin), pathname)
}

/// `tv` resolves `req` to `version`, stored under the request's pathname.
pub open spec fn is_resolved_as(tv: ToolVersion, dirs: Dirs, req: RequestView, version: Seq<char>) -> bool {
    is_tool_version(tv, dirs, req, version, pathname_of(req))
}

/// Two requests of one plugin that render to the same pathname resolve to the
/// same install, cache and download locations.
pub proof fn lemma_same_pathname_same_place(
    t1: ToolVersion,
    t2: ToolVersion,
    dirs: Dirs,
    r1: RequestView,
    r2: RequestView,
    v1: Seq<char>,
    v2: Seq<char>,
)
    requires
        is_resolved_as(t1, dirs, r1, v1),
        is_resolved_as(t2, dirs, r2, v2),
        request_plugin(r1) == request_plugin(r2),
        pathname_of(r1) == pathname_of(r2),
    ensures
        t1.install_path@ == t2.install_path@,
        t1.cache_path@ == t2.cache_path@,
        t1.download_path@ == t2.download_path@,
{
}

/// The target of alias `v` in `aliases`, the last pair winning; `v` itself
/// when it is no alias.
pub open spec fn alias_target(aliases: Seq<(Seq<char>, Seq<char>)>, v: Seq<char>) -> Seq<char>
    decreases aliases.len(),
{
    if aliases.len() == 0 {
        v
    } else if aliases.last().0 == v {
        aliases.last().1
    } else {
        alias_target(aliases.drop_last(), v)
    }
}

/// Position of the first `!-` in `s` at or after `i`.
pub open spec fn bang_from(s: Seq<char>, i: int) -> Option<int>
    decreases s.len() - i,
{
    if i < 0 || i + 1 >= s.len() {
        None
    } else if s[i] == '!' && s[i + 1] == '-' {
        Some(i)
    } else {
        bang_from(s, i + 1)
    }
}

/// `tv` resolves `req` itself, or a reference or path request for the same
/// plugin that `req` was an alias of.
pub open spec fn redirected_from(tv: ToolVersion, dirs: Dirs, req: RequestView) -> bool {
    &&& tv.plugin_name@ == request_plugin(req)
    &&& is_resolved_as(tv, dirs, tv.request@, tv.version@)
    &&& (tv.request@ == req || ((tv.request@ is Ref || tv.request@ is Path) && request_plugin(tv.request@)
        == request_plugin(req)))
}

/// The version a prefix resolves to among `candidates`: the greatest match,
/// or the prefix itself when nothing matches.
pub open spec fn prefix_resolution(candidates: Seq<Seq<char>>, p: Seq<char>) -> Seq<char> {
    match latest_matching(candidates, p) {
        Some(v) => v,
        None => p,
    }
}

/// What `W!-S` gives when `W` stands for `base`: `None` when the subtraction
/// is not defined, else the greatest candidate not above `base` minus `S`, if any.
pub open spec fn bang_result(base: Seq<char>, minus: Seq<char>, candidates: Seq<Seq<char>>) -> Option<
    Option<Seq<char>>,
> {
    match version_sub_result(base, minus) {
        Some(t) => Some(latest_not_exceeding(candidates, t)),
        None => None,
    }
}

/// The version a version token resolves to, once aliases are applied and no
/// `ref:`, `path:` or `prefix:` form is left, given the plugin's answers: an
/// existing install of the token itself; for `latest`, the newest installed
/// version (unless the latest remote data is demanded), else the plugin's
/// latest; an installed or an offered version equal to the token; the result
/// of `W!-S` arithmetic; and last the token taken as a prefix.
pub open spec fn version_choice(
    target: Seq<char>,
    has_dir: bool,
    latest_versions: bool,
    latest_installed: Option<Seq<char>>,
    latest: Option<Seq<char>>,
    installed: Seq<Seq<char>>,
    candidates: Seq<Seq<char>>,
    bang: Option<Seq<char>>,
) -> Seq<char> {
    if has_dir {
        target
    } else if target == "latest"@ && !latest_versions && latest_installed is Some {
        latest_installed->Some_0
    } else if target == "latest"@ && latest is Some {
        latest->Some_0
    } else if !latest_versions && installed.contains(target) {
        target
    } else if candidates.contains(target) {
        target
    } else if bang is Some {
        bang->Some_0
    } else {
        prefix_resolution(candidates, target)
    }
}

/// The latest version: what the backend calls latest stable, else the greatest
/// stable-looking version it offers.
pub open spec fn latest_choice(stable: Option<Seq<char>>, remote: Seq<Seq<char>>) -> Option<Seq<char>> {
    match stable {
        Some(s) => Some(s),
        None => latest_stable_of(remote),
    }
}

/// Relies on std's `DefaultHasher` (created by `new`, so not seeded per
/// process) to name a path by a hexadecimal hash of its text.
#[verifier::external_body]
pub(crate) fn hash_to_str(s: &str) -> (r: String)
    ensures
        r@ == path_hash_of(s@),
{
    let mut h = std::collections::hash_map::DefaultHasher::new();
    std::hash::Hash::hash(s, &mut h);
    format!("{:x}", std::hash::Hasher::finish(&h))
}

/// `a/b`.
pub fn join_path(a: &str, b: &str) -> (r: String)
    ensures
        r@ == join(a@, b@),
{
    let mut r = String::from_str(a);
    r.append("/");
    r.append(b);
    r
}

fn concat_str(a: &str, b: &str) -> (r: String)
    ensures
        r@ == a@ + b@,
{
    let mut r = String::from_str(a);
    r.append(b);
    r
}

/// A copy of a list of pairs of strings.
pub fn clone_pairs(v: &Vec<(String, String)>) -> (r: Vec<(String, String)>)
    ensures
        pairs_view(r@) == pairs_view(v@),
{
    let mut out: Vec<(String, String)> = Vec::new();
    let mut i: usize = 0;
    while i < v.len()
        invariant
            i <= v.len(),
            pairs_view(out@) == pairs_view(v@).take(i as int),
        decreases v.len() - i,
    {
        let ghost prev = out@;
        let k = v[i].0.clone();
        let x = v[i].1.clone();
        out.push((k, x));
        assert(pairs_view(out@) =~= pairs_view(prev).push((k@, x@)));
        assert(pairs_view(out@) =~= pairs_view(v@).take(i + 1));
        i = i + 1;
    }
    assert(pairs_view(v@).take(v.len() as int) =~= pairs_view(v@));
    out
}

/// The target of alias `v`, or `v` when it is no alias.
pub fn lookup_alias(aliases: &Vec<(String, String)>, v: &str) -> (r: String)
    ensures
        r@ == alias_target(pairs_view(aliases@), v@),
{
    let ghost all = pairs_view(aliases@);
    let mut i: usize = aliases.len();
    assert(all.take(i as int) =~= all);
    while i > 0
        invariant
            i <= aliases.len(),
            all == pairs_view(aliases@),
            alias_target(all.take(i as int), v@) == alias_target(all, v@),
        decreases i,
    {
        let ghost pre = all.take(i as int);
        assert(pre.last() == all[i - 1]);
        assert(pre.drop_last() =~= all.take(i - 1));
        if same_text(aliases[i - 1].0.as_str(), v) {
            return aliases[i - 1].1.clone();
        }
        i = i - 1;
    }
    String::from_str(v)
}

/// Splits `W!-S` at its first `!-` into `W` and `S`.
pub fn split_bang(v: &str) -> (r: Option<(String, String)>)
    ensures
        match bang_from(v@, 0) {
            Some(i) => r matches Some(p) && p.0@ == v@.take(i) && p.1@ == v@.skip(i + 2),
            None => r is None,
        },
{
    let n = v.unicode_len();
    let mut i: usize = 0;
    while i < n
        invariant
            n == v@.len(),
            i <= n,
            bang_from(v@, 0) == bang_from(v@, i as int),
        decreases n - i,
    {
        if i + 1 < n && v.get_char(i) == '!' && v.get_char(i + 1) == '-' {
            let w = String::from_str(v.substring_char(0, i));
            let s = String::from_str(v.substring_char(i + 2, n));
            return Some((w, s));
        }
        i = i + 1;
    }
    None
}

/// The version a prefix resolves to among `candidates`.
pub fn resolve_prefix_in(prefix: &str, candidates: &Vec<String>) -> (r: String)
    ensures
        r@ == prefix_resolution(views(candidates@), prefix@),
        r@ == prefix@ || matches_prefix(r@, prefix@),
{
    let found = find_latest_matching(candidates, prefix);
    proof {
        let vs = views(candidates@);
        let ok = prefix_flags(vs, prefix@);
        if exists|j: int| is_last_greatest(vs, ok, j) {
            let j = choose|j: int| is_last_greatest(vs, ok, j);
            assert(ok[j]);
        }
    }
    match found {
        Some(v) => v,
        None => String::from_str(prefix),
    }
}

/// The latest version given the backend's latest-stable answer and its
/// version list.
pub fn latest_from(stable: Option<String>, remote: &Vec<String>) -> (r: Option<String>)
    ensures
        opt_view(r) == latest_choice(opt_view(stable), views(remote@)),
{
    match stable {
        Some(s) => Some(s),
        None => find_latest_stable(remote),
    }
}

proof fn lemma_latest_stable_is_stable(vs: Seq<Seq<char>>)
    ensures
        latest_stable_of(vs) matches Some(v) ==> is_stable(v),
{
    let ok = stable_flags(vs);
    if exists|j: int| is_last_greatest(vs, ok, j) {
        let j = choose|j: int| is_last_greatest(vs, ok, j);
        assert(ok[j]);
    }
}

proof fn lemma_latest_not_exceeding(vs: Seq<Seq<char>>, t: Seq<char>)
    ensures
        latest_not_exceeding(vs, t) matches Some(v) ==> not_exceeding(v, t),
{
    let ok = not_exceeding_flags(vs, t);
    if exists|j: int| is_last_greatest(vs, ok, j) {
        let j = choose|j: int| is_last_greatest(vs, ok, j);
        assert(ok[j]);
    }
}

/// The versions prefix matching works on: the backend's list, or, when the
/// backend cannot list, the installed ones if those can be listed.
pub fn candidates_from(
    remote: Result<Vec<String>, PluginError>,
    installed: Option<Result<Vec<String>, PluginError>>,
) -> (r: Result<Vec<String>, ResolveError>)
    ensures
        match remote {
            Ok(v) => r == Ok::<Vec<String>, ResolveError>(v),
            Err(e) => match installed {
                Some(Ok(v)) => r == Ok::<Vec<String>, ResolveError>(v),
                _ => r == Err::<Vec<String>, ResolveError>(ResolveError::Plugin(e)),
            },
        },
{
    match remote {
        Ok(v) => Ok(v),
        Err(e) => match installed {
            Some(Ok(v)) => Ok(v),
            _ => Err(ResolveError::Plugin(e)),
        },
    }
}

fn versions_for_matching<P: Plugin>(plugin: &P, settings: &Settings) -> (r: Result<
    Vec<String>,
    ResolveError,
>) {
    let remote = plugin.list_remote_versions(settings);
    let installed = if remote.is_err() {
        Some(plugin.list_installed_versions())
    } else {
        None
    };
    candidates_from(remote, installed)
}

/// What `W!-S` gives when `W` stands for `base`, among `candidates`: `None`
/// when `base` minus `minus` is not defined, else the greatest candidate that
/// does not exceed it, if any.
pub fn bang_choice(base: &str, minus: &str, candidates: &Vec<String>) -> (r: Option<Option<String>>)
    ensures
        match r {
            Some(o) => bang_result(base@, minus@, views(candidates@)) == Some(opt_view(o)),
            None => bang_result(base@, minus@, views(candidates@)) is None,
        },
{
    match version_sub(base, minus) {
        Some(t) => Some(find_latest_not_exceeding(candidates, t.as_str())),
        None => None,
    }
}

/// The version a version token resolves to given the plugin's answers; see
/// `version_choice`.
pub fn choose_version(
    target: &str,
    has_dir: bool,
    latest_versions: bool,
    latest_installed: &Option<String>,
    latest: &Option<String>,
    installed: &Vec<String>,
    candidates: &Vec<String>,
    bang: &Option<String>,
) -> (r: String)
    ensures
        r@ == version_choice(
            target@,
            has_dir,
            latest_versions,
            opt_view(*latest_installed),
            opt_view(*latest),
            views(installed@),
            views(candidates@),
            opt_view(*bang),
        ),
{
    let is_latest = same_text(target, "latest");
    if has_dir {
        return String::from_str(target);
    }
    if is_latest && !latest_versions {
        match latest_installed {
            Some(v) => {
                return v.clone();
            },
            None => {},
        }
    }
    if is_latest {
        match latest {
            Some(v) => {
                return v.clone();
            },
            None => {},
        }
    }
    if !latest_versions && list_contains(installed, target) {
        return String::from_str(target);
    }
    if list_contains(candidates, target) {
        return String::from_str(target);
    }
    match bang {
        Some(v) => v.clone(),
        None => resolve_prefix_in(target, candidates),
    }
}

/// The latest version the plugin offers; with a query, the greatest version
/// that does not exceed it at the query's precision.
pub fn latest_version<P: Plugin>(plugin: &P, settings: &Settings, query: Option<String>) -> (r:
    Result<Option<String>, ResolveError>)
    ensures
        query matches Some(t) ==> (r matches Ok(Some(v)) ==> not_exceeding(v@, t@)),
{
    match query {
        Some(t) => {
            let all = match versions_for_matching(plugin, settings) {
                Ok(v) => v,
                Err(e) => {
                    return Err(e);
                },
            };
            let found = find_latest_not_exceeding(&all, t.as_str());
            proof {
                lemma_latest_not_exceeding(views(all@), t@);
            }
            Ok(found)
        },
        None => {
            let stable = match plugin.latest_stable_version(settings) {
                Ok(s) => s,
                Err(e) => {
                    return Err(ResolveError::Plugin(e));
                },
            };
            if stable.is_some() {
                return Ok(stable);
            }
            let all = match versions_for_matching(plugin, settings) {
                Ok(v) => v,
                Err(e) => {
                    return Err(e);
                },
            };
            Ok(latest_from(stable, &all))
        },
    }
}

/// The greatest stable-looking installed version.
pub fn latest_installed_version<P: Plugin>(plugin: &P) -> (r: Result<Option<String>, ResolveError>)
    ensures
        r matches Ok(Some(v)) ==> is_stable(v@),
{
    match plugin.list_installed_versions() {
        Ok(all) => {
            proof {
                lemma_latest_stable_is_stable(views(all@));
            }
            Ok(find_latest_stable(&all))
        },
        Err(e) => Err(ResolveError::Plugin(e)),
    }
}

impl ToolVersion {
    /// The tool version `version` of `request`, stored under the request's
    /// pathname `pathname`.
    pub fn with_pathname(
        dirs: &Dirs,
        request: ToolVersionRequest,
        opts: Vec<(String, String)>,
        version: String,
        pathname: &str,
    ) -> (r: ToolVersion)
        ensures
            is_tool_version(r, *dirs, request@, version@, pathname@),
            r.opts == opts,
    {
        let plugin_name = request.plugin_name().clone();
        let install_base = join_path(dirs.installs.as_str(), plugin_name.as_str());
        let cache_base = join_path(dirs.cache.as_str(), plugin_name.as_str());
        let download_base = join_path(dirs.downloads.as_str(), plugin_name.as_str());
        ToolVersion {
            install_path: join_path(install_base.as_str(), pathname),
            cache_path: join_path(cache_base.as_str(), pathname),
            download_path: join_path(download_base.as_str(), pathname),
            plugin_name,
            version,
            request,
            opts,
        }
    }

    /// The tool version `version` of `request`. Its directories are
    /// `<root>/<plugin>/<pathname>` for the install, cache and download roots,
    /// the pathname being the version token, `prefix-<p>`, `ref-<r>`,
    /// `path-<hash of the path>` or `system`.
    pub fn new(dirs: &Dirs, request: ToolVersionRequest, opts: Vec<(String, String)>, version: String) -> (r:
        ToolVersion)
        ensures
            is_resolved_as(r, *dirs, request@, version@),
            r.opts == opts,
    {
        let pathname = match &request {
            ToolVersionRequest::Version(_, v) => v.clone(),
            ToolVersionRequest::Prefix(_, p) => concat_str("prefix-", p.as_str()),
            ToolVersionRequest::Ref(_, r) => concat_str("ref-", r.as_str()),
            ToolVersionRequest::Path(_, p) => {
                let h = hash_to_str(p.as_str());
                concat_str("path-", h.as_str())
            },
            ToolVersionRequest::System(_) => String::from_str("system"),
        };
        ToolVersion::with_pathname(dirs, request, opts, version, pathname.as_str())
    }

    /// A request for source-control reference `r`.
    fn resolve_ref(dirs: &Dirs, plugin_name: String, r: String, opts: Vec<(String, String)>) -> (res:
        ToolVersion)
        ensures
            is_resolved_as(
                res,
                *dirs,
                RequestView::Ref(plugin_name@, r@),
                request_version(RequestView::Ref(plugin_name@, r@)),
            ),
            res.opts == opts,
    {
        let request = ToolVersionRequest::Ref(plugin_name, r);
        let version = request.version();
        ToolVersion::new(dirs, request, opts, version)
    }

    /// The request for the local installation at the canonical path the
    /// plugin reported, or the failure it reported (a path that does not exist).
    pub fn from_canonical_path(
        dirs: &Dirs,
        plugin_name: String,
        canonical: Result<String, PluginError>,
        opts: Vec<(String, String)>,
    ) -> (res: Result<ToolVersion, ResolveError>)
        ensures
            match canonical {
                Ok(c) => res matches Ok(tv) && is_resolved_as(
                    tv,
                    *dirs,
                    RequestView::Path(plugin_name@, c@),
                    request_version(RequestView::Path(plugin_name@, c@)),
                ) && tv.opts == opts,
                Err(e) => res == Err::<ToolVersion, ResolveError>(ResolveError::Plugin(e)),
            },
    {
        match canonical {
            Ok(c) => {
                let request = ToolVersionRequest::Path(plugin_name, c);
                let version = request.version();
                Ok(ToolVersion::new(dirs, request, opts, version))
            },
            Err(e) => Err(ResolveError::Plugin(e)),
        }
    }

    /// A request for the local installation at `path`, once canonicalized.
    fn resolve_path<P: Plugin>(
        dirs: &Dirs,
        plugin: &P,
        plugin_name: String,
        path: String,
        opts: Vec<(String, String)>,
    ) -> (res: Result<ToolVersion, ResolveError>)
        ensures
            res matches Ok(tv) ==> {
                &&& tv.request@ is Path
                &&& request_plugin(tv.request@) == plugin_name@
                &&& is_resolved_as(tv, *dirs, tv.request@, request_version(tv.request@))
                &&& tv.opts == opts
            },
    {
        let canonical = plugin.canonicalize(path.as_str());
        ToolVersion::from_canonical_path(dirs, plugin_name, canonical, opts)
    }

    /// The greatest version with prefix `prefix`, or the prefix itself when
    /// none matches, so that a version not yet published can be named.
    fn resolve_prefix<P: Plugin>(
        dirs: &Dirs,
        plugin: &P,
        settings: &Settings,
        request: ToolVersionRequest,
        prefix: &str,
        opts: Vec<(String, String)>,
    ) -> (res: Result<ToolVersion, ResolveError>)
        ensures
            res matches Ok(tv) ==> {
                &&& is_resolved_as(tv, *dirs, request@, tv.version@)
                &&& (tv.version@ == prefix@ || matches_prefix(tv.version@, prefix@))
                &&& tv.opts == opts
            },
    {
        let candidates = match versions_for_matching(plugin, settings) {
            Ok(c) => c,
            Err(e) => {
                return Err(e);
            },
        };
        let v = resolve_prefix_in(prefix, &candidates);
        Ok(ToolVersion::new(dirs, request, opts, v))
    }

    /// Resolves a version token. Its alias target, if it is an alias, is
    /// redirected when it has a `ref:`, `path:` or `prefix:` form; otherwise
    /// the plugin is asked, in this order and only as far as needed, whether an
    /// install of the target exists, for the latest versions when the target is
    /// `latest`, for its installed versions, for the versions it offers, and for
    /// its latest version when a `latest!-S` target needs it. The answers decide
    /// the version through `choose_version`.
    fn resolve_version<P: Plugin>(
        dirs: &Dirs,
        plugin: &P,
        settings: &Settings,
        request: ToolVersionRequest,
        latest_versions: bool,
        v: &str,
        opts: Vec<(String, String)>,
    ) -> (res: Result<ToolVersion, ResolveError>)
        ensures
            res matches Ok(tv) ==> redirected_from(tv, *dirs, request@),
            res matches Ok(tv) ==> tv.opts == opts,
    {
        let aliases = match plugin.get_aliases(settings) {
            Ok(a) => a,
            Err(e) => {
                return Err(ResolveError::Plugin(e));
            },
        };
        let target = lookup_alias(&aliases, v);
        let plugin_name = request.plugin_name().clone();
        match find_colon(target.as_str()) {
            Some(i) => {
                proof {
                    crate::request::lemma_colon_from(target@, 0);
                }
                let n = target.unicode_len();
                let kind = target.substring_char(0, i);
                let rest = String::from_str(target.substring_char(i + 1, n));
                if same_text(kind, "ref") {
                    return Ok(ToolVersion::resolve_ref(dirs, plugin_name, rest, opts));
                }
                if same_text(kind, "path") {
                    return ToolVersion::resolve_path(dirs, plugin, plugin_name, rest, opts);
                }
                if same_text(kind, "prefix") {
                    return ToolVersion::resolve_prefix(
                        dirs,
                        plugin,
                        settings,
                        request,
                        rest.as_str(),
                        opts,
                    );
                }
            },
            None => {},
        }
        let t = target.as_str();
        let has_dir = plugin.has_install_dir(t);
        let mut decided = has_dir;
        let mut latest_installed: Option<String> = None;
        let mut latest: Option<String> = None;
        if !decided && same_text(t, "latest") {
            if !latest_versions {
                latest_installed = match latest_installed_version(plugin) {
                    Ok(x) => x,
                    Err(e) => {
                        return Err(e);
                    },
                };
            }
            if latest_versions || latest_installed.is_none() {
                latest = match latest_version(plugin, settings, None) {
                    Ok(x) => x,
                    Err(e) => {
                        return Err(e);
                    },
                };
            }
            decided = (!latest_versions && latest_installed.is_some()) || latest.is_some();
        }
        let mut installed: Vec<String> = Vec::new();
        if !decided && !latest_versions {
            installed = match plugin.list_installed_versions() {
                Ok(x) => x,
                Err(e) => {
                    return Err(ResolveError::Plugin(e));
                },
            };
            decided = list_contains(&installed, t);
        }
        let mut candidates: Vec<String> = Vec::new();
        if !decided {
            candidates = match versions_for_matching(plugin, settings) {
                Ok(x) => x,
                Err(e) => {
                    return Err(e);
                },
            };
            decided = list_contains(&candidates, t);
        }
        let mut bang: Option<String> = None;
        if !decided {
            match split_bang(t) {
                Some((wanted, minus)) => {
                    let base = if same_text(wanted.as_str(), "latest") {
                        match latest_version(plugin, settings, None) {
                            Ok(Some(x)) => x,
                            Ok(None) => {
                                return Err(ResolveError::NoLatestVersion(plugin_name));
                            },
                            Err(e) => {
                                return Err(e);
                            },
                        }
                    } else {
                        lookup_alias(&aliases, wanted.as_str())
                    };
                    bang = match bang_choice(base.as_str(), minus.as_str(), &candidates) {
                        Some(b) => b,
                        None => {
                            return Err(ResolveError::InvalidVersion(String::from_str(t)));
                        },
                    };
                },
                None => {},
            }
        }
        let chosen = choose_version(
            t,
            has_dir,
            latest_versions,
            &latest_installed,
            &latest,
            &installed,
            &candidates,
            &bang,
        );
        Ok(ToolVersion::new(dirs, request, opts, chosen))
    }

    /// Resolves `request` against `plugin`. Reference, path and system
    /// requests resolve directly, without asking the backend about versions
    /// (a path is made canonical first, and must exist); a system request
    /// always yields version `system`. With
    /// `latest_versions`, installed versions are not preferred.
    pub fn resolve<P: Plugin>(
        dirs: &Dirs,
        plugin: &P,
        settings: &Settings,
        request: ToolVersionRequest,
        opts: Vec<(String, String)>,
        latest_versions: bool,
    ) -> (res: Result<ToolVersion, ResolveError>)
        ensures
            match request@ {
                RequestView::Version(_, _) => res matches Ok(tv) ==> redirected_from(tv, *dirs, request@),
                RequestView::Prefix(_, pre) => res matches Ok(tv) ==> {
                    &&& is_resolved_as(tv, *dirs, request@, tv.version@)
                    &&& (tv.version@ == pre || matches_prefix(tv.version@, pre))
                    &&& tv.opts == opts
                },
                RequestView::Path(p, _) => res matches Ok(tv) ==> {
                    &&& tv.request@ is Path
                    &&& request_plugin(tv.request@) == p
                    &&& is_resolved_as(tv, *dirs, tv.request@, request_version(tv.request@))
                },
                _ => res matches Ok(tv) && is_resolved_as(tv, *dirs, request@, request_version(request@))
                    && tv.opts == opts,
            },
            request@ is System ==> (res matches Ok(tv) && tv.version@ == "system"@),
            res matches Ok(tv) ==> redirected_from(tv, *dirs, request@) && tv.opts == opts,
    {
        match &request {
            ToolVersionRequest::Version(_, v) => {
                let v = v.clone();
                ToolVersion::resolve_version(
                    dirs,
                    plugin,
                    settings,
                    request,
                    latest_versions,
                    v.as_str(),
                    opts,
                )
            },
            ToolVersionRequest::Prefix(_, p) => {
                let p = p.clone();
                ToolVersion::resolve_prefix(dirs, plugin, settings, request, p.as_str(), opts)
            },
            ToolVersionRequest::Path(name, p) => {
                let name = name.clone();
                let p = p.clone();
                ToolVersion::resolve_path(dirs, plugin, name, p, opts)
            },
            _ => {
                let version = request.version();
                Ok(ToolVersion::new(dirs, request, opts, version))
            },
        }
    }
}

impl ToolVersionRequest {
    /// Resolves this request against `plugin`; see `ToolVersion::resolve`.
    pub fn resolve<P: Plugin>(
        &self,
        dirs: &Dirs,
        plugin: &P,
        settings: &Settings,
        opts: Vec<(String, String)>,
        latest_versions: bool,
    ) -> (res: Result<ToolVersion, ResolveError>)
        ensures
            match self@ {
                RequestView::Version(_, _) => res matches Ok(tv) ==> redirected_from(tv, *dirs, self@),
                RequestView::Prefix(_, pre) => res matches Ok(tv) ==> {
                    &&& is_resolved_as(tv, *dirs, self@, tv.version@)
                    &&& (tv.version@ == pre || matches_prefix(tv.version@, pre))
                    &&& tv.opts == opts
                },
                RequestView::Path(p, _) => res matches Ok(tv) ==> {
                    &&& tv.request@ is Path
                    &&& request_plugin(tv.request@) == p
                    &&& is_resolved_as(tv, *dirs, tv.request@, request_version(tv.request@))
                },
                _ => res matches Ok(tv) && is_resolved_as(tv, *dirs, self@, request_version(self@))
                    && tv.opts == opts,
            },
            self@ is System ==> (res matches Ok(tv) && tv.version@ == "system"@),
            res matches Ok(tv) ==> redirected_from(tv, *dirs, self@) && tv.opts == opts,
    {
        ToolVersion::resolve(dirs, plugin, settings, self.duplicate(), opts, latest_versions)
    }
}

} // verus!
