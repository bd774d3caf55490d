//! The requests for one plugin from one configuration source, and their
//! resolution.
use crate::plugin::Plugin;
use crate::request::ToolVersionRequest;
use crate::settings::Settings;
use crate::tool_version::{clone_pairs, pairs_view, redirected_from, Dirs, ResolveError, ToolVersion};
use vstd::prelude::*;

verus! {

/// Where a requirement came from.
#[derive(Debug, Clone, PartialEq, Eq)]
pub enum ToolSource {
    Argument,
    ToolVersionsFile(String),
    ConfigFile(String),
    LegacyVersionFile(String),
    Environment(String, String),
}

/// Several requested versions of a tool for one plugin, from one source.
#[derive(Debug, Clone)]
pub struct ToolVersionList {
    pub plugin_name: String,
    /// The resolved versions, in the order of their requests.
    pub versions: Vec<ToolVersion>,
    pub requests: Vec<(ToolVersionRequest, Vec<(String, String)>)>,
    pub source: ToolSource,
}

/// The successful results, in order.
pub open spec fn successes(results: Seq<Result<ToolVersion, ResolveError>>) -> Seq<ToolVersion>
    decreases results.len(),
{
    if results.len() == 0 {
        Seq::empty()
    } else {
        match results.last() {
            Ok(tv) => successes(results.drop_last()).push(tv),
            Err(_) => successes(results.drop_last()),
        }
    }
}

/// Result `k` of `rs` is a resolution of request `k` of `reqs`: when it
/// succeeds it resolves that request (or the reference or path it is an
/// alias of) with that request's options, and a system or reference request,
/// which asks the plugin nothing, always succeeds.
pub open spec fn resolves_at(
    rs: Seq<Result<ToolVersion, ResolveError>>,
    reqs: Seq<(ToolVersionRequest, Vec<(String, String)>)>,
    dirs: Dirs,
    k: int,
) -> bool {
    &&& (rs[k] matches Ok(tv) ==> redirected_from(tv, dirs, reqs[k].0@) && pairs_view(tv.opts@)
        == pairs_view(reqs[k].1@))
    &&& (reqs[k].0@ is System || reqs[k].0@ is Ref ==> rs[k] is Ok)
}

/// `rs` holds one resolution per request of `reqs`, in order.
pub open spec fn resolves_each(
    rs: Seq<Result<ToolVersion, ResolveError>>,
    reqs: Seq<(ToolVersionRequest, Vec<(String, String)>)>,
    dirs: Dirs,
) -> bool {
    &&& rs.len() == reqs.len()
    &&& forall|k: int| 0 <= k < rs.len() ==> #[trigger] resolves_at(rs, reqs, dirs, k)
}

impl ToolVersionList {
    /// An empty list for `plugin_name` from `source`.
    pub fn new(plugin_name: String, source: ToolSource) -> (r: ToolVersionList)
        ensures
            r.plugin_name == plugin_name,
            r.source == source,
            r.versions@.len() == 0,
            r.requests@.len() == 0,
    {
        ToolVersionList { plugin_name, versions: Vec::new(), requests: Vec::new(), source }
    }

    /// Appends the successful results, in order, and drops the failures.
    pub fn collect_resolved(&mut self, results: Vec<Result<ToolVersion, ResolveError>>)
        ensures
            final(self).versions@ == old(self).versions@ + successes(results@),
            final(self).requests == old(self).requests,
            final(self).plugin_name == old(self).plugin_name,
            final(self).source == old(self).source,
    {
        let mut results = results;
        let ghost all = results@;
        let ghost start = self.versions@;
        let n = results.len();
        let mut i: usize = 0;
        assert(all.skip(0) =~= all);
        assert(all.take(0) =~= Seq::<Result<ToolVersion, ResolveError>>::empty());
        while i < n
            invariant
                n == all.len(),
                i <= n,
                results@ == all.skip(i as int),
                self.versions@ == start + successes(all.take(i as int)),
                self.requests == old(self).requests,
                self.plugin_name == old(self).plugin_name,
                self.source == old(self).source,
            decreases n - i,
        {
            let r = results.remove(0);
            assert(r == all[i as int]);
            assert(results@ =~= all.skip(i + 1));
            assert(all.take(i + 1).drop_last() =~= all.take(i as int));
            match r {
                Ok(tv) => {
                    self.versions.push(tv);
                },
                Err(_) => {},
            }
            i = i + 1;
        }
        assert(all.take(n as int) =~= all);
    }

    /// Resolves each request against `plugin` when `installed` says the
    /// plugin is installed, keeping those that resolve; a failing request does
    /// not stop the others. A plugin that is not installed changes nothing and
    /// is no error.
    pub fn resolve_if_installed<P: Plugin>(
        &mut self,
        dirs: &Dirs,
        plugin: &P,
        installed: bool,
        settings: &Settings,
        latest_versions: bool,
    )
        ensures
            !installed ==> *final(self) == *old(self),
            installed ==> exists|rs: Seq<Result<ToolVersion, ResolveError>>|
                resolves_each(rs, old(self).requests@, *dirs) && final(self).versions@ == old(
                    self,
                ).versions@ + successes(rs),
            final(self).versions@.len() >= old(self).versions@.len(),
            final(self).versions@.len() <= old(self).versions@.len() + old(self).requests@.len(),
            final(self).versions@.take(old(self).versions@.len() as int) == old(self).versions@,
            final(self).requests == old(self).requests,
            final(self).plugin_name == old(self).plugin_name,
            final(self).source == old(self).source,
    {
        if !installed {
            assert(self.versions@.take(self.versions@.len() as int) =~= self.versions@);
            return;
        }
        let mut results: Vec<Result<ToolVersion, ResolveError>> = Vec::new();
        let mut i: usize = 0;
        while i < self.requests.len()
            invariant
                i <= self.requests.len(),
                results@.len() == i,
                forall|k: int| 0 <= k < i ==> #[trigger] resolves_at(results@, self.requests@, *dirs, k),
            decreases self.requests.len() - i,
        {
            let opts = clone_pairs(&self.requests[i].1);
            let r = self.requests[i].0.resolve(dirs, plugin, settings, opts, latest_versions);
            let ghost prev = results@;
            results.push(r);
            assert forall|k: int| 0 <= k < i + 1 implies #[trigger] resolves_at(results@, self.requests@, *dirs, k) by {
                if k < i {
                    assert(resolves_at(prev, self.requests@, *dirs, k));
                    assert(results@[k] == prev[k]);
                }
            }
            i = i + 1;
        }
        let ghost rs = results@;
        assert(resolves_each(rs, self.requests@, *dirs));
        proof {
            lemma_successes_len(results@);
        }
        let ghost before = self.versions@;
        self.collect_resolved(results);
        assert(self.versions@.take(before.len() as int) =~= before);
        assert(self.versions@ == before + successes(rs));
    }

    /// Resolves the requests against `plugin`, the plugin registered under
    /// this list's name if any. Nothing happens when there is none or it is
    /// not installed: that source is then ignored, not an error.
    pub fn resolve<P: Plugin>(
        &mut self,
        dirs: &Dirs,
        plugin: Option<&P>,
        settings: &Settings,
        latest_versions: bool,
    )
        ensures
            plugin is None ==> *final(self) == *old(self),
            plugin is Some ==> (*final(self) == *old(self) || exists|
                rs: Seq<Result<ToolVersion, ResolveError>>,
            |
                resolves_each(rs, old(self).requests@, *dirs) && final(self).versions@ == old(
                    self,
                ).versions@ + successes(rs)),
            final(self).versions@.len() >= old(self).versions@.len(),
            final(self).versions@.len() <= old(self).versions@.len() + old(self).requests@.len(),
            final(self).versions@.take(old(self).versions@.len() as int) == old(self).versions@,
            final(self).requests == old(self).requests,
    {
        match plugin {
            Some(p) => {
                let installed = p.is_installed();
                self.resolve_if_installed(dirs, p, installed, settings, latest_versions);
            },
            None => {
                assert(self.versions@.take(self.versions@.len() as int) =~= self.versions@);
            },
        }
    }
}

proof fn lemma_successes_len(results: Seq<Result<ToolVersion, ResolveError>>)
    ensures
        successes(results).len() <= results.len(),
    decreases results.len(),
{
    if results.len() > 0 {
        lemma_successes_len(results.drop_last());
    }
}

} // verus!
