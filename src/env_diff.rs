//! Environment diffs: what sourcing a script changed in the environment.
//!
//! Running the script is up to the caller; it hands in the environment dumps
//! taken before and after, each a list of `KEY=VALUE` entries separated by NUL.
use crate::external_plugin::EnvDiffOperation;
use crate::script_manager::key_index;
use crate::text::{find_char, index_of_from, split_at_char, split_scan};
use crate::tool_version::pairs_view;
use crate::version_order::views;
use crate::version_select::same_text;
use vstd::prelude::*;
use vstd::string::*;

verus! {

/// The value of the first entry named `k`.
pub open spec fn env_lookup(env: Seq<(Seq<char>, Seq<char>)>, k: Seq<char>) -> Option<Seq<char>> {
    match key_index(env, k, 0) {
        Some(i) => Some(env[i].1),
        None => None,
    }
}

pub enum OpView {
    Add(Seq<char>, Seq<char>),
    Change(Seq<char>, Seq<char>),
    Remove(Seq<char>),
}

pub open spec fn op_view(op: EnvDiffOperation) -> OpView {
    match op {
        EnvDiffOperation::Add(k, v) => OpView::Add(k@, v@),
        EnvDiffOperation::Change(k, v) => OpView::Change(k@, v@),
        EnvDiffOperation::Remove(k) => OpView::Remove(k@),
    }
}

pub open spec fn ops_view(ops: Seq<EnvDiffOperation>) -> Seq<OpView> {
    ops.map_values(|op: EnvDiffOperation| op_view(op))
}

/// For each entry after, in order: an addition when the name was unset
/// before, a change when its value differs.
pub open spec fn set_ops(before: Seq<(Seq<char>, Seq<char>)>, after: Seq<(Seq<char>, Seq<char>)>) -> Seq<OpView>
    decreases after.len(),
{
    if after.len() == 0 {
        Seq::empty()
    } else {
        let (k, v) = after.last();
        let rest = set_ops(before, after.drop_last());
        match env_lookup(before, k) {
            None => rest.push(OpView::Add(k, v)),
            Some(w) => if w != v {
                rest.push(OpView::Change(k, v))
            } else {
                rest
            },
        }
    }
}

/// For each entry before, in order, whose name is unset after: a removal.
pub open spec fn unset_ops(before: Seq<(Seq<char>, Seq<char>)>, after: Seq<(Seq<char>, Seq<char>)>) -> Seq<OpView>
    decreases before.len(),
{
    if before.len() == 0 {
        Seq::empty()
    } else {
        let rest = unset_ops(before.drop_last(), after);
        if env_lookup(after, before.last().0) is None {
            rest.push(OpView::Remove(before.last().0))
        } else {
            rest
        }
    }
}

/// The entries of an environment dump: each NUL-separated piece holding a
/// `=`, cut at its first `=`; other pieces are ignored.
pub open spec fn dump_entries(pieces: Seq<Seq<char>>) -> Seq<(Seq<char>, Seq<char>)>
    decreases pieces.len(),
{
    if pieces.len() == 0 {
        Seq::empty()
    } else {
        let p = pieces.last();
        let rest = dump_entries(pieces.drop_last());
        match index_of_from(p, '=', 0) {
            Some(i) => rest.push((p.take(i), p.skip(i + 1))),
            None => rest,
        }
    }
}

/// The position of the first entry named `k`.
pub fn find_key(env: &Vec<(String, String)>, k: &str) -> (r: Option<usize>)
    ensures
        match r {
            Some(i) => key_index(pairs_view(env@), k@, 0) == Some(i as int) && i < env@.len(),
            None => key_index(pairs_view(env@), k@, 0) is None,
        },
{
    let ghost ev = pairs_view(env@);
    let mut i: usize = 0;
    while i < env.len()
        invariant
            ev == pairs_view(env@),
            i <= env.len(),
            key_index(ev, k@, 0) == key_index(ev, k@, i as int),
        decreases env.len() - i,
    {
        assert(ev[i as int].0 == env@[i as int].0@);
        if same_text(env[i].0.as_str(), k) {
            return Some(i);
        }
        i = i + 1;
    }
    None
}

/// The entries of a NUL-separated environment dump.
pub fn parse_env_dump(dump: &str) -> (r: Vec<(String, String)>)
    ensures
        pairs_view(r@) == dump_entries(split_scan(dump@, '\0', 0, 0)),
{
    let pieces = split_at_char(dump, '\0');
    let ghost pv = views(pieces@);
    let mut out: Vec<(String, String)> = Vec::new();
    let mut i: usize = 0;
    while i < pieces.len()
        invariant
            i <= pieces.len(),
            pv == views(pieces@),
            pv == split_scan(dump@, '\0', 0, 0),
            pairs_view(out@) == dump_entries(pv.take(i as int)),
        decreases pieces.len() - i,
    {
        let p = pieces[i].as_str();
        let ghost pre = pv.take(i + 1);
        assert(pre.drop_last() =~= pv.take(i as int));
        assert(pre.last() == p@);
        match find_char(p, '=') {
            Some(j) => {
                let n = p.unicode_len();
                let k = String::from_str(p.substring_char(0, j));
                let v = String::from_str(p.substring_char(j + 1, n));
                let ghost prev = out@;
                out.push((k, v));
                assert(pairs_view(out@) =~= pairs_view(prev).push((k@, v@)));
            },
            None => {},
        }
        i = i + 1;
    }
    assert(pv.take(pieces.len() as int) =~= pv);
    out
}

/// What changed between two environments: additions and changes in the
/// order of `after`, then removals in the order of `before`.
pub fn diff_env(before: &Vec<(String, String)>, after: &Vec<(String, String)>) -> (r: Vec<EnvDiffOperation>)
    ensures
        ops_view(r@) == set_ops(pairs_view(before@), pairs_view(after@)) + unset_ops(
            pairs_view(before@),
            pairs_view(after@),
        ),
{
    let ghost bv = pairs_view(before@);
    let ghost av = pairs_view(after@);
    let mut out: Vec<EnvDiffOperation> = Vec::new();
    let mut i: usize = 0;
    while i < after.len()
        invariant
            i <= after.len(),
            bv == pairs_view(before@),
            av == pairs_view(after@),
            ops_view(out@) == set_ops(bv, av.take(i as int)),
        decreases after.len() - i,
    {
        let ghost pre = av.take(i + 1);
        assert(pre.drop_last() =~= av.take(i as int));
        assert(pre.last() == av[i as int]);
        let k = after[i].0.as_str();
        let v = after[i].1.as_str();
        let ghost prev = out@;
        match find_key(before, k) {
            None => {
                out.push(EnvDiffOperation::Add(String::from_str(k), String::from_str(v)));
                assert(ops_view(out@) =~= ops_view(prev).push(OpView::Add(k@, v@)));
            },
            Some(j) => {
                if !same_text(before[j].1.as_str(), v) {
                    out.push(EnvDiffOperation::Change(String::from_str(k), String::from_str(v)));
                    assert(ops_view(out@) =~= ops_view(prev).push(OpView::Change(k@, v@)));
                }
            },
        }
        i = i + 1;
    }
    assert(av.take(after.len() as int) =~= av);
    let ghost sets = ops_view(out@);
    let mut removals: Vec<EnvDiffOperation> = Vec::new();
    let mut i: usize = 0;
    while i < before.len()
        invariant
            i <= before.len(),
            bv == pairs_view(before@),
            av == pairs_view(after@),
            ops_view(removals@) == unset_ops(bv.take(i as int), av),
        decreases before.len() - i,
    {
        let ghost pre = bv.take(i + 1);
        assert(pre.drop_last() =~= bv.take(i as int));
        assert(pre.last() == bv[i as int]);
        let k = before[i].0.as_str();
        if find_key(after, k).is_none() {
            let ghost prev = removals@;
            removals.push(EnvDiffOperation::Remove(String::from_str(k)));
            assert(ops_view(removals@) =~= ops_view(prev).push(OpView::Remove(k@)));
        }
        i = i + 1;
    }
    assert(bv.take(before.len() as int) =~= bv);
    let ghost rv = ops_view(removals@);
    out.append(&mut removals);
    assert(ops_view(out@) =~= sets + rv);
    out
}

} // verus!
