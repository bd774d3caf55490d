//! Picking versions out of a list: prefix matching, stability, and the
//! greatest eligible candidate in version order.
use crate::version_order::{
    chunks, chunks_cmp, compare_versions, is_chunk_sep, is_numeric, lemma_version_cmp_antisymmetric,
    lemma_version_cmp_transitive, ordering_value, version_cmp, views, lex_compare,
    chunk_value, version_chunks, compare_chunk_lists,
};
use std::cmp::Ordering;
use vstd::prelude::*;
use vstd::string::*;

verus! {

/// `v` is `p` itself, or starts with `p` followed by a chunk separator.
pub open spec fn matches_prefix(v: Seq<char>, p: Seq<char>) -> bool {
    v == p || (p.len() < v.len() && v.take(p.len() as int) == p && is_chunk_sep(v[p.len() as int]))
}

/// A stable-looking version: every chunk is numeric.
pub open spec fn is_stable(v: Seq<char>) -> bool {
    forall|j: int| 0 <= j < chunks(v).len() ==> is_numeric(#[trigger] chunks(v)[j])
}

pub open spec fn truncate_chunks(c: Seq<Seq<char>>, n: int) -> Seq<Seq<char>> {
    if c.len() <= n {
        c
    } else {
        c.take(n)
    }
}

/// `v` does not exceed `t` when compared at the precision of `t`: "16.5.1"
/// does not exceed "16", "17.0" does.
pub open spec fn not_exceeding(v: Seq<char>, t: Seq<char>) -> bool {
    chunks_cmp(truncate_chunks(chunks(v), chunks(t).len() as int), chunks(t)) <= 0
}

/// Index `j` holds the greatest eligible candidate, and the last of them in
/// list order when several compare equal.
pub open spec fn is_last_greatest(vs: Seq<Seq<char>>, ok: Seq<bool>, j: int) -> bool {
    &&& 0 <= j < vs.len()
    &&& ok[j]
    &&& forall|k: int| 0 <= k < vs.len() && ok[k] ==> version_cmp(#[trigger] vs[k], vs[j]) <= 0
    &&& forall|k: int| j < k < vs.len() && ok[k] ==> version_cmp(#[trigger] vs[k], vs[j]) < 0
}

/// The greatest eligible candidate (the last of equal ones), if any is eligible.
pub open spec fn latest_by(vs: Seq<Seq<char>>, ok: Seq<bool>) -> Option<Seq<char>> {
    if exists|j: int| is_last_greatest(vs, ok, j) {
        Some(vs[choose|j: int| is_last_greatest(vs, ok, j)])
    } else {
        None
    }
}

pub open spec fn prefix_flags(vs: Seq<Seq<char>>, p: Seq<char>) -> Seq<bool> {
    Seq::new(vs.len(), |k: int| matches_prefix(vs[k], p))
}

pub open spec fn stable_flags(vs: Seq<Seq<char>>) -> Seq<bool> {
    Seq::new(vs.len(), |k: int| is_stable(vs[k]))
}

pub open spec fn not_exceeding_flags(vs: Seq<Seq<char>>, t: Seq<char>) -> Seq<bool> {
    Seq::new(vs.len(), |k: int| not_exceeding(vs[k], t))
}

/// The greatest version of `vs` that matches prefix `p`.
pub open spec fn latest_matching(vs: Seq<Seq<char>>, p: Seq<char>) -> Option<Seq<char>> {
    latest_by(vs, prefix_flags(vs, p))
}

/// The greatest stable-looking version of `vs`.
pub open spec fn latest_stable_of(vs: Seq<Seq<char>>) -> Option<Seq<char>> {
    latest_by(vs, stable_flags(vs))
}

/// The greatest version of `vs` that does not exceed `t`.
pub open spec fn latest_not_exceeding(vs: Seq<Seq<char>>, t: Seq<char>) -> Option<Seq<char>> {
    latest_by(vs, not_exceeding_flags(vs, t))
}

pub open spec fn opt_view(o: Option<String>) -> Option<Seq<char>> {
    match o {
        Some(s) => Some(s@),
        None => None,
    }
}

proof fn lemma_last_greatest_unique(vs: Seq<Seq<char>>, ok: Seq<bool>, i: int, j: int)
    requires
        is_last_greatest(vs, ok, i),
        is_last_greatest(vs, ok, j),
    ensures
        i == j,
{
    lemma_version_cmp_antisymmetric(vs[i], vs[j]);
    if i < j {
        assert(version_cmp(vs[j], vs[i]) < 0);
        assert(version_cmp(vs[i], vs[j]) <= 0);
    } else if j < i {
        assert(version_cmp(vs[i], vs[j]) < 0);
        assert(version_cmp(vs[j], vs[i]) <= 0);
    }
}

/// Index of the greatest eligible candidate, the last one among equals.
pub fn last_greatest(vs: &Vec<String>, ok: &Vec<bool>) -> (r: Option<usize>)
    requires
        vs.len() == ok.len(),
    ensures
        match r {
            Some(j) => is_last_greatest(views(vs@), ok@, j as int),
            None => forall|k: int| 0 <= k < ok.len() ==> !ok@[k],
        },
        opt_view(
            match r {
                Some(j) => Some(vs@[j as int]),
                None => None,
            },
        ) == latest_by(views(vs@), ok@),
{
    let ghost vv = views(vs@);
    let mut best: Option<usize> = None;
    let mut i: usize = 0;
    while i < vs.len()
        invariant
            vs.len() == ok.len(),
            vv == views(vs@),
            i <= vs.len(),
            match best {
                Some(b) => b < i && is_last_greatest(vv.take(i as int), ok@.take(i as int), b as int),
                None => forall|k: int| 0 <= k < i ==> !ok@[k],
            },
        decreases vs.len() - i,
    {
        if ok[i] {
            match best {
                None => {
                    best = Some(i);
                    proof {
                        lemma_version_cmp_antisymmetric(vv[i as int], vv[i as int]);
                    }
                },
                Some(b) => {
                    let c = compare_versions(vs[i].as_str(), vs[b].as_str());
                    proof {
                        lemma_version_cmp_antisymmetric(vv[i as int], vv[b as int]);
                        lemma_version_cmp_antisymmetric(vv[i as int], vv[i as int]);
                        let pv = vv.take(i as int);
                        let po = ok@.take(i as int);
                        assert forall|k: int| 0 <= k < i && ok@[k] implies version_cmp(
                            #[trigger] vv[k],
                            vv[b as int],
                        ) <= 0 by {
                            assert(pv[k] == vv[k]);
                            assert(po[k] == ok@[k]);
                        }
                        assert forall|k: int| b < k < i && ok@[k] implies version_cmp(
                            #[trigger] vv[k],
                            vv[b as int],
                        ) < 0 by {
                            assert(pv[k] == vv[k]);
                            assert(po[k] == ok@[k]);
                        }
                        if ordering_value(c) >= 0 {
                            assert forall|k: int| 0 <= k < i && ok@[k] implies version_cmp(
                                #[trigger] vv[k],
                                vv[i as int],
                            ) <= 0 by {
                                lemma_version_cmp_transitive(vv[k], vv[b as int], vv[i as int]);
                            }
                        }
                    }
                    match c {
                        Ordering::Less => {},
                        _ => {
                            best = Some(i);
                        },
                    }
                },
            }
        }
        proof {
            let pv = vv.take(i + 1);
            let po = ok@.take(i + 1);
            match best {
                Some(b) => {
                    assert forall|k: int| 0 <= k < pv.len() && po[k] implies version_cmp(
                        #[trigger] pv[k],
                        pv[b as int],
                    ) <= 0 by {
                        if k < i {
                            assert(vv.take(i as int)[k] == vv[k]);
                            assert(ok@.take(i as int)[k] == ok@[k]);
                        }
                        lemma_version_cmp_antisymmetric(vv[k], vv[k]);
                    }
                    assert forall|k: int| b < k < pv.len() && po[k] implies version_cmp(
                        #[trigger] pv[k],
                        pv[b as int],
                    ) < 0 by {
                        if k < i {
                            assert(vv.take(i as int)[k] == vv[k]);
                            assert(ok@.take(i as int)[k] == ok@[k]);
                        }
                    }
                },
                None => {},
            }
        }
        i = i + 1;
    }
    proof {
        assert(vv.take(vs.len() as int) =~= vv);
        assert(ok@.take(vs.len() as int) =~= ok@);
        match best {
            Some(b) => {
                assert(is_last_greatest(vv, ok@, b as int));
                assert(exists|j: int| is_last_greatest(vv, ok@, j));
                let c = choose|j: int| is_last_greatest(vv, ok@, j);
                lemma_last_greatest_unique(vv, ok@, b as int, c);
            },
            None => {
                if exists|j: int| is_last_greatest(vv, ok@, j) {
                    let c = choose|j: int| is_last_greatest(vv, ok@, j);
                    assert(ok@[c]);
                }
            },
        }
    }
    match best {
        Some(b) => Some(b),
        None => None,
    }
}

/// Whether two strings hold the same characters.
pub fn same_text(a: &str, b: &str) -> (r: bool)
    ensures
        r == (a@ == b@),
{
    let c = lex_compare(a, b);
    proof {
        crate::version_order::lemma_lex_equal(a@, b@);
    }
    match c {
        Ordering::Equal => true,
        _ => false,
    }
}

/// Whether `v` is `p` or starts with `p` followed by `.` or `-`.
pub fn version_matches_prefix(v: &str, p: &str) -> (r: bool)
    ensures
        r == matches_prefix(v@, p@),
{
    let nv = v.unicode_len();
    let np = p.unicode_len();
    if nv == np {
        same_text(v, p)
    } else if np < nv {
        let head = v.substring_char(0, np);
        let c = v.get_char(np);
        same_text(head, p) && (c == '.' || c == '-')
    } else {
        false
    }
}

/// Whether every chunk of `v` is numeric.
pub fn version_is_stable(v: &str) -> (r: bool)
    ensures
        r == is_stable(v@),
{
    let cs = version_chunks(v);
    let mut i: usize = 0;
    while i < cs.len()
        invariant
            views(cs@) == chunks(v@),
            i <= cs.len(),
            forall|j: int| 0 <= j < i ==> is_numeric(#[trigger] chunks(v@)[j]),
        decreases cs.len() - i,
    {
        assert(views(cs@)[i as int] == cs@[i as int]@);
        if chunk_value(cs[i].as_str()).is_none() {
            return false;
        }
        i = i + 1;
    }
    true
}

/// Whether `v`, cut to the number of chunks of `t`, is at most `t`.
pub fn version_not_exceeding(v: &str, t: &str) -> (r: bool)
    ensures
        r == not_exceeding(v@, t@),
{
    let mut cv = version_chunks(v);
    let ct = version_chunks(t);
    let ghost full = views(cv@);
    if cv.len() > ct.len() {
        cv.truncate(ct.len());
        assert(views(cv@) =~= full.take(ct.len() as int));
    }
    let c = compare_chunk_lists(&cv, &ct);
    match c {
        Ordering::Greater => false,
        _ => true,
    }
}

/// Whether `vs` holds `v`.
pub fn list_contains(vs: &Vec<String>, v: &str) -> (r: bool)
    ensures
        r == views(vs@).contains(v@),
{
    let mut i: usize = 0;
    while i < vs.len()
        invariant
            i <= vs.len(),
            forall|k: int| 0 <= k < i ==> views(vs@)[k] != v@,
        decreases vs.len() - i,
    {
        if same_text(vs[i].as_str(), v) {
            assert(views(vs@)[i as int] == v@);
            return true;
        }
        i = i + 1;
    }
    false
}

fn pick(vs: &Vec<String>, ok: &Vec<bool>) -> (r: Option<String>)
    requires
        vs.len() == ok.len(),
    ensures
        opt_view(r) == latest_by(views(vs@), ok@),
{
    match last_greatest(vs, ok) {
        Some(j) => Some(vs[j].clone()),
        None => None,
    }
}

/// The greatest version of `vs` that matches prefix `p`.
pub fn find_latest_matching(vs: &Vec<String>, p: &str) -> (r: Option<String>)
    ensures
        opt_view(r) == latest_matching(views(vs@), p@),
{
    let mut ok: Vec<bool> = Vec::new();
    let mut i: usize = 0;
    while i < vs.len()
        invariant
            i <= vs.len(),
            ok@ == prefix_flags(views(vs@), p@).take(i as int),
        decreases vs.len() - i,
    {
        let m = version_matches_prefix(vs[i].as_str(), p);
        ok.push(m);
        assert(ok@ =~= prefix_flags(views(vs@), p@).take(i + 1));
        i = i + 1;
    }
    assert(ok@ =~= prefix_flags(views(vs@), p@));
    pick(vs, &ok)
}

/// The greatest stable-looking version of `vs`.
pub fn find_latest_stable(vs: &Vec<String>) -> (r: Option<String>)
    ensures
        opt_view(r) == latest_stable_of(views(vs@)),
{
    let mut ok: Vec<bool> = Vec::new();
    let mut i: usize = 0;
    while i < vs.len()
        invariant
            i <= vs.len(),
            ok@ == stable_flags(views(vs@)).take(i as int),
        decreases vs.len() - i,
    {
        let m = version_is_stable(vs[i].as_str());
        ok.push(m);
        assert(ok@ =~= stable_flags(views(vs@)).take(i + 1));
        i = i + 1;
    }
    assert(ok@ =~= stable_flags(views(vs@)));
    pick(vs, &ok)
}

/// The greatest version of `vs` that does not exceed `t` at the precision of `t`.
pub fn find_latest_not_exceeding(vs: &Vec<String>, t: &str) -> (r: Option<String>)
    ensures
        opt_view(r) == latest_not_exceeding(views(vs@), t@),
{
    let mut ok: Vec<bool> = Vec::new();
    let mut i: usize = 0;
    while i < vs.len()
        invariant
            i <= vs.len(),
            ok@ == not_exceeding_flags(views(vs@), t@).take(i as int),
        decreases vs.len() - i,
    {
        let m = version_not_exceeding(vs[i].as_str(), t);
        ok.push(m);
        assert(ok@ =~= not_exceeding_flags(views(vs@), t@).take(i + 1));
        i = i + 1;
    }
    assert(ok@ =~= not_exceeding_flags(views(vs@), t@));
    pick(vs, &ok)
}

proof fn lemma_last_greatest_exists(vs: Seq<Seq<char>>, ok: Seq<bool>, k: int)
    requires
        vs.len() == ok.len(),
        0 <= k < ok.len(),
        ok[k],
    ensures
        exists|j: int| is_last_greatest(vs, ok, j),
    decreases vs.len(),
{
    let n = vs.len() as int;
    let pv = vs.take(n - 1);
    let po = ok.take(n - 1);
    let last = n - 1;
    lemma_version_cmp_antisymmetric(vs[last], vs[last]);
    if exists|k2: int| 0 <= k2 < n - 1 && po[k2] {
        let k2 = choose|k2: int| 0 <= k2 < n - 1 && po[k2];
        lemma_last_greatest_exists(pv, po, k2);
        let j = choose|j: int| is_last_greatest(pv, po, j);
        assert(vs[j] == pv[j]);
        if ok[last] {
            lemma_version_cmp_antisymmetric(vs[last], vs[j]);
            if version_cmp(vs[last], vs[j]) >= 0 {
                assert forall|m: int| 0 <= m < vs.len() && ok[m] implies version_cmp(
                    #[trigger] vs[m],
                    vs[last],
                ) <= 0 by {
                    if m < last {
                        assert(pv[m] == vs[m] && po[m] == ok[m]);
                        lemma_version_cmp_transitive(vs[m], vs[j], vs[last]);
                    }
                }
                assert(is_last_greatest(vs, ok, last));
            } else {
                assert forall|m: int| 0 <= m < vs.len() && ok[m] implies version_cmp(
                    #[trigger] vs[m],
                    vs[j],
                ) <= 0 by {
                    if m < last {
                        assert(pv[m] == vs[m] && po[m] == ok[m]);
                    }
                }
                assert forall|m: int| j < m < vs.len() && ok[m] implies version_cmp(
                    #[trigger] vs[m],
                    vs[j],
                ) < 0 by {
                    if m < last {
                        assert(pv[m] == vs[m] && po[m] == ok[m]);
                    }
                }
                assert(is_last_greatest(vs, ok, j));
            }
        } else {
            assert forall|m: int| 0 <= m < vs.len() && ok[m] implies version_cmp(
                #[trigger] vs[m],
                vs[j],
            ) <= 0 by {
                if m < last {
                    assert(pv[m] == vs[m] && po[m] == ok[m]);
                }
            }
            assert forall|m: int| j < m < vs.len() && ok[m] implies version_cmp(
                #[trigger] vs[m],
                vs[j],
            ) < 0 by {
                if m < last {
                    assert(pv[m] == vs[m] && po[m] == ok[m]);
                }
            }
            assert(is_last_greatest(vs, ok, j));
        }
    } else {
        assert(k == last) by {
            if k < last {
                assert(po[k] == ok[k]);
            }
        }
        assert forall|m: int| 0 <= m < vs.len() && ok[m] implies version_cmp(
            #[trigger] vs[m],
            vs[last],
        ) <= 0 by {
            if m < last {
                assert(po[m] == ok[m]);
            }
        }
        assert(is_last_greatest(vs, ok, last));
    }
}

/// Whenever some candidate matches prefix `p`, the greatest match exists: it
/// is a candidate, it matches `p`, and no matching candidate sorts after it in
/// version order (so among "1.9.9" and "1.10.0", prefix "1" gives "1.10.0").
pub proof fn lemma_latest_matching_is_greatest(vs: Seq<Seq<char>>, p: Seq<char>, k: int)
    requires
        0 <= k < vs.len(),
        matches_prefix(vs[k], p),
    ensures
        latest_matching(vs, p) matches Some(v) && vs.contains(v) && matches_prefix(v, p) && forall|
            m: int,
        |
            0 <= m < vs.len() && matches_prefix(vs[m], p) ==> version_cmp(#[trigger] vs[m], v) <= 0,
{
    let ok = prefix_flags(vs, p);
    lemma_last_greatest_exists(vs, ok, k);
    let j = choose|j: int| is_last_greatest(vs, ok, j);
    assert(ok[j]);
    assert forall|m: int| 0 <= m < vs.len() && matches_prefix(vs[m], p) implies version_cmp(
        #[trigger] vs[m],
        vs[j],
    ) <= 0 by {
        assert(ok[m]);
    }
}

} // verus!
