//! Chunk-wise ordering of version strings.
//!
//! A version string is split into chunks at every `.` and `-`. Chunks made of
//! decimal digits (whose value fits in 64 bits) are compared by value, other
//! chunks by their characters, and a numeric chunk sorts before a textual one.
use std::cmp::Ordering;
use vstd::prelude::*;
use vstd::string::*;

verus! {

pub open spec fn is_chunk_sep(c: char) -> bool {
    c == '.' || c == '-'
}

pub open spec fn is_digit(c: char) -> bool {
    '0' <= c && c <= '9'
}

/// The chunks of `s`, scanning from position `i` with the current chunk starting at `start`.
pub open spec fn chunks_scan(s: Seq<char>, start: int, i: int) -> Seq<Seq<char>>
    decreases s.len() - i,
{
    if i >= s.len() {
        seq![s.subrange(start, s.len() as int)]
    } else if is_chunk_sep(s[i]) {
        seq![s.subrange(start, i)] + chunks_scan(s, i + 1, i + 1)
    } else {
        chunks_scan(s, start, i + 1)
    }
}

/// The chunks of a version string: the pieces between `.` and `-` separators.
pub open spec fn chunks(s: Seq<char>) -> Seq<Seq<char>> {
    chunks_scan(s, 0, 0)
}

pub open spec fn all_digits(c: Seq<char>) -> bool {
    forall|k: int| 0 <= k < c.len() ==> is_digit(#[trigger] c[k])
}

pub open spec fn digit_value(c: char) -> nat {
    ((c as u32) - ('0' as u32)) as nat
}

/// The decimal value of a string of digits.
pub open spec fn digits_value(c: Seq<char>) -> nat
    decreases c.len(),
{
    if c.len() == 0 {
        0
    } else {
        digits_value(c.drop_last()) * 10 + digit_value(c.last())
    }
}

/// A numeric chunk: non-empty, all digits, with a value that fits in 64 bits.
pub open spec fn is_numeric(c: Seq<char>) -> bool {
    c.len() > 0 && all_digits(c) && digits_value(c) <= u64::MAX
}

pub open spec fn cmp_int(x: int, y: int) -> int {
    if x < y {
        -1
    } else if x > y {
        1
    } else {
        0
    }
}

/// Character-wise lexicographic comparison, -1, 0 or 1.
pub open spec fn lex_cmp(a: Seq<char>, b: Seq<char>) -> int
    decreases a.len(),
{
    if a.len() == 0 {
        if b.len() == 0 {
            0
        } else {
            -1
        }
    } else if b.len() == 0 {
        1
    } else if a[0] < b[0] {
        -1
    } else if a[0] > b[0] {
        1
    } else {
        lex_cmp(a.drop_first(), b.drop_first())
    }
}

/// Comparison of two chunks, -1, 0 or 1.
pub open spec fn chunk_cmp(a: Seq<char>, b: Seq<char>) -> int {
    if is_numeric(a) && is_numeric(b) {
        cmp_int(digits_value(a) as int, digits_value(b) as int)
    } else if is_numeric(a) {
        -1
    } else if is_numeric(b) {
        1
    } else {
        lex_cmp(a, b)
    }
}

/// Lexicographic comparison of chunk sequences; a proper prefix sorts first.
pub open spec fn chunks_cmp(a: Seq<Seq<char>>, b: Seq<Seq<char>>) -> int
    decreases a.len(),
{
    if a.len() == 0 {
        if b.len() == 0 {
            0
        } else {
            -1
        }
    } else if b.len() == 0 {
        1
    } else if chunk_cmp(a[0], b[0]) != 0 {
        chunk_cmp(a[0], b[0])
    } else {
        chunks_cmp(a.drop_first(), b.drop_first())
    }
}

/// The order of two version strings, -1, 0 or 1.
pub open spec fn version_cmp(a: Seq<char>, b: Seq<char>) -> int {
    chunks_cmp(chunks(a), chunks(b))
}

pub open spec fn ordering_value(o: Ordering) -> int {
    match o {
        Ordering::Less => -1,
        Ordering::Equal => 0,
        Ordering::Greater => 1,
    }
}

/// Sign bookkeeping shared by the transitivity lemmas: `x` compares a with b,
/// `y` compares b with c, `z` compares a with c.
pub open spec fn chains(x: int, y: int, z: int) -> bool {
    &&& (x <= 0 && y <= 0 ==> z <= 0)
    &&& (x <= 0 && y <= 0 && (x < 0 || y < 0) ==> z < 0)
}

pub open spec fn is_sign(x: int) -> bool {
    x == -1 || x == 0 || x == 1
}

proof fn lemma_lex_props(a: Seq<char>, b: Seq<char>)
    ensures
        lex_cmp(a, b) == -lex_cmp(b, a),
        is_sign(lex_cmp(a, b)),
        lex_cmp(a, b) == 0 <==> a == b,
    decreases a.len(),
{
    if a.len() > 0 && b.len() > 0 && a[0] == b[0] {
        lemma_lex_props(a.drop_first(), b.drop_first());
        if a.drop_first() == b.drop_first() {
            assert(a =~= seq![a[0]] + a.drop_first());
            assert(b =~= seq![b[0]] + b.drop_first());
        }
    }
    if a.len() == 0 && b.len() == 0 {
        assert(a =~= b);
    }
}

proof fn lemma_lex_trans(a: Seq<char>, b: Seq<char>, c: Seq<char>)
    ensures
        chains(lex_cmp(a, b), lex_cmp(b, c), lex_cmp(a, c)),
    decreases a.len(),
{
    if a.len() > 0 && b.len() > 0 && c.len() > 0 {
        lemma_lex_trans(a.drop_first(), b.drop_first(), c.drop_first());
    }
}

proof fn lemma_chunk_props(a: Seq<char>, b: Seq<char>)
    ensures
        chunk_cmp(a, b) == -chunk_cmp(b, a),
        is_sign(chunk_cmp(a, b)),
{
    lemma_lex_props(a, b);
}

proof fn lemma_chunk_trans(a: Seq<char>, b: Seq<char>, c: Seq<char>)
    ensures
        chains(chunk_cmp(a, b), chunk_cmp(b, c), chunk_cmp(a, c)),
{
    lemma_lex_trans(a, b, c);
}

proof fn lemma_chunks_props(a: Seq<Seq<char>>, b: Seq<Seq<char>>)
    ensures
        chunks_cmp(a, b) == -chunks_cmp(b, a),
        is_sign(chunks_cmp(a, b)),
    decreases a.len(),
{
    if a.len() > 0 && b.len() > 0 {
        lemma_chunk_props(a[0], b[0]);
        lemma_chunks_props(a.drop_first(), b.drop_first());
    }
}

proof fn lemma_chunks_trans(a: Seq<Seq<char>>, b: Seq<Seq<char>>, c: Seq<Seq<char>>)
    ensures
        chains(chunks_cmp(a, b), chunks_cmp(b, c), chunks_cmp(a, c)),
    decreases a.len(),
{
    if a.len() > 0 && b.len() > 0 && c.len() > 0 {
        lemma_chunk_trans(a[0], b[0], c[0]);
        lemma_chunk_props(a[0], b[0]);
        lemma_chunk_props(b[0], c[0]);
        lemma_chunk_props(a[0], c[0]);
        lemma_chunk_trans(b[0], c[0], a[0]);
        lemma_chunk_trans(c[0], a[0], b[0]);
        lemma_chunks_trans(a.drop_first(), b.drop_first(), c.drop_first());
    }
}

/// Character-wise comparison is zero exactly on equal strings.
pub proof fn lemma_lex_equal(a: Seq<char>, b: Seq<char>)
    ensures
        lex_cmp(a, b) == 0 <==> a == b,
{
    lemma_lex_props(a, b);
}

/// Version order is antisymmetric and yields -1, 0 or 1.
pub proof fn lemma_version_cmp_antisymmetric(a: Seq<char>, b: Seq<char>)
    ensures
        version_cmp(a, b) == -version_cmp(b, a),
        is_sign(version_cmp(a, b)),
{
    lemma_chunks_props(chunks(a), chunks(b));
}

/// Version order is transitive, strictly so when either step is strict.
pub proof fn lemma_version_cmp_transitive(a: Seq<char>, b: Seq<char>, c: Seq<char>)
    ensures
        chains(version_cmp(a, b), version_cmp(b, c), version_cmp(a, c)),
{
    lemma_chunks_trans(chunks(a), chunks(b), chunks(c));
}

proof fn lemma_numeric_chunk_seqs_order(a: Seq<Seq<char>>, b: Seq<Seq<char>>, i: int)
    requires
        a.len() == b.len(),
        0 <= i < a.len(),
        forall|j: int| 0 <= j < a.len() ==> is_numeric(#[trigger] a[j]),
        forall|j: int| 0 <= j < b.len() ==> is_numeric(#[trigger] b[j]),
        forall|j: int| 0 <= j < i ==> digits_value(#[trigger] a[j]) == digits_value(b[j]),
        digits_value(a[i]) < digits_value(b[i]),
    ensures
        chunks_cmp(a, b) < 0,
    decreases i,
{
    if i > 0 {
        assert(is_numeric(a[0]) && is_numeric(b[0]));
        assert(digits_value(a[0]) == digits_value(b[0]));
        let a1 = a.drop_first();
        let b1 = b.drop_first();
        assert forall|j: int| 0 <= j < a1.len() implies is_numeric(#[trigger] a1[j]) by {
            assert(a1[j] == a[j + 1]);
        }
        assert forall|j: int| 0 <= j < b1.len() implies is_numeric(#[trigger] b1[j]) by {
            assert(b1[j] == b[j + 1]);
        }
        assert forall|j: int| 0 <= j < i - 1 implies digits_value(#[trigger] a1[j]) == digits_value(
            b1[j],
        ) by {
            assert(a1[j] == a[j + 1]);
            assert(b1[j] == b[j + 1]);
        }
        lemma_numeric_chunk_seqs_order(a1, b1, i - 1);
    } else {
        assert(is_numeric(a[0]) && is_numeric(b[0]));
    }
}

/// Two versions with the same number of chunks, all of them numeric, are
/// ordered by the first chunk whose values differ, whatever the number of
/// digits: "9.9" sorts before "10.0", which a flat string comparison gets wrong.
pub proof fn lemma_numeric_chunks_order(a: Seq<char>, b: Seq<char>, i: int)
    requires
        chunks(a).len() == chunks(b).len(),
        0 <= i < chunks(a).len(),
        forall|j: int| 0 <= j < chunks(a).len() ==> is_numeric(#[trigger] chunks(a)[j]),
        forall|j: int| 0 <= j < chunks(b).len() ==> is_numeric(#[trigger] chunks(b)[j]),
        forall|j: int|
            0 <= j < i ==> digits_value(#[trigger] chunks(a)[j]) == digits_value(chunks(b)[j]),
        digits_value(chunks(a)[i]) < digits_value(chunks(b)[i]),
    ensures
        version_cmp(a, b) < 0,
        version_cmp(b, a) > 0,
{
    lemma_numeric_chunk_seqs_order(chunks(a), chunks(b), i);
    lemma_version_cmp_antisymmetric(a, b);
}

/// The character sequences of a sequence of strings.
pub open spec fn views(v: Seq<String>) -> Seq<Seq<char>> {
    v.map_values(|s: String| s@)
}

proof fn lemma_prefix_value_le(c: Seq<char>, j: int)
    requires
        all_digits(c),
        0 <= j <= c.len(),
    ensures
        digits_value(c.take(j)) <= digits_value(c),
    decreases c.len() - j,
{
    if j == c.len() {
        assert(c.take(j) =~= c);
    } else {
        lemma_prefix_value_le(c, j + 1);
        assert(c.take(j + 1).drop_last() =~= c.take(j));
        assert(is_digit(c[j]));
    }
}

/// The value of a numeric chunk, or `None` for a chunk that is not numeric.
pub fn chunk_value(c: &str) -> (r: Option<u64>)
    ensures
        r is Some <==> is_numeric(c@),
        r matches Some(v) ==> v == digits_value(c@),
{
    let n = c.unicode_len();
    if n == 0 {
        return None;
    }
    let mut v: u64 = 0;
    let mut i: usize = 0;
    assert(c@.take(0) =~= Seq::<char>::empty());
    while i < n
        invariant
            n == c@.len(),
            i <= n,
            v == digits_value(c@.take(i as int)),
            all_digits(c@.take(i as int)),
        decreases n - i,
    {
        let ch = c.get_char(i);
        if !('0' <= ch && ch <= '9') {
            assert(!is_digit(c@[i as int]));
            return None;
        }
        let d: u64 = ((ch as u32) - ('0' as u32)) as u64;
        let ghost next = c@.take(i + 1);
        assert(next.drop_last() =~= c@.take(i as int));
        assert(all_digits(next)) by {
            assert forall|k: int| 0 <= k < next.len() implies is_digit(#[trigger] next[k]) by {
                if k < i {
                    assert(next[k] == c@.take(i as int)[k]);
                }
            }
        }
        let m = v.checked_mul(10);
        let t = match m {
            Some(m) => m.checked_add(d),
            None => None,
        };
        match t {
            Some(t) => {
                v = t;
            },
            None => {
                proof {
                    if all_digits(c@) {
                        lemma_prefix_value_le(c@, i + 1);
                    }
                }
                return None;
            },
        }
        i = i + 1;
    }
    assert(c@.take(n as int) =~= c@);
    Some(v)
}

/// Character-wise comparison of two strings.
pub fn lex_compare(a: &str, b: &str) -> (r: Ordering)
    ensures
        ordering_value(r) == lex_cmp(a@, b@),
{
    let na = a.unicode_len();
    let nb = b.unicode_len();
    let mut i: usize = 0;
    assert(a@.skip(0) =~= a@);
    assert(b@.skip(0) =~= b@);
    while i < na && i < nb
        invariant
            na == a@.len(),
            nb == b@.len(),
            i <= na,
            i <= nb,
            lex_cmp(a@.skip(i as int), b@.skip(i as int)) == lex_cmp(a@, b@),
        decreases na - i,
    {
        let ca = a.get_char(i);
        let cb = b.get_char(i);
        assert(a@.skip(i as int)[0] == ca);
        assert(b@.skip(i as int)[0] == cb);
        if ca < cb {
            return Ordering::Less;
        }
        if ca > cb {
            return Ordering::Greater;
        }
        assert(a@.skip(i as int).drop_first() =~= a@.skip(i + 1));
        assert(b@.skip(i as int).drop_first() =~= b@.skip(i + 1));
        i = i + 1;
    }
    if i == na && i == nb {
        Ordering::Equal
    } else if i == na {
        Ordering::Less
    } else {
        Ordering::Greater
    }
}

/// Comparison of two chunks: by value when both are numeric, numeric before
/// textual, and character-wise otherwise.
pub fn compare_chunks(a: &str, b: &str) -> (r: Ordering)
    ensures
        ordering_value(r) == chunk_cmp(a@, b@),
{
    match (chunk_value(a), chunk_value(b)) {
        (Some(x), Some(y)) => {
            if x < y {
                Ordering::Less
            } else if x > y {
                Ordering::Greater
            } else {
                Ordering::Equal
            }
        },
        (Some(_), None) => Ordering::Less,
        (None, Some(_)) => Ordering::Greater,
        (None, None) => lex_compare(a, b),
    }
}

/// Splits a version string into its chunks at every `.` and `-`.
pub fn version_chunks(s: &str) -> (r: Vec<String>)
    ensures
        views(r@) == chunks(s@),
{
    let n = s.unicode_len();
    let mut out: Vec<String> = Vec::new();
    let mut start: usize = 0;
    let mut i: usize = 0;
    while i < n
        invariant
            n == s@.len(),
            start <= i <= n,
            views(out@) + chunks_scan(s@, start as int, i as int) == chunks(s@),
        decreases n - i,
    {
        let ch = s.get_char(i);
        if ch == '.' || ch == '-' {
            let piece = String::from_str(s.substring_char(start, i));
            let ghost before = views(out@);
            out.push(piece);
            assert(views(out@) =~= before.push(piece@));
            assert(before.push(piece@) + chunks_scan(s@, i + 1, i + 1) =~= before + (seq![
                s@.subrange(start as int, i as int),
            ] + chunks_scan(s@, i + 1, i + 1)));
            start = i + 1;
        }
        i = i + 1;
    }
    let piece = String::from_str(s.substring_char(start, n));
    let ghost before = views(out@);
    out.push(piece);
    assert(views(out@) =~= before.push(piece@));
    assert(before.push(piece@) =~= before + seq![s@.subrange(start as int, n as int)]);
    out
}

/// Lexicographic comparison of two chunk lists.
pub fn compare_chunk_lists(a: &Vec<String>, b: &Vec<String>) -> (r: Ordering)
    ensures
        ordering_value(r) == chunks_cmp(views(a@), views(b@)),
{
    let mut i: usize = 0;
    assert(views(a@).skip(0) =~= views(a@));
    assert(views(b@).skip(0) =~= views(b@));
    while i < a.len() && i < b.len()
        invariant
            i <= a.len(),
            i <= b.len(),
            chunks_cmp(views(a@).skip(i as int), views(b@).skip(i as int)) == chunks_cmp(
                views(a@),
                views(b@),
            ),
        decreases a.len() - i,
    {
        let c = compare_chunks(a[i].as_str(), b[i].as_str());
        assert(views(a@).skip(i as int)[0] == a@[i as int]@);
        assert(views(b@).skip(i as int)[0] == b@[i as int]@);
        match c {
            Ordering::Equal => {},
            _ => {
                return c;
            },
        }
        assert(views(a@).skip(i as int).drop_first() =~= views(a@).skip(i + 1));
        assert(views(b@).skip(i as int).drop_first() =~= views(b@).skip(i + 1));
        i = i + 1;
    }
    if i == a.len() && i == b.len() {
        Ordering::Equal
    } else if i == a.len() {
        Ordering::Less
    } else {
        Ordering::Greater
    }
}

/// Compares two version strings chunk by chunk.
pub fn compare_versions(a: &str, b: &str) -> (r: Ordering)
    ensures
        ordering_value(r) == version_cmp(a@, b@),
{
    let ca = version_chunks(a);
    let cb = version_chunks(b);
    compare_chunk_lists(&ca, &cb)
}

} // verus!
