//! The on-disk form of cached values: a list of strings, each written as its
//! length in characters, a colon, and its characters.
use crate::settings::{decimal, decimal_string, digit_text};
use crate::text::{find_char_from, index_of_from};
use crate::tool_version::pairs_view;
use crate::version_order::{all_digits, chunk_value, digits_value, is_digit, is_numeric, views};
use vstd::prelude::*;
use vstd::string::*;

verus! {

/// One encoded item.
pub open spec fn encode_item(x: Seq<char>) -> Seq<char> {
    decimal(x.len()) + ":"@ + x
}

/// The encoded items of a list of strings.
pub open spec fn encode_items(xs: Seq<Seq<char>>) -> Seq<Seq<char>> {
    xs.map_values(|x: Seq<char>| encode_item(x))
}

/// The encoding of a list of strings: its encoded items one after another.
pub open spec fn encoded(xs: Seq<Seq<char>>) -> Seq<char> {
    encode_items(xs).flatten()
}

/// The items encoded in `s` from position `i` on, if it is a valid encoding.
pub open spec fn decode_from(s: Seq<char>, i: int) -> Option<Seq<Seq<char>>>
    decreases s.len() - i,
{
    if i < 0 || i >= s.len() {
        if i == s.len() {
            Some(Seq::empty())
        } else {
            None
        }
    } else {
        match index_of_from(s, ':', i) {
            None => None,
            Some(j) => {
                let digits = s.subrange(i, j);
                if j < i || !is_numeric(digits) {
                    None
                } else {
                    let end = j + 1 + digits_value(digits);
                    if end > s.len() {
                        None
                    } else {
                        match decode_from(s, end) {
                            Some(rest) => Some(seq![s.subrange(j + 1, end)] + rest),
                            None => None,
                        }
                    }
                }
            },
        }
    }
}

pub open spec fn decoded(s: Seq<char>) -> Option<Seq<Seq<char>>> {
    decode_from(s, 0)
}

proof fn lemma_digit_text(d: nat)
    requires
        d < 10,
    ensures
        digit_text(d).len() == 1,
        is_digit(digit_text(d)[0]),
        (digit_text(d)[0] as u32) - ('0' as u32) == d,
{
    reveal_strlit("0");
    reveal_strlit("1");
    reveal_strlit("2");
    reveal_strlit("3");
    reveal_strlit("4");
    reveal_strlit("5");
    reveal_strlit("6");
    reveal_strlit("7");
    reveal_strlit("8");
    reveal_strlit("9");
}

proof fn lemma_decimal(n: nat)
    ensures
        decimal(n).len() >= 1,
        all_digits(decimal(n)),
        digits_value(decimal(n)) == n,
    decreases n,
{
    if n < 10 {
        lemma_digit_text(n);
        let t = digit_text(n);
        assert(t.drop_last() =~= Seq::<char>::empty());
        assert(t.last() == t[0]);
        assert(digits_value(t.drop_last()) == 0);
    } else {
        lemma_decimal(n / 10);
        lemma_digit_text(n % 10);
        let a = decimal(n / 10);
        let t = digit_text(n % 10);
        let s = a + t;
        assert(s.drop_last() =~= a);
        assert(s.last() == t[0]);
        assert(digits_value(s) == digits_value(a) * 10 + ((t[0] as u32) - ('0' as u32)) as nat);
        assert(n == (n / 10) * 10 + n % 10) by (nonlinear_arith);
        assert forall|k: int| 0 <= k < s.len() implies is_digit(#[trigger] s[k]) by {
            if k < a.len() {
                assert(s[k] == a[k]);
            }
        }
    }
}

proof fn lemma_index_after_digits(s: Seq<char>, i: int, k: int)
    requires
        0 <= i,
        i + k < s.len(),
        0 <= k,
        forall|m: int| i <= m < i + k ==> is_digit(#[trigger] s[m]),
        s[i + k] == ':',
    ensures
        index_of_from(s, ':', i) == Some(i + k),
    decreases k,
{
    if k > 0 {
        assert(is_digit(s[i]));
        lemma_index_after_digits(s, i + 1, k - 1);
    }
}

/// The encoding of `xs`: its first item, then the rest.
proof fn lemma_encoded_front(xs: Seq<Seq<char>>)
    requires
        xs.len() > 0,
    ensures
        encoded(xs) == encode_item(xs[0]) + encoded(xs.drop_first()),
{
    assert(encode_items(xs).drop_first() =~= encode_items(xs.drop_first()));
}

proof fn lemma_decode_encoded(p: Seq<char>, xs: Seq<Seq<char>>)
    requires
        forall|k: int| 0 <= k < xs.len() ==> #[trigger] xs[k].len() <= u64::MAX,
    ensures
        decode_from(p + encoded(xs), p.len() as int) == Some(xs),
    decreases xs.len(),
{
    let s = p + encoded(xs);
    if xs.len() == 0 {
        assert(encode_items(xs) =~= Seq::<Seq<char>>::empty());
        assert(encoded(xs) =~= Seq::<char>::empty());
        assert(s.len() == p.len());
    } else {
        lemma_encoded_front(xs);
        let x = xs[0];
        let d = decimal(x.len());
        lemma_decimal(x.len());
        let i = p.len() as int;
        let j = i + d.len();
        assert(s =~= p + d + ":"@ + x + encoded(xs.drop_first()));
        reveal_strlit(":");
        assert forall|m: int| i <= m < j implies is_digit(#[trigger] s[m]) by {
            assert(s[m] == d[m - i]);
        }
        assert(s[j] == ':');
        lemma_index_after_digits(s, i, d.len() as int);
        assert(s.subrange(i, j) =~= d);
        let end = j + 1 + x.len();
        assert(s.subrange(j + 1, end) =~= x);
        let p2 = p + d + ":"@ + x;
        assert(s =~= p2 + encoded(xs.drop_first()));
        assert(p2.len() == end);
        lemma_decode_encoded(p2, xs.drop_first());
        assert(seq![x] + xs.drop_first() =~= xs);
        assert forall|k: int| 0 <= k < xs.drop_first().len() implies #[trigger] xs.drop_first()[k].len() <= u64::MAX by {
            assert(xs.drop_first()[k] == xs[k + 1]);
        }
    }
}

/// Decoding the encoding of a list of strings gives the list back.
pub proof fn lemma_codec_round_trip(xs: Seq<Seq<char>>)
    requires
        forall|k: int| 0 <= k < xs.len() ==> #[trigger] xs[k].len() <= u64::MAX,
    ensures
        decoded(encoded(xs)) == Some(xs),
{
    lemma_decode_encoded(Seq::empty(), xs);
    assert(Seq::<char>::empty() + encoded(xs) =~= encoded(xs));
}

proof fn lemma_encoded_push(xs: Seq<Seq<char>>, x: Seq<char>)
    ensures
        encoded(xs.push(x)) == encoded(xs) + encode_item(x),
{
    assert(encode_items(xs.push(x)) =~= encode_items(xs).push(encode_item(x)));
    encode_items(xs).lemma_flatten_push(encode_item(x));
}

/// The encoding of a list of strings.
pub fn encode_strings(items: &Vec<String>) -> (r: String)
    ensures
        r@ == encoded(views(items@)),
{
    let mut out = String::new();
    let mut i: usize = 0;
    assert(views(items@).take(0) =~= Seq::<Seq<char>>::empty());
    assert(encode_items(Seq::<Seq<char>>::empty()) =~= Seq::<Seq<char>>::empty());
    while i < items.len()
        invariant
            i <= items.len(),
            out@ == encoded(views(items@).take(i as int)),
        decreases items.len() - i,
    {
        let x = items[i].as_str();
        let len = decimal_string(x.unicode_len() as u64);
        out.append(len.as_str());
        out.append(":");
        out.append(x);
        proof {
            let pre = views(items@).take(i as int);
            assert(views(items@).take(i + 1) =~= pre.push(x@));
            lemma_encoded_push(pre, x@);
        }
        i = i + 1;
    }
    assert(views(items@).take(items.len() as int) =~= views(items@));
    out
}

pub open spec fn prepend_items(out: Seq<Seq<char>>, rest: Option<Seq<Seq<char>>>) -> Option<Seq<Seq<char>>> {
    match rest {
        Some(r) => Some(out + r),
        None => None,
    }
}

/// The strings encoded in `s`, or `None` when `s` is not an encoding.
pub fn decode_strings(s: &str) -> (r: Option<Vec<String>>)
    ensures
        match r {
            Some(v) => decoded(s@) == Some(views(v@)),
            None => decoded(s@) is None,
        },
{
    let n = s.unicode_len();
    let mut out: Vec<String> = Vec::new();
    let mut i: usize = 0;
    assert(views(out@) + Seq::<Seq<char>>::empty() =~= views(out@));
    assert(prepend_items(Seq::empty(), decode_from(s@, 0)) == decode_from(s@, 0)) by {
        match decode_from(s@, 0) {
            Some(r) => {
                assert(Seq::<Seq<char>>::empty() + r =~= r);
            },
            None => {},
        }
    }
    while i < n
        invariant
            n == s@.len(),
            i <= n,
            decoded(s@) == prepend_items(views(out@), decode_from(s@, i as int)),
        decreases n - i,
    {
        let j = match find_char_from(s, ':', i) {
            Some(j) => j,
            None => {
                return None;
            },
        };
        let digits = s.substring_char(i, j);
        let v = match chunk_value(digits) {
            Some(v) => v,
            None => {
                return None;
            },
        };
        if v > (n - j - 1) as u64 {
            return None;
        }
        let end: usize = j + 1 + v as usize;
        let item = String::from_str(s.substring_char(j + 1, end));
        let ghost prev = views(out@);
        proof {
            assert(digits@ == s@.subrange(i as int, j as int));
            let rest = decode_from(s@, end as int);
            match rest {
                Some(r) => {
                    assert(prev + (seq![item@] + r) =~= prev.push(item@) + r);
                },
                None => {},
            }
        }
        out.push(item);
        assert(views(out@) =~= prev.push(item@));
        i = end;
    }
    proof {
        assert(decode_from(s@, n as int) == Some(Seq::<Seq<char>>::empty()));
        assert(views(out@) + Seq::<Seq<char>>::empty() =~= views(out@));
    }
    Some(out)
}

/// Pairs laid out as a flat list: each name followed by its value.
pub open spec fn flat_pairs(p: Seq<(Seq<char>, Seq<char>)>) -> Seq<Seq<char>>
    decreases p.len(),
{
    if p.len() == 0 {
        Seq::empty()
    } else {
        flat_pairs(p.drop_last()).push(p.last().0).push(p.last().1)
    }
}

/// A flat list of even length read back as pairs of name and value.
pub open spec fn paired(s: Seq<Seq<char>>) -> Seq<(Seq<char>, Seq<char>)>
    decreases s.len(),
{
    if s.len() < 2 {
        Seq::empty()
    } else {
        paired(s.take(s.len() - 2)).push((s[s.len() - 2], s[s.len() - 1]))
    }
}

proof fn lemma_flat_pairs_len(p: Seq<(Seq<char>, Seq<char>)>)
    ensures
        flat_pairs(p).len() == 2 * p.len(),
    decreases p.len(),
{
    if p.len() > 0 {
        lemma_flat_pairs_len(p.drop_last());
    }
}

/// Pairs flattened into a list read back as the same pairs.
pub proof fn lemma_pairs_round_trip(p: Seq<(Seq<char>, Seq<char>)>)
    ensures
        paired(flat_pairs(p)) == p,
    decreases p.len(),
{
    if p.len() > 0 {
        let f = flat_pairs(p);
        lemma_flat_pairs_len(p.drop_last());
        lemma_pairs_round_trip(p.drop_last());
        assert(f.take(f.len() - 2) =~= flat_pairs(p.drop_last()));
        assert(p.drop_last().push(p.last()) =~= p);
    } else {
        assert(flat_pairs(p) =~= Seq::<Seq<char>>::empty());
        assert(p =~= Seq::<(Seq<char>, Seq<char>)>::empty());
    }
}

/// Pairs as a flat list, each name followed by its value.
pub fn flatten_pairs(pairs: &Vec<(String, String)>) -> (r: Vec<String>)
    ensures
        views(r@) == flat_pairs(pairs_view(pairs@)),
{
    let ghost pv = pairs_view(pairs@);
    let mut out: Vec<String> = Vec::new();
    let mut i: usize = 0;
    assert(pv.take(0) =~= Seq::<(Seq<char>, Seq<char>)>::empty());
    assert(views(out@) =~= Seq::<Seq<char>>::empty());
    while i < pairs.len()
        invariant
            i <= pairs.len(),
            pv == pairs_view(pairs@),
            views(out@) == flat_pairs(pv.take(i as int)),
        decreases pairs.len() - i,
    {
        let ghost prev = views(out@);
        let k = pairs[i].0.clone();
        let v = pairs[i].1.clone();
        out.push(k);
        out.push(v);
        assert(views(out@) =~= prev.push(k@).push(v@));
        assert(pv.take(i + 1).drop_last() =~= pv.take(i as int));
        i = i + 1;
    }
    assert(pv.take(pairs.len() as int) =~= pv);
    out
}

/// A flat list of names and values as pairs; `None` for a list of odd length.
pub fn pair_up(items: &Vec<String>) -> (r: Option<Vec<(String, String)>>)
    ensures
        items@.len() % 2 == 1 <==> r is None,
        r matches Some(p) ==> pairs_view(p@) == paired(views(items@)),
{
    let n = items.len();
    if n % 2 == 1 {
        return None;
    }
    let ghost iv = views(items@);
    let mut out: Vec<(String, String)> = Vec::new();
    let mut i: usize = 0;
    assert(iv.take(0) =~= Seq::<Seq<char>>::empty());
    while i < n
        invariant
            n == items.len(),
            n % 2 == 0,
            i % 2 == 0,
            i <= n,
            iv == views(items@),
            pairs_view(out@) == paired(iv.take(i as int)),
        decreases n - i,
    {
        let ghost prev = pairs_view(out@);
        let k = items[i].clone();
        let v = items[i + 1].clone();
        out.push((k, v));
        assert(pairs_view(out@) =~= prev.push((k@, v@)));
        let ghost t = iv.take(i + 2);
        assert(t.take(t.len() - 2) =~= iv.take(i as int));
        assert(t[t.len() - 2] == k@ && t[t.len() - 1] == v@);
        i = i + 2;
    }
    assert(iv.take(n as int) =~= iv);
    Some(out)
}

} // verus!
