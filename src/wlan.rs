//! Reading the campus Wi-Fi gateway's redirect address: the query parameters
//! that the gateway login needs.
use vstd::prelude::*;

use crate::text::{chars_of, first_index};

verus! {

/// The text after the last `c`, or all of `s` when it holds none.
pub open spec fn after_last(s: Seq<char>, c: char) -> Seq<char>
    decreases s.len(),
{
    if first_index(s, c) < s.len() {
        after_last(s.skip(first_index(s, c) as int + 1), c)
    } else {
        s
    }
}

/// The pieces of `s` between occurrences of `c`.
pub open spec fn split_on(s: Seq<char>, c: char) -> Seq<Seq<char>>
    decreases s.len(),
{
    if first_index(s, c) < s.len() {
        seq![s.take(first_index(s, c) as int)] + split_on(s.skip(first_index(s, c) as int + 1), c)
    } else {
        seq![s]
    }
}

/// Name of a `name=value` pair: the text before its first `=`.
pub open spec fn pair_name(p: Seq<char>) -> Seq<char> {
    split_on(p, '=')[0]
}

/// Value of a `name=value` pair: the text between its first and second `=`,
/// empty when it has none.
pub open spec fn pair_value(p: Seq<char>) -> Seq<char> {
    if split_on(p, '=').len() > 1 {
        split_on(p, '=')[1]
    } else {
        Seq::empty()
    }
}

/// The value of the last pair named `name`, or empty.
pub open spec fn param_value(pairs: Seq<Seq<char>>, name: Seq<char>) -> Seq<char>
    decreases pairs.len(),
{
    if pairs.len() == 0 {
        Seq::empty()
    } else if pair_name(pairs.last()) == name {
        pair_value(pairs.last())
    } else {
        param_value(pairs.drop_last(), name)
    }
}

/// The query parameters of an address: the pairs after its last `?`.
pub open spec fn query_pairs(location: Seq<char>) -> Seq<Seq<char>> {
    split_on(after_last(location, '?'), '&')
}

/// `s` with every `%2E` read as a `.`.
pub open spec fn unescape_dots(s: Seq<char>) -> Seq<char>
    decreases s.len(),
{
    if s.len() == 0 {
        s
    } else if s.len() >= 3 && s[0] == '%' && s[1] == '2' && s[2] == 'E' {
        seq!['.'] + unescape_dots(s.skip(3))
    } else {
        seq![s[0]] + unescape_dots(s.skip(1))
    }
}

/// Index of the first `c` at or after `lo`, or `v.len()`.
fn find_from(v: &Vec<char>, c: char, lo: usize) -> (r: usize)
    requires
        lo <= v.len(),
    ensures
        r == lo + first_index(v@.skip(lo as int), c),
        r <= v.len(),
{
    let mut i = lo;
    assert(v@.skip(lo as int).skip(0) == v@.skip(lo as int));
    while i < v.len() && v[i] != c
        invariant
            lo <= i <= v.len(),
            first_index(v@.skip(lo as int), c) == (i - lo) + first_index(v@.skip(i as int), c),
        decreases v.len() - i,
    {
        assert(v@.skip(i as int).drop_first() == v@.skip(i + 1));
        i = i + 1;
    }
    proof {
        lemma_first_index_le(v@.skip(i as int), c);
    }
    i
}

proof fn lemma_first_index_le(s: Seq<char>, c: char)
    ensures
        first_index(s, c) <= s.len(),
        first_index(s, c) < s.len() ==> s[first_index(s, c) as int] == c,
    decreases s.len(),
{
    if s.len() > 0 && s[0] != c {
        lemma_first_index_le(s.drop_first(), c);
    }
}

/// Start of the text after the last `?`.
fn query_start(v: &Vec<char>) -> (r: usize)
    ensures
        r <= v.len(),
        v@.skip(r as int) == after_last(v@, '?'),
{
    let mut lo: usize = 0;
    assert(v@.skip(0) == v@);
    loop
        invariant
            lo <= v.len(),
            after_last(v@, '?') == after_last(v@.skip(lo as int), '?'),
        decreases v.len() - lo,
    {
        let k = find_from(v, '?', lo);
        if k >= v.len() {
            proof {
                lemma_first_index_le(v@.skip(lo as int), '?');
            }
            return lo;
        }
        proof {
            lemma_first_index_le(v@.skip(lo as int), '?');
            assert(v@.skip(lo as int).skip(k - lo + 1) == v@.skip(k + 1));
        }
        lo = k + 1;
    }
}

/// Bounds of the value of the pair `v[a..b]`.
fn value_bounds(v: &Vec<char>, a: usize, b: usize) -> (r: (usize, usize))
    requires
        a <= b <= v.len(),
    ensures
        r.0 <= r.1 <= v.len(),
        v@.subrange(r.0 as int, r.1 as int) == pair_value(v@.subrange(a as int, b as int)),
{
    let ghost p = v@.subrange(a as int, b as int);
    let mut i = a;
    while i < b && v[i] != '='
        invariant
            a <= i <= b <= v.len(),
            p == v@.subrange(a as int, b as int),
            forall|j: int| 0 <= j < i - a ==> p[j] != '=',
        decreases b - i,
    {
        i = i + 1;
    }
    proof {
        lemma_first_index_at(p, '=', i - a);
    }
    if i >= b {
        assert(v@.subrange(a as int, a as int) == Seq::<char>::empty());
        assert(p.take(p.len() as int) == p);
        return (a, a);
    }
    let s = i + 1;
    let mut e = s;
    while e < b && v[e] != '='
        invariant
            s <= e <= b <= v.len(),
            forall|j: int| s <= j < e ==> v@[j] != '=',
        decreases b - e,
    {
        e = e + 1;
    }
    proof {
        let rest = p.skip(i - a + 1);
        assert(rest == v@.subrange(s as int, b as int));
        lemma_first_index_at(rest, '=', e - s);
        let k = (e - s) as int;
        if k < rest.len() {
            assert(rest.take(k) == v@.subrange(s as int, e as int));
        } else {
            assert(rest.take(k) == rest);
            assert(rest == v@.subrange(s as int, e as int));
        }
        assert(split_on(rest, '=')[0] == v@.subrange(s as int, e as int));
    }
    (s, e)
}

/// `first_index` is `k` when `s[k]` is the first `c` (or `k` is the length
/// and there is none).
proof fn lemma_first_index_at(s: Seq<char>, c: char, k: int)
    requires
        0 <= k <= s.len(),
        forall|j: int| 0 <= j < k ==> s[j] != c,
        k < s.len() ==> s[k] == c,
    ensures
        first_index(s, c) == k,
    decreases s.len(),
{
    if s.len() > 0 && k > 0 {
        assert forall|j: int| 0 <= j < k - 1 implies s.drop_first()[j] != c by {
            assert(s.drop_first()[j] == s[j + 1]);
        }
        lemma_first_index_at(s.drop_first(), c, k - 1);
    }
}

/// Bounds of the value of the last pair named `name` among the pairs of
/// `v[lo..]`, or an empty range.
fn param_bounds(v: &Vec<char>, lo: usize, name: &Vec<char>) -> (r: (usize, usize))
    requires
        lo <= v.len(),
    ensures
        r.0 <= r.1 <= v.len(),
        v@.subrange(r.0 as int, r.1 as int) == param_value(split_on(v@.skip(lo as int), '&'), name@),
{
    let ghost all = split_on(v@.skip(lo as int), '&');
    let ghost mut done: Seq<Seq<char>> = Seq::empty();
    let mut best: (usize, usize) = (0, 0);
    let mut a = lo;
    assert(v@.subrange(0, 0) == Seq::<char>::empty());
    loop
        invariant
            lo <= a <= v.len(),
            all == split_on(v@.skip(lo as int), '&'),
            all == done + split_on(v@.skip(a as int), '&'),
            best.0 <= best.1 <= v.len(),
            v@.subrange(best.0 as int, best.1 as int) == param_value(done, name@),
        decreases v.len() - a,
    {
        let b = find_from(v, '&', a);
        proof {
            lemma_first_index_le(v@.skip(a as int), '&');
            assert(v@.skip(a as int).take(b - a) == v@.subrange(a as int, b as int));
        }
        let seg_lo = a;
        let (vs, ve) = value_bounds(v, seg_lo, b);
        let ghost seg = v@.subrange(seg_lo as int, b as int);
        let k = find_from(v, '=', seg_lo);
        let kk = if k < b {
            k
        } else {
            b
        };
        let same = names_equal(v, seg_lo, kk, name);
        proof {
            lemma_first_index_le(seg, '=');
            lemma_name_bounds(v@, seg_lo as int, b as int, k as int);
        }
        if same {
            best = (vs, ve);
        }
        proof {
            let ndone = done.push(seg);
            assert(ndone.drop_last() == done);
            done = ndone;
        }
        if b >= v.len() {
            proof {
                assert(split_on(v@.skip(a as int), '&') == seq![v@.skip(a as int)]);
                assert(v@.skip(a as int) == seg);
                assert(all == done);
            }
            return best;
        }
        proof {
            assert(v@.skip(a as int).skip(b - a + 1) == v@.skip(b + 1));
            assert(split_on(v@.skip(a as int), '&') == seq![seg] + split_on(v@.skip(b + 1), '&'));
            assert(all == done + split_on(v@.skip(b + 1), '&'));
        }
        a = b + 1;
    }
}

/// The name of the pair `v[a..b]` ends at its first `=` or at `b`.
proof fn lemma_name_bounds(v: Seq<char>, a: int, b: int, k: int)
    requires
        0 <= a <= b <= v.len(),
        k == a + first_index(v.skip(a), '='),
    ensures
        pair_name(v.subrange(a, b)) == v.subrange(a, if k < b {
            k
        } else {
            b
        }),
{
    let seg = v.subrange(a, b);
    lemma_first_index_le(v.skip(a), '=');
    let kk = if k < b {
        k
    } else {
        b
    };
    assert forall|j: int| 0 <= j < kk - a implies seg[j] != '=' by {
        assert(seg[j] == v.skip(a)[j]);
        lemma_first_index_min(v.skip(a), '=', j);
    }
    if k < b {
        assert(seg[k - a] == v.skip(a)[k - a]);
    }
    lemma_first_index_at(seg, '=', kk - a);
    if kk - a < seg.len() {
        assert(seg.take(kk - a) == v.subrange(a, kk));
    } else {
        assert(seg.take(kk - a) == seg);
    }
}

proof fn lemma_first_index_min(s: Seq<char>, c: char, j: int)
    requires
        0 <= j < first_index(s, c),
        j < s.len(),
    ensures
        s[j] != c,
    decreases s.len(),
{
    if j > 0 {
        assert(s.drop_first()[j - 1] == s[j]);
        lemma_first_index_min(s.drop_first(), c, j - 1);
    }
}

/// Whether `v[a..b]` equals `name`.
fn names_equal(v: &Vec<char>, a: usize, b: usize, name: &Vec<char>) -> (r: bool)
    requires
        a <= b <= v.len(),
    ensures
        r == (v@.subrange(a as int, b as int) == name@),
{
    if b - a != name.len() {
        return false;
    }
    let mut i: usize = 0;
    while i < name.len()
        invariant
            i <= name.len() == b - a,
            a <= b <= v.len(),
            forall|j: int| 0 <= j < i ==> v@[a + j] == name@[j],
        decreases name.len() - i,
    {
        if v[a + i] != name[i] {
            assert(v@.subrange(a as int, b as int)[i as int] != name@[i as int]);
            return false;
        }
        i = i + 1;
    }
    assert(v@.subrange(a as int, b as int) == name@);
    true
}

/// `text[a..b]` with every `%2E` read as a `.`; `v` holds the characters of
/// `text`.
fn unescape_range(text: &str, v: &Vec<char>, a: usize, b: usize) -> (r: String)
    requires
        v@ == text@,
        a <= b <= v.len(),
    ensures
        r@ == unescape_dots(v@.subrange(a as int, b as int)),
{
    let mut out = String::new();
    let mut i = a;
    proof {
        reveal_strlit(".");
    }
    assert(out@ + unescape_dots(v@.subrange(a as int, b as int)) == unescape_dots(
        v@.subrange(a as int, b as int),
    ));
    while i < b
        invariant
            a <= i <= b <= v.len(),
            v@ == text@,
            "."@ == seq!['.'],
            out@ + unescape_dots(v@.subrange(i as int, b as int)) == unescape_dots(
                v@.subrange(a as int, b as int),
            ),
        decreases b - i,
    {
        let ghost rest = v@.subrange(i as int, b as int);
        let ghost o = out@;
        if b - i > 2 && v[i] == '%' && v[i + 1] == '2' && v[i + 2] == 'E' {
            assert(rest.skip(3) == v@.subrange(i + 3, b as int));
            assert(rest[0] == '%' && rest[1] == '2' && rest[2] == 'E');
            out.append(".");
            assert(o + (seq!['.'] + unescape_dots(rest.skip(3))) == (o + seq!['.'])
                + unescape_dots(rest.skip(3)));
            i = i + 3;
        } else {
            assert(rest.skip(1) == v@.subrange(i + 1, b as int));
            assert(rest[0] == v@[i as int]);
            let one = text.substring_char(i, i + 1);
            assert(one@ == seq![v@[i as int]]);
            out.append(one);
            assert(o + (seq![rest[0]] + unescape_dots(rest.skip(1))) == (o + seq![rest[0]])
                + unescape_dots(rest.skip(1)));
            i = i + 1;
        }
    }
    assert(v@.subrange(b as int, b as int) == Seq::<char>::empty());
    assert(out@ + Seq::<char>::empty() == out@);
    out
}

/// The gateway parameters of a redirect address, from the pairs after its
/// last `?` (a later pair wins over an earlier one of the same name): the
/// user's address, the access controller's name, and the controller's
/// address with `%2E` read as `.`. A missing parameter is empty.
pub fn get_params(location: &str) -> (r: (String, String, String))
    ensures
        r.0@ == param_value(query_pairs(location@), "wlanuserip"@),
        r.1@ == param_value(query_pairs(location@), "wlanacname"@),
        r.2@ == unescape_dots(param_value(query_pairs(location@), "nasip"@)),
{
    let v = chars_of(location);
    let q = query_start(&v);
    let user_ip = chars_of("wlanuserip");
    let ac_name = chars_of("wlanacname");
    let nas_ip = chars_of("nasip");
    let (a0, b0) = param_bounds(&v, q, &user_ip);
    let (a1, b1) = param_bounds(&v, q, &ac_name);
    let (a2, b2) = param_bounds(&v, q, &nas_ip);
    (
        String::from_str(location.substring_char(a0, b0)),
        String::from_str(location.substring_char(a1, b1)),
        unescape_range(location, &v, a2, b2),
    )
}

} // verus!
