//! Character-level helpers: whitespace trimming, substring search and the
//! locale-free number formats used by the portal's tables.
use vstd::prelude::*;

verus! {

/// Whitespace removed around a table cell.
pub open spec fn is_ws(c: char) -> bool {
    c == ' ' || c == '\t' || c == '\n' || c == '\r'
}

pub open spec fn trim_start(s: Seq<char>) -> Seq<char>
    decreases s.len(),
{
    if s.len() > 0 && is_ws(s[0]) {
        trim_start(s.drop_first())
    } else {
        s
    }
}

pub open spec fn trim_end(s: Seq<char>) -> Seq<char>
    decreases s.len(),
{
    if s.len() > 0 && is_ws(s.last()) {
        trim_end(s.drop_last())
    } else {
        s
    }
}

/// A cell's text without surrounding whitespace.
pub open spec fn trim_ws(s: Seq<char>) -> Seq<char> {
    trim_end(trim_start(s))
}

/// `p` occurs in `s` as a contiguous run.
pub open spec fn has_infix(s: Seq<char>, p: Seq<char>) -> bool {
    exists|i: int| 0 <= i && i + p.len() <= s.len() && #[trigger] s.subrange(i, i + p.len()) == p
}

pub open spec fn has_char(s: Seq<char>, c: char) -> bool {
    exists|i: int| 0 <= i < s.len() && s[i] == c
}

pub open spec fn is_digit(c: char) -> bool {
    '0' <= c && c <= '9'
}

pub open spec fn all_digits(s: Seq<char>) -> bool {
    forall|i: int| 0 <= i < s.len() ==> is_digit(#[trigger] s[i])
}

pub open spec fn digit_value(c: char) -> nat {
    (c as int - '0' as int) as nat
}

/// The number that a run of decimal digits spells.
pub open spec fn digits_value(s: Seq<char>) -> nat
    decreases s.len(),
{
    if s.len() == 0 {
        0
    } else {
        digits_value(s.drop_last()) * 10 + digit_value(s.last())
    }
}

/// An unsigned integer cell: one or more decimal digits whose value fits in `u64`.
pub open spec fn parse_uint(s: Seq<char>) -> Option<u64> {
    if s.len() > 0 && all_digits(s) && digits_value(s) <= u64::MAX {
        Some(digits_value(s) as u64)
    } else {
        None
    }
}

/// Position of the first `c` in `s`, or `s.len()` when there is none.
pub open spec fn first_index(s: Seq<char>, c: char) -> nat
    decreases s.len(),
{
    if s.len() == 0 {
        0
    } else if s[0] == c {
        0
    } else {
        1 + first_index(s.drop_first(), c)
    }
}

pub open spec fn pow10(n: nat) -> nat
    decreases n,
{
    if n == 0 {
        1
    } else {
        10 * pow10((n - 1) as nat)
    }
}

/// Whole digits of a decimal cell (everything before the first point).
pub open spec fn whole_part(s: Seq<char>) -> Seq<char> {
    s.take(first_index(s, '.') as int)
}

/// Fractional digits of a decimal cell (everything after the first point).
pub open spec fn frac_part(s: Seq<char>) -> Seq<char> {
    if first_index(s, '.') < s.len() {
        s.skip(first_index(s, '.') as int + 1)
    } else {
        Seq::empty()
    }
}

/// Value of a decimal in thousandths, before the range check.
pub open spec fn milli_value(s: Seq<char>) -> nat {
    digits_value(whole_part(s)) * 1000 + digits_value(frac_part(s)) * pow10(
        (3 - frac_part(s).len()) as nat,
    )
}

/// A decimal cell in thousandths: digits, optionally a point and at most three
/// further digits ("28.997" is 28997, "0.5" is 500), with the value in `u64`.
pub open spec fn parse_milli(s: Seq<char>) -> Option<u64> {
    if whole_part(s).len() > 0 && all_digits(whole_part(s)) && all_digits(frac_part(s))
        && frac_part(s).len() <= 3 && milli_value(s) <= u64::MAX {
        Some(milli_value(s) as u64)
    } else {
        None
    }
}

pub fn chars_of(s: &str) -> (r: Vec<char>)
    ensures
        r@ == s@,
{
    let mut r: Vec<char> = Vec::new();
    for c in it: s.chars()
        invariant
            r@ == it.seq().take(it.index() as int),
            it.seq() == s@,
    {
        r.push(c);
    }
    r
}

/// The bounds of `v` without leading and trailing whitespace.
pub fn trim_bounds(v: &Vec<char>) -> (r: (usize, usize))
    ensures
        r.0 <= r.1 <= v.len(),
        v@.subrange(r.0 as int, r.1 as int) == trim_ws(v@),
{
    let n = v.len();
    let mut lo: usize = 0;
    assert(v@.subrange(0, n as int) == v@);
    while lo < n && (v[lo] == ' ' || v[lo] == '\t' || v[lo] == '\n' || v[lo] == '\r')
        invariant
            lo <= n == v.len(),
            trim_start(v@) == trim_start(v@.subrange(lo as int, n as int)),
        decreases n - lo,
    {
        assert(v@.subrange(lo as int, n as int).drop_first() == v@.subrange(lo + 1, n as int));
        lo = lo + 1;
    }
    assert(trim_start(v@) == v@.subrange(lo as int, n as int));
    let mut hi: usize = n;
    while hi > lo && (v[hi - 1] == ' ' || v[hi - 1] == '\t' || v[hi - 1] == '\n' || v[hi - 1]
        == '\r')
        invariant
            lo <= hi <= n == v.len(),
            trim_start(v@) == v@.subrange(lo as int, n as int),
            trim_end(trim_start(v@)) == trim_end(v@.subrange(lo as int, hi as int)),
        decreases hi - lo,
    {
        assert(v@.subrange(lo as int, hi as int).drop_last() == v@.subrange(
            lo as int,
            hi - 1,
        ));
        hi = hi - 1;
    }
    (lo, hi)
}

/// `s` without surrounding whitespace.
pub fn trim(s: &str) -> (r: Vec<char>)
    ensures
        r@ == trim_ws(s@),
{
    let v = chars_of(s);
    let (lo, hi) = trim_bounds(&v);
    let mut r: Vec<char> = Vec::new();
    let mut i = lo;
    while i < hi
        invariant
            lo <= i <= hi <= v.len(),
            r@ == v@.subrange(lo as int, i as int),
        decreases hi - i,
    {
        r.push(v[i]);
        i = i + 1;
    }
    r
}

pub fn contains_char(s: &str, c: char) -> (r: bool)
    ensures
        r == has_char(s@, c),
{
    let v = chars_of(s);
    let mut i: usize = 0;
    while i < v.len()
        invariant
            i <= v.len(),
            v@ == s@,
            forall|j: int| 0 <= j < i ==> v@[j] != c,
        decreases v.len() - i,
    {
        if v[i] == c {
            return true;
        }
        i = i + 1;
    }
    false
}

/// Whether `v[at..at + p.len()]` equals `p`.
fn matches_at(v: &Vec<char>, p: &Vec<char>, at: usize) -> (r: bool)
    requires
        at + p.len() <= v.len(),
    ensures
        r == (v@.subrange(at as int, at + p.len()) == p@),
{
    let mut k: usize = 0;
    while k < p.len()
        invariant
            k <= p.len(),
            at + p.len() <= v.len(),
            forall|j: int| 0 <= j < k ==> v@[at + j] == p@[j],
        decreases p.len() - k,
    {
        if v[at + k] != p[k] {
            assert(v@.subrange(at as int, at + p.len())[k as int] != p@[k as int]);
            return false;
        }
        k = k + 1;
    }
    assert(v@.subrange(at as int, at + p.len()) == p@);
    true
}

pub fn contains_seq(v: &Vec<char>, p: &Vec<char>) -> (r: bool)
    ensures
        r == has_infix(v@, p@),
{
    if p.len() > v.len() {
        return false;
    }
    if p.len() == 0 {
        assert(v@.subrange(0int, 0int + p@.len()) == p@);
        return true;
    }
    let mut i: usize = 0;
    while i <= v.len() - p.len()
        invariant
            0 < p.len() <= v.len(),
            i <= v.len() - p.len() + 1,
            forall|j: int| 0 <= j < i ==> #[trigger] v@.subrange(j, j + p.len()) != p@,
        decreases v.len() - p.len() + 1 - i,
    {
        if matches_at(v, p, i) {
            return true;
        }
        i = i + 1;
    }
    false
}

/// Whether `text` holds `pattern` as a contiguous run of characters.
pub fn contains_str(text: &str, pattern: &str) -> (r: bool)
    ensures
        r == has_infix(text@, pattern@),
{
    let v = chars_of(text);
    let p = chars_of(pattern);
    contains_seq(&v, &p)
}

pub proof fn lemma_digits_prefix(s: Seq<char>, i: int)
    requires
        0 <= i < s.len(),
    ensures
        digits_value(s.take(i + 1)) == digits_value(s.take(i)) * 10 + digit_value(s[i]),
{
    assert(s.take(i + 1).drop_last() == s.take(i));
}

pub proof fn lemma_digits_grow(s: Seq<char>, i: int, j: int)
    requires
        0 <= i <= j <= s.len(),
    ensures
        digits_value(s.take(i)) <= digits_value(s.take(j)),
    decreases j - i,
{
    if i < j {
        lemma_digits_grow(s, i, j - 1);
        lemma_digits_prefix(s, j - 1);
    }
}

/// The value of the digits `v[lo..hi]`, when they are all digits and it fits in `u64`.
pub fn digits_in(v: &Vec<char>, lo: usize, hi: usize) -> (r: Option<u64>)
    requires
        lo <= hi <= v.len(),
    ensures
        r == (if all_digits(v@.subrange(lo as int, hi as int)) && digits_value(
            v@.subrange(lo as int, hi as int),
        ) <= u64::MAX {
            Some(digits_value(v@.subrange(lo as int, hi as int)) as u64)
        } else {
            None
        }),
{
    let ghost s = v@.subrange(lo as int, hi as int);
    let mut acc: u64 = 0;
    let mut i = lo;
    while i < hi
        invariant
            lo <= i <= hi <= v.len(),
            s == v@.subrange(lo as int, hi as int),
            all_digits(s.take(i - lo)),
            acc == digits_value(s.take(i - lo)),
        decreases hi - i,
    {
        let c = v[i];
        if !('0' <= c && c <= '9') {
            assert(!is_digit(s[i - lo]));
            return None;
        }
        let d = (c as u32 - '0' as u32) as u64;
        proof {
            lemma_digits_prefix(s, i - lo);
            assert(s.take(i - lo + 1).drop_last() == s.take(i - lo));
        }
        if acc > (u64::MAX - d) / 10 {
            proof {
                assert(acc * 10 + d > u64::MAX) by (nonlinear_arith)
                    requires
                        acc > (u64::MAX - d) / 10,
                        d <= 9,
                ;
                lemma_digits_grow(s, i - lo + 1, s.len() as int);
                assert(s.take(s.len() as int) == s);
            }
            return None;
        }
        acc = acc * 10 + d;
        i = i + 1;
        proof {
            assert forall|k: int| 0 <= k < s.take(i - lo).len() implies is_digit(
                #[trigger] s.take(i - lo)[k],
            ) by {
                if k < i - lo - 1 {
                    assert(s.take(i - lo)[k] == s.take(i - lo - 1)[k]);
                }
            }
        }
    }
    assert(s.take(hi - lo) == s);
    Some(acc)
}

/// Parses an unsigned integer cell, surrounding whitespace allowed.
pub fn parse_uint_cell(s: &str) -> (r: Option<u64>)
    ensures
        r == parse_uint(trim_ws(s@)),
{
    let t = trim(s);
    if t.len() == 0 {
        return None;
    }
    let r = digits_in(&t, 0, t.len());
    assert(t@.subrange(0, t.len() as int) == t@);
    r
}

/// Index of the first `c` in `v`, or `v.len()`.
pub fn find_char(v: &Vec<char>, c: char) -> (r: usize)
    ensures
        r == first_index(v@, c),
        r <= v.len(),
{
    let mut i: usize = 0;
    assert(v@.skip(0) == v@);
    while i < v.len() && v[i] != c
        invariant
            i <= v.len(),
            first_index(v@, c) == i + first_index(v@.skip(i as int), c),
        decreases v.len() - i,
    {
        assert(v@.skip(i as int).drop_first() == v@.skip(i + 1));
        i = i + 1;
    }
    i
}

pub proof fn lemma_pow10_small(n: nat)
    requires
        n <= 3,
    ensures
        pow10(n) <= 1000,
        pow10(n) >= 1,
{
    reveal_with_fuel(pow10, 4);
}

/// Parses a decimal cell into thousandths, surrounding whitespace allowed.
pub fn parse_milli_cell(s: &str) -> (r: Option<u64>)
    ensures
        r == parse_milli(trim_ws(s@)),
{
    let t = trim(s);
    let ghost ts = t@;
    let k = find_char(&t, '.');
    assert(whole_part(ts) == t@.subrange(0, k as int));
    if k == 0 {
        return None;
    }
    let whole = match digits_in(&t, 0, k) {
        Some(w) => w,
        None => {
            assert(milli_value(ts) >= digits_value(whole_part(ts)) * 1000);
            return None;
        },
    };
    let flo = if k < t.len() {
        k + 1
    } else {
        k
    };
    assert(frac_part(ts) == t@.subrange(flo as int, t.len() as int));
    if t.len() - flo > 3 {
        return None;
    }
    let frac = match digits_in(&t, flo, t.len()) {
        Some(f) => f,
        None => {
            proof {
                if all_digits(frac_part(ts)) {
                    lemma_digits_bound(frac_part(ts));
                    lemma_pow10_small(frac_part(ts).len());
                }
            }
            return None;
        },
    };
    let flen = t.len() - flo;
    proof {
        lemma_pow10_small((3 - flen) as nat);
        reveal_with_fuel(pow10, 4);
    }
    let scale: u64 = if flen == 0 {
        1000
    } else if flen == 1 {
        100
    } else if flen == 2 {
        10
    } else {
        1
    };
    assert(scale == pow10((3 - flen) as nat));
    assert(frac < 1000) by {
        lemma_digits_bound(frac_part(ts));
        reveal_with_fuel(pow10, 4);
    }
    assert(frac * scale <= 1000000) by (nonlinear_arith)
        requires
            frac < 1000,
            scale <= 1000,
    ;
    let fpart = frac * scale;
    if whole > (u64::MAX - fpart) / 1000 {
        assert(whole * 1000 + fpart > u64::MAX) by (nonlinear_arith)
            requires
                whole > (u64::MAX - fpart) / 1000,
                fpart <= u64::MAX,
        ;
        return None;
    }
    Some(whole * 1000 + fpart)
}

/// Digits of a run of length `n` spell less than `10^n`.
pub proof fn lemma_digits_bound(s: Seq<char>)
    requires
        all_digits(s),
    ensures
        digits_value(s) < pow10(s.len()),
    decreases s.len(),
{
    if s.len() > 0 {
        let p = s.drop_last();
        assert(all_digits(p)) by {
            assert forall|i: int| 0 <= i < p.len() implies is_digit(#[trigger] p[i]) by {
                assert(p[i] == s[i]);
            }
        }
        lemma_digits_bound(p);
        assert(is_digit(s[s.len() - 1]));
    }
}

/// A signed 32-bit integer: an optional sign, then one or more digits.
pub open spec fn parse_i32(s: Seq<char>) -> Option<i32> {
    let signed = s.len() > 0 && (s[0] == '-' || s[0] == '+');
    let digits = if signed {
        s.skip(1)
    } else {
        s
    };
    let v: int = if signed && s[0] == '-' {
        -digits_value(digits)
    } else {
        digits_value(digits) as int
    };
    if digits.len() > 0 && all_digits(digits) && i32::MIN <= v <= i32::MAX {
        Some(v as i32)
    } else {
        None
    }
}

pub fn parse_i32_text(s: &str) -> (r: Option<i32>)
    ensures
        r == parse_i32(s@),
{
    let v = chars_of(s);
    let signed = v.len() > 0 && (v[0] == '-' || v[0] == '+');
    let lo: usize = if signed {
        1
    } else {
        0
    };
    assert(v@.subrange(lo as int, v.len() as int) == if signed {
        s@.skip(1)
    } else {
        s@
    });
    if lo >= v.len() {
        return None;
    }
    match digits_in(&v, lo, v.len()) {
        Some(d) => {
            if signed && v[0] == '-' {
                if d <= 2147483648 {
                    Some((0 - (d as i64)) as i32)
                } else {
                    None
                }
            } else if d <= 2147483647 {
                Some(d as i32)
            } else {
                None
            }
        },
        None => None,
    }
}

} // verus!
