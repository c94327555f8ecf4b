//! Unsigned decimal numerals, read exactly as integers.
use vstd::prelude::*;

use crate::text::{fold_all, lemma_fold_all_cut};

verus! {

/// Whole parts above this bound are all equally out of range for every caller.
pub const WHOLE_CAP: u64 = 1_000_000;

/// A decimal digit.
pub open spec fn is_digit(b: u8) -> bool {
    48 <= b <= 57
}

/// Every byte of `s` is a decimal digit.
pub open spec fn all_digits(s: Seq<u8>) -> bool {
    forall|i: int| 0 <= i < s.len() ==> is_digit(#[trigger] s[i])
}

/// The number written by the decimal digits `s` (most significant first).
pub open spec fn digits_value(s: Seq<u8>) -> nat
    decreases s.len(),
{
    if s.len() == 0 {
        0
    } else {
        digits_value(s.drop_last()) * 10 + (s.last() - 48) as nat
    }
}

/// `10^k`.
pub open spec fn pow10(k: nat) -> nat
    decreases k,
{
    if k == 0 {
        1
    } else {
        10 * pow10((k - 1) as nat)
    }
}

/// The index of the first `.` in `s`, or `s.len()` when there is none.
pub open spec fn dot_index(s: Seq<u8>) -> int
    decreases s.len(),
{
    if s.len() == 0 {
        0
    } else if s[0] == 46 {
        0
    } else {
        1 + dot_index(s.drop_first())
    }
}

/// The smaller of `a` and `b`.
pub open spec fn min_nat(a: nat, b: nat) -> nat {
    if a <= b {
        a
    } else {
        b
    }
}

/// A numeral `digits [. digits]`, as `(whole, fraction, places)`: its value is
/// `whole + fraction / 10^places`. At most `limit` fraction digits are read; what
/// follows them is not looked at, except that with `tail` one more byte must be a digit.
pub open spec fn numeral(s: Seq<u8>, limit: nat, tail: bool) -> Option<(nat, nat, nat)> {
    let d = dot_index(s);
    let whole = s.take(d);
    if !all_digits(whole) {
        None
    } else if d == s.len() {
        Some((digits_value(whole), 0, 0))
    } else {
        let rest = s.skip(d + 1);
        let k = min_nat(limit, rest.len());
        let checked = if tail && rest.len() > limit {
            rest.take((limit + 1) as int)
        } else {
            rest.take(k as int)
        };
        if all_digits(checked) {
            Some((digits_value(whole), digits_value(rest.take(k as int)), k))
        } else {
            None
        }
    }
}

/// `round(num / den)`, halves rounded up.
pub open spec fn round_half_up(num: nat, den: nat) -> nat {
    (2 * num + den) / (2 * den)
}

/// `10^k` is at least 1.
pub proof fn lemma_pow10_positive(k: nat)
    ensures
        pow10(k) >= 1,
    decreases k,
{
    if k > 0 {
        lemma_pow10_positive((k - 1) as nat);
    }
}

/// `k` digits stand for less than `10^k`.
pub proof fn lemma_digits_value_bound(s: Seq<u8>)
    requires
        all_digits(s),
    ensures
        digits_value(s) < pow10(s.len()),
    decreases s.len(),
{
    if s.len() > 0 {
        lemma_digits_value_bound(s.drop_last());
    }
}

/// The first `.` of `s` is at `d` when no byte before `d` is one.
pub proof fn lemma_dot_index(s: Seq<u8>, d: int)
    requires
        0 <= d <= s.len(),
        forall|j: int| 0 <= j < d ==> s[j] != 46,
        d < s.len() ==> s[d] == 46,
    ensures
        dot_index(s) == d,
    decreases d,
{
    if d > 0 {
        lemma_dot_index(s.drop_first(), d - 1);
    }
}

/// `10^k` for `k <= 9`.
pub fn pow10_exec(k: usize) -> (r: u64)
    requires
        k <= 9,
    ensures
        r == pow10(k as nat),
{
    let mut r: u64 = 1;
    let mut i: usize = 0;
    while i < k
        invariant
            i <= k <= 9,
            r == pow10(i as nat),
            r <= 1_000_000_000,
        decreases k - i,
    {
        assert(pow10((i + 1) as nat) == 10 * pow10(i as nat));
        proof {
            lemma_pow10_mono((i + 1) as nat, 9);
            reveal_with_fuel(pow10, 10);
        }
        r = r * 10;
        i = i + 1;
    }
    r
}

/// Reads the numeral `s[lo..hi]` (see `numeral`); the whole part comes back capped at `WHOLE_CAP`.
pub fn scan_numeral(s: &[u8], lo: usize, hi: usize, limit: usize, tail: bool) -> (r: Option<
    (u64, u64, usize),
>)
    requires
        lo <= hi <= s@.len(),
        limit <= 9,
    ensures
        match numeral(s@.subrange(lo as int, hi as int), limit as nat, tail) {
            None => r is None,
            Some((w, f, k)) => r == Some((min_nat(w, WHOLE_CAP as nat) as u64, f as u64, k as usize)),
        },
{
    let ghost t = s@.subrange(lo as int, hi as int);
    let mut i = lo;
    let mut whole: u64 = 0;
    while i < hi && s[i] != 46
        invariant
            lo <= i <= hi <= s@.len(),
            t == s@.subrange(lo as int, hi as int),
            forall|j: int| 0 <= j < i - lo ==> t[j] != 46,
            all_digits(t.take(i - lo)),
            whole == min_nat(digits_value(t.take(i - lo)), WHOLE_CAP as nat),
        decreases hi - i,
    {
        let b = s[i];
        if b < 48 || b > 57 {
            proof {
                lemma_dot_index_props(t);
                assert(t[i - lo] == b);
                assert(dot_index(t) > i - lo);
                assert(t.take(dot_index(t))[i - lo] == b);
            }
            return None;
        }
        assert(t.take(i - lo + 1).drop_last() =~= t.take(i - lo));
        let next = whole * 10 + (b - 48) as u64;
        whole = if next > WHOLE_CAP { WHOLE_CAP } else { next };
        i = i + 1;
    }
    proof {
        lemma_dot_index(t, i - lo);
    }
    if i == hi {
        assert(t.take(i - lo) =~= t);
        return Some((whole, 0, 0));
    }
    let ghost rest = t.skip(i - lo + 1);
    let start = i + 1;
    let avail = hi - start;
    let k = if limit < avail { limit } else { avail };
    let mut frac: u64 = 0;
    let mut j: usize = 0;
    while j < k
        invariant
            lo <= i < hi <= s@.len(),
            start == i + 1,
            avail == hi - start,
            k <= limit <= 9,
            k <= avail,
            j <= k,
            t == s@.subrange(lo as int, hi as int),
            rest == t.skip(i - lo + 1),
            dot_index(t) == i - lo,
            all_digits(t.take(i - lo)),
            whole == min_nat(digits_value(t.take(i - lo)), WHOLE_CAP as nat),
            all_digits(rest.take(j as int)),
            frac == digits_value(rest.take(j as int)),
        decreases k - j,
    {
        let b = s[start + j];
        assert(rest[j as int] == b);
        if b < 48 || b > 57 {
            assert(rest.take(k as int)[j as int] == b);
            assert(tail && rest.len() > limit ==> rest.take((limit + 1) as int)[j as int] == b);
            return None;
        }
        assert(rest.take(j + 1).drop_last() =~= rest.take(j as int));
        proof {
            lemma_digits_value_bound(rest.take(j as int));
            lemma_pow_bound(j as nat);
        }
        frac = frac * 10 + (b - 48) as u64;
        j = j + 1;
    }
    if tail && avail > limit {
        let b = s[start + limit];
        assert(rest[limit as int] == b);
        if b < 48 || b > 57 {
            assert(rest.take((limit + 1) as int)[limit as int] == b);
            return None;
        }
        assert forall|m: int| 0 <= m < limit + 1 implies is_digit(#[trigger] rest.take((limit + 1) as int)[m]) by {
            if m < limit {
                assert(rest.take((limit + 1) as int)[m] == rest.take(k as int)[m]);
            }
        }
    }
    Some((whole, frac, k))
}

/// The numeral `s[lo..hi]` as `(n, d)`, value `n / d` with `d = 10^places`, when its whole
/// part is at most `max`.
pub fn fraction_checked(s: &[u8], lo: usize, hi: usize, limit: usize, tail: bool, max: u64) -> (r:
    Option<(u64, u64)>)
    requires
        lo <= hi <= s@.len(),
        limit <= 4,
        max <= 1000,
    ensures
        match numeral(s@.subrange(lo as int, hi as int), limit as nat, tail) {
            Some((w, f, k)) => if w <= max {
                &&& r == Some(((w * pow10(k) + f) as u64, pow10(k) as u64))
                &&& f < pow10(k)
                &&& 1 <= pow10(k) <= 10000
                &&& w * pow10(k) + f < (max + 1) * pow10(k)
            } else {
                r is None
            },
            None => r is None,
        },
        r matches Some((n, d)) ==> 1 <= d <= 10000 && n < (max + 1) * d,
{
    let ghost t = s@.subrange(lo as int, hi as int);
    match scan_numeral(s, lo, hi, limit, tail) {
        None => None,
        Some((w, f, k)) => {
            proof {
                let (ws, fs, ks) = numeral(t, limit as nat, tail).unwrap();
                lemma_numeral_parts(t, limit as nat, tail);
                lemma_pow10_mono(ks, 4);
                reveal_with_fuel(pow10, 5);
                lemma_pow10_positive(ks);
            }
            if w > max {
                None
            } else {
                let d = pow10_exec(k);
                proof {
                    let (ws, fs, ks) = numeral(t, limit as nat, tail).unwrap();
                    assert(ws * pow10(ks) <= 1000 * 10000) by (nonlinear_arith)
                        requires
                            ws <= 1000,
                            pow10(ks) <= 10000,
                    ;
                    assert(w == ws);
                    assert(w * d == ws * pow10(ks));
                    assert(ws * pow10(ks) + fs < (max + 1) * pow10(ks)) by (nonlinear_arith)
                        requires
                            ws <= max,
                            fs < pow10(ks),
                    ;
                }
                Some((w * d + f, d))
            }
        },
    }
}

/// What `numeral` gives back: at most `limit` places and a fraction below `10^places`.
pub proof fn lemma_numeral_parts(t: Seq<u8>, limit: nat, tail: bool)
    requires
        numeral(t, limit, tail) is Some,
    ensures
        ({
            let (w, f, k) = numeral(t, limit, tail).unwrap();
            k <= limit && f < pow10(k)
        }),
{
    let d = dot_index(t);
    if d != t.len() {
        let rest = t.skip(d + 1);
        let k = min_nat(limit, rest.len());
        lemma_digits_value_bound(rest.take(k as int));
    } else {
        lemma_pow10_positive(0);
    }
}

proof fn lemma_pow_bound(j: nat)
    requires
        j < 9,
    ensures
        pow10(j) * 10 <= 1_000_000_000,
{
    lemma_pow10_mono(j, 8);
    reveal_with_fuel(pow10, 9);
}

/// `10^a <= 10^b` for `a <= b`.
pub proof fn lemma_pow10_mono(a: nat, b: nat)
    requires
        a <= b,
    ensures
        pow10(a) <= pow10(b),
    decreases b,
{
    if a < b {
        lemma_pow10_mono(a, (b - 1) as nat);
        lemma_pow10_positive((b - 1) as nat);
    }
}

proof fn lemma_dot_index_props(s: Seq<u8>)
    ensures
        0 <= dot_index(s) <= s.len(),
        dot_index(s) < s.len() ==> s[dot_index(s)] == 46,
        forall|j: int| 0 <= j < dot_index(s) ==> s[j] != 46,
    decreases s.len(),
{
    if s.len() > 0 && s[0] != 46 {
        lemma_dot_index_props(s.drop_first());
        assert forall|j: int| 0 <= j < dot_index(s) implies s[j] != 46 by {
            if j > 0 {
                assert(s[j] == s.drop_first()[j - 1]);
            }
        }
    }
}

proof fn lemma_fold_dot_index(s: Seq<u8>)
    ensures
        dot_index(fold_all(s)) == dot_index(s),
    decreases s.len(),
{
    if s.len() > 0 {
        lemma_fold_all_cut(s, 1, 1);
        lemma_fold_dot_index(s.drop_first());
        assert(s.drop_first() =~= s.skip(1));
        assert(fold_all(s).drop_first() =~= fold_all(s).skip(1));
    }
}

/// Digits are no letters: lower-casing leaves them as they are.
proof fn lemma_fold_digits(s: Seq<u8>)
    ensures
        all_digits(fold_all(s)) == all_digits(s),
        all_digits(s) ==> fold_all(s) == s,
{
    if all_digits(s) {
        assert(fold_all(s) =~= s);
    }
    if all_digits(fold_all(s)) {
        assert forall|i: int| 0 <= i < s.len() implies is_digit(#[trigger] s[i]) by {
            assert(is_digit(fold_all(s)[i]));
        }
    }
}

/// A numeral reads the same lower-cased.
pub proof fn lemma_fold_numeral(s: Seq<u8>, limit: nat, tail: bool)
    ensures
        numeral(fold_all(s), limit, tail) == numeral(s, limit, tail),
{
    let f = fold_all(s);
    let d = dot_index(s);
    lemma_fold_dot_index(s);
    lemma_dot_index_props(s);
    lemma_fold_all_cut(s, d, d);
    lemma_fold_digits(s.take(d));
    if d < s.len() {
        let rest = s.skip(d + 1);
        lemma_fold_all_cut(s, d + 1, d + 1);
        let k = min_nat(limit, rest.len());
        lemma_fold_all_cut(rest, k as int, k as int);
        lemma_fold_digits(rest.take(k as int));
        if tail && rest.len() > limit {
            lemma_fold_all_cut(rest, (limit + 1) as int, (limit + 1) as int);
            lemma_fold_digits(rest.take((limit + 1) as int));
            if all_digits(rest.take((limit + 1) as int)) {
                assert forall|i: int| 0 <= i < k implies is_digit(#[trigger] rest.take(k as int)[i]) by {
                    assert(rest.take(k as int)[i] == rest.take((limit + 1) as int)[i]);
                }
            }
        }
    }
}

} // verus!
