//! The numbers inside `rgb()`, `rgba()`, `hsl()` and `hsla()`.
use vstd::prelude::*;

use crate::text::{
    ends_with_fold, ends_with_fold_exec, fold_all, lemma_fold_all_cut, lemma_fold_eq_fold,
};
use crate::decimal::{
    dot_index, lemma_digits_value_bound, lemma_fold_numeral, lemma_pow10_mono, lemma_pow10_positive, min_nat, numeral,
    pow10, pow10_exec, round_half_up, scan_numeral,
};

verus! {

/// The numeral `s` read with at most four fraction digits, as `(n, d)`: its value is `n / d`.
pub open spec fn fraction_of(s: Seq<u8>) -> Option<(nat, nat)> {
    match numeral(s, 4, false) {
        Some((w, f, k)) => Some((w * pow10(k) + f, pow10(k))),
        None => None,
    }
}

/// A colour channel: a number of at most six bytes, at most 255.9, rounded half up and
/// capped at 255.
pub open spec fn css_channel(s: Seq<u8>) -> Option<u8> {
    if s.len() == 0 || s.len() > 6 {
        None
    } else {
        match fraction_of(s) {
            Some((n, d)) => if 10 * n <= 2559 * d {
                Some(min_nat(round_half_up(n, d), 255) as u8)
            } else {
                None
            },
            None => None,
        }
    }
}

/// A percentage `x%` of at most six bytes with `0 <= x <= 100`, as `(n, d)` with
/// `x = n / d`; a leading `-` is allowed only on zero.
pub open spec fn css_percent(s: Seq<u8>) -> Option<(nat, nat)> {
    if s.len() < 2 || s.len() > 6 || s.last() != 37 {
        None
    } else {
        let body = s.drop_last();
        let neg = body[0] == 45;
        if neg && body.len() == 1 {
            None
        } else {
            match fraction_of(if neg { body.drop_first() } else { body }) {
                Some((n, d)) => if n <= 100 * d && (!neg || n == 0) {
                    Some((n, d))
                } else {
                    None
                },
                None => None,
            }
        }
    }
}

/// An alpha value: a percentage, or a number of at most eight bytes between 0 and 1;
/// scaled to `0..=255` and rounded half up.
pub open spec fn css_alpha(s: Seq<u8>) -> Option<u8> {
    if s.len() == 0 {
        None
    } else if s.last() == 37 {
        match css_percent(s) {
            Some((n, d)) => Some(round_half_up(n * 255, d * 100) as u8),
            None => None,
        }
    } else if s.len() > 8 {
        None
    } else {
        match fraction_of(s) {
            Some((n, d)) => if n <= d {
                Some(round_half_up(n * 255, d) as u8)
            } else {
                None
            },
            None => None,
        }
    }
}

/// `grad`.
pub open spec fn unit_grad() -> Seq<u8> {
    seq![103u8, 114u8, 97u8, 100u8]
}

/// `turn`.
pub open spec fn unit_turn() -> Seq<u8> {
    seq![116u8, 117u8, 114u8, 110u8]
}

/// `deg`.
pub open spec fn unit_deg() -> Seq<u8> {
    seq![100u8, 101u8, 103u8]
}

/// `rad`.
pub open spec fn unit_rad() -> Seq<u8> {
    seq![114u8, 97u8, 100u8]
}

/// An angle without its unit (`grad`, `turn`, `deg` or `rad`, in any case).
pub open spec fn angle_number(s: Seq<u8>) -> Seq<u8> {
    if ends_with_fold(s, unit_grad()) || ends_with_fold(s, unit_turn()) {
        s.take(s.len() - 4)
    } else if ends_with_fold(s, unit_deg()) || ends_with_fold(s, unit_rad()) {
        s.take(s.len() - 3)
    } else {
        s
    }
}

/// A numeral of at most eight bytes, with an optional leading `-`.
pub open spec fn signed_numeral_ok(s: Seq<u8>) -> bool {
    &&& 0 < s.len() <= 8
    &&& (s[0] == 45 ==> s.len() > 1)
    &&& numeral(if s[0] == 45 { s.drop_first() } else { s }, 4, false) is Some
}

/// A hue: a signed numeral, optionally followed by an angle unit.
pub open spec fn css_hue_ok(s: Seq<u8>) -> bool {
    s.len() > 0 && signed_numeral_ok(angle_number(s))
}

/// The numeral `s[lo..hi]` as `(n, d)` (see `fraction_of`), when its whole part is at most `max`.
fn fraction_exec(s: &[u8], lo: usize, hi: usize, max: u64) -> (r: Option<(u64, u64)>)
    requires
        lo <= hi <= s@.len(),
        max <= 1000,
    ensures
        match fraction_of(s@.subrange(lo as int, hi as int)) {
            Some((n, d)) => if n < (max + 1) * d {
                r == Some((n as u64, d as u64))
            } else {
                r is None
            },
            None => r is None,
        },
        fraction_of(s@.subrange(lo as int, hi as int)) matches Some((n, d)) ==> 1 <= d <= 10000,
        r matches Some((n, d)) ==> 1 <= d <= 10000 && n < (max + 1) * d,
{
    proof {
        lemma_fraction_denominator(s@.subrange(lo as int, hi as int));
    }
    match scan_numeral(s, lo, hi, 4, false) {
        None => None,
        Some((w, f, k)) => {
            let ghost t = s@.subrange(lo as int, hi as int);
            proof {
                let (ws, fs, ks) = numeral(t, 4, false).unwrap();
                lemma_numeral_frac_bound(t);
                lemma_pow10_mono(ks, 4);
                reveal_with_fuel(pow10, 5);
                lemma_pow10_positive(ks);
            }
            let d = pow10_exec(k);
            if w > max {
                proof {
                    let (ws, fs, ks) = numeral(t, 4, false).unwrap();
                    let dd = pow10(ks);
                    assert(ws * dd + fs >= (max + 1) * dd) by (nonlinear_arith)
                        requires
                            ws >= max + 1,
                            dd >= 1,
                    ;
                }
                None
            } else {
                proof {
                    let (ws, fs, ks) = numeral(t, 4, false).unwrap();
                    assert(ws * pow10(ks) <= 1000 * 10000) by (nonlinear_arith)
                        requires
                            ws <= 1000,
                            pow10(ks) <= 10000,
                    ;
                    assert(ws * pow10(ks) + fs < (max + 1) * pow10(ks)) by (nonlinear_arith)
                        requires
                            ws <= max,
                            fs < pow10(ks),
                    ;
                    assert(w == ws);
                    assert(w * d == ws * pow10(ks));
                }
                Some((w * d + f, d))
            }
        },
    }
}

proof fn lemma_fraction_denominator(t: Seq<u8>)
    ensures
        fraction_of(t) matches Some((n, d)) ==> 1 <= d <= 10000,
{
    if let Some((w, f, k)) = numeral(t, 4, false) {
        lemma_numeral_frac_bound(t);
        lemma_pow10_mono(k, 4);
        reveal_with_fuel(pow10, 5);
        lemma_pow10_positive(k);
    }
}

proof fn lemma_numeral_frac_bound(t: Seq<u8>)
    requires
        numeral(t, 4, false) is Some,
    ensures
        ({
            let (w, f, k) = numeral(t, 4, false).unwrap();
            k <= 4 && f < pow10(k)
        }),
{
    let d = dot_index(t);
    if d != t.len() {
        let rest = t.skip(d + 1);
        let k = min_nat(4, rest.len());
        lemma_digits_value_bound(rest.take(k as int));
    }
}

/// A colour channel (see `css_channel`).
pub fn css_channel_exec(s: &[u8], lo: usize, hi: usize) -> (r: Option<u8>)
    requires
        lo <= hi <= s@.len(),
    ensures
        r == css_channel(s@.subrange(lo as int, hi as int)),
{
    if hi == lo || hi - lo > 6 {
        return None;
    }
    match fraction_exec(s, lo, hi, 255) {
        Some((n, d)) => {
            if 10 * n <= 2559 * d {
                let v = (2 * n + d) / (2 * d);
                Some(if v > 255 { 255 } else { v as u8 })
            } else {
                None
            }
        },
        None => {
            proof {
                let t = s@.subrange(lo as int, hi as int);
                if let Some((n, d)) = fraction_of(t) {
                    assert(10 * n > 2559 * d) by (nonlinear_arith)
                        requires
                            n >= 256 * d,
                            d >= 1,
                    ;
                }
            }
            None
        },
    }
}

/// A percentage (see `css_percent`).
pub fn css_percent_exec(s: &[u8], lo: usize, hi: usize) -> (r: Option<(u64, u64)>)
    requires
        lo <= hi <= s@.len(),
    ensures
        match css_percent(s@.subrange(lo as int, hi as int)) {
            Some((n, d)) => r == Some((n as u64, d as u64)),
            None => r is None,
        },
        r matches Some((n, d)) ==> 1 <= d <= 10000 && n <= 100 * d,
        css_percent(s@.subrange(lo as int, hi as int)) matches Some((n, d)) ==> 1 <= d <= 10000 && n
            <= 100 * d,
{
    let ghost t = s@.subrange(lo as int, hi as int);
    if hi - lo < 2 || hi - lo > 6 || s[hi - 1] != 37 {
        return None;
    }
    let neg = s[lo] == 45;
    assert(t.drop_last()[0] == s@[lo as int]);
    if neg && hi - lo == 2 {
        return None;
    }
    let start = if neg { lo + 1 } else { lo };
    assert(s@.subrange(start as int, hi - 1) =~= (if neg { t.drop_last().drop_first() } else {
        t.drop_last()
    }));
    match fraction_exec(s, start, hi - 1, 100) {
        Some((n, d)) => {
            if n <= 100 * d && (!neg || n == 0) {
                Some((n, d))
            } else {
                None
            }
        },
        None => {
            proof {
                if let Some((n, d)) = fraction_of(s@.subrange(start as int, hi - 1)) {
                    assert(n > 100 * d) by (nonlinear_arith)
                        requires
                            n >= 101 * d,
                            d >= 1,
                    ;
                }
            }
            None
        },
    }
}

/// An alpha value (see `css_alpha`).
pub fn css_alpha_exec(s: &[u8], lo: usize, hi: usize) -> (r: Option<u8>)
    requires
        lo <= hi <= s@.len(),
    ensures
        r == css_alpha(s@.subrange(lo as int, hi as int)),
{
    let ghost t = s@.subrange(lo as int, hi as int);
    if hi == lo {
        return None;
    }
    if s[hi - 1] == 37 {
        match css_percent_exec(s, lo, hi) {
            Some((n, d)) => {
                proof {
                    assert((2 * (n * 255) + d * 100) / (2 * (d * 100)) <= 255) by (nonlinear_arith)
                        requires
                            n <= 100 * d,
                            d >= 1,
                    ;
                    let (pn, pd) = css_percent(t).unwrap();
                    assert(pn == n && pd == d);
                    assert(round_half_up(pn * 255, pd * 100) == (2 * (n * 255) + d * 100) / (2 * (d
                        * 100)));
                }
                Some(((2 * (n * 255) + d * 100) / (2 * (d * 100))) as u8)
            },
            None => None,
        }
    } else if hi - lo > 8 {
        None
    } else {
        match fraction_exec(s, lo, hi, 1) {
            Some((n, d)) => {
                if n <= d {
                    proof {
                        assert((2 * (n * 255) + d) / (2 * d) <= 255) by (nonlinear_arith)
                            requires
                                n <= d,
                                d >= 1,
                        ;
                        let (pn, pd) = fraction_of(t).unwrap();
                        assert(pn == n && pd == d);
                        assert(round_half_up(pn * 255, pd) == (2 * (n * 255) + d) / (2 * d));
                    }
                    Some(((2 * (n * 255) + d) / (2 * d)) as u8)
                } else {
                    None
                }
            },
            None => {
                proof {
                    if let Some((n, d)) = fraction_of(t) {
                        assert(n > d) by (nonlinear_arith)
                            requires
                                n >= 2 * d,
                                d >= 1,
                        ;
                    }
                }
                None
            },
        }
    }
}

/// A hue (see `css_hue_ok`).
pub fn css_hue_ok_exec(s: &[u8], lo: usize, hi: usize) -> (r: bool)
    requires
        lo <= hi <= s@.len(),
    ensures
        r == css_hue_ok(s@.subrange(lo as int, hi as int)),
{
    let ghost t = s@.subrange(lo as int, hi as int);
    if hi == lo {
        return false;
    }
    let grad: [u8; 4] = [103, 114, 97, 100];
    let turn: [u8; 4] = [116, 117, 114, 110];
    let deg: [u8; 3] = [100, 101, 103];
    let rad: [u8; 3] = [114, 97, 100];
    assert(grad@ == unit_grad());
    assert(turn@ == unit_turn());
    assert(deg@ == unit_deg());
    assert(rad@ == unit_rad());
    let end = if ends_with_fold_exec(s, lo, hi, grad.as_slice()) || ends_with_fold_exec(
        s,
        lo,
        hi,
        turn.as_slice(),
    ) {
        hi - 4
    } else if ends_with_fold_exec(s, lo, hi, deg.as_slice()) || ends_with_fold_exec(
        s,
        lo,
        hi,
        rad.as_slice(),
    ) {
        hi - 3
    } else {
        hi
    };
    assert(s@.subrange(lo as int, end as int) =~= angle_number(t));
    let n = end - lo;
    if n == 0 || n > 8 {
        return false;
    }
    let neg = s[lo] == 45;
    if neg && n == 1 {
        return false;
    }
    let start = if neg { lo + 1 } else { lo };
    assert(s@.subrange(start as int, end as int) =~= (if neg {
        angle_number(t).drop_first()
    } else {
        angle_number(t)
    }));
    scan_numeral(s, start, end, 4, false).is_some()
}

proof fn lemma_fold_fraction(s: Seq<u8>)
    ensures
        fraction_of(fold_all(s)) == fraction_of(s),
{
    lemma_fold_numeral(s, 4, false);
}

proof fn lemma_fold_percent(s: Seq<u8>)
    ensures
        css_percent(fold_all(s)) == css_percent(s),
{
    if s.len() >= 2 {
        let body = s.drop_last();
        lemma_fold_all_cut(s, s.len() - 1, s.len() - 1);
        assert(body =~= s.take(s.len() - 1));
        assert(fold_all(s).drop_last() =~= fold_all(s).take(s.len() - 1));
        lemma_fold_all_cut(body, 1, 1);
        assert(body.drop_first() =~= body.skip(1));
        assert(fold_all(body).drop_first() =~= fold_all(body).skip(1));
        lemma_fold_fraction(body);
        lemma_fold_fraction(body.drop_first());
    }
}

proof fn lemma_fold_ends_with(s: Seq<u8>, unit: Seq<u8>)
    ensures
        ends_with_fold(fold_all(s), unit) == ends_with_fold(s, unit),
{
    if s.len() >= unit.len() {
        lemma_fold_all_cut(s, s.len() - unit.len(), s.len() as int);
        lemma_fold_eq_fold(s.subrange(s.len() - unit.len(), s.len() as int), unit);
    }
}

proof fn lemma_fold_hue(s: Seq<u8>)
    ensures
        css_hue_ok(fold_all(s)) == css_hue_ok(s),
{
    lemma_fold_ends_with(s, unit_grad());
    lemma_fold_ends_with(s, unit_turn());
    lemma_fold_ends_with(s, unit_deg());
    lemma_fold_ends_with(s, unit_rad());
    if s.len() >= 3 {
        lemma_fold_all_cut(s, s.len() - 3, s.len() - 3);
    }
    if s.len() >= 4 {
        lemma_fold_all_cut(s, s.len() - 4, s.len() - 4);
    }
    let n = angle_number(s);
    assert(angle_number(fold_all(s)) == fold_all(n));
    if n.len() > 0 {
        lemma_fold_all_cut(n, 1, 1);
        assert(n.drop_first() =~= n.skip(1));
        assert(fold_all(n).drop_first() =~= fold_all(n).skip(1));
    }
    lemma_fold_numeral(n, 4, false);
    lemma_fold_numeral(n.drop_first(), 4, false);
}

/// The numbers of a colour function read the same lower-cased.
pub proof fn lemma_fold_values(s: Seq<u8>)
    ensures
        css_channel(fold_all(s)) == css_channel(s),
        css_percent(fold_all(s)) == css_percent(s),
        css_alpha(fold_all(s)) == css_alpha(s),
        css_hue_ok(fold_all(s)) == css_hue_ok(s),
{
    lemma_fold_fraction(s);
    lemma_fold_percent(s);
    lemma_fold_hue(s);
}

} // verus!
