//! Whether a trimmed, lower-case value is a well-formed CSS colour, without converting it.
use vstd::prelude::*;
use vstd::string::StringSliceAdditionalSpecFns;

use crate::color::converter::{
    hue_number, hue_number_end, lemma_params_nonempty, param, params, split_params_fast,
};
use crate::text::fields;
use crate::decimal::{
    all_digits, digits_value, lemma_numeral_parts, lemma_pow10_mono, lemma_pow10_positive,
    numeral, pow10, pow10_exec, scan_numeral,
};
use crate::keywords::{keyword_lookup, lookup_keyword};

verus! {

/// A hex digit in lower case.
pub open spec fn hex_char(c: u8) -> bool {
    48 <= c <= 57 || 97 <= c <= 102
}

/// One to three digits for a number up to 255.
pub open spec fn small_number(s: Seq<u8>) -> Option<u16> {
    if s.len() == 0 || s.len() > 3 || !all_digits(s) || digits_value(s) > 255 {
        None
    } else {
        Some(digits_value(s) as u16)
    }
}

/// A decimal of one to ten bytes: an optional `-`, then digits with at most one `.`;
/// as `(negative, n, d)`, its magnitude being `n / d`.
pub open spec fn signed_decimal(s: Seq<u8>) -> Option<(bool, nat, nat)> {
    if s.len() == 0 || s.len() > 10 {
        None
    } else {
        let neg = s[0] == 45;
        if neg && s.len() == 1 {
            None
        } else {
            match numeral(if neg { s.drop_first() } else { s }, 9, false) {
                Some((w, f, k)) => Some((neg, w * pow10(k) + f, pow10(k))),
                None => None,
            }
        }
    }
}

/// The ranges a decimal is checked against.
pub enum DecimalBound {
    /// From 0 to 1.
    Unit,
    /// From 0 to 100.
    Percent,
    /// From 0 to 255.9.
    Channel,
}

/// Whether the decimal `v` (see `signed_decimal`) lies in `bound`, its value read in single
/// precision: a negative zero counts as zero, and the upper ends come to `1.00000005`,
/// `100.000003`, and for a channel `255.899997` or `255.9` up to `255.900007`.
pub open spec fn within(bound: DecimalBound, v: (bool, nat, nat)) -> bool {
    let (neg, n, d) = v;
    &&& !neg || n == 0
    &&& match bound {
        DecimalBound::Unit => n * 100000000 <= 100000005 * d,
        DecimalBound::Percent => n * 1000000 <= 100000003 * d,
        DecimalBound::Channel => n * 1000000 <= 255899997 * d || (255900000 * d <= n * 1000000
            <= 255900007 * d),
    }
}

/// `s` is a decimal in `bound`.
pub open spec fn decimal_in(s: Seq<u8>, bound: DecimalBound) -> bool {
    signed_decimal(s) matches Some(v) && within(bound, v)
}

/// An alpha value: a percentage from 0 to 100, or a decimal from 0 to 1.
pub open spec fn alpha_part_ok(p: Seq<u8>) -> bool {
    p.len() > 0 && if p.last() == 37 {
        decimal_in(p.drop_last(), DecimalBound::Percent)
    } else {
        decimal_in(p, DecimalBound::Unit)
    }
}

/// A channel: with a `.`, a decimal from 0 to 255.9; otherwise a whole number up to 255.
pub open spec fn channel_part_ok(p: Seq<u8>) -> bool {
    p.len() > 0 && if p.contains(46) {
        decimal_in(p, DecimalBound::Channel)
    } else {
        small_number(p) is Some
    }
}

/// A hue: a decimal, then `grad`, `turn`, `deg`, `rad` or nothing.
pub open spec fn angle_part_ok(p: Seq<u8>) -> bool {
    p.len() > 0 && hue_number(p).len() > 0 && signed_decimal(hue_number(p)) is Some
}

/// A percentage from 0 to 100.
pub open spec fn percent_part_ok(p: Seq<u8>) -> bool {
    p.len() > 0 && p.last() == 37 && decimal_in(p.drop_last(), DecimalBound::Percent)
}

/// A named colour, spelled exactly.
pub open spec fn is_keyword(p: Seq<u8>) -> bool {
    keyword_lookup(p, false) is Some
}

/// The parameters of `rgb(..)` (`rgb`) or `hsl(..)`, with or without alpha.
pub open spec fn parts_ok(inner: Seq<u8>, alpha: bool, rgb: bool) -> bool {
    let ps = params(inner);
    let (p0, p1, p2, p3) = (param(ps, 0), param(ps, 1), param(ps, 2), param(ps, 3));
    let colour = if rgb {
        channel_part_ok(p0) && channel_part_ok(p1) && channel_part_ok(p2)
    } else {
        angle_part_ok(p0) && percent_part_ok(p1) && percent_part_ok(p2)
    };
    if alpha {
        if p1.len() > 0 && p2.len() == 0 && is_keyword(p0) {
            alpha_part_ok(p1)
        } else {
            p3.len() > 0 && colour && alpha_part_ok(p3)
        }
    } else {
        p2.len() > 0 && p3.len() == 0 && colour
    }
}

/// A colour function `name(..)` or `namea(..)` for the three-byte `name`.
pub open spec fn function_ok(s: Seq<u8>, rgb: bool) -> bool {
    let alpha = s[3] == 97;
    let open = if alpha { 4int } else { 3int };
    if s.len() <= open + 1 || s[open] != 40 || s.last() != 41 {
        false
    } else {
        parts_ok(s.subrange(open + 1, s.len() - 1), alpha, rgb)
    }
}

/// A well-formed colour, written in lower case without surrounding blanks: `#` and 3, 4,
/// 6 or 8 lower-case hex digits; `rgb(..)`, `rgba(..)`, `hsl(..)`, `hsla(..)` with
/// parameters in range; or a named colour.
pub open spec fn valid_color(s: Seq<u8>) -> bool {
    if s.len() == 0 {
        false
    } else if s[0] == 35 {
        let h = s.drop_first();
        (h.len() == 3 || h.len() == 4 || h.len() == 6 || h.len() == 8) && forall|i: int|
            0 <= i < h.len() ==> hex_char(#[trigger] h[i])
    } else if s.len() >= 4 && s.take(3) == seq![114u8, 103u8, 98u8] {
        function_ok(s, true)
    } else if s.len() >= 4 && s.take(3) == seq![104u8, 115u8, 108u8] {
        function_ok(s, false)
    } else {
        is_keyword(s)
    }
}

/// `c` is a lower-case hex digit (see `hex_char`).
fn is_hex_char(c: u8) -> (r: bool)
    ensures
        r == hex_char(c),
{
    (48 <= c && c <= 57) || (97 <= c && c <= 102)
}

/// `s[lo..hi]` as a number up to 255 (see `small_number`).
fn parse_u16_fast(s: &[u8], lo: usize, hi: usize) -> (r: Option<u16>)
    requires
        lo <= hi <= s@.len(),
    ensures
        r == small_number(s@.subrange(lo as int, hi as int)),
{
    let ghost t = s@.subrange(lo as int, hi as int);
    if hi == lo || hi - lo > 3 {
        return None;
    }
    let mut v: u16 = 0;
    let mut i = lo;
    while i < hi
        invariant
            lo <= i <= hi <= s@.len(),
            hi - lo <= 3,
            t == s@.subrange(lo as int, hi as int),
            all_digits(t.take(i - lo)),
            v == digits_value(t.take(i - lo)),
            v <= 255,
        decreases hi - i,
    {
        let b = s[i];
        if b < 48 || b > 57 {
            assert(t[i - lo] == b);
            return None;
        }
        assert(t.take(i - lo + 1).drop_last() =~= t.take(i - lo));
        let next = v * 10 + (b - 48) as u16;
        if next > 255 {
            proof {
                if all_digits(t) {
                    lemma_digits_prefix(t, i - lo + 1);
                }
            }
            return None;
        }
        v = next;
        i = i + 1;
    }
    assert(t.take(i - lo) =~= t);
    Some(v)
}

/// The value of a prefix of digits is at most that of the whole.
proof fn lemma_digits_prefix(t: Seq<u8>, j: int)
    requires
        0 <= j <= t.len(),
        all_digits(t),
    ensures
        digits_value(t.take(j)) <= digits_value(t),
    decreases t.len() - j,
{
    if j < t.len() {
        lemma_digits_prefix(t, j + 1);
        assert(t.take(j + 1).drop_last() =~= t.take(j));
    } else {
        assert(t.take(j) =~= t);
    }
}

/// `s[lo..hi]` is a decimal in `bound` (see `decimal_in`).
fn decimal_within(s: &[u8], lo: usize, hi: usize, bound: DecimalBound) -> (r: bool)
    requires
        lo <= hi <= s@.len(),
    ensures
        r == decimal_in(s@.subrange(lo as int, hi as int), bound),
{
    let ghost t = s@.subrange(lo as int, hi as int);
    if hi == lo || hi - lo > 10 {
        return false;
    }
    let neg = s[lo] == 45;
    if neg && hi - lo == 1 {
        return false;
    }
    let start = if neg { lo + 1 } else { lo };
    let ghost body = if neg { t.drop_first() } else { t };
    assert(s@.subrange(start as int, hi as int) =~= body);
    let max_whole: u64 = match bound {
        DecimalBound::Unit => 1,
        DecimalBound::Percent => 100,
        DecimalBound::Channel => 255,
    };
    match scan_numeral(s, start, hi, 9, false) {
        None => false,
        Some((w, f, k)) => {
            let ghost (ws, fs, ks) = numeral(body, 9, false).unwrap();
            proof {
                lemma_numeral_parts(body, 9, false);
                lemma_pow10_mono(ks, 9);
                lemma_pow10_positive(ks);
                reveal_with_fuel(pow10, 10);
            }
            let d = pow10_exec(k);
            if w > max_whole {
                proof {
                    let n0 = ws * d + fs;
                    assert(n0 >= (max_whole + 1) * d) by (nonlinear_arith)
                        requires
                            ws >= max_whole + 1,
                            n0 == ws * d + fs,
                    ;
                    match bound {
                        DecimalBound::Unit => {
                            assert(n0 * 100000000 > 100000005 * d) by (nonlinear_arith)
                                requires
                                    n0 >= 2 * d,
                                    d >= 1,
                            ;
                        },
                        DecimalBound::Percent => {
                            assert(n0 * 1000000 > 100000003 * d) by (nonlinear_arith)
                                requires
                                    n0 >= 101 * d,
                                    d >= 1,
                            ;
                        },
                        DecimalBound::Channel => {
                            assert(n0 * 1000000 > 255900007 * d) by (nonlinear_arith)
                                requires
                                    n0 >= 256 * d,
                                    d >= 1,
                            ;
                        },
                    }
                }
                return false;
            }
            proof {
                assert(w * d <= max_whole * d) by (nonlinear_arith)
                    requires
                        w <= max_whole,
                ;
            }
            let n = w * d + f;
            if neg && n != 0 {
                return false;
            }
            match bound {
                DecimalBound::Unit => n * 100000000 <= 100000005 * d,
                DecimalBound::Percent => n * 1000000 <= 100000003 * d,
                DecimalBound::Channel => n * 1000000 <= 255899997 * d || (255900000 * d <= n
                    * 1000000 && n * 1000000 <= 255900007 * d),
            }
        },
    }
}

/// Whether `s[lo..hi]` holds a `.`.
fn has_dot(s: &[u8], lo: usize, hi: usize) -> (r: bool)
    requires
        lo <= hi <= s@.len(),
    ensures
        r == s@.subrange(lo as int, hi as int).contains(46),
{
    let ghost t = s@.subrange(lo as int, hi as int);
    let mut i = lo;
    while i < hi
        invariant
            lo <= i <= hi <= s@.len(),
            t == s@.subrange(lo as int, hi as int),
            forall|j: int| 0 <= j < i - lo ==> t[j] != 46,
        decreases hi - i,
    {
        if s[i] == 46 {
            assert(t[i - lo] == 46);
            return true;
        }
        i = i + 1;
    }
    false
}

/// An alpha value (see `alpha_part_ok`).
fn validate_alpha_part(s: &[u8], lo: usize, hi: usize) -> (r: bool)
    requires
        lo <= hi <= s@.len(),
    ensures
        r == alpha_part_ok(s@.subrange(lo as int, hi as int)),
{
    let ghost t = s@.subrange(lo as int, hi as int);
    if hi == lo {
        return false;
    }
    if s[hi - 1] == 37 {
        assert(s@.subrange(lo as int, hi - 1) =~= t.drop_last());
        decimal_within(s, lo, hi - 1, DecimalBound::Percent)
    } else {
        decimal_within(s, lo, hi, DecimalBound::Unit)
    }
}

/// A channel (see `channel_part_ok`).
fn validate_rgb_value(s: &[u8], lo: usize, hi: usize) -> (r: bool)
    requires
        lo <= hi <= s@.len(),
    ensures
        r == channel_part_ok(s@.subrange(lo as int, hi as int)),
{
    if hi == lo {
        return false;
    }
    if has_dot(s, lo, hi) {
        decimal_within(s, lo, hi, DecimalBound::Channel)
    } else {
        parse_u16_fast(s, lo, hi).is_some()
    }
}

/// A hue (see `angle_part_ok`).
fn validate_hsl_angle(s: &[u8], lo: usize, hi: usize) -> (r: bool)
    requires
        lo <= hi <= s@.len(),
    ensures
        r == angle_part_ok(s@.subrange(lo as int, hi as int)),
{
    if hi == lo {
        return false;
    }
    let end = hue_number_end(s, lo, hi);
    end > lo && signed_decimal_ok(s, lo, end)
}

/// `s[lo..hi]` is a decimal (see `signed_decimal`).
fn signed_decimal_ok(s: &[u8], lo: usize, hi: usize) -> (r: bool)
    requires
        lo <= hi <= s@.len(),
    ensures
        r == signed_decimal(s@.subrange(lo as int, hi as int)) is Some,
{
    let ghost t = s@.subrange(lo as int, hi as int);
    if hi == lo || hi - lo > 10 {
        return false;
    }
    let neg = s[lo] == 45;
    if neg && hi - lo == 1 {
        return false;
    }
    let start = if neg { lo + 1 } else { lo };
    assert(s@.subrange(start as int, hi as int) =~= (if neg { t.drop_first() } else { t }));
    scan_numeral(s, start, hi, 9, false).is_some()
}

/// A percentage (see `percent_part_ok`).
fn validate_hsl_percent(s: &[u8], lo: usize, hi: usize) -> (r: bool)
    requires
        lo <= hi <= s@.len(),
    ensures
        r == percent_part_ok(s@.subrange(lo as int, hi as int)),
{
    let ghost t = s@.subrange(lo as int, hi as int);
    if hi == lo || s[hi - 1] != 37 {
        return false;
    }
    assert(s@.subrange(lo as int, hi - 1) =~= t.drop_last());
    decimal_within(s, lo, hi - 1, DecimalBound::Percent)
}

/// A named colour spelled exactly by `s[lo..hi]`.
fn is_color_keyword(s: &[u8], lo: usize, hi: usize) -> (r: bool)
    requires
        lo <= hi <= s@.len(),
    ensures
        r == is_keyword(s@.subrange(lo as int, hi as int)),
{
    lookup_keyword(s, lo, hi, false).is_some()
}

/// The parameters `s[lo..hi]` of an `rgb` (`rgb`) or `hsl` function (see `parts_ok`).
fn validate_parts(s: &[u8], lo: usize, hi: usize, alpha: bool, rgb: bool) -> (r: bool)
    requires
        lo <= hi <= s@.len(),
    ensures
        r == parts_ok(s@.subrange(lo as int, hi as int), alpha, rgb),
{
    let ghost ps = params(s@.subrange(lo as int, hi as int));
    let parts = split_params_fast(s, lo, hi);
    proof {
        lemma_params_nonempty(fields(s@.subrange(lo as int, hi as int), false));
    }
    let n = parts.len();
    assert(n > 1 ==> param(ps, 1).len() > 0);
    assert(n > 2 ==> param(ps, 2).len() > 0);
    assert(n > 3 ==> param(ps, 3).len() > 0);
    assert(n <= 1 ==> param(ps, 1).len() == 0);
    assert(n <= 2 ==> param(ps, 2).len() == 0);
    assert(n <= 3 ==> param(ps, 3).len() == 0);
    if n == 0 {
        assert(param(ps, 0).len() == 0);
        return false;
    }
    let (a0, a1) = parts[0];
    assert(s@.subrange(a0 as int, a1 as int) == param(ps, 0));
    if alpha && n == 2 {
        let (b0, b1) = parts[1];
        assert(s@.subrange(b0 as int, b1 as int) == param(ps, 1));
        if is_color_keyword(s, a0, a1) {
            return validate_alpha_part(s, b0, b1);
        }
    }
    if alpha && n < 4 {
        return false;
    }
    if !alpha && (n < 3 || n > 3) {
        return false;
    }
    let (b0, b1) = parts[1];
    let (c0, c1) = parts[2];
    assert(s@.subrange(b0 as int, b1 as int) == param(ps, 1));
    assert(s@.subrange(c0 as int, c1 as int) == param(ps, 2));
    let colour = if rgb {
        validate_rgb_value(s, a0, a1) && validate_rgb_value(s, b0, b1) && validate_rgb_value(
            s,
            c0,
            c1,
        )
    } else {
        validate_hsl_angle(s, a0, a1) && validate_hsl_percent(s, b0, b1) && validate_hsl_percent(
            s,
            c0,
            c1,
        )
    };
    if alpha {
        let (d0, d1) = parts[3];
        assert(s@.subrange(d0 as int, d1 as int) == param(ps, 3));
        colour && validate_alpha_part(s, d0, d1)
    } else {
        colour
    }
}

/// The parameters of an `rgb`/`rgba` function (see `parts_ok`).
fn validate_rgb_parts_fast(s: &[u8], lo: usize, hi: usize, alpha: bool) -> (r: bool)
    requires
        lo <= hi <= s@.len(),
    ensures
        r == parts_ok(s@.subrange(lo as int, hi as int), alpha, true),
{
    validate_parts(s, lo, hi, alpha, true)
}

/// The parameters of an `hsl`/`hsla` function (see `parts_ok`).
fn validate_hsl_parts_fast(s: &[u8], lo: usize, hi: usize, alpha: bool) -> (r: bool)
    requires
        lo <= hi <= s@.len(),
    ensures
        r == parts_ok(s@.subrange(lo as int, hi as int), alpha, false),
{
    validate_parts(s, lo, hi, alpha, false)
}

/// Whether `trimmed_lower` is a well-formed colour (see `valid_color`); nothing is converted,
/// and the text is expected in lower case without surrounding blanks.
pub fn is_valid_color(trimmed_lower: &str) -> (r: bool)
    ensures
        r == valid_color(trimmed_lower.spec_bytes()),
{
    broadcast use vstd::string::group_string_axioms;
    let s = trimmed_lower.as_bytes();
    let ghost t = s@;
    let len = s.len();
    if len == 0 {
        return false;
    }
    if s[0] == 35 {
        let hl = len - 1;
        if hl != 3 && hl != 4 && hl != 6 && hl != 8 {
            return false;
        }
        let mut i: usize = 1;
        while i < len
            invariant
                1 <= i <= len,
                len == s@.len(),
                t == s@,
                t == trimmed_lower.spec_bytes(),
                t[0] == 35,
                forall|j: int| 0 <= j < i - 1 ==> hex_char(#[trigger] t.drop_first()[j]),
            decreases len - i,
        {
            if !is_hex_char(s[i]) {
                assert(t.drop_first()[i - 1] == s@[i as int]);
                assert(!hex_char(t.drop_first()[i - 1]));
                return false;
            }
            i = i + 1;
        }
        return true;
    }
    let rgb: [u8; 3] = [114, 103, 98];
    let hsl: [u8; 3] = [104, 115, 108];
    assert(rgb@ == seq![114u8, 103u8, 98u8]);
    assert(hsl@ == seq![104u8, 115u8, 108u8]);
    assert(len >= 4 ==> s@.subrange(0, 3) =~= t.take(3));
    let is_rgb = len >= 4 && crate::text::eq_bytes_exec(s, 0, 3, rgb.as_slice());
    let is_hsl = !is_rgb && len >= 4 && crate::text::eq_bytes_exec(s, 0, 3, hsl.as_slice());
    if is_rgb || is_hsl {
        let alpha = s[3] == 97;
        let open: usize = if alpha { 4 } else { 3 };
        if len <= open + 1 || s[open] != 40 || s[len - 1] != 41 {
            return false;
        }
        return if is_rgb {
            validate_rgb_parts_fast(s, open + 1, len - 1, alpha)
        } else {
            validate_hsl_parts_fast(s, open + 1, len - 1, alpha)
        };
    }
    assert(s@.subrange(0, len as int) =~= t);
    is_color_keyword(s, 0, len)
}

} // verus!
