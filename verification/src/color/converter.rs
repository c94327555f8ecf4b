//! Conversion of CSS colour text into a `Color`, and back into the shortest text.
use vstd::prelude::*;
use vstd::string::StringSliceAdditionalSpecFns;

use crate::text::{bytes_text, field_bounds, fields, starts_with, trim, trim_bounds};
use crate::color::model::{conversion_view, Color, Conversion, ConversionView, HslTokens};
use crate::decimal::{
    fraction_checked, lemma_pow10_positive, min_nat, numeral, pow10,
    round_half_up, scan_numeral,
};
use crate::format::{doubled, hex_vec, shortest_text, text_string};
use crate::hex::{hex_color, parse_hex_color};
use crate::keywords::{
    first_opaque_from, keyword_at, keyword_lookup, lookup_keyword, opaque_name_index,
    KEYWORD_COUNT,
};
use crate::{copy_range, parsed_matches, Parsed, ParsedColor};

verus! {

/// The numeral `s` with at most `limit` fraction digits read (one more must be a digit
/// if present), as `(n, d)` with value `n / d`.
pub open spec fn fraction_limited(s: Seq<u8>, limit: nat) -> Option<(nat, nat)> {
    match numeral(s, limit, true) {
        Some((w, f, k)) => Some((w * pow10(k) + f, pow10(k))),
        None => None,
    }
}

/// The whole part of the numeral `s` (see `numeral`).
pub open spec fn whole_of(s: Seq<u8>, limit: nat) -> nat {
    numeral(s, limit, true).unwrap().0
}

/// A channel: at most six bytes, whole part at most 255, three fraction digits;
/// rounded half up and capped at 255.
pub open spec fn channel_value(s: Seq<u8>) -> Option<u8> {
    if s.len() == 0 || s.len() > 6 {
        None
    } else {
        match fraction_limited(s, 3) {
            Some((n, d)) => if whole_of(s, 3) <= 255 {
                Some(min_nat(round_half_up(n, d), 255) as u8)
            } else {
                None
            },
            None => None,
        }
    }
}

/// A percentage `x%` of at most six bytes, two fraction digits, `0 <= x <= 100`, as
/// `(n, d)` with `x = n / d`; a leading `-` only on zero.
pub open spec fn percent_value(s: Seq<u8>) -> Option<(nat, nat)> {
    if s.len() < 2 || s.len() > 6 || s.last() != 37 {
        None
    } else {
        let body = s.drop_last();
        let neg = body[0] == 45;
        if neg && body.len() == 1 {
            None
        } else {
            match fraction_limited(if neg { body.drop_first() } else { body }, 2) {
                Some((n, d)) => if n <= 100 * d && (!neg || n == 0) {
                    Some((n, d))
                } else {
                    None
                },
                None => None,
            }
        }
    }
}

/// An alpha value: a percentage, or a number between 0 and 1 with three fraction digits;
/// scaled to `0..=255` and rounded half up.
pub open spec fn alpha_value(s: Seq<u8>) -> Option<u8> {
    if s.len() == 0 {
        None
    } else if s.last() == 37 {
        match percent_value(s) {
            Some((n, d)) => Some(round_half_up(n * 255, d * 100) as u8),
            None => None,
        }
    } else {
        match fraction_limited(s, 3) {
            Some((n, d)) => if n <= d {
                Some(round_half_up(n * 255, d) as u8)
            } else {
                None
            },
            None => None,
        }
    }
}

/// `grad`.
pub open spec fn suffix_grad() -> Seq<u8> {
    seq![103u8, 114u8, 97u8, 100u8]
}

/// `turn`.
pub open spec fn suffix_turn() -> Seq<u8> {
    seq![116u8, 117u8, 114u8, 110u8]
}

/// `deg`.
pub open spec fn suffix_deg() -> Seq<u8> {
    seq![100u8, 101u8, 103u8]
}

/// `rad`.
pub open spec fn suffix_rad() -> Seq<u8> {
    seq![114u8, 97u8, 100u8]
}

/// A hue without its unit (`grad`, `turn`, `deg` or `rad`, lower case).
pub open spec fn hue_number(s: Seq<u8>) -> Seq<u8> {
    if crate::text::ends_with(s, suffix_grad()) || crate::text::ends_with(s, suffix_turn()) {
        s.take(s.len() - 4)
    } else if crate::text::ends_with(s, suffix_deg()) || crate::text::ends_with(s, suffix_rad()) {
        s.take(s.len() - 3)
    } else {
        s
    }
}

/// A hue: at most eight bytes of signed numeral (three fraction digits), then a unit.
pub open spec fn hue_ok(s: Seq<u8>) -> bool {
    let h = hue_number(s);
    &&& 0 < h.len() <= 8
    &&& (h[0] == 45 ==> h.len() > 1)
    &&& numeral(if h[0] == 45 { h.drop_first() } else { h }, 3, true) is Some
}

/// The fields trimmed of blanks, without the ones left empty.
pub open spec fn trimmed_nonempty(fs: Seq<Seq<u8>>) -> Seq<Seq<u8>>
    decreases fs.len(),
{
    if fs.len() == 0 {
        seq![]
    } else {
        let r = trimmed_nonempty(fs.drop_last());
        let t = trim(fs.last(), true);
        if t.len() > 0 {
            r.push(t)
        } else {
            r
        }
    }
}

/// The parameters of a colour function: fields separated by spaces or commas, trimmed.
pub open spec fn params(s: Seq<u8>) -> Seq<Seq<u8>> {
    trimmed_nonempty(fields(s, false))
}

/// The `i`-th parameter, empty when there are fewer.
pub open spec fn param(ps: Seq<Seq<u8>>, i: int) -> Seq<u8> {
    if i < ps.len() {
        ps[i]
    } else {
        seq![]
    }
}

/// The parameters of `rgb`/`rgba` (`is_rgb`) or `hsl`/`hsla`; with alpha, a name and an
/// alpha value may stand for the colour.
pub open spec fn convert_args(is_rgb: bool, alpha: bool, ps: Seq<Seq<u8>>) -> ParsedColor {
    let p0 = param(ps, 0);
    let p1 = param(ps, 1);
    let p2 = param(ps, 2);
    let p3 = param(ps, 3);
    if alpha && p1.len() > 0 && p2.len() == 0 && keyword_lookup(p0, false) is Some {
        let c = keyword_lookup(p0, false).unwrap();
        match alpha_value(p1) {
            Some(a) => ParsedColor::Rgba(Color { r: c.r, g: c.g, b: c.b, a }),
            None => ParsedColor::Invalid,
        }
    } else if alpha && p3.len() == 0 {
        ParsedColor::Invalid
    } else if !alpha && (p2.len() == 0 || p3.len() > 0) {
        ParsedColor::Invalid
    } else {
        let av = if alpha { alpha_value(p3) } else { Some(255u8) };
        if is_rgb {
            match (channel_value(p0), channel_value(p1), channel_value(p2), av) {
                (Some(r), Some(g), Some(b), Some(a)) => ParsedColor::Rgba(Color { r, g, b, a }),
                _ => ParsedColor::Invalid,
            }
        } else if hue_ok(p0) && percent_value(p1) is Some && percent_value(p2) is Some && av is Some {
            ParsedColor::Hsl(p0, p1, p2, av.unwrap())
        } else {
            ParsedColor::Invalid
        }
    }
}

/// `rgba(`.
pub open spec fn prefix_rgba() -> Seq<u8> {
    seq![114u8, 103u8, 98u8, 97u8, 40u8]
}

/// `rgb(`.
pub open spec fn prefix_rgb() -> Seq<u8> {
    seq![114u8, 103u8, 98u8, 40u8]
}

/// `hsla(`.
pub open spec fn prefix_hsla() -> Seq<u8> {
    seq![104u8, 115u8, 108u8, 97u8, 40u8]
}

/// `hsl(`.
pub open spec fn prefix_hsl() -> Seq<u8> {
    seq![104u8, 115u8, 108u8, 40u8]
}

/// A colour: `#` and hex digits; `rgba(`, `rgb(`, `hsla(` or `hsl(` (lower case) up to a
/// closing `)`; or a name (exact spelling).
pub open spec fn convert(s: Seq<u8>) -> ParsedColor {
    if s[0] == 35 {
        match hex_color(s) {
            Some(c) => ParsedColor::Rgba(c),
            None => ParsedColor::Invalid,
        }
    } else if s.len() > 4 && s.last() == 41 && (starts_with(s, prefix_rgba()) || starts_with(
        s,
        prefix_rgb(),
    ) || starts_with(s, prefix_hsla()) || starts_with(s, prefix_hsl())) {
        let rgb = starts_with(s, prefix_rgba()) || starts_with(s, prefix_rgb());
        let alpha = starts_with(s, prefix_rgba()) || starts_with(s, prefix_hsla());
        convert_args(rgb, alpha, params(s.subrange(if alpha { 5 } else { 4 }, s.len() - 1)))
    } else {
        match keyword_lookup(s, false) {
            Some(c) => ParsedColor::Rgba(c),
            None => ParsedColor::Invalid,
        }
    }
}

/// A channel (see `channel_value`).
fn parse_rgb_value(s: &[u8], lo: usize, hi: usize) -> (r: Option<u8>)
    requires
        lo <= hi <= s@.len(),
    ensures
        r == channel_value(s@.subrange(lo as int, hi as int)),
{
    if hi == lo || hi - lo > 6 {
        return None;
    }
    match fraction_checked(s, lo, hi, 3, true, 255) {
        Some((n, d)) => {
            let v = (2 * n + d) / (2 * d);
            Some(if v > 255 { 255 } else { v as u8 })
        },
        None => None,
    }
}

/// A percentage (see `percent_value`).
fn parse_percentage(s: &[u8], lo: usize, hi: usize) -> (r: Option<(u64, u64)>)
    requires
        lo <= hi <= s@.len(),
    ensures
        match percent_value(s@.subrange(lo as int, hi as int)) {
            Some((n, d)) => r == Some((n as u64, d as u64)),
            None => r is None,
        },
        r matches Some((n, d)) ==> 1 <= d <= 10000 && n <= 100 * d,
        percent_value(s@.subrange(lo as int, hi as int)) matches Some((n, d)) ==> 1 <= d <= 10000 && n
            <= 100 * d,
{
    let ghost t = s@.subrange(lo as int, hi as int);
    if hi - lo < 2 || hi - lo > 6 || s[hi - 1] != 37 {
        return None;
    }
    let neg = s[lo] == 45;
    assert(t.drop_last()[0] == s@[lo as int]);
    if neg && hi - lo == 2 {
        return None;
    }
    let start = if neg { lo + 1 } else { lo };
    assert(s@.subrange(start as int, hi - 1) =~= (if neg { t.drop_last().drop_first() } else {
        t.drop_last()
    }));
    match fraction_checked(s, start, hi - 1, 2, true, 100) {
        Some((n, d)) => {
            if n <= 100 * d && (!neg || n == 0) {
                Some((n, d))
            } else {
                None
            }
        },
        None => {
            proof {
                let u = s@.subrange(start as int, hi - 1);
                if let Some((w, f, k)) = numeral(u, 2, true) {
                    lemma_pow10_positive(k);
                    assert(w * pow10(k) + f > 100 * pow10(k)) by (nonlinear_arith)
                        requires
                            w >= 101,
                            pow10(k) >= 1,
                    ;
                }
            }
            None
        },
    }
}

/// An alpha value (see `alpha_value`).
fn parse_alpha_value(s: &[u8], lo: usize, hi: usize) -> (r: Option<u8>)
    requires
        lo <= hi <= s@.len(),
    ensures
        r == alpha_value(s@.subrange(lo as int, hi as int)),
{
    let ghost t = s@.subrange(lo as int, hi as int);
    if hi == lo {
        return None;
    }
    if s[hi - 1] == 37 {
        match parse_percentage(s, lo, hi) {
            Some((n, d)) => {
                proof {
                    assert((2 * (n * 255) + d * 100) / (2 * (d * 100)) <= 255) by (nonlinear_arith)
                        requires
                            n <= 100 * d,
                            d >= 1,
                    ;
                }
                Some(((2 * (n * 255) + d * 100) / (2 * (d * 100))) as u8)
            },
            None => None,
        }
    } else {
        match fraction_checked(s, lo, hi, 3, true, 1) {
            Some((n, d)) => {
                if n <= d {
                    proof {
                        assert((2 * (n * 255) + d) / (2 * d) <= 255) by (nonlinear_arith)
                            requires
                                n <= d,
                                d >= 1,
                        ;
                    }
                    Some(((2 * (n * 255) + d) / (2 * d)) as u8)
                } else {
                    None
                }
            },
            None => {
                proof {
                    if let Some((w, f, k)) = numeral(t, 3, true) {
                        lemma_pow10_positive(k);
                        assert(w * pow10(k) + f > pow10(k)) by (nonlinear_arith)
                            requires
                                w >= 2,
                                pow10(k) >= 1,
                        ;
                    }
                }
                None
            },
        }
    }
}

/// The end of the number in the hue `s[lo..hi]`, its unit cut off (see `hue_number`).
pub(crate) fn hue_number_end(s: &[u8], lo: usize, hi: usize) -> (end: usize)
    requires
        lo <= hi <= s@.len(),
    ensures
        lo <= end <= hi,
        s@.subrange(lo as int, end as int) == hue_number(s@.subrange(lo as int, hi as int)),
{
    let ghost t = s@.subrange(lo as int, hi as int);
    let grad: [u8; 4] = [103, 114, 97, 100];
    let turn: [u8; 4] = [116, 117, 114, 110];
    let deg: [u8; 3] = [100, 101, 103];
    let rad: [u8; 3] = [114, 97, 100];
    assert(grad@ == suffix_grad());
    assert(turn@ == suffix_turn());
    assert(deg@ == suffix_deg());
    assert(rad@ == suffix_rad());
    let n = hi - lo;
    let g4 = n >= 4 && crate::text::eq_bytes_exec(s, hi - 4, hi, grad.as_slice());
    let t4 = n >= 4 && crate::text::eq_bytes_exec(s, hi - 4, hi, turn.as_slice());
    let d3 = n >= 3 && crate::text::eq_bytes_exec(s, hi - 3, hi, deg.as_slice());
    let r3 = n >= 3 && crate::text::eq_bytes_exec(s, hi - 3, hi, rad.as_slice());
    assert(n >= 4 ==> t.subrange(t.len() - 4, t.len() as int) =~= s@.subrange(hi - 4, hi as int));
    assert(n >= 3 ==> t.subrange(t.len() - 3, t.len() as int) =~= s@.subrange(hi - 3, hi as int));
    let end = if g4 || t4 {
        hi - 4
    } else if d3 || r3 {
        hi - 3
    } else {
        hi
    };
    assert(s@.subrange(lo as int, end as int) =~= hue_number(t));
    end
}

/// A hue (see `hue_ok`).
fn parse_hue_value(s: &[u8], lo: usize, hi: usize) -> (r: bool)
    requires
        lo <= hi <= s@.len(),
    ensures
        r == hue_ok(s@.subrange(lo as int, hi as int)),
{
    let ghost t = s@.subrange(lo as int, hi as int);
    let end = hue_number_end(s, lo, hi);
    let m = end - lo;
    if m == 0 || m > 8 {
        return false;
    }
    let neg = s[lo] == 45;
    if neg && m == 1 {
        return false;
    }
    let start = if neg { lo + 1 } else { lo };
    assert(s@.subrange(start as int, end as int) =~= (if neg {
        hue_number(t).drop_first()
    } else {
        hue_number(t)
    }));
    scan_numeral(s, start, end, 3, true).is_some()
}

/// The bounds of the parameters of `s[lo..hi]` (see `params`).
pub(crate) fn split_params_fast(s: &[u8], lo: usize, hi: usize) -> (r: Vec<(usize, usize)>)
    requires
        lo <= hi <= s@.len(),
    ensures
        r@.len() == params(s@.subrange(lo as int, hi as int)).len(),
        forall|j: int|
            0 <= j < r@.len() ==> {
                &&& lo <= (#[trigger] r@[j]).0 <= r@[j].1 <= hi
                &&& s@.subrange(r@[j].0 as int, r@[j].1 as int) == params(
                    s@.subrange(lo as int, hi as int),
                )[j]
            },
{
    let ghost fs = fields(s@.subrange(lo as int, hi as int), false);
    let raw = field_bounds(s, lo, hi, false);
    let mut out: Vec<(usize, usize)> = Vec::new();
    let mut j: usize = 0;
    while j < raw.len()
        invariant
            lo <= hi <= s@.len(),
            j <= raw@.len(),
            raw@.len() == fs.len(),
            fs == fields(s@.subrange(lo as int, hi as int), false),
            forall|m: int|
                0 <= m < raw@.len() ==> {
                    &&& lo <= (#[trigger] raw@[m]).0 < raw@[m].1 <= hi
                    &&& s@.subrange(raw@[m].0 as int, raw@[m].1 as int) == fs[m]
                },
            out@.len() == trimmed_nonempty(fs.take(j as int)).len(),
            forall|m: int|
                0 <= m < out@.len() ==> {
                    &&& lo <= (#[trigger] out@[m]).0 <= out@[m].1 <= hi
                    &&& s@.subrange(out@[m].0 as int, out@[m].1 as int) == trimmed_nonempty(
                        fs.take(j as int),
                    )[m]
                },
        decreases raw.len() - j,
    {
        let (a, b) = raw[j];
        assert(fs.take(j + 1).drop_last() =~= fs.take(j as int));
        assert(fs.take(j + 1).last() == fs[j as int]);
        let (x, y) = trim_bounds(s, a, b, true);
        if y > x {
            out.push((x, y));
        }
        j = j + 1;
    }
    assert(fs.take(raw@.len() as int) =~= fs);
    out
}

/// No parameter is empty.
pub(crate) proof fn lemma_params_nonempty(fs: Seq<Seq<u8>>)
    ensures
        forall|j: int|
            0 <= j < trimmed_nonempty(fs).len() ==> (#[trigger] trimmed_nonempty(fs)[j]).len() > 0,
    decreases fs.len(),
{
    if fs.len() > 0 {
        let r = trimmed_nonempty(fs.drop_last());
        lemma_params_nonempty(fs.drop_last());
        assert forall|j: int| 0 <= j < trimmed_nonempty(fs).len() implies (
        #[trigger] trimmed_nonempty(fs)[j]).len() > 0 by {
            if j < r.len() {
                assert(r[j].len() > 0);
            }
        }
    }
}

/// Reads the parameters `ps` of a colour function (see `convert_args`).
fn convert_args_exec(s: &[u8], ps: &Vec<(usize, usize)>, is_rgb: bool, alpha: bool, Ghost(pss): Ghost<
    Seq<Seq<u8>>,
>, Ghost(lo): Ghost<int>, Ghost(hi): Ghost<int>) -> (r: Parsed)
    requires
        0 <= lo <= hi <= s@.len(),
        ps@.len() == pss.len(),
        forall|j: int| 0 <= j < pss.len() ==> (#[trigger] pss[j]).len() > 0,
        forall|j: int|
            0 <= j < ps@.len() ==> {
                &&& lo <= (#[trigger] ps@[j]).0 <= ps@[j].1 <= hi
                &&& s@.subrange(ps@[j].0 as int, ps@[j].1 as int) == pss[j]
            },
    ensures
        parsed_matches(r, convert_args(is_rgb, alpha, pss), s@, lo, hi),
{
    let n = ps.len();
    assert(n > 1 ==> param(pss, 1).len() > 0);
    assert(n > 2 ==> param(pss, 2).len() > 0);
    assert(n > 3 ==> param(pss, 3).len() > 0);
    if alpha && n == 2 {
        let (a0, a1) = ps[0];
        let (b0, b1) = ps[1];
        assert(s@.subrange(a0 as int, a1 as int) == param(pss, 0));
        assert(s@.subrange(b0 as int, b1 as int) == param(pss, 1));
        if let Some(c) = lookup_keyword(s, a0, a1, false) {
            return match parse_alpha_value(s, b0, b1) {
                Some(a) => Parsed::Rgba(Color { r: c.r, g: c.g, b: c.b, a }),
                None => Parsed::Invalid,
            };
        }
    }
    if alpha && n < 4 {
        return Parsed::Invalid;
    }
    if !alpha && (n < 3 || n >= 4) {
        return Parsed::Invalid;
    }
    let (x0, x1) = ps[0];
    let (y0, y1) = ps[1];
    let (z0, z1) = ps[2];
    assert(s@.subrange(x0 as int, x1 as int) == param(pss, 0));
    assert(s@.subrange(y0 as int, y1 as int) == param(pss, 1));
    assert(s@.subrange(z0 as int, z1 as int) == param(pss, 2));
    let av = if alpha {
        let (c0, c1) = ps[3];
        assert(s@.subrange(c0 as int, c1 as int) == param(pss, 3));
        parse_alpha_value(s, c0, c1)
    } else {
        Some(255)
    };
    if is_rgb {
        match (parse_rgb_value(s, x0, x1), parse_rgb_value(s, y0, y1), parse_rgb_value(s, z0, z1), av) {
            (Some(r), Some(g), Some(b), Some(a)) => Parsed::Rgba(Color { r, g, b, a }),
            _ => Parsed::Invalid,
        }
    } else if parse_hue_value(s, x0, x1) && parse_percentage(s, y0, y1).is_some()
        && parse_percentage(s, z0, z1).is_some() && av.is_some() {
        Parsed::Hsl((x0, x1), (y0, y1), (z0, z1), av.unwrap())
    } else {
        Parsed::Invalid
    }
}

/// `s[lo..hi]` starts with `prefix`.
fn starts_with_exec(s: &[u8], lo: usize, hi: usize, prefix: &[u8]) -> (r: bool)
    requires
        lo <= hi <= s@.len(),
    ensures
        r == starts_with(s@.subrange(lo as int, hi as int), prefix@),
{
    if hi - lo < prefix.len() {
        return false;
    }
    assert(s@.subrange(lo as int, hi as int).subrange(0, prefix@.len() as int) =~= s@.subrange(
        lo as int,
        lo + prefix@.len(),
    ));
    crate::text::eq_bytes_exec(s, lo, lo + prefix.len(), prefix)
}

/// Reads `s[lo..hi]` (not empty) as a colour (see `convert`).
fn convert_exec(s: &[u8], lo: usize, hi: usize) -> (r: Parsed)
    requires
        lo < hi <= s@.len(),
    ensures
        parsed_matches(r, convert(s@.subrange(lo as int, hi as int)), s@, lo as int, hi as int),
{
    let ghost t = s@.subrange(lo as int, hi as int);
    if s[lo] == 35 {
        return match parse_hex_color(s, lo, hi) {
            Some(c) => Parsed::Rgba(c),
            None => Parsed::Invalid,
        };
    }
    if hi - lo > 4 && s[hi - 1] == 41 {
        let rgba: [u8; 5] = [114, 103, 98, 97, 40];
        let rgb: [u8; 4] = [114, 103, 98, 40];
        let hsla: [u8; 5] = [104, 115, 108, 97, 40];
        let hsl: [u8; 4] = [104, 115, 108, 40];
        assert(rgba@ == prefix_rgba());
        assert(rgb@ == prefix_rgb());
        assert(hsla@ == prefix_hsla());
        assert(hsl@ == prefix_hsl());
        let is_rgba = starts_with_exec(s, lo, hi, rgba.as_slice());
        let is_rgb = starts_with_exec(s, lo, hi, rgb.as_slice());
        let is_hsla = starts_with_exec(s, lo, hi, hsla.as_slice());
        let is_hsl = starts_with_exec(s, lo, hi, hsl.as_slice());
        if is_rgba || is_rgb || is_hsla || is_hsl {
            let alpha = is_rgba || is_hsla;
            assert(alpha ==> t.subrange(0, 5)[4] == 40);
            let start = if alpha { lo + 5 } else { lo + 4 };
            assert(s@.subrange(start as int, hi - 1) =~= t.subrange(start - lo, t.len() - 1));
            let ps = split_params_fast(s, start, hi - 1);
            proof {
                lemma_params_nonempty(fields(t.subrange(start - lo, t.len() - 1), false));
            }
            return convert_args_exec(
                s,
                &ps,
                is_rgba || is_rgb,
                alpha,
                Ghost(params(t.subrange(start - lo, t.len() - 1))),
                Ghost(lo as int),
                Ghost(hi as int),
            );
        }
    }
    match lookup_keyword(s, lo, hi, false) {
        Some(c) => Parsed::Rgba(c),
        None => Parsed::Invalid,
    }
}

/// What a colour read from text comes to, as plain values.
pub open spec fn conversion_of(p: ParsedColor) -> Option<ConversionView> {
    match p {
        ParsedColor::Invalid => None,
        ParsedColor::Rgba(c) => Some(ConversionView::Ready(c)),
        ParsedColor::Hsl(h, sa, l, a) => Some(ConversionView::NeedsHsl(h, sa, l, a)),
    }
}

/// The result of `try_convert_color` for what `convert_exec` read from `s`.
fn to_conversion(s: &[u8], p: Parsed) -> (r: Option<Conversion>)
    requires
        p matches Parsed::Hsl(h, sa, l, a) ==> h.0 <= h.1 <= s@.len() && sa.0 <= sa.1 <= s@.len()
            && l.0 <= l.1 <= s@.len(),
    ensures
        forall|q: ParsedColor|
            parsed_matches(p, q, s@, 0, s@.len() as int) ==> conversion_view(r)
                == conversion_of(q),
{
    match p {
        Parsed::Invalid => None,
        Parsed::Rgba(c) => Some(Conversion::Ready(c)),
        Parsed::Hsl(h, sa, l, alpha) => Some(
            Conversion::NeedsHsl(
                HslTokens {
                    hue: copy_range(s, h.0, h.1),
                    saturation: copy_range(s, sa.0, sa.1),
                    lightness: copy_range(s, l.0, l.1),
                    alpha,
                },
            ),
        ),
    }
}

/// Reads the colour written in `color_str`: `#` and 3, 4, 6 or 8 hex digits;
/// `rgb(r, g, b)`, `rgba(r, g, b, a)`, `rgba(name, a)`; `hsl(h, s, l)`, `hsla(h, s, l, a)`,
/// `hsla(name, a)`; or a name. An `hsl()` colour comes back as its parts.
pub fn try_convert_color(color_str: &str) -> (r: Option<Conversion>)
    requires
        color_str.spec_bytes().len() > 0,
    ensures
        conversion_view(r) == conversion_of(convert(color_str.spec_bytes())),
{
    broadcast use vstd::string::group_string_axioms;
    let s = color_str.as_bytes();
    assert(s@.subrange(0, s@.len() as int) =~= s@);
    let p = convert_exec(s, 0, s.len());
    to_conversion(s, p)
}

/// Whether `color_str` is a colour that `try_convert_color` reads.
pub fn is_valid_color(color_str: &str) -> (r: bool)
    requires
        color_str.spec_bytes().len() > 0,
    ensures
        r == !(convert(color_str.spec_bytes()) is Invalid),
{
    try_convert_color(color_str).is_some()
}

/// The same as `try_convert_color`.
pub fn convert_to_color(color_str: &str) -> (r: Option<Conversion>)
    requires
        color_str.spec_bytes().len() > 0,
    ensures
        conversion_view(r) == conversion_of(convert(color_str.spec_bytes())),
{
    try_convert_color(color_str)
}

/// Whether all four channels can be written with one hex digit each.
fn can_shorten_hex(r: u8, g: u8, b: u8, a: u8) -> (res: bool)
    ensures
        res == (doubled(r) && doubled(g) && doubled(b) && doubled(a)),
{
    proof {
        assert(forall|x: u8| #![trigger x & 0x0F] ((x & 0x0F) == (x >> 4)) == (x / 16 == x % 16)) by (bit_vector);
    }
    (r & 0x0F) == (r >> 4) && (g & 0x0F) == (g >> 4) && (b & 0x0F) == (b >> 4) && (a & 0x0F) == (a
        >> 4)
}

/// The channels red, green, blue packed as `0xRRGGBB`.
fn color_to_u32(color: &Color) -> (v: u32)
    ensures
        v == color.r * 65536 + color.g * 256 + color.b,
{
    let r = color.r as u32;
    let g = color.g as u32;
    let b = color.b as u32;
    assert(((r << 16) | (g << 8) | b) == r * 65536 + g * 256 + b) by (bit_vector)
        requires
            r < 256 && g < 256 && b < 256,
    ;
    (r << 16) | (g << 8) | b
}

/// The index of the first opaque named colour packed as `rgb`.
fn name_for_rgb(rgb: u32, color: Color) -> (res: Option<usize>)
    requires
        rgb == color.r * 65536 + color.g * 256 + color.b,
    ensures
        match opaque_name_index(color.r, color.g, color.b) {
            Some(i) => res == Some(i as usize),
            None => res is None,
        },
        res matches Some(i) ==> i < KEYWORD_COUNT,
{
    let mut i: usize = 0;
    while i < KEYWORD_COUNT
        invariant
            i <= KEYWORD_COUNT,
            rgb == color.r * 65536 + color.g * 256 + color.b,
            opaque_name_index(color.r, color.g, color.b) == first_opaque_from(
                color.r,
                color.g,
                color.b,
                i as int,
            ),
        decreases KEYWORD_COUNT - i,
    {
        let (_, c) = keyword_at(i);
        if c.a == 255 && color_to_u32(&c) == rgb {
            return Some(i);
        }
        i = i + 1;
    }
    None
}

/// The shortest CSS text for `color`: `#rgba`/`#rrggbbaa` when translucent; otherwise
/// `#rgb`/`#rrggbb`, or the first name of the colour when that is shorter.
pub fn shorten_color(color: &Color) -> (s: String)
    ensures
        s@ == bytes_text(shortest_text(*color)),
{
    let has_alpha = color.a != 255;
    let can_short = can_shorten_hex(color.r, color.g, color.b, color.a);
    let bytes = if has_alpha {
        hex_vec(*color, true, can_short)
    } else {
        let mut shortest: usize = 7;
        let mut result = hex_vec(*color, false, false);
        if can_short {
            shortest = 4;
            result = hex_vec(*color, false, true);
        }
        let rgb = color_to_u32(color);
        match name_for_rgb(rgb, *color) {
            Some(i) => {
                let (name, _) = keyword_at(i);
                let nb = name.as_bytes();
                if nb.len() < shortest {
                    result = vstd::slice::slice_to_vec(nb);
                }
            },
            None => {},
        }
        result
    };
    text_string(&bytes)
}

} // verus!
