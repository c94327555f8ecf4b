//! Hexadecimal colour notation: `#rgb`, `#rgba`, `#rrggbb`, `#rrggbbaa`.
use vstd::prelude::*;

use crate::color::model::Color;
use crate::text::{fold, fold_all, lemma_fold_all_cut};

verus! {

/// The value of one hexadecimal digit (either case).
pub open spec fn hex_digit(b: u8) -> Option<u8> {
    if 48 <= b <= 57 {
        Some((b - 48) as u8)
    } else if 65 <= b <= 70 {
        Some((b - 55) as u8)
    } else if 97 <= b <= 102 {
        Some((b - 87) as u8)
    } else {
        None
    }
}

/// A channel written with one digit `d`, standing for `dd`.
pub open spec fn hex_single(d: u8) -> Option<u8> {
    match hex_digit(d) {
        Some(v) => Some((v * 17) as u8),
        None => None,
    }
}

/// A channel written with two digits.
pub open spec fn hex_pair(hi: u8, lo: u8) -> Option<u8> {
    match (hex_digit(hi), hex_digit(lo)) {
        (Some(x), Some(y)) => Some((x * 16 + y) as u8),
        _ => None,
    }
}

/// The colour written by the hex digits that follow the first byte of `s`
/// (3, 4, 6 or 8 of them; without an alpha digit the colour is opaque).
pub open spec fn hex_color(s: Seq<u8>) -> Option<Color> {
    let p = s.drop_first();
    if p.len() == 3 {
        match (hex_single(p[0]), hex_single(p[1]), hex_single(p[2])) {
            (Some(r), Some(g), Some(b)) => Some(Color { r, g, b, a: 255 }),
            _ => None,
        }
    } else if p.len() == 4 {
        match (hex_single(p[0]), hex_single(p[1]), hex_single(p[2]), hex_single(p[3])) {
            (Some(r), Some(g), Some(b), Some(a)) => Some(Color { r, g, b, a }),
            _ => None,
        }
    } else if p.len() == 6 {
        match (hex_pair(p[0], p[1]), hex_pair(p[2], p[3]), hex_pair(p[4], p[5])) {
            (Some(r), Some(g), Some(b)) => Some(Color { r, g, b, a: 255 }),
            _ => None,
        }
    } else if p.len() == 8 {
        match (hex_pair(p[0], p[1]), hex_pair(p[2], p[3]), hex_pair(p[4], p[5]), hex_pair(p[6], p[7])) {
            (Some(r), Some(g), Some(b), Some(a)) => Some(Color { r, g, b, a }),
            _ => None,
        }
    } else {
        None
    }
}

/// The value of the hex digit `b` (see `hex_digit`).
pub fn hex_digit_exec(b: u8) -> (r: Option<u8>)
    ensures
        r == hex_digit(b),
{
    if 48 <= b && b <= 57 {
        Some(b - 48)
    } else if 65 <= b && b <= 70 {
        Some(b - 55)
    } else if 97 <= b && b <= 102 {
        Some(b - 87)
    } else {
        None
    }
}

/// A channel written with one hex digit (see `hex_single`).
pub fn hex_single_exec(d: u8) -> (r: Option<u8>)
    ensures
        r == hex_single(d),
{
    match hex_digit_exec(d) {
        Some(v) => Some(v * 17),
        None => None,
    }
}

/// A channel written with two hex digits (see `hex_pair`).
pub fn hex_pair_exec(hi: u8, lo: u8) -> (r: Option<u8>)
    ensures
        r == hex_pair(hi, lo),
{
    match (hex_digit_exec(hi), hex_digit_exec(lo)) {
        (Some(x), Some(y)) => Some(x * 16 + y),
        _ => None,
    }
}

/// Reads `s[lo..hi]` (whose first byte is the `#`) as a hex colour.
pub fn parse_hex_color(s: &[u8], lo: usize, hi: usize) -> (r: Option<Color>)
    requires
        lo < hi <= s@.len(),
    ensures
        r == hex_color(s@.subrange(lo as int, hi as int)),
{
    let ghost p = s@.subrange(lo as int, hi as int).drop_first();
    assert forall|j: int| 0 <= j < p.len() implies p[j] == s@[lo + 1 + j] by {}
    let n = hi - lo - 1;
    let q = lo + 1;
    if n == 3 {
        match (hex_single_exec(s[q]), hex_single_exec(s[q + 1]), hex_single_exec(s[q + 2])) {
            (Some(r), Some(g), Some(b)) => Some(Color { r, g, b, a: 255 }),
            _ => None,
        }
    } else if n == 4 {
        match (
            hex_single_exec(s[q]),
            hex_single_exec(s[q + 1]),
            hex_single_exec(s[q + 2]),
            hex_single_exec(s[q + 3]),
        ) {
            (Some(r), Some(g), Some(b), Some(a)) => Some(Color { r, g, b, a }),
            _ => None,
        }
    } else if n == 6 {
        match (
            hex_pair_exec(s[q], s[q + 1]),
            hex_pair_exec(s[q + 2], s[q + 3]),
            hex_pair_exec(s[q + 4], s[q + 5]),
        ) {
            (Some(r), Some(g), Some(b)) => Some(Color { r, g, b, a: 255 }),
            _ => None,
        }
    } else if n == 8 {
        match (
            hex_pair_exec(s[q], s[q + 1]),
            hex_pair_exec(s[q + 2], s[q + 3]),
            hex_pair_exec(s[q + 4], s[q + 5]),
            hex_pair_exec(s[q + 6], s[q + 7]),
        ) {
            (Some(r), Some(g), Some(b), Some(a)) => Some(Color { r, g, b, a }),
            _ => None,
        }
    } else {
        None
    }
}

/// Hex digits read the same in either case, so a hex colour reads the same lower-cased.
pub proof fn lemma_fold_hex(s: Seq<u8>)
    requires
        s.len() > 0,
    ensures
        hex_color(fold_all(s)) == hex_color(s),
{
    assert forall|b: u8| #[trigger] hex_digit(fold(b)) == hex_digit(b) by {}
    lemma_fold_all_cut(s, 1, 1);
    assert(s.drop_first() =~= s.skip(1));
    assert(fold_all(s).drop_first() =~= fold_all(s).skip(1));
    let p = s.drop_first();
    let q = fold_all(p);
    assert(forall|i: int| 0 <= i < p.len() ==> q[i] == fold(#[trigger] p[i]));
}

} // verus!
