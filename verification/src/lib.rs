//! Shortest CSS colour notation: reads hex, `rgb()`/`rgba()`, `hsl()`/`hsla()` and named
//! colours and writes the shortest equivalent text.
use vstd::prelude::*;
use vstd::string::StringSliceAdditionalSpecFns;

pub mod text;
pub mod color;
pub mod decimal;
pub mod format;
pub mod hex;
pub mod keywords;
pub mod properties;
pub mod values;

use crate::text::{
    eq_fold, eq_fold_exec, field_bounds, fields, lower_all, trim, trim_bounds,
};
use crate::color::model::{Color, HslTokens, Shortening, ShorteningView};
use crate::format::{shortest_bytes, shortest_text};
use crate::hex::{hex_color, parse_hex_color};
use crate::keywords::{keyword_lookup, lookup_keyword};
use crate::values::{
    css_alpha, css_alpha_exec, css_channel, css_channel_exec, css_hue_ok, css_hue_ok_exec,
    css_percent, css_percent_exec,
};

verus! {

/// A colour value read from text.
pub enum ParsedColor {
    Invalid,
    Rgba(Color),
    /// Hue, saturation and lightness as written, and the alpha channel.
    Hsl(Seq<u8>, Seq<u8>, Seq<u8>, u8),
}

/// `rgb`.
pub open spec fn word_rgb() -> Seq<u8> {
    seq![114u8, 103u8, 98u8]
}

/// `hsl`.
pub open spec fn word_hsl() -> Seq<u8> {
    seq![104u8, 115u8, 108u8]
}

/// `#f00`, which becomes `red` though it is shorter than five bytes.
pub open spec fn word_f00() -> Seq<u8> {
    seq![35u8, 102u8, 48u8, 48u8]
}

/// `red`.
pub open spec fn word_red() -> Seq<u8> {
    seq![114u8, 101u8, 100u8]
}

/// The fields of a colour function: with alpha, two fields are a name and an alpha value;
/// otherwise three colour fields and, with alpha, a fourth for the alpha value.
pub open spec fn parse_args(is_rgb: bool, alpha: bool, toks: Seq<Seq<u8>>) -> ParsedColor {
    if toks.len() < 2 || toks.len() > 4 {
        ParsedColor::Invalid
    } else if alpha && toks.len() == 2 {
        match (keyword_lookup(toks[0], true), css_alpha(toks[1])) {
            (Some(c), Some(a)) => ParsedColor::Rgba(Color { r: c.r, g: c.g, b: c.b, a }),
            _ => ParsedColor::Invalid,
        }
    } else if toks.len() != (if alpha { 4int } else { 3int }) {
        ParsedColor::Invalid
    } else {
        let av = if alpha { css_alpha(toks[3]) } else { Some(255u8) };
        match av {
            None => ParsedColor::Invalid,
            Some(a) => if is_rgb {
                match (css_channel(toks[0]), css_channel(toks[1]), css_channel(toks[2])) {
                    (Some(r), Some(g), Some(b)) => ParsedColor::Rgba(Color { r, g, b, a }),
                    _ => ParsedColor::Invalid,
                }
            } else if css_hue_ok(toks[0]) && css_percent(toks[1]) is Some && css_percent(toks[2]) is Some {
                ParsedColor::Hsl(toks[0], toks[1], toks[2], a)
            } else {
                ParsedColor::Invalid
            },
        }
    }
}

/// `rgb(`, `rgba(`, `hsl(` or `hsla(` (function name in any case, the `a` lower case),
/// fields separated by spaces, tabs or commas, and a closing `)`.
pub open spec fn parse_function(s: Seq<u8>) -> ParsedColor {
    if s.last() != 41 {
        ParsedColor::Invalid
    } else if !eq_fold(s.take(3), word_rgb()) && !eq_fold(s.take(3), word_hsl()) {
        ParsedColor::Invalid
    } else if s[3] != 40 && s[3] != 97 {
        ParsedColor::Invalid
    } else {
        let alpha = s[3] == 97;
        parse_args(
            eq_fold(s.take(3), word_rgb()),
            alpha,
            fields(s.subrange(if alpha { 5 } else { 4 }, s.len() - 1), true),
        )
    }
}

/// Reads a colour value of at least five bytes: `#` and hex digits, a name in any case,
/// or a colour function (see `parse_function`).
pub open spec fn parse_css(s: Seq<u8>) -> ParsedColor {
    if s[0] == 35 {
        match hex_color(s) {
            Some(c) => ParsedColor::Rgba(c),
            None => ParsedColor::Invalid,
        }
    } else if s[3] != 40 && s[4] != 40 {
        match keyword_lookup(s, true) {
            Some(c) => ParsedColor::Rgba(c),
            None => ParsedColor::Invalid,
        }
    } else {
        parse_function(s)
    }
}

/// Shortening `input`: empty stays empty; otherwise surrounding spaces, tabs, line feeds
/// and carriage returns are dropped, and a value shorter than five bytes, or one that is
/// not a colour, comes back lower-cased (every byte with bit `0x20` set), except that
/// `#f00` in any case becomes `red`; a colour comes back in its shortest text.
pub open spec fn shorten_css(input: Seq<u8>) -> ShorteningView {
    if input.len() == 0 {
        ShorteningView::Text(seq![])
    } else {
        let t = trim(input, false);
        if t.len() < 5 {
            if eq_fold(t, word_f00()) {
                ShorteningView::Text(word_red())
            } else {
                ShorteningView::Text(lower_all(t))
            }
        } else {
            match parse_css(t) {
                ParsedColor::Invalid => ShorteningView::Text(lower_all(t)),
                ParsedColor::Rgba(c) => ShorteningView::Text(shortest_text(c)),
                ParsedColor::Hsl(h, sa, l, a) => ShorteningView::NeedsHsl(h, sa, l, a),
            }
        }
    }
}

/// A colour read from bytes; the parts of an `hsl()` colour are given by their bounds.
enum Parsed {
    Invalid,
    Rgba(Color),
    Hsl((usize, usize), (usize, usize), (usize, usize), u8),
}

/// `r` is what `p` says of `s`, each `hsl()` part found within `s[lo..hi]`.
spec fn parsed_matches(r: Parsed, p: ParsedColor, s: Seq<u8>, lo: int, hi: int) -> bool {
    match p {
        ParsedColor::Invalid => r is Invalid,
        ParsedColor::Rgba(c) => r == Parsed::Rgba(c),
        ParsedColor::Hsl(h, sa, l, a) => match r {
            Parsed::Hsl(hb, sb, lb, ra) => {
                &&& lo <= hb.0 <= hb.1 <= hi
                &&& lo <= sb.0 <= sb.1 <= hi
                &&& lo <= lb.0 <= lb.1 <= hi
                &&& s.subrange(hb.0 as int, hb.1 as int) == h
                &&& s.subrange(sb.0 as int, sb.1 as int) == sa
                &&& s.subrange(lb.0 as int, lb.1 as int) == l
                &&& ra == a
            },
            _ => false,
        },
    }
}

/// Reads the fields `toks` of a colour function (see `parse_args`).
fn parse_args_exec(s: &[u8], toks: &Vec<(usize, usize)>, is_rgb: bool, alpha: bool, Ghost(
    ts,
): Ghost<Seq<Seq<u8>>>, Ghost(lo): Ghost<int>, Ghost(hi): Ghost<int>) -> (r: Parsed)
    requires
        0 <= lo <= hi <= s@.len(),
        toks@.len() == ts.len(),
        forall|j: int|
            0 <= j < toks@.len() ==> {
                &&& lo <= (#[trigger] toks@[j]).0 <= toks@[j].1 <= hi
                &&& s@.subrange(toks@[j].0 as int, toks@[j].1 as int) == ts[j]
            },
    ensures
        parsed_matches(r, parse_args(is_rgb, alpha, ts), s@, lo, hi),
{
    let n = toks.len();
    if n < 2 || n > 4 {
        return Parsed::Invalid;
    }
    let (x0, x1) = toks[0];
    let (y0, y1) = toks[1];
    assert(s@.subrange(x0 as int, x1 as int) == ts[0]);
    assert(s@.subrange(y0 as int, y1 as int) == ts[1]);
    if alpha && n == 2 {
        return match (lookup_keyword(s, x0, x1, true), css_alpha_exec(s, y0, y1)) {
            (Some(c), Some(a)) => Parsed::Rgba(Color { r: c.r, g: c.g, b: c.b, a }),
            _ => Parsed::Invalid,
        };
    }
    if n != (if alpha { 4 } else { 3 }) {
        return Parsed::Invalid;
    }
    let av = if alpha {
        let (c0, c1) = toks[3];
        assert(s@.subrange(c0 as int, c1 as int) == ts[3]);
        match css_alpha_exec(s, c0, c1) {
            Some(v) => v,
            None => {
                return Parsed::Invalid;
            },
        }
    } else {
        255
    };
    let (z0, z1) = toks[2];
    assert(s@.subrange(z0 as int, z1 as int) == ts[2]);
    if is_rgb {
        match (css_channel_exec(s, x0, x1), css_channel_exec(s, y0, y1), css_channel_exec(s, z0, z1)) {
            (Some(r), Some(g), Some(b)) => Parsed::Rgba(Color { r, g, b, a: av }),
            _ => Parsed::Invalid,
        }
    } else if css_hue_ok_exec(s, x0, x1) && css_percent_exec(s, y0, y1).is_some()
        && css_percent_exec(s, z0, z1).is_some() {
        Parsed::Hsl((x0, x1), (y0, y1), (z0, z1), av)
    } else {
        Parsed::Invalid
    }
}

/// Reads `s[lo..hi]` (at least five bytes) as a colour function (see `parse_function`).
#[verifier::rlimit(30)]
fn parse_function_exec(s: &[u8], lo: usize, hi: usize) -> (r: Parsed)
    requires
        lo + 5 <= hi <= s@.len(),
        s@[lo + 3] == 40 || s@[lo + 4] == 40,
    ensures
        parsed_matches(r, parse_function(s@.subrange(lo as int, hi as int)), s@, lo as int, hi as int),
{
    let ghost t = s@.subrange(lo as int, hi as int);
    if s[hi - 1] != 41 {
        return Parsed::Invalid;
    }
    let rgb: [u8; 3] = [114, 103, 98];
    let hsl: [u8; 3] = [104, 115, 108];
    assert(rgb@ == word_rgb());
    assert(hsl@ == word_hsl());
    assert(s@.subrange(lo as int, lo + 3) =~= t.take(3));
    let is_rgb = eq_fold_exec(s, lo, lo + 3, rgb.as_slice());
    let is_hsl = eq_fold_exec(s, lo, lo + 3, hsl.as_slice());
    if !is_rgb && !is_hsl {
        return Parsed::Invalid;
    }
    if s[lo + 3] != 40 && s[lo + 3] != 97 {
        return Parsed::Invalid;
    }
    let alpha = s[lo + 3] == 97;
    let start = if alpha { lo + 5 } else { lo + 4 };
    assert(s@.subrange(start as int, hi - 1) =~= t.subrange(start - lo, t.len() - 1));
    let ghost ts = fields(s@.subrange(start as int, hi - 1), true);
    assert(parse_function(t) == parse_args(is_rgb, alpha, ts));
    let toks = field_bounds(s, start, hi - 1, true);
    parse_args_exec(s, &toks, is_rgb, alpha, Ghost(ts), Ghost(lo as int), Ghost(hi as int))
}

/// Reads `s[lo..hi]` (at least five bytes) as a colour value (see `parse_css`).
fn parse_css_exec(s: &[u8], lo: usize, hi: usize) -> (r: Parsed)
    requires
        lo + 5 <= hi <= s@.len(),
    ensures
        parsed_matches(r, parse_css(s@.subrange(lo as int, hi as int)), s@, lo as int, hi as int),
{
    if s[lo] == 35 {
        return match parse_hex_color(s, lo, hi) {
            Some(c) => Parsed::Rgba(c),
            None => Parsed::Invalid,
        };
    }
    if s[lo + 3] != 40 && s[lo + 4] != 40 {
        return match lookup_keyword(s, lo, hi, true) {
            Some(c) => Parsed::Rgba(c),
            None => Parsed::Invalid,
        };
    }
    parse_function_exec(s, lo, hi)
}

/// A copy of `s[lo..hi]`.
pub(crate) fn copy_range(s: &[u8], lo: usize, hi: usize) -> (v: Vec<u8>)
    requires
        lo <= hi <= s@.len(),
    ensures
        v@ == s@.subrange(lo as int, hi as int),
{
    let mut v: Vec<u8> = Vec::new();
    let mut i = lo;
    while i < hi
        invariant
            lo <= i <= hi <= s@.len(),
            v@ == s@.subrange(lo as int, i as int),
        decreases hi - i,
    {
        v.push(s[i]);
        assert(v@ =~= s@.subrange(lo as int, i + 1));
        i = i + 1;
    }
    v
}

/// `s[lo..hi]` with bit `0x20` set in every byte.
fn lower_range(s: &[u8], lo: usize, hi: usize) -> (v: Vec<u8>)
    requires
        lo <= hi <= s@.len(),
    ensures
        v@ == lower_all(s@.subrange(lo as int, hi as int)),
{
    let mut v: Vec<u8> = Vec::new();
    let mut i = lo;
    while i < hi
        invariant
            lo <= i <= hi <= s@.len(),
            v@ == lower_all(s@.subrange(lo as int, i as int)),
        decreases hi - i,
    {
        v.push(s[i] | 0x20);
        assert(v@ =~= lower_all(s@.subrange(lo as int, i + 1)));
        i = i + 1;
    }
    v
}

/// Shortens the CSS colour written in `input` (see `shorten_css`). An `hsl()`/`hsla()`
/// colour comes back as its parts, to be converted to red, green and blue.
pub fn shorten_css_bytes(input: &[u8]) -> (r: Shortening)
    ensures
        r@ == shorten_css(input@),
{
    if input.len() == 0 {
        return Shortening::Text(Vec::new());
    }
    let (a, z) = trim_bounds(input, 0, input.len(), false);
    assert(input@.subrange(0, input@.len() as int) =~= input@);
    if z - a < 5 {
        let f00: [u8; 4] = [35, 102, 48, 48];
        assert(f00@ == word_f00());
        if eq_fold_exec(input, a, z, f00.as_slice()) {
            let mut red: Vec<u8> = Vec::new();
            red.push(114);
            red.push(101);
            red.push(100);
            assert(red@ =~= word_red());
            return Shortening::Text(red);
        }
        return Shortening::Text(lower_range(input, a, z));
    }
    match parse_css_exec(input, a, z) {
        Parsed::Invalid => Shortening::Text(lower_range(input, a, z)),
        Parsed::Rgba(c) => Shortening::Text(shortest_bytes(c)),
        Parsed::Hsl(h, sa, l, alpha) => Shortening::NeedsHsl(
            HslTokens {
                hue: copy_range(input, h.0, h.1),
                saturation: copy_range(input, sa.0, sa.1),
                lightness: copy_range(input, l.0, l.1),
                alpha,
            },
        ),
    }
}

/// Shortens the CSS colour written in `input` (see `shorten_css`).
pub fn shorten_css_color(input: &str) -> (r: Shortening)
    ensures
        r@ == shorten_css(input.spec_bytes()),
{
    shorten_css_bytes(input.as_bytes())
}

/// The shortest text for `c`, the last step for a colour read from `hsl()`.
pub fn finish_hsl(red: u8, green: u8, blue: u8, alpha: u8) -> (r: Vec<u8>)
    ensures
        r@ == shortest_text(Color { r: red, g: green, b: blue, a: alpha }),
{
    shortest_bytes(Color { r: red, g: green, b: blue, a: alpha })
}

} // verus!
