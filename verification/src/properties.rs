//! Properties that hold across the library's functions.
use vstd::prelude::*;

use crate::color::converter::{
    alpha_value, channel_value, conversion_of, convert, fraction_limited, hue_number, hue_ok,
    suffix_deg, whole_of,
    suffix_grad, suffix_rad, suffix_turn,
};
use crate::decimal::{all_digits, digits_value, dot_index, lemma_dot_index, min_nat, numeral, pow10};
use crate::color::model::{Color, ShorteningView};
use crate::color::shortener::shorten_hex_result;
use crate::color::validator::valid_color;
use crate::format::{doubled, hex_char, hex_text, shortest_text};
use crate::hex::{hex_color, hex_digit, hex_pair, hex_single, lemma_fold_hex};
use crate::keywords::{
    first_opaque_from, keyword_color, keyword_name, lemma_first_name_length, lemma_fold_lookup,
    lemma_lookup_own_name, lemma_lower_word_fixed, lemma_names_lower, lemma_red_is_named,
    opaque_name_index, KEYWORD_COUNT,
};
use crate::text::{
    eq_fold, fields, fold, fold_all, is_blank, lemma_fold_all_cut, lemma_fold_eq_fold,
    lemma_fold_fields, lemma_fold_lower, lemma_fold_trim, lemma_trim_idempotent, lower_all, trim,
    trim_end, trim_start,
};
use crate::values::lemma_fold_values;
use crate::{
    parse_args, parse_css, parse_function, shorten_css, word_f00, word_hsl, word_rgb, ParsedColor,
};

verus! {

/// Surrounding blanks do not change what a value shortens to: shortening the text and
/// shortening it with its spaces, tabs, line feeds and carriage returns cut off agree.
pub proof fn law_blanks_ignored(input: Seq<u8>)
    ensures
        shorten_css(input) == shorten_css(trim(input, false)),
{
    let t = trim(input, false);
    lemma_trim_idempotent(input, false);
    if t.len() == 0 {
        assert(lower_all(t) =~= seq![]);
        assert(!eq_fold(t, word_f00()));
    }
}

proof fn lemma_digit_round_trip(v: u8)
    requires
        v < 16,
    ensures
        hex_digit(hex_char(v)) == Some(v),
{
}

proof fn lemma_channel_round_trip(x: u8)
    ensures
        hex_pair(hex_char(x / 16), hex_char(x % 16)) == Some(x),
        doubled(x) ==> hex_single(hex_char(x / 16)) == Some(x),
{
    lemma_digit_round_trip(x / 16);
    lemma_digit_round_trip(x % 16);
}

/// Hex text reads back as the colour it was written from: with or without the alpha
/// channel (without it only for an opaque colour), with one digit per channel when each
/// channel's two digits are equal, else with two.
pub proof fn law_hex_round_trip(c: Color, alpha: bool, short: bool)
    requires
        alpha || c.a == 255,
        short ==> doubled(c.r) && doubled(c.g) && doubled(c.b) && (alpha ==> doubled(c.a)),
    ensures
        hex_color(hex_text(c, alpha, short)) == Some(c),
{
    lemma_channel_round_trip(c.r);
    lemma_channel_round_trip(c.g);
    lemma_channel_round_trip(c.b);
    lemma_channel_round_trip(c.a);
    let p = hex_text(c, alpha, short).drop_first();
    if short {
        if alpha {
            assert(p =~= seq![
                hex_char(c.r / 16),
                hex_char(c.g / 16),
                hex_char(c.b / 16),
                hex_char(c.a / 16),
            ]);
        } else {
            assert(p =~= seq![hex_char(c.r / 16), hex_char(c.g / 16), hex_char(c.b / 16)]);
        }
    } else {
        if alpha {
            assert(p =~= seq![
                hex_char(c.r / 16),
                hex_char(c.r % 16),
                hex_char(c.g / 16),
                hex_char(c.g % 16),
                hex_char(c.b / 16),
                hex_char(c.b % 16),
                hex_char(c.a / 16),
                hex_char(c.a % 16),
            ]);
        } else {
            assert(p =~= seq![
                hex_char(c.r / 16),
                hex_char(c.r % 16),
                hex_char(c.g / 16),
                hex_char(c.g % 16),
                hex_char(c.b / 16),
                hex_char(c.b % 16),
            ]);
        }
    }
}

proof fn lemma_first_opaque(r: u8, g: u8, b: u8, i: int)
    requires
        0 <= i,
    ensures
        first_opaque_from(r, g, b, i) matches Some(j) ==> i <= j < KEYWORD_COUNT && keyword_color(
            j as usize,
        ) == (Color { r, g, b, a: 255 }),
    decreases KEYWORD_COUNT - i,
{
    if i < KEYWORD_COUNT {
        lemma_first_opaque(r, g, b, i + 1);
    }
}

/// Whether every channel of `c` (alpha too, when it is not opaque) has two equal hex digits.
pub open spec fn short_form(c: Color) -> bool {
    doubled(c.r) && doubled(c.g) && doubled(c.b) && (c.a != 255 ==> doubled(c.a))
}

/// The hex form of `c` that `shortest_text` starts from.
pub open spec fn hex_form(c: Color) -> Seq<u8> {
    hex_text(c, c.a != 255, short_form(c))
}

/// The shortest text of a colour is its hex form, or the name of that colour (the first
/// one in the table) when that name is shorter.
proof fn lemma_shortest_cases(c: Color)
    ensures
        shortest_text(c) == hex_form(c) || ({
            &&& c.a == 255
            &&& opaque_name_index(c.r, c.g, c.b) is Some
            &&& 0 <= opaque_name_index(c.r, c.g, c.b).unwrap() < KEYWORD_COUNT
            &&& keyword_color(opaque_name_index(c.r, c.g, c.b).unwrap() as usize) == c
            &&& shortest_text(c) == keyword_name(opaque_name_index(c.r, c.g, c.b).unwrap() as usize)
            &&& shortest_text(c).len() < hex_form(c).len()
        }),
{
    lemma_first_opaque(c.r, c.g, c.b, 0);
}

/// What `shortest_text` writes reads back as the same colour, in `try_convert_color` and,
/// from five bytes on, in `shorten_css_color`; and it is never longer than the hex form.
pub proof fn law_shortest_reads_back(c: Color)
    ensures
        convert(shortest_text(c)) == ParsedColor::Rgba(c),
        shortest_text(c).len() >= 5 ==> parse_css(shortest_text(c)) == ParsedColor::Rgba(c),
        shortest_text(c).len() <= hex_form(c).len(),
{
    law_hex_round_trip(c, c.a != 255, short_form(c));
    lemma_shortest_cases(c);
    let o = shortest_text(c);
    if o != hex_form(c) {
        let i = opaque_name_index(c.r, c.g, c.b).unwrap();
        lemma_names_lower(i);
        lemma_lookup_own_name(i, false);
        lemma_lookup_own_name(i, true);
        assert(97 <= o[0] <= 122);
        assert(97 <= o.last() <= 122);
        if o.len() >= 5 {
            assert(97 <= o[3] <= 122);
            assert(97 <= o[4] <= 122);
        }
    }
}

/// Shortening is stable: the shortest text of a colour shortens to itself.
pub proof fn law_shortest_is_stable(c: Color)
    ensures
        shorten_css(shortest_text(c)) == ShorteningView::Text(shortest_text(c)),
{
    law_shortest_reads_back(c);
    lemma_shortest_cases(c);
    let o = shortest_text(c);
    assert forall|v: u8| v < 16 implies (#[trigger] hex_char(v) | 0x20) == hex_char(v) by {
        lemma_hex_char_bit(v);
    }
    if o == hex_form(c) {
        let p = o.drop_first();
        assert(o.last() == p.last());
        assert(o[0] == 35);
        assert(!is_blank(o.last(), false));
        assert(trim_start(o, false) == o);
        assert(trim_end(o, false) == o);
        if o.len() < 5 {
            assert(o =~= seq![35u8, hex_char(c.r / 16), hex_char(c.g / 16), hex_char(c.b / 16)]);
            assert((35u8 | 0x20u8) == 35u8) by (bit_vector);
            lemma_hex_char_bit(c.r / 16);
            lemma_hex_char_bit(c.g / 16);
            lemma_hex_char_bit(c.b / 16);
            assert(lower_all(o) =~= o);
            if eq_fold(o, word_f00()) {
                assert(fold(o[1]) == 102 && fold(o[2]) == 48 && fold(o[3]) == 48);
                lemma_red_is_named();
                assert(c == (Color { r: 255, g: 0, b: 0, a: 255 }));
                assert(false);
            }
        }
    } else {
        let i = opaque_name_index(c.r, c.g, c.b).unwrap();
        lemma_names_lower(i);
        lemma_lower_word_fixed(o);
        assert(97 <= o[0] <= 122);
        assert(97 <= o.last() <= 122);
        assert(trim_start(o, false) == o);
        assert(trim_end(o, false) == o);
        if o.len() < 5 {
            assert(!eq_fold(o, word_f00()));
        }
    }
}

proof fn lemma_hex_char_bit(v: u8)
    requires
        v < 16,
    ensures
        (hex_char(v) | 0x20) == hex_char(v),
{
    let h = hex_char(v);
    assert((48 <= h <= 57 || 97 <= h <= 102) ==> (h | 0x20) == h) by (bit_vector);
}

/// A value counts as a colour exactly when it converts to one.
pub proof fn law_valid_iff_converts(s: Seq<u8>)
    ensures
        conversion_of(convert(s)) is Some <==> !(convert(s) is Invalid),
{
}

/// A parsed colour with the parts of an `hsl()` colour lower-cased.
pub open spec fn fold_parsed(p: ParsedColor) -> ParsedColor {
    match p {
        ParsedColor::Hsl(h, sa, l, a) => ParsedColor::Hsl(fold_all(h), fold_all(sa), fold_all(l), a),
        _ => p,
    }
}

/// A shortening with the parts of an `hsl()` colour lower-cased.
pub open spec fn fold_shortening(v: ShorteningView) -> ShorteningView {
    match v {
        ShorteningView::NeedsHsl(h, sa, l, a) => ShorteningView::NeedsHsl(
            fold_all(h),
            fold_all(sa),
            fold_all(l),
            a,
        ),
        _ => v,
    }
}

proof fn lemma_fold_args(is_rgb: bool, alpha: bool, toks: Seq<Seq<u8>>)
    ensures
        parse_args(is_rgb, alpha, toks.map_values(|f: Seq<u8>| fold_all(f))) == fold_parsed(
            parse_args(is_rgb, alpha, toks),
        ),
{
    let ft = toks.map_values(|f: Seq<u8>| fold_all(f));
    if toks.len() >= 1 {
        lemma_fold_lookup(toks[0]);
        lemma_fold_values(toks[0]);
    }
    if toks.len() >= 2 {
        lemma_fold_values(toks[1]);
    }
    if toks.len() >= 3 {
        lemma_fold_values(toks[2]);
    }
    if toks.len() >= 4 {
        lemma_fold_values(toks[3]);
    }
}

proof fn lemma_fold_function(s: Seq<u8>)
    requires
        s.len() >= 5,
        s[3] == 40 || s[4] == 40,
        s[3] != 65,
    ensures
        parse_function(fold_all(s)) == fold_parsed(parse_function(s)),
{
    let f = fold_all(s);
    lemma_fold_all_cut(s, 3, 3);
    lemma_fold_eq_fold(s.take(3), word_rgb());
    lemma_fold_eq_fold(s.take(3), word_hsl());
    assert(f.last() == fold(s.last()));
    assert(f[3] == fold(s[3]));
    if s.last() == 41 && (s[3] == 40 || s[3] == 97) {
        let st: int = if s[3] == 97 { 5 } else { 4 };
        lemma_fold_all_cut(s, st, s.len() - 1);
        lemma_fold_fields(s.subrange(st, s.len() - 1), true);
        lemma_fold_args(
            eq_fold(s.take(3), word_rgb()),
            s[3] == 97,
            fields(s.subrange(st, s.len() - 1), true),
        );
    }
}

/// `t` spells `RGBA(` or `HSLA(` with an upper-case `A` and reads as a colour once lower-cased.
pub open spec fn upper_alpha_function(t: Seq<u8>) -> bool {
    &&& t.len() >= 5
    &&& t[0] != 35
    &&& t[3] == 65
    &&& t[4] == 40
    &&& !(parse_function(fold_all(t)) is Invalid)
}

proof fn lemma_fold_css(s: Seq<u8>)
    requires
        s.len() >= 5,
        !upper_alpha_function(s),
    ensures
        parse_css(fold_all(s)) == fold_parsed(parse_css(s)),
{
    let f = fold_all(s);
    assert(f[0] == fold(s[0]));
    assert(f[3] == fold(s[3]));
    assert(f[4] == fold(s[4]));
    if s[0] == 35 {
        lemma_fold_hex(s);
    } else if s[3] != 40 && s[4] != 40 {
        lemma_fold_lookup(s);
    } else if s[3] != 65 {
        lemma_fold_function(s);
    } else {
        assert(parse_function(s) is Invalid);
    }
}

/// Letter case does not matter: a value and its lower-case form shorten alike (the parts
/// of an `hsl()` colour come back lower-cased). The exception is an upper-case `A` in
/// `RGBA(` or `HSLA(`: such a value is no colour, though its lower-case form may be one.
pub proof fn law_case_ignored(input: Seq<u8>)
    requires
        !upper_alpha_function(trim(input, false)),
    ensures
        shorten_css(fold_all(input)) == fold_shortening(shorten_css(input)),
{
    let t = trim(input, false);
    lemma_fold_trim(input, false);
    lemma_fold_lower(t);
    lemma_fold_eq_fold(t, word_f00());
    if t.len() >= 5 {
        lemma_fold_css(t);
    }
}

/// On a hex colour of at least four digits, `shorten_css_color` and `shorten_hex` agree.
pub proof fn law_hex_entry_points_agree(s: Seq<u8>)
    requires
        s.len() >= 5,
        s[0] == 35,
        hex_color(s) is Some,
    ensures
        shorten_css(s) == shorten_hex_result(s),
{
    let p = s.drop_first();
    assert(s.last() == p.last());
    assert(hex_digit(p.last()) is Some);
    assert(trim_start(s, false) == s);
    assert(trim_end(s, false) == s);
}

proof fn lemma_first_opaque_found(r: u8, g: u8, b: u8, i: int, j: int)
    requires
        0 <= i <= j < KEYWORD_COUNT,
        keyword_color(j as usize) == (Color { r, g, b, a: 255 }),
    ensures
        first_opaque_from(r, g, b, i) is Some,
    decreases j - i,
{
    if i < j {
        lemma_first_opaque_found(r, g, b, i + 1, j);
    }
}

/// No name of an opaque named colour is shorter than the text chosen for that colour.
pub proof fn law_no_shorter_name(j: int)
    requires
        0 <= j < KEYWORD_COUNT,
        keyword_color(j as usize).a == 255,
    ensures
        shortest_text(keyword_color(j as usize)).len() <= keyword_name(j as usize).len(),
{
    let c = keyword_color(j as usize);
    lemma_first_opaque_found(c.r, c.g, c.b, 0, j);
    lemma_first_opaque(c.r, c.g, c.b, 0);
    let i = opaque_name_index(c.r, c.g, c.b).unwrap();
    assert(keyword_color(i as usize) == c);
    lemma_first_name_length(i);
    lemma_first_name_length(j);
}

/// The number written by the three decimal digits `a`, `b`, `c`.
proof fn lemma_three_digits(a: u8, b: u8, c: u8)
    requires
        a <= 9,
        b <= 9,
        c <= 9,
    ensures
        digits_value(seq![(48 + a) as u8, (48 + b) as u8, (48 + c) as u8]) == 100 * a + 10 * b
            + c,
{
    let t = seq![(48 + a) as u8, (48 + b) as u8, (48 + c) as u8];
    assert(t.drop_last() =~= seq![(48 + a) as u8, (48 + b) as u8]);
    assert(t.drop_last().drop_last() =~= seq![(48 + a) as u8]);
    assert(t.drop_last().drop_last().drop_last() =~= Seq::<u8>::empty());
    reveal_with_fuel(digits_value, 4);
}

/// What the converter reads from the alpha value `0.abc`, and from `0.abce`.
proof fn lemma_alpha_fraction(s: Seq<u8>, a: u8, b: u8, c: u8)
    requires
        a <= 9,
        b <= 9,
        c <= 9,
        s.len() == 5 || s.len() == 6,
        s.take(5) == seq![48u8, 46u8, (48 + a) as u8, (48 + b) as u8, (48 + c) as u8],
        s.len() == 6 ==> 48 <= s[5] <= 57,
    ensures
        alpha_value(s) == Some(((2 * (100 * a + 10 * b + c) * 255 + 1000) / 2000) as u8),
{
    assert(s[0] == 48 && s[1] == 46 && s[2] == 48 + a && s[3] == 48 + b && s[4] == 48 + c) by {
        assert(s.take(5)[0] == s[0] && s.take(5)[1] == s[1] && s.take(5)[2] == s[2]);
        assert(s.take(5)[3] == s[3] && s.take(5)[4] == s[4]);
    }
    lemma_dot_index(s, 1);
    let rest = s.skip(2);
    let three = seq![(48 + a) as u8, (48 + b) as u8, (48 + c) as u8];
    assert(rest.take(3) =~= three);
    assert(s.take(1) =~= seq![48u8]);
    assert(seq![48u8].drop_last() =~= Seq::<u8>::empty());
    assert(digits_value(seq![48u8]) == 0) by {
        reveal_with_fuel(digits_value, 2);
    }
    lemma_three_digits(a, b, c);
    if s.len() == 6 {
        assert(rest.take(4) =~= rest);
        assert(rest[3] == s[5]);
    } else {
        assert(rest =~= three);
    }
    reveal_with_fuel(pow10, 4);
    assert(pow10(3) == 1000);
    let f = (100 * a + 10 * b + c) as nat;
    assert(all_digits(rest.take(3)));
    assert(s.len() == 6 ==> all_digits(rest.take(4)));
    assert(dot_index(s) == 1);
    assert(all_digits(s.take(1)));
    assert(digits_value(s.take(1)) == 0);
    assert(digits_value(rest.take(3)) == f);
    assert(min_nat(3, rest.len()) == 3);
    assert(numeral(s, 3, true) == Some((0nat, f, 3nat)));
    assert(0nat * pow10(3) + f == f);
    assert(fraction_limited(s, 3) == Some((f, 1000nat)));
    assert(s.last() != 37);
    assert(2 * (f * 255) == 2 * f * 255) by (nonlinear_arith);
}

/// An alpha value `0.abc` with three fraction digits is read in full: the alpha channel is
/// `0.abc * 255` rounded half up (so `0.25` gives 64 and `0.75` gives 191).
pub proof fn law_alpha_three_digits(a: u8, b: u8, c: u8)
    requires
        a <= 9,
        b <= 9,
        c <= 9,
    ensures
        alpha_value(seq![48u8, 46u8, (48 + a) as u8, (48 + b) as u8, (48 + c) as u8]) == Some(
            ((2 * (100 * a + 10 * b + c) * 255 + 1000) / 2000) as u8,
        ),
{
    let s = seq![48u8, 46u8, (48 + a) as u8, (48 + b) as u8, (48 + c) as u8];
    assert(s.take(5) =~= s);
    lemma_alpha_fraction(s, a, b, c);
}

/// A fourth fraction digit of an alpha value changes nothing: `0.abce` reads as `0.abc`.
pub proof fn law_alpha_fourth_digit_ignored(a: u8, b: u8, c: u8, e: u8)
    requires
        a <= 9,
        b <= 9,
        c <= 9,
        e <= 9,
    ensures
        alpha_value(seq![48u8, 46u8, (48 + a) as u8, (48 + b) as u8, (48 + c) as u8, (48 + e) as u8])
            == alpha_value(seq![48u8, 46u8, (48 + a) as u8, (48 + b) as u8, (48 + c) as u8]),
{
    let s = seq![48u8, 46u8, (48 + a) as u8, (48 + b) as u8, (48 + c) as u8, (48 + e) as u8];
    let t = seq![48u8, 46u8, (48 + a) as u8, (48 + b) as u8, (48 + c) as u8];
    assert(s.take(5) =~= t);
    assert(t.take(5) =~= t);
    lemma_alpha_fraction(s, a, b, c);
    lemma_alpha_fraction(t, a, b, c);
}

proof fn lemma_signed_ends_with(n: Seq<u8>, suffix: Seq<u8>)
    requires
        n.len() > 0,
        suffix.len() > 0,
        suffix[0] != 45,
    ensures
        crate::text::ends_with(seq![45u8] + n, suffix) == crate::text::ends_with(n, suffix),
        crate::text::ends_with(n, suffix) ==> (seq![45u8] + n).take(n.len() + 1 - suffix.len())
            == seq![45u8] + n.take(n.len() - suffix.len()),
{
    let s = seq![45u8] + n;
    let k = suffix.len();
    if n.len() >= k {
        assert(s.subrange(s.len() - k, s.len() as int) =~= n.subrange(n.len() - k, n.len() as int));
        assert(s.take(n.len() + 1 - k) =~= seq![45u8] + n.take(n.len() - k));
    } else if s.len() == k {
        assert(s.subrange(0, k as int)[0] == 45);
    }
}

/// A hue may carry a leading `-`: `-n` is read exactly when `n` is, for a hue `n` of at
/// most seven bytes (its unit included) that has no sign of its own.
pub proof fn law_signed_hue(n: Seq<u8>)
    requires
        0 < n.len() <= 7,
        n[0] != 45,
    ensures
        hue_ok(seq![45u8] + n) == hue_ok(n),
{
    let s = seq![45u8] + n;
    lemma_signed_ends_with(n, suffix_grad());
    lemma_signed_ends_with(n, suffix_turn());
    lemma_signed_ends_with(n, suffix_deg());
    lemma_signed_ends_with(n, suffix_rad());
    let hn = hue_number(n);
    assert(hue_number(s) == seq![45u8] + hn);
    assert((seq![45u8] + hn).drop_first() =~= hn);
    if hn.len() > 0 {
        assert(hn[0] == n[0]);
    }
}

/// Without upper-case letters, `#` and digits are a hex colour to the validator exactly when
/// the converter reads them as one: `#` and 3, 4, 6 or 8 hex digits.
pub proof fn law_validator_hex_agrees(s: Seq<u8>)
    requires
        s.len() > 0,
        s[0] == 35,
        forall|i: int| 0 <= i < s.len() ==> !(65 <= #[trigger] s[i] <= 90),
    ensures
        valid_color(s) == (hex_color(s) is Some),
{
    let h = s.drop_first();
    assert forall|i: int| 0 <= i < h.len() implies (hex_digit(#[trigger] h[i]) is Some
        <==> crate::color::validator::hex_char(h[i])) by {
        assert(h[i] == s[i + 1]);
    }
    if hex_color(s) is Some {
        assert forall|i: int| 0 <= i < h.len() implies crate::color::validator::hex_char(
            #[trigger] h[i],
        ) by {
            assert(i == 0 || i == 1 || i == 2 || i == 3 || i == 4 || i == 5 || i == 6 || i == 7);
            assert(hex_digit(h[i]) is Some);
        }
    }
    if valid_color(s) {
        assert(hex_digit(h[0]) is Some);
        assert(hex_digit(h[1]) is Some);
        assert(hex_digit(h[2]) is Some);
        if h.len() >= 4 {
            assert(hex_digit(h[3]) is Some);
        }
        if h.len() >= 6 {
            assert(hex_digit(h[4]) is Some);
            assert(hex_digit(h[5]) is Some);
        }
        if h.len() == 8 {
            assert(hex_digit(h[6]) is Some);
            assert(hex_digit(h[7]) is Some);
        }
    }
}

/// `shorten_hex` shortens every colour it reads, whatever the notation: the result is the
/// shortest text of that colour, which reads back as the colour and is never longer than
/// its hex form.
pub proof fn law_shorten_hex_shortens(s: Seq<u8>, c: Color)
    requires
        s.len() > 0,
        convert(s) == ParsedColor::Rgba(c),
    ensures
        shorten_hex_result(s) == ShorteningView::Text(shortest_text(c)),
        convert(shortest_text(c)) == ParsedColor::Rgba(c),
        shortest_text(c).len() <= hex_form(c).len(),
{
    law_shortest_reads_back(c);
}

/// `shorten_hex` shortens every named colour written by its name to that colour's
/// shortest text (so `white` becomes `#fff`).
pub proof fn law_shorten_hex_names(i: int)
    requires
        0 <= i < KEYWORD_COUNT,
    ensures
        shorten_hex_result(keyword_name(i as usize)) == ShorteningView::Text(
            shortest_text(keyword_color(i as usize)),
        ),
{
    let name = keyword_name(i as usize);
    lemma_names_lower(i);
    lemma_lookup_own_name(i, false);
    assert(97 <= name[0] <= 122);
    assert(97 <= name.last() <= 122);
    assert(convert(name) == ParsedColor::Rgba(keyword_color(i as usize)));
}

/// A numeral of digits alone reads as its value.
proof fn lemma_whole_numeral(n: Seq<u8>, limit: nat, tail: bool)
    requires
        all_digits(n),
    ensures
        numeral(n, limit, tail) == Some((digits_value(n), 0nat, 0nat)),
{
    assert forall|j: int| 0 <= j < n.len() implies n[j] != 46 by {
        assert(48 <= n[j] <= 57);
    }
    lemma_dot_index(n, n.len() as int);
    assert(n.take(n.len() as int) =~= n);
}

/// A channel of one to three digits is its value, up to 255; above 255 it is refused.
pub proof fn law_channel_whole_number(n: Seq<u8>)
    requires
        1 <= n.len() <= 3,
        forall|i: int| 0 <= i < n.len() ==> 48 <= #[trigger] n[i] <= 57,
    ensures
        digits_value(n) <= 255 ==> channel_value(n) == Some(digits_value(n) as u8),
        digits_value(n) > 255 ==> channel_value(n) is None,
{
    lemma_whole_numeral(n, 3, true);
    let v = digits_value(n);
    assert(pow10(0) == 1);
    assert(v * pow10(0) + 0 == v);
    assert(fraction_limited(n, 3) == Some((v, 1nat)));
    assert(whole_of(n, 3) == v);
    assert((2 * v + 1) / 2 == v);
}

/// An alpha value written as a percentage of one to three digits, at most 100, is that
/// share of 255, rounded half up (`50%` gives 128); above 100 it is refused.
pub proof fn law_alpha_whole_percent(n: Seq<u8>)
    requires
        1 <= n.len() <= 3,
        forall|i: int| 0 <= i < n.len() ==> 48 <= #[trigger] n[i] <= 57,
    ensures
        digits_value(n) <= 100 ==> alpha_value(n.push(37)) == Some(
            ((2 * digits_value(n) * 255 + 100) / 200) as u8,
        ),
        digits_value(n) > 100 ==> alpha_value(n.push(37)) is None,
{
    let s = n.push(37);
    assert(s.drop_last() =~= n);
    assert(s.last() == 37);
    lemma_whole_numeral(n, 2, true);
    let v = digits_value(n);
    assert(pow10(0) == 1);
    assert(v * pow10(0) + 0 == v);
    assert(n[0] != 45);
    assert(fraction_limited(n, 2) == Some((v, 1nat)));
    assert(2 * ((v * 255) as nat) == 2 * v * 255) by (nonlinear_arith);
}

} // verus!
