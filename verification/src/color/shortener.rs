//! Shortening of colours and of colour text.
use vstd::prelude::*;
use vstd::string::StringSliceAdditionalSpecFns;

use crate::color::converter::{convert, try_convert_color};
use crate::color::model::{Color, Conversion, Shortening, ShorteningView};
use crate::format::{shortest_bytes, shortest_text};
use crate::text::bytes_text;
use crate::ParsedColor;

verus! {

/// The shortest CSS text for `color` (see `shortest_text`).
pub fn shorten_color(color: &Color) -> (s: String)
    ensures
        s@ == bytes_text(shortest_text(*color)),
{
    crate::color::converter::shorten_color(color)
}

/// What `shorten_hex` gives back for the text `s`: its shortest form when it is a colour,
/// the parts of an `hsl()` colour, or `s` itself when it is no colour.
pub open spec fn shorten_hex_result(s: Seq<u8>) -> ShorteningView {
    match convert(s) {
        ParsedColor::Invalid => ShorteningView::Text(s),
        ParsedColor::Rgba(c) => ShorteningView::Text(shortest_text(c)),
        ParsedColor::Hsl(h, sa, l, a) => ShorteningView::NeedsHsl(h, sa, l, a),
    }
}

/// Shortens the colour written in `hex` (any notation that `try_convert_color` reads);
/// text that is no colour comes back unchanged.
pub fn shorten_hex(hex: &str) -> (r: Shortening)
    requires
        hex.spec_bytes().len() > 0,
    ensures
        r@ == shorten_hex_result(hex.spec_bytes()),
{
    broadcast use vstd::string::group_string_axioms;
    match try_convert_color(hex) {
        Some(Conversion::Ready(c)) => Shortening::Text(shortest_bytes(c)),
        Some(Conversion::NeedsHsl(t)) => Shortening::NeedsHsl(t),
        None => Shortening::Text(vstd::slice::slice_to_vec(hex.as_bytes())),
    }
}

} // verus!
