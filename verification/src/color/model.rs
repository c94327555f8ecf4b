//! The colour model, and the results that carry the parts of an `hsl()` colour.
use vstd::prelude::*;

verus! {

/// An sRGB colour with an alpha channel, each channel in `0..=255`.
#[derive(Debug, PartialEq, Eq, Structural, Clone, Copy, Hash)]
pub struct Color {
    pub r: u8,
    pub g: u8,
    pub b: u8,
    pub a: u8,
}

impl Color {
    /// A colour from its four channels.
    pub fn new(r: u8, g: u8, b: u8, a: u8) -> (c: Self)
        ensures
            c == (Color { r, g, b, a }),
    {
        Color { r, g, b, a }
    }

    /// A fully opaque colour (alpha 255).
    pub fn new_rgb(r: u8, g: u8, b: u8) -> (c: Self)
        ensures
            c == (Color { r, g, b, a: 255 }),
    {
        Color { r, g, b, a: 255 }
    }

    /// Whether the alpha channel is at its maximum.
    pub fn is_opaque(self) -> (res: bool)
        ensures
            res == (self.a == 255),
    {
        self.a == 255
    }

    /// Whether the alpha channel is zero.
    pub fn is_transparent(self) -> (res: bool)
        ensures
            res == (self.a == 0),
    {
        self.a == 0
    }
}

/// An `hsl()` colour whose parts are well formed, before the hue, saturation and
/// lightness are turned into red, green and blue.
#[derive(Debug)]
pub struct HslTokens {
    /// The hue as written (a number with an optional angle unit).
    pub hue: Vec<u8>,
    /// The saturation as written (a percentage).
    pub saturation: Vec<u8>,
    /// The lightness as written (a percentage).
    pub lightness: Vec<u8>,
    /// The alpha channel, already read.
    pub alpha: u8,
}

/// The result of shortening: the text, or an `hsl()` colour still to be converted.
#[derive(Debug)]
pub enum Shortening {
    Text(Vec<u8>),
    NeedsHsl(HslTokens),
}

/// A colour read from text: ready, or an `hsl()` colour still to be converted.
#[derive(Debug)]
pub enum Conversion {
    Ready(Color),
    NeedsHsl(HslTokens),
}

/// What a `Conversion` holds, as plain values.
pub enum ConversionView {
    Ready(Color),
    NeedsHsl(Seq<u8>, Seq<u8>, Seq<u8>, u8),
}

impl View for Conversion {
    type V = ConversionView;

    open spec fn view(&self) -> ConversionView {
        match self {
            Conversion::Ready(c) => ConversionView::Ready(*c),
            Conversion::NeedsHsl(h) => ConversionView::NeedsHsl(
                h.hue@,
                h.saturation@,
                h.lightness@,
                h.alpha,
            ),
        }
    }
}

/// What an optional `Conversion` holds, as plain values.
pub open spec fn conversion_view(r: Option<Conversion>) -> Option<ConversionView> {
    match r {
        Some(c) => Some(c@),
        None => None,
    }
}

/// What a `Shortening` holds, as plain values.
pub enum ShorteningView {
    Text(Seq<u8>),
    NeedsHsl(Seq<u8>, Seq<u8>, Seq<u8>, u8),
}

impl View for Shortening {
    type V = ShorteningView;

    open spec fn view(&self) -> ShorteningView {
        match self {
            Shortening::Text(t) => ShorteningView::Text(t@),
            Shortening::NeedsHsl(h) => ShorteningView::NeedsHsl(
                h.hue@,
                h.saturation@,
                h.lightness@,
                h.alpha,
            ),
        }
    }
}

} // verus!
