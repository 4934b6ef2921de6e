//! Conversions between colors and the colors of the `anstyle` crate, for
//! interoperation with the anstyle ecosystem (clap, anstream, ...).

use vstd::prelude::*;
use crate::color::{is_canonical, spec_from_ansi, Color};
use crate::color_triplet::ColorTriplet;

verus! {

/// An anstyle color as plain values: one of the 16 named ANSI colors (by
/// its number, 0 to 15), a 256-color palette index, or an RGB color.
#[derive(Debug, Clone, Copy, PartialEq, Eq, Structural)]
pub enum AnstyleColorValue {
    Ansi(u8),
    Ansi256(u8),
    Rgb(u8, u8, u8),
}

/// What an `anstyle::Color` holds, read as plain values: the variant, and
/// the number (`Ansi256Color::index` of `Ansi256Color::from_ansi` for a named
/// color, `index` for a palette color) or the RGB components.
pub uninterp spec fn anstyle_read(c: anstyle::Color) -> AnstyleColorValue;

/// Builds the `anstyle::Color` that `v` describes: a named color through
/// `Ansi256Color::into_ansi`, a palette index as `Ansi256Color`, an RGB
/// color as `RgbColor`. Reading it back gives `v`: `from_ansi` undoes
/// `into_ansi` on `0..16`, and `index` and the RGB accessors give the
/// stored fields.
#[verifier::external_body]
pub(crate) fn build_anstyle(v: AnstyleColorValue) -> (c: anstyle::Color)
    requires
        v matches AnstyleColorValue::Ansi(n) ==> n < 16,
    ensures
        anstyle_read(c) == v,
{
    match v {
        AnstyleColorValue::Ansi(n) => anstyle::Color::Ansi(anstyle::Ansi256Color(n).into_ansi().unwrap()),
        AnstyleColorValue::Ansi256(n) => anstyle::Color::Ansi256(anstyle::Ansi256Color(n)),
        AnstyleColorValue::Rgb(r, g, b) => anstyle::Color::Rgb(anstyle::RgbColor(r, g, b)),
    }
}

/// Reads an `anstyle::Color` as plain values; a named color is numbered by
/// `Ansi256Color::from_ansi`, which gives 0 to 15.
#[verifier::external_body]
pub(crate) fn read_anstyle(c: anstyle::Color) -> (v: AnstyleColorValue)
    ensures
        v == anstyle_read(c),
        v matches AnstyleColorValue::Ansi(n) ==> n < 16,
{
    match c {
        anstyle::Color::Ansi(a) => AnstyleColorValue::Ansi(anstyle::Ansi256Color::from_ansi(a).index()),
        anstyle::Color::Ansi256(x) => AnstyleColorValue::Ansi256(x.index()),
        anstyle::Color::Rgb(x) => AnstyleColorValue::Rgb(x.r(), x.g(), x.b()),
    }
}

/// The anstyle color of a color: none for the default color; a named ANSI
/// color for standard and Windows colors 0 to 15; a palette index for other
/// numbered colors; RGB for true colors.
pub open spec fn spec_anstyle_value(c: Color) -> Option<AnstyleColorValue> {
    match c {
        Color::Default => None,
        Color::Standard(n) | Color::Windows(n) => if n < 16 {
            Some(AnstyleColorValue::Ansi(n))
        } else {
            Some(AnstyleColorValue::Ansi256(n))
        },
        Color::EightBit(n) => Some(AnstyleColorValue::Ansi256(n)),
        Color::TrueColor(t) => Some(AnstyleColorValue::Rgb(t.red, t.green, t.blue)),
    }
}

/// The color of an anstyle color: named colors and palette indices become
/// the palette color of that number, RGB becomes a true color.
pub open spec fn spec_color_of_anstyle(v: AnstyleColorValue) -> Color {
    match v {
        AnstyleColorValue::Ansi(n) | AnstyleColorValue::Ansi256(n) => spec_from_ansi(n),
        AnstyleColorValue::Rgb(r, g, b) => Color::TrueColor(ColorTriplet { red: r, green: g, blue: b }),
    }
}

/// The anstyle color of `color`, as plain values.
pub fn anstyle_value(color: &Color) -> (v: Option<AnstyleColorValue>)
    ensures
        v == spec_anstyle_value(*color),
{
    match color {
        Color::Default => None,
        Color::Standard(n) | Color::Windows(n) => {
            if *n < 16 {
                Some(AnstyleColorValue::Ansi(*n))
            } else {
                Some(AnstyleColorValue::Ansi256(*n))
            }
        },
        Color::EightBit(n) => Some(AnstyleColorValue::Ansi256(*n)),
        Color::TrueColor(t) => Some(AnstyleColorValue::Rgb(t.red, t.green, t.blue)),
    }
}

/// The color of an anstyle color given as plain values.
pub fn color_of_anstyle_value(v: AnstyleColorValue) -> (c: Color)
    ensures
        c == spec_color_of_anstyle(v),
{
    match v {
        AnstyleColorValue::Ansi(n) | AnstyleColorValue::Ansi256(n) => Color::from_ansi(n),
        AnstyleColorValue::Rgb(r, g, b) => Color::from_rgb(r, g, b),
    }
}

/// Converts a color to an `anstyle::Color`; the default color has none.
pub fn color_to_anstyle(color: &Color) -> (r: Option<anstyle::Color>)
    ensures
        r is Some <==> spec_anstyle_value(*color) is Some,
        r matches Some(a) ==> Some(anstyle_read(a)) == spec_anstyle_value(*color),
{
    match anstyle_value(color) {
        Some(v) => Some(build_anstyle(v)),
        None => None,
    }
}

/// Converts an `anstyle::Color` to a color: a named ANSI color or palette
/// index becomes the palette color of that number, RGB a true color. It is
/// never the default color nor a Windows color.
pub fn color_from_anstyle(color: anstyle::Color) -> (c: Color)
    ensures
        c == spec_color_of_anstyle(anstyle_read(color)),
        c != Color::Default,
        c !is Windows,
        c matches Color::Standard(n) ==> n < 16,
        c matches Color::EightBit(n) ==> n >= 16,
{
    let v = read_anstyle(color);
    color_of_anstyle_value(v)
}

/// Converting a canonical color to anstyle and back gives the color again,
/// except that a Windows color comes back as the standard color of the same
/// number; the default color has no anstyle color.
pub proof fn lemma_anstyle_round_trip(c: Color)
    requires
        is_canonical(c),
    ensures
        c == Color::Default <==> spec_anstyle_value(c) is None,
        spec_anstyle_value(c) matches Some(v) ==> spec_color_of_anstyle(v) == match c {
            Color::Windows(n) => Color::Standard(n),
            _ => c,
        },
{
}

/// Converting an anstyle color to a color and back gives it again.
pub proof fn lemma_anstyle_value_round_trip(v: AnstyleColorValue)
    requires
        v matches AnstyleColorValue::Ansi(n) ==> n < 16,
        v matches AnstyleColorValue::Ansi256(n) ==> n >= 16,
    ensures
        spec_anstyle_value(spec_color_of_anstyle(v)) == Some(v),
{
}

/// Converting a canonical color to anstyle and back gives the color again
/// (a Windows color comes back as the standard color of the same number):
/// for every anstyle color `a` that [`color_to_anstyle`] may give for `c`,
/// [`color_from_anstyle`] of `a` is that color.
pub proof fn lemma_anstyle_conversion_round_trip(c: Color, a: anstyle::Color)
    requires
        is_canonical(c),
        Some(anstyle_read(a)) == spec_anstyle_value(c),
    ensures
        spec_color_of_anstyle(anstyle_read(a)) == match c {
            Color::Windows(n) => Color::Standard(n),
            _ => c,
        },
{
    lemma_anstyle_round_trip(c);
}

} // verus!
