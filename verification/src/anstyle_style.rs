//! Conversions between style attributes and the styles of the `anstyle`
//! crate: foreground, background and underline colors and the text effects.

use vstd::prelude::*;
use crate::anstyle_adapter::{
    anstyle_read, build_anstyle, read_anstyle, spec_anstyle_value, spec_color_of_anstyle, AnstyleColorValue,
    anstyle_value, color_of_anstyle_value, lemma_anstyle_round_trip,
};
use crate::color::{is_canonical, Color};

verus! {

/// The kind of underline.
#[derive(Debug, Clone, Copy, PartialEq, Eq, Structural)]
pub enum UnderlineStyle {
    Single,
    Curly,
    Dotted,
    Dashed,
    Double,
}

/// The attributes of a style that anstyle can carry: the foreground,
/// background and underline colors, and each attribute as set on
/// (`Some(true)`), set off (`Some(false)`) or not set (`None`).
#[derive(Debug, Clone, Copy, PartialEq, Eq, Structural)]
pub struct StyleAttrs {
    pub color: Option<Color>,
    pub bgcolor: Option<Color>,
    pub underline_color: Option<Color>,
    pub bold: Option<bool>,
    pub dim: Option<bool>,
    pub italic: Option<bool>,
    pub underline: Option<bool>,
    pub blink: Option<bool>,
    pub reverse: Option<bool>,
    pub conceal: Option<bool>,
    pub strike: Option<bool>,
    pub underline_style: Option<UnderlineStyle>,
}

/// The effects of an anstyle style, one flag each.
#[derive(Debug, Clone, Copy, PartialEq, Eq, Structural)]
pub struct EffectFlags {
    pub bold: bool,
    pub dimmed: bool,
    pub italic: bool,
    pub underline: bool,
    pub double_underline: bool,
    pub curly_underline: bool,
    pub dotted_underline: bool,
    pub dashed_underline: bool,
    pub blink: bool,
    pub invert: bool,
    pub hidden: bool,
    pub strikethrough: bool,
}

/// One anstyle effect.
#[derive(Debug, Clone, Copy, PartialEq, Eq, Structural)]
pub enum AnstyleEffect {
    Bold,
    Dimmed,
    Italic,
    Underline,
    DoubleUnderline,
    CurlyUnderline,
    DottedUnderline,
    DashedUnderline,
    Blink,
    Invert,
    Hidden,
    Strikethrough,
}

/// An anstyle style as plain values.
#[derive(Debug, Clone, Copy, PartialEq, Eq, Structural)]
pub struct AnstyleStyleValue {
    pub fg: Option<AnstyleColorValue>,
    pub bg: Option<AnstyleColorValue>,
    pub underline: Option<AnstyleColorValue>,
    pub effects: EffectFlags,
}

/// No effect set.
pub open spec fn no_effects() -> EffectFlags {
    EffectFlags {
        bold: false,
        dimmed: false,
        italic: false,
        underline: false,
        double_underline: false,
        curly_underline: false,
        dotted_underline: false,
        dashed_underline: false,
        blink: false,
        invert: false,
        hidden: false,
        strikethrough: false,
    }
}

/// Whether effect `e` is set in `f`.
pub open spec fn has_flag(f: EffectFlags, e: AnstyleEffect) -> bool {
    match e {
        AnstyleEffect::Bold => f.bold,
        AnstyleEffect::Dimmed => f.dimmed,
        AnstyleEffect::Italic => f.italic,
        AnstyleEffect::Underline => f.underline,
        AnstyleEffect::DoubleUnderline => f.double_underline,
        AnstyleEffect::CurlyUnderline => f.curly_underline,
        AnstyleEffect::DottedUnderline => f.dotted_underline,
        AnstyleEffect::DashedUnderline => f.dashed_underline,
        AnstyleEffect::Blink => f.blink,
        AnstyleEffect::Invert => f.invert,
        AnstyleEffect::Hidden => f.hidden,
        AnstyleEffect::Strikethrough => f.strikethrough,
    }
}

/// `f` with effect `e` set.
pub open spec fn set_flag(f: EffectFlags, e: AnstyleEffect) -> EffectFlags {
    match e {
        AnstyleEffect::Bold => EffectFlags { bold: true, ..f },
        AnstyleEffect::Dimmed => EffectFlags { dimmed: true, ..f },
        AnstyleEffect::Italic => EffectFlags { italic: true, ..f },
        AnstyleEffect::Underline => EffectFlags { underline: true, ..f },
        AnstyleEffect::DoubleUnderline => EffectFlags { double_underline: true, ..f },
        AnstyleEffect::CurlyUnderline => EffectFlags { curly_underline: true, ..f },
        AnstyleEffect::DottedUnderline => EffectFlags { dotted_underline: true, ..f },
        AnstyleEffect::DashedUnderline => EffectFlags { dashed_underline: true, ..f },
        AnstyleEffect::Blink => EffectFlags { blink: true, ..f },
        AnstyleEffect::Invert => EffectFlags { invert: true, ..f },
        AnstyleEffect::Hidden => EffectFlags { hidden: true, ..f },
        AnstyleEffect::Strikethrough => EffectFlags { strikethrough: true, ..f },
    }
}

/// What an `anstyle::Style` holds, read as plain values: its three colors
/// (each read as [`anstyle_read`] reads a color) and its effects.
pub uninterp spec fn anstyle_style_read(s: anstyle::Style) -> AnstyleStyleValue;

/// An optional anstyle color read as plain values.
pub open spec fn opt_read(o: Option<anstyle::Color>) -> Option<AnstyleColorValue> {
    match o {
        Some(c) => Some(anstyle_read(c)),
        None => None,
    }
}

/// `anstyle::Style::new`: no colors and no effects.
#[verifier::external_body]
fn style_new() -> (s: anstyle::Style)
    ensures
        anstyle_style_read(s) == (AnstyleStyleValue { fg: None, bg: None, underline: None, effects: no_effects() }),
{
    anstyle::Style::new()
}

/// `Style::fg_color`, `bg_color` and `underline_color`: the three colors
/// replaced, the effects kept.
#[verifier::external_body]
fn style_set_colors(
    s: anstyle::Style,
    fg: Option<anstyle::Color>,
    bg: Option<anstyle::Color>,
    ul: Option<anstyle::Color>,
) -> (r: anstyle::Style)
    ensures
        anstyle_style_read(r) == (AnstyleStyleValue {
            fg: opt_read(fg),
            bg: opt_read(bg),
            underline: opt_read(ul),
            effects: anstyle_style_read(s).effects,
        }),
{
    s.fg_color(fg).bg_color(bg).underline_color(ul)
}

/// `Style::get_fg_color`, `get_bg_color` and `get_underline_color`.
#[verifier::external_body]
fn style_colors(s: anstyle::Style) -> (r: (Option<anstyle::Color>, Option<anstyle::Color>, Option<anstyle::Color>))
    ensures
        opt_read(r.0) == anstyle_style_read(s).fg,
        opt_read(r.1) == anstyle_style_read(s).bg,
        opt_read(r.2) == anstyle_style_read(s).underline,
{
    (s.get_fg_color(), s.get_bg_color(), s.get_underline_color())
}

/// `Style::effects` of `get_effects().insert(e)`: effect `e` added, the
/// colors and other effects kept.
#[verifier::external_body]
fn style_insert_effect(s: anstyle::Style, e: AnstyleEffect) -> (r: anstyle::Style)
    ensures
        anstyle_style_read(r) == (AnstyleStyleValue {
            effects: set_flag(anstyle_style_read(s).effects, e),
            ..anstyle_style_read(s)
        }),
{
    let f = match e {
        AnstyleEffect::Bold => anstyle::Effects::BOLD,
        AnstyleEffect::Dimmed => anstyle::Effects::DIMMED,
        AnstyleEffect::Italic => anstyle::Effects::ITALIC,
        AnstyleEffect::Underline => anstyle::Effects::UNDERLINE,
        AnstyleEffect::DoubleUnderline => anstyle::Effects::DOUBLE_UNDERLINE,
        AnstyleEffect::CurlyUnderline => anstyle::Effects::CURLY_UNDERLINE,
        AnstyleEffect::DottedUnderline => anstyle::Effects::DOTTED_UNDERLINE,
        AnstyleEffect::DashedUnderline => anstyle::Effects::DASHED_UNDERLINE,
        AnstyleEffect::Blink => anstyle::Effects::BLINK,
        AnstyleEffect::Invert => anstyle::Effects::INVERT,
        AnstyleEffect::Hidden => anstyle::Effects::HIDDEN,
        AnstyleEffect::Strikethrough => anstyle::Effects::STRIKETHROUGH,
    };
    s.effects(s.get_effects().insert(f))
}

/// `Style::get_effects().contains(e)`.
#[verifier::external_body]
fn style_has_effect(s: anstyle::Style, e: AnstyleEffect) -> (b: bool)
    ensures
        b == has_flag(anstyle_style_read(s).effects, e),
{
    let f = match e {
        AnstyleEffect::Bold => anstyle::Effects::BOLD,
        AnstyleEffect::Dimmed => anstyle::Effects::DIMMED,
        AnstyleEffect::Italic => anstyle::Effects::ITALIC,
        AnstyleEffect::Underline => anstyle::Effects::UNDERLINE,
        AnstyleEffect::DoubleUnderline => anstyle::Effects::DOUBLE_UNDERLINE,
        AnstyleEffect::CurlyUnderline => anstyle::Effects::CURLY_UNDERLINE,
        AnstyleEffect::DottedUnderline => anstyle::Effects::DOTTED_UNDERLINE,
        AnstyleEffect::DashedUnderline => anstyle::Effects::DASHED_UNDERLINE,
        AnstyleEffect::Blink => anstyle::Effects::BLINK,
        AnstyleEffect::Invert => anstyle::Effects::INVERT,
        AnstyleEffect::Hidden => anstyle::Effects::HIDDEN,
        AnstyleEffect::Strikethrough => anstyle::Effects::STRIKETHROUGH,
    };
    s.get_effects().contains(f)
}

/// The anstyle color of an optional color: none for no color or the
/// default color.
pub open spec fn spec_opt_color_value(c: Option<Color>) -> Option<AnstyleColorValue> {
    match c {
        Some(c) => spec_anstyle_value(c),
        None => None,
    }
}

/// The color of an optional anstyle color.
pub open spec fn spec_opt_color_of(v: Option<AnstyleColorValue>) -> Option<Color> {
    match v {
        Some(v) => Some(spec_color_of_anstyle(v)),
        None => None,
    }
}

/// The anstyle style of style attributes: the colors that anstyle has (the
/// default color has none); each attribute set on becomes its effect, and
/// the underline style its underline effect (a single underline is the
/// plain underline effect).
pub open spec fn spec_attrs_to_anstyle(a: StyleAttrs) -> AnstyleStyleValue {
    AnstyleStyleValue {
        fg: spec_opt_color_value(a.color),
        bg: spec_opt_color_value(a.bgcolor),
        underline: spec_opt_color_value(a.underline_color),
        effects: EffectFlags {
            bold: a.bold == Some(true),
            dimmed: a.dim == Some(true),
            italic: a.italic == Some(true),
            underline: a.underline == Some(true) || a.underline_style == Some(UnderlineStyle::Single),
            double_underline: a.underline_style == Some(UnderlineStyle::Double),
            curly_underline: a.underline_style == Some(UnderlineStyle::Curly),
            dotted_underline: a.underline_style == Some(UnderlineStyle::Dotted),
            dashed_underline: a.underline_style == Some(UnderlineStyle::Dashed),
            blink: a.blink == Some(true),
            invert: a.reverse == Some(true),
            hidden: a.conceal == Some(true),
            strikethrough: a.strike == Some(true),
        },
    }
}

/// `Some(true)` for a set flag, else not set.
pub open spec fn on_or_unset(b: bool) -> Option<bool> {
    if b {
        Some(true)
    } else {
        None
    }
}

/// The style attributes of an anstyle style: its colors converted, each
/// effect set as its attribute on (others not set); of the underline
/// effects the first of curly, dotted, dashed, double and plain decides the
/// underline style (none for plain), any of them sets underline on.
pub open spec fn spec_attrs_from_anstyle(v: AnstyleStyleValue) -> StyleAttrs {
    let e = v.effects;
    let ul_style = if e.curly_underline {
        Some(UnderlineStyle::Curly)
    } else if e.dotted_underline {
        Some(UnderlineStyle::Dotted)
    } else if e.dashed_underline {
        Some(UnderlineStyle::Dashed)
    } else if e.double_underline {
        Some(UnderlineStyle::Double)
    } else {
        None
    };
    StyleAttrs {
        color: spec_opt_color_of(v.fg),
        bgcolor: spec_opt_color_of(v.bg),
        underline_color: spec_opt_color_of(v.underline),
        bold: on_or_unset(e.bold),
        dim: on_or_unset(e.dimmed),
        italic: on_or_unset(e.italic),
        underline: on_or_unset(
            e.curly_underline || e.dotted_underline || e.dashed_underline || e.double_underline || e.underline,
        ),
        blink: on_or_unset(e.blink),
        reverse: on_or_unset(e.invert),
        conceal: on_or_unset(e.hidden),
        strike: on_or_unset(e.strikethrough),
        underline_style: ul_style,
    }
}

fn opt_color_value(c: Option<Color>) -> (r: Option<AnstyleColorValue>)
    ensures
        r == spec_opt_color_value(c),
{
    match c {
        Some(c) => anstyle_value(&c),
        None => None,
    }
}

fn opt_color_of(v: Option<AnstyleColorValue>) -> (r: Option<Color>)
    ensures
        r == spec_opt_color_of(v),
{
    match v {
        Some(v) => Some(color_of_anstyle_value(v)),
        None => None,
    }
}

/// The anstyle style of style attributes, as plain values; see
/// [`spec_attrs_to_anstyle`].
pub fn attrs_to_anstyle_value(a: &StyleAttrs) -> (v: AnstyleStyleValue)
    ensures
        v == spec_attrs_to_anstyle(*a),
{
    AnstyleStyleValue {
        fg: opt_color_value(a.color),
        bg: opt_color_value(a.bgcolor),
        underline: opt_color_value(a.underline_color),
        effects: EffectFlags {
            bold: a.bold == Some(true),
            dimmed: a.dim == Some(true),
            italic: a.italic == Some(true),
            underline: a.underline == Some(true) || a.underline_style == Some(UnderlineStyle::Single),
            double_underline: a.underline_style == Some(UnderlineStyle::Double),
            curly_underline: a.underline_style == Some(UnderlineStyle::Curly),
            dotted_underline: a.underline_style == Some(UnderlineStyle::Dotted),
            dashed_underline: a.underline_style == Some(UnderlineStyle::Dashed),
            blink: a.blink == Some(true),
            invert: a.reverse == Some(true),
            hidden: a.conceal == Some(true),
            strikethrough: a.strike == Some(true),
        },
    }
}

fn on_or_none(b: bool) -> (r: Option<bool>)
    ensures
        r == on_or_unset(b),
{
    if b {
        Some(true)
    } else {
        None
    }
}

/// The style attributes of an anstyle style given as plain values; see
/// [`spec_attrs_from_anstyle`].
pub fn attrs_from_anstyle_value(v: &AnstyleStyleValue) -> (a: StyleAttrs)
    ensures
        a == spec_attrs_from_anstyle(*v),
{
    let e = v.effects;
    let ul_style = if e.curly_underline {
        Some(UnderlineStyle::Curly)
    } else if e.dotted_underline {
        Some(UnderlineStyle::Dotted)
    } else if e.dashed_underline {
        Some(UnderlineStyle::Dashed)
    } else if e.double_underline {
        Some(UnderlineStyle::Double)
    } else {
        None
    };
    StyleAttrs {
        color: opt_color_of(v.fg),
        bgcolor: opt_color_of(v.bg),
        underline_color: opt_color_of(v.underline),
        bold: on_or_none(e.bold),
        dim: on_or_none(e.dimmed),
        italic: on_or_none(e.italic),
        underline: on_or_none(
            e.curly_underline || e.dotted_underline || e.dashed_underline || e.double_underline || e.underline,
        ),
        blink: on_or_none(e.blink),
        reverse: on_or_none(e.invert),
        conceal: on_or_none(e.hidden),
        strike: on_or_none(e.strikethrough),
        underline_style: ul_style,
    }
}

fn build_opt(v: Option<AnstyleColorValue>) -> (r: Option<anstyle::Color>)
    requires
        v matches Some(AnstyleColorValue::Ansi(n)) ==> n < 16,
    ensures
        opt_read(r) == v,
{
    match v {
        Some(x) => Some(build_anstyle(x)),
        None => None,
    }
}

fn read_opt(c: Option<anstyle::Color>) -> (r: Option<AnstyleColorValue>)
    ensures
        r == opt_read(c),
{
    match c {
        Some(x) => Some(read_anstyle(x)),
        None => None,
    }
}

/// Adds effect `e` to `s` when `on`.
fn insert_if(s: anstyle::Style, on: bool, e: AnstyleEffect) -> (r: anstyle::Style)
    ensures
        anstyle_style_read(r) == if on {
            AnstyleStyleValue { effects: set_flag(anstyle_style_read(s).effects, e), ..anstyle_style_read(s) }
        } else {
            anstyle_style_read(s)
        },
{
    if on {
        style_insert_effect(s, e)
    } else {
        s
    }
}

/// Converts style attributes to an `anstyle::Style`; see
/// [`spec_attrs_to_anstyle`].
pub fn attrs_to_anstyle(a: &StyleAttrs) -> (s: anstyle::Style)
    ensures
        anstyle_style_read(s) == spec_attrs_to_anstyle(*a),
{
    let v = attrs_to_anstyle_value(a);
    let e = v.effects;
    let s0 = style_new();
    let s1 = style_set_colors(s0, build_opt(v.fg), build_opt(v.bg), build_opt(v.underline));
    let s2 = insert_if(s1, e.bold, AnstyleEffect::Bold);
    let s3 = insert_if(s2, e.dimmed, AnstyleEffect::Dimmed);
    let s4 = insert_if(s3, e.italic, AnstyleEffect::Italic);
    let s5 = insert_if(s4, e.underline, AnstyleEffect::Underline);
    let s6 = insert_if(s5, e.double_underline, AnstyleEffect::DoubleUnderline);
    let s7 = insert_if(s6, e.curly_underline, AnstyleEffect::CurlyUnderline);
    let s8 = insert_if(s7, e.dotted_underline, AnstyleEffect::DottedUnderline);
    let s9 = insert_if(s8, e.dashed_underline, AnstyleEffect::DashedUnderline);
    let s10 = insert_if(s9, e.blink, AnstyleEffect::Blink);
    let s11 = insert_if(s10, e.invert, AnstyleEffect::Invert);
    let s12 = insert_if(s11, e.hidden, AnstyleEffect::Hidden);
    insert_if(s12, e.strikethrough, AnstyleEffect::Strikethrough)
}

/// Converts an `anstyle::Style` to style attributes; see
/// [`spec_attrs_from_anstyle`].
pub fn attrs_from_anstyle(s: anstyle::Style) -> (a: StyleAttrs)
    ensures
        a == spec_attrs_from_anstyle(anstyle_style_read(s)),
{
    let (fg, bg, ul) = style_colors(s);
    let effects = EffectFlags {
        bold: style_has_effect(s, AnstyleEffect::Bold),
        dimmed: style_has_effect(s, AnstyleEffect::Dimmed),
        italic: style_has_effect(s, AnstyleEffect::Italic),
        underline: style_has_effect(s, AnstyleEffect::Underline),
        double_underline: style_has_effect(s, AnstyleEffect::DoubleUnderline),
        curly_underline: style_has_effect(s, AnstyleEffect::CurlyUnderline),
        dotted_underline: style_has_effect(s, AnstyleEffect::DottedUnderline),
        dashed_underline: style_has_effect(s, AnstyleEffect::DashedUnderline),
        blink: style_has_effect(s, AnstyleEffect::Blink),
        invert: style_has_effect(s, AnstyleEffect::Invert),
        hidden: style_has_effect(s, AnstyleEffect::Hidden),
        strikethrough: style_has_effect(s, AnstyleEffect::Strikethrough),
    };
    let v = AnstyleStyleValue { fg: read_opt(fg), bg: read_opt(bg), underline: read_opt(ul), effects };
    attrs_from_anstyle_value(&v)
}

/// A color that converts to anstyle and back unchanged: not the default
/// color nor a Windows color, and in canonical form.
pub open spec fn anstyle_exact(c: Option<Color>) -> bool {
    c matches Some(x) ==> (is_canonical(x) && x != Color::Default && !(x is Windows))
}

/// Converting style attributes to anstyle and back gives them again, for
/// attributes whose colors convert exactly, whose flags are on or not set,
/// and whose underline style (other than single) comes with underline on.
pub proof fn lemma_attrs_round_trip(a: StyleAttrs)
    requires
        anstyle_exact(a.color),
        anstyle_exact(a.bgcolor),
        anstyle_exact(a.underline_color),
        a.bold != Some(false),
        a.dim != Some(false),
        a.italic != Some(false),
        a.underline != Some(false),
        a.blink != Some(false),
        a.reverse != Some(false),
        a.conceal != Some(false),
        a.strike != Some(false),
        a.underline_style != Some(UnderlineStyle::Single),
        a.underline_style is Some ==> a.underline == Some(true),
    ensures
        spec_attrs_from_anstyle(spec_attrs_to_anstyle(a)) == a,
{
    if let Some(c) = a.color {
        lemma_anstyle_round_trip(c);
    }
    if let Some(c) = a.bgcolor {
        lemma_anstyle_round_trip(c);
    }
    if let Some(c) = a.underline_color {
        lemma_anstyle_round_trip(c);
    }
    lemma_flag_round_trip(a.bold);
    lemma_flag_round_trip(a.dim);
    lemma_flag_round_trip(a.italic);
    lemma_flag_round_trip(a.underline);
    lemma_flag_round_trip(a.blink);
    lemma_flag_round_trip(a.reverse);
    lemma_flag_round_trip(a.conceal);
    lemma_flag_round_trip(a.strike);
    let t = spec_attrs_to_anstyle(a);
    let e = t.effects;
    assert(e.curly_underline || e.dotted_underline || e.dashed_underline || e.double_underline || e.underline
        <==> a.underline == Some(true));
    let b = spec_attrs_from_anstyle(t);
    assert(b.underline == a.underline);
    match a.underline_style {
        Some(UnderlineStyle::Curly) => assert(e.curly_underline),
        Some(UnderlineStyle::Dotted) => assert(!e.curly_underline && e.dotted_underline),
        Some(UnderlineStyle::Dashed) => assert(!e.curly_underline && !e.dotted_underline && e.dashed_underline),
        Some(UnderlineStyle::Double) => assert(!e.curly_underline && !e.dotted_underline && !e.dashed_underline && e.double_underline),
        _ => assert(!e.curly_underline && !e.dotted_underline && !e.dashed_underline && !e.double_underline),
    }
    assert(b.underline_style == a.underline_style);
}

proof fn lemma_flag_round_trip(o: Option<bool>)
    requires
        o != Some(false),
    ensures
        on_or_unset(o == Some(true)) == o,
{
    match o {
        Some(x) => {
            assert(x);
        },
        None => {},
    }
}

} // verus!
