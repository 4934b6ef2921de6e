use gilt::anstyle_style::{attrs_from_anstyle, attrs_to_anstyle, StyleAttrs, UnderlineStyle};
use gilt::color::Color;
use gilt::color_triplet::ColorTriplet;

fn plain() -> StyleAttrs {
    StyleAttrs {
        color: None,
        bgcolor: None,
        underline_color: None,
        bold: None,
        dim: None,
        italic: None,
        underline: None,
        blink: None,
        reverse: None,
        conceal: None,
        strike: None,
        underline_style: None,
    }
}

#[test]
fn anstyle_style_round_trip() {
    let a = StyleAttrs {
        color: Some(Color::Standard(1)),
        bgcolor: Some(Color::EightBit(200)),
        underline_color: Some(Color::TrueColor(ColorTriplet::new(1, 2, 3))),
        bold: Some(true),
        underline: Some(true),
        strike: Some(true),
        underline_style: Some(UnderlineStyle::Curly),
        ..plain()
    };
    let s = attrs_to_anstyle(&a);
    assert_eq!(s.get_fg_color(), Some(anstyle::Color::Ansi(anstyle::AnsiColor::Red)));
    assert_eq!(s.get_bg_color(), Some(anstyle::Color::Ansi256(anstyle::Ansi256Color(200))));
    assert_eq!(s.get_underline_color(), Some(anstyle::Color::Rgb(anstyle::RgbColor(1, 2, 3))));
    let e = s.get_effects();
    assert!(e.contains(anstyle::Effects::BOLD));
    assert!(e.contains(anstyle::Effects::UNDERLINE));
    assert!(e.contains(anstyle::Effects::CURLY_UNDERLINE));
    assert!(e.contains(anstyle::Effects::STRIKETHROUGH));
    assert!(!e.contains(anstyle::Effects::ITALIC));
    assert_eq!(attrs_from_anstyle(s), a);
}

#[test]
fn anstyle_style_to_drops_default_and_off() {
    let a = StyleAttrs {
        color: Some(Color::Default),
        bold: Some(false),
        dim: Some(true),
        reverse: Some(true),
        conceal: Some(true),
        underline_style: Some(UnderlineStyle::Single),
        ..plain()
    };
    let s = attrs_to_anstyle(&a);
    assert_eq!(s.get_fg_color(), None);
    let e = s.get_effects();
    assert!(!e.contains(anstyle::Effects::BOLD));
    assert!(e.contains(anstyle::Effects::DIMMED));
    assert!(e.contains(anstyle::Effects::INVERT));
    assert!(e.contains(anstyle::Effects::HIDDEN));
    assert!(e.contains(anstyle::Effects::UNDERLINE));
    let back = attrs_from_anstyle(s);
    assert_eq!(back.color, None);
    assert_eq!(back.bold, None);
    assert_eq!(back.underline, Some(true));
    assert_eq!(back.underline_style, None);
}

#[test]
fn anstyle_style_from_effects() {
    let s = anstyle::Style::new()
        .fg_color(Some(anstyle::Color::Ansi256(anstyle::Ansi256Color(9))))
        .italic()
        .blink()
        .effects(anstyle::Effects::DOTTED_UNDERLINE | anstyle::Effects::DOUBLE_UNDERLINE);
    let a = attrs_from_anstyle(s);
    assert_eq!(a.color, Some(Color::Standard(9)));
    assert_eq!(a.italic, None);
    assert_eq!(a.underline, Some(true));
    assert_eq!(a.underline_style, Some(UnderlineStyle::Dotted));
    let s2 = anstyle::Style::new().italic().blink();
    let a2 = attrs_from_anstyle(s2);
    assert_eq!(a2, StyleAttrs { italic: Some(true), blink: Some(true), ..plain() });
    assert_eq!(attrs_from_anstyle(anstyle::Style::new()), plain());
}
