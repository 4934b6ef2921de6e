use gilt::barchart::{bar_layout, BarLayout};
use gilt::anstyle_adapter::{anstyle_value, color_from_anstyle, color_to_anstyle, AnstyleColorValue};
use gilt::accordion::{Accordion, AccordionGroup};
use gilt::ansi::{ansi_tokenize, osc_link, parse_sgr_codes, sgr_actions, visible_after_carriage_return, SgrAction};
use gilt::badge::{Badge, BadgeStyle};
use gilt::breadcrumbs::Breadcrumbs;
use gilt::canvas::{Blitter, Canvas};
use gilt::cells::{cell_len, chop_cells, get_character_cell_size, set_cell_size};
use gilt::color::{Color, ColorSystem, ColorType};
use gilt::color_cache::ColorCache;
use gilt::color_env::{color_env_from, reduce_motion_from, tty_override_from, ColorEnvOverride, TtyOverride};
use gilt::color_names::{ansi_color_name, get_ansi_color_number};
use gilt::color_triplet::ColorTriplet;
use gilt::columns::Columns;
use gilt::console::{
    detect_color_system_from, detect_modern_windows_terminal, ConsoleDimensions, ConsoleOptions,
    ConsoleOptionsUpdates, JustifyMethod, OverflowMethod,
};
use gilt::palette::{eight_bit_palette, generate_eight_bit_palette, standard_palette, windows_palette, Palette};
use gilt::terminal_theme::{default_terminal_theme, dracula, ThemeRegistry};

fn options() -> ConsoleOptions {
    ConsoleOptions {
        size: ConsoleDimensions { width: 80, height: 25 },
        legacy_windows: false,
        min_width: 10,
        max_width: 80,
        is_terminal: true,
        encoding: "utf-8".to_string(),
        max_height: 25,
        justify: None,
        overflow: None,
        no_wrap: None,
        highlight: None,
        markup: None,
        height: None,
    }
}

// -- canvas laws on concrete values ------------------------------------------

#[test]
fn canvas_toggle_twice_restores_cells() {
    let mut c = Canvas::new(3, 2);
    c.set(1, 2);
    c.set(4, 7);
    let before = c.pixels().clone();
    c.toggle(1, 2);
    c.toggle(1, 2);
    c.toggle(5, 5);
    c.toggle(5, 5);
    assert_eq!(c.pixels(), &before);
}

#[test]
fn canvas_set_leaves_other_pixels() {
    let mut c = Canvas::new(2, 2).with_blitter(Blitter::Sextant);
    c.set(1, 1);
    for y in 0..c.pixel_height() {
        for x in 0..c.pixel_width() {
            assert_eq!(c.get(x, y), x == 1 && y == 1, "pixel ({x},{y})");
        }
    }
    c.unset(1, 1);
    assert!(!c.get(1, 1));
}

#[test]
fn canvas_halfblock_addresses() {
    let mut c = Canvas::new(3, 2).with_blitter(Blitter::HalfBlock);
    assert_eq!(c.pixel_width(), 3);
    assert_eq!(c.pixel_height(), 4);
    c.set(2, 3);
    assert_eq!(c.pixels()[1][2], 0x02);
    assert_eq!(c.frame(), "   \n  \u{2584}");
}

#[test]
fn canvas_rect_draws_exactly_the_border() {
    let mut c = Canvas::new(5, 3);
    c.rect(1, 2, 6, 5);
    for y in 0..c.pixel_height() {
        for x in 0..c.pixel_width() {
            let inside = (1..=6).contains(&x) && (2..=6).contains(&y);
            let border = inside && (x == 1 || x == 6 || y == 2 || y == 6);
            assert_eq!(c.get(x, y), border, "pixel ({x},{y})");
        }
    }
}

#[test]
fn canvas_fill_rect_draws_exactly_the_inside() {
    let mut c = Canvas::new(4, 2);
    c.fill_rect(2, 3, 3, 2);
    for y in 0..c.pixel_height() {
        for x in 0..c.pixel_width() {
            let inside = (2..5).contains(&x) && (3..5).contains(&y);
            assert_eq!(c.get(x, y), inside, "pixel ({x},{y})");
        }
    }
}

#[test]
fn canvas_line_is_a_connected_path() {
    let mut c = Canvas::new(10, 5);
    c.line(1, 2, 17, 9);
    assert!(c.get(1, 2));
    assert!(c.get(17, 9));
    for x in 1..=17usize {
        assert!((0..c.pixel_height()).any(|y| c.get(x, y)), "column {x} is met");
    }
}

#[test]
fn canvas_line_clips_negative_coordinates() {
    let mut c = Canvas::new(2, 1);
    c.line(-3, 0, 3, 0);
    for x in 0..4 {
        assert!(c.get(x, 0));
    }
}

#[test]
fn canvas_circle_is_symmetric() {
    let mut c = Canvas::new(10, 5);
    c.circle(9, 9, 6);
    for y in 0..c.pixel_height() {
        for x in 0..c.pixel_width() {
            if c.get(x, y) {
                let (a, b) = (x as i64 - 9, y as i64 - 9);
                let mirror = |p: i64, q: i64| c.get((9 + p) as usize, (9 + q) as usize);
                assert!(mirror(-a, b) && mirror(a, -b) && mirror(b, a), "({x},{y})");
            }
        }
    }
    assert!(c.get(15, 9) && c.get(3, 9) && c.get(9, 15) && c.get(9, 3));
}

#[test]
fn canvas_clear_turns_everything_off() {
    let mut c = Canvas::new(3, 3).with_blitter(Blitter::Octant);
    c.fill_rect(0, 0, 6, 12);
    c.clear();
    for y in 0..c.pixel_height() {
        for x in 0..c.pixel_width() {
            assert!(!c.get(x, y));
        }
    }
    assert_eq!(c.frame(), "   \n   \n   ");
}

#[test]
fn canvas_frame_length() {
    let c = Canvas::new(4, 3);
    assert_eq!(c.frame().chars().count(), 3 * 4 + 2);
}

#[test]
fn canvas_sextant_full_and_bits() {
    let mut c = Canvas::new(1, 1).with_blitter(Blitter::Sextant);
    c.fill_rect(0, 0, 2, 3);
    assert_eq!(c.frame(), "\u{2588}");
    c.unset(1, 2);
    assert_eq!(c.frame(), "\u{1FB1E}");
}

// -- cells -------------------------------------------------------------------

#[test]
fn chop_cells_lines_put_back_together() {
    for text in ["abcdefghijk", "あ1り234が5と6う78", "😽😽😽", ""] {
        for width in 1..6 {
            let lines = chop_cells(text, width);
            assert_eq!(lines.concat(), text);
            for line in &lines {
                assert!(!line.is_empty());
                assert!(cell_len(line) <= width || line.chars().count() == 1);
            }
        }
    }
}

#[test]
fn chop_cells_wide_character_on_its_own_line() {
    assert_eq!(chop_cells("aあb", 1), vec!["a", "あ", "b"]);
}

#[test]
fn character_widths_from_unicode_tables() {
    assert_eq!(get_character_cell_size('a'), 1);
    assert_eq!(get_character_cell_size('\x01'), 0);
    assert_eq!(get_character_cell_size('\u{9f}'), 0);
    assert_eq!(get_character_cell_size('わ'), 2);
    assert_eq!(cell_len("わさび"), 6);
    assert_eq!(set_cell_size("わさび", 5), "わさ ");
}

// -- colors ------------------------------------------------------------------

#[test]
fn color_name_parses_back() {
    for c in [
        Color::Default,
        Color::Standard(3),
        Color::Standard(12),
        Color::EightBit(200),
        Color::TrueColor(ColorTriplet::new(1, 2, 3)),
    ] {
        assert_eq!(Color::parse(&c.name()).unwrap(), c);
    }
}

#[test]
fn color_parse_trims_and_lowercases() {
    assert_eq!(Color::parse("  Bright_Blue \n").unwrap(), Color::Standard(12));
    assert_eq!(Color::parse("RGB(1, 2, 3)").unwrap(), Color::TrueColor(ColorTriplet::new(1, 2, 3)));
    assert_eq!(Color::try_parse("#ABCDEF").unwrap().unwrap().name(), "#abcdef");
}

#[test]
fn color_display_text() {
    assert_eq!(Color::Standard(1).to_string(), "Color('red', ColorType::Standard, number=1)");
    assert_eq!(Color::Default.to_string(), "Color('default', ColorType::Default, number=None)");
    assert_eq!(Color::EightBit(42).to_string(), "Color('color(42)', ColorType::EightBit, number=42)");
}

#[test]
fn downgrade_is_idempotent_and_lowers_fidelity() {
    let colors = [
        Color::TrueColor(ColorTriplet::new(10, 200, 30)),
        Color::TrueColor(ColorTriplet::new(128, 128, 128)),
        Color::EightBit(244),
        Color::Standard(9),
        Color::Default,
    ];
    for c in colors {
        for s in [ColorSystem::Standard, ColorSystem::EightBit, ColorSystem::TrueColor, ColorSystem::Windows] {
            let d = c.downgrade(s);
            assert_eq!(d.downgrade(s), d);
        }
        assert_eq!(c.downgrade(ColorSystem::TrueColor), c);
    }
    assert_eq!(Color::TrueColor(ColorTriplet::new(128, 128, 128)).downgrade(ColorSystem::EightBit), Color::EightBit(244));
    assert_eq!(Color::EightBit(244).downgrade(ColorSystem::Standard).kind(), ColorType::Standard);
}

#[test]
fn ansi_codes_for_each_kind() {
    assert_eq!(Color::Windows(3).get_ansi_codes(false), vec!["43"]);
    assert_eq!(Color::Standard(15).get_ansi_codes(false), vec!["107"]);
    let mut buf = String::from("x");
    Color::EightBit(17).write_ansi_codes(true, &mut buf);
    assert_eq!(buf, "x;38;5;17");
    let mut ul = String::new();
    Color::TrueColor(ColorTriplet::new(1, 2, 3)).write_underline_color_codes(&mut ul);
    assert_eq!(ul, "58;2;1;2;3");
}

#[test]
fn truecolor_from_theme() {
    let theme = dracula();
    assert_eq!(Color::Standard(1).get_truecolor(Some(&theme), true), ColorTriplet::new(255, 85, 85));
    assert_eq!(Color::Default.get_truecolor(Some(&theme), false), ColorTriplet::new(40, 42, 54));
    assert_eq!(default_terminal_theme().ansi_colors.len(), 16);
}

#[test]
fn ansi_names_round_trip() {
    for n in 0u8..16 {
        assert_eq!(get_ansi_color_number(ansi_color_name(n).unwrap()), Some(n));
    }
    assert_eq!(get_ansi_color_number("grey50"), Some(244));
    assert_eq!(get_ansi_color_number("GREY50"), None);
}

#[test]
fn palettes() {
    assert_eq!(standard_palette().len(), 16);
    assert_eq!(windows_palette().get(1), ColorTriplet::new(197, 15, 31));
    let eight = eight_bit_palette();
    assert_eq!(eight.len(), 256);
    assert_eq!(eight.get(16), ColorTriplet::new(0, 0, 0));
    assert_eq!(eight.get(21), ColorTriplet::new(0, 0, 255));
    assert_eq!(eight.get(232), ColorTriplet::new(8, 8, 8));
    assert_eq!(generate_eight_bit_palette().len(), 256);
    let tie = Palette::new(vec![(0, 0, 0), (10, 10, 10), (10, 10, 10)]);
    assert_eq!(tie.match_color(&ColorTriplet::new(12, 12, 12)), 1);
}

#[test]
fn triplet_text() {
    let t = ColorTriplet::new(255, 0, 16);
    assert_eq!(t.hex(), "#ff0010");
    assert_eq!(t.rgb(), "rgb(255,0,16)");
}

#[test]
fn color_cache_agrees_with_parse() {
    let mut cache = ColorCache::new();
    for text in ["red", "#010203", "color(7)", "nosuch", "RED"] {
        assert_eq!(cache.parse(text).is_ok(), Color::parse(text).is_ok());
        if let Ok(c) = cache.parse(text) {
            assert_eq!(c, Color::parse(text).unwrap());
        }
    }
    assert!(cache.len() >= 4);
    cache.clear();
    assert_eq!(cache.len(), 0);
}

#[test]
fn registry_themes() {
    assert_eq!(ThemeRegistry::names(), vec!["dracula", "nord", "gruvbox", "monokai", "solarized-dark"]);
    assert_eq!(
        ThemeRegistry::terminal_theme("SOLARIZED").unwrap().background_color,
        ColorTriplet::new(0, 43, 54)
    );
    assert!(ThemeRegistry::terminal_theme("nosuch").is_none());
}

// -- console options -----------------------------------------------------------

#[test]
fn update_width_lowers_min_width() {
    let o = options().update_width(5);
    assert_eq!(o.size.width, 5);
    assert_eq!(o.max_width, 5);
    assert_eq!(o.min_width, 5);
    let o = options().update_width(40);
    assert_eq!(o.min_width, 10);
}

#[test]
fn height_updates() {
    let o = options().update_height(7);
    assert_eq!(o.height, Some(7));
    assert_eq!(o.reset_height().height, None);
    let o = options().update_dimensions(30, 9);
    assert_eq!(o.size, ConsoleDimensions { width: 30, height: 9 });
    assert_eq!(o.max_width, 30);
    assert_eq!(o.height, Some(9));
}

#[test]
fn with_updates_applies_each_field() {
    let u = ConsoleOptionsUpdates {
        width: Some(50),
        max_width: Some(40),
        justify: Some(Some(JustifyMethod::Center)),
        overflow: Some(Some(OverflowMethod::Ellipsis)),
        no_wrap: Some(Some(true)),
        height: Some(None),
        max_height: Some(3),
        ..ConsoleOptionsUpdates::default()
    };
    let o = options().update_height(4).with_updates(&u);
    assert_eq!(o.size.width, 50);
    assert_eq!(o.max_width, 40);
    assert_eq!(o.justify, Some(JustifyMethod::Center));
    assert_eq!(o.overflow, Some(OverflowMethod::Ellipsis));
    assert_eq!(o.no_wrap, Some(true));
    assert_eq!(o.height, None);
    assert_eq!(o.max_height, 3);
    let again = o.with_updates(&u);
    assert_eq!(again.max_width, o.max_width);
    assert_eq!(again.size, o.size);
    let same = options().with_updates(&ConsoleOptionsUpdates::default());
    assert_eq!(same.size, options().size);
    assert_eq!(same.min_width, 10);
    assert_eq!(same.copy().encoding, "utf-8");
}

#[test]
fn ascii_only_by_encoding() {
    let mut o = options();
    assert!(!o.ascii_only());
    o.encoding = "UTF8".to_string();
    assert!(!o.ascii_only());
    o.encoding = "ascii".to_string();
    assert!(o.ascii_only());
}

#[test]
fn color_system_detection() {
    assert_eq!(detect_color_system_from(Some("TrueColor"), Some("xterm")), ColorSystem::TrueColor);
    assert_eq!(detect_color_system_from(Some("x24bitx"), None), ColorSystem::TrueColor);
    assert_eq!(detect_color_system_from(None, Some("xterm-256color")), ColorSystem::EightBit);
    assert_eq!(detect_color_system_from(Some("yes"), Some("xterm")), ColorSystem::Standard);
    assert_eq!(detect_color_system_from(None, Some("dumb")), ColorSystem::TrueColor);
    assert_eq!(detect_color_system_from(None, Some("")), ColorSystem::TrueColor);
    assert_eq!(detect_color_system_from(None, None), ColorSystem::TrueColor);
}

#[test]
fn modern_windows_terminal_detection() {
    assert!(detect_modern_windows_terminal(Some("1"), None, None));
    assert!(detect_modern_windows_terminal(None, None, Some("vscode")));
    assert!(!detect_modern_windows_terminal(Some(""), Some(""), None));
    assert!(!detect_modern_windows_terminal(None, None, None));
}

// -- environment overrides ----------------------------------------------------------

#[test]
fn color_env_priority() {
    assert_eq!(color_env_from(Some("1"), Some("3"), None, None), ColorEnvOverride::NoColor);
    assert_eq!(color_env_from(Some(""), Some("3"), None, None), ColorEnvOverride::ForceColorTruecolor);
    assert_eq!(color_env_from(None, Some("0"), None, None), ColorEnvOverride::NoColor);
    assert_eq!(color_env_from(None, Some("2"), None, None), ColorEnvOverride::ForceColor);
    assert_eq!(color_env_from(None, Some("yes"), None, None), ColorEnvOverride::ForceColor);
    assert_eq!(color_env_from(None, Some(""), Some("1"), None), ColorEnvOverride::ForceColor);
    assert_eq!(color_env_from(None, None, Some("0"), Some("0")), ColorEnvOverride::NoColor);
    assert_eq!(color_env_from(None, None, None, Some("1")), ColorEnvOverride::NoOverride);
    assert_eq!(tty_override_from(Some("1")), TtyOverride::ForceTty);
    assert_eq!(tty_override_from(Some("0")), TtyOverride::ForceNotTty);
    assert_eq!(tty_override_from(Some("yes")), TtyOverride::NoOverride);
    assert_eq!(tty_override_from(None), TtyOverride::NoOverride);
    assert!(reduce_motion_from(Some("1")));
    assert!(reduce_motion_from(Some("TrUe")));
    assert!(!reduce_motion_from(Some("yes")));
    assert!(!reduce_motion_from(None));
}

// -- ANSI ------------------------------------------------------------------------

#[test]
fn sgr_code_parsing() {
    assert_eq!(parse_sgr_codes("1;31"), vec![1, 31]);
    assert_eq!(parse_sgr_codes(""), vec![0]);
    assert_eq!(parse_sgr_codes("1;;2"), vec![1, 0, 2]);
    assert_eq!(parse_sgr_codes("300;70000;x;4"), vec![255, 4]);
}

#[test]
fn sgr_code_actions() {
    let a = sgr_actions(&[0, 1, 38, 5, 196, 48, 2, 10, 20, 30, 99, 38, 2, 1]);
    assert_eq!(a.len(), 4);
    assert!(matches!(a[0], SgrAction::Reset));
    assert!(matches!(a[1], SgrAction::Style("bold")));
    assert!(matches!(a[2], SgrAction::Foreground(Color::EightBit(196))));
    assert!(matches!(a[3], SgrAction::Background(Color::TrueColor(t)) if t == ColorTriplet::new(10, 20, 30)));
}

#[test]
fn osc_links() {
    assert_eq!(osc_link("8;;https://example.com"), Some(Some("https://example.com".to_string())));
    assert_eq!(osc_link("8;id=1;x;y"), Some(Some("x;y".to_string())));
    assert_eq!(osc_link("8;;"), Some(None));
    assert_eq!(osc_link("8;nothing"), None);
    assert_eq!(osc_link("0;title"), None);
}

#[test]
fn carriage_returns() {
    assert_eq!(visible_after_carriage_return("a\rb\rc"), "c");
    assert_eq!(visible_after_carriage_return("plain"), "plain");
    assert_eq!(visible_after_carriage_return("end\r"), "");
}

#[test]
fn tokenizer_edge_cases() {
    let t = ansi_tokenize("a\x1b(Bb");
    assert_eq!(t.len(), 2);
    assert_eq!(t[0].plain, "a");
    assert_eq!(t[1].plain, "b");
    let t = ansi_tokenize("\x1b]0;a\nb\x1b\\x");
    assert!(t.iter().all(|k| k.osc.is_none()));
    let t = ansi_tokenize("\x1b[2Jok\x1bM");
    assert_eq!(t.len(), 3);
    assert!(t[0].sgr.is_none() && t[0].plain.is_empty());
    assert_eq!(t[1].plain, "ok");
    let t = ansi_tokenize("no escapes here");
    assert_eq!(t.len(), 1);
    assert_eq!(t[0].plain, "no escapes here");
}

// -- widgets ------------------------------------------------------------------------

#[test]
fn badge_lines() {
    assert_eq!(Badge::new("OK").lines(), vec!["┌────┐", "│ OK │", "└────┘"]);
    assert_eq!(
        Badge::success("Done").rounded(true).to_string(),
        "╭────────╮\n│ ✓ Done │\n╰────────╯"
    );
    assert_eq!(Badge::new("x").style(BadgeStyle::Warning).effective_icon(), Some("⚠"));
    assert!(Badge::new("x").checked_lines().is_some());
}

#[test]
fn breadcrumbs_push_then_pop() {
    let mut b = Breadcrumbs::from_path("a//b/");
    b.push("c");
    assert_eq!(b.to_string(), "a > b > c");
    assert_eq!(b.pop(), Some("c".to_string()));
    assert_eq!(b.items(), &["a", "b"]);
    assert_eq!(Breadcrumbs::new(vec![]).to_string(), "");
}

#[test]
fn accordion_toggle_twice_and_exclusive_expand() {
    let mut a = Accordion::new("T", "C");
    a.toggle();
    a.toggle();
    assert!(!a.is_collapsed());
    let mut g = AccordionGroup::new(vec![Accordion::new("a", ""), Accordion::new("b", ""), Accordion::new("c", "")])
        .allow_multiple_open(false);
    g.collapse_all();
    g.expand_item(2);
    assert_eq!(g.items.iter().map(|i| i.is_collapsed()).collect::<Vec<_>>(), vec![true, true, false]);
    g.expand_item(7);
    assert_eq!(g.items.iter().map(|i| i.is_collapsed()).collect::<Vec<_>>(), vec![true, true, false]);
    let mut g = g.allow_multiple_open(true);
    g.expand_item(0);
    assert_eq!(g.items.iter().map(|i| i.is_collapsed()).collect::<Vec<_>>(), vec![false, true, false]);
}

#[test]
fn columns_builders() {
    let mut c = Columns::new().with_width(10).with_padding((1, 2, 3, 4)).with_title("T").with_align(JustifyMethod::Right);
    c.add_renderable("x");
    assert_eq!(c.renderables, vec!["x"]);
    assert_eq!(c.width, Some(10));
    assert_eq!(c.padding, (1, 2, 3, 4));
    assert_eq!(c.title.as_deref(), Some("T"));
    assert_eq!(c.align, Some(JustifyMethod::Right));
    let d = Columns::default();
    assert_eq!(d.padding, (0, 1, 0, 1));
    assert!(!d.expand && !d.equal && !d.column_first && !d.right_to_left);
}


// -- anstyle interoperation ------------------------------------------------------------

#[test]
fn anstyle_round_trips() {
    for n in 0u8..16 {
        let a = color_to_anstyle(&Color::Standard(n)).unwrap();
        assert_eq!(a, anstyle::Color::Ansi(anstyle::Ansi256Color(n).into_ansi().unwrap()));
        assert_eq!(color_from_anstyle(a), Color::Standard(n));
        assert_eq!(color_from_anstyle(color_to_anstyle(&Color::Windows(n)).unwrap()), Color::Standard(n));
    }
    let a = color_to_anstyle(&Color::EightBit(200)).unwrap();
    assert_eq!(a, anstyle::Color::Ansi256(anstyle::Ansi256Color(200)));
    assert_eq!(color_from_anstyle(a), Color::EightBit(200));
    let t = Color::TrueColor(ColorTriplet::new(128, 64, 32));
    assert_eq!(color_to_anstyle(&t), Some(anstyle::Color::Rgb(anstyle::RgbColor(128, 64, 32))));
    assert_eq!(color_from_anstyle(color_to_anstyle(&t).unwrap()), t);
    assert!(color_to_anstyle(&Color::Default).is_none());
    assert_eq!(color_from_anstyle(anstyle::Color::Ansi256(anstyle::Ansi256Color(3))), Color::Standard(3));
    assert_eq!(anstyle_value(&Color::Standard(20)), Some(AnstyleColorValue::Ansi256(20)));
}

#[test]
fn canvas_style_text() {
    let c = Canvas::new(2, 1);
    assert_eq!(c.style(), "");
    let c = c.with_style("bold green").with_blitter(Blitter::HalfBlock);
    assert_eq!(c.style(), "bold green");
    assert_eq!(c.frame(), "  ");
    let mut c = c;
    c.set(0, 0);
    c.toggle(1, 1);
    c.line(0, 0, 1, 1);
    c.rect(0, 0, 2, 2);
    c.fill_rect(0, 0, 1, 1);
    c.circle(1, 1, 1);
    c.unset(0, 0);
    c.clear();
    assert_eq!(c.style(), "bold green");
}

#[test]
fn columns_layout_order() {
    let widths = [10usize, 11, 12, 13, 14];
    let by_columns = Columns::new().with_column_first(true).iter_renderables(2, &widths);
    assert_eq!(
        by_columns,
        vec![(10, Some(0)), (13, Some(3)), (11, Some(1)), (14, Some(4)), (12, Some(2)), (0, None)]
    );
    let by_rows = Columns::new().iter_renderables(3, &widths);
    assert_eq!(
        by_rows,
        vec![(10, Some(0)), (11, Some(1)), (12, Some(2)), (13, Some(3)), (14, Some(4)), (0, None)]
    );
    let few = Columns::new().with_column_first(true).iter_renderables(4, &widths[..2]);
    assert_eq!(few, vec![(10, Some(0)), (11, Some(1)), (0, None), (0, None)]);
    assert!(Columns::new().iter_renderables(3, &[]).is_empty());
}

#[test]
fn console_color_system_resolution() {
    let r = |a, b, c, d, e, f, g, h, i| gilt::console::resolve_color_system(a, b, c, d, e, f, g, h, i).0;
    assert_eq!(
        r(Some(ColorSystem::Windows), Some("256"), true, true, None, ColorEnvOverride::NoColor, false, None, None),
        Some(ColorSystem::Windows)
    );
    assert_eq!(r(None, Some("256"), true, true, None, ColorEnvOverride::NoColor, false, None, None), Some(ColorSystem::EightBit));
    assert_eq!(r(None, Some("bogus"), true, true, None, ColorEnvOverride::ForceColor, true, None, None), None);
    assert_eq!(r(None, None, false, false, None, ColorEnvOverride::ForceColor, false, None, None), Some(ColorSystem::EightBit));
    assert_eq!(
        r(None, None, false, true, None, ColorEnvOverride::ForceColorTruecolor, false, None, None),
        Some(ColorSystem::TrueColor)
    );
    assert_eq!(r(None, None, false, true, None, ColorEnvOverride::NoOverride, true, None, None), None);
    assert_eq!(r(None, None, false, false, None, ColorEnvOverride::NoOverride, false, None, Some("xterm")), None);
    assert_eq!(
        r(None, None, false, false, Some(true), ColorEnvOverride::NoOverride, false, None, Some("xterm-256color")),
        Some(ColorSystem::EightBit)
    );
    assert_eq!(
        r(None, None, false, false, None, ColorEnvOverride::NoOverride, true, Some("24bit"), None),
        Some(ColorSystem::TrueColor)
    );
    let full = gilt::console::resolve_color_system;
    assert_eq!(full(None, Some("256"), false, true, None, ColorEnvOverride::NoOverride, true, None, None), (Some(ColorSystem::EightBit), true));
    assert_eq!(full(None, None, false, false, None, ColorEnvOverride::NoOverride, false, None, Some("xterm")), (None, true));
    assert_eq!(
        full(None, None, false, false, None, ColorEnvOverride::NoOverride, true, Some("truecolor"), None),
        (Some(ColorSystem::TrueColor), false)
    );
}

#[test]
fn downgrade_near_gray_midpoint() {
    assert_eq!(Color::from_rgb(230, 229, 229).downgrade(ColorSystem::EightBit), Color::EightBit(254));
    assert_eq!(Color::from_rgb(231, 228, 230).downgrade(ColorSystem::EightBit), Color::EightBit(254));
    assert_eq!(Color::from_rgb(232, 227, 230).downgrade(ColorSystem::EightBit), Color::EightBit(253));
    assert_eq!(Color::from_rgb(233, 226, 230).downgrade(ColorSystem::EightBit), Color::EightBit(253));
}

#[test]
fn bar_chart_row_geometry() {
    let labels = vec!["a".to_string(), "bbb".to_string()];
    let values = vec!["1".to_string(), "10".to_string()];
    assert_eq!(
        bar_layout(&labels, &values, true, None, 20),
        Some(BarLayout { label_width: 3, value_width: 2, label_region: 4, value_region: 3, bar_region: 13, total_width: 20 })
    );
    assert_eq!(
        bar_layout(&labels, &values, false, None, 20),
        Some(BarLayout { label_width: 3, value_width: 0, label_region: 4, value_region: 0, bar_region: 16, total_width: 20 })
    );
    assert_eq!(
        bar_layout(&labels, &values, true, Some(5), 20),
        Some(BarLayout { label_width: 3, value_width: 2, label_region: 4, value_region: 3, bar_region: 0, total_width: 7 })
    );
    assert_eq!(
        bar_layout(&vec![String::new()], &values, true, Some(30), 12),
        Some(BarLayout { label_width: 0, value_width: 2, label_region: 0, value_region: 3, bar_region: 9, total_width: 12 })
    );
    assert_eq!(
        bar_layout(&vec!["界".to_string()], &vec![], true, None, 10),
        Some(BarLayout { label_width: 2, value_width: 0, label_region: 3, value_region: 0, bar_region: 7, total_width: 10 })
    );
}

#[test]
fn columns_fit_column_count() {
    let fixed = Columns::new().with_width(10);
    assert_eq!(fixed.fit_column_count(&[1, 1, 1], 25), 2);
    assert_eq!(fixed.rows(2, &[1, 1, 1]), vec![vec![Some(0), Some(1)], vec![Some(2), None]]);
    assert_eq!(fixed.fit_column_count(&[1, 1, 1], 5), 1);
    let auto = Columns::new();
    assert_eq!(auto.fit_column_count(&[3, 3, 3], 80), 3);
    assert_eq!(auto.fit_column_count(&[10, 10, 10], 20), 1);
    assert_eq!(auto.fit_column_count(&[10, 10, 10], 21), 2);
    assert_eq!(auto.fit_column_count(&[3, 3], 20), 2);
    assert_eq!(auto.fit_column_count(&[], 20), 1);
    assert_eq!(auto.fit_column_count(&[30], 20), 1);
    let equal = Columns::new().with_equal(true);
    assert_eq!(equal.fit_column_count(&[1, 6, 2], 40), 3);
    assert_eq!(equal.fit_column_count(&[1, 6, 2], 13), 2);
    assert_eq!(auto.fit_column_count(&[1, 6, 2], 11), 3);
}

#[test]
fn columns_rows_order() {
    let rtl = Columns::new().with_right_to_left(true);
    assert_eq!(rtl.rows(2, &[3, 3]), vec![vec![Some(1), Some(0)]]);
    assert_eq!(rtl.rows(2, &[3, 3, 3]), vec![vec![Some(1), Some(0)], vec![None, Some(2)]]);
    let cf = Columns::new().with_column_first(true);
    assert_eq!(
        cf.rows(2, &[1, 1, 1, 1, 1]),
        vec![vec![Some(0), Some(3)], vec![Some(1), Some(4)], vec![Some(2), None]]
    );
    assert!(Columns::new().rows(3, &[]).is_empty());
}

#[test]
fn color_name_parses_back_through_parse() {
    let mut colors = vec![Color::Default, Color::TrueColor(ColorTriplet::new(0x10, 0x20, 0x30))];
    for n in 0..=255u8 {
        colors.push(if n < 16 { Color::Standard(n) } else { Color::EightBit(n) });
    }
    for c in colors {
        assert_eq!(Color::parse(&c.name()).unwrap(), c, "{}", c.name());
    }
    assert_eq!(Color::EightBit(106).name(), "color(106)");
    assert_eq!(Color::Standard(9).name(), "bright_red");
}

#[test]
fn triplet_hex_parses_back() {
    for t in [ColorTriplet::new(128, 64, 32), ColorTriplet::new(0, 255, 0), ColorTriplet::new(255, 255, 255)] {
        let h = t.hex();
        assert_eq!(gilt::color_parse::parse_rgb_hex(&h[1..]).unwrap(), t);
    }
    assert_eq!(ColorTriplet::new(128, 64, 32).hex(), "#804020");
}

#[test]
fn checking_twins() {
    assert!(gilt::ansi::try_ansi_tokenize("x\x1b(é").is_none());
    let toks = gilt::ansi::try_ansi_tokenize("a\x1b[1mb").unwrap();
    assert_eq!(toks.len(), 3);
    assert!(gilt::color_parse::try_parse_rgb_hex("aéaaa").is_none());
    assert_eq!(gilt::color_parse::try_parse_rgb_hex("102030").unwrap().unwrap(), ColorTriplet::new(16, 32, 48));
    assert!(gilt::color_parse::try_parse_rgb_hex("ééé").unwrap().is_err());
    assert!(gilt::box_chars::BoxChars::try_new("abcd", false).is_none());
    let good = "+--+\n| ||\n|-+|\n| ||\n|-+|\n|-+|\n| ||\n+--+";
    assert!(gilt::box_chars::BoxChars::try_new(good, false).is_some());
    assert!(gilt::box_chars::BoxChars::try_new("+--+\n| ||\n|-+|\n| ||\n|-+|\n|-+|\n| |\n+--+", false).is_none());
}
