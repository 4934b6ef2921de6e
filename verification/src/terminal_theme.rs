//! Terminal themes: the colors that system colors resolve to.

use vstd::prelude::*;
use crate::color_triplet::ColorTriplet;
use crate::palette::{Palette, eight_bit_base};
use crate::strutil::{chars_eq_str, to_ascii_lowercase_chars, ascii_lower_seq};

verus! {

/// A terminal theme definition consisting of foreground, background, and ANSI colors.
pub struct TerminalTheme {
    /// Background color of the terminal.
    pub background_color: ColorTriplet,
    /// Foreground (text) color of the terminal.
    pub foreground_color: ColorTriplet,
    /// ANSI color palette (typically 16 colors: 8 normal + 8 bright).
    pub ansi_colors: Palette,
}

fn copy_entries(v: &Vec<(u8, u8, u8)>) -> (c: Vec<(u8, u8, u8)>)
    ensures
        c@ == v@,
{
    let mut c: Vec<(u8, u8, u8)> = Vec::new();
    let mut i: usize = 0;
    while i < v.len()
        invariant
            i <= v@.len(),
            c@ =~= v@.take(i as int),
        decreases v@.len() - i,
    {
        c.push(v[i]);
        i = i + 1;
        assert(c@ =~= v@.take(i as int));
    }
    assert(v@.take(v@.len() as int) =~= v@);
    c
}

impl TerminalTheme {
    /// Creates a new terminal theme. The ANSI palette is `normal` followed by
    /// `bright`, or by a second copy of `normal` when `bright` is `None`.
    pub fn new(
        background: (u8, u8, u8),
        foreground: (u8, u8, u8),
        normal: Vec<(u8, u8, u8)>,
        bright: Option<Vec<(u8, u8, u8)>>,
    ) -> (t: Self)
        requires
            normal@.len() + match bright {
                Some(b) => b@.len() as int,
                None => normal@.len() as int,
            } <= usize::MAX,
        ensures
            t.background_color == (ColorTriplet { red: background.0, green: background.1, blue: background.2 }),
            t.foreground_color == (ColorTriplet { red: foreground.0, green: foreground.1, blue: foreground.2 }),
            t.ansi_colors@ == normal@ + match bright {
                Some(b) => b@,
                None => normal@,
            },
    {
        let mut colors = normal;
        match bright {
            Some(b) => {
                let mut b = b;
                colors.append(&mut b);
            },
            None => {
                let mut dup = copy_entries(&colors);
                colors.append(&mut dup);
            },
        }
        TerminalTheme {
            background_color: ColorTriplet::new(background.0, background.1, background.2),
            foreground_color: ColorTriplet::new(foreground.0, foreground.1, foreground.2),
            ansi_colors: Palette::new(colors),
        }
    }
}

/// Default terminal theme: black on white with the sixteen standard
/// 8-bit base colors.
pub fn default_terminal_theme() -> (t: TerminalTheme)
    ensures
        t.background_color == (ColorTriplet { red: 255, green: 255, blue: 255 }),
        t.foreground_color == (ColorTriplet { red: 0, green: 0, blue: 0 }),
        t.ansi_colors@.len() == 16,
        forall|i: int| 0 <= i < 16 ==> #[trigger] t.ansi_colors@[i] == eight_bit_base(i),
{
    let t = TerminalTheme::new(
        (255, 255, 255),
        (0, 0, 0),
        vec![(0, 0, 0), (128, 0, 0), (0, 128, 0), (128, 128, 0), (0, 0, 128), (128, 0, 128), (0, 128, 128), (192, 192, 192)],
        Some(vec![(128, 128, 128), (255, 0, 0), (0, 255, 0), (255, 255, 0), (0, 0, 255), (255, 0, 255), (0, 255, 255), (255, 255, 255)]),
    );
    assert forall|i: int| 0 <= i < 16 implies #[trigger] t.ansi_colors@[i] == eight_bit_base(i) by {}
    t
}

/// SVG export theme with neutral colors suitable for rendering.
/// The sixteen ANSI colors of [`svg_export_theme`].
pub open spec fn svg_export_theme_colors() -> Seq<(u8, u8, u8)> {
    seq![
        (75u8, 78u8, 85u8),
        (204, 85, 90),
        (152, 168, 75),
        (208, 179, 68),
        (96, 138, 177),
        (152, 114, 159),
        (104, 160, 179),
        (197, 200, 198),
        (154, 155, 153),
        (255, 38, 39),
        (0, 130, 61),
        (208, 132, 66),
        (25, 132, 233),
        (255, 44, 122),
        (57, 130, 128),
        (253, 253, 197),
    ]
}

pub fn svg_export_theme() -> (t: TerminalTheme)
    ensures
        t.background_color == (ColorTriplet { red: 41, green: 41, blue: 41 }),
        t.foreground_color == (ColorTriplet { red: 197, green: 200, blue: 198 }),
        t.ansi_colors@ == svg_export_theme_colors(),
{
    let t = TerminalTheme::new(
        (41, 41, 41),
        (197, 200, 198),
        vec![(75, 78, 85), (204, 85, 90), (152, 168, 75), (208, 179, 68), (96, 138, 177), (152, 114, 159), (104, 160, 179), (197, 200, 198)],
        Some(vec![(154, 155, 153), (255, 38, 39), (0, 130, 61), (208, 132, 66), (25, 132, 233), (255, 44, 122), (57, 130, 128), (253, 253, 197)]),
    );
    assert(t.ansi_colors@ =~= svg_export_theme_colors());
    t
}

/// Monokai theme with dark background and vibrant colors.
/// The sixteen ANSI colors of [`monokai`].
pub open spec fn monokai_colors() -> Seq<(u8, u8, u8)> {
    seq![
        (26u8, 26u8, 26u8),
        (244, 0, 95),
        (152, 224, 36),
        (253, 151, 31),
        (157, 101, 255),
        (244, 0, 95),
        (88, 209, 235),
        (196, 197, 181),
        (98, 94, 76),
        (244, 0, 95),
        (152, 224, 36),
        (224, 213, 97),
        (157, 101, 255),
        (244, 0, 95),
        (88, 209, 235),
        (246, 246, 239),
    ]
}

pub fn monokai() -> (t: TerminalTheme)
    ensures
        t.background_color == (ColorTriplet { red: 12, green: 12, blue: 12 }),
        t.foreground_color == (ColorTriplet { red: 217, green: 217, blue: 217 }),
        t.ansi_colors@ == monokai_colors(),
{
    let t = TerminalTheme::new(
        (12, 12, 12),
        (217, 217, 217),
        vec![(26, 26, 26), (244, 0, 95), (152, 224, 36), (253, 151, 31), (157, 101, 255), (244, 0, 95), (88, 209, 235), (196, 197, 181), (98, 94, 76)],
        Some(vec![(244, 0, 95), (152, 224, 36), (224, 213, 97), (157, 101, 255), (244, 0, 95), (88, 209, 235), (246, 246, 239)]),
    );
    assert(t.ansi_colors@ =~= monokai_colors());
    t
}

/// Dimmed Monokai theme with muted colors.
/// The sixteen ANSI colors of [`dimmed_monokai`].
pub open spec fn dimmed_monokai_colors() -> Seq<(u8, u8, u8)> {
    seq![
        (58u8, 61u8, 67u8),
        (190, 63, 72),
        (135, 154, 59),
        (197, 166, 53),
        (79, 118, 161),
        (133, 92, 141),
        (87, 143, 164),
        (185, 188, 186),
        (136, 137, 135),
        (251, 0, 31),
        (15, 114, 47),
        (196, 112, 51),
        (24, 109, 227),
        (251, 0, 103),
        (46, 112, 109),
        (253, 255, 185),
    ]
}

pub fn dimmed_monokai() -> (t: TerminalTheme)
    ensures
        t.background_color == (ColorTriplet { red: 25, green: 25, blue: 25 }),
        t.foreground_color == (ColorTriplet { red: 185, green: 188, blue: 186 }),
        t.ansi_colors@ == dimmed_monokai_colors(),
{
    let t = TerminalTheme::new(
        (25, 25, 25),
        (185, 188, 186),
        vec![(58, 61, 67), (190, 63, 72), (135, 154, 59), (197, 166, 53), (79, 118, 161), (133, 92, 141), (87, 143, 164), (185, 188, 186), (136, 137, 135)],
        Some(vec![(251, 0, 31), (15, 114, 47), (196, 112, 51), (24, 109, 227), (251, 0, 103), (46, 112, 109), (253, 255, 185)]),
    );
    assert(t.ansi_colors@ =~= dimmed_monokai_colors());
    t
}

/// Night Owlish theme with light background.
/// The sixteen ANSI colors of [`night_owlish`].
pub open spec fn night_owlish_colors() -> Seq<(u8, u8, u8)> {
    seq![
        (1u8, 22u8, 39u8),
        (211, 66, 62),
        (42, 162, 152),
        (218, 170, 1),
        (72, 118, 214),
        (64, 63, 83),
        (8, 145, 106),
        (122, 129, 129),
        (122, 129, 129),
        (247, 110, 110),
        (73, 208, 197),
        (218, 194, 107),
        (92, 167, 228),
        (105, 112, 152),
        (0, 201, 144),
        (152, 159, 177),
    ]
}

pub fn night_owlish() -> (t: TerminalTheme)
    ensures
        t.background_color == (ColorTriplet { red: 255, green: 255, blue: 255 }),
        t.foreground_color == (ColorTriplet { red: 64, green: 63, blue: 83 }),
        t.ansi_colors@ == night_owlish_colors(),
{
    let t = TerminalTheme::new(
        (255, 255, 255),
        (64, 63, 83),
        vec![(1, 22, 39), (211, 66, 62), (42, 162, 152), (218, 170, 1), (72, 118, 214), (64, 63, 83), (8, 145, 106), (122, 129, 129), (122, 129, 129)],
        Some(vec![(247, 110, 110), (73, 208, 197), (218, 194, 107), (92, 167, 228), (105, 112, 152), (0, 201, 144), (152, 159, 177)]),
    );
    assert(t.ansi_colors@ =~= night_owlish_colors());
    t
}

/// Dracula color theme.
/// The sixteen ANSI colors of [`dracula`].
pub open spec fn dracula_colors() -> Seq<(u8, u8, u8)> {
    seq![
        (40u8, 42u8, 54u8),
        (255, 85, 85),
        (80, 250, 123),
        (241, 250, 140),
        (189, 147, 249),
        (255, 121, 198),
        (139, 233, 253),
        (191, 191, 191),
        (98, 114, 164),
        (255, 110, 110),
        (105, 255, 156),
        (255, 255, 165),
        (214, 189, 255),
        (255, 146, 213),
        (164, 255, 255),
        (255, 255, 255),
    ]
}

pub fn dracula() -> (t: TerminalTheme)
    ensures
        t.background_color == (ColorTriplet { red: 40, green: 42, blue: 54 }),
        t.foreground_color == (ColorTriplet { red: 248, green: 248, blue: 242 }),
        t.ansi_colors@ == dracula_colors(),
{
    let t = TerminalTheme::new(
        (40, 42, 54),
        (248, 248, 242),
        vec![(40, 42, 54), (255, 85, 85), (80, 250, 123), (241, 250, 140), (189, 147, 249), (255, 121, 198), (139, 233, 253), (191, 191, 191)],
        Some(vec![(98, 114, 164), (255, 110, 110), (105, 255, 156), (255, 255, 165), (214, 189, 255), (255, 146, 213), (164, 255, 255), (255, 255, 255)]),
    );
    assert(t.ansi_colors@ =~= dracula_colors());
    t
}

/// Nord color theme.
/// The sixteen ANSI colors of [`nord`].
pub open spec fn nord_colors() -> Seq<(u8, u8, u8)> {
    seq![
        (59u8, 66u8, 82u8),
        (191, 97, 106),
        (163, 190, 140),
        (235, 203, 139),
        (129, 161, 193),
        (180, 142, 173),
        (136, 192, 208),
        (229, 233, 240),
        (76, 86, 106),
        (191, 97, 106),
        (163, 190, 140),
        (235, 203, 139),
        (129, 161, 193),
        (180, 142, 173),
        (143, 188, 187),
        (236, 239, 244),
    ]
}

pub fn nord() -> (t: TerminalTheme)
    ensures
        t.background_color == (ColorTriplet { red: 46, green: 52, blue: 64 }),
        t.foreground_color == (ColorTriplet { red: 216, green: 222, blue: 233 }),
        t.ansi_colors@ == nord_colors(),
{
    let t = TerminalTheme::new(
        (46, 52, 64),
        (216, 222, 233),
        vec![(59, 66, 82), (191, 97, 106), (163, 190, 140), (235, 203, 139), (129, 161, 193), (180, 142, 173), (136, 192, 208), (229, 233, 240)],
        Some(vec![(76, 86, 106), (191, 97, 106), (163, 190, 140), (235, 203, 139), (129, 161, 193), (180, 142, 173), (143, 188, 187), (236, 239, 244)]),
    );
    assert(t.ansi_colors@ =~= nord_colors());
    t
}

/// Gruvbox Dark color theme.
/// The sixteen ANSI colors of [`gruvbox`].
pub open spec fn gruvbox_colors() -> Seq<(u8, u8, u8)> {
    seq![
        (40u8, 40u8, 40u8),
        (204, 36, 29),
        (152, 151, 26),
        (215, 153, 33),
        (69, 133, 136),
        (177, 98, 134),
        (104, 157, 106),
        (168, 153, 132),
        (146, 131, 116),
        (251, 73, 52),
        (184, 187, 38),
        (250, 189, 47),
        (131, 165, 152),
        (211, 134, 155),
        (142, 192, 124),
        (235, 219, 178),
    ]
}

pub fn gruvbox() -> (t: TerminalTheme)
    ensures
        t.background_color == (ColorTriplet { red: 40, green: 40, blue: 40 }),
        t.foreground_color == (ColorTriplet { red: 235, green: 219, blue: 178 }),
        t.ansi_colors@ == gruvbox_colors(),
{
    let t = TerminalTheme::new(
        (40, 40, 40),
        (235, 219, 178),
        vec![(40, 40, 40), (204, 36, 29), (152, 151, 26), (215, 153, 33), (69, 133, 136), (177, 98, 134), (104, 157, 106), (168, 153, 132)],
        Some(vec![(146, 131, 116), (251, 73, 52), (184, 187, 38), (250, 189, 47), (131, 165, 152), (211, 134, 155), (142, 192, 124), (235, 219, 178)]),
    );
    assert(t.ansi_colors@ =~= gruvbox_colors());
    t
}

/// Monokai Pro terminal theme (canonical 16-color palette).
/// The sixteen ANSI colors of [`monokai_pro`].
pub open spec fn monokai_pro_colors() -> Seq<(u8, u8, u8)> {
    seq![
        (45u8, 42u8, 46u8),
        (255, 97, 136),
        (169, 220, 118),
        (255, 216, 102),
        (120, 220, 232),
        (171, 157, 242),
        (120, 220, 232),
        (252, 252, 250),
        (114, 112, 114),
        (255, 97, 136),
        (169, 220, 118),
        (255, 216, 102),
        (120, 220, 232),
        (171, 157, 242),
        (120, 220, 232),
        (252, 252, 250),
    ]
}

pub fn monokai_pro() -> (t: TerminalTheme)
    ensures
        t.background_color == (ColorTriplet { red: 45, green: 42, blue: 46 }),
        t.foreground_color == (ColorTriplet { red: 252, green: 252, blue: 250 }),
        t.ansi_colors@ == monokai_pro_colors(),
{
    let t = TerminalTheme::new(
        (45, 42, 46),
        (252, 252, 250),
        vec![(45, 42, 46), (255, 97, 136), (169, 220, 118), (255, 216, 102), (120, 220, 232), (171, 157, 242), (120, 220, 232), (252, 252, 250)],
        Some(vec![(114, 112, 114), (255, 97, 136), (169, 220, 118), (255, 216, 102), (120, 220, 232), (171, 157, 242), (120, 220, 232), (252, 252, 250)]),
    );
    assert(t.ansi_colors@ =~= monokai_pro_colors());
    t
}

/// Solarized Dark color theme.
/// The sixteen ANSI colors of [`solarized_dark`].
pub open spec fn solarized_dark_colors() -> Seq<(u8, u8, u8)> {
    seq![
        (7u8, 54u8, 66u8),
        (220, 50, 47),
        (133, 153, 0),
        (181, 137, 0),
        (38, 139, 210),
        (211, 54, 130),
        (42, 161, 152),
        (238, 232, 213),
        (0, 43, 54),
        (203, 75, 22),
        (88, 110, 117),
        (101, 123, 131),
        (131, 148, 150),
        (108, 113, 196),
        (147, 161, 161),
        (253, 246, 227),
    ]
}

pub fn solarized_dark() -> (t: TerminalTheme)
    ensures
        t.background_color == (ColorTriplet { red: 0, green: 43, blue: 54 }),
        t.foreground_color == (ColorTriplet { red: 131, green: 148, blue: 150 }),
        t.ansi_colors@ == solarized_dark_colors(),
{
    let t = TerminalTheme::new(
        (0, 43, 54),
        (131, 148, 150),
        vec![(7, 54, 66), (220, 50, 47), (133, 153, 0), (181, 137, 0), (38, 139, 210), (211, 54, 130), (42, 161, 152), (238, 232, 213)],
        Some(vec![(0, 43, 54), (203, 75, 22), (88, 110, 117), (101, 123, 131), (131, 148, 150), (108, 113, 196), (147, 161, 161), (253, 246, 227)]),
    );
    assert(t.ansi_colors@ =~= solarized_dark_colors());
    t
}

/// The built-in theme names that [`ThemeRegistry::terminal_theme`] accepts.
pub open spec fn registry_theme_index(name: Seq<char>) -> Option<int> {
    if name == "dracula"@ {
        Some(0)
    } else if name == "nord"@ {
        Some(1)
    } else if name == "gruvbox"@ {
        Some(2)
    } else if name == "monokai"@ {
        Some(3)
    } else if name == "solarized-dark"@ || name == "solarized"@ {
        Some(4)
    } else {
        None
    }
}

/// Background of the `k`-th registry theme (dracula, nord, gruvbox,
/// monokai pro, solarized dark).
pub open spec fn registry_background(k: int) -> ColorTriplet {
    if k == 0 {
        ColorTriplet { red: 40, green: 42, blue: 54 }
    } else if k == 1 {
        ColorTriplet { red: 46, green: 52, blue: 64 }
    } else if k == 2 {
        ColorTriplet { red: 40, green: 40, blue: 40 }
    } else if k == 3 {
        ColorTriplet { red: 45, green: 42, blue: 46 }
    } else {
        ColorTriplet { red: 0, green: 43, blue: 54 }
    }
}

/// Foreground of the `k`-th registry theme.
pub open spec fn registry_foreground(k: int) -> ColorTriplet {
    if k == 0 {
        ColorTriplet { red: 248, green: 248, blue: 242 }
    } else if k == 1 {
        ColorTriplet { red: 216, green: 222, blue: 233 }
    } else if k == 2 {
        ColorTriplet { red: 235, green: 219, blue: 178 }
    } else if k == 3 {
        ColorTriplet { red: 252, green: 252, blue: 250 }
    } else {
        ColorTriplet { red: 131, green: 148, blue: 150 }
    }
}

/// ANSI colors of the `k`-th registry theme.
pub open spec fn registry_colors(k: int) -> Seq<(u8, u8, u8)> {
    if k == 0 {
        dracula_colors()
    } else if k == 1 {
        nord_colors()
    } else if k == 2 {
        gruvbox_colors()
    } else if k == 3 {
        monokai_pro_colors()
    } else {
        solarized_dark_colors()
    }
}

/// Registry of named built-in [`TerminalTheme`] palettes.
pub struct ThemeRegistry;

impl ThemeRegistry {
    /// Returns the names of all built-in themes.
    pub fn names() -> (names: Vec<&'static str>)
        ensures
            names@.len() == 5,
            names@[0]@ == "dracula"@,
            names@[1]@ == "nord"@,
            names@[2]@ == "gruvbox"@,
            names@[3]@ == "monokai"@,
            names@[4]@ == "solarized-dark"@,
    {
        vec!["dracula", "nord", "gruvbox", "monokai", "solarized-dark"]
    }

    /// Looks up a built-in theme by name, ignoring ASCII case; `"solarized"`
    /// is an alias of `"solarized-dark"`.
    pub fn terminal_theme(name: &str) -> (t: Option<TerminalTheme>)
        ensures
            t is Some <==> registry_theme_index(ascii_lower_seq(name@)) is Some,
            t matches Some(th) ==> th.background_color == registry_background(
                registry_theme_index(ascii_lower_seq(name@)).unwrap(),
            ) && th.foreground_color == registry_foreground(registry_theme_index(ascii_lower_seq(name@)).unwrap())
                && th.ansi_colors@ == registry_colors(registry_theme_index(ascii_lower_seq(name@)).unwrap()),
    {
        let lower = to_ascii_lowercase_chars(name);
        if chars_eq_str(lower.as_slice(), "dracula") {
            Some(dracula())
        } else if chars_eq_str(lower.as_slice(), "nord") {
            Some(nord())
        } else if chars_eq_str(lower.as_slice(), "gruvbox") {
            Some(gruvbox())
        } else if chars_eq_str(lower.as_slice(), "monokai") {
            Some(monokai_pro())
        } else if chars_eq_str(lower.as_slice(), "solarized-dark") || chars_eq_str(lower.as_slice(), "solarized") {
            Some(solarized_dark())
        } else {
            None
        }
    }
}

} // verus!
