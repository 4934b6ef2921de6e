//! Terminal colors: the four color systems, parsing of color names, ANSI
//! escape codes, resolution to RGB and downgrading between systems.

use vstd::prelude::*;
use crate::color_names::{ansi_color_name, spec_ansi_color_name};
use crate::color_triplet::{ColorTriplet, spec_hex};
use crate::palette::{
    cube_level, eight_bit_base, eight_bit_entry, eight_bit_palette, entry_triplet, is_first_closest,
    lemma_first_closest_unique, spec_standard_palette, spec_windows_palette, standard_palette,
    windows_palette,
};
use crate::strutil::{dec, push_decimal, string_from_chars};
use crate::terminal_theme::{default_terminal_theme, TerminalTheme};

verus! {

/// Color system type.
#[derive(Debug, Clone, Copy, PartialEq, Eq, Hash, Structural)]
pub enum ColorSystem {
    /// Standard 16-color palette (ANSI colors 0-15).
    Standard,
    /// Extended 256-color palette (8-bit ANSI).
    EightBit,
    /// 24-bit true-color (16 million colors).
    TrueColor,
    /// Windows console legacy color palette.
    Windows,
}

/// Color type classification.
#[derive(Debug, Clone, Copy, PartialEq, Eq, Hash, Structural)]
pub enum ColorType {
    /// Terminal default color (foreground or background).
    Default,
    /// Standard 16-color ANSI palette.
    Standard,
    /// Extended 256-color (8-bit) palette.
    EightBit,
    /// 24-bit true-color RGB.
    TrueColor,
    /// Windows console legacy color.
    Windows,
}

/// A terminal color.
#[derive(Debug, Clone, Copy, PartialEq, Eq, Hash, Structural)]
pub enum Color {
    /// Terminal default color (foreground or background).
    Default,
    /// Standard 16-color ANSI palette (`number < 16`).
    Standard(u8),
    /// Extended 256-color (8-bit) palette (`number 16..=255`).
    EightBit(u8),
    /// 24-bit true-color RGB.
    TrueColor(ColorTriplet),
    /// Windows console legacy 16-color palette.
    Windows(u8),
}

/// `color(n)`: the name of a numbered palette color.
pub open spec fn numbered_name(n: u8) -> Seq<char> {
    "color("@ + dec(n as nat) + ")"@
}

/// The human-readable name of a color.
pub open spec fn spec_name(c: Color) -> Seq<char> {
    match c {
        Color::Default => "default"@,
        Color::Standard(n) | Color::Windows(n) => match spec_ansi_color_name(n) {
            Some(s) => s,
            None => numbered_name(n),
        },
        Color::EightBit(n) => numbered_name(n),
        Color::TrueColor(t) => spec_hex(t),
    }
}

/// The color for an 8-bit palette number: below 16 standard, else 8-bit.
pub open spec fn spec_from_ansi(n: u8) -> Color {
    if n < 16 {
        Color::Standard(n)
    } else {
        Color::EightBit(n)
    }
}

/// The native color system of a color.
pub open spec fn spec_system(c: Color) -> ColorSystem {
    match c {
        Color::Default | Color::Standard(_) => ColorSystem::Standard,
        Color::EightBit(_) => ColorSystem::EightBit,
        Color::TrueColor(_) => ColorSystem::TrueColor,
        Color::Windows(_) => ColorSystem::Windows,
    }
}

/// A color whose variant agrees with its number: standard and Windows
/// numbers below 16, 8-bit numbers from 16 on.
pub open spec fn is_canonical(c: Color) -> bool {
    match c {
        Color::Standard(n) | Color::Windows(n) => n < 16,
        Color::EightBit(n) => n >= 16,
        _ => true,
    }
}

/// Appends the characters of a string slice to `out`.
pub fn push_str_chars(out: &mut Vec<char>, s: &str)
    ensures
        final(out)@ == old(out)@ + s@,
{
    let n = s.unicode_len();
    let mut i: usize = 0;
    while i < n
        invariant
            i <= n,
            n == s@.len(),
            out@ =~= old(out)@ + s@.take(i as int),
        decreases n - i,
    {
        out.push(s.get_char(i));
        i = i + 1;
        assert(out@ =~= old(out)@ + s@.take(i as int));
    }
    assert(s@.take(n as int) =~= s@);
}

fn push_numbered_name(out: &mut Vec<char>, n: u8)
    ensures
        final(out)@ == old(out)@ + numbered_name(n),
{
    push_str_chars(out, "color(");
    push_decimal(out, n as u32);
    push_str_chars(out, ")");
    assert(out@ =~= old(out)@ + numbered_name(n));
}

impl Color {
    /// Creates a Color from an 8-bit ANSI color number. Numbers `0..16` map
    /// to [`Color::Standard`]; `16..=255` map to [`Color::EightBit`].
    pub fn from_ansi(number: u8) -> (c: Color)
        ensures
            c == spec_from_ansi(number),
    {
        if number < 16 {
            Color::Standard(number)
        } else {
            Color::EightBit(number)
        }
    }

    /// Creates a Color from an RGB triplet.
    pub fn from_triplet(triplet: ColorTriplet) -> (c: Color)
        ensures
            c == Color::TrueColor(triplet),
    {
        Color::TrueColor(triplet)
    }

    /// Creates a Color from RGB components.
    pub fn from_rgb(red: u8, green: u8, blue: u8) -> (c: Color)
        ensures
            c == Color::TrueColor(ColorTriplet { red, green, blue }),
    {
        Color::TrueColor(ColorTriplet::new(red, green, blue))
    }

    /// Returns the default terminal color.
    pub fn default_color() -> (c: Color)
        ensures
            c == Color::Default,
    {
        Color::Default
    }

    /// Appends the name of the color to `out`.
    pub fn push_name(&self, out: &mut Vec<char>)
        ensures
            final(out)@ == old(out)@ + spec_name(*self),
    {
        match self {
            Color::Default => push_str_chars(out, "default"),
            Color::Standard(n) | Color::Windows(n) => match ansi_color_name(*n) {
                Some(name) => push_str_chars(out, name),
                None => push_numbered_name(out, *n),
            },
            Color::EightBit(n) => push_numbered_name(out, *n),
            Color::TrueColor(t) => t.push_hex(out),
        }
    }

    /// Human-readable name: `"default"`, the canonical name of a standard
    /// color, `color(n)` for other palette colors, `#rrggbb` for RGB colors.
    pub fn name(&self) -> (s: String)
        ensures
            s@ == spec_name(*self),
    {
        let mut out: Vec<char> = Vec::new();
        self.push_name(&mut out);
        assert(out@ =~= spec_name(*self));
        string_from_chars(&out)
    }

    /// Classification of the color by variant.
    pub fn kind(&self) -> (k: ColorType)
        ensures
            k == match *self {
                Color::Default => ColorType::Default,
                Color::Standard(_) => ColorType::Standard,
                Color::EightBit(_) => ColorType::EightBit,
                Color::TrueColor(_) => ColorType::TrueColor,
                Color::Windows(_) => ColorType::Windows,
            },
    {
        match self {
            Color::Default => ColorType::Default,
            Color::Standard(_) => ColorType::Standard,
            Color::EightBit(_) => ColorType::EightBit,
            Color::TrueColor(_) => ColorType::TrueColor,
            Color::Windows(_) => ColorType::Windows,
        }
    }

    /// The palette number, if applicable. `None` for `Default` and `TrueColor`.
    pub fn number(&self) -> (r: Option<u8>)
        ensures
            r == match *self {
                Color::Standard(n) | Color::EightBit(n) | Color::Windows(n) => Some(n),
                _ => None,
            },
    {
        match self {
            Color::Standard(n) | Color::EightBit(n) | Color::Windows(n) => Some(*n),
            _ => None,
        }
    }

    /// The RGB triplet, if this is a [`Color::TrueColor`].
    pub fn triplet(&self) -> (r: Option<ColorTriplet>)
        ensures
            r == match *self {
                Color::TrueColor(t) => Some(t),
                _ => None,
            },
    {
        match self {
            Color::TrueColor(t) => Some(*t),
            _ => None,
        }
    }

    /// Returns the native color system for this color.
    pub fn system(&self) -> (s: ColorSystem)
        ensures
            s == spec_system(*self),
    {
        match self {
            Color::Default | Color::Standard(_) => ColorSystem::Standard,
            Color::EightBit(_) => ColorSystem::EightBit,
            Color::TrueColor(_) => ColorSystem::TrueColor,
            Color::Windows(_) => ColorSystem::Windows,
        }
    }

    /// Returns true if the color is system-defined (not 8-bit/truecolor).
    pub fn is_system_defined(&self) -> (b: bool)
        ensures
            b == (*self is Default || *self is Standard || *self is Windows),
    {
        match self {
            Color::Default | Color::Standard(_) | Color::Windows(_) => true,
            _ => false,
        }
    }

    /// Returns true if this is the default color.
    pub fn is_default(&self) -> (b: bool)
        ensures
            b == (*self is Default),
    {
        match self {
            Color::Default => true,
            _ => false,
        }
    }
}


// ---------------------------------------------------------------------------
// ANSI codes
// ---------------------------------------------------------------------------

/// The SGR parameters that select a color, each as decimal text:
/// default `39`/`49`; standard `30+n` / `40+n` (bright `90+…` / `100+…`);
/// 8-bit `38;5;n` / `48;5;n`; RGB `38;2;r;g;b` / `48;2;r;g;b`.
pub open spec fn spec_ansi_codes(c: Color, foreground: bool) -> Seq<Seq<char>> {
    let base: nat = if foreground { 30 } else { 40 };
    let prefix: nat = if foreground { 38 } else { 48 };
    match c {
        Color::Default => seq![dec(if foreground { 39 } else { 49 })],
        Color::Standard(n) | Color::Windows(n) => seq![
            dec(if n < 8 { base + n as nat } else { (base + 60 + n - 8) as nat }),
        ],
        Color::EightBit(n) => seq![dec(prefix), dec(5), dec(n as nat)],
        Color::TrueColor(t) => seq![
            dec(prefix),
            dec(2),
            dec(t.red as nat),
            dec(t.green as nat),
            dec(t.blue as nat),
        ],
    }
}

/// The parameters joined by `;`.
pub open spec fn join_codes(codes: Seq<Seq<char>>) -> Seq<char>
    decreases codes.len(),
{
    if codes.len() == 0 {
        Seq::empty()
    } else if codes.len() == 1 {
        codes[0]
    } else {
        join_codes(codes.drop_last()) + seq![';'] + codes.last()
    }
}

/// The SGR parameters that select an underline color: `58;2;r;g;b` for RGB,
/// `58;5;n` for palette colors below 16 or any 8-bit color, none otherwise.
pub open spec fn spec_underline_codes(c: Color) -> Seq<Seq<char>> {
    match c {
        Color::TrueColor(t) => seq![dec(58), dec(2), dec(t.red as nat), dec(t.green as nat), dec(t.blue as nat)],
        Color::EightBit(n) => seq![dec(58), dec(5), dec(n as nat)],
        Color::Standard(n) | Color::Windows(n) => if n < 16 {
            seq![dec(58), dec(5), dec(n as nat)]
        } else {
            Seq::empty()
        },
        Color::Default => Seq::empty(),
    }
}

/// Appending parameters to an SGR buffer: a `;` first unless the buffer is
/// empty or nothing is appended.
pub open spec fn sgr_append(buf: Seq<char>, codes: Seq<Seq<char>>) -> Seq<char> {
    if codes.len() == 0 {
        buf
    } else if buf.len() == 0 {
        join_codes(codes)
    } else {
        buf + seq![';'] + join_codes(codes)
    }
}

fn push_codes(out: &mut Vec<char>, codes: &Vec<u32>)
    requires
        codes@.len() >= 1,
    ensures
        final(out)@ == old(out)@ + join_codes(codes@.map_values(|v: u32| dec(v as nat))),
{
    let ghost views = codes@.map_values(|v: u32| dec(v as nat));
    push_decimal(out, codes[0]);
    let mut i: usize = 1;
    assert(views.take(1) =~= seq![views[0]]);
    while i < codes.len()
        invariant
            1 <= i <= codes@.len(),
            views == codes@.map_values(|v: u32| dec(v as nat)),
            out@ == old(out)@ + join_codes(views.take(i as int)),
        decreases codes@.len() - i,
    {
        out.push(';');
        push_decimal(out, codes[i]);
        assert(views.take(i + 1).drop_last() =~= views.take(i as int));
        assert(out@ =~= old(out)@ + join_codes(views.take(i + 1)));
        i = i + 1;
    }
    assert(views.take(codes@.len() as int) =~= views);
}

impl Color {
    /// The numeric SGR parameters of the color.
    fn code_numbers(&self, foreground: bool) -> (v: Vec<u32>)
        ensures
            v@.map_values(|x: u32| dec(x as nat)) == spec_ansi_codes(*self, foreground),
            v@.len() >= 1,
    {
        let prefix: u32 = if foreground { 38 } else { 48 };
        let v = match self {
            Color::Default => vec![if foreground { 39 } else { 49 }],
            Color::Standard(n) | Color::Windows(n) => {
                let base: u32 = if foreground { 30 } else { 40 };
                let n = *n as u32;
                if n < 8 {
                    vec![base + n]
                } else {
                    vec![base + 60 + (n - 8)]
                }
            },
            Color::EightBit(n) => vec![prefix, 5, *n as u32],
            Color::TrueColor(t) => vec![prefix, 2, t.red as u32, t.green as u32, t.blue as u32],
        };
        assert(v@.map_values(|x: u32| dec(x as nat)) =~= spec_ansi_codes(*self, foreground));
        v
    }

    fn underline_numbers(&self) -> (v: Vec<u32>)
        ensures
            v@.map_values(|x: u32| dec(x as nat)) == spec_underline_codes(*self),
    {
        let v = match self {
            Color::TrueColor(t) => vec![58, 2, t.red as u32, t.green as u32, t.blue as u32],
            Color::EightBit(n) => vec![58, 5, *n as u32],
            Color::Standard(n) | Color::Windows(n) => if *n < 16 {
                vec![58, 5, *n as u32]
            } else {
                Vec::new()
            },
            Color::Default => Vec::new(),
        };
        assert(v@.map_values(|x: u32| dec(x as nat)) =~= spec_underline_codes(*self));
        v
    }

    /// Gets the ANSI escape code parameters for this color, one string each.
    pub fn get_ansi_codes(&self, foreground: bool) -> (codes: Vec<String>)
        ensures
            codes@.len() == spec_ansi_codes(*self, foreground).len(),
            forall|i: int| 0 <= i < codes@.len() ==> #[trigger] codes@[i]@ == spec_ansi_codes(*self, foreground)[i],
    {
        let nums = self.code_numbers(foreground);
        let mut codes: Vec<String> = Vec::new();
        let mut i: usize = 0;
        while i < nums.len()
            invariant
                i <= nums@.len(),
                nums@.map_values(|x: u32| dec(x as nat)) == spec_ansi_codes(*self, foreground),
                codes@.len() == i,
                forall|j: int| 0 <= j < i ==> #[trigger] codes@[j]@ == spec_ansi_codes(*self, foreground)[j],
            decreases nums@.len() - i,
        {
            let mut digits: Vec<char> = Vec::new();
            push_decimal(&mut digits, nums[i]);
            assert(digits@ =~= dec(nums@[i as int] as nat));
            codes.push(string_from_chars(&digits));
            i = i + 1;
        }
        codes
    }

    /// Writes the ANSI escape code parameters for this color into a
    /// semicolon-separated SGR buffer, with a leading `;` if `buf` is non-empty.
    pub fn write_ansi_codes(&self, foreground: bool, buf: &mut String)
        ensures
            final(buf)@ == sgr_append(old(buf)@, spec_ansi_codes(*self, foreground)),
    {
        let nums = self.code_numbers(foreground);
        let mut out: Vec<char> = Vec::new();
        if !buf.as_str().is_empty() {
            out.push(';');
        }
        push_codes(&mut out, &nums);
        let s = string_from_chars(&out);
        buf.append(s.as_str());
        assert(buf@ =~= sgr_append(old(buf)@, spec_ansi_codes(*self, foreground)));
    }

    /// Writes underline color codes (SGR 58) into a semicolon-separated SGR
    /// buffer; the default color and palette numbers of 16 and above (outside
    /// the 8-bit variant) write nothing.
    pub fn write_underline_color_codes(&self, buf: &mut String)
        ensures
            final(buf)@ == sgr_append(old(buf)@, spec_underline_codes(*self)),
    {
        let nums = self.underline_numbers();
        if nums.len() == 0 {
            assert(spec_underline_codes(*self).len() == 0);
            return;
        }
        let mut out: Vec<char> = Vec::new();
        if !buf.as_str().is_empty() {
            out.push(';');
        }
        push_codes(&mut out, &nums);
        let s = string_from_chars(&out);
        buf.append(s.as_str());
        assert(buf@ =~= sgr_append(old(buf)@, spec_underline_codes(*self)));
    }
}

/// Writing codes is listing them and joining the list by `;`.
pub proof fn lemma_written_codes_are_listed_codes(c: Color, foreground: bool)
    ensures
        sgr_append(Seq::empty(), spec_ansi_codes(c, foreground)) == join_codes(
            spec_ansi_codes(c, foreground),
        ),
{
}

// ---------------------------------------------------------------------------
// Resolution to RGB
// ---------------------------------------------------------------------------

/// The sixteen colors of the default terminal theme.
pub open spec fn default_theme_colors() -> Seq<(u8, u8, u8)> {
    Seq::new(16, |i: int| eight_bit_base(i))
}

/// The ANSI palette a theme argument resolves system colors against.
pub open spec fn theme_colors(theme: Option<&TerminalTheme>) -> Seq<(u8, u8, u8)> {
    match theme {
        Some(t) => t.ansi_colors@,
        None => default_theme_colors(),
    }
}

/// The RGB value of a color under a theme (the default theme when `None`).
pub open spec fn spec_truecolor(c: Color, theme: Option<&TerminalTheme>, foreground: bool) -> ColorTriplet {
    match c {
        Color::Default => match theme {
            Some(t) => if foreground { t.foreground_color } else { t.background_color },
            None => if foreground {
                ColorTriplet { red: 0, green: 0, blue: 0 }
            } else {
                ColorTriplet { red: 255, green: 255, blue: 255 }
            },
        },
        Color::Standard(n) | Color::Windows(n) => entry_triplet(theme_colors(theme)[n as int]),
        Color::EightBit(n) => entry_triplet(eight_bit_entry(n as int)),
        Color::TrueColor(t) => t,
    }
}

/// The color can be resolved against the theme's palette.
pub open spec fn resolvable(c: Color, theme: Option<&TerminalTheme>) -> bool {
    match c {
        Color::Standard(n) | Color::Windows(n) => (n as int) < theme_colors(theme).len(),
        _ => true,
    }
}

impl Color {
    /// Resolves the color to an RGB triplet under `theme` (the default
    /// terminal theme when `None`); `foreground` picks which of the theme's
    /// colors the default color stands for.
    pub fn get_truecolor(&self, theme: Option<&TerminalTheme>, foreground: bool) -> (t: ColorTriplet)
        requires
            resolvable(*self, theme),
        ensures
            t == spec_truecolor(*self, theme, foreground),
    {
        match self {
            Color::Default => match theme {
                Some(th) => if foreground { th.foreground_color } else { th.background_color },
                None => if foreground {
                    ColorTriplet::new(0, 0, 0)
                } else {
                    ColorTriplet::new(255, 255, 255)
                },
            },
            Color::Standard(n) | Color::Windows(n) => match theme {
                Some(th) => th.ansi_colors.get(*n as usize),
                None => {
                    let th = default_terminal_theme();
                    assert(th.ansi_colors@ =~= default_theme_colors());
                    th.ansi_colors.get(*n as usize)
                },
            },
            Color::EightBit(n) => {
                let p = eight_bit_palette();
                p.get(*n as usize)
            },
            Color::TrueColor(t) => *t,
        }
    }
}

// ---------------------------------------------------------------------------
// Downgrading
// ---------------------------------------------------------------------------

/// Fidelity of a color system: standard and Windows 1, 8-bit 2, RGB 3.
pub open spec fn fidelity(s: ColorSystem) -> int {
    match s {
        ColorSystem::Standard | ColorSystem::Windows => 1,
        ColorSystem::EightBit => 2,
        ColorSystem::TrueColor => 3,
    }
}

/// One RGB component on the 0–5 scale of the color cube: the rounded
/// `v / 95` below 95, else `1 +` the rounded `(v − 95) / 40` (halves up).
pub open spec fn cube_step(v: u8) -> int {
    if v < 95 {
        if 2 * v >= 95 { 1 } else { 0 }
    } else {
        1 + (2 * (v - 95) + 40) / 80
    }
}

/// The HLS saturation of a color with largest component `mx` and smallest
/// `mn` is below 15%: with lightness `l = (mx + mn) / 510`, saturation is
/// `(mx − mn) / (mx + mn)` for `l ≤ ½` and `(mx − mn) / (510 − mx − mn)`
/// above. At the three pairs (69, 51), (138, 102) and (170, 140) the ratio is
/// exactly 15%, and binary rounding of the computation counts it as below.
pub open spec fn low_saturation(mx: int, mn: int) -> bool {
    if mx == mn {
        true
    } else if (mx == 69 && mn == 51) || (mx == 138 && mn == 102) || (mx == 170 && mn == 140) {
        true
    } else {
        let den = if mx + mn > 255 { 510 - mx - mn } else { mx + mn };
        20 * (mx - mn) < 3 * den
    }
}

/// The lightness `(mx + mn) / 510` of a gray with largest component `mx`
/// and smallest `mn`, on a 0–25 scale, rounded half up; for the two grays
/// (232, 227) and (233, 226) on the midpoint `mx + mn == 459` the binary
/// computation of `25·l` lands just below it and rounds down.
pub open spec fn gray_step(mx: int, mn: int) -> int {
    if (mx == 232 && mn == 227) || (mx == 233 && mn == 226) {
        22
    } else {
        (10 * (mx + mn) + 102) / 204
    }
}

/// Largest and smallest component of a triplet.
pub open spec fn max3(t: ColorTriplet) -> int {
    let m = if t.red >= t.green { t.red } else { t.green };
    (if m >= t.blue { m } else { t.blue }) as int
}

/// Smallest component of a triplet.
pub open spec fn min3(t: ColorTriplet) -> int {
    let m = if t.red <= t.green { t.red } else { t.green };
    (if m <= t.blue { m } else { t.blue }) as int
}

/// The 8-bit palette number an RGB color downgrades to: a gray-ramp entry
/// (16, 232–255 or 231) for nearly unsaturated colors, else a cube entry.
pub open spec fn eight_bit_index(t: ColorTriplet) -> u8 {
    if low_saturation(max3(t), min3(t)) {
        let g = gray_step(max3(t), min3(t));
        if g == 0 { 16 } else if g == 25 { 231 } else { (231 + g) as u8 }
    } else {
        (16 + 36 * cube_step(t.red) + 6 * cube_step(t.green) + cube_step(t.blue)) as u8
    }
}

/// The first index of a closest entry of `colors` to `c`.
pub open spec fn closest_index(colors: Seq<(u8, u8, u8)>, c: ColorTriplet) -> int {
    choose|i: int| is_first_closest(colors, c, i)
}

/// The color downgraded to a system: unchanged when the default color or
/// already at or below the system's fidelity; otherwise RGB colors map to the
/// 8-bit index above, and colors map to standard or Windows by the closest
/// entry of those palettes (8-bit colors below 16 map to the Windows color
/// of the same number).
pub open spec fn spec_downgrade(c: Color, system: ColorSystem) -> Color {
    if c is Default || fidelity(spec_system(c)) <= fidelity(system) {
        c
    } else {
        match system {
            ColorSystem::TrueColor => c,
            ColorSystem::EightBit => match c {
                Color::TrueColor(t) => spec_from_ansi(eight_bit_index(t)),
                _ => c,
            },
            ColorSystem::Standard => Color::Standard(
                closest_index(spec_standard_palette(), spec_truecolor(c, None, true)) as u8,
            ),
            ColorSystem::Windows => match c {
                Color::EightBit(n) => if n < 16 {
                    Color::Windows(n)
                } else {
                    Color::Windows(
                        closest_index(spec_windows_palette(), spec_truecolor(c, None, true)) as u8,
                    )
                },
                _ => Color::Windows(
                    closest_index(spec_windows_palette(), spec_truecolor(c, None, true)) as u8,
                ),
            },
        }
    }
}

fn fidelity_exec(s: ColorSystem) -> (f: u8)
    ensures
        f == fidelity(s),
{
    match s {
        ColorSystem::Standard | ColorSystem::Windows => 1,
        ColorSystem::EightBit => 2,
        ColorSystem::TrueColor => 3,
    }
}

fn cube_step_exec(v: u8) -> (r: u8)
    ensures
        r == cube_step(v),
        r <= 5,
{
    if v < 95 {
        if 2 * (v as u16) >= 95 { 1 } else { 0 }
    } else {
        1 + ((2 * ((v - 95) as u16) + 40) / 80) as u8
    }
}

/// The 8-bit palette number an RGB color downgrades to.
pub fn eight_bit_index_of(t: &ColorTriplet) -> (n: u8)
    ensures
        n == eight_bit_index(*t),
{
    let mx = if t.red >= t.green { t.red } else { t.green };
    let mx = if mx >= t.blue { mx } else { t.blue };
    let mn = if t.red <= t.green { t.red } else { t.green };
    let mn = if mn <= t.blue { mn } else { t.blue };
    let mxi = mx as u32;
    let mni = mn as u32;
    let low = if mxi == mni {
        true
    } else if (mxi == 69 && mni == 51) || (mxi == 138 && mni == 102) || (mxi == 170 && mni == 140) {
        true
    } else {
        let den = if mxi + mni > 255 { 510 - mxi - mni } else { mxi + mni };
        20 * (mxi - mni) < 3 * den
    };
    if low {
        let sum = mxi + mni;
        let g = if (mxi == 232 && mni == 227) || (mxi == 233 && mni == 226) {
            22
        } else {
            (10 * sum + 102) / 204
        };
        assert(g <= 25);
        if g == 0 {
            16
        } else if g == 25 {
            231
        } else {
            (231 + g) as u8
        }
    } else {
        let r = cube_step_exec(t.red);
        let gr = cube_step_exec(t.green);
        let b = cube_step_exec(t.blue);
        16 + 36 * r + 6 * gr + b
    }
}

impl Color {
    /// Downgrades the color to a lower color system.
    pub fn downgrade(&self, system: ColorSystem) -> (c: Color)
        ensures
            c == spec_downgrade(*self, system),
            fidelity(spec_system(*self)) <= fidelity(system) ==> c == *self,
            fidelity(spec_system(c)) <= fidelity(system),
    {
        if self.is_default() {
            return *self;
        }
        if fidelity_exec(self.system()) <= fidelity_exec(system) {
            return *self;
        }
        match system {
            ColorSystem::TrueColor => *self,
            ColorSystem::EightBit => match self {
                Color::TrueColor(triplet) => Color::from_ansi(eight_bit_index_of(triplet)),
                _ => *self,
            },
            ColorSystem::Standard => {
                let triplet = self.get_truecolor(None, true);
                let p = standard_palette();
                let index = p.match_color(&triplet);
                proof {
                    let t = spec_truecolor(*self, None, true);
                    lemma_first_closest_unique(spec_standard_palette(), t, index as int, closest_index(spec_standard_palette(), t));
                }
                Color::Standard(index as u8)
            },
            ColorSystem::Windows => {
                if let Color::EightBit(n) = self {
                    if *n < 16 {
                        return Color::Windows(*n);
                    }
                }
                let triplet = self.get_truecolor(None, true);
                let p = windows_palette();
                let index = p.match_color(&triplet);
                proof {
                    let t = spec_truecolor(*self, None, true);
                    lemma_first_closest_unique(spec_windows_palette(), t, index as int, closest_index(spec_windows_palette(), t));
                }
                Color::Windows(index as u8)
            },
        }
    }
}

/// A downgraded color never has more fidelity than the system asked for.
pub proof fn lemma_downgrade_fidelity(c: Color, system: ColorSystem)
    ensures
        fidelity(spec_system(spec_downgrade(c, system))) <= fidelity(system),
{
}

/// Downgrading twice to the same system changes nothing more.
pub proof fn lemma_downgrade_idempotent(c: Color, system: ColorSystem)
    ensures
        spec_downgrade(spec_downgrade(c, system), system) == spec_downgrade(c, system),
{
    lemma_downgrade_fidelity(c, system);
}


/// The name of a color type.
pub open spec fn color_type_name(k: ColorType) -> Seq<char> {
    match k {
        ColorType::Default => "Default"@,
        ColorType::Standard => "Standard"@,
        ColorType::EightBit => "EightBit"@,
        ColorType::TrueColor => "TrueColor"@,
        ColorType::Windows => "Windows"@,
    }
}

/// The type of a color.
pub open spec fn spec_kind(c: Color) -> ColorType {
    match c {
        Color::Default => ColorType::Default,
        Color::Standard(_) => ColorType::Standard,
        Color::EightBit(_) => ColorType::EightBit,
        Color::TrueColor(_) => ColorType::TrueColor,
        Color::Windows(_) => ColorType::Windows,
    }
}

/// `Color('<name>', ColorType::<type>, number=<n or None>)`.
pub open spec fn spec_display(c: Color) -> Seq<char> {
    "Color('"@ + spec_name(c) + "', ColorType::"@ + color_type_name(spec_kind(c)) + ", number="@ + match c {
        Color::Standard(n) | Color::EightBit(n) | Color::Windows(n) => dec(n as nat),
        _ => "None"@,
    } + ")"@
}

impl Color {
    /// The color as text: its name, type and number.
    pub fn to_string(&self) -> (s: String)
        ensures
            s@ == spec_display(*self),
    {
        let mut out: Vec<char> = Vec::new();
        push_str_chars(&mut out, "Color('");
        self.push_name(&mut out);
        push_str_chars(&mut out, "', ColorType::");
        match self.kind() {
            ColorType::Default => push_str_chars(&mut out, "Default"),
            ColorType::Standard => push_str_chars(&mut out, "Standard"),
            ColorType::EightBit => push_str_chars(&mut out, "EightBit"),
            ColorType::TrueColor => push_str_chars(&mut out, "TrueColor"),
            ColorType::Windows => push_str_chars(&mut out, "Windows"),
        }
        push_str_chars(&mut out, ", number=");
        match self.number() {
            Some(n) => push_decimal(&mut out, n as u32),
            None => push_str_chars(&mut out, "None"),
        }
        push_str_chars(&mut out, ")");
        assert(out@ =~= spec_display(*self));
        string_from_chars(&out)
    }
}

} // verus!

verus! {

// ---------------------------------------------------------------------------
// What the 8-bit downgrade picks
// ---------------------------------------------------------------------------

/// The distance between two integers.
pub open spec fn abs_diff(a: int, b: int) -> int {
    if a >= b {
        a - b
    } else {
        b - a
    }
}

/// `l` is one of the six levels of the color cube (0, 95, 135, 175, 215,
/// 255) and no other level is nearer to `v`.
pub open spec fn nearest_cube_level(l: int, v: int) -> bool {
    &&& exists|k: int| 0 <= k < 6 && l == cube_level(k) as int
    &&& forall|k: int| 0 <= k < 6 ==> abs_diff(l, v) <= #[trigger] abs_diff(cube_level(k) as int, v)
}

proof fn lemma_cube_step_nearest(v: u8)
    ensures
        0 <= cube_step(v) < 6,
        nearest_cube_level(cube_level(cube_step(v)) as int, v as int),
{
    let s = cube_step(v);
    let l = cube_level(s) as int;
    assert(0 <= s < 6);
    assert(l == cube_level(s) as int);
    assert forall|k: int| 0 <= k < 6 implies abs_diff(l, v as int) <= #[trigger] abs_diff(cube_level(k) as int, v as int) by {
        if k == 0 {
        } else if k == 1 {
        } else if k == 2 {
        } else if k == 3 {
        } else if k == 4 {
        } else {
        }
    }
}

/// Downgrading a saturated true color to 256 colors picks an entry of the
/// 6×6×6 color cube whose red, green and blue are each the cube level
/// nearest the color's own red, green and blue.
pub proof fn lemma_downgrade_saturated_cube(t: ColorTriplet)
    requires
        !low_saturation(max3(t), min3(t)),
    ensures
        spec_downgrade(Color::TrueColor(t), ColorSystem::EightBit) == Color::EightBit(eight_bit_index(t)),
        16 <= eight_bit_index(t) < 232,
        nearest_cube_level(eight_bit_entry(eight_bit_index(t) as int).0 as int, t.red as int),
        nearest_cube_level(eight_bit_entry(eight_bit_index(t) as int).1 as int, t.green as int),
        nearest_cube_level(eight_bit_entry(eight_bit_index(t) as int).2 as int, t.blue as int),
{
    lemma_cube_step_nearest(t.red);
    lemma_cube_step_nearest(t.green);
    lemma_cube_step_nearest(t.blue);
    let a = cube_step(t.red);
    let b = cube_step(t.green);
    let c = cube_step(t.blue);
    let k = 36 * a + 6 * b + c;
    assert(0 <= k < 216);
    assert(k / 36 == a && (k / 6) % 6 == b && k % 6 == c) by (nonlinear_arith)
        requires
            k == 36 * a + 6 * b + c,
            0 <= a < 6,
            0 <= b < 6,
            0 <= c < 6,
    ;
    assert(eight_bit_index(t) as int == 16 + k);
}

/// Downgrading a nearly unsaturated true color to 256 colors picks a gray:
/// an entry whose red, green and blue are equal.
pub proof fn lemma_downgrade_low_saturation_gray(t: ColorTriplet)
    requires
        low_saturation(max3(t), min3(t)),
    ensures
        spec_downgrade(Color::TrueColor(t), ColorSystem::EightBit) == Color::EightBit(eight_bit_index(t)),
        eight_bit_index(t) == 16 || eight_bit_index(t) >= 231,
        eight_bit_entry(eight_bit_index(t) as int).0 == eight_bit_entry(eight_bit_index(t) as int).1,
        eight_bit_entry(eight_bit_index(t) as int).1 == eight_bit_entry(eight_bit_index(t) as int).2,
{
    let g = gray_step(max3(t), min3(t));
    assert(0 <= g <= 25) by {
        assert(0 <= min3(t) <= max3(t) <= 255);
    }
    if g != 0 && g != 25 {
        assert(eight_bit_index(t) as int == 231 + g);
    }
}

} // verus!
