//! Console options: the size and rendering switches handed to renderables,
//! with their update operations, and the detection of the color system and
//! of modern Windows terminals from environment values.

use vstd::prelude::*;
use crate::color::ColorSystem;
use crate::color_env::ColorEnvOverride;
use crate::color_parse::{has_prefix, lowercased, starts_with_lit, to_lowercase_string};
use crate::strutil::chars_of;

verus! {

/// How text is justified.
#[derive(Debug, Clone, Copy, PartialEq, Eq, Hash, Structural)]
pub enum JustifyMethod {
    Default,
    Left,
    Center,
    Right,
    Full,
}

/// What happens to text that does not fit.
#[derive(Debug, Clone, Copy, PartialEq, Eq, Hash, Structural)]
pub enum OverflowMethod {
    Fold,
    Crop,
    Ellipsis,
    Ignore,
}

/// Whether `p` occurs in `s` as a contiguous run.
pub open spec fn contains_seq(s: Seq<char>, p: Seq<char>) -> bool {
    exists|i: int| 0 <= i <= s.len() - p.len() && #[trigger] s.subrange(i, i + p.len()) == p
}

/// Whether `s` ends with `p`.
pub open spec fn has_suffix(s: Seq<char>, p: Seq<char>) -> bool {
    s.len() >= p.len() && s.subrange(s.len() - p.len(), s.len() as int) == p
}

/// The view of an optional string slice.
pub open spec fn opt_view(o: Option<&str>) -> Option<Seq<char>> {
    match o {
        Some(s) => Some(s@),
        None => None,
    }
}

/// The color system that `COLORTERM` and `TERM` announce: true color when
/// `COLORTERM` (in lowercase) contains `truecolor` or `24bit`; else 8-bit
/// when `TERM` ends with `256color`; else standard when `TERM` is set, not
/// empty and not `dumb`; else true color.
pub open spec fn spec_detect_color_system(colorterm: Option<Seq<char>>, term: Option<Seq<char>>) -> ColorSystem {
    if colorterm matches Some(ct) && (contains_seq(lowercased(ct), "truecolor"@) || contains_seq(
        lowercased(ct),
        "24bit"@,
    )) {
        ColorSystem::TrueColor
    } else if term matches Some(t) && has_suffix(t, "256color"@) {
        ColorSystem::EightBit
    } else if term matches Some(t) && t.len() > 0 && t != "dumb"@ {
        ColorSystem::Standard
    } else {
        ColorSystem::TrueColor
    }
}

fn contains_lit(s: &Vec<char>, lit: &str) -> (b: bool)
    ensures
        b == contains_seq(s@, lit@),
{
    let n = lit.unicode_len();
    if n > s.len() {
        return false;
    }
    if n == 0 {
        assert(s@.subrange(0, 0 + lit@.len() as int) =~= lit@);
        return true;
    }
    let mut i: usize = 0;
    while i <= s.len() - n
        invariant
            n == lit@.len(),
            0 < n <= s@.len(),
            i <= s@.len() - n + 1,
            forall|j: int| 0 <= j < i ==> #[trigger] s@.subrange(j, j + n) != lit@,
        decreases s@.len() - n + 1 - i,
    {
        let hit = starts_with_lit(&s[i..s.len()], lit);
        proof {
            assert(s@.subrange(i as int, s@.len() as int).take(n as int) =~= s@.subrange(i as int, i + n));
        }
        if hit {
            return true;
        }
        i = i + 1;
    }
    false
}

fn ends_with_lit(s: &Vec<char>, lit: &str) -> (b: bool)
    ensures
        b == has_suffix(s@, lit@),
{
    let n = lit.unicode_len();
    if n > s.len() {
        return false;
    }
    let start = s.len() - n;
    let r = starts_with_lit(&s[start..s.len()], lit);
    assert(s@.subrange(start as int, s@.len() as int).take(n as int) =~= s@.subrange(
        start as int,
        s@.len() as int,
    ));
    r
}

/// Detect the color system from the values of `COLORTERM` and `TERM`
/// (`None` when a variable is unset).
pub fn detect_color_system_from(colorterm: Option<&str>, term: Option<&str>) -> (r: ColorSystem)
    ensures
        r == spec_detect_color_system(opt_view(colorterm), opt_view(term)),
{
    if let Some(ct) = colorterm {
        let lower = to_lowercase_string(ct);
        let lc = chars_of(lower.as_str());
        if contains_lit(&lc, "truecolor") || contains_lit(&lc, "24bit") {
            return ColorSystem::TrueColor;
        }
    }
    if let Some(t) = term {
        let tc = chars_of(t);
        if ends_with_lit(&tc, "256color") {
            return ColorSystem::EightBit;
        }
        let is_dumb = starts_with_lit(tc.as_slice(), "dumb") && tc.len() == 4;
        proof {
            reveal_strlit("dumb");
            if tc@.len() == 4 {
                assert(tc@.take(4) =~= tc@);
            }
        }
        if tc.len() > 0 && !is_dumb {
            return ColorSystem::Standard;
        }
    }
    ColorSystem::TrueColor
}

/// Whether an optional environment value is set to something non-empty.
pub open spec fn is_set(v: Option<Seq<char>>) -> bool {
    v matches Some(s) && s.len() > 0
}

/// Whether the host terminal announces itself as a modern Windows terminal:
/// any of `WT_SESSION`, `WT_PROFILE_ID`, `TERM_PROGRAM` set to a non-empty
/// value.
pub fn detect_modern_windows_terminal(
    wt_session: Option<&str>,
    wt_profile_id: Option<&str>,
    term_program: Option<&str>,
) -> (b: bool)
    ensures
        b == (is_set(opt_view(wt_session)) || is_set(opt_view(wt_profile_id)) || is_set(
            opt_view(term_program),
        )),
{
    let a = match wt_session {
        Some(s) => s.unicode_len() > 0,
        None => false,
    };
    let b = match wt_profile_id {
        Some(s) => s.unicode_len() > 0,
        None => false,
    };
    let c = match term_program {
        Some(s) => s.unicode_len() > 0,
        None => false,
    };
    a || b || c
}

/// Terminal dimensions in columns and rows.
#[derive(Debug, Clone, Copy, PartialEq, Eq, Structural)]
pub struct ConsoleDimensions {
    pub width: usize,
    pub height: usize,
}

/// Options that control how renderables produce segments.
#[derive(Debug)]
pub struct ConsoleOptions {
    pub size: ConsoleDimensions,
    pub legacy_windows: bool,
    pub min_width: usize,
    pub max_width: usize,
    pub is_terminal: bool,
    pub encoding: String,
    pub max_height: usize,
    pub justify: Option<JustifyMethod>,
    pub overflow: Option<OverflowMethod>,
    /// `None` wraps by default, `Some(false)` forces wrapping, `Some(true)`
    /// suppresses it.
    pub no_wrap: Option<bool>,
    pub highlight: Option<bool>,
    pub markup: Option<bool>,
    pub height: Option<usize>,
}

/// The value of a [`ConsoleOptions`], its encoding as characters.
pub struct OptionsView {
    pub size: ConsoleDimensions,
    pub legacy_windows: bool,
    pub min_width: usize,
    pub max_width: usize,
    pub is_terminal: bool,
    pub encoding: Seq<char>,
    pub max_height: usize,
    pub justify: Option<JustifyMethod>,
    pub overflow: Option<OverflowMethod>,
    pub no_wrap: Option<bool>,
    pub highlight: Option<bool>,
    pub markup: Option<bool>,
    pub height: Option<usize>,
}

impl View for ConsoleOptions {
    type V = OptionsView;

    open spec fn view(&self) -> OptionsView {
        OptionsView {
            size: self.size,
            legacy_windows: self.legacy_windows,
            min_width: self.min_width,
            max_width: self.max_width,
            is_terminal: self.is_terminal,
            encoding: self.encoding@,
            max_height: self.max_height,
            justify: self.justify,
            overflow: self.overflow,
            no_wrap: self.no_wrap,
            highlight: self.highlight,
            markup: self.markup,
            height: self.height,
        }
    }
}

/// Selective updates to [`ConsoleOptions`]: `None` leaves a field as it is.
/// For the optional fields, `Some(None)` resets the field to `None` and
/// `Some(Some(v))` sets it to `Some(v)`.
#[derive(Debug, Clone, Copy, PartialEq, Eq, Structural)]
pub struct ConsoleOptionsUpdates {
    pub width: Option<usize>,
    pub min_width: Option<usize>,
    pub max_width: Option<usize>,
    pub justify: Option<Option<JustifyMethod>>,
    pub overflow: Option<Option<OverflowMethod>>,
    pub no_wrap: Option<Option<bool>>,
    pub highlight: Option<Option<bool>>,
    pub markup: Option<Option<bool>>,
    pub height: Option<Option<usize>>,
    pub max_height: Option<usize>,
}

/// The updates that change nothing.
pub open spec fn no_updates() -> ConsoleOptionsUpdates {
    ConsoleOptionsUpdates {
        width: None,
        min_width: None,
        max_width: None,
        justify: None,
        overflow: None,
        no_wrap: None,
        highlight: None,
        markup: None,
        height: None,
        max_height: None,
    }
}

impl Default for ConsoleOptionsUpdates {
    fn default() -> (u: Self)
        ensures
            u == no_updates(),
    {
        ConsoleOptionsUpdates {
            width: None,
            min_width: None,
            max_width: None,
            justify: None,
            overflow: None,
            no_wrap: None,
            highlight: None,
            markup: None,
            height: None,
            max_height: None,
        }
    }
}

/// `o` with the updates `u` applied. A new width sets both the width of the
/// size and the maximum width; an explicit maximum width is applied after it.
pub open spec fn spec_with_updates(o: OptionsView, u: ConsoleOptionsUpdates) -> OptionsView {
    let o1 = match u.width {
        Some(w) => OptionsView { size: ConsoleDimensions { width: w, ..o.size }, max_width: w, ..o },
        None => o,
    };
    OptionsView {
        min_width: match u.min_width {
            Some(v) => v,
            None => o1.min_width,
        },
        max_width: match u.max_width {
            Some(v) => v,
            None => o1.max_width,
        },
        justify: match u.justify {
            Some(v) => v,
            None => o1.justify,
        },
        overflow: match u.overflow {
            Some(v) => v,
            None => o1.overflow,
        },
        no_wrap: match u.no_wrap {
            Some(v) => v,
            None => o1.no_wrap,
        },
        highlight: match u.highlight {
            Some(v) => v,
            None => o1.highlight,
        },
        markup: match u.markup {
            Some(v) => v,
            None => o1.markup,
        },
        height: match u.height {
            Some(v) => v,
            None => o1.height,
        },
        max_height: match u.max_height {
            Some(v) => v,
            None => o1.max_height,
        },
        ..o1
    }
}

/// Whether an encoding name (lowercased) does not start with `utf`.
pub open spec fn spec_ascii_only(encoding: Seq<char>) -> bool {
    !has_prefix(lowercased(encoding), "utf"@)
}

impl ConsoleOptions {
    /// Whether the encoding is not UTF based, so output must stay ASCII.
    pub fn ascii_only(&self) -> (b: bool)
        ensures
            b == spec_ascii_only(self.encoding@),
    {
        let lower = to_lowercase_string(self.encoding.as_str());
        let lc = chars_of(lower.as_str());
        !starts_with_lit(lc.as_slice(), "utf")
    }

    /// A copy of these options.
    pub fn copy(&self) -> (o: ConsoleOptions)
        ensures
            o@ == self@,
    {
        ConsoleOptions {
            size: self.size,
            legacy_windows: self.legacy_windows,
            min_width: self.min_width,
            max_width: self.max_width,
            is_terminal: self.is_terminal,
            encoding: self.encoding.clone(),
            max_height: self.max_height,
            justify: self.justify,
            overflow: self.overflow,
            no_wrap: self.no_wrap,
            highlight: self.highlight,
            markup: self.markup,
            height: self.height,
        }
    }

    /// These options with the width replaced (size and maximum width); the
    /// minimum width is lowered to the new width if it exceeded it.
    pub fn update_width(&self, width: usize) -> (o: ConsoleOptions)
        ensures
            o@ == (OptionsView {
                size: ConsoleDimensions { width, ..self.size },
                max_width: width,
                min_width: if self.min_width <= width { self.min_width } else { width },
                ..self@
            }),
    {
        let mut opts = self.copy();
        opts.size.width = width;
        opts.max_width = width;
        if width < opts.min_width {
            opts.min_width = width;
        }
        opts
    }

    /// These options with the height constraint set to `height`.
    pub fn update_height(&self, height: usize) -> (o: ConsoleOptions)
        ensures
            o@ == (OptionsView { height: Some(height), ..self@ }),
    {
        let mut opts = self.copy();
        opts.height = Some(height);
        opts
    }

    /// These options with the size replaced, the maximum width set to
    /// `width` and the height constraint set to `height`.
    pub fn update_dimensions(&self, width: usize, height: usize) -> (o: ConsoleOptions)
        ensures
            o@ == (OptionsView {
                size: ConsoleDimensions { width, height },
                max_width: width,
                height: Some(height),
                ..self@
            }),
    {
        let mut opts = self.copy();
        opts.size = ConsoleDimensions { width, height };
        opts.max_width = width;
        opts.height = Some(height);
        opts
    }

    /// These options with no height constraint.
    pub fn reset_height(&self) -> (o: ConsoleOptions)
        ensures
            o@ == (OptionsView { height: None, ..self@ }),
    {
        let mut opts = self.copy();
        opts.height = None;
        opts
    }

    /// These options with the updates applied.
    pub fn with_updates(&self, updates: &ConsoleOptionsUpdates) -> (o: ConsoleOptions)
        ensures
            o@ == spec_with_updates(self@, *updates),
    {
        let mut opts = self.copy();
        if let Some(w) = updates.width {
            opts.size.width = w;
            opts.max_width = w;
        }
        if let Some(min_w) = updates.min_width {
            opts.min_width = min_w;
        }
        if let Some(max_w) = updates.max_width {
            opts.max_width = max_w;
        }
        if let Some(j) = updates.justify {
            opts.justify = j;
        }
        if let Some(ov) = updates.overflow {
            opts.overflow = ov;
        }
        if let Some(nw) = updates.no_wrap {
            opts.no_wrap = nw;
        }
        if let Some(h) = updates.highlight {
            opts.highlight = h;
        }
        if let Some(m) = updates.markup {
            opts.markup = m;
        }
        if let Some(h) = updates.height {
            opts.height = h;
        }
        if let Some(mh) = updates.max_height {
            opts.max_height = mh;
        }
        opts
    }
}

/// Applying no updates changes nothing.
pub proof fn lemma_no_updates(o: OptionsView)
    ensures
        spec_with_updates(o, no_updates()) == o,
{
}

/// Applying the same updates twice is applying them once.
pub proof fn lemma_with_updates_idempotent(o: OptionsView, u: ConsoleOptionsUpdates)
    ensures
        spec_with_updates(spec_with_updates(o, u), u) == spec_with_updates(o, u),
{
}


/// The color system a console settles on, by priority: an explicit
/// `ColorSystem`; then an explicit name (`standard`, `256`, `truecolor`,
/// `windows`); then none when color was explicitly switched off; then the
/// environment's override (`NoColor` none, `ForceColor` 8-bit,
/// `ForceColorTruecolor` true color); then none when color is off or the
/// output is not a terminal (and a terminal was not forced); else what
/// `COLORTERM` and `TERM` announce.
pub open spec fn spec_resolve_color_system(
    color_system_override: Option<ColorSystem>,
    color_system: Option<Seq<char>>,
    no_color_explicit: bool,
    no_color: bool,
    force_terminal: Option<bool>,
    env_override: ColorEnvOverride,
    is_terminal: bool,
    colorterm: Option<Seq<char>>,
    term: Option<Seq<char>>,
) -> Option<ColorSystem> {
    if color_system_override is Some {
        color_system_override
    } else if color_system == Some("standard"@) {
        Some(ColorSystem::Standard)
    } else if color_system == Some("256"@) {
        Some(ColorSystem::EightBit)
    } else if color_system == Some("truecolor"@) {
        Some(ColorSystem::TrueColor)
    } else if color_system == Some("windows"@) {
        Some(ColorSystem::Windows)
    } else if no_color_explicit && no_color {
        None
    } else {
        match env_override {
            ColorEnvOverride::NoColor => None,
            ColorEnvOverride::ForceColor => Some(ColorSystem::EightBit),
            ColorEnvOverride::ForceColorTruecolor => Some(ColorSystem::TrueColor),
            ColorEnvOverride::NoOverride => if no_color {
                None
            } else if force_terminal != Some(true) && !is_terminal {
                None
            } else {
                Some(spec_detect_color_system(colorterm, term))
            },
        }
    }
}

fn is_name(s: &str, lit: &str) -> (b: bool)
    ensures
        b == (s@ == lit@),
{
    let n = s.unicode_len();
    if n != lit.unicode_len() {
        return false;
    }
    let cs = chars_of(s);
    let r = starts_with_lit(cs.as_slice(), lit);
    proof {
        if r {
            assert(cs@.take(n as int) =~= cs@);
        }
        if s@ == lit@ {
            assert(cs@.take(lit@.len() as int) =~= cs@);
        }
    }
    r
}

/// Decide the color system of a console from its settings, the
/// environment's color override, whether the output is a terminal, and the
/// values of `COLORTERM` and `TERM` (`None` means no color), together with
/// the console's effective no-color flag: set when no color was asked for or
/// no color system resolved.
pub fn resolve_color_system(
    color_system_override: Option<ColorSystem>,
    color_system: Option<&str>,
    no_color_explicit: bool,
    no_color: bool,
    force_terminal: Option<bool>,
    env_override: ColorEnvOverride,
    is_terminal: bool,
    colorterm: Option<&str>,
    term: Option<&str>,
) -> (r: (Option<ColorSystem>, bool))
    ensures
        r.0 == spec_resolve_color_system(
            color_system_override,
            opt_view(color_system),
            no_color_explicit,
            no_color,
            force_terminal,
            env_override,
            is_terminal,
            opt_view(colorterm),
            opt_view(term),
        ),
        r.1 == (no_color || r.0 is None),
{
    let cs = decide_color_system(
        color_system_override,
        color_system,
        no_color_explicit,
        no_color,
        force_terminal,
        env_override,
        is_terminal,
        colorterm,
        term,
    );
    let effective_no_color = no_color || cs.is_none();
    (cs, effective_no_color)
}

fn decide_color_system(
    color_system_override: Option<ColorSystem>,
    color_system: Option<&str>,
    no_color_explicit: bool,
    no_color: bool,
    force_terminal: Option<bool>,
    env_override: ColorEnvOverride,
    is_terminal: bool,
    colorterm: Option<&str>,
    term: Option<&str>,
) -> (r: Option<ColorSystem>)
    ensures
        r == spec_resolve_color_system(
            color_system_override,
            opt_view(color_system),
            no_color_explicit,
            no_color,
            force_terminal,
            env_override,
            is_terminal,
            opt_view(colorterm),
            opt_view(term),
        ),
{
    if color_system_override.is_some() {
        return color_system_override;
    }
    if let Some(name) = color_system {
        if is_name(name, "standard") {
            return Some(ColorSystem::Standard);
        } else if is_name(name, "256") {
            return Some(ColorSystem::EightBit);
        } else if is_name(name, "truecolor") {
            return Some(ColorSystem::TrueColor);
        } else if is_name(name, "windows") {
            return Some(ColorSystem::Windows);
        }
    }
    if no_color_explicit && no_color {
        return None;
    }
    match env_override {
        ColorEnvOverride::NoColor => None,
        ColorEnvOverride::ForceColor => Some(ColorSystem::EightBit),
        ColorEnvOverride::ForceColorTruecolor => Some(ColorSystem::TrueColor),
        ColorEnvOverride::NoOverride => {
            if no_color {
                None
            } else if !matches!(force_terminal, Some(true)) && !is_terminal {
                None
            } else {
                Some(detect_color_system_from(colorterm, term))
            }
        },
    }
}

} // verus!

verus! {

/// The name of a color system as a console setting: `standard`, `256`,
/// `truecolor` or `windows`.
pub open spec fn color_system_setting_name(s: ColorSystem) -> Seq<char> {
    match s {
        ColorSystem::Standard => "standard"@,
        ColorSystem::EightBit => "256"@,
        ColorSystem::TrueColor => "truecolor"@,
        ColorSystem::Windows => "windows"@,
    }
}

/// An explicit color system decides, whatever the environment says: a
/// given `ColorSystem` value is the result, and otherwise a color system
/// setting that names a system (by the name the console reports for it)
/// gives that system back.
pub proof fn lemma_color_system_setting(
    s: ColorSystem,
    color_system_override: Option<ColorSystem>,
    color_system: Option<Seq<char>>,
    no_color_explicit: bool,
    no_color: bool,
    force_terminal: Option<bool>,
    env_override: ColorEnvOverride,
    is_terminal: bool,
    colorterm: Option<Seq<char>>,
    term: Option<Seq<char>>,
)
    ensures
        color_system_override is Some ==> spec_resolve_color_system(
            color_system_override,
            color_system,
            no_color_explicit,
            no_color,
            force_terminal,
            env_override,
            is_terminal,
            colorterm,
            term,
        ) == color_system_override,
        spec_resolve_color_system(
            None,
            Some(color_system_setting_name(s)),
            no_color_explicit,
            no_color,
            force_terminal,
            env_override,
            is_terminal,
            colorterm,
            term,
        ) == Some(s),
{
    reveal_strlit("standard");
    reveal_strlit("256");
    reveal_strlit("truecolor");
    reveal_strlit("windows");
    assert("standard"@ != "256"@ && "standard"@ != "truecolor"@ && "standard"@ != "windows"@) by {
        assert("standard"@[0] != "256"@[0]);
        assert("standard"@.len() != "truecolor"@.len());
        assert("standard"@[0] != "windows"@[0]);
    }
    assert("256"@ != "truecolor"@ && "256"@ != "windows"@) by {
        assert("256"@[0] != "truecolor"@[0]);
        assert("256"@[0] != "windows"@[0]);
    }
    assert("truecolor"@ != "windows"@) by {
        assert("truecolor"@[0] != "windows"@[0]);
    }
}

} // verus!
