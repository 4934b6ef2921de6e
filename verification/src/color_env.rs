//! Color and TTY overrides decided from environment values: `NO_COLOR`,
//! `FORCE_COLOR`, `CLICOLOR_FORCE`, `CLICOLOR`, `TTY_COMPATIBLE`,
//! `TTY_INTERACTIVE` and `REDUCE_MOTION`. Each function here takes the
//! variables' values (`None` when unset) and decides.

use vstd::prelude::*;
use crate::console::{is_set, opt_view};
use crate::strutil::{ascii_lower_seq, chars_eq_str, to_ascii_lowercase_chars};

verus! {

/// The color recommendation taken from the environment.
#[derive(Debug, Clone, Copy, PartialEq, Eq, Structural)]
pub enum ColorEnvOverride {
    /// Color should be disabled.
    NoColor,
    /// Color should be forced on.
    ForceColor,
    /// Color should be forced to 24-bit true color.
    ForceColorTruecolor,
    /// No override: detect as usual.
    NoOverride,
}

/// A user override of TTY detection.
#[derive(Debug, Clone, Copy, PartialEq, Eq, Structural)]
pub enum TtyOverride {
    /// Behave as a terminal.
    ForceTty,
    /// Behave as plain output.
    ForceNotTty,
    /// No override.
    NoOverride,
}

/// The recommendation, by priority: a non-empty `NO_COLOR` disables color;
/// a non-empty `FORCE_COLOR` decides next (`0` off, `3` true color, any
/// other value on); then a `CLICOLOR_FORCE` other than `0` forces color;
/// then `CLICOLOR=0` disables it; else no override.
pub open spec fn spec_color_env(
    no_color: Option<Seq<char>>,
    force_color: Option<Seq<char>>,
    clicolor_force: Option<Seq<char>>,
    clicolor: Option<Seq<char>>,
) -> ColorEnvOverride {
    if is_set(no_color) {
        ColorEnvOverride::NoColor
    } else if is_set(force_color) {
        if force_color == Some("0"@) {
            ColorEnvOverride::NoColor
        } else if force_color == Some("3"@) {
            ColorEnvOverride::ForceColorTruecolor
        } else {
            ColorEnvOverride::ForceColor
        }
    } else if clicolor_force matches Some(v) && v != "0"@ {
        ColorEnvOverride::ForceColor
    } else if clicolor matches Some(v) && v == "0"@ {
        ColorEnvOverride::NoColor
    } else {
        ColorEnvOverride::NoOverride
    }
}

fn is_lit(v: &str, lit: &str) -> (b: bool)
    ensures
        b == (v@ == lit@),
{
    let n = v.unicode_len();
    if n != lit.unicode_len() {
        return false;
    }
    let mut i: usize = 0;
    while i < n
        invariant
            i <= n,
            n == v@.len(),
            n == lit@.len(),
            forall|j: int| 0 <= j < i ==> v@[j] == lit@[j],
        decreases n - i,
    {
        if v.get_char(i) != lit.get_char(i) {
            return false;
        }
        i = i + 1;
    }
    assert(v@ =~= lit@);
    true
}

/// The color override announced by the values of `NO_COLOR`, `FORCE_COLOR`,
/// `CLICOLOR_FORCE` and `CLICOLOR`.
pub fn color_env_from(
    no_color: Option<&str>,
    force_color: Option<&str>,
    clicolor_force: Option<&str>,
    clicolor: Option<&str>,
) -> (r: ColorEnvOverride)
    ensures
        r == spec_color_env(opt_view(no_color), opt_view(force_color), opt_view(clicolor_force), opt_view(clicolor)),
{
    if let Some(v) = no_color {
        if v.unicode_len() > 0 {
            return ColorEnvOverride::NoColor;
        }
    }
    if let Some(v) = force_color {
        if v.unicode_len() > 0 {
            if is_lit(v, "0") {
                return ColorEnvOverride::NoColor;
            } else if is_lit(v, "3") {
                return ColorEnvOverride::ForceColorTruecolor;
            } else {
                return ColorEnvOverride::ForceColor;
            }
        }
    }
    if let Some(v) = clicolor_force {
        if !is_lit(v, "0") {
            return ColorEnvOverride::ForceColor;
        }
    }
    if let Some(v) = clicolor {
        if is_lit(v, "0") {
            return ColorEnvOverride::NoColor;
        }
    }
    ColorEnvOverride::NoOverride
}

/// `1` forces TTY behaviour, `0` forces plain output, anything else (or an
/// unset variable) is no override.
pub open spec fn spec_tty_override(value: Option<Seq<char>>) -> TtyOverride {
    if value == Some("1"@) {
        TtyOverride::ForceTty
    } else if value == Some("0"@) {
        TtyOverride::ForceNotTty
    } else {
        TtyOverride::NoOverride
    }
}

/// The override that a `TTY_COMPATIBLE` or `TTY_INTERACTIVE` value announces.
pub fn tty_override_from(value: Option<&str>) -> (r: TtyOverride)
    ensures
        r == spec_tty_override(opt_view(value)),
{
    match value {
        Some(v) => {
            if is_lit(v, "1") {
                TtyOverride::ForceTty
            } else if is_lit(v, "0") {
                TtyOverride::ForceNotTty
            } else {
                TtyOverride::NoOverride
            }
        },
        None => TtyOverride::NoOverride,
    }
}

/// `REDUCE_MOTION` asks for reduced motion when it is `1` or, in any ASCII
/// case, `true`.
pub open spec fn spec_reduce_motion(value: Option<Seq<char>>) -> bool {
    value matches Some(v) && (v == "1"@ || ascii_lower_seq(v) == "true"@)
}

/// Whether a `REDUCE_MOTION` value asks for reduced motion.
pub fn reduce_motion_from(value: Option<&str>) -> (b: bool)
    ensures
        b == spec_reduce_motion(opt_view(value)),
{
    match value {
        Some(v) => {
            if is_lit(v, "1") {
                return true;
            }
            let lower = to_ascii_lowercase_chars(v);
            chars_eq_str(lower.as_slice(), "true")
        },
        None => false,
    }
}

} // verus!
