//! Badges: compact status tags drawn in a box, with an optional icon.
//!
//! Styles are held by their definition text (such as `"on red"`).

use vstd::prelude::*;
use crate::cells::{cell_len, str_width};
use crate::strutil::string_from_chars;

verus! {

/// Predefined badge styles for common status indicators.
#[derive(Debug, Clone, PartialEq, Eq)]
pub enum BadgeStyle {
    /// Green background, white text.
    Success,
    /// Red background, white text.
    Error,
    /// Yellow background, black text.
    Warning,
    /// Blue background, white text.
    Info,
    /// Gray background, white text.
    Neutral,
    /// A custom style, by its definition.
    Custom(String),
}

/// The icon a badge style shows when the badge sets none.
pub open spec fn spec_default_icon(style: BadgeStyle) -> Option<Seq<char>> {
    match style {
        BadgeStyle::Success => Some("✓"@),
        BadgeStyle::Error => Some("✗"@),
        BadgeStyle::Warning => Some("⚠"@),
        BadgeStyle::Info => Some("ℹ"@),
        _ => None,
    }
}

/// The view of an optional string slice.
pub open spec fn str_opt_view(o: Option<&str>) -> Option<Seq<char>> {
    match o {
        Some(s) => Some(s@),
        None => None,
    }
}

impl BadgeStyle {
    /// The icon this style shows when the badge sets none.
    pub fn default_icon(&self) -> (r: Option<&'static str>)
        ensures
            str_opt_view(r) == spec_default_icon(*self),
    {
        match self {
            BadgeStyle::Success => Some("✓"),
            BadgeStyle::Error => Some("✗"),
            BadgeStyle::Warning => Some("⚠"),
            BadgeStyle::Info => Some("ℹ"),
            BadgeStyle::Neutral => None,
            BadgeStyle::Custom(_) => None,
        }
    }
}

/// A badge/tag widget for displaying status indicators.
#[derive(Debug, Clone, PartialEq, Eq)]
pub struct Badge {
    text: String,
    style: BadgeStyle,
    icon: Option<String>,
    rounded: bool,
}

/// The value of a [`Badge`].
pub struct BadgeView {
    pub text: Seq<char>,
    pub style: BadgeStyle,
    pub icon: Option<Seq<char>>,
    pub rounded: bool,
}

/// The view of an optional string.
pub open spec fn string_opt_view(o: Option<String>) -> Option<Seq<char>> {
    match o {
        Some(s) => Some(s@),
        None => None,
    }
}

impl View for Badge {
    type V = BadgeView;

    closed spec fn view(&self) -> BadgeView {
        BadgeView { text: self.text@, style: self.style, icon: string_opt_view(self.icon), rounded: self.rounded }
    }
}

/// The icon shown: the badge's own, else its style's default.
pub open spec fn spec_effective_icon(b: BadgeView) -> Option<Seq<char>> {
    match b.icon {
        Some(i) => Some(i),
        None => spec_default_icon(b.style),
    }
}

/// The boxed content: the icon, a space and the text, or the text alone.
pub open spec fn badge_content(b: BadgeView) -> Seq<char> {
    match spec_effective_icon(b) {
        Some(i) => i + seq![' '] + b.text,
        None => b.text,
    }
}

/// The corners, horizontal and vertical lines of the badge's box: rounded
/// `╭╮╰╯` or square `┌┐└┘`, with `─` and `│`.
pub open spec fn spec_box_chars(rounded: bool) -> (char, char, char, char, char, char) {
    if rounded {
        ('╭', '╮', '╰', '╯', '─', '│')
    } else {
        ('┌', '┐', '└', '┘', '─', '│')
    }
}

/// `n` copies of `c`.
pub open spec fn repeat_char(c: char, n: nat) -> Seq<char> {
    Seq::new(n, |_i: int| c)
}

/// The three lines of the badge: the top border, the content padded by a
/// space on each side between vertical lines, the bottom border; the borders
/// are as wide as the padded content in cells.
pub open spec fn badge_lines(b: BadgeView) -> Seq<Seq<char>> {
    let (tl, tr, bl, br, h, v) = spec_box_chars(b.rounded);
    let content = badge_content(b);
    let inner = str_width(content) + 2;
    seq![
        seq![tl] + repeat_char(h, inner as nat) + seq![tr],
        seq![v, ' '] + content + seq![' ', v],
        seq![bl] + repeat_char(h, inner as nat) + seq![br],
    ]
}

/// Whether the badge's width in cells leaves room for its padding.
pub open spec fn badge_fits(b: BadgeView) -> bool {
    str_width(badge_content(b)) + 2 <= usize::MAX
}

fn push_str(out: &mut Vec<char>, s: &str)
    ensures
        final(out)@ == old(out)@ + s@,
{
    let n = s.unicode_len();
    let mut i: usize = 0;
    while i < n
        invariant
            n == s@.len(),
            i <= n,
            out@ == old(out)@ + s@.take(i as int),
        decreases n - i,
    {
        out.push(s.get_char(i));
        i = i + 1;
        assert(out@ =~= old(out)@ + s@.take(i as int));
    }
    assert(s@.take(n as int) =~= s@);
}

fn push_repeat(out: &mut Vec<char>, c: char, n: usize)
    ensures
        final(out)@ == old(out)@ + repeat_char(c, n as nat),
{
    let mut i: usize = 0;
    while i < n
        invariant
            i <= n,
            out@ == old(out)@ + repeat_char(c, i as nat),
        decreases n - i,
    {
        out.push(c);
        i = i + 1;
        assert(out@ =~= old(out)@ + repeat_char(c, i as nat));
    }
}

impl Badge {
    /// A neutral badge with square corners and no icon.
    pub fn new(text: &str) -> (b: Badge)
        ensures
            b@ == (BadgeView { text: text@, style: BadgeStyle::Neutral, icon: None, rounded: false }),
    {
        Badge { text: String::from_str(text), style: BadgeStyle::Neutral, icon: None, rounded: false }
    }

    /// The badge with another style.
    pub fn style(self, style: BadgeStyle) -> (b: Badge)
        ensures
            b@ == (BadgeView { style, ..self@ }),
    {
        Badge { style, ..self }
    }

    /// A success badge (✓).
    pub fn success(text: &str) -> (b: Badge)
        ensures
            b@ == (BadgeView { text: text@, style: BadgeStyle::Success, icon: Some("✓"@), rounded: false }),
    {
        Badge::new(text).style(BadgeStyle::Success).icon("✓")
    }

    /// An error badge (✗).
    pub fn error(text: &str) -> (b: Badge)
        ensures
            b@ == (BadgeView { text: text@, style: BadgeStyle::Error, icon: Some("✗"@), rounded: false }),
    {
        Badge::new(text).style(BadgeStyle::Error).icon("✗")
    }

    /// A warning badge (⚠).
    pub fn warning(text: &str) -> (b: Badge)
        ensures
            b@ == (BadgeView { text: text@, style: BadgeStyle::Warning, icon: Some("⚠"@), rounded: false }),
    {
        Badge::new(text).style(BadgeStyle::Warning).icon("⚠")
    }

    /// An info badge (ℹ).
    pub fn info(text: &str) -> (b: Badge)
        ensures
            b@ == (BadgeView { text: text@, style: BadgeStyle::Info, icon: Some("ℹ"@), rounded: false }),
    {
        Badge::new(text).style(BadgeStyle::Info).icon("ℹ")
    }

    /// The badge with this icon before its text (an empty icon shows none).
    pub fn icon(self, icon: &str) -> (b: Badge)
        ensures
            b@ == (BadgeView { icon: Some(icon@), ..self@ }),
    {
        Badge { icon: Some(String::from_str(icon)), ..self }
    }

    /// The badge with rounded (`true`) or square corners.
    pub fn rounded(self, rounded: bool) -> (b: Badge)
        ensures
            b@ == (BadgeView { rounded, ..self@ }),
    {
        Badge { rounded, ..self }
    }

    /// The badge's text.
    pub fn text(&self) -> (r: &str)
        ensures
            r@ == self@.text,
    {
        self.text.as_str()
    }

    /// The badge's style.
    pub fn badge_style(&self) -> (r: &BadgeStyle)
        ensures
            *r == self@.style,
    {
        &self.style
    }

    /// The badge's own icon, if it set one.
    pub fn icon_str(&self) -> (r: Option<&str>)
        ensures
            str_opt_view(r) == self@.icon,
    {
        match &self.icon {
            Some(s) => Some(s.as_str()),
            None => None,
        }
    }

    /// Whether the corners are rounded.
    pub fn is_rounded(&self) -> (r: bool)
        ensures
            r == self@.rounded,
    {
        self.rounded
    }

    /// The icon shown: the badge's own, else the style's default.
    pub fn effective_icon(&self) -> (r: Option<&str>)
        ensures
            str_opt_view(r) == spec_effective_icon(self@),
    {
        match &self.icon {
            Some(s) => Some(s.as_str()),
            None => self.style.default_icon(),
        }
    }

    /// The box characters: top-left, top-right, bottom-left, bottom-right,
    /// horizontal, vertical.
    pub fn box_chars(&self) -> (r: (char, char, char, char, char, char))
        ensures
            r == spec_box_chars(self@.rounded),
    {
        if self.rounded {
            ('╭', '╮', '╰', '╯', '─', '│')
        } else {
            ('┌', '┐', '└', '┘', '─', '│')
        }
    }

    fn content(&self) -> (r: Vec<char>)
        ensures
            r@ == badge_content(self@),
    {
        let mut out: Vec<char> = Vec::new();
        match self.effective_icon() {
            Some(icon) => {
                push_str(&mut out, icon);
                out.push(' ');
                push_str(&mut out, self.text.as_str());
                assert(out@ =~= badge_content(self@));
            },
            None => {
                push_str(&mut out, self.text.as_str());
                assert(out@ =~= badge_content(self@));
            },
        }
        out
    }

    /// The three lines of the drawn badge (top border, content, bottom
    /// border), without styles.
    pub fn lines(&self) -> (r: Vec<String>)
        requires
            badge_fits(self@),
        ensures
            r@.len() == 3,
            forall|i: int| 0 <= i < 3 ==> #[trigger] r@[i]@ == badge_lines(self@)[i],
    {
        let (tl, tr, bl, br, h, v) = self.box_chars();
        let content = self.content();
        let cs = string_from_chars(&content);
        let inner = cell_len(cs.as_str()) + 2;
        let mut top: Vec<char> = Vec::new();
        top.push(tl);
        push_repeat(&mut top, h, inner);
        top.push(tr);
        let mut middle: Vec<char> = Vec::new();
        middle.push(v);
        middle.push(' ');
        let ghost mid0 = middle@;
        let mut k: usize = 0;
        while k < content.len()
            invariant
                k <= content@.len(),
                middle@ == mid0 + content@.take(k as int),
            decreases content@.len() - k,
        {
            middle.push(content[k]);
            k = k + 1;
            assert(middle@ =~= mid0 + content@.take(k as int));
        }
        middle.push(' ');
        middle.push(v);
        let mut bottom: Vec<char> = Vec::new();
        bottom.push(bl);
        push_repeat(&mut bottom, h, inner);
        bottom.push(br);
        let mut r: Vec<String> = Vec::new();
        r.push(string_from_chars(&top));
        r.push(string_from_chars(&middle));
        r.push(string_from_chars(&bottom));
        proof {
            let want = badge_lines(self@);
            assert(content@.take(content@.len() as int) =~= content@);
            assert(r@[0]@ =~= want[0]);
            assert(r@[1]@ =~= want[1]);
            assert(r@[2]@ =~= want[2]);
        }
        r
    }

    /// The three lines, or `None` when the badge is too wide to measure
    /// with its padding in a `usize`.
    pub fn checked_lines(&self) -> (r: Option<Vec<String>>)
        ensures
            r is Some <==> badge_fits(self@),
            r matches Some(v) ==> v@.len() == 3 && forall|i: int| 0 <= i < 3 ==> #[trigger] v@[i]@ == badge_lines(self@)[i],
    {
        let content = self.content();
        let cs = string_from_chars(&content);
        let w = cell_len(cs.as_str());
        if w > usize::MAX - 2 {
            None
        } else {
            Some(self.lines())
        }
    }

    /// The drawn badge as text: its three lines joined by newlines.
    pub fn to_string(&self) -> (s: String)
        requires
            badge_fits(self@),
        ensures
            s@ == badge_lines(self@)[0] + seq!['\n'] + badge_lines(self@)[1] + seq!['\n'] + badge_lines(self@)[2],
    {
        let lines = self.lines();
        let mut out: Vec<char> = Vec::new();
        push_str(&mut out, lines[0].as_str());
        out.push('\n');
        push_str(&mut out, lines[1].as_str());
        out.push('\n');
        push_str(&mut out, lines[2].as_str());
        string_from_chars(&out)
    }
}

} // verus!
