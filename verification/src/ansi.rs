//! ANSI escape sequences in terminal output: the style that each SGR code
//! stands for, and the splitting of text into plain runs and escape
//! sequences.
//!
//! An escape sequence starts with ESC (`\x1b`) and is one of:
//! - ESC and a character in `0`..=`?` (no payload);
//! - an OSC sequence: ESC `]`, a payload without newlines, and the first
//!   ESC `\` after it (the payload is kept);
//! - ESC and one character of `(`, `-`..=`Z`, `\`, `_` (the character is kept);
//! - a CSI sequence: ESC `[`, parameter characters `0`..=`?`, intermediate
//!   characters ` `..=`/`, and a final character `@`..=`~` (`[` through the
//!   final character is kept).
//! The text is scanned left to right; at each ESC the first of these forms
//! that fits is taken, and an ESC where none fits is plain text.

use vstd::prelude::*;
use crate::strutil::{chars_of, dec, string_from_chars};
use crate::color_parse::{all_digits, copy_chars, digit_value, digits_value, split_chars, split_on, lemma_split_on_nonempty};
use crate::color::{spec_from_ansi, Color};
use crate::color_triplet::ColorTriplet;

verus! {

/// The style definition that an SGR code stands for, if any.
pub open spec fn spec_sgr_style(code: u8) -> Option<Seq<char>> {
    match code {
        1 => Some("bold"@),
        2 => Some("dim"@),
        3 => Some("italic"@),
        4 => Some("underline"@),
        5 => Some("blink"@),
        6 => Some("blink2"@),
        7 => Some("reverse"@),
        8 => Some("conceal"@),
        9 => Some("strike"@),
        21 => Some("underline2"@),
        22 => Some("not dim not bold"@),
        23 => Some("not italic"@),
        24 => Some("not underline"@),
        25 => Some("not blink"@),
        26 => Some("not blink2"@),
        27 => Some("not reverse"@),
        28 => Some("not conceal"@),
        29 => Some("not strike"@),
        30 => Some("color(0)"@),
        31 => Some("color(1)"@),
        32 => Some("color(2)"@),
        33 => Some("color(3)"@),
        34 => Some("color(4)"@),
        35 => Some("color(5)"@),
        36 => Some("color(6)"@),
        37 => Some("color(7)"@),
        39 => Some("default"@),
        40 => Some("on color(0)"@),
        41 => Some("on color(1)"@),
        42 => Some("on color(2)"@),
        43 => Some("on color(3)"@),
        44 => Some("on color(4)"@),
        45 => Some("on color(5)"@),
        46 => Some("on color(6)"@),
        47 => Some("on color(7)"@),
        49 => Some("on default"@),
        51 => Some("frame"@),
        52 => Some("encircle"@),
        53 => Some("overline"@),
        54 => Some("not frame not encircle"@),
        55 => Some("not overline"@),
        90 => Some("color(8)"@),
        91 => Some("color(9)"@),
        92 => Some("color(10)"@),
        93 => Some("color(11)"@),
        94 => Some("color(12)"@),
        95 => Some("color(13)"@),
        96 => Some("color(14)"@),
        97 => Some("color(15)"@),
        100 => Some("on color(8)"@),
        101 => Some("on color(9)"@),
        102 => Some("on color(10)"@),
        103 => Some("on color(11)"@),
        104 => Some("on color(12)"@),
        105 => Some("on color(13)"@),
        106 => Some("on color(14)"@),
        107 => Some("on color(15)"@),
        _ => None,
    }
}

/// The view of an optional static string.
pub open spec fn static_view(o: Option<&'static str>) -> Option<Seq<char>> {
    match o {
        Some(s) => Some(s@),
        None => None,
    }
}

/// The style definition that an SGR (Select Graphic Rendition) code stands
/// for, or `None` for a code without one.
pub fn sgr_style(code: u8) -> (r: Option<&'static str>)
    ensures
        static_view(r) == spec_sgr_style(code),
{
    match code {
        1 => Some("bold"),
        2 => Some("dim"),
        3 => Some("italic"),
        4 => Some("underline"),
        5 => Some("blink"),
        6 => Some("blink2"),
        7 => Some("reverse"),
        8 => Some("conceal"),
        9 => Some("strike"),
        21 => Some("underline2"),
        22 => Some("not dim not bold"),
        23 => Some("not italic"),
        24 => Some("not underline"),
        25 => Some("not blink"),
        26 => Some("not blink2"),
        27 => Some("not reverse"),
        28 => Some("not conceal"),
        29 => Some("not strike"),
        30 => Some("color(0)"),
        31 => Some("color(1)"),
        32 => Some("color(2)"),
        33 => Some("color(3)"),
        34 => Some("color(4)"),
        35 => Some("color(5)"),
        36 => Some("color(6)"),
        37 => Some("color(7)"),
        39 => Some("default"),
        40 => Some("on color(0)"),
        41 => Some("on color(1)"),
        42 => Some("on color(2)"),
        43 => Some("on color(3)"),
        44 => Some("on color(4)"),
        45 => Some("on color(5)"),
        46 => Some("on color(6)"),
        47 => Some("on color(7)"),
        49 => Some("on default"),
        51 => Some("frame"),
        52 => Some("encircle"),
        53 => Some("overline"),
        54 => Some("not frame not encircle"),
        55 => Some("not overline"),
        90 => Some("color(8)"),
        91 => Some("color(9)"),
        92 => Some("color(10)"),
        93 => Some("color(11)"),
        94 => Some("color(12)"),
        95 => Some("color(13)"),
        96 => Some("color(14)"),
        97 => Some("color(15)"),
        100 => Some("on color(8)"),
        101 => Some("on color(9)"),
        102 => Some("on color(10)"),
        103 => Some("on color(11)"),
        104 => Some("on color(12)"),
        105 => Some("on color(13)"),
        106 => Some("on color(14)"),
        107 => Some("on color(15)"),
        _ => None,
    }
}


/// Whether the code of `c` lies in `lo..=hi`.
pub open spec fn in_range(c: char, lo: u32, hi: u32) -> bool {
    lo <= (c as u32) <= hi
}

/// The characters that may follow ESC as a one-character sequence with a
/// kept payload: `(`, `-`..=`Z`, `\` and `_`.
pub open spec fn fe_char(c: char) -> bool {
    c == '(' || in_range(c, 0x2D, 0x5A) || c == '\\' || c == '_'
}

/// The index of the first ESC `\` at or after `k`, if one comes before any
/// newline.
pub open spec fn osc_end(s: Seq<char>, k: int) -> Option<int>
    decreases s.len() - k,
{
    if k < 0 || k + 1 >= s.len() {
        None
    } else if s[k] == '\x1b' && s[k + 1] == '\\' {
        Some(k)
    } else if s[k] == '\n' {
        None
    } else {
        osc_end(s, k + 1)
    }
}

/// The first index at or after `j` whose character's code is not in `lo..=hi`.
pub open spec fn skip_range(s: Seq<char>, j: int, lo: u32, hi: u32) -> int
    decreases s.len() - j,
{
    if 0 <= j < s.len() && in_range(s[j], lo, hi) {
        skip_range(s, j + 1, lo, hi)
    } else {
        j
    }
}

/// The escape sequence that starts at `i`, if any: the index just past it,
/// the range of its OSC payload, and the range of its kept group.
pub open spec fn match_at(s: Seq<char>, i: int) -> Option<(int, Option<(int, int)>, Option<(int, int)>)> {
    if !(0 <= i && i + 1 < s.len() && s[i] == '\x1b') {
        None
    } else {
        let c = s[i + 1];
        if in_range(c, 0x30, 0x3F) {
            Some((i + 2, None, None))
        } else if c == ']' {
            match osc_end(s, i + 2) {
                Some(k) => Some((k + 2, Some((i + 2, k)), None)),
                None => None,
            }
        } else if fe_char(c) {
            Some((i + 2, None, Some((i + 1, i + 2))))
        } else if c == '[' {
            let p = skip_range(s, i + 2, 0x30, 0x3F);
            let q = skip_range(s, p, 0x20, 0x2F);
            if q < s.len() && in_range(s[q], 0x40, 0x7E) {
                Some((q + 1, None, Some((i + 1, q + 1))))
            } else {
                None
            }
        } else {
            None
        }
    }
}

/// The start of the first escape sequence at or after `from`.
pub open spec fn next_match(s: Seq<char>, from: int) -> Option<int>
    decreases s.len() - from,
{
    if from < 0 || from >= s.len() {
        None
    } else if match_at(s, from) is Some {
        Some(from)
    } else {
        next_match(s, from + 1)
    }
}

/// The terminator found by [`osc_end`] lies at or after `k`.
pub proof fn lemma_osc_end(s: Seq<char>, k: int)
    ensures
        osc_end(s, k) matches Some(e) ==> k <= e && e + 1 < s.len() && s[e] == '\x1b' && s[e + 1] == '\\',
    decreases s.len() - k,
{
    if k >= 0 && k + 1 < s.len() && !(s[k] == '\x1b' && s[k + 1] == '\\') && s[k] != '\n' {
        lemma_osc_end(s, k + 1);
    }
}

/// [`skip_range`] stops at or after `j`, on the first character outside the range.
pub proof fn lemma_skip_range(s: Seq<char>, j: int, lo: u32, hi: u32)
    ensures
        j <= skip_range(s, j, lo, hi),
        j >= 0 ==> skip_range(s, j, lo, hi) <= s.len() || skip_range(s, j, lo, hi) == j,
        forall|t: int| j <= t < skip_range(s, j, lo, hi) ==> 0 <= t < s.len() && #[trigger] in_range(s[t], lo, hi),
    decreases s.len() - j,
{
    if 0 <= j < s.len() && in_range(s[j], lo, hi) {
        lemma_skip_range(s, j + 1, lo, hi);
    }
}

/// An escape sequence is at least two characters long, and its payload and
/// group lie inside it.
pub proof fn lemma_match_at(s: Seq<char>, i: int)
    ensures
        match_at(s, i) matches Some((end, osc, g)) ==> i + 2 <= end <= s.len() && (osc matches Some((a, b))
            ==> i + 2 <= a <= b <= s.len()) && (g matches Some((a, b)) ==> i + 1 == a && a < b <= end),
{
    if 0 <= i && i + 1 < s.len() {
        lemma_osc_end(s, i + 2);
        lemma_skip_range(s, i + 2, 0x30, 0x3F);
        lemma_skip_range(s, skip_range(s, i + 2, 0x30, 0x3F), 0x20, 0x2F);
    }
}

/// [`next_match`] finds the first escape sequence at or after `from`.
pub proof fn lemma_next_match(s: Seq<char>, from: int)
    requires
        from >= 0,
    ensures
        next_match(s, from) matches Some(i) ==> from <= i < s.len() && match_at(s, i) is Some,
        next_match(s, from) is None ==> forall|j: int| from <= j < s.len() ==> #[trigger] match_at(s, j) is None,
    decreases s.len() - from,
{
    if 0 <= from < s.len() && match_at(s, from) is None {
        lemma_next_match(s, from + 1);
    }
}

/// A token: plain text, the parameters of an SGR sequence (between `[`
/// and `m`), and an OSC payload.
pub type TokenView = (Seq<char>, Option<Seq<char>>, Option<Seq<char>>);

/// The text of an optional range of `s`.
pub open spec fn range_text(s: Seq<char>, r: Option<(int, int)>) -> Option<Seq<char>> {
    match r {
        Some((a, b)) => Some(s.subrange(a, b)),
        None => None,
    }
}

/// The tokens of `s` from search position `from`, with plain text pending
/// from `pos`: the plain text before each sequence (when not empty), then a
/// token for the sequence, except that ESC `(` is dropped together with the
/// character after it; then the plain text after the last sequence.
pub open spec fn tokens_from(s: Seq<char>, pos: int, from: int) -> Seq<TokenView>
    decreases s.len() - from,
{
    if from < 0 || from > s.len() {
        Seq::empty()
    } else {
        match next_match(s, from) {
            None => if pos < s.len() {
                seq![(s.subrange(pos, s.len() as int), None, None)]
            } else {
                Seq::empty()
            },
            Some(i) => {
                proof {
                    lemma_next_match(s, from);
                    lemma_match_at(s, i);
                }
                let (end, osc, g) = match_at(s, i).unwrap();
                let before: Seq<TokenView> = if i > pos {
                    seq![(s.subrange(pos, i), None, None)]
                } else {
                    Seq::empty()
                };
                let gt = range_text(s, g);
                if gt == Some(seq!['(']) {
                    before + tokens_from(s, end + 1, end)
                } else {
                    let tok: TokenView = match gt {
                        Some(v) => if v.len() >= 2 && v.last() == 'm' {
                            (Seq::empty(), Some(v.subrange(1, v.len() - 1)), range_text(s, osc))
                        } else {
                            (Seq::empty(), None, range_text(s, osc))
                        },
                        None => (Seq::empty(), None, range_text(s, osc)),
                    };
                    before + seq![tok] + tokens_from(s, end, end)
                }
            },
        }
    }
}

/// Whether tokenizing would cut a character in two: an ESC `(` followed by a
/// non-ASCII character, whose first byte alone would be skipped.
pub open spec fn tokenize_cuts_char(s: Seq<char>, from: int) -> bool
    decreases s.len() - from,
{
    if from < 0 || from > s.len() {
        false
    } else {
        match next_match(s, from) {
            None => false,
            Some(i) => {
                proof {
                    lemma_next_match(s, from);
                    lemma_match_at(s, i);
                }
                let (end, osc, g) = match_at(s, i).unwrap();
                if range_text(s, g) == Some(seq!['(']) && end < s.len() && (s[end] as u32) >= 0x80 {
                    true
                } else {
                    tokenize_cuts_char(s, end)
                }
            },
        }
    }
}

/// A token of ANSI-escaped text.
pub struct AnsiToken {
    /// Plain text between escape sequences.
    pub plain: String,
    /// The parameters of an SGR sequence (between `[` and `m`).
    pub sgr: Option<String>,
    /// The payload of an OSC sequence.
    pub osc: Option<String>,
}

/// The view of an optional string.
pub open spec fn opt_string_view(o: Option<String>) -> Option<Seq<char>> {
    match o {
        Some(s) => Some(s@),
        None => None,
    }
}

impl View for AnsiToken {
    type V = TokenView;

    open spec fn view(&self) -> TokenView {
        (self.plain@, opt_string_view(self.sgr), opt_string_view(self.osc))
    }
}

/// The views of a sequence of tokens.
pub open spec fn tokens_view(v: Seq<AnsiToken>) -> Seq<TokenView> {
    v.map_values(|t: AnsiToken| t@)
}

fn osc_end_exec(cs: &Vec<char>, k: usize) -> (r: Option<usize>)
    ensures
        match r {
            Some(e) => osc_end(cs@, k as int) == Some(e as int),
            None => osc_end(cs@, k as int) is None,
        },
{
    let mut j = k;
    while j < cs.len() && j + 1 < cs.len()
        invariant
            k <= j,
            osc_end(cs@, j as int) == osc_end(cs@, k as int),
        decreases cs@.len() - j,
    {
        if cs[j] == '\x1b' && cs[j + 1] == '\\' {
            return Some(j);
        }
        if cs[j] == '\n' {
            return None;
        }
        j = j + 1;
    }
    None
}

fn skip_range_exec(cs: &Vec<char>, j: usize, lo: u32, hi: u32) -> (r: usize)
    requires
        j <= cs@.len(),
    ensures
        r == skip_range(cs@, j as int, lo, hi),
{
    let mut t = j;
    while t < cs.len() && lo <= cs[t] as u32 && cs[t] as u32 <= hi
        invariant
            j <= t <= cs@.len(),
            skip_range(cs@, t as int, lo, hi) == skip_range(cs@, j as int, lo, hi),
        decreases cs@.len() - t,
    {
        t = t + 1;
    }
    t
}

fn match_at_exec(cs: &Vec<char>, i: usize) -> (r: Option<(usize, Option<(usize, usize)>, Option<(usize, usize)>)>)
    requires
        i < cs@.len(),
    ensures
        match r {
            Some((end, osc, g)) => match_at(cs@, i as int) == Some((
                end as int,
                match osc {
                    Some((a, b)) => Some((a as int, b as int)),
                    None => None,
                },
                match g {
                    Some((a, b)) => Some((a as int, b as int)),
                    None => None,
                },
            )),
            None => match_at(cs@, i as int) is None,
        },
{
    let n = cs.len();
    if !(i + 1 < n && cs[i] == '\x1b') {
        return None;
    }
    let c = cs[i + 1];
    let cc = c as u32;
    if 0x30 <= cc && cc <= 0x3F {
        Some((i + 2, None, None))
    } else if c == ']' {
        match osc_end_exec(cs, i + 2) {
            Some(k) => {
                proof {
                    lemma_osc_end(cs@, i + 2);
                }
                Some((k + 2, Some((i + 2, k)), None))
            },
            None => None,
        }
    } else if c == '(' || (0x2D <= cc && cc <= 0x5A) || c == '\\' || c == '_' {
        Some((i + 2, None, Some((i + 1, i + 2))))
    } else if c == '[' {
        let p = skip_range_exec(cs, i + 2, 0x30, 0x3F);
        proof {
            lemma_skip_range(cs@, i + 2, 0x30, 0x3F);
        }
        let q = skip_range_exec(cs, p, 0x20, 0x2F);
        proof {
            lemma_skip_range(cs@, p as int, 0x20, 0x2F);
        }
        if q < cs.len() && 0x40 <= cs[q] as u32 && cs[q] as u32 <= 0x7E {
            Some((q + 1, None, Some((i + 1, q + 1))))
        } else {
            None
        }
    } else {
        None
    }
}

fn next_match_exec(cs: &Vec<char>, from: usize) -> (r: Option<(usize, (usize, Option<(usize, usize)>, Option<(usize, usize)>))>)
    requires
        from <= cs@.len(),
    ensures
        match r {
            Some((i, (end, osc, g))) => next_match(cs@, from as int) == Some(i as int) && match_at(cs@, i as int)
                == Some((
                end as int,
                match osc {
                    Some((a, b)) => Some((a as int, b as int)),
                    None => None,
                },
                match g {
                    Some((a, b)) => Some((a as int, b as int)),
                    None => None,
                },
            )),
            None => next_match(cs@, from as int) is None,
        },
{
    let mut i = from;
    while i < cs.len()
        invariant
            from <= i <= cs@.len(),
            next_match(cs@, i as int) == next_match(cs@, from as int),
        decreases cs@.len() - i,
    {
        match match_at_exec(cs, i) {
            Some(m) => {
                return Some((i, m));
            },
            None => {},
        }
        i = i + 1;
    }
    None
}

fn substring(cs: &Vec<char>, a: usize, b: usize) -> (s: String)
    requires
        a <= b <= cs@.len(),
    ensures
        s@ == cs@.subrange(a as int, b as int),
{
    let v = copy_chars(&cs[a..b]);
    string_from_chars(&v)
}

fn opt_substring(cs: &Vec<char>, r: Option<(usize, usize)>) -> (s: Option<String>)
    requires
        r matches Some((a, b)) ==> a <= b <= cs@.len(),
    ensures
        opt_string_view(s) == range_text(cs@, match r {
            Some((a, b)) => Some((a as int, b as int)),
            None => None,
        }),
{
    match r {
        Some((a, b)) => Some(substring(cs, a, b)),
        None => None,
    }
}

/// Split text into tokens: runs of plain text and ANSI escape sequences.
/// SGR sequences (CSI sequences ending in `m`) carry their parameters, OSC
/// sequences their payload; a character set designation (ESC `(`) is dropped
/// with the character after it.
pub fn ansi_tokenize(ansi_text: &str) -> (r: Vec<AnsiToken>)
    requires
        !tokenize_cuts_char(ansi_text@, 0),
        ansi_text@.len() < usize::MAX,
    ensures
        tokens_view(r@) == tokens_from(ansi_text@, 0, 0),
{
    match try_ansi_tokenize(ansi_text) {
        Some(v) => v,
        None => {
            assert(false);
            Vec::new()
        },
    }
}

/// [`ansi_tokenize`] for every input: `None` exactly where tokenizing would
/// cut a character in two (or the text is `usize::MAX` characters long).
#[verifier::rlimit(60)]
pub fn try_ansi_tokenize(ansi_text: &str) -> (r: Option<Vec<AnsiToken>>)
    ensures
        r is None <==> (tokenize_cuts_char(ansi_text@, 0) || ansi_text@.len() == usize::MAX),
        r matches Some(v) ==> tokens_view(v@) == tokens_from(ansi_text@, 0, 0),
{
    let cs = chars_of(ansi_text);
    let ghost s = cs@;
    let n = cs.len();
    if n == usize::MAX {
        return None;
    }
    let mut tokens: Vec<AnsiToken> = Vec::new();
    let mut pos: usize = 0;
    let mut from: usize = 0;
    loop
        invariant_except_break
            s == cs@,
            s == ansi_text@,
            n == s.len(),
            n < usize::MAX,
            from <= n,
            pos <= n + 1,
            tokenize_cuts_char(s, 0) == tokenize_cuts_char(s, from as int),
            tokens_view(tokens@) + tokens_from(s, pos as int, from as int) == tokens_from(s, 0, 0),
        ensures
            !tokenize_cuts_char(s, 0),
            tokens_view(tokens@) == tokens_from(s, 0, 0),
        decreases n - from,
    {
        let ghost before = tokens_view(tokens@);
        match next_match_exec(&cs, from) {
            None => {
                if pos < n {
                    let t = AnsiToken { plain: substring(&cs, pos, n), sgr: None, osc: None };
                    tokens.push(t);
                    proof {
                        assert(tokens_view(tokens@) =~= before.push(t@));
                    }
                } else {
                    proof {
                        assert(tokens_view(tokens@) =~= before + Seq::<TokenView>::empty());
                    }
                }
                break;
            },
            Some((i, (end, osc, g))) => {
                proof {
                    lemma_next_match(s, from as int);
                    lemma_match_at(s, i as int);
                }
                let ghost pre = tokens_view(tokens@);
                if i > pos {
                    let t = AnsiToken { plain: substring(&cs, pos, i), sgr: None, osc: None };
                    tokens.push(t);
                    proof {
                        assert(tokens_view(tokens@) =~= pre.push(t@));
                    }
                }
                let ghost mid = tokens_view(tokens@);
                let is_charset = match g {
                    Some((a, b)) => b == a + 1 && cs[a] == '(',
                    None => false,
                };
                proof {
                    let gt = range_text(s, match g {
                        Some((a, b)) => Some((a as int, b as int)),
                        None => None,
                    });
                    if let Some((a, b)) = g {
                        if b == a + 1 && cs@[a as int] == '(' {
                            assert(gt == Some(s.subrange(a as int, b as int)));
                            assert(s.subrange(a as int, b as int) =~= seq!['(']);
                        }
                        if gt == Some(seq!['(']) {
                            assert(s.subrange(a as int, b as int).len() == 1);
                            assert(s.subrange(a as int, b as int)[0] == s[a as int]);
                        }
                    }
                }
                if is_charset {
                    if end < n && (cs[end] as u32) >= 0x80 {
                        proof {
                            if let Some((a, b)) = g {
                                assert(s.subrange(a as int, b as int) =~= seq!['(']);
                            }
                            assert(tokenize_cuts_char(s, from as int));
                            assert(tokenize_cuts_char(s, 0));
                            assert(s == ansi_text@);
                        }
                        return None;
                    }
                    proof {
                        if i > pos {
                            assert(mid + tokens_from(s, end + 1, end as int) =~= pre + (seq![(s.subrange(pos as int, i as int), None, None)]
                                + tokens_from(s, end + 1, end as int)));
                        } else {
                            assert(mid + tokens_from(s, end + 1, end as int) =~= pre + (Seq::<TokenView>::empty()
                                + tokens_from(s, end + 1, end as int)));
                        }
                    }
                    pos = end + 1;
                    from = end;
                } else {
                    let osc_s = opt_substring(&cs, osc);
                    let tok = match g {
                        Some((a, b)) => {
                            if b - a >= 2 && cs[b - 1] == 'm' {
                                AnsiToken { plain: String::new(), sgr: Some(substring(&cs, a + 1, b - 1)), osc: osc_s }
                            } else {
                                AnsiToken { plain: String::new(), sgr: None, osc: osc_s }
                            }
                        },
                        None => AnsiToken { plain: String::new(), sgr: None, osc: osc_s },
                    };
                    tokens.push(tok);
                    proof {
                        if let Some((a, b)) = g {
                            let v = s.subrange(a as int, b as int);
                            if b - a >= 2 {
                                assert(v.last() == s[b - 1]);
                                assert(v.subrange(1, v.len() - 1) =~= s.subrange(a + 1, b - 1));
                            }
                        }
                        assert(tokens_view(tokens@) =~= mid.push(tok@));
                        if i > pos {
                            assert(tokens_view(tokens@) + tokens_from(s, end as int, end as int) =~= pre + (seq![(s.subrange(pos as int, i as int), None, None)]
                                + seq![tok@] + tokens_from(s, end as int, end as int)));
                        } else {
                            assert(tokens_view(tokens@) + tokens_from(s, end as int, end as int) =~= pre + (Seq::<TokenView>::empty()
                                + seq![tok@] + tokens_from(s, end as int, end as int)));
                        }
                    }
                    pos = end;
                    from = end;
                }
            },
        }
    }
    Some(tokens)
}


/// Text without escape characters is a single plain token (none when empty).
pub proof fn lemma_tokenize_plain(s: Seq<char>)
    requires
        forall|i: int| 0 <= i < s.len() ==> s[i] != '\x1b',
    ensures
        tokens_from(s, 0, 0) == (if s.len() > 0 {
            seq![(s, Option::<Seq<char>>::None, Option::<Seq<char>>::None)]
        } else {
            Seq::empty()
        }),
{
    lemma_next_match(s, 0);
    if next_match(s, 0) is Some {
        let i = next_match(s, 0).unwrap();
        assert(s[i] != '\x1b');
    }
    assert(s.subrange(0, s.len() as int) =~= s);
}

/// The code that one `;`-separated part of SGR parameters gives: an empty
/// part is 0, a part of decimal digits is its value (at most 255 kept, over
/// 65535 dropped), anything else is dropped.
pub open spec fn sgr_code(part: Seq<char>) -> Option<u8> {
    if part.len() == 0 {
        Some(0)
    } else if all_digits(part, 10) {
        let v = digits_value(part, 10);
        if v <= 65535 {
            Some(if v <= 255 { v as u8 } else { 255u8 })
        } else {
            None
        }
    } else {
        None
    }
}

/// The codes of the parts, those that give none left out.
pub open spec fn sgr_codes(parts: Seq<Seq<char>>) -> Seq<u8>
    decreases parts.len(),
{
    if parts.len() == 0 {
        Seq::empty()
    } else {
        let prev = sgr_codes(parts.drop_last());
        match sgr_code(parts.last()) {
            Some(c) => prev.push(c),
            None => prev,
        }
    }
}

/// The digits' value, saturated at 65536.
pub open spec fn capped_value(ds: Seq<char>) -> nat {
    let v = digits_value(ds, 10);
    if v < 65536 { v } else { 65536 }
}

fn part_code(part: &Vec<char>) -> (r: Option<u8>)
    ensures
        r == sgr_code(part@),
{
    if part.len() == 0 {
        return Some(0);
    }
    let mut v: u32 = 0;
    let mut i: usize = 0;
    while i < part.len()
        invariant
            i <= part@.len(),
            all_digits(part@.take(i as int), 10),
            v as nat == capped_value(part@.take(i as int)),
        decreases part@.len() - i,
    {
        let c = part[i];
        if !('0' <= c && c <= '9') {
            proof {
                assert(digit_value(part@[i as int], 10) is None);
            }
            return None;
        }
        let d = (c as u32) - ('0' as u32);
        let ghost pre = part@.take(i as int);
        let ghost next = part@.take(i as int + 1);
        proof {
            assert(next.drop_last() =~= pre);
            assert(next.last() == c);
            assert(digits_value(next, 10) == digits_value(pre, 10) * 10 + d);
        }
        if v * 10 + d >= 65536 {
            v = 65536;
        } else {
            v = v * 10 + d;
        }
        i = i + 1;
        proof {
            assert(all_digits(next, 10)) by {
                assert forall|j: int| 0 <= j < next.len() implies (#[trigger] digit_value(next[j], 10)) is Some by {
                    if j < pre.len() {
                        assert(next[j] == pre[j]);
                    }
                }
            }
        }
    }
    proof {
        assert(part@.take(part@.len() as int) =~= part@);
    }
    if v >= 65536 {
        None
    } else if v > 255 {
        Some(255)
    } else {
        Some(v as u8)
    }
}

/// The codes of SGR parameters (`1;31` gives 1 and 31); see [`sgr_code`].
pub fn parse_sgr_codes(sgr: &str) -> (r: Vec<u8>)
    ensures
        r@ == sgr_codes(split_on(sgr@, ';')),
{
    let cs = chars_of(sgr);
    let (done, last) = split_chars(cs.as_slice(), ';');
    let ghost parts = split_on(sgr@, ';');
    proof {
        lemma_split_on_nonempty(sgr@, ';');
    }
    let mut codes: Vec<u8> = Vec::new();
    let mut i: usize = 0;
    while i < done.len()
        invariant
            i <= done@.len(),
            done@.len() + 1 == parts.len(),
            forall|k: int| 0 <= k < done@.len() ==> (#[trigger] done@[k])@ == parts[k],
            codes@ == sgr_codes(parts.take(i as int)),
        decreases done@.len() - i,
    {
        let c = part_code(&done[i]);
        proof {
            assert(parts.take(i as int + 1).drop_last() =~= parts.take(i as int));
        }
        if let Some(code) = c {
            codes.push(code);
        }
        i = i + 1;
    }
    let c = part_code(&last);
    proof {
        assert(parts.take(parts.len() as int) =~= parts);
        assert(parts.drop_last() =~= parts.take(i as int));
    }
    if let Some(code) = c {
        codes.push(code);
    }
    codes
}

/// What an SGR code does to the current style.
#[derive(Debug, Clone, Copy, PartialEq, Eq)]
pub enum SgrAction {
    /// Back to no style.
    Reset,
    /// Combine with the style of this definition.
    Style(&'static str),
    /// Set the foreground color.
    Foreground(Color),
    /// Set the background color.
    Background(Color),
}

/// The value of an [`SgrAction`].
pub enum SgrActionView {
    Reset,
    Style(Seq<char>),
    Foreground(Color),
    Background(Color),
}

impl View for SgrAction {
    type V = SgrActionView;

    open spec fn view(&self) -> SgrActionView {
        match self {
            SgrAction::Reset => SgrActionView::Reset,
            SgrAction::Style(s) => SgrActionView::Style(s@),
            SgrAction::Foreground(c) => SgrActionView::Foreground(*c),
            SgrAction::Background(c) => SgrActionView::Background(*c),
        }
    }
}

/// The color selected after 38 or 48 at `codes[i]` (`5;n` for palette
/// color `n`, `2;r;g;b` for a 24-bit color) and the index after what was
/// read; a missing value reads nothing more and selects nothing.
pub open spec fn extended_color(codes: Seq<u8>, i: int) -> (Option<Color>, int) {
    if i >= codes.len() {
        (None, i)
    } else if codes[i] == 5 {
        if i + 1 < codes.len() {
            (Some(spec_from_ansi(codes[i + 1])), i + 2)
        } else {
            (None, i + 1)
        }
    } else if codes[i] == 2 {
        if i + 3 < codes.len() {
            (Some(Color::TrueColor(ColorTriplet { red: codes[i + 1], green: codes[i + 2], blue: codes[i + 3] })), i + 4)
        } else {
            (None, codes.len() as int)
        }
    } else {
        (None, i + 1)
    }
}

/// The actions of the codes from index `i` on: 0 resets, a code with a
/// style definition applies it, 38 and 48 select a foreground and a
/// background color from the codes after them, and other codes do nothing.
pub open spec fn sgr_actions_from(codes: Seq<u8>, i: int) -> Seq<SgrActionView>
    decreases codes.len() - i,
{
    if i < 0 || i >= codes.len() {
        Seq::empty()
    } else {
        let c = codes[i];
        if c == 0 {
            seq![SgrActionView::Reset] + sgr_actions_from(codes, i + 1)
        } else if spec_sgr_style(c) is Some {
            seq![SgrActionView::Style(spec_sgr_style(c).unwrap())] + sgr_actions_from(codes, i + 1)
        } else if c == 38 || c == 48 {
            let (color, next) = extended_color(codes, i + 1);
            let here: Seq<SgrActionView> = match color {
                Some(col) => seq![if c == 38 { SgrActionView::Foreground(col) } else { SgrActionView::Background(col) }],
                None => Seq::empty(),
            };
            here + sgr_actions_from(codes, next)
        } else {
            sgr_actions_from(codes, i + 1)
        }
    }
}

/// The views of a sequence of actions.
pub open spec fn actions_view(v: Seq<SgrAction>) -> Seq<SgrActionView> {
    v.map_values(|a: SgrAction| a@)
}

/// What the codes of one SGR sequence do, in order.
pub fn sgr_actions(codes: &[u8]) -> (r: Vec<SgrAction>)
    ensures
        actions_view(r@) == sgr_actions_from(codes@, 0),
{
    let n = codes.len();
    let mut out: Vec<SgrAction> = Vec::new();
    let mut i: usize = 0;
    while i < n
        invariant
            n == codes@.len(),
            i <= n,
            actions_view(out@) + sgr_actions_from(codes@, i as int) == sgr_actions_from(codes@, 0),
        decreases n - i,
    {
        let ghost pre = actions_view(out@);
        let c = codes[i];
        if c == 0 {
            out.push(SgrAction::Reset);
            proof {
                assert(actions_view(out@) =~= pre.push(SgrActionView::Reset));
                assert(pre.push(SgrActionView::Reset) + sgr_actions_from(codes@, i + 1) =~= pre + (seq![SgrActionView::Reset] + sgr_actions_from(codes@, i + 1)));
            }
            i = i + 1;
        } else if let Some(def) = sgr_style(c) {
            let a = SgrAction::Style(def);
            out.push(a);
            proof {
                assert(actions_view(out@) =~= pre.push(a@));
                assert(pre.push(a@) + sgr_actions_from(codes@, i + 1) =~= pre + (seq![a@] + sgr_actions_from(codes@, i + 1)));
            }
            i = i + 1;
        } else if c == 38 || c == 48 {
            let j = i + 1;
            let mut color: Option<Color> = None;
            let mut next: usize = j;
            if j < n {
                if codes[j] == 5 {
                    if j + 1 < n {
                        color = Some(Color::from_ansi(codes[j + 1]));
                        next = j + 2;
                    } else {
                        next = j + 1;
                    }
                } else if codes[j] == 2 {
                    if n - j > 3 {
                        color = Some(Color::from_rgb(codes[j + 1], codes[j + 2], codes[j + 3]));
                        next = j + 4;
                    } else {
                        next = n;
                    }
                } else {
                    next = j + 1;
                }
            }
            proof {
                assert((color, next as int) == extended_color(codes@, j as int));
            }
            match color {
                Some(col) => {
                    let a = if c == 38 { SgrAction::Foreground(col) } else { SgrAction::Background(col) };
                    out.push(a);
                    proof {
                        assert(actions_view(out@) =~= pre.push(a@));
                        assert(pre.push(a@) + sgr_actions_from(codes@, next as int) =~= pre + (seq![a@] + sgr_actions_from(codes@, next as int)));
                    }
                },
                None => {
                    proof {
                        assert(pre + sgr_actions_from(codes@, next as int) =~= pre + (Seq::<SgrActionView>::empty() + sgr_actions_from(codes@, next as int)));
                    }
                },
            }
            i = next;
        } else {
            i = i + 1;
        }
    }
    proof {
        assert(actions_view(out@) + Seq::<SgrActionView>::empty() =~= actions_view(out@));
    }
    out
}

/// The index of the first `c` in `s` at or after `i`.
pub open spec fn first_index(s: Seq<char>, c: char, i: int) -> Option<int>
    decreases s.len() - i,
{
    if i < 0 || i >= s.len() {
        None
    } else if s[i] == c {
        Some(i)
    } else {
        first_index(s, c, i + 1)
    }
}

/// The link change an OSC payload asks for: `8;params;url` sets the link to
/// `url`, or clears it when `url` is empty (`Some(None)`); any other
/// payload changes nothing (`None`).
pub open spec fn spec_osc_link(osc: Seq<char>) -> Option<Option<Seq<char>>> {
    if osc.len() >= 2 && osc[0] == '8' && osc[1] == ';' {
        match first_index(osc, ';', 2) {
            Some(k) => {
                let url = osc.subrange(k + 1, osc.len() as int);
                Some(if url.len() == 0 { None } else { Some(url) })
            },
            None => None,
        }
    } else {
        None
    }
}

proof fn lemma_first_index(s: Seq<char>, c: char, i: int)
    ensures
        first_index(s, c, i) matches Some(k) ==> i <= k < s.len() && s[k] == c,
    decreases s.len() - i,
{
    if 0 <= i < s.len() && s[i] != c {
        lemma_first_index(s, c, i + 1);
    }
}

pub(crate) fn first_index_exec(cs: &Vec<char>, c: char, i: usize) -> (r: Option<usize>)
    ensures
        match r {
            Some(k) => first_index(cs@, c, i as int) == Some(k as int),
            None => first_index(cs@, c, i as int) is None,
        },
{
    let mut k = i;
    while k < cs.len()
        invariant
            i <= k,
            first_index(cs@, c, k as int) == first_index(cs@, c, i as int),
        decreases cs@.len() - k,
    {
        if cs[k] == c {
            return Some(k);
        }
        k = k + 1;
    }
    None
}

/// The link change that an OSC payload asks for; see [`spec_osc_link`].
pub fn osc_link(osc: &str) -> (r: Option<Option<String>>)
    ensures
        match r {
            Some(Some(u)) => spec_osc_link(osc@) == Some(Some(u@)),
            Some(None) => spec_osc_link(osc@) == Some(Option::<Seq<char>>::None),
            None => spec_osc_link(osc@) is None,
        },
{
    let cs = chars_of(osc);
    if !(cs.len() >= 2 && cs[0] == '8' && cs[1] == ';') {
        return None;
    }
    match first_index_exec(&cs, ';', 2) {
        Some(k) => {
            proof {
                lemma_first_index(cs@, ';', 2);
            }
            if k + 1 == cs.len() {
                Some(None)
            } else {
                Some(Some(substring(&cs, k + 1, cs.len())))
            }
        },
        None => None,
    }
}

/// The index of the last `c` in `s`, if any.
pub open spec fn last_index(s: Seq<char>, c: char) -> Option<int>
    decreases s.len(),
{
    if s.len() == 0 {
        None
    } else if s.last() == c {
        Some(s.len() - 1)
    } else {
        last_index(s.drop_last(), c)
    }
}

/// What a carriage return leaves of a line: the text after the last `\r`,
/// or the whole line when it has none.
pub open spec fn after_carriage_return(line: Seq<char>) -> Seq<char> {
    match last_index(line, '\r') {
        Some(k) => line.subrange(k + 1, line.len() as int),
        None => line,
    }
}

/// The part of a line that stays visible after carriage returns.
pub fn visible_after_carriage_return(line: &str) -> (r: String)
    ensures
        r@ == after_carriage_return(line@),
{
    let cs = chars_of(line);
    let mut k = cs.len();
    assert(cs@.take(k as int) =~= cs@);
    while k > 0 && cs[k - 1] != '\r'
        invariant
            k <= cs@.len(),
            last_index(cs@, '\r') == last_index(cs@.take(k as int), '\r'),
        decreases k,
    {
        proof {
            assert(cs@.take(k as int).drop_last() =~= cs@.take(k - 1));
        }
        k = k - 1;
    }
    if k == 0 {
        proof {
            assert(cs@.take(0) =~= Seq::<char>::empty());
        }
        substring(&cs, 0, cs.len())
    } else {
        proof {
            assert(cs@.take(k as int).last() == '\r');
            assert(cs@.subrange(0, cs@.len() as int) =~= cs@);
        }
        substring(&cs, k, cs.len())
    }
}

} // verus!

verus! {

/// The style definition of the foreground color with palette number `n`.
pub open spec fn color_style(n: nat) -> Seq<char> {
    "color("@ + dec(n) + ")"@
}

/// The style definition of the background color with palette number `n`.
pub open spec fn on_color_style(n: nat) -> Seq<char> {
    "on color("@ + dec(n) + ")"@
}

/// The standard-color SGR codes select the palette color of the same
/// number: 30 + n sets foreground color n and 40 + n background color n,
/// and the bright codes 90 + n and 100 + n set colors n + 8.
pub proof fn lemma_sgr_standard_colors(n: u8)
    requires
        n < 8,
    ensures
        spec_sgr_style((30 + n) as u8) == Some(color_style(n as nat)),
        spec_sgr_style((40 + n) as u8) == Some(on_color_style(n as nat)),
        spec_sgr_style((90 + n) as u8) == Some(color_style((n + 8) as nat)),
        spec_sgr_style((100 + n) as u8) == Some(on_color_style((n + 8) as nat)),
{
    reveal_strlit("color(");
    reveal_strlit("on color(");
    reveal_strlit(")");
    reveal_with_fuel(dec, 2);
    if n == 0 {
        reveal_strlit("color(0)");
        reveal_strlit("on color(0)");
        reveal_strlit("color(8)");
        reveal_strlit("on color(8)");
    } else if n == 1 {
        reveal_strlit("color(1)");
        reveal_strlit("on color(1)");
        reveal_strlit("color(9)");
        reveal_strlit("on color(9)");
    } else if n == 2 {
        reveal_strlit("color(2)");
        reveal_strlit("on color(2)");
        reveal_strlit("color(10)");
        reveal_strlit("on color(10)");
    } else if n == 3 {
        reveal_strlit("color(3)");
        reveal_strlit("on color(3)");
        reveal_strlit("color(11)");
        reveal_strlit("on color(11)");
    } else if n == 4 {
        reveal_strlit("color(4)");
        reveal_strlit("on color(4)");
        reveal_strlit("color(12)");
        reveal_strlit("on color(12)");
    } else if n == 5 {
        reveal_strlit("color(5)");
        reveal_strlit("on color(5)");
        reveal_strlit("color(13)");
        reveal_strlit("on color(13)");
    } else if n == 6 {
        reveal_strlit("color(6)");
        reveal_strlit("on color(6)");
        reveal_strlit("color(14)");
        reveal_strlit("on color(14)");
    } else if n == 7 {
        reveal_strlit("color(7)");
        reveal_strlit("on color(7)");
        reveal_strlit("color(15)");
        reveal_strlit("on color(15)");
    }
    assert(color_style(n as nat) =~= spec_sgr_style((30 + n) as u8).unwrap());
    assert(on_color_style(n as nat) =~= spec_sgr_style((40 + n) as u8).unwrap());
    assert(color_style((n + 8) as nat) =~= spec_sgr_style((90 + n) as u8).unwrap());
    assert(on_color_style((n + 8) as nat) =~= spec_sgr_style((100 + n) as u8).unwrap());
}

} // verus!
