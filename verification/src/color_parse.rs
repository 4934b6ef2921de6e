//! Parsing color definitions: `default`, named colors, `#rrggbb`,
//! `color(n)` and `rgb(r,g,b)`.

use vstd::prelude::*;
use crate::color::{Color, spec_from_ansi, spec_name, numbered_name, is_canonical};
use crate::color_names::{spec_ansi_color_name, lemma_ansi_name_number_round_trip};
use crate::color_triplet::spec_hex;
use crate::strutil::{dec, digit_char, hex2};
use crate::color_names::{ansi_color_number_of, spec_ansi_color_number};
use crate::color_triplet::ColorTriplet;
use crate::strutil::{
    ascii_lower, ascii_lower_seq, chars_eq_str, chars_of, is_white_space, lemma_trim_end_at, lemma_trim_start_at,
    string_from_chars, trim_end, trim_start, trimmed, trim_chars, trim_str,
};

verus! {

/// Error produced when parsing a color definition; each variant carries
/// the offending text.
#[derive(Debug, Clone)]
pub enum ColorParseError {
    InvalidHexFormat(String),
    InvalidColorSpec(String),
    InvalidRgbFormat(String),
    ComponentOutOfRange(String),
    UnknownColorName(String),
}

/// Which kind of [`ColorParseError`] a parse failure is.
#[derive(Debug, Clone, Copy, PartialEq, Eq, Structural)]
pub enum ColorParseErrorKind {
    InvalidHexFormat,
    InvalidColorSpec,
    InvalidRgbFormat,
    ComponentOutOfRange,
    UnknownColorName,
}

/// The kind and text of a parse error.
pub open spec fn error_view(e: ColorParseError) -> (ColorParseErrorKind, Seq<char>) {
    match e {
        ColorParseError::InvalidHexFormat(s) => (ColorParseErrorKind::InvalidHexFormat, s@),
        ColorParseError::InvalidColorSpec(s) => (ColorParseErrorKind::InvalidColorSpec, s@),
        ColorParseError::InvalidRgbFormat(s) => (ColorParseErrorKind::InvalidRgbFormat, s@),
        ColorParseError::ComponentOutOfRange(s) => (ColorParseErrorKind::ComponentOutOfRange, s@),
        ColorParseError::UnknownColorName(s) => (ColorParseErrorKind::UnknownColorName, s@),
    }
}

/// A parse result seen through its error's kind and text.
pub open spec fn result_view<T>(r: Result<T, ColorParseError>) -> Result<
    T,
    (ColorParseErrorKind, Seq<char>),
> {
    match r {
        Ok(v) => Ok(v),
        Err(e) => Err(error_view(e)),
    }
}

fn make_error(kind: ColorParseErrorKind, text: &Vec<char>) -> (e: ColorParseError)
    ensures
        error_view(e) == (kind, text@),
{
    let s = string_from_chars(text);
    match kind {
        ColorParseErrorKind::InvalidHexFormat => ColorParseError::InvalidHexFormat(s),
        ColorParseErrorKind::InvalidColorSpec => ColorParseError::InvalidColorSpec(s),
        ColorParseErrorKind::InvalidRgbFormat => ColorParseError::InvalidRgbFormat(s),
        ColorParseErrorKind::ComponentOutOfRange => ColorParseError::ComponentOutOfRange(s),
        ColorParseErrorKind::UnknownColorName => ColorParseError::UnknownColorName(s),
    }
}

// ---------------------------------------------------------------------------
// UTF-8 lengths and byte boundaries
// ---------------------------------------------------------------------------

/// Number of bytes in the UTF-8 encoding of `c`.
pub open spec fn utf8_char_len(c: char) -> nat {
    if (c as u32) < 0x80 {
        1
    } else if (c as u32) < 0x800 {
        2
    } else if (c as u32) < 0x10000 {
        3
    } else {
        4
    }
}

/// Number of bytes in the UTF-8 encoding of `s`.
pub open spec fn utf8_len(s: Seq<char>) -> nat
    decreases s.len(),
{
    if s.len() == 0 {
        0
    } else {
        utf8_len(s.drop_last()) + utf8_char_len(s.last())
    }
}

/// Byte offset `k` of the encoding of `s` falls between two characters.
pub open spec fn has_boundary(s: Seq<char>, k: nat) -> bool {
    exists|i: int| 0 <= i <= s.len() && #[trigger] utf8_len(s.take(i)) == k
}

/// Every character of `s` is ASCII.
pub open spec fn is_ascii_seq(s: Seq<char>) -> bool {
    forall|i: int| 0 <= i < s.len() ==> (#[trigger] s[i] as u32) < 0x80
}

/// Slicing the six bytes of a hex body into three two-byte pieces stays on
/// character boundaries (which it always does unless the body is six bytes
/// of non-ASCII text).
pub open spec fn hex_slicing_ok(hex: Seq<char>) -> bool {
    utf8_len(hex) != 6 || is_ascii_seq(hex) || (has_boundary(hex, 2) && has_boundary(hex, 4))
}

proof fn lemma_utf8_len_take(s: Seq<char>, i: int)
    requires
        0 <= i < s.len(),
    ensures
        utf8_len(s.take(i + 1)) == utf8_len(s.take(i)) + utf8_char_len(s[i]),
{
    assert(s.take(i + 1).drop_last() =~= s.take(i));
}

proof fn lemma_utf8_len_monotone(s: Seq<char>, i: int, j: int)
    requires
        0 <= i <= j <= s.len(),
    ensures
        utf8_len(s.take(i)) + (j - i) <= utf8_len(s.take(j)),
    decreases j - i,
{
    if i < j {
        lemma_utf8_len_monotone(s, i, j - 1);
        lemma_utf8_len_take(s, j - 1);
    }
}

proof fn lemma_ascii_utf8_len(s: Seq<char>)
    requires
        is_ascii_seq(s),
    ensures
        utf8_len(s) == s.len(),
    decreases s.len(),
{
    if s.len() > 0 {
        assert(is_ascii_seq(s.drop_last())) by {
            assert forall|i: int| 0 <= i < s.drop_last().len() implies (#[trigger] s.drop_last()[i] as u32)
                < 0x80 by {
                assert(s.drop_last()[i] == s[i]);
            }
        }
        lemma_ascii_utf8_len(s.drop_last());
        assert((s[s.len() - 1] as u32) < 0x80);
    }
}

fn char_utf8_len(c: char) -> (n: usize)
    ensures
        n == utf8_char_len(c),
{
    let v = c as u32;
    if v < 0x80 {
        1
    } else if v < 0x800 {
        2
    } else if v < 0x10000 {
        3
    } else {
        4
    }
}

/// The UTF-8 length of `s`, capped at `cap + 1` (exact when at most `cap`),
/// and whether byte offsets 2 and 4 are character boundaries.
fn utf8_facts(s: &[char]) -> (r: (usize, bool, bool, bool))
    ensures
        r.0 == 6 <==> utf8_len(s@) == 6,
        r.1 == is_ascii_seq(s@),
        utf8_len(s@) == 6 ==> (r.2 == has_boundary(s@, 2) && r.3 == has_boundary(s@, 4)),
{
    let n = s.len();
    let mut total: usize = 0;
    let mut ascii = true;
    let mut b2 = false;
    let mut b4 = false;
    let mut i: usize = 0;
    while i < n
        invariant
            i <= n,
            n == s@.len(),
            total <= 7,
            total < 7 ==> total == utf8_len(s@.take(i as int)),
            total == 7 ==> utf8_len(s@.take(i as int)) >= 7,
            ascii == is_ascii_seq(s@.take(i as int)),
            total < 7 ==> (b2 == (exists|k: int| 0 <= k <= i && #[trigger] utf8_len(s@.take(k)) == 2)),
            total < 7 ==> (b4 == (exists|k: int| 0 <= k <= i && #[trigger] utf8_len(s@.take(k)) == 4)),
        decreases n - i,
    {
        proof {
            lemma_utf8_len_take(s@, i as int);
        }
        let c = s[i];
        let l = char_utf8_len(c);
        if (c as u32) >= 0x80 {
            ascii = false;
        }
        let ghost old_total = total;
        let ghost old_b2 = b2;
        let ghost old_b4 = b4;
        if total < 7 {
            total = if total + l > 7 { 7 } else { total + l };
        }
        if total == 2 {
            b2 = true;
        }
        if total == 4 {
            b4 = true;
        }
        i = i + 1;
        proof {
            assert(ascii == is_ascii_seq(s@.take(i as int))) by {
                if ascii {
                    assert forall|j: int| 0 <= j < i implies (#[trigger] s@.take(i as int)[j] as u32) < 0x80 by {
                        if j < i - 1 {
                            assert(s@.take(i - 1)[j] == s@.take(i as int)[j]);
                        }
                    }
                } else {
                    if (c as u32) >= 0x80 {
                        assert(s@.take(i as int)[i - 1] == c);
                    } else {
                        let j = choose|j: int| 0 <= j < i - 1 && !((#[trigger] s@.take(i - 1)[j] as u32) < 0x80);
                        assert(s@.take(i as int)[j] == s@.take(i - 1)[j]);
                    }
                }
            }
            if total < 7 {
                assert(utf8_len(s@.take(i as int)) == total);
                assert forall|k: int| 0 <= k <= i && #[trigger] utf8_len(s@.take(k)) == 2 implies (k == i
                    || (0 <= k <= i - 1 && utf8_len(s@.take(k)) == 2)) by {}
                assert forall|k: int| 0 <= k <= i && #[trigger] utf8_len(s@.take(k)) == 4 implies (k == i
                    || (0 <= k <= i - 1 && utf8_len(s@.take(k)) == 4)) by {}
            }
        }
    }
    proof {
        assert(s@.take(n as int) =~= s@);
    }
    if total == 6 {
        (6, ascii, b2, b4)
    } else {
        (if total == 7 { 7 } else { total }, ascii, b2, b4)
    }
}


// ---------------------------------------------------------------------------
// Integer parsing as done by `u8::from_str_radix`
// ---------------------------------------------------------------------------

/// The value of one digit in base 10 or 16 (`0-9`, `a-f`, `A-F`).
pub open spec fn digit_value(c: char, radix: nat) -> Option<nat> {
    if '0' <= c <= '9' {
        Some((c as u32 - '0' as u32) as nat)
    } else if radix == 16 && 'a' <= c <= 'f' {
        Some((c as u32 - 'a' as u32 + 10) as nat)
    } else if radix == 16 && 'A' <= c <= 'F' {
        Some((c as u32 - 'A' as u32 + 10) as nat)
    } else {
        None
    }
}

/// All characters of `ds` are digits in `radix`.
pub open spec fn all_digits(ds: Seq<char>, radix: nat) -> bool {
    forall|i: int| 0 <= i < ds.len() ==> (#[trigger] digit_value(ds[i], radix)) is Some
}

/// The value of a digit string, most significant digit first.
pub open spec fn digits_value(ds: Seq<char>, radix: nat) -> nat
    decreases ds.len(),
{
    if ds.len() == 0 {
        0
    } else {
        digits_value(ds.drop_last(), radix) * radix + digit_value(ds.last(), radix).unwrap_or(0)
    }
}

/// `u8::from_str_radix(s, radix)`: an optional leading `+`, then at least
/// one digit, with a value of at most 255.
pub open spec fn parse_u8_radix(s: Seq<char>, radix: nat) -> Option<u8> {
    if s.len() == 0 {
        None
    } else {
        let ds = if s[0] == '+' { s.drop_first() } else { s };
        if ds.len() == 0 || !all_digits(ds, radix) || digits_value(ds, radix) > 255 {
            None
        } else {
            Some(digits_value(ds, radix) as u8)
        }
    }
}

fn digit_value_exec(c: char, radix: u32) -> (r: Option<u32>)
    requires
        radix == 10 || radix == 16,
    ensures
        r matches Some(v) ==> digit_value(c, radix as nat) == Some(v as nat) && v < radix,
        r is None ==> digit_value(c, radix as nat) is None,
{
    if '0' <= c && c <= '9' {
        Some(c as u32 - '0' as u32)
    } else if radix == 16 && 'a' <= c && c <= 'f' {
        Some(c as u32 - 'a' as u32 + 10)
    } else if radix == 16 && 'A' <= c && c <= 'F' {
        Some(c as u32 - 'A' as u32 + 10)
    } else {
        None
    }
}

proof fn lemma_digits_value_grows(ds: Seq<char>, radix: nat, i: int)
    requires
        0 <= i <= ds.len(),
        radix >= 1,
    ensures
        digits_value(ds.take(i), radix) <= digits_value(ds, radix),
    decreases ds.len() - i,
{
    if i < ds.len() {
        lemma_digits_value_grows(ds, radix, i + 1);
        assert(ds.take(i + 1).drop_last() =~= ds.take(i));
        let v = digits_value(ds.take(i), radix);
        assert(v * radix >= v) by (nonlinear_arith)
            requires
                radix >= 1,
        ;
    } else {
        assert(ds.take(i) =~= ds);
    }
}

/// Parses `s` as `u8::from_str_radix` does, in base 10 or 16.
#[verifier::rlimit(40)]
pub fn parse_u8_chars(s: &[char], radix: u32) -> (r: Option<u8>)
    requires
        radix == 10 || radix == 16,
    ensures
        r == parse_u8_radix(s@, radix as nat),
{
    let n = s.len();
    if n == 0 {
        return None;
    }
    let start: usize = if s[0] == '+' { 1 } else { 0 };
    let ghost ds = if s@[0] == '+' { s@.drop_first() } else { s@ };
    assert(ds =~= s@.subrange(start as int, n as int));
    if start == n {
        return None;
    }
    let mut value: u32 = 0;
    let mut i: usize = start;
    while i < n
        invariant
            start <= i <= n,
            n == s@.len(),
            start < n,
            ds == (if s@[0] == '+' { s@.drop_first() } else { s@ }),
            ds =~= s@.subrange(start as int, n as int),
            radix == 10 || radix == 16,
            all_digits(ds.take(i - start), radix as nat),
            value == digits_value(ds.take(i - start), radix as nat),
            value <= 255,
        decreases n - i,
    {
        let c = s[i];
        let k = i - start;
        assert(ds[k as int] == c);
        assert(ds.take(k + 1).drop_last() =~= ds.take(k as int));
        assert(ds.take(k + 1).last() == c);
        match digit_value_exec(c, radix) {
            None => {
                assert(!all_digits(ds, radix as nat)) by {
                    assert(digit_value(ds[k as int], radix as nat) is None);
                }
                return None;
            },
            Some(d) => {
                let next = value * radix + d;
                assert(all_digits(ds.take(k + 1), radix as nat)) by {
                    assert forall|j: int| 0 <= j < k + 1 implies (#[trigger] digit_value(ds.take(k + 1)[j], radix as nat)) is Some by {
                        if j < k {
                            assert(ds.take(k + 1)[j] == ds.take(k as int)[j]);
                        }
                    }
                }
                if next > 255 {
                    proof {
                        lemma_digits_value_grows(ds, radix as nat, k + 1);
                    }
                    return None;
                }
                value = next;
                i = i + 1;
            },
        }
    }
    assert(ds.take(ds.len() as int) =~= ds);
    Some(value as u8)
}


// ---------------------------------------------------------------------------
// `#rrggbb`
// ---------------------------------------------------------------------------

/// Parsing of a six-character hex body into an RGB triplet; any failure is
/// an invalid hex format error carrying the body.
pub open spec fn spec_parse_rgb_hex(hex: Seq<char>) -> Result<
    ColorTriplet,
    (ColorParseErrorKind, Seq<char>),
> {
    if utf8_len(hex) != 6 || !is_ascii_seq(hex) {
        Err((ColorParseErrorKind::InvalidHexFormat, hex))
    } else {
        match (
            parse_u8_radix(hex.subrange(0, 2), 16),
            parse_u8_radix(hex.subrange(2, 4), 16),
            parse_u8_radix(hex.subrange(4, 6), 16),
        ) {
            (Some(r), Some(g), Some(b)) => Ok(ColorTriplet { red: r, green: g, blue: b }),
            _ => Err((ColorParseErrorKind::InvalidHexFormat, hex)),
        }
    }
}

fn parse_rgb_hex_chars(hex: &[char]) -> (r: Result<ColorTriplet, ColorParseError>)
    requires
        hex_slicing_ok(hex@),
    ensures
        result_view(r) == spec_parse_rgb_hex(hex@),
{
    let facts = utf8_facts(hex);
    let hex_vec = copy_chars(hex);
    if facts.0 != 6 || !facts.1 {
        return Err(make_error(ColorParseErrorKind::InvalidHexFormat, &hex_vec));
    }
    proof {
        lemma_ascii_utf8_len(hex@);
    }
    let r = parse_u8_chars(&hex[0..2], 16);
    let g = parse_u8_chars(&hex[2..4], 16);
    let b = parse_u8_chars(&hex[4..6], 16);
    match (r, g, b) {
        (Some(r), Some(g), Some(b)) => Ok(ColorTriplet::new(r, g, b)),
        _ => Err(make_error(ColorParseErrorKind::InvalidHexFormat, &hex_vec)),
    }
}

/// Parses a 6-character hex string into an RGB triplet. A body of six
/// bytes must be sliceable at bytes 2 and 4.
pub fn parse_rgb_hex(hex: &str) -> (r: Result<ColorTriplet, ColorParseError>)
    requires
        hex_slicing_ok(hex@),
    ensures
        result_view(r) == spec_parse_rgb_hex(hex@),
{
    let cs = chars_of(hex);
    parse_rgb_hex_chars(cs.as_slice())
}

/// [`parse_rgb_hex`] for every input: `None` exactly where a six-byte body
/// could not be sliced at bytes 2 and 4 on character boundaries.
pub fn try_parse_rgb_hex(hex: &str) -> (r: Option<Result<ColorTriplet, ColorParseError>>)
    ensures
        r is None <==> !hex_slicing_ok(hex@),
        r matches Some(res) ==> result_view(res) == spec_parse_rgb_hex(hex@),
{
    let cs = chars_of(hex);
    let facts = utf8_facts(cs.as_slice());
    if facts.0 == 6 && !facts.1 && !(facts.2 && facts.3) {
        return None;
    }
    Some(parse_rgb_hex_chars(cs.as_slice()))
}

pub(crate) fn copy_chars(s: &[char]) -> (v: Vec<char>)
    ensures
        v@ == s@,
{
    let mut v: Vec<char> = Vec::new();
    let mut i: usize = 0;
    while i < s.len()
        invariant
            i <= s@.len(),
            v@ =~= s@.take(i as int),
        decreases s@.len() - i,
    {
        v.push(s[i]);
        i = i + 1;
        assert(v@ =~= s@.take(i as int));
    }
    assert(s@.take(s@.len() as int) =~= s@);
    v
}

// ---------------------------------------------------------------------------
// Splitting, as `str::split` with a character separator
// ---------------------------------------------------------------------------

/// The pieces of `s` between occurrences of `sep`; `n` separators give
/// `n + 1` pieces, empty pieces included.
pub open spec fn split_on(s: Seq<char>, sep: char) -> Seq<Seq<char>>
    decreases s.len(),
{
    if s.len() == 0 {
        seq![Seq::<char>::empty()]
    } else {
        let p = split_on(s.drop_last(), sep);
        if s.last() == sep {
            p.push(Seq::<char>::empty())
        } else {
            p.update(p.len() - 1, p.last().push(s.last()))
        }
    }
}

pub proof fn lemma_split_on_nonempty(s: Seq<char>, sep: char)
    ensures
        split_on(s, sep).len() >= 1,
    decreases s.len(),
{
    if s.len() > 0 {
        lemma_split_on_nonempty(s.drop_last(), sep);
    }
}

/// Splits `s` at every `sep`: all pieces but the last, and the last piece.
pub fn split_chars(s: &[char], sep: char) -> (r: (Vec<Vec<char>>, Vec<char>))
    ensures
        r.0@.len() + 1 == split_on(s@, sep).len(),
        forall|i: int| 0 <= i < r.0@.len() ==> (#[trigger] r.0@[i])@ == split_on(s@, sep)[i],
        r.1@ == split_on(s@, sep).last(),
{
    let mut done: Vec<Vec<char>> = Vec::new();
    let mut cur: Vec<char> = Vec::new();
    let mut i: usize = 0;
    while i < s.len()
        invariant
            i <= s@.len(),
            done@.len() + 1 == split_on(s@.take(i as int), sep).len(),
            forall|j: int| 0 <= j < done@.len() ==> (#[trigger] done@[j])@ == split_on(s@.take(i as int), sep)[j],
            cur@ == split_on(s@.take(i as int), sep).last(),
        decreases s@.len() - i,
    {
        let c = s[i];
        let ghost prev = split_on(s@.take(i as int), sep);
        proof {
            assert(s@.take(i + 1).drop_last() =~= s@.take(i as int));
            lemma_split_on_nonempty(s@.take(i as int), sep);
        }
        if c == sep {
            let finished = cur;
            done.push(finished);
            cur = Vec::new();
            proof {
                assert(split_on(s@.take(i + 1), sep) == prev.push(Seq::<char>::empty()));
            }
        } else {
            cur.push(c);
            proof {
                assert(split_on(s@.take(i + 1), sep) == prev.update(prev.len() - 1, prev.last().push(c)));
            }
        }
        i = i + 1;
    }
    proof {
        assert(s@.take(s@.len() as int) =~= s@);
    }
    (done, cur)
}

// ---------------------------------------------------------------------------
// Unicode lowercase (std)
// ---------------------------------------------------------------------------

/// The result of `str::to_lowercase`, which lowercases by the Unicode
/// `Lowercase` mapping.
pub uninterp spec fn lowercased(s: Seq<char>) -> Seq<char>;

/// Calls `str::to_lowercase`; the contract names its result by the input.
/// On ASCII text the Unicode lowercase mapping is the ASCII one (`A`–`Z` to
/// `a`–`z`, everything else unchanged), which the contract states; of other
/// text it claims nothing more.
#[verifier::external_body]
pub(crate) fn to_lowercase_string(s: &str) -> (r: String)
    ensures
        r@ == lowercased(s@),
        is_ascii_seq(s@) ==> r@ == ascii_lower_seq(s@),
{
    s.to_lowercase()
}


// ---------------------------------------------------------------------------
// Color definitions
// ---------------------------------------------------------------------------

/// `p` is a prefix of `s`.
pub open spec fn has_prefix(s: Seq<char>, p: Seq<char>) -> bool {
    s.len() >= p.len() && s.take(p.len() as int) == p
}

/// Parsing the `r,g,b` body of `rgb(…)`: exactly three comma-separated
/// components, each trimmed and read as a decimal `u8`.
pub open spec fn spec_parse_rgb_body(body: Seq<char>, given: Seq<char>) -> Result<
    Color,
    (ColorParseErrorKind, Seq<char>),
> {
    let parts = split_on(body, ',');
    if parts.len() != 3 {
        Err((ColorParseErrorKind::InvalidRgbFormat, given))
    } else {
        match (
            parse_u8_radix(trimmed(parts[0]), 10),
            parse_u8_radix(trimmed(parts[1]), 10),
            parse_u8_radix(trimmed(parts[2]), 10),
        ) {
            (Some(r), Some(g), Some(b)) => Ok(Color::TrueColor(ColorTriplet { red: r, green: g, blue: b })),
            _ => Err((ColorParseErrorKind::ComponentOutOfRange, given)),
        }
    }
}

/// The color that a lowercased, trimmed definition `t` denotes; errors carry
/// `given` (the text as given), except hex body errors, which carry the body.
pub open spec fn spec_parse_normalized(t: Seq<char>, given: Seq<char>) -> Result<
    Color,
    (ColorParseErrorKind, Seq<char>),
> {
    if t == "default"@ {
        Ok(Color::Default)
    } else if t.len() > 0 && t[0] == '#' {
        let hex = t.drop_first();
        if utf8_len(hex) != 6 {
            Err((ColorParseErrorKind::InvalidHexFormat, given))
        } else {
            match spec_parse_rgb_hex(hex) {
                Ok(tr) => Ok(Color::TrueColor(tr)),
                Err(e) => Err(e),
            }
        }
    } else if has_prefix(t, "color("@) && t.len() >= 7 && t.last() == ')' {
        match parse_u8_radix(t.subrange(6, t.len() - 1), 10) {
            Some(n) => Ok(spec_from_ansi(n)),
            None => Err((ColorParseErrorKind::InvalidColorSpec, given)),
        }
    } else if has_prefix(t, "rgb("@) && t.len() >= 5 && t.last() == ')' {
        spec_parse_rgb_body(t.subrange(4, t.len() - 1), given)
    } else {
        match spec_ansi_color_number(t) {
            Some(n) => Ok(spec_from_ansi(n)),
            None => Err((ColorParseErrorKind::UnknownColorName, given)),
        }
    }
}

/// Parsing `t` would slice a six-byte, non-ASCII hex body off a character
/// boundary.
pub open spec fn parse_would_panic(t: Seq<char>) -> bool {
    t.len() > 0 && t[0] == '#' && !hex_slicing_ok(t.drop_first())
}

/// The lowercase of `s` as `str::to_lowercase` gives it: the ASCII
/// lowercase for ASCII text, else the Unicode lowercase.
pub open spec fn lowercase_of(s: Seq<char>) -> Seq<char> {
    if is_ascii_seq(s) {
        ascii_lower_seq(s)
    } else {
        lowercased(s)
    }
}

/// What [`Color::parse`] reads its input as: lowercased, then trimmed.
pub open spec fn normalized(s: Seq<char>) -> Seq<char> {
    trimmed(lowercase_of(s))
}

pub(crate) fn starts_with_lit(v: &[char], lit: &str) -> (b: bool)
    ensures
        b == has_prefix(v@, lit@),
{
    let n = lit.unicode_len();
    if v.len() < n {
        return false;
    }
    let r = chars_eq_str(&v[0..n], lit);
    assert(v@.subrange(0, n as int) =~= v@.take(n as int));
    r
}

fn parse_rgb_body(body: &[char], given: &Vec<char>) -> (r: Result<Color, ColorParseError>)
    ensures
        result_view(r) == spec_parse_rgb_body(body@, given@),
{
    let (done, last) = split_chars(body, ',');
    if done.len() != 2 {
        return Err(make_error(ColorParseErrorKind::InvalidRgbFormat, given));
    }
    let p0 = trim_chars(done[0].as_slice());
    let p1 = trim_chars(done[1].as_slice());
    let p2 = trim_chars(last.as_slice());
    let r = parse_u8_chars(p0.as_slice(), 10);
    let g = parse_u8_chars(p1.as_slice(), 10);
    let b = parse_u8_chars(p2.as_slice(), 10);
    match (r, g, b) {
        (Some(r), Some(g), Some(b)) => Ok(Color::from_rgb(r, g, b)),
        _ => Err(make_error(ColorParseErrorKind::ComponentOutOfRange, given)),
    }
}

fn parse_normalized_chars(t: &[char], given: &Vec<char>) -> (r: Result<Color, ColorParseError>)
    requires
        !parse_would_panic(t@),
    ensures
        result_view(r) == spec_parse_normalized(t@, given@),
{
    let n = t.len();
    if chars_eq_str(t, "default") {
        return Ok(Color::default_color());
    }
    if n > 0 && t[0] == '#' {
        let hex = &t[1..n];
        assert(hex@ =~= t@.drop_first());
        let facts = utf8_facts(hex);
        if facts.0 != 6 {
            return Err(make_error(ColorParseErrorKind::InvalidHexFormat, given));
        }
        return match parse_rgb_hex_chars(hex) {
            Ok(tr) => Ok(Color::from_triplet(tr)),
            Err(e) => Err(e),
        };
    }
    if starts_with_lit(t, "color(") && n >= 7 && t[n - 1] == ')' {
        return match parse_u8_chars(&t[6..n - 1], 10) {
            Some(num) => Ok(Color::from_ansi(num)),
            None => Err(make_error(ColorParseErrorKind::InvalidColorSpec, given)),
        };
    }
    if starts_with_lit(t, "rgb(") && n >= 5 && t[n - 1] == ')' {
        return parse_rgb_body(&t[4..n - 1], given);
    }
    match ansi_color_number_of(t) {
        Some(num) => Ok(Color::from_ansi(num)),
        None => Err(make_error(ColorParseErrorKind::UnknownColorName, given)),
    }
}

impl Color {
    /// Parses an already lowercased and trimmed color definition `normalized`;
    /// `given` is the text as given, which errors carry.
    pub fn parse_normalized(normalized: &str, given: &str) -> (r: Result<Color, ColorParseError>)
        requires
            !parse_would_panic(normalized@),
        ensures
            result_view(r) == spec_parse_normalized(normalized@, given@),
    {
        let t = chars_of(normalized);
        let o = chars_of(given);
        parse_normalized_chars(t.as_slice(), &o)
    }

    /// Parses a color string into a Color.
    ///
    /// Supports `"default"`, named colors (`"red"`, `"bright_red"`,
    /// `"yellow4"`, …), `"#ff0000"`, `"color(100)"` and `"rgb(255,0,0)"`,
    /// in any case and with surrounding whitespace.
    pub fn parse(color: &str) -> (r: Result<Color, ColorParseError>)
        requires
            !parse_would_panic(normalized(color@)),
        ensures
            result_view(r) == spec_parse_normalized(normalized(color@), color@),
    {
        let lower = to_lowercase_string(color);
        assert(lower@ == lowercase_of(color@));
        let t = trim_str(lower.as_str());
        Color::parse_normalized(t.as_str(), color)
    }

    /// [`Color::parse`] for every input: `None` exactly where reading the
    /// input would slice a multi-byte hex body off a character boundary.
    pub fn try_parse(color: &str) -> (r: Option<Result<Color, ColorParseError>>)
        ensures
            r is None <==> parse_would_panic(normalized(color@)),
            r matches Some(res) ==> result_view(res) == spec_parse_normalized(normalized(color@), color@),
    {
        let lower = to_lowercase_string(color);
        assert(lower@ == lowercase_of(color@));
        let t = trim_str(lower.as_str());
        let tc = chars_of(t.as_str());
        let n = tc.len();
        if n > 0 && tc[0] == '#' {
            let hex = &tc.as_slice()[1..n];
            assert(hex@ =~= tc@.drop_first());
            let facts = utf8_facts(hex);
            if facts.0 == 6 && !facts.1 && !(facts.2 && facts.3) {
                return None;
            }
        }
        Some(Color::parse_normalized(t.as_str(), color))
    }
}


// ---------------------------------------------------------------------------
// Names parse back to the color they name
// ---------------------------------------------------------------------------

proof fn lemma_digit_char_value(d: nat, radix: nat)
    requires
        d < 10 || (radix == 16 && d < 16),
    ensures
        digit_value(digit_char(d), radix) == Some(d),
        digit_char(d) != '+',
{
    if d < 10 {
        assert(((48 + d) as char) as u32 == 48 + d);
    } else {
        assert(((87 + d) as char) as u32 == 87 + d);
    }
}

proof fn lemma_dec_parses(n: nat)
    ensures
        dec(n).len() >= 1,
        dec(n)[0] != '+',
        all_digits(dec(n), 10),
        digits_value(dec(n), 10) == n,
    decreases n,
{
    lemma_digit_char_value(n % 10, 10);
    if n < 10 {
        assert(dec(n).drop_last() =~= Seq::<char>::empty());
        assert(digits_value(Seq::<char>::empty(), 10) == 0);
        assert(dec(n).last() == digit_char(n % 10));
        assert(digits_value(dec(n), 10) == 0 * 10 + n);
    }
    if n >= 10 {
        lemma_dec_parses(n / 10);
        let d = dec(n);
        assert(d.drop_last() =~= dec(n / 10));
        assert(d.last() == digit_char(n % 10));
        assert(digits_value(d, 10) == digits_value(dec(n / 10), 10) * 10 + (n % 10));
        assert((n / 10) * 10 + n % 10 == n);
        assert(d[0] == dec(n / 10)[0]);
        assert forall|i: int| 0 <= i < d.len() implies (#[trigger] digit_value(d[i], 10)) is Some by {
            if i < d.len() - 1 {
                assert(d[i] == dec(n / 10)[i]);
            }
        }
    }
}

proof fn lemma_dec_u8_parses(n: u8)
    ensures
        parse_u8_radix(dec(n as nat), 10) == Some(n),
{
    lemma_dec_parses(n as nat);
}

proof fn lemma_hex2_parses(b: u8)
    ensures
        parse_u8_radix(hex2(b), 16) == Some(b),
        is_ascii_seq(hex2(b)),
        hex2(b).len() == 2,
{
    let h = hex2(b);
    lemma_digit_char_value((b / 16) as nat, 16);
    lemma_digit_char_value((b % 16) as nat, 16);
    assert(h.drop_last() =~= seq![digit_char((b / 16) as nat)]);
    assert(h.drop_last().drop_last() =~= Seq::<char>::empty());
    assert(digits_value(Seq::<char>::empty(), 16) == 0);
    assert(h.drop_last().last() == digit_char((b / 16) as nat));
    assert(h.last() == digit_char((b % 16) as nat));
    assert(digits_value(h.drop_last(), 16) == (b / 16) as nat);
    assert(digits_value(h, 16) == (b / 16) as nat * 16 + (b % 16) as nat);
    assert(all_digits(h, 16));
    assert((b / 16) as nat * 16 + (b % 16) as nat == b);
}

proof fn lemma_no_paren_prefix(t: Seq<char>)
    requires
        t.len() <= 3 || t[3] != '(',
        t.len() <= 5 || t[5] != '(',
    ensures
        !has_prefix(t, "color("@),
        !has_prefix(t, "rgb("@),
{
    reveal_strlit("color(");
    reveal_strlit("rgb(");
    if has_prefix(t, "color("@) {
        assert(t.take(6)[5] == t[5]);
    }
    if has_prefix(t, "rgb("@) {
        assert(t.take(4)[3] == t[3]);
    }
}

/// The name of every color that is neither a Windows color nor numbered
/// against its variant parses back to that color.
pub proof fn lemma_parse_name_round_trip(c: Color, given: Seq<char>)
    requires
        is_canonical(c),
        !(c is Windows),
    ensures
        !parse_would_panic(spec_name(c)),
        spec_parse_normalized(spec_name(c), given) == Ok::<Color, (ColorParseErrorKind, Seq<char>)>(c),
{
    reveal_strlit("default");
    match c {
        Color::Default => {},
        Color::Standard(n) => {
            lemma_ansi_name_number_round_trip(n);
            let name = spec_ansi_color_name(n).unwrap();
            lemma_standard_name_shape(n);
            lemma_no_paren_prefix(name);
        },
        Color::EightBit(n) => {
            let t = numbered_name(n);
            reveal_strlit("color(");
            reveal_strlit(")");
            lemma_dec_u8_parses(n);
            assert(t[0] == 'c');
            assert(t.take(6) =~= "color("@);
            assert(t.subrange(6, t.len() - 1) =~= dec(n as nat));
            assert(t != "default"@) by {
                assert(t[1] == 'o');
                assert("default"@[1] == 'e');
            }
        },
        Color::TrueColor(tr) => {
            let t = spec_hex(tr);
            let hex = t.drop_first();
            lemma_hex2_parses(tr.red);
            lemma_hex2_parses(tr.green);
            lemma_hex2_parses(tr.blue);
            assert(hex =~= hex2(tr.red) + hex2(tr.green) + hex2(tr.blue));
            assert(is_ascii_seq(hex));
            lemma_ascii_utf8_len(hex);
            assert(hex.subrange(0, 2) =~= hex2(tr.red));
            assert(hex.subrange(2, 4) =~= hex2(tr.green));
            assert(hex.subrange(4, 6) =~= hex2(tr.blue));
            assert(t != "default"@) by {
                assert(t[0] == '#');
            }
        },
        Color::Windows(_) => {},
    }
}

/// Printable ASCII other than uppercase letters: text that lowercasing and
/// trimming leave as it is.
pub open spec fn lower_printable(s: Seq<char>) -> bool {
    forall|i: int| 0 <= i < s.len() ==> 0x21 <= (#[trigger] s[i] as u32) <= 0x7E && !(0x41 <= (s[i] as u32) <= 0x5A)
}

/// Lowercasing and trimming leave [`lower_printable`] text as it is.
pub proof fn lemma_lower_printable_normalized(s: Seq<char>)
    requires
        lower_printable(s),
    ensures
        normalized(s) == s,
{
    assert(is_ascii_seq(s));
    assert(ascii_lower_seq(s) =~= s) by {
        assert forall|i: int| 0 <= i < s.len() implies ascii_lower_seq(s)[i] == s[i] by {
            assert(0x21 <= (s[i] as u32));
        }
    }
    if s.len() == 0 {
        assert(trim_start(s) == s);
        assert(trim_end(s) == s);
    } else {
        assert(!is_white_space(s[0])) by {
            assert(0x21 <= (s[0] as u32) <= 0x7E);
        }
        assert(!is_white_space(s[s.len() - 1])) by {
            assert(0x21 <= (s[s.len() - 1] as u32) <= 0x7E);
        }
        lemma_trim_start_at(s, 0);
        assert(s.subrange(0, s.len() as int) =~= s);
        lemma_trim_end_at(s, s.len() as int);
    }
}

proof fn lemma_lower_printable_concat(a: Seq<char>, b: Seq<char>)
    requires
        lower_printable(a),
        lower_printable(b),
    ensures
        lower_printable(a + b),
{
    assert forall|i: int| 0 <= i < (a + b).len() implies 0x21 <= (#[trigger] (a + b)[i] as u32) <= 0x7E && !(0x41 <= ((a
        + b)[i] as u32) <= 0x5A) by {
        if i < a.len() {
            assert((a + b)[i] == a[i]);
        } else {
            assert((a + b)[i] == b[i - a.len()]);
        }
    }
}

proof fn lemma_dec_lower_printable(n: nat)
    ensures
        lower_printable(dec(n)),
    decreases n,
{
    if n >= 10 {
        lemma_dec_lower_printable(n / 10);
        lemma_lower_printable_concat(dec(n / 10), seq![digit_char(n % 10)]);
        assert(dec(n) =~= dec(n / 10) + seq![digit_char(n % 10)]);
    }
}

proof fn lemma_hex2_lower_printable(b: u8)
    ensures
        lower_printable(hex2(b)),
{
}

/// The name of every canonical color is printable lowercase ASCII.
pub proof fn lemma_name_lower_printable(c: Color)
    requires
        is_canonical(c),
    ensures
        lower_printable(spec_name(c)),
{
    match c {
        Color::Default => {
            reveal_strlit("default");
        },
        Color::Standard(n) | Color::Windows(n) => {
            lemma_standard_name_printable(n);
        },
        Color::EightBit(n) => {
            reveal_strlit("color(");
            reveal_strlit(")");
            lemma_dec_lower_printable(n as nat);
            lemma_lower_printable_concat("color("@, dec(n as nat));
            lemma_lower_printable_concat("color("@ + dec(n as nat), ")"@);
        },
        Color::TrueColor(t) => {
            lemma_hex2_lower_printable(t.red);
            lemma_hex2_lower_printable(t.green);
            lemma_hex2_lower_printable(t.blue);
            lemma_lower_printable_concat(seq!['#'], hex2(t.red));
            lemma_lower_printable_concat(seq!['#'] + hex2(t.red), hex2(t.green));
            lemma_lower_printable_concat(seq!['#'] + hex2(t.red) + hex2(t.green), hex2(t.blue));
        },
    }
}

proof fn lemma_standard_name_printable(n: u8)
    requires
        n < 16,
    ensures
        lower_printable(spec_ansi_color_name(n).unwrap()),
{
    if n == 0 {
        reveal_strlit("black");
    } else if n == 1 {
        reveal_strlit("red");
    } else if n == 2 {
        reveal_strlit("green");
    } else if n == 3 {
        reveal_strlit("yellow");
    } else if n == 4 {
        reveal_strlit("blue");
    } else if n == 5 {
        reveal_strlit("magenta");
    } else if n == 6 {
        reveal_strlit("cyan");
    } else if n == 7 {
        reveal_strlit("white");
    } else if n == 8 {
        reveal_strlit("bright_black");
    } else if n == 9 {
        reveal_strlit("bright_red");
    } else if n == 10 {
        reveal_strlit("bright_green");
    } else if n == 11 {
        reveal_strlit("bright_yellow");
    } else if n == 12 {
        reveal_strlit("bright_blue");
    } else if n == 13 {
        reveal_strlit("bright_magenta");
    } else if n == 14 {
        reveal_strlit("bright_cyan");
    } else {
        reveal_strlit("bright_white");
    }
}

/// Parsing a color's name, as [`Color::parse`] reads it, gives the color
/// back, for the default color, standard colors 0–15, 8-bit colors from 16
/// and true colors.
pub proof fn lemma_parse_of_name(c: Color)
    requires
        is_canonical(c),
        !(c is Windows),
    ensures
        !parse_would_panic(normalized(spec_name(c))),
        spec_parse_normalized(normalized(spec_name(c)), spec_name(c)) == Ok::<
            Color,
            (ColorParseErrorKind, Seq<char>),
        >(c),
{
    lemma_name_lower_printable(c);
    lemma_lower_printable_normalized(spec_name(c));
    lemma_parse_name_round_trip(c, spec_name(c));
}

/// The hex text of a triplet, without its `#`, reads back as the triplet.
pub proof fn lemma_hex_round_trip(t: ColorTriplet)
    ensures
        hex_slicing_ok(spec_hex(t).drop_first()),
        spec_parse_rgb_hex(spec_hex(t).drop_first()) == Ok::<ColorTriplet, (ColorParseErrorKind, Seq<char>)>(t),
{
    let hex = spec_hex(t).drop_first();
    lemma_hex2_parses(t.red);
    lemma_hex2_parses(t.green);
    lemma_hex2_parses(t.blue);
    assert(hex =~= hex2(t.red) + hex2(t.green) + hex2(t.blue));
    assert(is_ascii_seq(hex));
    lemma_ascii_utf8_len(hex);
    assert(hex.subrange(0, 2) =~= hex2(t.red));
    assert(hex.subrange(2, 4) =~= hex2(t.green));
    assert(hex.subrange(4, 6) =~= hex2(t.blue));
}

proof fn lemma_standard_name_shape(n: u8)
    requires
        n < 16,
    ensures
        spec_ansi_color_name(n) matches Some(name) && name.len() > 0 && name[0] != '#' && name
            != "default"@ && (name.len() <= 3 || name[3] != '(') && (name.len() <= 5 || name[5] != '('),
{
    reveal_strlit("default");
    assert("default"@.len() == 7);
    assert("default"@[0] == 'd');
    if n == 0 {
        reveal_strlit("black");
        assert("black"@.len() == 5);
        assert("black"@[0] == 'b');
        assert("black"@[3] == 'c');
    } else if n == 1 {
        reveal_strlit("red");
        assert("red"@.len() == 3);
        assert("red"@[0] == 'r');
    } else if n == 2 {
        reveal_strlit("green");
        assert("green"@.len() == 5);
        assert("green"@[0] == 'g');
        assert("green"@[3] == 'e');
    } else if n == 3 {
        reveal_strlit("yellow");
        assert("yellow"@.len() == 6);
        assert("yellow"@[0] == 'y');
        assert("yellow"@[3] == 'l');
        assert("yellow"@[5] == 'w');
    } else if n == 4 {
        reveal_strlit("blue");
        assert("blue"@.len() == 4);
        assert("blue"@[0] == 'b');
        assert("blue"@[3] == 'e');
    } else if n == 5 {
        reveal_strlit("magenta");
        assert("magenta"@.len() == 7);
        assert("magenta"@[0] == 'm');
        assert("magenta"@[0] != "default"@[0]);
        assert("magenta"@[3] == 'e');
        assert("magenta"@[5] == 't');
    } else if n == 6 {
        reveal_strlit("cyan");
        assert("cyan"@.len() == 4);
        assert("cyan"@[0] == 'c');
        assert("cyan"@[3] == 'n');
    } else if n == 7 {
        reveal_strlit("white");
        assert("white"@.len() == 5);
        assert("white"@[0] == 'w');
        assert("white"@[3] == 't');
    } else if n == 8 {
        reveal_strlit("bright_black");
        assert("bright_black"@.len() == 12);
        assert("bright_black"@[0] == 'b');
        assert("bright_black"@[3] == 'g');
        assert("bright_black"@[5] == 't');
    } else if n == 9 {
        reveal_strlit("bright_red");
        assert("bright_red"@.len() == 10);
        assert("bright_red"@[0] == 'b');
        assert("bright_red"@[3] == 'g');
        assert("bright_red"@[5] == 't');
    } else if n == 10 {
        reveal_strlit("bright_green");
        assert("bright_green"@.len() == 12);
        assert("bright_green"@[0] == 'b');
        assert("bright_green"@[3] == 'g');
        assert("bright_green"@[5] == 't');
    } else if n == 11 {
        reveal_strlit("bright_yellow");
        assert("bright_yellow"@.len() == 13);
        assert("bright_yellow"@[0] == 'b');
        assert("bright_yellow"@[3] == 'g');
        assert("bright_yellow"@[5] == 't');
    } else if n == 12 {
        reveal_strlit("bright_blue");
        assert("bright_blue"@.len() == 11);
        assert("bright_blue"@[0] == 'b');
        assert("bright_blue"@[3] == 'g');
        assert("bright_blue"@[5] == 't');
    } else if n == 13 {
        reveal_strlit("bright_magenta");
        assert("bright_magenta"@.len() == 14);
        assert("bright_magenta"@[0] == 'b');
        assert("bright_magenta"@[3] == 'g');
        assert("bright_magenta"@[5] == 't');
    } else if n == 14 {
        reveal_strlit("bright_cyan");
        assert("bright_cyan"@.len() == 11);
        assert("bright_cyan"@[0] == 'b');
        assert("bright_cyan"@[3] == 'g');
        assert("bright_cyan"@[5] == 't');
    } else if n == 15 {
        reveal_strlit("bright_white");
        assert("bright_white"@.len() == 12);
        assert("bright_white"@[0] == 'b');
        assert("bright_white"@[3] == 'g');
        assert("bright_white"@[5] == 't');
    }
}

} // verus!
