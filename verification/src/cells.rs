//! Cell widths: how many terminal columns text occupies.

use vstd::prelude::*;
use unicode_width::{UnicodeWidthChar, UnicodeWidthStr};
use crate::strutil::{chars_of, string_from_chars};

verus! {

/// The result of `UnicodeWidthChar::width`: the displayed width of a
/// character in columns, `None` for control characters.
pub uninterp spec fn char_width(c: char) -> Option<usize>;

/// The result of `UnicodeWidthStr::width`: the displayed width of a string in
/// columns, which accounts for sequences (emoji, ligatures, `\r\n`) and so is
/// not always the sum of the character widths.
pub uninterp spec fn str_width(s: Seq<char>) -> usize;

/// Calls `UnicodeWidthChar::width`. As its source shows, printable ASCII
/// (`U+0020..U+007E`) has width 1, C0 and C1 control codes (`< U+0020`,
/// `U+007F..U+009F`) have none, and every other width is a table byte.
#[verifier::external_body]
fn unicode_char_width(c: char) -> (r: Option<usize>)
    ensures
        r == char_width(c),
        0x20 <= (c as u32) < 0x7F ==> r == Some(1usize),
        (c as u32) < 0x20 || (0x7F <= (c as u32) < 0xA0) ==> r is None,
        r matches Some(w) ==> w <= 255,
{
    c.width()
}

/// Calls `UnicodeWidthStr::width`; an empty string has width 0.
#[verifier::external_body]
fn unicode_str_width(s: &str) -> (r: usize)
    ensures
        r == str_width(s@),
        s@.len() == 0 ==> r == 0,
{
    s.width()
}

/// The cell size of a character: its width, or 0 when it has none.
pub open spec fn cell_size(c: char) -> nat {
    match char_width(c) {
        Some(w) => w as nat,
        None => 0,
    }
}

/// Get the cell width of a string (how many terminal columns it occupies).
pub fn cell_len(text: &str) -> (n: usize)
    ensures
        n == str_width(text@),
{
    unicode_str_width(text)
}

/// Get the cell width of a single character: 0 for control and zero-width
/// characters, else its width (1 or 2 for nearly all characters).
pub fn get_character_cell_size(c: char) -> (n: usize)
    ensures
        n == cell_size(c),
        n <= 255,
{
    match unicode_char_width(c) {
        Some(w) => w,
        None => 0,
    }
}

/// `n` spaces.
pub open spec fn spaces(n: nat) -> Seq<char> {
    Seq::new(n, |_i: int| ' ')
}

/// Cropping `s` to `total` cells starting at column `pos`: characters are
/// kept while they fit; a character that would overflow is replaced by
/// spaces up to `total` and ends the result.
pub open spec fn crop(s: Seq<char>, total: nat, pos: nat) -> Seq<char>
    decreases s.len(),
{
    if s.len() == 0 {
        Seq::empty()
    } else if pos + cell_size(s[0]) <= total {
        seq![s[0]] + crop(s.drop_first(), total, pos + cell_size(s[0]))
    } else if pos < total {
        spaces((total - pos) as nat)
    } else {
        Seq::empty()
    }
}

/// `text` fitted to exactly `total` cells by [`set_cell_size`].
pub open spec fn spec_set_cell_size(text: Seq<char>, total: nat) -> Seq<char> {
    let current = str_width(text) as nat;
    if current == total {
        text
    } else if current < total {
        text + spaces((total - current) as nat)
    } else if total == 0 {
        Seq::empty()
    } else {
        crop(text, total, 0)
    }
}

fn push_spaces(out: &mut Vec<char>, n: usize)
    ensures
        final(out)@ == old(out)@ + spaces(n as nat),
{
    let mut k: usize = 0;
    while k < n
        invariant
            k <= n,
            out@ =~= old(out)@ + spaces(k as nat),
        decreases n - k,
    {
        out.push(' ');
        k = k + 1;
        assert(out@ =~= old(out)@ + spaces(k as nat));
    }
}

proof fn lemma_crop_unfold(s: Seq<char>, i: int, total: nat, pos: nat)
    requires
        0 <= i < s.len(),
    ensures
        crop(s.skip(i), total, pos) == if pos + cell_size(s[i]) <= total {
            seq![s[i]] + crop(s.skip(i + 1), total, pos + cell_size(s[i]))
        } else if pos < total {
            spaces((total - pos) as nat)
        } else {
            Seq::empty()
        },
{
    assert(s.skip(i).drop_first() =~= s.skip(i + 1));
    assert(s.skip(i)[0] == s[i]);
}

/// Crop or pad a string to fit in exactly `total` cells. A double-width
/// character cut by the crop is replaced with spaces.
pub fn set_cell_size(text: &str, total: usize) -> (r: String)
    ensures
        r@ == spec_set_cell_size(text@, total as nat),
{
    let current_len = cell_len(text);
    let cs = chars_of(text);
    if current_len == total {
        return string_from_chars(&cs);
    }
    if current_len < total {
        let mut out = cs;
        push_spaces(&mut out, total - current_len);
        return string_from_chars(&out);
    }
    if total == 0 {
        let out: Vec<char> = Vec::new();
        return string_from_chars(&out);
    }
    let mut out: Vec<char> = Vec::new();
    let mut cell_position: usize = 0;
    let mut i: usize = 0;
    let n = cs.len();
    assert(cs@.skip(0) =~= cs@);
    while i < n
        invariant_except_break
            i <= n,
            n == cs@.len(),
            cell_position <= total,
            out@ + crop(cs@.skip(i as int), total as nat, cell_position as nat) == crop(cs@, total as nat, 0),
        ensures
            out@ == crop(cs@, total as nat, 0),
        decreases n - i,
    {
        let c = cs[i];
        let char_width = get_character_cell_size(c);
        proof {
            lemma_crop_unfold(cs@, i as int, total as nat, cell_position as nat);
        }
        if char_width <= total - cell_position {
            out.push(c);
            cell_position = cell_position + char_width;
            i = i + 1;
        } else if cell_position < total {
            push_spaces(&mut out, total - cell_position);
            break;
        } else {
            break;
        }
    }
    proof {
        if i == n {
            assert(cs@.skip(n as int) =~= Seq::<char>::empty());
        }
    }
    string_from_chars(&out)
}


/// The state of [`chop_cells`] after some characters: the finished lines,
/// the line being filled, and its width in cells.
pub open spec fn chop_step(st: (Seq<Seq<char>>, Seq<char>, nat), c: char, width: nat) -> (
    Seq<Seq<char>>,
    Seq<char>,
    nat,
) {
    let (lines, cur, cw) = st;
    if cw + cell_size(c) <= width {
        (lines, cur.push(c), cw + cell_size(c))
    } else if cur.len() > 0 {
        (lines.push(cur), seq![c], cell_size(c))
    } else {
        (lines, seq![c], cell_size(c))
    }
}

/// The state of [`chop_cells`] after reading all of `s`.
pub open spec fn chop_fold(s: Seq<char>, width: nat) -> (Seq<Seq<char>>, Seq<char>, nat)
    decreases s.len(),
{
    if s.len() == 0 {
        (Seq::empty(), Seq::empty(), 0)
    } else {
        chop_step(chop_fold(s.drop_last(), width), s.last(), width)
    }
}

/// The lines into which [`chop_cells`] splits `s`.
pub open spec fn spec_chop_cells(s: Seq<char>, width: nat) -> Seq<Seq<char>> {
    if width == 0 {
        Seq::empty()
    } else {
        let (lines, cur, _cw) = chop_fold(s, width);
        if cur.len() > 0 {
            lines.push(cur)
        } else {
            lines
        }
    }
}

/// The concatenation of a sequence of lines.
pub open spec fn concat(lines: Seq<Seq<char>>) -> Seq<char>
    decreases lines.len(),
{
    if lines.len() == 0 {
        Seq::empty()
    } else {
        concat(lines.drop_last()) + lines.last()
    }
}

/// The total cell size of the characters of `s`.
pub open spec fn cells_total(s: Seq<char>) -> nat
    decreases s.len(),
{
    if s.len() == 0 {
        0
    } else {
        cells_total(s.drop_last()) + cell_size(s.last())
    }
}

/// A line fits in `width` cells, or is a single character too wide for any line.
pub open spec fn line_fits(line: Seq<char>, width: nat) -> bool {
    cells_total(line) <= width || line.len() == 1
}

proof fn lemma_chop_fold(s: Seq<char>, width: nat)
    requires
        width > 0,
    ensures
        ({
            let (lines, cur, cw) = chop_fold(s, width);
            &&& concat(lines) + cur == s
            &&& cw == cells_total(cur)
            &&& line_fits(cur, width)
            &&& forall|i: int| 0 <= i < lines.len() ==> #[trigger] lines[i].len() > 0
                && line_fits(lines[i], width)
        }),
    decreases s.len(),
{
    if s.len() > 0 {
        let prev = s.drop_last();
        lemma_chop_fold(prev, width);
        let (lines, cur, cw) = chop_fold(prev, width);
        let c = s.last();
        assert(prev.push(c) =~= s);
        if cw + cell_size(c) <= width {
            assert(cur.push(c).drop_last() =~= cur);
            assert(concat(lines) + cur.push(c) =~= (concat(lines) + cur).push(c));
        } else {
            assert(seq![c].drop_last() =~= Seq::<char>::empty());
            assert(cells_total(Seq::<char>::empty()) == 0);
            assert(seq![c].last() == c);
            assert(cells_total(seq![c]) == cell_size(c));
            if cur.len() > 0 {
                let nl = lines.push(cur);
                assert(nl.drop_last() =~= lines);
                assert(concat(nl) == concat(lines) + cur);
                assert(concat(nl) + seq![c] =~= (concat(lines) + cur).push(c));
            } else {
                assert(concat(lines) + seq![c] =~= (concat(lines) + cur).push(c));
            }
        }
    }
}

/// For a positive width, the lines of [`chop_cells`] are non-empty, put back
/// together they give the text, and each fits in `width` cells unless it is a
/// single character wider than that.
pub proof fn lemma_chop_cells_partition(s: Seq<char>, width: nat)
    requires
        width > 0,
    ensures
        concat(spec_chop_cells(s, width)) == s,
        forall|i: int| 0 <= i < spec_chop_cells(s, width).len() ==> #[trigger] spec_chop_cells(s, width)[i].len() > 0
            && line_fits(spec_chop_cells(s, width)[i], width),
{
    lemma_chop_fold(s, width);
    let (lines, cur, cw) = chop_fold(s, width);
    if cur.len() > 0 {
        assert(lines.push(cur).drop_last() =~= lines);
    } else {
        assert(concat(lines) + cur =~= concat(lines));
    }
}

/// Split text into lines where each line fits within `width` cells; a
/// character that would overflow the line starts a new one.
pub fn chop_cells(text: &str, width: usize) -> (r: Vec<String>)
    ensures
        r@.len() == spec_chop_cells(text@, width as nat).len(),
        forall|i: int| 0 <= i < r@.len() ==> #[trigger] r@[i]@ == spec_chop_cells(text@, width as nat)[i],
{
    if width == 0 {
        return Vec::new();
    }
    let cs = chars_of(text);
    let n = cs.len();
    let mut lines: Vec<String> = Vec::new();
    let mut cur: Vec<char> = Vec::new();
    let mut cw: usize = 0;
    let mut i: usize = 0;
    while i < n
        invariant
            i <= n,
            n == cs@.len(),
            cs@ == text@,
            width > 0,
            ({
                let st = chop_fold(cs@.take(i as int), width as nat);
                &&& lines@.len() == st.0.len()
                &&& forall|k: int| 0 <= k < lines@.len() ==> #[trigger] lines@[k]@ == st.0[k]
                &&& cur@ == st.1
                &&& cw as nat == st.2
            }),
        decreases n - i,
    {
        let c = cs[i];
        let w = get_character_cell_size(c);
        proof {
            assert(cs@.take(i as int + 1).drop_last() =~= cs@.take(i as int));
            assert(cs@.take(i as int + 1).last() == c);
        }
        let ghost old_lines = lines@;
        if cw <= width && w <= width - cw {
            cur.push(c);
            cw = cw + w;
        } else {
            if cur.len() > 0 {
                lines.push(string_from_chars(&cur));
                proof {
                    assert forall|k: int| 0 <= k < lines@.len() implies #[trigger] lines@[k]@
                        == chop_fold(cs@.take(i as int), width as nat).0.push(cur@)[k] by {
                        if k < old_lines.len() {
                            assert(lines@[k] == old_lines[k]);
                        }
                    }
                }
            }
            cur = Vec::new();
            cur.push(c);
            cw = w;
        }
        i = i + 1;
    }
    proof {
        assert(cs@.take(n as int) =~= cs@);
    }
    if cur.len() > 0 {
        lines.push(string_from_chars(&cur));
    }
    lines
}

/// Are all characters single-cell width? False as soon as one character is
/// double-width or has no width.
pub fn is_single_cell_widths(text: &str) -> (b: bool)
    ensures
        b == (forall|i: int| 0 <= i < text@.len() ==> #[trigger] cell_size(text@[i]) == 1),
{
    let cs = chars_of(text);
    let mut i: usize = 0;
    while i < cs.len()
        invariant
            i <= cs@.len(),
            cs@ == text@,
            forall|k: int| 0 <= k < i ==> #[trigger] cell_size(text@[k]) == 1,
        decreases cs@.len() - i,
    {
        if get_character_cell_size(cs[i]) != 1 {
            return false;
        }
        i = i + 1;
    }
    true
}

} // verus!
