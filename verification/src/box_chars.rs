//! Box-drawing character sets for table borders and separators.

use vstd::prelude::*;
use crate::color_parse::{split_chars, split_on, lemma_split_on_nonempty};
use crate::strutil::{chars_of, string_from_chars};

verus! {

/// Which level of row separator to render.
#[derive(Debug, Clone, Copy, PartialEq, Eq, Structural)]
pub enum RowLevel {
    /// Separator below the header row.
    Head,
    /// Separator between body rows.
    Row,
    /// Separator above the footer row.
    Foot,
    /// Mid-level separator.
    Mid,
}

/// A set of box-drawing characters, given by eight rows of four characters:
/// top, head, head separator, mid, row separator, foot separator, foot and
/// bottom. In the head, mid and foot rows the second character is unused.
#[derive(Debug, Clone, Copy)]
pub struct BoxChars {
    /// Top-left corner character.
    pub top_left: char,
    /// Top border horizontal fill character.
    pub top: char,
    /// Top border column divider character.
    pub top_divider: char,
    /// Top-right corner character.
    pub top_right: char,
    /// Left border character for the header row.
    pub head_left: char,
    /// Vertical column divider in the header row.
    pub head_vertical: char,
    /// Right border character for the header row.
    pub head_right: char,
    /// Left border character for the header separator.
    pub head_row_left: char,
    /// Horizontal fill character for the header separator.
    pub head_row_horizontal: char,
    /// Cross character for the header separator.
    pub head_row_cross: char,
    /// Right border character for the header separator.
    pub head_row_right: char,
    /// Left border character for the mid separator.
    pub mid_left: char,
    /// Vertical column divider for the mid separator.
    pub mid_vertical: char,
    /// Right border character for the mid separator.
    pub mid_right: char,
    /// Left border character for body row separators.
    pub row_left: char,
    /// Horizontal fill character for body row separators.
    pub row_horizontal: char,
    /// Cross character for body row separators.
    pub row_cross: char,
    /// Right border character for body row separators.
    pub row_right: char,
    /// Left border character for the footer separator.
    pub foot_row_left: char,
    /// Horizontal fill character for the footer separator.
    pub foot_row_horizontal: char,
    /// Cross character for the footer separator.
    pub foot_row_cross: char,
    /// Right border character for the footer separator.
    pub foot_row_right: char,
    /// Left border character for the footer row.
    pub foot_left: char,
    /// Vertical column divider in the footer row.
    pub foot_vertical: char,
    /// Right border character for the footer row.
    pub foot_right: char,
    /// Bottom-left corner character.
    pub bottom_left: char,
    /// Bottom border horizontal fill character.
    pub bottom_char: char,
    /// Bottom border column divider character.
    pub bottom_divider: char,
    /// Bottom-right corner character.
    pub bottom_right: char,
    /// Whether this box uses only ASCII characters.
    pub ascii: bool,
}

/// The box described by eight rows of four characters.
pub open spec fn box_from_rows(rows: Seq<Seq<char>>, ascii: bool) -> BoxChars {
    BoxChars {
        top_left: rows[0][0],
        top: rows[0][1],
        top_divider: rows[0][2],
        top_right: rows[0][3],
        head_left: rows[1][0],
        head_vertical: rows[1][2],
        head_right: rows[1][3],
        head_row_left: rows[2][0],
        head_row_horizontal: rows[2][1],
        head_row_cross: rows[2][2],
        head_row_right: rows[2][3],
        mid_left: rows[3][0],
        mid_vertical: rows[3][2],
        mid_right: rows[3][3],
        row_left: rows[4][0],
        row_horizontal: rows[4][1],
        row_cross: rows[4][2],
        row_right: rows[4][3],
        foot_row_left: rows[5][0],
        foot_row_horizontal: rows[5][1],
        foot_row_cross: rows[5][2],
        foot_row_right: rows[5][3],
        foot_left: rows[6][0],
        foot_vertical: rows[6][2],
        foot_right: rows[6][3],
        bottom_left: rows[7][0],
        bottom_char: rows[7][1],
        bottom_divider: rows[7][2],
        bottom_right: rows[7][3],
        ascii,
    }
}

/// A box definition: eight `\n`-separated lines of exactly four characters.
pub open spec fn valid_box_str(s: Seq<char>) -> bool {
    let lines = split_on(s, '\n');
    &&& lines.len() == 8
    &&& forall|i: int| 0 <= i < 8 ==> (#[trigger] lines[i]).len() == 4
}

/// `n` copies of `c`.
pub open spec fn fill(c: char, n: nat) -> Seq<char> {
    Seq::new(n, |_i: int| c)
}

/// The columns of a border line: `fill_char` repeated for each width, with
/// `divider` between neighbouring columns.
pub open spec fn row_body(widths: Seq<usize>, fill_char: char, divider: char) -> Seq<char>
    decreases widths.len(),
{
    if widths.len() == 0 {
        Seq::empty()
    } else if widths.len() == 1 {
        fill(fill_char, widths[0] as nat)
    } else {
        row_body(widths.drop_last(), fill_char, divider) + seq![divider] + fill(
            fill_char,
            widths.last() as nat,
        )
    }
}

/// The (left, horizontal, cross, right) characters of a separator level.
pub open spec fn level_chars(b: BoxChars, level: RowLevel) -> (char, char, char, char) {
    match level {
        RowLevel::Head => (b.head_row_left, b.head_row_horizontal, b.head_row_cross, b.head_row_right),
        RowLevel::Row => (b.row_left, b.row_horizontal, b.row_cross, b.row_right),
        RowLevel::Foot => (b.foot_row_left, b.foot_row_horizontal, b.foot_row_cross, b.foot_row_right),
        RowLevel::Mid => (b.mid_left, b.row_horizontal, b.mid_vertical, b.mid_right),
    }
}

/// The ASCII-compatible fallback of a box: rounded and heavy-edged boxes fall
/// back to square, heavy-headed minimal to minimal, simple heavy to simple;
/// every other box (and every box when `ascii_only` is false) is kept.
pub open spec fn spec_substitute(b: BoxChars, ascii_only: bool) -> BoxChars {
    if !ascii_only {
        b
    } else if b.top_left == '\u{256D}' && b.head_row_horizontal == '\u{2500}' {
        box_from_rows(square_rows(), false)
    } else if b.top_left == ' ' && b.head_row_horizontal == '\u{2501}' {
        if b.head_row_cross == '\u{253F}' {
            box_from_rows(minimal_rows(), false)
        } else {
            box_from_rows(simple_rows(), false)
        }
    } else if b.top_left == '\u{250F}' && (b.head_row_horizontal == '\u{2501}' || b.head_row_horizontal
        == '\u{2500}') {
        box_from_rows(square_rows(), false)
    } else {
        b
    }
}

/// The plain-headed variant of a box: heavy-headed and double-headed boxes
/// lose their special header separator; every other box is kept.
pub open spec fn spec_plain_headed(b: BoxChars) -> BoxChars {
    if b.top_left == '\u{250F}' && b.head_row_horizontal == '\u{2501}' && b.head_row_cross
        == '\u{2547}' {
        box_from_rows(square_rows(), false)
    } else if b.top_left == '\u{250C}' && b.head_row_horizontal == '\u{2550}' {
        box_from_rows(square_rows(), false)
    } else if b.top_left == ' ' && b.head_row_horizontal == '\u{2550}' {
        box_from_rows(minimal_rows(), false)
    } else if b.top_left == ' ' && b.head_row_horizontal == '\u{2501}' && b.head_row_cross
        == '\u{253F}' {
        box_from_rows(minimal_rows(), false)
    } else if b.top_left == '+' && b.head_row_horizontal == '=' {
        box_from_rows(ascii2_rows(), true)
    } else {
        b
    }
}

fn push_fill(out: &mut Vec<char>, c: char, n: usize)
    ensures
        final(out)@ == old(out)@ + fill(c, n as nat),
{
    let mut k: usize = 0;
    while k < n
        invariant
            k <= n,
            out@ =~= old(out)@ + fill(c, k as nat),
        decreases n - k,
    {
        out.push(c);
        k = k + 1;
        assert(out@ =~= old(out)@ + fill(c, k as nat));
    }
}

fn push_row_body(out: &mut Vec<char>, widths: &[usize], fill_char: char, divider: char)
    ensures
        final(out)@ == old(out)@ + row_body(widths@, fill_char, divider),
{
    let n = widths.len();
    let mut i: usize = 0;
    while i < n
        invariant
            i <= n,
            n == widths@.len(),
            out@ =~= old(out)@ + row_body(widths@.take(i as int), fill_char, divider),
        decreases n - i,
    {
        let ghost before = out@;
        if i > 0 {
            out.push(divider);
        }
        push_fill(out, fill_char, widths[i]);
        proof {
            let t = widths@.take(i + 1);
            assert(t.drop_last() =~= widths@.take(i as int));
            assert(t.last() == widths@[i as int]);
            if i == 0 {
                assert(widths@.take(0) =~= Seq::<usize>::empty());
                assert(out@ =~= old(out)@ + row_body(t, fill_char, divider));
            } else {
                assert(out@ =~= old(out)@ + row_body(t, fill_char, divider));
            }
        }
        i = i + 1;
    }
    assert(widths@.take(n as int) =~= widths@);
}

impl BoxChars {
    /// [`BoxChars::new`] for every input: `None` exactly where the text is
    /// not eight `\n`-separated lines of four characters.
    pub fn try_new(box_str: &str, ascii: bool) -> (r: Option<Self>)
        ensures
            r is None <==> !valid_box_str(box_str@),
            r matches Some(b) ==> b == box_from_rows(split_on(box_str@, '\n'), ascii),
    {
        let cs = chars_of(box_str);
        let (done, last) = split_chars(cs.as_slice(), '\n');
        let ghost lines = split_on(box_str@, '\n');
        if done.len() != 7 || last.len() != 4 {
            return None;
        }
        let mut i: usize = 0;
        while i < 7
            invariant
                i <= 7,
                done@.len() == 7,
                lines == split_on(box_str@, '\n'),
                lines.len() == 8,
                forall|j: int| 0 <= j < 7 ==> (#[trigger] done@[j])@ == lines[j],
                forall|j: int| 0 <= j < i ==> (#[trigger] lines[j]).len() == 4,
            decreases 7 - i,
        {
            if done[i].len() != 4 {
                return None;
            }
            i = i + 1;
        }
        assert(valid_box_str(box_str@));
        Some(BoxChars::new(box_str, ascii))
    }

    /// Parses a box definition: eight `\n`-separated lines of exactly four
    /// characters each.
    pub fn new(box_str: &str, ascii: bool) -> (b: Self)
        requires
            valid_box_str(box_str@),
        ensures
            b == box_from_rows(split_on(box_str@, '\n'), ascii),
    {
        let cs = chars_of(box_str);
        let (done, last) = split_chars(cs.as_slice(), '\n');
        let ghost lines = split_on(box_str@, '\n');
        assert(done@.len() == 7);
        assert(last@ == lines[7]);
        let r0 = &done[0];
        let r1 = &done[1];
        let r2 = &done[2];
        let r3 = &done[3];
        let r4 = &done[4];
        let r5 = &done[5];
        let r6 = &done[6];
        assert(r0@ == lines[0] && r1@ == lines[1] && r2@ == lines[2] && r3@ == lines[3]);
        assert(r4@ == lines[4] && r5@ == lines[5] && r6@ == lines[6]);
        assert(lines[0].len() == 4 && lines[1].len() == 4 && lines[2].len() == 4 && lines[3].len() == 4);
        assert(lines[4].len() == 4 && lines[5].len() == 4 && lines[6].len() == 4 && lines[7].len() == 4);
        BoxChars {
            top_left: r0[0],
            top: r0[1],
            top_divider: r0[2],
            top_right: r0[3],
            head_left: r1[0],
            head_vertical: r1[2],
            head_right: r1[3],
            head_row_left: r2[0],
            head_row_horizontal: r2[1],
            head_row_cross: r2[2],
            head_row_right: r2[3],
            mid_left: r3[0],
            mid_vertical: r3[2],
            mid_right: r3[3],
            row_left: r4[0],
            row_horizontal: r4[1],
            row_cross: r4[2],
            row_right: r4[3],
            foot_row_left: r5[0],
            foot_row_horizontal: r5[1],
            foot_row_cross: r5[2],
            foot_row_right: r5[3],
            foot_left: r6[0],
            foot_vertical: r6[2],
            foot_right: r6[3],
            bottom_left: last[0],
            bottom_char: last[1],
            bottom_divider: last[2],
            bottom_right: last[3],
            ascii,
        }
    }

    /// The top border for columns of the given widths, e.g. `┌─────┬───┐`
    /// for `[5, 3]` with the square box.
    pub fn get_top(&self, widths: &[usize]) -> (s: String)
        ensures
            s@ == seq![self.top_left] + row_body(widths@, self.top, self.top_divider) + seq![
                self.top_right,
            ],
    {
        let mut out: Vec<char> = Vec::new();
        out.push(self.top_left);
        push_row_body(&mut out, widths, self.top, self.top_divider);
        out.push(self.top_right);
        string_from_chars(&out)
    }

    /// A row separator for columns of the given widths at `level`; without
    /// `edge` the left and right border characters are left out.
    pub fn get_row(&self, widths: &[usize], level: RowLevel, edge: bool) -> (s: String)
        ensures
            ({
                let (l, h, c, r) = level_chars(*self, level);
                s@ == (if edge { seq![l] } else { Seq::empty() }) + row_body(widths@, h, c) + (if edge {
                    seq![r]
                } else {
                    Seq::empty()
                })
            }),
    {
        let (left, horizontal, cross, right) = match level {
            RowLevel::Head => (self.head_row_left, self.head_row_horizontal, self.head_row_cross, self.head_row_right),
            RowLevel::Row => (self.row_left, self.row_horizontal, self.row_cross, self.row_right),
            RowLevel::Foot => (self.foot_row_left, self.foot_row_horizontal, self.foot_row_cross, self.foot_row_right),
            RowLevel::Mid => (self.mid_left, self.row_horizontal, self.mid_vertical, self.mid_right),
        };
        let mut out: Vec<char> = Vec::new();
        if edge {
            out.push(left);
        }
        push_row_body(&mut out, widths, horizontal, cross);
        if edge {
            out.push(right);
        }
        assert(out@ =~= (if edge { seq![left] } else { Seq::empty() }) + row_body(widths@, horizontal, cross) + (if edge {
            seq![right]
        } else {
            Seq::empty()
        }));
        string_from_chars(&out)
    }

    /// The bottom border for columns of the given widths, e.g. `└─────┴───┘`
    /// for `[5, 3]` with the square box.
    pub fn get_bottom(&self, widths: &[usize]) -> (s: String)
        ensures
            s@ == seq![self.bottom_left] + row_body(widths@, self.bottom_char, self.bottom_divider)
                + seq![self.bottom_right],
    {
        let mut out: Vec<char> = Vec::new();
        out.push(self.bottom_left);
        push_row_body(&mut out, widths, self.bottom_char, self.bottom_divider);
        out.push(self.bottom_right);
        string_from_chars(&out)
    }

    /// The ASCII-compatible fallback of this box when `ascii_only` is set.
    pub fn substitute(&self, ascii_only: bool) -> (b: BoxChars)
        ensures
            b == spec_substitute(*self, ascii_only),
    {
        if !ascii_only {
            return *self;
        }
        if self.top_left == '\u{256D}' && self.head_row_horizontal == '\u{2500}' {
            square()
        } else if self.top_left == ' ' && self.head_row_horizontal == '\u{2501}' {
            if self.head_row_cross == '\u{253F}' {
                minimal()
            } else {
                simple()
            }
        } else if self.top_left == '\u{250F}' && (self.head_row_horizontal == '\u{2501}'
            || self.head_row_horizontal == '\u{2500}') {
            square()
        } else {
            *self
        }
    }

    /// The plain-headed variant of this box.
    pub fn get_plain_headed_box(&self) -> (b: BoxChars)
        ensures
            b == spec_plain_headed(*self),
    {
        if self.top_left == '\u{250F}' && self.head_row_horizontal == '\u{2501}' && self.head_row_cross
            == '\u{2547}' {
            square()
        } else if self.top_left == '\u{250C}' && self.head_row_horizontal == '\u{2550}' {
            square()
        } else if self.top_left == ' ' && self.head_row_horizontal == '\u{2550}' {
            minimal()
        } else if self.top_left == ' ' && self.head_row_horizontal == '\u{2501}' && self.head_row_cross
            == '\u{253F}' {
            minimal()
        } else if self.top_left == '+' && self.head_row_horizontal == '=' {
            ascii2()
        } else {
            *self
        }
    }
}

/// A border line is as long as its columns plus one divider between each two.
pub proof fn lemma_row_body_len(widths: Seq<usize>, fill_char: char, divider: char)
    ensures
        row_body(widths, fill_char, divider).len() == widths_total(widths) + if widths.len() == 0 {
            0
        } else {
            widths.len() - 1
        },
    decreases widths.len(),
{
    if widths.len() > 1 {
        lemma_row_body_len(widths.drop_last(), fill_char, divider);
    }
    if widths.len() == 1 {
        assert(widths.drop_last().len() == 0);
        assert(widths_total(widths.drop_last()) == 0);
        assert(widths.last() == widths[0]);
    }
}

/// The sum of the column widths.
pub open spec fn widths_total(widths: Seq<usize>) -> int
    decreases widths.len(),
{
    if widths.len() == 0 {
        0
    } else {
        widths_total(widths.drop_last()) + widths.last()
    }
}

/// The rows of the ascii box.
pub open spec fn ascii_rows() -> Seq<Seq<char>> {
    seq![
        seq!['+', '-', '-', '+'],
        seq!['|', ' ', '|', '|'],
        seq!['|', '-', '+', '|'],
        seq!['|', ' ', '|', '|'],
        seq!['|', '-', '+', '|'],
        seq!['|', '-', '+', '|'],
        seq!['|', ' ', '|', '|'],
        seq!['+', '-', '-', '+'],
    ]
}

/// trueII box, usable on any terminal.
pub fn ascii() -> (b: BoxChars)
    ensures
        b == box_from_rows(ascii_rows(), true),
{
    BoxChars {
        top_left: '+',
        top: '-',
        top_divider: '-',
        top_right: '+',
        head_left: '|',
        head_vertical: '|',
        head_right: '|',
        head_row_left: '|',
        head_row_horizontal: '-',
        head_row_cross: '+',
        head_row_right: '|',
        mid_left: '|',
        mid_vertical: '|',
        mid_right: '|',
        row_left: '|',
        row_horizontal: '-',
        row_cross: '+',
        row_right: '|',
        foot_row_left: '|',
        foot_row_horizontal: '-',
        foot_row_cross: '+',
        foot_row_right: '|',
        foot_left: '|',
        foot_vertical: '|',
        foot_right: '|',
        bottom_left: '+',
        bottom_char: '-',
        bottom_divider: '-',
        bottom_right: '+',
        ascii: true,
    }
}

/// The rows of the ascii2 box.
pub open spec fn ascii2_rows() -> Seq<Seq<char>> {
    seq![
        seq!['+', '-', '+', '+'],
        seq!['|', ' ', '|', '|'],
        seq!['+', '-', '+', '+'],
        seq!['|', ' ', '|', '|'],
        seq!['+', '-', '+', '+'],
        seq!['+', '-', '+', '+'],
        seq!['|', ' ', '|', '|'],
        seq!['+', '-', '+', '+'],
    ]
}

/// trueII box with `+` column dividers.
pub fn ascii2() -> (b: BoxChars)
    ensures
        b == box_from_rows(ascii2_rows(), true),
{
    BoxChars {
        top_left: '+',
        top: '-',
        top_divider: '+',
        top_right: '+',
        head_left: '|',
        head_vertical: '|',
        head_right: '|',
        head_row_left: '+',
        head_row_horizontal: '-',
        head_row_cross: '+',
        head_row_right: '+',
        mid_left: '|',
        mid_vertical: '|',
        mid_right: '|',
        row_left: '+',
        row_horizontal: '-',
        row_cross: '+',
        row_right: '+',
        foot_row_left: '+',
        foot_row_horizontal: '-',
        foot_row_cross: '+',
        foot_row_right: '+',
        foot_left: '|',
        foot_vertical: '|',
        foot_right: '|',
        bottom_left: '+',
        bottom_char: '-',
        bottom_divider: '+',
        bottom_right: '+',
        ascii: true,
    }
}

/// The rows of the ascii_double_head box.
pub open spec fn ascii_double_head_rows() -> Seq<Seq<char>> {
    seq![
        seq!['+', '-', '+', '+'],
        seq!['|', ' ', '|', '|'],
        seq!['+', '=', '+', '+'],
        seq!['|', ' ', '|', '|'],
        seq!['+', '-', '+', '+'],
        seq!['+', '-', '+', '+'],
        seq!['|', ' ', '|', '|'],
        seq!['+', '-', '+', '+'],
    ]
}

/// trueII box with a `=` header separator.
pub fn ascii_double_head() -> (b: BoxChars)
    ensures
        b == box_from_rows(ascii_double_head_rows(), true),
{
    BoxChars {
        top_left: '+',
        top: '-',
        top_divider: '+',
        top_right: '+',
        head_left: '|',
        head_vertical: '|',
        head_right: '|',
        head_row_left: '+',
        head_row_horizontal: '=',
        head_row_cross: '+',
        head_row_right: '+',
        mid_left: '|',
        mid_vertical: '|',
        mid_right: '|',
        row_left: '+',
        row_horizontal: '-',
        row_cross: '+',
        row_right: '+',
        foot_row_left: '+',
        foot_row_horizontal: '-',
        foot_row_cross: '+',
        foot_row_right: '+',
        foot_left: '|',
        foot_vertical: '|',
        foot_right: '|',
        bottom_left: '+',
        bottom_char: '-',
        bottom_divider: '+',
        bottom_right: '+',
        ascii: true,
    }
}

/// The rows of the square box.
pub open spec fn square_rows() -> Seq<Seq<char>> {
    seq![
        seq!['\u{250C}', '\u{2500}', '\u{252C}', '\u{2510}'],
        seq!['\u{2502}', ' ', '\u{2502}', '\u{2502}'],
        seq!['\u{251C}', '\u{2500}', '\u{253C}', '\u{2524}'],
        seq!['\u{2502}', ' ', '\u{2502}', '\u{2502}'],
        seq!['\u{251C}', '\u{2500}', '\u{253C}', '\u{2524}'],
        seq!['\u{251C}', '\u{2500}', '\u{253C}', '\u{2524}'],
        seq!['\u{2502}', ' ', '\u{2502}', '\u{2502}'],
        seq!['\u{2514}', '\u{2500}', '\u{2534}', '\u{2518}'],
    ]
}

/// Square corners, single lines.
pub fn square() -> (b: BoxChars)
    ensures
        b == box_from_rows(square_rows(), false),
{
    BoxChars {
        top_left: '\u{250C}',
        top: '\u{2500}',
        top_divider: '\u{252C}',
        top_right: '\u{2510}',
        head_left: '\u{2502}',
        head_vertical: '\u{2502}',
        head_right: '\u{2502}',
        head_row_left: '\u{251C}',
        head_row_horizontal: '\u{2500}',
        head_row_cross: '\u{253C}',
        head_row_right: '\u{2524}',
        mid_left: '\u{2502}',
        mid_vertical: '\u{2502}',
        mid_right: '\u{2502}',
        row_left: '\u{251C}',
        row_horizontal: '\u{2500}',
        row_cross: '\u{253C}',
        row_right: '\u{2524}',
        foot_row_left: '\u{251C}',
        foot_row_horizontal: '\u{2500}',
        foot_row_cross: '\u{253C}',
        foot_row_right: '\u{2524}',
        foot_left: '\u{2502}',
        foot_vertical: '\u{2502}',
        foot_right: '\u{2502}',
        bottom_left: '\u{2514}',
        bottom_char: '\u{2500}',
        bottom_divider: '\u{2534}',
        bottom_right: '\u{2518}',
        ascii: false,
    }
}

/// The rows of the square_double_head box.
pub open spec fn square_double_head_rows() -> Seq<Seq<char>> {
    seq![
        seq!['\u{250C}', '\u{2500}', '\u{252C}', '\u{2510}'],
        seq!['\u{2502}', ' ', '\u{2502}', '\u{2502}'],
        seq!['\u{255E}', '\u{2550}', '\u{256A}', '\u{2561}'],
        seq!['\u{2502}', ' ', '\u{2502}', '\u{2502}'],
        seq!['\u{251C}', '\u{2500}', '\u{253C}', '\u{2524}'],
        seq!['\u{251C}', '\u{2500}', '\u{253C}', '\u{2524}'],
        seq!['\u{2502}', ' ', '\u{2502}', '\u{2502}'],
        seq!['\u{2514}', '\u{2500}', '\u{2534}', '\u{2518}'],
    ]
}

/// Square box with a double-line header separator.
pub fn square_double_head() -> (b: BoxChars)
    ensures
        b == box_from_rows(square_double_head_rows(), false),
{
    BoxChars {
        top_left: '\u{250C}',
        top: '\u{2500}',
        top_divider: '\u{252C}',
        top_right: '\u{2510}',
        head_left: '\u{2502}',
        head_vertical: '\u{2502}',
        head_right: '\u{2502}',
        head_row_left: '\u{255E}',
        head_row_horizontal: '\u{2550}',
        head_row_cross: '\u{256A}',
        head_row_right: '\u{2561}',
        mid_left: '\u{2502}',
        mid_vertical: '\u{2502}',
        mid_right: '\u{2502}',
        row_left: '\u{251C}',
        row_horizontal: '\u{2500}',
        row_cross: '\u{253C}',
        row_right: '\u{2524}',
        foot_row_left: '\u{251C}',
        foot_row_horizontal: '\u{2500}',
        foot_row_cross: '\u{253C}',
        foot_row_right: '\u{2524}',
        foot_left: '\u{2502}',
        foot_vertical: '\u{2502}',
        foot_right: '\u{2502}',
        bottom_left: '\u{2514}',
        bottom_char: '\u{2500}',
        bottom_divider: '\u{2534}',
        bottom_right: '\u{2518}',
        ascii: false,
    }
}

/// The rows of the minimal box.
pub open spec fn minimal_rows() -> Seq<Seq<char>> {
    seq![
        seq![' ', ' ', '\u{2577}', ' '],
        seq![' ', ' ', '\u{2502}', ' '],
        seq!['\u{2576}', '\u{2500}', '\u{253C}', '\u{2574}'],
        seq![' ', ' ', '\u{2502}', ' '],
        seq!['\u{2576}', '\u{2500}', '\u{253C}', '\u{2574}'],
        seq!['\u{2576}', '\u{2500}', '\u{253C}', '\u{2574}'],
        seq![' ', ' ', '\u{2502}', ' '],
        seq![' ', ' ', '\u{2575}', ' '],
    ]
}

/// Column dividers and row separators only.
pub fn minimal() -> (b: BoxChars)
    ensures
        b == box_from_rows(minimal_rows(), false),
{
    BoxChars {
        top_left: ' ',
        top: ' ',
        top_divider: '\u{2577}',
        top_right: ' ',
        head_left: ' ',
        head_vertical: '\u{2502}',
        head_right: ' ',
        head_row_left: '\u{2576}',
        head_row_horizontal: '\u{2500}',
        head_row_cross: '\u{253C}',
        head_row_right: '\u{2574}',
        mid_left: ' ',
        mid_vertical: '\u{2502}',
        mid_right: ' ',
        row_left: '\u{2576}',
        row_horizontal: '\u{2500}',
        row_cross: '\u{253C}',
        row_right: '\u{2574}',
        foot_row_left: '\u{2576}',
        foot_row_horizontal: '\u{2500}',
        foot_row_cross: '\u{253C}',
        foot_row_right: '\u{2574}',
        foot_left: ' ',
        foot_vertical: '\u{2502}',
        foot_right: ' ',
        bottom_left: ' ',
        bottom_char: ' ',
        bottom_divider: '\u{2575}',
        bottom_right: ' ',
        ascii: false,
    }
}

/// The rows of the minimal_heavy_head box.
pub open spec fn minimal_heavy_head_rows() -> Seq<Seq<char>> {
    seq![
        seq![' ', ' ', '\u{2577}', ' '],
        seq![' ', ' ', '\u{2502}', ' '],
        seq!['\u{257A}', '\u{2501}', '\u{253F}', '\u{2578}'],
        seq![' ', ' ', '\u{2502}', ' '],
        seq!['\u{2576}', '\u{2500}', '\u{253C}', '\u{2574}'],
        seq!['\u{2576}', '\u{2500}', '\u{253C}', '\u{2574}'],
        seq![' ', ' ', '\u{2502}', ' '],
        seq![' ', ' ', '\u{2575}', ' '],
    ]
}

/// Minimal box with a heavy header separator.
pub fn minimal_heavy_head() -> (b: BoxChars)
    ensures
        b == box_from_rows(minimal_heavy_head_rows(), false),
{
    BoxChars {
        top_left: ' ',
        top: ' ',
        top_divider: '\u{2577}',
        top_right: ' ',
        head_left: ' ',
        head_vertical: '\u{2502}',
        head_right: ' ',
        head_row_left: '\u{257A}',
        head_row_horizontal: '\u{2501}',
        head_row_cross: '\u{253F}',
        head_row_right: '\u{2578}',
        mid_left: ' ',
        mid_vertical: '\u{2502}',
        mid_right: ' ',
        row_left: '\u{2576}',
        row_horizontal: '\u{2500}',
        row_cross: '\u{253C}',
        row_right: '\u{2574}',
        foot_row_left: '\u{2576}',
        foot_row_horizontal: '\u{2500}',
        foot_row_cross: '\u{253C}',
        foot_row_right: '\u{2574}',
        foot_left: ' ',
        foot_vertical: '\u{2502}',
        foot_right: ' ',
        bottom_left: ' ',
        bottom_char: ' ',
        bottom_divider: '\u{2575}',
        bottom_right: ' ',
        ascii: false,
    }
}

/// The rows of the minimal_double_head box.
pub open spec fn minimal_double_head_rows() -> Seq<Seq<char>> {
    seq![
        seq![' ', ' ', '\u{2577}', ' '],
        seq![' ', ' ', '\u{2502}', ' '],
        seq![' ', '\u{2550}', '\u{256A}', ' '],
        seq![' ', ' ', '\u{2502}', ' '],
        seq![' ', '\u{2500}', '\u{253C}', ' '],
        seq![' ', '\u{2500}', '\u{253C}', ' '],
        seq![' ', ' ', '\u{2502}', ' '],
        seq![' ', ' ', '\u{2575}', ' '],
    ]
}

/// Minimal box with a double header separator.
pub fn minimal_double_head() -> (b: BoxChars)
    ensures
        b == box_from_rows(minimal_double_head_rows(), false),
{
    BoxChars {
        top_left: ' ',
        top: ' ',
        top_divider: '\u{2577}',
        top_right: ' ',
        head_left: ' ',
        head_vertical: '\u{2502}',
        head_right: ' ',
        head_row_left: ' ',
        head_row_horizontal: '\u{2550}',
        head_row_cross: '\u{256A}',
        head_row_right: ' ',
        mid_left: ' ',
        mid_vertical: '\u{2502}',
        mid_right: ' ',
        row_left: ' ',
        row_horizontal: '\u{2500}',
        row_cross: '\u{253C}',
        row_right: ' ',
        foot_row_left: ' ',
        foot_row_horizontal: '\u{2500}',
        foot_row_cross: '\u{253C}',
        foot_row_right: ' ',
        foot_left: ' ',
        foot_vertical: '\u{2502}',
        foot_right: ' ',
        bottom_left: ' ',
        bottom_char: ' ',
        bottom_divider: '\u{2575}',
        bottom_right: ' ',
        ascii: false,
    }
}

/// The rows of the simple box.
pub open spec fn simple_rows() -> Seq<Seq<char>> {
    seq![
        seq![' ', ' ', ' ', ' '],
        seq![' ', ' ', ' ', ' '],
        seq![' ', '\u{2500}', '\u{2500}', ' '],
        seq![' ', ' ', ' ', ' '],
        seq![' ', ' ', ' ', ' '],
        seq![' ', '\u{2500}', '\u{2500}', ' '],
        seq![' ', ' ', ' ', ' '],
        seq![' ', ' ', ' ', ' '],
    ]
}

/// Header and footer separators only.
pub fn simple() -> (b: BoxChars)
    ensures
        b == box_from_rows(simple_rows(), false),
{
    BoxChars {
        top_left: ' ',
        top: ' ',
        top_divider: ' ',
        top_right: ' ',
        head_left: ' ',
        head_vertical: ' ',
        head_right: ' ',
        head_row_left: ' ',
        head_row_horizontal: '\u{2500}',
        head_row_cross: '\u{2500}',
        head_row_right: ' ',
        mid_left: ' ',
        mid_vertical: ' ',
        mid_right: ' ',
        row_left: ' ',
        row_horizontal: ' ',
        row_cross: ' ',
        row_right: ' ',
        foot_row_left: ' ',
        foot_row_horizontal: '\u{2500}',
        foot_row_cross: '\u{2500}',
        foot_row_right: ' ',
        foot_left: ' ',
        foot_vertical: ' ',
        foot_right: ' ',
        bottom_left: ' ',
        bottom_char: ' ',
        bottom_divider: ' ',
        bottom_right: ' ',
        ascii: false,
    }
}

/// The rows of the simple_head box.
pub open spec fn simple_head_rows() -> Seq<Seq<char>> {
    seq![
        seq![' ', ' ', ' ', ' '],
        seq![' ', ' ', ' ', ' '],
        seq![' ', '\u{2500}', '\u{2500}', ' '],
        seq![' ', ' ', ' ', ' '],
        seq![' ', ' ', ' ', ' '],
        seq![' ', ' ', ' ', ' '],
        seq![' ', ' ', ' ', ' '],
        seq![' ', ' ', ' ', ' '],
    ]
}

/// Header separator only.
pub fn simple_head() -> (b: BoxChars)
    ensures
        b == box_from_rows(simple_head_rows(), false),
{
    BoxChars {
        top_left: ' ',
        top: ' ',
        top_divider: ' ',
        top_right: ' ',
        head_left: ' ',
        head_vertical: ' ',
        head_right: ' ',
        head_row_left: ' ',
        head_row_horizontal: '\u{2500}',
        head_row_cross: '\u{2500}',
        head_row_right: ' ',
        mid_left: ' ',
        mid_vertical: ' ',
        mid_right: ' ',
        row_left: ' ',
        row_horizontal: ' ',
        row_cross: ' ',
        row_right: ' ',
        foot_row_left: ' ',
        foot_row_horizontal: ' ',
        foot_row_cross: ' ',
        foot_row_right: ' ',
        foot_left: ' ',
        foot_vertical: ' ',
        foot_right: ' ',
        bottom_left: ' ',
        bottom_char: ' ',
        bottom_divider: ' ',
        bottom_right: ' ',
        ascii: false,
    }
}

/// The rows of the simple_heavy box.
pub open spec fn simple_heavy_rows() -> Seq<Seq<char>> {
    seq![
        seq![' ', ' ', ' ', ' '],
        seq![' ', ' ', ' ', ' '],
        seq![' ', '\u{2501}', '\u{2501}', ' '],
        seq![' ', ' ', ' ', ' '],
        seq![' ', ' ', ' ', ' '],
        seq![' ', '\u{2501}', '\u{2501}', ' '],
        seq![' ', ' ', ' ', ' '],
        seq![' ', ' ', ' ', ' '],
    ]
}

/// Heavy header and footer separators only.
pub fn simple_heavy() -> (b: BoxChars)
    ensures
        b == box_from_rows(simple_heavy_rows(), false),
{
    BoxChars {
        top_left: ' ',
        top: ' ',
        top_divider: ' ',
        top_right: ' ',
        head_left: ' ',
        head_vertical: ' ',
        head_right: ' ',
        head_row_left: ' ',
        head_row_horizontal: '\u{2501}',
        head_row_cross: '\u{2501}',
        head_row_right: ' ',
        mid_left: ' ',
        mid_vertical: ' ',
        mid_right: ' ',
        row_left: ' ',
        row_horizontal: ' ',
        row_cross: ' ',
        row_right: ' ',
        foot_row_left: ' ',
        foot_row_horizontal: '\u{2501}',
        foot_row_cross: '\u{2501}',
        foot_row_right: ' ',
        foot_left: ' ',
        foot_vertical: ' ',
        foot_right: ' ',
        bottom_left: ' ',
        bottom_char: ' ',
        bottom_divider: ' ',
        bottom_right: ' ',
        ascii: false,
    }
}

/// The rows of the horizontals box.
pub open spec fn horizontals_rows() -> Seq<Seq<char>> {
    seq![
        seq![' ', '\u{2500}', '\u{2500}', ' '],
        seq![' ', ' ', ' ', ' '],
        seq![' ', '\u{2500}', '\u{2500}', ' '],
        seq![' ', ' ', ' ', ' '],
        seq![' ', '\u{2500}', '\u{2500}', ' '],
        seq![' ', '\u{2500}', '\u{2500}', ' '],
        seq![' ', ' ', ' ', ' '],
        seq![' ', '\u{2500}', '\u{2500}', ' '],
    ]
}

/// Horizontal lines only.
pub fn horizontals() -> (b: BoxChars)
    ensures
        b == box_from_rows(horizontals_rows(), false),
{
    BoxChars {
        top_left: ' ',
        top: '\u{2500}',
        top_divider: '\u{2500}',
        top_right: ' ',
        head_left: ' ',
        head_vertical: ' ',
        head_right: ' ',
        head_row_left: ' ',
        head_row_horizontal: '\u{2500}',
        head_row_cross: '\u{2500}',
        head_row_right: ' ',
        mid_left: ' ',
        mid_vertical: ' ',
        mid_right: ' ',
        row_left: ' ',
        row_horizontal: '\u{2500}',
        row_cross: '\u{2500}',
        row_right: ' ',
        foot_row_left: ' ',
        foot_row_horizontal: '\u{2500}',
        foot_row_cross: '\u{2500}',
        foot_row_right: ' ',
        foot_left: ' ',
        foot_vertical: ' ',
        foot_right: ' ',
        bottom_left: ' ',
        bottom_char: '\u{2500}',
        bottom_divider: '\u{2500}',
        bottom_right: ' ',
        ascii: false,
    }
}

/// The rows of the rounded box.
pub open spec fn rounded_rows() -> Seq<Seq<char>> {
    seq![
        seq!['\u{256D}', '\u{2500}', '\u{252C}', '\u{256E}'],
        seq!['\u{2502}', ' ', '\u{2502}', '\u{2502}'],
        seq!['\u{251C}', '\u{2500}', '\u{253C}', '\u{2524}'],
        seq!['\u{2502}', ' ', '\u{2502}', '\u{2502}'],
        seq!['\u{251C}', '\u{2500}', '\u{253C}', '\u{2524}'],
        seq!['\u{251C}', '\u{2500}', '\u{253C}', '\u{2524}'],
        seq!['\u{2502}', ' ', '\u{2502}', '\u{2502}'],
        seq!['\u{2570}', '\u{2500}', '\u{2534}', '\u{256F}'],
    ]
}

/// Rounded corners.
pub fn rounded() -> (b: BoxChars)
    ensures
        b == box_from_rows(rounded_rows(), false),
{
    BoxChars {
        top_left: '\u{256D}',
        top: '\u{2500}',
        top_divider: '\u{252C}',
        top_right: '\u{256E}',
        head_left: '\u{2502}',
        head_vertical: '\u{2502}',
        head_right: '\u{2502}',
        head_row_left: '\u{251C}',
        head_row_horizontal: '\u{2500}',
        head_row_cross: '\u{253C}',
        head_row_right: '\u{2524}',
        mid_left: '\u{2502}',
        mid_vertical: '\u{2502}',
        mid_right: '\u{2502}',
        row_left: '\u{251C}',
        row_horizontal: '\u{2500}',
        row_cross: '\u{253C}',
        row_right: '\u{2524}',
        foot_row_left: '\u{251C}',
        foot_row_horizontal: '\u{2500}',
        foot_row_cross: '\u{253C}',
        foot_row_right: '\u{2524}',
        foot_left: '\u{2502}',
        foot_vertical: '\u{2502}',
        foot_right: '\u{2502}',
        bottom_left: '\u{2570}',
        bottom_char: '\u{2500}',
        bottom_divider: '\u{2534}',
        bottom_right: '\u{256F}',
        ascii: false,
    }
}

/// The rows of the heavy box.
pub open spec fn heavy_rows() -> Seq<Seq<char>> {
    seq![
        seq!['\u{250F}', '\u{2501}', '\u{2533}', '\u{2513}'],
        seq!['\u{2503}', ' ', '\u{2503}', '\u{2503}'],
        seq!['\u{2523}', '\u{2501}', '\u{254B}', '\u{252B}'],
        seq!['\u{2503}', ' ', '\u{2503}', '\u{2503}'],
        seq!['\u{2523}', '\u{2501}', '\u{254B}', '\u{252B}'],
        seq!['\u{2523}', '\u{2501}', '\u{254B}', '\u{252B}'],
        seq!['\u{2503}', ' ', '\u{2503}', '\u{2503}'],
        seq!['\u{2517}', '\u{2501}', '\u{253B}', '\u{251B}'],
    ]
}

/// Heavy lines.
pub fn heavy() -> (b: BoxChars)
    ensures
        b == box_from_rows(heavy_rows(), false),
{
    BoxChars {
        top_left: '\u{250F}',
        top: '\u{2501}',
        top_divider: '\u{2533}',
        top_right: '\u{2513}',
        head_left: '\u{2503}',
        head_vertical: '\u{2503}',
        head_right: '\u{2503}',
        head_row_left: '\u{2523}',
        head_row_horizontal: '\u{2501}',
        head_row_cross: '\u{254B}',
        head_row_right: '\u{252B}',
        mid_left: '\u{2503}',
        mid_vertical: '\u{2503}',
        mid_right: '\u{2503}',
        row_left: '\u{2523}',
        row_horizontal: '\u{2501}',
        row_cross: '\u{254B}',
        row_right: '\u{252B}',
        foot_row_left: '\u{2523}',
        foot_row_horizontal: '\u{2501}',
        foot_row_cross: '\u{254B}',
        foot_row_right: '\u{252B}',
        foot_left: '\u{2503}',
        foot_vertical: '\u{2503}',
        foot_right: '\u{2503}',
        bottom_left: '\u{2517}',
        bottom_char: '\u{2501}',
        bottom_divider: '\u{253B}',
        bottom_right: '\u{251B}',
        ascii: false,
    }
}

/// The rows of the heavy_edge box.
pub open spec fn heavy_edge_rows() -> Seq<Seq<char>> {
    seq![
        seq!['\u{250F}', '\u{2501}', '\u{252F}', '\u{2513}'],
        seq!['\u{2503}', ' ', '\u{2502}', '\u{2503}'],
        seq!['\u{2520}', '\u{2500}', '\u{253C}', '\u{2528}'],
        seq!['\u{2503}', ' ', '\u{2502}', '\u{2503}'],
        seq!['\u{2520}', '\u{2500}', '\u{253C}', '\u{2528}'],
        seq!['\u{2520}', '\u{2500}', '\u{253C}', '\u{2528}'],
        seq!['\u{2503}', ' ', '\u{2502}', '\u{2503}'],
        seq!['\u{2517}', '\u{2501}', '\u{2537}', '\u{251B}'],
    ]
}

/// Heavy outer edge, single inner lines.
pub fn heavy_edge() -> (b: BoxChars)
    ensures
        b == box_from_rows(heavy_edge_rows(), false),
{
    BoxChars {
        top_left: '\u{250F}',
        top: '\u{2501}',
        top_divider: '\u{252F}',
        top_right: '\u{2513}',
        head_left: '\u{2503}',
        head_vertical: '\u{2502}',
        head_right: '\u{2503}',
        head_row_left: '\u{2520}',
        head_row_horizontal: '\u{2500}',
        head_row_cross: '\u{253C}',
        head_row_right: '\u{2528}',
        mid_left: '\u{2503}',
        mid_vertical: '\u{2502}',
        mid_right: '\u{2503}',
        row_left: '\u{2520}',
        row_horizontal: '\u{2500}',
        row_cross: '\u{253C}',
        row_right: '\u{2528}',
        foot_row_left: '\u{2520}',
        foot_row_horizontal: '\u{2500}',
        foot_row_cross: '\u{253C}',
        foot_row_right: '\u{2528}',
        foot_left: '\u{2503}',
        foot_vertical: '\u{2502}',
        foot_right: '\u{2503}',
        bottom_left: '\u{2517}',
        bottom_char: '\u{2501}',
        bottom_divider: '\u{2537}',
        bottom_right: '\u{251B}',
        ascii: false,
    }
}

/// The rows of the heavy_head box.
pub open spec fn heavy_head_rows() -> Seq<Seq<char>> {
    seq![
        seq!['\u{250F}', '\u{2501}', '\u{2533}', '\u{2513}'],
        seq!['\u{2503}', ' ', '\u{2503}', '\u{2503}'],
        seq!['\u{2521}', '\u{2501}', '\u{2547}', '\u{2529}'],
        seq!['\u{2502}', ' ', '\u{2502}', '\u{2502}'],
        seq!['\u{251C}', '\u{2500}', '\u{253C}', '\u{2524}'],
        seq!['\u{251C}', '\u{2500}', '\u{253C}', '\u{2524}'],
        seq!['\u{2502}', ' ', '\u{2502}', '\u{2502}'],
        seq!['\u{2514}', '\u{2500}', '\u{2534}', '\u{2518}'],
    ]
}

/// Heavy header, single lines below.
pub fn heavy_head() -> (b: BoxChars)
    ensures
        b == box_from_rows(heavy_head_rows(), false),
{
    BoxChars {
        top_left: '\u{250F}',
        top: '\u{2501}',
        top_divider: '\u{2533}',
        top_right: '\u{2513}',
        head_left: '\u{2503}',
        head_vertical: '\u{2503}',
        head_right: '\u{2503}',
        head_row_left: '\u{2521}',
        head_row_horizontal: '\u{2501}',
        head_row_cross: '\u{2547}',
        head_row_right: '\u{2529}',
        mid_left: '\u{2502}',
        mid_vertical: '\u{2502}',
        mid_right: '\u{2502}',
        row_left: '\u{251C}',
        row_horizontal: '\u{2500}',
        row_cross: '\u{253C}',
        row_right: '\u{2524}',
        foot_row_left: '\u{251C}',
        foot_row_horizontal: '\u{2500}',
        foot_row_cross: '\u{253C}',
        foot_row_right: '\u{2524}',
        foot_left: '\u{2502}',
        foot_vertical: '\u{2502}',
        foot_right: '\u{2502}',
        bottom_left: '\u{2514}',
        bottom_char: '\u{2500}',
        bottom_divider: '\u{2534}',
        bottom_right: '\u{2518}',
        ascii: false,
    }
}

/// The rows of the double box.
pub open spec fn double_rows() -> Seq<Seq<char>> {
    seq![
        seq!['\u{2554}', '\u{2550}', '\u{2566}', '\u{2557}'],
        seq!['\u{2551}', ' ', '\u{2551}', '\u{2551}'],
        seq!['\u{2560}', '\u{2550}', '\u{256C}', '\u{2563}'],
        seq!['\u{2551}', ' ', '\u{2551}', '\u{2551}'],
        seq!['\u{2560}', '\u{2550}', '\u{256C}', '\u{2563}'],
        seq!['\u{2560}', '\u{2550}', '\u{256C}', '\u{2563}'],
        seq!['\u{2551}', ' ', '\u{2551}', '\u{2551}'],
        seq!['\u{255A}', '\u{2550}', '\u{2569}', '\u{255D}'],
    ]
}

/// Double lines.
pub fn double() -> (b: BoxChars)
    ensures
        b == box_from_rows(double_rows(), false),
{
    BoxChars {
        top_left: '\u{2554}',
        top: '\u{2550}',
        top_divider: '\u{2566}',
        top_right: '\u{2557}',
        head_left: '\u{2551}',
        head_vertical: '\u{2551}',
        head_right: '\u{2551}',
        head_row_left: '\u{2560}',
        head_row_horizontal: '\u{2550}',
        head_row_cross: '\u{256C}',
        head_row_right: '\u{2563}',
        mid_left: '\u{2551}',
        mid_vertical: '\u{2551}',
        mid_right: '\u{2551}',
        row_left: '\u{2560}',
        row_horizontal: '\u{2550}',
        row_cross: '\u{256C}',
        row_right: '\u{2563}',
        foot_row_left: '\u{2560}',
        foot_row_horizontal: '\u{2550}',
        foot_row_cross: '\u{256C}',
        foot_row_right: '\u{2563}',
        foot_left: '\u{2551}',
        foot_vertical: '\u{2551}',
        foot_right: '\u{2551}',
        bottom_left: '\u{255A}',
        bottom_char: '\u{2550}',
        bottom_divider: '\u{2569}',
        bottom_right: '\u{255D}',
        ascii: false,
    }
}

/// The rows of the double_edge box.
pub open spec fn double_edge_rows() -> Seq<Seq<char>> {
    seq![
        seq!['\u{2554}', '\u{2550}', '\u{2564}', '\u{2557}'],
        seq!['\u{2551}', ' ', '\u{2502}', '\u{2551}'],
        seq!['\u{255F}', '\u{2500}', '\u{253C}', '\u{2562}'],
        seq!['\u{2551}', ' ', '\u{2502}', '\u{2551}'],
        seq!['\u{255F}', '\u{2500}', '\u{253C}', '\u{2562}'],
        seq!['\u{255F}', '\u{2500}', '\u{253C}', '\u{2562}'],
        seq!['\u{2551}', ' ', '\u{2502}', '\u{2551}'],
        seq!['\u{255A}', '\u{2550}', '\u{2567}', '\u{255D}'],
    ]
}

/// Double outer edge, single inner lines.
pub fn double_edge() -> (b: BoxChars)
    ensures
        b == box_from_rows(double_edge_rows(), false),
{
    BoxChars {
        top_left: '\u{2554}',
        top: '\u{2550}',
        top_divider: '\u{2564}',
        top_right: '\u{2557}',
        head_left: '\u{2551}',
        head_vertical: '\u{2502}',
        head_right: '\u{2551}',
        head_row_left: '\u{255F}',
        head_row_horizontal: '\u{2500}',
        head_row_cross: '\u{253C}',
        head_row_right: '\u{2562}',
        mid_left: '\u{2551}',
        mid_vertical: '\u{2502}',
        mid_right: '\u{2551}',
        row_left: '\u{255F}',
        row_horizontal: '\u{2500}',
        row_cross: '\u{253C}',
        row_right: '\u{2562}',
        foot_row_left: '\u{255F}',
        foot_row_horizontal: '\u{2500}',
        foot_row_cross: '\u{253C}',
        foot_row_right: '\u{2562}',
        foot_left: '\u{2551}',
        foot_vertical: '\u{2502}',
        foot_right: '\u{2551}',
        bottom_left: '\u{255A}',
        bottom_char: '\u{2550}',
        bottom_divider: '\u{2567}',
        bottom_right: '\u{255D}',
        ascii: false,
    }
}

/// The rows of the markdown box.
pub open spec fn markdown_rows() -> Seq<Seq<char>> {
    seq![
        seq![' ', ' ', ' ', ' '],
        seq!['|', ' ', '|', '|'],
        seq!['|', '-', '|', '|'],
        seq!['|', ' ', '|', '|'],
        seq!['|', '-', '|', '|'],
        seq!['|', '-', '|', '|'],
        seq!['|', ' ', '|', '|'],
        seq![' ', ' ', ' ', ' '],
    ]
}

/// Markdown table syntax.
pub fn markdown() -> (b: BoxChars)
    ensures
        b == box_from_rows(markdown_rows(), true),
{
    BoxChars {
        top_left: ' ',
        top: ' ',
        top_divider: ' ',
        top_right: ' ',
        head_left: '|',
        head_vertical: '|',
        head_right: '|',
        head_row_left: '|',
        head_row_horizontal: '-',
        head_row_cross: '|',
        head_row_right: '|',
        mid_left: '|',
        mid_vertical: '|',
        mid_right: '|',
        row_left: '|',
        row_horizontal: '-',
        row_cross: '|',
        row_right: '|',
        foot_row_left: '|',
        foot_row_horizontal: '-',
        foot_row_cross: '|',
        foot_row_right: '|',
        foot_left: '|',
        foot_vertical: '|',
        foot_right: '|',
        bottom_left: ' ',
        bottom_char: ' ',
        bottom_divider: ' ',
        bottom_right: ' ',
        ascii: true,
    }
}

} // verus!
