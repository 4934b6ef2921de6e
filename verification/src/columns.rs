//! Column layout settings: the items to lay out in columns and the options
//! of the layout.

use vstd::prelude::*;
use crate::console::JustifyMethod;
use vstd::arithmetic::div_mod::{lemma_fundamental_div_mod, lemma_fundamental_div_mod_converse};

verus! {

/// Items to display in neat columns, with the layout options.
#[derive(Debug)]
pub struct Columns {
    /// The items, as text.
    pub renderables: Vec<String>,
    /// A fixed column width, or `None` to fit the items.
    pub width: Option<usize>,
    /// Padding around cells: top, right, bottom, left.
    pub padding: (usize, usize, usize, usize),
    /// Expand to the full available width.
    pub expand: bool,
    /// Make all columns the same width.
    pub equal: bool,
    /// Fill columns top to bottom before going right.
    pub column_first: bool,
    /// Reverse the column order within each row.
    pub right_to_left: bool,
    /// Alignment of cell content.
    pub align: Option<JustifyMethod>,
    /// A title above the columns.
    pub title: Option<String>,
}

/// The layout with no items: no fixed width, padding `(0, 1, 0, 1)`, every
/// switch off, no alignment and no title.
pub open spec fn is_default_columns(c: Columns) -> bool {
    &&& c.renderables@.len() == 0
    &&& c.width is None
    &&& c.padding == (0usize, 1usize, 0usize, 1usize)
    &&& !c.expand
    &&& !c.equal
    &&& !c.column_first
    &&& !c.right_to_left
    &&& c.align is None
    &&& c.title is None
}

impl Columns {
    /// An empty layout with the default options (see [`is_default_columns`]).
    pub fn new() -> (c: Columns)
        ensures
            is_default_columns(c),
    {
        Columns {
            renderables: Vec::new(),
            width: None,
            padding: (0, 1, 0, 1),
            expand: false,
            equal: false,
            column_first: false,
            right_to_left: false,
            align: None,
            title: None,
        }
    }

    /// Add an item.
    pub fn add_renderable(&mut self, text: &str)
        ensures
            final(self).renderables@.len() == old(self).renderables@.len() + 1,
            final(self).renderables@.last()@ == text@,
            final(self).renderables@.drop_last() == old(self).renderables@,
            final(self).width == old(self).width,
            final(self).padding == old(self).padding,
            final(self).expand == old(self).expand,
            final(self).equal == old(self).equal,
            final(self).column_first == old(self).column_first,
            final(self).right_to_left == old(self).right_to_left,
            final(self).align == old(self).align,
            final(self).title == old(self).title,
    {
        self.renderables.push(String::from_str(text));
        assert(self.renderables@.drop_last() =~= old(self).renderables@);
    }

    /// The layout with a fixed column width.
    pub fn with_width(self, width: usize) -> (c: Columns)
        ensures
            c == (Columns { width: Some(width), ..self }),
    {
        Columns { width: Some(width), ..self }
    }

    /// The layout with other cell padding.
    pub fn with_padding(self, padding: (usize, usize, usize, usize)) -> (c: Columns)
        ensures
            c == (Columns { padding, ..self }),
    {
        Columns { padding, ..self }
    }

    /// The layout, expanded to the full width or not.
    pub fn with_expand(self, expand: bool) -> (c: Columns)
        ensures
            c == (Columns { expand, ..self }),
    {
        Columns { expand, ..self }
    }

    /// The layout, with equal columns or not.
    pub fn with_equal(self, equal: bool) -> (c: Columns)
        ensures
            c == (Columns { equal, ..self }),
    {
        Columns { equal, ..self }
    }

    /// The layout, filling columns first or rows first.
    pub fn with_column_first(self, column_first: bool) -> (c: Columns)
        ensures
            c == (Columns { column_first, ..self }),
    {
        Columns { column_first, ..self }
    }

    /// The layout, right to left or not.
    pub fn with_right_to_left(self, right_to_left: bool) -> (c: Columns)
        ensures
            c == (Columns { right_to_left, ..self }),
    {
        Columns { right_to_left, ..self }
    }

    /// The layout with an alignment for cell content.
    pub fn with_align(self, align: JustifyMethod) -> (c: Columns)
        ensures
            c == (Columns { align: Some(align), ..self }),
    {
        Columns { align: Some(align), ..self }
    }

    /// The layout with a title.
    pub fn with_title(self, title: &str) -> (c: Columns)
        ensures
            c.title matches Some(t) && t@ == title@,
            c == (Columns { title: c.title, ..self }),
    {
        Columns { title: Some(String::from_str(title)), ..self }
    }
}

impl Default for Columns {
    fn default() -> (c: Columns)
        ensures
            is_default_columns(c),
    {
        Columns::new()
    }
}


/// How many of `n` items column `col` of `cc` columns holds when they are
/// filled top to bottom: the first `n % cc` columns hold one more.
pub open spec fn column_len(n: int, cc: int, col: int) -> int {
    n / cc + if col < n % cc { 1int } else { 0int }
}

/// The index of the first item of column `col`.
pub open spec fn column_start(n: int, cc: int, col: int) -> int {
    col * (n / cc) + if col < n % cc { col } else { n % cc }
}

/// How many columns have an item in row `row`.
pub open spec fn row_len(n: int, cc: int, row: int) -> int {
    if row < n / cc { cc } else { n % cc }
}

/// The number of rows: `n / cc`, plus one for a partial last row.
pub open spec fn row_count(n: int, cc: int) -> int {
    n / cc + if n % cc != 0 { 1int } else { 0int }
}

/// The items of rows `row..` when the columns are filled first, read row by
/// row from left to right.
pub open spec fn column_first_from(n: int, cc: int, row: int) -> Seq<int>
    decreases row_count(n, cc) - row,
{
    if row < 0 || row >= row_count(n, cc) {
        Seq::empty()
    } else {
        Seq::new(row_len(n, cc, row) as nat, |col: int| column_start(n, cc, col) + row) + column_first_from(
            n,
            cc,
            row + 1,
        )
    }
}

/// The cells of the layout in reading order: `(width, Some(item))` for each
/// item (by columns first when `column_first`, else in order), then
/// `(0, None)` for each empty cell of a partial last row.
pub open spec fn spec_layout(column_first: bool, cc: int, widths: Seq<usize>) -> Seq<(usize, Option<usize>)> {
    let n = widths.len() as int;
    let order = if column_first { column_first_from(n, cc, 0) } else { Seq::new(n as nat, |i: int| i) };
    let cells = order.map_values(|i: int| (widths[i], Some(i as usize)));
    let pad = if n % cc != 0 { cc - n % cc } else { 0 };
    cells + Seq::new(pad as nat, |_i: int| (0usize, Option::<usize>::None))
}

proof fn lemma_column_start_step(n: int, cc: int, col: int)
    requires
        cc > 0,
        n >= 0,
        col >= 0,
    ensures
        column_start(n, cc, col + 1) == column_start(n, cc, col) + column_len(n, cc, col),
{
    assert((col + 1) * (n / cc) == col * (n / cc) + n / cc) by (nonlinear_arith);
}

proof fn lemma_column_start_bound(n: int, cc: int, col: int)
    requires
        cc > 0,
        n >= 0,
        0 <= col <= cc,
    ensures
        column_start(n, cc, col) <= n,
{
    assert(n == cc * (n / cc) + n % cc) by (nonlinear_arith) requires cc > 0;
    assert(col * (n / cc) <= cc * (n / cc)) by (nonlinear_arith) requires col <= cc, n / cc >= 0;
}

proof fn lemma_rows(n: int, cc: int, row: int)
    requires
        cc > 0,
        n >= 0,
        0 <= row < row_count(n, cc),
    ensures
        0 < row_len(n, cc, row) <= cc,
        forall|col: int| 0 <= col < row_len(n, cc, row) ==> 0 <= #[trigger] column_start(n, cc, col) + row < n,
{
    assert(n == cc * (n / cc) + n % cc) by (nonlinear_arith) requires cc > 0;
    assert forall|col: int| 0 <= col < row_len(n, cc, row) implies 0 <= #[trigger] column_start(n, cc, col) + row < n by {
        assert(0 <= col * (n / cc)) by (nonlinear_arith) requires col >= 0, n / cc >= 0;
        if row < n / cc {
            assert(col * (n / cc) + (n / cc) <= cc * (n / cc)) by (nonlinear_arith)
                requires col + 1 <= cc, n / cc >= 0;
        } else {
            assert(col * (n / cc) <= (n % cc) * (n / cc)) by (nonlinear_arith)
                requires col <= n % cc, n / cc >= 0;
            assert((n % cc) * (n / cc) + n / cc <= cc * (n / cc)) by (nonlinear_arith)
                requires n % cc < cc, n / cc >= 0;
        }
    }
}

impl Columns {
    /// The cells of the layout over `column_count` columns for items of the
    /// given widths, in reading order; see [`spec_layout`].
    pub fn iter_renderables(&self, column_count: usize, renderable_widths: &[usize]) -> (r: Vec<(usize, Option<usize>)>)
        requires
            column_count > 0,
        ensures
            r@ == spec_layout(self.column_first, column_count as int, renderable_widths@),
    {
        let n = renderable_widths.len();
        let cc = column_count;
        let ghost nn = n as int;
        let ghost cci = cc as int;
        let mut result: Vec<(usize, Option<usize>)> = Vec::new();
        let ghost order = if self.column_first { column_first_from(nn, cci, 0) } else { Seq::new(nn as nat, |i: int| i) };
        let ghost cells = order.map_values(|i: int| (renderable_widths@[i], Some(i as usize)));
        if self.column_first {
            let q = n / cc;
            let rem = n % cc;
            proof {
                assert(n == cc * q + rem) by (nonlinear_arith) requires q == n / cc, rem == n % cc, cc > 0;
                if rem != 0 {
                    assert(q < n) by (nonlinear_arith) requires n == cc * q + rem, rem > 0, rem < cc, q >= 0;
                }
            }
            let rows = q + if rem != 0 { 1usize } else { 0usize };
            let mut row: usize = 0;
            while row < rows
                invariant
                    n == renderable_widths@.len(),
                    nn == n,
                    cci == cc,
                    cc > 0,
                    q == n / cc,
                    rem == n % cc,
                    rows == row_count(nn, cci),
                    row <= rows,
                    self.column_first,
                    order == column_first_from(nn, cci, 0),
                    cells == order.map_values(|i: int| (renderable_widths@[i], Some(i as usize))),
                    result@ + column_first_from(nn, cci, row as int).map_values(|i: int| (renderable_widths@[i], Some(i as usize))) == cells,
                decreases rows - row,
            {
                proof {
                    lemma_rows(nn, cci, row as int);
                }
                let cnt = if row < q { cc } else { rem };
                let ghost pre = result@;
                let ghost here = Seq::new(row_len(nn, cci, row as int) as nat, |col: int| column_start(nn, cci, col) + row);
                let ghost rest = column_first_from(nn, cci, row as int + 1);
                proof {
                    assert(column_first_from(nn, cci, row as int) == here + rest);
                    assert((here + rest).map_values(|i: int| (renderable_widths@[i], Some(i as usize)))
                        =~= here.map_values(|i: int| (renderable_widths@[i], Some(i as usize)))
                            + rest.map_values(|i: int| (renderable_widths@[i], Some(i as usize))));
                }
                let mut col: usize = 0;
                let mut start: usize = 0;
                while col < cnt
                    invariant
                        n == renderable_widths@.len(),
                        nn == n,
                        cci == cc,
                        cc > 0,
                        q == n / cc,
                        rem == n % cc,
                        0 <= row < row_count(nn, cci),
                        cnt == row_len(nn, cci, row as int),
                        cnt <= cc,
                        col <= cnt,
                        start == column_start(nn, cci, col as int),
                        here == Seq::new(row_len(nn, cci, row as int) as nat, |c: int| column_start(nn, cci, c) + row),
                        forall|c: int| 0 <= c < row_len(nn, cci, row as int) ==> 0 <= #[trigger] column_start(nn, cci, c) + row < nn,
                        result@ == pre + here.take(col as int).map_values(|i: int| (renderable_widths@[i], Some(i as usize))),
                    decreases cnt - col,
                {
                    let idx = start + row;
                    assert(idx == column_start(nn, cci, col as int) + row);
                    result.push((renderable_widths[idx], Some(idx)));
                    proof {
                        lemma_column_start_step(nn, cci, col as int);
                        assert(here.take(col as int + 1) =~= here.take(col as int).push(idx as int));
                        assert(result@ =~= pre + here.take(col as int + 1).map_values(|i: int| (renderable_widths@[i], Some(i as usize))));
                    }
                    proof {
                        lemma_column_start_bound(nn, cci, col as int + 1);
                    }
                    let len = q + if col < rem { 1usize } else { 0usize };
                    start = start + len;
                    col = col + 1;
                }
                proof {
                    assert(here.take(col as int) =~= here);
                }
                row = row + 1;
            }
            proof {
                assert(column_first_from(nn, cci, row as int) =~= Seq::<int>::empty());
                assert(result@ =~= cells);
            }
        } else {
            let mut i: usize = 0;
            while i < n
                invariant
                    n == renderable_widths@.len(),
                    nn == n,
                    i <= n,
                    !self.column_first,
                    order == Seq::new(nn as nat, |k: int| k),
                    cells == order.map_values(|k: int| (renderable_widths@[k], Some(k as usize))),
                    result@ == cells.take(i as int),
                decreases n - i,
            {
                result.push((renderable_widths[i], Some(i)));
                i = i + 1;
                assert(result@ =~= cells.take(i as int));
            }
            assert(cells.take(n as int) =~= cells);
        }
        let ghost full = result@;
        let rem = n % cc;
        if rem != 0 {
            let pad = cc - rem;
            let mut k: usize = 0;
            while k < pad
                invariant
                    k <= pad,
                    result@ == full + Seq::new(k as nat, |_i: int| (0usize, Option::<usize>::None)),
                decreases pad - k,
            {
                result.push((0, None));
                k = k + 1;
                assert(result@ =~= full + Seq::new(k as nat, |_i: int| (0usize, Option::<usize>::None)));
            }
        } else {
            assert(result@ =~= full + Seq::new(0, |_i: int| (0usize, Option::<usize>::None)));
        }
        result
    }
}


proof fn lemma_shift_row(j: int, cc: int)
    requires
        cc > 0,
        j >= cc,
    ensures
        (j - cc) % cc == j % cc,
        (j - cc) / cc == j / cc - 1,
{
    lemma_fundamental_div_mod(j, cc);
    assert(j - cc == (j / cc - 1) * cc + j % cc) by (nonlinear_arith)
        requires
            j == cc * (j / cc) + j % cc;
    lemma_fundamental_div_mod_converse(j - cc, cc, j / cc - 1, j % cc);
}

proof fn lemma_column_first_index(n: int, cc: int, row: int)
    requires
        cc > 0,
        n >= 0,
        0 <= row <= n / cc,
    ensures
        column_first_from(n, cc, row).len() == n - row * cc,
        forall|j: int| 0 <= j < n - row * cc ==> #[trigger] column_first_from(n, cc, row)[j] == column_start(n, cc, j % cc) + row + j / cc,
    decreases n / cc - row,
{
    let q = n / cc;
    let r = n % cc;
    lemma_fundamental_div_mod(n, cc);
    assert(n - row * cc >= 0) by (nonlinear_arith)
        requires
            n == cc * q + r,
            r >= 0,
            row <= q,
            cc > 0;
    let s = column_first_from(n, cc, row);
    if row == q {
        assert(n - row * cc == r) by (nonlinear_arith)
            requires
                n == cc * q + r,
                row == q;
        if r > 0 {
            assert(row < row_count(n, cc));
            assert(column_first_from(n, cc, row + 1) =~= Seq::<int>::empty());
            assert forall|j: int| 0 <= j < n - row * cc implies #[trigger] s[j] == column_start(n, cc, j % cc) + row + j / cc by {
                lemma_fundamental_div_mod_converse(j, cc, 0, j);
            }
        } else {
            assert(row >= row_count(n, cc));
        }
    } else {
        lemma_column_first_index(n, cc, row + 1);
        assert(row + 1 <= q);
        assert(row < row_count(n, cc));
        assert(n - (row + 1) * cc == n - row * cc - cc) by (nonlinear_arith);
        let here = Seq::new(row_len(n, cc, row) as nat, |col: int| column_start(n, cc, col) + row);
        let rest = column_first_from(n, cc, row + 1);
        assert(s == here + rest);
        assert(here.len() == cc);
        assert forall|j: int| 0 <= j < n - row * cc implies #[trigger] s[j] == column_start(n, cc, j % cc) + row + j / cc by {
            if j < cc {
                lemma_fundamental_div_mod_converse(j, cc, 0, j);
            } else {
                lemma_shift_row(j, cc);
                assert(s[j] == rest[j - cc]);
            }
        }
    }
}

proof fn lemma_column_start_monotone(n: int, cc: int, c1: int, c2: int)
    requires
        cc > 0,
        n >= 0,
        0 <= c1 < c2,
    ensures
        column_start(n, cc, c1) + column_len(n, cc, c1) <= column_start(n, cc, c2),
{
    let q = n / cc;
    let r = n % cc;
    assert((c1 + 1) * q <= c2 * q) by (nonlinear_arith)
        requires
            c1 + 1 <= c2,
            q >= 0;
    assert((c1 + 1) * q == c1 * q + q) by (nonlinear_arith);
}

/// When the columns are filled first, every item appears exactly once: the
/// order holds `n` items, each below `n`, no two the same.
pub proof fn lemma_column_first_is_permutation(n: int, cc: int)
    requires
        cc > 0,
        n >= 0,
    ensures
        column_first_from(n, cc, 0).len() == n,
        forall|k: int| 0 <= k < n ==> 0 <= #[trigger] column_first_from(n, cc, 0)[k] < n,
        forall|j: int, k: int|
            0 <= j < k < n ==> #[trigger] column_first_from(n, cc, 0)[j] != #[trigger] column_first_from(n, cc, 0)[k],
{
    let s = column_first_from(n, cc, 0);
    let q = n / cc;
    let r = n % cc;
    lemma_fundamental_div_mod(n, cc);
    lemma_column_first_index(n, cc, 0);
    assert(0 * cc == 0);
    assert forall|k: int| 0 <= k < n implies 0 <= #[trigger] s[k] < n by {
        let c = k % cc;
        let row = k / cc;
        lemma_fundamental_div_mod(k, cc);
        assert(row * cc + c == k) by (nonlinear_arith)
            requires
                k == cc * row + c;
        assert(row < column_len(n, cc, c)) by (nonlinear_arith)
            requires
                k == cc * row + c,
                k < n,
                n == cc * q + r,
                0 <= c < cc,
                0 <= r < cc,
                row >= 0,
                column_len(n, cc, c) == q + if c < r { 1int } else { 0int };
        lemma_column_start_bound(n, cc, c + 1);
        lemma_column_start_step(n, cc, c);
        assert(0 <= c * q) by (nonlinear_arith)
            requires
                c >= 0,
                q >= 0;
    }
    assert forall|j: int, k: int| 0 <= j < k < n implies #[trigger] s[j] != #[trigger] s[k] by {
        let cj = j % cc;
        let rj = j / cc;
        let ck = k % cc;
        let rk = k / cc;
        lemma_fundamental_div_mod(j, cc);
        lemma_fundamental_div_mod(k, cc);
        assert(rj < column_len(n, cc, cj)) by (nonlinear_arith)
            requires
                j == cc * rj + cj,
                j < n,
                n == cc * q + r,
                0 <= cj < cc,
                0 <= r < cc,
                rj >= 0,
                column_len(n, cc, cj) == q + if cj < r { 1int } else { 0int };
        assert(rk < column_len(n, cc, ck)) by (nonlinear_arith)
            requires
                k == cc * rk + ck,
                k < n,
                n == cc * q + r,
                0 <= ck < cc,
                0 <= r < cc,
                rk >= 0,
                column_len(n, cc, ck) == q + if ck < r { 1int } else { 0int };
        if cj < ck {
            lemma_column_start_monotone(n, cc, cj, ck);
        } else if ck < cj {
            lemma_column_start_monotone(n, cc, ck, cj);
        } else {
            assert(rj != rk) by (nonlinear_arith)
                requires
                    j == cc * rj + cj,
                    k == cc * rk + ck,
                    cj == ck,
                    j != k;
        }
    }
}

} // verus!

verus! {

// ---------------------------------------------------------------------------
// Fitting the columns to the width
// ---------------------------------------------------------------------------

/// The largest of `s`, 0 for none.
pub open spec fn seq_max(s: Seq<usize>) -> usize
    decreases s.len(),
{
    if s.len() == 0 {
        0
    } else {
        let m = seq_max(s.drop_last());
        if s.last() > m {
            s.last()
        } else {
            m
        }
    }
}

/// The item widths the layout works with: with `equal`, every item as wide
/// as the widest.
pub open spec fn equalized(widths: Seq<usize>, equal: bool) -> Seq<usize> {
    if equal {
        Seq::new(widths.len(), |_i: int| seq_max(widths))
    } else {
        widths
    }
}

/// The space between two columns: the larger of the right and left padding.
pub open spec fn gap(padding: (usize, usize, usize, usize)) -> int {
    if padding.1 >= padding.3 {
        padding.1 as int
    } else {
        padding.3 as int
    }
}

/// The widest of the first `k` cells of `cells` that fall in column `c`
/// when the cells are dealt over `cc` columns in turn (0 for none).
pub open spec fn col_max(cells: Seq<(usize, Option<usize>)>, cc: int, k: int, c: int) -> int
    decreases k,
{
    if k <= 0 {
        0
    } else {
        let m = col_max(cells, cc, k - 1, c);
        if (k - 1) % cc == c && cells[k - 1].0 > m {
            cells[k - 1].0 as int
        } else {
            m
        }
    }
}

/// The sum of [`col_max`] over columns `0..upto`.
pub open spec fn cols_sum(cells: Seq<(usize, Option<usize>)>, cc: int, k: int, upto: int) -> int
    decreases upto,
{
    if upto <= 0 {
        0
    } else {
        cols_sum(cells, cc, k, upto - 1) + col_max(cells, cc, k, upto - 1)
    }
}

/// The width that the first `k` cells take over `cc` columns: the widest
/// cell of each column and the gaps between the columns reached.
pub open spec fn fill_width(cells: Seq<(usize, Option<usize>)>, cc: int, gap: int, k: int) -> int {
    cols_sum(cells, cc, k, cc) + gap * ((if k < cc { k } else { cc }) - 1)
}

/// The first `k` from `from` on (up to the number of cells) for which the
/// first `k` cells are wider than `max_width`.
pub open spec fn first_overflow(
    cells: Seq<(usize, Option<usize>)>,
    cc: int,
    gap: int,
    max_width: int,
    from: int,
) -> Option<int>
    decreases cells.len() + 1 - from,
{
    if from < 1 || from > cells.len() {
        None
    } else if fill_width(cells, cc, gap, from) > max_width {
        Some(from)
    } else {
        first_overflow(cells, cc, gap, max_width, from + 1)
    }
}

/// Fitting by trying `cc` columns: while there is more than one column, lay
/// the items out over them and deal the cells over the columns in turn; at
/// the first cell that makes the columns reached too wide, retry with one
/// column fewer than were reached; when all cells fit, keep `cc`.
pub open spec fn auto_fit(column_first: bool, widths: Seq<usize>, gap: int, max_width: int, cc: int) -> int
    decreases cc,
{
    if cc <= 1 {
        cc
    } else {
        match first_overflow(spec_layout(column_first, cc, widths), cc, gap, max_width, 1) {
            Some(k) => if k >= 1 {
                auto_fit(column_first, widths, gap, max_width, (if k < cc { k } else { cc }) - 1)
            } else {
                cc
            },
            None => cc,
        }
    }
}

/// The number of columns for items of the given widths in `max_width`
/// cells: with a fixed column width `w`, as many columns of `w` and a gap as
/// fit; else the auto-fitted count, starting from one column per item; at
/// least one either way.
pub open spec fn spec_fit_column_count(
    width: Option<usize>,
    padding: (usize, usize, usize, usize),
    column_first: bool,
    equal: bool,
    widths: Seq<usize>,
    max_width: usize,
) -> int {
    let n = match width {
        Some(w) => max_width as int / (w + gap(padding)),
        None => auto_fit(column_first, equalized(widths, equal), gap(padding), max_width as int, widths.len() as int),
    };
    if n == 0 {
        1
    } else {
        n
    }
}

proof fn lemma_col_max_nonneg(cells: Seq<(usize, Option<usize>)>, cc: int, k: int, c: int)
    ensures
        0 <= col_max(cells, cc, k, c) <= usize::MAX,
    decreases k,
{
    if k > 0 {
        lemma_col_max_nonneg(cells, cc, k - 1, c);
    }
}

/// Taking one more cell changes the column sums only in its own column.
proof fn lemma_cols_sum_step(cells: Seq<(usize, Option<usize>)>, cc: int, k: int, upto: int)
    requires
        cc > 0,
        k >= 0,
        0 <= upto <= cc,
    ensures
        cols_sum(cells, cc, k + 1, upto) == cols_sum(cells, cc, k, upto) + if k % cc < upto {
            col_max(cells, cc, k + 1, k % cc) - col_max(cells, cc, k, k % cc)
        } else {
            0
        },
    decreases upto,
{
    if upto > 0 {
        lemma_cols_sum_step(cells, cc, k, upto - 1);
        assert(col_max(cells, cc, k + 1, upto - 1) == if k % cc == upto - 1 && cells[k].0 > col_max(cells, cc, k, upto - 1) {
            cells[k].0 as int
        } else {
            col_max(cells, cc, k, upto - 1)
        });
    }
}

proof fn lemma_cols_sum_zero(cells: Seq<(usize, Option<usize>)>, cc: int, upto: int)
    ensures
        cols_sum(cells, cc, 0, upto) == 0,
    decreases upto,
{
    if upto > 0 {
        lemma_cols_sum_zero(cells, cc, upto - 1);
    }
}

proof fn lemma_cols_sum_nonneg(cells: Seq<(usize, Option<usize>)>, cc: int, k: int, upto: int)
    ensures
        cols_sum(cells, cc, k, upto) >= 0,
    decreases upto,
{
    if upto > 0 {
        lemma_cols_sum_nonneg(cells, cc, k, upto - 1);
        lemma_col_max_nonneg(cells, cc, k, upto - 1);
    }
}

/// The first count of cells that overflows `max_width`; see
/// [`first_overflow`].
fn overflow_at(cells: &Vec<(usize, Option<usize>)>, cc: usize, gap: usize, max_width: usize) -> (r: Option<usize>)
    requires
        cc > 0,
    ensures
        match r {
            Some(k) => first_overflow(cells@, cc as int, gap as int, max_width as int, 1) == Some(k as int),
            None => first_overflow(cells@, cc as int, gap as int, max_width as int, 1) is None,
        },
{
    let ghost s = cells@;
    let mut colmax: Vec<usize> = Vec::new();
    let mut c: usize = 0;
    while c < cc
        invariant
            c <= cc,
            colmax@.len() == c,
            forall|j: int| 0 <= j < c ==> colmax@[j] == 0,
        decreases cc - c,
    {
        colmax.push(0);
        c = c + 1;
    }
    let mut sum: u128 = 0;
    let mut k: usize = 0;
    proof {
        lemma_cols_sum_zero(s, cc as int, cc as int);
    }
    while k < cells.len()
        invariant
            cc > 0,
            s == cells@,
            k <= s.len(),
            colmax@.len() == cc,
            forall|j: int| 0 <= j < cc ==> colmax@[j] == col_max(s, cc as int, k as int, j),
            sum == cols_sum(s, cc as int, k as int, cc as int),
            sum <= max_width,
            first_overflow(s, cc as int, gap as int, max_width as int, 1) == first_overflow(
                s,
                cc as int,
                gap as int,
                max_width as int,
                k + 1,
            ),
        decreases s.len() - k,
    {
        let col = k % cc;
        let w = cells[k].0;
        let old = colmax[col];
        proof {
            lemma_cols_sum_step(s, cc as int, k as int, cc as int);
            assert(col_max(s, cc as int, k + 1, col as int) == if w > old { w as int } else { old as int });
            assert forall|j: int| 0 <= j < cc && j != col implies col_max(s, cc as int, k + 1, j) == colmax@[j] by {
                assert(col_max(s, cc as int, k + 1, j) == col_max(s, cc as int, k as int, j));
            }
        }
        if w > old {
            sum = sum + (w - old) as u128;
            colmax.set(col, w);
        }
        let seen: usize = if k + 1 < cc { k + 1 } else { cc };
        proof {
            assert(usize::MAX <= 0xffff_ffff_ffff_ffff);
            let g = gap as int;
            let t = (seen - 1) as int;
            assert(g * t <= 0xffff_ffff_ffff_ffff * 0xffff_ffff_ffff_ffff) by (nonlinear_arith)
                requires
                    0 <= g <= 0xffff_ffff_ffff_ffff,
                    0 <= t <= 0xffff_ffff_ffff_ffff,
            ;
            assert(0 <= g * t) by (nonlinear_arith)
                requires
                    0 <= g,
                    0 <= t,
            ;
        }
        let total: u128 = sum + (gap as u128) * ((seen - 1) as u128);
        proof {
            assert(total == fill_width(s, cc as int, gap as int, k + 1));
        }
        if total > max_width as u128 {
            return Some(k + 1);
        }
        proof {
            lemma_cols_sum_nonneg(s, cc as int, k + 1, cc as int);
            assert(0 <= (gap as int) * ((seen - 1) as int)) by (nonlinear_arith)
                requires
                    gap >= 0,
                    seen >= 1,
            ;
        }
        k = k + 1;
    }
    None
}

/// The widths with every one the widest when `equal`.
fn equalize(widths: &[usize], equal: bool) -> (r: Vec<usize>)
    ensures
        r@ == equalized(widths@, equal),
{
    let mut r: Vec<usize> = Vec::new();
    let mut i: usize = 0;
    if !equal {
        while i < widths.len()
            invariant
                i <= widths@.len(),
                r@ =~= widths@.take(i as int),
            decreases widths@.len() - i,
        {
            r.push(widths[i]);
            i = i + 1;
            assert(r@ =~= widths@.take(i as int));
        }
        assert(widths@.take(widths@.len() as int) =~= widths@);
        return r;
    }
    let mut m: usize = 0;
    assert(widths@.take(0) =~= Seq::<usize>::empty());
    while i < widths.len()
        invariant
            i <= widths@.len(),
            m == seq_max(widths@.take(i as int)),
        decreases widths@.len() - i,
    {
        proof {
            assert(widths@.take(i + 1).drop_last() =~= widths@.take(i as int));
            assert(widths@.take(i + 1).last() == widths@[i as int]);
        }
        if widths[i] > m {
            m = widths[i];
        }
        i = i + 1;
    }
    assert(widths@.take(widths@.len() as int) =~= widths@);
    let mut j: usize = 0;
    while j < widths.len()
        invariant
            j <= widths@.len(),
            m == seq_max(widths@),
            r@ =~= Seq::new(j as nat, |_i: int| seq_max(widths@)),
        decreases widths@.len() - j,
    {
        r.push(m);
        j = j + 1;
        assert(r@ =~= Seq::new(j as nat, |_i: int| seq_max(widths@)));
    }
    r
}

impl Columns {
    /// How many columns the items get in `max_width` cells, given the
    /// items' measured widths; see [`spec_fit_column_count`]. A fixed
    /// column width and the gap must not both be 0 (the count would divide
    /// by zero) and must fit together in a `usize`.
    pub fn fit_column_count(&self, renderable_widths: &[usize], max_width: usize) -> (n: usize)
        requires
            self.width matches Some(w) ==> 0 < w + gap(self.padding) <= usize::MAX,
        ensures
            n >= 1,
            n == spec_fit_column_count(
                self.width,
                self.padding,
                self.column_first,
                self.equal,
                renderable_widths@,
                max_width,
            ),
    {
        let gap: usize = if self.padding.1 >= self.padding.3 { self.padding.1 } else { self.padding.3 };
        let count: usize = match self.width {
            Some(w) => max_width / (w + gap),
            None => {
                let widths = equalize(renderable_widths, self.equal);
                let ghost ws = widths@;
                let ghost n0 = renderable_widths@.len() as int;
                let mut cc: usize = widths.len();
                loop
                    invariant_except_break
                        ws == widths@,
                        auto_fit(self.column_first, ws, gap as int, max_width as int, n0)
                            == auto_fit(self.column_first, ws, gap as int, max_width as int, cc as int),
                    ensures
                        auto_fit(self.column_first, ws, gap as int, max_width as int, n0) == cc,
                    decreases cc,
                {
                    if cc <= 1 {
                        break;
                    }
                    let cells = self.iter_renderables(cc, widths.as_slice());
                    match overflow_at(&cells, cc, gap, max_width) {
                        Some(k) => {
                            proof {
                                lemma_first_overflow_at_least(cells@, cc as int, gap as int, max_width as int, 1);
                            }
                            cc = (if k < cc { k } else { cc }) - 1;
                        },
                        None => {
                            break;
                        },
                    }
                }
                cc
            },
        };
        if count == 0 {
            1
        } else {
            count
        }
    }
}

/// The items of `cells` (`None` for an empty cell) cut into rows of `cc`,
/// the last one possibly shorter; with `right_to_left` each row is reversed.
pub open spec fn chunk_rows(cells: Seq<Option<usize>>, cc: int, right_to_left: bool) -> Seq<Seq<Option<usize>>>
    decreases cells.len(),
{
    if cells.len() == 0 || cc <= 0 {
        Seq::empty()
    } else {
        let k = if cc < cells.len() { cc } else { cells.len() as int };
        let row = cells.take(k);
        seq![if right_to_left { row.reverse() } else { row }] + chunk_rows(cells.skip(k), cc, right_to_left)
    }
}

/// The rows of the layout over `cc` columns: the items of
/// [`spec_layout`]'s cells, row by row.
pub open spec fn spec_rows(column_first: bool, right_to_left: bool, cc: int, widths: Seq<usize>) -> Seq<Seq<Option<usize>>> {
    chunk_rows(spec_layout(column_first, cc, widths).map_values(|c: (usize, Option<usize>)| c.1), cc, right_to_left)
}

impl Columns {
    /// The rows of the grid over `column_count` columns: the item in each
    /// cell (`None` for an empty one), reversed within each row when
    /// `right_to_left`; see [`spec_rows`].
    pub fn rows(&self, column_count: usize, renderable_widths: &[usize]) -> (r: Vec<Vec<Option<usize>>>)
        requires
            column_count > 0,
        ensures
            r@.len() == spec_rows(self.column_first, self.right_to_left, column_count as int, renderable_widths@).len(),
            forall|i: int| 0 <= i < r@.len() ==> (#[trigger] r@[i])@ == spec_rows(
                self.column_first,
                self.right_to_left,
                column_count as int,
                renderable_widths@,
            )[i],
    {
        let cells = self.iter_renderables(column_count, renderable_widths);
        let ghost items = cells@.map_values(|c: (usize, Option<usize>)| c.1);
        let ghost all = chunk_rows(items, column_count as int, self.right_to_left);
        let mut rows: Vec<Vec<Option<usize>>> = Vec::new();
        let mut start: usize = 0;
        assert(items.skip(0) =~= items);
        while start < cells.len()
            invariant
                column_count > 0,
                start <= cells@.len(),
                items.len() == cells@.len(),
                items == cells@.map_values(|c: (usize, Option<usize>)| c.1),
                all == chunk_rows(items, column_count as int, self.right_to_left),
                rows@.len() + chunk_rows(items.skip(start as int), column_count as int, self.right_to_left).len() == all.len(),
                forall|i: int| 0 <= i < rows@.len() ==> (#[trigger] rows@[i])@ == all[i],
                forall|i: int| 0 <= i < chunk_rows(items.skip(start as int), column_count as int, self.right_to_left).len()
                    ==> chunk_rows(items.skip(start as int), column_count as int, self.right_to_left)[i] == all[rows@.len() + i],
            decreases cells@.len() - start,
        {
            let end = if column_count < cells.len() - start { start + column_count } else { cells.len() };
            let mut row: Vec<Option<usize>> = Vec::new();
            let mut j: usize = start;
            while j < end
                invariant
                    start <= j <= end,
                    end <= cells@.len(),
                    items.len() == cells@.len(),
                    items == cells@.map_values(|c: (usize, Option<usize>)| c.1),
                    row@ =~= items.subrange(start as int, j as int),
                decreases end - j,
            {
                row.push(cells[j].1);
                j = j + 1;
                assert(row@ =~= items.subrange(start as int, j as int));
            }
            let ghost plain = row@;
            if self.right_to_left {
                let mut rev: Vec<Option<usize>> = Vec::new();
                let mut t: usize = row.len();
                while t > 0
                    invariant
                        t <= plain.len(),
                        row@ == plain,
                        rev@ =~= plain.reverse().take((plain.len() - t) as int),
                    decreases t,
                {
                    t = t - 1;
                    rev.push(row[t]);
                    assert(rev@ =~= plain.reverse().take((plain.len() - t) as int));
                }
                assert(plain.reverse().take(plain.len() as int) =~= plain.reverse());
                row = rev;
            }
            let ghost rest = items.skip(start as int);
            let ghost tail = chunk_rows(items.skip(end as int), column_count as int, self.right_to_left);
            let ghost before = rows@;
            proof {
                let k = (end - start) as int;
                assert(rest.take(k) =~= plain);
                assert(rest.skip(k) =~= items.skip(end as int));
                assert(chunk_rows(rest, column_count as int, self.right_to_left) =~= seq![row@] + tail);
            }
            let ghost rv = row@;
            rows.push(row);
            proof {
                let cr = chunk_rows(rest, column_count as int, self.right_to_left);
                assert(cr[0] == rv);
                assert(cr[0] == all[before.len() as int + 0]);
                assert(all[before.len() as int] == rv);
                assert forall|i: int| 0 <= i < rows@.len() implies (#[trigger] rows@[i])@ == all[i] by {
                    if i < before.len() {
                        assert(rows@[i] == before[i]);
                    }
                }
                assert forall|i: int| 0 <= i < tail.len() implies tail[i] == all[rows@.len() + i] by {
                    assert(tail[i] == chunk_rows(rest, column_count as int, self.right_to_left)[i + 1]);
                }
            }
            start = end;
        }
        rows
    }
}

/// What [`first_overflow`] finds lies at or after where it starts.
proof fn lemma_first_overflow_at_least(
    cells: Seq<(usize, Option<usize>)>,
    cc: int,
    gap: int,
    max_width: int,
    from: int,
)
    ensures
        first_overflow(cells, cc, gap, max_width, from) matches Some(k) ==> from <= k,
    decreases cells.len() + 1 - from,
{
    if from >= 1 && from <= cells.len() {
        lemma_first_overflow_at_least(cells, cc, gap, max_width, from + 1);
    }
}

} // verus!

verus! {

/// With a fixed column width `w` and a gap of `g` cells between columns,
/// the column count `n` is at least 1 and is the largest count whose
/// columns, each followed by a gap, fit in `max_width`: `n` of them fit
/// (unless `n` is the minimum 1) and `n + 1` do not. In particular, more
/// than one column is chosen only where the columns and the gaps between
/// them fit: `n·w + (n − 1)·g <= max_width`.
pub proof fn lemma_fixed_width_column_count(
    w: usize,
    padding: (usize, usize, usize, usize),
    column_first: bool,
    equal: bool,
    widths: Seq<usize>,
    max_width: usize,
)
    requires
        0 < w + gap(padding),
    ensures
        ({
            let n = spec_fit_column_count(Some(w), padding, column_first, equal, widths, max_width);
            let g = gap(padding);
            &&& n >= 1
            &&& (n == 1 || n * (w + g) <= max_width)
            &&& (n + 1) * (w + g) > max_width
            &&& (n > 1 ==> n * w + (n - 1) * g <= max_width)
        }),
{
    let g = gap(padding);
    let d = w + g;
    let m = max_width as int;
    let q = m / d;
    let n = spec_fit_column_count(Some(w), padding, column_first, equal, widths, max_width);
    assert(0 <= g);
    assert(q * d <= m && m < (q + 1) * d && q >= 0) by (nonlinear_arith)
        requires
            d > 0,
            m >= 0,
            q == m / d,
    ;
    assert(n == if q == 0 { 1 } else { q });
    if q == 0 {
        assert((n + 1) * d == 2 * d);
    } else {
        assert(n * w + (n - 1) * g <= n * d) by (nonlinear_arith)
            requires
                n >= 1,
                g >= 0,
                d == w + g,
        ;
    }
}

} // verus!
