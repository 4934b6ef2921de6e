//! A dot-matrix canvas for terminal graphics. Each terminal cell holds a small
//! grid of pixels whose on/off bits are drawn as one Unicode glyph; the
//! [`Blitter`] decides the grid size and the glyph set.

use vstd::prelude::*;
use crate::strutil::{char_from_u32, string_from_chars};
use vstd::math::abs;
use crate::octant::{octant_bits_to_char, octant_glyph};

verus! {

/// Sub-cell pixel rendering mode of a [`Canvas`].
///
/// | Variant     | Pixels per cell (w×h) | Glyphs                         |
/// |-------------|-----------------------|--------------------------------|
/// | `Braille`   | 2 × 4                 | U+2800 Braille patterns        |
/// | `Sextant`   | 2 × 3                 | U+1FB00 legacy sextants        |
/// | `HalfBlock` | 1 × 2                 | U+2580..U+2588 block elements  |
/// | `Octant`    | 2 × 4                 | U+1CD00 octants (Unicode 16)   |
#[derive(Debug, Clone, Copy, PartialEq, Eq, Hash, Default, Structural)]
pub enum Blitter {
    /// 2×4 Braille patterns (the default).
    #[default]
    Braille,
    /// 2×3 sextants.
    Sextant,
    /// 1×2 half blocks.
    HalfBlock,
    /// 2×4 octants.
    Octant,
}

/// What a canvas is: its size in terminal cells, its blitter, the pixel
/// bits of each cell, row by row, and the style of its rendered text (by its
/// definition; empty for none).
pub struct CanvasModel {
    pub width: usize,
    pub height: usize,
    pub blitter: Blitter,
    pub cells: Seq<Seq<u8>>,
    pub style: Seq<char>,
}

/// Pixel columns per cell.
pub open spec fn cell_cols(b: Blitter) -> int {
    match b {
        Blitter::HalfBlock => 1,
        _ => 2,
    }
}

/// Pixel rows per cell.
pub open spec fn cell_rows(b: Blitter) -> int {
    match b {
        Blitter::Braille | Blitter::Octant => 4,
        Blitter::Sextant => 3,
        Blitter::HalfBlock => 2,
    }
}

/// The bit of a cell that holds the pixel at column `dx`, row `dy` of the
/// cell. Braille follows the dot numbering of U+2800 (dots 1-3 and 7 down
/// the left column, 4-6 and 8 down the right); the other blitters are
/// row-major (`bit = dy * 2 + dx`, or `dy` for half blocks).
pub open spec fn cell_mask(b: Blitter, dx: int, dy: int) -> u8 {
    match b {
        Blitter::Braille => if dx == 0 {
            if dy == 0 { 0x01u8 } else if dy == 1 { 0x02u8 } else if dy == 2 { 0x04u8 } else { 0x40u8 }
        } else {
            if dy == 0 { 0x08u8 } else if dy == 1 { 0x10u8 } else if dy == 2 { 0x20u8 } else { 0x80u8 }
        },
        Blitter::HalfBlock => if dy == 0 { 0x01u8 } else { 0x02u8 },
        _ => if dy == 0 {
            if dx == 0 { 0x01u8 } else { 0x02u8 }
        } else if dy == 1 {
            if dx == 0 { 0x04u8 } else { 0x08u8 }
        } else if dy == 2 {
            if dx == 0 { 0x10u8 } else { 0x20u8 }
        } else {
            if dx == 0 { 0x40u8 } else { 0x80u8 }
        },
    }
}

/// Horizontal resolution in pixels.
pub open spec fn model_pixel_width(m: CanvasModel) -> int {
    m.width * cell_cols(m.blitter)
}

/// Vertical resolution in pixels.
pub open spec fn model_pixel_height(m: CanvasModel) -> int {
    m.height * cell_rows(m.blitter)
}

/// Whether pixel `(x, y)` lies on the canvas.
pub open spec fn in_bounds(m: CanvasModel, x: int, y: int) -> bool {
    0 <= x < model_pixel_width(m) && 0 <= y < model_pixel_height(m)
}

/// Cell column, cell row and bit of the pixel `(x, y)`, if it lies on the canvas.
pub open spec fn pixel_address(m: CanvasModel, x: int, y: int) -> Option<(usize, usize, u8)> {
    if in_bounds(m, x, y) {
        let cols = cell_cols(m.blitter);
        let rows = cell_rows(m.blitter);
        Some(((x / cols) as usize, (y / rows) as usize, cell_mask(m.blitter, x % cols, y % rows)))
    } else {
        None
    }
}

/// A canvas is well formed when its cell grid has `height` rows of `width`
/// cells and its pixel resolution fits in `usize`.
pub open spec fn model_wf(m: CanvasModel) -> bool {
    &&& m.cells.len() == m.height
    &&& forall|r: int| 0 <= r < m.height ==> #[trigger] m.cells[r].len() == m.width
    &&& m.width <= usize::MAX / 2
    &&& m.height <= usize::MAX / 4
}

/// Whether pixel `(x, y)` is on.
pub open spec fn model_lit(m: CanvasModel, x: int, y: int) -> bool {
    match pixel_address(m, x, y) {
        Some((col, row, bit)) => m.cells[row as int][col as int] & bit != 0,
        None => false,
    }
}

/// `m` with the cell at `(row, col)` replaced by `v`.
pub open spec fn with_cell(m: CanvasModel, row: int, col: int, v: u8) -> CanvasModel {
    CanvasModel { cells: m.cells.update(row, m.cells[row].update(col, v)), ..m }
}

/// `m` after turning pixel `(x, y)` on; nothing changes off the canvas.
pub open spec fn model_set(m: CanvasModel, x: int, y: int) -> CanvasModel {
    match pixel_address(m, x, y) {
        Some((col, row, bit)) => with_cell(m, row as int, col as int, m.cells[row as int][col as int] | bit),
        None => m,
    }
}

/// `m` after turning pixel `(x, y)` off; nothing changes off the canvas.
pub open spec fn model_unset(m: CanvasModel, x: int, y: int) -> CanvasModel {
    match pixel_address(m, x, y) {
        Some((col, row, bit)) => with_cell(m, row as int, col as int, m.cells[row as int][col as int] & !bit),
        None => m,
    }
}

/// `m` after flipping pixel `(x, y)`; nothing changes off the canvas.
pub open spec fn model_toggle(m: CanvasModel, x: int, y: int) -> CanvasModel {
    match pixel_address(m, x, y) {
        Some((col, row, bit)) => with_cell(m, row as int, col as int, m.cells[row as int][col as int] ^ bit),
        None => m,
    }
}

/// A dot-matrix canvas for terminal graphics, sized in terminal cells.
#[derive(Debug, Clone)]
pub struct Canvas {
    width: usize,
    height: usize,
    pixels: Vec<Vec<u8>>,
    blitter: Blitter,
    style: String,
}

impl View for Canvas {
    type V = CanvasModel;

    closed spec fn view(&self) -> CanvasModel {
        CanvasModel {
            width: self.width,
            height: self.height,
            blitter: self.blitter,
            cells: self.pixels@.map_values(|r: Vec<u8>| r@),
            style: self.style@,
        }
    }
}

proof fn lemma_div_below(x: int, k: int, n: int)
    by (nonlinear_arith)
    requires
        0 <= x < n * k,
        k > 0,
    ensures
        x / k < n,
{
}

fn braille_bit(dx: usize, dy: usize) -> (b: u8)
    requires
        dx < 2,
        dy < 4,
    ensures
        b == cell_mask(Blitter::Braille, dx as int, dy as int),
{
    if dx == 0 {
        if dy == 0 { 0x01 } else if dy == 1 { 0x02 } else if dy == 2 { 0x04 } else { 0x40 }
    } else {
        if dy == 0 { 0x08 } else if dy == 1 { 0x10 } else if dy == 2 { 0x20 } else { 0x80 }
    }
}

fn row_major_bit(dx: usize, dy: usize) -> (b: u8)
    requires
        dx < 2,
        dy < 4,
    ensures
        b == cell_mask(Blitter::Octant, dx as int, dy as int),
        b == cell_mask(Blitter::Sextant, dx as int, dy as int),
{
    if dy == 0 {
        if dx == 0 { 0x01 } else { 0x02 }
    } else if dy == 1 {
        if dx == 0 { 0x04 } else { 0x08 }
    } else if dy == 2 {
        if dx == 0 { 0x10 } else { 0x20 }
    } else {
        if dx == 0 { 0x40 } else { 0x80 }
    }
}

impl Canvas {
    /// Well formed: see [`model_wf`].
    pub open spec fn wf(&self) -> bool {
        model_wf(self@)
    }

    /// A new empty canvas of `width` columns and `height` rows, drawn with
    /// Braille patterns.
    pub fn new(width: usize, height: usize) -> (c: Canvas)
        requires
            width <= usize::MAX / 2,
            height <= usize::MAX / 4,
        ensures
            c.wf(),
            c@ == (CanvasModel {
                width,
                height,
                blitter: Blitter::Braille,
                cells: blank_cells(width, height),
                style: Seq::<char>::empty(),
            }),
            c.style_text() == Seq::<char>::empty(),
    {
        let mut pixels: Vec<Vec<u8>> = Vec::new();
        let mut r: usize = 0;
        while r < height
            invariant
                r <= height,
                pixels@.len() == r,
                forall|i: int| 0 <= i < r ==> #[trigger] pixels@[i]@ == Seq::new(width as nat, |_k: int| 0u8),
            decreases height - r,
        {
            let mut row: Vec<u8> = Vec::new();
            let mut k: usize = 0;
            while k < width
                invariant
                    k <= width,
                    row@ == Seq::new(k as nat, |_j: int| 0u8),
                decreases width - k,
            {
                row.push(0);
                k = k + 1;
                assert(row@ =~= Seq::new(k as nat, |_j: int| 0u8));
            }
            pixels.push(row);
            r = r + 1;
        }
        let c = Canvas { width, height, pixels, blitter: Blitter::Braille, style: String::new() };
        assert(c@.cells =~= blank_cells(width, height));
        c
    }

    /// The same canvas drawn with another blitter; the cell bits are kept.
    pub fn with_blitter(self, blitter: Blitter) -> (c: Canvas)
        requires
            self.wf(),
        ensures
            c.wf(),
            c@ == (CanvasModel { blitter, ..self@ }),
            c.style_text() == self.style_text(),
    {
        Canvas { blitter, ..self }
    }

    /// The style of the rendered text, by its definition (empty: none).
    pub closed spec fn style_text(&self) -> Seq<char> {
        self.style@
    }

    /// The same canvas with another style for its rendered text, given by
    /// its definition.
    pub fn with_style(self, style: &str) -> (c: Canvas)
        requires
            self.wf(),
        ensures
            c.wf(),
            c@ == (CanvasModel { style: style@, ..self@ }),
            c.style_text() == style@,
    {
        Canvas { style: String::from_str(style), ..self }
    }

    /// The style of the rendered text, by its definition.
    pub fn style(&self) -> (s: &str)
        ensures
            s@ == self.style_text(),
    {
        self.style.as_str()
    }

    /// Horizontal resolution: columns times pixel columns per cell.
    pub fn pixel_width(&self) -> (w: usize)
        requires
            self.wf(),
        ensures
            w == model_pixel_width(self@),
    {
        match self.blitter {
            Blitter::HalfBlock => self.width,
            _ => self.width * 2,
        }
    }

    /// Vertical resolution: rows times pixel rows per cell.
    pub fn pixel_height(&self) -> (h: usize)
        requires
            self.wf(),
        ensures
            h == model_pixel_height(self@),
    {
        match self.blitter {
            Blitter::Braille | Blitter::Octant => self.height * 4,
            Blitter::Sextant => self.height * 3,
            Blitter::HalfBlock => self.height * 2,
        }
    }

    fn address(&self, x: usize, y: usize) -> (r: Option<(usize, usize, u8)>)
        requires
            self.wf(),
        ensures
            r == pixel_address(self@, x as int, y as int),
            r matches Some((col, row, _bit)) ==> row < self@.height && col < self@.width,
    {
        if x >= self.pixel_width() || y >= self.pixel_height() {
            return None;
        }
        proof {
            let cols = cell_cols(self.blitter);
            let rows = cell_rows(self.blitter);
            lemma_div_below(x as int, cols, self.width as int);
            lemma_div_below(y as int, rows, self.height as int);
        }
        match self.blitter {
            Blitter::Braille => Some((x / 2, y / 4, braille_bit(x % 2, y % 4))),
            Blitter::Octant => Some((x / 2, y / 4, row_major_bit(x % 2, y % 4))),
            Blitter::Sextant => Some((x / 2, y / 3, row_major_bit(x % 2, y % 3))),
            Blitter::HalfBlock => {
                let bit: u8 = if y % 2 == 0 { 0x01 } else { 0x02 };
                Some((x, y / 2, bit))
            },
        }
    }

    /// Turn pixel `(x, y)` on; coordinates off the canvas are ignored.
    pub fn set(&mut self, x: usize, y: usize)
        requires
            old(self).wf(),
        ensures
            final(self).wf(),
            final(self)@ == model_set(old(self)@, x as int, y as int),
    {
        if let Some((col, row, bit)) = self.address(x, y) {
            let v = self.pixels[row][col] | bit;
            self.store(row, col, v);
        }
    }

    fn store(&mut self, row: usize, col: usize, v: u8)
        requires
            old(self).wf(),
            row < old(self)@.height,
            col < old(self)@.width,
        ensures
            final(self).wf(),
            final(self)@ == with_cell(old(self)@, row as int, col as int, v),
    {
        let ghost before = self@;
        self.pixels[row].set(col, v);
        proof {
            let after = with_cell(before, row as int, col as int, v);
            assert(self@.cells =~= after.cells);
        }
    }
}


impl Canvas {
    /// Turn pixel `(x, y)` off; coordinates off the canvas are ignored.
    pub fn unset(&mut self, x: usize, y: usize)
        requires
            old(self).wf(),
        ensures
            final(self).wf(),
            final(self)@ == model_unset(old(self)@, x as int, y as int),
    {
        if let Some((col, row, bit)) = self.address(x, y) {
            let v = self.pixels[row][col] & !bit;
            self.store(row, col, v);
        }
    }

    /// Flip pixel `(x, y)`; coordinates off the canvas are ignored.
    pub fn toggle(&mut self, x: usize, y: usize)
        requires
            old(self).wf(),
        ensures
            final(self).wf(),
            final(self)@ == model_toggle(old(self)@, x as int, y as int),
    {
        if let Some((col, row, bit)) = self.address(x, y) {
            let v = self.pixels[row][col] ^ bit;
            self.store(row, col, v);
        }
    }

    /// Whether pixel `(x, y)` is on; `false` off the canvas.
    pub fn get(&self, x: usize, y: usize) -> (b: bool)
        requires
            self.wf(),
        ensures
            b == model_lit(self@, x as int, y as int),
    {
        match self.address(x, y) {
            Some((col, row, bit)) => {
                assert(self@.cells[row as int] == self.pixels@[row as int]@);
                self.pixels[row][col] & bit != 0
            },
            None => false,
        }
    }
}

/// One of the eight single-bit masks.
pub open spec fn single_bit(m: u8) -> bool {
    m == 1 || m == 2 || m == 4 || m == 8 || m == 16 || m == 32 || m == 64 || m == 128
}

proof fn lemma_bits(v: u8, a: u8, b: u8)
    requires
        single_bit(a),
        single_bit(b),
    ensures
        (v | a) & a != 0,
        (v & !a) & a == 0,
        ((v ^ a) & a != 0) == !(v & a != 0),
        (v ^ a) ^ a == v,
        a != b ==> (((v | a) & b != 0) == (v & b != 0)),
        a != b ==> (((v & !a) & b != 0) == (v & b != 0)),
        a != b ==> (((v ^ a) & b != 0) == (v & b != 0)),
{
    assert((v | a) & a != 0) by (bit_vector)
        requires
            a == 1 || a == 2 || a == 4 || a == 8 || a == 16 || a == 32 || a == 64 || a == 128;
    assert((v & !a) & a == 0) by (bit_vector);
    assert(((v ^ a) & a != 0) == !(v & a != 0)) by (bit_vector)
        requires
            a == 1 || a == 2 || a == 4 || a == 8 || a == 16 || a == 32 || a == 64 || a == 128;
    assert((v ^ a) ^ a == v) by (bit_vector);
    assert(a != b ==> (((v | a) & b != 0) == (v & b != 0))
        && (((v & !a) & b != 0) == (v & b != 0))
        && (((v ^ a) & b != 0) == (v & b != 0))) by (bit_vector)
        requires
            a == 1 || a == 2 || a == 4 || a == 8 || a == 16 || a == 32 || a == 64 || a == 128,
            b == 1 || b == 2 || b == 4 || b == 8 || b == 16 || b == 32 || b == 64 || b == 128;
}

proof fn lemma_address(m: CanvasModel, x: int, y: int)
    requires
        model_wf(m),
        in_bounds(m, x, y),
    ensures
        pixel_address(m, x, y) matches Some((col, row, bit)) && row < m.height && col < m.width
            && single_bit(bit) && row == y / cell_rows(m.blitter) && col == x / cell_cols(m.blitter),
{
    lemma_div_below(x, cell_cols(m.blitter), m.width as int);
    lemma_div_below(y, cell_rows(m.blitter), m.height as int);
}

/// Two pixels of the canvas with the same cell and bit are the same pixel.
pub proof fn lemma_address_injective(m: CanvasModel, x1: int, y1: int, x2: int, y2: int)
    requires
        model_wf(m),
        in_bounds(m, x1, y1),
        in_bounds(m, x2, y2),
        pixel_address(m, x1, y1) == pixel_address(m, x2, y2),
    ensures
        x1 == x2 && y1 == y2,
{
    lemma_address(m, x1, y1);
    lemma_address(m, x2, y2);
    let c = cell_cols(m.blitter);
    let r = cell_rows(m.blitter);
    assert(x1 == c * (x1 / c) + x1 % c) by (nonlinear_arith) requires c > 0;
    assert(x2 == c * (x2 / c) + x2 % c) by (nonlinear_arith) requires c > 0;
    assert(y1 == r * (y1 / r) + y1 % r) by (nonlinear_arith) requires r > 0;
    assert(y2 == r * (y2 / r) + y2 % r) by (nonlinear_arith) requires r > 0;
}

proof fn lemma_cell_update(m: CanvasModel, row: int, col: int, v: u8, r2: int, c2: int)
    requires
        model_wf(m),
        0 <= row < m.height,
        0 <= col < m.width,
        0 <= r2 < m.height,
        0 <= c2 < m.width,
    ensures
        model_wf(with_cell(m, row, col, v)),
        with_cell(m, row, col, v).cells[r2][c2] == if r2 == row && c2 == col {
            v
        } else {
            m.cells[r2][c2]
        },
{
    let n = with_cell(m, row, col, v);
    assert forall|r: int| 0 <= r < n.height implies #[trigger] n.cells[r].len() == n.width by {
        if r != row {
            assert(n.cells[r] == m.cells[r]);
        }
    }
}

/// Setting a pixel turns it on (when it lies on the canvas) and leaves every
/// other pixel as it was.
pub proof fn lemma_set_lit(m: CanvasModel, x: int, y: int, x2: int, y2: int)
    requires
        model_wf(m),
    ensures
        model_wf(model_set(m, x, y)),
        model_lit(model_set(m, x, y), x2, y2) == (model_lit(m, x2, y2) || (x2 == x && y2 == y
            && in_bounds(m, x, y))),
{
    if in_bounds(m, x, y) {
        lemma_address(m, x, y);
        let (col, row, bit) = pixel_address(m, x, y).unwrap();
        let v = m.cells[row as int][col as int];
        lemma_cell_update(m, row as int, col as int, v | bit, 0, 0);
        if in_bounds(m, x2, y2) {
            lemma_address(m, x2, y2);
            let (col2, row2, bit2) = pixel_address(m, x2, y2).unwrap();
            lemma_cell_update(m, row as int, col as int, v | bit, row2 as int, col2 as int);
            lemma_bits(v, bit, bit2);
            if row2 == row && col2 == col && bit2 == bit {
                lemma_address_injective(m, x, y, x2, y2);
            }
        }
    }
}

/// Unsetting a pixel turns it off and leaves every other pixel as it was.
pub proof fn lemma_unset_lit(m: CanvasModel, x: int, y: int, x2: int, y2: int)
    requires
        model_wf(m),
    ensures
        model_wf(model_unset(m, x, y)),
        model_lit(model_unset(m, x, y), x2, y2) == (model_lit(m, x2, y2) && !(x2 == x && y2 == y)),
{
    if in_bounds(m, x, y) {
        lemma_address(m, x, y);
        let (col, row, bit) = pixel_address(m, x, y).unwrap();
        let v = m.cells[row as int][col as int];
        lemma_cell_update(m, row as int, col as int, v & !bit, 0, 0);
        if in_bounds(m, x2, y2) {
            lemma_address(m, x2, y2);
            let (col2, row2, bit2) = pixel_address(m, x2, y2).unwrap();
            lemma_cell_update(m, row as int, col as int, v & !bit, row2 as int, col2 as int);
            lemma_bits(v, bit, bit2);
            if row2 == row && col2 == col && bit2 == bit {
                lemma_address_injective(m, x, y, x2, y2);
            }
        }
    }
}

/// Toggling a pixel flips it (when it lies on the canvas) and leaves every
/// other pixel as it was.
pub proof fn lemma_toggle_lit(m: CanvasModel, x: int, y: int, x2: int, y2: int)
    requires
        model_wf(m),
    ensures
        model_wf(model_toggle(m, x, y)),
        model_lit(model_toggle(m, x, y), x2, y2) == if x2 == x && y2 == y {
            in_bounds(m, x, y) && !model_lit(m, x, y)
        } else {
            model_lit(m, x2, y2)
        },
{
    if in_bounds(m, x, y) {
        lemma_address(m, x, y);
        let (col, row, bit) = pixel_address(m, x, y).unwrap();
        let v = m.cells[row as int][col as int];
        lemma_cell_update(m, row as int, col as int, v ^ bit, 0, 0);
        if in_bounds(m, x2, y2) {
            lemma_address(m, x2, y2);
            let (col2, row2, bit2) = pixel_address(m, x2, y2).unwrap();
            lemma_cell_update(m, row as int, col as int, v ^ bit, row2 as int, col2 as int);
            lemma_bits(v, bit, bit2);
            if row2 == row && col2 == col && bit2 == bit {
                lemma_address_injective(m, x, y, x2, y2);
            }
        }
    }
}

/// Toggling the same pixel twice gives back the canvas it started from.
pub proof fn lemma_toggle_twice(m: CanvasModel, x: int, y: int)
    requires
        model_wf(m),
    ensures
        model_toggle(model_toggle(m, x, y), x, y) == m,
{
    if in_bounds(m, x, y) {
        lemma_address(m, x, y);
        let (col, row, bit) = pixel_address(m, x, y).unwrap();
        let v = m.cells[row as int][col as int];
        lemma_bits(v, bit, bit);
        let t = model_toggle(m, x, y);
        lemma_cell_update(m, row as int, col as int, v ^ bit, 0, 0);
        assert(t.cells[row as int][col as int] == v ^ bit);
        let tt = model_toggle(t, x, y);
        assert(tt.cells[row as int] =~= m.cells[row as int]);
        assert(tt.cells =~= m.cells);
    }
}


/// `m` after turning on each of `pts` in turn (points off the canvas,
/// negative ones included, change nothing).
pub open spec fn apply_sets(m: CanvasModel, pts: Seq<(int, int)>) -> CanvasModel
    decreases pts.len(),
{
    if pts.len() == 0 {
        m
    } else {
        apply_sets(model_set(m, pts[0].0, pts[0].1), pts.drop_first())
    }
}

/// Drawing a list of points turns on exactly those of them that lie on the
/// canvas: every other pixel keeps its state, and the canvas keeps its size
/// and blitter.
pub proof fn lemma_apply_sets_lit(m: CanvasModel, pts: Seq<(int, int)>, x: int, y: int)
    requires
        model_wf(m),
    ensures
        model_wf(apply_sets(m, pts)),
        apply_sets(m, pts).width == m.width,
        apply_sets(m, pts).height == m.height,
        apply_sets(m, pts).blitter == m.blitter,
        model_lit(apply_sets(m, pts), x, y) == (model_lit(m, x, y) || (in_bounds(m, x, y)
            && pts.contains((x, y)))),
    decreases pts.len(),
{
    if pts.len() > 0 {
        let m1 = model_set(m, pts[0].0, pts[0].1);
        lemma_set_lit(m, pts[0].0, pts[0].1, x, y);
        lemma_apply_sets_lit(m1, pts.drop_first(), x, y);
        if pts.contains((x, y)) && !pts.drop_first().contains((x, y)) {
            let k = choose|k: int| 0 <= k < pts.len() && pts[k] == (x, y);
            if k > 0 {
                assert(pts.drop_first()[k - 1] == (x, y));
            }
        }
        if pts.drop_first().contains((x, y)) {
            let k = choose|k: int| 0 <= k < pts.drop_first().len() && pts.drop_first()[k] == (x, y);
            assert(pts[k + 1] == (x, y));
        }
    }
}

/// Drawing `a` then `b` is drawing `a + b`.
pub proof fn lemma_apply_sets_concat(m: CanvasModel, a: Seq<(int, int)>, b: Seq<(int, int)>)
    ensures
        apply_sets(apply_sets(m, a), b) == apply_sets(m, a + b),
    decreases a.len(),
{
    if a.len() > 0 {
        assert((a + b).drop_first() =~= a.drop_first() + b);
        assert((a + b)[0] == a[0]);
        lemma_apply_sets_concat(model_set(m, a[0].0, a[0].1), a.drop_first(), b);
    } else {
        assert(a + b =~= b);
    }
}

proof fn lemma_apply_sets_push(m: CanvasModel, pts: Seq<(int, int)>, p: (int, int))
    ensures
        apply_sets(m, pts.push(p)) == model_set(apply_sets(m, pts), p.0, p.1),
{
    lemma_apply_sets_concat(m, pts, seq![p]);
    assert(pts + seq![p] =~= pts.push(p));
    let m1 = apply_sets(m, pts);
    assert(seq![p].drop_first() =~= Seq::<(int, int)>::empty());
    assert(apply_sets(model_set(m1, p.0, p.1), Seq::<(int, int)>::empty()) == model_set(m1, p.0, p.1));
}

/// One step towards `target`.
pub open spec fn toward(v: int, target: int) -> int {
    if v < target { 1 } else { -1 }
}

/// The points that Bresenham's algorithm visits from `(x, y)` to `(x1, y1)`,
/// with error term `err` and the line's `dx = |x1 - x0|`, `dy = -|y1 - y0|`.
pub open spec fn bresenham(x: int, y: int, err: int, x1: int, y1: int, dx: int, dy: int) -> Seq<(int, int)>
    decreases abs(x1 - x) + abs(y1 - y),
{
    if x == x1 && y == y1 {
        seq![(x, y)]
    } else {
        let e2 = 2 * err;
        let mx = e2 >= dy;
        let my = e2 <= dx;
        if (mx && x == x1) || (my && y == y1) || (!mx && !my) {
            seq![(x, y)]
        } else {
            let nx = if mx { x + toward(x, x1) } else { x };
            let ny = if my { y + toward(y, y1) } else { y };
            let nerr = err + (if mx { dy } else { 0 }) + (if my { dx } else { 0 });
            seq![(x, y)] + bresenham(nx, ny, nerr, x1, y1, dx, dy)
        }
    }
}

/// The points of the line from `(x0, y0)` to `(x1, y1)`.
pub open spec fn line_points(x0: int, y0: int, x1: int, y1: int) -> Seq<(int, int)> {
    let dx = abs(x1 - x0) as int;
    let dy = -abs(y1 - y0);
    bresenham(x0, y0, dx + dy, x1, y1, dx, dy)
}

impl Canvas {
    /// Turn on the pixel at signed coordinates; those off the canvas,
    /// negative ones included, are ignored.
    fn set_at(&mut self, x: i64, y: i64)
        requires
            old(self).wf(),
        ensures
            final(self).wf(),
            final(self)@ == model_set(old(self)@, x as int, y as int),
    {
        let pw = self.pixel_width();
        let ph = self.pixel_height();
        if x >= 0 && y >= 0 && (x as i128) < (pw as i128) && (y as i128) < (ph as i128) {
            self.set(x as usize, y as usize);
        }
    }

    /// Draw a line from `(x0, y0)` to `(x1, y1)` with Bresenham's algorithm;
    /// the parts off the canvas are clipped.
    pub fn line(&mut self, x0: i32, y0: i32, x1: i32, y1: i32)
        requires
            old(self).wf(),
        ensures
            final(self).wf(),
            final(self)@ == apply_sets(old(self)@, line_points(x0 as int, y0 as int, x1 as int, y1 as int)),
    {
        let ghost target = apply_sets(self@, line_points(x0 as int, y0 as int, x1 as int, y1 as int));
        let ex1 = x1 as i64;
        let ey1 = y1 as i64;
        let mut x = x0 as i64;
        let mut y = y0 as i64;
        let dx: i64 = if ex1 >= x { ex1 - x } else { x - ex1 };
        let dy: i64 = if ey1 >= y { y - ey1 } else { ey1 - y };
        let sx: i64 = if x < ex1 { 1 } else { -1 };
        let sy: i64 = if y < ey1 { 1 } else { -1 };
        let mut err: i64 = dx + dy;
        loop
            invariant_except_break
                self.wf(),
                dx == abs(x1 - x0),
                dy == -abs(y1 - y0),
                2 * dy <= err <= 2 * dx,
                sx == 1 ==> x0 <= x <= x1,
                sx == -1 ==> x1 <= x <= x0,
                sx == 1 || sx == -1,
                sx == 1 <==> x0 < x1,
                sy == 1 ==> y0 <= y <= y1,
                sy == -1 ==> y1 <= y <= y0,
                sy == 1 || sy == -1,
                sy == 1 <==> y0 < y1,
                ex1 == x1,
                ey1 == y1,
                apply_sets(self@, bresenham(x as int, y as int, err as int, x1 as int, y1 as int, dx as int, dy as int))
                    == target,
            ensures
                self.wf(),
                self@ == target,
            decreases abs(x1 - x) + abs(y1 - y),
        {
            let ghost before = self@;
            let ghost rest = bresenham(x as int, y as int, err as int, x1 as int, y1 as int, dx as int, dy as int);
            self.set_at(x, y);
            proof {
                assert(rest[0] == (x as int, y as int));
                assert(rest.len() >= 1);
            }
            if x == ex1 && y == ey1 {
                proof {
                    assert(rest.drop_first() =~= Seq::<(int, int)>::empty());
                    assert(apply_sets(self@, rest.drop_first()) == self@);
                }
                break;
            }
            let e2 = 2 * err;
            let mx = e2 >= dy;
            let my = e2 <= dx;
            if (mx && x == ex1) || (my && y == ey1) || (!mx && !my) {
                proof {
                    assert(rest.drop_first() =~= Seq::<(int, int)>::empty());
                    assert(apply_sets(self@, rest.drop_first()) == self@);
                }
                break;
            }
            proof {
                let nx = if mx { x + toward(x as int, x1 as int) } else { x as int };
                let ny = if my { y + toward(y as int, y1 as int) } else { y as int };
                let nerr = err + (if mx { dy } else { 0 }) + (if my { dx } else { 0 });
                assert(rest.drop_first() =~= bresenham(nx, ny, nerr, x1 as int, y1 as int, dx as int, dy as int));
            }
            if mx {
                err = err + dy;
                x = x + sx;
            }
            if my {
                err = err + dx;
                y = y + sy;
            }
        }
    }
}


/// The four sides of the rectangle outline with corners `(x, y)` and
/// `(x + w - 1, y + h - 1)`, each drawn as a line: top, bottom, left, right.
/// Coordinates go to the line drawer as `i32`, wrapping as `as` does.
pub open spec fn rect_points(x: usize, y: usize, w: usize, h: usize) -> Seq<(int, int)> {
    if w == 0 || h == 0 {
        Seq::empty()
    } else {
        let xa = (x as i32) as int;
        let ya = (y as i32) as int;
        let xb = (((x + w - 1) as usize) as i32) as int;
        let yb = (((y + h - 1) as usize) as i32) as int;
        line_points(xa, ya, xb, ya) + line_points(xa, yb, xb, yb) + line_points(xa, ya, xa, yb)
            + line_points(xb, ya, xb, yb)
    }
}

/// The pixels of row `yy` from column `x`, `w` of them, left to right.
pub open spec fn row_points(x: int, yy: int, w: int) -> Seq<(int, int)> {
    Seq::new(w as nat, |i: int| (x + i, yy))
}

/// The rows `dy..h` of the filled rectangle at `(x, y)`, top to bottom.
pub open spec fn fill_from(x: int, y: int, w: int, dy: int, h: int) -> Seq<(int, int)>
    decreases h - dy,
{
    if dy >= h {
        Seq::empty()
    } else {
        row_points(x, y + dy, w) + fill_from(x, y, w, dy + 1, h)
    }
}

/// The pixels of the filled `w`×`h` rectangle at `(x, y)`, row by row.
pub open spec fn fill_points(x: int, y: int, w: int, h: int) -> Seq<(int, int)> {
    fill_from(x, y, w, 0, h)
}

/// The eight points symmetric to `(x, y)` about the circle's center.
pub open spec fn octant_points(cx: int, cy: int, x: int, y: int) -> Seq<(int, int)> {
    seq![
        (cx + x, cy + y),
        (cx - x, cy + y),
        (cx + x, cy - y),
        (cx - x, cy - y),
        (cx + y, cy + x),
        (cx - y, cy + x),
        (cx + y, cy - x),
        (cx - y, cy - x),
    ]
}

/// The points the midpoint circle algorithm visits from `(x, y)` with
/// decision term `err`, while `x >= y`.
pub open spec fn midpoint(cx: int, cy: int, x: int, y: int, err: int) -> Seq<(int, int)>
    decreases x - y + 2,
{
    if x < y {
        Seq::empty()
    } else {
        let ny = y + 1;
        let nx = if err <= 0 { x } else { x - 1 };
        let nerr = if err <= 0 { err + 2 * ny + 1 } else { err + 2 * (ny - nx) + 1 };
        octant_points(cx, cy, x, y) + midpoint(cx, cy, nx, ny, nerr)
    }
}

/// The points of the circle of radius `r` around `(cx, cy)`; none when `r < 0`.
pub open spec fn circle_points(cx: int, cy: int, r: int) -> Seq<(int, int)> {
    if r < 0 {
        Seq::empty()
    } else {
        midpoint(cx, cy, r, 0, 1 - r)
    }
}

impl Canvas {
    /// Draw the outline of the `w`×`h` rectangle whose top-left pixel is
    /// `(x, y)`; nothing when `w` or `h` is 0.
    pub fn rect(&mut self, x: usize, y: usize, w: usize, h: usize)
        requires
            old(self).wf(),
            w > 0 && h > 0 ==> x + w - 1 <= usize::MAX && y + h - 1 <= usize::MAX,
        ensures
            final(self).wf(),
            final(self)@ == apply_sets(old(self)@, rect_points(x, y, w, h)),
    {
        if w == 0 || h == 0 {
            return;
        }
        let ghost m0 = self@;
        let x1 = x + (w - 1);
        let y1 = y + (h - 1);
        let xa = #[verifier::truncate] (x as i32);
        let ya = #[verifier::truncate] (y as i32);
        let xb = #[verifier::truncate] (x1 as i32);
        let yb = #[verifier::truncate] (y1 as i32);
        self.line(xa, ya, xb, ya);
        self.line(xa, yb, xb, yb);
        self.line(xa, ya, xa, yb);
        self.line(xb, ya, xb, yb);
        proof {
            let p1 = line_points(xa as int, ya as int, xb as int, ya as int);
            let p2 = line_points(xa as int, yb as int, xb as int, yb as int);
            let p3 = line_points(xa as int, ya as int, xa as int, yb as int);
            let p4 = line_points(xb as int, ya as int, xb as int, yb as int);
            lemma_apply_sets_concat(m0, p1, p2);
            lemma_apply_sets_concat(m0, p1 + p2, p3);
            lemma_apply_sets_concat(m0, p1 + p2 + p3, p4);
        }
    }

    /// Fill the `w`×`h` rectangle whose top-left pixel is `(x, y)`.
    pub fn fill_rect(&mut self, x: usize, y: usize, w: usize, h: usize)
        requires
            old(self).wf(),
            w > 0 && h > 0 ==> x + w - 1 <= usize::MAX && y + h - 1 <= usize::MAX,
        ensures
            final(self).wf(),
            final(self)@ == apply_sets(old(self)@, fill_points(x as int, y as int, w as int, h as int)),
    {
        let ghost target = apply_sets(self@, fill_points(x as int, y as int, w as int, h as int));
        let mut dy: usize = 0;
        while dy < h
            invariant
                self.wf(),
                dy <= h,
                w > 0 && h > 0 ==> x + w - 1 <= usize::MAX && y + h - 1 <= usize::MAX,
                apply_sets(self@, fill_from(x as int, y as int, w as int, dy as int, h as int)) == target,
            decreases h - dy,
        {
            let ghost rest = fill_from(x as int, y as int, w as int, dy as int + 1, h as int);
            let ghost row = row_points(x as int, y as int + dy as int, w as int);
            let mut dx: usize = 0;
            proof {
                assert(row.skip(0) =~= row);
            }
            while dx < w
                invariant
                    self.wf(),
                    dx <= w,
                    dy < h,
                    w > 0 && h > 0 ==> x + w - 1 <= usize::MAX && y + h - 1 <= usize::MAX,
                    row == row_points(x as int, y as int + dy as int, w as int),
                    apply_sets(self@, row.skip(dx as int) + rest) == target,
                decreases w - dx,
            {
                let ghost before = self@;
                self.set(x + dx, y + dy);
                proof {
                    let cur = row.skip(dx as int) + rest;
                    assert(cur[0] == (x + dx, y + dy));
                    assert(cur.drop_first() =~= row.skip(dx as int + 1) + rest);
                }
                dx = dx + 1;
            }
            proof {
                assert(row.skip(w as int) + rest =~= rest);
            }
            dy = dy + 1;
        }
        proof {
            assert(fill_from(x as int, y as int, w as int, dy as int, h as int) =~= Seq::<(int, int)>::empty());
        }
    }

    fn set_octants(&mut self, cx: i64, cy: i64, x: i64, y: i64)
        requires
            old(self).wf(),
            -0x1_0000_0000 <= cx <= 0x1_0000_0000,
            -0x1_0000_0000 <= cy <= 0x1_0000_0000,
            -0x1_0000_0000 <= x <= 0x1_0000_0000,
            -0x1_0000_0000 <= y <= 0x1_0000_0000,
        ensures
            final(self).wf(),
            final(self)@ == apply_sets(old(self)@, octant_points(cx as int, cy as int, x as int, y as int)),
    {
        let ghost m0 = self@;
        let ghost mut done: Seq<(int, int)> = Seq::empty();
        self.set_at(cx + x, cy + y);
        proof {
            lemma_apply_sets_push(m0, done, ((cx + x) as int, (cy + y) as int));
            done = done.push(((cx + x) as int, (cy + y) as int));
        }
        self.set_at(cx - x, cy + y);
        proof {
            lemma_apply_sets_push(m0, done, ((cx - x) as int, (cy + y) as int));
            done = done.push(((cx - x) as int, (cy + y) as int));
        }
        self.set_at(cx + x, cy - y);
        proof {
            lemma_apply_sets_push(m0, done, ((cx + x) as int, (cy - y) as int));
            done = done.push(((cx + x) as int, (cy - y) as int));
        }
        self.set_at(cx - x, cy - y);
        proof {
            lemma_apply_sets_push(m0, done, ((cx - x) as int, (cy - y) as int));
            done = done.push(((cx - x) as int, (cy - y) as int));
        }
        self.set_at(cx + y, cy + x);
        proof {
            lemma_apply_sets_push(m0, done, ((cx + y) as int, (cy + x) as int));
            done = done.push(((cx + y) as int, (cy + x) as int));
        }
        self.set_at(cx - y, cy + x);
        proof {
            lemma_apply_sets_push(m0, done, ((cx - y) as int, (cy + x) as int));
            done = done.push(((cx - y) as int, (cy + x) as int));
        }
        self.set_at(cx + y, cy - x);
        proof {
            lemma_apply_sets_push(m0, done, ((cx + y) as int, (cy - x) as int));
            done = done.push(((cx + y) as int, (cy - x) as int));
        }
        self.set_at(cx - y, cy - x);
        proof {
            lemma_apply_sets_push(m0, done, ((cx - y) as int, (cy - x) as int));
            done = done.push(((cx - y) as int, (cy - x) as int));
        }
        proof {
            assert(done =~= octant_points(cx as int, cy as int, x as int, y as int));
        }
    }

    /// Draw the outline of the circle of radius `r` around `(cx, cy)` with
    /// the midpoint circle algorithm; nothing when `r` is negative.
    pub fn circle(&mut self, cx: i32, cy: i32, r: i32)
        requires
            old(self).wf(),
        ensures
            final(self).wf(),
            final(self)@ == apply_sets(old(self)@, circle_points(cx as int, cy as int, r as int)),
    {
        if r < 0 {
            return;
        }
        let ghost target = apply_sets(self@, circle_points(cx as int, cy as int, r as int));
        let ecx = cx as i64;
        let ecy = cy as i64;
        let mut x: i64 = r as i64;
        let mut y: i64 = 0;
        let mut err: i128 = 1 - (r as i128);
        while x >= y
            invariant
                self.wf(),
                0 <= r,
                ecx == cx,
                ecy == cy,
                -1 <= x <= r,
                0 <= y <= x + 2,
                -0x8_0000_0000 * (y + 1) <= err <= 0x8_0000_0000 * (y + 1),
                apply_sets(self@, midpoint(cx as int, cy as int, x as int, y as int, err as int)) == target,
            decreases x - y + 2,
        {
            let ghost m0 = self@;
            let ghost pts = octant_points(cx as int, cy as int, x as int, y as int);
            let ghost rest = midpoint(cx as int, cy as int, x as int, y as int, err as int);
            self.set_octants(ecx, ecy, x, y);
            y = y + 1;
            if err <= 0 {
                err = err + 2 * (y as i128) + 1;
            } else {
                x = x - 1;
                err = err + 2 * ((y - x) as i128) + 1;
            }
            proof {
                assert(rest == pts + midpoint(cx as int, cy as int, x as int, y as int, err as int));
                lemma_apply_sets_concat(m0, pts, midpoint(cx as int, cy as int, x as int, y as int, err as int));
            }
        }
        proof {
            assert(midpoint(cx as int, cy as int, x as int, y as int, err as int) =~= Seq::<(int, int)>::empty());
        }
    }
}


/// The glyph that draws a cell whose pixel bits are `bits`.
pub open spec fn glyph(b: Blitter, bits: u8) -> char {
    match b {
        Blitter::Braille => ((0x2800 + bits) as u32) as char,
        Blitter::Sextant => if bits == 0 {
            ' '
        } else if bits == 63 {
            '\u{2588}'
        } else {
            ((0x1FB00 + bits - 1) as u32) as char
        },
        Blitter::HalfBlock => if bits % 4 == 0 {
            ' '
        } else if bits % 4 == 1 {
            '\u{2580}'
        } else if bits % 4 == 2 {
            '\u{2584}'
        } else {
            '\u{2588}'
        },
        Blitter::Octant => octant_glyph(bits),
    }
}

/// The text of one row of cells.
pub open spec fn row_text(b: Blitter, row: Seq<u8>) -> Seq<char> {
    row.map_values(|bits: u8| glyph(b, bits))
}

/// The first `k` rows of the canvas, joined by newlines.
pub open spec fn frame_rows(m: CanvasModel, k: int) -> Seq<char>
    decreases k,
{
    if k <= 0 {
        Seq::empty()
    } else if k == 1 {
        row_text(m.blitter, m.cells[0])
    } else {
        frame_rows(m, k - 1) + seq!['\n'] + row_text(m.blitter, m.cells[k - 1])
    }
}

/// The rendered canvas: each row of cells as a line of glyphs, lines joined
/// by `'\n'`.
pub open spec fn frame_text(m: CanvasModel) -> Seq<char> {
    frame_rows(m, m.height as int)
}

/// `height` rows of `width` empty cells.
pub open spec fn blank_cells(width: usize, height: usize) -> Seq<Seq<u8>> {
    Seq::new(height as nat, |_r: int| Seq::new(width as nat, |_k: int| 0u8))
}

fn code_glyph(n: u32) -> (c: char)
    requires
        0x2800 <= n <= 0x28FF || 0x1FB00 <= n <= 0x1FBFF,
    ensures
        c == n as char,
{
    match char_from_u32(n) {
        Some(c) => {
            proof {
                vstd::utf8::char_u32_cast(c, n);
            }
            c
        },
        None => ' ',
    }
}

/// The glyph of a cell under blitter `b`.
fn cell_glyph(b: Blitter, bits: u8) -> (c: char)
    ensures
        c == glyph(b, bits),
{
    match b {
        Blitter::Braille => code_glyph(0x2800 + bits as u32),
        Blitter::Sextant => {
            if bits == 0 {
                ' '
            } else if bits == 63 {
                '\u{2588}'
            } else {
                code_glyph(0x1FB00 + bits as u32 - 1)
            }
        },
        Blitter::HalfBlock => {
            let t = bits & 0x03;
            assert(t == bits % 4) by (bit_vector)
                requires
                    t == bits & 0x03,
            ;
            if t == 0 {
                ' '
            } else if t == 1 {
                '\u{2580}'
            } else if t == 2 {
                '\u{2584}'
            } else {
                '\u{2588}'
            }
        },
        Blitter::Octant => octant_bits_to_char(bits),
    }
}

impl Canvas {
    /// Render the canvas: one line of glyphs per row, joined by `'\n'`.
    pub fn frame(&self) -> (s: String)
        requires
            self.wf(),
        ensures
            s@ == frame_text(self@),
    {
        let ghost m = self@;
        let mut out: Vec<char> = Vec::new();
        let mut r: usize = 0;
        while r < self.height
            invariant
                self.wf(),
                m == self@,
                r <= self.height,
                out@ == frame_rows(m, r as int),
            decreases self.height - r,
        {
            let ghost start = out@;
            if r > 0 {
                out.push('\n');
            }
            let ghost prefix = out@;
            let row = &self.pixels[r];
            proof {
                assert(row@ == m.cells[r as int]);
            }
            let mut k: usize = 0;
            while k < row.len()
                invariant
                    k <= row@.len(),
                    row@ == m.cells[r as int],
                    out@ == prefix + row_text(m.blitter, row@).take(k as int),
                    m.blitter == self.blitter,
                decreases row@.len() - k,
            {
                let c = cell_glyph(self.blitter, row[k]);
                out.push(c);
                k = k + 1;
                assert(out@ =~= prefix + row_text(m.blitter, row@).take(k as int));
            }
            proof {
                assert(row_text(m.blitter, row@).take(k as int) =~= row_text(m.blitter, row@));
                if r == 0 {
                    assert(out@ =~= frame_rows(m, 1));
                }
            }
            r = r + 1;
        }
        string_from_chars(&out)
    }

    /// The canvas as text: the same as [`Canvas::frame`].
    pub fn to_string(&self) -> (s: String)
        requires
            self.wf(),
        ensures
            s@ == frame_text(self@),
    {
        self.frame()
    }

    /// Turn every pixel off.
    pub fn clear(&mut self)
        requires
            old(self).wf(),
        ensures
            final(self).wf(),
            final(self)@ == (CanvasModel { cells: blank_cells(old(self)@.width, old(self)@.height), ..old(self)@ }),
    {
        let ghost m0 = self@;
        let mut r: usize = 0;
        while r < self.height
            invariant
                self.wf(),
                r <= self.height,
                self@.width == m0.width,
                self@.height == m0.height,
                self@.blitter == m0.blitter,
                self@.style == m0.style,
                forall|i: int| 0 <= i < r ==> #[trigger] self@.cells[i] == blank_cells(m0.width, m0.height)[i],
            decreases self.height - r,
        {
            let mut k: usize = 0;
            while k < self.width
                invariant
                    self.wf(),
                    r < self.height,
                    k <= self.width,
                    self@.width == m0.width,
                    self@.height == m0.height,
                    self@.blitter == m0.blitter,
                    self@.style == m0.style,
                    forall|i: int| 0 <= i < r ==> #[trigger] self@.cells[i] == blank_cells(m0.width, m0.height)[i],
                    forall|j: int| 0 <= j < k ==> #[trigger] self@.cells[r as int][j] == 0u8,
                decreases self.width - k,
            {
                let ghost before = self@;
                self.store(r, k, 0);
                proof {
                    assert forall|j: int| 0 <= j < k + 1 implies #[trigger] self@.cells[r as int][j] == 0u8 by {
                        lemma_cell_update(before, r as int, k as int, 0u8, r as int, j);
                    }
                    assert forall|i: int| 0 <= i < r implies #[trigger] self@.cells[i] == blank_cells(m0.width, m0.height)[i] by {
                        assert(self@.cells[i] == before.cells[i]);
                    }
                }
                k = k + 1;
            }
            proof {
                assert(self@.cells[r as int] =~= blank_cells(m0.width, m0.height)[r as int]);
            }
            r = r + 1;
        }
        proof {
            assert(self@.cells =~= blank_cells(m0.width, m0.height));
        }
    }

    /// The bits of each cell, row by row.
    pub fn pixels(&self) -> (p: &Vec<Vec<u8>>)
        ensures
            p@.map_values(|r: Vec<u8>| r@) == self@.cells,
    {
        &self.pixels
    }
}


/// The Bresenham state invariant: `a` and `b` steps remain in x and y, and
/// the error term records the steps taken so far.
pub open spec fn bresenham_inv(x: int, y: int, err: int, x1: int, y1: int, dx: int, dy: int) -> bool {
    &&& dx >= 0
    &&& dy <= 0
    &&& abs(x1 - x) <= dx
    &&& abs(y1 - y) <= -dy
    &&& err == dx + dy - abs(x1 - x) * dy - abs(y1 - y) * dx
}

/// A path of pixels that moves at most one pixel in each direction at a time.
pub open spec fn connected(pts: Seq<(int, int)>) -> bool {
    forall|i: int| 0 <= i < pts.len() - 1 ==> abs(#[trigger] pts[i + 1].0 - pts[i].0) <= 1 && abs(
        pts[i + 1].1 - pts[i].1,
    ) <= 1
}

/// Whether `v` lies between `a` and `b`, both included.
pub open spec fn between(v: int, a: int, b: int) -> bool {
    (a <= v <= b) || (b <= v <= a)
}

proof fn lemma_bresenham_path(x: int, y: int, err: int, x1: int, y1: int, dx: int, dy: int)
    requires
        bresenham_inv(x, y, err, x1, y1, dx, dy),
    ensures
        ({
            let pts = bresenham(x, y, err, x1, y1, dx, dy);
            &&& pts.len() >= 1
            &&& pts[0] == (x, y)
            &&& pts.last() == (x1, y1)
            &&& connected(pts)
            &&& forall|i: int| 0 <= i < pts.len() ==> #[trigger] between(pts[i].0, x, x1) && between(pts[i].1, y, y1)
            &&& forall|v: int| between(v, x, x1) ==> exists|i: int| 0 <= i < pts.len() && #[trigger] pts[i].0 == v
            &&& forall|v: int| between(v, y, y1) ==> exists|i: int| 0 <= i < pts.len() && #[trigger] pts[i].1 == v
        }),
    decreases abs(x1 - x) + abs(y1 - y),
{
    let pts = bresenham(x, y, err, x1, y1, dx, dy);
    let a = abs(x1 - x) as int;
    let b = abs(y1 - y) as int;
    if x == x1 && y == y1 {
        assert forall|v: int| between(v, x, x1) implies exists|i: int| 0 <= i < pts.len() && #[trigger] pts[i].0 == v by {
            assert(pts[0].0 == v);
        }
        assert forall|v: int| between(v, y, y1) implies exists|i: int| 0 <= i < pts.len() && #[trigger] pts[i].1 == v by {
            assert(pts[0].1 == v);
        }
    } else {
        let e2 = 2 * err;
        let mx = e2 >= dy;
        let my = e2 <= dx;
        assert(!(mx && x == x1)) by (nonlinear_arith)
            requires
                err == dx + dy - a * dy - b * dx,
                a == 0 ==> b > 0,
                x == x1 ==> a == 0,
                b <= -dy,
                dx >= 0,
                dy <= 0,
                mx == (2 * err >= dy),
        ;
        assert(!(my && y == y1)) by (nonlinear_arith)
            requires
                err == dx + dy - a * dy - b * dx,
                b == 0 ==> a > 0,
                y == y1 ==> b == 0,
                a <= dx,
                dx >= 0,
                dy <= 0,
                my == (2 * err <= dx),
        ;
        assert(mx || my);
        let nx = if mx { x + toward(x, x1) } else { x };
        let ny = if my { y + toward(y, y1) } else { y };
        let nerr = err + (if mx { dy } else { 0 }) + (if my { dx } else { 0 });
        let na = abs(x1 - nx) as int;
        let nb = abs(y1 - ny) as int;
        assert(na == if mx { a - 1 } else { a });
        assert(nb == if my { b - 1 } else { b });
        assert(nerr == dx + dy - na * dy - nb * dx) by (nonlinear_arith)
            requires
                err == dx + dy - a * dy - b * dx,
                na == if mx { a - 1 } else { a },
                nb == if my { b - 1 } else { b },
                nerr == err + (if mx { dy } else { 0 }) + (if my { dx } else { 0 }),
        ;
        lemma_bresenham_path(nx, ny, nerr, x1, y1, dx, dy);
        let rest = bresenham(nx, ny, nerr, x1, y1, dx, dy);
        assert(pts == seq![(x, y)] + rest);
        assert forall|i: int| 0 <= i < pts.len() - 1 implies abs(#[trigger] pts[i + 1].0 - pts[i].0) <= 1
            && abs(pts[i + 1].1 - pts[i].1) <= 1 by {
            if i > 0 {
                let j = i - 1;
                assert(pts[i] == rest[j]);
                assert(pts[i + 1] == rest[j + 1]);
                assert(abs(rest[j + 1].0 - rest[j].0) <= 1);
            } else {
                assert(pts[1] == rest[0]);
            }
        }
        assert forall|i: int| 0 <= i < pts.len() implies #[trigger] between(pts[i].0, x, x1) && between(pts[i].1, y, y1) by {
            if i > 0 {
                assert(pts[i] == rest[i - 1]);
                assert(between(rest[i - 1].0, nx, x1));
            }
        }
        assert forall|v: int| between(v, x, x1) implies exists|i: int| 0 <= i < pts.len() && #[trigger] pts[i].0 == v by {
            if v == x {
                assert(pts[0].0 == v);
            } else {
                assert(between(v, nx, x1));
                let k = choose|k: int| 0 <= k < rest.len() && #[trigger] rest[k].0 == v;
                assert(pts[k + 1].0 == v);
            }
        }
        assert forall|v: int| between(v, y, y1) implies exists|i: int| 0 <= i < pts.len() && #[trigger] pts[i].1 == v by {
            if v == y {
                assert(pts[0].1 == v);
            } else {
                assert(between(v, ny, y1));
                let k = choose|k: int| 0 <= k < rest.len() && #[trigger] rest[k].1 == v;
                assert(pts[k + 1].1 == v);
            }
        }
    }
}

/// A line is a path of pixels from its start to its end that never leaves
/// their bounding box, steps at most one pixel in each direction at a time,
/// and meets every column and every row between its ends.
pub proof fn lemma_line_path(x0: int, y0: int, x1: int, y1: int)
    ensures
        ({
            let pts = line_points(x0, y0, x1, y1);
            &&& pts.len() >= 1
            &&& pts[0] == (x0, y0)
            &&& pts.last() == (x1, y1)
            &&& connected(pts)
            &&& forall|i: int| 0 <= i < pts.len() ==> #[trigger] between(pts[i].0, x0, x1) && between(pts[i].1, y0, y1)
            &&& forall|v: int| between(v, x0, x1) ==> exists|i: int| 0 <= i < pts.len() && #[trigger] pts[i].0 == v
            &&& forall|v: int| between(v, y0, y1) ==> exists|i: int| 0 <= i < pts.len() && #[trigger] pts[i].1 == v
        }),
{
    let dx = abs(x1 - x0) as int;
    let dy = -abs(y1 - y0);
    assert(dx + dy == dx + dy - dx * dy - (-dy) * dx) by (nonlinear_arith);
    lemma_bresenham_path(x0, y0, dx + dy, x1, y1, dx, dy);
}

/// Drawing a line turns on both of its ends when they lie on the canvas.
pub proof fn lemma_line_ends_lit(m: CanvasModel, x0: int, y0: int, x1: int, y1: int)
    requires
        model_wf(m),
    ensures
        in_bounds(m, x0, y0) ==> model_lit(apply_sets(m, line_points(x0, y0, x1, y1)), x0, y0),
        in_bounds(m, x1, y1) ==> model_lit(apply_sets(m, line_points(x0, y0, x1, y1)), x1, y1),
{
    let pts = line_points(x0, y0, x1, y1);
    lemma_line_path(x0, y0, x1, y1);
    lemma_apply_sets_lit(m, pts, x0, y0);
    lemma_apply_sets_lit(m, pts, x1, y1);
    assert(pts[0] == (x0, y0));
    assert(pts[pts.len() - 1] == (x1, y1));
}

/// The points of a horizontal or vertical line are exactly the pixels of the
/// segment between its ends.
pub proof fn lemma_axis_line(x0: int, y0: int, x1: int, y1: int, x: int, y: int)
    requires
        x0 == x1 || y0 == y1,
    ensures
        line_points(x0, y0, x1, y1).contains((x, y)) == (between(x, x0, x1) && between(y, y0, y1)),
{
    let pts = line_points(x0, y0, x1, y1);
    lemma_line_path(x0, y0, x1, y1);
    if pts.contains((x, y)) {
        let i = choose|i: int| 0 <= i < pts.len() && pts[i] == (x, y);
        assert(0 <= i < pts.len());
        assert(between(pts[i].0, x0, x1));
        assert(between(pts[i].1, y0, y1));
    }
    if between(x, x0, x1) && between(y, y0, y1) {
        if y0 == y1 {
            let i = choose|i: int| 0 <= i < pts.len() && #[trigger] pts[i].0 == x;
            assert(between(pts[i].1, y0, y1));
            assert(pts[i] == (x, y));
        } else {
            let i = choose|i: int| 0 <= i < pts.len() && #[trigger] pts[i].1 == y;
            assert(between(pts[i].0, x0, x1));
            assert(pts[i] == (x, y));
        }
    }
}


proof fn lemma_contains_concat(a: Seq<(int, int)>, b: Seq<(int, int)>, p: (int, int))
    ensures
        (a + b).contains(p) == (a.contains(p) || b.contains(p)),
{
    if a.contains(p) {
        let i = choose|i: int| 0 <= i < a.len() && a[i] == p;
        assert((a + b)[i] == p);
    }
    if b.contains(p) {
        let i = choose|i: int| 0 <= i < b.len() && b[i] == p;
        assert((a + b)[a.len() + i] == p);
    }
    if (a + b).contains(p) {
        let i = choose|i: int| 0 <= i < (a + b).len() && (a + b)[i] == p;
        if i < a.len() {
            assert(a[i] == p);
        } else {
            assert(b[i - a.len()] == p);
        }
    }
}

/// Whether `(px, py)` is on the border of the `w`×`h` rectangle at `(x, y)`.
pub open spec fn on_border(x: int, y: int, w: int, h: int, px: int, py: int) -> bool {
    &&& x <= px <= x + w - 1
    &&& y <= py <= y + h - 1
    &&& (px == x || px == x + w - 1 || py == y || py == y + h - 1)
}

/// A rectangle outline (with corners that fit in `i32`) turns on exactly the
/// pixels of its border that lie on the canvas; every other pixel keeps its
/// state.
pub proof fn lemma_rect_lit(m: CanvasModel, x: usize, y: usize, w: usize, h: usize, px: int, py: int)
    requires
        model_wf(m),
        w > 0,
        h > 0,
        x + w - 1 <= i32::MAX,
        y + h - 1 <= i32::MAX,
    ensures
        model_lit(apply_sets(m, rect_points(x, y, w, h)), px, py) == (model_lit(m, px, py) || (
        in_bounds(m, px, py) && on_border(x as int, y as int, w as int, h as int, px, py))),
{
    let xa = x as int;
    let ya = y as int;
    let xb = x + w - 1;
    let yb = y + h - 1;
    assert((x as i32) as int == xa);
    assert((y as i32) as int == ya);
    assert((((x + w - 1) as usize) as i32) as int == xb);
    assert((((y + h - 1) as usize) as i32) as int == yb);
    let p1 = line_points(xa, ya, xb, ya);
    let p2 = line_points(xa, yb, xb, yb);
    let p3 = line_points(xa, ya, xa, yb);
    let p4 = line_points(xb, ya, xb, yb);
    let p = (px, py);
    lemma_axis_line(xa, ya, xb, ya, px, py);
    lemma_axis_line(xa, yb, xb, yb, px, py);
    lemma_axis_line(xa, ya, xa, yb, px, py);
    lemma_axis_line(xb, ya, xb, yb, px, py);
    lemma_contains_concat(p1, p2, p);
    lemma_contains_concat(p1 + p2, p3, p);
    lemma_contains_concat(p1 + p2 + p3, p4, p);
    lemma_apply_sets_lit(m, rect_points(x, y, w, h), px, py);
}

proof fn lemma_fill_from_contains(x: int, y: int, w: int, dy: int, h: int, p: (int, int))
    requires
        w >= 0,
        dy >= 0,
    ensures
        fill_from(x, y, w, dy, h).contains(p) == (x <= p.0 < x + w && y + dy <= p.1 < y + h),
    decreases h - dy,
{
    if dy < h {
        let row = row_points(x, y + dy, w);
        lemma_fill_from_contains(x, y, w, dy + 1, h, p);
        lemma_contains_concat(row, fill_from(x, y, w, dy + 1, h), p);
        if x <= p.0 < x + w && p.1 == y + dy {
            assert(row[p.0 - x] == p);
        }
        if row.contains(p) {
            let i = choose|i: int| 0 <= i < row.len() && row[i] == p;
        }
    }
}

/// Filling a rectangle turns on exactly the pixels inside it that lie on the
/// canvas; every other pixel keeps its state.
pub proof fn lemma_fill_rect_lit(m: CanvasModel, x: int, y: int, w: int, h: int, px: int, py: int)
    requires
        model_wf(m),
        w >= 0,
    ensures
        model_lit(apply_sets(m, fill_points(x, y, w, h)), px, py) == (model_lit(m, px, py) || (
        in_bounds(m, px, py) && x <= px < x + w && y <= py < y + h)),
{
    lemma_fill_from_contains(x, y, w, 0, h, (px, py));
    lemma_apply_sets_lit(m, fill_points(x, y, w, h), px, py);
}

/// For `r >= 0` the circle passes through the four points at distance `r`
/// straight left, right, above and below its center.
pub proof fn lemma_circle_axis_points(cx: int, cy: int, r: int)
    requires
        r >= 0,
    ensures
        circle_points(cx, cy, r).contains((cx + r, cy)),
        circle_points(cx, cy, r).contains((cx - r, cy)),
        circle_points(cx, cy, r).contains((cx, cy + r)),
        circle_points(cx, cy, r).contains((cx, cy - r)),
{
    let pts = circle_points(cx, cy, r);
    let oct = octant_points(cx, cy, r, 0);
    assert(pts[0] == oct[0] && pts[1] == oct[1] && pts[4] == oct[4] && pts[6] == oct[6]);
}

/// Whether a set of points is closed under the reflections about the vertical
/// axis, the horizontal axis and the diagonal through `(cx, cy)`.
pub open spec fn symmetric_about(pts: Seq<(int, int)>, cx: int, cy: int) -> bool {
    forall|a: int, b: int| #[trigger] pts.contains((cx + a, cy + b)) ==> pts.contains((cx - a, cy + b))
        && pts.contains((cx + a, cy - b)) && pts.contains((cx + b, cy + a))
}

proof fn lemma_octants_symmetric(cx: int, cy: int, x: int, y: int)
    ensures
        symmetric_about(octant_points(cx, cy, x, y), cx, cy),
{
    let o = octant_points(cx, cy, x, y);
    assert forall|a: int, b: int| #[trigger] o.contains((cx + a, cy + b)) implies o.contains((cx - a, cy + b))
        && o.contains((cx + a, cy - b)) && o.contains((cx + b, cy + a)) by {
        let i = choose|i: int| 0 <= i < o.len() && o[i] == (cx + a, cy + b);
        assert(o[0] == (cx + x, cy + y));
        assert(o[1] == (cx - x, cy + y));
        assert(o[2] == (cx + x, cy - y));
        assert(o[3] == (cx - x, cy - y));
        assert(o[4] == (cx + y, cy + x));
        assert(o[5] == (cx - y, cy + x));
        assert(o[6] == (cx + y, cy - x));
        assert(o[7] == (cx - y, cy - x));
    }
}

proof fn lemma_midpoint_symmetric(cx: int, cy: int, x: int, y: int, err: int)
    ensures
        symmetric_about(midpoint(cx, cy, x, y, err), cx, cy),
    decreases x - y + 2,
{
    if x >= y {
        let ny = y + 1;
        let nx = if err <= 0 { x } else { x - 1 };
        let nerr = if err <= 0 { err + 2 * ny + 1 } else { err + 2 * (ny - nx) + 1 };
        let o = octant_points(cx, cy, x, y);
        let rest = midpoint(cx, cy, nx, ny, nerr);
        lemma_midpoint_symmetric(cx, cy, nx, ny, nerr);
        lemma_octants_symmetric(cx, cy, x, y);
        let pts = midpoint(cx, cy, x, y, err);
        assert(pts == o + rest);
        assert forall|a: int, b: int| #[trigger] pts.contains((cx + a, cy + b)) implies pts.contains((cx - a, cy + b))
            && pts.contains((cx + a, cy - b)) && pts.contains((cx + b, cy + a)) by {
            lemma_contains_concat(o, rest, (cx + a, cy + b));
            lemma_contains_concat(o, rest, (cx - a, cy + b));
            lemma_contains_concat(o, rest, (cx + a, cy - b));
            lemma_contains_concat(o, rest, (cx + b, cy + a));
            if o.contains((cx + a, cy + b)) {
                assert(o.contains((cx - a, cy + b)));
            } else {
                assert(rest.contains((cx + a, cy + b)));
            }
        }
    }
}

/// The drawn circle is symmetric about the vertical and horizontal axes and
/// the diagonal through its center (and so under all eight symmetries of the
/// square).
pub proof fn lemma_circle_symmetric(cx: int, cy: int, r: int)
    ensures
        symmetric_about(circle_points(cx, cy, r), cx, cy),
{
    if r >= 0 {
        lemma_midpoint_symmetric(cx, cy, r, 0, 1 - r);
    }
}

/// A cleared canvas has no pixel on.
pub proof fn lemma_blank_dark(m: CanvasModel, x: int, y: int)
    requires
        model_wf(m),
    ensures
        !model_lit(CanvasModel { cells: blank_cells(m.width, m.height), ..m }, x, y),
{
    let b = CanvasModel { cells: blank_cells(m.width, m.height), ..m };
    if in_bounds(b, x, y) {
        lemma_address(m, x, y);
        let (col, row, bit) = pixel_address(b, x, y).unwrap();
        assert(b.cells[row as int][col as int] == 0u8);
        assert(0u8 & bit == 0u8) by (bit_vector);
    }
}

/// The rendered canvas holds `width` glyphs per row and a newline between
/// rows: `height * width + height - 1` characters.
pub proof fn lemma_frame_len(m: CanvasModel)
    requires
        model_wf(m),
        m.height >= 1,
    ensures
        frame_text(m).len() == m.height * m.width + m.height - 1,
{
    lemma_frame_rows_len(m, m.height as int);
}

proof fn lemma_frame_rows_len(m: CanvasModel, k: int)
    requires
        model_wf(m),
        1 <= k <= m.height,
    ensures
        frame_rows(m, k).len() == k * m.width + k - 1,
    decreases k,
{
    assert(m.cells[k - 1].len() == m.width);
    assert(row_text(m.blitter, m.cells[k - 1]).len() == m.width);
    if k > 1 {
        lemma_frame_rows_len(m, k - 1);
        assert(frame_rows(m, k) == frame_rows(m, k - 1) + seq!['\n'] + row_text(m.blitter, m.cells[k - 1]));
        assert((k - 1) * m.width + m.width == k * m.width) by (nonlinear_arith);
    } else {
        assert(1 * m.width == m.width);
    }
}

} // verus!
