//! Color palettes and nearest-color matching.

use vstd::prelude::*;
use crate::color_triplet::ColorTriplet;

verus! {

/// A palette of RGB colors.
#[derive(Debug, Clone)]
pub struct Palette {
    colors: Vec<(u8, u8, u8)>,
}

impl View for Palette {
    type V = Seq<(u8, u8, u8)>;

    closed spec fn view(&self) -> Seq<(u8, u8, u8)> {
        self.colors@
    }
}

/// The triplet stored at one palette entry.
pub open spec fn entry_triplet(e: (u8, u8, u8)) -> ColorTriplet {
    ColorTriplet { red: e.0, green: e.1, blue: e.2 }
}

/// The "redmean" weighted squared distance between `c` and a palette entry,
/// scaled by 256 so that it is an integer:
/// `(512 + r̄)·Δr² + 1024·Δg² + (767 − r̄)·Δb²` where `r̄ = (r1 + r2) / 2`.
pub open spec fn redmean_distance(c: ColorTriplet, e: (u8, u8, u8)) -> int {
    let red_mean = (c.red + e.0) / 2;
    let dr = c.red - e.0;
    let dg = c.green - e.1;
    let db = c.blue - e.2;
    (512 + red_mean) * dr * dr + 1024 * dg * dg + (767 - red_mean) * db * db
}

/// `i` is the first index of a closest entry of `colors` to `c`.
pub open spec fn is_first_closest(colors: Seq<(u8, u8, u8)>, c: ColorTriplet, i: int) -> bool {
    &&& 0 <= i < colors.len()
    &&& forall|j: int| 0 <= j < colors.len() ==>
        redmean_distance(c, colors[i]) <= #[trigger] redmean_distance(c, colors[j])
    &&& forall|j: int| 0 <= j < i ==>
        redmean_distance(c, colors[i]) < #[trigger] redmean_distance(c, colors[j])
}

/// The first closest index is unique.
pub proof fn lemma_first_closest_unique(colors: Seq<(u8, u8, u8)>, c: ColorTriplet, i: int, k: int)
    requires
        is_first_closest(colors, c, i),
        is_first_closest(colors, c, k),
    ensures
        i == k,
{
    if i < k {
        assert(redmean_distance(c, colors[k]) < redmean_distance(c, colors[i]));
        assert(redmean_distance(c, colors[k]) <= redmean_distance(c, colors[i]));
        assert(redmean_distance(c, colors[i]) <= redmean_distance(c, colors[k]));
    } else if k < i {
        assert(redmean_distance(c, colors[i]) < redmean_distance(c, colors[k]));
        assert(redmean_distance(c, colors[k]) <= redmean_distance(c, colors[i]));
    }
}

proof fn lemma_distance_bounds(c: ColorTriplet, e: (u8, u8, u8))
    ensures
        0 <= redmean_distance(c, e) <= 170_000_000,
{
    let red_mean = (c.red + e.0) / 2;
    let dr = c.red - e.0;
    let dg = c.green - e.1;
    let db = c.blue - e.2;
    assert(0 <= red_mean <= 255);
    assert(0 <= dr * dr <= 65025) by (nonlinear_arith)
        requires
            -255 <= dr <= 255,
    ;
    assert(0 <= dg * dg <= 65025) by (nonlinear_arith)
        requires
            -255 <= dg <= 255,
    ;
    assert(0 <= db * db <= 65025) by (nonlinear_arith)
        requires
            -255 <= db <= 255,
    ;
    assert(0 <= (512 + red_mean) * (dr * dr) <= 767 * 65025) by (nonlinear_arith)
        requires
            0 <= red_mean <= 255,
            0 <= dr * dr <= 65025,
    ;
    assert(0 <= (767 - red_mean) * (db * db) <= 767 * 65025) by (nonlinear_arith)
        requires
            0 <= red_mean <= 255,
            0 <= db * db <= 65025,
    ;
    assert((512 + red_mean) * dr * dr == (512 + red_mean) * (dr * dr)) by (nonlinear_arith);
    assert((767 - red_mean) * db * db == (767 - red_mean) * (db * db)) by (nonlinear_arith);
    assert(1024 * dg * dg == 1024 * (dg * dg)) by (nonlinear_arith);
}

/// Computes the redmean distance in 32-bit integers.
fn distance(c: &ColorTriplet, e: (u8, u8, u8)) -> (d: i32)
    ensures
        d == redmean_distance(*c, e),
{
    proof {
        lemma_distance_bounds(*c, e);
    }
    let red1 = c.red as i32;
    let green1 = c.green as i32;
    let blue1 = c.blue as i32;
    let red2 = e.0 as i32;
    let green2 = e.1 as i32;
    let blue2 = e.2 as i32;
    let red_mean = (red1 + red2) / 2;
    let red_diff = red1 - red2;
    let green_diff = green1 - green2;
    let blue_diff = blue1 - blue2;
    assert(0 <= red_diff * red_diff <= 65025 && 0 <= green_diff * green_diff <= 65025 && 0
        <= blue_diff * blue_diff <= 65025) by (nonlinear_arith)
        requires
            -255 <= red_diff <= 255,
            -255 <= green_diff <= 255,
            -255 <= blue_diff <= 255,
    ;
    let rr = red_diff * red_diff;
    let gg = green_diff * green_diff;
    let bb = blue_diff * blue_diff;
    assert(0 <= (512 + red_mean) * rr <= 767 * 65025) by (nonlinear_arith)
        requires
            0 <= red_mean <= 255,
            0 <= rr <= 65025,
    ;
    assert(0 <= (767 - red_mean) * bb <= 767 * 65025) by (nonlinear_arith)
        requires
            0 <= red_mean <= 255,
            0 <= bb <= 65025,
    ;
    let a = (512 + red_mean) * rr;
    let b = 1024 * gg;
    let cc = (767 - red_mean) * bb;
    assert(a + b + cc == redmean_distance(*c, e)) by (nonlinear_arith)
        requires
            red_mean == (c.red + e.0) / 2,
            red_diff == c.red - e.0,
            green_diff == c.green - e.1,
            blue_diff == c.blue - e.2,
            rr == red_diff * red_diff,
            gg == green_diff * green_diff,
            bb == blue_diff * blue_diff,
            a == (512 + red_mean) * rr,
            b == 1024 * gg,
            cc == (767 - red_mean) * bb,
    ;
    a + b + cc
}

impl Palette {
    /// Creates a new palette from a vector of RGB tuples.
    pub fn new(colors: Vec<(u8, u8, u8)>) -> (p: Self)
        ensures
            p@ == colors@,
    {
        Self { colors }
    }

    /// Returns the number of colors in the palette.
    pub fn len(&self) -> (n: usize)
        ensures
            n == self@.len(),
    {
        self.colors.len()
    }

    /// Returns `true` if the palette contains no colors.
    pub fn is_empty(&self) -> (b: bool)
        ensures
            b == (self@.len() == 0),
    {
        self.colors.len() == 0
    }

    /// Gets the color at the given index as a ColorTriplet.
    pub fn get(&self, index: usize) -> (t: ColorTriplet)
        requires
            index < self@.len(),
        ensures
            t == entry_triplet(self@[index as int]),
    {
        let (r, g, b) = self.colors[index];
        ColorTriplet::new(r, g, b)
    }

    /// Finds the index of the closest matching color in the palette, using the
    /// "redmean" weighted distance; ties go to the lowest index. An empty
    /// palette yields 0.
    pub fn match_color(&self, color: &ColorTriplet) -> (i: usize)
        ensures
            self@.len() == 0 ==> i == 0,
            self@.len() > 0 ==> is_first_closest(self@, *color, i as int),
    {
        let n = self.colors.len();
        if n == 0 {
            return 0;
        }
        let mut min_index: usize = 0;
        let mut min_distance: i32 = distance(color, self.colors[0]);
        let mut index: usize = 1;
        while index < n
            invariant
                n == self@.len(),
                1 <= index <= n,
                min_index < index,
                min_distance == redmean_distance(*color, self@[min_index as int]),
                forall|j: int| 0 <= j < index ==>
                    min_distance <= #[trigger] redmean_distance(*color, self@[j]),
                forall|j: int| 0 <= j < min_index ==>
                    min_distance < #[trigger] redmean_distance(*color, self@[j]),
            decreases n - index,
        {
            let d = distance(color, self.colors[index]);
            if d < min_distance {
                min_distance = d;
                min_index = index;
            }
            index = index + 1;
        }
        min_index
    }
}

/// The first sixteen entries shared by the 8-bit palette.
pub open spec fn eight_bit_base(i: int) -> (u8, u8, u8) {
    if i == 0 { (0, 0, 0) }
    else if i == 1 { (128, 0, 0) }
    else if i == 2 { (0, 128, 0) }
    else if i == 3 { (128, 128, 0) }
    else if i == 4 { (0, 0, 128) }
    else if i == 5 { (128, 0, 128) }
    else if i == 6 { (0, 128, 128) }
    else if i == 7 { (192, 192, 192) }
    else if i == 8 { (128, 128, 128) }
    else if i == 9 { (255, 0, 0) }
    else if i == 10 { (0, 255, 0) }
    else if i == 11 { (255, 255, 0) }
    else if i == 12 { (0, 0, 255) }
    else if i == 13 { (255, 0, 255) }
    else if i == 14 { (0, 255, 255) }
    else { (255, 255, 255) }
}

/// One level of the 6×6×6 color cube: 0, 95, 135, 175, 215, 255.
pub open spec fn cube_level(k: int) -> u8 {
    if k == 0 { 0 } else { (55 + 40 * k) as u8 }
}

/// Entry `i` of the 256-color palette: sixteen base colors, the 6×6×6 cube
/// (red major, blue minor), then a 24-step gray ramp from 8 to 238.
pub open spec fn eight_bit_entry(i: int) -> (u8, u8, u8) {
    if i < 16 {
        eight_bit_base(i)
    } else if i < 232 {
        let k = i - 16;
        (cube_level(k / 36), cube_level((k / 6) % 6), cube_level(k % 6))
    } else {
        let g = (8 + (i - 232) * 10) as u8;
        (g, g, g)
    }
}

fn cube_level_exec(k: u8) -> (v: u8)
    requires
        k < 6,
    ensures
        v == cube_level(k as int),
{
    if k == 0 { 0 } else { 55 + 40 * k }
}

/// Generates the 8-bit (256-color) ANSI palette entries.
pub fn generate_eight_bit_palette() -> (colors: Vec<(u8, u8, u8)>)
    ensures
        colors@.len() == 256,
        forall|i: int| 0 <= i < 256 ==> #[trigger] colors@[i] == eight_bit_entry(i),
{
    let mut colors: Vec<(u8, u8, u8)> = vec![
        (0, 0, 0),
        (128, 0, 0),
        (0, 128, 0),
        (128, 128, 0),
        (0, 0, 128),
        (128, 0, 128),
        (0, 128, 128),
        (192, 192, 192),
        (128, 128, 128),
        (255, 0, 0),
        (0, 255, 0),
        (255, 255, 0),
        (0, 0, 255),
        (255, 0, 255),
        (0, 255, 255),
        (255, 255, 255),
    ];
    assert forall|i: int| 0 <= i < 16 implies #[trigger] colors@[i] == eight_bit_entry(i) by {}
    let mut k: u8 = 0;
    while k < 216
        invariant
            k <= 216,
            colors@.len() == 16 + k,
            forall|i: int| 0 <= i < 16 + k ==> #[trigger] colors@[i] == eight_bit_entry(i),
        decreases 216 - k,
    {
        let r = cube_level_exec(k / 36);
        let g = cube_level_exec((k / 6) % 6);
        let b = cube_level_exec(k % 6);
        colors.push((r, g, b));
        k = k + 1;
    }
    let mut i: u8 = 0;
    while i < 24
        invariant
            i <= 24,
            colors@.len() == 232 + i,
            forall|j: int| 0 <= j < 232 + i ==> #[trigger] colors@[j] == eight_bit_entry(j),
        decreases 24 - i,
    {
        let gray = 8 + i * 10;
        colors.push((gray, gray, gray));
        i = i + 1;
    }
    colors
}

/// Standard 16-color ANSI palette.
pub open spec fn spec_standard_palette() -> Seq<(u8, u8, u8)> {
    seq![
        (0u8, 0u8, 0u8),
        (170, 0, 0),
        (0, 170, 0),
        (170, 85, 0),
        (0, 0, 170),
        (170, 0, 170),
        (0, 170, 170),
        (170, 170, 170),
        (85, 85, 85),
        (255, 85, 85),
        (85, 255, 85),
        (255, 255, 85),
        (85, 85, 255),
        (255, 85, 255),
        (85, 255, 255),
        (255, 255, 255),
    ]
}

/// Windows 10 console 16-color palette.
pub open spec fn spec_windows_palette() -> Seq<(u8, u8, u8)> {
    seq![
        (12u8, 12u8, 12u8),
        (197, 15, 31),
        (19, 161, 14),
        (193, 156, 0),
        (0, 55, 218),
        (136, 23, 152),
        (58, 150, 221),
        (204, 204, 204),
        (118, 118, 118),
        (231, 72, 86),
        (22, 198, 12),
        (249, 241, 165),
        (59, 120, 255),
        (180, 0, 158),
        (97, 214, 214),
        (242, 242, 242),
    ]
}

/// Standard 16-color ANSI palette.
pub fn standard_palette() -> (p: Palette)
    ensures
        p@ == spec_standard_palette(),
{
    let p = Palette::new(vec![
        (0, 0, 0),
        (170, 0, 0),
        (0, 170, 0),
        (170, 85, 0),
        (0, 0, 170),
        (170, 0, 170),
        (0, 170, 170),
        (170, 170, 170),
        (85, 85, 85),
        (255, 85, 85),
        (85, 255, 85),
        (255, 255, 85),
        (85, 85, 255),
        (255, 85, 255),
        (85, 255, 255),
        (255, 255, 255),
    ]);
    assert(p@ =~= spec_standard_palette());
    p
}

/// Windows 10 console 16-color palette.
pub fn windows_palette() -> (p: Palette)
    ensures
        p@ == spec_windows_palette(),
{
    let p = Palette::new(vec![
        (12, 12, 12),
        (197, 15, 31),
        (19, 161, 14),
        (193, 156, 0),
        (0, 55, 218),
        (136, 23, 152),
        (58, 150, 221),
        (204, 204, 204),
        (118, 118, 118),
        (231, 72, 86),
        (22, 198, 12),
        (249, 241, 165),
        (59, 120, 255),
        (180, 0, 158),
        (97, 214, 214),
        (242, 242, 242),
    ]);
    assert(p@ =~= spec_windows_palette());
    p
}

/// 8-bit (256-color) ANSI palette.
pub fn eight_bit_palette() -> (p: Palette)
    ensures
        p@.len() == 256,
        forall|i: int| 0 <= i < 256 ==> #[trigger] p@[i] == eight_bit_entry(i),
{
    Palette::new(generate_eight_bit_palette())
}

} // verus!
