//! The row geometry of a horizontal bar chart: how a row of `width` cells
//! splits into a label column, the bar, and a value column.
//!
//! A row is `label + space + bar + space + value`; the label column is as
//! wide as the widest label and the value column as wide as the widest
//! formatted value, each with its separating space, and only when it is not
//! empty. The values themselves are formatted by the caller.

use vstd::prelude::*;
use crate::cells::{cell_len, str_width};

verus! {

/// The views of a list of strings.
pub open spec fn strings_view(v: Seq<String>) -> Seq<Seq<char>> {
    Seq::new(v.len(), |i: int| v[i]@)
}

/// The largest cell width among `s`, 0 for none.
pub open spec fn widest(s: Seq<Seq<char>>) -> nat
    decreases s.len(),
{
    if s.len() == 0 {
        0
    } else {
        let m = widest(s.drop_last());
        let w = str_width(s.last()) as nat;
        if w > m {
            w
        } else {
            m
        }
    }
}

/// The width of a column of widest entry `w`: the entry and its separating
/// space, or nothing when the column is empty.
pub open spec fn region(w: nat) -> nat {
    if w > 0 {
        w + 1
    } else {
        0
    }
}

/// The row geometry of a bar chart.
#[derive(Debug, Clone, Copy, PartialEq, Eq, Structural)]
pub struct BarLayout {
    /// The width of the widest label.
    pub label_width: usize,
    /// The width of the widest formatted value (0 when values are hidden).
    pub value_width: usize,
    /// The label column with its separating space (0 without labels).
    pub label_region: usize,
    /// The value column with its separating space (0 when values are hidden
    /// or empty).
    pub value_region: usize,
    /// The cells left for the bar.
    pub bar_region: usize,
    /// The width of a row.
    pub total_width: usize,
}

/// The row width asked for: `width` when given, but never more than
/// `max_width`.
pub open spec fn row_width(width: Option<usize>, max_width: usize) -> nat {
    match width {
        Some(w) => if w < max_width { w as nat } else { max_width as nat },
        None => max_width as nat,
    }
}

/// The value column's width before the region is taken.
pub open spec fn value_col(values: Seq<Seq<char>>, show_values: bool) -> nat {
    if show_values {
        widest(values)
    } else {
        0
    }
}

/// Whether the label and value columns together fit in a `usize`.
pub open spec fn columns_fit(labels: Seq<Seq<char>>, values: Seq<Seq<char>>, show_values: bool) -> bool {
    region(widest(labels)) + region(value_col(values, show_values)) <= usize::MAX
}

/// The geometry of rows with labels `labels` and formatted values `values`:
/// the bar takes what the asked row width leaves after both columns (none
/// when they take it all), and the row is the columns and the bar.
pub open spec fn is_bar_layout(
    l: BarLayout,
    labels: Seq<Seq<char>>,
    values: Seq<Seq<char>>,
    show_values: bool,
    width: Option<usize>,
    max_width: usize,
) -> bool {
    let lr = region(widest(labels));
    let vr = region(value_col(values, show_values));
    let total = row_width(width, max_width);
    let bar = if total > lr + vr { total - lr - vr } else { 0 };
    &&& l.label_width == widest(labels)
    &&& l.value_width == value_col(values, show_values)
    &&& l.label_region == lr
    &&& l.value_region == vr
    &&& l.bar_region == bar
    &&& l.total_width == lr + bar + vr
}

fn widest_of(v: &Vec<String>) -> (w: usize)
    ensures
        w == widest(strings_view(v@)),
{
    let mut w: usize = 0;
    let mut i: usize = 0;
    assert(strings_view(v@).take(0) =~= Seq::<Seq<char>>::empty());
    while i < v.len()
        invariant
            i <= v@.len(),
            w == widest(strings_view(v@).take(i as int)),
        decreases v@.len() - i,
    {
        let c = cell_len(v[i].as_str());
        proof {
            let t = strings_view(v@).take(i + 1);
            assert(t.drop_last() =~= strings_view(v@).take(i as int));
            assert(t.last() == v@[i as int]@);
        }
        if c > w {
            w = c;
        }
        i = i + 1;
    }
    assert(strings_view(v@).take(v@.len() as int) =~= strings_view(v@));
    w
}

/// The row geometry of a bar chart whose rows have the labels `labels` and
/// the formatted values `value_strings`, with `width` the asked row width and
/// `max_width` the room there is. `None` exactly when the two columns
/// together are wider than a `usize` holds.
pub fn bar_layout(
    labels: &Vec<String>,
    value_strings: &Vec<String>,
    show_values: bool,
    width: Option<usize>,
    max_width: usize,
) -> (r: Option<BarLayout>)
    ensures
        r is Some <==> columns_fit(strings_view(labels@), strings_view(value_strings@), show_values),
        r matches Some(l) ==> is_bar_layout(
            l,
            strings_view(labels@),
            strings_view(value_strings@),
            show_values,
            width,
            max_width,
        ),
{
    let label_width = widest_of(labels);
    let value_width = if show_values { widest_of(value_strings) } else { 0 };
    let lr: u128 = if label_width > 0 { label_width as u128 + 1 } else { 0 };
    let vr: u128 = if show_values && value_width > 0 { value_width as u128 + 1 } else { 0 };
    if lr + vr > usize::MAX as u128 {
        return None;
    }
    let label_region = lr as usize;
    let value_region = vr as usize;
    let total = match width {
        Some(w) => if w < max_width { w } else { max_width },
        None => max_width,
    };
    let bar_region = if total > label_region + value_region { total - (label_region + value_region) } else { 0 };
    Some(BarLayout {
        label_width,
        value_width,
        label_region,
        value_region,
        bar_region,
        total_width: label_region + bar_region + value_region,
    })
}

} // verus!
