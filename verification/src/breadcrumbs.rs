//! Breadcrumbs: a navigation path shown as items between separators.
//!
//! Styles are held by their definition text (such as `"dim"`); the empty
//! text is the null style.

use vstd::prelude::*;
use crate::color_parse::{copy_chars, split_chars, split_on, lemma_split_on_nonempty};
use crate::strutil::{chars_of, string_from_chars};

verus! {

/// A breadcrumbs widget for showing a navigation path.
#[derive(Debug, Clone, PartialEq, Eq)]
pub struct Breadcrumbs {
    items: Vec<String>,
    separator: String,
    style: String,
    separator_style: String,
    active_style: Option<String>,
}

/// The value of a [`Breadcrumbs`].
pub struct BreadcrumbsView {
    pub items: Seq<Seq<char>>,
    pub separator: Seq<char>,
    pub style: Seq<char>,
    pub separator_style: Seq<char>,
    pub active_style: Option<Seq<char>>,
}

/// The views of a sequence of strings.
pub open spec fn strings_view(v: Seq<String>) -> Seq<Seq<char>> {
    v.map_values(|s: String| s@)
}

impl View for Breadcrumbs {
    type V = BreadcrumbsView;

    closed spec fn view(&self) -> BreadcrumbsView {
        BreadcrumbsView {
            items: strings_view(self.items@),
            separator: self.separator@,
            style: self.style@,
            separator_style: self.separator_style@,
            active_style: match self.active_style {
                Some(s) => Some(s@),
                None => None,
            },
        }
    }
}

/// The non-empty parts, in order.
pub open spec fn nonempty(parts: Seq<Seq<char>>) -> Seq<Seq<char>>
    decreases parts.len(),
{
    if parts.len() == 0 {
        Seq::empty()
    } else if parts.last().len() > 0 {
        nonempty(parts.drop_last()).push(parts.last())
    } else {
        nonempty(parts.drop_last())
    }
}

/// The items joined by `sep`.
pub open spec fn join(items: Seq<Seq<char>>, sep: Seq<char>) -> Seq<char>
    decreases items.len(),
{
    if items.len() == 0 {
        Seq::empty()
    } else if items.len() == 1 {
        items[0]
    } else {
        join(items.drop_last(), sep) + sep + items.last()
    }
}

/// `s` without its trailing newlines.
pub open spec fn trim_newlines(s: Seq<char>) -> Seq<char>
    decreases s.len(),
{
    if s.len() > 0 && s.last() == '\n' {
        trim_newlines(s.drop_last())
    } else {
        s
    }
}

/// Breadcrumbs with `items`, the ` > ` separator, the null item style, the
/// `dim` separator style and no active style.
pub open spec fn default_crumbs(items: Seq<Seq<char>>) -> BreadcrumbsView {
    BreadcrumbsView {
        items,
        separator: " > "@,
        style: Seq::empty(),
        separator_style: "dim"@,
        active_style: None,
    }
}

fn copy_strings(v: &Vec<Vec<char>>) -> (r: Vec<String>)
    ensures
        r@.len() == v@.len(),
        forall|i: int| 0 <= i < v@.len() ==> #[trigger] r@[i]@ == v@[i]@,
{
    let mut r: Vec<String> = Vec::new();
    let mut i: usize = 0;
    while i < v.len()
        invariant
            i <= v@.len(),
            r@.len() == i,
            forall|k: int| 0 <= k < i ==> #[trigger] r@[k]@ == v@[k]@,
        decreases v@.len() - i,
    {
        r.push(string_from_chars(&v[i]));
        i = i + 1;
    }
    r
}

impl Breadcrumbs {
    /// Breadcrumbs from a `/`-separated path; empty components are left out.
    pub fn from_path(path: &str) -> (b: Breadcrumbs)
        ensures
            b@ == default_crumbs(nonempty(split_on(path@, '/'))),
    {
        let cs = chars_of(path);
        let (done, last) = split_chars(cs.as_slice(), '/');
        let ghost parts = split_on(path@, '/');
        proof {
            lemma_split_on_nonempty(path@, '/');
        }
        let mut kept: Vec<Vec<char>> = Vec::new();
        let mut i: usize = 0;
        while i < done.len()
            invariant
                i <= done@.len(),
                done@.len() + 1 == parts.len(),
                forall|k: int| 0 <= k < done@.len() ==> (#[trigger] done@[k])@ == parts[k],
                kept@.map_values(|v: Vec<char>| v@) == nonempty(parts.take(i as int)),
            decreases done@.len() - i,
        {
            let ghost pre = kept@.map_values(|v: Vec<char>| v@);
            proof {
                assert(parts.take(i as int + 1).drop_last() =~= parts.take(i as int));
                assert(parts.take(i as int + 1).last() == parts[i as int]);
            }
            if done[i].len() > 0 {
                kept.push(done[i].clone());
                proof {
                    assert(kept@.map_values(|v: Vec<char>| v@) =~= pre.push(parts[i as int]));
                }
            }
            i = i + 1;
        }
        let ghost pre = kept@.map_values(|v: Vec<char>| v@);
        proof {
            assert(parts.take(parts.len() as int) =~= parts);
            assert(parts.drop_last() =~= parts.take(i as int));
        }
        if last.len() > 0 {
            kept.push(last.clone());
            proof {
                assert(kept@.map_values(|v: Vec<char>| v@) =~= pre.push(parts.last()));
            }
        }
        let items = copy_strings(&kept);
        proof {
            assert(strings_view(items@) =~= kept@.map_values(|v: Vec<char>| v@));
        }
        Breadcrumbs::new(items)
    }

    /// Breadcrumbs of `items` with the ` > ` separator, the null item style,
    /// the `dim` separator style and no active style.
    pub fn new(items: Vec<String>) -> (b: Breadcrumbs)
        ensures
            b@ == default_crumbs(strings_view(items@)),
    {
        Breadcrumbs {
            items,
            separator: String::from_str(" > "),
            style: String::new(),
            separator_style: String::from_str("dim"),
            active_style: None,
        }
    }

    /// These breadcrumbs with another separator.
    pub fn separator(self, sep: &str) -> (b: Breadcrumbs)
        ensures
            b@ == (BreadcrumbsView { separator: sep@, ..self@ }),
    {
        Breadcrumbs { separator: String::from_str(sep), ..self }
    }

    /// These breadcrumbs with another item style.
    pub fn style(self, style: &str) -> (b: Breadcrumbs)
        ensures
            b@ == (BreadcrumbsView { style: style@, ..self@ }),
    {
        Breadcrumbs { style: String::from_str(style), ..self }
    }

    /// These breadcrumbs with another separator style.
    pub fn separator_style(self, style: &str) -> (b: Breadcrumbs)
        ensures
            b@ == (BreadcrumbsView { separator_style: style@, ..self@ }),
    {
        Breadcrumbs { separator_style: String::from_str(style), ..self }
    }

    /// These breadcrumbs with a style for the last (active) item.
    pub fn active_style(self, style: &str) -> (b: Breadcrumbs)
        ensures
            b@ == (BreadcrumbsView { active_style: Some(style@), ..self@ }),
    {
        Breadcrumbs { active_style: Some(String::from_str(style)), ..self }
    }

    /// Append an item.
    pub fn push(&mut self, item: &str)
        ensures
            final(self)@ == (BreadcrumbsView { items: old(self)@.items.push(item@), ..old(self)@ }),
    {
        self.items.push(String::from_str(item));
        proof {
            assert(strings_view(self.items@) =~= old(self)@.items.push(item@));
        }
    }

    /// Remove and return the last item, if any.
    pub fn pop(&mut self) -> (r: Option<String>)
        ensures
            old(self)@.items.len() == 0 ==> r is None && final(self)@ == old(self)@,
            old(self)@.items.len() > 0 ==> (r matches Some(s) && s@ == old(self)@.items.last() && final(self)@
                == (BreadcrumbsView { items: old(self)@.items.drop_last(), ..old(self)@ })),
    {
        let r = self.items.pop();
        proof {
            assert(strings_view(self.items@) =~= strings_view(old(self).items@).take(self.items@.len() as int));
            if old(self).items@.len() > 0 {
                assert(strings_view(self.items@) =~= old(self)@.items.drop_last());
            }
        }
        r
    }

    /// Breadcrumbs with the ` / ` separator.
    pub fn slash(items: Vec<String>) -> (b: Breadcrumbs)
        ensures
            b@ == (BreadcrumbsView { separator: " / "@, ..default_crumbs(strings_view(items@)) }),
    {
        Breadcrumbs::new(items).separator(" / ")
    }

    /// Breadcrumbs with the ` → ` separator.
    pub fn arrow(items: Vec<String>) -> (b: Breadcrumbs)
        ensures
            b@ == (BreadcrumbsView { separator: " → "@, ..default_crumbs(strings_view(items@)) }),
    {
        Breadcrumbs::new(items).separator(" → ")
    }

    /// Breadcrumbs with the ` › ` separator.
    pub fn chevron(items: Vec<String>) -> (b: Breadcrumbs)
        ensures
            b@ == (BreadcrumbsView { separator: " › "@, ..default_crumbs(strings_view(items@)) }),
    {
        Breadcrumbs::new(items).separator(" › ")
    }

    /// The number of items.
    pub fn len(&self) -> (n: usize)
        ensures
            n == self@.items.len(),
    {
        self.items.len()
    }

    /// Whether there are no items.
    pub fn is_empty(&self) -> (b: bool)
        ensures
            b == (self@.items.len() == 0),
    {
        self.items.len() == 0
    }

    /// The items.
    pub fn items(&self) -> (r: &[String])
        ensures
            strings_view(r@) == self@.items,
    {
        self.items.as_slice()
    }

    /// The separator.
    pub fn separator_str(&self) -> (r: &str)
        ensures
            r@ == self@.separator,
    {
        self.separator.as_str()
    }

    /// The item style.
    pub fn base_style(&self) -> (r: &str)
        ensures
            r@ == self@.style,
    {
        self.style.as_str()
    }

    /// The separator style.
    pub fn sep_style(&self) -> (r: &str)
        ensures
            r@ == self@.separator_style,
    {
        self.separator_style.as_str()
    }

    /// The style of the active item, if set.
    pub fn active_style_opt(&self) -> (r: Option<&str>)
        ensures
            match r {
                Some(s) => self@.active_style == Some(s@),
                None => self@.active_style is None,
            },
    {
        match &self.active_style {
            Some(s) => Some(s.as_str()),
            None => None,
        }
    }

    /// The breadcrumbs as text: the items joined by the separator, trailing
    /// newlines removed.
    pub fn to_string(&self) -> (s: String)
        ensures
            s@ == trim_newlines(join(self@.items, self@.separator)),
    {
        let ghost items = self@.items;
        let ghost sep = self@.separator;
        let mut out: Vec<char> = Vec::new();
        let mut i: usize = 0;
        while i < self.items.len()
            invariant
                i <= items.len(),
                items == strings_view(self.items@),
                sep == self.separator@,
                out@ == join(items.take(i as int), sep),
            decreases items.len() - i,
        {
            let ghost pre = out@;
            if i > 0 {
                let sc = chars_of(self.separator.as_str());
                let mut k: usize = 0;
                while k < sc.len()
                    invariant
                        k <= sc@.len(),
                        sc@ == sep,
                        out@ == pre + sep.take(k as int),
                    decreases sc@.len() - k,
                {
                    out.push(sc[k]);
                    k = k + 1;
                    assert(out@ =~= pre + sep.take(k as int));
                }
                assert(sep.take(sc@.len() as int) =~= sep);
            }
            let ghost mid = out@;
            let ic = chars_of(self.items[i].as_str());
            let mut k: usize = 0;
            while k < ic.len()
                invariant
                    k <= ic@.len(),
                    out@ == mid + ic@.take(k as int),
                decreases ic@.len() - k,
            {
                out.push(ic[k]);
                k = k + 1;
                assert(out@ =~= mid + ic@.take(k as int));
            }
            proof {
                assert(ic@.take(ic@.len() as int) =~= ic@);
                assert(ic@ == items[i as int]);
                assert(items.take(i as int + 1).drop_last() =~= items.take(i as int));
                if i == 0 {
                    assert(out@ =~= items.take(1)[0]);
                }
            }
            i = i + 1;
        }
        proof {
            assert(items.take(items.len() as int) =~= items);
        }
        let mut n = out.len();
        assert(out@.take(n as int) =~= out@);
        while n > 0 && out[n - 1] == '\n'
            invariant
                n <= out@.len(),
                trim_newlines(out@.take(n as int)) == trim_newlines(out@),
            decreases n,
        {
            proof {
                assert(out@.take(n as int).drop_last() =~= out@.take(n - 1));
            }
            n = n - 1;
        }
        proof {
            assert(trim_newlines(out@.take(n as int)) == out@.take(n as int));
        }
        let kept = copy_chars(&out[0..n]);
        proof {
            assert(out@.subrange(0, n as int) =~= out@.take(n as int));
        }
        string_from_chars(&kept)
    }
}


/// Pushing an item and then popping gives the item back and leaves the
/// breadcrumbs as they were.
pub proof fn lemma_push_then_pop(v: BreadcrumbsView, item: Seq<char>)
    ensures
        (BreadcrumbsView { items: v.items.push(item), ..v }).items.last() == item,
        (BreadcrumbsView { items: (BreadcrumbsView { items: v.items.push(item), ..v }).items.drop_last(), ..v }) == v,
{
    assert(v.items.push(item).drop_last() =~= v.items);
}

} // verus!
