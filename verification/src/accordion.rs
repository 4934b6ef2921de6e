//! Accordions: collapsible panels with a title and content, alone or in
//! groups where opening one panel may close the others.
//!
//! Styles are held by their definition text; the empty text is the null
//! style. The content is held as plain text.

use vstd::prelude::*;
use crate::breadcrumbs::{join, trim_newlines};
use crate::color::push_str_chars;
use crate::color_parse::{copy_chars, split_chars, split_on};
use crate::strutil::{chars_of, string_from_chars};

verus! {

/// A collapsible panel: a title line with an icon, and content shown only
/// while expanded.
#[derive(Debug, Clone)]
pub struct Accordion {
    pub title: String,
    pub content: String,
    pub collapsed: bool,
    pub style: String,
    pub title_style: String,
    pub icon_style: String,
    pub expand_icon: String,
    pub collapse_icon: String,
    pub indent: usize,
}

impl Accordion {
    /// An expanded accordion with null styles, the `▶`/`▼` icons and an
    /// indent of 2.
    pub fn new(title: &str, content: &str) -> (a: Accordion)
        ensures
            a.title@ == title@,
            a.content@ == content@,
            !a.collapsed,
            a.style@ == Seq::<char>::empty(),
            a.title_style@ == Seq::<char>::empty(),
            a.icon_style@ == Seq::<char>::empty(),
            a.expand_icon@ == "▶"@,
            a.collapse_icon@ == "▼"@,
            a.indent == 2,
    {
        Accordion {
            title: String::from_str(title),
            content: String::from_str(content),
            collapsed: false,
            style: String::new(),
            title_style: String::new(),
            icon_style: String::new(),
            expand_icon: String::from_str("▶"),
            collapse_icon: String::from_str("▼"),
            indent: 2,
        }
    }

    /// The accordion, collapsed or expanded.
    pub fn collapsed(self, collapsed: bool) -> (a: Accordion)
        ensures
            a == (Accordion { collapsed, ..self }),
    {
        Accordion { collapsed, ..self }
    }

    /// Flip between collapsed and expanded.
    pub fn toggle(&mut self)
        ensures
            *final(self) == (Accordion { collapsed: !old(self).collapsed, ..*old(self) }),
    {
        self.collapsed = !self.collapsed;
    }

    /// Expand (show the content).
    pub fn expand(&mut self)
        ensures
            *final(self) == (Accordion { collapsed: false, ..*old(self) }),
    {
        self.collapsed = false;
    }

    /// Collapse (hide the content).
    pub fn collapse(&mut self)
        ensures
            *final(self) == (Accordion { collapsed: true, ..*old(self) }),
    {
        self.collapsed = true;
    }

    /// Whether the content is hidden.
    pub fn is_collapsed(&self) -> (b: bool)
        ensures
            b == self.collapsed,
    {
        self.collapsed
    }

    /// The accordion with another overall style.
    pub fn style(self, style: &str) -> (a: Accordion)
        ensures
            a.style@ == style@,
            a == (Accordion { style: a.style, ..self }),
    {
        Accordion { style: String::from_str(style), ..self }
    }

    /// The accordion with another title style.
    pub fn title_style(self, style: &str) -> (a: Accordion)
        ensures
            a.title_style@ == style@,
            a == (Accordion { title_style: a.title_style, ..self }),
    {
        Accordion { title_style: String::from_str(style), ..self }
    }

    /// The accordion with another icon style.
    pub fn icon_style(self, style: &str) -> (a: Accordion)
        ensures
            a.icon_style@ == style@,
            a == (Accordion { icon_style: a.icon_style, ..self }),
    {
        Accordion { icon_style: String::from_str(style), ..self }
    }

    /// The accordion with other icons: `expand` is shown while collapsed,
    /// `collapse` while expanded.
    pub fn icons(self, expand: &str, collapse: &str) -> (a: Accordion)
        ensures
            a.expand_icon@ == expand@,
            a.collapse_icon@ == collapse@,
            a == (Accordion { expand_icon: a.expand_icon, collapse_icon: a.collapse_icon, ..self }),
    {
        Accordion { expand_icon: String::from_str(expand), collapse_icon: String::from_str(collapse), ..self }
    }

    /// The accordion with another content indent.
    pub fn indent(self, indent: usize) -> (a: Accordion)
        ensures
            a == (Accordion { indent, ..self }),
    {
        Accordion { indent, ..self }
    }

    /// The icon shown now: the expand icon while collapsed, else the collapse icon.
    pub fn current_icon(&self) -> (r: &str)
        ensures
            r@ == if self.collapsed { self.expand_icon@ } else { self.collapse_icon@ },
    {
        if self.collapsed {
            self.expand_icon.as_str()
        } else {
            self.collapse_icon.as_str()
        }
    }
}

/// Toggling twice leaves an accordion as it was.
pub proof fn lemma_toggle_twice(a: Accordion)
    ensures
        (Accordion { collapsed: !(Accordion { collapsed: !a.collapsed, ..a }).collapsed, ..a }) == a,
{
}

/// A group of accordions.
#[derive(Debug, Clone)]
pub struct AccordionGroup {
    pub items: Vec<Accordion>,
    pub allow_multiple_open: bool,
}

/// `a` with its collapsed flag set to `c`.
pub open spec fn with_collapsed(a: Accordion, c: bool) -> Accordion {
    Accordion { collapsed: c, ..a }
}

/// The group's items after opening item `index` (when it exists): with
/// `allow_multiple_open` only that item opens; otherwise it opens and every
/// other item closes.
pub open spec fn spec_expand_item(items: Seq<Accordion>, allow_multiple_open: bool, index: int) -> Seq<Accordion> {
    if index < 0 || index >= items.len() {
        items
    } else if allow_multiple_open {
        items.update(index, with_collapsed(items[index], false))
    } else {
        Seq::new(items.len(), |i: int| with_collapsed(items[i], i != index))
    }
}

impl AccordionGroup {
    /// A group of `items` where several may be open at once.
    pub fn new(items: Vec<Accordion>) -> (g: AccordionGroup)
        ensures
            g.items@ == items@,
            g.allow_multiple_open,
    {
        AccordionGroup { items, allow_multiple_open: true }
    }

    /// The group, allowing several open items or only one.
    pub fn allow_multiple_open(self, allow: bool) -> (g: AccordionGroup)
        ensures
            g.items@ == self.items@,
            g.allow_multiple_open == allow,
    {
        AccordionGroup { allow_multiple_open: allow, ..self }
    }

    fn set_all(&mut self, collapsed: bool)
        ensures
            final(self).allow_multiple_open == old(self).allow_multiple_open,
            final(self).items@ == Seq::new(old(self).items@.len(), |i: int| with_collapsed(old(self).items@[i], collapsed)),
    {
        let ghost orig = self.items@;
        let n = self.items.len();
        let mut i: usize = 0;
        while i < n
            invariant
                n == orig.len(),
                i <= n,
                self.items@.len() == n,
                self.allow_multiple_open == old(self).allow_multiple_open,
                orig == old(self).items@,
                forall|k: int| 0 <= k < i ==> #[trigger] self.items@[k] == with_collapsed(orig[k], collapsed),
                forall|k: int| i <= k < n ==> #[trigger] self.items@[k] == orig[k],
            decreases n - i,
        {
            let ghost before = self.items@;
            let mut item = self.items[i].clone_accordion();
            item.collapsed = collapsed;
            self.items.set(i, item);
            proof {
                assert forall|k: int| 0 <= k < i + 1 implies #[trigger] self.items@[k] == with_collapsed(orig[k], collapsed) by {
                    if k < i {
                        assert(self.items@[k] == before[k]);
                    }
                }
            }
            i = i + 1;
        }
        assert(self.items@ =~= Seq::new(orig.len(), |i: int| with_collapsed(orig[i], collapsed)));
    }

    /// Open every item.
    pub fn expand_all(&mut self)
        ensures
            final(self).allow_multiple_open == old(self).allow_multiple_open,
            final(self).items@ == Seq::new(old(self).items@.len(), |i: int| with_collapsed(old(self).items@[i], false)),
    {
        self.set_all(false);
    }

    /// Close every item.
    pub fn collapse_all(&mut self)
        ensures
            final(self).allow_multiple_open == old(self).allow_multiple_open,
            final(self).items@ == Seq::new(old(self).items@.len(), |i: int| with_collapsed(old(self).items@[i], true)),
    {
        self.set_all(true);
    }

    /// Append an accordion.
    pub fn push(&mut self, accordion: Accordion)
        ensures
            final(self).allow_multiple_open == old(self).allow_multiple_open,
            final(self).items@ == old(self).items@.push(accordion),
    {
        self.items.push(accordion);
    }

    /// Open item `index`; when only one item may be open, close the others.
    /// An index past the end changes nothing.
    pub fn expand_item(&mut self, index: usize)
        ensures
            final(self).allow_multiple_open == old(self).allow_multiple_open,
            final(self).items@ == spec_expand_item(old(self).items@, old(self).allow_multiple_open, index as int),
    {
        if index >= self.items.len() {
            return;
        }
        if !self.allow_multiple_open {
            let ghost orig = self.items@;
            let n = self.items.len();
            let mut i: usize = 0;
            while i < n
                invariant
                    n == orig.len(),
                    i <= n,
                    index < n,
                    self.items@.len() == n,
                    self.allow_multiple_open == old(self).allow_multiple_open,
                    orig == old(self).items@,
                    forall|k: int| 0 <= k < i ==> #[trigger] self.items@[k] == with_collapsed(orig[k], k != index),
                    forall|k: int| i <= k < n ==> #[trigger] self.items@[k] == orig[k],
                decreases n - i,
            {
                let ghost before = self.items@;
                let mut item = self.items[i].clone_accordion();
                item.collapsed = i != index;
                self.items.set(i, item);
                proof {
                    assert forall|k: int| 0 <= k < i + 1 implies #[trigger] self.items@[k] == with_collapsed(orig[k], k != index) by {
                        if k < i {
                            assert(self.items@[k] == before[k]);
                        }
                    }
                }
                i = i + 1;
            }
            assert(self.items@ =~= spec_expand_item(orig, false, index as int));
        } else {
            let mut item = self.items[index].clone_accordion();
            item.collapsed = false;
            self.items.set(index, item);
        }
    }
}

impl Accordion {
    /// A copy of the accordion.
    fn clone_accordion(&self) -> (a: Accordion)
        ensures
            a == *self,
    {
        Accordion {
            title: self.title.clone(),
            content: self.content.clone(),
            collapsed: self.collapsed,
            style: self.style.clone(),
            title_style: self.title_style.clone(),
            icon_style: self.icon_style.clone(),
            expand_icon: self.expand_icon.clone(),
            collapse_icon: self.collapse_icon.clone(),
            indent: self.indent,
        }
    }
}

/// When only one item may be open, opening an item that exists leaves it the
/// only open item.
pub proof fn lemma_expand_item_exclusive(items: Seq<Accordion>, index: int)
    requires
        0 <= index < items.len(),
    ensures
        forall|i: int| 0 <= i < items.len() ==> #[trigger] spec_expand_item(items, false, index)[i].collapsed == (i != index),
        spec_expand_item(items, false, index).len() == items.len(),
{
}

/// Opening an item that exists leaves it expanded, whatever state it was in
/// and whether or not several items may be open; only the items' expanded
/// state changes, and when several items may be open every other item keeps
/// its state.
pub proof fn lemma_expand_item_opens(items: Seq<Accordion>, allow_multiple_open: bool, index: int)
    requires
        0 <= index < items.len(),
    ensures
        ({
            let r = spec_expand_item(items, allow_multiple_open, index);
            &&& r.len() == items.len()
            &&& !r[index].collapsed
            &&& forall|i: int| 0 <= i < items.len() ==> #[trigger] r[i] == with_collapsed(items[i], r[i].collapsed)
            &&& allow_multiple_open ==> forall|i: int| 0 <= i < items.len() && i != index ==> #[trigger] r[i] == items[i]
        }),
{
    let r = spec_expand_item(items, allow_multiple_open, index);
    assert forall|i: int| 0 <= i < items.len() implies #[trigger] r[i] == with_collapsed(items[i], r[i].collapsed) by {
        if allow_multiple_open && i != index {
            assert(r[i] == items[i]);
        }
    }
}

/// Opening the same item twice gives the same group as opening it once.
pub proof fn lemma_expand_item_idempotent(items: Seq<Accordion>, allow_multiple_open: bool, index: int)
    ensures
        spec_expand_item(spec_expand_item(items, allow_multiple_open, index), allow_multiple_open, index)
            == spec_expand_item(items, allow_multiple_open, index),
{
    let r = spec_expand_item(items, allow_multiple_open, index);
    let r2 = spec_expand_item(r, allow_multiple_open, index);
    if 0 <= index < items.len() {
        assert(r2 =~= r);
    }
}

} // verus!

verus! {

// ---------------------------------------------------------------------------
// Plain rendering
// ---------------------------------------------------------------------------

/// A content line indented by `indent` spaces; an empty line stays empty.
pub open spec fn indent_line(l: Seq<char>, indent: nat) -> Seq<char> {
    if l.len() == 0 {
        l
    } else {
        Seq::new(indent, |_i: int| ' ') + l
    }
}

/// The lines of an accordion: the current icon, a space and the title;
/// then, when expanded, each `\n`-separated line of the content, indented.
pub open spec fn accordion_lines(a: Accordion) -> Seq<Seq<char>> {
    let icon = if a.collapsed { a.expand_icon@ } else { a.collapse_icon@ };
    let header = icon + seq![' '] + a.title@;
    if a.collapsed {
        seq![header]
    } else {
        seq![header] + split_on(a.content@, '\n').map_values(|l: Seq<char>| indent_line(l, a.indent as nat))
    }
}

/// The lines of a group: the lines of each accordion, with an empty line
/// between two accordions.
pub open spec fn group_lines(items: Seq<Accordion>) -> Seq<Seq<char>>
    decreases items.len(),
{
    if items.len() == 0 {
        Seq::empty()
    } else if items.len() == 1 {
        accordion_lines(items[0])
    } else {
        group_lines(items.drop_last()) + seq![Seq::<char>::empty()] + accordion_lines(items.last())
    }
}

/// The views of a list of character vectors.
pub open spec fn lines_view(v: Seq<Vec<char>>) -> Seq<Seq<char>> {
    Seq::new(v.len(), |i: int| v[i]@)
}

fn push_chars(out: &mut Vec<char>, s: &Vec<char>)
    ensures
        final(out)@ == old(out)@ + s@,
{
    let mut i: usize = 0;
    while i < s.len()
        invariant
            i <= s@.len(),
            out@ =~= old(out)@ + s@.take(i as int),
        decreases s@.len() - i,
    {
        out.push(s[i]);
        i = i + 1;
        assert(out@ =~= old(out)@ + s@.take(i as int));
    }
    assert(s@.take(s@.len() as int) =~= s@);
}

/// Appends the lines of `a` to `out`.
fn push_accordion_lines(out: &mut Vec<Vec<char>>, a: &Accordion)
    ensures
        lines_view(final(out)@) == lines_view(old(out)@) + accordion_lines(*a),
{
    let ghost before = lines_view(out@);
    let mut header: Vec<char> = Vec::new();
    push_str_chars(&mut header, a.current_icon());
    header.push(' ');
    push_str_chars(&mut header, a.title.as_str());
    assert(header@ =~= accordion_lines(*a)[0]);
    let ghost old_out = out@;
    out.push(header);
    proof {
        assert(out@ == old_out.push(header));
        assert forall|j: int| 0 <= j < old_out.len() implies lines_view(out@)[j] == before[j] by {
            assert(out@[j] == old_out[j]);
        }
        assert(lines_view(out@) =~= before + seq![accordion_lines(*a)[0]]);
    }
    if a.collapsed {
        assert(accordion_lines(*a) =~= seq![accordion_lines(*a)[0]]);
        return;
    }
    let cs = chars_of(a.content.as_str());
    let (mut parts, last) = split_chars(cs.as_slice(), '\n');
    parts.push(last);
    let ghost pieces = split_on(a.content@, '\n');
    let ghost mapped = pieces.map_values(|l: Seq<char>| indent_line(l, a.indent as nat));
    assert(parts@.len() == pieces.len());
    assert(forall|j: int| 0 <= j < parts@.len() ==> (#[trigger] parts@[j])@ == pieces[j]);
    let ghost start = lines_view(out@);
    let mut i: usize = 0;
    while i < parts.len()
        invariant
            i <= parts@.len(),
            parts@.len() == pieces.len(),
            forall|j: int| 0 <= j < parts@.len() ==> (#[trigger] parts@[j])@ == pieces[j],
            mapped == pieces.map_values(|l: Seq<char>| indent_line(l, a.indent as nat)),
            lines_view(out@) =~= start + mapped.take(i as int),
        decreases parts@.len() - i,
    {
        let mut line: Vec<char> = Vec::new();
        if parts[i].len() > 0 {
            let mut k: usize = 0;
            while k < a.indent
                invariant
                    k <= a.indent,
                    line@ =~= Seq::new(k as nat, |_i: int| ' '),
                decreases a.indent - k,
            {
                line.push(' ');
                k = k + 1;
                assert(line@ =~= Seq::new(k as nat, |_i: int| ' '));
            }
        }
        push_chars(&mut line, &parts[i]);
        proof {
            assert(line@ == indent_line(pieces[i as int], a.indent as nat)) by {
                if parts@[i as int]@.len() == 0 {
                    assert(line@ =~= pieces[i as int]);
                }
            }
        }
        let ghost old_out = out@;
        let ghost lv = line@;
        out.push(line);
        proof {
            assert(out@ == old_out.push(line));
            assert forall|j: int| 0 <= j < old_out.len() implies lines_view(out@)[j] == lines_view(old_out)[j] by {
                assert(out@[j] == old_out[j]);
            }
            assert(mapped[i as int] == lv);
            assert(lines_view(out@) =~= lines_view(old_out).push(lv));
            assert(mapped.take(i + 1) =~= mapped.take(i as int).push(mapped[i as int]));
            assert(start + mapped.take(i + 1) =~= (start + mapped.take(i as int)).push(lv));
            assert(lines_view(out@) =~= start + mapped.take(i + 1));
        }
        i = i + 1;
    }
    assert(mapped.take(mapped.len() as int) =~= mapped);
    assert(accordion_lines(*a) =~= seq![accordion_lines(*a)[0]] + mapped);
}

/// The lines joined by newlines, without trailing newlines.
fn join_trimmed(lines: &Vec<Vec<char>>) -> (s: String)
    ensures
        s@ == trim_newlines(join(lines_view(lines@), seq!['\n'])),
{
    let ghost ls = lines_view(lines@);
    let mut out: Vec<char> = Vec::new();
    let mut i: usize = 0;
    assert(ls.take(0) =~= Seq::<Seq<char>>::empty());
    while i < lines.len()
        invariant
            i <= lines@.len(),
            ls == lines_view(lines@),
            out@ == join(ls.take(i as int), seq!['\n']),
        decreases lines@.len() - i,
    {
        let ghost pre = out@;
        if i > 0 {
            out.push('\n');
        }
        push_chars(&mut out, &lines[i]);
        proof {
            assert(ls.take(i + 1).drop_last() =~= ls.take(i as int));
            assert(ls.take(i + 1).last() == lines@[i as int]@);
            if i == 0 {
                assert(out@ =~= ls.take(1)[0]);
            } else {
                assert(out@ =~= pre + seq!['\n'] + lines@[i as int]@);
            }
        }
        i = i + 1;
    }
    assert(ls.take(ls.len() as int) =~= ls);
    let mut n = out.len();
    assert(out@.take(n as int) =~= out@);
    while n > 0 && out[n - 1] == '\n'
        invariant
            n <= out@.len(),
            trim_newlines(out@.take(n as int)) == trim_newlines(out@),
        decreases n,
    {
        proof {
            assert(out@.take(n as int).drop_last() =~= out@.take(n - 1));
        }
        n = n - 1;
    }
    proof {
        assert(trim_newlines(out@.take(n as int)) == out@.take(n as int));
    }
    let kept = copy_chars(&out.as_slice()[0..n]);
    proof {
        assert(out@.subrange(0, n as int) =~= out@.take(n as int));
    }
    string_from_chars(&kept)
}

fn to_strings(v: &Vec<Vec<char>>) -> (r: Vec<String>)
    ensures
        r@.len() == v@.len(),
        forall|i: int| 0 <= i < v@.len() ==> (#[trigger] r@[i])@ == v@[i]@,
{
    let mut r: Vec<String> = Vec::new();
    let mut i: usize = 0;
    while i < v.len()
        invariant
            i <= v@.len(),
            r@.len() == i,
            forall|j: int| 0 <= j < i ==> (#[trigger] r@[j])@ == v@[j]@,
        decreases v@.len() - i,
    {
        r.push(string_from_chars(&v[i]));
        i = i + 1;
    }
    r
}

impl Accordion {
    /// The drawn accordion, line by line; see [`accordion_lines`]. The
    /// content's lines are not wrapped to a width.
    pub fn lines(&self) -> (r: Vec<String>)
        ensures
            r@.len() == accordion_lines(*self).len(),
            forall|i: int| 0 <= i < r@.len() ==> (#[trigger] r@[i])@ == accordion_lines(*self)[i],
    {
        let mut out: Vec<Vec<char>> = Vec::new();
        push_accordion_lines(&mut out, self);
        assert(lines_view(out@) =~= accordion_lines(*self));
        let r = to_strings(&out);
        assert forall|i: int| 0 <= i < r@.len() implies (#[trigger] r@[i])@ == accordion_lines(*self)[i] by {
            assert(lines_view(out@)[i] == out@[i]@);
        }
        r
    }

    /// The drawn accordion as text: its lines joined by newlines, without
    /// trailing newlines.
    pub fn to_string(&self) -> (s: String)
        ensures
            s@ == trim_newlines(join(accordion_lines(*self), seq!['\n'])),
    {
        let mut out: Vec<Vec<char>> = Vec::new();
        push_accordion_lines(&mut out, self);
        assert(lines_view(out@) =~= accordion_lines(*self));
        join_trimmed(&out)
    }
}

impl AccordionGroup {
    /// The drawn group as text: its lines joined by newlines, without
    /// trailing newlines; see [`group_lines`].
    pub fn to_string(&self) -> (s: String)
        ensures
            s@ == trim_newlines(join(group_lines(self.items@), seq!['\n'])),
    {
        let mut out: Vec<Vec<char>> = Vec::new();
        let ghost items = self.items@;
        let mut i: usize = 0;
        assert(lines_view(out@) =~= group_lines(items.take(0)));
        while i < self.items.len()
            invariant
                i <= items.len(),
                items == self.items@,
                lines_view(out@) == group_lines(items.take(i as int)),
            decreases items.len() - i,
        {
            let ghost pre = lines_view(out@);
            if i > 0 {
                out.push(Vec::new());
                assert(lines_view(out@) =~= pre + seq![Seq::<char>::empty()]);
            }
            push_accordion_lines(&mut out, &self.items[i]);
            proof {
                assert(items.take(i + 1).drop_last() =~= items.take(i as int));
                assert(items.take(i + 1).last() == items[i as int]);
                if i == 0 {
                    assert(lines_view(out@) =~= group_lines(items.take(i + 1)));
                }
            }
            i = i + 1;
        }
        assert(items.take(items.len() as int) =~= items);
        join_trimmed(&out)
    }
}

} // verus!
