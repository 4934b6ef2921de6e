//! Named style collections: a [`Theme`] maps style names to style
//! definitions, and a [`ThemeStack`] layers themes for nested overrides.
//!
//! Style definitions are held as their definition text (such as
//! `"bold red on white"`); a theme reads and writes the INI form
//!
//! ```text
//! [styles]
//! info = dim cyan
//! warning = magenta
//! ```

use vstd::prelude::*;
use crate::strutil::{
    ascii_lower_seq, char_from_ascii, chars_eq_str, chars_of, dec, push_decimal_u64, string_from_chars,
    is_white_space, is_white_space_char, lemma_trim_end_at, lemma_trim_start_at, trim_chars, trim_end, trim_start, trimmed,
};
use crate::color_parse::{lemma_split_on_nonempty, split_chars, split_on};
use crate::ansi::{first_index, first_index_exec};
use crate::color::{push_str_chars, Color};
use crate::color_parse::{lowercased, normalized, parse_would_panic, spec_parse_normalized, to_lowercase_string};

verus! {

// ---------------------------------------------------------------------------
// Name order
// ---------------------------------------------------------------------------

/// Lexicographic order of names by character, the order of `str`
/// comparison (UTF-8 keeps the order of code points).
pub open spec fn name_lt(a: Seq<char>, b: Seq<char>) -> bool
    decreases a.len(),
{
    if a.len() == 0 {
        b.len() > 0
    } else if b.len() == 0 {
        false
    } else if a[0] != b[0] {
        a[0] < b[0]
    } else {
        name_lt(a.drop_first(), b.drop_first())
    }
}

/// No name sorts before itself.
pub proof fn lemma_name_lt_irreflexive(a: Seq<char>)
    ensures
        !name_lt(a, a),
    decreases a.len(),
{
    if a.len() > 0 {
        lemma_name_lt_irreflexive(a.drop_first());
    }
}

/// The name order is transitive.
pub proof fn lemma_name_lt_transitive(a: Seq<char>, b: Seq<char>, c: Seq<char>)
    requires
        name_lt(a, b),
        name_lt(b, c),
    ensures
        name_lt(a, c),
    decreases a.len(),
{
    if a.len() > 0 && b.len() > 0 && c.len() > 0 && a[0] == b[0] && b[0] == c[0] {
        lemma_name_lt_transitive(a.drop_first(), b.drop_first(), c.drop_first());
    }
}

/// Two different names are ordered one way or the other.
pub proof fn lemma_name_lt_total(a: Seq<char>, b: Seq<char>)
    requires
        a != b,
    ensures
        name_lt(a, b) || name_lt(b, a),
    decreases a.len(),
{
    if a.len() == 0 {
        assert(b.len() > 0) by {
            if b.len() == 0 {
                assert(a =~= b);
            }
        }
    } else if b.len() > 0 && a[0] == b[0] {
        if a.drop_first() == b.drop_first() {
            assert(a =~= seq![a[0]] + a.drop_first());
            assert(b =~= seq![b[0]] + b.drop_first());
        }
        lemma_name_lt_total(a.drop_first(), b.drop_first());
    }
}

/// Of two names, at most one sorts before the other.
pub proof fn lemma_name_lt_asymmetric(a: Seq<char>, b: Seq<char>)
    requires
        name_lt(a, b),
    ensures
        !name_lt(b, a),
{
    if name_lt(b, a) {
        lemma_name_lt_transitive(a, b, a);
        lemma_name_lt_irreflexive(a);
    }
}

/// Whether `a` sorts before `b`, as [`name_lt`] orders them.
pub fn name_less(a: &String, b: &String) -> (r: bool)
    ensures
        r == name_lt(a@, b@),
{
    let x = chars_of(a.as_str());
    let y = chars_of(b.as_str());
    let mut i: usize = 0;
    assert(a@.skip(0) =~= a@ && b@.skip(0) =~= b@);
    while i < x.len() && i < y.len() && x[i] == y[i]
        invariant
            i <= x@.len(),
            i <= y@.len(),
            x@ == a@,
            y@ == b@,
            name_lt(a@, b@) == name_lt(a@.skip(i as int), b@.skip(i as int)),
        decreases x@.len() - i,
    {
        proof {
            let p = a@.skip(i as int);
            let q = b@.skip(i as int);
            assert(p.drop_first() =~= a@.skip(i + 1));
            assert(q.drop_first() =~= b@.skip(i + 1));
        }
        i = i + 1;
    }
    if i < x.len() && i < y.len() {
        x[i] < y[i]
    } else {
        i == x.len() && i < y.len()
    }
}

// ---------------------------------------------------------------------------
// Entry lists as maps
// ---------------------------------------------------------------------------

/// The name-to-definition map that a list of entries stands for: each entry
/// is inserted in order, so a later entry for a name replaces an earlier one.
pub open spec fn entries_map(s: Seq<(String, String)>) -> Map<Seq<char>, Seq<char>>
    decreases s.len(),
{
    if s.len() == 0 {
        Map::empty()
    } else {
        entries_map(s.drop_last()).insert(s.last().0@, s.last().1@)
    }
}

/// No name occurs in two entries.
pub open spec fn names_unique(s: Seq<(String, String)>) -> bool {
    forall|i: int, j: int| 0 <= i < j < s.len() ==> (#[trigger] s[i]).0@ != (#[trigger] s[j]).0@
}

/// The map of a list is finite, its names are those of the entries, and a
/// name maps to the definition of its last entry.
pub proof fn lemma_entries_map(s: Seq<(String, String)>)
    ensures
        entries_map(s).dom().finite(),
        forall|k: Seq<char>| #[trigger] entries_map(s).contains_key(k) <==> exists|i: int|
            0 <= i < s.len() && (#[trigger] s[i]).0@ == k,
        forall|i: int| 0 <= i < s.len() && (forall|j: int| i < j < s.len() ==> (#[trigger] s[j]).0@ != s[i].0@)
            ==> #[trigger] entries_map(s)[s[i].0@] == s[i].1@,
    decreases s.len(),
{
    if s.len() > 0 {
        let t = s.drop_last();
        lemma_entries_map(t);
        assert forall|k: Seq<char>| #[trigger] entries_map(s).contains_key(k) <==> exists|i: int|
            0 <= i < s.len() && (#[trigger] s[i]).0@ == k by {
            if entries_map(s).contains_key(k) && k != s.last().0@ {
                assert(entries_map(t).contains_key(k));
                let i = choose|i: int| 0 <= i < t.len() && (#[trigger] t[i]).0@ == k;
                assert(s[i] == t[i]);
            }
            if exists|i: int| 0 <= i < s.len() && (#[trigger] s[i]).0@ == k {
                let i = choose|i: int| 0 <= i < s.len() && (#[trigger] s[i]).0@ == k;
                if i < t.len() {
                    assert(t[i] == s[i]);
                }
            }
        }
        assert forall|i: int| 0 <= i < s.len() && (forall|j: int| i < j < s.len() ==> (#[trigger] s[j]).0@ != s[i].0@)
            implies #[trigger] entries_map(s)[s[i].0@] == s[i].1@ by {
            if i < t.len() {
                assert(s.last() == s[s.len() - 1]);
                assert forall|j: int| i < j < t.len() implies (#[trigger] t[j]).0@ != t[i].0@ by {
                    assert(t[j] == s[j]);
                }
                assert(t[i] == s[i]);
            }
        }
    }
}

/// Replacing the definition of an entry whose name is unique in the list
/// replaces that name's definition in the map.
proof fn lemma_entries_map_update(s: Seq<(String, String)>, i: int, e: (String, String))
    requires
        0 <= i < s.len(),
        names_unique(s),
        e.0@ == s[i].0@,
    ensures
        entries_map(s.update(i, e)) == entries_map(s).insert(e.0@, e.1@),
        names_unique(s.update(i, e)),
    decreases s.len(),
{
    let u = s.update(i, e);
    if i == s.len() - 1 {
        assert(u.drop_last() =~= s.drop_last());
        assert(entries_map(s.drop_last()).insert(s.last().0@, s.last().1@).insert(e.0@, e.1@)
            =~= entries_map(s.drop_last()).insert(e.0@, e.1@));
    } else {
        let t = s.drop_last();
        assert(names_unique(t)) by {
            assert forall|a: int, b: int| 0 <= a < b < t.len() implies (#[trigger] t[a]).0@ != (#[trigger] t[b]).0@ by {
                assert(t[a] == s[a] && t[b] == s[b]);
            }
        }
        assert(t[i] == s[i]);
        lemma_entries_map_update(t, i, e);
        assert(u.drop_last() =~= t.update(i, e));
        assert(s[i].0@ != s[s.len() - 1].0@);
        assert(entries_map(t).insert(e.0@, e.1@).insert(s.last().0@, s.last().1@)
            =~= entries_map(t).insert(s.last().0@, s.last().1@).insert(e.0@, e.1@));
    }
    assert forall|a: int, b: int| 0 <= a < b < u.len() implies (#[trigger] u[a]).0@ != (#[trigger] u[b]).0@ by {
        assert(s[a].0@ != s[b].0@);
    }
}

/// Sets the definition of `name` in an entry list whose names are unique:
/// the entry for `name` is replaced where there is one, else appended.
pub fn insert_entry(v: &mut Vec<(String, String)>, name: String, def: String)
    requires
        names_unique(old(v)@),
    ensures
        names_unique(final(v)@),
        entries_map(final(v)@) == entries_map(old(v)@).insert(name@, def@),
{
    let mut i: usize = 0;
    while i < v.len()
        invariant
            i <= v@.len(),
            v@ == old(v)@,
            names_unique(v@),
            forall|j: int| 0 <= j < i ==> (#[trigger] v@[j]).0@ != name@,
        decreases v@.len() - i,
    {
        if v[i].0 == name {
            let ghost s = v@;
            let ghost n = name@;
            let ghost d = def@;
            v.set(i, (name, def));
            proof {
                lemma_entries_map_update(s, i as int, v@[i as int]);
                assert(v@ == s.update(i as int, v@[i as int]));
                assert(v@[i as int].0@ == n && v@[i as int].1@ == d);
            }
            return;
        }
        i = i + 1;
    }
    let ghost s = v@;
    v.push((name, def));
    proof {
        assert(v@.drop_last() =~= s);
        assert forall|a: int, b: int| 0 <= a < b < v@.len() implies (#[trigger] v@[a]).0@ != (#[trigger] v@[b]).0@ by {
            if b < s.len() {
                assert(s[a].0@ != s[b].0@);
            }
        }
    }
}

// ---------------------------------------------------------------------------
// Theme
// ---------------------------------------------------------------------------

/// A collection of named style definitions.
#[derive(Debug)]
pub struct Theme {
    /// The entries, name and style definition; a name occurs at most once in
    /// the themes that this module builds.
    pub styles: Vec<(String, String)>,
}

impl View for Theme {
    type V = Map<Seq<char>, Seq<char>>;

    open spec fn view(&self) -> Map<Seq<char>, Seq<char>> {
        entries_map(self.styles@)
    }
}

/// The map of an optional theme, empty for none.
pub open spec fn base_view(base: Option<&Theme>) -> Map<Seq<char>, Seq<char>> {
    match base {
        Some(t) => t@,
        None => Map::empty(),
    }
}

/// Copies the entries of a list into `out`, each setting its name in turn.
fn extend_entries(out: &mut Vec<(String, String)>, src: &Vec<(String, String)>)
    requires
        names_unique(old(out)@),
    ensures
        names_unique(final(out)@),
        entries_map(final(out)@) == entries_map(old(out)@).union_prefer_right(entries_map(src@)),
{
    let mut i: usize = 0;
    while i < src.len()
        invariant
            i <= src@.len(),
            names_unique(out@),
            entries_map(out@) == entries_map(old(out)@).union_prefer_right(entries_map(src@.take(i as int))),
        decreases src@.len() - i,
    {
        let name = src[i].0.clone();
        let def = src[i].1.clone();
        insert_entry(out, name, def);
        proof {
            assert(src@.take(i + 1).drop_last() =~= src@.take(i as int));
            assert(src@.take(i + 1).last() == src@[i as int]);
            assert(entries_map(out@) =~= entries_map(old(out)@).union_prefer_right(entries_map(src@.take(i + 1))));
        }
        i = i + 1;
    }
    assert(src@.take(src@.len() as int) =~= src@);
}

impl Theme {
    /// Creates a theme from `styles`, laid over the styles of `inherit_from`
    /// where one is given: a name in `styles` replaces the inherited one.
    pub fn new(styles: Option<Vec<(String, String)>>, inherit_from: Option<&Theme>) -> (t: Theme)
        ensures
            names_unique(t.styles@),
            t@ == base_view(inherit_from).union_prefer_right(
                match styles {
                    Some(s) => entries_map(s@),
                    None => Map::empty(),
                },
            ),
    {
        let mut merged: Vec<(String, String)> = Vec::new();
        match inherit_from {
            Some(base) => extend_entries(&mut merged, &base.styles),
            None => {},
        }
        proof {
            assert(entries_map(merged@) =~= base_view(inherit_from)) by {
                if inherit_from is None {
                    assert(merged@ =~= Seq::<(String, String)>::empty());
                } else {
                    assert(Map::<Seq<char>, Seq<char>>::empty().union_prefer_right(base_view(inherit_from))
                        =~= base_view(inherit_from));
                }
            }
        }
        match styles {
            Some(s) => extend_entries(&mut merged, &s),
            None => {
                assert(entries_map(merged@).union_prefer_right(Map::empty()) =~= entries_map(merged@));
            },
        }
        Theme { styles: merged }
    }

    /// The definition of the style named `name`, if the theme has one.
    pub fn get(&self, name: &str) -> (r: Option<&String>)
        ensures
            r is Some <==> self@.contains_key(name@),
            r matches Some(d) ==> d@ == self@[name@],
    {
        lookup(&self.styles, name)
    }
}

/// The definition that an entry list gives `name`: that of its last entry
/// for `name`.
fn lookup<'a>(styles: &'a Vec<(String, String)>, name: &str) -> (r: Option<&'a String>)
    ensures
        r is Some <==> entries_map(styles@).contains_key(name@),
        r matches Some(d) ==> d@ == entries_map(styles@)[name@],
{
    let mut i: usize = styles.len();
    let ghost s = styles@;
    while i > 0
        invariant
            i <= s.len(),
            s == styles@,
            forall|j: int| i <= j < s.len() ==> (#[trigger] s[j]).0@ != name@,
        decreases i,
    {
        let k = i - 1;
        if str_is(&styles[k].0, name) {
            proof {
                lemma_entries_map(s);
                assert(s[k as int].0@ == name@);
            }
            return Some(&styles[k].1);
        }
        i = k;
    }
    proof {
        lemma_entries_map(s);
    }
    None
}

/// Whether a `String` holds exactly the text `t`.
fn str_is(s: &String, t: &str) -> (b: bool)
    ensures
        b == (s@ == t@),
{
    let u = string_from_chars(&chars_of(t));
    *s == u
}

// ---------------------------------------------------------------------------
// Sorted listing and the INI text
// ---------------------------------------------------------------------------

/// The views of a list of entries.
pub open spec fn pairs_view(v: Seq<(String, String)>) -> Seq<(Seq<char>, Seq<char>)> {
    Seq::new(v.len(), |i: int| (v[i].0@, v[i].1@))
}

/// `s` lists the entries of `m`, each once, in strictly increasing name order.
pub open spec fn is_sorted_listing(s: Seq<(Seq<char>, Seq<char>)>, m: Map<Seq<char>, Seq<char>>) -> bool {
    &&& forall|i: int, j: int| 0 <= i < j < s.len() ==> name_lt(#[trigger] s[i].0, #[trigger] s[j].0)
    &&& forall|i: int| 0 <= i < s.len() ==> m.contains_key(#[trigger] s[i].0) && m[s[i].0] == s[i].1
    &&& forall|k: Seq<char>| #[trigger] m.contains_key(k) ==> exists|i: int| 0 <= i < s.len() && (#[trigger] s[i]).0 == k
}

/// The entries of `m` sorted by name.
pub open spec fn sorted_listing(m: Map<Seq<char>, Seq<char>>) -> Seq<(Seq<char>, Seq<char>)> {
    choose|s: Seq<(Seq<char>, Seq<char>)>| is_sorted_listing(s, m)
}

/// A map has at most one sorted listing.
pub proof fn lemma_sorted_listing_unique(
    s1: Seq<(Seq<char>, Seq<char>)>,
    s2: Seq<(Seq<char>, Seq<char>)>,
    m: Map<Seq<char>, Seq<char>>,
)
    requires
        is_sorted_listing(s1, m),
        is_sorted_listing(s2, m),
    ensures
        s1 == s2,
    decreases s1.len(),
{
    if s1.len() == 0 {
        if s2.len() > 0 {
            assert(m.contains_key(s2[0].0));
        }
        assert(s1 =~= s2);
    } else {
        assert(m.contains_key(s1[0].0));
        let j = choose|j: int| 0 <= j < s2.len() && (#[trigger] s2[j]).0 == s1[0].0;
        assert(m.contains_key(s2[0].0));
        let i = choose|i: int| 0 <= i < s1.len() && (#[trigger] s1[i]).0 == s2[0].0;
        if j > 0 {
            assert(name_lt(s2[0].0, s2[j].0));
            if i > 0 {
                assert(name_lt(s1[0].0, s1[i].0));
                lemma_name_lt_asymmetric(s1[0].0, s2[0].0);
            } else {
                lemma_name_lt_irreflexive(s1[0].0);
            }
        }
        assert(j == 0);
        let k = s1[0].0;
        let m2 = m.remove(k);
        let t1 = s1.drop_first();
        let t2 = s2.drop_first();
        assert(is_sorted_listing(t1, m2)) by {
            assert forall|a: int| 0 <= a < t1.len() implies m2.contains_key(#[trigger] t1[a].0) && m2[t1[a].0] == t1[a].1 by {
                assert(t1[a] == s1[a + 1]);
                assert(name_lt(s1[0].0, s1[a + 1].0));
                lemma_name_lt_irreflexive(k);
            }
            assert forall|q: Seq<char>| #[trigger] m2.contains_key(q) implies exists|a: int| 0 <= a < t1.len() && (#[trigger] t1[a]).0 == q by {
                let a = choose|a: int| 0 <= a < s1.len() && (#[trigger] s1[a]).0 == q;
                assert(t1[a - 1] == s1[a]);
            }
            assert forall|a: int, b: int| 0 <= a < b < t1.len() implies name_lt(#[trigger] t1[a].0, #[trigger] t1[b].0) by {
                assert(t1[a] == s1[a + 1] && t1[b] == s1[b + 1]);
            }
        }
        assert(is_sorted_listing(t2, m2)) by {
            assert forall|a: int| 0 <= a < t2.len() implies m2.contains_key(#[trigger] t2[a].0) && m2[t2[a].0] == t2[a].1 by {
                assert(t2[a] == s2[a + 1]);
                assert(name_lt(s2[0].0, s2[a + 1].0));
                lemma_name_lt_irreflexive(k);
            }
            assert forall|q: Seq<char>| #[trigger] m2.contains_key(q) implies exists|a: int| 0 <= a < t2.len() && (#[trigger] t2[a]).0 == q by {
                let a = choose|a: int| 0 <= a < s2.len() && (#[trigger] s2[a]).0 == q;
                assert(t2[a - 1] == s2[a]);
            }
            assert forall|a: int, b: int| 0 <= a < b < t2.len() implies name_lt(#[trigger] t2[a].0, #[trigger] t2[b].0) by {
                assert(t2[a] == s2[a + 1] && t2[b] == s2[b + 1]);
            }
        }
        lemma_sorted_listing_unique(t1, t2, m2);
        assert(s1[0] == s2[0]);
        assert(s1 =~= seq![s1[0]] + t1);
        assert(s2 =~= seq![s2[0]] + t2);
    }
}

/// A sorted listing of `m` is the one that [`sorted_listing`] picks.
pub proof fn lemma_sorted_listing_is(s: Seq<(Seq<char>, Seq<char>)>, m: Map<Seq<char>, Seq<char>>)
    requires
        is_sorted_listing(s, m),
    ensures
        sorted_listing(m) == s,
{
    lemma_sorted_listing_unique(sorted_listing(m), s, m);
}

/// Sets `name` to `def` in a sorted listing, keeping it sorted.
fn insert_sorted(out: &mut Vec<(String, String)>, name: String, def: String, Ghost(m): Ghost<Map<Seq<char>, Seq<char>>>)
    requires
        is_sorted_listing(pairs_view(old(out)@), m),
    ensures
        is_sorted_listing(pairs_view(final(out)@), m.insert(name@, def@)),
{
    let ghost s = pairs_view(out@);
    let mut i: usize = 0;
    while i < out.len() && name_less(&out[i].0, &name)
        invariant
            i <= out@.len(),
            out@ == old(out)@,
            s == pairs_view(out@),
            forall|j: int| 0 <= j < i ==> name_lt(#[trigger] s[j].0, name@),
        decreases out@.len() - i,
    {
        i = i + 1;
    }
    let ghost n = name@;
    let ghost d = def@;
    let m2 = Ghost(m.insert(n, d));
    if i < out.len() && out[i].0 == name {
        out.set(i, (name, def));
        proof {
            let s2 = pairs_view(out@);
            assert(s2 =~= s.update(i as int, (n, d)));
            assert forall|a: int, b: int| 0 <= a < b < s2.len() implies name_lt(#[trigger] s2[a].0, #[trigger] s2[b].0) by {
                assert(name_lt(s[a].0, s[b].0));
            }
            assert forall|a: int| 0 <= a < s2.len() implies m2@.contains_key(#[trigger] s2[a].0) && m2@[s2[a].0] == s2[a].1 by {
                if a != i {
                    assert(s2[a] == s[a]);
                    lemma_name_lt_irreflexive(n);
                    if a < i {
                        assert(name_lt(s[a].0, s[i as int].0));
                    } else {
                        assert(name_lt(s[i as int].0, s[a].0));
                    }
                }
            }
            assert forall|q: Seq<char>| #[trigger] m2@.contains_key(q) implies exists|a: int| 0 <= a < s2.len() && (#[trigger] s2[a]).0 == q by {
                if q != n {
                    let a = choose|a: int| 0 <= a < s.len() && (#[trigger] s[a]).0 == q;
                    assert(s2[a].0 == q);
                } else {
                    assert(s2[i as int].0 == q);
                }
            }
        }
    } else {
        proof {
            if i < s.len() {
                assert(!name_lt(s[i as int].0, n));
                assert(s[i as int].0 != n);
                lemma_name_lt_total(s[i as int].0, n);
            }
            assert(!m.contains_key(n)) by {
                if m.contains_key(n) {
                    let a = choose|a: int| 0 <= a < s.len() && (#[trigger] s[a]).0 == n;
                    if a < i {
                        lemma_name_lt_irreflexive(n);
                    } else if a > i {
                        assert(name_lt(s[i as int].0, s[a].0));
                        lemma_name_lt_asymmetric(n, s[i as int].0);
                    }
                }
            }
        }
        out.insert(i, (name, def));
        proof {
            let s2 = pairs_view(out@);
            assert(s2 =~= s.insert(i as int, (n, d)));
            assert forall|a: int, b: int| 0 <= a < b < s2.len() implies name_lt(#[trigger] s2[a].0, #[trigger] s2[b].0) by {
                if b < i {
                    assert(name_lt(s[a].0, s[b].0));
                } else if b == i {
                    assert(name_lt(s[a].0, n));
                } else if a < i {
                    assert(name_lt(s[a].0, n));
                    if b - 1 > i {
                        assert(name_lt(s[i as int].0, s[b - 1].0));
                        lemma_name_lt_transitive(n, s[i as int].0, s[b - 1].0);
                    }
                    lemma_name_lt_transitive(s[a].0, n, s[b - 1].0);
                } else if a == i {
                    if b - 1 > i {
                        assert(name_lt(s[i as int].0, s[b - 1].0));
                        lemma_name_lt_transitive(n, s[i as int].0, s[b - 1].0);
                    }
                } else {
                    assert(name_lt(s[a - 1].0, s[b - 1].0));
                }
            }
            assert forall|a: int| 0 <= a < s2.len() implies m2@.contains_key(#[trigger] s2[a].0) && m2@[s2[a].0] == s2[a].1 by {
                if a < i {
                    assert(s2[a] == s[a]);
                } else if a > i {
                    assert(s2[a] == s[a - 1]);
                }
            }
            assert forall|q: Seq<char>| #[trigger] m2@.contains_key(q) implies exists|a: int| 0 <= a < s2.len() && (#[trigger] s2[a]).0 == q by {
                if q != n {
                    let a = choose|a: int| 0 <= a < s.len() && (#[trigger] s[a]).0 == q;
                    if a < i {
                        assert(s2[a] == s[a]);
                    } else {
                        assert(s2[a + 1] == s[a]);
                    }
                } else {
                    assert(s2[i as int].0 == q);
                }
            }
        }
    }
}

/// The entries of a list, as the map it stands for, sorted by name.
fn sorted_entries(v: &Vec<(String, String)>) -> (r: Vec<(String, String)>)
    ensures
        is_sorted_listing(pairs_view(r@), entries_map(v@)),
{
    let mut out: Vec<(String, String)> = Vec::new();
    let mut i: usize = 0;
    assert(v@.take(0) =~= Seq::<(String, String)>::empty());
    assert(pairs_view(out@) =~= Seq::<(Seq<char>, Seq<char>)>::empty());
    while i < v.len()
        invariant
            i <= v@.len(),
            is_sorted_listing(pairs_view(out@), entries_map(v@.take(i as int))),
        decreases v@.len() - i,
    {
        let name = v[i].0.clone();
        let def = v[i].1.clone();
        insert_sorted(&mut out, name, def, Ghost(entries_map(v@.take(i as int))));
        proof {
            assert(v@.take(i + 1).drop_last() =~= v@.take(i as int));
            assert(v@.take(i + 1).last() == v@[i as int]);
        }
        i = i + 1;
    }
    assert(v@.take(v@.len() as int) =~= v@);
    out
}

/// The header line of the INI text.
pub open spec fn styles_header() -> Seq<char> {
    seq!['[', 's', 't', 'y', 'l', 'e', 's', ']', '\n']
}

/// The text ` = ` between a name and its definition.
pub open spec fn assign_sep() -> Seq<char> {
    seq![' ', '=', ' ']
}

/// The INI text of a listing: the `[styles]` header, then one
/// `name = definition` line per entry.
pub open spec fn config_text(s: Seq<(Seq<char>, Seq<char>)>) -> Seq<char>
    decreases s.len(),
{
    if s.len() == 0 {
        styles_header()
    } else {
        config_text(s.drop_last()) + s.last().0 + assign_sep() + s.last().1 + seq!['\n']
    }
}

impl Theme {
    /// The theme as INI text: `[styles]`, then `name = definition` for each
    /// style, sorted by name.
    pub fn config(&self) -> (r: String)
        ensures
            r@ == config_text(sorted_listing(self@)),
    {
        let sorted = sorted_entries(&self.styles);
        let ghost listing = pairs_view(sorted@);
        proof {
            lemma_sorted_listing_is(listing, self@);
        }
        let mut out: Vec<char> = Vec::new();
        push_str_chars(&mut out, "[styles]\n");
        proof {
            reveal_strlit("[styles]\n");
            assert(out@ =~= styles_header());
            assert(listing.take(0) =~= Seq::<(Seq<char>, Seq<char>)>::empty());
        }
        let mut i: usize = 0;
        while i < sorted.len()
            invariant
                i <= sorted@.len(),
                listing == pairs_view(sorted@),
                out@ == config_text(listing.take(i as int)),
            decreases sorted@.len() - i,
        {
            push_str_chars(&mut out, sorted[i].0.as_str());
            push_str_chars(&mut out, " = ");
            push_str_chars(&mut out, sorted[i].1.as_str());
            push_str_chars(&mut out, "\n");
            proof {
                reveal_strlit(" = ");
                reveal_strlit("\n");
                let t = listing.take(i + 1);
                assert(t.drop_last() =~= listing.take(i as int));
                assert(t.last() == listing[i as int]);
                assert(out@ =~= config_text(t));
            }
            i = i + 1;
        }
        assert(listing.take(listing.len() as int) =~= listing);
        string_from_chars(&out)
    }

    /// The same text as [`Theme::config`].
    pub fn to_config(&self) -> (r: String)
        ensures
            r@ == config_text(sorted_listing(self@)),
    {
        self.config()
    }
}

// ---------------------------------------------------------------------------
// Theme stack
// ---------------------------------------------------------------------------

/// The error of popping the base theme off a [`ThemeStack`].
#[derive(Debug, Clone, Copy, PartialEq, Eq)]
pub struct ThemeStackError;

impl ThemeStackError {
    /// The message of the error.
    pub fn to_string(&self) -> (s: String)
        ensures
            s@ == "Unable to pop base theme"@,
    {
        String::from_str("Unable to pop base theme")
    }
}

/// The layers after pushing a theme with styles `t` onto layers `s`: with
/// `inherit`, the top layer's styles overlaid by `t`, else `t` alone.
pub open spec fn spec_push_layer(
    s: Seq<Map<Seq<char>, Seq<char>>>,
    t: Map<Seq<char>, Seq<char>>,
    inherit: bool,
) -> Seq<Map<Seq<char>, Seq<char>>> {
    s.push(if inherit { s.last().union_prefer_right(t) } else { t })
}

/// The definition that the top layer of `s` gives the name `k`.
pub open spec fn spec_stack_get(s: Seq<Map<Seq<char>, Seq<char>>>, k: Seq<char>) -> Option<Seq<char>> {
    if s.last().contains_key(k) {
        Some(s.last()[k])
    } else {
        None
    }
}

/// A stack of style layers, base first. The base layer is never popped:
/// every stack that [`ThemeStack::new`] makes and the other methods keep has
/// at least one layer.
pub struct ThemeStack {
    entries: Vec<Vec<(String, String)>>,
}

impl View for ThemeStack {
    type V = Seq<Map<Seq<char>, Seq<char>>>;

    /// The style maps of the layers, base first.
    closed spec fn view(&self) -> Seq<Map<Seq<char>, Seq<char>>> {
        Seq::new(self.entries@.len(), |i: int| entries_map(self.entries@[i]@))
    }
}

impl ThemeStack {
    /// A stack with `theme` as its base layer.
    pub fn new(theme: Theme) -> (st: ThemeStack)
        ensures
            st@ == seq![theme@],
    {
        let ghost m = theme@;
        let mut entries: Vec<Vec<(String, String)>> = Vec::new();
        entries.push(theme.styles);
        let st = ThemeStack { entries };
        assert(st@ =~= seq![m]);
        st
    }

    /// The definition that the top layer gives the style named `name`.
    pub fn get(&self, name: &str) -> (r: Option<&String>)
        requires
            self@.len() >= 1,
        ensures
            r is Some <==> spec_stack_get(self@, name@) is Some,
            r matches Some(d) ==> spec_stack_get(self@, name@) == Some(d@),
    {
        let top = &self.entries[self.entries.len() - 1];
        assert(entries_map(top@) == self@.last());
        lookup(top, name)
    }

    /// Pushes a layer: with `inherit`, the current top layer's styles
    /// overlaid by `theme`'s; without it, `theme`'s styles alone.
    pub fn push_theme(&mut self, theme: Theme, inherit: bool)
        requires
            old(self)@.len() >= 1,
        ensures
            final(self)@ == spec_push_layer(old(self)@, theme@, inherit),
    {
        let ghost before = self@;
        let ghost t = theme@;
        let layer = if inherit {
            let mut merged: Vec<(String, String)> = Vec::new();
            let n = self.entries.len();
            extend_entries(&mut merged, &self.entries[n - 1]);
            extend_entries(&mut merged, &theme.styles);
            proof {
                assert(Map::<Seq<char>, Seq<char>>::empty().union_prefer_right(before.last()) =~= before.last());
            }
            merged
        } else {
            theme.styles
        };
        let ghost lm = entries_map(layer@);
        self.entries.push(layer);
        proof {
            assert(self@ =~= before.push(lm));
        }
    }

    /// Pops the top layer; the base layer stays, and popping it is an error.
    pub fn pop_theme(&mut self) -> (r: Result<(), ThemeStackError>)
        requires
            old(self)@.len() >= 1,
        ensures
            final(self)@.len() >= 1,
            r is Err <==> old(self)@.len() == 1,
            r is Err ==> final(self)@ == old(self)@,
            r is Ok ==> final(self)@ == old(self)@.drop_last(),
    {
        let ghost before = self@;
        if self.entries.len() == 1 {
            return Err(ThemeStackError);
        }
        self.entries.pop();
        proof {
            assert(self@ =~= before.drop_last());
        }
        Ok(())
    }
}

// ---------------------------------------------------------------------------
// Reading the INI text
// ---------------------------------------------------------------------------

/// The error of reading theme text.
#[derive(Debug, Clone, PartialEq, Eq)]
pub enum ThemeFromStrError {
    /// A line could not be read (no `=`, or an empty name); the message
    /// names the line.
    Parse(String),
    /// The definition given for the style `name` is not a style definition.
    Style {
        /// The name of the style whose definition was rejected.
        name: String,
    },
}

/// The two kinds of theme reading error.
#[derive(Debug, Clone, Copy, PartialEq, Eq, Structural)]
pub enum ThemeErrorKind {
    Parse,
    Style,
}

/// A theme reading error as plain values: its kind, with the message of a
/// parse error or the style name of a style error.
pub type ThemeErrorView = (ThemeErrorKind, Seq<char>);

/// The plain view of a theme reading error.
pub open spec fn theme_error_view(e: ThemeFromStrError) -> ThemeErrorView {
    match e {
        ThemeFromStrError::Parse(m) => (ThemeErrorKind::Parse, m@),
        ThemeFromStrError::Style { name } => (ThemeErrorKind::Style, name@),
    }
}

impl ThemeFromStrError {
    /// The message of the error.
    pub fn to_string(&self) -> (s: String)
        ensures
            s@ == match self {
                ThemeFromStrError::Parse(m) => "theme parse error: "@ + m@,
                ThemeFromStrError::Style { name } => "invalid style for '"@ + name@ + "'"@,
            },
    {
        let mut out: Vec<char> = Vec::new();
        match self {
            ThemeFromStrError::Parse(m) => {
                push_str_chars(&mut out, "theme parse error: ");
                push_str_chars(&mut out, m.as_str());
            },
            ThemeFromStrError::Style { name } => {
                push_str_chars(&mut out, "invalid style for '");
                push_str_chars(&mut out, name.as_str());
                push_str_chars(&mut out, "'");
            },
        }
        string_from_chars(&out)
    }
}

// ---------------------------------------------------------------------------
// Style definitions
// ---------------------------------------------------------------------------

/// Splitting at whitespace: the words finished so far and the word being
/// read, after reading all of `s`.
pub open spec fn words_state(s: Seq<char>) -> (Seq<Seq<char>>, Seq<char>)
    decreases s.len(),
{
    if s.len() == 0 {
        (Seq::empty(), Seq::empty())
    } else {
        let (done, cur) = words_state(s.drop_last());
        let c = s.last();
        if is_white_space(c) {
            if cur.len() > 0 {
                (done.push(cur), Seq::empty())
            } else {
                (done, cur)
            }
        } else {
            (done, cur.push(c))
        }
    }
}

/// The words of `s`: its maximal runs of characters other than whitespace.
pub open spec fn words(s: Seq<char>) -> Seq<Seq<char>> {
    let (done, cur) = words_state(s);
    if cur.len() > 0 {
        done.push(cur)
    } else {
        done
    }
}

/// The names of style attributes, with their short forms.
pub open spec fn is_style_attribute(w: Seq<char>) -> bool {
    ||| w == "dim"@ || w == "d"@
    ||| w == "bold"@ || w == "b"@
    ||| w == "italic"@ || w == "i"@
    ||| w == "underline"@ || w == "u"@
    ||| w == "blink"@ || w == "blink2"@
    ||| w == "reverse"@ || w == "r"@
    ||| w == "conceal"@ || w == "c"@
    ||| w == "strike"@ || w == "s"@
    ||| w == "underline2"@ || w == "uu"@
    ||| w == "frame"@ || w == "encircle"@
    ||| w == "overline"@ || w == "o"@
}

/// A word that [`Color::parse`] reads as a color.
pub open spec fn is_color_word(w: Seq<char>) -> bool {
    !parse_would_panic(normalized(w)) && spec_parse_normalized(normalized(w), w) is Ok
}

/// Whether the words of a style definition from index `i` on are well
/// formed: `on` and a color (the background), `not` and an attribute,
/// `link` and a URL, an attribute (in any case), or a color.
pub open spec fn style_words_ok(ws: Seq<Seq<char>>, i: int) -> bool
    decreases ws.len() - i,
{
    if i < 0 || i >= ws.len() {
        true
    } else {
        let w = lowercased(ws[i]);
        if w == "on"@ {
            i + 1 < ws.len() && is_color_word(ws[i + 1]) && style_words_ok(ws, i + 2)
        } else if w == "not"@ {
            i + 1 < ws.len() && is_style_attribute(ws[i + 1]) && style_words_ok(ws, i + 2)
        } else if w == "link"@ {
            i + 1 < ws.len() && style_words_ok(ws, i + 2)
        } else if is_style_attribute(w) {
            style_words_ok(ws, i + 1)
        } else {
            is_color_word(ws[i]) && style_words_ok(ws, i + 1)
        }
    }
}

/// Whether `d` is a style definition: `none`, or whitespace-separated words
/// that [`style_words_ok`] accepts (no words at all is the null style).
pub open spec fn is_style_definition(d: Seq<char>) -> bool {
    d == "none"@ || style_words_ok(words(d), 0)
}

/// The words of `v`, split at whitespace.
fn split_words(v: &[char]) -> (r: Vec<Vec<char>>)
    ensures
        r@.len() == words(v@).len(),
        forall|i: int| 0 <= i < r@.len() ==> (#[trigger] r@[i])@ == words(v@)[i],
{
    let mut done: Vec<Vec<char>> = Vec::new();
    let mut cur: Vec<char> = Vec::new();
    let mut i: usize = 0;
    assert(v@.take(0) =~= Seq::<char>::empty());
    while i < v.len()
        invariant
            i <= v@.len(),
            done@.len() == words_state(v@.take(i as int)).0.len(),
            forall|j: int| 0 <= j < done@.len() ==> (#[trigger] done@[j])@ == words_state(v@.take(i as int)).0[j],
            cur@ == words_state(v@.take(i as int)).1,
        decreases v@.len() - i,
    {
        let c = v[i];
        proof {
            assert(v@.take(i + 1).drop_last() =~= v@.take(i as int));
            assert(v@.take(i + 1).last() == c);
        }
        if is_white_space_char(c) {
            if cur.len() > 0 {
                let w = cur;
                done.push(w);
                cur = Vec::new();
            }
        } else {
            cur.push(c);
        }
        i = i + 1;
    }
    assert(v@.take(v@.len() as int) =~= v@);
    if cur.len() > 0 {
        done.push(cur);
    }
    done
}

fn is_style_attribute_exec(w: &String) -> (b: bool)
    ensures
        b == is_style_attribute(w@),
{
    str_is(w, "dim") || str_is(w, "d") || str_is(w, "bold") || str_is(w, "b") || str_is(w, "italic")
        || str_is(w, "i") || str_is(w, "underline") || str_is(w, "u") || str_is(w, "blink")
        || str_is(w, "blink2") || str_is(w, "reverse") || str_is(w, "r") || str_is(w, "conceal")
        || str_is(w, "c") || str_is(w, "strike") || str_is(w, "s") || str_is(w, "underline2")
        || str_is(w, "uu") || str_is(w, "frame") || str_is(w, "encircle") || str_is(w, "overline")
        || str_is(w, "o")
}

fn is_color_word_exec(w: &String) -> (b: bool)
    ensures
        b == is_color_word(w@),
{
    match Color::try_parse(w.as_str()) {
        Some(Ok(_)) => true,
        _ => false,
    }
}

/// Whether `d` is a style definition; see [`is_style_definition`].
pub fn is_style_definition_chars(d: &[char]) -> (b: bool)
    ensures
        b == is_style_definition(d@),
{
    if chars_eq_str(d, "none") {
        return true;
    }
    let ws = split_words(d);
    let n = ws.len();
    let mut i: usize = 0;
    while i < n
        invariant
            i <= n + 1,
            n == words(d@).len(),
            ws@.len() == n,
            forall|j: int| 0 <= j < n ==> (#[trigger] ws@[j])@ == words(d@)[j],
            is_style_definition(d@) == style_words_ok(words(d@), i as int),
        decreases n + 1 - i,
    {
        let ghost all = words(d@);
        let word = string_from_chars(&ws[i]);
        let lower = to_lowercase_string(word.as_str());
        if str_is(&lower, "on") {
            if i + 1 >= n {
                return false;
            }
            let next = string_from_chars(&ws[i + 1]);
            if !is_color_word_exec(&next) {
                return false;
            }
            i = i + 2;
        } else if str_is(&lower, "not") {
            if i + 1 >= n {
                return false;
            }
            let next = string_from_chars(&ws[i + 1]);
            if !is_style_attribute_exec(&next) {
                return false;
            }
            i = i + 2;
        } else if str_is(&lower, "link") {
            if i + 1 >= n {
                return false;
            }
            i = i + 2;
        } else if is_style_attribute_exec(&lower) {
            i = i + 1;
        } else {
            if !is_color_word_exec(&word) {
                return false;
            }
            i = i + 1;
        }
    }
    true
}

/// A trimmed line that opens a section: `[` … `]`.
pub open spec fn is_section_header(line: Seq<char>) -> bool {
    line.len() > 0 && line[0] == '[' && line.last() == ']'
}

/// A section name that equals `styles` ignoring ASCII case.
pub open spec fn is_styles_name(name: Seq<char>) -> bool {
    ascii_lower_seq(name) == seq!['s', 't', 'y', 'l', 'e', 's']
}

/// The message for a line with an empty style name.
pub open spec fn empty_name_message(number: nat) -> Seq<char> {
    "line "@ + dec(number) + ": empty style name"@
}

/// The message for a line in the styles section without `=`.
pub open spec fn malformed_message(number: nat, line: Seq<char>) -> Seq<char> {
    "line "@ + dec(number) + ": expected 'name = style', got: "@ + line
}

/// How the line `raw`, number `number`, reads when `in_styles` says whether
/// it stands in the `[styles]` section and `acc` holds the styles read so
/// far: blank lines and `#` or `;` comments are skipped, a `[name]` header
/// opens a section, lines outside `[styles]` are skipped, and a
/// `name = definition` line sets a style, where the definition must be a
/// style definition. The result is the new section state and styles, or the
/// error.
pub open spec fn spec_theme_line(
    raw: Seq<char>,
    number: nat,
    in_styles: bool,
    acc: Map<Seq<char>, Seq<char>>,
) -> Result<(bool, Map<Seq<char>, Seq<char>>), ThemeErrorView> {
    let line = trimmed(raw);
    if line.len() == 0 || line[0] == '#' || line[0] == ';' {
        Ok((in_styles, acc))
    } else if is_section_header(line) {
        Ok((is_styles_name(line.subrange(1, line.len() - 1)), acc))
    } else if !in_styles {
        Ok((in_styles, acc))
    } else {
        match first_index(line, '=', 0) {
            Some(p) => {
                let name = trimmed(line.take(p));
                let value = trimmed(line.skip(p + 1));
                if name.len() == 0 {
                    Err((ThemeErrorKind::Parse, empty_name_message(number)))
                } else if !is_style_definition(value) {
                    Err((ThemeErrorKind::Style, name))
                } else {
                    Ok((true, acc.insert(name, value)))
                }
            },
            None => Err((ThemeErrorKind::Parse, malformed_message(number, line))),
        }
    }
}

/// Reading the lines `lines` in turn, the first of them numbered `number`.
pub open spec fn spec_theme_lines(
    lines: Seq<Seq<char>>,
    number: nat,
    in_styles: bool,
    acc: Map<Seq<char>, Seq<char>>,
) -> Result<Map<Seq<char>, Seq<char>>, ThemeErrorView>
    decreases lines.len(),
{
    if lines.len() == 0 {
        Ok(acc)
    } else {
        match spec_theme_line(lines[0], number, in_styles, acc) {
            Ok((s, m)) => spec_theme_lines(lines.drop_first(), number + 1, s, m),
            Err(e) => Err(e),
        }
    }
}

/// The styles that theme text sets, or the error of its first bad line.
/// Lines are numbered from 1; none is in the styles section until a
/// `[styles]` header opens it.
pub open spec fn spec_parse_theme(content: Seq<char>) -> Result<Map<Seq<char>, Seq<char>>, ThemeErrorView> {
    spec_theme_lines(split_on(content, '\n'), 1, false, Map::empty())
}

/// Where [`first_index`] finds a character, the character stands there.
pub proof fn lemma_first_index_found(s: Seq<char>, c: char, i: int)
    ensures
        first_index(s, c, i) matches Some(k) ==> (i <= k < s.len() && s[k] == c),
    decreases s.len() - i,
{
    if 0 <= i < s.len() && s[i] != c {
        lemma_first_index_found(s, c, i + 1);
    }
}

fn is_styles_name_exec(name: &[char]) -> (b: bool)
    ensures
        b == is_styles_name(name@),
{
    let mut lower: Vec<char> = Vec::new();
    let mut i: usize = 0;
    while i < name.len()
        invariant
            i <= name@.len(),
            lower@ =~= ascii_lower_seq(name@).take(i as int),
        decreases name@.len() - i,
    {
        let c = name[i];
        let l = if 'A' <= c && c <= 'Z' {
            char_from_ascii((c as u8) + 32)
        } else {
            c
        };
        lower.push(l);
        i = i + 1;
        assert(lower@ =~= ascii_lower_seq(name@).take(i as int));
    }
    assert(ascii_lower_seq(name@).take(name@.len() as int) =~= ascii_lower_seq(name@));
    let r = chars_eq_str(lower.as_slice(), "styles");
    proof {
        reveal_strlit("styles");
        assert("styles"@ =~= seq!['s', 't', 'y', 'l', 'e', 's']);
    }
    r
}

fn slice_chars(v: &Vec<char>, a: usize, b: usize) -> (r: Vec<char>)
    requires
        a <= b <= v@.len(),
    ensures
        r@ == v@.subrange(a as int, b as int),
{
    let mut r: Vec<char> = Vec::new();
    let mut i: usize = a;
    while i < b
        invariant
            a <= i <= b,
            b <= v@.len(),
            r@ =~= v@.subrange(a as int, i as int),
        decreases b - i,
    {
        r.push(v[i]);
        i = i + 1;
        assert(r@ =~= v@.subrange(a as int, i as int));
    }
    r
}

/// Reads one line of theme text; see [`spec_theme_line`].
fn theme_line(
    raw: &Vec<char>,
    number: usize,
    in_styles: &mut bool,
    acc: &mut Vec<(String, String)>,
) -> (r: Result<(), ThemeFromStrError>)
    requires
        names_unique(old(acc)@),
    ensures
        names_unique(final(acc)@),
        match spec_theme_line(raw@, number as nat, *old(in_styles), entries_map(old(acc)@)) {
            Ok((s, m)) => r is Ok && *final(in_styles) == s && entries_map(final(acc)@) == m,
            Err(e) => r matches Err(err) && theme_error_view(err) == e && final(acc)@ == old(acc)@,
        },
{
    let line = trim_chars(raw.as_slice());
    let n = line.len();
    if n == 0 || line[0] == '#' || line[0] == ';' {
        return Ok(());
    }
    if line[0] == '[' && line[n - 1] == ']' {
        let sec = slice_chars(&line, 1, n - 1);
        *in_styles = is_styles_name_exec(sec.as_slice());
        return Ok(());
    }
    if !*in_styles {
        return Ok(());
    }
    let found = first_index_exec(&line, '=', 0);
    proof {
        lemma_first_index_found(line@, '=', 0);
    }
    match found {
        Some(p) => {
            let name = trim_chars(slice_chars(&line, 0, p).as_slice());
            assert(line@.subrange(0, p as int) =~= line@.take(p as int));
            if name.len() == 0 {
                let mut out: Vec<char> = Vec::new();
                push_str_chars(&mut out, "line ");
                push_decimal_u64(&mut out, number as u64);
                push_str_chars(&mut out, ": empty style name");
                return Err(ThemeFromStrError::Parse(string_from_chars(&out)));
            }
            let value = trim_chars(slice_chars(&line, p + 1, n).as_slice());
            assert(line@.subrange(p + 1, n as int) =~= line@.skip(p + 1));
            if !is_style_definition_chars(value.as_slice()) {
                return Err(ThemeFromStrError::Style { name: string_from_chars(&name) });
            }
            insert_entry(acc, string_from_chars(&name), string_from_chars(&value));
            *in_styles = true;
            Ok(())
        },
        None => {
            let mut out: Vec<char> = Vec::new();
            push_str_chars(&mut out, "line ");
            push_decimal_u64(&mut out, number as u64);
            push_str_chars(&mut out, ": expected 'name = style', got: ");
            push_str_chars(&mut out, string_from_chars(&line).as_str());
            Err(ThemeFromStrError::Parse(string_from_chars(&out)))
        },
    }
}

impl Theme {
    /// Reads INI theme text: a `[styles]` section of `name = definition`
    /// lines. Blank lines and `#` or `;` comments are skipped, as are
    /// sections other than `[styles]`; names and definitions are trimmed,
    /// and each definition must be a style definition. The styles read are
    /// laid over those of `inherit_from` where one is given.
    pub fn from_str(content: &str, inherit_from: Option<&Theme>) -> (r: Result<Theme, ThemeFromStrError>)
        ensures
            r is Ok <==> spec_parse_theme(content@) is Ok,
            r matches Ok(t) ==> names_unique(t.styles@),
            r matches Ok(t) ==> (spec_parse_theme(content@) matches Ok(m) && t@ == base_view(
                inherit_from,
            ).union_prefer_right(m)),
            r matches Err(e) ==> spec_parse_theme(content@) == Err::<Map<Seq<char>, Seq<char>>, ThemeErrorView>(
                theme_error_view(e),
            ),
    {
        let cs = chars_of(content);
        let (mut lines, last) = split_chars(cs.as_slice(), '\n');
        lines.push(last);
        let ghost all = split_on(content@, '\n');
        assert(lines@.len() == all.len());
        assert(forall|j: int| 0 <= j < lines@.len() ==> (#[trigger] lines@[j])@ == all[j]);
        let mut acc: Vec<(String, String)> = Vec::new();
        let mut in_styles = false;
        let mut i: usize = 0;
        proof {
            assert(all.skip(0) =~= all);
            assert(entries_map(acc@) =~= Map::<Seq<char>, Seq<char>>::empty());
        }
        while i < lines.len()
            invariant
                i <= lines@.len(),
                lines@.len() == all.len(),
                all == split_on(content@, '\n'),
                forall|j: int| 0 <= j < lines@.len() ==> (#[trigger] lines@[j])@ == all[j],
                names_unique(acc@),
                spec_parse_theme(content@) == spec_theme_lines(all.skip(i as int), (i + 1) as nat, in_styles, entries_map(acc@)),
            decreases lines@.len() - i,
        {
            proof {
                assert(all.skip(i as int)[0] == all[i as int]);
                assert(all.skip(i as int).drop_first() =~= all.skip(i + 1));
            }
            match theme_line(&lines[i], i + 1, &mut in_styles, &mut acc) {
                Ok(()) => {},
                Err(e) => {
                    return Err(e);
                },
            }
            i = i + 1;
        }
        let t = Theme::new(Some(acc), inherit_from);
        Ok(t)
    }
}

// ---------------------------------------------------------------------------
// Laws
// ---------------------------------------------------------------------------

/// Pushing a layer and popping it again gives back the stack.
pub proof fn lemma_pop_after_push(
    s: Seq<Map<Seq<char>, Seq<char>>>,
    t: Map<Seq<char>, Seq<char>>,
    inherit: bool,
)
    requires
        s.len() >= 1,
    ensures
        spec_push_layer(s, t, inherit).len() > 1,
        spec_push_layer(s, t, inherit).drop_last() == s,
{
    assert(spec_push_layer(s, t, inherit).drop_last() =~= s);
}

/// After a push, looking a name up finds the pushed theme's style; failing
/// that, with `inherit` the style of the layer below, else nothing.
pub proof fn lemma_push_lookup(
    s: Seq<Map<Seq<char>, Seq<char>>>,
    t: Map<Seq<char>, Seq<char>>,
    inherit: bool,
    k: Seq<char>,
)
    requires
        s.len() >= 1,
    ensures
        spec_stack_get(spec_push_layer(s, t, inherit), k) == if t.contains_key(k) {
            Some(t[k])
        } else if inherit {
            spec_stack_get(s, k)
        } else {
            None
        },
{
}

/// The smallest name of a finite non-empty set.
proof fn lemma_min_name(ks: Set<Seq<char>>) -> (k: Seq<char>)
    requires
        ks.finite(),
        ks.len() > 0,
    ensures
        ks.contains(k),
        forall|q: Seq<char>| #[trigger] ks.contains(q) && q != k ==> name_lt(k, q),
    decreases ks.len(),
{
    let a = ks.choose();
    assert(ks.contains(a));
    let rest = ks.remove(a);
    if rest.len() == 0 {
        assert forall|q: Seq<char>| #[trigger] ks.contains(q) && q != a implies name_lt(a, q) by {
            assert(rest.contains(q));
        }
        a
    } else {
        let b = lemma_min_name(rest);
        if name_lt(a, b) {
            assert forall|q: Seq<char>| #[trigger] ks.contains(q) && q != a implies name_lt(a, q) by {
                if q != b {
                    assert(rest.contains(q));
                    lemma_name_lt_transitive(a, b, q);
                }
            }
            a
        } else {
            lemma_name_lt_total(a, b);
            assert forall|q: Seq<char>| #[trigger] ks.contains(q) && q != b implies name_lt(b, q) by {
                if q != a {
                    assert(rest.contains(q));
                }
            }
            b
        }
    }
}

/// A sorted listing without its first entry lists the rest of the map.
proof fn lemma_listing_tail(s: Seq<(Seq<char>, Seq<char>)>, m: Map<Seq<char>, Seq<char>>)
    requires
        is_sorted_listing(s, m),
        s.len() > 0,
    ensures
        is_sorted_listing(s.drop_first(), m.remove(s[0].0)),
        m.contains_key(s[0].0),
        m[s[0].0] == s[0].1,
{
    let k = s[0].0;
    let m2 = m.remove(k);
    let t = s.drop_first();
    assert forall|a: int| 0 <= a < t.len() implies m2.contains_key(#[trigger] t[a].0) && m2[t[a].0] == t[a].1 by {
        assert(t[a] == s[a + 1]);
        assert(name_lt(s[0].0, s[a + 1].0));
        lemma_name_lt_irreflexive(k);
    }
    assert forall|q: Seq<char>| #[trigger] m2.contains_key(q) implies exists|a: int| 0 <= a < t.len() && (#[trigger] t[a]).0 == q by {
        let a = choose|a: int| 0 <= a < s.len() && (#[trigger] s[a]).0 == q;
        assert(t[a - 1] == s[a]);
    }
    assert forall|a: int, b: int| 0 <= a < b < t.len() implies name_lt(#[trigger] t[a].0, #[trigger] t[b].0) by {
        assert(t[a] == s[a + 1] && t[b] == s[b + 1]);
    }
}

/// Every finite map has a sorted listing.
pub proof fn lemma_sorted_listing_exists(m: Map<Seq<char>, Seq<char>>)
    requires
        m.dom().finite(),
    ensures
        is_sorted_listing(sorted_listing(m), m),
    decreases m.dom().len(),
{
    if m.dom().len() == 0 {
        let e = Seq::<(Seq<char>, Seq<char>)>::empty();
        assert forall|k: Seq<char>| #[trigger] m.contains_key(k) implies exists|i: int| 0 <= i < e.len() && (#[trigger] e[i]).0 == k by {
            assert(m.dom().contains(k));
        }
        assert(is_sorted_listing(e, m));
    } else {
        let k = lemma_min_name(m.dom());
        let rest = m.remove(k);
        assert(rest.dom() =~= m.dom().remove(k));
        lemma_sorted_listing_exists(rest);
        let t = sorted_listing(rest);
        let s = seq![(k, m[k])] + t;
        assert forall|a: int, b: int| 0 <= a < b < s.len() implies name_lt(#[trigger] s[a].0, #[trigger] s[b].0) by {
            assert(s[b] == t[b - 1]);
            if a > 0 {
                assert(s[a] == t[a - 1]);
            } else {
                assert(rest.contains_key(t[b - 1].0));
            }
        }
        assert forall|a: int| 0 <= a < s.len() implies m.contains_key(#[trigger] s[a].0) && m[s[a].0] == s[a].1 by {
            if a > 0 {
                assert(s[a] == t[a - 1]);
            }
        }
        assert forall|q: Seq<char>| #[trigger] m.contains_key(q) implies exists|a: int| 0 <= a < s.len() && (#[trigger] s[a]).0 == q by {
            if q != k {
                assert(rest.contains_key(q));
                let a = choose|a: int| 0 <= a < t.len() && (#[trigger] t[a]).0 == q;
                assert(s[a + 1] == t[a]);
            } else {
                assert(s[0].0 == q);
            }
        }
        assert(is_sorted_listing(s, m));
    }
}

/// Splitting `x + y` where `y` has no separator: `y` extends the last piece.
proof fn lemma_split_on_append_plain(x: Seq<char>, y: Seq<char>, sep: char)
    requires
        !y.contains(sep),
    ensures
        split_on(x + y, sep) == split_on(x, sep).update(
            split_on(x, sep).len() - 1,
            split_on(x, sep).last() + y,
        ),
    decreases y.len(),
{
    lemma_split_on_nonempty(x, sep);
    let q = split_on(x, sep);
    if y.len() == 0 {
        assert(x + y =~= x);
        assert(q.last() + y =~= q.last());
        assert(q.update(q.len() - 1, q.last()) =~= q);
    } else {
        let y2 = y.drop_last();
        assert(!y2.contains(sep)) by {
            if y2.contains(sep) {
                let j = choose|j: int| 0 <= j < y2.len() && y2[j] == sep;
                assert(y[j] == sep);
            }
        }
        lemma_split_on_append_plain(x, y2, sep);
        assert((x + y).drop_last() =~= x + y2);
        assert((x + y).last() == y.last());
        assert(y.last() != sep) by {
            assert(y[y.len() - 1] == y.last());
        }
        let p = split_on(x + y2, sep);
        assert(p.last() == q.last() + y2);
        assert(p.last().push(y.last()) =~= q.last() + y);
        assert(split_on(x + y, sep) =~= q.update(q.len() - 1, q.last() + y));
    }
}

/// Splitting text that ends in a separator: an empty last piece.
proof fn lemma_split_on_sep(x: Seq<char>, sep: char)
    ensures
        split_on(x + seq![sep], sep) == split_on(x, sep).push(Seq::<char>::empty()),
{
    assert((x + seq![sep]).drop_last() =~= x);
    assert((x + seq![sep]).last() == sep);
}

/// The header line without its line break.
pub open spec fn header_line() -> Seq<char> {
    seq!['[', 's', 't', 'y', 'l', 'e', 's', ']']
}

/// The line that the INI text writes for one entry.
pub open spec fn entry_line(e: (Seq<char>, Seq<char>)) -> Seq<char> {
    e.0 + assign_sep() + e.1
}

/// The entry lines of a listing.
pub open spec fn entry_lines(s: Seq<(Seq<char>, Seq<char>)>) -> Seq<Seq<char>> {
    Seq::new(s.len(), |i: int| entry_line(s[i]))
}

/// The lines of the INI text: the header, one line per entry, and the empty
/// rest after the last line break.
proof fn lemma_config_lines(s: Seq<(Seq<char>, Seq<char>)>)
    requires
        forall|i: int| 0 <= i < s.len() ==> !(#[trigger] entry_line(s[i])).contains('\n'),
    ensures
        split_on(config_text(s), '\n') == seq![header_line()] + entry_lines(s) + seq![Seq::<char>::empty()],
    decreases s.len(),
{
    if s.len() == 0 {
        assert(styles_header() =~= header_line() + seq!['\n']);
        lemma_split_on_sep(header_line(), '\n');
        assert(!header_line().contains('\n')) by {
            if header_line().contains('\n') {
                let j = choose|j: int| 0 <= j < header_line().len() && header_line()[j] == '\n';
            }
        }
        lemma_split_on_append_plain(Seq::<char>::empty(), header_line(), '\n');
        assert(Seq::<char>::empty() + header_line() =~= header_line());
        assert(split_on(Seq::<char>::empty(), '\n') =~= seq![Seq::<char>::empty()]);
        assert(entry_lines(s) =~= Seq::<Seq<char>>::empty());
        assert(split_on(config_text(s), '\n') =~= seq![header_line()] + entry_lines(s) + seq![Seq::<char>::empty()]);
    } else {
        let t = s.drop_last();
        assert forall|i: int| 0 <= i < t.len() implies !(#[trigger] entry_line(t[i])).contains('\n') by {
            assert(t[i] == s[i]);
        }
        lemma_config_lines(t);
        let l = entry_line(s.last());
        assert(s.last() == s[s.len() - 1]);
        assert(config_text(s) =~= (config_text(t) + l) + seq!['\n']);
        lemma_split_on_sep(config_text(t) + l, '\n');
        lemma_split_on_append_plain(config_text(t), l, '\n');
        let q = split_on(config_text(t), '\n');
        assert(q.last() =~= Seq::<char>::empty());
        assert(Seq::<char>::empty() + l =~= l);
        assert(entry_lines(s) =~= entry_lines(t).push(l));
        assert(split_on(config_text(s), '\n') =~= seq![header_line()] + entry_lines(s) + seq![Seq::<char>::empty()]);
    }
}

proof fn lemma_trim_start_len(s: Seq<char>)
    ensures
        trim_start(s).len() <= s.len(),
    decreases s.len(),
{
    if s.len() > 0 && is_white_space(s[0]) {
        lemma_trim_start_len(s.drop_first());
    }
}

proof fn lemma_trim_end_len(s: Seq<char>)
    ensures
        trim_end(s).len() <= s.len(),
    decreases s.len(),
{
    if s.len() > 0 && is_white_space(s.last()) {
        lemma_trim_end_len(s.drop_last());
    }
}

/// Text that trimming leaves unchanged neither starts nor ends with
/// whitespace.
proof fn lemma_trimmed_ends(s: Seq<char>)
    requires
        trimmed(s) == s,
        s.len() > 0,
    ensures
        !is_white_space(s[0]),
        !is_white_space(s.last()),
{
    if is_white_space(s[0]) {
        lemma_trim_start_len(s.drop_first());
        lemma_trim_end_len(trim_start(s));
    } else {
        assert(trim_start(s) == s);
        if is_white_space(s.last()) {
            lemma_trim_end_len(s.drop_last());
        }
    }
}

/// [`first_index`] finds the first occurrence from `i` on.
proof fn lemma_first_index_at(s: Seq<char>, c: char, i: int, p: int)
    requires
        0 <= i <= p < s.len(),
        forall|j: int| i <= j < p ==> s[j] != c,
        s[p] == c,
    ensures
        first_index(s, c, i) == Some(p),
    decreases p - i,
{
    if i < p {
        lemma_first_index_at(s, c, i + 1, p);
    }
}

/// A style that the INI text writes and reads back unchanged: the
/// definition is a style definition, the name is not empty and has no `=`,
/// neither name nor definition has a line break or surrounding whitespace,
/// the name does not start a comment (`#`, `;`), and a name starting with
/// `[` does not take a definition ending with `]` (the line would read as a
/// section header).
pub open spec fn config_safe(name: Seq<char>, def: Seq<char>) -> bool {
    &&& is_style_definition(def)
    &&& name.len() > 0
    &&& trimmed(name) == name
    &&& trimmed(def) == def
    &&& !name.contains('=')
    &&& !name.contains('\n')
    &&& !def.contains('\n')
    &&& name[0] != '#'
    &&& name[0] != ';'
    &&& !(name[0] == '[' && def.len() > 0 && def.last() == ']')
}

/// The line written for a safe style reads back as that style.
proof fn lemma_entry_line_reads(
    name: Seq<char>,
    def: Seq<char>,
    number: nat,
    acc: Map<Seq<char>, Seq<char>>,
)
    requires
        config_safe(name, def),
    ensures
        spec_theme_line(entry_line((name, def)), number, true, acc) == Ok::<
            (bool, Map<Seq<char>, Seq<char>>),
            ThemeErrorView,
        >((true, acc.insert(name, def))),
{
    let l = entry_line((name, def));
    let n = name.len() as int;
    lemma_trimmed_ends(name);
    assert(l[0] == name[0]);
    assert(l[n] == ' ' && l[n + 1] == '=' && l[n + 2] == ' ');
    lemma_trim_start_at(l, 0);
    assert(l.subrange(0, l.len() as int) =~= l);
    let line = if def.len() > 0 { l } else { l.take(n + 2) };
    if def.len() > 0 {
        lemma_trimmed_ends(def);
        assert(l.last() == def.last());
        lemma_trim_end_at(l, l.len() as int);
        assert(l.subrange(0, l.len() as int) =~= l);
    } else {
        assert(l.len() == n + 3);
        lemma_trim_end_at(l, n + 2);
        assert(l.subrange(0, n + 2) =~= l.take(n + 2));
    }
    assert(trimmed(l) == line);
    assert(line[0] == name[0]);
    assert(!is_section_header(line)) by {
        if def.len() > 0 {
            assert(line.last() == def.last());
        } else {
            assert(line.last() == '=');
        }
    }
    assert forall|j: int| 0 <= j < n + 1 implies line[j] != '=' by {
        if j < n {
            assert(line[j] == name[j]);
            if name[j] == '=' {
                assert(name.contains('='));
            }
        }
    }
    lemma_first_index_at(line, '=', 0, n + 1);
    let before = line.take(n + 1);
    assert(before =~= name.push(' '));
    assert(before[0] == name[0]);
    lemma_trim_start_at(before, 0);
    assert(before.subrange(0, before.len() as int) =~= before);
    assert(before[n - 1] == name.last());
    lemma_trim_end_at(before, n);
    assert(before.subrange(0, n) =~= name);
    let after = line.skip(n + 2);
    if def.len() > 0 {
        assert(after =~= seq![' '] + def);
        lemma_trim_start_at(after, 1);
        assert(after.subrange(1, after.len() as int) =~= def);
        lemma_trim_end_at(def, def.len() as int);
        assert(def.subrange(0, def.len() as int) =~= def);
    } else {
        assert(after =~= Seq::<char>::empty());
        assert(def =~= Seq::<char>::empty());
    }
}

/// Reading the entry lines of a sorted listing of `m` (and the empty rest)
/// in the styles section sets exactly the styles of `m`.
proof fn lemma_entry_lines_read(
    s: Seq<(Seq<char>, Seq<char>)>,
    m: Map<Seq<char>, Seq<char>>,
    number: nat,
    acc: Map<Seq<char>, Seq<char>>,
)
    requires
        is_sorted_listing(s, m),
        forall|i: int| 0 <= i < s.len() ==> config_safe(#[trigger] s[i].0, s[i].1),
    ensures
        spec_theme_lines(entry_lines(s) + seq![Seq::<char>::empty()], number, true, acc) == Ok::<
            Map<Seq<char>, Seq<char>>,
            ThemeErrorView,
        >(acc.union_prefer_right(m)),
    decreases s.len(),
{
    let lines = entry_lines(s) + seq![Seq::<char>::empty()];
    if s.len() == 0 {
        assert(lines =~= seq![Seq::<char>::empty()]);
        assert(trimmed(Seq::<char>::empty()) =~= Seq::<char>::empty());
        assert(lines.drop_first() =~= Seq::<Seq<char>>::empty());
        assert(m.dom() =~= Set::<Seq<char>>::empty()) by {
            assert forall|k: Seq<char>| !m.dom().contains(k) by {
                if m.contains_key(k) {
                    let i = choose|i: int| 0 <= i < s.len() && (#[trigger] s[i]).0 == k;
                }
            }
        }
        assert(acc.union_prefer_right(m) =~= acc);
        assert(spec_theme_line(lines[0], number, true, acc) == Ok::<(bool, Map<Seq<char>, Seq<char>>), ThemeErrorView>((true, acc)));
        assert(spec_theme_lines(lines.drop_first(), number + 1, true, acc) == Ok::<Map<Seq<char>, Seq<char>>, ThemeErrorView>(acc));
    } else {
        let k = s[0].0;
        let d = s[0].1;
        let t = s.drop_first();
        assert(lines[0] == entry_line((k, d)));
        assert(lines.drop_first() =~= entry_lines(t) + seq![Seq::<char>::empty()]);
        lemma_entry_line_reads(k, d, number, acc);
        lemma_listing_tail(s, m);
        assert forall|i: int| 0 <= i < t.len() implies config_safe(#[trigger] t[i].0, t[i].1) by {
            assert(t[i] == s[i + 1]);
        }
        lemma_entry_lines_read(t, m.remove(k), number + 1, acc.insert(k, d));
        assert(acc.insert(k, d).union_prefer_right(m.remove(k)) =~= acc.union_prefer_right(m));
        assert(spec_theme_line(lines[0], number, true, acc) == Ok::<(bool, Map<Seq<char>, Seq<char>>), ThemeErrorView>((true, acc.insert(k, d))));
    }
}

/// Writing a theme as INI text and reading the text back gives the theme's
/// styles again, for every theme whose styles are all [`config_safe`].
pub proof fn lemma_config_round_trip(t: Theme)
    requires
        forall|k: Seq<char>| #[trigger] t@.contains_key(k) ==> config_safe(k, t@[k]),
    ensures
        spec_parse_theme(config_text(sorted_listing(t@))) == Ok::<Map<Seq<char>, Seq<char>>, ThemeErrorView>(t@),
{
    let m = t@;
    lemma_entries_map(t.styles@);
    lemma_sorted_listing_exists(m);
    let s = sorted_listing(m);
    assert forall|i: int| 0 <= i < s.len() implies config_safe(#[trigger] s[i].0, s[i].1) by {
        assert(m.contains_key(s[i].0));
    }
    assert forall|i: int| 0 <= i < s.len() implies !(#[trigger] entry_line(s[i])).contains('\n') by {
        assert(config_safe(s[i].0, s[i].1));
        let l = entry_line(s[i]);
        if l.contains('\n') {
            let j = choose|j: int| 0 <= j < l.len() && l[j] == '\n';
            let n = s[i].0.len() as int;
            if j < n {
                assert(s[i].0[j] == '\n');
                assert(s[i].0.contains('\n'));
            } else if j >= n + 3 {
                assert(s[i].1[j - n - 3] == '\n');
                assert(s[i].1.contains('\n'));
            }
        }
    }
    lemma_config_lines(s);
    let lines = seq![header_line()] + entry_lines(s) + seq![Seq::<char>::empty()];
    let h = header_line();
    lemma_trim_start_at(h, 0);
    lemma_trim_end_at(h.subrange(0, h.len() as int), h.len() as int);
    assert(h.subrange(0, h.len() as int) =~= h);
    assert(trimmed(h) == h);
    assert(h.subrange(1, h.len() - 1) =~= seq!['s', 't', 'y', 'l', 'e', 's']);
    assert(ascii_lower_seq(seq!['s', 't', 'y', 'l', 'e', 's']) =~= seq!['s', 't', 'y', 'l', 'e', 's']);
    assert(lines[0] == h);
    assert(lines.drop_first() =~= entry_lines(s) + seq![Seq::<char>::empty()]);
    lemma_entry_lines_read(s, m, 2, Map::empty());
    assert(Map::<Seq<char>, Seq<char>>::empty().union_prefer_right(m) =~= m);
}

} // verus!
