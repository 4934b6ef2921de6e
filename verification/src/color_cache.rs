//! A bounded least-recently-used cache of parsed color definitions.

use vstd::prelude::*;
use lru::LruCache;
use crate::color::Color;
use crate::color_parse::{
    ColorParseError, error_view, normalized, parse_would_panic, result_view, spec_parse_normalized,
};

verus! {

#[verifier::external_type_specification]
#[verifier::external_body]
#[verifier::reject_recursive_types(K)]
#[verifier::reject_recursive_types(V)]
#[verifier::reject_recursive_types(S)]
pub struct ExLruCache<K, V, S>(LruCache<K, V, S>);

#[verifier::external_type_specification]
#[verifier::external_body]
pub struct ExDefaultHasher(lru::DefaultHasher);

/// A map with no entries.
pub open spec fn no_entries(m: Map<Seq<char>, Color>) -> bool {
    m == Map::<Seq<char>, Color>::empty()
}

/// The key/value pairs an `lru::LruCache` of parsed colors holds.
pub uninterp spec fn lru_entries(c: LruCache<String, Color>) -> Map<Seq<char>, Color>;

/// The capacity an `lru::LruCache` of parsed colors was made with.
pub uninterp spec fn lru_capacity(c: LruCache<String, Color>) -> nat;

/// `LruCache::new` with capacity `cap`: an empty cache of that capacity.
#[verifier::external_body]
fn lru_new(cap: usize) -> (c: LruCache<String, Color>)
    requires
        cap > 0,
    ensures
        no_entries(lru_entries(c)),
        lru_entries(c).dom().finite(),
        lru_capacity(c) == cap,
{
    LruCache::new(std::num::NonZeroUsize::new(cap).unwrap())
}

/// `LruCache::get`: the value stored under `key`, if any. It only changes the
/// recency order, so the entries and capacity stay as they were.
#[verifier::external_body]
fn lru_get(c: &mut LruCache<String, Color>, key: &str) -> (r: Option<Color>)
    ensures
        lru_entries(*final(c)) == lru_entries(*old(c)),
        lru_capacity(*final(c)) == lru_capacity(*old(c)),
        r == (if lru_entries(*old(c)).dom().contains(key@) {
            Some(lru_entries(*old(c))[key@])
        } else {
            None
        }),
{
    c.get(key).copied()
}

/// `LruCache::put`: stores `value` under `key`. Any other entry either stays
/// as it was or is the one evicted when the cache was full; while `key` is
/// held or there is room, none is evicted. The cache never holds more
/// entries than its capacity.
#[verifier::external_body]
fn lru_put(c: &mut LruCache<String, Color>, key: String, value: Color)
    ensures
        lru_capacity(*final(c)) == lru_capacity(*old(c)),
        lru_entries(*final(c)).dom().finite(),
        lru_entries(*final(c)).dom().len() <= lru_capacity(*final(c)),
        lru_entries(*old(c)).dom().contains(key@) || lru_entries(*old(c)).dom().len() < lru_capacity(*old(c))
            ==> lru_entries(*old(c)).dom().subset_of(lru_entries(*final(c)).dom()),
        lru_entries(*final(c)).dom().contains(key@),
        lru_entries(*final(c))[key@] == value,
        forall|k: Seq<char>| #[trigger] lru_entries(*final(c)).dom().contains(k) ==> k == key@ || (
        lru_entries(*old(c)).dom().contains(k) && lru_entries(*final(c))[k] == lru_entries(
            *old(c),
        )[k]),
{
    c.put(key, value);
}

/// `LruCache::len`: the number of entries.
#[verifier::external_body]
fn lru_len(c: &LruCache<String, Color>) -> (n: usize)
    ensures
        n == lru_entries(*c).dom().len(),
{
    c.len()
}

/// `LruCache::clear`: removes every entry, keeping the capacity.
#[verifier::external_body]
fn lru_clear(c: &mut LruCache<String, Color>)
    ensures
        no_entries(lru_entries(*final(c))),
        lru_entries(*final(c)).dom().finite(),
        lru_capacity(*final(c)) == lru_capacity(*old(c)),
{
    c.clear();
}

/// Every entry of a cache maps a definition to the color it parses to.
pub open spec fn entries_agree(entries: Map<Seq<char>, Color>) -> bool {
    forall|k: Seq<char>| #[trigger] entries.dom().contains(k) ==> spec_parse_normalized(normalized(k), k)
        == Ok::<Color, (crate::color_parse::ColorParseErrorKind, Seq<char>)>(entries[k])
}

/// A cache of successfully parsed color definitions, keyed by the text as
/// given; it holds at most 1024 entries and evicts the least recently used.
pub struct ColorCache {
    cache: LruCache<String, Color>,
}

impl ColorCache {
    /// The definitions held and the colors they parse to.
    pub closed spec fn entries(&self) -> Map<Seq<char>, Color> {
        lru_entries(self.cache)
    }

    /// Every entry is what its definition parses to, the capacity is 1024,
    /// and there are at most that many entries.
    pub closed spec fn wf(&self) -> bool {
        &&& entries_agree(lru_entries(self.cache))
        &&& lru_capacity(self.cache) == 1024
        &&& lru_entries(self.cache).dom().finite()
        &&& lru_entries(self.cache).dom().len() <= 1024
    }

    /// An empty cache with room for 1024 definitions.
    pub fn new() -> (c: ColorCache)
        ensures
            c.wf(),
            c.entries() == Map::<Seq<char>, Color>::empty(),
    {
        ColorCache { cache: lru_new(1024) }
    }

    /// Parses a color definition as [`Color::parse`] does, answering from the
    /// cache when the definition was parsed before and storing new successes.
    pub fn parse(&mut self, color: &str) -> (r: Result<Color, ColorParseError>)
        requires
            old(self).wf(),
            !parse_would_panic(normalized(color@)),
        ensures
            final(self).wf(),
            result_view(r) == spec_parse_normalized(normalized(color@), color@),
            r is Ok ==> final(self).entries().dom().contains(color@),
            r is Err ==> final(self).entries() == old(self).entries(),
            entries_agree(final(self).entries()),
            final(self).entries().dom().len() <= 1024,
            final(self).entries().dom().subset_of(old(self).entries().dom().insert(color@)),
            old(self).entries().dom().len() < 1024 ==> old(self).entries().dom().subset_of(
                final(self).entries().dom(),
            ),
    {
        let hit = lru_get(&mut self.cache, color);
        if let Some(c) = hit {
            return Ok(c);
        }
        let parsed = Color::parse(color);
        let r = match parsed {
            Ok(c) => {
                lru_put(&mut self.cache, color.to_string(), c);
                Ok(c)
            },
            Err(e) => Err(e),
        };
        r
    }

    /// [`ColorCache::parse`] for every input: `None`, with the cache
    /// unchanged, exactly where reading the input would slice a multi-byte
    /// hex body off a character boundary.
    pub fn try_parse(&mut self, color: &str) -> (r: Option<Result<Color, ColorParseError>>)
        requires
            old(self).wf(),
        ensures
            final(self).wf(),
            r is None <==> parse_would_panic(normalized(color@)),
            r is None ==> final(self).entries() == old(self).entries(),
            r matches Some(res) ==> result_view(res) == spec_parse_normalized(normalized(color@), color@),
    {
        match Color::try_parse(color) {
            None => None,
            Some(_) => Some(self.parse(color)),
        }
    }

    /// Removes every cached definition.
    pub fn clear(&mut self)
        requires
            old(self).wf(),
        ensures
            final(self).wf(),
            final(self).entries() == Map::<Seq<char>, Color>::empty(),
    {
        lru_clear(&mut self.cache);
    }

    /// Returns the number of cached definitions.
    pub fn len(&self) -> (n: usize)
        ensures
            n == self.entries().dom().len(),
    {
        lru_len(&self.cache)
    }
}

} // verus!
