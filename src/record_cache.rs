use vstd::prelude::*;
use crate::model::{CacheEntry, CacheKey, EntryView, KeyView};
use lru::LruCache;

verus! {

/// The contents of a cache as a sequence of key and entry pairs, from the
/// least recently used to the most recently used.
pub type CacheView = Seq<(KeyView, EntryView)>;

/// Whether `k` is held in `s`.
pub open spec fn has_key(s: CacheView, k: KeyView) -> bool {
    exists|i: int| 0 <= i < s.len() && #[trigger] s[i].0 == k
}

/// The position of `k` in `s`, where it is held.
pub open spec fn key_pos(s: CacheView, k: KeyView) -> int {
    choose|i: int| 0 <= i < s.len() && #[trigger] s[i].0 == k
}

/// No key is held twice.
pub open spec fn keys_unique(s: CacheView) -> bool {
    forall|i: int, j: int| 0 <= i < s.len() && 0 <= j < s.len() && #[trigger] s[i].0 == #[trigger] s[j].0 ==> i == j
}

/// The entry held for `k`, if any.
pub open spec fn lookup_model(s: CacheView, k: KeyView) -> Option<EntryView> {
    if has_key(s, k) {
        Some(s[key_pos(s, k)].1)
    } else {
        None
    }
}

/// The contents after a `get` of `k`: a held key becomes the most recently used.
pub open spec fn get_model(s: CacheView, k: KeyView) -> CacheView {
    if has_key(s, k) {
        s.remove(key_pos(s, k)).push(s[key_pos(s, k)])
    } else {
        s
    }
}

/// The contents after a `put` of `k` and `e` into a cache of capacity `cap`:
/// a held key is replaced and becomes the most recently used; a new key is
/// appended, and when the cache is full the least recently used entry goes.
pub open spec fn put_model(s: CacheView, cap: nat, k: KeyView, e: EntryView) -> CacheView {
    if has_key(s, k) {
        s.remove(key_pos(s, k)).push((k, e))
    } else if s.len() >= cap {
        s.drop_first().push((k, e))
    } else {
        s.push((k, e))
    }
}

/// Where `k` sits at `i` in a sequence without repeated keys, the lookup
/// finds the entry at `i`.
pub proof fn lemma_lookup_at(s: CacheView, k: KeyView, i: int)
    requires
        keys_unique(s),
        0 <= i < s.len(),
        s[i].0 == k,
    ensures
        has_key(s, k),
        key_pos(s, k) == i,
        lookup_model(s, k) == Some(s[i].1),
{
    assert(has_key(s, k));
    let p = key_pos(s, k);
    assert(s[p].0 == s[i].0);
}

/// A `get` keeps the keys unique.
pub proof fn lemma_get_unique(s: CacheView, k: KeyView)
    requires
        keys_unique(s),
    ensures
        keys_unique(get_model(s, k)),
        get_model(s, k).len() == s.len(),
{
    if has_key(s, k) {
        let i = key_pos(s, k);
        let t = get_model(s, k);
        assert forall|a: int, b: int|
            0 <= a < t.len() && 0 <= b < t.len() && #[trigger] t[a].0 == #[trigger] t[b].0 implies a
            == b by {
            let oa = if a == s.len() - 1 { i } else if a < i { a } else { a + 1 };
            let ob = if b == s.len() - 1 { i } else if b < i { b } else { b + 1 };
            assert(t[a] == s[oa]);
            assert(t[b] == s[ob]);
        }
    }
}

/// A `put` keeps the keys unique and the capacity unexceeded.
pub proof fn lemma_put_unique(s: CacheView, cap: nat, k: KeyView, e: EntryView)
    requires
        keys_unique(s),
        cap > 0,
        s.len() <= cap,
    ensures
        keys_unique(put_model(s, cap, k, e)),
        put_model(s, cap, k, e).len() <= cap,
{
    let t = put_model(s, cap, k, e);
    if has_key(s, k) {
        let i = key_pos(s, k);
        assert forall|a: int, b: int|
            0 <= a < t.len() && 0 <= b < t.len() && #[trigger] t[a].0 == #[trigger] t[b].0 implies a
            == b by {
            if a != s.len() - 1 {
                let oa = if a < i { a } else { a + 1 };
                assert(t[a] == s[oa]);
            }
            if b != s.len() - 1 {
                let ob = if b < i { b } else { b + 1 };
                assert(t[b] == s[ob]);
            }
        }
    } else if s.len() >= cap {
        assert forall|a: int, b: int|
            0 <= a < t.len() && 0 <= b < t.len() && #[trigger] t[a].0 == #[trigger] t[b].0 implies a
            == b by {
            if a != s.len() - 1 {
                assert(t[a] == s[a + 1]);
            }
            if b != s.len() - 1 {
                assert(t[b] == s[b + 1]);
            }
        }
    } else {
        assert forall|a: int, b: int|
            0 <= a < t.len() && 0 <= b < t.len() && #[trigger] t[a].0 == #[trigger] t[b].0 implies a
            == b by {
            if a != s.len() {
                assert(t[a] == s[a]);
            }
            if b != s.len() {
                assert(t[b] == s[b]);
            }
        }
    }
}

/// After a `put` of `k`, the lookup of `k` finds the entry just stored.
pub proof fn lemma_put_then_lookup(s: CacheView, cap: nat, k: KeyView, e: EntryView)
    requires
        keys_unique(s),
        cap > 0,
        s.len() <= cap,
    ensures
        lookup_model(put_model(s, cap, k, e), k) == Some(e),
{
    lemma_put_unique(s, cap, k, e);
    let t = put_model(s, cap, k, e);
    lemma_lookup_at(t, k, t.len() - 1);
}

/// A `get` of any key leaves what every key maps to as it was.
pub proof fn lemma_get_keeps_lookups(s: CacheView, k: KeyView, k2: KeyView)
    requires
        keys_unique(s),
    ensures
        lookup_model(get_model(s, k), k2) == lookup_model(s, k2),
{
    lemma_get_unique(s, k);
    let t = get_model(s, k);
    if has_key(s, k2) {
        let j = key_pos(s, k2);
        lemma_lookup_at(s, k2, j);
        if has_key(s, k) {
            let i = key_pos(s, k);
            let tj = if j == i { t.len() - 1 } else if j < i { j } else { j - 1 };
            assert(t[tj] == s[j]);
            lemma_lookup_at(t, k2, tj);
        } else {
            lemma_lookup_at(t, k2, j);
        }
    } else if has_key(t, k2) {
        let j = key_pos(t, k2);
        let i = key_pos(s, k);
        let sj = if j == t.len() - 1 { i } else if j < i { j } else { j + 1 };
        assert(t[j] == s[sj]);
    }
}

/// A `put` of `k1` leaves the entry of another key `k2` as it was, unless the
/// put evicted `k2` itself as the least recently used entry of a full cache.
pub proof fn lemma_put_keeps_other(s: CacheView, cap: nat, k1: KeyView, k2: KeyView, e: EntryView)
    requires
        keys_unique(s),
        cap > 0,
        s.len() <= cap,
        k1 != k2,
        !(s.len() >= cap && !has_key(s, k1) && s[0].0 == k2),
    ensures
        lookup_model(put_model(s, cap, k1, e), k2) == lookup_model(s, k2),
{
    lemma_put_unique(s, cap, k1, e);
    let t = put_model(s, cap, k1, e);
    if has_key(s, k2) {
        let j = key_pos(s, k2);
        lemma_lookup_at(s, k2, j);
        if has_key(s, k1) {
            let i = key_pos(s, k1);
            let tj = if j < i { j } else { j - 1 };
            assert(t[tj] == s[j]);
            lemma_lookup_at(t, k2, tj);
        } else if s.len() >= cap {
            assert(t[j - 1] == s[j]);
            lemma_lookup_at(t, k2, j - 1);
        } else {
            assert(t[j] == s[j]);
            lemma_lookup_at(t, k2, j);
        }
    } else if has_key(t, k2) {
        let j = key_pos(t, k2);
        if has_key(s, k1) {
            let i = key_pos(s, k1);
            if j < t.len() - 1 {
                let sj = if j < i { j } else { j + 1 };
                assert(t[j] == s[sj]);
            }
        } else if s.len() >= cap {
            if j < t.len() - 1 {
                assert(t[j] == s[j + 1]);
            }
        } else {
            if j < t.len() - 1 {
                assert(t[j] == s[j]);
            }
        }
    }
}

/// The contents after putting `items` in order into an empty cache of
/// capacity `cap`.
pub open spec fn fill_model(cap: nat, items: CacheView) -> CacheView
    decreases items.len(),
{
    if items.len() == 0 {
        Seq::empty()
    } else {
        put_model(fill_model(cap, items.drop_last()), cap, items.last().0, items.last().1)
    }
}

proof fn lemma_fill_below_capacity(cap: nat, items: CacheView)
    requires
        keys_unique(items),
        items.len() <= cap,
    ensures
        fill_model(cap, items) == items,
    decreases items.len(),
{
    if items.len() > 0 {
        let prev = items.drop_last();
        assert(keys_unique(prev)) by {
            assert forall|a: int, b: int|
                0 <= a < prev.len() && 0 <= b < prev.len() && #[trigger] prev[a].0
                    == #[trigger] prev[b].0 implies a == b by {
                assert(prev[a] == items[a] && prev[b] == items[b]);
            }
        }
        lemma_fill_below_capacity(cap, prev);
        let k = items.last().0;
        if has_key(prev, k) {
            let i = key_pos(prev, k);
            assert(items[i].0 == items[items.len() - 1].0);
        }
        assert(prev.push(items.last()) =~= items);
    }
}

/// Putting `cap + 1` distinct keys, one after another, into an empty cache
/// of capacity `cap` evicts the first key, and every later key is still held
/// with its entry.
pub proof fn lemma_lru_eviction(cap: nat, items: CacheView)
    requires
        cap > 0,
        keys_unique(items),
        items.len() == cap + 1,
    ensures
        fill_model(cap, items) == items.drop_first(),
        !has_key(fill_model(cap, items), items[0].0),
        forall|j: int|
            1 <= j < items.len() ==> lookup_model(fill_model(cap, items), #[trigger] items[j].0)
                == Some(items[j].1),
{
    let prev = items.drop_last();
    assert(keys_unique(prev)) by {
        assert forall|a: int, b: int|
            0 <= a < prev.len() && 0 <= b < prev.len() && #[trigger] prev[a].0 == #[trigger] prev[b].0 implies a
            == b by {
            assert(prev[a] == items[a] && prev[b] == items[b]);
        }
    }
    lemma_fill_below_capacity(cap, prev);
    let k = items.last().0;
    if has_key(prev, k) {
        let i = key_pos(prev, k);
        assert(items[i].0 == items[items.len() - 1].0);
    }
    let t = items.drop_first();
    assert(prev.drop_first().push(items.last()) =~= t);
    assert(keys_unique(t)) by {
        assert forall|a: int, b: int|
            0 <= a < t.len() && 0 <= b < t.len() && #[trigger] t[a].0 == #[trigger] t[b].0 implies a
            == b by {
            assert(t[a] == items[a + 1] && t[b] == items[b + 1]);
        }
    }
    if has_key(t, items[0].0) {
        let i = key_pos(t, items[0].0);
        assert(items[i + 1].0 == items[0].0);
    }
    assert forall|j: int| 1 <= j < items.len() implies lookup_model(
        fill_model(cap, items),
        #[trigger] items[j].0,
    ) == Some(items[j].1) by {
        assert(t[j - 1] == items[j]);
        lemma_lookup_at(t, items[j].0, j - 1);
    }
}

#[verifier::external_type_specification]
#[verifier::external_body]
#[verifier::reject_recursive_types(K)]
#[verifier::reject_recursive_types(V)]
#[verifier::reject_recursive_types(S)]
pub struct ExLruCache<K, V, S>(lru::LruCache<K, V, S>);

/// What an `lru::LruCache` holds, from the least recently used entry to the
/// most recently used one.
pub uninterp spec fn lru_contents(c: LruCache<CacheKey, CacheEntry>) -> Seq<(KeyView, EntryView)>;

/// The capacity an `lru::LruCache` was made with.
pub uninterp spec fn lru_bound(c: LruCache<CacheKey, CacheEntry>) -> nat;

/// Relies on `lru::LruCache::new`: an empty cache holding at most `cap` entries.
#[verifier::external_body]
fn lru_new(cap: usize) -> (r: LruCache<CacheKey, CacheEntry>)
    ensures
        lru_contents(r) == Seq::<(KeyView, EntryView)>::empty(),
        lru_bound(r) == cap,
{
    LruCache::new(cap)
}

/// Relies on `lru::LruCache::len`: the number of entries held.
#[verifier::external_body]
fn lru_len(c: &LruCache<CacheKey, CacheEntry>) -> (r: usize)
    ensures
        r == lru_contents(*c).len(),
{
    c.len()
}

/// Relies on `lru::LruCache::contains`: whether a key is held, found through
/// the key's derived `Hash` and `Eq`, which compare every field; recency is
/// left as it is.
#[verifier::external_body]
fn lru_contains(c: &LruCache<CacheKey, CacheEntry>, k: &CacheKey) -> (r: bool)
    ensures
        r == has_key(lru_contents(*c), k@),
{
    c.contains(k)
}

/// Relies on `lru::LruCache::get`: the value held for a key, which becomes
/// the most recently used; nothing changes for a key not held.
#[verifier::external_body]
fn lru_get<'a>(c: &'a mut LruCache<CacheKey, CacheEntry>, k: &CacheKey) -> (r: Option<&'a CacheEntry>)
    ensures
        lru_bound(*final(c)) == lru_bound(*old(c)),
        lru_contents(*final(c)) == get_model(lru_contents(*old(c)), k@),
        match r {
            Some(e) => lookup_model(lru_contents(*old(c)), k@) == Some(e@),
            None => !has_key(lru_contents(*old(c)), k@),
        },
{
    c.get(k)
}

/// Relies on `lru::LruCache::put`: a held key gets the new value and becomes
/// the most recently used; a new key is added as the most recently used,
/// after the least recently used entry is dropped when the cache is full.
#[verifier::external_body]
fn lru_put(c: &mut LruCache<CacheKey, CacheEntry>, k: CacheKey, e: CacheEntry)
    requires
        lru_bound(*old(c)) > 0,
    ensures
        lru_bound(*final(c)) == lru_bound(*old(c)),
        lru_contents(*final(c)) == put_model(lru_contents(*old(c)), lru_bound(*old(c)), k@, e@),
{
    c.put(k, e);
}

/// A bounded store of entries by key with least-recently-used eviction.
pub struct RecordCache {
    inner: LruCache<CacheKey, CacheEntry>,
    capacity: usize,
}

impl View for RecordCache {
    type V = CacheView;

    closed spec fn view(&self) -> CacheView {
        lru_contents(self.inner)
    }
}

impl RecordCache {
    /// The most entries the cache holds.
    pub closed spec fn cap(&self) -> nat {
        self.capacity as nat
    }

    /// The capacity recorded beside the inner cache is the one it was made with.
    pub closed spec fn bound_kept(&self) -> bool {
        lru_bound(self.inner) == self.capacity
    }

    /// Well-formedness: the capacity is positive, never exceeded, and no key
    /// is held twice.
    pub open spec fn wf(&self) -> bool {
        &&& self.cap() > 0
        &&& self@.len() <= self.cap()
        &&& keys_unique(self@)
        &&& self.bound_kept()
    }

    /// An empty cache holding at most `capacity` entries.
    pub fn new(capacity: usize) -> (r: RecordCache)
        requires
            capacity > 0,
        ensures
            r.wf(),
            r@ == Seq::<(KeyView, EntryView)>::empty(),
            r.cap() == capacity,
    {
        RecordCache { inner: lru_new(capacity), capacity }
    }

    pub fn capacity(&self) -> (r: usize)
        ensures
            r == self.cap(),
    {
        self.capacity
    }

    pub fn len(&self) -> (r: usize)
        ensures
            r == self@.len(),
    {
        lru_len(&self.inner)
    }

    /// Whether `key` is held; recency is left as it is.
    pub fn contains(&self, key: &CacheKey) -> (r: bool)
        ensures
            r == has_key(self@, key@),
    {
        lru_contains(&self.inner, key)
    }

    /// A copy of the entry held for `key`, if any; a held key becomes the most
    /// recently used.
    pub fn get(&mut self, key: &CacheKey) -> (r: Option<CacheEntry>)
        requires
            old(self).wf(),
        ensures
            final(self).wf(),
            final(self).cap() == old(self).cap(),
            final(self)@ == get_model(old(self)@, key@),
            match r {
                Some(e) => lookup_model(old(self)@, key@) == Some(e@),
                None => lookup_model(old(self)@, key@) is None,
            },
    {
        proof {
            lemma_get_unique(self@, key@);
        }
        match lru_get(&mut self.inner, key) {
            Some(e) => Some(e.copy()),
            None => None,
        }
    }

    /// Stores `entry` for `key`, replacing what was held for it; when a new key
    /// meets a full cache the least recently used entry is evicted.
    pub fn put(&mut self, key: CacheKey, entry: CacheEntry)
        requires
            old(self).wf(),
        ensures
            final(self).wf(),
            final(self).cap() == old(self).cap(),
            final(self)@ == put_model(old(self)@, old(self).cap(), key@, entry@),
    {
        proof {
            lemma_put_unique(self@, self.cap(), key@, entry@);
        }
        lru_put(&mut self.inner, key, entry);
    }
}

} // verus!
