use vstd::prelude::*;
use crate::seqs::{first_match, lemma_first_match, lemma_first_match_facts};

verus! {

#[verifier::external_type_specification]
#[verifier::external_body]
#[verifier::reject_recursive_types(K)]
#[verifier::reject_recursive_types(V)]
#[verifier::reject_recursive_types(S)]
pub struct ExLruCache<K, V, S>(lru::LruCache<K, V, S>);

#[verifier::external_type_specification]
#[verifier::external_body]
pub struct ExLruDefaultHasher(lru::DefaultHasher);

/// Identifies a rendered image: document, 0-based page, and kind (page or thumbnail).
pub type ImageKey = (u64, u32, u8);

/// The kind code of a page render.
pub const PAGE_RENDER: u8 = 0;

/// The kind code of a thumbnail render.
pub const THUMBNAIL_RENDER: u8 = 1;

/// The byte budget of the page image cache (16 MiB).
pub const PAGE_IMAGE_BUDGET: usize = 16777216;

/// The byte budget of the thumbnail cache (4 MiB).
pub const THUMB_IMAGE_BUDGET: usize = 4194304;

/// How many images an image cache holds at most, whatever their size.
pub const IMAGE_CACHE_ENTRIES: usize = 512;

/// What an LRU cache holds: its entries, least recently used first.
pub uninterp spec fn lru_entries(c: lru::LruCache<(u64, u32, u8), usize>) -> Seq<((u64, u32, u8), usize)>;

/// The capacity an LRU cache was made with.
pub uninterp spec fn lru_capacity(c: lru::LruCache<(u64, u32, u8), usize>) -> nat;

pub open spec fn with_key(k: ImageKey) -> spec_fn(((u64, u32, u8), usize)) -> bool {
    |e: ((u64, u32, u8), usize)| e.0 == k
}

/// Where `k` sits in `s`, or -1.
pub open spec fn key_index(s: Seq<((u64, u32, u8), usize)>, k: ImageKey) -> int {
    first_match(s, with_key(k))
}

/// No key occurs twice.
pub open spec fn keys_unique(s: Seq<((u64, u32, u8), usize)>) -> bool {
    forall|i: int, j: int| 0 <= i < j < s.len() ==> #[trigger] s[i].0 != #[trigger] s[j].0
}

/// What `LruCache::put` leaves: an entry of the key is updated and becomes the most
/// recent; a new key is appended as the most recent, the least recent entry making room
/// when the cache is full.
pub open spec fn put_entries(s: Seq<((u64, u32, u8), usize)>, cap: nat, k: ImageKey, v: usize) -> Seq<
    ((u64, u32, u8), usize),
> {
    let i = key_index(s, k);
    if 0 <= i < s.len() {
        s.remove(i).push((k, v))
    } else if s.len() >= cap && s.len() > 0 {
        s.drop_first().push((k, v))
    } else {
        s.push((k, v))
    }
}

/// Calls `LruCache::new` with capacity `cap`.
#[verifier::external_body]
fn lru_new(cap: usize) -> (r: lru::LruCache<(u64, u32, u8), usize>)
    requires
        cap > 0,
    ensures
        lru_entries(r) == Seq::<((u64, u32, u8), usize)>::empty(),
        lru_capacity(r) == cap,
{
    lru::LruCache::new(std::num::NonZeroUsize::new(cap).unwrap())
}

/// Calls `LruCache::put`: answers the value the key had, if it had one.
#[verifier::external_body]
fn lru_put(c: &mut lru::LruCache<(u64, u32, u8), usize>, k: ImageKey, v: usize) -> (r: Option<usize>)
    ensures
        lru_capacity(*final(c)) == lru_capacity(*old(c)),
        lru_entries(*final(c)) == put_entries(lru_entries(*old(c)), lru_capacity(*old(c)), k, v),
        ({
            let s = lru_entries(*old(c));
            let i = key_index(s, k);
            if 0 <= i < s.len() {
                r == Some(s[i].1)
            } else {
                r is None
            }
        }),
{
    c.put(k, v)
}

/// Calls `LruCache::get`: answers the key's value and makes it the most recent entry.
#[verifier::external_body]
fn lru_get(c: &mut lru::LruCache<(u64, u32, u8), usize>, k: ImageKey) -> (r: Option<usize>)
    ensures
        lru_capacity(*final(c)) == lru_capacity(*old(c)),
        ({
            let s = lru_entries(*old(c));
            let i = key_index(s, k);
            if 0 <= i < s.len() {
                r == Some(s[i].1) && lru_entries(*final(c)) == s.remove(i).push(s[i])
            } else {
                r is None && lru_entries(*final(c)) == s
            }
        }),
{
    c.get(&k).copied()
}

/// Calls `LruCache::contains`, which leaves the order alone.
#[verifier::external_body]
fn lru_contains(c: &lru::LruCache<(u64, u32, u8), usize>, k: ImageKey) -> (r: bool)
    ensures
        r == (key_index(lru_entries(*c), k) >= 0),
{
    c.contains(&k)
}

/// Calls `LruCache::pop_lru`: removes and answers the least recent entry.
#[verifier::external_body]
fn lru_pop_lru(c: &mut lru::LruCache<(u64, u32, u8), usize>) -> (r: Option<((u64, u32, u8), usize)>)
    ensures
        lru_capacity(*final(c)) == lru_capacity(*old(c)),
        lru_entries(*old(c)).len() == 0 ==> r is None && lru_entries(*final(c)) == lru_entries(
            *old(c),
        ),
        lru_entries(*old(c)).len() > 0 ==> r == Some(lru_entries(*old(c))[0]) && lru_entries(
            *final(c),
        ) == lru_entries(*old(c)).drop_first(),
{
    c.pop_lru()
}

/// Calls `LruCache::pop`: removes and answers the key's entry.
#[verifier::external_body]
fn lru_pop(c: &mut lru::LruCache<(u64, u32, u8), usize>, k: ImageKey) -> (r: Option<usize>)
    ensures
        lru_capacity(*final(c)) == lru_capacity(*old(c)),
        ({
            let s = lru_entries(*old(c));
            let i = key_index(s, k);
            if 0 <= i < s.len() {
                r == Some(s[i].1) && lru_entries(*final(c)) == s.remove(i)
            } else {
                r is None && lru_entries(*final(c)) == s
            }
        }),
{
    c.pop(&k)
}

/// Calls `LruCache::iter` and keeps the keys, most recent first.
#[verifier::external_body]
fn lru_keys(c: &lru::LruCache<(u64, u32, u8), usize>) -> (r: Vec<(u64, u32, u8)>)
    ensures
        r@ == lru_entries(*c).map_values(|e: ((u64, u32, u8), usize)| e.0).reverse(),
{
    c.iter().map(|(k, _)| *k).collect()
}

/// The recently used images of one kind, kept within a byte budget; the images themselves
/// are kept by the caller under the same keys.
pub struct UiImageCache {
    entries: lru::LruCache<(u64, u32, u8), usize>,
    bytes: usize,
    budget: usize,
}

pub ghost struct ImageCacheView {
    pub entries: Seq<((u64, u32, u8), usize)>,
    pub bytes: usize,
    pub budget: usize,
}

impl View for UiImageCache {
    type V = ImageCacheView;

    closed spec fn view(&self) -> ImageCacheView {
        ImageCacheView { entries: lru_entries(self.entries), bytes: self.bytes, budget: self.budget }
    }
}

proof fn lemma_unique_after_remove(s: Seq<((u64, u32, u8), usize)>, i: int)
    requires
        keys_unique(s),
        0 <= i < s.len(),
    ensures
        keys_unique(s.remove(i)),
{
    let t = s.remove(i);
    assert forall|a: int, b: int| 0 <= a < b < t.len() implies #[trigger] t[a].0 != #[trigger] t[b].0 by {
        let oa = if a < i { a } else { a + 1 };
        let ob = if b < i { b } else { b + 1 };
        assert(t[a] == s[oa]);
        assert(t[b] == s[ob]);
    }
}

proof fn lemma_unique_after_put(s: Seq<((u64, u32, u8), usize)>, cap: nat, k: ImageKey, v: usize)
    requires
        keys_unique(s),
    ensures
        keys_unique(put_entries(s, cap, k, v)),
        key_index(put_entries(s, cap, k, v), k) == put_entries(s, cap, k, v).len() - 1,
{
    let f = with_key(k);
    lemma_first_match_facts(s, f);
    let i = key_index(s, k);
    let base = if 0 <= i < s.len() {
        s.remove(i)
    } else if s.len() >= cap && s.len() > 0 {
        s.drop_first()
    } else {
        s
    };
    if 0 <= i < s.len() {
        lemma_unique_after_remove(s, i);
        assert forall|j: int| 0 <= j < base.len() implies base[j].0 != k by {
            let oj = if j < i { j } else { j + 1 };
            assert(base[j] == s[oj]);
            if oj < i {
                assert(!f(s[oj]));
            } else {
                assert(s[oj].0 != s[i].0);
            }
        }
    } else if s.len() >= cap && s.len() > 0 {
        lemma_unique_after_remove(s, 0);
        assert(s.remove(0) =~= base);
        assert forall|j: int| 0 <= j < base.len() implies base[j].0 != k by {
            assert(base[j] == s[j + 1]);
            assert(!f(s[j + 1]));
        }
    } else {
        assert forall|j: int| 0 <= j < base.len() implies base[j].0 != k by {
            assert(!f(s[j]));
        }
    }
    let t = base.push((k, v));
    assert(t == put_entries(s, cap, k, v));
    assert forall|a: int, b: int| 0 <= a < b < t.len() implies #[trigger] t[a].0 != #[trigger] t[b].0 by {
        if b == t.len() - 1 {
            assert(t[a] == base[a]);
        } else {
            assert(t[a] == base[a]);
            assert(t[b] == base[b]);
        }
    }
    assert forall|j: int| 0 <= j < base.len() implies !f(#[trigger] t[j]) by {
        assert(t[j] == base[j]);
    }
    lemma_first_match(t, f, base.len() as int);
}

/// The bytes of the images that the entries stand for.
pub open spec fn entries_bytes(s: Seq<((u64, u32, u8), usize)>) -> int
    decreases s.len(),
{
    if s.len() == 0 {
        0
    } else {
        entries_bytes(s.drop_last()) + s.last().1
    }
}

proof fn lemma_bytes_push(s: Seq<((u64, u32, u8), usize)>, e: ((u64, u32, u8), usize))
    ensures
        entries_bytes(s.push(e)) == entries_bytes(s) + e.1,
{
    assert(s.push(e).drop_last() =~= s);
}

proof fn lemma_bytes_nonneg(s: Seq<((u64, u32, u8), usize)>)
    ensures
        entries_bytes(s) >= 0,
    decreases s.len(),
{
    if s.len() > 0 {
        lemma_bytes_nonneg(s.drop_last());
    }
}

proof fn lemma_bytes_remove(s: Seq<((u64, u32, u8), usize)>, i: int)
    requires
        0 <= i < s.len(),
    ensures
        entries_bytes(s.remove(i)) == entries_bytes(s) - s[i].1,
        s[i].1 <= entries_bytes(s),
    decreases s.len(),
{
    if i == s.len() - 1 {
        assert(s.remove(i) =~= s.drop_last());
        lemma_bytes_nonneg(s.drop_last());
    } else {
        lemma_bytes_remove(s.drop_last(), i);
        assert(s.remove(i) =~= s.drop_last().remove(i).push(s.last()));
        lemma_bytes_push(s.drop_last().remove(i), s.last());
        assert(s.drop_last()[i] == s[i]);
    }
}

/// What `put` leaves adds up to the old entries, less a replaced or pushed-out entry,
/// plus the new one; its length stays within the capacity.
proof fn lemma_bytes_after_put(s: Seq<((u64, u32, u8), usize)>, cap: nat, k: ImageKey, v: usize)
    requires
        s.len() <= cap,
        cap > 0,
    ensures
        put_entries(s, cap, k, v).len() <= cap,
        entries_bytes(put_entries(s, cap, k, v)) <= entries_bytes(s) + v,
        ({
            let i = key_index(s, k);
            0 <= i < s.len() ==> entries_bytes(put_entries(s, cap, k, v)) == entries_bytes(s)
                - s[i].1 + v
        }),
{
    let i = key_index(s, k);
    if 0 <= i < s.len() {
        lemma_bytes_remove(s, i);
        lemma_bytes_push(s.remove(i), (k, v));
    } else if s.len() >= cap && s.len() > 0 {
        lemma_bytes_remove(s, 0);
        assert(s.remove(0) =~= s.drop_first());
        lemma_bytes_push(s.drop_first(), (k, v));
    } else {
        lemma_bytes_push(s, (k, v));
    }
}

/// The byte counter after `put`: less the bytes of the value the key had, plus the new
/// bytes, saturating at the top of the range. An entry that `put` pushes out for want of
/// room is not answered by `put`, so its bytes stay counted.
pub open spec fn counter_after_put(s: Seq<((u64, u32, u8), usize)>, counter: int, k: ImageKey, v: usize) -> int {
    let i = key_index(s, k);
    let c0 = if 0 <= i < s.len() { counter - s[i].1 } else { counter };
    if c0 + v > usize::MAX { usize::MAX as int } else { c0 + v }
}

/// The entries from position `k` on: the `k` least recently used dropped.
pub open spec fn newest_from(s: Seq<((u64, u32, u8), usize)>, k: int) -> Seq<((u64, u32, u8), usize)> {
    s.subrange(k, s.len() as int)
}

impl UiImageCache {
    /// No key twice; at most `IMAGE_CACHE_ENTRIES` entries; the images kept add up to no
    /// more than the budget, and the byte counter never counts less than they hold.
    pub closed spec fn wf(&self) -> bool {
        &&& keys_unique(lru_entries(self.entries))
        &&& lru_capacity(self.entries) == IMAGE_CACHE_ENTRIES
        &&& lru_entries(self.entries).len() <= IMAGE_CACHE_ENTRIES
        &&& entries_bytes(lru_entries(self.entries)) <= self.bytes
        &&& entries_bytes(lru_entries(self.entries)) <= self.budget
        &&& self.budget <= usize::MAX / 2
    }

    /// A cache of images within `budget` bytes. The byte counter must hold a full budget
    /// plus one more image of up to that size, so the budget is at most half the range.
    pub fn new(budget: usize) -> (r: Self)
        requires
            budget <= usize::MAX / 2,
        ensures
            r.wf(),
            r@ == (ImageCacheView { entries: Seq::empty(), bytes: 0, budget }),
    {
        UiImageCache { entries: lru_new(IMAGE_CACHE_ENTRIES), bytes: 0, budget }
    }

    /// The bytes of a cached image, which becomes the most recently used.
    pub fn get(&mut self, key: ImageKey) -> (r: Option<usize>)
        requires
            old(self).wf(),
        ensures
            final(self).wf(),
            final(self)@.bytes == old(self)@.bytes,
            final(self)@.budget == old(self)@.budget,
            ({
                let s = old(self)@.entries;
                let i = key_index(s, key);
                if 0 <= i < s.len() {
                    r == Some(s[i].1) && final(self)@.entries == s.remove(i).push(s[i])
                } else {
                    r is None && final(self)@.entries == s
                }
            }),
    {
        let ghost s = lru_entries(self.entries);
        proof {
            lemma_first_match_facts(s, with_key(key));
        }
        let r = lru_get(&mut self.entries, key);
        proof {
            let i = key_index(s, key);
            if 0 <= i < s.len() {
                lemma_unique_after_remove(s, i);
                lemma_bytes_remove(s, i);
                lemma_bytes_push(s.remove(i), s[i]);
                let t = s.remove(i).push(s[i]);
                assert forall|a: int, b: int| 0 <= a < b < t.len() implies #[trigger] t[a].0
                    != #[trigger] t[b].0 by {
                    if b == t.len() - 1 {
                        let oa = if a < i { a } else { a + 1 };
                        assert(t[a] == s[oa]);
                    } else {
                        assert(t[a] == s.remove(i)[a]);
                        assert(t[b] == s.remove(i)[b]);
                    }
                }
            }
        }
        r
    }

    pub fn contains_key(&self, key: ImageKey) -> (r: bool)
        ensures
            r == (key_index(self@.entries, key) >= 0),
    {
        lru_contains(&self.entries, key)
    }

    /// Keeps an image of `bytes` bytes under `key`, then drops the least recently used
    /// images while the cache is over its budget. An image larger than the whole budget is
    /// not kept.
    pub fn insert(&mut self, key: ImageKey, bytes: usize)
        requires
            old(self).wf(),
        ensures
            final(self).wf(),
            final(self)@.budget == old(self)@.budget,
            bytes > old(self)@.budget ==> final(self)@ == old(self)@,
            bytes <= old(self)@.budget ==> final(self)@.bytes <= final(self)@.budget
                || final(self)@.entries.len() == 0,
            bytes <= old(self)@.budget ==> ({
                let s = old(self)@.entries;
                let put = put_entries(s, IMAGE_CACHE_ENTRIES as nat, key, bytes);
                let extra = counter_after_put(s, old(self)@.bytes as int, key, bytes)
                    - entries_bytes(put);
                let budget = old(self)@.budget as int;
                &&& extra >= 0
                &&& final(self)@.bytes == entries_bytes(final(self)@.entries) + extra
                &&& exists|k: int|
                    0 <= k <= put.len() && final(self)@.entries == newest_from(put, k) && (
                    entries_bytes(newest_from(put, k)) + extra <= budget || k == put.len()) && (
                    forall|j: int|
                        0 <= j < k ==> entries_bytes(#[trigger] newest_from(put, j)) + extra
                            > budget)
                &&& extra + bytes <= budget ==> final(self)@.entries.len() > 0
                    && final(self)@.entries.last() == (key, bytes)
                &&& old(self)@.bytes == entries_bytes(s) && (key_index(s, key) >= 0 || s.len()
                    < IMAGE_CACHE_ENTRIES) ==> extra == 0
            }),
            entries_bytes(final(self)@.entries) <= final(self)@.budget,
            entries_bytes(final(self)@.entries) <= final(self)@.bytes,
            final(self)@.entries.len() <= IMAGE_CACHE_ENTRIES,
    {
        if bytes > self.budget {
            return;
        }
        let ghost s = lru_entries(self.entries);
        let ghost bytes_before = self.bytes;
        let old_value = lru_put(&mut self.entries, key, bytes);
        let ghost put = put_entries(s, IMAGE_CACHE_ENTRIES as nat, key, bytes);
        let ghost n = put.len() as int;
        proof {
            lemma_first_match_facts(s, with_key(key));
            lemma_unique_after_put(s, IMAGE_CACHE_ENTRIES as nat, key, bytes);
            lemma_bytes_after_put(s, IMAGE_CACHE_ENTRIES as nat, key, bytes);
            let i = key_index(s, key);
            if 0 <= i < s.len() {
                lemma_bytes_remove(s, i);
            } else if s.len() < IMAGE_CACHE_ENTRIES {
                assert(put == s.push((key, bytes)));
                lemma_bytes_push(s, (key, bytes));
            }
            assert(newest_from(put, 0) =~= put);
        }
        match old_value {
            Some(previous) => {
                self.bytes = self.bytes.saturating_sub(previous);
            },
            None => {},
        }
        self.bytes = self.bytes.saturating_add(bytes);
        let ghost extra = self.bytes - entries_bytes(put);
        assert(self.bytes == counter_after_put(s, bytes_before as int, key, bytes));
        assert(extra >= 0);
        let ghost mut k: int = 0;
        while self.bytes > self.budget
            invariant
                self.budget == old(self).budget,
                self.budget <= usize::MAX / 2,
                keys_unique(lru_entries(self.entries)),
                lru_capacity(self.entries) == IMAGE_CACHE_ENTRIES,
                lru_entries(self.entries).len() <= IMAGE_CACHE_ENTRIES,
                n == put.len(),
                0 <= k <= n,
                extra >= 0,
                lru_entries(self.entries) == newest_from(put, k),
                self.bytes == entries_bytes(lru_entries(self.entries)) + extra,
                forall|j: int|
                    0 <= j < k ==> entries_bytes(#[trigger] newest_from(put, j)) + extra
                        > self.budget,
            ensures
                self.bytes <= self.budget || lru_entries(self.entries).len() == 0,
                lru_entries(self.entries) == newest_from(put, k),
                0 <= k <= n,
                self.bytes == entries_bytes(lru_entries(self.entries)) + extra,
                forall|j: int|
                    0 <= j < k ==> entries_bytes(#[trigger] newest_from(put, j)) + extra
                        > self.budget,
            decreases lru_entries(self.entries).len(),
        {
            let ghost before = lru_entries(self.entries);
            match lru_pop_lru(&mut self.entries) {
                Some((_, evicted)) => {
                    proof {
                        lemma_unique_after_remove(before, 0);
                        lemma_bytes_remove(before, 0);
                        assert(before.remove(0) =~= before.drop_first());
                        assert(before.drop_first() =~= newest_from(put, k + 1));
                        k = k + 1;
                    }
                    self.bytes = self.bytes.saturating_sub(evicted);
                },
                None => {
                    break;
                },
            }
        }
        proof {
            lemma_bytes_nonneg(lru_entries(self.entries));
            if lru_entries(self.entries).len() == 0 {
                assert(entries_bytes(lru_entries(self.entries)) == 0);
                assert(k == n);
            }
            if extra + bytes <= self.budget && k == n {
                let one = Seq::<((u64, u32, u8), usize)>::empty().push((key, bytes));
                assert(newest_from(put, n - 1) =~= one);
                lemma_bytes_push(Seq::<((u64, u32, u8), usize)>::empty(), (key, bytes));
                assert(entries_bytes(newest_from(put, n - 1)) == bytes);
            }
            if extra + bytes <= self.budget {
                assert(k < n);
                assert(newest_from(put, k).last() == put.last());
            }
            assert(0 <= k <= put.len() && lru_entries(self.entries) == newest_from(put, k) && (
            entries_bytes(newest_from(put, k)) + extra <= self.budget || k == put.len()));
            if bytes_before == entries_bytes(s) && (key_index(s, key) >= 0 || s.len()
                < IMAGE_CACHE_ENTRIES) {
                assert(extra == 0);
            }
        }
    }

    /// Drops every image of `document`; answers the keys dropped, so that the caller can
    /// release the images.
    pub fn remove_document(&mut self, document: u64) -> (r: Vec<ImageKey>)
        requires
            old(self).wf(),
        ensures
            final(self).wf(),
            final(self)@.budget == old(self)@.budget,
            forall|i: int|
                0 <= i < final(self)@.entries.len() ==> (#[trigger] final(self)@.entries[i]).0.0
                    != document,
            others_kept(final(self)@.entries, old(self)@.entries, document),
            from_origin(final(self)@.entries, old(self)@.entries),
            forall|i: int| 0 <= i < r@.len() ==> (#[trigger] r@[i]).0 == document,
            entries_bytes(final(self)@.entries) <= final(self)@.budget,
            entries_bytes(final(self)@.entries) <= final(self)@.bytes,
    {
        let keys = lru_keys(&self.entries);
        let ghost s0 = lru_entries(self.entries);
        let ghost ks = s0.map_values(|e: ((u64, u32, u8), usize)| e.0).reverse();
        let mut removed: Vec<ImageKey> = Vec::new();
        let mut k: usize = 0;
        proof {
            lemma_removal_starts(s0, ks, document);
        }
        while k < keys.len()
            invariant
                k <= keys.len(),
                keys@ == ks,
                ks == s0.map_values(|e: ((u64, u32, u8), usize)| e.0).reverse(),
                s0 == old(self)@.entries,
                keys_unique(s0),
                self.budget == old(self).budget,
                keys_unique(lru_entries(self.entries)),
                lru_capacity(self.entries) == IMAGE_CACHE_ENTRIES,
                lru_entries(self.entries).len() <= IMAGE_CACHE_ENTRIES,
                entries_bytes(lru_entries(self.entries)) <= self.bytes,
                entries_bytes(lru_entries(self.entries)) <= self.budget,
                self.budget <= usize::MAX / 2,
                forall|i: int| 0 <= i < removed@.len() ==> (#[trigger] removed@[i]).0 == document,
                from_origin(lru_entries(self.entries), s0),
                done_removed(lru_entries(self.entries), ks, k as int, document),
                others_kept(lru_entries(self.entries), s0, document),
            decreases keys.len() - k,
        {
            let key = keys[k];
            let ghost before = lru_entries(self.entries);
            proof {
                lemma_first_match_facts(before, with_key(key));
            }
            if key.0 == document {
                match lru_pop(&mut self.entries, key) {
                    Some(freed) => {
                        proof {
                            lemma_removal_step(before, s0, ks, k as int, document, key_index(before, key));
                            lemma_bytes_remove(before, key_index(before, key));
                        }
                        self.bytes = self.bytes.saturating_sub(freed);
                        removed.push(key);
                    },
                    None => {
                        proof {
                            lemma_removal_absent(before, ks, k as int, document);
                        }
                    },
                }
            } else {
                proof {
                    lemma_removal_skip(before, ks, k as int, document);
                }
            }
            k += 1;
        }
        proof {
            lemma_removal_done(lru_entries(self.entries), s0, ks, document);
        }
        removed
    }
}

/// A cache holds at most `IMAGE_CACHE_ENTRIES` images, which add up to no more than its
/// byte budget, and its byte counter never counts less than they hold.
pub proof fn lemma_cache_within_budget(c: UiImageCache)
    requires
        c.wf(),
    ensures
        c@.entries.len() <= IMAGE_CACHE_ENTRIES,
        entries_bytes(c@.entries) <= c@.budget,
        entries_bytes(c@.entries) <= c@.bytes,
{
}

/// Every entry of `cur` was an entry of `s0`.
#[verifier::opaque]
pub open spec fn from_origin(cur: Seq<((u64, u32, u8), usize)>, s0: Seq<((u64, u32, u8), usize)>) -> bool {
    forall|a: int| 0 <= a < cur.len() ==> s0.contains(#[trigger] cur[a])
}

/// Every key of `s0` outside `document` is still in `cur`.
#[verifier::opaque]
pub open spec fn others_kept(cur: Seq<((u64, u32, u8), usize)>, s0: Seq<((u64, u32, u8), usize)>, document: u64) -> bool {
    forall|x: int|
        #![trigger s0[x]]
        0 <= x < s0.len() && s0[x].0.0 != document ==> key_index(cur, s0[x].0) >= 0
}

/// The first `k` keys of `ks` that belong to `document` are gone from `cur`.
#[verifier::opaque]
pub open spec fn done_removed(cur: Seq<((u64, u32, u8), usize)>, ks: Seq<(u64, u32, u8)>, k: int, document: u64) -> bool {
    forall|j: int| #![trigger ks[j]] 0 <= j < k && ks[j].0 == document ==> key_index(cur, ks[j]) < 0
}

proof fn lemma_removal_starts(s0: Seq<((u64, u32, u8), usize)>, ks: Seq<(u64, u32, u8)>, document: u64)
    ensures
        from_origin(s0, s0),
        done_removed(s0, ks, 0, document),
        others_kept(s0, s0, document),
{
    reveal(from_origin);
    reveal(done_removed);
    reveal(others_kept);
    assert forall|a: int| 0 <= a < s0.len() implies s0.contains(#[trigger] s0[a]) by {
        assert(s0[a] == s0[a]);
    }
    assert forall|x: int|
        #![trigger s0[x]]
        0 <= x < s0.len() && s0[x].0.0 != document implies key_index(s0, s0[x].0) >= 0 by {
        lemma_first_match_facts(s0, with_key(s0[x].0));
        if key_index(s0, s0[x].0) < 0 {
            assert(!with_key(s0[x].0)(s0[x]));
        }
    }
}

proof fn lemma_removal_step(
    before: Seq<((u64, u32, u8), usize)>,
    s0: Seq<((u64, u32, u8), usize)>,
    ks: Seq<(u64, u32, u8)>,
    k: int,
    document: u64,
    i: int,
)
    requires
        0 <= k < ks.len(),
        ks[k].0 == document,
        0 <= i < before.len(),
        i == key_index(before, ks[k]),
        keys_unique(before),
        from_origin(before, s0),
        done_removed(before, ks, k, document),
        others_kept(before, s0, document),
    ensures
        keys_unique(before.remove(i)),
        from_origin(before.remove(i), s0),
        done_removed(before.remove(i), ks, k + 1, document),
        others_kept(before.remove(i), s0, document),
{
    reveal(from_origin);
    reveal(done_removed);
    reveal(others_kept);
    lemma_unique_after_remove(before, i);
    lemma_first_match_facts(before, with_key(ks[k]));
    let after = before.remove(i);
    assert forall|a: int| 0 <= a < after.len() implies s0.contains(#[trigger] after[a]) by {
        let oa = if a < i { a } else { a + 1 };
        assert(after[a] == before[oa]);
        assert(s0.contains(before[oa]));
    }
    assert forall|j: int| #![trigger ks[j]] 0 <= j < k + 1 && ks[j].0 == document implies key_index(after, ks[j]) < 0 by {
        lemma_first_match_facts(after, with_key(ks[j]));
        if key_index(after, ks[j]) >= 0 {
            let a = key_index(after, ks[j]);
            let oa = if a < i { a } else { a + 1 };
            assert(after[a] == before[oa]);
            if j < k {
                lemma_first_match_facts(before, with_key(ks[j]));
                assert(with_key(ks[j])(before[oa]));
            } else {
                assert(before[oa].0 == before[i].0);
            }
        }
    }
    assert forall|x: int|
        #![trigger s0[x]]
        0 <= x < s0.len() && s0[x].0.0 != document implies key_index(after, s0[x].0) >= 0 by {
        lemma_first_match_facts(before, with_key(s0[x].0));
        let b = key_index(before, s0[x].0);
        assert(b != i);
        let a = if b < i { b } else { b - 1 };
        assert(after[a] == before[b]);
        lemma_first_match_facts(after, with_key(s0[x].0));
        if key_index(after, s0[x].0) < 0 {
            assert(!with_key(s0[x].0)(after[a]));
        }
    }
}

proof fn lemma_removal_absent(
    before: Seq<((u64, u32, u8), usize)>,
    ks: Seq<(u64, u32, u8)>,
    k: int,
    document: u64,
)
    requires
        0 <= k < ks.len(),
        key_index(before, ks[k]) < 0,
        done_removed(before, ks, k, document),
    ensures
        done_removed(before, ks, k + 1, document),
{
    reveal(done_removed);
}

proof fn lemma_removal_skip(
    before: Seq<((u64, u32, u8), usize)>,
    ks: Seq<(u64, u32, u8)>,
    k: int,
    document: u64,
)
    requires
        0 <= k < ks.len(),
        ks[k].0 != document,
        done_removed(before, ks, k, document),
    ensures
        done_removed(before, ks, k + 1, document),
{
    reveal(done_removed);
}

proof fn lemma_removal_done(
    cur: Seq<((u64, u32, u8), usize)>,
    s0: Seq<((u64, u32, u8), usize)>,
    ks: Seq<(u64, u32, u8)>,
    document: u64,
)
    requires
        ks == s0.map_values(|e: ((u64, u32, u8), usize)| e.0).reverse(),
        from_origin(cur, s0),
        done_removed(cur, ks, ks.len() as int, document),
    ensures
        forall|i: int| 0 <= i < cur.len() ==> (#[trigger] cur[i]).0.0 != document,
{
    reveal(from_origin);
    reveal(done_removed);
    assert forall|i: int| 0 <= i < cur.len() implies (#[trigger] cur[i]).0.0 != document by {
        assert(s0.contains(cur[i]));
        let j0 = choose|j: int| 0 <= j < s0.len() && s0[j] == cur[i];
        let jk = s0.len() - 1 - j0;
        assert(ks[jk] == s0.map_values(|e: ((u64, u32, u8), usize)| e.0)[j0]);
        if cur[i].0.0 == document {
            assert(ks[jk].0 == document);
            lemma_first_match_facts(cur, with_key(ks[jk]));
            lemma_first_match(cur, with_key(ks[jk]), i);
        }
    }
}

} // verus!
