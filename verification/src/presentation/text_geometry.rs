use vstd::prelude::*;
use crate::seqs::{first_match, keep, lemma_first_match, lemma_first_match_facts, lemma_keep_step};

verus! {

/// The byte budget of the text geometry cache (8 MiB).
pub const TEXT_GEOMETRY_BUDGET: usize = 8388608;

/// How many pages' text geometry the cache keeps at most.
pub const MAX_TEXT_GEOMETRIES: usize = 32;

/// The text geometry `G` of one page, with the bytes it is counted as.
pub struct GeometryEntry<G> {
    pub document: u64,
    pub page: u32,
    pub geometry: G,
    pub bytes: usize,
}

/// The text geometry of recently read pages, oldest first, within a count and a byte budget.
pub struct TextGeometryCache<G> {
    entries: Vec<GeometryEntry<G>>,
    bytes: usize,
}

pub open spec fn is_page<G>(document: u64, page: u32) -> spec_fn(GeometryEntry<G>) -> bool {
    |e: GeometryEntry<G>| e.document == document && e.page == page
}

pub open spec fn other_document<G>(document: u64) -> spec_fn(GeometryEntry<G>) -> bool {
    |e: GeometryEntry<G>| e.document != document
}

/// Where the page sits in `s`, or -1.
pub open spec fn page_index_in<G>(s: Seq<GeometryEntry<G>>, document: u64, page: u32) -> int {
    first_match(s, is_page::<G>(document, page))
}

/// The bytes of all entries.
pub open spec fn entry_bytes<G>(s: Seq<GeometryEntry<G>>) -> int
    decreases s.len(),
{
    if s.len() == 0 {
        0
    } else {
        entry_bytes(s.drop_last()) + s.last().bytes
    }
}

/// The entries without those of the page.
pub open spec fn without_page<G>(s: Seq<GeometryEntry<G>>, document: u64, page: u32) -> Seq<GeometryEntry<G>> {
    let i = page_index_in(s, document, page);
    if i >= 0 {
        s.remove(i)
    } else {
        s
    }
}

/// Dropping the `k` oldest entries of `s` leaves room for one more of `bytes` bytes, and
/// dropping fewer would not.
pub open spec fn room_after_dropping<G>(s: Seq<GeometryEntry<G>>, k: int, bytes: usize) -> bool {
    &&& 0 <= k <= s.len()
    &&& s.subrange(k, s.len() as int).len() < MAX_TEXT_GEOMETRIES
    &&& entry_bytes(s.subrange(k, s.len() as int)) + bytes <= TEXT_GEOMETRY_BUDGET
    &&& forall|j: int|
        0 <= j < k ==> (#[trigger] s.subrange(j, s.len() as int)).len() >= MAX_TEXT_GEOMETRIES
            || entry_bytes(s.subrange(j, s.len() as int)) + bytes > TEXT_GEOMETRY_BUDGET
}

/// No page twice.
pub open spec fn pages_unique<G>(s: Seq<GeometryEntry<G>>) -> bool {
    forall|i: int, j: int|
        0 <= i < j < s.len() ==> !((#[trigger] s[i]).document == (#[trigger] s[j]).document && s[i].page
            == s[j].page)
}

proof fn lemma_entry_bytes_nonneg<G>(s: Seq<GeometryEntry<G>>)
    ensures
        entry_bytes(s) >= 0,
    decreases s.len(),
{
    if s.len() > 0 {
        lemma_entry_bytes_nonneg(s.drop_last());
    }
}

proof fn lemma_entry_bytes_remove<G>(s: Seq<GeometryEntry<G>>, i: int)
    requires
        0 <= i < s.len(),
    ensures
        entry_bytes(s.remove(i)) == entry_bytes(s) - s[i].bytes,
    decreases s.len(),
{
    if i < s.len() - 1 {
        lemma_entry_bytes_remove(s.drop_last(), i);
        assert(s.remove(i).drop_last() =~= s.drop_last().remove(i));
        assert(s.remove(i).last() == s.last());
    } else {
        assert(s.remove(i) =~= s.drop_last());
    }
}

proof fn lemma_entry_bytes_push<G>(s: Seq<GeometryEntry<G>>, e: GeometryEntry<G>)
    ensures
        entry_bytes(s.push(e)) == entry_bytes(s) + e.bytes,
{
    assert(s.push(e).drop_last() =~= s);
}

proof fn lemma_pages_unique_remove<G>(s: Seq<GeometryEntry<G>>, i: int)
    requires
        pages_unique(s),
        0 <= i < s.len(),
    ensures
        pages_unique(s.remove(i)),
{
    let t = s.remove(i);
    assert forall|a: int, b: int| 0 <= a < b < t.len() implies !((#[trigger] t[a]).document
        == (#[trigger] t[b]).document && t[a].page == t[b].page) by {
        let oa = if a < i { a } else { a + 1 };
        let ob = if b < i { b } else { b + 1 };
        assert(t[a] == s[oa]);
        assert(t[b] == s[ob]);
    }
}

impl<G> TextGeometryCache<G> {
    pub closed spec fn entries_view(&self) -> Seq<GeometryEntry<G>> {
        self.entries@
    }

    /// No page twice, the count of bytes is the bytes of the entries, and both limits hold.
    pub closed spec fn wf(&self) -> bool {
        &&& pages_unique(self.entries@)
        &&& entry_bytes(self.entries@) == self.bytes
        &&& self.bytes <= TEXT_GEOMETRY_BUDGET
        &&& self.entries@.len() <= MAX_TEXT_GEOMETRIES
    }

    /// A well-formed cache holds no page twice, at most `MAX_TEXT_GEOMETRIES` pages, and
    /// geometry of at most `TEXT_GEOMETRY_BUDGET` bytes in all.
    pub proof fn lemma_within_budget(&self)
        requires
            self.wf(),
        ensures
            pages_unique(self.entries_view()),
            entry_bytes(self.entries_view()) <= TEXT_GEOMETRY_BUDGET,
            self.entries_view().len() <= MAX_TEXT_GEOMETRIES,
    {
    }

    pub fn new() -> (r: Self)
        ensures
            r.wf(),
            r.entries_view() == Seq::<GeometryEntry<G>>::empty(),
    {
        let r = TextGeometryCache { entries: Vec::new(), bytes: 0 };
        assert(r.entries@ =~= Seq::<GeometryEntry<G>>::empty());
        r
    }

    fn find(&self, document: u64, page: u32) -> (r: Option<usize>)
        ensures
            match r {
                Some(i) => i < self.entries@.len() && i == page_index_in(self.entries@, document, page),
                None => page_index_in(self.entries@, document, page) == -1,
            },
    {
        let ghost f = is_page::<G>(document, page);
        let mut i: usize = 0;
        while i < self.entries.len()
            invariant
                i <= self.entries.len(),
                f == is_page::<G>(document, page),
                forall|k: int| 0 <= k < i ==> !f(#[trigger] self.entries@[k]),
            decreases self.entries.len() - i,
        {
            if self.entries[i].document == document && self.entries[i].page == page {
                proof {
                    lemma_first_match(self.entries@, f, i as int);
                }
                return Some(i);
            }
            i += 1;
        }
        proof {
            lemma_first_match(self.entries@, f, i as int);
        }
        None
    }

    pub fn contains_key(&self, document: u64, page: u32) -> (r: bool)
        ensures
            r == (page_index_in(self.entries_view(), document, page) >= 0),
    {
        self.find(document, page).is_some()
    }

    /// The geometry of a page, which becomes the most recently used.
    pub fn get(&mut self, document: u64, page: u32) -> (r: Option<&G>)
        requires
            old(self).wf(),
        ensures
            final(self).wf(),
            ({
                let s = old(self).entries_view();
                let i = page_index_in(s, document, page);
                if i >= 0 {
                    &&& r matches Some(g) && *g == s[i].geometry
                    &&& final(self).entries_view() == s.remove(i).push(s[i])
                } else {
                    r is None && final(self).entries_view() == s
                }
            }),
    {
        let ghost s = self.entries@;
        match self.find(document, page) {
            Some(i) => {
                let e = self.entries.remove(i);
                self.entries.push(e);
                proof {
                    lemma_pages_unique_remove(s, i as int);
                    lemma_entry_bytes_remove(s, i as int);
                    lemma_entry_bytes_push(s.remove(i as int), s[i as int]);
                    let t = self.entries@;
                    assert(t =~= s.remove(i as int).push(s[i as int]));
                    assert forall|a: int, b: int| 0 <= a < b < t.len() implies !((#[trigger] t[a]).document
                        == (#[trigger] t[b]).document && t[a].page == t[b].page) by {
                        if b == t.len() - 1 {
                            let oa = if a < i { a } else { a + 1 };
                            assert(t[a] == s[oa]);
                        } else {
                            assert(t[a] == s.remove(i as int)[a]);
                            assert(t[b] == s.remove(i as int)[b]);
                        }
                    }
                }
                let last = self.entries.len() - 1;
                Some(&self.entries[last].geometry)
            },
            None => None,
        }
    }

    /// Keeps the geometry of a page counted as `bytes`, replacing what the page had and
    /// dropping the oldest pages while the count or the byte budget would be exceeded.
    /// Geometry larger than the whole budget is not kept.
    pub fn insert(&mut self, document: u64, page: u32, geometry: G, bytes: usize)
        requires
            old(self).wf(),
        ensures
            final(self).wf(),
            bytes > TEXT_GEOMETRY_BUDGET ==> final(self).entries_view() == old(self).entries_view(),
            bytes <= TEXT_GEOMETRY_BUDGET ==> {
                let rest = without_page(old(self).entries_view(), document, page);
                let t = final(self).entries_view();
                &&& t.len() > 0
                &&& t.last() == (GeometryEntry { document, page, geometry, bytes })
                &&& t.drop_last().is_suffix_of(rest)
                &&& exists|k: int|
                    #[trigger] room_after_dropping(rest, k, bytes) && t.drop_last() == rest.subrange(
                        k,
                        rest.len() as int,
                    )
            },
    {
        if bytes > TEXT_GEOMETRY_BUDGET {
            return;
        }
        let ghost s = self.entries@;
        proof {
            lemma_entry_bytes_nonneg(s);
        }
        match self.find(document, page) {
            Some(i) => {
                let previous = self.entries.remove(i);
                proof {
                    lemma_entry_bytes_remove(s, i as int);
                    lemma_entry_bytes_nonneg(s.remove(i as int));
                    lemma_pages_unique_remove(s, i as int);
                    assert(previous == s[i as int]);
                }
                self.bytes = self.bytes - previous.bytes;
            },
            None => {},
        }
        let ghost rest = self.entries@;
        proof {
            lemma_first_match_facts(s, is_page::<G>(document, page));
            let i = page_index_in(s, document, page);
            assert forall|k: int| 0 <= k < rest.len() implies !is_page::<G>(document, page)(
                #[trigger] rest[k],
            ) by {
                if i >= 0 {
                    let ok = if k < i { k } else { k + 1 };
                    assert(rest[k] == s[ok]);
                    if ok > i {
                        assert(!(s[i].document == s[ok].document && s[i].page == s[ok].page));
                    }
                } else {
                    assert(rest[k] == s[k]);
                }
            }
        }
        let ghost mut k: int = 0;
        assert(rest.subrange(0, rest.len() as int) =~= rest);
        while self.entries.len() > 0 && (self.entries.len() >= MAX_TEXT_GEOMETRIES || self.bytes
            > TEXT_GEOMETRY_BUDGET - bytes)
            invariant
                0 <= k <= rest.len(),
                self.entries@ == rest.subrange(k, rest.len() as int),
                forall|j: int|
                    0 <= j < k ==> (#[trigger] rest.subrange(j, rest.len() as int)).len()
                        >= MAX_TEXT_GEOMETRIES || entry_bytes(rest.subrange(j, rest.len() as int))
                        + bytes > TEXT_GEOMETRY_BUDGET,
                pages_unique(self.entries@),
                entry_bytes(self.entries@) == self.bytes,
                self.bytes <= TEXT_GEOMETRY_BUDGET,
                self.entries@.len() <= MAX_TEXT_GEOMETRIES,
                bytes <= TEXT_GEOMETRY_BUDGET,
                self.entries@.is_suffix_of(rest),
                forall|k: int| 0 <= k < rest.len() ==> !is_page::<G>(document, page)(#[trigger] rest[k]),
            decreases self.entries.len(),
        {
            let ghost before = self.entries@;
            let oldest = self.entries.remove(0);
            proof {
                lemma_entry_bytes_remove(before, 0);
                lemma_entry_bytes_nonneg(before.remove(0));
                lemma_pages_unique_remove(before, 0);
                assert(before.remove(0) =~= rest.subrange(
                    rest.len() - before.len() + 1,
                    rest.len() as int,
                ));
                assert(before.remove(0) =~= rest.subrange(k + 1, rest.len() as int));
                k = k + 1;
            }
            self.bytes = self.bytes - oldest.bytes;
        }
        let ghost kept = self.entries@;
        proof {
            if kept.len() == 0 {
                assert(entry_bytes(kept) == 0);
            }
            assert(kept.len() < MAX_TEXT_GEOMETRIES);
            assert(entry_bytes(kept) + bytes <= TEXT_GEOMETRY_BUDGET);
            let i = page_index_in(s, document, page);
            if i >= 0 {
                assert(rest == s.remove(i));
            } else {
                assert(rest == s);
            }
            assert(rest == without_page(s, document, page));
        }
        self.entries.push(GeometryEntry { document, page, geometry, bytes });
        self.bytes = self.bytes + bytes;
        proof {
            lemma_entry_bytes_push(kept, GeometryEntry { document, page, geometry, bytes });
            let t = self.entries@;
            assert(t.drop_last() =~= kept);
            assert(0 <= k <= rest.len() && t.drop_last() == rest.subrange(k, rest.len() as int));
            assert forall|a: int, b: int| 0 <= a < b < t.len() implies !((#[trigger] t[a]).document
                == (#[trigger] t[b]).document && t[a].page == t[b].page) by {
                if b == t.len() - 1 {
                    assert(t[a] == kept[a]);
                    assert(kept[a] == rest[rest.len() - kept.len() + a]);
                    assert(!is_page::<G>(document, page)(rest[rest.len() - kept.len() + a]));
                } else {
                    assert(t[a] == kept[a]);
                    assert(t[b] == kept[b]);
                }
            }
            assert(t.len() > 0 && t.last() == (GeometryEntry { document, page, geometry, bytes }));
            assert(room_after_dropping(rest, k, bytes));
            assert(s == old(self).entries_view());
            let r0 = without_page(old(self).entries_view(), document, page);
            assert(r0 == rest);
            assert(self.entries_view().drop_last() == r0.subrange(k, r0.len() as int));
            assert(room_after_dropping(r0, k, bytes));
        }
    }

    /// Drops the geometry of every page of `document`, keeping the order of the others.
    pub fn remove_document(&mut self, document: u64)
        requires
            old(self).wf(),
        ensures
            final(self).wf(),
            final(self).entries_view() == keep(old(self).entries_view(), other_document::<G>(document)),
    {
        let mut input: Vec<GeometryEntry<G>> = Vec::new();
        std::mem::swap(&mut input, &mut self.entries);
        let ghost all = input@;
        let mut kept: Vec<GeometryEntry<G>> = Vec::new();
        let mut bytes: usize = 0;
        let mut taken: usize = 0;
        let ghost f = other_document::<G>(document);
        assert(all.take(0) =~= Seq::<GeometryEntry<G>>::empty());
        assert(all.skip(0) =~= all);
        proof {
            lemma_entry_bytes_nonneg(all);
        }
        while input.len() > 0
            invariant
                taken + input@.len() == all.len(),
                all.len() <= MAX_TEXT_GEOMETRIES,
                input@ == all.skip(taken as int),
                kept@ == keep(all.take(taken as int), f),
                f == other_document::<G>(document),
                entry_bytes(kept@) == bytes,
                pages_unique(all),
                entry_bytes(all) <= TEXT_GEOMETRY_BUDGET,
                bytes <= entry_bytes(all.take(taken as int)),
                forall|a: int| 0 <= a < kept@.len() ==> all.take(taken as int).contains(#[trigger] kept@[a]),
            decreases input.len(),
        {
            let ghost before_input = input@;
            let e = input.remove(0);
            assert(e == all[taken as int]);
            proof {
                lemma_keep_step(all, f, taken as int);
                assert(input@ =~= all.skip(taken + 1));
                lemma_entry_bytes_prefix(all, taken as int);
                lemma_entry_bytes_prefix_bound(all, taken + 1);
            }
            if e.document != document {
                let ghost before_kept = kept@;
                bytes = bytes + e.bytes;
                kept.push(e);
                proof {
                    lemma_entry_bytes_push(before_kept, all[taken as int]);
                    assert forall|a: int| 0 <= a < kept@.len() implies all.take(taken + 1).contains(
                        #[trigger] kept@[a],
                    ) by {
                        if a < before_kept.len() {
                            assert(all.take(taken as int).contains(before_kept[a]));
                            let w = choose|w: int| 0 <= w < taken && all.take(taken as int)[w] == before_kept[a];
                            assert(all.take(taken + 1)[w] == before_kept[a]);
                        } else {
                            assert(all.take(taken + 1)[taken as int] == kept@[a]);
                        }
                    }
                }
            } else {
                proof {
                    assert forall|a: int| 0 <= a < kept@.len() implies all.take(taken + 1).contains(
                        #[trigger] kept@[a],
                    ) by {
                        let w = choose|w: int| 0 <= w < taken && all.take(taken as int)[w] == kept@[a];
                        assert(all.take(taken + 1)[w] == kept@[a]);
                    }
                }
            }
            taken += 1;
        }
        assert(all.take(taken as int) =~= all);
        proof {
            lemma_keep_facts(all, f);
        }
        self.entries = kept;
        self.bytes = bytes;
    }
    /// The pages of `document` held, in increasing order.
    pub fn pages_in_order(&self, document: u64) -> (r: Vec<u32>)
        requires
            self.wf(),
        ensures
            forall|a: int, b: int| 0 <= a < b < r@.len() ==> r@[a] < r@[b],
            forall|p: u32|
                r@.contains(p) <==> page_index_in(self.entries_view(), document, p) >= 0,
    {
        let mut out: Vec<u32> = Vec::new();
        let mut i: usize = 0;
        while i < self.entries.len()
            invariant
                i <= self.entries.len(),
                pages_unique(self.entries@),
                forall|a: int, b: int| 0 <= a < b < out@.len() ==> out@[a] < out@[b],
                forall|p: u32|
                    out@.contains(p) <==> exists|k: int|
                        0 <= k < i && #[trigger] is_page::<G>(document, p)(self.entries@[k]),
            decreases self.entries.len() - i,
        {
            if self.entries[i].document == document {
                let p = self.entries[i].page;
                let ghost before = out@;
                let mut at: usize = 0;
                while at < out.len() && out[at] < p
                    invariant
                        at <= out@.len(),
                        out@ == before,
                        forall|a: int| 0 <= a < at ==> out@[a] < p,
                    decreases out.len() - at,
                {
                    at += 1;
                }
                proof {
                    if at < out@.len() && out@[at as int] == p {
                        let k = choose|k: int|
                            0 <= k < i && #[trigger] is_page::<G>(document, p)(self.entries@[k]);
                        assert(out@.contains(p));
                        assert(false);
                    }
                }
                out.insert(at, p);
                proof {
                    let t = out@;
                    assert(t =~= before.insert(at as int, p));
                    assert forall|a: int, b: int| 0 <= a < b < t.len() implies t[a] < t[b] by {
                        if b < at {
                        } else if b == at {
                        } else if a < at {
                            assert(t[b] == before[b - 1]);
                        } else if a == at {
                            assert(t[b] == before[b - 1]);
                            if at < before.len() {
                                assert(before[at as int] >= p);
                                assert(before[at as int] != p) by {
                                    if before[at as int] == p {
                                        assert(before.contains(p));
                                    }
                                }
                            }
                        } else {
                            assert(t[a] == before[a - 1]);
                            assert(t[b] == before[b - 1]);
                        }
                    }
                    assert forall|q: u32| t.contains(q) <==> exists|k: int|
                        0 <= k < i + 1 && #[trigger] is_page::<G>(document, q)(self.entries@[k]) by {
                        if t.contains(q) {
                            let w = choose|w: int| 0 <= w < t.len() && t[w] == q;
                            if w == at {
                                assert(is_page::<G>(document, q)(self.entries@[i as int]));
                            } else {
                                let ow = if w < at { w } else { w - 1 };
                                assert(before[ow] == q);
                                assert(before.contains(q));
                            }
                        }
                        if exists|k: int| 0 <= k < i + 1 && #[trigger] is_page::<G>(document, q)(self.entries@[k]) {
                            let k = choose|k: int|
                                0 <= k < i + 1 && #[trigger] is_page::<G>(document, q)(self.entries@[k]);
                            if k == i {
                                assert(t[at as int] == q);
                            } else {
                                assert(before.contains(q));
                                let w = choose|w: int| 0 <= w < before.len() && before[w] == q;
                                let nw = if w < at { w } else { w + 1 };
                                assert(t[nw] == q);
                            }
                        }
                    }
                }
            } else {
                proof {
                    assert forall|q: u32| out@.contains(q) <==> exists|k: int|
                        0 <= k < i + 1 && #[trigger] is_page::<G>(document, q)(self.entries@[k]) by {
                        if exists|k: int| 0 <= k < i + 1 && #[trigger] is_page::<G>(document, q)(self.entries@[k]) {
                            let k = choose|k: int|
                                0 <= k < i + 1 && #[trigger] is_page::<G>(document, q)(self.entries@[k]);
                            assert(k != i);
                        }
                    }
                }
            }
            i += 1;
        }
        proof {
            assert forall|p: u32| out@.contains(p) <==> page_index_in(self.entries@, document, p) >= 0 by {
                lemma_first_match_facts(self.entries@, is_page::<G>(document, p));
                if page_index_in(self.entries@, document, p) >= 0 {
                    let k = page_index_in(self.entries@, document, p);
                    assert(is_page::<G>(document, p)(self.entries@[k]));
                }
            }
        }
        out
    }

    /// The geometry of a page, without touching the order.
    pub fn peek(&self, document: u64, page: u32) -> (r: Option<&G>)
        ensures
            ({
                let s = self.entries_view();
                let i = page_index_in(s, document, page);
                if i >= 0 {
                    r matches Some(g) && *g == s[i].geometry
                } else {
                    r is None
                }
            }),
    {
        match self.find(document, page) {
            Some(i) => Some(&self.entries[i].geometry),
            None => None,
        }
    }

    /// The geometry of every held page of `document`, in page order.
    pub fn in_page_order(&self, document: u64) -> (r: Vec<&G>)
        requires
            self.wf(),
        ensures
            exists|pages: Seq<u32>|
                #![trigger pages.len()]
                {
                    &&& pages.len() == r@.len()
                    &&& forall|a: int, b: int| 0 <= a < b < pages.len() ==> pages[a] < pages[b]
                    &&& forall|p: u32|
                        pages.contains(p) <==> page_index_in(self.entries_view(), document, p) >= 0
                    &&& forall|a: int|
                        0 <= a < pages.len() ==> *(#[trigger] r@[a]) == self.entries_view()[page_index_in(
                            self.entries_view(),
                            document,
                            pages[a],
                        )].geometry
                },
    {
        let pages = self.pages_in_order(document);
        let mut out: Vec<&G> = Vec::new();
        let mut k: usize = 0;
        while k < pages.len()
            invariant
                k <= pages.len(),
                out@.len() == k,
                forall|p: u32| pages@.contains(p) ==> page_index_in(self.entries@, document, p) >= 0,
                forall|a: int|
                    0 <= a < k ==> *(#[trigger] out@[a]) == self.entries@[page_index_in(
                        self.entries@,
                        document,
                        pages@[a],
                    )].geometry,
            decreases pages.len() - k,
        {
            assert(pages@.contains(pages@[k as int]));
            match self.peek(document, pages[k]) {
                Some(g) => {
                    out.push(g);
                },
                None => {
                    assert(false);
                },
            }
            k += 1;
        }
        assert(pages@.len() == out@.len());
        out
    }
}

proof fn lemma_entry_bytes_prefix<G>(s: Seq<GeometryEntry<G>>, n: int)
    requires
        0 <= n < s.len(),
    ensures
        entry_bytes(s.take(n + 1)) == entry_bytes(s.take(n)) + s[n].bytes,
{
    assert(s.take(n + 1).drop_last() =~= s.take(n));
}

proof fn lemma_entry_bytes_prefix_bound<G>(s: Seq<GeometryEntry<G>>, n: int)
    requires
        0 <= n <= s.len(),
    ensures
        entry_bytes(s.take(n)) <= entry_bytes(s),
    decreases s.len() - n,
{
    if n == s.len() {
        assert(s.take(n) =~= s);
    } else {
        lemma_entry_bytes_prefix(s, n);
        lemma_entry_bytes_prefix_bound(s, n + 1);
    }
}

/// What `keep` keeps: a subsequence, so no more entries, no more bytes, no page twice.
proof fn lemma_keep_facts<G>(s: Seq<GeometryEntry<G>>, f: spec_fn(GeometryEntry<G>) -> bool)
    requires
        pages_unique(s),
    ensures
        keep(s, f).len() <= s.len(),
        entry_bytes(keep(s, f)) <= entry_bytes(s),
        pages_unique(keep(s, f)),
        forall|a: int| 0 <= a < keep(s, f).len() ==> s.contains(#[trigger] keep(s, f)[a]),
    decreases s.len(),
{
    if s.len() > 0 {
        let d = s.drop_last();
        assert(pages_unique(d)) by {
            assert forall|i: int, j: int| 0 <= i < j < d.len() implies !((#[trigger] d[i]).document
                == (#[trigger] d[j]).document && d[i].page == d[j].page) by {
                assert(d[i] == s[i]);
                assert(d[j] == s[j]);
            }
        }
        lemma_keep_facts(d, f);
        lemma_entry_bytes_nonneg(s);
        let k = keep(d, f);
        assert forall|a: int| 0 <= a < k.len() implies s.contains(#[trigger] k[a]) by {
            assert(d.contains(k[a]));
            let w = choose|w: int| 0 <= w < d.len() && d[w] == k[a];
            assert(s[w] == k[a]);
        }
        if f(s.last()) {
            let t = k.push(s.last());
            lemma_entry_bytes_push(k, s.last());
            assert forall|a: int| 0 <= a < t.len() implies s.contains(#[trigger] t[a]) by {
                if a < k.len() {
                    assert(t[a] == k[a]);
                } else {
                    assert(s[s.len() - 1] == t[a]);
                }
            }
            assert forall|i: int, j: int| 0 <= i < j < t.len() implies !((#[trigger] t[i]).document
                == (#[trigger] t[j]).document && t[i].page == t[j].page) by {
                if j == t.len() - 1 {
                    assert(t[i] == k[i]);
                    assert(d.contains(k[i]));
                    let w = choose|w: int| 0 <= w < d.len() && d[w] == k[i];
                    assert(s[w] == k[i]);
                } else {
                    assert(t[i] == k[i]);
                    assert(t[j] == k[j]);
                }
            }
        }
    }
}

} // verus!
