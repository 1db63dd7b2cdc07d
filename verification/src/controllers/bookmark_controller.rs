use vstd::prelude::*;
use crate::seqs::{first_match, lemma_first_match, lemma_first_match_facts};
use crate::text::{decimal, push_decimal};

verus! {

/// A saved page: 0-based page, title, and when it was saved (seconds since the Unix epoch).
pub struct BookmarkEntry {
    pub page_index: u32,
    pub title: String,
    pub created_unix: u64,
}

pub ghost struct BookmarkView {
    pub page_index: u32,
    pub title: Seq<char>,
    pub created_unix: u64,
}

impl View for BookmarkEntry {
    type V = BookmarkView;

    open spec fn view(&self) -> BookmarkView {
        BookmarkView { page_index: self.page_index, title: self.title@, created_unix: self.created_unix }
    }
}

pub open spec fn marks(v: Seq<BookmarkEntry>) -> Seq<BookmarkView> {
    v.map_values(|b: BookmarkEntry| b@)
}

pub open spec fn on_page(page: u32) -> spec_fn(BookmarkView) -> bool {
    |b: BookmarkView| b.page_index == page
}

pub open spec fn after_page(page: u32) -> spec_fn(BookmarkView) -> bool {
    |b: BookmarkView| b.page_index > page
}

/// `s` with `b` placed after every entry whose page is not later than `b`'s.
pub open spec fn insert_by_page(s: Seq<BookmarkView>, b: BookmarkView) -> Seq<BookmarkView> {
    let i = first_match(s, after_page(b.page_index));
    let at = if i < 0 {
        s.len() as int
    } else {
        i
    };
    s.insert(at, b)
}

/// `s` ordered by page, entries on the same page kept in their order (a stable sort).
pub open spec fn sorted_by_page(s: Seq<BookmarkView>) -> Seq<BookmarkView>
    decreases s.len(),
{
    if s.len() == 0 {
        s
    } else {
        insert_by_page(sorted_by_page(s.drop_last()), s.last())
    }
}

pub open spec fn is_sorted_by_page(s: Seq<BookmarkView>) -> bool {
    forall|i: int, j: int| 0 <= i < j < s.len() ==> s[i].page_index <= s[j].page_index
}

/// The title a bookmark on 0-based page `page` gets when none is given: "Page " and the
/// 1-based page number.
pub open spec fn default_bookmark_title(page: u32) -> Seq<char> {
    "Page "@ + decimal((page + 1) as nat)
}

/// The title a new bookmark of `page` gets.
pub open spec fn chosen_title(default_title: Option<String>, page: u32) -> Seq<char> {
    match default_title {
        Some(t) => t@,
        None => default_bookmark_title(page),
    }
}

/// What toggling the bookmark of `page` does: removes the first bookmark of that page, or
/// adds one and orders the list by page.
pub open spec fn toggled(s: Seq<BookmarkView>, page: u32, title: Seq<char>, created: u64) -> Seq<BookmarkView> {
    let i = first_match(s, on_page(page));
    if i >= 0 {
        s.remove(i)
    } else {
        sorted_by_page(s.push(BookmarkView { page_index: page, title, created_unix: created }))
    }
}

/// Reads the system clock as whole seconds since the Unix epoch (0 before the epoch).
#[verifier::external_body]
fn unix_seconds_now() -> u64 {
    std::time::SystemTime::now().duration_since(std::time::UNIX_EPOCH).unwrap_or_default().as_secs()
}

/// Placing a bookmark into a list ordered by page keeps it ordered.
pub proof fn lemma_insert_keeps_order(s: Seq<BookmarkView>, b: BookmarkView)
    requires
        is_sorted_by_page(s),
    ensures
        is_sorted_by_page(insert_by_page(s, b)),
        insert_by_page(s, b).len() == s.len() + 1,
{
    let f = after_page(b.page_index);
    lemma_first_match_facts(s, f);
    let i = first_match(s, f);
    let at = if i < 0 {
        s.len() as int
    } else {
        i
    };
    let t = insert_by_page(s, b);
    assert forall|x: int, y: int| 0 <= x < y < t.len() implies t[x].page_index <= t[y].page_index by {
        if y < at {
        } else if y == at {
            assert(!f(s[x]));
        } else if x == at {
            assert(f(s[at]));
            assert(s[at].page_index <= s[y - 1].page_index);
        } else if x < at {
        } else {
        }
    }
}

/// Ordering by page always gives a list ordered by page.
pub proof fn lemma_sorted_by_page_is_sorted(s: Seq<BookmarkView>)
    ensures
        is_sorted_by_page(sorted_by_page(s)),
        sorted_by_page(s).len() == s.len(),
    decreases s.len(),
{
    if s.len() > 0 {
        lemma_sorted_by_page_is_sorted(s.drop_last());
        lemma_insert_keeps_order(sorted_by_page(s.drop_last()), s.last());
    }
}

/// A list already ordered by page is left as it is by ordering it.
pub proof fn lemma_sorted_is_fixed(s: Seq<BookmarkView>)
    requires
        is_sorted_by_page(s),
    ensures
        sorted_by_page(s) == s,
    decreases s.len(),
{
    if s.len() > 0 {
        let d = s.drop_last();
        lemma_sorted_is_fixed(d);
        let f = after_page(s.last().page_index);
        assert forall|k: int| 0 <= k < d.len() implies !f(#[trigger] d[k]) by {
            assert(d[k] == s[k]);
        }
        lemma_first_match(d, f, d.len() as int);
        assert(d.insert(d.len() as int, s.last()) =~= s);
    }
}

/// Toggling a bookmark keeps a list ordered by page ordered.
pub proof fn lemma_toggle_keeps_order(s: Seq<BookmarkView>, page: u32, title: Seq<char>, created: u64)
    requires
        is_sorted_by_page(s),
    ensures
        is_sorted_by_page(toggled(s, page, title, created)),
{
    let i = first_match(s, on_page(page));
    lemma_first_match_facts(s, on_page(page));
    if i >= 0 {
        let t = s.remove(i);
        assert forall|x: int, y: int| 0 <= x < y < t.len() implies t[x].page_index
            <= t[y].page_index by {
            let ox = if x < i { x } else { x + 1 };
            let oy = if y < i { y } else { y + 1 };
            assert(t[x] == s[ox]);
            assert(t[y] == s[oy]);
        }
    } else {
        lemma_sorted_by_page_is_sorted(s.push(BookmarkView { page_index: page, title, created_unix: created }));
    }
}

/// On a list ordered by page, toggling a page without a bookmark twice gives the list back.
pub proof fn lemma_toggle_twice_restores(
    s: Seq<BookmarkView>,
    page: u32,
    title: Seq<char>,
    created: u64,
    title2: Seq<char>,
    created2: u64,
)
    requires
        is_sorted_by_page(s),
        first_match(s, on_page(page)) < 0,
    ensures
        toggled(toggled(s, page, title, created), page, title2, created2) == s,
{
    let b = BookmarkView { page_index: page, title, created_unix: created };
    let x = s.push(b);
    assert(x.drop_last() =~= s);
    lemma_sorted_is_fixed(s);
    let t = toggled(s, page, title, created);
    assert(t == insert_by_page(s, b));
    let f = after_page(page);
    lemma_first_match_facts(s, f);
    lemma_first_match_facts(s, on_page(page));
    let i = first_match(s, f);
    let at = if i < 0 {
        s.len() as int
    } else {
        i
    };
    assert(t == s.insert(at, b));
    assert forall|k: int| 0 <= k < at implies !on_page(page)(#[trigger] t[k]) by {
        assert(t[k] == s[k]);
    }
    lemma_first_match(t, on_page(page), at);
    assert(t.remove(at) =~= s);
}

pub struct BookmarkController;

impl BookmarkController {
    fn position_on_page(bookmarks: &Vec<BookmarkEntry>, page: u32) -> (r: Option<usize>)
        ensures
            match r {
                Some(i) => i < bookmarks@.len() && first_match(marks(bookmarks@), on_page(page)) == i,
                None => first_match(marks(bookmarks@), on_page(page)) == -1,
            },
    {
        let ghost s = marks(bookmarks@);
        let mut i: usize = 0;
        while i < bookmarks.len()
            invariant
                i <= bookmarks.len(),
                s == marks(bookmarks@),
                forall|k: int| 0 <= k < i ==> !on_page(page)(#[trigger] s[k]),
            decreases bookmarks.len() - i,
        {
            if bookmarks[i].page_index == page {
                proof {
                    lemma_first_match(s, on_page(page), i as int);
                }
                return Some(i);
            }
            i += 1;
        }
        proof {
            lemma_first_match(s, on_page(page), i as int);
        }
        None
    }

    fn position_after_page(sorted: &Vec<BookmarkEntry>, page: u32) -> (r: usize)
        ensures
            r <= sorted@.len(),
            first_match(marks(sorted@), after_page(page)) == if r < sorted@.len() {
                r as int
            } else {
                -1
            },
    {
        let ghost s = marks(sorted@);
        let mut i: usize = 0;
        while i < sorted.len()
            invariant
                i <= sorted.len(),
                s == marks(sorted@),
                forall|k: int| 0 <= k < i ==> !after_page(page)(#[trigger] s[k]),
            decreases sorted.len() - i,
        {
            if sorted[i].page_index > page {
                proof {
                    lemma_first_match(s, after_page(page), i as int);
                }
                return i;
            }
            i += 1;
        }
        proof {
            lemma_first_match(s, after_page(page), i as int);
        }
        i
    }

    /// Orders `bookmarks` by page, keeping the order of entries on the same page.
    fn sort_by_page(bookmarks: &mut Vec<BookmarkEntry>)
        ensures
            marks(final(bookmarks)@) == sorted_by_page(marks(old(bookmarks)@)),
    {
        let mut input: Vec<BookmarkEntry> = Vec::new();
        std::mem::swap(bookmarks, &mut input);
        let ghost all = marks(input@);
        let n = input.len();
        assert(all.len() == n);
        let mut out: Vec<BookmarkEntry> = Vec::new();
        let mut taken: usize = 0;
        assert(all.take(0) =~= Seq::<BookmarkView>::empty());
        assert(all.skip(0) =~= all);
        assert(marks(out@) =~= Seq::<BookmarkView>::empty());
        assert(sorted_by_page(all.take(0)) == all.take(0));
        assert(marks(out@) == sorted_by_page(all.take(0)));
        while input.len() > 0
            invariant
                taken + input@.len() == all.len(),
                all.len() <= usize::MAX,
                marks(input@) == all.skip(taken as int),
                marks(out@) == sorted_by_page(all.take(taken as int)),
            decreases input.len(),
        {
            let ghost before = input@;
            let e = input.remove(0);
            let ghost ev = e@;
            assert(marks(before)[0] == before[0]@);
            assert(all.skip(taken as int)[0] == all[taken as int]);
            assert(ev == all[taken as int]);
            let ghost out_before = out@;
            let at = Self::position_after_page(&out, e.page_index);
            out.insert(at, e);
            proof {
                assert(marks(out@) =~= marks(out_before).insert(at as int, ev));
                assert(all.take(taken + 1).drop_last() =~= all.take(taken as int));
                assert(all.take(taken + 1).last() == ev);
                assert(marks(out@) =~= insert_by_page(sorted_by_page(all.take(taken as int)), ev));
                assert forall|k: int| 0 <= k < marks(input@).len() implies #[trigger] marks(input@)[k]
                    == all.skip(taken + 1)[k] by {
                    assert(input@[k] == before[k + 1]);
                    assert(marks(before)[k + 1] == before[k + 1]@);
                    assert(all.skip(taken as int)[k + 1] == all[taken + 1 + k]);
                }
                assert(marks(input@) =~= all.skip(taken + 1));
            }
            taken += 1;
        }
        assert(all.take(taken as int) =~= all);
        *bookmarks = out;
    }

    /// Toggles the bookmark of `page`, giving a new one `default_title` (or "Page N") and
    /// the time `created_unix`; answers whether a bookmark was added.
    pub fn toggle_bookmark_at(
        bookmarks: &mut Vec<BookmarkEntry>,
        page: u32,
        default_title: Option<String>,
        created_unix: u64,
    ) -> (r: bool)
        ensures
            r == (first_match(marks(old(bookmarks)@), on_page(page)) < 0),
            marks(final(bookmarks)@) == toggled(
                marks(old(bookmarks)@),
                page,
                chosen_title(default_title, page),
                created_unix,
            ),
    {
        let ghost s = marks(bookmarks@);
        if let Some(pos) = Self::position_on_page(bookmarks, page) {
            bookmarks.remove(pos);
            assert(marks(bookmarks@) =~= s.remove(pos as int));
            return false;
        }
        let title = match default_title {
            Some(t) => t,
            None => {
                let mut t = "Page ".to_owned();
                push_decimal(&mut t, page as u128 + 1);
                t
            },
        };
        bookmarks.push(BookmarkEntry { page_index: page, title, created_unix });
        assert(marks(bookmarks@) =~= s.push(marks(bookmarks@).last()));
        Self::sort_by_page(bookmarks);
        true
    }

    /// Toggles the bookmark of `current_page` at the present time.
    pub fn toggle_bookmark(
        bookmarks: &mut Vec<BookmarkEntry>,
        current_page: u32,
        default_title: Option<String>,
    ) -> (r: bool)
        ensures
            r == (first_match(marks(old(bookmarks)@), on_page(current_page)) < 0),
            exists|created: u64|
                marks(final(bookmarks)@) == #[trigger] toggled(
                    marks(old(bookmarks)@),
                    current_page,
                    chosen_title(default_title, current_page),
                    created,
                ),
    {
        let now = unix_seconds_now();
        Self::toggle_bookmark_at(bookmarks, current_page, default_title, now)
    }

    /// Removes the first bookmark of page `page_raw`; answers whether there was one.
    pub fn remove_bookmark(bookmarks: &mut Vec<BookmarkEntry>, page_raw: u32) -> (r: bool)
        ensures
            ({
                let i = first_match(marks(old(bookmarks)@), on_page(page_raw));
                &&& r == (i >= 0)
                &&& marks(final(bookmarks)@) == if i >= 0 {
                    marks(old(bookmarks)@).remove(i)
                } else {
                    marks(old(bookmarks)@)
                }
            }),
    {
        let ghost s = marks(bookmarks@);
        match Self::position_on_page(bookmarks, page_raw) {
            Some(pos) => {
                bookmarks.remove(pos);
                assert(marks(bookmarks@) =~= s.remove(pos as int));
                true
            },
            None => false,
        }
    }

    /// Gives the first bookmark of page `page_raw` the title `new_title`.
    pub fn rename_bookmark(bookmarks: &mut Vec<BookmarkEntry>, page_raw: u32, new_title: String) -> (r: bool)
        ensures
            ({
                let s = marks(old(bookmarks)@);
                let i = first_match(s, on_page(page_raw));
                &&& r == (i >= 0)
                &&& marks(final(bookmarks)@) == if i >= 0 {
                    s.update(i, BookmarkView { title: new_title@, ..s[i] })
                } else {
                    s
                }
            }),
    {
        let ghost s = marks(bookmarks@);
        match Self::position_on_page(bookmarks, page_raw) {
            Some(pos) => {
                let mut entry = bookmarks.remove(pos);
                entry.title = new_title;
                bookmarks.insert(pos, entry);
                assert(marks(bookmarks@) =~= s.update(
                    pos as int,
                    BookmarkView { title: new_title@, ..s[pos as int] },
                ));
                true
            },
            None => false,
        }
    }
}

} // verus!
