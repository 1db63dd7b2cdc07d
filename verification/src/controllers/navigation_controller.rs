use vstd::prelude::*;

verus! {

/// Where a navigation command goes.
#[derive(Clone, Copy, Debug, PartialEq, Eq, Structural)]
pub enum NavigationTarget {
    Previous,
    Next,
    First,
    Last,
    Page(u32),
}

/// The 0-based page that `target` selects from `current` in a document of `page_count`
/// pages; `None` for an empty document.
pub open spec fn target_page(target: NavigationTarget, current: u32, page_count: u32) -> Option<u32> {
    if page_count == 0 {
        None
    } else {
        let last = (page_count - 1) as u32;
        Some(
            match target {
                NavigationTarget::Previous => if current == 0 {
                    0
                } else {
                    (current - 1) as u32
                },
                NavigationTarget::Next => if current + 1 < last {
                    (current + 1) as u32
                } else {
                    last
                },
                NavigationTarget::First => 0,
                NavigationTarget::Last => last,
                NavigationTarget::Page(p) => if p < last {
                    p
                } else {
                    last
                },
            },
        )
    }
}

impl NavigationTarget {
    /// The page to go to, clamped to the document.
    pub fn resolve(self, current: u32, page_count: u32) -> (r: Option<u32>)
        requires
            current < u32::MAX,
        ensures
            r == target_page(self, current, page_count),
    {
        if page_count == 0 {
            return None;
        }
        let last = page_count - 1;
        let page = match self {
            NavigationTarget::Previous => if current == 0 {
                0
            } else {
                current - 1
            },
            NavigationTarget::Next => if current + 1 < last {
                current + 1
            } else {
                last
            },
            NavigationTarget::First => 0,
            NavigationTarget::Last => last,
            NavigationTarget::Page(p) => if p < last {
                p
            } else {
                last
            },
        };
        Some(page)
    }
}

/// Navigation from a page of the document lands inside it: an empty document has no page
/// to go to; going to
/// page `p` lands on `p` when the document has it and on the last page otherwise; the next
/// and previous pages are one step away, held at the ends; first and last are the ends.
pub proof fn lemma_navigation_lands_in_document(target: NavigationTarget, current: u32, page_count: u32)
    ensures
        page_count == 0 ==> target_page(target, current, page_count) is None,
        page_count > 0 ==> ({
            let r = target_page(target, current, page_count);
            &&& r is Some
            &&& current < page_count ==> (r matches Some(x) && x < page_count)
            &&& target matches NavigationTarget::Page(p) ==> (p < page_count ==> r == Some(p)) && (
            p >= page_count ==> r == Some((page_count - 1) as u32))
            &&& target is Next ==> (current + 1 < page_count ==> r == Some((current + 1) as u32)) && (
            current + 1 >= page_count ==> r == Some((page_count - 1) as u32))
            &&& target is Previous ==> (current > 0 ==> r == Some((current - 1) as u32)) && (current
                == 0 ==> r == Some(0u32))
            &&& target is First ==> r == Some(0u32)
            &&& target is Last ==> r == Some((page_count - 1) as u32)
        }),
{
}

} // verus!