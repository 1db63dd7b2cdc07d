use vstd::prelude::*;
use crate::application::state::DocumentId;
use crate::application::tabs::{close_outcome, has_id, path_view, ready_document_id, TabSet, TabSetView};
use crate::presentation::image_cache::{others_kept, UiImageCache};
use crate::presentation::text_geometry::{other_document, TextGeometryCache};
use crate::seqs::{keep, lemma_first_match_facts};

verus! {

/// What closing a tab did: whether the tab was open (and is now closed), and the open
/// document it showed, which the renderer is to drop.
pub struct TabClosed {
    pub closed: bool,
    pub document: Option<DocumentId>,
}

/// The open document of the tab `raw` in `s`.
pub open spec fn tab_document<V>(s: TabSetView<V>, raw: u64) -> Option<DocumentId> {
    if s.position(raw) >= 0 {
        ready_document_id(s.tabs[s.position(raw)].document)
    } else {
        None
    }
}

/// Closes the tab whose identity is `raw` and drops what the window cached for the open
/// document it showed: its page images, its thumbnails and its text geometry.
pub fn close_tab<V, G>(
    tabs: &mut TabSet<V>,
    page_images: &mut UiImageCache,
    thumbnails: &mut UiImageCache,
    geometries: &mut TextGeometryCache<G>,
    raw: u64,
) -> (r: TabClosed)
    requires
        old(tabs)@.wf(),
        old(page_images).wf(),
        old(thumbnails).wf(),
        old(geometries).wf(),
    ensures
        final(tabs)@.wf(),
        final(page_images).wf(),
        final(thumbnails).wf(),
        final(geometries).wf(),
        r.closed == old(tabs)@.contains(raw),
        final(tabs)@ == close_outcome(old(tabs)@, raw),
        r.document == (if r.closed {
            tab_document(old(tabs)@, raw)
        } else {
            None
        }),
        r.document is None ==> {
            &&& final(page_images)@ == old(page_images)@
            &&& final(thumbnails)@ == old(thumbnails)@
            &&& final(geometries).entries_view() == old(geometries).entries_view()
        },
        r.document matches Some(d) ==> {
            &&& forall|i: int| 0 <= i < final(page_images)@.entries.len()
                ==> (#[trigger] final(page_images)@.entries[i]).0.0 != d.raw
            &&& forall|i: int| 0 <= i < final(thumbnails)@.entries.len()
                ==> (#[trigger] final(thumbnails)@.entries[i]).0.0 != d.raw
            &&& others_kept(final(page_images)@.entries, old(page_images)@.entries, d.raw)
            &&& others_kept(final(thumbnails)@.entries, old(thumbnails)@.entries, d.raw)
            &&& final(geometries).entries_view() == keep(
                old(geometries).entries_view(),
                other_document::<G>(d.raw),
            )
        },
{
    let id = match tabs.find_id(raw) {
        Some(id) => id,
        None => {
            proof {
                lemma_first_match_facts(tabs@.tabs, has_id::<V>(raw));
                if tabs@.position(raw) >= 0 {
                    assert(has_id::<V>(raw)(tabs@.tabs[tabs@.position(raw)]));
                }
            }
            return TabClosed { closed: false, document: None };
        },
    };
    let document = tabs.ready_document_of(id);
    let closed = tabs.close(id);
    if !closed {
        return TabClosed { closed: false, document: None };
    }
    match document {
        Some(d) => {
            let _ = page_images.remove_document(d.get());
            let _ = thumbnails.remove_document(d.get());
            geometries.remove_document(d.get());
        },
        None => {},
    }
    TabClosed { closed, document }
}

/// What activating a tab did: whether the tab was open (and is now active), and the file
/// it shows.
pub struct TabActivated {
    pub activated: bool,
    pub path: Option<String>,
}

/// Makes the tab whose identity is `raw` the active one.
pub fn activate_tab<V>(tabs: &mut TabSet<V>, raw: u64) -> (r: TabActivated)
    requires
        old(tabs)@.wf(),
    ensures
        final(tabs)@.wf(),
        r.activated == old(tabs)@.contains(raw),
        r.activated ==> final(tabs)@ == (TabSetView { active: Some(raw), ..old(tabs)@ })
            && path_view(r.path) == old(tabs)@.tabs[old(tabs)@.position(raw)].path,
        !r.activated ==> final(tabs)@ == old(tabs)@ && r.path is None,
{
    let id = match tabs.find_id(raw) {
        Some(id) => id,
        None => return TabActivated { activated: false, path: None },
    };
    let ghost before = tabs@;
    if !tabs.activate(id) {
        return TabActivated { activated: false, path: None };
    }
    proof {
        lemma_first_match_facts(before.tabs, has_id::<V>(raw));
        if before.position(raw) < 0 {
            let k = choose|k: int| 0 <= k < before.tabs.len() && before.tabs[k].id == raw;
            assert(!has_id::<V>(raw)(before.tabs[k]));
        }
        assert(tabs@.tabs == before.tabs);
    }
    let path = match tabs.path(id) {
        Some(p) => Some(p.to_string()),
        None => None,
    };
    TabActivated { activated: true, path }
}

} // verus!
