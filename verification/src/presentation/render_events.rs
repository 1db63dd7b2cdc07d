use vstd::prelude::*;
use crate::application::document_controller::{pending_of, Application, DocumentController, RenderController};
use crate::application::state::{shown_document, DocumentId, DocumentView};

verus! {

/// How an open or render failure of the PDF engine reads.
#[derive(Clone, Copy, Debug, PartialEq, Eq, Structural)]
pub enum RenderErrorKind {
    PasswordRequired,
    IncorrectPassword,
    Other,
}

/// What the window shows after a render error.
#[derive(Clone, Copy, Debug, PartialEq, Eq, Structural)]
pub enum RenderErrorOutcome {
    /// The pending document needs a password: ask for it.
    PasswordPrompt,
    /// The password given for the pending document was wrong: ask again.
    WrongPassword,
    /// The pending document could not be opened.
    OpenFailed,
    /// A page of the document on screen could not be rendered.
    RenderFailed,
    /// The error belongs to nothing on screen.
    Ignored,
}

/// Handles an engine error for `document_id`: an error of the open that the active tab
/// waits for decides that open (a password is asked for, asked again, or the open fails);
/// any other error counts only for the document on screen in the current generation.
pub fn handle_render_error<V>(
    application: &mut Application<V>,
    document_id: DocumentId,
    event_generation: Option<u64>,
    current_generation: u64,
    kind: RenderErrorKind,
) -> (r: RenderErrorOutcome)
    requires
        old(application).tabs@.wf(),
    ensures
        final(application).tabs@.wf(),
        ({
            let s = old(application).tabs@;
            match pending_of(s.active_document(), document_id) {
                Some((p, t)) => match kind {
                    RenderErrorKind::PasswordRequired => r == RenderErrorOutcome::PasswordPrompt
                        && final(application).tabs@ == s.with_active_document(
                        Some(
                            DocumentView::PasswordRequired {
                                id: document_id,
                                path: p,
                                started_at: t,
                                active: shown_document(s.active_document()),
                            },
                        ),
                    ),
                    RenderErrorKind::IncorrectPassword => r == RenderErrorOutcome::WrongPassword
                        && final(application).tabs@ == s,
                    RenderErrorKind::Other => r == RenderErrorOutcome::OpenFailed
                        && final(application).tabs@ == s.with_active_document(
                        Some(DocumentView::Failed { path: p, active: shown_document(s.active_document()) }),
                    ),
                },
                None => {
                    &&& final(application).tabs@ == s
                    &&& r == if (shown_document(s.active_document()) matches Some(d) && d.id
                        == document_id) && (event_generation matches Some(g) ==> g
                        == current_generation) {
                        RenderErrorOutcome::RenderFailed
                    } else {
                        RenderErrorOutcome::Ignored
                    }
                },
            }
        }),
{
    if DocumentController::is_pending(application, document_id) {
        match kind {
            RenderErrorKind::PasswordRequired => {
                let _ = DocumentController::require_password(application, document_id);
                RenderErrorOutcome::PasswordPrompt
            },
            RenderErrorKind::IncorrectPassword => RenderErrorOutcome::WrongPassword,
            RenderErrorKind::Other => {
                let _ = DocumentController::fail(application, document_id);
                RenderErrorOutcome::OpenFailed
            },
        }
    } else if RenderController::accepts(application, document_id, event_generation, current_generation) {
        RenderErrorOutcome::RenderFailed
    } else {
        RenderErrorOutcome::Ignored
    }
}

/// The page a reopened document starts on: the page its tab was on, within the document.
pub fn restored_page(saved_page: u32, page_count: u32) -> (r: u32)
    ensures
        r == if page_count == 0 {
            0
        } else if saved_page < page_count {
            saved_page
        } else {
            (page_count - 1) as u32
        },
{
    let last = page_count.saturating_sub(1);
    if saved_page < last {
        saved_page
    } else {
        last
    }
}

/// After page sizes from `start` on arrived (`fetched` of them): where the next batch
/// starts, and whether it is wanted yet (the reader is within 16 pages of it).
pub fn dimensions_follow_up(current_page: u32, start: u32, fetched: u32) -> (r: (u32, bool))
    requires
        start + fetched <= u32::MAX,
    ensures
        r.0 == start + fetched,
        r.1 == (if current_page + 16 > u32::MAX {
            u32::MAX as int
        } else {
            current_page + 16
        } >= start + fetched),
{
    let next = start + fetched;
    (next, current_page.saturating_add(16) >= next)
}

/// The pages to keep rendered around what is visible: one page either side of the
/// visible ones, within the document; only the current page in single-page or presentation
/// view. Without a document, none.
pub fn visible_page_indices(
    page_count: u32,
    one_page_view: bool,
    current_page: u32,
    first_visible: Option<u32>,
    last_visible: Option<u32>,
) -> (r: Vec<u32>)
    ensures
        page_count == 0 ==> r@.len() == 0,
        page_count > 0 && one_page_view ==> r@ == seq![current_page],
        page_count > 0 && !one_page_view ==> {
            let first = match first_visible {
                Some(f) => f,
                None => current_page,
            };
            let last = match last_visible {
                Some(l) => l,
                None => current_page,
            };
            let lo = if first == 0 {
                0
            } else {
                first - 1
            };
            let hi = if last + 1 < page_count - 1 {
                last + 1
            } else {
                page_count - 1
            };
            &&& r@.len() == if lo <= hi {
                hi - lo + 1
            } else {
                0
            }
            &&& forall|i: int| 0 <= i < r@.len() ==> r@[i] == lo + i
        },
{
    if page_count == 0 {
        return Vec::new();
    }
    if one_page_view {
        return vec![current_page];
    }
    let first = match first_visible {
        Some(f) => f,
        None => current_page,
    };
    let last = match last_visible {
        Some(l) => l,
        None => current_page,
    };
    let lo = first.saturating_sub(1);
    let top = page_count - 1;
    let hi = if last < top {
        last + 1
    } else {
        top
    };
    let mut out: Vec<u32> = Vec::new();
    if lo > hi {
        return out;
    }
    let mut p = lo;
    loop
        invariant_except_break
            lo <= p <= hi,
            out@.len() == p - lo,
        invariant
            forall|i: int| 0 <= i < out@.len() ==> out@[i] == lo + i,
        ensures
            out@.len() == hi - lo + 1,
        decreases hi - p,
    {
        out.push(p);
        if p == hi {
            break;
        }
        p += 1;
    }
    out
}

} // verus!
