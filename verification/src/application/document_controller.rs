use vstd::prelude::*;
use crate::application::state::{ready_view, shown_document, DocumentId, DocumentState, DocumentView, ReadyDocument, ReadyView};
use crate::application::tabs::{paths_clash, paths_equal, lemma_with_active_document, open_outcome, TabSet, TabSetView};

verus! {

/// The application's tabs.
pub struct Application<V> {
    pub tabs: TabSet<V>,
}

impl<V> Application<V> {
    pub fn new() -> (r: Self)
        ensures
            r.tabs@.tabs.len() == 0,
            r.tabs@.active is None,
            r.tabs@.wf(),
    {
        Application { tabs: TabSet::new() }
    }

    /// The document whose pages the active tab shows.
    pub fn ready_document(&self) -> (r: Option<&ReadyDocument>)
        ensures
            match shown_document(self.tabs@.active_document()) {
                Some(d) => r matches Some(x) && x@ == d,
                None => r is None,
            },
    {
        match self.tabs.active() {
            Some(tab) => match &tab.document {
                Some(DocumentState::Ready(document)) => Some(document),
                Some(DocumentState::Opening { active, .. }) => active.as_ref(),
                Some(DocumentState::PasswordRequired { active, .. }) => active.as_ref(),
                Some(DocumentState::Failed { active, .. }) => active.as_ref(),
                None => None,
            },
            None => None,
        }
    }
}

/// What a finished open means for the active tab.
pub enum OpenTransition {
    Ready(ReadyDocument),
    InvalidPageCount,
    Stale,
}

/// The path and start time of the open that the active tab awaits under `id`.
pub open spec fn pending_of(d: Option<DocumentView>, id: DocumentId) -> Option<(Seq<char>, std::time::Instant)> {
    match d {
        Some(DocumentView::Opening { id: pid, path, started_at, .. }) => if pid == id {
            Some((path, started_at))
        } else {
            None
        },
        Some(DocumentView::PasswordRequired { id: pid, path, started_at, .. }) => if pid == id {
            Some((path, started_at))
        } else {
            None
        },
        _ => None,
    }
}

/// The tabs once `path` is in the active tab: opened (or activated) unless it already is.
pub open spec fn tabs_for_open<V>(s: TabSetView<V>, path: Seq<char>, title: Seq<char>, view: V) -> TabSetView<V> {
    let a = s.active_position();
    if a >= 0 && paths_clash(s.tabs[a].path, Some(path)) {
        s
    } else {
        open_outcome(s, path, title, view).0
    }
}

/// What std's `Path::file_name` (read as UTF-8 text with `OsStr::to_str`) gives for a
/// path; what counts as a file name follows the platform's path rules.
pub uninterp spec fn path_file_name(path: Seq<char>) -> Option<Seq<char>>;

/// Calls std's `Path::file_name` and `OsStr::to_str` on `path`; the result is named
/// `path_file_name`.
#[verifier::external_body]
fn file_name_of(path: &str) -> (r: Option<String>)
    ensures
        match r {
            Some(name) => path_file_name(path@) == Some(name@),
            None => path_file_name(path@) is None,
        },
{
    std::path::Path::new(path).file_name().and_then(|name| name.to_str()).map(str::to_owned)
}

/// The title of a document's tab: its file name, or "document.pdf" when the path has
/// none.
pub open spec fn document_title(path: Seq<char>) -> Seq<char> {
    match path_file_name(path) {
        Some(name) => name,
        None => "document.pdf"@,
    }
}

pub fn tab_title(path: &str) -> (r: String)
    ensures
        r@ == document_title(path@),
{
    match file_name_of(path) {
        Some(name) => name,
        None => {
            proof {
                reveal_strlit("document.pdf");
            }
            "document.pdf".to_owned()
        },
    }
}

pub struct DocumentController;

impl DocumentController {
    /// The document kept on screen while the active tab's document changes.
    fn take_active<V>(application: &mut Application<V>) -> (r: Option<ReadyDocument>)
        requires
            old(application).tabs@.wf(),
        ensures
            final(application).tabs@.wf(),
            ready_view(r) == shown_document(old(application).tabs@.active_document()),
            final(application).tabs@ == old(application).tabs@.with_active_document(None),
    {
        match application.tabs.take_active_document() {
            Some(DocumentState::Ready(document)) => Some(document),
            Some(DocumentState::Opening { active, .. }) => active,
            Some(DocumentState::PasswordRequired { active, .. }) => active,
            Some(DocumentState::Failed { active, .. }) => active,
            None => None,
        }
    }

    fn pending<V>(application: &Application<V>, id: DocumentId) -> (r: Option<(String, std::time::Instant)>)
        ensures
            match pending_of(application.tabs@.active_document(), id) {
                Some((p, t)) => r matches Some((x, u)) && x@ == p && u == t,
                None => r is None,
            },
    {
        match application.tabs.active() {
            Some(tab) => match &tab.document {
                Some(DocumentState::Opening { id: pending_id, path, started_at, .. }) => {
                    if *pending_id == id {
                        Some((path.clone(), *started_at))
                    } else {
                        None
                    }
                },
                Some(DocumentState::PasswordRequired { id: pending_id, path, started_at, .. }) => {
                    if *pending_id == id {
                        Some((path.clone(), *started_at))
                    } else {
                        None
                    }
                },
                _ => None,
            },
            None => None,
        }
    }

    /// Starts opening `path` under `id` in the tab that shows it (a new or reused tab with
    /// `title` and `view`), keeping the document that was on screen until the open ends.
    pub fn begin_open_titled<V>(
        application: &mut Application<V>,
        id: DocumentId,
        path: String,
        title: String,
        started_at: std::time::Instant,
        view: V,
    )
        requires
            old(application).tabs@.wf(),
        ensures
            final(application).tabs@.wf(),
            ({
                let t = tabs_for_open(old(application).tabs@, path@, title@, view);
                final(application).tabs@ == t.with_active_document(
                    Some(
                        DocumentView::Opening {
                            id,
                            path: path@,
                            started_at,
                            active: shown_document(t.active_document()),
                        },
                    ),
                )
            }),
    {
        let same = match application.tabs.active() {
            Some(tab) => match &tab.path {
                Some(p) => paths_equal(p.as_str(), path.as_str()),
                None => false,
            },
            None => false,
        };
        if !same {
            let _ = application.tabs.open(path.clone(), title, view);
        }
        let ghost t = application.tabs@;
        let active = Self::take_active(application);
        proof {
            lemma_with_active_document(
                t,
                None,
                Some(DocumentView::Opening { id, path: path@, started_at, active: shown_document(t.active_document()) }),
            );
        }
        application.tabs.set_active_document(
            Some(DocumentState::Opening { id, path, started_at, active }),
        );
    }

    /// Starts opening `path` under `id`: the tab is titled with the file's name (or
    /// "document.pdf" when the path has none) and gets `view` if it is new.
    pub fn begin_open<V>(
        application: &mut Application<V>,
        id: DocumentId,
        path: String,
        started_at: std::time::Instant,
        view: V,
    )
        requires
            old(application).tabs@.wf(),
        ensures
            final(application).tabs@.wf(),
            ({
                let t = tabs_for_open(old(application).tabs@, path@, document_title(path@), view);
                final(application).tabs@ == t.with_active_document(
                    Some(
                        DocumentView::Opening {
                            id,
                            path: path@,
                            started_at,
                            active: shown_document(t.active_document()),
                        },
                    ),
                )
            }),
    {
        let title = tab_title(path.as_str());
        Self::begin_open_titled(application, id, path, title, started_at, view);
    }

    /// Records that the open `id` finished with `raw_page_count` pages.
    pub fn opened<V>(
        application: &mut Application<V>,
        id: DocumentId,
        raw_page_count: u32,
        max_page_count: u32,
    ) -> (r: OpenTransition)
        requires
            old(application).tabs@.wf(),
        ensures
            final(application).tabs@.wf(),
            ({
                let s = old(application).tabs@;
                match pending_of(s.active_document(), id) {
                    None => r is Stale && final(application).tabs@ == s,
                    Some((p, t)) => if raw_page_count == 0 || raw_page_count > max_page_count {
                        &&& r is InvalidPageCount
                        &&& final(application).tabs@ == s.with_active_document(
                            Some(DocumentView::Failed { path: p, active: shown_document(s.active_document()) }),
                        )
                    } else {
                        let ready = ReadyView { id, path: p, page_count: raw_page_count, started_at: t };
                        &&& r matches OpenTransition::Ready(d) && d@ == ready
                        &&& final(application).tabs@ == s.with_active_document(
                            Some(DocumentView::Ready(ready)),
                        )
                    },
                }
            }),
    {
        let (path, started_at) = match Self::pending(application, id) {
            Some(p) => p,
            None => return OpenTransition::Stale,
        };
        if raw_page_count == 0 || raw_page_count > max_page_count {
            let active = Self::take_active(application);
            application.tabs.set_active_document(Some(DocumentState::Failed { path, active }));
            proof {
                let s = old(application).tabs@;
                lemma_with_active_document(
                    s,
                    None,
                    Some(DocumentView::Failed { path: path@, active: shown_document(s.active_document()) }),
                );
            }
            return OpenTransition::InvalidPageCount;
        }
        let ready = ReadyDocument { id, path, page_count: raw_page_count, started_at };
        application.tabs.set_active_document(Some(DocumentState::Ready(ready.duplicate())));
        OpenTransition::Ready(ready)
    }

    /// Records that the open `id` needs a password; the pending open stays.
    pub fn require_password<V>(application: &mut Application<V>, id: DocumentId) -> (r: bool)
        requires
            old(application).tabs@.wf(),
        ensures
            final(application).tabs@.wf(),
            ({
                let s = old(application).tabs@;
                match pending_of(s.active_document(), id) {
                    None => !r && final(application).tabs@ == s,
                    Some((p, t)) => r && final(application).tabs@ == s.with_active_document(
                        Some(DocumentView::PasswordRequired {
                            id,
                            path: p,
                            started_at: t,
                            active: shown_document(s.active_document()),
                        }),
                    ),
                }
            }),
    {
        let (path, started_at) = match Self::pending(application, id) {
            Some(p) => p,
            None => return false,
        };
        let active = Self::take_active(application);
        application.tabs.set_active_document(
            Some(DocumentState::PasswordRequired { id, path, started_at, active }),
        );
        proof {
            let s = old(application).tabs@;
            lemma_with_active_document(
                s,
                None,
                Some(DocumentView::PasswordRequired {
                    id,
                    path: path@,
                    started_at,
                    active: shown_document(s.active_document()),
                }),
            );
        }
        true
    }

    /// Records that the open `id` failed, and gives its path.
    pub fn fail<V>(application: &mut Application<V>, id: DocumentId) -> (r: Option<String>)
        requires
            old(application).tabs@.wf(),
        ensures
            final(application).tabs@.wf(),
            ({
                let s = old(application).tabs@;
                match pending_of(s.active_document(), id) {
                    None => r is None && final(application).tabs@ == s,
                    Some((p, t)) => r matches Some(x) && x@ == p && final(application).tabs@
                        == s.with_active_document(
                        Some(DocumentView::Failed { path: p, active: shown_document(s.active_document()) }),
                    ),
                }
            }),
    {
        let (path, _) = match Self::pending(application, id) {
            Some(p) => p,
            None => return None,
        };
        let active = Self::take_active(application);
        application.tabs.set_active_document(
            Some(DocumentState::Failed { path: path.clone(), active }),
        );
        proof {
            let s = old(application).tabs@;
            lemma_with_active_document(
                s,
                None,
                Some(DocumentView::Failed { path: path@, active: shown_document(s.active_document()) }),
            );
        }
        Some(path)
    }

    /// Abandons the open `id`, returning to the document that was on screen.
    pub fn cancel_open<V>(application: &mut Application<V>, id: DocumentId)
        requires
            old(application).tabs@.wf(),
        ensures
            final(application).tabs@.wf(),
            ({
                let s = old(application).tabs@;
                match pending_of(s.active_document(), id) {
                    None => final(application).tabs@ == s,
                    Some(_) => final(application).tabs@ == s.with_active_document(
                        match shown_document(s.active_document()) {
                            Some(d) => Some(DocumentView::Ready(d)),
                            None => None,
                        },
                    ),
                }
            }),
    {
        if Self::pending(application, id).is_some() {
            let active = match Self::take_active(application) {
                Some(d) => Some(DocumentState::Ready(d)),
                None => None,
            };
            application.tabs.set_active_document(active);
            proof {
                let s = old(application).tabs@;
                lemma_with_active_document(
                    s,
                    None,
                    match shown_document(s.active_document()) {
                        Some(d) => Some(DocumentView::Ready(d)),
                        None => None,
                    },
                );
            }
        }
    }

    /// Marks the active tab's file `path` as failed, with no document kept.
    pub fn fail_active_path<V>(application: &mut Application<V>, path: String)
        requires
            old(application).tabs@.wf(),
        ensures
            final(application).tabs@.wf(),
            final(application).tabs@ == old(application).tabs@.with_active_document(
                Some(DocumentView::Failed { path: path@, active: None }),
            ),
    {
        application.tabs.set_active_document(Some(DocumentState::Failed { path, active: None }));
    }

    /// The file the active tab is opening.
    pub fn pending_path<V>(application: &Application<V>) -> (r: Option<&str>)
        ensures
            match application.tabs@.active_document() {
                Some(DocumentView::Opening { path, .. }) => r matches Some(x) && x@ == path,
                Some(DocumentView::PasswordRequired { path, .. }) => r matches Some(x) && x@ == path,
                _ => r is None,
            },
    {
        match application.tabs.active() {
            Some(tab) => match &tab.document {
                Some(DocumentState::Opening { path, .. }) => Some(path.as_str()),
                Some(DocumentState::PasswordRequired { path, .. }) => Some(path.as_str()),
                _ => None,
            },
            None => None,
        }
    }

    pub fn is_pending<V>(application: &Application<V>, id: DocumentId) -> (r: bool)
        ensures
            r == (pending_of(application.tabs@.active_document(), id) is Some),
    {
        Self::pending(application, id).is_some()
    }

    /// The file whose open failed in the active tab.
    pub fn failed_path<V>(application: &Application<V>) -> (r: Option<&str>)
        ensures
            match application.tabs@.active_document() {
                Some(DocumentView::Failed { path, .. }) => r matches Some(x) && x@ == path,
                _ => r is None,
            },
    {
        match application.tabs.active() {
            Some(tab) => match &tab.document {
                Some(DocumentState::Failed { path, .. }) => Some(path.as_str()),
                _ => None,
            },
            None => None,
        }
    }

    /// `raw` as a page of the document on screen, when it has that page.
    pub fn page_index<V>(application: &Application<V>, raw: u32) -> (r: Option<u32>)
        ensures
            match shown_document(application.tabs@.active_document()) {
                Some(d) => if raw < d.page_count {
                    r == Some(raw)
                } else {
                    r is None
                },
                None => r is None,
            },
    {
        match application.ready_document() {
            Some(document) => if raw < document.page_count() {
                Some(raw)
            } else {
                None
            },
            None => None,
        }
    }
}

/// Decides whether render results still belong to what is on screen.
pub struct RenderController;

impl RenderController {
    /// A render event counts only for the document on screen and, when it carries a
    /// generation, only for the current one.
    pub fn accepts<V>(
        application: &Application<V>,
        document_id: DocumentId,
        event_generation: Option<u64>,
        current_generation: u64,
    ) -> (r: bool)
        ensures
            r == ((shown_document(application.tabs@.active_document()) matches Some(d) && d.id
                == document_id) && (event_generation matches Some(g) ==> g == current_generation)),
    {
        let shown = match application.ready_document() {
            Some(document) => document.id() == document_id,
            None => false,
        };
        let fresh = match event_generation {
            Some(generation) => generation == current_generation,
            None => true,
        };
        shown && fresh
    }
}

} // verus!
