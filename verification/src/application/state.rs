use vstd::prelude::*;

verus! {

#[verifier::external_type_specification]
#[verifier::external_body]
pub struct ExInstant(std::time::Instant);

/// Identifies an opened document for the render pipeline.
#[derive(Clone, Copy, Debug, PartialEq, Eq, Structural)]
pub struct DocumentId {
    pub raw: u64,
}

impl DocumentId {
    pub fn new(raw: u64) -> (r: Self)
        ensures
            r.raw == raw,
    {
        DocumentId { raw }
    }

    pub fn get(self) -> (r: u64)
        ensures
            r == self.raw,
    {
        self.raw
    }
}

/// A document that opened with a page count within the limit.
pub struct ReadyDocument {
    pub id: DocumentId,
    pub path: String,
    pub page_count: u32,
    pub started_at: std::time::Instant,
}

pub ghost struct ReadyView {
    pub id: DocumentId,
    pub path: Seq<char>,
    pub page_count: u32,
    pub started_at: std::time::Instant,
}

impl View for ReadyDocument {
    type V = ReadyView;

    open spec fn view(&self) -> ReadyView {
        ReadyView {
            id: self.id,
            path: self.path@,
            page_count: self.page_count,
            started_at: self.started_at,
        }
    }
}

impl ReadyDocument {
    pub fn id(&self) -> (r: DocumentId)
        ensures
            r == self.id,
    {
        self.id
    }

    pub fn path(&self) -> (r: &str)
        ensures
            r@ == self.path@,
    {
        self.path.as_str()
    }

    pub fn page_count(&self) -> (r: u32)
        ensures
            r == self.page_count,
    {
        self.page_count
    }

    pub fn started_at(&self) -> (r: std::time::Instant)
        ensures
            r == self.started_at,
    {
        self.started_at
    }

    pub fn duplicate(&self) -> (r: Self)
        ensures
            r@ == self@,
    {
        ReadyDocument {
            id: self.id,
            path: self.path.clone(),
            page_count: self.page_count,
            started_at: self.started_at,
        }
    }
}

/// The document of a tab: opening, waiting for a password, open, or failed. While a new
/// document is pending or failed, the one that was open before stays in `active`.
pub enum DocumentState {
    Opening {
        id: DocumentId,
        path: String,
        started_at: std::time::Instant,
        active: Option<ReadyDocument>,
    },
    PasswordRequired {
        id: DocumentId,
        path: String,
        started_at: std::time::Instant,
        active: Option<ReadyDocument>,
    },
    Ready(ReadyDocument),
    Failed { path: String, active: Option<ReadyDocument> },
}

pub open spec fn ready_view(d: Option<ReadyDocument>) -> Option<ReadyView> {
    match d {
        Some(r) => Some(r@),
        None => None,
    }
}

pub ghost enum DocumentView {
    Opening { id: DocumentId, path: Seq<char>, started_at: std::time::Instant, active: Option<ReadyView> },
    PasswordRequired {
        id: DocumentId,
        path: Seq<char>,
        started_at: std::time::Instant,
        active: Option<ReadyView>,
    },
    Ready(ReadyView),
    Failed { path: Seq<char>, active: Option<ReadyView> },
}

impl View for DocumentState {
    type V = DocumentView;

    open spec fn view(&self) -> DocumentView {
        match *self {
            DocumentState::Opening { id, path, started_at, active } => DocumentView::Opening {
                id,
                path: path@,
                started_at,
                active: ready_view(active),
            },
            DocumentState::PasswordRequired { id, path, started_at, active } =>
                DocumentView::PasswordRequired { id, path: path@, started_at, active: ready_view(active) },
            DocumentState::Ready(r) => DocumentView::Ready(r@),
            DocumentState::Failed { path, active } => DocumentView::Failed {
                path: path@,
                active: ready_view(active),
            },
        }
    }
}

pub open spec fn document_view(d: Option<DocumentState>) -> Option<DocumentView> {
    match d {
        Some(s) => Some(s@),
        None => None,
    }
}

/// The document whose pages a tab shows: the ready one, or the one kept while another opens.
pub open spec fn shown_document(d: Option<DocumentView>) -> Option<ReadyView> {
    match d {
        Some(DocumentView::Ready(r)) => Some(r),
        Some(DocumentView::Opening { active, .. }) => active,
        Some(DocumentView::PasswordRequired { active, .. }) => active,
        Some(DocumentView::Failed { active, .. }) => active,
        None => None,
    }
}

/// Whether the document is still being opened.
pub open spec fn is_loading_view(d: Option<DocumentView>) -> bool {
    match d {
        Some(DocumentView::Opening { .. }) => true,
        Some(DocumentView::PasswordRequired { .. }) => true,
        _ => false,
    }
}

} // verus!
