use vstd::prelude::*;
use crate::presentation::callbacks::is_pdf_fn;
use crate::presentation::paths::{is_pdf, is_pdf_path};
use crate::seqs::{keep, lemma_keep_single, lemma_keep_step};
use crate::application::update_controller::{is_busy_state, UpdateController};
use crate::presentation::ui::nanos_between;
use crate::presentation::image_cache::{key_index, ImageCacheView, UiImageCache, PAGE_RENDER};

verus! {

/// The pump's tick while anything is going on, in milliseconds.
pub const ACTIVE_INTERVAL_MILLIS: u64 = 16;

/// The pump's tick while the window is quiet, in milliseconds.
pub const IDLE_INTERVAL_MILLIS: u64 = 250;

/// Some visible page of the active document has no rendered image yet.
pub open spec fn render_missing(active: Option<u64>, visible: Seq<u32>, images: ImageCacheView) -> bool {
    match active {
        Some(d) => exists|i: int|
            0 <= i < visible.len() && key_index(images.entries, (d, #[trigger] visible[i], PAGE_RENDER))
                < 0,
        None => false,
    }
}

/// Whether the window still has work that keeps the pump on its fast tick: background
/// update work, page sizes being fetched, a resize settling, a visible page not rendered,
/// a document opening, a scroll in progress, or a recent wake-up.
pub fn pump_requires_active(
    update: &UpdateController,
    dimensions_request_pending: bool,
    resize_pending: bool,
    active_document: Option<u64>,
    visible_pages: &[u32],
    page_images: &UiImageCache,
    open_pending: bool,
    scrolling: bool,
    woken_recently: bool,
) -> (r: bool)
    ensures
        r == (is_busy_state(update@.ui) || dimensions_request_pending || resize_pending
            || render_missing(active_document, visible_pages@, page_images@) || open_pending
            || scrolling || woken_recently),
{
    if update.is_busy() || dimensions_request_pending || resize_pending {
        return true;
    }
    let missing = match active_document {
        Some(document) => {
            let mut found = false;
            let mut i: usize = 0;
            while i < visible_pages.len()
                invariant
                    i <= visible_pages.len(),
                    found == exists|k: int|
                        0 <= k < i && key_index(
                            page_images@.entries,
                            (document, #[trigger] visible_pages@[k], PAGE_RENDER),
                        ) < 0,
                decreases visible_pages.len() - i,
            {
                if !page_images.contains_key((document, visible_pages[i], PAGE_RENDER)) {
                    found = true;
                }
                i += 1;
            }
            found
        },
        None => false,
    };
    missing || open_pending || scrolling || woken_recently
}

/// How long a wake-up keeps the pump on its fast tick: 500 ms, in nanoseconds.
pub const WAKE_WINDOW_NANOS: u128 = 500_000_000;

/// A wake-up still counts while less than the wake window has passed since it.
pub fn within_wake_window(elapsed_since_wake_nanos: Option<u128>) -> (r: bool)
    ensures
        r == (elapsed_since_wake_nanos matches Some(n) && n < WAKE_WINDOW_NANOS),
{
    match elapsed_since_wake_nanos {
        Some(n) => n < WAKE_WINDOW_NANOS,
        None => false,
    }
}

/// Whether the pump was woken (by a render command) less than 500 ms before `now`: never
/// when it was not woken, always when it was woken at `now` itself; in between it goes by
/// the clock (`within_wake_window` of the elapsed time).
pub fn woken_recently(woken_at: Option<std::time::Instant>, now: std::time::Instant) -> (r: bool)
    ensures
        woken_at is None ==> !r,
        woken_at == Some(now) ==> r,
{
    match woken_at {
        Some(at) => within_wake_window(Some(nanos_between(at, now))),
        None => within_wake_window(None),
    }
}

/// How many events of each source one tick handles at most.
pub const EVENTS_PER_TICK: usize = 4;

/// Where a set of files dropped on the window goes.
#[derive(Debug, PartialEq, Eq)]
pub enum DropRoutingOutcome {
    OpenDocument(String),
    Banner(&'static str),
    ToolsMerge(Vec<String>),
    ToolsSingleSource(String),
    ToolsError(&'static str),
}

pub open spec fn path_texts(paths: Seq<String>) -> Seq<Seq<char>> {
    paths.map_values(|p: String| p@)
}

/// How a drop is routed: into the open tools panel (every PDF for the merge tool, exactly
/// one PDF for the others), or else as the one PDF document to open.
pub open spec fn drop_routed(
    r: DropRoutingOutcome,
    paths: Seq<Seq<char>>,
    tools_open: bool,
    current_tool: i32,
) -> bool {
    if tools_open && current_tool >= 0 {
        let pdfs = keep(paths, is_pdf_fn());
        if pdfs.len() == 0 {
            r matches DropRoutingOutcome::ToolsError(m) && m@ == "tools.error.drop_pdf"@
        } else if current_tool == 0 {
            r matches DropRoutingOutcome::ToolsMerge(v) && path_texts(v@) == pdfs
        } else if pdfs.len() == 1 {
            r matches DropRoutingOutcome::ToolsSingleSource(p) && p@ == pdfs[0]
        } else {
            r matches DropRoutingOutcome::ToolsError(m) && m@ == "tools.error.single_source"@
        }
    } else if paths.len() == 1 && is_pdf(paths[0]) {
        r matches DropRoutingOutcome::OpenDocument(p) && p@ == paths[0]
    } else if paths.len() == 1 {
        r matches DropRoutingOutcome::Banner(m) && m@ == "Only PDF files are supported."@
    } else {
        r matches DropRoutingOutcome::Banner(m) && m@ == "Drop exactly one PDF file."@
    }
}

pub fn route_dropped_paths(paths: &[String], tools_open: bool, current_tool: i32) -> (r:
    DropRoutingOutcome)
    ensures
        drop_routed(r, path_texts(paths@), tools_open, current_tool),
{
    let ghost ps = path_texts(paths@);
    if tools_open && current_tool >= 0 {
        let mut pdfs: Vec<String> = Vec::new();
        let mut i: usize = 0;
        assert(ps.take(0) =~= Seq::<Seq<char>>::empty());
        assert(path_texts(pdfs@) =~= Seq::<Seq<char>>::empty());
        while i < paths.len()
            invariant
                i <= paths.len(),
                ps == path_texts(paths@),
                path_texts(pdfs@) == keep(ps.take(i as int), is_pdf_fn()),
            decreases paths.len() - i,
        {
            proof {
                lemma_keep_step(ps, is_pdf_fn(), i as int);
            }
            if is_pdf_path(paths[i].as_str()) {
                let ghost before = path_texts(pdfs@);
                pdfs.push(paths[i].clone());
                assert(path_texts(pdfs@) =~= before.push(ps[i as int]));
            }
            i += 1;
        }
        assert(ps.take(paths.len() as int) =~= ps);
        if pdfs.len() == 0 {
            DropRoutingOutcome::ToolsError("tools.error.drop_pdf")
        } else if current_tool == 0 {
            DropRoutingOutcome::ToolsMerge(pdfs)
        } else if pdfs.len() == 1 {
            let p = pdfs[0].clone();
            assert(p@ == path_texts(pdfs@)[0]);
            DropRoutingOutcome::ToolsSingleSource(p)
        } else {
            DropRoutingOutcome::ToolsError("tools.error.single_source")
        }
    } else if paths.len() == 1 {
        if is_pdf_path(paths[0].as_str()) {
            DropRoutingOutcome::OpenDocument(paths[0].clone())
        } else {
            DropRoutingOutcome::Banner("Only PDF files are supported.")
        }
    } else {
        DropRoutingOutcome::Banner("Drop exactly one PDF file.")
    }
}

/// A drop for a single-source tool depends only on its PDFs: when exactly one dropped path
/// is a PDF, that path becomes the tool's source, whatever other files come with it.
pub proof fn lemma_one_pdf_is_the_tool_source(
    r: DropRoutingOutcome,
    paths: Seq<Seq<char>>,
    current_tool: i32,
    i: int,
)
    requires
        drop_routed(r, paths, true, current_tool),
        current_tool >= 1,
        0 <= i < paths.len(),
        is_pdf(paths[i]),
        forall|j: int| 0 <= j < paths.len() && j != i ==> !is_pdf(#[trigger] paths[j]),
    ensures
        r matches DropRoutingOutcome::ToolsSingleSource(p) && p@ == paths[i],
{
    assert forall|j: int| 0 <= j < paths.len() && j != i implies !is_pdf_fn()(#[trigger] paths[j]) by {
        assert(!is_pdf(paths[j]));
    }
    lemma_keep_single(paths, is_pdf_fn(), i);
}

/// How often the event pump runs.
#[derive(Clone, Copy, Debug, PartialEq, Eq, Structural)]
pub enum PumpMode {
    Active,
    Idle,
}

impl PumpMode {
    /// Active while the last tick saw activity or work is pending, idle otherwise.
    pub fn select(had_activity: bool, work_pending: bool) -> (r: Self)
        ensures
            r == if had_activity || work_pending {
                PumpMode::Active
            } else {
                PumpMode::Idle
            },
    {
        if had_activity || work_pending {
            PumpMode::Active
        } else {
            PumpMode::Idle
        }
    }

    /// The tick of the mode, in milliseconds.
    pub fn interval(self) -> (r: u64)
        ensures
            r == match self {
                PumpMode::Active => ACTIVE_INTERVAL_MILLIS,
                PumpMode::Idle => IDLE_INTERVAL_MILLIS,
            },
    {
        match self {
            PumpMode::Active => ACTIVE_INTERVAL_MILLIS,
            PumpMode::Idle => IDLE_INTERVAL_MILLIS,
        }
    }
}

} // verus!
