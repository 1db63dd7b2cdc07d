use vstd::prelude::*;
use crate::application::state::DocumentId;
use crate::presentation::paths::{is_pdf, is_pdf_path};
use crate::presentation::ui::{path_lines, path_lines_of};
use crate::seqs::{keep, lemma_keep_step};
use crate::text::{
    chars_of, copy_range, decimal, find_char, index_of, lemma_index_of_bounds, parse_i32,
    parse_u32, parsed_i32, parsed_u32, push_decimal, string_of, trim_chars, trimmed,
};

verus! {

/// The text a zoom field holds once trimmed and without one trailing `%` (trimmed again).
pub open spec fn zoom_text(input: Seq<char>) -> Seq<char> {
    let t = trimmed(input);
    if t.len() > 0 && t.last() == '%' {
        trimmed(t.drop_last())
    } else {
        t
    }
}

/// An integer zoom percentage, clamped to 25..=200; `None` unless the text is one.
pub open spec fn zoom_percent_value(input: Seq<char>) -> Option<i32> {
    match parsed_i32(zoom_text(input)) {
        Some(p) => Some(
            if p < 25 {
                25i32
            } else if p > 200 {
                200i32
            } else {
                p
            },
        ),
        None => None,
    }
}

pub fn parse_zoom_percent(input: &str) -> (r: Option<i32>)
    ensures
        r == zoom_percent_value(input@),
{
    let t = trim_chars(chars_of(input).as_slice());
    let value = if t.len() > 0 && t[t.len() - 1] == '%' {
        let without = copy_range(t.as_slice(), 0, t.len() - 1);
        assert(without@ =~= t@.drop_last());
        trim_chars(without.as_slice())
    } else {
        t
    };
    match parse_i32(value.as_slice()) {
        Some(p) => Some(
            if p < 25 {
                25
            } else if p > 200 {
                200
            } else {
                p
            },
        ),
        None => None,
    }
}

pub open spec fn is_pdf_fn() -> spec_fn(Seq<char>) -> bool {
    |p: Seq<char>| is_pdf(p)
}

/// The PDF files named by the lines of a drop on the tools panel; nothing is opened.
pub open spec fn tool_drop_list(text: Seq<char>) -> Seq<Seq<char>> {
    keep(path_lines(text), is_pdf_fn())
}

pub fn tool_drop_paths(text: &str) -> (r: Vec<String>)
    ensures
        r@.map_values(|p: String| p@) == tool_drop_list(text@),
{
    let ls = path_lines_of(text);
    let ghost ps = path_lines(text@);
    let mut out: Vec<String> = Vec::new();
    let mut i: usize = 0;
    assert(ps.take(0) =~= Seq::<Seq<char>>::empty());
    assert(out@.map_values(|p: String| p@) =~= Seq::<Seq<char>>::empty());
    while i < ls.len()
        invariant
            i <= ls.len(),
            ls@.map_values(|l: Vec<char>| l@) == ps,
            out@.map_values(|p: String| p@) == keep(ps.take(i as int), is_pdf_fn()),
        decreases ls.len() - i,
    {
        let p = string_of(ls[i].as_slice());
        assert(p@ == ps[i as int]);
        proof {
            lemma_keep_step(ps, is_pdf_fn(), i as int);
        }
        if is_pdf_path(p.as_str()) {
            let ghost before = out@.map_values(|p: String| p@);
            out.push(p);
            assert(out@.map_values(|p: String| p@) =~= before.push(ps[i as int]));
        }
        i += 1;
    }
    assert(ps.take(ls.len() as int) =~= ps);
    out
}

/// The range a print preview starts with: every page.
pub open spec fn default_range_text(page_count: u32) -> Seq<char> {
    if page_count == 1 {
        "1"@
    } else {
        "1-"@ + decimal(page_count as nat)
    }
}

pub fn default_print_preview_range(page_count: u32) -> (r: String)
    requires
        page_count >= 1,
    ensures
        r@ == default_range_text(page_count),
{
    if page_count == 1 {
        "1".to_string()
    } else {
        let mut s = "1-".to_string();
        push_decimal(&mut s, page_count as u128);
        s
    }
}

/// `s` cut at every `c`, as `str::split` cuts it (empty pieces kept).
pub open spec fn split_on(s: Seq<char>, c: char) -> Seq<Seq<char>>
    decreases s.len(),
{
    let i = index_of(s, c);
    if i < 0 {
        seq![s]
    } else {
        proof {
            lemma_index_of_bounds(s, c);
        }
        seq![s.take(i)] + split_on(s.skip(i + 1), c)
    }
}

/// `str::split` on a character.
pub fn split_chars(s: &[char], c: char) -> (r: Vec<Vec<char>>)
    ensures
        r@.map_values(|v: Vec<char>| v@) == split_on(s@, c),
{
    let mut out: Vec<Vec<char>> = Vec::new();
    let mut start: usize = 0;
    assert(s@.skip(0) =~= s@);
    loop
        invariant
            start <= s.len(),
            out@.map_values(|v: Vec<char>| v@) + split_on(s@.skip(start as int), c) == split_on(s@, c),
        decreases s.len() - start,
    {
        let ghost rest = s@.skip(start as int);
        let rest_vec = copy_range(s, start, s.len());
        assert(rest_vec@ =~= rest);
        proof {
            lemma_index_of_bounds(rest, c);
        }
        let ghost before = out@.map_values(|v: Vec<char>| v@);
        match find_char(rest_vec.as_slice(), c) {
            Some(i) => {
                let piece = copy_range(rest_vec.as_slice(), 0, i);
                assert(piece@ =~= rest.take(i as int));
                out.push(piece);
                assert(out@.map_values(|v: Vec<char>| v@) =~= before.push(rest.take(i as int)));
                assert(rest.skip(i + 1) =~= s@.skip(start + i + 1));
                assert(before.push(rest.take(i as int)) + split_on(rest.skip(i + 1), c) =~= before + (
                seq![rest.take(i as int)] + split_on(rest.skip(i + 1), c)));
                start = start + i + 1;
            },
            None => {
                out.push(rest_vec);
                assert(out@.map_values(|v: Vec<char>| v@) =~= before + seq![rest]);
                return out;
            },
        }
    }
}

/// The first and last page (1-based) that one comma-separated piece of a print range
/// names: `n` or `a-b`, with no second dash.
pub open spec fn segment_bounds(seg: Seq<char>) -> Option<(u32, u32)> {
    let t = trimmed(seg);
    let i = index_of(t, '-');
    let first = if i >= 0 {
        t.take(i)
    } else {
        t
    };
    let last = if i >= 0 {
        t.skip(i + 1)
    } else {
        t
    };
    if i >= 0 && index_of(last, '-') >= 0 {
        None
    } else {
        match (parsed_u32(trimmed(first)), parsed_u32(trimmed(last))) {
            (Some(a), Some(b)) => Some((a, b)),
            _ => None,
        }
    }
}

pub open spec fn next_page_after(last: u32) -> int {
    if last == u32::MAX {
        last as int
    } else {
        last + 1
    }
}

/// Reads the pieces of a print range from left to right: each must lie in 1..=page_count,
/// run forward, and start right after the previous one; the result is the first page of
/// the first piece and the last page of the last.
pub open spec fn range_fold(segs: Seq<Seq<char>>, page_count: u32, acc: Option<(u32, u32)>) -> Option<
    (u32, u32),
>
    decreases segs.len(),
{
    if segs.len() == 0 {
        acc
    } else {
        match segment_bounds(segs[0]) {
            None => None,
            Some((f, l)) => if f < 1 || f > l || l > page_count {
                None
            } else if acc is Some && f != next_page_after(acc.unwrap().1) {
                None
            } else {
                range_fold(
                    segs.drop_first(),
                    page_count,
                    Some(
                        (
                            if acc is Some {
                                acc.unwrap().0
                            } else {
                                f
                            },
                            l,
                        ),
                    ),
                )
            },
        }
    }
}

/// The 0-based first and last page a print-preview range names: the whole document when
/// blank, otherwise one contiguous run of pages.
pub open spec fn print_range_of(input: Seq<char>, page_count: u32) -> Option<(u32, u32)> {
    let t = trimmed(input);
    if t.len() == 0 {
        Some((0u32, (page_count - 1) as u32))
    } else {
        match range_fold(split_on(t, ','), page_count, None) {
            Some((f, l)) => Some(((f - 1) as u32, (l - 1) as u32)),
            None => None,
        }
    }
}

fn read_segment(seg: &[char]) -> (r: Option<(u32, u32)>)
    ensures
        r == segment_bounds(seg@),
{
    let t = trim_chars(seg);
    proof {
        lemma_index_of_bounds(t@, '-');
    }
    let (first, last) = match find_char(t.as_slice(), '-') {
        Some(i) => {
            let f = copy_range(t.as_slice(), 0, i);
            let l = copy_range(t.as_slice(), i + 1, t.len());
            assert(f@ =~= t@.take(i as int));
            assert(l@ =~= t@.skip(i + 1));
            if find_char(l.as_slice(), '-').is_some() {
                return None;
            }
            (f, l)
        },
        None => {
            let f = copy_range(t.as_slice(), 0, t.len());
            assert(f@ =~= t@);
            (f, t)
        },
    };
    let a = parse_u32(trim_chars(first.as_slice()).as_slice());
    let b = parse_u32(trim_chars(last.as_slice()).as_slice());
    match (a, b) {
        (Some(a), Some(b)) => Some((a, b)),
        _ => None,
    }
}

pub fn parse_print_preview_range(input: &str, page_count: u32) -> (r: Option<(u32, u32)>)
    requires
        page_count >= 1,
    ensures
        r == print_range_of(input@, page_count),
{
    let t = trim_chars(chars_of(input).as_slice());
    if t.len() == 0 {
        return Some((0, page_count - 1));
    }
    let segs = split_chars(t.as_slice(), ',');
    let ghost all = split_on(t@, ',');
    assert(t@ == trimmed(input@));
    let mut acc: Option<(u32, u32)> = None;
    let mut k: usize = 0;
    assert(all.skip(0) =~= all);
    while k < segs.len()
        invariant
            k <= segs.len(),
            segs@.map_values(|v: Vec<char>| v@) == all,
            all == split_on(trimmed(input@), ','),
            trimmed(input@).len() > 0,
            range_fold(all, page_count, None) == range_fold(all.skip(k as int), page_count, acc),
            acc is Some ==> 1 <= acc.unwrap().0 && 1 <= acc.unwrap().1,
        decreases segs.len() - k,
    {
        let ghost rest = all.skip(k as int);
        assert(rest[0] == segs@[k as int]@);
        assert(rest.drop_first() =~= all.skip(k + 1));
        match read_segment(segs[k].as_slice()) {
            None => {
                return None;
            },
            Some((f, l)) => {
                if f < 1 || f > l || l > page_count {
                    return None;
                }
                match acc {
                    Some((first, previous)) => {
                        if f != previous.saturating_add(1) {
                            return None;
                        }
                        acc = Some((first, l));
                    },
                    None => {
                        acc = Some((f, l));
                    },
                }
            },
        }
        k += 1;
    }
    assert(all.skip(segs.len() as int) =~= Seq::<Seq<char>>::empty());
    match acc {
        Some((f, l)) => Some((f - 1, l - 1)),
        None => None,
    }
}

/// Request ids of print-preview renders carry this bit, so that their results are told
/// apart from the page renders of the document view.
pub const PRINT_PREVIEW_REQUEST_MASK: u64 = 0x8000_0000_0000_0000;

/// The request id for the `sequence`-th print-preview render: the preview bit set over
/// the low bits of the sequence, never over zero.
pub fn print_preview_request_id(sequence: u64) -> (r: u64)
    ensures
        r & PRINT_PREVIEW_REQUEST_MASK != 0,
        r & !PRINT_PREVIEW_REQUEST_MASK == if sequence & !PRINT_PREVIEW_REQUEST_MASK == 0 {
            1
        } else {
            sequence & !PRINT_PREVIEW_REQUEST_MASK
        },
{
    let low = sequence & !PRINT_PREVIEW_REQUEST_MASK;
    let low = if low == 0 {
        1
    } else {
        low
    };
    let r = PRINT_PREVIEW_REQUEST_MASK | low;
    assert(low & 0x8000_0000_0000_0000u64 == 0 ==> (0x8000_0000_0000_0000u64 | low)
        & 0x8000_0000_0000_0000u64 != 0 && (0x8000_0000_0000_0000u64 | low) & !0x8000_0000_0000_0000u64
        == low) by (bit_vector);
    assert(sequence & !0x8000_0000_0000_0000u64 & 0x8000_0000_0000_0000u64 == 0) by (bit_vector);
    assert(1u64 & 0x8000_0000_0000_0000u64 == 0) by (bit_vector);
    r
}

/// Whether a render's request id is one of the print preview's.
pub fn is_print_preview_request(request_id: u64) -> (r: bool)
    ensures
        r == (request_id & PRINT_PREVIEW_REQUEST_MASK != 0),
{
    request_id & PRINT_PREVIEW_REQUEST_MASK != 0
}

/// The render a print preview waits for.
#[derive(Debug, Clone, Copy, PartialEq, Eq, Structural)]
pub struct PendingPreviewRender {
    pub request_id: u64,
    pub page_index: u32,
}

/// The print preview dialog: which document and page it shows and which render it waits
/// for.
#[derive(Debug)]
pub struct PrintPreviewState {
    pub open: bool,
    pub document_id: DocumentId,
    pub generation: u64,
    pub page_count: u32,
    pub page_index: u32,
    pub orientation: i32,
    pub range: String,
    pub pending: Option<PendingPreviewRender>,
}

/// Whether a finished render is the one the preview waits for, for its document, its
/// generation and the page it shows.
pub open spec fn preview_accepts(
    s: PrintPreviewState,
    request_id: u64,
    document_id: DocumentId,
    generation: u64,
    page_index: u32,
) -> bool {
    &&& s.open
    &&& s.document_id == document_id
    &&& s.generation == generation
    &&& s.pending matches Some(p) && p.request_id == request_id && p.page_index == page_index
        && s.page_index == page_index
}

pub open spec fn without_pending(s: PrintPreviewState) -> PrintPreviewState {
    PrintPreviewState { pending: None, ..s }
}

impl PrintPreviewState {
    pub fn open(document_id: DocumentId, generation: u64, page_count: u32, page_index: u32) -> (r:
        Self)
        requires
            page_count >= 1,
        ensures
            r.open,
            r.document_id == document_id,
            r.generation == generation,
            r.page_count == page_count,
            r.page_index == if page_index < page_count {
                page_index
            } else {
                (page_count - 1) as u32
            },
            r.orientation == 0,
            r.range@ == default_range_text(page_count),
            r.pending is None,
    {
        let last = page_count - 1;
        PrintPreviewState {
            open: true,
            document_id,
            generation,
            page_count,
            page_index: if page_index < last {
                page_index
            } else {
                last
            },
            orientation: 0,
            range: default_print_preview_range(page_count),
            pending: None,
        }
    }

    pub fn expect_render(&mut self, request_id: u64, page_index: u32)
        ensures
            *final(self) == (PrintPreviewState {
                pending: Some(PendingPreviewRender { request_id, page_index }),
                ..*old(self)
            }),
    {
        self.pending = Some(PendingPreviewRender { request_id, page_index });
    }

    /// Takes a finished render if it is the awaited one; it is then awaited no more.
    pub fn accept_render(
        &mut self,
        request_id: u64,
        document_id: DocumentId,
        generation: u64,
        page_index: u32,
    ) -> (r: bool)
        ensures
            r == preview_accepts(*old(self), request_id, document_id, generation, page_index),
            *final(self) == if r {
                without_pending(*old(self))
            } else {
                *old(self)
            },
    {
        let matches = self.open && self.document_id == document_id && self.generation == generation
            && match self.pending {
            Some(p) => p.request_id == request_id && p.page_index == page_index && self.page_index
                == page_index,
            None => false,
        };
        if matches {
            self.pending = None;
        }
        matches
    }

    pub fn close(&mut self)
        ensures
            *final(self) == (PrintPreviewState { open: false, pending: None, ..*old(self) }),
    {
        self.open = false;
        self.pending = None;
    }

    /// Shows the page the spin box asks for, within the document.
    pub fn set_page(&mut self, page: i32) -> (r: u32)
        ensures
            r == if page < 0 {
                0
            } else if page < old(self).page_count {
                page as u32
            } else if old(self).page_count == 0 {
                0
            } else {
                (old(self).page_count - 1) as u32
            },
            *final(self) == (PrintPreviewState { page_index: r, ..*old(self) }),
    {
        let maximum = self.page_count.saturating_sub(1);
        let page: u32 = if page < 0 {
            0
        } else {
            page as u32
        };
        let page = if page < maximum {
            page
        } else {
            maximum
        };
        self.page_index = page;
        page
    }

    /// After the document was laid out again: a preview of the active document follows
    /// the new generation and awaits no old render; a preview of another document is to
    /// close (the result says so).
    pub fn follow_generation(&mut self, active: Option<DocumentId>, generation: u64) -> (close: bool)
        ensures
            close == (old(self).open && active != Some(old(self).document_id)),
            *final(self) == if old(self).open && active == Some(old(self).document_id) {
                PrintPreviewState { generation, pending: None, ..*old(self) }
            } else {
                *old(self)
            },
    {
        if self.open && active == Some(self.document_id) {
            self.generation = generation;
            self.pending = None;
            false
        } else {
            self.open
        }
    }

    /// A render request that could not be sent is awaited no more.
    pub fn forget_request(&mut self, request_id: u64)
        ensures
            *final(self) == if old(self).pending matches Some(p) && p.request_id == request_id {
                without_pending(*old(self))
            } else {
                *old(self)
            },
    {
        match self.pending {
            Some(p) => if p.request_id == request_id {
                self.pending = None;
            },
            None => {},
        }
    }
    /// Takes the orientation choice while open, clamped to the three offered.
    pub fn set_orientation(&mut self, orientation: i32)
        ensures
            *final(self) == if old(self).open {
                PrintPreviewState {
                    orientation: if orientation < 0 {
                        0
                    } else if orientation > 2 {
                        2
                    } else {
                        orientation
                    },
                    ..*old(self)
                }
            } else {
                *old(self)
            },
    {
        if self.open {
            self.orientation = if orientation < 0 {
                0
            } else if orientation > 2 {
                2
            } else {
                orientation
            };
        }
    }

    /// Takes the page-range text while open.
    pub fn set_range(&mut self, range: String)
        ensures
            old(self).open ==> final(self).range@ == range@ && *final(self) == (PrintPreviewState {
                range: final(self).range,
                ..*old(self)
            }),
            !old(self).open ==> *final(self) == *old(self),
    {
        if self.open {
            self.range = range;
        }
    }
}

/// What confirming the print preview leads to.
#[derive(Debug, Clone, Copy, PartialEq, Eq, Structural)]
pub enum PrintPlan {
    /// The preview is closed; nothing happens.
    Nothing,
    /// The document changed under the preview: it closes.
    Close,
    /// The range text names no contiguous run of pages.
    BadRange,
    /// Print the 0-based pages `first..=last`.
    Print { first: u32, last: u32 },
}

/// Decides a print confirmation: the preview must still show the document on screen in
/// the current generation, and its range must read as one run of pages.
pub fn confirm_print_plan(
    preview: &PrintPreviewState,
    shown: Option<DocumentId>,
    current_generation: u64,
) -> (r: PrintPlan)
    requires
        preview.page_count >= 1,
    ensures
        !preview.open ==> r == PrintPlan::Nothing,
        preview.open && (shown != Some(preview.document_id) || preview.generation != current_generation)
            ==> r == PrintPlan::Close,
        preview.open && shown == Some(preview.document_id) && preview.generation == current_generation
            ==> match print_range_of(preview.range@, preview.page_count) {
            Some((f, l)) => r == PrintPlan::Print { first: f, last: l },
            None => r == PrintPlan::BadRange,
        },
{
    if !preview.open {
        return PrintPlan::Nothing;
    }
    let same = match shown {
        Some(d) => d == preview.document_id,
        None => false,
    };
    if !same || preview.generation != current_generation {
        return PrintPlan::Close;
    }
    match parse_print_preview_range(preview.range.as_str(), preview.page_count) {
        Some((first, last)) => PrintPlan::Print { first, last },
        None => PrintPlan::BadRange,
    }
}

/// What a finished render means to the print preview: `None` when it is not a preview
/// render, otherwise whether the open preview took it.
pub fn consume_print_preview_render(
    preview: &mut Option<PrintPreviewState>,
    request_id: u64,
    document_id: DocumentId,
    generation: u64,
    page_index: u32,
) -> (r: Option<bool>)
    ensures
        request_id & PRINT_PREVIEW_REQUEST_MASK == 0 ==> r is None && *final(preview) == *old(
            preview,
        ),
        request_id & PRINT_PREVIEW_REQUEST_MASK != 0 ==> match *old(preview) {
            None => r == Some(false) && *final(preview) is None,
            Some(s) => {
                let ok = preview_accepts(s, request_id, document_id, generation, page_index);
                &&& r == Some(ok)
                &&& *final(preview) == Some(
                    if ok {
                        without_pending(s)
                    } else {
                        s
                    },
                )
            },
        },
{
    if !is_print_preview_request(request_id) {
        return None;
    }
    match preview {
        Some(s) => Some(s.accept_render(request_id, document_id, generation, page_index)),
        None => Some(false),
    }
}

/// A preview takes each awaited render once: after it took one, the same render (and any
/// other) is refused until a new one is awaited.
pub proof fn lemma_render_taken_once(
    s: PrintPreviewState,
    request_id: u64,
    document_id: DocumentId,
    generation: u64,
    page_index: u32,
    r2: u64,
    d2: DocumentId,
    g2: u64,
    p2: u32,
)
    requires
        preview_accepts(s, request_id, document_id, generation, page_index),
    ensures
        !preview_accepts(without_pending(s), r2, d2, g2, p2),
{
}

/// A closed preview takes no render.
pub proof fn lemma_closed_preview_takes_nothing(
    s: PrintPreviewState,
    request_id: u64,
    document_id: DocumentId,
    generation: u64,
    page_index: u32,
)
    ensures
        !preview_accepts(
            PrintPreviewState { open: false, pending: None, ..s },
            request_id,
            document_id,
            generation,
            page_index,
        ),
{
}

/// Awaiting a newer render makes the older one stale.
pub proof fn lemma_newer_request_replaces_older(
    s: PrintPreviewState,
    older: u64,
    newer: u64,
    page: u32,
    document_id: DocumentId,
    generation: u64,
    page_index: u32,
)
    requires
        older != newer,
    ensures
        !preview_accepts(
            PrintPreviewState {
                pending: Some(PendingPreviewRender { request_id: newer, page_index: page }),
                ..s
            },
            older,
            document_id,
            generation,
            page_index,
        ),
{
}

} // verus!
