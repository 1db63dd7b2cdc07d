use vstd::prelude::*;

verus! {

/// What the print worker reports of a job.
#[derive(Debug, Clone, PartialEq, Eq)]
pub enum PrintEvent {
    Progress { job_id: u64, completed: u32, total: u32 },
    Finished { job_id: u64 },
    Cancelled { job_id: u64 },
    Failed { job_id: u64, message: String },
}

pub open spec fn print_event_job(e: PrintEvent) -> u64 {
    match e {
        PrintEvent::Progress { job_id, .. } => job_id,
        PrintEvent::Finished { job_id } => job_id,
        PrintEvent::Cancelled { job_id } => job_id,
        PrintEvent::Failed { job_id, .. } => job_id,
    }
}

impl PrintEvent {
    pub fn job_id(&self) -> (r: u64)
        ensures
            r == print_event_job(*self),
    {
        match self {
            PrintEvent::Progress { job_id, .. } => *job_id,
            PrintEvent::Finished { job_id } => *job_id,
            PrintEvent::Cancelled { job_id } => *job_id,
            PrintEvent::Failed { job_id, .. } => *job_id,
        }
    }

    /// Every event but progress ends its job.
    pub fn is_terminal(&self) -> (r: bool)
        ensures
            r == !(*self is Progress),
    {
        match self {
            PrintEvent::Progress { .. } => false,
            _ => true,
        }
    }
}

/// The highest printer resolution a page is rendered for.
pub const MAX_TARGET_DPI: u16 = 600;

/// The largest page bitmap a print job renders: 256 MiB.
pub const MAX_PRINT_BITMAP_BYTES: u64 = 268435456;

/// The number of pages a job prints: the pages of the range, once per copy; `None` when
/// the range runs backwards or the count does not fit in 32 bits.
pub open spec fn print_total(first: u32, last: u32, copies: u16) -> Option<u32> {
    if last < first || last - first + 1 > u32::MAX || (last - first + 1) * copies > u32::MAX {
        None
    } else {
        Some(((last - first + 1) * copies) as u32)
    }
}

pub fn print_total_pages(first: u32, last: u32, copies: u16) -> (r: Result<u32, &'static str>)
    ensures
        match print_total(first, last, copies) {
            Some(t) => r == Ok::<u32, &'static str>(t),
            None => r matches Err(m) && m@ == "print page count overflow"@,
        },
{
    let distance = match last.checked_sub(first) {
        Some(d) => d,
        None => return Err("print page count overflow"),
    };
    let pages_per_copy = match distance.checked_add(1) {
        Some(p) => p,
        None => return Err("print page count overflow"),
    };
    match pages_per_copy.checked_mul(copies as u32) {
        Some(t) => Ok(t),
        None => Err("print page count overflow"),
    }
}

/// A printer resolution the worker renders for.
pub fn target_dpi_is_valid(dpi: u16) -> (r: bool)
    ensures
        r == (1 <= dpi <= MAX_TARGET_DPI),
{
    dpi != 0 && dpi <= MAX_TARGET_DPI
}

/// Whether a page bitmap of `width` x `height` RGBA pixels stays within the page budget.
pub fn check_bitmap_size(width: u32, height: u32) -> (r: Result<(), &'static str>)
    ensures
        width * height * 4 > u64::MAX ==> (r matches Err(m) && m@ == "print bitmap size overflow"@),
        width * height * 4 <= u64::MAX && width * height * 4 > MAX_PRINT_BITMAP_BYTES ==> (r matches Err(
            m,
        ) && m@ == "print bitmap exceeds the 256 MiB page limit"@),
        width * height * 4 <= MAX_PRINT_BITMAP_BYTES ==> r is Ok,
{
    let w = width as u64;
    let h = height as u64;
    assert(w * h <= u64::MAX) by (nonlinear_arith)
        requires
            w <= u32::MAX,
            h <= u32::MAX,
    {
    }
    let pixels = w * h;
    let bytes = match pixels.checked_mul(4) {
        Some(b) => b,
        None => return Err("print bitmap size overflow"),
    };
    if bytes > MAX_PRINT_BITMAP_BYTES {
        return Err("print bitmap exceeds the 256 MiB page limit");
    }
    Ok(())
}

/// The bytes of an RGBA bitmap with red and blue swapped in each whole pixel, as the
/// Windows spooler wants them; a trailing partial pixel is left alone.
pub open spec fn bgra_of(p: Seq<u8>) -> Seq<u8> {
    Seq::new(
        p.len(),
        |i: int|
            if i < p.len() - p.len() % 4 && i % 4 == 0 {
                p[i + 2]
            } else if i < p.len() - p.len() % 4 && i % 4 == 2 {
                p[i - 2]
            } else {
                p[i]
            },
    )
}

pub fn rgba_to_bgra(pixels: &mut [u8])
    ensures
        final(pixels)@ == bgra_of(old(pixels)@),
{
    let n = pixels.len();
    let whole = n - n % 4;
    let mut i: usize = 0;
    while i < whole
        invariant
            n == pixels@.len() == old(pixels)@.len(),
            whole == n - n % 4,
            i <= whole,
            i % 4 == 0,
            forall|k: int| 0 <= k < i ==> #[trigger] pixels@[k] == bgra_of(old(pixels)@)[k],
            forall|k: int| i <= k < n ==> #[trigger] pixels@[k] == old(pixels)@[k],
        decreases whole - i,
    {
        let red = pixels[i];
        let blue = pixels[i + 2];
        pixels[i] = blue;
        pixels[i + 2] = red;
        assert forall|k: int| 0 <= k < i + 4 implies #[trigger] pixels@[k] == bgra_of(old(pixels)@)[k] by {
            if k >= i {
                assert(k - i < 4);
            }
        }
        i += 4;
    }
    assert(pixels@ =~= bgra_of(old(pixels)@));
}

/// Swapping red and blue twice gives the bitmap back.
pub proof fn lemma_bgra_twice(p: Seq<u8>)
    ensures
        bgra_of(bgra_of(p)) == p,
{
    assert(bgra_of(bgra_of(p)) =~= p);
}

} // verus!
