use vstd::prelude::*;
use crate::printing::job::{print_total, print_total_pages, target_dpi_is_valid, MAX_TARGET_DPI};

verus! {

/// Why a print job cannot start.
#[derive(Debug, Clone, Copy, PartialEq, Eq)]
pub enum PrintRunError {
    /// The pages of the range, once per copy, do not fit in 32 bits (or the range runs
    /// backwards).
    PageCountOverflow,
    /// The printer asks for a resolution outside `1..=MAX_TARGET_DPI`.
    InvalidDpi(u16),
}

/// What the worker does next.
#[derive(Debug, Clone, Copy, PartialEq, Eq)]
pub enum PrintAction {
    /// Render the 0-based page and hand it to the printer.
    RenderPage(u32),
    /// Every page of every copy is written: close the document at the printer.
    Finish,
    /// The job was cancelled: stop at this page boundary.
    Cancel,
}

/// A progress report: pages written so far, of all the job's pages.
#[derive(Debug, Clone, Copy, PartialEq, Eq)]
pub struct PrintProgress {
    pub completed: u32,
    pub total: u32,
}

/// Where a print job stands: each copy prints the range `first ..= last` in order, and the
/// copies follow one another.
pub struct PrintRun {
    first: u32,
    pages_per_copy: u32,
    copies: u16,
    copy: u16,
    offset: u32,
    completed: u32,
    total: u32,
}

/// A print run as numbers: the first page, the pages of one copy, the copies, the pages
/// written so far and the pages of the whole job.
pub struct PrintRunView {
    pub first: u32,
    pub pages_per_copy: u32,
    pub copies: u16,
    pub done: nat,
    pub total: u32,
}

impl View for PrintRun {
    type V = PrintRunView;

    closed spec fn view(&self) -> PrintRunView {
        PrintRunView {
            first: self.first,
            pages_per_copy: self.pages_per_copy,
            copies: self.copies,
            done: self.completed as nat,
            total: self.total,
        }
    }
}

/// The page a run writes as its `k`-th (0-based): the range again for each copy.
pub open spec fn page_at(v: PrintRunView, k: int) -> int {
    v.first + k % (v.pages_per_copy as int)
}

impl PrintRun {
    /// The counters agree: the pages written are the whole copies done plus the pages of
    /// the current copy, and the job's pages are every page of every copy.
    pub closed spec fn wf(&self) -> bool {
        &&& self.pages_per_copy >= 1
        &&& self.first + self.pages_per_copy - 1 <= u32::MAX
        &&& self.total == self.pages_per_copy * self.copies
        &&& self.copy <= self.copies
        &&& self.offset < self.pages_per_copy
        &&& self.copy == self.copies ==> self.offset == 0
        &&& self.completed == self.copy * self.pages_per_copy + self.offset
    }

    /// Starts a job that prints `first ..= last` (0-based, already checked against the
    /// document) `copies` times at `dpi`: fails when the page count overflows, then when
    /// the resolution is not one the worker renders for.
    pub fn start(first: u32, last: u32, copies: u16, dpi: u16) -> (r: Result<PrintRun, PrintRunError>)
        ensures
            match r {
                Ok(run) => {
                    &&& print_total(first, last, copies) is Some
                    &&& 1 <= dpi <= MAX_TARGET_DPI
                    &&& run.wf()
                    &&& run@ == (PrintRunView {
                        first,
                        pages_per_copy: (last - first + 1) as u32,
                        copies,
                        done: 0,
                        total: print_total(first, last, copies)->0,
                    })
                },
                Err(PrintRunError::PageCountOverflow) => print_total(first, last, copies) is None,
                Err(PrintRunError::InvalidDpi(d)) => {
                    &&& print_total(first, last, copies) is Some
                    &&& d == dpi
                    &&& !(1 <= dpi <= MAX_TARGET_DPI)
                },
            },
    {
        let total = match print_total_pages(first, last, copies) {
            Ok(t) => t,
            Err(_) => return Err(PrintRunError::PageCountOverflow),
        };
        if !target_dpi_is_valid(dpi) {
            return Err(PrintRunError::InvalidDpi(dpi));
        }
        let pages_per_copy = last - first + 1;
        let run = PrintRun { first, pages_per_copy, copies, copy: 0, offset: 0, completed: 0, total };
        assert(0 * (pages_per_copy as int) == 0) by (nonlinear_arith);
        Ok(run)
    }

    /// The pages written so far and the pages of the whole job.
    pub fn progress(&self) -> (r: PrintProgress)
        ensures
            r.completed == self@.done,
            r.total == self@.total,
    {
        PrintProgress { completed: self.completed, total: self.total }
    }

    /// What to do at this page boundary, given whether the job was cancelled: a cancel
    /// stops the job; otherwise the next page of the range is rendered, or the job
    /// finishes when every copy is written.
    pub fn next_action(&self, cancelled: bool) -> (r: PrintAction)
        requires
            self.wf(),
        ensures
            self@.done <= self@.total,
            cancelled ==> r == PrintAction::Cancel,
            !cancelled && self@.done == self@.total ==> r == PrintAction::Finish,
            !cancelled && self@.done < self@.total ==> r == PrintAction::RenderPage(
                page_at(self@, self@.done as int) as u32,
            ),
    {
        proof {
            self.lemma_position();
        }
        if cancelled {
            PrintAction::Cancel
        } else if self.copy == self.copies {
            PrintAction::Finish
        } else {
            PrintAction::RenderPage(self.first + self.offset)
        }
    }

    /// Where the run stands, in whole copies and pages of the current copy.
    proof fn lemma_position(&self)
        requires
            self.wf(),
        ensures
            self.completed <= self.total,
            (self.completed == self.total) == (self.copy == self.copies),
            self.copy < self.copies ==> self.offset == (self.completed as int) % (self.pages_per_copy as int),
    {
        let p = self.pages_per_copy as int;
        let c = self.copy as int;
        let n = self.copies as int;
        let o = self.offset as int;
        assert(p * n == n * p) by (nonlinear_arith);
        if c < n {
            assert((c + 1) * p <= n * p) by (nonlinear_arith)
                requires
                    c + 1 <= n,
                    p >= 1,
            ;
            assert(c * p + p == (c + 1) * p) by (nonlinear_arith);
            vstd::arithmetic::div_mod::lemma_fundamental_div_mod_converse(
                self.completed as int,
                p,
                c,
                o,
            );
        } else {
            assert(c * p == n * p);
        }
    }

    /// Records that the page `next_action` asked for was written, and answers the progress
    /// to report.
    pub fn page_written(&mut self) -> (r: PrintProgress)
        requires
            old(self).wf(),
            old(self)@.done < old(self)@.total,
        ensures
            final(self).wf(),
            final(self)@ == (PrintRunView { done: old(self)@.done + 1, ..old(self)@ }),
            r == (PrintProgress { completed: (old(self)@.done + 1) as u32, total: old(self)@.total }),
    {
        proof {
            self.lemma_position();
        }
        let ghost c = self.copy as int;
        let ghost p = self.pages_per_copy as int;
        self.completed = self.completed + 1;
        if self.offset + 1 == self.pages_per_copy {
            self.offset = 0;
            self.copy = self.copy + 1;
            assert(c * p + p == (c + 1) * p) by (nonlinear_arith);
        } else {
            self.offset = self.offset + 1;
        }
        PrintProgress { completed: self.completed, total: self.total }
    }
}

/// Every page a run renders lies in its range, and copy `c` renders the range in order:
/// its `j`-th page is `first + j`.
pub proof fn lemma_copies_print_the_range_in_order(v: PrintRunView, c: int, j: int)
    requires
        v.pages_per_copy >= 1,
        0 <= c,
        0 <= j < v.pages_per_copy,
    ensures
        page_at(v, c * v.pages_per_copy + j) == v.first + j,
        v.first <= page_at(v, c * v.pages_per_copy + j) < v.first + v.pages_per_copy,
{
    vstd::arithmetic::div_mod::lemma_fundamental_div_mod_converse(
        c * v.pages_per_copy + j,
        v.pages_per_copy as int,
        c,
        j,
    );
}

} // verus!
