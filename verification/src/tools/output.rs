use vstd::prelude::*;
use crate::text::{chars_of, decimal, push_decimal, same_chars, trim_chars, trimmed};
use crate::tools::job::ToolFailure;

verus! {

/// What `Path::join` makes of a directory and a name.
pub uninterp spec fn joined_path(parent: Seq<char>, name: Seq<char>) -> Seq<char>;

/// What `Path::parent` gives for a path.
pub uninterp spec fn parent_of(path: Seq<char>) -> Option<Seq<char>>;

/// Calls `Path::join`; its result is named, not restated.
#[verifier::external_body]
fn join_path(parent: &str, name: &str) -> (r: String)
    ensures
        r@ == joined_path(parent@, name@),
{
    std::path::Path::new(parent).join(name).to_string_lossy().into_owned()
}

/// Calls `Path::parent`; its result is named, not restated.
#[verifier::external_body]
fn path_parent(path: &str) -> (r: Option<String>)
    ensures
        match (r, parent_of(path@)) {
            (Some(p), Some(q)) => p@ == q,
            (None, None) => true,
            _ => false,
        },
{
    std::path::Path::new(path).parent().map(|p| p.to_string_lossy().into_owned())
}

/// Calls `Path::exists`, which looks at the file system: nothing is claimed of it.
#[verifier::external_body]
fn path_exists(path: &str) -> bool {
    std::path::Path::new(path).exists()
}

/// The directory a file is staged in: its parent, or the current directory.
pub fn parent_directory(path: &str) -> (r: String)
    ensures
        r@ == match parent_of(path@) {
            Some(p) => p,
            None => "."@,
        },
{
    match path_parent(path) {
        Some(p) => p,
        None => ".".to_string(),
    }
}

/// How many names a split may try for its output directory.
pub const MAX_SPLIT_DIRECTORY_ATTEMPTS: u32 = 10000;

/// The name of the `attempt`-th candidate directory for the pages of `base_name`.
pub open spec fn split_dir_name(base_name: Seq<char>, attempt: u32) -> Seq<char> {
    if attempt == 1 {
        base_name + "_pages"@
    } else {
        base_name + "_pages_"@ + decimal(attempt as nat)
    }
}

fn split_dir_candidate(base_name: &str, attempt: u32) -> (r: String)
    ensures
        r@ == split_dir_name(base_name@, attempt),
{
    let mut s = base_name.to_string();
    if attempt == 1 {
        s.append("_pages");
    } else {
        s.append("_pages_");
        push_decimal(&mut s, attempt as u128);
    }
    s
}

/// What a split does with a candidate directory once the disk has answered whether it
/// exists.
#[derive(Debug, Clone, Copy, PartialEq, Eq, Structural)]
pub enum SplitStep {
    /// The candidate is free: use it.
    Use,
    /// The candidate is taken: try the candidate of this attempt.
    Next(u32),
    /// The last candidate is taken too: give up.
    GiveUp,
}

/// The choice among the candidate directories: the first that does not exist, in order,
/// giving up once the last attempt is taken.
pub fn split_dir_step(attempt: u32, exists: bool) -> (r: SplitStep)
    requires
        1 <= attempt <= MAX_SPLIT_DIRECTORY_ATTEMPTS,
    ensures
        !exists ==> r == SplitStep::Use,
        exists && attempt < MAX_SPLIT_DIRECTORY_ATTEMPTS ==> r == SplitStep::Next(
            (attempt + 1) as u32,
        ),
        exists && attempt == MAX_SPLIT_DIRECTORY_ATTEMPTS ==> r == SplitStep::GiveUp,
{
    if !exists {
        SplitStep::Use
    } else if attempt < MAX_SPLIT_DIRECTORY_ATTEMPTS {
        SplitStep::Next(attempt + 1)
    } else {
        SplitStep::GiveUp
    }
}

/// A directory for the pages of a split that does not exist yet: the first free one of
/// `<base>_pages`, `<base>_pages_2`, ... up to the last attempt, as `split_dir_step`
/// decides from what the disk answers for each. Which one is free depends on the disk;
/// whichever comes back is one of those names under `parent`.
pub fn unique_output_directory(parent: &str, base_name: &str) -> (r: Result<String, ToolFailure>)
    ensures
        r matches Ok(p) ==> exists|k: u32|
            1 <= k <= MAX_SPLIT_DIRECTORY_ATTEMPTS && p@ == #[trigger] joined_path(
                parent@,
                split_dir_name(base_name@, k),
            ),
        r matches Err(e) ==> e matches ToolFailure::Failed(m) && m@
            == "could not allocate a unique split output directory"@,
{
    let mut attempt: u32 = 1;
    loop
        invariant
            1 <= attempt <= MAX_SPLIT_DIRECTORY_ATTEMPTS,
        decreases MAX_SPLIT_DIRECTORY_ATTEMPTS - attempt,
    {
        let name = split_dir_candidate(base_name, attempt);
        let candidate = join_path(parent, name.as_str());
        match split_dir_step(attempt, path_exists(candidate.as_str())) {
            SplitStep::Use => return Ok(candidate),
            SplitStep::Next(next) => attempt = next,
            SplitStep::GiveUp => {
                return Err(
                    ToolFailure::Failed(
                        "could not allocate a unique split output directory".to_string(),
                    ),
                )
            },
        }
    }
}

/// A page range that asks for every page: blank, `all` or `*`.
pub open spec fn means_all_pages(range: Seq<char>) -> bool {
    let t = trimmed(range);
    t.len() == 0 || t == "all"@ || t == "*"@
}

/// Every page (0-based) when the range asks for all of them; other ranges are left to the
/// page-range parser.
pub fn pages_or_all(range: &str, page_count: u32) -> (r: Option<Vec<u32>>)
    ensures
        means_all_pages(range@) ==> (r matches Some(v) && v@ == Seq::new(
            page_count as nat,
            |i: int| i as u32,
        )),
        !means_all_pages(range@) ==> r is None,
{
    let t = trim_chars(chars_of(range).as_slice());
    let all = chars_of("all");
    let star = chars_of("*");
    if t.len() == 0 || same_chars(t.as_slice(), all.as_slice()) || same_chars(
        t.as_slice(),
        star.as_slice(),
    ) {
        let mut pages: Vec<u32> = Vec::new();
        let mut i: u32 = 0;
        while i < page_count
            invariant
                i <= page_count,
                pages@ == Seq::new(i as nat, |k: int| k as u32),
            decreases page_count - i,
        {
            pages.push(i);
            assert(pages@ =~= Seq::new((i + 1) as nat, |k: int| k as u32));
            i += 1;
        }
        Some(pages)
    } else {
        None
    }
}

} // verus!
