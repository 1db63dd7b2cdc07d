use vstd::prelude::*;
use crate::text::{chars_of, eq_ignore_ascii_case, eq_ignore_ascii_case_chars};

verus! {

/// What std's `Path::extension` (read as UTF-8 text) gives for a path: the text after the
/// last dot of its file name, by the platform's path rules.
pub uninterp spec fn path_extension(path: Seq<char>) -> Option<Seq<char>>;

/// Calls std's `Path::extension` and `OsStr::to_str` on `path`; the result is named
/// `path_extension`.
#[verifier::external_body]
fn extension_of(path: &str) -> (r: Option<String>)
    ensures
        match r {
            Some(e) => path_extension(path@) == Some(e@),
            None => path_extension(path@) is None,
        },
{
    std::path::Path::new(path).extension().and_then(|e| e.to_str()).map(str::to_owned)
}

/// A path names a PDF file: its extension is `pdf` in any ASCII case.
pub open spec fn is_pdf(path: Seq<char>) -> bool {
    path_extension(path) matches Some(e) && eq_ignore_ascii_case(e, "pdf"@)
}

/// Whether `path` names a PDF file by its extension.
pub fn is_pdf_path(path: &str) -> (r: bool)
    ensures
        r == is_pdf(path@),
{
    match extension_of(path) {
        Some(e) => {
            let pdf = chars_of("pdf");
            eq_ignore_ascii_case_chars(chars_of(e.as_str()).as_slice(), pdf.as_slice())
        },
        None => false,
    }
}

} // verus!
