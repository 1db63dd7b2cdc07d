use vstd::prelude::*;

verus! {

/// The parts of an URI that the update policy reads.
pub struct UriParts {
    pub scheme: Option<String>,
    pub host: Option<String>,
    pub port: Option<u16>,
    pub query: Option<String>,
    pub path: String,
}

pub ghost struct UriView {
    pub scheme: Option<Seq<char>>,
    pub host: Option<Seq<char>>,
    pub port: Option<u16>,
    pub query: Option<Seq<char>>,
    pub path: Seq<char>,
}

pub open spec fn opt_text(o: Option<String>) -> Option<Seq<char>> {
    match o {
        Some(s) => Some(s@),
        None => None,
    }
}

impl View for UriParts {
    type V = UriView;

    open spec fn view(&self) -> UriView {
        UriView {
            scheme: opt_text(self.scheme),
            host: opt_text(self.host),
            port: self.port,
            query: opt_text(self.query),
            path: self.path@,
        }
    }
}

/// The parts that `http::Uri` parsing gives for `text`, or `None` where it rejects the text.
pub uninterp spec fn parsed_uri(text: Seq<char>) -> Option<UriView>;

/// Parses `text` with `http::Uri`'s `FromStr` (as re-exported by `ureq`) and reads the
/// scheme, host, port, query and path of the result. The contract claims only that the
/// outcome is a function of the text alone, named `parsed_uri`.
#[verifier::external_body]
pub(crate) fn parse_uri(text: &str) -> (r: Option<UriParts>)
    ensures
        r is Some <==> parsed_uri(text@) is Some,
        r matches Some(p) ==> parsed_uri(text@) == Some(p@),
{
    match text.parse::<ureq::http::Uri>() {
        Ok(uri) => Some(UriParts {
            scheme: uri.scheme_str().map(str::to_owned),
            host: uri.host().map(str::to_owned),
            port: uri.port_u16(),
            query: uri.query().map(str::to_owned),
            path: uri.path().to_owned(),
        }),
        Err(_) => None,
    }
}

/// Whether `o` holds exactly the text `t`.
pub fn opt_is(o: &Option<String>, t: &str) -> (r: bool)
    ensures
        r == (opt_text(*o) == Some(t@)),
{
    match o {
        Some(s) => crate::text::same_text(s.as_str(), t),
        None => false,
    }
}

} // verus!
