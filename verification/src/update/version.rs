use vstd::prelude::*;

verus! {

#[verifier::external_type_specification]
#[verifier::external_body]
pub struct ExSemverVersion(semver::Version);

/// A parsed semantic version, with the fields the update policy reads.
#[derive(Debug)]
pub struct SemVer {
    inner: semver::Version,
    major: u64,
    minor: u64,
    patch: u64,
    pre: String,
    build: String,
}

pub ghost struct SemVerView {
    pub major: u64,
    pub minor: u64,
    pub patch: u64,
    pub pre: Seq<char>,
    pub build: Seq<char>,
}

impl View for SemVer {
    type V = SemVerView;

    closed spec fn view(&self) -> SemVerView {
        SemVerView {
            major: self.major,
            minor: self.minor,
            patch: self.patch,
            pre: self.pre@,
            build: self.build@,
        }
    }
}

impl SemVerView {
    /// A release without pre-release or build metadata.
    pub open spec fn is_stable(self) -> bool {
        self.pre.len() == 0 && self.build.len() == 0
    }
}

/// What `semver::Version::parse` makes of `text`: `None` where it rejects the text.
pub uninterp spec fn parsed_semver(text: Seq<char>) -> Option<SemVerView>;

/// `<=` between two versions as `semver::Version`'s derived `Ord` orders them.
pub uninterp spec fn semver_at_most(a: SemVerView, b: SemVerView) -> bool;

/// Calls `semver::Version::parse`. The contract claims that success and the parsed fields
/// are a function of the text alone (`parsed_semver`), and that the fields are those of the
/// parsed version.
#[verifier::external_body]
pub(crate) fn parse_semver(text: &str) -> (r: Result<SemVer, semver::Error>)
    ensures
        r is Ok <==> parsed_semver(text@) is Some,
        r matches Ok(v) ==> parsed_semver(text@) == Some(v@),
{
    match semver::Version::parse(text) {
        Ok(v) => Ok(SemVer {
            major: v.major,
            minor: v.minor,
            patch: v.patch,
            pre: v.pre.as_str().to_owned(),
            build: v.build.as_str().to_owned(),
            inner: v,
        }),
        Err(e) => Err(e),
    }
}

/// `(major, minor, patch)` of `a` comes no later than that of `b`, compared in that order.
pub open spec fn release_triple_at_most(a: SemVerView, b: SemVerView) -> bool {
    a.major < b.major || (a.major == b.major && (a.minor < b.minor || (a.minor == b.minor
        && a.patch <= b.patch)))
}

/// Compares two parsed versions with `semver::Version`'s `<=`; the result is named
/// `semver_at_most` of the two views. The derived order compares major, minor and patch
/// first, then the pre-release and build parts, which are equal (empty) for two stable
/// versions; so between stable versions it is the order of `(major, minor, patch)`.
#[verifier::external_body]
pub(crate) fn version_at_most(a: &SemVer, b: &SemVer) -> (r: bool)
    ensures
        r == semver_at_most(a@, b@),
        a@.is_stable() && b@.is_stable() ==> r == release_triple_at_most(a@, b@),
{
    a.inner <= b.inner
}

impl SemVer {
    /// Parses `text` as a semantic version, as `semver::Version::parse` does.
    pub fn parse(text: &str) -> (r: Result<SemVer, semver::Error>)
        ensures
            r is Ok <==> parsed_semver(text@) is Some,
            r matches Ok(v) ==> parsed_semver(text@) == Some(v@),
    {
        parse_semver(text)
    }

    pub fn major(&self) -> (r: u64)
        ensures
            r == self@.major,
    {
        self.major
    }

    pub fn minor(&self) -> (r: u64)
        ensures
            r == self@.minor,
    {
        self.minor
    }

    pub fn patch(&self) -> (r: u64)
        ensures
            r == self@.patch,
    {
        self.patch
    }

    pub fn has_pre(&self) -> (r: bool)
        ensures
            r == (self@.pre.len() > 0),
    {
        !self.pre.as_str().is_empty()
    }

    pub fn has_build(&self) -> (r: bool)
        ensures
            r == (self@.build.len() > 0),
    {
        !self.build.as_str().is_empty()
    }
}

} // verus!
