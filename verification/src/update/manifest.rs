use vstd::prelude::*;
use crate::text::{push_text, chars_of, string_of};
use crate::update::failure::UpdateFailure;
use crate::update::uri::{parse_uri, parsed_uri, opt_is, UriView};
use crate::update::version::{parse_semver, parsed_semver, release_triple_at_most, semver_at_most, version_at_most, SemVer, SemVerView};

verus! {

/// Largest installer the updater accepts (256 MiB).
pub const MAX_INSTALLER_BYTES: u64 = 268435456;

/// Where the signed update metadata of the latest release is published.
pub const METADATA_URL: &'static str = "https://github.com/Woffluon/BarePDF/releases/latest/download/latest.json";

/// Where the detached signature of that metadata is published.
pub const METADATA_SIGNATURE_URL: &'static str =
    "https://github.com/Woffluon/BarePDF/releases/latest/download/latest.json.sig";

/// The `installer` object of the signed update metadata.
pub struct InstallerManifest {
    pub url: String,
    pub sha256: String,
    pub size: u64,
}

/// The signed update metadata, as its JSON fields read.
pub struct UpdateManifest {
    pub schema_version: u32,
    pub version: String,
    pub release_url: String,
    pub release_notes: String,
    pub installer: InstallerManifest,
}

pub ghost struct UpdateManifestView {
    pub schema_version: u32,
    pub version: Seq<char>,
    pub release_url: Seq<char>,
    pub release_notes: Seq<char>,
    pub installer_url: Seq<char>,
    pub installer_sha256: Seq<char>,
    pub installer_size: u64,
}

impl View for UpdateManifest {
    type V = UpdateManifestView;

    open spec fn view(&self) -> UpdateManifestView {
        UpdateManifestView {
            schema_version: self.schema_version,
            version: self.version@,
            release_url: self.release_url@,
            release_notes: self.release_notes@,
            installer_url: self.installer.url@,
            installer_sha256: self.installer.sha256@,
            installer_size: self.installer.size,
        }
    }
}

/// An update whose metadata passed every check of the stable channel.
#[derive(Debug, PartialEq, Eq)]
pub struct VerifiedUpdate {
    version: String,
    release_url: String,
    release_notes: String,
    installer_url: String,
    installer_sha256: String,
    installer_size: u64,
}

pub ghost struct VerifiedUpdateView {
    pub version: Seq<char>,
    pub release_url: Seq<char>,
    pub release_notes: Seq<char>,
    pub installer_url: Seq<char>,
    pub installer_sha256: Seq<char>,
    pub installer_size: u64,
}

impl View for VerifiedUpdate {
    type V = VerifiedUpdateView;

    closed spec fn view(&self) -> VerifiedUpdateView {
        VerifiedUpdateView {
            version: self.version@,
            release_url: self.release_url@,
            release_notes: self.release_notes@,
            installer_url: self.installer_url@,
            installer_sha256: self.installer_sha256@,
            installer_size: self.installer_size,
        }
    }
}

impl Clone for VerifiedUpdate {
    fn clone(&self) -> (r: Self)
        ensures
            r@ == self@,
    {
        VerifiedUpdate {
            version: self.version.clone(),
            release_url: self.release_url.clone(),
            release_notes: self.release_notes.clone(),
            installer_url: self.installer_url.clone(),
            installer_sha256: self.installer_sha256.clone(),
            installer_size: self.installer_size,
        }
    }
}

impl VerifiedUpdate {
    pub fn version(&self) -> (r: &str)
        ensures
            r@ == self@.version,
    {
        self.version.as_str()
    }

    pub fn release_url(&self) -> (r: &str)
        ensures
            r@ == self@.release_url,
    {
        self.release_url.as_str()
    }

    pub fn release_notes(&self) -> (r: &str)
        ensures
            r@ == self@.release_notes,
    {
        self.release_notes.as_str()
    }

    pub fn installer_url(&self) -> (r: &str)
        ensures
            r@ == self@.installer_url,
    {
        self.installer_url.as_str()
    }

    pub fn installer_sha256(&self) -> (r: &str)
        ensures
            r@ == self@.installer_sha256,
    {
        self.installer_sha256.as_str()
    }

    pub fn installer_size(&self) -> (r: u64)
        ensures
            r == self@.installer_size,
    {
        self.installer_size
    }

    /// The update that the stable metadata of `manifest` describes, with its hash given.
    fn from_manifest(manifest: UpdateManifest, installer_sha256: String) -> (r: Self)
        ensures
            r@ == (VerifiedUpdateView {
                version: manifest@.version,
                release_url: manifest@.release_url,
                release_notes: manifest@.release_notes,
                installer_url: manifest@.installer_url,
                installer_sha256: installer_sha256@,
                installer_size: manifest@.installer_size,
            }),
    {
        VerifiedUpdate {
            version: manifest.version,
            release_url: manifest.release_url,
            release_notes: manifest.release_notes,
            installer_url: manifest.installer.url,
            installer_sha256,
            installer_size: manifest.installer.size,
        }
    }

    /// An update for `version` with the canonical release and installer URLs.
    pub fn for_test(version: &str, installer_sha256: String, installer_size: u64) -> (r: Self)
        ensures
            r@ == (VerifiedUpdateView {
                version: version@,
                release_url: "https://github.com"@ + release_path(version@),
                release_notes: Seq::empty(),
                installer_url: "https://github.com"@ + installer_path(version@),
                installer_sha256: installer_sha256@,
                installer_size: installer_size,
            }),
    {
        let mut release_url = "https://github.com".to_owned();
        let path = release_path_text(version);
        push_text(&mut release_url, path.as_str());
        let mut installer_url = "https://github.com".to_owned();
        let path = installer_path_text(version);
        push_text(&mut installer_url, path.as_str());
        VerifiedUpdate {
            version: version.to_owned(),
            release_url,
            release_notes: String::new(),
            installer_url,
            installer_sha256,
            installer_size,
        }
    }
}

/// The only path a release page of `version` may have.
pub open spec fn release_path(version: Seq<char>) -> Seq<char> {
    "/Woffluon/BarePDF/releases/tag/v"@ + version
}

/// The only path the installer of `version` may have.
pub open spec fn installer_path(version: Seq<char>) -> Seq<char> {
    "/Woffluon/BarePDF/releases/download/v"@ + version + "/BarePDF-Setup-x64-v"@ + version
        + ".exe"@
}

pub fn release_path_text(version: &str) -> (r: String)
    ensures
        r@ == release_path(version@),
{
    let mut s = "/Woffluon/BarePDF/releases/tag/v".to_owned();
    push_text(&mut s, version);
    s
}

pub fn installer_path_text(version: &str) -> (r: String)
    ensures
        r@ == installer_path(version@),
{
    let mut s = "/Woffluon/BarePDF/releases/download/v".to_owned();
    push_text(&mut s, version);
    push_text(&mut s, "/BarePDF-Setup-x64-v");
    push_text(&mut s, version);
    push_text(&mut s, ".exe");
    s
}

/// An https URL on github.com, without port or query, whose path is `expected`.
pub open spec fn is_github_url(u: UriView, expected: Seq<char>) -> bool {
    &&& u.scheme == Some("https"@)
    &&& u.host == Some("github.com"@)
    &&& u.port is None
    &&& u.query is None
    &&& u.path == expected
}

/// The rejection message for `url` against the release path `expected`, or `None` when it is approved.
pub open spec fn github_url_rejection(url: Seq<char>, expected: Seq<char>) -> Option<Seq<char>> {
    match parsed_uri(url) {
        None => Some("Invalid HTTPS URL"@),
        Some(u) => if is_github_url(u, expected) {
            None
        } else {
            Some("Update URL is not an approved BarePDF release URL"@)
        },
    }
}

/// The result `r` is the rejection with message `msg`.
pub open spec fn rejects_with<T>(r: Result<T, UpdateFailure>, msg: Seq<char>) -> bool {
    r matches Err(UpdateFailure::Rejected(m)) && m@ == msg
}

/// The outcome `r` is success exactly where `rejection` is `None`, and otherwise that rejection.
pub open spec fn follows_rejection(r: Result<(), UpdateFailure>, rejection: Option<Seq<char>>) -> bool {
    match rejection {
        None => r is Ok,
        Some(msg) => rejects_with(r, msg),
    }
}

pub fn validate_github_url(url: &str, expected_path: &str) -> (r: Result<(), UpdateFailure>)
    ensures
        follows_rejection(r, github_url_rejection(url@, expected_path@)),
{
    let parts = match parse_uri(url) {
        Some(parts) => parts,
        None => return Err(UpdateFailure::Rejected("Invalid HTTPS URL")),
    };
    if !opt_is(&parts.scheme, "https") || !opt_is(&parts.host, "github.com") || parts.port.is_some()
        || parts.query.is_some() || !crate::text::same_text(parts.path.as_str(), expected_path) {
        return Err(UpdateFailure::Rejected("Update URL is not an approved BarePDF release URL"));
    }
    Ok(())
}

pub fn validate_installer_url(url: &str, version: &str) -> (r: Result<(), UpdateFailure>)
    ensures
        follows_rejection(r, github_url_rejection(url@, installer_path(version@))),
{
    let expected = installer_path_text(version);
    validate_github_url(url, expected.as_str())
}

pub fn validate_release_url(url: &str, version: &str) -> (r: Result<(), UpdateFailure>)
    ensures
        follows_rejection(r, github_url_rejection(url@, release_path(version@))),
{
    let expected = release_path_text(version);
    validate_github_url(url, expected.as_str())
}

/// The rejection of a version that the Windows file version cannot hold, if any.
pub open spec fn file_version_rejection(v: SemVerView) -> Option<Seq<char>> {
    if !v.is_stable() {
        Some("Windows installer version must be a stable semantic version"@)
    } else if v.major > u16::MAX {
        Some("Release major version exceeds Windows limits"@)
    } else if v.minor > u16::MAX {
        Some("Release minor version exceeds Windows limits"@)
    } else if v.patch > u16::MAX {
        Some("Release patch version exceeds Windows limits"@)
    } else {
        None
    }
}

/// The four-part Windows file version that installer `version` must carry.
pub fn expected_file_version(version: &SemVer) -> (r: Result<[u16; 4], UpdateFailure>)
    ensures
        match file_version_rejection(version@) {
            None => r matches Ok(a) && a@ == seq![
                version@.major as u16,
                version@.minor as u16,
                version@.patch as u16,
                0u16,
            ],
            Some(msg) => rejects_with(r, msg),
        },
{
    if version.has_pre() || version.has_build() {
        return Err(
            UpdateFailure::Rejected("Windows installer version must be a stable semantic version"),
        );
    }
    if version.major() > 65535 {
        return Err(UpdateFailure::Rejected("Release major version exceeds Windows limits"));
    }
    if version.minor() > 65535 {
        return Err(UpdateFailure::Rejected("Release minor version exceeds Windows limits"));
    }
    if version.patch() > 65535 {
        return Err(UpdateFailure::Rejected("Release patch version exceeds Windows limits"));
    }
    let a = [version.major() as u16, version.minor() as u16, version.patch() as u16, 0u16];
    assert(a@ =~= seq![version@.major as u16, version@.minor as u16, version@.patch as u16, 0u16]);
    Ok(a)
}

/// Whether an installer whose file metadata carries the Windows file version `actual` is
/// the release `version` the signed metadata names: the version must parse, fit a Windows
/// file version, and be exactly `[major, minor, patch, 0]`.
pub fn check_installer_version(version: &str, actual: [u16; 4]) -> (r: Result<(), UpdateFailure>)
    ensures
        match parsed_semver(version@) {
            None => r matches Err(UpdateFailure::Version { operation, .. }) && operation@
                == "Invalid release version"@,
            Some(v) => match file_version_rejection(v) {
                Some(msg) => rejects_with(r, msg),
                None => if actual@ == seq![v.major as u16, v.minor as u16, v.patch as u16, 0u16] {
                    r is Ok
                } else {
                    rejects_with(r, "Downloaded installer version does not match update metadata"@)
                },
            },
        },
{
    let parsed = match parse_semver(version) {
        Ok(v) => v,
        Err(source) => return Err(
            UpdateFailure::Version { operation: "Invalid release version", source },
        ),
    };
    let expected = match expected_file_version(&parsed) {
        Ok(e) => e,
        Err(e) => return Err(e),
    };
    if actual[0] != expected[0] || actual[1] != expected[1] || actual[2] != expected[2]
        || actual[3] != expected[3] {
        proof {
            assert(actual@ != expected@);
        }
        return Err(
            UpdateFailure::Rejected("Downloaded installer version does not match update metadata"),
        );
    }
    assert(actual@ =~= expected@);
    Ok(())
}

/// `c` with ASCII capitals made small, as `to_ascii_lowercase` does.
pub open spec fn ascii_lower(c: char) -> char {
    if 'A' <= c && c <= 'Z' {
        ((c as int) + 32) as char
    } else {
        c
    }
}

pub open spec fn ascii_lowercase(s: Seq<char>) -> Seq<char> {
    s.map_values(|c: char| ascii_lower(c))
}

pub open spec fn is_hex_digit(c: char) -> bool {
    ('0' <= c && c <= '9') || ('a' <= c && c <= 'f') || ('A' <= c && c <= 'F')
}

/// Exactly 64 hexadecimal digits.
pub open spec fn is_sha256_hex(s: Seq<char>) -> bool {
    s.len() == 64 && forall|i: int| 0 <= i < s.len() ==> is_hex_digit(#[trigger] s[i])
}

fn lower_char(c: char) -> (r: char)
    ensures
        r == ascii_lower(c),
{
    if 'A' <= c && c <= 'Z' {
        ((c as u32) + 32) as u8 as char
    } else {
        c
    }
}

/// `str::to_ascii_lowercase`.
pub fn to_ascii_lowercase(s: &str) -> (r: String)
    ensures
        r@ == ascii_lowercase(s@),
{
    let cs = chars_of(s);
    let mut out: Vec<char> = Vec::new();
    let mut i: usize = 0;
    while i < cs.len()
        invariant
            i <= cs.len(),
            cs@ == s@,
            out@ == ascii_lowercase(s@).take(i as int),
        decreases cs.len() - i,
    {
        out.push(lower_char(cs[i]));
        assert(out@ =~= ascii_lowercase(s@).take(i + 1));
        i += 1;
    }
    assert(out@ =~= ascii_lowercase(s@));
    string_of(out.as_slice())
}

fn hex_digit_char(c: char) -> (r: bool)
    ensures
        r == is_hex_digit(c),
{
    ('0' <= c && c <= '9') || ('a' <= c && c <= 'f') || ('A' <= c && c <= 'F')
}

pub fn is_sha256_text(s: &str) -> (r: bool)
    ensures
        r == is_sha256_hex(s@),
{
    let cs = chars_of(s);
    if cs.len() != 64 {
        return false;
    }
    let mut i: usize = 0;
    while i < cs.len()
        invariant
            i <= cs.len(),
            cs@ == s@,
            forall|k: int| 0 <= k < i ==> is_hex_digit(#[trigger] s@[k]),
        decreases cs.len() - i,
    {
        if !hex_digit_char(cs[i]) {
            return false;
        }
        i += 1;
    }
    true
}

/// What the check of signed metadata decides.
pub ghost enum ManifestVerdict {
    Rejected(Seq<char>),
    InvalidCurrentVersion,
    InvalidReleaseVersion,
    UpToDate,
    Accepted(VerifiedUpdateView),
}

/// The decision on metadata `m` for an application at version `current`.
pub open spec fn manifest_verdict(m: UpdateManifestView, current: Seq<char>) -> ManifestVerdict {
    if m.schema_version != 1 {
        ManifestVerdict::Rejected("Unsupported update metadata version"@)
    } else if parsed_semver(current) is None {
        ManifestVerdict::InvalidCurrentVersion
    } else if parsed_semver(m.version) is None {
        ManifestVerdict::InvalidReleaseVersion
    } else {
        let cur = parsed_semver(current).unwrap();
        let available = parsed_semver(m.version).unwrap();
        let hash = ascii_lowercase(m.installer_sha256);
        if !available.is_stable() {
            ManifestVerdict::Rejected("Preview releases are not accepted on the stable channel"@)
        } else if file_version_rejection(available) is Some {
            ManifestVerdict::Rejected(file_version_rejection(available).unwrap())
        } else if semver_at_most(available, cur) {
            ManifestVerdict::UpToDate
        } else if github_url_rejection(m.release_url, release_path(m.version)) is Some {
            ManifestVerdict::Rejected(github_url_rejection(m.release_url, release_path(m.version)).unwrap())
        } else if github_url_rejection(m.installer_url, installer_path(m.version)) is Some {
            ManifestVerdict::Rejected(
                github_url_rejection(m.installer_url, installer_path(m.version)).unwrap(),
            )
        } else if !is_sha256_hex(hash) {
            ManifestVerdict::Rejected("Invalid installer SHA-256"@)
        } else if m.installer_size == 0 || m.installer_size > MAX_INSTALLER_BYTES {
            ManifestVerdict::Rejected("Installer size is outside the allowed range"@)
        } else {
            ManifestVerdict::Accepted(
                VerifiedUpdateView {
                    version: m.version,
                    release_url: m.release_url,
                    release_notes: m.release_notes,
                    installer_url: m.installer_url,
                    installer_sha256: hash,
                    installer_size: m.installer_size,
                },
            )
        }
    }
}

/// An update the stable channel accepts is a stable release strictly newer than the
/// running version, whose release page and installer are the pinned GitHub paths of that
/// version, with a well-formed lowercase SHA-256 and a size within the allowed range.
pub proof fn lemma_accepted_update_is_newer_and_pinned(m: UpdateManifestView, current: Seq<char>)
    requires
        manifest_verdict(m, current) is Accepted,
    ensures
        ({
            let v = manifest_verdict(m, current)->Accepted_0;
            &&& v.version == m.version
            &&& parsed_semver(current) matches Some(cur) && parsed_semver(m.version) matches Some(
                available,
            ) && available.is_stable() && !semver_at_most(available, cur)
            &&& github_url_rejection(v.release_url, release_path(v.version)) is None
            &&& github_url_rejection(v.installer_url, installer_path(v.version)) is None
            &&& is_sha256_hex(v.installer_sha256)
            &&& v.installer_sha256 == ascii_lowercase(m.installer_sha256)
            &&& 0 < v.installer_size <= MAX_INSTALLER_BYTES
        }),
{
}

/// The outcome `r` carries what `verdict` decides.
pub open spec fn follows_verdict(
    r: Result<Option<VerifiedUpdate>, UpdateFailure>,
    verdict: ManifestVerdict,
) -> bool {
    match verdict {
        ManifestVerdict::Rejected(msg) => rejects_with(r, msg),
        ManifestVerdict::InvalidCurrentVersion => r matches Err(
            UpdateFailure::Version { operation, .. },
        ) && operation@ == "Invalid application version"@,
        ManifestVerdict::InvalidReleaseVersion => r matches Err(
            UpdateFailure::Version { operation, .. },
        ) && operation@ == "Invalid release version"@,
        ManifestVerdict::UpToDate => r matches Ok(None),
        ManifestVerdict::Accepted(v) => r matches Ok(Some(u)) && u@ == v,
    }
}

/// Checks parsed update metadata against the stable-channel policy for an application at
/// `current_version`: `Ok(None)` when no newer release is offered.
pub fn check_manifest(manifest: UpdateManifest, current_version: &str) -> (r: Result<
    Option<VerifiedUpdate>,
    UpdateFailure,
>)
    ensures
        follows_verdict(r, manifest_verdict(manifest@, current_version@)),
        r matches Ok(offer) ==> (parsed_semver(current_version@) matches Some(current)
            && parsed_semver(manifest@.version) matches Some(available) && (current.is_stable()
            ==> (offer is Some <==> !release_triple_at_most(available, current)))),
{
    let ghost m = manifest@;
    if manifest.schema_version != 1 {
        return Err(UpdateFailure::Rejected("Unsupported update metadata version"));
    }
    let current = match parse_semver(current_version) {
        Ok(v) => v,
        Err(source) => return Err(
            UpdateFailure::Version { operation: "Invalid application version", source },
        ),
    };
    let available = match parse_semver(manifest.version.as_str()) {
        Ok(v) => v,
        Err(source) => return Err(
            UpdateFailure::Version { operation: "Invalid release version", source },
        ),
    };
    if available.has_pre() || available.has_build() {
        return Err(
            UpdateFailure::Rejected("Preview releases are not accepted on the stable channel"),
        );
    }
    match expected_file_version(&available) {
        Ok(_) => {},
        Err(e) => return Err(e),
    }
    if version_at_most(&available, &current) {
        return Ok(None);
    }
    match validate_release_url(manifest.release_url.as_str(), manifest.version.as_str()) {
        Ok(()) => {},
        Err(e) => return Err(e),
    }
    match validate_installer_url(manifest.installer.url.as_str(), manifest.version.as_str()) {
        Ok(()) => {},
        Err(e) => return Err(e),
    }
    let hash = to_ascii_lowercase(manifest.installer.sha256.as_str());
    if !is_sha256_text(hash.as_str()) {
        return Err(UpdateFailure::Rejected("Invalid installer SHA-256"));
    }
    if manifest.installer.size == 0 || manifest.installer.size > MAX_INSTALLER_BYTES {
        return Err(UpdateFailure::Rejected("Installer size is outside the allowed range"));
    }
    Ok(Some(VerifiedUpdate::from_manifest(manifest, hash)))
}

} // verus!
