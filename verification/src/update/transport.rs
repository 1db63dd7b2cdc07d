use vstd::prelude::*;
use std::sync::atomic::AtomicBool;
use crate::text::{chars_of, copy_range, find_char, has_prefix, index_of, same_chars, same_text, starts_with_chars, string_of};
use crate::update::failure::UpdateFailure;
use crate::update::manifest::{github_url_rejection, installer_path, rejects_with, validate_installer_url};
use crate::update::uri::{opt_is, parse_uri, parsed_uri, UriParts, UriView};
use crate::update::version::{parse_semver, parsed_semver};

verus! {

/// Most redirects one update request may follow.
pub const MAX_REDIRECTS: usize = 5;

/// What an update request fetches.
#[derive(Clone, Copy)]
pub enum RequestTarget<'a> {
    Metadata,
    Installer(&'a str),
}

pub open spec fn latest_metadata_path() -> Seq<char> {
    "/Woffluon/BarePDF/releases/latest/download/latest.json"@
}

pub open spec fn latest_signature_path() -> Seq<char> {
    "/Woffluon/BarePDF/releases/latest/download/latest.json.sig"@
}

pub open spec fn versioned_download_prefix() -> Seq<char> {
    "/Woffluon/BarePDF/releases/download/v"@
}

/// The metadata (or its signature) of the latest release, or of one stable release.
pub open spec fn metadata_path_ok(path: Seq<char>) -> bool {
    if path == latest_metadata_path() || path == latest_signature_path() {
        true
    } else if !has_prefix(path, versioned_download_prefix()) {
        false
    } else {
        let rest = path.skip(versioned_download_prefix().len() as int);
        let slash = index_of(rest, '/');
        if slash < 0 {
            false
        } else {
            let version = rest.take(slash);
            let file = rest.skip(slash + 1);
            &&& (file == "latest.json"@ || file == "latest.json.sig"@)
            &&& parsed_semver(version) matches Some(v) && v.pre.len() == 0
        }
    }
}

pub fn metadata_path_is_approved(path: &str) -> (r: bool)
    ensures
        r == metadata_path_ok(path@),
{
    if same_text(path, "/Woffluon/BarePDF/releases/latest/download/latest.json") || same_text(
        path,
        "/Woffluon/BarePDF/releases/latest/download/latest.json.sig",
    ) {
        return true;
    }
    let p = chars_of(path);
    let prefix = chars_of("/Woffluon/BarePDF/releases/download/v");
    if !starts_with_chars(p.as_slice(), prefix.as_slice()) {
        return false;
    }
    let rest = copy_range(p.as_slice(), prefix.len(), p.len());
    assert(rest@ =~= path@.skip(versioned_download_prefix().len() as int));
    let slash = match find_char(rest.as_slice(), '/') {
        Some(i) => i,
        None => return false,
    };
    let version = copy_range(rest.as_slice(), 0, slash);
    let file = copy_range(rest.as_slice(), slash + 1, rest.len());
    assert(version@ =~= rest@.take(slash as int));
    assert(file@ =~= rest@.skip(slash + 1));
    let latest = chars_of("latest.json");
    let latest_sig = chars_of("latest.json.sig");
    if !same_chars(file.as_slice(), latest.as_slice()) && !same_chars(
        file.as_slice(),
        latest_sig.as_slice(),
    ) {
        return false;
    }
    let version_text = string_of(version.as_slice());
    match parse_semver(version_text.as_str()) {
        Ok(v) => !v.has_pre(),
        Err(_) => false,
    }
}

/// Hosts and paths from which update requests may be served.
pub open spec fn request_approved(u: UriView, url: Seq<char>, target: RequestTarget) -> bool {
    ||| u.host == Some("github.com"@) && u.query is None && match target {
        RequestTarget::Metadata => metadata_path_ok(u.path),
        RequestTarget::Installer(version) => github_url_rejection(url, installer_path(version@))
            is None,
    }
    ||| u.host == Some("release-assets.githubusercontent.com"@) && has_prefix(
        u.path,
        "/github-production-release-asset/"@,
    )
}

/// Why an update request to `url` is refused, or `None` when it may be made.
pub open spec fn request_rejection(url: Seq<char>, target: RequestTarget) -> Option<Seq<char>> {
    match parsed_uri(url) {
        None => Some("Update URL is invalid"@),
        Some(u) => if u.scheme != Some("https"@) || u.port is Some {
            Some("Update request requires an approved HTTPS URL"@)
        } else if request_approved(u, url, target) {
            None
        } else {
            Some("Update request URL is not approved"@)
        },
    }
}

/// Checks that an update request may go to `url`, and gives its parsed parts.
pub fn validate_request_url(url: &str, target: RequestTarget) -> (r: Result<UriParts, UpdateFailure>)
    ensures
        match request_rejection(url@, target) {
            None => r matches Ok(p) && parsed_uri(url@) == Some(p@),
            Some(msg) => rejects_with(r, msg),
        },
{
    let uri = match parse_uri(url) {
        Some(u) => u,
        None => return Err(UpdateFailure::Rejected("Update URL is invalid")),
    };
    if !opt_is(&uri.scheme, "https") || uri.port.is_some() {
        return Err(UpdateFailure::Rejected("Update request requires an approved HTTPS URL"));
    }
    proof {
        reveal_strlit("github.com");
        reveal_strlit("release-assets.githubusercontent.com");
        assert("github.com"@.len() != "release-assets.githubusercontent.com"@.len());
        assert("github.com"@ != "release-assets.githubusercontent.com"@);
    }
    let approved = if opt_is(&uri.host, "github.com") && uri.query.is_none() {
        match target {
            RequestTarget::Metadata => {
                let ok = metadata_path_is_approved(uri.path.as_str());
                assert(ok == metadata_path_ok(uri@.path));
                assert(uri@.host == Some("github.com"@));
                assert(uri@.query is None);
                assert(ok == request_approved(uri@, url@, target));
                ok
            },
            RequestTarget::Installer(version) => {
                let ok = validate_installer_url(url, version).is_ok();
                assert(ok == (github_url_rejection(url@, installer_path(version@)) is None));
                assert(ok == request_approved(uri@, url@, target));
                ok
            },
        }
    } else if opt_is(&uri.host, "release-assets.githubusercontent.com") {
        let p = chars_of(uri.path.as_str());
        let prefix = chars_of("/github-production-release-asset/");
        let ok = starts_with_chars(p.as_slice(), prefix.as_slice());
        assert(ok == has_prefix(uri@.path, "/github-production-release-asset/"@));
        assert(ok == request_approved(uri@, url@, target));
        ok
    } else {
        assert(!request_approved(uri@, url@, target));
        false
    };
    if approved {
        Ok(uri)
    } else {
        Err(UpdateFailure::Rejected("Update request URL is not approved"))
    }
}

pub open spec fn is_followed_redirect(status: u16) -> bool {
    status == 301 || status == 302 || status == 303 || status == 307 || status == 308
}

/// Why the redirect hop number `redirect_count` is refused, or `None` when it may be followed.
pub open spec fn redirect_rejection(
    status: u16,
    redirect_count: usize,
    location: Option<Seq<char>>,
    target: RequestTarget,
) -> Option<Seq<char>> {
    if !is_followed_redirect(status) {
        Some("Update request returned an unsupported redirect"@)
    } else if redirect_count == MAX_REDIRECTS {
        Some("Update request exceeded the redirect limit"@)
    } else if location is None {
        Some("Update redirect is missing Location"@)
    } else {
        request_rejection(location.unwrap(), target)
    }
}

pub open spec fn opt_str_view(o: Option<&str>) -> Option<Seq<char>> {
    match o {
        Some(s) => Some(s@),
        None => None,
    }
}

/// Checks one redirect hop: its status, the hop count, and where it leads.
pub fn validate_redirect_target<'a>(
    status: u16,
    redirect_count: usize,
    location: Option<&'a str>,
    target: RequestTarget,
) -> (r: Result<&'a str, UpdateFailure>)
    ensures
        match redirect_rejection(status, redirect_count, opt_str_view(location), target) {
            None => r matches Ok(l) && location == Some(l),
            Some(msg) => rejects_with(r, msg),
        },
{
    if !(status == 301 || status == 302 || status == 303 || status == 307 || status == 308) {
        return Err(UpdateFailure::Rejected("Update request returned an unsupported redirect"));
    }
    if redirect_count == MAX_REDIRECTS {
        return Err(UpdateFailure::Rejected("Update request exceeded the redirect limit"));
    }
    let location = match location {
        Some(l) => l,
        None => return Err(UpdateFailure::Rejected("Update redirect is missing Location")),
    };
    match validate_request_url(location, target) {
        Ok(_) => Ok(location),
        Err(e) => Err(e),
    }
}

/// What the request loop does with a response of status `status` after `redirect_count`
/// redirects: a response that is no redirection (3xx) is the answer (`None`); a redirection
/// is followed to its checked location, or refused.
pub fn response_step<'a>(
    status: u16,
    redirect_count: usize,
    location: Option<&'a str>,
    target: RequestTarget,
) -> (r: Result<Option<&'a str>, UpdateFailure>)
    ensures
        !(300 <= status <= 399) ==> r matches Ok(None),
        300 <= status <= 399 ==> match redirect_rejection(
            status,
            redirect_count,
            opt_str_view(location),
            target,
        ) {
            None => r matches Ok(Some(l)) && location == Some(l),
            Some(msg) => rejects_with(r, msg),
        },
{
    if status < 300 || status > 399 {
        return Ok(None);
    }
    match validate_redirect_target(status, redirect_count, location, target) {
        Ok(l) => Ok(Some(l)),
        Err(e) => Err(e),
    }
}

/// Reads the cancellation flag that another thread may set.
pub fn is_cancelled(flag: &AtomicBool) -> bool {
    flag.load(std::sync::atomic::Ordering::Acquire)
}

/// The outcome of a cancellation check once the flag has been read.
pub fn cancellation_outcome(cancelled: bool) -> (r: Result<(), UpdateFailure>)
    ensures
        cancelled ==> r matches Err(UpdateFailure::Cancelled),
        !cancelled ==> r is Ok,
{
    if cancelled {
        Err(UpdateFailure::Cancelled)
    } else {
        Ok(())
    }
}

/// Stops with `Cancelled` when the flag is set.
pub fn check_cancelled(cancelled: &AtomicBool) -> (r: Result<(), UpdateFailure>)
    ensures
        r is Ok || r matches Err(UpdateFailure::Cancelled),
{
    cancellation_outcome(is_cancelled(cancelled))
}

} // verus!
