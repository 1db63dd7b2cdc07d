use vstd::prelude::*;

verus! {

#[verifier::external_type_specification]
#[verifier::external_body]
pub struct ExSemverError(semver::Error);

#[verifier::external_type_specification]
#[verifier::external_body]
pub struct ExIoError(std::io::Error);

#[verifier::external_type_specification]
#[verifier::external_body]
pub struct ExTransportError(ureq::Error);

#[verifier::external_type_specification]
#[verifier::external_body]
pub struct ExJsonError(serde_json::Error);

/// Why an update step stopped.
#[derive(Debug)]
pub enum UpdateFailure {
    Cancelled,
    Rejected(&'static str),
    Transport { operation: &'static str, source: ureq::Error },
    Io { operation: &'static str, source: std::io::Error },
    Manifest { operation: &'static str, source: serde_json::Error },
    Version { operation: &'static str, source: semver::Error },
}

} // verus!
