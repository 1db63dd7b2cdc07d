use vstd::prelude::*;
use crate::text::push_decimal;
use crate::update::body::{reject_oversized_download, validate_download_size};
use crate::update::failure::UpdateFailure;
use crate::update::manifest::rejects_with;

verus! {

/// A running `sha2::Sha256` hasher. Its type is an alias over a tower of generic wrapper
/// types that Verus cannot be told about, so it is held opaquely here; what it has been
/// fed is named by `sha256_input`.
#[verifier::external_body]
pub struct Sha256State {
    inner: sha2::Sha256,
}

/// The bytes a SHA-256 hasher has been fed so far.
pub uninterp spec fn sha256_input(h: Sha256State) -> Seq<u8>;

/// The SHA-256 digest of `bytes` written as 64 lowercase hexadecimal digits, as
/// `format!("{:x}", ..)` writes a finished digest.
pub uninterp spec fn sha256_hex(bytes: Seq<u8>) -> Seq<char>;

/// Calls `Sha256::new`: a hasher that has been fed nothing.
#[verifier::external_body]
fn new_hasher() -> (r: Sha256State)
    ensures
        sha256_input(r) == Seq::<u8>::empty(),
{
    Sha256State { inner: <sha2::Sha256 as sha2::Digest>::new() }
}

/// Calls `Digest::update`: the hasher has been fed `data` as well.
#[verifier::external_body]
fn feed_hasher(h: &mut Sha256State, data: &[u8])
    ensures
        sha256_input(*final(h)) == sha256_input(*old(h)) + data@,
{
    sha2::Digest::update(&mut h.inner, data);
}

/// Calls `Digest::finalize` and writes the digest in lowercase hexadecimal.
#[verifier::external_body]
fn finish_hex(h: Sha256State) -> (r: String)
    ensures
        r@ == sha256_hex(sha256_input(h)),
{
    format!("{:x}", sha2::Digest::finalize(h.inner))
}

/// Streams an installer's bytes through SHA-256 while counting them against the size the
/// signed metadata declares.
pub struct InstallerIntegrity {
    hasher: Sha256State,
    received: u64,
    expected_size: u64,
    expected_sha256: String,
}

/// What an integrity check has taken in: the bytes so far, and what it expects.
pub ghost struct IntegrityView {
    pub received: Seq<u8>,
    pub expected_size: u64,
    pub expected_sha256: Seq<char>,
}

impl View for InstallerIntegrity {
    type V = IntegrityView;

    closed spec fn view(&self) -> IntegrityView {
        IntegrityView {
            received: sha256_input(self.hasher),
            expected_size: self.expected_size,
            expected_sha256: self.expected_sha256@,
        }
    }
}

impl InstallerIntegrity {
    /// The count of bytes agrees with the bytes fed to the hasher.
    pub closed spec fn wf(&self) -> bool {
        self.received == sha256_input(self.hasher).len()
    }

    pub fn new(expected_size: u64, expected_sha256: &str) -> (r: Self)
        ensures
            r.wf(),
            r@ == (IntegrityView {
                received: Seq::empty(),
                expected_size,
                expected_sha256: expected_sha256@,
            }),
    {
        InstallerIntegrity {
            hasher: new_hasher(),
            received: 0,
            expected_size,
            expected_sha256: expected_sha256.to_string(),
        }
    }

    /// Takes the next chunk; refuses it, unread by the hasher, once the installer would
    /// exceed the declared size.
    pub fn absorb(&mut self, chunk: &[u8]) -> (r: Result<(), UpdateFailure>)
        requires
            old(self).wf(),
        ensures
            final(self).wf(),
            final(self)@.expected_size == old(self)@.expected_size,
            final(self)@.expected_sha256 == old(self)@.expected_sha256,
            old(self)@.received.len() + chunk@.len() > u64::MAX ==> rejects_with(
                r,
                "Installer size overflow"@,
            ) && final(self)@ == old(self)@,
            old(self)@.received.len() + chunk@.len() <= u64::MAX && old(self)@.received.len()
                + chunk@.len() > old(self)@.expected_size ==> rejects_with(
                r,
                "Downloaded installer exceeds the declared size"@,
            ) && final(self)@ == old(self)@,
            old(self)@.received.len() + chunk@.len() <= old(self)@.expected_size ==> r is Ok
                && final(self)@.received == old(self)@.received + chunk@,
    {
        let total = match self.received.checked_add(chunk.len() as u64) {
            Some(t) => t,
            None => return Err(UpdateFailure::Rejected("Installer size overflow")),
        };
        match reject_oversized_download(total, self.expected_size) {
            Ok(()) => {},
            Err(e) => return Err(e),
        }
        feed_hasher(&mut self.hasher, chunk);
        self.received = total;
        Ok(())
    }

    /// Whether the installer is complete: exactly the declared size, and its SHA-256 is
    /// the declared one (`mismatch` names the refusal when it is not).
    pub fn finish(self, mismatch: &'static str) -> (r: Result<(), UpdateFailure>)
        requires
            self.wf(),
        ensures
            self@.received.len() < self@.expected_size ==> rejects_with(
                r,
                "Downloaded installer size does not match metadata"@,
            ),
            self@.received.len() > self@.expected_size ==> rejects_with(
                r,
                "Downloaded installer exceeds the declared size"@,
            ),
            self@.received.len() == self@.expected_size ==> if sha256_hex(self@.received)
                == self@.expected_sha256 {
                r is Ok
            } else {
                rejects_with(r, mismatch@)
            },
    {
        match validate_download_size(self.received, self.expected_size) {
            Ok(()) => {},
            Err(e) => return Err(e),
        }
        let expected = self.expected_sha256;
        let actual = finish_hex(self.hasher);
        if actual == expected {
            Ok(())
        } else {
            Err(UpdateFailure::Rejected(mismatch))
        }
    }
}

/// The name the verified installer of `version` is kept under.
pub open spec fn installer_file_name(version: Seq<char>) -> Seq<char> {
    "BarePDF-Setup-x64-v"@ + version + ".exe"@
}

pub fn installer_file_name_text(version: &str) -> (r: String)
    ensures
        r@ == installer_file_name(version@),
{
    let mut s = "BarePDF-Setup-x64-v".to_string();
    s.append(version);
    s.append(".exe");
    s
}

/// The name of the `attempt`-th partial download of `version` by process `process_id`,
/// made unique by `nonce` (the time in nanoseconds).
pub open spec fn partial_file_name(version: Seq<char>, process_id: u32, nonce: u128, attempt: u8) -> Seq<
    char,
> {
    ".BarePDF-Setup-x64-v"@ + version + "-"@ + crate::text::decimal(process_id as nat) + "-"@
        + crate::text::decimal(nonce as nat) + "-"@ + crate::text::decimal(attempt as nat)
        + ".partial"@
}

/// How many names a partial download may try.
pub const PARTIAL_FILE_ATTEMPTS: u8 = 16;

pub fn partial_file_name_text(version: &str, process_id: u32, nonce: u128, attempt: u8) -> (r: String)
    ensures
        r@ == partial_file_name(version@, process_id, nonce, attempt),
{
    let mut s = ".BarePDF-Setup-x64-v".to_string();
    s.append(version);
    s.append("-");
    push_decimal(&mut s, process_id as u128);
    s.append("-");
    push_decimal(&mut s, nonce);
    s.append("-");
    push_decimal(&mut s, attempt as u128);
    s.append(".partial");
    s
}

} // verus!
