use vstd::prelude::*;
use vstd::utf8::{decode_utf8, valid_utf8};
use crate::text::{chars_of, trim_chars, trimmed};
use crate::update::failure::UpdateFailure;
use crate::update::manifest::rejects_with;

verus! {

#[verifier::external_type_specification]
#[verifier::external_body]
pub struct ExVerifyingKey(ed25519_dalek::VerifyingKey);

#[verifier::external_type_specification]
#[verifier::external_body]
pub struct ExSignature(ed25519_dalek::Signature);

/// Whether `ed25519_dalek::VerifyingKey::from_bytes` accepts the 32 bytes `key`
/// (they decompress to a curve point).
pub uninterp spec fn ed25519_key_accepted(key: Seq<u8>) -> bool;

/// Whether `VerifyingKey::verify_strict` accepts `signature` over `message` for `key`.
pub uninterp spec fn ed25519_strictly_verifies(
    key: Seq<u8>,
    message: Seq<u8>,
    signature: Seq<u8>,
) -> bool;

/// An Ed25519 verification key together with the bytes it was made from.
pub struct PublicKey {
    bytes: [u8; 32],
    inner: ed25519_dalek::VerifyingKey,
}

impl PublicKey {
    pub closed spec fn bytes(&self) -> Seq<u8> {
        self.bytes@
    }
}

/// An Ed25519 signature together with its 64 bytes.
pub struct SignatureBytes {
    bytes: Vec<u8>,
    inner: ed25519_dalek::Signature,
}

impl SignatureBytes {
    pub closed spec fn bytes(&self) -> Seq<u8> {
        self.bytes@
    }
}

/// Calls `ed25519_dalek::VerifyingKey::from_bytes`; whether it succeeds is named
/// `ed25519_key_accepted` of the bytes.
#[verifier::external_body]
fn verifying_key_from_bytes(bytes: [u8; 32]) -> (r: Option<PublicKey>)
    ensures
        r is Some <==> ed25519_key_accepted(bytes@),
        r matches Some(k) ==> k.bytes() == bytes@,
{
    match ed25519_dalek::VerifyingKey::from_bytes(&bytes) {
        Ok(inner) => Some(PublicKey { bytes, inner }),
        Err(_) => None,
    }
}

/// Calls `ed25519_dalek::Signature::from_slice`, which the `ed25519` crate documents to
/// succeed exactly on 64-byte input.
#[verifier::external_body]
fn signature_from_slice(bytes: &[u8]) -> (r: Option<SignatureBytes>)
    ensures
        r is Some <==> bytes@.len() == 64,
        r matches Some(s) ==> s.bytes() == bytes@,
{
    match ed25519_dalek::Signature::from_slice(bytes) {
        Ok(inner) => Some(SignatureBytes { bytes: bytes.to_vec(), inner }),
        Err(_) => None,
    }
}

/// Calls `VerifyingKey::verify_strict`; its verdict is named `ed25519_strictly_verifies`.
#[verifier::external_body]
fn verify_strict(key: &PublicKey, message: &[u8], signature: &SignatureBytes) -> (r: bool)
    ensures
        r == ed25519_strictly_verifies(key.bytes(), message@, signature.bytes()),
{
    key.inner.verify_strict(message, &signature.inner).is_ok()
}

/// Calls `std::str::from_utf8`, which accepts exactly the well-formed UTF-8 byte strings.
#[verifier::external_body]
pub(crate) fn utf8_text(bytes: &[u8]) -> (r: Option<&str>)
    ensures
        r is Some <==> valid_utf8(bytes@),
        r matches Some(s) ==> s@ == decode_utf8(bytes@),
{
    std::str::from_utf8(bytes).ok()
}

/// The value of the hexadecimal digit `c`, if it is one.
pub open spec fn hex_value(c: u8) -> Option<u8> {
    if 48 <= c <= 57 {
        Some((c - 48) as u8)
    } else if 97 <= c <= 102 {
        Some((c - 97 + 10) as u8)
    } else if 65 <= c <= 70 {
        Some((c - 65 + 10) as u8)
    } else {
        None
    }
}

pub fn decode_hex(value: u8) -> (r: Result<u8, UpdateFailure>)
    ensures
        match hex_value(value) {
            Some(v) => r matches Ok(x) && x == v,
            None => rejects_with(r, "Update verification key is invalid"@),
        },
{
    if 48u8 <= value && value <= 57u8 {
        Ok(value - 48u8)
    } else if 97u8 <= value && value <= 102u8 {
        Ok(value - 97u8 + 10)
    } else if 65u8 <= value && value <= 70u8 {
        Ok(value - 65u8 + 10)
    } else {
        Err(UpdateFailure::Rejected("Update verification key is invalid"))
    }
}

pub open spec fn hex_char_value(c: char) -> Option<u8> {
    if (c as int) < 128 {
        hex_value(c as u8)
    } else {
        None
    }
}

/// `t` is 64 hexadecimal digits.
pub open spec fn is_key_text(t: Seq<char>) -> bool {
    t.len() == 64 && forall|i: int| 0 <= i < 64 ==> (#[trigger] hex_char_value(t[i])) is Some
}

/// The 32 bytes that the 64 hexadecimal digits `t` spell.
pub open spec fn key_bytes(t: Seq<char>) -> Seq<u8> {
    Seq::new(
        32,
        |i: int|
            (hex_char_value(t[2 * i]).unwrap() as int * 16 + hex_char_value(
                t[2 * i + 1],
            ).unwrap() as int) as u8,
    )
}

fn char_hex(c: char) -> (r: Result<u8, UpdateFailure>)
    ensures
        match hex_char_value(c) {
            Some(v) => r matches Ok(x) && x == v && x < 16,
            None => rejects_with(r, "Update verification key is invalid"@),
        },
{
    if (c as u32) < 128 {
        decode_hex(c as u32 as u8)
    } else {
        Err(UpdateFailure::Rejected("Update verification key is invalid"))
    }
}

/// Decodes the hexadecimal verification key `value`, white space around it ignored.
pub fn decode_public_key(value: &str) -> (r: Result<[u8; 32], UpdateFailure>)
    ensures
        is_key_text(trimmed(value@)) ==> (r matches Ok(k) && k@ == key_bytes(trimmed(value@))),
        !is_key_text(trimmed(value@)) ==> rejects_with(r, "Update verification key is invalid"@),
{
    let all = chars_of(value);
    let t = trim_chars(all.as_slice());
    let ghost tv = trimmed(value@);
    if t.len() != 64 {
        return Err(UpdateFailure::Rejected("Update verification key is invalid"));
    }
    let mut key = [0u8; 32];
    let mut index: usize = 0;
    while index < 32
        invariant
            index <= 32,
            t@ == tv,
            tv == trimmed(value@),
            t@.len() == 64,
            forall|i: int| 0 <= i < 2 * index ==> (#[trigger] hex_char_value(tv[i])) is Some,
            forall|i: int|
                0 <= i < index ==> key@[i] == (hex_char_value(tv[2 * i]).unwrap() as int * 16
                    + hex_char_value(tv[2 * i + 1]).unwrap() as int) as u8,
        decreases 32 - index,
    {
        let high = match char_hex(t[index * 2]) {
            Ok(v) => v,
            Err(e) => {
                assert(hex_char_value(tv[2 * index as int]) is None);
                assert(!is_key_text(tv));
                return Err(e);
            },
        };
        let low = match char_hex(t[index * 2 + 1]) {
            Ok(v) => v,
            Err(e) => {
                assert(hex_char_value(tv[2 * index + 1]) is None);
                assert(!is_key_text(tv));
                return Err(e);
            },
        };
        let byte = (high << 4) | low;
        assert(byte == (high as int * 16 + low as int) as u8) by (bit_vector)
            requires
                high < 16,
                low < 16,
                byte == (high << 4) | low,
        ;
        key[index] = byte;
        index += 1;
    }
    assert(key@ =~= key_bytes(tv));
    Ok(key)
}

/// Why the signed metadata check refuses, or `None` where the signature holds.
pub open spec fn signature_rejection(
    manifest: Seq<u8>,
    signature: Seq<u8>,
    public_key: Seq<char>,
) -> Option<Seq<char>> {
    let t = trimmed(public_key);
    if !is_key_text(t) || !ed25519_key_accepted(key_bytes(t)) {
        Some("Update verification key is invalid"@)
    } else if signature.len() != 64 {
        Some("Update metadata signature is invalid"@)
    } else if !ed25519_strictly_verifies(key_bytes(t), manifest, signature) {
        Some("Update metadata signature verification failed"@)
    } else {
        None
    }
}

/// Checks the Ed25519 `signature` of `manifest` with the hexadecimal key `public_key`.
pub fn verify_manifest_signature_with_key(
    manifest: &[u8],
    signature: &[u8],
    public_key: &str,
) -> (r: Result<(), UpdateFailure>)
    ensures
        crate::update::manifest::follows_rejection(
            r,
            signature_rejection(manifest@, signature@, public_key@),
        ),
{
    let key_bytes = match decode_public_key(public_key) {
        Ok(k) => k,
        Err(e) => return Err(e),
    };
    let key = match verifying_key_from_bytes(key_bytes) {
        Some(k) => k,
        None => return Err(UpdateFailure::Rejected("Update verification key is invalid")),
    };
    let signature = match signature_from_slice(signature) {
        Some(s) => s,
        None => return Err(UpdateFailure::Rejected("Update metadata signature is invalid")),
    };
    if !verify_strict(&key, manifest, &signature) {
        return Err(UpdateFailure::Rejected("Update metadata signature verification failed"));
    }
    Ok(())
}

/// Checks the signature of `manifest` first and only then reads it as UTF-8 text, the
/// form in which it is handed to the JSON parser.
pub fn verify_manifest_text<'a>(
    manifest: &'a [u8],
    signature: &[u8],
    public_key: &str,
) -> (r: Result<&'a str, UpdateFailure>)
    ensures
        match signature_rejection(manifest@, signature@, public_key@) {
            Some(msg) => rejects_with(r, msg),
            None => if valid_utf8(manifest@) {
                r matches Ok(text) && text@ == decode_utf8(manifest@)
            } else {
                rejects_with(r, "Update metadata is not valid UTF-8"@)
            },
        },
{
    match verify_manifest_signature_with_key(manifest, signature, public_key) {
        Ok(()) => {},
        Err(e) => return Err(e),
    }
    match utf8_text(manifest) {
        Some(text) => Ok(text),
        None => Err(UpdateFailure::Rejected("Update metadata is not valid UTF-8")),
    }
}

} // verus!
