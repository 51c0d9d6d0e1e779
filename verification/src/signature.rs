//! Verification of a detached signature over a byte string, with a public
//! key given as PEM text.

use vstd::prelude::*;
use openssl::error::ErrorStack;
use openssl::hash::MessageDigest;
use openssl::pkey::{PKey, Public};
use openssl::sign::Verifier;

verus! {

/// A key of the `openssl` crate. Its inside is hidden.
#[verifier::external_type_specification]
#[verifier::external_body]
#[verifier::reject_recursive_types(T)]
pub struct ExPKey<T>(PKey<T>);

/// The tag of the `openssl` crate for a key that has only public parts.
#[verifier::external_type_specification]
#[verifier::external_body]
pub struct ExPublic(Public);

/// The signature verifier of the `openssl` crate. Its inside is hidden.
#[verifier::external_type_specification]
#[verifier::external_body]
pub struct ExVerifier<'a>(Verifier<'a>);

/// The errors that a call into the `openssl` crate left behind.
#[verifier::external_type_specification]
#[verifier::external_body]
pub struct ExErrorStack(ErrorStack);

/// The PEM text that a key holds the decoded form of.
pub uninterp spec fn key_pem(key: PKey<Public>) -> Seq<u8>;

/// The PEM text of the key that a verifier checks signatures against.
pub uninterp spec fn verifier_key_pem(verifier: Verifier<'_>) -> Seq<u8>;

/// The bytes that a verifier has been fed so far, in order.
pub uninterp spec fn verifier_message(verifier: Verifier<'_>) -> Seq<u8>;

/// Whether `signature` is a valid signature over the SHA-256 digest of
/// `message` under the public key that `key_pem` holds, with the padding that
/// OpenSSL takes by default for the kind of key (PKCS#1 v1.5 for RSA).
pub uninterp spec fn signature_matches(
    key_pem: Seq<u8>,
    message: Seq<u8>,
    signature: Seq<u8>,
) -> bool;

/// Largest PEM text that the decoder takes: the `openssl` crate refuses to
/// go on with a longer one.
pub const MAX_PEM_BYTES: usize = 0x7fff_ffff;

/// Calls `PKey::public_key_from_pem`, which decodes a PEM-encoded
/// SubjectPublicKeyInfo structure. Whether it decodes is left open; a key
/// that comes back is the one that `pem` holds. Longer texts than
/// `MAX_PEM_BYTES` are kept away from it.
#[verifier::external_body]
fn decode_public_key(pem: &[u8]) -> (decoded: Result<PKey<Public>, ErrorStack>)
    requires
        pem@.len() <= MAX_PEM_BYTES,
    ensures
        decoded matches Ok(key) ==> key_pem(key) == pem@,
{
    PKey::public_key_from_pem(pem)
}

/// Calls `Verifier::new` with `MessageDigest::sha256()`. Whether a verifier
/// can be made for the key is left open; one that comes back checks against
/// `key` and has been fed nothing.
#[verifier::external_body]
fn sha256_verifier<'a>(key: &'a PKey<Public>) -> (made: Result<Verifier<'a>, ErrorStack>)
    ensures
        made matches Ok(verifier) ==> verifier_key_pem(verifier) == key_pem(*key)
            && verifier_message(verifier) == Seq::<u8>::empty(),
{
    Verifier::new(MessageDigest::sha256(), key)
}

/// Calls `Verifier::update`, which feeds more data into the verifier. The
/// key stays; where the call succeeds, `bytes` follow what was fed before.
#[verifier::external_body]
fn verifier_feed(verifier: &mut Verifier<'_>, bytes: &[u8]) -> (fed: Result<(), ErrorStack>)
    ensures
        verifier_key_pem(*final(verifier)) == verifier_key_pem(*old(verifier)),
        fed is Ok ==> verifier_message(*final(verifier)) == verifier_message(*old(verifier))
            + bytes@,
{
    verifier.update(bytes)
}

/// Calls `Verifier::verify`, which determines whether the data fed into the
/// verifier matches `signature`. An answer that comes back is the one named
/// `signature_matches`; whether the call fails instead is left open.
#[verifier::external_body]
fn verifier_check(verifier: &Verifier<'_>, signature: &[u8]) -> (checked: Result<bool, ErrorStack>)
    ensures
        checked matches Ok(valid) ==> valid == signature_matches(
            verifier_key_pem(*verifier),
            verifier_message(*verifier),
            signature@,
        ),
{
    verifier.verify(signature)
}

/// Why a signature could not be checked.
#[derive(Clone, Copy, Debug, PartialEq, Eq, Structural)]
pub enum VerificationError {
    /// The public key material does not decode.
    MalformedKey,
    /// The verifier could not be set up for the key.
    Unavailable,
    /// The verifier failed while it took in the content or checked the
    /// signature.
    Failed,
}

/// The outcome of a check that ran to its end: the verifier's answer where
/// it gave one, a failure where it did not.
pub fn answer_of(checked: Result<bool, ErrorStack>) -> (outcome: Result<bool, VerificationError>)
    ensures
        outcome == match checked {
            Ok(valid) => Ok::<bool, VerificationError>(valid),
            Err(_) => Err::<bool, VerificationError>(VerificationError::Failed),
        },
{
    match checked {
        Ok(valid) => Ok(valid),
        Err(_) => Err(VerificationError::Failed),
    }
}

/// Checks `signature` over `content` with the public key in
/// `public_key_pem`.
///
/// The whole content goes through the verifier. `Ok(true)` and `Ok(false)`
/// are the verifier's answer; a key that does not decode, a verifier that
/// cannot be set up and a failure inside the verifier are errors, never an
/// answer.
pub fn verify(public_key_pem: &[u8], content: &[u8], signature: &[u8]) -> (outcome: Result<
    bool,
    VerificationError,
>)
    ensures
        public_key_pem@.len() > MAX_PEM_BYTES ==> outcome == Err::<bool, VerificationError>(
            VerificationError::MalformedKey,
        ),
        outcome matches Ok(valid) ==> valid == signature_matches(
            public_key_pem@,
            content@,
            signature@,
        ),
{
    if public_key_pem.len() > MAX_PEM_BYTES {
        return Err(VerificationError::MalformedKey);
    }
    let key = match decode_public_key(public_key_pem) {
        Ok(key) => key,
        Err(_) => {
            return Err(VerificationError::MalformedKey);
        },
    };
    let mut verifier = match sha256_verifier(&key) {
        Ok(verifier) => verifier,
        Err(_) => {
            return Err(VerificationError::Unavailable);
        },
    };
    match verifier_feed(&mut verifier, content) {
        Ok(_) => {},
        Err(_) => {
            return Err(VerificationError::Failed);
        },
    }
    answer_of(verifier_check(&verifier, signature))
}

} // verus!
