//! The trusted identity and the startup that establishes it.

use vstd::prelude::*;
use crate::fingerprint::{fingerprint, fingerprint_of};
use crate::notice::{ErrorClass, Severity};
use crate::signature::{signature_matches, verify, VerificationError, MAX_PEM_BYTES};

verus! {

/// Exit status of a start without the required inputs.
pub const EXIT_USAGE: i32 = 2;

/// Exit status of a start that could not establish trust.
pub const EXIT_UNTRUSTED: i32 = 1;

/// Why the enforcer does not start.
#[derive(Clone, Copy, Debug, PartialEq, Eq, Structural)]
pub enum StartupError {
    /// A required input is missing.
    Usage,
    /// The trusted executable, the signature or the key could not be read.
    Unreadable,
    /// The signature does not match the trusted executable.
    Untrusted,
    /// The signature could not be checked.
    Verification(VerificationError),
}

impl StartupError {
    /// The exit status that goes with this error.
    pub open spec fn spec_exit_code(self) -> i32 {
        match self {
            StartupError::Usage => EXIT_USAGE,
            _ => EXIT_UNTRUSTED,
        }
    }

    /// The exit status that goes with this error: never zero, and for a
    /// failure to establish trust never that of a usage error.
    #[verifier::when_used_as_spec(spec_exit_code)]
    pub fn exit_code(self) -> (code: i32)
        ensures
            code == self.spec_exit_code(),
            code != 0,
            (code == EXIT_USAGE) <==> (self == StartupError::Usage),
    {
        match self {
            StartupError::Usage => EXIT_USAGE,
            _ => EXIT_UNTRUSTED,
        }
    }

    /// How loud the log entry for this error is: it ends the start, so it is
    /// an error.
    pub fn severity(self) -> (level: Severity)
        ensures
            level == Severity::Error,
            level == ErrorClass::Startup.spec_severity(),
    {
        ErrorClass::Startup.severity()
    }
}

/// What is allowed to run, as a mathematical value.
pub struct IdentityView {
    /// Path of the trusted executable, as given at startup.
    pub canonical_path: Seq<char>,
    /// Fingerprint of the trusted executable's content at startup.
    pub content_fingerprint: Seq<char>,
}

/// What is allowed to run: the path of the trusted executable and the
/// fingerprint of its content. Made once, at startup, and never changed.
#[derive(Debug)]
pub struct TrustedIdentity {
    canonical_path: String,
    content_fingerprint: String,
}

impl View for TrustedIdentity {
    type V = IdentityView;

    closed spec fn view(&self) -> IdentityView {
        IdentityView {
            canonical_path: self.canonical_path@,
            content_fingerprint: self.content_fingerprint@,
        }
    }
}

/// What `TrustedIdentity::establish` gives for a path, a content and the
/// outcome of the signature check.
pub open spec fn established(
    canonical_path: Seq<char>,
    content: Seq<u8>,
    verification: Result<bool, VerificationError>,
) -> Result<IdentityView, StartupError> {
    match verification {
        Ok(true) => Ok(
            IdentityView { canonical_path, content_fingerprint: fingerprint_of(content) },
        ),
        Ok(false) => Err(StartupError::Untrusted),
        Err(error) => Err(StartupError::Verification(error)),
    }
}

impl TrustedIdentity {
    /// The identity of the executable at `canonical_path` with the given
    /// content, if the signature check came out as valid. Anything but a
    /// valid signature is an error: there is no identity without trust.
    pub fn establish(
        canonical_path: String,
        content: &[u8],
        verification: Result<bool, VerificationError>,
    ) -> (outcome: Result<TrustedIdentity, StartupError>)
        ensures
            match established(canonical_path@, content@, verification) {
                Ok(identity) => outcome matches Ok(made) && made@ == identity,
                Err(error) => outcome matches Err(given) && given == error,
            },
    {
        match verification {
            Ok(true) => Ok(
                TrustedIdentity { canonical_path, content_fingerprint: fingerprint(content) },
            ),
            Ok(false) => Err(StartupError::Untrusted),
            Err(error) => Err(StartupError::Verification(error)),
        }
    }

    /// Path of the trusted executable.
    pub fn canonical_path(&self) -> (path: &String)
        ensures
            path@ == self@.canonical_path,
    {
        &self.canonical_path
    }

    /// Fingerprint of the trusted executable's content at startup.
    pub fn content_fingerprint(&self) -> (text: &String)
        ensures
            text@ == self@.content_fingerprint,
    {
        &self.content_fingerprint
    }
}

/// Checks the signature over `content` and, if it is valid, gives the
/// identity of the executable at `canonical_path`.
///
/// A content that the signature does not match gives an error, never an
/// identity, and the error's exit status is not that of a usage error.
pub fn establish_trust(
    canonical_path: String,
    public_key_pem: &[u8],
    content: &[u8],
    signature: &[u8],
) -> (outcome: Result<TrustedIdentity, StartupError>)
    ensures
        outcome matches Ok(identity) ==> signature_matches(
            public_key_pem@,
            content@,
            signature@,
        ) && identity@ == (IdentityView {
            canonical_path: canonical_path@,
            content_fingerprint: fingerprint_of(content@),
        }),
        outcome matches Err(error) ==> error != StartupError::Usage && error
            != StartupError::Unreadable && error.spec_exit_code() == EXIT_UNTRUSTED,
        outcome == Err::<TrustedIdentity, StartupError>(StartupError::Untrusted)
            ==> !signature_matches(public_key_pem@, content@, signature@),
        !signature_matches(public_key_pem@, content@, signature@) ==> outcome is Err,
        public_key_pem@.len() > MAX_PEM_BYTES ==> outcome == Err::<TrustedIdentity, StartupError>(
            StartupError::Verification(VerificationError::MalformedKey),
        ),
{
    let verification = verify(public_key_pem, content, signature);
    TrustedIdentity::establish(canonical_path, content, verification)
}

/// The start of the enforcer from what was read: the key, the signature and
/// the content of the trusted executable, each missing where its file could
/// not be read.
///
/// Without all three there is no identity. With all three the outcome is
/// that of `establish_trust`.
pub fn startup(
    canonical_path: String,
    public_key_pem: Option<Vec<u8>>,
    signature: Option<Vec<u8>>,
    content: Option<Vec<u8>>,
) -> (outcome: Result<TrustedIdentity, StartupError>)
    ensures
        (public_key_pem is None || signature is None || content is None) <==> outcome == Err::<
            TrustedIdentity,
            StartupError,
        >(StartupError::Unreadable),
        outcome matches Ok(identity) ==> {
            &&& public_key_pem matches Some(key)
            &&& signature matches Some(mark)
            &&& content matches Some(bytes)
            &&& signature_matches(key@, bytes@, mark@)
            &&& identity@ == (IdentityView {
                canonical_path: canonical_path@,
                content_fingerprint: fingerprint_of(bytes@),
            })
        },
        outcome matches Err(error) ==> error != StartupError::Usage && error.spec_exit_code()
            == EXIT_UNTRUSTED,
        outcome == Err::<TrustedIdentity, StartupError>(StartupError::Untrusted) ==> {
            &&& public_key_pem matches Some(key)
            &&& signature matches Some(mark)
            &&& content matches Some(bytes)
            &&& !signature_matches(key@, bytes@, mark@)
        },
{
    match (public_key_pem, signature, content) {
        (Some(key), Some(mark), Some(bytes)) => establish_trust(
            canonical_path,
            key.as_slice(),
            bytes.as_slice(),
            mark.as_slice(),
        ),
        _ => Err(StartupError::Unreadable),
    }
}

} // verus!
