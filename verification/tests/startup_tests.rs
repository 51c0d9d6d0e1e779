use openssl::hash::MessageDigest;
use openssl::pkey::{PKey, Private};
use openssl::rsa::Rsa;
use openssl::sign::Signer;
use proc_monitor::fingerprint::fingerprint;
use proc_monitor::config::{poll_interval, Config, DEFAULT_POLL_INTERVAL_SECONDS};
use proc_monitor::identity::{
    establish_trust, startup, StartupError, TrustedIdentity, EXIT_UNTRUSTED, EXIT_USAGE,
};
use proc_monitor::notice::Severity;
use proc_monitor::signature::VerificationError;

fn rsa_key() -> PKey<Private> {
    PKey::from_rsa(Rsa::generate(2048).unwrap()).unwrap()
}

fn sign(key: &PKey<Private>, content: &[u8]) -> Vec<u8> {
    let mut signer = Signer::new(MessageDigest::sha256(), key).unwrap();
    signer.update(content).unwrap();
    signer.sign_to_vec().unwrap()
}

#[test]
fn poll_interval_defaults_to_two_seconds() {
    assert_eq!(DEFAULT_POLL_INTERVAL_SECONDS, 2);
    assert_eq!(poll_interval(None), 2);
}

#[test]
fn poll_interval_takes_what_is_asked_for() {
    assert_eq!(poll_interval(Some(1)), 1);
    assert_eq!(poll_interval(Some(5)), 5);
    assert_eq!(poll_interval(Some(u64::MAX)), u64::MAX);
}

#[test]
fn poll_interval_is_never_zero() {
    assert_eq!(poll_interval(Some(0)), 2);
}

#[test]
fn exit_codes_are_distinct_and_not_zero() {
    assert_eq!(EXIT_USAGE, 2);
    assert_eq!(EXIT_UNTRUSTED, 1);
    assert_eq!(StartupError::Usage.exit_code(), 2);
    assert_eq!(StartupError::Unreadable.exit_code(), 1);
    assert_eq!(StartupError::Untrusted.exit_code(), 1);
    for error in [
        VerificationError::MalformedKey,
        VerificationError::Unavailable,
        VerificationError::Failed,
    ] {
        assert_eq!(StartupError::Verification(error).exit_code(), 1);
    }
}

#[test]
fn establish_gives_the_identity_for_a_valid_signature() {
    let content = b"trusted bytes".to_vec();
    let identity =
        TrustedIdentity::establish("/opt/app/server".to_string(), &content, Ok(true)).unwrap();
    assert_eq!(identity.canonical_path(), "/opt/app/server");
    assert_eq!(*identity.content_fingerprint(), fingerprint(&content));
    assert_eq!(
        identity.content_fingerprint(),
        "6acd7c3c149b0fdbc542a20bb7ece8164ebf4b78148c3f65c2fddf208cc74e35"
    );
}

#[test]
fn establish_refuses_an_invalid_signature() {
    let outcome = TrustedIdentity::establish("/opt/app/server".to_string(), b"x", Ok(false));
    assert_eq!(outcome.unwrap_err(), StartupError::Untrusted);
}

#[test]
fn establish_refuses_when_the_check_failed() {
    for error in [
        VerificationError::MalformedKey,
        VerificationError::Unavailable,
        VerificationError::Failed,
    ] {
        let outcome = TrustedIdentity::establish("/opt/app/server".to_string(), b"x", Err(error));
        assert_eq!(outcome.unwrap_err(), StartupError::Verification(error));
    }
}

#[test]
fn establish_trust_accepts_a_signed_executable() {
    let key = rsa_key();
    let content = b"\x7fELF trusted executable".to_vec();
    let signature = sign(&key, &content);
    let pem = key.public_key_to_pem().unwrap();
    let identity =
        establish_trust("/opt/app/server".to_string(), &pem, &content, &signature).unwrap();
    assert_eq!(identity.canonical_path(), "/opt/app/server");
    assert_eq!(*identity.content_fingerprint(), fingerprint(&content));
}

#[test]
fn establish_trust_aborts_on_a_tampered_executable() {
    let key = rsa_key();
    let content = b"\x7fELF trusted executable".to_vec();
    let signature = sign(&key, &content);
    let pem = key.public_key_to_pem().unwrap();
    let mut tampered = content.clone();
    tampered.push(0);
    let error =
        establish_trust("/opt/app/server".to_string(), &pem, &tampered, &signature).unwrap_err();
    assert_eq!(error, StartupError::Untrusted);
    assert_ne!(error.exit_code(), 0);
    assert_ne!(error.exit_code(), StartupError::Usage.exit_code());
}

#[test]
fn establish_trust_aborts_on_a_malformed_key() {
    let key = rsa_key();
    let content = b"\x7fELF trusted executable".to_vec();
    let signature = sign(&key, &content);
    let error = establish_trust(
        "/opt/app/server".to_string(),
        b"-----BEGIN PUBLIC KEY-----\nnonsense\n-----END PUBLIC KEY-----\n",
        &content,
        &signature,
    )
    .unwrap_err();
    assert_eq!(error, StartupError::Verification(VerificationError::MalformedKey));
    assert_eq!(error.exit_code(), 1);
}

#[test]
fn startup_needs_every_input() {
    let path = "/opt/app/server".to_string();
    let some = || Some(b"x".to_vec());
    assert_eq!(
        startup(path.clone(), None, some(), some()).unwrap_err(),
        StartupError::Unreadable
    );
    assert_eq!(
        startup(path.clone(), some(), None, some()).unwrap_err(),
        StartupError::Unreadable
    );
    assert_eq!(
        startup(path.clone(), some(), some(), None).unwrap_err(),
        StartupError::Unreadable
    );
    assert_eq!(startup(path, None, None, None).unwrap_err(), StartupError::Unreadable);
}

#[test]
fn startup_accepts_a_signed_executable() {
    let key = rsa_key();
    let content = b"\x7fELF trusted executable".to_vec();
    let signature = sign(&key, &content);
    let pem = key.public_key_to_pem().unwrap();
    let identity = startup(
        "/opt/app/server".to_string(),
        Some(pem),
        Some(signature),
        Some(content.clone()),
    )
    .unwrap();
    assert_eq!(*identity.content_fingerprint(), fingerprint(&content));
}

#[test]
fn startup_aborts_on_a_tampered_executable_with_its_own_exit_code() {
    let key = rsa_key();
    let content = b"\x7fELF trusted executable".to_vec();
    let signature = sign(&key, &content);
    let pem = key.public_key_to_pem().unwrap();
    let mut tampered = content.clone();
    tampered[1] = b'X';
    let error = startup("/opt/app/server".to_string(), Some(pem), Some(signature), Some(tampered))
        .unwrap_err();
    assert_eq!(error, StartupError::Untrusted);
    assert_eq!(error.exit_code(), 1);
    assert_ne!(error.exit_code(), EXIT_USAGE);
    assert_eq!(error.severity(), Severity::Error);
}

#[test]
fn config_needs_the_three_paths() {
    let text = |s: &str| Some(s.to_string());
    assert_eq!(Config::new(None, None, None, None).unwrap_err(), StartupError::Usage);
    assert_eq!(
        Config::new(text("/bin/a"), None, None, Some(5)).unwrap_err(),
        StartupError::Usage
    );
    assert_eq!(
        Config::new(text("/bin/a"), text("/a.sig"), None, None).unwrap_err(),
        StartupError::Usage
    );
    assert_eq!(
        Config::new(None, text("/a.sig"), text("/a.pem"), None).unwrap_err(),
        StartupError::Usage
    );
    assert_eq!(
        Config::new(text("/bin/a"), None, text("/a.pem"), None).unwrap_err(),
        StartupError::Usage
    );
    assert_eq!(StartupError::Usage.exit_code(), EXIT_USAGE);
}

#[test]
fn config_keeps_the_inputs() {
    let text = |s: &str| Some(s.to_string());
    let config = Config::new(text("/bin/a"), text("/a.sig"), text("/a.pem"), Some(7)).unwrap();
    assert_eq!(config.trusted_executable_path(), "/bin/a");
    assert_eq!(config.signature_path(), "/a.sig");
    assert_eq!(config.public_key_path(), "/a.pem");
    assert_eq!(config.poll_interval_seconds(), 7);
}

#[test]
fn config_defaults_the_interval() {
    let text = |s: &str| Some(s.to_string());
    let config = Config::new(text("/bin/a"), text("/a.sig"), text("/a.pem"), None).unwrap();
    assert_eq!(config.poll_interval_seconds(), 2);
    let config = Config::new(text("/bin/a"), text("/a.sig"), text("/a.pem"), Some(0)).unwrap();
    assert_eq!(config.poll_interval_seconds(), 2);
}

#[test]
fn startup_errors_are_logged_as_errors() {
    for error in [
        StartupError::Usage,
        StartupError::Unreadable,
        StartupError::Untrusted,
        StartupError::Verification(VerificationError::MalformedKey),
    ] {
        assert_eq!(error.severity(), Severity::Error);
    }
}

#[test]
fn startup_gives_the_fingerprint_of_what_was_verified() {
    let key = rsa_key();
    let content = b"abc".to_vec();
    let signature = sign(&key, &content);
    let pem = key.public_key_to_pem().unwrap();
    let identity =
        startup("/opt/app/abc".to_string(), Some(pem), Some(signature), Some(content)).unwrap();
    assert_eq!(identity.canonical_path(), "/opt/app/abc");
    assert_eq!(
        identity.content_fingerprint(),
        "ba7816bf8f01cfea414140de5dae2223b00361a396177a9cb410ff61f20015ad"
    );
}
