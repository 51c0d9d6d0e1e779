use openssl::ec::{EcGroup, EcKey};
use openssl::hash::MessageDigest;
use openssl::nid::Nid;
use openssl::pkey::{PKey, Private};
use openssl::rsa::Rsa;
use openssl::sign::Signer;
use openssl::error::ErrorStack;
use proc_monitor::signature::{answer_of, verify, VerificationError, MAX_PEM_BYTES};

fn rsa_key() -> PKey<Private> {
    PKey::from_rsa(Rsa::generate(2048).unwrap()).unwrap()
}

fn public_pem(key: &PKey<Private>) -> Vec<u8> {
    key.public_key_to_pem().unwrap()
}

fn sign(key: &PKey<Private>, content: &[u8]) -> Vec<u8> {
    let mut signer = Signer::new(MessageDigest::sha256(), key).unwrap();
    signer.update(content).unwrap();
    signer.sign_to_vec().unwrap()
}

#[test]
fn verify_accepts_a_signature_by_the_matching_key() {
    let key = rsa_key();
    let content = b"the trusted executable".to_vec();
    let signature = sign(&key, &content);
    assert_eq!(verify(&public_pem(&key), &content, &signature), Ok(true));
}

#[test]
fn verify_accepts_signatures_over_many_contents() {
    let key = rsa_key();
    let pem = public_pem(&key);
    for len in [0usize, 1, 100, 8192, 100_000] {
        let content: Vec<u8> = (0..len).map(|i| (i % 256) as u8).collect();
        let signature = sign(&key, &content);
        assert_eq!(verify(&pem, &content, &signature), Ok(true));
    }
}

#[test]
fn verify_rejects_tampered_content() {
    let key = rsa_key();
    let content = b"the trusted executable".to_vec();
    let signature = sign(&key, &content);
    let mut tampered = content.clone();
    tampered[0] ^= 0x01;
    assert_eq!(verify(&public_pem(&key), &tampered, &signature), Ok(false));
}

#[test]
fn verify_rejects_a_signature_by_another_key() {
    let signer_key = rsa_key();
    let other_key = rsa_key();
    let content = b"the trusted executable".to_vec();
    let signature = sign(&signer_key, &content);
    assert_eq!(verify(&public_pem(&other_key), &content, &signature), Ok(false));
}

#[test]
fn verify_says_false_for_a_well_formed_signature_that_does_not_match() {
    let key = rsa_key();
    let content = b"the trusted executable".to_vec();
    let signature = sign(&key, b"something else entirely");
    assert_eq!(signature.len(), 256);
    assert_eq!(verify(&public_pem(&key), &content, &signature), Ok(false));
}

#[test]
fn verify_says_false_for_a_damaged_signature() {
    let key = rsa_key();
    let content = b"the trusted executable".to_vec();
    let mut signature = sign(&key, &content);
    let last = signature.len() - 1;
    signature[last] ^= 0x80;
    assert_eq!(verify(&public_pem(&key), &content, &signature), Ok(false));
}

#[test]
fn verify_says_false_for_an_empty_signature() {
    let key = rsa_key();
    assert_eq!(verify(&public_pem(&key), b"content", b""), Ok(false));
}

#[test]
fn verify_fails_on_a_malformed_key() {
    let key = rsa_key();
    let content = b"the trusted executable".to_vec();
    let signature = sign(&key, &content);
    assert_eq!(
        verify(b"this is not a key", &content, &signature),
        Err(VerificationError::MalformedKey)
    );
    assert_eq!(verify(b"", &content, &signature), Err(VerificationError::MalformedKey));
}

#[test]
fn verify_fails_on_a_truncated_key() {
    let key = rsa_key();
    let content = b"the trusted executable".to_vec();
    let signature = sign(&key, &content);
    let pem = public_pem(&key);
    let truncated = &pem[..pem.len() / 2];
    assert_eq!(
        verify(truncated, &content, &signature),
        Err(VerificationError::MalformedKey)
    );
}

#[test]
fn verify_fails_on_a_private_key_in_place_of_a_public_one() {
    let key = rsa_key();
    let content = b"the trusted executable".to_vec();
    let signature = sign(&key, &content);
    let private_pem = key.private_key_to_pem_pkcs8().unwrap();
    assert_eq!(
        verify(&private_pem, &content, &signature),
        Err(VerificationError::MalformedKey)
    );
}

#[test]
fn verify_works_with_an_elliptic_curve_key() {
    let group = EcGroup::from_curve_name(Nid::X9_62_PRIME256V1).unwrap();
    let key = PKey::from_ec_key(EcKey::generate(&group).unwrap()).unwrap();
    let content = b"the trusted executable".to_vec();
    let signature = sign(&key, &content);
    assert_eq!(verify(&public_pem(&key), &content, &signature), Ok(true));
    assert_eq!(verify(&public_pem(&key), b"other", &signature), Ok(false));
}

#[test]
fn verify_is_deterministic() {
    let key = rsa_key();
    let pem = public_pem(&key);
    let content = b"the trusted executable".to_vec();
    let signature = sign(&key, &content);
    let first = verify(&pem, &content, &signature);
    let second = verify(&pem, &content, &signature);
    assert_eq!(first, second);
}

#[test]
fn answer_of_keeps_the_verifiers_answer() {
    assert_eq!(answer_of(Ok(true)), Ok(true));
    assert_eq!(answer_of(Ok(false)), Ok(false));
}

#[test]
fn answer_of_turns_a_failure_into_an_error() {
    assert_eq!(answer_of(Err(ErrorStack::get())), Err(VerificationError::Failed));
}

#[test]
fn pem_limit_is_the_largest_signed_32_bit_number() {
    assert_eq!(MAX_PEM_BYTES, 2_147_483_647);
}

#[test]
fn verify_cannot_set_up_a_digest_for_an_ed25519_key() {
    let key = PKey::generate_ed25519().unwrap();
    let pem = key.public_key_to_pem().unwrap();
    assert_eq!(verify(&pem, b"content", &[0u8; 64]), Err(VerificationError::Unavailable));
}

#[test]
fn verify_fails_on_a_signature_that_is_not_in_the_form_of_the_key_kind() {
    let group = EcGroup::from_curve_name(Nid::X9_62_PRIME256V1).unwrap();
    let key = PKey::from_ec_key(EcKey::generate(&group).unwrap()).unwrap();
    assert_eq!(
        verify(&public_pem(&key), b"content", b"not a DER signature"),
        Err(VerificationError::Failed)
    );
}

const FIXED_PUBLIC_KEY: &str = "-----BEGIN PUBLIC KEY-----
MIIBIjANBgkqhkiG9w0BAQEFAAOCAQ8AMIIBCgKCAQEA0l+omD8Kp8soAaauBLCF
yB6+mCbOYDf/B/OlEzsIVhLXcKICWj79aEJhyzLGwMVd8YrgQobAjxHCnvonMkPQ
oDr+ZKOHbEcqUY5B+xw3RWsnOx0YvAamBnzg1LppFzUVLdwrWr+raglMM25Bwc1+
hwbehCVDiKkUExijM2rJg/SOmwdYFBzp2yJzAZtTZ94qMYqXmyiDH9tV7JZrGBxB
+pTDZcVlhNpEd14QuFVkdjMNDH9PlW66u2KVw800CULIEwDCSfyyqbXGwAPJkXE0
39TMibsMhBKEm0vQkTqU4HhSV1Jbf1yP50qnBLjtXXuryQ4Oez9JHa8PjGuvqF7J
jwIDAQAB
-----END PUBLIC KEY-----
";

const FIXED_CONTENT: &[u8] = b"the trusted executable, as it was signed";

const FIXED_SIGNATURE: &str = "\
93cd98b2c13cd5580df67b40fff6b75c82d3204f7f179c82e6e6925251bfadfd\
6fd24553c1f5394b8e995b5dd32568734ddcbe68e4f30abed1fcee976ee4420b\
85395542e37e9cf5f092cec566dcb8b33dad88c744c14efa915b758912f7d78c\
7031c9b0d1bc166ceed88f2d6d862a27e5509abc764cdd0d76673d76496ef9a2\
1b823ab5b5515351a9cbbe65e0a858e9226904250c9eb2305caa62e6a6b98c1e\
f611603deab57bc5f5e1b1eb21e8f3c107ab9659728a1aa43f3f850d9d688d4c\
51532121e992c7ed58a3a62915c65b9a292ea80bbe4474924e50fa9d8d2bdbf7\
d1e74d869bdcb592116a9730846a3b9e5387edeb480146d0158ce2adb7790fa0";

#[test]
fn verify_accepts_a_known_signature() {
    let signature = hex::decode(FIXED_SIGNATURE).unwrap();
    assert_eq!(verify(FIXED_PUBLIC_KEY.as_bytes(), FIXED_CONTENT, &signature), Ok(true));
}

#[test]
fn verify_rejects_a_known_signature_over_other_content() {
    let signature = hex::decode(FIXED_SIGNATURE).unwrap();
    let other = b"the trusted executable, as it was signee";
    assert_eq!(verify(FIXED_PUBLIC_KEY.as_bytes(), other, &signature), Ok(false));
    assert_eq!(verify(FIXED_PUBLIC_KEY.as_bytes(), b"", &signature), Ok(false));
}

#[test]
fn verify_rejects_a_known_signature_with_one_bit_changed() {
    let mut signature = hex::decode(FIXED_SIGNATURE).unwrap();
    signature[100] ^= 0x04;
    assert_eq!(verify(FIXED_PUBLIC_KEY.as_bytes(), FIXED_CONTENT, &signature), Ok(false));
}

#[test]
fn verify_takes_the_key_with_text_around_it() {
    let signature = hex::decode(FIXED_SIGNATURE).unwrap();
    let padded = format!("some notes before the key\n{}", FIXED_PUBLIC_KEY);
    assert_eq!(verify(padded.as_bytes(), FIXED_CONTENT, &signature), Ok(true));
}
