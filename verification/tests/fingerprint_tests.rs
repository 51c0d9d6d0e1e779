use proc_monitor::fingerprint::{fingerprint, Fingerprinter, CHUNK_BYTES, FINGERPRINT_CHARS};
use sha2::{Digest, Sha256};

fn patterned(len: usize) -> Vec<u8> {
    (0..len).map(|i| (i * 31 % 251) as u8).collect()
}

#[test]
fn fingerprint_of_empty_content() {
    assert_eq!(
        fingerprint(b""),
        "e3b0c44298fc1c149afbf4c8996fb92427ae41e4649b934ca495991b7852b855"
    );
}

#[test]
fn fingerprint_of_hello_world() {
    assert_eq!(
        fingerprint(b"hello world"),
        "b94d27b9934d3e08a52e52d7da7dabfac484efe37a5380ee9088f7ace2efcde9"
    );
}

#[test]
fn fingerprint_of_abc() {
    assert_eq!(
        fingerprint(b"abc"),
        "ba7816bf8f01cfea414140de5dae2223b00361a396177a9cb410ff61f20015ad"
    );
}

#[test]
fn fingerprint_is_sixty_four_lower_hex_digits() {
    let text = fingerprint(&patterned(1000));
    assert_eq!(text.len(), FINGERPRINT_CHARS);
    assert!(text.chars().all(|c| c.is_ascii_digit() || ('a'..='f').contains(&c)));
}

#[test]
fn fingerprint_is_deterministic() {
    let content = patterned(3 * CHUNK_BYTES + 17);
    let first = fingerprint(&content);
    let second = fingerprint(&content);
    assert_eq!(first, second);
    assert_eq!(first, fingerprint(&content.clone()));
}

#[test]
fn fingerprint_tells_contents_apart() {
    let content = patterned(5000);
    let mut tampered = content.clone();
    tampered[4999] ^= 1;
    assert_ne!(fingerprint(&content), fingerprint(&tampered));
}

#[test]
fn fingerprint_agrees_with_the_hasher_on_large_content() {
    for len in [
        0,
        1,
        CHUNK_BYTES - 1,
        CHUNK_BYTES,
        CHUNK_BYTES + 1,
        2 * CHUNK_BYTES,
        5 * CHUNK_BYTES + 123,
    ] {
        let content = patterned(len);
        let expected = hex::encode(Sha256::digest(&content));
        assert_eq!(fingerprint(&content), expected);
    }
}

#[test]
fn fingerprinter_new_finishes_as_empty_content() {
    assert_eq!(Fingerprinter::new().finish(), fingerprint(b""));
}

#[test]
fn fingerprinter_does_not_depend_on_chunk_size() {
    let content = patterned(20_000);
    let whole = fingerprint(&content);
    for size in [1usize, 7, 64, 4096, 8192, 20_000, 50_000] {
        let mut state = Fingerprinter::new();
        for chunk in content.chunks(size) {
            state.update(chunk);
        }
        assert_eq!(state.finish(), whole);
    }
}

#[test]
fn fingerprinter_takes_empty_chunks() {
    let mut state = Fingerprinter::new();
    state.update(b"");
    state.update(b"hello ");
    state.update(b"");
    state.update(b"world");
    assert_eq!(
        state.finish(),
        "b94d27b9934d3e08a52e52d7da7dabfac484efe37a5380ee9088f7ace2efcde9"
    );
}
