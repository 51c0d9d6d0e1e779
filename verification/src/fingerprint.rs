//! Content fingerprints: the hexadecimal text of the SHA-256 digest of a
//! byte string, computed chunk by chunk.

use vstd::prelude::*;
use sha2::Digest;
use sha2::Sha256;
use crate::hexcode::{hex_text, lemma_lower_hex_injective, lower_hex};

verus! {

/// The SHA-256 hasher of the `sha2` crate. Its inside is hidden.
#[verifier::external_type_specification]
#[verifier::external_body]
pub struct ExSha256(Sha256);

/// The SHA-256 digest of `message`, as the `sha2` crate computes it.
pub uninterp spec fn sha256(message: Seq<u8>) -> Seq<u8>;

/// The bytes that a hasher has taken in so far, in the order in which they
/// were given.
pub uninterp spec fn absorbed(hasher: Sha256) -> Seq<u8>;

/// Number of bytes in a SHA-256 digest.
pub const DIGEST_BYTES: usize = 32;

/// Number of characters in a fingerprint.
pub const FINGERPRINT_CHARS: usize = 64;

/// Largest number of bytes handed to the hasher in one step.
pub const CHUNK_BYTES: usize = 8192;

/// Calls `Sha256::new`. A new hasher has taken in nothing.
#[verifier::external_body]
fn hasher_new() -> (hasher: Sha256)
    ensures
        absorbed(hasher) == Seq::<u8>::empty(),
{
    Sha256::new()
}

/// Calls `Digest::update`, which processes `chunk` after what the hasher has
/// already taken in.
#[verifier::external_body]
fn hasher_update(hasher: &mut Sha256, chunk: &[u8])
    ensures
        absorbed(*final(hasher)) == absorbed(*old(hasher)) + chunk@,
{
    hasher.update(chunk)
}

/// Calls `Digest::finalize`, which gives the digest of everything the hasher
/// has taken in: 32 bytes, whatever was given and however it was cut into
/// chunks.
#[verifier::external_body]
fn hasher_finalize(hasher: Sha256) -> (digest: Vec<u8>)
    ensures
        digest@ == sha256(absorbed(hasher)),
        digest@.len() == DIGEST_BYTES,
{
    hasher.finalize().to_vec()
}

/// The fingerprint of `content`: the lower-case hexadecimal text of its
/// SHA-256 digest.
pub open spec fn fingerprint_of(content: Seq<u8>) -> Seq<char> {
    lower_hex(sha256(content))
}

/// What a hasher has taken in after it was fed `chunks` one after another,
/// starting from `fed`.
pub open spec fn absorb(fed: Seq<u8>, chunks: Seq<Seq<u8>>) -> Seq<u8>
    decreases chunks.len(),
{
    if chunks.len() == 0 {
        fed
    } else {
        absorb(fed + chunks.first(), chunks.drop_first())
    }
}

/// Equal content has equal fingerprints: a fingerprint depends on nothing but
/// the bytes.
pub proof fn law_fingerprint_is_deterministic(first: Seq<u8>, second: Seq<u8>)
    requires
        first == second,
    ensures
        fingerprint_of(first) == fingerprint_of(second),
{
}

/// Two contents have the same fingerprint exactly when they have the same
/// digest: the hexadecimal text loses nothing.
pub proof fn law_fingerprint_tells_digests_apart(first: Seq<u8>, second: Seq<u8>)
    ensures
        fingerprint_of(first) == fingerprint_of(second) <==> sha256(first) == sha256(second),
{
    if fingerprint_of(first) == fingerprint_of(second) {
        lemma_lower_hex_injective(sha256(first), sha256(second));
    }
}

/// Fed one after another, chunks add up to their concatenation.
proof fn lemma_chunks_add_up(fed: Seq<u8>, chunks: Seq<Seq<u8>>)
    ensures
        absorb(fed, chunks) == fed + chunks.flatten(),
    decreases chunks.len(),
{
    if chunks.len() == 0 {
    } else {
        lemma_chunks_add_up(fed + chunks.first(), chunks.drop_first());
    }
}

/// How the content is cut into chunks does not matter: the fingerprint of
/// what a new hasher has taken in, chunk after chunk, is the fingerprint of
/// the chunks put together.
pub proof fn law_chunking_does_not_matter(chunks: Seq<Seq<u8>>)
    ensures
        absorb(Seq::empty(), chunks) == chunks.flatten(),
        fingerprint_of(absorb(Seq::empty(), chunks)) == fingerprint_of(chunks.flatten()),
{
    lemma_chunks_add_up(Seq::empty(), chunks);
}

/// A fingerprint in the making. Content is fed in chunks of any size; the
/// view is everything fed so far.
pub struct Fingerprinter {
    hasher: Sha256,
}

impl View for Fingerprinter {
    type V = Seq<u8>;

    closed spec fn view(&self) -> Seq<u8> {
        absorbed(self.hasher)
    }
}

impl Fingerprinter {
    /// A fingerprinter that has been fed nothing.
    pub fn new() -> (fresh: Fingerprinter)
        ensures
            fresh@ == Seq::<u8>::empty(),
    {
        Fingerprinter { hasher: hasher_new() }
    }

    /// Feeds `chunk` after what has been fed before.
    pub fn update(&mut self, chunk: &[u8])
        ensures
            final(self)@ == old(self)@ + chunk@,
    {
        hasher_update(&mut self.hasher, chunk);
    }

    /// The fingerprint of everything that was fed.
    pub fn finish(self) -> (text: String)
        ensures
            text@ == fingerprint_of(self@),
            text@.len() == FINGERPRINT_CHARS,
    {
        let digest = hasher_finalize(self.hasher);
        hex_text(digest.as_slice())
    }
}

/// The fingerprint of `content`, fed to the hasher in chunks of at most
/// `CHUNK_BYTES` bytes.
pub fn fingerprint(content: &[u8]) -> (text: String)
    ensures
        text@ == fingerprint_of(content@),
        text@.len() == FINGERPRINT_CHARS,
{
    let mut state = Fingerprinter::new();
    let mut offset: usize = 0;
    while offset < content.len()
        invariant
            offset <= content.len(),
            state@ == content@.subrange(0, offset as int),
        decreases content.len() - offset,
    {
        let remaining: usize = content.len() - offset;
        let step: usize = if remaining < CHUNK_BYTES {
            remaining
        } else {
            CHUNK_BYTES
        };
        let end: usize = offset + step;
        state.update(&content[offset..end]);
        offset = end;
    }
    assert(content@.subrange(0, content.len() as int) =~= content@);
    state.finish()
}

} // verus!
