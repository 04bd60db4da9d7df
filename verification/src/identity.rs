//! Content identity: the short hash by which a document is known, whatever
//! its name or place.

use crate::hex::{encode, hex_of};
use vstd::prelude::*;

verus! {

/// The number of digest bytes that a content hash keeps.
pub const HASH_BYTES: usize = 8;

/// A running SHA-256 computation of the `sha2` crate.
#[verifier::external_body]
pub struct Sha256State {
    inner: sha2::Sha256,
}

/// The bytes that a running SHA-256 computation has taken in so far.
pub uninterp spec fn absorbed(state: Sha256State) -> Seq<u8>;

/// The SHA-256 digest of `data`.
pub uninterp spec fn sha256(data: Seq<u8>) -> Seq<u8>;

/// `Digest::new` for `Sha256`: a computation that has taken in nothing.
#[verifier::external_body]
fn sha256_new() -> (state: Sha256State)
    ensures
        absorbed(state) == Seq::<u8>::empty(),
{
    Sha256State { inner: <sha2::Sha256 as sha2::Digest>::new() }
}

/// `Digest::update` for `Sha256`: the computation takes in `data` after what
/// it has taken in before.
#[verifier::external_body]
fn sha256_update(state: &mut Sha256State, data: &[u8])
    ensures
        absorbed(*final(state)) == absorbed(*old(state)) + data@,
{
    sha2::Digest::update(&mut state.inner, data);
}

/// `Digest::finalize` for `Sha256`: the digest of all that was taken in,
/// which has 32 bytes.
#[verifier::external_body]
fn sha256_finalize(state: Sha256State) -> (digest: Vec<u8>)
    ensures
        digest@ == sha256(absorbed(state)),
        digest@.len() == 32,
{
    sha2::Digest::finalize(state.inner).to_vec()
}

/// The content hash of a document with the contents `data`: the first eight
/// bytes of its SHA-256 digest, in lower-case hexadecimal.
pub open spec fn content_hash(data: Seq<u8>) -> Seq<char> {
    hex_of(sha256(data).take(HASH_BYTES as int))
}

/// Computes a content hash piece by piece, so that a document need not be
/// held in memory as a whole.
pub struct ContentHasher {
    state: Sha256State,
}

impl ContentHasher {
    /// The contents fed in so far.
    pub closed spec fn seen(&self) -> Seq<u8> {
        absorbed(self.state)
    }

    /// A hasher that has been fed nothing.
    pub fn new() -> (hasher: ContentHasher)
        ensures
            hasher.seen() == Seq::<u8>::empty(),
    {
        ContentHasher { state: sha256_new() }
    }

    /// Feeds the next piece of the contents.
    pub fn update(&mut self, chunk: &[u8])
        ensures
            final(self).seen() == old(self).seen() + chunk@,
    {
        sha256_update(&mut self.state, chunk);
    }

    /// The content hash of all that was fed in.
    pub fn finish(self) -> (hash: String)
        ensures
            hash@ == content_hash(self.seen()),
            hash@.len() == 2 * HASH_BYTES,
    {
        let digest = sha256_finalize(self.state);
        let head = vstd::slice::slice_subrange(digest.as_slice(), 0, HASH_BYTES);
        encode(head)
    }
}

/// The content hash of a document with the contents `data`. Two documents
/// with the same contents have the same hash.
pub fn compute_hash(data: &[u8]) -> (hash: String)
    ensures
        hash@ == content_hash(data@),
        hash@.len() == 2 * HASH_BYTES,
{
    let mut hasher = ContentHasher::new();
    hasher.update(data);
    hasher.finish()
}

} // verus!
