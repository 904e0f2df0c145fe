//! The digest that summarises a wallet's history log.
//!
//! A log is digested as a chain: the digest of the empty log is the zero
//! hash, and each entry extends the digest of the log before it by one
//! SHA-256 computation over that digest followed by the entry.

use crate::crypto::{zero_bytes, Hash256};
use sha2::{Digest, Sha256};
use vstd::prelude::*;

verus! {

/// The SHA-256 digest of a byte string.
pub uninterp spec fn sha256_digest(data: Seq<u8>) -> Seq<u8>;

/// Calls `sha2::Sha256::digest` on the given bytes. Not proved, but taken
/// from that crate: the result is a function of those bytes alone, here
/// named `sha256_digest`. Nothing else is claimed of it.
#[verifier::external_body]
fn sha256(data: &Vec<u8>) -> (digest: [u8; 32])
    ensures
        digest@ == sha256_digest(data@),
{
    Sha256::digest(data.as_slice()).into()
}

/// The digest of a log, given the digest of the log without its last entry
/// and that entry.
pub open spec fn extended_digest(previous: Seq<u8>, entry: Hash256) -> Seq<u8> {
    sha256_digest(previous + entry@)
}

/// The digest of a whole history log.
pub open spec fn history_digest(log: Seq<Hash256>) -> Seq<u8>
    decreases log.len(),
{
    if log.len() == 0 {
        zero_bytes()
    } else {
        extended_digest(history_digest(log.drop_last()), log.last())
    }
}

/// Appending an entry to a log extends the log's digest by that entry.
pub proof fn lemma_digest_of_push(log: Seq<Hash256>, entry: Hash256)
    ensures
        history_digest(log.push(entry)) == extended_digest(history_digest(log), entry),
{
    assert(log.push(entry).drop_last() =~= log);
}

/// Extends the digest of a log by one more entry.
pub fn extend_digest(previous: &Hash256, entry: &Hash256) -> (next: Hash256)
    ensures
        next@ == extended_digest(previous@, *entry),
{
    let head = previous.to_bytes();
    let tail = entry.to_bytes();
    let mut data: Vec<u8> = Vec::new();
    let mut i: usize = 0;
    while i < 32
        invariant
            i <= 32,
            data@ == head@.subrange(0, i as int),
        decreases 32 - i,
    {
        data.push(head[i]);
        i += 1;
    }
    let mut j: usize = 0;
    while j < 32
        invariant
            j <= 32,
            data@ == head@ + tail@.subrange(0, j as int),
        decreases 32 - j,
    {
        data.push(tail[j]);
        j += 1;
    }
    assert(data@ == previous@ + entry@);
    Hash256::new(sha256(&data))
}

/// Computes the digest of a whole history log.
pub fn history_root(log: &Vec<Hash256>) -> (root: Hash256)
    ensures
        root@ == history_digest(log@),
{
    let mut root = Hash256::zero();
    let mut i: usize = 0;
    while i < log.len()
        invariant
            i <= log.len(),
            root@ == history_digest(log@.subrange(0, i as int)),
        decreases log.len() - i,
    {
        proof {
            lemma_digest_of_push(log@.subrange(0, i as int), log@[i as int]);
            assert(log@.subrange(0, i as int).push(log@[i as int]) =~= log@.subrange(0, i + 1));
        }
        root = extend_digest(&root, &log[i]);
        i += 1;
    }
    assert(log@.subrange(0, i as int) =~= log@);
    root
}

} // verus!
