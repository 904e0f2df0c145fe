//! Fixed-size identifiers: wallet keys and transaction hashes.

use vstd::prelude::*;
use vstd::std_specs::cmp::PartialEqSpecImpl;

verus! {

/// Number of bytes in a hash.
pub const HASH_SIZE: usize = 32;

/// Number of bytes in a public key.
pub const PUBLIC_KEY_LENGTH: usize = 32;

/// Decides whether two 32-byte strings hold the same bytes.
fn same_bytes(a: &[u8; 32], b: &[u8; 32]) -> (same: bool)
    ensures
        same == (a@ == b@),
{
    let mut i: usize = 0;
    while i < 32
        invariant
            i <= 32,
            forall|j: int| 0 <= j < i ==> a@[j] == b@[j],
        decreases 32 - i,
    {
        if a[i] != b[i] {
            return false;
        }
        i += 1;
    }
    assert(a@ =~= b@);
    true
}

/// The key that identifies a wallet and its owner, and each co-signer.
#[derive(Clone, Copy, Debug, Eq)]
pub struct PublicKey {
    bytes: [u8; 32],
}

impl View for PublicKey {
    type V = Seq<u8>;

    closed spec fn view(&self) -> Seq<u8> {
        self.bytes@
    }
}

impl PublicKey {
    /// Makes a key of the given bytes.
    pub fn new(bytes: [u8; 32]) -> (key: PublicKey)
        ensures
            key@ == bytes@,
    {
        PublicKey { bytes }
    }

    /// The bytes of the key.
    pub fn to_bytes(&self) -> (bytes: [u8; 32])
        ensures
            bytes@ == self@,
    {
        self.bytes
    }

    /// A key is its bytes: every key has 32 of them, and two keys with the
    /// same bytes are the same key.
    pub proof fn lemma_key_is_its_bytes(a: PublicKey, b: PublicKey)
        ensures
            a@.len() == 32,
            (a@ == b@) == (a == b),
    {
        if a@ == b@ {
            assert(a.bytes =~= b.bytes);
        }
    }
}

impl PartialEq for PublicKey {
    fn eq(&self, other: &PublicKey) -> (same: bool) {
        proof {
            PublicKey::lemma_key_is_its_bytes(*self, *other);
        }
        same_bytes(&self.bytes, &other.bytes)
    }
}

impl PartialEqSpecImpl for PublicKey {
    open spec fn obeys_eq_spec() -> bool {
        true
    }

    open spec fn eq_spec(&self, other: &PublicKey) -> bool {
        *self == *other
    }
}

/// The bytes of the hash that stands for "nothing hashed yet".
pub open spec fn zero_bytes() -> Seq<u8> {
    Seq::new(32, |i: int| 0u8)
}

/// The hash of a transaction, or the digest of a history log.
#[derive(Clone, Copy, Debug, Eq)]
pub struct Hash256 {
    bytes: [u8; 32],
}

impl View for Hash256 {
    type V = Seq<u8>;

    closed spec fn view(&self) -> Seq<u8> {
        self.bytes@
    }
}

impl Hash256 {
    /// Makes a hash of the given bytes.
    pub fn new(bytes: [u8; 32]) -> (hash: Hash256)
        ensures
            hash@ == bytes@,
    {
        Hash256 { bytes }
    }

    /// The hash whose bytes are all zero.
    pub fn zero() -> (hash: Hash256)
        ensures
            hash@ == zero_bytes(),
    {
        let hash = Hash256 { bytes: [0u8; 32] };
        assert(hash@ =~= zero_bytes());
        hash
    }

    /// The bytes of the hash.
    pub fn to_bytes(&self) -> (bytes: [u8; 32])
        ensures
            bytes@ == self@,
    {
        self.bytes
    }

    /// A hash is its bytes: every hash has 32 of them, and two hashes with
    /// the same bytes are the same hash.
    pub proof fn lemma_hash_is_its_bytes(a: Hash256, b: Hash256)
        ensures
            a@.len() == 32,
            (a@ == b@) == (a == b),
    {
        if a@ == b@ {
            assert(a.bytes =~= b.bytes);
        }
    }
}

impl PartialEq for Hash256 {
    fn eq(&self, other: &Hash256) -> (same: bool) {
        proof {
            Hash256::lemma_hash_is_its_bytes(*self, *other);
        }
        same_bytes(&self.bytes, &other.bytes)
    }
}

impl PartialEqSpecImpl for Hash256 {
    open spec fn obeys_eq_spec() -> bool {
        true
    }

    open spec fn eq_spec(&self, other: &Hash256) -> bool {
        *self == *other
    }
}

} // verus!
