//! Finding the first occurrence of a key in a sequence.

use crate::crypto::PublicKey;
use vstd::prelude::*;

verus! {

/// The index of the first occurrence of `key` in `keys`, or the length of
/// `keys` where it does not occur.
pub open spec fn position<K>(keys: Seq<K>, key: K) -> int
    decreases keys.len(),
{
    if keys.len() == 0 || keys[0] == key {
        0
    } else {
        1 + position(keys.drop_first(), key)
    }
}

/// `position` is in range, points at the key where the key occurs, and
/// nothing before it is the key.
pub proof fn lemma_position<K>(keys: Seq<K>, key: K)
    ensures
        0 <= position(keys, key) <= keys.len(),
        position(keys, key) < keys.len() ==> keys[position(keys, key)] == key,
        forall|j: int| 0 <= j < position(keys, key) ==> keys[j] != key,
        keys.contains(key) <==> position(keys, key) < keys.len(),
    decreases keys.len(),
{
    if keys.len() == 0 || keys[0] == key {
    } else {
        let rest = keys.drop_first();
        lemma_position(rest, key);
        let p = position(rest, key);
        assert forall|j: int| 0 <= j < 1 + p implies keys[j] != key by {
            if j > 0 {
                assert(keys[j] == rest[j - 1]);
            }
        }
        if p < rest.len() {
            assert(keys[1 + p] == rest[p]);
        }
        if keys.contains(key) {
            let i = choose|i: int| 0 <= i < keys.len() && keys[i] == key;
            assert(rest[i - 1] == key);
        }
    }
}

/// An index with the key at it, if it is in range, and without the key
/// before it is the key's `position`.
pub proof fn lemma_position_is<K>(keys: Seq<K>, key: K, at: int)
    requires
        0 <= at <= keys.len(),
        forall|j: int| 0 <= j < at ==> keys[j] != key,
        at < keys.len() ==> keys[at] == key,
    ensures
        position(keys, key) == at,
{
    lemma_position(keys, key);
    let p = position(keys, key);
    if p < at {
        assert(keys[p] == key);
    } else if at < p {
        assert(keys[at] == key);
    }
}

/// A sequence without duplicates stays without them when a key that it
/// does not hold is appended.
pub proof fn lemma_push_no_duplicates<K>(keys: Seq<K>, key: K)
    requires
        keys.no_duplicates(),
        !keys.contains(key),
    ensures
        keys.push(key).no_duplicates(),
{
    let next = keys.push(key);
    assert forall|i: int, j: int|
        0 <= i < next.len() && 0 <= j < next.len() && i != j implies next[i] != next[j] by {
        if i < keys.len() {
            assert(keys[i] == next[i]);
        }
        if j < keys.len() {
            assert(keys[j] == next[j]);
        }
    }
}

/// Finds the first occurrence of a key among keys.
pub fn find_key(keys: &Vec<PublicKey>, key: &PublicKey) -> (at: usize)
    ensures
        at == position(keys@, *key),
{
    let mut i: usize = 0;
    while i < keys.len()
        invariant
            i <= keys.len(),
            forall|j: int| 0 <= j < i ==> keys@[j] != *key,
        decreases keys.len() - i,
    {
        if keys[i] == *key {
            proof {
                lemma_position_is(keys@, *key, i as int);
            }
            return i;
        }
        i += 1;
    }
    proof {
        lemma_position_is(keys@, *key, i as int);
    }
    i
}

/// Decides whether a key occurs among keys.
pub fn has_key(keys: &Vec<PublicKey>, key: &PublicKey) -> (found: bool)
    ensures
        found == keys@.contains(*key),
{
    proof {
        lemma_position(keys@, *key);
    }
    find_key(keys, key) < keys.len()
}

} // verus!
