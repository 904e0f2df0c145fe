use multisig_wallet::crypto::{Hash256, PublicKey, HASH_SIZE, PUBLIC_KEY_LENGTH};
use multisig_wallet::digest::{extend_digest, history_root};

fn numbered(first: u8) -> [u8; 32] {
    let mut bytes = [0u8; 32];
    for (i, byte) in bytes.iter_mut().enumerate() {
        *byte = first.wrapping_add(i as u8);
    }
    bytes
}

#[test]
fn sizes_are_thirty_two_bytes() {
    assert_eq!(HASH_SIZE, 32);
    assert_eq!(PUBLIC_KEY_LENGTH, 32);
}

#[test]
fn key_keeps_its_bytes() {
    let key = PublicKey::new(numbered(7));
    assert_eq!(key.to_bytes(), numbered(7));
}

#[test]
fn keys_are_equal_when_their_bytes_are() {
    assert_eq!(PublicKey::new(numbered(1)), PublicKey::new(numbered(1)));
    assert_ne!(PublicKey::new(numbered(1)), PublicKey::new(numbered(2)));
    let mut last = [9u8; 32];
    last[31] = 8;
    assert_ne!(PublicKey::new([9u8; 32]), PublicKey::new(last));
    let mut first = [9u8; 32];
    first[0] = 8;
    assert_ne!(PublicKey::new([9u8; 32]), PublicKey::new(first));
}

#[test]
fn hash_keeps_its_bytes() {
    let hash = Hash256::new(numbered(100));
    assert_eq!(hash.to_bytes(), numbered(100));
}

#[test]
fn hashes_are_equal_when_their_bytes_are() {
    assert_eq!(Hash256::new(numbered(3)), Hash256::new(numbered(3)));
    assert_ne!(Hash256::new(numbered(3)), Hash256::new(numbered(4)));
    let mut last = [0u8; 32];
    last[31] = 1;
    assert_ne!(Hash256::zero(), Hash256::new(last));
}

#[test]
fn zero_hash_is_all_zero() {
    assert_eq!(Hash256::zero().to_bytes(), [0u8; 32]);
    assert_eq!(Hash256::zero(), Hash256::new([0u8; 32]));
}

#[test]
fn digest_of_two_zero_hashes_is_sha256_of_sixty_four_zero_bytes() {
    let expected: [u8; 32] = [
        0xf5, 0xa5, 0xfd, 0x42, 0xd1, 0x6a, 0x20, 0x30, 0x27, 0x98, 0xef, 0x6e, 0xd3, 0x09, 0x97,
        0x9b, 0x43, 0x00, 0x3d, 0x23, 0x20, 0xd9, 0xf0, 0xe8, 0xea, 0x98, 0x31, 0xa9, 0x27, 0x59,
        0xfb, 0x4b,
    ];
    let digest = extend_digest(&Hash256::zero(), &Hash256::zero());
    assert_eq!(digest.to_bytes(), expected);
}

#[test]
fn digest_depends_on_both_parts_and_their_order() {
    let a = Hash256::new(numbered(1));
    let b = Hash256::new(numbered(2));
    let ab = extend_digest(&a, &b);
    let ba = extend_digest(&b, &a);
    assert_ne!(ab, ba);
    assert_ne!(ab, a);
    assert_ne!(ab, b);
    assert_eq!(ab, extend_digest(&a, &b));
    assert_ne!(ab, extend_digest(&a, &a));
    assert_ne!(ab, extend_digest(&b, &b));
}

#[test]
fn root_of_empty_log_is_zero() {
    assert_eq!(history_root(&Vec::new()), Hash256::zero());
}

#[test]
fn root_is_the_chain_of_the_entries() {
    let a = Hash256::new(numbered(10));
    let b = Hash256::new(numbered(20));
    let c = Hash256::new(numbered(30));
    let one = extend_digest(&Hash256::zero(), &a);
    let two = extend_digest(&one, &b);
    let three = extend_digest(&two, &c);
    assert_eq!(history_root(&vec![a]), one);
    assert_eq!(history_root(&vec![a, b]), two);
    assert_eq!(history_root(&vec![a, b, c]), three);
    assert_ne!(history_root(&vec![b, a, c]), three);
    assert_ne!(history_root(&vec![a, b]), history_root(&vec![a, b, c]));
}
