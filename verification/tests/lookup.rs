use multisig_wallet::crypto::PublicKey;
use multisig_wallet::lookup::{find_key, has_key};

fn key(n: u8) -> PublicKey {
    PublicKey::new([n; 32])
}

#[test]
fn find_key_gives_the_first_occurrence() {
    let keys = vec![key(3), key(1), key(2), key(1)];
    assert_eq!(find_key(&keys, &key(3)), 0);
    assert_eq!(find_key(&keys, &key(1)), 1);
    assert_eq!(find_key(&keys, &key(2)), 2);
}

#[test]
fn find_key_gives_the_length_for_a_missing_key() {
    let keys = vec![key(3), key(1), key(2)];
    assert_eq!(find_key(&keys, &key(4)), 3);
    assert_eq!(find_key(&Vec::new(), &key(4)), 0);
}

#[test]
fn has_key_tells_whether_the_key_occurs() {
    let keys = vec![key(3), key(1), key(2)];
    assert!(has_key(&keys, &key(3)));
    assert!(has_key(&keys, &key(2)));
    assert!(!has_key(&keys, &key(4)));
    assert!(!has_key(&Vec::new(), &key(3)));
}
