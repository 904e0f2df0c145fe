use multisig_wallet::crypto::{Hash256, PublicKey};
use multisig_wallet::digest::{extend_digest, history_root};
use multisig_wallet::ledger::INITIAL_BALANCE;
use multisig_wallet::schema::Schema;
use multisig_wallet::transaction::PendingTransaction;

fn key(n: u8) -> PublicKey {
    PublicKey::new([n; 32])
}

fn hash(n: u8) -> Hash256 {
    Hash256::new([n; 32])
}

#[test]
fn initial_balance_is_one_hundred() {
    assert_eq!(INITIAL_BALANCE, 100);
}

#[test]
fn new_schema_is_empty() {
    let schema = Schema::new();
    assert!(schema.wallets().is_empty());
    assert!(schema.awaiting_txs().is_empty());
    assert!(schema.wallet(&key(1)).is_none());
    assert!(schema.awaiting_tx(&hash(1)).is_none());
    assert!(schema.wallet_history(&key(1)).is_empty());
}

#[test]
fn create_wallet_stores_a_fresh_wallet() {
    let mut schema = Schema::new();
    schema.create_wallet(&key(1), "alice", &hash(10));
    let wallet = schema.wallet(&key(1)).unwrap();
    assert_eq!(wallet.pub_key, key(1));
    assert_eq!(wallet.name, "alice");
    assert_eq!(wallet.balance, 100);
    assert!(wallet.signers.is_empty());
    assert!(wallet.pending_txs.is_empty());
    assert!(wallet.txs.is_empty());
    assert_eq!(wallet.history_len, 1);
    assert_eq!(wallet.history_hash, extend_digest(&Hash256::zero(), &hash(10)));
    assert_eq!(schema.wallet_history(&key(1)), vec![hash(10)]);
    assert!(schema.wallet(&key(2)).is_none());
}

#[test]
fn create_wallet_on_an_existing_key_replaces_the_record_and_keeps_the_log() {
    let mut schema = Schema::new();
    schema.create_wallet(&key(1), "alice", &hash(10));
    let wallet = schema.wallet(&key(1)).unwrap();
    schema.add_signer(&wallet, &key(5), &hash(11));
    schema.create_wallet(&key(1), "again", &hash(12));
    let wallet = schema.wallet(&key(1)).unwrap();
    assert_eq!(wallet.name, "again");
    assert_eq!(wallet.balance, 100);
    assert!(wallet.signers.is_empty());
    assert_eq!(wallet.history_len, 3);
    assert_eq!(schema.wallet_history(&key(1)), vec![hash(10), hash(11), hash(12)]);
    assert_eq!(wallet.history_hash, history_root(&vec![hash(10), hash(11), hash(12)]));
    assert_eq!(schema.wallets().len(), 1);
}

#[test]
fn wallets_lists_every_wallet_once() {
    let mut schema = Schema::new();
    schema.create_wallet(&key(1), "alice", &hash(10));
    schema.create_wallet(&key(2), "bob", &hash(11));
    schema.create_wallet(&key(3), "carol", &hash(12));
    let all = schema.wallets();
    assert_eq!(all.len(), 3);
    for n in 1..=3u8 {
        assert_eq!(all.iter().filter(|wallet| wallet.pub_key == key(n)).count(), 1);
    }
    assert_eq!(all[0].name, "alice");
    assert_eq!(all[1].name, "bob");
    assert_eq!(all[2].name, "carol");
}

#[test]
fn add_signer_writes_wallet_and_history() {
    let mut schema = Schema::new();
    schema.create_wallet(&key(1), "alice", &hash(10));
    let wallet = schema.wallet(&key(1)).unwrap();
    let new_wallet = schema.add_signer(&wallet, &key(5), &hash(11));
    assert_eq!(new_wallet.signers, vec![key(5)]);
    assert_eq!(new_wallet.history_len, 2);
    let stored = schema.wallet(&key(1)).unwrap();
    assert_eq!(stored.signers, vec![key(5)]);
    assert_eq!(stored.history_len, 2);
    assert_eq!(stored.history_hash, new_wallet.history_hash);
    assert_eq!(stored.history_hash, history_root(&vec![hash(10), hash(11)]));
    assert_eq!(schema.wallet_history(&key(1)), vec![hash(10), hash(11)]);
    assert_eq!(stored.balance, 100);
    assert_eq!(stored.name, "alice");
}

#[test]
fn add_pending_tx_writes_wallet_and_history() {
    let mut schema = Schema::new();
    schema.create_wallet(&key(1), "alice", &hash(10));
    schema.create_wallet(&key(2), "bob", &hash(11));
    let wallet = schema.wallet(&key(1)).unwrap();
    let new_wallet = schema.add_pending_tx(&wallet, &hash(20), &key(2), 30, &hash(12));
    assert_eq!(new_wallet.pending_txs.len(), 1);
    let stored = schema.wallet(&key(1)).unwrap();
    assert_eq!(stored.pending_txs.len(), 1);
    assert_eq!(stored.pending_txs[0].tx_hash, hash(20));
    assert_eq!(stored.pending_txs[0].recipient, key(2));
    assert_eq!(stored.pending_txs[0].amount, 30);
    assert!(stored.pending_txs[0].approvals.is_empty());
    assert_eq!(stored.balance, 100);
    assert_eq!(stored.history_len, 2);
    assert_eq!(schema.wallet_history(&key(1)), vec![hash(10), hash(12)]);
    assert_eq!(stored.history_hash, history_root(&vec![hash(10), hash(12)]));
    let other = schema.wallet(&key(2)).unwrap();
    assert_eq!(other.history_len, 1);
    assert!(other.pending_txs.is_empty());
}

#[test]
fn sign_pending_tx_writes_wallet_and_history() {
    let mut schema = Schema::new();
    schema.create_wallet(&key(1), "alice", &hash(10));
    let wallet = schema.wallet(&key(1)).unwrap();
    let wallet = schema.add_pending_tx(&wallet, &hash(20), &key(2), 30, &hash(11));
    let new_wallet = schema.sign_pending_tx(&wallet, &hash(20), &key(5), &hash(12));
    assert_eq!(new_wallet.pending_txs[0].approvals, vec![key(5)]);
    let stored = schema.wallet(&key(1)).unwrap();
    assert_eq!(stored.pending_txs[0].approvals, vec![key(5)]);
    assert_eq!(stored.history_len, 3);
    assert_eq!(stored.history_hash, history_root(&vec![hash(10), hash(11), hash(12)]));
}

#[test]
fn confirm_pending_tx_settles_in_one_step_and_leaves_balances() {
    let mut schema = Schema::new();
    schema.create_wallet(&key(1), "alice", &hash(10));
    let wallet = schema.wallet(&key(1)).unwrap();
    let wallet = schema.add_pending_tx(&wallet, &hash(20), &key(2), 30, &hash(11));
    let wallet = schema.sign_pending_tx(&wallet, &hash(20), &key(5), &hash(12));
    let pending: PendingTransaction = wallet.pending_txs[0].clone();
    let new_wallet = schema.confirm_pending_tx(&wallet, &pending, 44, &hash(13));
    assert!(new_wallet.pending_txs.is_empty());
    let stored = schema.wallet(&key(1)).unwrap();
    assert!(stored.pending_txs.is_empty());
    assert_eq!(stored.txs.len(), 1);
    assert_eq!(stored.txs[0].tx_hash, hash(20));
    assert_eq!(stored.txs[0].recipient, key(2));
    assert_eq!(stored.txs[0].amount, 30);
    assert_eq!(stored.txs[0].approvals, vec![key(5)]);
    assert_eq!(stored.txs[0].confirmation_block, 44);
    assert_eq!(stored.balance, 100);
    assert_eq!(stored.history_len, 4);
    assert_eq!(schema.wallet_history(&key(1)).len(), 4);
    assert_eq!(stored.history_hash, history_root(&schema.wallet_history(&key(1))));
}

#[test]
fn balance_helpers_add_and_take_exactly() {
    let mut schema = Schema::new();
    schema.create_wallet(&key(1), "alice", &hash(10));
    let wallet = schema.wallet(&key(1)).unwrap();
    let wallet = schema.increase_wallet_balance(&wallet, 23, &hash(11));
    assert_eq!(wallet.balance, 123);
    assert_eq!(wallet.history_len, 2);
    let wallet = schema.decrease_wallet_balance(&wallet, 123, &hash(12));
    assert_eq!(wallet.balance, 0);
    assert_eq!(wallet.history_len, 3);
    let wallet = schema.increase_wallet_balance(&wallet, u64::MAX, &hash(13));
    assert_eq!(wallet.balance, u64::MAX);
    let stored = schema.wallet(&key(1)).unwrap();
    assert_eq!(stored.balance, u64::MAX);
    assert_eq!(stored.history_len, 4);
    assert_eq!(schema.wallet_history(&key(1)), vec![hash(10), hash(11), hash(12), hash(13)]);
    assert_eq!(stored.history_hash, history_root(&schema.wallet_history(&key(1))));
}

#[test]
fn awaiting_index_inserts_replaces_and_removes() {
    let mut schema = Schema::new();
    schema.add_awaiting_tx(&hash(1), &hash(2), &key(3));
    schema.add_awaiting_tx(&hash(4), &hash(5), &key(6));
    let entry = schema.awaiting_tx(&hash(1)).unwrap();
    assert_eq!(entry.origin, key(3));
    assert_eq!(entry.tx_hash, hash(2));
    let entry = schema.awaiting_tx(&hash(4)).unwrap();
    assert_eq!(entry.origin, key(6));
    assert_eq!(entry.tx_hash, hash(5));
    assert!(schema.awaiting_tx(&hash(2)).is_none());

    schema.add_awaiting_tx(&hash(1), &hash(7), &key(8));
    let entry = schema.awaiting_tx(&hash(1)).unwrap();
    assert_eq!(entry.origin, key(8));
    assert_eq!(entry.tx_hash, hash(7));
    assert_eq!(schema.awaiting_txs().len(), 2);

    schema.remove_awaiting_tx(&hash(1));
    assert!(schema.awaiting_tx(&hash(1)).is_none());
    let entry = schema.awaiting_tx(&hash(4)).unwrap();
    assert_eq!(entry.origin, key(6));
    let all = schema.awaiting_txs();
    assert_eq!(all.len(), 1);
    assert_eq!(all[0].0, hash(4));
    assert_eq!(all[0].1.tx_hash, hash(5));

    schema.remove_awaiting_tx(&hash(9));
    assert_eq!(schema.awaiting_txs().len(), 1);
    schema.remove_awaiting_tx(&hash(4));
    assert!(schema.awaiting_txs().is_empty());
}

#[test]
fn every_wallet_agrees_with_its_log_after_many_writes() {
    let mut schema = Schema::new();
    for n in 1..=4u8 {
        schema.create_wallet(&key(n), "w", &hash(n));
    }
    for round in 0..5u8 {
        for n in 1..=4u8 {
            let wallet = schema.wallet(&key(n)).unwrap();
            let before = wallet.history_len;
            let wallet = schema.add_signer(&wallet, &key(100 + round), &hash(50 + round));
            assert_eq!(wallet.history_len, before + 1);
        }
    }
    for wallet in schema.wallets() {
        let log = schema.wallet_history(&wallet.pub_key);
        assert_eq!(wallet.history_len, log.len() as u64);
        assert_eq!(wallet.history_len, 6);
        assert_eq!(wallet.history_hash, history_root(&log));
    }
}

#[test]
fn remove_awaiting_transfer_removes_by_what_the_entry_names() {
    let mut schema = Schema::new();
    schema.add_awaiting_tx(&hash(1), &hash(9), &key(3));
    schema.add_awaiting_tx(&hash(2), &hash(9), &key(4));
    schema.add_awaiting_tx(&hash(3), &hash(8), &key(3));
    schema.add_awaiting_tx(&hash(4), &hash(9), &key(3));
    schema.add_awaiting_tx(&hash(9), &hash(7), &key(3));

    schema.remove_awaiting_transfer(&key(3), &hash(9));
    assert!(schema.awaiting_tx(&hash(1)).is_none());
    assert!(schema.awaiting_tx(&hash(4)).is_none());
    let same_hash = schema.awaiting_tx(&hash(2)).unwrap();
    assert_eq!(same_hash.origin, key(4));
    assert_eq!(same_hash.tx_hash, hash(9));
    let same_sender = schema.awaiting_tx(&hash(3)).unwrap();
    assert_eq!(same_sender.origin, key(3));
    assert_eq!(same_sender.tx_hash, hash(8));
    let under_the_hash = schema.awaiting_tx(&hash(9)).unwrap();
    assert_eq!(under_the_hash.tx_hash, hash(7));
    assert_eq!(schema.awaiting_txs().len(), 3);

    schema.remove_awaiting_transfer(&key(3), &hash(9));
    assert_eq!(schema.awaiting_txs().len(), 3);
    schema.remove_awaiting_transfer(&key(4), &hash(9));
    schema.remove_awaiting_transfer(&key(3), &hash(8));
    schema.remove_awaiting_transfer(&key(3), &hash(7));
    assert!(schema.awaiting_txs().is_empty());
    schema.remove_awaiting_transfer(&key(3), &hash(7));
    assert!(schema.awaiting_txs().is_empty());
}
