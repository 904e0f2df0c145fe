use multisig_wallet::crypto::{Hash256, PublicKey};
use multisig_wallet::transaction::{ApprovedTransaction, PendingTransaction};
use multisig_wallet::wallet::Wallet;

fn key(n: u8) -> PublicKey {
    PublicKey::new([n; 32])
}

fn hash(n: u8) -> Hash256 {
    Hash256::new([n; 32])
}

fn fresh() -> Wallet {
    Wallet::new(&key(1), "alice", 100, vec![], vec![], vec![], 1, &hash(1))
}

#[test]
fn pending_transaction_starts_without_approvals() {
    let tx = PendingTransaction::new(&hash(9), &key(2), 30);
    assert_eq!(tx.tx_hash, hash(9));
    assert_eq!(tx.recipient, key(2));
    assert_eq!(tx.amount, 30);
    assert!(tx.approvals.is_empty());
}

#[test]
fn pending_transaction_clone_keeps_everything() {
    let mut tx = PendingTransaction::new(&hash(9), &key(2), 30);
    tx.approvals.push(key(5));
    tx.approvals.push(key(6));
    let copy = tx.clone();
    assert_eq!(copy.tx_hash, hash(9));
    assert_eq!(copy.recipient, key(2));
    assert_eq!(copy.amount, 30);
    assert_eq!(copy.approvals, vec![key(5), key(6)]);
}

#[test]
fn approved_transaction_clone_keeps_everything() {
    let tx = ApprovedTransaction {
        tx_hash: hash(9),
        recipient: key(2),
        amount: 30,
        approvals: vec![key(5)],
        confirmation_block: 77,
    };
    let copy = tx.clone();
    assert_eq!(copy.tx_hash, hash(9));
    assert_eq!(copy.recipient, key(2));
    assert_eq!(copy.amount, 30);
    assert_eq!(copy.approvals, vec![key(5)]);
    assert_eq!(copy.confirmation_block, 77);
}

#[test]
fn new_wallet_holds_its_parts() {
    let pending = vec![PendingTransaction::new(&hash(9), &key(2), 30)];
    let wallet = Wallet::new(&key(1), "alice", 55, vec![key(3)], pending, vec![], 4, &hash(8));
    assert_eq!(wallet.pub_key, key(1));
    assert_eq!(wallet.name, "alice");
    assert_eq!(wallet.balance, 55);
    assert_eq!(wallet.signers, vec![key(3)]);
    assert_eq!(wallet.pending_txs.len(), 1);
    assert_eq!(wallet.pending_txs[0].tx_hash, hash(9));
    assert!(wallet.txs.is_empty());
    assert_eq!(wallet.history_len, 4);
    assert_eq!(wallet.history_hash, hash(8));
}

#[test]
fn wallet_clone_keeps_everything() {
    let wallet = fresh()
        .add_signer(&key(3), &hash(2))
        .add_pending_tx(PendingTransaction::new(&hash(9), &key(2), 30), &hash(3))
        .sign_pending_tx(&hash(9), &key(3), &hash(4))
        .add_approved_tx(
            ApprovedTransaction {
                tx_hash: hash(9),
                recipient: key(2),
                amount: 30,
                approvals: vec![key(3)],
                confirmation_block: 5,
            },
            &hash(5),
        )
        .add_pending_tx(PendingTransaction::new(&hash(10), &key(2), 1), &hash(6));
    let copy = wallet.clone();
    assert_eq!(copy.pub_key, wallet.pub_key);
    assert_eq!(copy.name, wallet.name);
    assert_eq!(copy.balance, wallet.balance);
    assert_eq!(copy.signers, wallet.signers);
    assert_eq!(copy.pending_txs.len(), 1);
    assert_eq!(copy.pending_txs[0].tx_hash, hash(10));
    assert_eq!(copy.txs.len(), 1);
    assert_eq!(copy.txs[0].tx_hash, hash(9));
    assert_eq!(copy.txs[0].approvals, vec![key(3)]);
    assert_eq!(copy.history_len, 6);
    assert_eq!(copy.history_hash, hash(6));
}

#[test]
fn set_balance_changes_balance_and_advances_history() {
    let wallet = fresh().set_balance(70, &hash(2));
    assert_eq!(wallet.balance, 70);
    assert_eq!(wallet.history_len, 2);
    assert_eq!(wallet.history_hash, hash(2));
    assert_eq!(wallet.pub_key, key(1));
    assert_eq!(wallet.name, "alice");
    assert!(wallet.signers.is_empty());
    assert!(wallet.pending_txs.is_empty());
    assert!(wallet.txs.is_empty());
}

#[test]
fn add_signer_appends_and_does_not_dedup() {
    let wallet = fresh().add_signer(&key(3), &hash(2)).add_signer(&key(4), &hash(3));
    assert_eq!(wallet.signers, vec![key(3), key(4)]);
    assert_eq!(wallet.history_len, 3);
    assert_eq!(wallet.history_hash, hash(3));
    let again = wallet.add_signer(&key(3), &hash(4));
    assert_eq!(again.signers, vec![key(3), key(4), key(3)]);
    assert_eq!(again.history_len, 4);
    assert_eq!(again.balance, 100);
}

#[test]
fn add_pending_tx_appends() {
    let wallet = fresh()
        .add_pending_tx(PendingTransaction::new(&hash(9), &key(2), 30), &hash(2))
        .add_pending_tx(PendingTransaction::new(&hash(10), &key(3), 40), &hash(3));
    assert_eq!(wallet.pending_txs.len(), 2);
    assert_eq!(wallet.pending_txs[0].tx_hash, hash(9));
    assert_eq!(wallet.pending_txs[0].amount, 30);
    assert_eq!(wallet.pending_txs[1].tx_hash, hash(10));
    assert_eq!(wallet.pending_txs[1].recipient, key(3));
    assert_eq!(wallet.history_len, 3);
    assert_eq!(wallet.history_hash, hash(3));
    assert_eq!(wallet.balance, 100);
}

#[test]
fn find_pending_tx_gives_the_first_match() {
    let wallet = fresh()
        .add_pending_tx(PendingTransaction::new(&hash(9), &key(2), 30), &hash(2))
        .add_pending_tx(PendingTransaction::new(&hash(10), &key(3), 40), &hash(3))
        .add_pending_tx(PendingTransaction::new(&hash(10), &key(4), 50), &hash(4));
    assert_eq!(wallet.find_pending_tx(&hash(9)), Some(0));
    assert_eq!(wallet.find_pending_tx(&hash(10)), Some(1));
    assert_eq!(wallet.find_pending_tx(&hash(11)), None);
    assert_eq!(fresh().find_pending_tx(&hash(9)), None);
}

#[test]
fn sign_pending_tx_adds_the_approval_to_the_matching_transfer() {
    let wallet = fresh()
        .add_pending_tx(PendingTransaction::new(&hash(9), &key(2), 30), &hash(2))
        .add_pending_tx(PendingTransaction::new(&hash(10), &key(3), 40), &hash(3))
        .sign_pending_tx(&hash(10), &key(7), &hash(4))
        .sign_pending_tx(&hash(10), &key(8), &hash(5));
    assert_eq!(wallet.pending_txs.len(), 2);
    assert!(wallet.pending_txs[0].approvals.is_empty());
    assert_eq!(wallet.pending_txs[1].approvals, vec![key(7), key(8)]);
    assert_eq!(wallet.pending_txs[1].tx_hash, hash(10));
    assert_eq!(wallet.pending_txs[1].amount, 40);
    assert_eq!(wallet.history_len, 5);
    assert_eq!(wallet.history_hash, hash(5));
}

#[test]
fn remove_pending_tx_removes_the_first_match_only() {
    let wallet = fresh()
        .add_pending_tx(PendingTransaction::new(&hash(9), &key(2), 30), &hash(2))
        .add_pending_tx(PendingTransaction::new(&hash(10), &key(3), 40), &hash(3))
        .add_pending_tx(PendingTransaction::new(&hash(9), &key(4), 50), &hash(4))
        .remove_pending_tx(&hash(9), &hash(5));
    assert_eq!(wallet.pending_txs.len(), 2);
    assert_eq!(wallet.pending_txs[0].tx_hash, hash(10));
    assert_eq!(wallet.pending_txs[1].tx_hash, hash(9));
    assert_eq!(wallet.pending_txs[1].recipient, key(4));
    assert_eq!(wallet.history_len, 5);
    assert_eq!(wallet.history_hash, hash(5));
    assert!(wallet.txs.is_empty());
}

#[test]
fn add_approved_tx_moves_the_transfer_in_one_step() {
    let wallet = fresh()
        .add_pending_tx(PendingTransaction::new(&hash(9), &key(2), 30), &hash(2))
        .add_pending_tx(PendingTransaction::new(&hash(10), &key(3), 40), &hash(3));
    let settled = wallet.add_approved_tx(
        ApprovedTransaction {
            tx_hash: hash(9),
            recipient: key(2),
            amount: 30,
            approvals: vec![],
            confirmation_block: 12,
        },
        &hash(4),
    );
    assert_eq!(settled.pending_txs.len(), 1);
    assert_eq!(settled.pending_txs[0].tx_hash, hash(10));
    assert_eq!(settled.txs.len(), 1);
    assert_eq!(settled.txs[0].tx_hash, hash(9));
    assert_eq!(settled.txs[0].recipient, key(2));
    assert_eq!(settled.txs[0].amount, 30);
    assert_eq!(settled.txs[0].confirmation_block, 12);
    assert_eq!(settled.history_len, 4);
    assert_eq!(settled.history_hash, hash(4));
    assert_eq!(settled.balance, 100);
}
