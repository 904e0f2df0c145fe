use multisig_wallet::api::{Api, ApiError, TransactionHex, TransactionsQuery, WalletQuery};
use multisig_wallet::crypto::{Hash256, PublicKey};
use multisig_wallet::schema::Schema;
use multisig_wallet::service::Service;
use multisig_wallet::transaction::{AddSignerTx, ConfirmationTx, CreateWalletTx, SignTx, TransferTx};

fn key(n: u8) -> PublicKey {
    PublicKey::new([n; 32])
}

fn hash(n: u8) -> Hash256 {
    Hash256::new([n; 32])
}

fn two_wallets() -> Schema {
    let mut schema = Schema::new();
    let alice = CreateWalletTx { name: "alice".to_string() };
    let bob = CreateWalletTx { name: "bob".to_string() };
    assert_eq!(alice.execute(&mut schema, &key(1), &hash(10)), Ok(()));
    assert_eq!(bob.execute(&mut schema, &key(2), &hash(11)), Ok(()));
    schema
}

#[test]
fn service_has_its_name_and_number() {
    assert_eq!(Service.service_name(), "cryptocurrency");
    assert_eq!(Service.service_id(), 1);
    assert!(Service.state_hash(&Schema::new()).is_empty());
}

#[test]
fn after_commit_issues_nothing_for_an_empty_index() {
    let schema = two_wallets();
    let issued = Service.after_commit(&schema, &vec![hash(10), hash(11)], 4);
    assert!(issued.is_empty());
    assert!(Service.after_commit(&schema, &vec![], 4).is_empty());
}

#[test]
fn after_commit_issues_one_confirmation_per_registered_hash() {
    let mut schema = two_wallets();
    let add = AddSignerTx { signer: key(5) };
    assert_eq!(add.execute(&mut schema, &key(2), &hash(12)), Ok(()));
    let first = TransferTx { recipient: key(2), amount: 30, seed: 0 };
    assert_eq!(first.execute(&mut schema, &key(1), &hash(13)), Ok(()));
    let second = TransferTx { recipient: key(1), amount: 5, seed: 0 };
    assert_eq!(second.execute(&mut schema, &key(2), &hash(14)), Ok(()));
    let sign = SignTx { origin: key(2), tx_hash: hash(14) };
    assert_eq!(sign.execute(&mut schema, &key(5), &hash(15)), Ok(()));

    let block = vec![hash(12), hash(15), hash(13), hash(14), hash(99)];
    let issued: Vec<ConfirmationTx> = Service.after_commit(&schema, &block, 21);
    assert_eq!(issued.len(), 2);
    // In the block's order: the approval first, then the transfer.
    assert_eq!(issued[0].tx_hash, hash(14));
    assert_eq!(issued[0].sender, key(2));
    assert_eq!(issued[0].confirmation_block, 21);
    assert_eq!(issued[1].tx_hash, hash(13));
    assert_eq!(issued[1].sender, key(1));
    assert_eq!(issued[1].confirmation_block, 21);

    for confirmation in issued {
        assert!(confirmation.can_settle(&schema));
        assert_eq!(confirmation.execute(&mut schema, &hash(30)), Ok(()));
    }
    assert_eq!(schema.wallet(&key(1)).unwrap().balance, 75);
    assert_eq!(schema.wallet(&key(2)).unwrap().balance, 125);
}

#[test]
fn after_commit_repeats_a_hash_that_the_block_repeats() {
    let mut schema = two_wallets();
    let transfer = TransferTx { recipient: key(2), amount: 30, seed: 0 };
    assert_eq!(transfer.execute(&mut schema, &key(1), &hash(13)), Ok(()));
    let issued = Service.after_commit(&schema, &vec![hash(13), hash(13)], 2);
    assert_eq!(issued.len(), 2);
    assert_eq!(issued[0].tx_hash, hash(13));
    assert_eq!(issued[1].tx_hash, hash(13));
}

#[test]
fn get_wallet_returns_the_record_or_not_found() {
    let schema = two_wallets();
    let wallet = Api::get_wallet(&schema, WalletQuery { pub_key: key(2) }).unwrap();
    assert_eq!(wallet.pub_key, key(2));
    assert_eq!(wallet.name, "bob");
    assert_eq!(wallet.balance, 100);
    assert_eq!(wallet.history_len, 1);
    match Api::get_wallet(&schema, WalletQuery { pub_key: key(3) }) {
        Err(ApiError::NotFound(what)) => assert_eq!(what, "Wallet not found"),
        Ok(_) => panic!("no wallet was created for this key"),
    }
}

#[test]
fn get_approved_txs_returns_the_settled_transfers() {
    let mut schema = two_wallets();
    let none = Api::get_approved_txs(&schema, TransactionsQuery { pub_key: key(1) }).unwrap();
    assert!(none.is_empty());
    let transfer = TransferTx { recipient: key(2), amount: 30, seed: 0 };
    assert_eq!(transfer.execute(&mut schema, &key(1), &hash(13)), Ok(()));
    let confirmation =
        ConfirmationTx { tx_hash: hash(13), sender: key(1), confirmation_block: 6 };
    assert_eq!(confirmation.execute(&mut schema, &hash(14)), Ok(()));
    let txs = Api::get_approved_txs(&schema, TransactionsQuery { pub_key: key(1) }).unwrap();
    assert_eq!(txs.len(), 1);
    assert_eq!(txs[0].tx_hash, hash(13));
    assert_eq!(txs[0].amount, 30);
    assert_eq!(txs[0].confirmation_block, 6);
    match Api::get_approved_txs(&schema, TransactionsQuery { pub_key: key(3) }) {
        Err(ApiError::NotFound(what)) => assert_eq!(what, "Wallet not found"),
        Ok(_) => panic!("no wallet was created for this key"),
    }
}

#[test]
fn get_wallets_returns_every_wallet() {
    let schema = two_wallets();
    let all = Api::get_wallets(&schema, ()).unwrap();
    assert_eq!(all.len(), 2);
    assert_eq!(all.iter().filter(|wallet| wallet.pub_key == key(1)).count(), 1);
    assert_eq!(all.iter().filter(|wallet| wallet.pub_key == key(2)).count(), 1);
    assert!(Api::get_wallets(&Schema::new(), ()).unwrap().is_empty());
}

#[test]
fn transaction_hex_holds_its_body() {
    let hex = TransactionHex { tx_body: "0a0b".to_string() };
    assert_eq!(hex.clone().tx_body, "0a0b");
}
