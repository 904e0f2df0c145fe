//! Read-only queries on the ledger store.

use crate::crypto::PublicKey;
use crate::schema::Schema;
use crate::transaction::ApprovedTransaction;
use crate::wallet::{approved_views, wallet_views, Wallet};
use vstd::prelude::*;

verus! {

/// Asks for the wallet of a key.
#[derive(Clone, Copy, Debug)]
pub struct WalletQuery {
    pub pub_key: PublicKey,
}

/// Names a wallet and one of its co-signers.
#[derive(Clone, Copy, Debug)]
pub struct SignerQuery {
    pub wallet: PublicKey,
    pub signer: PublicKey,
}

/// A transaction in hexadecimal form.
#[derive(Clone, Debug)]
pub struct TransactionHex {
    pub tx_body: String,
}

/// Asks for the settled transfers of the wallet of a key.
#[derive(Clone, Copy, Debug)]
pub struct TransactionsQuery {
    pub pub_key: PublicKey,
}

/// Why a query was not answered.
#[derive(Debug)]
pub enum ApiError {
    /// What was asked for does not exist; the words say what.
    NotFound(String),
}

/// The queries.
pub struct Api;

impl Api {
    /// The current record of the wallet of a key.
    pub fn get_wallet(schema: &Schema, query: WalletQuery) -> (res: Result<Wallet, ApiError>)
        requires
            schema.wf(),
        ensures
            match res {
                Ok(wallet) => wallet.pub_key == query.pub_key && schema@.holds(wallet@),
                Err(ApiError::NotFound(what)) => !schema@.wallets.contains_key(query.pub_key)
                    && what@ == "Wallet not found"@,
            },
    {
        match schema.wallet(&query.pub_key) {
            Some(wallet) => Ok(wallet),
            None => Err(ApiError::NotFound("Wallet not found".to_owned())),
        }
    }

    /// The settled transfers of the wallet of a key, oldest first.
    pub fn get_approved_txs(schema: &Schema, query: TransactionsQuery) -> (res: Result<
        Vec<ApprovedTransaction>,
        ApiError,
    >)
        requires
            schema.wf(),
        ensures
            match res {
                Ok(txs) => schema@.wallets.contains_key(query.pub_key) && approved_views(txs@)
                    == schema@.wallets[query.pub_key].txs,
                Err(ApiError::NotFound(what)) => !schema@.wallets.contains_key(query.pub_key)
                    && what@ == "Wallet not found"@,
            },
    {
        match schema.wallet(&query.pub_key) {
            Some(wallet) => Ok(wallet.txs),
            None => Err(ApiError::NotFound("Wallet not found".to_owned())),
        }
    }

    /// The current records of all wallets, each once.
    pub fn get_wallets(schema: &Schema, _query: ()) -> (res: Result<Vec<Wallet>, ApiError>)
        requires
            schema.wf(),
        ensures
            res is Ok,
            schema@.lists(wallet_views(res->Ok_0@)),
    {
        Ok(schema.wallets())
    }
}

} // verus!
