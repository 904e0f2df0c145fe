//! The wallet record and the transformations that produce its next state.
//!
//! Every transformation consumes a wallet and returns the wallet that
//! follows it: one step longer in history, and summarised by the digest
//! that the caller supplies for the extended history log. None of them
//! validates anything; what must hold of their inputs is for the caller to
//! check.

use crate::crypto::{Hash256, PublicKey};
use crate::lookup::{lemma_position_is, position};
use crate::transaction::{
    ApprovedTransaction, ApprovedTransactionView, PendingTransaction, PendingTransactionView,
};
use vstd::prelude::*;

verus! {

/// A keyed account: balance, trusted co-signers, pending and settled
/// transfers, and the length and digest of its history log.
#[derive(Debug)]
pub struct Wallet {
    /// Key of the wallet's owner.
    pub pub_key: PublicKey,
    /// Display name, fixed at creation.
    pub name: String,
    /// Current balance.
    pub balance: u64,
    /// Co-signers trusted to approve transfers out of this wallet.
    pub signers: Vec<PublicKey>,
    /// Transfers that wait for approvals or for confirmation.
    pub pending_txs: Vec<PendingTransaction>,
    /// Settled transfers, oldest first.
    pub txs: Vec<ApprovedTransaction>,
    /// Number of entries in the wallet's history log.
    pub history_len: u64,
    /// Digest of the wallet's history log.
    pub history_hash: Hash256,
}

/// What a wallet is: its fields as mathematical values.
pub struct WalletView {
    pub pub_key: PublicKey,
    pub name: Seq<char>,
    pub balance: nat,
    pub signers: Seq<PublicKey>,
    pub pending_txs: Seq<PendingTransactionView>,
    pub txs: Seq<ApprovedTransactionView>,
    pub history_len: nat,
    pub history_hash: Seq<u8>,
}

/// The pending transfers of a list, each as what it is.
pub open spec fn pending_views(txs: Seq<PendingTransaction>) -> Seq<PendingTransactionView> {
    txs.map_values(|tx: PendingTransaction| tx@)
}

/// The settled transfers of a list, each as what it is.
pub open spec fn approved_views(txs: Seq<ApprovedTransaction>) -> Seq<ApprovedTransactionView> {
    txs.map_values(|tx: ApprovedTransaction| tx@)
}

/// The wallets of a list, each as what it is.
pub open spec fn wallet_views(wallets: Seq<Wallet>) -> Seq<WalletView> {
    wallets.map_values(|wallet: Wallet| wallet@)
}

/// The hashes by which the pending transfers of a list are found.
pub open spec fn tx_hashes(txs: Seq<PendingTransactionView>) -> Seq<Hash256> {
    txs.map_values(|tx: PendingTransactionView| tx.tx_hash)
}

impl View for Wallet {
    type V = WalletView;

    open spec fn view(&self) -> WalletView {
        WalletView {
            pub_key: self.pub_key,
            name: self.name@,
            balance: self.balance as nat,
            signers: self.signers@,
            pending_txs: pending_views(self.pending_txs@),
            txs: approved_views(self.txs@),
            history_len: self.history_len as nat,
            history_hash: self.history_hash@,
        }
    }
}

impl WalletView {
    /// Index of the first pending transfer with the given hash, or the
    /// number of pending transfers where there is none.
    pub open spec fn pending_position(self, tx_hash: Hash256) -> int {
        position(tx_hashes(self.pending_txs), tx_hash)
    }

    /// Whether a pending transfer with the given hash exists.
    pub open spec fn has_pending(self, tx_hash: Hash256) -> bool {
        self.pending_position(tx_hash) < self.pending_txs.len()
    }

    /// The first pending transfer with the given hash.
    pub open spec fn pending(self, tx_hash: Hash256) -> PendingTransactionView
        recommends
            self.has_pending(tx_hash),
    {
        self.pending_txs[self.pending_position(tx_hash)]
    }

    /// The wallet one step later in history, summarised by the given digest.
    pub open spec fn advanced(self, history_hash: Seq<u8>) -> WalletView {
        WalletView { history_len: (self.history_len + 1) as nat, history_hash, ..self }
    }

    /// The wallet after its balance was set.
    pub open spec fn with_balance(self, balance: nat, history_hash: Seq<u8>) -> WalletView {
        WalletView { balance, ..self.advanced(history_hash) }
    }

    /// The wallet after a co-signer was added.
    pub open spec fn with_signer(self, signer: PublicKey, history_hash: Seq<u8>) -> WalletView {
        WalletView { signers: self.signers.push(signer), ..self.advanced(history_hash) }
    }

    /// The wallet after a pending transfer was added.
    pub open spec fn with_pending(
        self,
        tx: PendingTransactionView,
        history_hash: Seq<u8>,
    ) -> WalletView {
        WalletView { pending_txs: self.pending_txs.push(tx), ..self.advanced(history_hash) }
    }

    /// The wallet after a co-signer approved the first pending transfer with
    /// the given hash.
    pub open spec fn signed(
        self,
        tx_hash: Hash256,
        signer: PublicKey,
        history_hash: Seq<u8>,
    ) -> WalletView
        recommends
            self.has_pending(tx_hash),
    {
        WalletView {
            pending_txs: self.pending_txs.update(
                self.pending_position(tx_hash),
                self.pending(tx_hash).approved_by(signer),
            ),
            ..self.advanced(history_hash)
        }
    }

    /// The wallet after the first pending transfer with the given hash was
    /// removed.
    pub open spec fn without_pending(self, tx_hash: Hash256, history_hash: Seq<u8>) -> WalletView
        recommends
            self.has_pending(tx_hash),
    {
        WalletView {
            pending_txs: self.pending_txs.remove(self.pending_position(tx_hash)),
            ..self.advanced(history_hash)
        }
    }

    /// The wallet after the first pending transfer with the hash of the
    /// given settled record left the pending list and the record joined the
    /// settled list, in one step of history.
    pub open spec fn settled(self, tx: ApprovedTransactionView, history_hash: Seq<u8>) -> WalletView
        recommends
            self.has_pending(tx.tx_hash),
    {
        WalletView {
            pending_txs: self.pending_txs.remove(self.pending_position(tx.tx_hash)),
            txs: self.txs.push(tx),
            ..self.advanced(history_hash)
        }
    }
}

/// Copies a list of pending transfers.
fn clone_pending(txs: &Vec<PendingTransaction>) -> (copy: Vec<PendingTransaction>)
    ensures
        pending_views(copy@) == pending_views(txs@),
{
    let mut copy: Vec<PendingTransaction> = Vec::new();
    let mut i: usize = 0;
    while i < txs.len()
        invariant
            i <= txs.len(),
            copy@.len() == i,
            forall|j: int| 0 <= j < i ==> copy@[j]@ == txs@[j]@,
        decreases txs.len() - i,
    {
        copy.push(txs[i].clone());
        i += 1;
    }
    assert(pending_views(copy@) =~= pending_views(txs@));
    copy
}

/// Copies a list of settled transfers.
fn clone_approved(txs: &Vec<ApprovedTransaction>) -> (copy: Vec<ApprovedTransaction>)
    ensures
        approved_views(copy@) == approved_views(txs@),
{
    let mut copy: Vec<ApprovedTransaction> = Vec::new();
    let mut i: usize = 0;
    while i < txs.len()
        invariant
            i <= txs.len(),
            copy@.len() == i,
            forall|j: int| 0 <= j < i ==> copy@[j]@ == txs@[j]@,
        decreases txs.len() - i,
    {
        copy.push(txs[i].clone());
        i += 1;
    }
    assert(approved_views(copy@) =~= approved_views(txs@));
    copy
}

impl Clone for Wallet {
    fn clone(&self) -> (copy: Wallet)
        ensures
            copy@ == self@,
    {
        Wallet {
            pub_key: self.pub_key,
            name: self.name.clone(),
            balance: self.balance,
            signers: self.signers.clone(),
            pending_txs: clone_pending(&self.pending_txs),
            txs: clone_approved(&self.txs),
            history_len: self.history_len,
            history_hash: self.history_hash,
        }
    }
}

impl Wallet {
    /// Makes a wallet of the given parts.
    pub fn new(
        pub_key: &PublicKey,
        name: &str,
        balance: u64,
        signers: Vec<PublicKey>,
        pending_txs: Vec<PendingTransaction>,
        txs: Vec<ApprovedTransaction>,
        history_len: u64,
        history_hash: &Hash256,
    ) -> (wallet: Wallet)
        ensures
            wallet@ == (WalletView {
                pub_key: *pub_key,
                name: name@,
                balance: balance as nat,
                signers: signers@,
                pending_txs: pending_views(pending_txs@),
                txs: approved_views(txs@),
                history_len: history_len as nat,
                history_hash: history_hash@,
            }),
    {
        Wallet {
            pub_key: *pub_key,
            name: name.to_owned(),
            balance,
            signers,
            pending_txs,
            txs,
            history_len,
            history_hash: *history_hash,
        }
    }

    /// Finds the first pending transfer with the given hash.
    pub fn find_pending_tx(&self, tx_hash: &Hash256) -> (found: Option<usize>)
        ensures
            match found {
                Some(at) => {
                    &&& self@.has_pending(*tx_hash)
                    &&& at == self@.pending_position(*tx_hash)
                    &&& at < self.pending_txs@.len()
                    &&& self.pending_txs@[at as int]@ == self@.pending(*tx_hash)
                    &&& self.pending_txs@[at as int].tx_hash == *tx_hash
                },
                None => !self@.has_pending(*tx_hash),
            },
    {
        let ghost hashes = tx_hashes(self@.pending_txs);
        let mut i: usize = 0;
        while i < self.pending_txs.len()
            invariant
                i <= self.pending_txs.len(),
                hashes == tx_hashes(self@.pending_txs),
                forall|j: int| 0 <= j < i ==> hashes[j] != *tx_hash,
            decreases self.pending_txs.len() - i,
        {
            if self.pending_txs[i].tx_hash == *tx_hash {
                proof {
                    lemma_position_is(hashes, *tx_hash, i as int);
                    assert(self@.pending_txs[i as int] == self.pending_txs@[i as int]@);
                }
                return Some(i);
            }
            i += 1;
        }
        proof {
            lemma_position_is(hashes, *tx_hash, i as int);
        }
        None
    }

    /// Sets the balance.
    pub fn set_balance(self, balance: u64, history_hash: &Hash256) -> (wallet: Wallet)
        requires
            self.history_len < u64::MAX,
        ensures
            wallet@ == self@.with_balance(balance as nat, history_hash@),
    {
        Wallet {
            pub_key: self.pub_key,
            name: self.name,
            balance,
            signers: self.signers,
            pending_txs: self.pending_txs,
            txs: self.txs,
            history_len: self.history_len + 1,
            history_hash: *history_hash,
        }
    }

    /// Adds a co-signer. A key that is a co-signer already is added again.
    pub fn add_signer(self, pub_key: &PublicKey, history_hash: &Hash256) -> (wallet: Wallet)
        requires
            self.history_len < u64::MAX,
        ensures
            wallet@ == self@.with_signer(*pub_key, history_hash@),
    {
        let mut signers = self.signers;
        signers.push(*pub_key);
        Wallet {
            pub_key: self.pub_key,
            name: self.name,
            balance: self.balance,
            signers,
            pending_txs: self.pending_txs,
            txs: self.txs,
            history_len: self.history_len + 1,
            history_hash: *history_hash,
        }
    }

    /// Adds a pending transfer at the end of the pending list.
    pub fn add_pending_tx(self, tx: PendingTransaction, history_hash: &Hash256) -> (wallet: Wallet)
        requires
            self.history_len < u64::MAX,
        ensures
            wallet@ == self@.with_pending(tx@, history_hash@),
    {
        let mut pending_txs = self.pending_txs;
        pending_txs.push(tx);
        assert(pending_views(pending_txs@) =~= self@.pending_txs.push(tx@));
        Wallet {
            pub_key: self.pub_key,
            name: self.name,
            balance: self.balance,
            signers: self.signers,
            pending_txs,
            txs: self.txs,
            history_len: self.history_len + 1,
            history_hash: *history_hash,
        }
    }

    /// Records the approval of a co-signer on the first pending transfer
    /// with the given hash.
    pub fn sign_pending_tx(
        self,
        tx_hash: &Hash256,
        signer: &PublicKey,
        history_hash: &Hash256,
    ) -> (wallet: Wallet)
        requires
            self.history_len < u64::MAX,
            self@.has_pending(*tx_hash),
        ensures
            wallet@ == self@.signed(*tx_hash, *signer, history_hash@),
    {
        let found = self.find_pending_tx(tx_hash);
        let tx_index = found.unwrap();
        let mut pending_txs = self.pending_txs;
        let mut tx = pending_txs.remove(tx_index);
        tx.approvals.push(*signer);
        let ghost signed = tx@;
        pending_txs.insert(tx_index, tx);
        assert(pending_views(pending_txs@) =~= self@.pending_txs.update(tx_index as int, signed));
        Wallet {
            pub_key: self.pub_key,
            name: self.name,
            balance: self.balance,
            signers: self.signers,
            pending_txs,
            txs: self.txs,
            history_len: self.history_len + 1,
            history_hash: *history_hash,
        }
    }

    /// Removes the first pending transfer with the given hash.
    pub fn remove_pending_tx(self, tx_hash: &Hash256, history_hash: &Hash256) -> (wallet: Wallet)
        requires
            self.history_len < u64::MAX,
            self@.has_pending(*tx_hash),
        ensures
            wallet@ == self@.without_pending(*tx_hash, history_hash@),
    {
        let found = self.find_pending_tx(tx_hash);
        let tx_index = found.unwrap();
        let mut pending_txs = self.pending_txs;
        pending_txs.remove(tx_index);
        assert(pending_views(pending_txs@) =~= self@.pending_txs.remove(tx_index as int));
        Wallet {
            pub_key: self.pub_key,
            name: self.name,
            balance: self.balance,
            signers: self.signers,
            pending_txs,
            txs: self.txs,
            history_len: self.history_len + 1,
            history_hash: *history_hash,
        }
    }

    /// Settles a transfer: the first pending transfer with the hash of the
    /// given record leaves the pending list and the record joins the settled
    /// list, as one step of history.
    pub fn add_approved_tx(self, tx: ApprovedTransaction, history_hash: &Hash256) -> (wallet: Wallet)
        requires
            self.history_len < u64::MAX,
            self@.has_pending(tx.tx_hash),
        ensures
            wallet@ == self@.settled(tx@, history_hash@),
    {
        let found = self.find_pending_tx(&tx.tx_hash);
        let tx_index = found.unwrap();
        let mut pending_txs = self.pending_txs;
        pending_txs.remove(tx_index);
        assert(pending_views(pending_txs@) =~= self@.pending_txs.remove(tx_index as int));
        let mut txs = self.txs;
        txs.push(tx);
        assert(approved_views(txs@) =~= self@.txs.push(tx@));
        Wallet {
            pub_key: self.pub_key,
            name: self.name,
            balance: self.balance,
            signers: self.signers,
            pending_txs,
            txs,
            history_len: self.history_len + 1,
            history_hash: *history_hash,
        }
    }
}

} // verus!
