//! The ledger as a mathematical value, and what each write does to it.
//!
//! A ledger is three maps: the wallet record of each key, the history log of
//! each key, and the awaiting-confirmation index. Every write to a wallet
//! appends the hash of the transaction that caused it to the wallet's
//! history log and stores the wallet's next record, as one step.

use crate::crypto::{Hash256, PublicKey};
use crate::digest::history_digest;
use crate::transaction::{PendingTransactionView, SignTx};
use crate::wallet::WalletView;
use vstd::prelude::*;

verus! {

/// The balance that every new wallet starts with.
pub const INITIAL_BALANCE: u64 = 100;

/// What a ledger holds.
pub struct LedgerView {
    /// The wallet record of each key that has a wallet.
    pub wallets: Map<PublicKey, WalletView>,
    /// The history log of each key that has a wallet: the hashes of the
    /// transactions that wrote to the wallet, oldest first.
    pub histories: Map<PublicKey, Seq<Hash256>>,
    /// The transfers that are ready to settle, each under the hash of the
    /// transaction whose commit triggers its confirmation.
    pub awaiting_txs: Map<Hash256, SignTx>,
}

impl LedgerView {
    /// The ledger that holds nothing.
    pub open spec fn empty() -> LedgerView {
        LedgerView { wallets: Map::empty(), histories: Map::empty(), awaiting_txs: Map::empty() }
    }

    /// The history log of a key; empty where the key has none yet.
    pub open spec fn history(self, key: PublicKey) -> Seq<Hash256> {
        if self.histories.contains_key(key) {
            self.histories[key]
        } else {
            Seq::empty()
        }
    }

    /// The digest of a key's history log once the given transaction is
    /// appended to it.
    pub open spec fn next_digest(self, key: PublicKey, transaction: Hash256) -> Seq<u8> {
        history_digest(self.history(key).push(transaction))
    }

    /// Whether the given record is the one that the ledger holds for its key.
    pub open spec fn holds(self, wallet: WalletView) -> bool {
        self.wallets.contains_key(wallet.pub_key) && self.wallets[wallet.pub_key] == wallet
    }

    /// The ledger after one write: the transaction is appended to the
    /// history log of the wallet's key, and the wallet is stored under it.
    pub open spec fn written(self, wallet: WalletView, transaction: Hash256) -> LedgerView {
        LedgerView {
            wallets: self.wallets.insert(wallet.pub_key, wallet),
            histories: self.histories.insert(
                wallet.pub_key,
                self.history(wallet.pub_key).push(transaction),
            ),
            ..self
        }
    }

    /// The record of a wallet that has just been created.
    pub open spec fn new_wallet(
        self,
        key: PublicKey,
        name: Seq<char>,
        transaction: Hash256,
    ) -> WalletView {
        WalletView {
            pub_key: key,
            name,
            balance: INITIAL_BALANCE as nat,
            signers: Seq::empty(),
            pending_txs: Seq::empty(),
            txs: Seq::empty(),
            history_len: (self.history(key).len() + 1) as nat,
            history_hash: self.next_digest(key, transaction),
        }
    }

    /// The ledger after a wallet was created under the key.
    pub open spec fn create_wallet(
        self,
        key: PublicKey,
        name: Seq<char>,
        transaction: Hash256,
    ) -> LedgerView {
        self.written(self.new_wallet(key, name, transaction), transaction)
    }

    /// The ledger after a co-signer was added to the wallet of the key.
    /// The key must not be a co-signer of that wallet already.
    pub open spec fn add_signer(
        self,
        key: PublicKey,
        signer: PublicKey,
        transaction: Hash256,
    ) -> LedgerView {
        self.written(
            self.wallets[key].with_signer(signer, self.next_digest(key, transaction)),
            transaction,
        )
    }

    /// The ledger after a pending transfer was added to the wallet of the
    /// key.
    pub open spec fn add_pending_tx(
        self,
        key: PublicKey,
        tx_hash: Hash256,
        recipient: PublicKey,
        amount: u64,
        transaction: Hash256,
    ) -> LedgerView {
        self.written(
            self.wallets[key].with_pending(
                PendingTransactionView { tx_hash, recipient, amount, approvals: Seq::empty() },
                self.next_digest(key, transaction),
            ),
            transaction,
        )
    }

    /// The ledger after the wallet of the key settled the given transfer at
    /// the given height.
    pub open spec fn confirm_pending_tx(
        self,
        key: PublicKey,
        tx: PendingTransactionView,
        confirmation_block: u64,
        transaction: Hash256,
    ) -> LedgerView {
        self.written(
            self.wallets[key].settled(
                tx.settled_at(confirmation_block),
                self.next_digest(key, transaction),
            ),
            transaction,
        )
    }

    /// The ledger after a co-signer approved a pending transfer of the
    /// wallet of the key.
    pub open spec fn sign_pending_tx(
        self,
        key: PublicKey,
        tx_hash: Hash256,
        signer: PublicKey,
        transaction: Hash256,
    ) -> LedgerView {
        self.written(
            self.wallets[key].signed(tx_hash, signer, self.next_digest(key, transaction)),
            transaction,
        )
    }

    /// The ledger after the balance of the wallet of the key grew by the
    /// amount.
    pub open spec fn increase_wallet_balance(
        self,
        key: PublicKey,
        amount: u64,
        transaction: Hash256,
    ) -> LedgerView {
        self.written(
            self.wallets[key].with_balance(
                (self.wallets[key].balance + amount) as nat,
                self.next_digest(key, transaction),
            ),
            transaction,
        )
    }

    /// The ledger after the balance of the wallet of the key shrank by the
    /// amount.
    pub open spec fn decrease_wallet_balance(
        self,
        key: PublicKey,
        amount: u64,
        transaction: Hash256,
    ) -> LedgerView
        recommends
            amount <= self.wallets[key].balance,
    {
        self.written(
            self.wallets[key].with_balance(
                (self.wallets[key].balance - amount) as nat,
                self.next_digest(key, transaction),
            ),
            transaction,
        )
    }

    /// The ledger after a transfer was registered for confirmation under a
    /// trigger hash.
    pub open spec fn add_awaiting_tx(
        self,
        service_hash: Hash256,
        origin_hash: Hash256,
        sender: PublicKey,
    ) -> LedgerView {
        LedgerView {
            awaiting_txs: self.awaiting_txs.insert(
                service_hash,
                SignTx { origin: sender, tx_hash: origin_hash },
            ),
            ..self
        }
    }

    /// The ledger after the entry under a trigger hash left the
    /// awaiting-confirmation index.
    pub open spec fn remove_awaiting_tx(self, hash: Hash256) -> LedgerView {
        LedgerView { awaiting_txs: self.awaiting_txs.remove(hash), ..self }
    }

    /// The ledger after every entry that names the given transfer, by its
    /// sender and the hash under which it is pending, left the
    /// awaiting-confirmation index, under whatever trigger hash it stood.
    /// Every other entry stays as it was.
    pub open spec fn remove_awaiting_transfer(
        self,
        sender: PublicKey,
        origin_hash: Hash256,
    ) -> LedgerView {
        LedgerView {
            awaiting_txs: Map::new(
                |hash: Hash256|
                    self.awaiting_txs.contains_key(hash) && self.awaiting_txs[hash] != (SignTx {
                        origin: sender,
                        tx_hash: origin_hash,
                    }),
                |hash: Hash256| self.awaiting_txs[hash],
            ),
            ..self
        }
    }

    /// What holds of every ledger: the keys with a wallet are the keys with
    /// a history log, each wallet is stored under its own key, no key is a
    /// co-signer of a wallet twice, and each wallet's history length and
    /// history digest are those of its log.
    pub open spec fn well_formed(self) -> bool {
        &&& self.wallets.dom() == self.histories.dom()
        &&& forall|key: PublicKey| #[trigger]
            self.wallets.contains_key(key) ==> {
                &&& self.wallets[key].pub_key == key
                &&& self.wallets[key].signers.no_duplicates()
                &&& self.wallets[key].history_len == self.histories[key].len()
                &&& self.wallets[key].history_hash == history_digest(self.histories[key])
            }
    }

    /// Whether every balance is one that a wallet record can hold.
    pub open spec fn balances_fit(self) -> bool {
        forall|key: PublicKey| #[trigger]
            self.wallets.contains_key(key) ==> self.wallets[key].balance <= u64::MAX
    }

    /// Whether a list holds every wallet of the ledger, each once and as
    /// the ledger holds it.
    pub open spec fn lists(self, all: Seq<WalletView>) -> bool {
        &&& forall|i: int| 0 <= i < all.len() ==> self.holds(#[trigger] all[i])
        &&& forall|i: int, j: int| 0 <= i < j < all.len() ==> all[i].pub_key != all[j].pub_key
        &&& forall|key: PublicKey|
            self.wallets.contains_key(key) ==> exists|i: int|
                0 <= i < all.len() && #[trigger] all[i].pub_key == key
    }
}

/// A write keeps a ledger well formed if it stores, under a key, a wallet
/// without a repeated co-signer that is one step later in history than the
/// log of that key was long and that carries the digest of the extended log.
pub proof fn lemma_written_well_formed(
    ledger: LedgerView,
    wallet: WalletView,
    transaction: Hash256,
)
    requires
        ledger.well_formed(),
        wallet.signers.no_duplicates(),
        wallet.history_len == ledger.history(wallet.pub_key).len() + 1,
        wallet.history_hash == ledger.next_digest(wallet.pub_key, transaction),
    ensures
        ledger.written(wallet, transaction).well_formed(),
{
    let next = ledger.written(wallet, transaction);
    assert(next.wallets.dom() =~= next.histories.dom());
}

} // verus!
