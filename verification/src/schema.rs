//! The ledger store: the wallets, their history logs and the
//! awaiting-confirmation index, with the helpers that write to them.
//!
//! Every helper that changes a wallet appends the hash of the transaction
//! that caused the change to the wallet's history log and stores the
//! wallet's next record, so that the record's history length and history
//! digest always are those of the log.

use crate::crypto::{Hash256, PublicKey};
use crate::digest::{extend_digest, history_digest, lemma_digest_of_push};
use crate::ledger::{LedgerView, INITIAL_BALANCE};
use crate::lookup::{lemma_position, lemma_position_is, lemma_push_no_duplicates, position};
use crate::transaction::{ApprovedTransaction, PendingTransaction, SignTx};
use crate::wallet::{wallet_views, Wallet};
use vstd::prelude::*;

verus! {

/// A wallet together with its history log.
struct Account {
    wallet: Wallet,
    history: Vec<Hash256>,
}

/// An entry of the awaiting-confirmation index.
struct Awaiting {
    service_hash: Hash256,
    tx: SignTx,
}

/// The ledger store.
pub struct Schema {
    accounts: Vec<Account>,
    awaiting: Vec<Awaiting>,
}

/// The keys of the accounts, in the order the accounts are kept.
spec fn account_keys(accounts: Seq<Account>) -> Seq<PublicKey> {
    accounts.map_values(|account: Account| account.wallet.pub_key)
}

/// The trigger hashes of the index entries, in the order they are kept.
spec fn trigger_hashes(awaiting: Seq<Awaiting>) -> Seq<Hash256> {
    awaiting.map_values(|entry: Awaiting| entry.service_hash)
}

/// Whether a wallet has no co-signer twice and its history length and
/// digest are those of its log.
spec fn consistent(account: Account) -> bool {
    &&& account.wallet.signers@.no_duplicates()
    &&& account.wallet.history_len == account.history@.len()
    &&& account.wallet.history_hash@ == history_digest(account.history@)
}

/// Whether `after` is `before` with one more entry in the log of the
/// account at the given index, and nothing else changed.
spec fn appended(before: Schema, after: Schema, at: int, transaction: Hash256) -> bool {
    &&& 0 <= at < before.accounts@.len()
    &&& after.accounts@.len() == before.accounts@.len()
    &&& forall|j: int|
        0 <= j < before.accounts@.len() && j != at ==> after.accounts@[j] == before.accounts@[j]
    &&& after.accounts@[at].wallet == before.accounts@[at].wallet
    &&& after.accounts@[at].history@ == before.accounts@[at].history@.push(transaction)
    &&& after.awaiting == before.awaiting
}

impl View for Schema {
    type V = LedgerView;

    closed spec fn view(&self) -> LedgerView {
        let keys = account_keys(self.accounts@);
        let triggers = trigger_hashes(self.awaiting@);
        LedgerView {
            wallets: Map::new(
                |key: PublicKey| keys.contains(key),
                |key: PublicKey| self.accounts@[position(keys, key)].wallet@,
            ),
            histories: Map::new(
                |key: PublicKey| keys.contains(key),
                |key: PublicKey| self.accounts@[position(keys, key)].history@,
            ),
            awaiting_txs: Map::new(
                |hash: Hash256| triggers.contains(hash),
                |hash: Hash256| self.awaiting@[position(triggers, hash)].tx,
            ),
        }
    }
}

impl Schema {
    /// The store's own invariant: no key has two accounts, no trigger hash
    /// two index entries, no wallet a co-signer twice, and every wallet
    /// agrees with its history log.
    pub closed spec fn wf(&self) -> bool {
        &&& account_keys(self.accounts@).no_duplicates()
        &&& trigger_hashes(self.awaiting@).no_duplicates()
        &&& forall|i: int| 0 <= i < self.accounts@.len() ==> consistent(#[trigger] self.accounts@[i])
    }

    /// A store that meets its invariant holds a well-formed ledger whose
    /// balances fit.
    pub proof fn lemma_wf_ledger(&self)
        requires
            self.wf(),
        ensures
            self@.well_formed(),
            self@.balances_fit(),
    {
        let keys = account_keys(self.accounts@);
        assert(self@.wallets.dom() =~= self@.histories.dom());
        assert forall|key: PublicKey| #[trigger] self@.wallets.contains_key(key) implies {
            &&& self@.wallets[key].pub_key == key
            &&& self@.wallets[key].signers.no_duplicates()
            &&& self@.wallets[key].history_len == self@.histories[key].len()
            &&& self@.wallets[key].history_hash == history_digest(self@.histories[key])
        } by {
            lemma_position(keys, key);
            assert(consistent(self.accounts@[position(keys, key)]));
        }
    }

    /// The account at an index is the one that the ledger holds for its key.
    proof fn lemma_account(&self, at: int)
        requires
            self.wf(),
            0 <= at < self.accounts@.len(),
        ensures
            position(account_keys(self.accounts@), self.accounts@[at].wallet.pub_key) == at,
            self@.wallets.contains_key(self.accounts@[at].wallet.pub_key),
            self@.wallets[self.accounts@[at].wallet.pub_key] == self.accounts@[at].wallet@,
            self@.histories.contains_key(self.accounts@[at].wallet.pub_key),
            self@.histories[self.accounts@[at].wallet.pub_key] == self.accounts@[at].history@,
            self@.history(self.accounts@[at].wallet.pub_key) == self.accounts@[at].history@,
            consistent(self.accounts@[at]),
    {
        let keys = account_keys(self.accounts@);
        let key = self.accounts@[at].wallet.pub_key;
        assert(keys[at] == key);
        lemma_position(keys, key);
    }

    /// The index entry at an index is the one that the ledger holds for its
    /// trigger hash.
    proof fn lemma_entry(&self, at: int)
        requires
            self.wf(),
            0 <= at < self.awaiting@.len(),
        ensures
            position(trigger_hashes(self.awaiting@), self.awaiting@[at].service_hash) == at,
            self@.awaiting_txs.contains_key(self.awaiting@[at].service_hash),
            self@.awaiting_txs[self.awaiting@[at].service_hash] == self.awaiting@[at].tx,
    {
        let triggers = trigger_hashes(self.awaiting@);
        let hash = self.awaiting@[at].service_hash;
        assert(triggers[at] == hash);
        lemma_position(triggers, hash);
    }

    /// Replacing the wallet of an account whose log has just grown by one
    /// entry is one write to the ledger.
    proof fn lemma_account_written(before: Schema, after: Schema, at: int, transaction: Hash256)
        requires
            before.wf(),
            0 <= at < before.accounts@.len(),
            after.accounts@.len() == before.accounts@.len(),
            forall|j: int|
                0 <= j < before.accounts@.len() && j != at ==> after.accounts@[j]
                    == before.accounts@[j],
            after.accounts@[at].wallet.pub_key == before.accounts@[at].wallet.pub_key,
            after.accounts@[at].history@ == before.accounts@[at].history@.push(transaction),
            consistent(after.accounts@[at]),
            after.awaiting == before.awaiting,
        ensures
            after.wf(),
            after@ == before@.written(after.accounts@[at].wallet@, transaction),
    {
        let keys = account_keys(before.accounts@);
        let key = before.accounts@[at].wallet.pub_key;
        assert(account_keys(after.accounts@) =~= keys);
        before.lemma_account(at);
        assert forall|i: int| 0 <= i < after.accounts@.len() implies consistent(
            #[trigger] after.accounts@[i],
        ) by {
            if i != at {
                assert(consistent(before.accounts@[i]));
            }
        }
        let target = before@.written(after.accounts@[at].wallet@, transaction);
        assert forall|k: PublicKey| after@.wallets.contains_key(k) implies #[trigger] after@.wallets[k]
            == target.wallets[k] by {
            lemma_position(keys, k);
        }
        assert forall|k: PublicKey| after@.histories.contains_key(k) implies #[trigger] after@.histories[k]
            == target.histories[k] by {
            lemma_position(keys, k);
        }
        assert(after@.wallets =~= target.wallets);
        assert(after@.histories =~= target.histories);
        assert(after@.awaiting_txs =~= target.awaiting_txs);
    }

    /// Adding an account for a key that had none, with a log of one entry,
    /// is one write to the ledger.
    proof fn lemma_account_added(before: Schema, after: Schema, transaction: Hash256)
        requires
            before.wf(),
            after.accounts@.len() == before.accounts@.len() + 1,
            after.accounts@.drop_last() == before.accounts@,
            !before@.wallets.contains_key(after.accounts@.last().wallet.pub_key),
            after.accounts@.last().history@ == seq![transaction],
            consistent(after.accounts@.last()),
            after.awaiting == before.awaiting,
        ensures
            after.wf(),
            after@ == before@.written(after.accounts@.last().wallet@, transaction),
    {
        let keys = account_keys(before.accounts@);
        let added = after.accounts@.last();
        let key = added.wallet.pub_key;
        let next_keys = account_keys(after.accounts@);
        assert(next_keys =~= keys.push(key));
        assert(!keys.contains(key));
        assert(next_keys.no_duplicates()) by {
            assert forall|i: int, j: int|
                0 <= i < next_keys.len() && 0 <= j < next_keys.len() && i != j implies next_keys[i]
                != next_keys[j] by {
                if i < keys.len() {
                    assert(keys[i] == next_keys[i]);
                }
                if j < keys.len() {
                    assert(keys[j] == next_keys[j]);
                }
            }
        }
        assert forall|i: int| 0 <= i < after.accounts@.len() implies consistent(
            #[trigger] after.accounts@[i],
        ) by {
            if i < before.accounts@.len() {
                assert(after.accounts@[i] == after.accounts@.drop_last()[i]);
                assert(consistent(before.accounts@[i]));
            }
        }
        let target = before@.written(added.wallet@, transaction);
        assert(before@.history(key) =~= Seq::<Hash256>::empty());
        assert(seq![transaction] =~= Seq::<Hash256>::empty().push(transaction));
        assert forall|k: PublicKey| #[trigger] next_keys.contains(k) implies after@.wallets[k]
            == target.wallets[k] && after@.histories[k] == target.histories[k] by {
            lemma_position(next_keys, k);
            lemma_position(keys, k);
            if k != key {
                let p = position(next_keys, k);
                assert(p < keys.len());
                assert(keys[p] == k);
                lemma_position_is(keys, k, p);
                assert(after.accounts@[p] == after.accounts@.drop_last()[p]);
            } else {
                lemma_position_is(next_keys, k, keys.len() as int);
            }
        }
        assert forall|k: PublicKey| #[trigger] next_keys.contains(k) <==> (k == key || keys.contains(k)) by {
            if keys.contains(k) {
                let i = choose|i: int| 0 <= i < keys.len() && keys[i] == k;
                assert(next_keys[i] == k);
            }
            if k == key {
                assert(next_keys[keys.len() as int] == k);
            }
        }
        assert forall|k: PublicKey| #[trigger]
            after@.wallets.contains_key(k) == target.wallets.contains_key(k) by {
            assert(after@.wallets.contains_key(k) == next_keys.contains(k));
            assert(before@.wallets.contains_key(k) == keys.contains(k));
        }
        assert forall|k: PublicKey| #[trigger]
            after@.histories.contains_key(k) == target.histories.contains_key(k) by {
            assert(after@.histories.contains_key(k) == next_keys.contains(k));
            assert(before@.histories.contains_key(k) == keys.contains(k));
        }
        assert(after@.wallets =~= target.wallets);
        assert(after@.histories =~= target.histories);
        assert(after@.awaiting_txs =~= target.awaiting_txs);
    }

    /// Makes an empty store.
    pub fn new() -> (schema: Schema)
        ensures
            schema.wf(),
            schema@ == LedgerView::empty(),
    {
        let schema = Schema { accounts: Vec::new(), awaiting: Vec::new() };
        assert(schema@.wallets =~= Map::empty());
        assert(schema@.histories =~= Map::empty());
        assert(schema@.awaiting_txs =~= Map::empty());
        schema
    }

    /// Finds the account of a key.
    fn account_index(&self, key: &PublicKey) -> (at: usize)
        requires
            self.wf(),
        ensures
            at == position(account_keys(self.accounts@), *key),
            at <= self.accounts@.len(),
            at < self.accounts@.len() <==> self@.wallets.contains_key(*key),
            at < self.accounts@.len() ==> self.accounts@[at as int].wallet.pub_key == *key,
    {
        let ghost keys = account_keys(self.accounts@);
        let mut i: usize = 0;
        while i < self.accounts.len()
            invariant
                i <= self.accounts.len(),
                keys == account_keys(self.accounts@),
                forall|j: int| 0 <= j < i ==> keys[j] != *key,
            decreases self.accounts.len() - i,
        {
            if self.accounts[i].wallet.pub_key == *key {
                proof {
                    lemma_position_is(keys, *key, i as int);
                    lemma_position(keys, *key);
                }
                return i;
            }
            i += 1;
        }
        proof {
            lemma_position_is(keys, *key, i as int);
            lemma_position(keys, *key);
        }
        i
    }

    /// Finds the index entry of a trigger hash.
    fn entry_index(&self, hash: &Hash256) -> (at: usize)
        requires
            self.wf(),
        ensures
            at == position(trigger_hashes(self.awaiting@), *hash),
            at <= self.awaiting@.len(),
            at < self.awaiting@.len() <==> self@.awaiting_txs.contains_key(*hash),
            at < self.awaiting@.len() ==> self.awaiting@[at as int].service_hash == *hash,
    {
        let ghost triggers = trigger_hashes(self.awaiting@);
        let mut i: usize = 0;
        while i < self.awaiting.len()
            invariant
                i <= self.awaiting.len(),
                triggers == trigger_hashes(self.awaiting@),
                forall|j: int| 0 <= j < i ==> triggers[j] != *hash,
            decreases self.awaiting.len() - i,
        {
            if self.awaiting[i].service_hash == *hash {
                proof {
                    lemma_position_is(triggers, *hash, i as int);
                    lemma_position(triggers, *hash);
                }
                return i;
            }
            i += 1;
        }
        proof {
            lemma_position_is(triggers, *hash, i as int);
            lemma_position(triggers, *hash);
        }
        i
    }

    /// The wallet of a key, if the key has one.
    pub fn wallet(&self, pub_key: &PublicKey) -> (found: Option<Wallet>)
        requires
            self.wf(),
        ensures
            match found {
                Some(wallet) => wallet.pub_key == *pub_key && self@.holds(wallet@),
                None => !self@.wallets.contains_key(*pub_key),
            },
    {
        let at = self.account_index(pub_key);
        if at < self.accounts.len() {
            proof {
                self.lemma_account(at as int);
            }
            Some(self.accounts[at].wallet.clone())
        } else {
            None
        }
    }

    /// Appends a transaction to the log of the account at an index, and
    /// returns the digest of the log as it then is.
    fn append_history(&mut self, at: usize, transaction: &Hash256) -> (history_hash: Hash256)
        requires
            old(self).wf(),
            at < old(self).accounts@.len(),
        ensures
            appended(*old(self), *final(self), at as int, *transaction),
            history_hash@ == history_digest(final(self).accounts@[at as int].history@),
            old(self).accounts@[at as int].wallet.history_len < u64::MAX,
    {
        let previous = self.accounts[at].wallet.history_hash;
        proof {
            lemma_digest_of_push(self.accounts@[at as int].history@, *transaction);
            assert(consistent(self.accounts@[at as int]));
        }
        self.accounts[at].history.push(*transaction);
        // The log's new length is a `usize`, so the length it had is less
        // than the largest `u64`.
        let extended: usize = self.accounts[at].history.len();
        assert(extended == old(self).accounts@[at as int].history@.len() + 1);
        extend_digest(&previous, transaction)
    }

    /// Stores the next record of the wallet at an index, after the log of
    /// that account grew by the transaction that wrote it.
    fn put_wallet(
        &mut self,
        at: usize,
        wallet: Wallet,
        Ghost(before): Ghost<Schema>,
        Ghost(transaction): Ghost<Hash256>,
    )
        requires
            before.wf(),
            appended(before, *old(self), at as int, transaction),
            wallet.pub_key == before.accounts@[at as int].wallet.pub_key,
            wallet.signers@.no_duplicates(),
            wallet.history_len == before.accounts@[at as int].wallet.history_len + 1,
            wallet.history_hash@ == history_digest(old(self).accounts@[at as int].history@),
        ensures
            final(self).wf(),
            final(self)@ == before@.written(wallet@, transaction),
            final(self)@.holds(wallet@),
    {
        proof {
            assert(consistent(before.accounts@[at as int]));
        }
        self.accounts[at].wallet = wallet;
        proof {
            Schema::lemma_account_written(before, *self, at as int, transaction);
        }
    }

    /// Creates the wallet of a key, with the initial balance and nothing
    /// else, and starts its history with the given transaction. Where the
    /// key has a wallet already, the new record replaces it and the history
    /// log goes on.
    pub fn create_wallet(&mut self, key: &PublicKey, name: &str, transaction: &Hash256)
        requires
            old(self).wf(),
        ensures
            final(self).wf(),
            final(self)@ == old(self)@.create_wallet(*key, name@, *transaction),
    {
        let ghost before = *self;
        let at = self.account_index(key);
        if at < self.accounts.len() {
            proof {
                self.lemma_account(at as int);
            }
            let history_hash = self.append_history(at, transaction);
            let history_len = self.accounts[at].history.len();
            let wallet = Wallet::new(
                key,
                name,
                INITIAL_BALANCE,
                Vec::new(),
                Vec::new(),
                Vec::new(),
                history_len as u64,
                &history_hash,
            );
            assert(wallet@.pending_txs =~= Seq::empty());
            assert(wallet@.txs =~= Seq::empty());
            assert(wallet@ == before@.new_wallet(*key, name@, *transaction));
            self.put_wallet(at, wallet, Ghost(before), Ghost(*transaction));
        } else {
            let first = Hash256::zero();
            let history_hash = extend_digest(&first, transaction);
            let mut history: Vec<Hash256> = Vec::new();
            history.push(*transaction);
            let wallet = Wallet::new(
                key,
                name,
                INITIAL_BALANCE,
                Vec::new(),
                Vec::new(),
                Vec::new(),
                1,
                &history_hash,
            );
            proof {
                lemma_digest_of_push(Seq::<Hash256>::empty(), *transaction);
                assert(history@ =~= seq![*transaction]);
                assert(history@ =~= Seq::<Hash256>::empty().push(*transaction));
                assert(before@.history(*key) =~= Seq::<Hash256>::empty());
                assert(wallet@.pending_txs =~= Seq::empty());
                assert(wallet@.txs =~= Seq::empty());
                assert(wallet@ == before@.new_wallet(*key, name@, *transaction));
            }
            self.accounts.push(Account { wallet, history });
            proof {
                assert(self.accounts@.drop_last() =~= before.accounts@);
                Schema::lemma_account_added(before, *self, *transaction);
            }
        }
    }

    /// Adds a co-signer to a wallet. The key must not be a co-signer of the
    /// wallet already: no wallet of the store has a co-signer twice.
    pub fn add_signer(
        &mut self,
        wallet: &Wallet,
        signer: &PublicKey,
        transaction: &Hash256,
    ) -> (new_wallet: Wallet)
        requires
            old(self).wf(),
            old(self)@.holds(wallet@),
            !wallet@.signers.contains(*signer),
        ensures
            final(self).wf(),
            final(self)@ == old(self)@.add_signer(wallet.pub_key, *signer, *transaction),
            new_wallet.pub_key == wallet.pub_key,
            final(self)@.holds(new_wallet@),
    {
        let ghost before = *self;
        let at = self.account_index(&wallet.pub_key);
        proof {
            self.lemma_account(at as int);
        }
        let history_hash = self.append_history(at, transaction);
        let new_wallet = wallet.clone().add_signer(signer, &history_hash);
        proof {
            lemma_push_no_duplicates(wallet@.signers, *signer);
        }
        self.put_wallet(at, new_wallet.clone(), Ghost(before), Ghost(*transaction));
        new_wallet
    }

    /// Adds a pending transfer, approved by nobody yet, to a wallet.
    pub fn add_pending_tx(
        &mut self,
        wallet: &Wallet,
        tx_hash: &Hash256,
        recipient: &PublicKey,
        amount: u64,
        transaction: &Hash256,
    ) -> (new_wallet: Wallet)
        requires
            old(self).wf(),
            old(self)@.holds(wallet@),
        ensures
            final(self).wf(),
            final(self)@ == old(self)@.add_pending_tx(
                wallet.pub_key,
                *tx_hash,
                *recipient,
                amount,
                *transaction,
            ),
            new_wallet.pub_key == wallet.pub_key,
            final(self)@.holds(new_wallet@),
    {
        let ghost before = *self;
        let at = self.account_index(&wallet.pub_key);
        proof {
            self.lemma_account(at as int);
        }
        let history_hash = self.append_history(at, transaction);
        let pending_tx = PendingTransaction::new(tx_hash, recipient, amount);
        let new_wallet = wallet.clone().add_pending_tx(pending_tx, &history_hash);
        self.put_wallet(at, new_wallet.clone(), Ghost(before), Ghost(*transaction));
        new_wallet
    }

    /// Settles a pending transfer of a wallet: the first pending transfer
    /// with the hash of `tx` leaves the pending list, and the record of
    /// `tx`, confirmed at the given height, joins the settled list. Balances
    /// are not touched.
    pub fn confirm_pending_tx(
        &mut self,
        wallet: &Wallet,
        tx: &PendingTransaction,
        confirmation_block: u64,
        transaction: &Hash256,
    ) -> (new_wallet: Wallet)
        requires
            old(self).wf(),
            old(self)@.holds(wallet@),
            wallet@.has_pending(tx.tx_hash),
        ensures
            final(self).wf(),
            final(self)@ == old(self)@.confirm_pending_tx(
                wallet.pub_key,
                tx@,
                confirmation_block,
                *transaction,
            ),
            new_wallet.pub_key == wallet.pub_key,
            final(self)@.holds(new_wallet@),
    {
        let ghost before = *self;
        let at = self.account_index(&wallet.pub_key);
        proof {
            self.lemma_account(at as int);
        }
        let history_hash = self.append_history(at, transaction);
        let approved_tx = ApprovedTransaction {
            tx_hash: tx.tx_hash,
            recipient: tx.recipient,
            amount: tx.amount,
            approvals: tx.approvals.clone(),
            confirmation_block,
        };
        let new_wallet = wallet.clone().add_approved_tx(approved_tx, &history_hash);
        self.put_wallet(at, new_wallet.clone(), Ghost(before), Ghost(*transaction));
        new_wallet
    }

    /// Records the approval of a co-signer on a pending transfer of a
    /// wallet.
    pub fn sign_pending_tx(
        &mut self,
        wallet: &Wallet,
        tx_hash: &Hash256,
        signer: &PublicKey,
        transaction: &Hash256,
    ) -> (new_wallet: Wallet)
        requires
            old(self).wf(),
            old(self)@.holds(wallet@),
            wallet@.has_pending(*tx_hash),
        ensures
            final(self).wf(),
            final(self)@ == old(self)@.sign_pending_tx(
                wallet.pub_key,
                *tx_hash,
                *signer,
                *transaction,
            ),
            new_wallet.pub_key == wallet.pub_key,
            final(self)@.holds(new_wallet@),
    {
        let ghost before = *self;
        let at = self.account_index(&wallet.pub_key);
        proof {
            self.lemma_account(at as int);
        }
        let history_hash = self.append_history(at, transaction);
        let new_wallet = wallet.clone().sign_pending_tx(tx_hash, signer, &history_hash);
        self.put_wallet(at, new_wallet.clone(), Ghost(before), Ghost(*transaction));
        new_wallet
    }

    /// Adds an amount to the balance of a wallet.
    pub fn increase_wallet_balance(
        &mut self,
        wallet: &Wallet,
        amount: u64,
        transaction: &Hash256,
    ) -> (new_wallet: Wallet)
        requires
            old(self).wf(),
            old(self)@.holds(wallet@),
            wallet.balance + amount <= u64::MAX,
        ensures
            final(self).wf(),
            final(self)@ == old(self)@.increase_wallet_balance(
                wallet.pub_key,
                amount,
                *transaction,
            ),
            new_wallet.pub_key == wallet.pub_key,
            final(self)@.holds(new_wallet@),
    {
        let ghost before = *self;
        let at = self.account_index(&wallet.pub_key);
        proof {
            self.lemma_account(at as int);
        }
        let history_hash = self.append_history(at, transaction);
        let balance = wallet.balance;
        let new_wallet = wallet.clone().set_balance(balance + amount, &history_hash);
        self.put_wallet(at, new_wallet.clone(), Ghost(before), Ghost(*transaction));
        new_wallet
    }

    /// Takes an amount from the balance of a wallet.
    pub fn decrease_wallet_balance(
        &mut self,
        wallet: &Wallet,
        amount: u64,
        transaction: &Hash256,
    ) -> (new_wallet: Wallet)
        requires
            old(self).wf(),
            old(self)@.holds(wallet@),
            amount <= wallet.balance,
        ensures
            final(self).wf(),
            final(self)@ == old(self)@.decrease_wallet_balance(
                wallet.pub_key,
                amount,
                *transaction,
            ),
            new_wallet.pub_key == wallet.pub_key,
            final(self)@.holds(new_wallet@),
    {
        let ghost before = *self;
        let at = self.account_index(&wallet.pub_key);
        proof {
            self.lemma_account(at as int);
        }
        let history_hash = self.append_history(at, transaction);
        let balance = wallet.balance;
        let new_wallet = wallet.clone().set_balance(balance - amount, &history_hash);
        self.put_wallet(at, new_wallet.clone(), Ghost(before), Ghost(*transaction));
        new_wallet
    }

    /// The history log of a key: the hashes of the transactions that wrote
    /// to its wallet, oldest first. It is empty where the key has no wallet.
    pub fn wallet_history(&self, pub_key: &PublicKey) -> (history: Vec<Hash256>)
        requires
            self.wf(),
        ensures
            history@ == self@.history(*pub_key),
    {
        let at = self.account_index(pub_key);
        if at < self.accounts.len() {
            proof {
                self.lemma_account(at as int);
            }
            self.accounts[at].history.clone()
        } else {
            Vec::new()
        }
    }

    /// The transfer registered under a trigger hash, if there is one.
    pub fn awaiting_tx(&self, hash: &Hash256) -> (found: Option<SignTx>)
        requires
            self.wf(),
        ensures
            found == (if self@.awaiting_txs.contains_key(*hash) {
                Some(self@.awaiting_txs[*hash])
            } else {
                None
            }),
    {
        let at = self.entry_index(hash);
        if at < self.awaiting.len() {
            proof {
                self.lemma_entry(at as int);
            }
            Some(self.awaiting[at].tx)
        } else {
            None
        }
    }

    /// Registers a transfer for confirmation: under the trigger hash
    /// `service_hash` the index then holds the sender and the hash under
    /// which the transfer is pending. An entry that was there is replaced.
    pub fn add_awaiting_tx(
        &mut self,
        service_hash: &Hash256,
        origin_hash: &Hash256,
        sender: &PublicKey,
    )
        requires
            old(self).wf(),
        ensures
            final(self).wf(),
            final(self)@ == old(self)@.add_awaiting_tx(*service_hash, *origin_hash, *sender),
    {
        let ghost before = *self;
        let ghost triggers = trigger_hashes(self.awaiting@);
        let tx = SignTx { origin: *sender, tx_hash: *origin_hash };
        let at = self.entry_index(service_hash);
        if at < self.awaiting.len() {
            self.awaiting[at].tx = tx;
            proof {
                assert(trigger_hashes(self.awaiting@) =~= triggers);
            }
        } else {
            self.awaiting.push(Awaiting { service_hash: *service_hash, tx });
            proof {
                let next = trigger_hashes(self.awaiting@);
                assert(next =~= triggers.push(*service_hash));
                lemma_position(triggers, *service_hash);
                assert forall|i: int, j: int|
                    0 <= i < next.len() && 0 <= j < next.len() && i != j implies next[i]
                    != next[j] by {
                    if i < triggers.len() {
                        assert(triggers[i] == next[i]);
                    }
                    if j < triggers.len() {
                        assert(triggers[j] == next[j]);
                    }
                }
            }
        }
        proof {
            let next = trigger_hashes(self.awaiting@);
            let target = before@.add_awaiting_tx(*service_hash, *origin_hash, *sender);
            assert forall|hash: Hash256| #[trigger]
                self@.awaiting_txs.contains_key(hash) == target.awaiting_txs.contains_key(hash) by {
                assert(self@.awaiting_txs.contains_key(hash) == next.contains(hash));
                assert(before@.awaiting_txs.contains_key(hash) == triggers.contains(hash));
                if triggers.contains(hash) {
                    let i = choose|i: int| 0 <= i < triggers.len() && triggers[i] == hash;
                    assert(next[i] == hash);
                }
                if hash == *service_hash {
                    assert(next[at as int] == hash);
                }
            }
            assert forall|hash: Hash256| #[trigger]
                self@.awaiting_txs.contains_key(hash) implies self@.awaiting_txs[hash]
                == target.awaiting_txs[hash] by {
                lemma_position(next, hash);
                lemma_position(triggers, hash);
                let p = position(next, hash);
                if hash == *service_hash {
                    lemma_position_is(next, hash, at as int);
                } else {
                    assert(p < triggers.len());
                    assert(triggers[p] == hash);
                    lemma_position_is(triggers, hash, p);
                }
            }
            assert(self@.wallets =~= target.wallets);
            assert(self@.histories =~= target.histories);
            assert(self@.awaiting_txs =~= target.awaiting_txs);
        }
    }

    /// Takes the index entry at a position out of the index.
    fn remove_entry(&mut self, at: usize)
        requires
            old(self).wf(),
            at < old(self).awaiting@.len(),
        ensures
            final(self).wf(),
            final(self)@ == old(self)@.remove_awaiting_tx(
                old(self).awaiting@[at as int].service_hash,
            ),
            final(self).awaiting@ == old(self).awaiting@.remove(at as int),
    {
        let ghost before = *self;
        let ghost triggers = trigger_hashes(self.awaiting@);
        let ghost hash = self.awaiting@[at as int].service_hash;
        proof {
            self.lemma_entry(at as int);
        }
        self.awaiting.remove(at);
        proof {
            let next = trigger_hashes(self.awaiting@);
            let target = before@.remove_awaiting_tx(hash);
            lemma_position(triggers, hash);
            assert(next =~= triggers.remove(at as int));
            assert forall|i: int, j: int|
                0 <= i < next.len() && 0 <= j < next.len() && i != j implies next[i]
                != next[j] by {
                let a = if i < at { i } else { i + 1 };
                let b = if j < at { j } else { j + 1 };
                assert(next[i] == triggers[a] && next[j] == triggers[b]);
            }
            assert forall|other: Hash256| #[trigger]
                self@.awaiting_txs.contains_key(other) == target.awaiting_txs.contains_key(
                    other,
                ) by {
                assert(self@.awaiting_txs.contains_key(other) == next.contains(other));
                assert(before@.awaiting_txs.contains_key(other) == triggers.contains(other));
                if next.contains(other) {
                    let i = choose|i: int| 0 <= i < next.len() && next[i] == other;
                    let a = if i < at { i } else { i + 1 };
                    assert(triggers[a] == other);
                }
                if triggers.contains(other) && other != hash {
                    let a = choose|a: int| 0 <= a < triggers.len() && triggers[a] == other;
                    let i = if a < at { a } else { a - 1 };
                    assert(next[i] == other);
                }
            }
            assert forall|other: Hash256| #[trigger]
                self@.awaiting_txs.contains_key(other) implies self@.awaiting_txs[other]
                == target.awaiting_txs[other] by {
                lemma_position(next, other);
                lemma_position(triggers, other);
                let p = position(next, other);
                let a = if p < at { p } else { p + 1 };
                assert(triggers[a] == other);
                assert forall|j: int| 0 <= j < a implies triggers[j] != other by {
                    if triggers[j] == other {
                        assert(j != a);
                    }
                }
                lemma_position_is(triggers, other, a);
            }
            assert(self@.wallets =~= target.wallets);
            assert(self@.histories =~= target.histories);
            assert(self@.awaiting_txs =~= target.awaiting_txs);
        }
    }

    /// Takes the entry under a trigger hash out of the
    /// awaiting-confirmation index. Where there is none, nothing changes.
    pub fn remove_awaiting_tx(&mut self, hash: &Hash256)
        requires
            old(self).wf(),
        ensures
            final(self).wf(),
            final(self)@ == old(self)@.remove_awaiting_tx(*hash),
    {
        let at = self.entry_index(hash);
        if at < self.awaiting.len() {
            self.remove_entry(at);
        } else {
            assert(self@.awaiting_txs =~= self@.awaiting_txs.remove(*hash));
        }
    }

    /// Takes every entry that names the given transfer, by its sender and
    /// the hash under which it is pending, out of the awaiting-confirmation
    /// index, under whatever trigger hash it was registered. Every other
    /// entry stays as it was.
    pub fn remove_awaiting_transfer(&mut self, sender: &PublicKey, origin_hash: &Hash256)
        requires
            old(self).wf(),
        ensures
            final(self).wf(),
            final(self)@ == old(self)@.remove_awaiting_transfer(*sender, *origin_hash),
    {
        let ghost before = self@;
        let ghost named = SignTx { origin: *sender, tx_hash: *origin_hash };
        let mut i: usize = 0;
        while i < self.awaiting.len()
            invariant
                self.wf(),
                i <= self.awaiting@.len(),
                named == (SignTx { origin: *sender, tx_hash: *origin_hash }),
                self@.wallets == before.wallets,
                self@.histories == before.histories,
                forall|j: int| 0 <= j < i ==> (#[trigger] self.awaiting@[j]).tx != named,
                forall|hash: Hash256| #[trigger]
                    self@.awaiting_txs.contains_key(hash) ==> before.awaiting_txs.contains_key(
                        hash,
                    ) && self@.awaiting_txs[hash] == before.awaiting_txs[hash],
                forall|hash: Hash256|
                    #[trigger] before.awaiting_txs.contains_key(hash) && before.awaiting_txs[hash]
                        != named ==> self@.awaiting_txs.contains_key(hash),
            decreases self.awaiting@.len() - i,
        {
            if self.awaiting[i].tx.origin == *sender && self.awaiting[i].tx.tx_hash
                == *origin_hash {
                proof {
                    self.lemma_entry(i as int);
                }
                self.remove_entry(i);
            } else {
                i += 1;
            }
        }
        proof {
            let target = before.remove_awaiting_transfer(*sender, *origin_hash);
            let triggers = trigger_hashes(self.awaiting@);
            assert forall|hash: Hash256| #[trigger]
                self@.awaiting_txs.contains_key(hash) implies self@.awaiting_txs[hash]
                != named by {
                lemma_position(triggers, hash);
                assert(self.awaiting@[position(triggers, hash)].tx != named);
            }
            assert forall|hash: Hash256| #[trigger]
                self@.awaiting_txs.contains_key(hash) == target.awaiting_txs.contains_key(
                    hash,
                ) by {
                if self@.awaiting_txs.contains_key(hash) {
                    assert(before.awaiting_txs.contains_key(hash));
                }
                if target.awaiting_txs.contains_key(hash) {
                    assert(before.awaiting_txs.contains_key(hash));
                }
            }
            assert(self@.awaiting_txs =~= target.awaiting_txs);
        }
    }

    /// All wallets, each once and as the store holds it.
    pub fn wallets(&self) -> (all: Vec<Wallet>)
        requires
            self.wf(),
        ensures
            self@.lists(wallet_views(all@)),
    {
        let ghost keys = account_keys(self.accounts@);
        let mut all: Vec<Wallet> = Vec::new();
        let mut i: usize = 0;
        while i < self.accounts.len()
            invariant
                i <= self.accounts.len(),
                self.wf(),
                all@.len() == i,
                forall|j: int| 0 <= j < i ==> (#[trigger] all@[j])@ == self.accounts@[j].wallet@,
            decreases self.accounts.len() - i,
        {
            all.push(self.accounts[i].wallet.clone());
            i += 1;
        }
        proof {
            let views = wallet_views(all@);
            assert forall|j: int| 0 <= j < views.len() implies self@.holds(#[trigger] views[j]) by {
                self.lemma_account(j);
            }
            assert forall|a: int, b: int| 0 <= a < b < views.len() implies views[a].pub_key
                != views[b].pub_key by {
                assert(views[a].pub_key == keys[a]);
                assert(views[b].pub_key == keys[b]);
            }
            assert forall|key: PublicKey| self@.wallets.contains_key(key) implies exists|j: int|
                0 <= j < views.len() && #[trigger] views[j].pub_key == key by {
                lemma_position(keys, key);
                let p = position(keys, key);
                assert(views[p].pub_key == keys[p]);
            }
        }
        all
    }

    /// All entries of the awaiting-confirmation index, each once: the
    /// trigger hash with the transfer registered under it.
    pub fn awaiting_txs(&self) -> (all: Vec<(Hash256, SignTx)>)
        requires
            self.wf(),
        ensures
            forall|i: int|
                0 <= i < all@.len() ==> self@.awaiting_txs.contains_key((#[trigger] all@[i]).0)
                    && self@.awaiting_txs[all@[i].0] == all@[i].1,
            forall|i: int, j: int| 0 <= i < j < all@.len() ==> all@[i].0 != all@[j].0,
            forall|hash: Hash256|
                self@.awaiting_txs.contains_key(hash) ==> exists|i: int|
                    0 <= i < all@.len() && (#[trigger] all@[i]).0 == hash,
    {
        let ghost triggers = trigger_hashes(self.awaiting@);
        let mut all: Vec<(Hash256, SignTx)> = Vec::new();
        let mut i: usize = 0;
        while i < self.awaiting.len()
            invariant
                i <= self.awaiting.len(),
                self.wf(),
                all@.len() == i,
                forall|j: int|
                    0 <= j < i ==> (#[trigger] all@[j]) == (
                        self.awaiting@[j].service_hash,
                        self.awaiting@[j].tx,
                    ),
            decreases self.awaiting.len() - i,
        {
            all.push((self.awaiting[i].service_hash, self.awaiting[i].tx));
            i += 1;
        }
        proof {
            assert forall|j: int| 0 <= j < all@.len() implies self@.awaiting_txs.contains_key(
                (#[trigger] all@[j]).0,
            ) && self@.awaiting_txs[all@[j].0] == all@[j].1 by {
                self.lemma_entry(j);
            }
            assert forall|a: int, b: int| 0 <= a < b < all@.len() implies all@[a].0 != all@[b].0 by {
                assert(all@[a].0 == triggers[a]);
                assert(all@[b].0 == triggers[b]);
            }
            assert forall|hash: Hash256| self@.awaiting_txs.contains_key(hash) implies exists|j: int|
                0 <= j < all@.len() && (#[trigger] all@[j]).0 == hash by {
                lemma_position(triggers, hash);
                let p = position(triggers, hash);
                assert(all@[p].0 == triggers[p]);
            }
        }
        all
    }

} // impl Schema

} // verus!
