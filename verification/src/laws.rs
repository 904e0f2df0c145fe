//! What holds of the ledger under every operation and every sequence of
//! operations.

use crate::crypto::{Hash256, PublicKey};
use crate::ledger::{lemma_written_well_formed, LedgerView};
use crate::lookup::{lemma_position, lemma_position_is, lemma_push_no_duplicates};
use crate::transaction::{
    AddSignerTx, ConfirmationTx, CreateWalletTx, SignTx, TransferTx, TxError, WalletTransaction,
};
use crate::wallet::tx_hashes;
use vstd::prelude::*;

verus! {

/// An operation as it reaches the ledger: with its author and the hash of
/// the transaction that carries it.
pub struct Request {
    pub author: PublicKey,
    pub tx_hash: Hash256,
    pub tx: WalletTransaction,
}

impl Request {
    /// Whether the operation succeeds on a ledger, and why not.
    pub open spec fn outcome(self, ledger: LedgerView) -> Result<(), TxError> {
        self.tx.outcome(ledger, self.author)
    }

    /// The ledger after the operation.
    pub open spec fn applied(self, ledger: LedgerView) -> LedgerView {
        self.tx.applied(ledger, self.author, self.tx_hash)
    }
}

/// The ledger after a sequence of operations, executed in order.
pub open spec fn run(ledger: LedgerView, requests: Seq<Request>) -> LedgerView
    decreases requests.len(),
{
    if requests.len() == 0 {
        ledger
    } else {
        requests.last().applied(run(ledger, requests.drop_last()))
    }
}

/// Whether every operation of a sequence can be carried out on the ledger
/// that it meets.
pub open spec fn runs(ledger: LedgerView, requests: Seq<Request>) -> bool
    decreases requests.len(),
{
    requests.len() > 0 ==> {
        &&& runs(ledger, requests.drop_last())
        &&& requests.last().tx.settles(run(ledger, requests.drop_last()))
    }
}

/// Every operation leaves a well-formed ledger well formed: no wallet gets
/// a co-signer twice, and each wallet's history length and history digest
/// stay those of its history log.
pub proof fn lemma_applied_well_formed(
    tx: WalletTransaction,
    ledger: LedgerView,
    author: PublicKey,
    tx_hash: Hash256,
)
    requires
        ledger.well_formed(),
        tx.settles(ledger),
    ensures
        tx.applied(ledger, author, tx_hash).well_formed(),
{
    if tx.outcome(ledger, author) is Ok {
        match tx {
            WalletTransaction::CreateWallet(op) => {
                lemma_written_well_formed(
                    ledger,
                    ledger.new_wallet(author, op.name@, tx_hash),
                    tx_hash,
                );
            },
            WalletTransaction::AddSigner(op) => {
                if op.adds(ledger, author) {
                    lemma_push_no_duplicates(ledger.wallets[author].signers, op.signer);
                    lemma_written_well_formed(
                        ledger,
                        ledger.wallets[author].with_signer(
                            op.signer,
                            ledger.next_digest(author, tx_hash),
                        ),
                        tx_hash,
                    );
                }
            },
            WalletTransaction::Transfer(op) => {
                let pending = ledger.add_pending_tx(
                    author,
                    tx_hash,
                    op.recipient,
                    op.amount,
                    tx_hash,
                );
                lemma_written_well_formed(ledger, pending.wallets[author], tx_hash);
                assert(pending.well_formed());
                assert(pending.add_awaiting_tx(tx_hash, tx_hash, author).well_formed());
            },
            WalletTransaction::Sign(op) => {
                let signed = ledger.sign_pending_tx(op.origin, op.tx_hash, author, tx_hash);
                lemma_written_well_formed(ledger, signed.wallets[op.origin], tx_hash);
                assert(signed.well_formed());
                assert(signed.add_awaiting_tx(tx_hash, op.tx_hash, op.origin).well_formed());
            },
            WalletTransaction::Confirmation(op) => {
                lemma_confirmation_steps(op, ledger, tx_hash);
            },
        }
    }
}

/// The four steps of a confirmation whose recipient has a wallet, one after
/// the other: each leaves the ledger well formed, and each of the last three
/// writes to the wallet that it names.
pub proof fn lemma_confirmation_steps(tx: ConfirmationTx, ledger: LedgerView, tx_hash: Hash256)
    requires
        ledger.well_formed(),
        tx.recipient_exists(ledger),
        tx.outcome(ledger) is Ok,
    ensures
        ({
            let pending = ledger.wallets[tx.sender].pending(tx.tx_hash);
            let unregistered = ledger.remove_awaiting_transfer(tx.sender, tx.tx_hash);
            let settled = unregistered.confirm_pending_tx(
                tx.sender,
                pending,
                tx.confirmation_block,
                tx_hash,
            );
            let debited = settled.decrease_wallet_balance(tx.sender, pending.amount, tx_hash);
            let credited = debited.increase_wallet_balance(
                pending.recipient,
                pending.amount,
                tx_hash,
            );
            &&& credited == tx.applied(ledger, tx_hash)
            &&& unregistered.well_formed()
            &&& settled.well_formed()
            &&& debited.well_formed()
            &&& credited.well_formed()
            &&& settled == unregistered.written(settled.wallets[tx.sender], tx_hash)
            &&& debited == settled.written(debited.wallets[tx.sender], tx_hash)
            &&& credited == debited.written(credited.wallets[pending.recipient], tx_hash)
            &&& settled.wallets[tx.sender] == ledger.wallets[tx.sender].settled(
                pending.settled_at(tx.confirmation_block),
                unregistered.next_digest(tx.sender, tx_hash),
            )
            &&& debited.wallets[tx.sender] == settled.wallets[tx.sender].with_balance(
                (ledger.wallets[tx.sender].balance - pending.amount) as nat,
                settled.next_digest(tx.sender, tx_hash),
            )
            &&& debited.wallets.contains_key(pending.recipient)
            &&& credited.wallets[pending.recipient] == debited.wallets[pending.recipient].with_balance(
                (debited.wallets[pending.recipient].balance + pending.amount) as nat,
                debited.next_digest(pending.recipient, tx_hash),
            )
        }),
{
    let pending = ledger.wallets[tx.sender].pending(tx.tx_hash);
    let unregistered = ledger.remove_awaiting_transfer(tx.sender, tx.tx_hash);
    let settled = unregistered.confirm_pending_tx(
        tx.sender,
        pending,
        tx.confirmation_block,
        tx_hash,
    );
    let debited = settled.decrease_wallet_balance(tx.sender, pending.amount, tx_hash);
    let credited = debited.increase_wallet_balance(pending.recipient, pending.amount, tx_hash);
    assert(unregistered.well_formed());
    lemma_written_well_formed(
        unregistered,
        unregistered.wallets[tx.sender].settled(
            pending.settled_at(tx.confirmation_block),
            unregistered.next_digest(tx.sender, tx_hash),
        ),
        tx_hash,
    );
    assert(settled.wallets[tx.sender].pub_key == tx.sender);
    lemma_written_well_formed(
        settled,
        settled.wallets[tx.sender].with_balance(
            (settled.wallets[tx.sender].balance - pending.amount) as nat,
            settled.next_digest(tx.sender, tx_hash),
        ),
        tx_hash,
    );
    assert(debited.wallets.contains_key(pending.recipient));
    assert(debited.wallets[pending.recipient].pub_key == pending.recipient);
    lemma_written_well_formed(
        debited,
        debited.wallets[pending.recipient].with_balance(
            (debited.wallets[pending.recipient].balance + pending.amount) as nat,
            debited.next_digest(pending.recipient, tx_hash),
        ),
        tx_hash,
    );
}

/// Every sequence of operations that can be carried out leaves a
/// well-formed ledger well formed.
pub proof fn lemma_run_well_formed(ledger: LedgerView, requests: Seq<Request>)
    requires
        ledger.well_formed(),
        runs(ledger, requests),
    ensures
        run(ledger, requests).well_formed(),
    decreases requests.len(),
{
    if requests.len() > 0 {
        lemma_run_well_formed(ledger, requests.drop_last());
        let last = requests.last();
        lemma_applied_well_formed(
            last.tx,
            run(ledger, requests.drop_last()),
            last.author,
            last.tx_hash,
        );
    }
}

/// No operation takes a wallet away.
pub proof fn lemma_applied_keeps_wallets(
    tx: WalletTransaction,
    ledger: LedgerView,
    author: PublicKey,
    tx_hash: Hash256,
    key: PublicKey,
)
    requires
        ledger.well_formed(),
        tx.settles(ledger),
        ledger.wallets.contains_key(key),
    ensures
        tx.applied(ledger, author, tx_hash).wallets.contains_key(key),
{
    if tx.outcome(ledger, author) is Ok {
        match tx {
            WalletTransaction::Confirmation(op) => {
                lemma_confirmation_steps(op, ledger, tx_hash);
            },
            _ => {},
        }
    }
}

/// No sequence of operations takes a wallet away.
pub proof fn lemma_run_keeps_wallets(ledger: LedgerView, requests: Seq<Request>, key: PublicKey)
    requires
        ledger.well_formed(),
        runs(ledger, requests),
        ledger.wallets.contains_key(key),
    ensures
        run(ledger, requests).wallets.contains_key(key),
    decreases requests.len(),
{
    if requests.len() > 0 {
        let earlier = requests.drop_last();
        let last = requests.last();
        lemma_run_keeps_wallets(ledger, earlier, key);
        lemma_run_well_formed(ledger, earlier);
        lemma_applied_keeps_wallets(last.tx, run(ledger, earlier), last.author, last.tx_hash, key);
    }
}

/// After an author has asked for a wallet, every later request of that
/// author for a wallet is refused because the wallet exists, whatever was
/// executed in between.
pub proof fn lemma_create_wallet_once(
    ledger: LedgerView,
    first: CreateWalletTx,
    author: PublicKey,
    tx_hash: Hash256,
    between: Seq<Request>,
    second: CreateWalletTx,
)
    requires
        ledger.well_formed(),
        runs(first.applied(ledger, author, tx_hash), between),
    ensures
        second.outcome(run(first.applied(ledger, author, tx_hash), between), author) == Err::<
            (),
            TxError,
        >(TxError::WalletAlreadyExists),
{
    let created = first.applied(ledger, author, tx_hash);
    lemma_applied_well_formed(WalletTransaction::CreateWallet(first), ledger, author, tx_hash);
    assert(created.wallets.contains_key(author));
    lemma_run_keeps_wallets(created, between, author);
}

/// How many times an operation writes to the wallet of a key: once to the
/// wallet it changes, and for a confirmation twice to the sender's wallet
/// and once to the recipient's; never where it fails, nor where it adds a
/// co-signer that the wallet has already.
pub open spec fn writes_to(
    tx: WalletTransaction,
    ledger: LedgerView,
    author: PublicKey,
    key: PublicKey,
) -> nat {
    if tx.outcome(ledger, author) is Err {
        0
    } else {
        match tx {
            WalletTransaction::CreateWallet(_) => if key == author { 1 } else { 0 },
            WalletTransaction::AddSigner(op) => if key == author && op.adds(ledger, author) {
                1
            } else {
                0
            },
            WalletTransaction::Transfer(_) => if key == author { 1 } else { 0 },
            WalletTransaction::Sign(op) => if key == op.origin { 1 } else { 0 },
            WalletTransaction::Confirmation(op) => {
                let recipient = ledger.wallets[op.sender].pending(op.tx_hash).recipient;
                let debits: nat = if key == op.sender { 2 } else { 0 };
                let credits: nat = if key == recipient { 1 } else { 0 };
                debits + credits
            },
        }
    }
}

/// History is append-only and advances one step per write: after an
/// operation, the history log of every key is the log before it followed by
/// the hash of the operation's transaction, once for each write of the
/// operation to the wallet of that key; and the history length of every
/// wallet that existed has grown by exactly that number of writes.
pub proof fn lemma_history_advances(
    tx: WalletTransaction,
    ledger: LedgerView,
    author: PublicKey,
    tx_hash: Hash256,
    key: PublicKey,
)
    requires
        ledger.well_formed(),
        tx.settles(ledger),
    ensures
        tx.applied(ledger, author, tx_hash).history(key) == ledger.history(key) + Seq::new(
            writes_to(tx, ledger, author, key),
            |i: int| tx_hash,
        ),
        ledger.wallets.contains_key(key) ==> tx.applied(
            ledger,
            author,
            tx_hash,
        ).wallets[key].history_len == ledger.wallets[key].history_len + writes_to(
            tx,
            ledger,
            author,
            key,
        ),
{
    let after = tx.applied(ledger, author, tx_hash);
    let count = writes_to(tx, ledger, author, key);
    let repeated = Seq::new(count, |i: int| tx_hash);
    lemma_applied_well_formed(tx, ledger, author, tx_hash);
    if tx.outcome(ledger, author) is Ok {
        match tx {
            WalletTransaction::Confirmation(op) => {
                lemma_confirmation_steps(op, ledger, tx_hash);
                let pending = ledger.wallets[op.sender].pending(op.tx_hash);
                let unregistered = ledger.remove_awaiting_transfer(op.sender, op.tx_hash);
                let settled = unregistered.confirm_pending_tx(
                    op.sender,
                    pending,
                    op.confirmation_block,
                    tx_hash,
                );
                let debited = settled.decrease_wallet_balance(op.sender, pending.amount, tx_hash);
                assert(unregistered.history(key) == ledger.history(key));
                assert(settled.history(key) == if key == op.sender {
                    ledger.history(key).push(tx_hash)
                } else {
                    ledger.history(key)
                });
                assert(debited.history(key) == if key == op.sender {
                    ledger.history(key).push(tx_hash).push(tx_hash)
                } else {
                    ledger.history(key)
                });
                assert(after.history(key) == if key == pending.recipient {
                    debited.history(key).push(tx_hash)
                } else {
                    debited.history(key)
                });
                assert(after.history(key) =~= ledger.history(key) + repeated);
            },
            _ => {
                assert(after.history(key) =~= ledger.history(key) + repeated);
            },
        }
    } else {
        assert(after.history(key) =~= ledger.history(key) + repeated);
    }
    if ledger.wallets.contains_key(key) {
        lemma_applied_keeps_wallets(tx, ledger, author, tx_hash, key);
        assert(after.wallets[key].history_len == after.histories[key].len());
        assert(ledger.wallets[key].history_len == ledger.histories[key].len());
    }
}

/// No sequence of operations shortens or rewrites a history log: the log of
/// every key before the sequence is the beginning of its log after it, and
/// no wallet's history length ever decreases.
pub proof fn lemma_run_extends_history(ledger: LedgerView, requests: Seq<Request>, key: PublicKey)
    requires
        ledger.well_formed(),
        runs(ledger, requests),
    ensures
        ledger.history(key).is_prefix_of(run(ledger, requests).history(key)),
        ledger.wallets.contains_key(key) ==> ledger.wallets[key].history_len <= run(
            ledger,
            requests,
        ).wallets[key].history_len,
    decreases requests.len(),
{
    if requests.len() > 0 {
        let earlier = requests.drop_last();
        let last = requests.last();
        lemma_run_extends_history(ledger, earlier, key);
        lemma_run_well_formed(ledger, earlier);
        lemma_history_advances(last.tx, run(ledger, earlier), last.author, last.tx_hash, key);
        if ledger.wallets.contains_key(key) {
            lemma_run_keeps_wallets(ledger, earlier, key);
        }
    }
}

/// By how much an operation changes the balance of the wallet of a key:
/// a confirmation that succeeds takes the amount from the sender and gives
/// it to the recipient; nothing else changes a balance.
pub open spec fn balance_change(
    tx: WalletTransaction,
    ledger: LedgerView,
    author: PublicKey,
    key: PublicKey,
) -> int {
    match tx {
        WalletTransaction::Confirmation(op) => if op.outcome(ledger) is Ok {
            let pending = ledger.wallets[op.sender].pending(op.tx_hash);
            let debit: int = if key == op.sender { pending.amount as int } else { 0 };
            let credit: int = if key == pending.recipient { pending.amount as int } else { 0 };
            credit - debit
        } else {
            0
        },
        _ => 0,
    }
}

/// Balances change by exact arithmetic and never fall below zero: after an
/// operation the balance of every wallet is the balance before it and the
/// change that the operation makes, and the debit of a confirmation is
/// covered by the sender's balance at the moment it is made.
pub proof fn lemma_balance_changes(
    tx: WalletTransaction,
    ledger: LedgerView,
    author: PublicKey,
    tx_hash: Hash256,
    key: PublicKey,
)
    requires
        ledger.well_formed(),
        tx.settles(ledger),
        ledger.wallets.contains_key(key),
    ensures
        tx.applied(ledger, author, tx_hash).wallets.contains_key(key),
        tx.applied(ledger, author, tx_hash).wallets[key].balance == ledger.wallets[key].balance
            + balance_change(tx, ledger, author, key),
        match tx {
            WalletTransaction::Confirmation(op) => op.outcome(ledger) is Ok
                ==> ledger.wallets[op.sender].pending(op.tx_hash).amount
                <= ledger.wallets[op.sender].balance,
            _ => true,
        },
{
    lemma_applied_keeps_wallets(tx, ledger, author, tx_hash, key);
    if tx.outcome(ledger, author) is Ok {
        match tx {
            WalletTransaction::Confirmation(op) => {
                lemma_confirmation_steps(op, ledger, tx_hash);
            },
            _ => {},
        }
    }
}

/// No balance wraps around: after an operation that can be carried out,
/// every balance still is at least zero and at most the largest that a
/// wallet record can hold.
pub proof fn lemma_applied_balances_fit(
    tx: WalletTransaction,
    ledger: LedgerView,
    author: PublicKey,
    tx_hash: Hash256,
)
    requires
        ledger.well_formed(),
        ledger.balances_fit(),
        tx.settles(ledger),
    ensures
        tx.applied(ledger, author, tx_hash).balances_fit(),
{
    let after = tx.applied(ledger, author, tx_hash);
    assert forall|key: PublicKey| #[trigger] after.wallets.contains_key(key) implies after.wallets[key].balance
        <= u64::MAX by {
        if ledger.wallets.contains_key(key) {
            lemma_balance_changes(tx, ledger, author, tx_hash, key);
        } else if tx.outcome(ledger, author) is Ok {
            match tx {
                WalletTransaction::Confirmation(op) => {
                    lemma_confirmation_steps(op, ledger, tx_hash);
                },
                _ => {},
            }
        }
    }
}

/// Balances never fall below zero and never wrap around, whatever is
/// executed: after every sequence of operations that can be carried out,
/// every balance is at least zero and at most the largest that a wallet
/// record can hold.
pub proof fn lemma_run_balances_fit(ledger: LedgerView, requests: Seq<Request>)
    requires
        ledger.well_formed(),
        ledger.balances_fit(),
        runs(ledger, requests),
    ensures
        run(ledger, requests).balances_fit(),
        forall|key: PublicKey| #[trigger]
            run(ledger, requests).wallets.contains_key(key) ==> 0 <= run(
                ledger,
                requests,
            ).wallets[key].balance <= u64::MAX,
    decreases requests.len(),
{
    if requests.len() > 0 {
        let earlier = requests.drop_last();
        let last = requests.last();
        lemma_run_balances_fit(ledger, earlier);
        lemma_run_well_formed(ledger, earlier);
        lemma_applied_balances_fit(last.tx, run(ledger, earlier), last.author, last.tx_hash);
    }
}

/// A wallet that is created starts with the initial balance.
pub proof fn lemma_created_balance(
    tx: CreateWalletTx,
    ledger: LedgerView,
    author: PublicKey,
    tx_hash: Hash256,
)
    requires
        tx.outcome(ledger, author) is Ok,
    ensures
        tx.applied(ledger, author, tx_hash).wallets[author].balance == 100,
{
}

/// A transfer that is accepted asks for no more than the sender has.
pub proof fn lemma_transfer_is_covered(tx: TransferTx, ledger: LedgerView, author: PublicKey)
    requires
        tx.outcome(ledger, author) is Ok,
    ensures
        tx.amount <= ledger.wallets[author].balance,
{
}

/// No key is a co-signer of a wallet twice: after a request to add a
/// co-signer the wallet's co-signers are distinct, and a request to add a key
/// that is a co-signer already succeeds and leaves the ledger as it was, so
/// that the number of co-signers, which the threshold goes by, does not grow.
pub proof fn lemma_add_signer_once(
    tx: AddSignerTx,
    ledger: LedgerView,
    author: PublicKey,
    tx_hash: Hash256,
)
    requires
        ledger.well_formed(),
        ledger.wallets.contains_key(author),
    ensures
        tx.outcome(ledger, author) is Ok,
        tx.applied(ledger, author, tx_hash).wallets[author].signers.no_duplicates(),
        tx.applied(ledger, author, tx_hash).wallets[author].signers.contains(tx.signer),
        ledger.wallets[author].signers.contains(tx.signer) ==> tx.applied(ledger, author, tx_hash)
            == ledger,
        !ledger.wallets[author].signers.contains(tx.signer) ==> tx.applied(
            ledger,
            author,
            tx_hash,
        ).wallets[author].signers == ledger.wallets[author].signers.push(tx.signer),
{
    let signers = ledger.wallets[author].signers;
    if !signers.contains(tx.signer) {
        lemma_push_no_duplicates(signers, tx.signer);
        assert(signers.push(tx.signer)[signers.len() as int] == tx.signer);
    }
}

/// A key that is not a co-signer of a wallet cannot sign for it: the
/// request is refused, and where the wallet and the pending transfer exist,
/// it is refused as unauthorised.
pub proof fn lemma_non_signer_refused(tx: SignTx, ledger: LedgerView, author: PublicKey)
    requires
        !(ledger.wallets.contains_key(tx.origin) && ledger.wallets[tx.origin].signers.contains(
            author,
        )),
    ensures
        tx.outcome(ledger, author) is Err,
        ledger.wallets.contains_key(tx.origin) && ledger.wallets[tx.origin].has_pending(tx.tx_hash)
            ==> tx.outcome(ledger, author) == Err::<(), TxError>(TxError::UnauthorizedSigner),
{
}

/// A co-signer approves a pending transfer once: after an approval that
/// succeeded, the same author's next approval of the same transfer is
/// refused as a repetition.
pub proof fn lemma_sign_twice_refused(
    tx: SignTx,
    ledger: LedgerView,
    author: PublicKey,
    tx_hash: Hash256,
    again: SignTx,
)
    requires
        ledger.well_formed(),
        tx.outcome(ledger, author) is Ok,
        again.origin == tx.origin,
        again.tx_hash == tx.tx_hash,
    ensures
        again.outcome(tx.applied(ledger, author, tx_hash), author) == Err::<(), TxError>(
            TxError::AlreadySigned,
        ),
{
    let wallet = ledger.wallets[tx.origin];
    let at = wallet.pending_position(tx.tx_hash);
    let after = tx.applied(ledger, author, tx_hash);
    let signed = after.wallets[tx.origin];
    lemma_position(tx_hashes(wallet.pending_txs), tx.tx_hash);
    assert(signed == wallet.signed(tx.tx_hash, author, ledger.next_digest(tx.origin, tx_hash)));
    assert(tx_hashes(signed.pending_txs) =~= tx_hashes(wallet.pending_txs));
    let approvals = wallet.pending(tx.tx_hash).approvals;
    assert(signed.pending(tx.tx_hash).approvals == approvals.push(author));
    assert(approvals.push(author)[approvals.len() as int] == author);
}

/// A confirmation that succeeds takes every entry that names its sender and
/// its transfer out of the awaiting-confirmation index, under whichever
/// trigger hash the entry was registered, and leaves every other entry as it
/// was. It moves the transfer from the sender's pending list to the end of
/// its settled list, with the height recorded. If no other pending transfer
/// of the sender had that hash, none has it afterwards: the transfer is in
/// one list only.
pub proof fn lemma_confirmation_settles(tx: ConfirmationTx, ledger: LedgerView, tx_hash: Hash256)
    requires
        ledger.well_formed(),
        tx.recipient_exists(ledger),
        tx.outcome(ledger) is Ok,
    ensures
        ({
            let after = tx.applied(ledger, tx_hash);
            let wallet = ledger.wallets[tx.sender];
            let at = wallet.pending_position(tx.tx_hash);
            let named = SignTx { origin: tx.sender, tx_hash: tx.tx_hash };
            &&& forall|hash: Hash256|
                ledger.awaiting_txs.contains_key(hash) && ledger.awaiting_txs[hash] == named
                    ==> !(#[trigger] after.awaiting_txs.contains_key(hash))
            &&& forall|hash: Hash256|
                ledger.awaiting_txs.contains_key(hash) && ledger.awaiting_txs[hash] != named
                    ==> #[trigger] after.awaiting_txs.contains_key(hash)
                    && after.awaiting_txs[hash] == ledger.awaiting_txs[hash]
            &&& forall|hash: Hash256| #[trigger]
                after.awaiting_txs.contains_key(hash) ==> ledger.awaiting_txs.contains_key(hash)
                    && after.awaiting_txs[hash] != named
            &&& after.wallets[tx.sender].pending_txs == wallet.pending_txs.remove(at)
            &&& after.wallets[tx.sender].txs == wallet.txs.push(
                wallet.pending(tx.tx_hash).settled_at(tx.confirmation_block),
            )
            &&& (forall|j: int|
                0 <= j < wallet.pending_txs.len() && j != at ==> wallet.pending_txs[j].tx_hash
                    != tx.tx_hash) ==> !after.wallets[tx.sender].has_pending(tx.tx_hash)
        }),
{
    let after = tx.applied(ledger, tx_hash);
    let wallet = ledger.wallets[tx.sender];
    let at = wallet.pending_position(tx.tx_hash);
    let hashes = tx_hashes(wallet.pending_txs);
    lemma_confirmation_steps(tx, ledger, tx_hash);
    lemma_position(hashes, tx.tx_hash);
    assert(after.awaiting_txs == ledger.remove_awaiting_transfer(
        tx.sender,
        tx.tx_hash,
    ).awaiting_txs);
    let left = after.wallets[tx.sender].pending_txs;
    assert(left == wallet.pending_txs.remove(at));
    if forall|j: int|
        0 <= j < wallet.pending_txs.len() && j != at ==> wallet.pending_txs[j].tx_hash
            != tx.tx_hash {
        let left_hashes = tx_hashes(left);
        assert forall|j: int| 0 <= j < left_hashes.len() implies left_hashes[j] != tx.tx_hash by {
            let from = if j < at { j } else { j + 1 };
            assert(left[j] == wallet.pending_txs[from]);
        }
        lemma_position_is(left_hashes, tx.tx_hash, left_hashes.len() as int);
    }
}

/// No transfer is settled twice: once a confirmation has settled the only
/// pending transfer of the sender under a hash, a further confirmation for
/// that sender and hash finds no pending transfer.
pub proof fn lemma_confirmation_once(
    tx: ConfirmationTx,
    ledger: LedgerView,
    tx_hash: Hash256,
    again: ConfirmationTx,
)
    requires
        ledger.well_formed(),
        tx.recipient_exists(ledger),
        tx.outcome(ledger) is Ok,
        forall|j: int|
            0 <= j < ledger.wallets[tx.sender].pending_txs.len() && j
                != ledger.wallets[tx.sender].pending_position(tx.tx_hash)
                ==> ledger.wallets[tx.sender].pending_txs[j].tx_hash != tx.tx_hash,
        again.sender == tx.sender,
        again.tx_hash == tx.tx_hash,
    ensures
        again.outcome(tx.applied(ledger, tx_hash)) == Err::<(), TxError>(
            TxError::PendingTransactionNotFound,
        ),
{
    lemma_confirmation_settles(tx, ledger, tx_hash);
    lemma_confirmation_steps(tx, ledger, tx_hash);
}

/// The sum of the balances of the wallets of the given keys.
pub open spec fn total_balance(ledger: LedgerView, keys: Seq<PublicKey>) -> int
    decreases keys.len(),
{
    if keys.len() == 0 {
        0
    } else {
        total_balance(ledger, keys.drop_last()) + ledger.wallets[keys.last()].balance
    }
}

/// The sum of the changes that an operation makes to the balances of the
/// wallets of the given keys.
pub open spec fn total_change(
    tx: WalletTransaction,
    ledger: LedgerView,
    author: PublicKey,
    keys: Seq<PublicKey>,
) -> int
    decreases keys.len(),
{
    if keys.len() == 0 {
        0
    } else {
        total_change(tx, ledger, author, keys.drop_last()) + balance_change(
            tx,
            ledger,
            author,
            keys.last(),
        )
    }
}

/// Over keys among which none occurs twice, the changes of a confirmation
/// that succeeds add up to the amount if the recipient is among the keys,
/// less the amount if the sender is; those of any other operation add up
/// to nothing.
proof fn lemma_changes_cancel(
    tx: WalletTransaction,
    ledger: LedgerView,
    author: PublicKey,
    keys: Seq<PublicKey>,
)
    requires
        keys.no_duplicates(),
    ensures
        match tx {
            WalletTransaction::Confirmation(op) => op.outcome(ledger) is Ok ==> {
                let pending = ledger.wallets[op.sender].pending(op.tx_hash);
                let credit: int = if keys.contains(pending.recipient) {
                    pending.amount as int
                } else {
                    0
                };
                let debit: int = if keys.contains(op.sender) {
                    pending.amount as int
                } else {
                    0
                };
                total_change(tx, ledger, author, keys) == credit - debit
            },
            _ => true,
        },
        tx.outcome(ledger, author) is Err || !(tx is Confirmation) ==> total_change(
            tx,
            ledger,
            author,
            keys,
        ) == 0,
    decreases keys.len(),
{
    if keys.len() > 0 {
        let earlier = keys.drop_last();
        let last = keys.last();
        lemma_changes_cancel(tx, ledger, author, earlier);
        assert(!earlier.contains(last)) by {
            if earlier.contains(last) {
                let i = choose|i: int| 0 <= i < earlier.len() && earlier[i] == last;
                assert(keys[i] == keys[keys.len() - 1]);
            }
        }
        assert forall|key: PublicKey| keys.contains(key) <==> (key == last || earlier.contains(
            key,
        )) by {
            if earlier.contains(key) {
                let i = choose|i: int| 0 <= i < earlier.len() && earlier[i] == key;
                assert(keys[i] == key);
            }
            if key == last {
                assert(keys[keys.len() - 1] == key);
            }
            if keys.contains(key) && key != last {
                let i = choose|i: int| 0 <= i < keys.len() && keys[i] == key;
                assert(earlier[i] == key);
            }
        }
    }
}

/// Operations neither make nor lose money: over any wallets that hold both
/// ends of the transfer being settled, or neither, each wallet counted
/// once, the sum of the balances is the same after an operation as before
/// it.
pub proof fn lemma_total_balance_kept(
    tx: WalletTransaction,
    ledger: LedgerView,
    author: PublicKey,
    tx_hash: Hash256,
    keys: Seq<PublicKey>,
)
    requires
        ledger.well_formed(),
        tx.settles(ledger),
        keys.no_duplicates(),
        forall|i: int| 0 <= i < keys.len() ==> ledger.wallets.contains_key(#[trigger] keys[i]),
        match tx {
            WalletTransaction::Confirmation(op) => op.outcome(ledger) is Ok ==> (keys.contains(
                op.sender,
            ) <==> keys.contains(ledger.wallets[op.sender].pending(op.tx_hash).recipient)),
            _ => true,
        },
    ensures
        total_balance(tx.applied(ledger, author, tx_hash), keys) == total_balance(ledger, keys),
{
    lemma_total_balance_changes(tx, ledger, author, tx_hash, keys);
    lemma_changes_cancel(tx, ledger, author, keys);
}

/// The sum of the balances of wallets moves by the sum of their changes.
proof fn lemma_total_balance_changes(
    tx: WalletTransaction,
    ledger: LedgerView,
    author: PublicKey,
    tx_hash: Hash256,
    keys: Seq<PublicKey>,
)
    requires
        ledger.well_formed(),
        tx.settles(ledger),
        forall|i: int| 0 <= i < keys.len() ==> ledger.wallets.contains_key(#[trigger] keys[i]),
    ensures
        total_balance(tx.applied(ledger, author, tx_hash), keys) == total_balance(ledger, keys)
            + total_change(tx, ledger, author, keys),
    decreases keys.len(),
{
    if keys.len() > 0 {
        let earlier = keys.drop_last();
        assert forall|i: int| 0 <= i < earlier.len() implies ledger.wallets.contains_key(
            #[trigger] earlier[i],
        ) by {
            assert(earlier[i] == keys[i]);
        }
        lemma_total_balance_changes(tx, ledger, author, tx_hash, earlier);
        assert(ledger.wallets.contains_key(keys[keys.len() - 1]));
        lemma_balance_changes(tx, ledger, author, tx_hash, keys.last());
    }
}

} // verus!
