//! Transfer records and the operations that act on the ledger.

use crate::crypto::{Hash256, PublicKey};
use crate::ledger::LedgerView;
use crate::lookup::has_key;
use crate::policy::{majority_reached, threshold_met};
use crate::schema::Schema;
use vstd::prelude::*;

verus! {

/// A transfer that waits for approvals before balances move.
#[derive(Debug)]
pub struct PendingTransaction {
    /// Hash of the transaction that asked for the transfer.
    pub tx_hash: Hash256,
    /// Key of the wallet that is to receive the amount.
    pub recipient: PublicKey,
    /// Amount to move.
    pub amount: u64,
    /// Co-signers that have approved so far, in the order they did.
    pub approvals: Vec<PublicKey>,
}

/// What a pending transfer is: its fields, the approvals as a sequence.
pub struct PendingTransactionView {
    pub tx_hash: Hash256,
    pub recipient: PublicKey,
    pub amount: u64,
    pub approvals: Seq<PublicKey>,
}

impl View for PendingTransaction {
    type V = PendingTransactionView;

    open spec fn view(&self) -> PendingTransactionView {
        PendingTransactionView {
            tx_hash: self.tx_hash,
            recipient: self.recipient,
            amount: self.amount,
            approvals: self.approvals@,
        }
    }
}

impl PendingTransactionView {
    /// The transfer with one more approval.
    pub open spec fn approved_by(self, signer: PublicKey) -> PendingTransactionView {
        PendingTransactionView { approvals: self.approvals.push(signer), ..self }
    }

    /// The settled record of this transfer, confirmed at the given height.
    pub open spec fn settled_at(self, confirmation_block: u64) -> ApprovedTransactionView {
        ApprovedTransactionView {
            tx_hash: self.tx_hash,
            recipient: self.recipient,
            amount: self.amount,
            approvals: self.approvals,
            confirmation_block,
        }
    }
}

impl PendingTransaction {
    /// A new pending transfer, approved by nobody yet.
    pub fn new(tx_hash: &Hash256, recipient: &PublicKey, amount: u64) -> (tx: PendingTransaction)
        ensures
            tx@ == (PendingTransactionView {
                tx_hash: *tx_hash,
                recipient: *recipient,
                amount,
                approvals: Seq::empty(),
            }),
    {
        PendingTransaction {
            tx_hash: *tx_hash,
            recipient: *recipient,
            amount,
            approvals: Vec::new(),
        }
    }
}

impl Clone for PendingTransaction {
    fn clone(&self) -> (copy: PendingTransaction)
        ensures
            copy@ == self@,
    {
        PendingTransaction {
            tx_hash: self.tx_hash,
            recipient: self.recipient,
            amount: self.amount,
            approvals: self.approvals.clone(),
        }
    }
}

/// A settled transfer. It is never changed once made.
#[derive(Debug)]
pub struct ApprovedTransaction {
    /// Hash of the transaction that asked for the transfer.
    pub tx_hash: Hash256,
    /// Key of the wallet that received the amount.
    pub recipient: PublicKey,
    /// Amount moved.
    pub amount: u64,
    /// Co-signers that had approved when the transfer was settled.
    pub approvals: Vec<PublicKey>,
    /// Height of the block at which the settlement was confirmed.
    pub confirmation_block: u64,
}

/// What a settled transfer is: its fields, the approvals as a sequence.
pub struct ApprovedTransactionView {
    pub tx_hash: Hash256,
    pub recipient: PublicKey,
    pub amount: u64,
    pub approvals: Seq<PublicKey>,
    pub confirmation_block: u64,
}

impl View for ApprovedTransaction {
    type V = ApprovedTransactionView;

    open spec fn view(&self) -> ApprovedTransactionView {
        ApprovedTransactionView {
            tx_hash: self.tx_hash,
            recipient: self.recipient,
            amount: self.amount,
            approvals: self.approvals@,
            confirmation_block: self.confirmation_block,
        }
    }
}

impl Clone for ApprovedTransaction {
    fn clone(&self) -> (copy: ApprovedTransaction)
        ensures
            copy@ == self@,
    {
        ApprovedTransaction {
            tx_hash: self.tx_hash,
            recipient: self.recipient,
            amount: self.amount,
            approvals: self.approvals.clone(),
            confirmation_block: self.confirmation_block,
        }
    }
}

/// Asks for a wallet for the author, under the given display name.
#[derive(Clone, Debug)]
pub struct CreateWalletTx {
    /// Display name of the new wallet.
    pub name: String,
}

/// Asks to add a trusted co-signer to the author's wallet.
#[derive(Clone, Copy, Debug)]
pub struct AddSignerTx {
    /// Key of the co-signer.
    pub signer: PublicKey,
}

/// Asks to move an amount from the author's wallet to another.
#[derive(Clone, Copy, Debug)]
pub struct TransferTx {
    /// Key of the wallet that is to receive the amount.
    pub recipient: PublicKey,
    /// Amount to move.
    pub amount: u64,
    /// Tells apart transfers that are otherwise alike.
    pub seed: u64,
}

/// The author's approval of a pending transfer. The awaiting-confirmation
/// index holds values of this type too: there `origin` is the wallet that
/// sends and `tx_hash` the hash under which the transfer is pending.
#[derive(Clone, Copy, Debug)]
pub struct SignTx {
    /// Key of the wallet that holds the pending transfer.
    pub origin: PublicKey,
    /// Hash under which the transfer is pending.
    pub tx_hash: Hash256,
}

/// Settles a pending transfer. It is issued when a block is committed, never
/// by a client.
#[derive(Clone, Copy, Debug)]
pub struct ConfirmationTx {
    /// Hash under which the transfer is pending.
    pub tx_hash: Hash256,
    /// Key of the wallet that sends.
    pub sender: PublicKey,
    /// Height of the block whose commit confirmed the transfer.
    pub confirmation_block: u64,
}

/// Why an operation was refused.
#[derive(Clone, Copy, Debug, PartialEq, Eq, Structural)]
pub enum TxError {
    /// A wallet exists for the author already.
    WalletAlreadyExists,
    /// No wallet exists under the key.
    WalletNotFound,
    /// The sending wallet does not exist.
    SenderNotFound,
    /// The receiving wallet does not exist.
    RecipientNotFound,
    /// The amount exceeds the sender's balance.
    InsufficientCurrencyAmount,
    /// The wallet holds no pending transfer under the hash.
    PendingTransactionNotFound,
    /// The author is not a co-signer of the wallet.
    UnauthorizedSigner,
    /// The author has approved the transfer already.
    AlreadySigned,
}

impl CreateWalletTx {
    /// Whether the operation succeeds on a ledger, and why not.
    pub open spec fn outcome(self, ledger: LedgerView, author: PublicKey) -> Result<(), TxError> {
        if ledger.wallets.contains_key(author) {
            Err(TxError::WalletAlreadyExists)
        } else {
            Ok(())
        }
    }

    /// The ledger after the operation: with a new wallet for the author
    /// where it succeeds, unchanged where it does not.
    pub open spec fn applied(
        self,
        ledger: LedgerView,
        author: PublicKey,
        tx_hash: Hash256,
    ) -> LedgerView {
        if self.outcome(ledger, author) is Ok {
            ledger.create_wallet(author, self.name@, tx_hash)
        } else {
            ledger
        }
    }

    /// Creates the author's wallet, unless the author has one.
    pub fn execute(&self, schema: &mut Schema, author: &PublicKey, tx_hash: &Hash256) -> (res:
        Result<(), TxError>)
        requires
            old(schema).wf(),
        ensures
            final(schema).wf(),
            res == self.outcome(old(schema)@, *author),
            final(schema)@ == self.applied(old(schema)@, *author, *tx_hash),
    {
        if schema.wallet(author).is_some() {
            return Err(TxError::WalletAlreadyExists);
        }
        schema.create_wallet(author, self.name.as_str(), tx_hash);
        Ok(())
    }
}

impl AddSignerTx {
    /// Whether the operation succeeds on a ledger, and why not.
    pub open spec fn outcome(self, ledger: LedgerView, author: PublicKey) -> Result<(), TxError> {
        if !ledger.wallets.contains_key(author) {
            Err(TxError::WalletNotFound)
        } else {
            Ok(())
        }
    }

    /// Whether the operation writes to the author's wallet: it succeeds and
    /// the key is not a co-signer of the wallet yet.
    pub open spec fn adds(self, ledger: LedgerView, author: PublicKey) -> bool {
        self.outcome(ledger, author) is Ok && !ledger.wallets[author].signers.contains(
            self.signer,
        )
    }

    /// The ledger after the operation: with one more co-signer in the
    /// author's wallet where the operation succeeds and the key is not a
    /// co-signer yet. Where the key is a co-signer already the operation
    /// succeeds as well and leaves the ledger as it was, the wallet's history
    /// included: no wallet has a co-signer twice. Where the operation fails
    /// the ledger is unchanged.
    pub open spec fn applied(
        self,
        ledger: LedgerView,
        author: PublicKey,
        tx_hash: Hash256,
    ) -> LedgerView {
        if self.adds(ledger, author) {
            ledger.add_signer(author, self.signer, tx_hash)
        } else {
            ledger
        }
    }

    /// Adds a co-signer to the author's wallet, unless the key is one
    /// already: then the call returns `Ok` and writes nothing.
    pub fn execute(&self, schema: &mut Schema, author: &PublicKey, tx_hash: &Hash256) -> (res:
        Result<(), TxError>)
        requires
            old(schema).wf(),
        ensures
            final(schema).wf(),
            res == self.outcome(old(schema)@, *author),
            final(schema)@ == self.applied(old(schema)@, *author, *tx_hash),
    {
        let wallet = match schema.wallet(author) {
            Some(wallet) => wallet,
            None => {
                return Err(TxError::WalletNotFound);
            },
        };
        if has_key(&wallet.signers, &self.signer) {
            return Ok(());
        }
        schema.add_signer(&wallet, &self.signer, tx_hash);
        Ok(())
    }
}

impl TransferTx {
    /// Whether the operation succeeds on a ledger, and why not.
    pub open spec fn outcome(self, ledger: LedgerView, author: PublicKey) -> Result<(), TxError> {
        if !ledger.wallets.contains_key(author) {
            Err(TxError::SenderNotFound)
        } else if ledger.wallets[author].balance < self.amount {
            Err(TxError::InsufficientCurrencyAmount)
        } else {
            Ok(())
        }
    }

    /// The ledger after the operation. Where it succeeds, the author's
    /// wallet holds one more pending transfer, under the hash of this
    /// transaction; if the wallet has no co-signer, the transfer is also
    /// registered for confirmation under that hash. Where it fails, the
    /// ledger is unchanged.
    pub open spec fn applied(
        self,
        ledger: LedgerView,
        author: PublicKey,
        tx_hash: Hash256,
    ) -> LedgerView {
        if self.outcome(ledger, author) is Ok {
            let pending = ledger.add_pending_tx(
                author,
                tx_hash,
                self.recipient,
                self.amount,
                tx_hash,
            );
            if ledger.wallets[author].signers.len() == 0 {
                pending.add_awaiting_tx(tx_hash, tx_hash, author)
            } else {
                pending
            }
        } else {
            ledger
        }
    }

    /// Starts a transfer out of the author's wallet.
    pub fn execute(&self, schema: &mut Schema, author: &PublicKey, tx_hash: &Hash256) -> (res:
        Result<(), TxError>)
        requires
            old(schema).wf(),
        ensures
            final(schema).wf(),
            res == self.outcome(old(schema)@, *author),
            final(schema)@ == self.applied(old(schema)@, *author, *tx_hash),
    {
        let sender_wallet = match schema.wallet(author) {
            Some(wallet) => wallet,
            None => {
                return Err(TxError::SenderNotFound);
            },
        };
        let amount = self.amount;
        if sender_wallet.balance < amount {
            return Err(TxError::InsufficientCurrencyAmount);
        }
        schema.add_pending_tx(&sender_wallet, tx_hash, &self.recipient, amount, tx_hash);
        if sender_wallet.signers.len() == 0 {
            schema.add_awaiting_tx(tx_hash, tx_hash, author);
        }
        Ok(())
    }
}

impl SignTx {
    /// Whether the operation succeeds on a ledger, and why not. The checks
    /// are made in this order: the wallet, the pending transfer, the
    /// author's right to sign, the author's earlier approval.
    pub open spec fn outcome(self, ledger: LedgerView, author: PublicKey) -> Result<(), TxError> {
        if !ledger.wallets.contains_key(self.origin) {
            Err(TxError::SenderNotFound)
        } else if !ledger.wallets[self.origin].has_pending(self.tx_hash) {
            Err(TxError::PendingTransactionNotFound)
        } else if !ledger.wallets[self.origin].signers.contains(author) {
            Err(TxError::UnauthorizedSigner)
        } else if ledger.wallets[self.origin].pending(self.tx_hash).approvals.contains(author) {
            Err(TxError::AlreadySigned)
        } else {
            Ok(())
        }
    }

    /// Whether the approval makes the transfer ready to settle: the
    /// threshold is met by the wallet's co-signers and the approvals
    /// collected before this one.
    pub open spec fn reaches_threshold(self, ledger: LedgerView) -> bool {
        threshold_met(
            ledger.wallets[self.origin].signers.len(),
            ledger.wallets[self.origin].pending(self.tx_hash).approvals.len(),
        )
    }

    /// The ledger after the operation. Where it succeeds, the author is
    /// recorded as an approver of the pending transfer; if that makes the
    /// transfer ready to settle, it is also registered for confirmation
    /// under the hash of this transaction. Where it fails, the ledger is
    /// unchanged.
    pub open spec fn applied(
        self,
        ledger: LedgerView,
        author: PublicKey,
        tx_hash: Hash256,
    ) -> LedgerView {
        if self.outcome(ledger, author) is Ok {
            let signed = ledger.sign_pending_tx(self.origin, self.tx_hash, author, tx_hash);
            if self.reaches_threshold(ledger) {
                signed.add_awaiting_tx(tx_hash, self.tx_hash, self.origin)
            } else {
                signed
            }
        } else {
            ledger
        }
    }

    /// Records the author's approval of a pending transfer.
    pub fn execute(&self, schema: &mut Schema, author: &PublicKey, tx_hash: &Hash256) -> (res:
        Result<(), TxError>)
        requires
            old(schema).wf(),
        ensures
            final(schema).wf(),
            res == self.outcome(old(schema)@, *author),
            final(schema)@ == self.applied(old(schema)@, *author, *tx_hash),
    {
        let origin_wallet = match schema.wallet(&self.origin) {
            Some(wallet) => wallet,
            None => {
                return Err(TxError::SenderNotFound);
            },
        };
        let at = match origin_wallet.find_pending_tx(&self.tx_hash) {
            Some(at) => at,
            None => {
                return Err(TxError::PendingTransactionNotFound);
            },
        };
        let transaction = &origin_wallet.pending_txs[at];
        if !has_key(&origin_wallet.signers, author) {
            return Err(TxError::UnauthorizedSigner);
        }
        if has_key(&transaction.approvals, author) {
            return Err(TxError::AlreadySigned);
        }
        let signers_amount = origin_wallet.signers.len() as u64;
        let signs_amount = transaction.approvals.len() as u64;
        schema.sign_pending_tx(&origin_wallet, &self.tx_hash, author, tx_hash);
        if majority_reached(signers_amount, signs_amount) {
            schema.add_awaiting_tx(tx_hash, &self.tx_hash, &self.origin);
        }
        Ok(())
    }
}

impl ConfirmationTx {
    /// Whether the operation succeeds on a ledger, and why not.
    pub open spec fn outcome(self, ledger: LedgerView) -> Result<(), TxError> {
        if !ledger.wallets.contains_key(self.sender) {
            Err(TxError::WalletNotFound)
        } else if !ledger.wallets[self.sender].has_pending(self.tx_hash) {
            Err(TxError::PendingTransactionNotFound)
        } else {
            Ok(())
        }
    }

    /// Whether the recipient of the transfer has a wallet, on a ledger on
    /// which the operation succeeds.
    pub open spec fn recipient_exists(self, ledger: LedgerView) -> bool {
        self.outcome(ledger) is Ok ==> ledger.wallets.contains_key(
            ledger.wallets[self.sender].pending(self.tx_hash).recipient,
        )
    }

    /// Whether the settlement can be carried out on a ledger on which the
    /// operation succeeds: the recipient has a wallet, the sender's balance
    /// covers the amount, and the recipient's balance with the amount added
    /// still is a balance.
    ///
    /// A transfer is accepted without a look at its recipient, and against
    /// the balance of the moment: the recipient is left unchecked until the
    /// confirmation. So users can bring about a confirmation for which this
    /// fails, by a transfer to a key without a wallet, or by two transfers
    /// that the balance covers one by one but not together. Such a
    /// confirmation is not answered with an error of its own: it must not be
    /// executed, and `execute_checked` writes nothing for it.
    pub open spec fn settles(self, ledger: LedgerView) -> bool {
        self.outcome(ledger) is Ok ==> {
            let tx = ledger.wallets[self.sender].pending(self.tx_hash);
            &&& ledger.wallets.contains_key(tx.recipient)
            &&& tx.amount <= ledger.wallets[self.sender].balance
            &&& tx.recipient != self.sender ==> ledger.wallets[tx.recipient].balance + tx.amount
                <= u64::MAX
        }
    }

    /// The ledger after the operation. Where it succeeds, every entry that
    /// names this sender and this transfer has left the
    /// awaiting-confirmation index, under whichever trigger hash it was
    /// registered; the transfer has moved from the sender's pending list to
    /// its settled list; the sender's balance is less by the amount; and
    /// then the recipient's balance is more by it. The last three are
    /// writes to a wallet, each one step in that wallet's history. Where
    /// the operation fails, the ledger is unchanged.
    pub open spec fn applied(self, ledger: LedgerView, tx_hash: Hash256) -> LedgerView {
        if self.outcome(ledger) is Ok {
            let tx = ledger.wallets[self.sender].pending(self.tx_hash);
            ledger.remove_awaiting_transfer(self.sender, self.tx_hash).confirm_pending_tx(
                self.sender,
                tx,
                self.confirmation_block,
                tx_hash,
            ).decrease_wallet_balance(self.sender, tx.amount, tx_hash).increase_wallet_balance(
                tx.recipient,
                tx.amount,
                tx_hash,
            )
        } else {
            ledger
        }
    }

    /// Decides whether the settlement can be carried out.
    pub fn can_settle(&self, schema: &Schema) -> (ok: bool)
        requires
            schema.wf(),
        ensures
            ok == self.settles(schema@),
    {
        let wallet = match schema.wallet(&self.sender) {
            Some(wallet) => wallet,
            None => {
                return true;
            },
        };
        let at = match wallet.find_pending_tx(&self.tx_hash) {
            Some(at) => at,
            None => {
                return true;
            },
        };
        let transaction = &wallet.pending_txs[at];
        let recipient_wallet = match schema.wallet(&transaction.recipient) {
            Some(wallet) => wallet,
            None => {
                return false;
            },
        };
        if transaction.amount > wallet.balance {
            return false;
        }
        transaction.recipient == self.sender || transaction.amount <= u64::MAX
            - recipient_wallet.balance
    }

    /// Settles a pending transfer if the settlement can be carried out, and
    /// says so: `None` is returned, and nothing written, for a confirmation
    /// that cannot settle.
    pub fn execute_checked(&self, schema: &mut Schema, tx_hash: &Hash256) -> (res: Option<
        Result<(), TxError>,
    >)
        requires
            old(schema).wf(),
        ensures
            final(schema).wf(),
            res == (if self.settles(old(schema)@) {
                Some(self.outcome(old(schema)@))
            } else {
                None
            }),
            final(schema)@ == (if self.settles(old(schema)@) {
                self.applied(old(schema)@, *tx_hash)
            } else {
                old(schema)@
            }),
    {
        if self.can_settle(schema) {
            Some(self.execute(schema, tx_hash))
        } else {
            None
        }
    }

    /// Settles a pending transfer.
    pub fn execute(&self, schema: &mut Schema, tx_hash: &Hash256) -> (res: Result<(), TxError>)
        requires
            old(schema).wf(),
            self.settles(old(schema)@),
        ensures
            final(schema).wf(),
            res == self.outcome(old(schema)@),
            final(schema)@ == self.applied(old(schema)@, *tx_hash),
    {
        let wallet = match schema.wallet(&self.sender) {
            Some(wallet) => wallet,
            None => {
                return Err(TxError::WalletNotFound);
            },
        };
        let at = match wallet.find_pending_tx(&self.tx_hash) {
            Some(at) => at,
            None => {
                return Err(TxError::PendingTransactionNotFound);
            },
        };
        let transaction = &wallet.pending_txs[at];
        schema.remove_awaiting_transfer(&self.sender, &self.tx_hash);
        let new_wallet = schema.confirm_pending_tx(
            &wallet,
            transaction,
            self.confirmation_block,
            tx_hash,
        );
        assert(new_wallet.balance == wallet.balance);
        let debited = schema.decrease_wallet_balance(&new_wallet, transaction.amount, tx_hash);
        assert(debited.balance == wallet.balance - transaction.amount);
        let recipient_wallet = schema.wallet(&transaction.recipient).unwrap();
        schema.increase_wallet_balance(&recipient_wallet, transaction.amount, tx_hash);
        Ok(())
    }
}

/// One operation on the ledger, tagged by its kind.
#[derive(Clone, Debug)]
pub enum WalletTransaction {
    CreateWallet(CreateWalletTx),
    AddSigner(AddSignerTx),
    Transfer(TransferTx),
    Sign(SignTx),
    Confirmation(ConfirmationTx),
}

impl WalletTransaction {
    /// Whether the operation succeeds on a ledger, and why not.
    pub open spec fn outcome(self, ledger: LedgerView, author: PublicKey) -> Result<(), TxError> {
        match self {
            WalletTransaction::CreateWallet(tx) => tx.outcome(ledger, author),
            WalletTransaction::AddSigner(tx) => tx.outcome(ledger, author),
            WalletTransaction::Transfer(tx) => tx.outcome(ledger, author),
            WalletTransaction::Sign(tx) => tx.outcome(ledger, author),
            WalletTransaction::Confirmation(tx) => tx.outcome(ledger),
        }
    }

    /// The ledger after the operation; unchanged where the operation fails.
    pub open spec fn applied(
        self,
        ledger: LedgerView,
        author: PublicKey,
        tx_hash: Hash256,
    ) -> LedgerView {
        match self {
            WalletTransaction::CreateWallet(tx) => tx.applied(ledger, author, tx_hash),
            WalletTransaction::AddSigner(tx) => tx.applied(ledger, author, tx_hash),
            WalletTransaction::Transfer(tx) => tx.applied(ledger, author, tx_hash),
            WalletTransaction::Sign(tx) => tx.applied(ledger, author, tx_hash),
            WalletTransaction::Confirmation(tx) => tx.applied(ledger, tx_hash),
        }
    }

    /// Whether the operation can be carried out on a ledger: always, but
    /// for a confirmation whose settlement cannot.
    pub open spec fn settles(self, ledger: LedgerView) -> bool {
        match self {
            WalletTransaction::Confirmation(tx) => tx.settles(ledger),
            _ => true,
        }
    }

    /// Decides whether the operation can be carried out.
    pub fn can_settle(&self, schema: &Schema) -> (ok: bool)
        requires
            schema.wf(),
        ensures
            ok == self.settles(schema@),
    {
        match self {
            WalletTransaction::Confirmation(tx) => tx.can_settle(schema),
            _ => true,
        }
    }

    /// Executes the operation if it can be carried out, and says so:
    /// `None` is returned, and nothing written, for a confirmation that
    /// cannot settle.
    pub fn execute_checked(
        &self,
        schema: &mut Schema,
        author: &PublicKey,
        tx_hash: &Hash256,
    ) -> (res: Option<Result<(), TxError>>)
        requires
            old(schema).wf(),
        ensures
            final(schema).wf(),
            res == (if self.settles(old(schema)@) {
                Some(self.outcome(old(schema)@, *author))
            } else {
                None
            }),
            final(schema)@ == (if self.settles(old(schema)@) {
                self.applied(old(schema)@, *author, *tx_hash)
            } else {
                old(schema)@
            }),
    {
        if self.can_settle(schema) {
            Some(self.execute(schema, author, tx_hash))
        } else {
            None
        }
    }

    /// Executes the operation for its author, under the hash of the
    /// transaction that carries it. A confirmation has no author of its
    /// own: for it the key is not looked at.
    pub fn execute(&self, schema: &mut Schema, author: &PublicKey, tx_hash: &Hash256) -> (res:
        Result<(), TxError>)
        requires
            old(schema).wf(),
            self.settles(old(schema)@),
        ensures
            final(schema).wf(),
            res == self.outcome(old(schema)@, *author),
            final(schema)@ == self.applied(old(schema)@, *author, *tx_hash),
    {
        match self {
            WalletTransaction::CreateWallet(tx) => tx.execute(schema, author, tx_hash),
            WalletTransaction::AddSigner(tx) => tx.execute(schema, author, tx_hash),
            WalletTransaction::Transfer(tx) => tx.execute(schema, author, tx_hash),
            WalletTransaction::Sign(tx) => tx.execute(schema, author, tx_hash),
            WalletTransaction::Confirmation(tx) => tx.execute(schema, tx_hash),
        }
    }
}

impl TxError {
    /// The number by which the error is reported.
    pub open spec fn spec_code(self) -> u8 {
        match self {
            TxError::WalletAlreadyExists => 0,
            TxError::WalletNotFound => 1,
            TxError::SenderNotFound => 2,
            TxError::RecipientNotFound => 3,
            TxError::InsufficientCurrencyAmount => 4,
            TxError::PendingTransactionNotFound => 5,
            TxError::UnauthorizedSigner => 6,
            TxError::AlreadySigned => 7,
        }
    }

    /// The words by which the error is reported.
    pub open spec fn spec_description(self) -> Seq<char> {
        match self {
            TxError::WalletAlreadyExists => "Wallet already exists"@,
            TxError::WalletNotFound => "Wallet not found"@,
            TxError::SenderNotFound => "Sender doesn't exist"@,
            TxError::RecipientNotFound => "Recipient doesn't exist"@,
            TxError::InsufficientCurrencyAmount => "Insufficient currency amount"@,
            TxError::PendingTransactionNotFound => "Pending transaction not found"@,
            TxError::UnauthorizedSigner => "Unauthorized signer"@,
            TxError::AlreadySigned => "Already signed"@,
        }
    }

    /// The number by which the error is reported.
    pub fn code(&self) -> (code: u8)
        ensures
            code == self.spec_code(),
    {
        match self {
            TxError::WalletAlreadyExists => 0,
            TxError::WalletNotFound => 1,
            TxError::SenderNotFound => 2,
            TxError::RecipientNotFound => 3,
            TxError::InsufficientCurrencyAmount => 4,
            TxError::PendingTransactionNotFound => 5,
            TxError::UnauthorizedSigner => 6,
            TxError::AlreadySigned => 7,
        }
    }

    /// The words by which the error is reported.
    pub fn description(&self) -> (text: String)
        ensures
            text@ == self.spec_description(),
    {
        match self {
            TxError::WalletAlreadyExists => "Wallet already exists".to_owned(),
            TxError::WalletNotFound => "Wallet not found".to_owned(),
            TxError::SenderNotFound => "Sender doesn't exist".to_owned(),
            TxError::RecipientNotFound => "Recipient doesn't exist".to_owned(),
            TxError::InsufficientCurrencyAmount => "Insufficient currency amount".to_owned(),
            TxError::PendingTransactionNotFound => "Pending transaction not found".to_owned(),
            TxError::UnauthorizedSigner => "Unauthorized signer".to_owned(),
            TxError::AlreadySigned => "Already signed".to_owned(),
        }
    }
}

} // verus!
