//! What the service tells its host: its name and number, and the
//! confirmations to issue when a block has been committed.

use crate::crypto::Hash256;
use crate::schema::Schema;
use crate::transaction::{ConfirmationTx, SignTx};
use vstd::prelude::*;

verus! {

/// The wallet service.
pub struct Service;

/// The confirmations that the commit of a block calls for: one for each
/// transaction of the block, in the block's order, under whose hash a
/// transfer is registered in the awaiting-confirmation index.
pub open spec fn confirmations(
    awaiting_txs: Map<Hash256, SignTx>,
    block_txs: Seq<Hash256>,
    height: u64,
) -> Seq<ConfirmationTx>
    decreases block_txs.len(),
{
    if block_txs.len() == 0 {
        Seq::empty()
    } else {
        let earlier = confirmations(awaiting_txs, block_txs.drop_last(), height);
        if awaiting_txs.contains_key(block_txs.last()) {
            earlier.push(
                ConfirmationTx {
                    tx_hash: awaiting_txs[block_txs.last()].tx_hash,
                    sender: awaiting_txs[block_txs.last()].origin,
                    confirmation_block: height,
                },
            )
        } else {
            earlier
        }
    }
}

impl Service {
    /// The name of the service.
    pub fn service_name(&self) -> (name: &'static str)
        ensures
            name@ == "cryptocurrency"@,
    {
        "cryptocurrency"
    }

    /// The number of the service.
    pub fn service_id(&self) -> (id: u16)
        ensures
            id == 1,
    {
        1
    }

    /// The hashes that the service adds to the state hash of its host: none.
    pub fn state_hash(&self, schema: &Schema) -> (hashes: Vec<Hash256>)
        ensures
            hashes@ == Seq::<Hash256>::empty(),
    {
        Vec::new()
    }

    /// The confirmations to issue once a block is committed, given the
    /// hashes of the block's transactions in order and the block's height.
    pub fn after_commit(&self, schema: &Schema, block_txs: &Vec<Hash256>, height: u64) -> (issued:
        Vec<ConfirmationTx>)
        requires
            schema.wf(),
        ensures
            issued@ == confirmations(schema@.awaiting_txs, block_txs@, height),
    {
        let mut issued: Vec<ConfirmationTx> = Vec::new();
        let mut i: usize = 0;
        while i < block_txs.len()
            invariant
                i <= block_txs.len(),
                schema.wf(),
                issued@ == confirmations(
                    schema@.awaiting_txs,
                    block_txs@.subrange(0, i as int),
                    height,
                ),
            decreases block_txs.len() - i,
        {
            proof {
                assert(block_txs@.subrange(0, i + 1).drop_last() =~= block_txs@.subrange(
                    0,
                    i as int,
                ));
            }
            match schema.awaiting_tx(&block_txs[i]) {
                Some(tx) => {
                    issued.push(
                        ConfirmationTx {
                            tx_hash: tx.tx_hash,
                            sender: tx.origin,
                            confirmation_block: height,
                        },
                    );
                },
                None => {},
            }
            i += 1;
        }
        assert(block_txs@.subrange(0, i as int) =~= block_txs@);
        issued
    }
}

} // verus!
