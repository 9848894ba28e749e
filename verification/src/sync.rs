//! The mem-pool synchronization protocol: the decisions a follower node
//! applies for each message of the producer's ordered stream. Handlers are
//! idempotent and self-detect staleness, so at-least-once, possibly
//! out-of-order delivery cannot corrupt the pool.

use vstd::prelude::*;
use crate::Error;
use crate::mem_pool::{
    COL_MEM_BLOCK, MemPool, SpecMemBlockContext, SpecMemPool, spec_append_tx,
    spec_block_info_bytes,
};
use crate::codec::spec_encode_u64;
use crate::store::KVStore;
use crate::types::{BlockInfo, DepositInfo, L2Transaction, WithdrawalRequest, spec_tx_wf};

verus! {

/// One message of the producer-to-followers stream.
pub enum SyncMessage {
    /// A transaction admitted into the producer's mem block.
    NextTransaction { tx: L2Transaction, mem_block_number: u64 },
    /// An authoritative snapshot of the producer's next mem block.
    NextMemBlock {
        block_info: BlockInfo,
        withdrawals: Vec<WithdrawalRequest>,
        deposits: Vec<DepositInfo>,
    },
}

/// Applies a synced transaction. A transaction the pool rejects is absorbed
/// (the pool is unchanged and replication goes on), never an error.
pub fn handle_next_tx<S: KVStore>(
    pool: &mut MemPool<S>,
    tx: L2Transaction,
    mem_block_number: u64,
) -> (r: Result<(), Error>)
    ensures
        r is Ok,
        spec_tx_wf(tx@) ==> final(pool)@ == (SpecMemPool {
            entries: spec_append_tx(old(pool)@.entries, tx@),
            ..old(pool)@
        }),
        !spec_tx_wf(tx@) ==> final(pool)@ == old(pool)@,
{
    match pool.append_tx(tx, mem_block_number) {
        Ok(()) => Ok(()),
        Err(_) => Ok(()),
    }
}

/// Applies an authoritative mem-block snapshot, reporting the previous tip
/// number when it advanced, `None` for a stale duplicate, and a storage
/// failure unchanged to the caller.
pub fn handle_next_mem_block<S: KVStore>(
    pool: &mut MemPool<S>,
    block_info: BlockInfo,
    withdrawals: Vec<WithdrawalRequest>,
    deposits: Vec<DepositInfo>,
) -> (r: Result<Option<u64>, Error>)
    ensures
        match r {
            Ok(prev) => match prev {
                None => block_info@.number <= old(pool)@.ctx.block_info.number && final(pool)@
                    == old(pool)@,
                Some(p) => block_info@.number > old(pool)@.ctx.block_info.number
                    && p == old(pool)@.tip_number && final(pool)@ == (SpecMemPool {
                    store: old(pool)@.store.insert(
                        (COL_MEM_BLOCK, spec_encode_u64(block_info@.number)),
                        spec_block_info_bytes(block_info@),
                    ),
                    ctx: SpecMemBlockContext {
                        block_info: block_info@,
                        withdrawals: withdrawals@.map_values(|w: WithdrawalRequest| w@),
                        deposits: deposits@.map_values(|d: DepositInfo| d@),
                    },
                    ..old(pool)@
                }),
            },
            Err(e) => e == Error::StorageFailure && block_info@.number
                > old(pool)@.ctx.block_info.number && final(pool)@ == old(pool)@,
        },
{
    pool.refresh_mem_block(block_info, withdrawals, deposits)
}

/// Applies one message of the stream: transactions are appended (rejections
/// absorbed), mem-block snapshots refresh the context with staleness
/// detection; only a storage failure surfaces.
pub fn handle_message<S: KVStore>(pool: &mut MemPool<S>, msg: SyncMessage) -> (r: Result<
    Option<u64>,
    Error,
>)
    ensures
        match msg {
            SyncMessage::NextTransaction { tx, mem_block_number } => r == Ok::<Option<u64>, Error>(
                None,
            ) && (if spec_tx_wf(tx@) {
                final(pool)@ == (SpecMemPool {
                    entries: spec_append_tx(old(pool)@.entries, tx@),
                    ..old(pool)@
                })
            } else {
                final(pool)@ == old(pool)@
            }),
            SyncMessage::NextMemBlock { block_info, withdrawals, deposits } => match r {
                Ok(prev) => match prev {
                    None => block_info@.number <= old(pool)@.ctx.block_info.number && final(pool)@
                        == old(pool)@,
                    Some(p) => block_info@.number > old(pool)@.ctx.block_info.number
                        && p == old(pool)@.tip_number && final(pool)@ == (SpecMemPool {
                        store: old(pool)@.store.insert(
                            (COL_MEM_BLOCK, spec_encode_u64(block_info@.number)),
                            spec_block_info_bytes(block_info@),
                        ),
                        ctx: SpecMemBlockContext {
                            block_info: block_info@,
                            withdrawals: withdrawals@.map_values(|w: WithdrawalRequest| w@),
                            deposits: deposits@.map_values(|d: DepositInfo| d@),
                        },
                        ..old(pool)@
                    }),
                },
                Err(e) => e == Error::StorageFailure && block_info@.number
                    > old(pool)@.ctx.block_info.number && final(pool)@ == old(pool)@,
            },
        },
{
    match msg {
        SyncMessage::NextTransaction { tx, mem_block_number } => {
            let r = handle_next_tx(pool, tx, mem_block_number);
            match r {
                Ok(()) => Ok(None),
                Err(e) => Err(e),
            }
        },
        SyncMessage::NextMemBlock { block_info, withdrawals, deposits } => {
            handle_next_mem_block(pool, block_info, withdrawals, deposits)
        },
    }
}

} // verus!
