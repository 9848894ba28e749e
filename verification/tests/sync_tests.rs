use block_producer::mem_pool::MemPool;
use block_producer::store::MemStore;
use block_producer::sync::{SyncMessage, handle_message, handle_next_tx};
use block_producer::types::{BlockInfo, L2Transaction};

fn hash32(b: u8) -> Vec<u8> {
    vec![b; 32]
}

fn tx(account_id: u64, tag: u8) -> L2Transaction {
    L2Transaction { account_id, signature: vec![0x11; 65], payload: vec![tag] }
}

fn block_info(number: u64) -> BlockInfo {
    BlockInfo { number, timestamp: 1000 + number, block_producer_id: 0 }
}

fn new_pool() -> MemPool<MemStore> {
    MemPool::create(MemStore::new(), hash32(0), 0)
}

#[test]
fn stale_mem_block_after_newer_one_is_ignored() {
    let mut pool = new_pool();
    let newer = SyncMessage::NextMemBlock {
        block_info: block_info(7),
        withdrawals: Vec::new(),
        deposits: Vec::new(),
    };
    assert_eq!(handle_message(&mut pool, newer), Ok(Some(0)));
    let stale = SyncMessage::NextMemBlock {
        block_info: block_info(5),
        withdrawals: Vec::new(),
        deposits: Vec::new(),
    };
    assert_eq!(handle_message(&mut pool, stale), Ok(None));
    assert_eq!(pool.mem_block_number(), 7);
}

#[test]
fn synced_transaction_lands_in_pending() {
    let mut pool = new_pool();
    let msg = SyncMessage::NextTransaction { tx: tx(4, 2), mem_block_number: 1 };
    assert_eq!(handle_message(&mut pool, msg), Ok(None));
    assert_eq!(pool.pending().len(), 1);
    assert_eq!(pool.pending()[0].0, 4);
}

#[test]
fn rejected_synced_transaction_is_absorbed() {
    let mut pool = new_pool();
    let bad = L2Transaction { account_id: 4, signature: vec![0x11; 3], payload: vec![2] };
    assert_eq!(handle_next_tx(&mut pool, bad, 1), Ok(()));
    assert_eq!(pool.pending().len(), 0);
}

#[test]
fn redelivered_transaction_is_absorbed() {
    let mut pool = new_pool();
    let m1 = SyncMessage::NextTransaction { tx: tx(4, 2), mem_block_number: 1 };
    let m2 = SyncMessage::NextTransaction { tx: tx(4, 2), mem_block_number: 1 };
    handle_message(&mut pool, m1).unwrap();
    handle_message(&mut pool, m2).unwrap();
    assert_eq!(pool.pending().len(), 1);
    assert_eq!(pool.pending()[0].1.txs.len(), 1);
}
