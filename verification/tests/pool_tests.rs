use block_producer::Error;
use block_producer::mem_pool::MemPool;
use block_producer::store::{KVStore, MemStore, ReadOnlyStore};
use block_producer::types::{BlockInfo, L2Transaction, WithdrawalRequest};

fn hash32(b: u8) -> Vec<u8> {
    vec![b; 32]
}

fn tx(account_id: u64, tag: u8) -> L2Transaction {
    L2Transaction { account_id, signature: vec![0x11; 65], payload: vec![tag] }
}

fn withdrawal(account_id: u64, tag: u8) -> WithdrawalRequest {
    WithdrawalRequest { account_id, payload: vec![tag] }
}

fn block_info(number: u64) -> BlockInfo {
    BlockInfo { number, timestamp: 1000 + number, block_producer_id: 0 }
}

fn new_pool() -> MemPool<MemStore> {
    MemPool::create(MemStore::new(), hash32(0), 0)
}

#[test]
fn append_tx_is_idempotent() {
    let mut pool = new_pool();
    pool.append_tx(tx(1, 7), 1).unwrap();
    pool.append_tx(tx(1, 7), 1).unwrap();
    let pending = pool.pending();
    assert_eq!(pending.len(), 1);
    assert_eq!(pending[0].0, 1);
    assert_eq!(pending[0].1.txs.len(), 1);
    assert_eq!(pending[0].1.txs[0].payload, vec![7]);
}

#[test]
fn append_tx_merges_distinct_txs_into_one_entry() {
    let mut pool = new_pool();
    pool.append_tx(tx(1, 7), 1).unwrap();
    pool.append_tx(tx(1, 8), 1).unwrap();
    pool.append_tx(tx(2, 9), 1).unwrap();
    let pending = pool.pending();
    assert_eq!(pending.len(), 2);
    assert_eq!(pending[0].1.txs.len(), 2);
    assert_eq!(pending[1].1.txs.len(), 1);
}

#[test]
fn append_tx_rejects_malformed_signature() {
    let mut pool = new_pool();
    let bad = L2Transaction { account_id: 1, signature: vec![0x11; 64], payload: vec![1] };
    assert_eq!(pool.append_tx(bad, 1), Err(Error::InvalidTransaction));
    assert_eq!(pool.pending().len(), 0);
}

#[test]
fn refresh_advances_on_strictly_greater_number() {
    let mut pool = new_pool();
    let r = pool.refresh_mem_block(block_info(7), Vec::new(), Vec::new()).unwrap();
    assert_eq!(r, Some(0));
    assert_eq!(pool.mem_block_number(), 7);
}

#[test]
fn refresh_is_noop_on_stale_number() {
    let mut pool = new_pool();
    pool.refresh_mem_block(block_info(7), vec![withdrawal(3, 1)], Vec::new()).unwrap();
    let r = pool.refresh_mem_block(block_info(5), Vec::new(), Vec::new()).unwrap();
    assert_eq!(r, None);
    assert_eq!(pool.mem_block_number(), 7);
    let r2 = pool.refresh_mem_block(block_info(7), Vec::new(), Vec::new()).unwrap();
    assert_eq!(r2, None);
}

#[test]
fn failed_refresh_leaves_pool_unchanged() {
    let mut pool = MemPool::create(ReadOnlyStore::new(MemStore::new()), hash32(0), 0);
    pool.append_tx(tx(1, 7), 1).unwrap();
    let before_number = pool.mem_block_number();
    let r = pool.refresh_mem_block(block_info(9), vec![withdrawal(3, 1)], Vec::new());
    assert_eq!(r, Err(Error::StorageFailure));
    assert_eq!(pool.mem_block_number(), before_number);
    let pending = pool.pending();
    assert_eq!(pending.len(), 1);
    assert_eq!(pending[0].0, 1);
    assert_eq!(pending[0].1.txs.len(), 1);
    assert_eq!(pending[0].1.txs[0].payload, vec![7]);
}

#[test]
fn notify_new_tip_evicts_included_entries_only() {
    let mut pool = new_pool();
    pool.append_tx(tx(1, 7), 1).unwrap();
    pool.append_tx(tx(2, 8), 1).unwrap();
    pool.append_tx(tx(3, 9), 1).unwrap();
    pool.record_block(&hash32(0xaa), 1, &vec![1, 3]).unwrap();
    pool.notify_new_tip(hash32(0xaa)).unwrap();
    let pending = pool.pending();
    assert_eq!(pending.len(), 1);
    assert_eq!(pending[0].0, 2);
    assert_eq!(pool.tip_number(), 1);
    assert_eq!(pool.mem_block_number(), 1);
}

#[test]
fn notify_new_tip_unknown_block_fails_and_changes_nothing() {
    let mut pool = new_pool();
    pool.append_tx(tx(1, 7), 1).unwrap();
    let r = pool.notify_new_tip(hash32(0xbb));
    assert_eq!(r, Err(Error::NotFound));
    assert_eq!(pool.pending().len(), 1);
    assert_eq!(pool.tip_number(), 0);
}

#[test]
fn notify_new_tip_malformed_record_fails_and_changes_nothing() {
    let mut store = MemStore::new();
    let key = hash32(0xcc);
    store.insert_raw(1, &key, &[1, 2, 3]).unwrap();
    let mut pool = MemPool::create(store, hash32(0), 0);
    pool.append_tx(tx(1, 7), 1).unwrap();
    let r = pool.notify_new_tip(key);
    assert_eq!(r, Err(Error::StorageFailure));
    assert_eq!(pool.pending().len(), 1);
}

#[test]
fn append_withdrawal_opens_entry() {
    let mut pool = new_pool();
    pool.append_withdrawal(withdrawal(5, 3)).unwrap();
    let pending = pool.pending();
    assert_eq!(pending.len(), 1);
    assert_eq!(pending[0].0, 5);
    assert_eq!(pending[0].1.txs.len(), 0);
    assert_eq!(pending[0].1.withdrawals.len(), 1);
    assert_eq!(pending[0].1.withdrawals[0].payload, vec![3]);
}
