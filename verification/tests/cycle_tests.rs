//! A full production cycle against in-memory collaborators: snapshot the
//! pool, assemble and seal the committing transaction, record and notify the
//! new tip.

use block_producer::assemble::build_unsigned_tx;
use block_producer::codec::decode_custodian_args;
use block_producer::mem_pool::MemPool;
use block_producer::producer::{snapshot_entry_ids, snapshot_pending};
use block_producer::store::MemStore;
use block_producer::types::{
    BlockInfo, CellDep, CellInfo, CellOutput, DepositInfo, GlobalState, HASH_TYPE_TYPE, L2Block,
    L2Transaction, OutPoint, RollupCellInfo, RollupContext, Script, WithdrawalRequest,
};

fn hash32(b: u8) -> Vec<u8> {
    vec![b; 32]
}

fn tx(account_id: u64, tag: u8) -> L2Transaction {
    L2Transaction { account_id, signature: vec![0x11; 65], payload: vec![tag] }
}

fn script(code: u8, args: Vec<u8>) -> Script {
    Script { code_hash: hash32(code), hash_type: HASH_TYPE_TYPE, args }
}

fn dep(tag: u8, index: u32) -> CellDep {
    CellDep { tx_hash: hash32(tag), index, dep_type: 0 }
}

fn deposit(tag: u8, capacity: u64, lock_args: Vec<u8>) -> DepositInfo {
    DepositInfo {
        cell: CellInfo {
            out_point: OutPoint { tx_hash: hash32(tag), index: 0 },
            output: CellOutput { capacity, lock: script(0x77, lock_args), type_script: None },
            data: vec![tag],
        },
        lock_dep: dep(0x70, 1),
        type_dep: None,
    }
}

fn rollup_cell() -> RollupCellInfo {
    RollupCellInfo {
        cell: CellInfo {
            out_point: OutPoint { tx_hash: hash32(0x01), index: 0 },
            output: CellOutput { capacity: 1000, lock: script(0x02, vec![]), type_script: None },
            data: vec![],
        },
        lock_dep: dep(0x10, 0),
        type_dep: Some(dep(0x11, 0)),
    }
}

#[test]
fn production_cycle_empties_pool_and_derives_custodians() {
    let mut pool = MemPool::create(MemStore::new(), hash32(0), 0);
    pool.append_tx(tx(1, 7), 1).unwrap();
    pool.append_withdrawal(WithdrawalRequest { account_id: 2, payload: vec![3] }).unwrap();

    // Snapshot: the transaction-only entry contributes its transactions, the
    // withdrawal-carrying entry its first withdrawal.
    let (txs, withdrawals) = snapshot_pending(&pool);
    assert_eq!(txs.len(), 1);
    assert_eq!(txs[0].payload, vec![7]);
    assert_eq!(withdrawals.len(), 1);
    assert_eq!(withdrawals[0].payload, vec![3]);
    let included = snapshot_entry_ids(&pool);
    assert_eq!(included, vec![1, 2]);

    // The execution engine (an external collaborator) would turn the snapshot
    // into a block; the cycle continues with its result.
    let block = L2Block { number: 1, hash: hash32(0xb1), payload: vec![1, 2, 3] };
    let state = GlobalState { data: vec![9, 9] };
    let deposits = vec![deposit(0x20, 500, vec![1, 2]), deposit(0x21, 600, vec![4])];
    let ctx = RollupContext { custodian_script_type_hash: hash32(0xc5) };
    let sk = build_unsigned_tx(&ctx, &rollup_cell(), &deposits, &block, &state).unwrap();
    let sealed = sk.seal(&Vec::new()).unwrap();

    // Exactly one custodian output per consumed deposit, its lock bound to
    // this block and the deposit's original lock arguments.
    assert_eq!(sealed.outputs.len(), 1 + deposits.len());
    for (i, d) in deposits.iter().enumerate() {
        let (cell, data) = &sealed.outputs[1 + i];
        assert_eq!(cell.capacity, d.cell.output.capacity);
        assert_eq!(*data, d.cell.data);
        let (h, n, args) = decode_custodian_args(&cell.lock.args).unwrap();
        assert_eq!(h, hash32(0xb1));
        assert_eq!(n, 1);
        assert_eq!(args, d.cell.output.lock.args);
    }
    // One lock dependency for the shared deposit lock, not two.
    let lock_dep_count = sealed
        .cell_deps
        .iter()
        .filter(|d| d.tx_hash == hash32(0x70) && d.index == 1 && d.dep_type == 0)
        .count();
    assert_eq!(lock_dep_count, 1);

    // Submission succeeded: record the block and advance the tip; both
    // included entries leave the pending view.
    pool.record_block(&hash32(0xb1), 1, &included).unwrap();
    pool.notify_new_tip(hash32(0xb1)).unwrap();
    assert_eq!(pool.pending().len(), 0);
    assert_eq!(pool.tip_number(), 1);

    // A fresh submission opens the next window.
    let mut pool2 = pool;
    pool2.append_tx(tx(9, 1), 2).unwrap();
    assert_eq!(pool2.pending().len(), 1);

    // Refreshing with the mem block already at the tip's number requires a
    // strictly greater number.
    let stale = pool2.refresh_mem_block(
        BlockInfo { number: 1, timestamp: 5, block_producer_id: 0 },
        Vec::new(),
        Vec::new(),
    );
    assert_eq!(stale, Ok(None));
}
