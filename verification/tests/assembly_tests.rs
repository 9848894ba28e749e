use block_producer::Error;
use block_producer::assemble::build_unsigned_tx;
use block_producer::codec::decode_custodian_args;
use block_producer::custodian::generate_custodian_cells;
use block_producer::skeleton::{InputCell, TransactionSkeleton};
use block_producer::types::{
    CellDep, CellInfo, CellOutput, DepositInfo, GlobalState, HASH_TYPE_TYPE, L2Block, OutPoint,
    RollupCellInfo, RollupContext, Script, WitnessArgs,
};

fn hash32(b: u8) -> Vec<u8> {
    vec![b; 32]
}

fn script(code: u8, args: Vec<u8>) -> Script {
    Script { code_hash: hash32(code), hash_type: HASH_TYPE_TYPE, args }
}

fn out_point(tag: u8, index: u32) -> OutPoint {
    OutPoint { tx_hash: hash32(tag), index }
}

fn dep(tag: u8, index: u32) -> CellDep {
    CellDep { tx_hash: hash32(tag), index, dep_type: 0 }
}

fn deposit(tag: u8, capacity: u64, lock_args: Vec<u8>, type_dep: Option<CellDep>) -> DepositInfo {
    DepositInfo {
        cell: CellInfo {
            out_point: out_point(tag, 0),
            output: CellOutput {
                capacity,
                lock: script(0x77, lock_args),
                type_script: Some(script(0x55, vec![9])),
            },
            data: vec![tag, tag],
        },
        lock_dep: dep(0x70, 1),
        type_dep,
    }
}

fn rollup_cell() -> RollupCellInfo {
    RollupCellInfo {
        cell: CellInfo {
            out_point: out_point(0x01, 0),
            output: CellOutput {
                capacity: 1000,
                lock: script(0x02, vec![]),
                type_script: Some(script(0x03, vec![])),
            },
            data: vec![0xde, 0xad],
        },
        lock_dep: dep(0x10, 0),
        type_dep: Some(dep(0x11, 0)),
    }
}

fn context() -> RollupContext {
    RollupContext { custodian_script_type_hash: hash32(0xc5) }
}

fn block(number: u64, tag: u8) -> L2Block {
    L2Block { number, hash: hash32(tag), payload: vec![tag; 4] }
}

fn eq_dep(a: &CellDep, b: &CellDep) -> bool {
    a.tx_hash == b.tx_hash && a.index == b.index && a.dep_type == b.dep_type
}

#[test]
fn custodian_lock_decodes_to_block_and_deposit_args() {
    let d = deposit(0x20, 500, vec![1, 2, 3], None);
    let b = block(9, 0xb1);
    let cells = generate_custodian_cells(&context(), &b, &vec![d]);
    assert_eq!(cells.len(), 1);
    let (cell, data) = &cells[0];
    assert_eq!(cell.capacity, 500);
    assert_eq!(cell.lock.code_hash, hash32(0xc5));
    assert_eq!(cell.lock.hash_type, HASH_TYPE_TYPE);
    let (h, n, args) = decode_custodian_args(&cell.lock.args).unwrap();
    assert_eq!(h, hash32(0xb1));
    assert_eq!(n, 9);
    assert_eq!(args, vec![1, 2, 3]);
    let ts = cell.type_script.as_ref().unwrap();
    assert_eq!(ts.code_hash, hash32(0x55));
    assert_eq!(*data, vec![0x20, 0x20]);
}

#[test]
fn build_is_deterministic_byte_for_byte() {
    let deposits = vec![deposit(0x20, 500, vec![1], Some(dep(0x60, 2)))];
    let deposits2 = vec![deposit(0x20, 500, vec![1], Some(dep(0x60, 2)))];
    let state = GlobalState { data: vec![5, 6, 7] };
    let sk1 = build_unsigned_tx(&context(), &rollup_cell(), &deposits, &block(3, 0xb1), &state)
        .unwrap();
    let sk2 = build_unsigned_tx(&context(), &rollup_cell(), &deposits2, &block(3, 0xb1), &state)
        .unwrap();
    assert_eq!(sk1.unsigned_bytes(), sk2.unsigned_bytes());
}

#[test]
fn build_fails_without_rollup_type_dep() {
    let mut rc = rollup_cell();
    rc.type_dep = None;
    let state = GlobalState { data: vec![] };
    let r = build_unsigned_tx(&context(), &rc, &Vec::new(), &block(3, 0xb1), &state);
    assert!(matches!(r, Err(Error::NotFound)));
}

#[test]
fn shared_deposit_lock_dep_appears_once() {
    let deposits = vec![
        deposit(0x20, 500, vec![1], None),
        deposit(0x21, 600, vec![2], None),
    ];
    let state = GlobalState { data: vec![] };
    let sk = build_unsigned_tx(&context(), &rollup_cell(), &deposits, &block(3, 0xb1), &state)
        .unwrap();
    let tx = sk.seal(&Vec::new()).unwrap();
    let lock_dep = dep(0x70, 1);
    let occurrences = tx.cell_deps.iter().filter(|d| eq_dep(d, &lock_dep)).count();
    assert_eq!(occurrences, 1);
}

#[test]
fn shared_type_dep_appears_once() {
    let deposits = vec![
        deposit(0x20, 500, vec![1], Some(dep(0x60, 2))),
        deposit(0x21, 600, vec![2], Some(dep(0x60, 2))),
        deposit(0x22, 700, vec![3], Some(dep(0x61, 0))),
    ];
    let state = GlobalState { data: vec![] };
    let sk = build_unsigned_tx(&context(), &rollup_cell(), &deposits, &block(3, 0xb1), &state)
        .unwrap();
    let tx = sk.seal(&Vec::new()).unwrap();
    let sudt = dep(0x60, 2);
    let occurrences = tx.cell_deps.iter().filter(|d| eq_dep(d, &sudt)).count();
    assert_eq!(occurrences, 1);
    // rollup type, rollup lock, deposit lock, two distinct sUDT type deps
    assert_eq!(tx.cell_deps.len(), 5);
}

#[test]
fn built_transaction_layout_matches_the_fixed_order() {
    let deposits = vec![deposit(0x20, 500, vec![1], None), deposit(0x21, 600, vec![2], None)];
    let state = GlobalState { data: vec![5, 6] };
    let sk = build_unsigned_tx(&context(), &rollup_cell(), &deposits, &block(3, 0xb1), &state)
        .unwrap();
    let tx = sk.seal(&Vec::new()).unwrap();
    // input 0 spends the rollup cell, then one input per deposit
    assert_eq!(tx.inputs.len(), 3);
    assert_eq!(tx.inputs[0].tx_hash, hash32(0x01));
    assert_eq!(tx.inputs[1].tx_hash, hash32(0x20));
    assert_eq!(tx.inputs[2].tx_hash, hash32(0x21));
    // output 0 recreates the rollup cell with the new global state as data
    assert_eq!(tx.outputs.len(), 3);
    assert_eq!(tx.outputs[0].0.capacity, 1000);
    assert_eq!(tx.outputs[0].1, vec![5, 6]);
    // one witness per input, the first carrying the serialized block
    assert_eq!(tx.witnesses.len(), tx.inputs.len());
    assert!(tx.witnesses[0].output_type.is_some());
    assert!(tx.witnesses[1].output_type.is_none());
}

#[test]
fn seal_aligns_witnesses_with_inputs() {
    let mut sk = TransactionSkeleton::default();
    sk.add_input(InputCell { out_point: out_point(0x01, 0), lock_hash: None });
    sk.add_input(InputCell { out_point: out_point(0x02, 0), lock_hash: Some(hash32(0xfe)) });
    sk.add_witness(WitnessArgs { lock: None, input_type: None, output_type: Some(vec![9]) });
    let messages = sk.signature_messages();
    assert_eq!(messages.len(), 1);
    let signature = vec![0x44; 65];
    let tx = sk.seal(&vec![signature.clone()]).unwrap();
    assert_eq!(tx.witnesses.len(), tx.inputs.len());
    assert_eq!(tx.witnesses[0].output_type, Some(vec![9]));
    assert_eq!(tx.witnesses[0].lock, None);
    assert_eq!(tx.witnesses[1].lock, Some(signature));
}

#[test]
fn seal_rejects_wrong_signature_count() {
    let mut sk = TransactionSkeleton::default();
    sk.add_input(InputCell { out_point: out_point(0x01, 0), lock_hash: Some(hash32(0xfe)) });
    let r = sk.seal(&Vec::new());
    assert!(matches!(r, Err(Error::IncompleteTransaction)));
    let r2 = sk.seal(&vec![vec![0x44; 65], vec![0x45; 65]]);
    assert!(matches!(r2, Err(Error::IncompleteTransaction)));
}

#[test]
fn signature_messages_depend_on_input_position() {
    let mut sk = TransactionSkeleton::default();
    sk.add_input(InputCell { out_point: out_point(0x01, 0), lock_hash: Some(hash32(0xfe)) });
    sk.add_input(InputCell { out_point: out_point(0x02, 0), lock_hash: Some(hash32(0xfe)) });
    let messages = sk.signature_messages();
    assert_eq!(messages.len(), 2);
    assert_ne!(messages[0], messages[1]);
}
