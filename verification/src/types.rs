//! The cell-level and layer-2 data model, with a mathematical view for each
//! type, equality tests proved against the views, and cloning helpers.

use vstd::prelude::*;
use crate::bytes::{bytes_eq, clone_bytes};

verus! {

/// Script hash type selecting resolution by type-script hash.
pub const HASH_TYPE_TYPE: u8 = 1;

/// A base-chain out-point: the creating transaction's hash and output index.
pub struct OutPoint {
    pub tx_hash: Vec<u8>,
    pub index: u32,
}

#[verifier::ext_equal]
pub ghost struct SpecOutPoint {
    pub tx_hash: Seq<u8>,
    pub index: u32,
}

impl View for OutPoint {
    type V = SpecOutPoint;

    open spec fn view(&self) -> SpecOutPoint {
        SpecOutPoint { tx_hash: self.tx_hash@, index: self.index }
    }
}

/// A cell dependency: an out-point plus how it is resolved.
pub struct CellDep {
    pub tx_hash: Vec<u8>,
    pub index: u32,
    pub dep_type: u8,
}

#[verifier::ext_equal]
pub ghost struct SpecCellDep {
    pub tx_hash: Seq<u8>,
    pub index: u32,
    pub dep_type: u8,
}

impl View for CellDep {
    type V = SpecCellDep;

    open spec fn view(&self) -> SpecCellDep {
        SpecCellDep { tx_hash: self.tx_hash@, index: self.index, dep_type: self.dep_type }
    }
}

/// A lock or type script.
pub struct Script {
    pub code_hash: Vec<u8>,
    pub hash_type: u8,
    pub args: Vec<u8>,
}

#[verifier::ext_equal]
pub ghost struct SpecScript {
    pub code_hash: Seq<u8>,
    pub hash_type: u8,
    pub args: Seq<u8>,
}

impl View for Script {
    type V = SpecScript;

    open spec fn view(&self) -> SpecScript {
        SpecScript { code_hash: self.code_hash@, hash_type: self.hash_type, args: self.args@ }
    }
}

/// The view of an optional script.
pub open spec fn spec_opt_script(s: Option<Script>) -> Option<SpecScript> {
    match s {
        Some(sc) => Some(sc@),
        None => None,
    }
}

/// A cell: its capacity, its lock script and an optional type script.
pub struct CellOutput {
    pub capacity: u64,
    pub lock: Script,
    pub type_script: Option<Script>,
}

#[verifier::ext_equal]
pub ghost struct SpecCellOutput {
    pub capacity: u64,
    pub lock: SpecScript,
    pub type_script: Option<SpecScript>,
}

impl View for CellOutput {
    type V = SpecCellOutput;

    open spec fn view(&self) -> SpecCellOutput {
        SpecCellOutput {
            capacity: self.capacity,
            lock: self.lock@,
            type_script: spec_opt_script(self.type_script),
        }
    }
}

/// A live cell as observed on the base chain.
pub struct CellInfo {
    pub out_point: OutPoint,
    pub output: CellOutput,
    pub data: Vec<u8>,
}

#[verifier::ext_equal]
pub ghost struct SpecCellInfo {
    pub out_point: SpecOutPoint,
    pub output: SpecCellOutput,
    pub data: Seq<u8>,
}

impl View for CellInfo {
    type V = SpecCellInfo;

    open spec fn view(&self) -> SpecCellInfo {
        SpecCellInfo { out_point: self.out_point@, output: self.output@, data: self.data@ }
    }
}

/// The view of an optional cell dependency.
pub open spec fn spec_opt_dep(d: Option<CellDep>) -> Option<SpecCellDep> {
    match d {
        Some(c) => Some(c@),
        None => None,
    }
}

/// A deposit cell awaiting inclusion, with the dependencies needed to spend it.
pub struct DepositInfo {
    pub cell: CellInfo,
    pub lock_dep: CellDep,
    pub type_dep: Option<CellDep>,
}

#[verifier::ext_equal]
pub ghost struct SpecDepositInfo {
    pub cell: SpecCellInfo,
    pub lock_dep: SpecCellDep,
    pub type_dep: Option<SpecCellDep>,
}

impl View for DepositInfo {
    type V = SpecDepositInfo;

    open spec fn view(&self) -> SpecDepositInfo {
        SpecDepositInfo {
            cell: self.cell@,
            lock_dep: self.lock_dep@,
            type_dep: spec_opt_dep(self.type_dep),
        }
    }
}

/// The live rollup cell together with the dependencies needed to spend it.
pub struct RollupCellInfo {
    pub cell: CellInfo,
    pub lock_dep: CellDep,
    pub type_dep: Option<CellDep>,
}

#[verifier::ext_equal]
pub ghost struct SpecRollupCellInfo {
    pub cell: SpecCellInfo,
    pub lock_dep: SpecCellDep,
    pub type_dep: Option<SpecCellDep>,
}

impl View for RollupCellInfo {
    type V = SpecRollupCellInfo;

    open spec fn view(&self) -> SpecRollupCellInfo {
        SpecRollupCellInfo {
            cell: self.cell@,
            lock_dep: self.lock_dep@,
            type_dep: spec_opt_dep(self.type_dep),
        }
    }
}

/// Rollup-wide configuration the assembly pipeline needs.
pub struct RollupContext {
    pub custodian_script_type_hash: Vec<u8>,
}

#[verifier::ext_equal]
pub ghost struct SpecRollupContext {
    pub custodian_script_type_hash: Seq<u8>,
}

impl View for RollupContext {
    type V = SpecRollupContext;

    open spec fn view(&self) -> SpecRollupContext {
        SpecRollupContext { custodian_script_type_hash: self.custodian_script_type_hash@ }
    }
}

/// An executed layer-2 block as handed back by the execution engine: its
/// number, its 32-byte hash and its serialized form.
pub struct L2Block {
    pub number: u64,
    pub hash: Vec<u8>,
    pub payload: Vec<u8>,
}

#[verifier::ext_equal]
pub ghost struct SpecL2Block {
    pub number: u64,
    pub hash: Seq<u8>,
    pub payload: Seq<u8>,
}

impl View for L2Block {
    type V = SpecL2Block;

    open spec fn view(&self) -> SpecL2Block {
        SpecL2Block { number: self.number, hash: self.hash@, payload: self.payload@ }
    }
}

/// A block hash is exactly 32 bytes.
pub open spec fn spec_hash_wf(h: Seq<u8>) -> bool {
    h.len() == 32
}

/// The committed global state, carried as the rollup cell's data payload.
pub struct GlobalState {
    pub data: Vec<u8>,
}

impl View for GlobalState {
    type V = Seq<u8>;

    open spec fn view(&self) -> Seq<u8> {
        self.data@
    }
}

/// A layer-2 transaction pending in the mem pool.
pub struct L2Transaction {
    pub account_id: u64,
    pub signature: Vec<u8>,
    pub payload: Vec<u8>,
}

#[verifier::ext_equal]
pub ghost struct SpecL2Transaction {
    pub account_id: u64,
    pub signature: Seq<u8>,
    pub payload: Seq<u8>,
}

impl View for L2Transaction {
    type V = SpecL2Transaction;

    open spec fn view(&self) -> SpecL2Transaction {
        SpecL2Transaction {
            account_id: self.account_id,
            signature: self.signature@,
            payload: self.payload@,
        }
    }
}

/// Local well-formedness of a layer-2 transaction: its signature slot has the
/// fixed recoverable-signature width.
pub open spec fn spec_tx_wf(t: SpecL2Transaction) -> bool {
    t.signature.len() == 65
}

/// A withdrawal request pending in the mem pool.
pub struct WithdrawalRequest {
    pub account_id: u64,
    pub payload: Vec<u8>,
}

#[verifier::ext_equal]
pub ghost struct SpecWithdrawalRequest {
    pub account_id: u64,
    pub payload: Seq<u8>,
}

impl View for WithdrawalRequest {
    type V = SpecWithdrawalRequest;

    open spec fn view(&self) -> SpecWithdrawalRequest {
        SpecWithdrawalRequest { account_id: self.account_id, payload: self.payload@ }
    }
}

/// The header context of the mem block in progress.
pub struct BlockInfo {
    pub number: u64,
    pub timestamp: u64,
    pub block_producer_id: u32,
}

#[verifier::ext_equal]
pub ghost struct SpecBlockInfo {
    pub number: u64,
    pub timestamp: u64,
    pub block_producer_id: u32,
}

impl View for BlockInfo {
    type V = SpecBlockInfo;

    open spec fn view(&self) -> SpecBlockInfo {
        SpecBlockInfo {
            number: self.number,
            timestamp: self.timestamp,
            block_producer_id: self.block_producer_id,
        }
    }
}

/// A witness slot: optional lock, input-type and output-type fields.
pub struct WitnessArgs {
    pub lock: Option<Vec<u8>>,
    pub input_type: Option<Vec<u8>>,
    pub output_type: Option<Vec<u8>>,
}

#[verifier::ext_equal]
pub ghost struct SpecWitnessArgs {
    pub lock: Option<Seq<u8>>,
    pub input_type: Option<Seq<u8>>,
    pub output_type: Option<Seq<u8>>,
}

/// The view of an optional byte vector.
pub open spec fn spec_opt_bytes(b: Option<Vec<u8>>) -> Option<Seq<u8>> {
    match b {
        Some(v) => Some(v@),
        None => None,
    }
}

impl View for WitnessArgs {
    type V = SpecWitnessArgs;

    open spec fn view(&self) -> SpecWitnessArgs {
        SpecWitnessArgs {
            lock: spec_opt_bytes(self.lock),
            input_type: spec_opt_bytes(self.input_type),
            output_type: spec_opt_bytes(self.output_type),
        }
    }
}

/// The all-empty witness used to pad input slots that carry nothing.
pub open spec fn spec_empty_witness() -> SpecWitnessArgs {
    SpecWitnessArgs { lock: None, input_type: None, output_type: None }
}

impl WitnessArgs {
    /// A witness with all three fields empty.
    pub fn empty() -> (r: WitnessArgs)
        ensures
            r@ == spec_empty_witness(),
    {
        WitnessArgs { lock: None, input_type: None, output_type: None }
    }
}

/// True exactly when the two cell dependencies are the same dependency.
pub fn cell_dep_eq(a: &CellDep, b: &CellDep) -> (r: bool)
    ensures
        r == (a@ == b@),
{
    let r = bytes_eq(&a.tx_hash, &b.tx_hash) && a.index == b.index && a.dep_type == b.dep_type;
    proof {
        if r {
            assert(a@ =~= b@);
        }
    }
    r
}

/// True exactly when the two layer-2 transactions are the same transaction.
pub fn l2_transaction_eq(a: &L2Transaction, b: &L2Transaction) -> (r: bool)
    ensures
        r == (a@ == b@),
{
    let r = a.account_id == b.account_id && bytes_eq(&a.signature, &b.signature) && bytes_eq(
        &a.payload,
        &b.payload,
    );
    proof {
        if r {
            assert(a@ =~= b@);
        }
    }
    r
}

/// A fresh out-point with the same view.
pub fn clone_out_point(o: &OutPoint) -> (r: OutPoint)
    ensures
        r@ == o@,
{
    let r = OutPoint { tx_hash: clone_bytes(&o.tx_hash), index: o.index };
    proof {
        assert(r@ =~= o@);
    }
    r
}

/// A fresh cell dependency with the same view.
pub fn clone_cell_dep(d: &CellDep) -> (r: CellDep)
    ensures
        r@ == d@,
{
    let r = CellDep { tx_hash: clone_bytes(&d.tx_hash), index: d.index, dep_type: d.dep_type };
    proof {
        assert(r@ =~= d@);
    }
    r
}

/// A fresh script with the same view.
pub fn clone_script(s: &Script) -> (r: Script)
    ensures
        r@ == s@,
{
    let r = Script {
        code_hash: clone_bytes(&s.code_hash),
        hash_type: s.hash_type,
        args: clone_bytes(&s.args),
    };
    proof {
        assert(r@ =~= s@);
    }
    r
}

/// A fresh optional script with the same view.
pub fn clone_opt_script(s: &Option<Script>) -> (r: Option<Script>)
    ensures
        spec_opt_script(r) == spec_opt_script(*s),
{
    match s {
        Some(sc) => Some(clone_script(sc)),
        None => None,
    }
}

/// A fresh cell with the same view.
pub fn clone_cell_output(c: &CellOutput) -> (r: CellOutput)
    ensures
        r@ == c@,
{
    let r = CellOutput {
        capacity: c.capacity,
        lock: clone_script(&c.lock),
        type_script: clone_opt_script(&c.type_script),
    };
    proof {
        assert(r@ =~= c@);
    }
    r
}

/// A fresh layer-2 transaction with the same view.
pub fn clone_l2_transaction(t: &L2Transaction) -> (r: L2Transaction)
    ensures
        r@ == t@,
{
    let r = L2Transaction {
        account_id: t.account_id,
        signature: clone_bytes(&t.signature),
        payload: clone_bytes(&t.payload),
    };
    proof {
        assert(r@ =~= t@);
    }
    r
}

/// A fresh withdrawal request with the same view.
pub fn clone_withdrawal(w: &WithdrawalRequest) -> (r: WithdrawalRequest)
    ensures
        r@ == w@,
{
    let r = WithdrawalRequest { account_id: w.account_id, payload: clone_bytes(&w.payload) };
    proof {
        assert(r@ =~= w@);
    }
    r
}

/// A fresh optional byte vector with the same view.
pub fn clone_opt_bytes(b: &Option<Vec<u8>>) -> (r: Option<Vec<u8>>)
    ensures
        spec_opt_bytes(r) == spec_opt_bytes(*b),
{
    match b {
        Some(v) => Some(clone_bytes(v)),
        None => None,
    }
}

/// A fresh witness with the same view.
pub fn clone_witness(w: &WitnessArgs) -> (r: WitnessArgs)
    ensures
        r@ == w@,
{
    let r = WitnessArgs {
        lock: clone_opt_bytes(&w.lock),
        input_type: clone_opt_bytes(&w.input_type),
        output_type: clone_opt_bytes(&w.output_type),
    };
    proof {
        assert(r@ =~= w@);
    }
    r
}

} // verus!
