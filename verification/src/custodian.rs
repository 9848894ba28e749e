//! Custodian derivation: the pure mapping from a finalized block and the
//! deposit cells it consumes to the custodian cells that must be created.

use vstd::prelude::*;
use crate::bytes::clone_bytes;
use crate::codec::{
    encode_custodian_args, lemma_custodian_args_round_trip, spec_custodian_args, spec_decode_u64,
};
use crate::skeleton::SpecOutput;
use crate::types::{
    CellOutput, DepositInfo, HASH_TYPE_TYPE, L2Block, RollupContext, Script, SpecCellOutput,
    SpecDepositInfo, SpecL2Block, SpecRollupContext, SpecScript, clone_opt_script, spec_hash_wf,
};

verus! {

/// The custodian lock for a deposit consumed by `block`: the configured
/// custodian script, parameterized by the block hash, the block number and
/// the deposit's original lock arguments.
pub open spec fn spec_custodian_lock(
    ctx: SpecRollupContext,
    block: SpecL2Block,
    deposit_lock_args: Seq<u8>,
) -> SpecScript {
    SpecScript {
        code_hash: ctx.custodian_script_type_hash,
        hash_type: HASH_TYPE_TYPE,
        args: spec_custodian_args(block.hash, block.number, deposit_lock_args),
    }
}

/// The custodian cell derived from one deposit: capacity, type script and
/// data are the deposit's own; only the lock changes.
pub open spec fn spec_custodian_cell(
    ctx: SpecRollupContext,
    block: SpecL2Block,
    d: SpecDepositInfo,
) -> SpecOutput {
    SpecOutput {
        cell: SpecCellOutput {
            capacity: d.cell.output.capacity,
            lock: spec_custodian_lock(ctx, block, d.cell.output.lock.args),
            type_script: d.cell.output.type_script,
        },
        data: d.cell.data,
    }
}

/// One custodian output per consumed deposit, in deposit order.
pub fn generate_custodian_cells(
    rollup_context: &RollupContext,
    block: &L2Block,
    deposit_cells: &Vec<DepositInfo>,
) -> (r: Vec<(CellOutput, Vec<u8>)>)
    requires
        spec_hash_wf(block@.hash),
    ensures
        r@.len() == deposit_cells@.len(),
        forall|i: int| 0 <= i < r@.len() ==> (SpecOutput {
            cell: (#[trigger] r@[i]).0@,
            data: r@[i].1@,
        }) == spec_custodian_cell(rollup_context@, block@, deposit_cells@[i]@),
{
    let mut r: Vec<(CellOutput, Vec<u8>)> = Vec::new();
    let mut i: usize = 0;
    while i < deposit_cells.len()
        invariant
            i <= deposit_cells.len(),
            spec_hash_wf(block@.hash),
            r@.len() == i,
            forall|k: int| 0 <= k < i ==> (SpecOutput {
                cell: (#[trigger] r@[k]).0@,
                data: r@[k].1@,
            }) == spec_custodian_cell(rollup_context@, block@, deposit_cells@[k]@),
        decreases deposit_cells.len() - i,
    {
        let deposit = &deposit_cells[i];
        let lock_args = encode_custodian_args(
            &block.hash,
            block.number,
            &deposit.cell.output.lock.args,
        );
        let lock = Script {
            code_hash: clone_bytes(&rollup_context.custodian_script_type_hash),
            hash_type: HASH_TYPE_TYPE,
            args: lock_args,
        };
        let cell = CellOutput {
            capacity: deposit.cell.output.capacity,
            lock,
            type_script: clone_opt_script(&deposit.cell.output.type_script),
        };
        let data = clone_bytes(&deposit.cell.data);
        r.push((cell, data));
        i += 1;
        proof {
            assert(SpecOutput { cell: r@[i - 1].0@, data: r@[i - 1].1@ } =~= spec_custodian_cell(
                rollup_context@,
                block@,
                deposit_cells@[i - 1]@,
            ));
        }
    }
    r
}

/// Custodian derivation is faithful: the derived lock arguments decode back
/// to exactly the block hash, the block number and the deposit's original
/// lock arguments, and capacity, type script and data are copied verbatim.
pub proof fn lemma_custodian_derivation(
    ctx: SpecRollupContext,
    block: SpecL2Block,
    d: SpecDepositInfo,
)
    requires
        spec_hash_wf(block.hash),
    ensures
        spec_custodian_cell(ctx, block, d).cell.capacity == d.cell.output.capacity,
        spec_custodian_cell(ctx, block, d).cell.type_script == d.cell.output.type_script,
        spec_custodian_cell(ctx, block, d).data == d.cell.data,
        spec_custodian_cell(ctx, block, d).cell.lock.code_hash == ctx.custodian_script_type_hash,
        spec_custodian_cell(ctx, block, d).cell.lock.hash_type == HASH_TYPE_TYPE,
        spec_custodian_cell(ctx, block, d).cell.lock.args.subrange(0, 32) == block.hash,
        spec_decode_u64(spec_custodian_cell(ctx, block, d).cell.lock.args.subrange(32, 40))
            == block.number,
        spec_custodian_cell(ctx, block, d).cell.lock.args.subrange(
            40,
            spec_custodian_cell(ctx, block, d).cell.lock.args.len() as int,
        ) == d.cell.output.lock.args,
{
    lemma_custodian_args_round_trip(block.hash, block.number, d.cell.output.lock.args);
}

} // verus!
