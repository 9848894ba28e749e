//! Assembly of the unsigned base-chain transaction that commits an executed
//! layer-2 block: the rollup cell is spent and recreated, deposits are
//! consumed, custodian cells are created, and cell dependencies are
//! accumulated with set semantics, all in a fixed, reproducible order.

use vstd::prelude::*;
use crate::Error;
use crate::bytes::{append_bytes, clone_bytes};
use crate::codec::{append_u64, spec_encode_bytes, spec_encode_u64, append_len_prefixed};
use crate::custodian::{generate_custodian_cells, spec_custodian_cell};
use crate::skeleton::{
    InputCell, SpecInputCell, SpecOutput, SpecSkeleton, TransactionSkeleton, spec_add_dep,
    spec_nodup_deps,
};
use crate::types::{
    CellDep, CellOutput, DepositInfo, GlobalState, L2Block, RollupCellInfo, RollupContext,
    SpecCellDep, SpecDepositInfo, SpecL2Block, SpecRollupCellInfo, SpecRollupContext,
    SpecWitnessArgs, WitnessArgs, clone_cell_dep, clone_cell_output, clone_out_point,
    spec_hash_wf,
};

verus! {

/// The views of a sequence of deposit cells.
pub open spec fn spec_deposits_view(v: Seq<DepositInfo>) -> Seq<SpecDepositInfo> {
    v.map_values(|d: DepositInfo| d@)
}

/// First-occurrence deduplication, keeping the order of first appearance.
pub open spec fn spec_dedup(s: Seq<SpecCellDep>) -> Seq<SpecCellDep>
    decreases s.len(),
{
    if s.len() == 0 {
        Seq::empty()
    } else {
        spec_add_dep(spec_dedup(s.drop_last()), s.last())
    }
}

/// Deduplication keeps exactly the elements of the input.
pub proof fn lemma_dedup_contains(s: Seq<SpecCellDep>, x: SpecCellDep)
    ensures
        spec_dedup(s).contains(x) == s.contains(x),
    decreases s.len(),
{
    if s.len() == 0 {
        assert(!s.contains(x));
        assert(!spec_dedup(s).contains(x));
    } else {
        let t = s.drop_last();
        let d = spec_dedup(t);
        lemma_dedup_contains(t, x);
        assert(s.contains(x) == (t.contains(x) || x == s.last())) by {
            if t.contains(x) {
                let i = choose|i: int| 0 <= i < t.len() && t[i] == x;
                assert(s[i] == x);
            }
            if x == s.last() {
                assert(s[s.len() - 1] == x);
            }
            if s.contains(x) {
                let i = choose|i: int| 0 <= i < s.len() && s[i] == x;
                if i < s.len() - 1 {
                    assert(t[i] == x);
                }
            }
        }
        if d.contains(s.last()) {
            assert(spec_dedup(s) == d);
        } else {
            let p = d.push(s.last());
            assert(spec_dedup(s) == p);
            assert(p.contains(x) == (d.contains(x) || x == s.last())) by {
                if d.contains(x) {
                    let i = choose|i: int| 0 <= i < d.len() && d[i] == x;
                    assert(p[i] == x);
                }
                if x == s.last() {
                    assert(p[d.len() as int] == x);
                }
                if p.contains(x) {
                    let i = choose|i: int| 0 <= i < p.len() && p[i] == x;
                    if i < d.len() {
                        assert(d[i] == x);
                    }
                }
            }
        }
    }
}

/// Deduplication leaves no duplicate.
pub proof fn lemma_dedup_nodup(s: Seq<SpecCellDep>)
    ensures
        spec_nodup_deps(spec_dedup(s)),
    decreases s.len(),
{
    if s.len() > 0 {
        lemma_dedup_nodup(s.drop_last());
        let d = spec_dedup(s.drop_last());
        if !d.contains(s.last()) {
            assert forall|i: int, j: int|
                0 <= i < j < d.push(s.last()).len() implies d.push(s.last())[i] != d.push(
                s.last(),
            )[j] by {
                if j == d.len() {
                    assert(d[i] != s.last()) by {
                        if d[i] == s.last() {
                            assert(d.contains(s.last()));
                        }
                    }
                }
            }
        }
    }
}

/// Adding one element on the right commutes with deduplication.
pub proof fn lemma_dedup_push(c: Seq<SpecCellDep>, x: SpecCellDep)
    ensures
        spec_dedup(c.push(x)) == spec_add_dep(spec_dedup(c), x),
{
    assert(c.push(x).drop_last() =~= c);
}

/// The type-script dependencies contributed by the deposits, in deposit
/// order, absences skipped.
pub open spec fn spec_type_dep_candidates(ds: Seq<SpecDepositInfo>) -> Seq<SpecCellDep>
    decreases ds.len(),
{
    if ds.len() == 0 {
        Seq::empty()
    } else {
        spec_type_dep_candidates(ds.drop_last()) + (match ds.last().type_dep {
            Some(d) => seq![d],
            None => Seq::empty(),
        })
    }
}

/// Every cell dependency the transaction needs, in the order the assembly
/// presents them: the rollup type and lock dependencies, the shared deposit
/// lock dependency taken from the first deposit, then the deposits' type
/// dependencies.
pub open spec fn spec_dep_candidates(
    rollup: SpecRollupCellInfo,
    ds: Seq<SpecDepositInfo>,
) -> Seq<SpecCellDep>
    recommends
        rollup.type_dep is Some,
{
    seq![rollup.type_dep.unwrap(), rollup.lock_dep] + (if ds.len() > 0 {
        seq![ds[0].lock_dep]
    } else {
        Seq::empty()
    }) + spec_type_dep_candidates(ds)
}

/// The serialized form of an executed block, as carried by the first witness:
/// its number, its hash, then its length-prefixed payload.
pub open spec fn spec_block_bytes(b: SpecL2Block) -> Seq<u8> {
    spec_encode_u64(b.number) + b.hash + spec_encode_bytes(b.payload)
}

/// Serializes an executed block.
pub fn block_bytes(b: &L2Block) -> (r: Vec<u8>)
    ensures
        r@ == spec_block_bytes(b@),
{
    let mut r: Vec<u8> = Vec::new();
    append_u64(&mut r, b.number);
    append_bytes(&mut r, &b.hash);
    append_len_prefixed(&mut r, &b.payload);
    proof {
        assert(r@ =~= spec_block_bytes(b@));
    }
    r
}

/// The first witness: the serialized block carried as output-type data.
pub open spec fn spec_block_witness(b: SpecL2Block) -> SpecWitnessArgs {
    SpecWitnessArgs { lock: None, input_type: None, output_type: Some(spec_block_bytes(b)) }
}

/// The skeleton the assembly must produce, defined when the rollup cell's
/// type dependency is known: input 0 spends the rollup cell and the deposits
/// follow it; output 0 recreates the rollup cell with the new global state as
/// data and one custodian output follows per deposit; the cell dependencies
/// are the candidates deduplicated in first-occurrence order; the single
/// witness carries the serialized block.
pub open spec fn spec_build_skeleton(
    ctx: SpecRollupContext,
    rollup: SpecRollupCellInfo,
    ds: Seq<SpecDepositInfo>,
    block: SpecL2Block,
    state: Seq<u8>,
) -> SpecSkeleton
    recommends
        rollup.type_dep is Some,
{
    SpecSkeleton {
        inputs: seq![
            SpecInputCell { out_point: rollup.cell.out_point, lock_hash: None },
        ] + ds.map_values(
            |d: SpecDepositInfo| SpecInputCell { out_point: d.cell.out_point, lock_hash: None },
        ),
        outputs: seq![SpecOutput { cell: rollup.cell.output, data: state }] + ds.map_values(
            |d: SpecDepositInfo| spec_custodian_cell(ctx, block, d),
        ),
        cell_deps: spec_dedup(spec_dep_candidates(rollup, ds)),
        witnesses: seq![spec_block_witness(block)],
    }
}

/// Builds the unsigned transaction skeleton for an executed block. Fails with
/// `NotFound` exactly when the rollup cell's type dependency is missing;
/// otherwise the result is precisely the skeleton `spec_build_skeleton`
/// describes, so identical inputs always yield identical skeletons.
pub fn build_unsigned_tx(
    rollup_context: &RollupContext,
    rollup_cell: &RollupCellInfo,
    deposit_cells: &Vec<DepositInfo>,
    block: &L2Block,
    global_state: &GlobalState,
) -> (r: Result<TransactionSkeleton, Error>)
    requires
        spec_hash_wf(block@.hash),
    ensures
        match r {
            Ok(sk) => rollup_cell@.type_dep is Some && sk@ == spec_build_skeleton(
                rollup_context@,
                rollup_cell@,
                spec_deposits_view(deposit_cells@),
                block@,
                global_state@,
            ) && sk.wf(),
            Err(e) => e == Error::NotFound && rollup_cell@.type_dep is None,
        },
{
    let ghost ctx = rollup_context@;
    let ghost rv = rollup_cell@;
    let ghost dsv = spec_deposits_view(deposit_cells@);
    let ghost blk = block@;
    let type_dep = match &rollup_cell.type_dep {
        Some(d) => clone_cell_dep(d),
        None => {
            return Err(Error::NotFound);
        },
    };
    let mut sk = TransactionSkeleton::default();
    proof {
        assert(sk@.cell_deps =~= spec_dedup(Seq::empty()));
    }
    // Input 0: the previous rollup cell.
    sk.add_input(InputCell { out_point: clone_out_point(&rollup_cell.cell.out_point), lock_hash: None });
    // Rollup type and lock dependencies, and the shared deposit lock
    // dependency from the first deposit.
    let ghost mut cand: Seq<SpecCellDep> = Seq::empty();
    sk.add_cell_dep(type_dep);
    proof {
        lemma_dedup_push(cand, rv.type_dep.unwrap());
        cand = cand.push(rv.type_dep.unwrap());
        assert(sk@.cell_deps == spec_dedup(cand));
    }
    sk.add_cell_dep(clone_cell_dep(&rollup_cell.lock_dep));
    proof {
        lemma_dedup_push(cand, rv.lock_dep);
        cand = cand.push(rv.lock_dep);
        assert(sk@.cell_deps == spec_dedup(cand));
    }
    if deposit_cells.len() > 0 {
        sk.add_cell_dep(clone_cell_dep(&deposit_cells[0].lock_dep));
        proof {
            lemma_dedup_push(cand, dsv[0].lock_dep);
            cand = cand.push(dsv[0].lock_dep);
            assert(sk@.cell_deps == spec_dedup(cand));
        }
    }
    // Witness 0 carries the serialized block.
    sk.add_witness(WitnessArgs { lock: None, input_type: None, output_type: Some(block_bytes(block)) });
    // Output 0 recreates the rollup cell with the new global state.
    sk.add_output(clone_cell_output(&rollup_cell.cell.output), clone_bytes(&global_state.data));
    // One input per deposit, in deposit order.
    let ghost base_inputs = seq![SpecInputCell { out_point: rv.cell.out_point, lock_hash: None }];
    let ghost base_outputs = seq![SpecOutput { cell: rv.cell.output, data: global_state@ }];
    let ghost mid = sk@;
    proof {
        assert(sk@ =~= (SpecSkeleton {
            inputs: base_inputs + dsv.subrange(0, 0).map_values(
                |d: SpecDepositInfo| SpecInputCell {
                    out_point: d.cell.out_point,
                    lock_hash: None,
                },
            ),
            ..mid
        }));
    }
    let mut i: usize = 0;
    while i < deposit_cells.len()
        invariant
            i <= deposit_cells.len(),
            dsv == spec_deposits_view(deposit_cells@),
            sk@ == (SpecSkeleton {
                inputs: base_inputs + dsv.subrange(0, i as int).map_values(
                    |d: SpecDepositInfo| SpecInputCell {
                        out_point: d.cell.out_point,
                        lock_hash: None,
                    },
                ),
                ..mid
            }),
        decreases deposit_cells.len() - i,
    {
        sk.add_input(
            InputCell {
                out_point: clone_out_point(&deposit_cells[i].cell.out_point),
                lock_hash: None,
            },
        );
        i += 1;
        proof {
            assert(sk@ =~= (SpecSkeleton {
                inputs: base_inputs + dsv.subrange(0, i as int).map_values(
                    |d: SpecDepositInfo| SpecInputCell {
                        out_point: d.cell.out_point,
                        lock_hash: None,
                    },
                ),
                ..mid
            }));
        }
    }
    // Type-script dependencies contributed by the deposits, set-style.
    let ghost inputs_done = sk@.inputs;
    let ghost base_cand = cand;
    proof {
        assert(spec_type_dep_candidates(dsv.subrange(0, 0)) =~= Seq::<SpecCellDep>::empty());
        assert(cand =~= base_cand + spec_type_dep_candidates(dsv.subrange(0, 0)));
        assert(sk@ =~= (SpecSkeleton { inputs: inputs_done, cell_deps: spec_dedup(cand), ..mid }));
    }
    let mut i: usize = 0;
    while i < deposit_cells.len()
        invariant
            i <= deposit_cells.len(),
            dsv == spec_deposits_view(deposit_cells@),
            cand == base_cand + spec_type_dep_candidates(dsv.subrange(0, i as int)),
            sk@ == (SpecSkeleton {
                inputs: inputs_done,
                cell_deps: spec_dedup(cand),
                ..mid
            }),
        decreases deposit_cells.len() - i,
    {
        match &deposit_cells[i].type_dep {
            Some(td) => {
                sk.add_cell_dep(clone_cell_dep(td));
                proof {
                    lemma_dedup_push(cand, dsv[i as int].type_dep.unwrap());
                    cand = cand.push(dsv[i as int].type_dep.unwrap());
                }
            },
            None => {
            },
        }
        i += 1;
        proof {
            let p = dsv.subrange(0, i as int);
            assert(p.drop_last() =~= dsv.subrange(0, i - 1));
            assert(cand =~= base_cand + spec_type_dep_candidates(p));
            assert(sk@ =~= (SpecSkeleton {
                inputs: inputs_done,
                cell_deps: spec_dedup(cand),
                ..mid
            }));
        }
    }
    proof {
        assert(dsv.subrange(0, dsv.len() as int) =~= dsv);
        assert(cand =~= spec_dep_candidates(rv, dsv));
    }
    // One custodian output per deposit, in deposit order.
    let custodians = generate_custodian_cells(rollup_context, block, deposit_cells);
    let ghost deps_done = sk@.cell_deps;
    proof {
        assert(sk@ =~= (SpecSkeleton {
            inputs: inputs_done,
            cell_deps: deps_done,
            outputs: base_outputs + dsv.subrange(0, 0).map_values(
                |d: SpecDepositInfo| spec_custodian_cell(ctx, blk, d),
            ),
            ..mid
        }));
    }
    let mut i: usize = 0;
    while i < custodians.len()
        invariant
            i <= custodians.len(),
            dsv == spec_deposits_view(deposit_cells@),
            custodians@.len() == dsv.len(),
            forall|k: int| 0 <= k < custodians@.len() ==> (SpecOutput {
                cell: (#[trigger] custodians@[k]).0@,
                data: custodians@[k].1@,
            }) == spec_custodian_cell(ctx, blk, dsv[k]),
            sk@ == (SpecSkeleton {
                inputs: inputs_done,
                cell_deps: deps_done,
                outputs: base_outputs + dsv.subrange(0, i as int).map_values(
                    |d: SpecDepositInfo| spec_custodian_cell(ctx, blk, d),
                ),
                ..mid
            }),
        decreases custodians.len() - i,
    {
        let cell = clone_cell_output(&custodians[i].0);
        let data = clone_bytes(&custodians[i].1);
        sk.add_output(cell, data);
        i += 1;
        proof {
            assert(sk@ =~= (SpecSkeleton {
                inputs: inputs_done,
                cell_deps: deps_done,
                outputs: base_outputs + dsv.subrange(0, i as int).map_values(
                    |d: SpecDepositInfo| spec_custodian_cell(ctx, blk, d),
                ),
                ..mid
            }));
        }
    }
    proof {
        assert(dsv.subrange(0, dsv.len() as int) =~= dsv);
        assert(sk@ =~= spec_build_skeleton(ctx, rv, dsv, blk, global_state@));
        lemma_dedup_nodup(spec_dep_candidates(rv, dsv));
    }
    Ok(sk)
}

/// Assembly is deterministic: any two skeletons that satisfy the assembly
/// description for the same rollup cell, deposits, block and global state are
/// equal, and so are their unsigned transaction bytes.
pub proof fn lemma_build_deterministic(
    ctx: SpecRollupContext,
    rollup: SpecRollupCellInfo,
    ds: Seq<SpecDepositInfo>,
    block: SpecL2Block,
    state: Seq<u8>,
    sk1: SpecSkeleton,
    sk2: SpecSkeleton,
)
    requires
        sk1 == spec_build_skeleton(ctx, rollup, ds, block, state),
        sk2 == spec_build_skeleton(ctx, rollup, ds, block, state),
    ensures
        sk1 == sk2,
        crate::skeleton::spec_unsigned_bytes(sk1) == crate::skeleton::spec_unsigned_bytes(sk2),
{
}

/// The assembled skeleton holds no duplicate cell dependency: in particular,
/// deposits that share one lock script contribute its dependency once.
pub proof fn lemma_no_duplicate_deps(
    ctx: SpecRollupContext,
    rollup: SpecRollupCellInfo,
    ds: Seq<SpecDepositInfo>,
    block: SpecL2Block,
    state: Seq<u8>,
)
    ensures
        spec_nodup_deps(spec_build_skeleton(ctx, rollup, ds, block, state).cell_deps),
{
    lemma_dedup_nodup(spec_dep_candidates(rollup, ds));
}

} // verus!
