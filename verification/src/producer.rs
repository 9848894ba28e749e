//! The block producer's pure decisions: partitioning the pending snapshot
//! into the transactions and withdrawal requests handed to the execution
//! engine, and listing the entries a snapshot stages. The surrounding cycle
//! (cell collection, execution, signing, submission) is outside work driven
//! by the embedding process through these functions, `build_unsigned_tx`,
//! `seal` and the pool's tip notification.

use vstd::prelude::*;
use crate::mem_pool::{MemPool, SpecPendingEntry};
use crate::store::KVStore;
use crate::types::{
    L2Transaction, SpecL2Transaction, SpecWithdrawalRequest, WithdrawalRequest,
    clone_l2_transaction, clone_withdrawal,
};

verus! {

/// The transactions a snapshot hands to the execution engine: the
/// concatenated transaction lists of the entries that carry no withdrawal,
/// in entry order.
pub open spec fn spec_snapshot_txs(s: Seq<(u64, SpecPendingEntry)>) -> Seq<SpecL2Transaction>
    decreases s.len(),
{
    if s.len() == 0 {
        Seq::empty()
    } else {
        let r = spec_snapshot_txs(s.drop_last());
        if s.last().1.withdrawals.len() > 0 {
            r
        } else {
            r + s.last().1.txs
        }
    }
}

/// The withdrawal requests a snapshot hands to the execution engine: the
/// first withdrawal of each withdrawal-carrying entry, in entry order.
pub open spec fn spec_snapshot_withdrawals(s: Seq<(u64, SpecPendingEntry)>) -> Seq<
    SpecWithdrawalRequest,
>
    decreases s.len(),
{
    if s.len() == 0 {
        Seq::empty()
    } else {
        let r = spec_snapshot_withdrawals(s.drop_last());
        if s.last().1.withdrawals.len() > 0 {
            r.push(s.last().1.withdrawals[0])
        } else {
            r
        }
    }
}

/// Partitions the pool's pending entries for the next production cycle: an
/// entry's first withdrawal is authoritative when one is present, otherwise
/// its transactions are taken.
pub fn snapshot_pending<S: KVStore>(pool: &MemPool<S>) -> (r: (
    Vec<L2Transaction>,
    Vec<WithdrawalRequest>,
))
    ensures
        r.0@.map_values(|t: L2Transaction| t@) == spec_snapshot_txs(pool@.entries),
        r.1@.map_values(|w: WithdrawalRequest| w@) == spec_snapshot_withdrawals(pool@.entries),
{
    let entries = pool.pending();
    let ghost s = pool@.entries;
    let mut txs: Vec<L2Transaction> = Vec::new();
    let mut withdrawals: Vec<WithdrawalRequest> = Vec::new();
    let mut i: usize = 0;
    while i < entries.len()
        invariant
            i <= entries@.len(),
            s == crate::mem_pool::spec_entries_view(entries@),
            txs@.map_values(|t: L2Transaction| t@) == spec_snapshot_txs(s.subrange(0, i as int)),
            withdrawals@.map_values(|w: WithdrawalRequest| w@) == spec_snapshot_withdrawals(
                s.subrange(0, i as int),
            ),
        decreases entries@.len() - i,
    {
        let entry = &entries[i].1;
        let ghost ev = entry@;
        proof {
            assert(ev == s[i as int].1);
        }
        if entry.withdrawals.len() > 0 {
            withdrawals.push(clone_withdrawal(&entry.withdrawals[0]));
        } else {
            let mut j: usize = 0;
            while j < entry.txs.len()
                invariant
                    j <= entry.txs@.len(),
                    ev == entry@,
                    i < entries@.len(),
                    s == crate::mem_pool::spec_entries_view(entries@),
                    ev == s[i as int].1,
                    txs@.map_values(|t: L2Transaction| t@) == spec_snapshot_txs(
                        s.subrange(0, i as int),
                    ) + ev.txs.subrange(0, j as int),
                decreases entry.txs@.len() - j,
            {
                let c = clone_l2_transaction(&entry.txs[j]);
                let ghost cv = c@;
                let ghost t0 = txs@;
                txs.push(c);
                j += 1;
                proof {
                    let f = |t: L2Transaction| t@;
                    assert(cv == ev.txs[j - 1]);
                    assert(txs@.map_values(f) =~= t0.map_values(f).push(cv));
                    assert((spec_snapshot_txs(s.subrange(0, i as int)) + ev.txs.subrange(
                        0,
                        j - 1,
                    )).push(cv) =~= spec_snapshot_txs(s.subrange(0, i as int)) + ev.txs.subrange(
                        0,
                        j as int,
                    ));
                    assert(txs@.map_values(f) =~= spec_snapshot_txs(s.subrange(0, i as int))
                        + ev.txs.subrange(0, j as int));
                }
            }
            proof {
                assert(ev.txs.subrange(0, ev.txs.len() as int) =~= ev.txs);
            }
        }
        i += 1;
        proof {
            let p = s.subrange(0, i as int);
            assert(p.drop_last() =~= s.subrange(0, i - 1));
            assert(p.last() == s[i - 1]);
            assert(s[i - 1].1 == entries@[i - 1].1@);
            assert(txs@.map_values(|t: L2Transaction| t@) =~= spec_snapshot_txs(p));
            assert(withdrawals@.map_values(|w: WithdrawalRequest| w@)
                =~= spec_snapshot_withdrawals(p));
        }
    }
    proof {
        assert(s.subrange(0, s.len() as int) =~= s);
    }
    (txs, withdrawals)
}

/// The identifiers of the entries a snapshot stages, in entry order.
pub fn snapshot_entry_ids<S: KVStore>(pool: &MemPool<S>) -> (r: Vec<u64>)
    ensures
        r@ == pool@.entries.map_values(|p: (u64, SpecPendingEntry)| p.0),
{
    let entries = pool.pending();
    let ghost s = pool@.entries;
    let mut r: Vec<u64> = Vec::new();
    let mut i: usize = 0;
    while i < entries.len()
        invariant
            i <= entries@.len(),
            s == crate::mem_pool::spec_entries_view(entries@),
            r@ == s.subrange(0, i as int).map_values(|p: (u64, SpecPendingEntry)| p.0),
        decreases entries@.len() - i,
    {
        r.push(entries[i].0);
        i += 1;
        proof {
            assert(r@ =~= s.subrange(0, i as int).map_values(|p: (u64, SpecPendingEntry)| p.0));
        }
    }
    proof {
        assert(s.subrange(0, s.len() as int) =~= s);
        assert(r@ =~= s.map_values(|p: (u64, SpecPendingEntry)| p.0));
    }
    r
}

} // verus!
