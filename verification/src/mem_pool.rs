//! The mem-pool state machine: the authoritative pending view used to build
//! the next block. Entries are keyed by submission identifier; transaction
//! appends are idempotent, mem-block refreshes reject stale block numbers and
//! leave the pool untouched when storage fails, and tip notification evicts
//! exactly the entries the finalized block included.

use vstd::prelude::*;
use crate::Error;
use crate::codec::{
    decode_block_record, encode_block_record, encode_u64, spec_block_record, spec_block_record_ids,
    spec_block_record_number, spec_block_record_wf, spec_encode_u64,
};
use crate::store::KVStore;
use crate::types::{
    BlockInfo, DepositInfo, L2Transaction, SpecBlockInfo, SpecDepositInfo, SpecL2Transaction,
    SpecWithdrawalRequest, WithdrawalRequest, clone_l2_transaction, clone_withdrawal,
    l2_transaction_eq, spec_tx_wf,
};

verus! {

/// The store column holding the mem-block context records.
pub const COL_MEM_BLOCK: u8 = 0;

/// The store column holding finalized-block records, keyed by block hash.
pub const COL_BLOCKS: u8 = 1;

/// One pending submission: its layer-2 transactions and, when present, its
/// withdrawal requests. The first withdrawal is authoritative for the entry.
pub struct PendingEntry {
    pub txs: Vec<L2Transaction>,
    pub withdrawals: Vec<WithdrawalRequest>,
}

#[verifier::ext_equal]
pub ghost struct SpecPendingEntry {
    pub txs: Seq<SpecL2Transaction>,
    pub withdrawals: Seq<SpecWithdrawalRequest>,
}

impl View for PendingEntry {
    type V = SpecPendingEntry;

    open spec fn view(&self) -> SpecPendingEntry {
        SpecPendingEntry {
            txs: self.txs@.map_values(|t: L2Transaction| t@),
            withdrawals: self.withdrawals@.map_values(|w: WithdrawalRequest| w@),
        }
    }
}

/// The in-progress mem-block context: its header, and the withdrawals and
/// deposits admitted since the last tip.
pub struct MemBlockContext {
    pub block_info: BlockInfo,
    pub withdrawals: Vec<WithdrawalRequest>,
    pub deposits: Vec<DepositInfo>,
}

#[verifier::ext_equal]
pub ghost struct SpecMemBlockContext {
    pub block_info: SpecBlockInfo,
    pub withdrawals: Seq<SpecWithdrawalRequest>,
    pub deposits: Seq<SpecDepositInfo>,
}

impl View for MemBlockContext {
    type V = SpecMemBlockContext;

    open spec fn view(&self) -> SpecMemBlockContext {
        SpecMemBlockContext {
            block_info: self.block_info@,
            withdrawals: self.withdrawals@.map_values(|w: WithdrawalRequest| w@),
            deposits: self.deposits@.map_values(|d: DepositInfo| d@),
        }
    }
}

/// The abstract state of a mem pool: its store contents, the pending entries
/// in their stable order, the mem-block context and the tip.
#[verifier::ext_equal]
pub ghost struct SpecMemPool {
    pub store: Map<(u8, Seq<u8>), Seq<u8>>,
    pub entries: Seq<(u64, SpecPendingEntry)>,
    pub ctx: SpecMemBlockContext,
    pub tip_hash: Seq<u8>,
    pub tip_number: u64,
}

/// The view of a pending-entry vector.
pub open spec fn spec_entries_view(v: Seq<(u64, PendingEntry)>) -> Seq<(u64, SpecPendingEntry)> {
    v.map_values(|p: (u64, PendingEntry)| (p.0, p.1@))
}

/// The position of the entry keyed `id`, or -1 when there is none.
pub open spec fn spec_entry_index(s: Seq<(u64, SpecPendingEntry)>, id: u64) -> int
    decreases s.len(),
{
    if s.len() == 0 {
        -1
    } else if s.first().0 == id {
        0
    } else {
        let r = spec_entry_index(s.drop_first(), id);
        if r == -1 {
            -1
        } else {
            r + 1
        }
    }
}

/// What the entry position means: it is the first position with the key, and
/// -1 means the key is absent.
pub proof fn lemma_entry_index_props(s: Seq<(u64, SpecPendingEntry)>, id: u64)
    ensures
        -1 <= spec_entry_index(s, id) < s.len(),
        spec_entry_index(s, id) >= 0 ==> s[spec_entry_index(s, id)].0 == id && forall|j: int|
            0 <= j < spec_entry_index(s, id) ==> (#[trigger] s[j]).0 != id,
        spec_entry_index(s, id) == -1 ==> forall|j: int| 0 <= j < s.len() ==> (#[trigger] s[j]).0
            != id,
    decreases s.len(),
{
    if s.len() > 0 && s.first().0 != id {
        let t = s.drop_first();
        lemma_entry_index_props(t, id);
        let r = spec_entry_index(t, id);
        if r >= 0 {
            assert(s[r + 1] == t[r]);
            assert forall|j: int| 0 <= j < spec_entry_index(s, id) implies (#[trigger] s[j]).0
                != id by {
                if j > 0 {
                    assert(s[j] == t[j - 1]);
                }
            }
        } else {
            assert forall|j: int| 0 <= j < s.len() implies (#[trigger] s[j]).0 != id by {
                if j > 0 {
                    assert(s[j] == t[j - 1]);
                }
            }
        }
    }
}

/// Any first position with the key is the entry position.
pub proof fn lemma_entry_index_char(s: Seq<(u64, SpecPendingEntry)>, id: u64, j: int)
    requires
        0 <= j < s.len(),
        s[j].0 == id,
        forall|k: int| 0 <= k < j ==> (#[trigger] s[k]).0 != id,
    ensures
        spec_entry_index(s, id) == j,
{
    lemma_entry_index_props(s, id);
    let i = spec_entry_index(s, id);
    if i == -1 {
        assert(s[j].0 != id);
    } else if i < j {
        assert(s[i].0 != id);
    } else if j < i {
        assert(s[j].0 != id);
    }
}

/// Appending a transaction: a new entry is opened for an unknown identifier,
/// a redelivered transaction changes nothing, and otherwise the transaction
/// joins its entry's list.
pub open spec fn spec_append_tx(
    s: Seq<(u64, SpecPendingEntry)>,
    t: SpecL2Transaction,
) -> Seq<(u64, SpecPendingEntry)> {
    let i = spec_entry_index(s, t.account_id);
    if i == -1 {
        s.push((t.account_id, SpecPendingEntry { txs: seq![t], withdrawals: Seq::empty() }))
    } else if s[i].1.txs.contains(t) {
        s
    } else {
        s.update(i, (s[i].0, SpecPendingEntry { txs: s[i].1.txs.push(t), withdrawals: s[i].1.withdrawals }))
    }
}

/// Appending the same transaction twice pends it exactly once.
pub proof fn lemma_append_tx_idempotent(s: Seq<(u64, SpecPendingEntry)>, t: SpecL2Transaction)
    ensures
        spec_append_tx(spec_append_tx(s, t), t) == spec_append_tx(s, t),
{
    let id = t.account_id;
    lemma_entry_index_props(s, id);
    let i = spec_entry_index(s, id);
    let s1 = spec_append_tx(s, t);
    if i == -1 {
        lemma_entry_index_char(s1, id, s.len() as int);
        assert(s1[s.len() as int].1.txs.contains(t)) by {
            assert(s1[s.len() as int].1.txs[0] == t);
        }
    } else if s[i].1.txs.contains(t) {
    } else {
        lemma_entry_index_char(s1, id, i);
        assert(s1[i].1.txs.contains(t)) by {
            assert(s1[i].1.txs.last() == t);
        }
    }
}

/// Admitting a withdrawal: it joins its account's entry, or opens a new
/// withdrawal-carrying entry.
pub open spec fn spec_append_withdrawal(
    s: Seq<(u64, SpecPendingEntry)>,
    w: SpecWithdrawalRequest,
) -> Seq<(u64, SpecPendingEntry)> {
    let i = spec_entry_index(s, w.account_id);
    if i == -1 {
        s.push((w.account_id, SpecPendingEntry { txs: Seq::empty(), withdrawals: seq![w] }))
    } else {
        s.update(
            i,
            (s[i].0, SpecPendingEntry { txs: s[i].1.txs, withdrawals: s[i].1.withdrawals.push(w) }),
        )
    }
}

/// Eviction: the entries whose identifier is not among `ids`, in order.
pub open spec fn spec_evict(s: Seq<(u64, SpecPendingEntry)>, ids: Seq<u64>) -> Seq<
    (u64, SpecPendingEntry),
>
    decreases s.len(),
{
    if s.len() == 0 {
        Seq::empty()
    } else {
        let r = spec_evict(s.drop_last(), ids);
        if ids.contains(s.last().0) {
            r
        } else {
            r.push(s.last())
        }
    }
}

/// Eviction removes exactly the included entries: every survivor is an
/// original entry that was not included, and every entry not included
/// survives.
pub proof fn lemma_tip_eviction(s: Seq<(u64, SpecPendingEntry)>, ids: Seq<u64>)
    ensures
        forall|k: int| 0 <= k < spec_evict(s, ids).len() ==> !ids.contains(
            (#[trigger] spec_evict(s, ids)[k]).0,
        ) && s.contains(spec_evict(s, ids)[k]),
        forall|j: int| 0 <= j < s.len() && !ids.contains((#[trigger] s[j]).0) ==> spec_evict(
            s,
            ids,
        ).contains(s[j]),
    decreases s.len(),
{
    if s.len() > 0 {
        let t = s.drop_last();
        lemma_tip_eviction(t, ids);
        let r = spec_evict(t, ids);
        assert forall|k: int| 0 <= k < r.len() implies s.contains(r[k]) by {
            let m = choose|m: int| 0 <= m < t.len() && t[m] == r[k];
            assert(s[m] == r[k]);
        }
        if !ids.contains(s.last().0) {
            assert(spec_evict(s, ids)[r.len() as int] == s.last());
        }
        assert forall|j: int|
            0 <= j < s.len() && !ids.contains((#[trigger] s[j]).0) implies spec_evict(
            s,
            ids,
        ).contains(s[j]) by {
            if j < s.len() - 1 {
                assert(t[j] == s[j]);
                let m = choose|m: int| 0 <= m < r.len() && r[m] == s[j];
                if ids.contains(s.last().0) {
                    assert(spec_evict(s, ids)[m] == s[j]);
                } else {
                    assert(spec_evict(s, ids)[m] == s[j]);
                }
            } else {
                assert(spec_evict(s, ids)[r.len() as int] == s.last());
            }
        }
    }
}

/// The serialized mem-block context header persisted on refresh.
pub open spec fn spec_block_info_bytes(b: SpecBlockInfo) -> Seq<u8> {
    spec_encode_u64(b.number) + spec_encode_u64(b.timestamp) + spec_encode_u64(
        b.block_producer_id as u64,
    )
}

/// Serializes a mem-block header.
pub fn encode_block_info(b: &BlockInfo) -> (r: Vec<u8>)
    ensures
        r@ == spec_block_info_bytes(b@),
{
    let mut r = encode_u64(b.number);
    let t = encode_u64(b.timestamp);
    let p = encode_u64(b.block_producer_id as u64);
    crate::bytes::append_bytes(&mut r, &t);
    crate::bytes::append_bytes(&mut r, &p);
    proof {
        assert(r@ =~= spec_block_info_bytes(b@));
    }
    r
}

/// True exactly when `v` holds `x`.
pub fn u64_vec_contains(v: &Vec<u64>, x: u64) -> (r: bool)
    ensures
        r == v@.contains(x),
{
    let mut i: usize = 0;
    while i < v.len()
        invariant
            i <= v.len(),
            forall|j: int| 0 <= j < i ==> v@[j] != x,
        decreases v.len() - i,
    {
        if v[i] == x {
            return true;
        }
        i += 1;
    }
    proof {
        assert(!v@.contains(x));
    }
    false
}

/// A fresh pending entry with the same view.
pub fn clone_pending_entry(e: &PendingEntry) -> (r: PendingEntry)
    ensures
        r@ == e@,
{
    let mut txs: Vec<L2Transaction> = Vec::new();
    let mut i: usize = 0;
    while i < e.txs.len()
        invariant
            i <= e.txs.len(),
            txs@.len() == i,
            forall|j: int| 0 <= j < i ==> #[trigger] txs@[j]@ == e.txs@[j]@,
        decreases e.txs.len() - i,
    {
        txs.push(clone_l2_transaction(&e.txs[i]));
        i += 1;
    }
    let mut withdrawals: Vec<WithdrawalRequest> = Vec::new();
    let mut i: usize = 0;
    while i < e.withdrawals.len()
        invariant
            i <= e.withdrawals.len(),
            withdrawals@.len() == i,
            forall|j: int| 0 <= j < i ==> #[trigger] withdrawals@[j]@ == e.withdrawals@[j]@,
        decreases e.withdrawals.len() - i,
    {
        withdrawals.push(clone_withdrawal(&e.withdrawals[i]));
        i += 1;
    }
    let r = PendingEntry { txs, withdrawals };
    proof {
        assert(r@.txs =~= e@.txs);
        assert(r@.withdrawals =~= e@.withdrawals);
        assert(r@ =~= e@);
    }
    r
}

/// The position of the entry keyed `id` in a pending-entry vector.
fn find_entry(entries: &Vec<(u64, PendingEntry)>, id: u64) -> (r: Option<usize>)
    ensures
        match r {
            Some(i) => i < entries@.len() && entries@[i as int].0 == id && forall|k: int|
                0 <= k < i ==> (#[trigger] entries@[k]).0 != id,
            None => forall|k: int| 0 <= k < entries@.len() ==> (#[trigger] entries@[k]).0 != id,
        },
{
    let mut i: usize = 0;
    while i < entries.len()
        invariant
            i <= entries.len(),
            forall|k: int| 0 <= k < i ==> (#[trigger] entries@[k]).0 != id,
        decreases entries.len() - i,
    {
        if entries[i].0 == id {
            return Some(i);
        }
        i += 1;
    }
    None
}

/// True exactly when the list holds this transaction.
fn tx_in_list(txs: &Vec<L2Transaction>, tx: &L2Transaction) -> (r: bool)
    ensures
        r == txs@.map_values(|x: L2Transaction| x@).contains(tx@),
{
    let ghost tv = txs@.map_values(|x: L2Transaction| x@);
    let mut i: usize = 0;
    while i < txs.len()
        invariant
            i <= txs.len(),
            tv == txs@.map_values(|x: L2Transaction| x@),
            forall|j: int| 0 <= j < i ==> tv[j] != tx@,
        decreases txs.len() - i,
    {
        if l2_transaction_eq(&txs[i], tx) {
            proof {
                assert(tv[i as int] == tx@);
            }
            return true;
        }
        i += 1;
    }
    proof {
        assert(!tv.contains(tx@));
    }
    false
}

/// The mem pool: pending entries, the mem-block context, the tip, and the
/// backing store.
pub struct MemPool<S: KVStore> {
    store: S,
    entries: Vec<(u64, PendingEntry)>,
    ctx: MemBlockContext,
    tip_hash: Vec<u8>,
    tip_number: u64,
}

impl<S: KVStore> View for MemPool<S> {
    type V = SpecMemPool;

    closed spec fn view(&self) -> SpecMemPool {
        SpecMemPool {
            store: self.store.sview(),
            entries: spec_entries_view(self.entries@),
            ctx: self.ctx@,
            tip_hash: self.tip_hash@,
            tip_number: self.tip_number,
        }
    }
}

impl<S: KVStore> MemPool<S> {
    /// An empty pool over `store`, anchored at the given tip.
    pub fn create(store: S, tip_hash: Vec<u8>, tip_number: u64) -> (r: MemPool<S>)
        ensures
            r@.store == store.sview(),
            r@.entries.len() == 0,
            r@.ctx.block_info == (SpecBlockInfo {
                number: tip_number,
                timestamp: 0,
                block_producer_id: 0,
            }),
            r@.ctx.withdrawals.len() == 0,
            r@.ctx.deposits.len() == 0,
            r@.tip_hash == tip_hash@,
            r@.tip_number == tip_number,
    {
        let r = MemPool {
            store,
            entries: Vec::new(),
            ctx: MemBlockContext {
                block_info: BlockInfo { number: tip_number, timestamp: 0, block_producer_id: 0 },
                withdrawals: Vec::new(),
                deposits: Vec::new(),
            },
            tip_hash,
            tip_number,
        };
        proof {
            assert(r@.entries =~= Seq::<(u64, SpecPendingEntry)>::empty());
            assert(r@.ctx.withdrawals =~= Seq::<SpecWithdrawalRequest>::empty());
            assert(r@.ctx.deposits =~= Seq::<SpecDepositInfo>::empty());
        }
        r
    }

    /// The consistent point-in-time view of the pending entries.
    pub fn pending(&self) -> (r: &Vec<(u64, PendingEntry)>)
        ensures
            spec_entries_view(r@) == self@.entries,
    {
        &self.entries
    }

    /// The number of the mem block in progress.
    pub fn mem_block_number(&self) -> (r: u64)
        ensures
            r == self@.ctx.block_info.number,
    {
        self.ctx.block_info.number
    }

    /// The number of the last finalized block this pool is anchored at.
    pub fn tip_number(&self) -> (r: u64)
        ensures
            r == self@.tip_number,
    {
        self.tip_number
    }

    /// Inserts or merges a transaction. A malformed transaction is rejected
    /// with `InvalidTransaction` and changes nothing; a redelivered
    /// transaction is absorbed without duplicating anything.
    /// `mem_block_number` names the mem block the transaction was admitted
    /// into upstream; it does not affect admission.
    pub fn append_tx(&mut self, tx: L2Transaction, mem_block_number: u64) -> (r: Result<
        (),
        Error,
    >)
        ensures
            match r {
                Ok(()) => spec_tx_wf(tx@) && final(self)@ == (SpecMemPool {
                    entries: spec_append_tx(old(self)@.entries, tx@),
                    ..old(self)@
                }),
                Err(e) => e == Error::InvalidTransaction && !spec_tx_wf(tx@) && final(self)@
                    == old(self)@,
            },
    {
        if tx.signature.len() != 65 {
            return Err(Error::InvalidTransaction);
        }
        let ghost s = self@.entries;
        match find_entry(&self.entries, tx.account_id) {
            Some(i) => {
                proof {
                    lemma_entry_index_char(s, tx.account_id, i as int);
                }
                if tx_in_list(&self.entries[i].1.txs, &tx) {
                    proof {
                        assert(spec_append_tx(s, tx@) == s);
                        assert(self@ =~= (SpecMemPool { entries: spec_append_tx(s, tx@), ..self@ }));
                    }
                    Ok(())
                } else {
                    let id = self.entries[i].0;
                    let mut new_entry = clone_pending_entry(&self.entries[i].1);
                    new_entry.txs.push(tx);
                    let ghost s0 = self.entries@;
                    let pair = (id, new_entry);
                    let ghost gp = pair;
                    self.entries.remove(i);
                    self.entries.insert(i, pair);
                    proof {
                        s0.remove_ensures(i as int);
                        s0.remove(i as int).insert_ensures(i as int, gp);
                        assert(self.entries@ =~= s0.update(i as int, gp));
                        assert(gp.1@.txs =~= s[i as int].1.txs.push(tx@));
                        assert(gp.1@ =~= (SpecPendingEntry {
                            txs: s[i as int].1.txs.push(tx@),
                            withdrawals: s[i as int].1.withdrawals,
                        }));
                        assert(spec_entries_view(self.entries@) =~= spec_append_tx(s, tx@));
                        assert(self@ =~= (SpecMemPool {
                            entries: spec_append_tx(s, tx@),
                            ..old(self)@
                        }));
                    }
                    Ok(())
                }
            },
            None => {
                proof {
                    lemma_entry_index_props(s, tx.account_id);
                    if spec_entry_index(s, tx.account_id) >= 0 {
                        assert(s[spec_entry_index(s, tx.account_id)].0 == tx.account_id);
                    }
                }
                let mut txs: Vec<L2Transaction> = Vec::new();
                let id = tx.account_id;
                txs.push(tx);
                let entry = PendingEntry { txs, withdrawals: Vec::new() };
                self.entries.push((id, entry));
                proof {
                    assert(self.entries@.last().1@.txs =~= seq![tx@]);
                    assert(self.entries@.last().1@ =~= (SpecPendingEntry {
                        txs: seq![tx@],
                        withdrawals: Seq::empty(),
                    }));
                    assert(spec_entries_view(self.entries@) =~= spec_append_tx(s, tx@));
                    assert(self@ =~= (SpecMemPool {
                        entries: spec_append_tx(s, tx@),
                        ..old(self)@
                    }));
                }
                Ok(())
            },
        }
    }

    /// Admits a withdrawal request: it joins the entry keyed by its account,
    /// or opens a new withdrawal-carrying entry. The first withdrawal of an
    /// entry stays authoritative for block building.
    pub fn append_withdrawal(&mut self, withdrawal: WithdrawalRequest) -> (r: Result<(), Error>)
        ensures
            r is Ok,
            final(self)@ == (SpecMemPool {
                entries: spec_append_withdrawal(old(self)@.entries, withdrawal@),
                ..old(self)@
            }),
    {
        let ghost s = self@.entries;
        match find_entry(&self.entries, withdrawal.account_id) {
            Some(i) => {
                proof {
                    lemma_entry_index_char(s, withdrawal.account_id, i as int);
                }
                let id = self.entries[i].0;
                let mut new_entry = clone_pending_entry(&self.entries[i].1);
                new_entry.withdrawals.push(withdrawal);
                let ghost s0 = self.entries@;
                let pair = (id, new_entry);
                let ghost gp = pair;
                self.entries.remove(i);
                self.entries.insert(i, pair);
                proof {
                    s0.remove_ensures(i as int);
                    s0.remove(i as int).insert_ensures(i as int, gp);
                    assert(self.entries@ =~= s0.update(i as int, gp));
                    assert(gp.1@.withdrawals =~= s[i as int].1.withdrawals.push(withdrawal@));
                    assert(gp.1@ =~= (SpecPendingEntry {
                        txs: s[i as int].1.txs,
                        withdrawals: s[i as int].1.withdrawals.push(withdrawal@),
                    }));
                    assert(spec_entries_view(self.entries@) =~= spec_append_withdrawal(
                        s,
                        withdrawal@,
                    ));
                    assert(self@ =~= (SpecMemPool {
                        entries: spec_append_withdrawal(s, withdrawal@),
                        ..old(self)@
                    }));
                }
                Ok(())
            },
            None => {
                proof {
                    lemma_entry_index_props(s, withdrawal.account_id);
                    if spec_entry_index(s, withdrawal.account_id) >= 0 {
                        assert(s[spec_entry_index(s, withdrawal.account_id)].0
                            == withdrawal.account_id);
                    }
                }
                let id = withdrawal.account_id;
                let mut withdrawals: Vec<WithdrawalRequest> = Vec::new();
                withdrawals.push(withdrawal);
                let entry = PendingEntry { txs: Vec::new(), withdrawals };
                self.entries.push((id, entry));
                proof {
                    assert(self.entries@.last().1@.withdrawals =~= seq![withdrawal@]);
                    assert(self.entries@.last().1@ =~= (SpecPendingEntry {
                        txs: Seq::empty(),
                        withdrawals: seq![withdrawal@],
                    }));
                    assert(spec_entries_view(self.entries@) =~= spec_append_withdrawal(
                        s,
                        withdrawal@,
                    ));
                    assert(self@ =~= (SpecMemPool {
                        entries: spec_append_withdrawal(s, withdrawal@),
                        ..old(self)@
                    }));
                }
                Ok(())
            },
        }
    }

    /// Replaces the mem-block context with an authoritative snapshot. A block
    /// number not strictly greater than the current one is a stale duplicate
    /// and a no-op; a storage failure surfaces and leaves the pool exactly as
    /// it was; otherwise the context is replaced, the record is persisted,
    /// and the previous tip number is reported.
    pub fn refresh_mem_block(
        &mut self,
        block_info: BlockInfo,
        withdrawals: Vec<WithdrawalRequest>,
        deposits: Vec<DepositInfo>,
    ) -> (r: Result<Option<u64>, Error>)
        ensures
            match r {
                Ok(prev) => match prev {
                    None => block_info@.number <= old(self)@.ctx.block_info.number && final(self)@
                        == old(self)@,
                    Some(p) => block_info@.number > old(self)@.ctx.block_info.number
                        && p == old(self)@.tip_number && final(self)@ == (SpecMemPool {
                        store: old(self)@.store.insert(
                            (COL_MEM_BLOCK, spec_encode_u64(block_info@.number)),
                            spec_block_info_bytes(block_info@),
                        ),
                        ctx: SpecMemBlockContext {
                            block_info: block_info@,
                            withdrawals: withdrawals@.map_values(|w: WithdrawalRequest| w@),
                            deposits: deposits@.map_values(|d: DepositInfo| d@),
                        },
                        ..old(self)@
                    }),
                },
                Err(e) => e == Error::StorageFailure && block_info@.number
                    > old(self)@.ctx.block_info.number && final(self)@ == old(self)@,
            },
    {
        if block_info.number <= self.ctx.block_info.number {
            return Ok(None);
        }
        let key = encode_u64(block_info.number);
        let value = encode_block_info(&block_info);
        match self.store.insert_raw(COL_MEM_BLOCK, key.as_slice(), value.as_slice()) {
            Ok(()) => {
                let prev = self.tip_number;
                self.ctx = MemBlockContext { block_info, withdrawals, deposits };
                proof {
                    assert(self@ =~= (SpecMemPool {
                        store: old(self)@.store.insert(
                            (COL_MEM_BLOCK, spec_encode_u64(block_info@.number)),
                            spec_block_info_bytes(block_info@),
                        ),
                        ctx: SpecMemBlockContext {
                            block_info: block_info@,
                            withdrawals: withdrawals@.map_values(|w: WithdrawalRequest| w@),
                            deposits: deposits@.map_values(|d: DepositInfo| d@),
                        },
                        ..old(self)@
                    }));
                }
                Ok(Some(prev))
            },
            Err(e) => {
                proof {
                    assert(self@ =~= old(self)@);
                }
                Err(e)
            },
        }
    }

    /// Persists the record of a finalized block: its number and the pending
    /// entries it included. Tip notification reads this record back.
    pub fn record_block(&mut self, block_hash: &Vec<u8>, block_number: u64, included: &Vec<u64>) -> (r:
        Result<(), Error>)
        ensures
            match r {
                Ok(()) => final(self)@ == (SpecMemPool {
                    store: old(self)@.store.insert(
                        (COL_BLOCKS, block_hash@),
                        spec_block_record(block_number, included@),
                    ),
                    ..old(self)@
                }),
                Err(e) => e == Error::StorageFailure && final(self)@ == old(self)@,
            },
    {
        let record = encode_block_record(block_number, included);
        match self.store.insert_raw(COL_BLOCKS, block_hash.as_slice(), record.as_slice()) {
            Ok(()) => {
                proof {
                    assert(self@ =~= (SpecMemPool {
                        store: old(self)@.store.insert(
                            (COL_BLOCKS, block_hash@),
                            spec_block_record(block_number, included@),
                        ),
                        ..old(self)@
                    }));
                }
                Ok(())
            },
            Err(e) => {
                proof {
                    assert(self@ =~= old(self)@);
                }
                Err(e)
            },
        }
    }

    /// Advances the tip to a finalized block: evicts every entry that block
    /// included, leaves every other entry pending, and opens a fresh
    /// mem-block window at the block's number. Fails with `NotFound` when no
    /// record of the block exists and with `StorageFailure` when the record
    /// is malformed; either failure leaves the pool exactly as it was.
    pub fn notify_new_tip(&mut self, block_hash: Vec<u8>) -> (r: Result<(), Error>)
        ensures
            match r {
                Ok(()) => old(self)@.store.contains_key((COL_BLOCKS, block_hash@))
                    && spec_block_record_wf(old(self)@.store[(COL_BLOCKS, block_hash@)])
                    && final(self)@ == (SpecMemPool {
                    entries: spec_evict(
                        old(self)@.entries,
                        spec_block_record_ids(old(self)@.store[(COL_BLOCKS, block_hash@)]),
                    ),
                    ctx: SpecMemBlockContext {
                        block_info: SpecBlockInfo {
                            number: spec_block_record_number(
                                old(self)@.store[(COL_BLOCKS, block_hash@)],
                            ),
                            timestamp: old(self)@.ctx.block_info.timestamp,
                            block_producer_id: old(self)@.ctx.block_info.block_producer_id,
                        },
                        withdrawals: Seq::empty(),
                        deposits: Seq::empty(),
                    },
                    tip_hash: block_hash@,
                    tip_number: spec_block_record_number(
                        old(self)@.store[(COL_BLOCKS, block_hash@)],
                    ),
                    ..old(self)@
                }),
                Err(e) => final(self)@ == old(self)@ && (if e == Error::NotFound {
                    !old(self)@.store.contains_key((COL_BLOCKS, block_hash@))
                } else {
                    e == Error::StorageFailure && old(self)@.store.contains_key(
                        (COL_BLOCKS, block_hash@),
                    ) && !spec_block_record_wf(old(self)@.store[(COL_BLOCKS, block_hash@)])
                }),
            },
    {
        let record = match self.store.get(COL_BLOCKS, block_hash.as_slice()) {
            Some(v) => v,
            None => {
                return Err(Error::NotFound);
            },
        };
        let (number, ids) = match decode_block_record(&record) {
            Some(t) => t,
            None => {
                return Err(Error::StorageFailure);
            },
        };
        let ghost s = self@.entries;
        let mut kept: Vec<(u64, PendingEntry)> = Vec::new();
        let mut i: usize = 0;
        while i < self.entries.len()
            invariant
                i <= self.entries@.len(),
                s == spec_entries_view(self.entries@),
                spec_entries_view(kept@) == spec_evict(s.subrange(0, i as int), ids@),
            decreases self.entries@.len() - i,
        {
            let id = self.entries[i].0;
            if !u64_vec_contains(&ids, id) {
                kept.push((id, clone_pending_entry(&self.entries[i].1)));
            }
            i += 1;
            proof {
                let p = s.subrange(0, i as int);
                assert(p.drop_last() =~= s.subrange(0, i - 1));
                assert(spec_entries_view(kept@) =~= spec_evict(p, ids@));
            }
        }
        proof {
            assert(s.subrange(0, s.len() as int) =~= s);
        }
        self.entries = kept;
        self.tip_hash = block_hash;
        self.tip_number = number;
        self.ctx = MemBlockContext {
            block_info: BlockInfo {
                number,
                timestamp: self.ctx.block_info.timestamp,
                block_producer_id: self.ctx.block_info.block_producer_id,
            },
            withdrawals: Vec::new(),
            deposits: Vec::new(),
        };
        proof {
            assert(self@.ctx.withdrawals =~= Seq::<SpecWithdrawalRequest>::empty());
            assert(self@.ctx.deposits =~= Seq::<SpecDepositInfo>::empty());
            assert(self@ =~= (SpecMemPool {
                entries: spec_evict(
                    old(self)@.entries,
                    spec_block_record_ids(old(self)@.store[(COL_BLOCKS, block_hash@)]),
                ),
                ctx: SpecMemBlockContext {
                    block_info: SpecBlockInfo {
                        number: spec_block_record_number(
                            old(self)@.store[(COL_BLOCKS, block_hash@)],
                        ),
                        timestamp: old(self)@.ctx.block_info.timestamp,
                        block_producer_id: old(self)@.ctx.block_info.block_producer_id,
                    },
                    withdrawals: Seq::empty(),
                    deposits: Seq::empty(),
                },
                tip_hash: block_hash@,
                tip_number: spec_block_record_number(old(self)@.store[(COL_BLOCKS, block_hash@)]),
                ..old(self)@
            }));
        }
        Ok(())
    }
}

} // verus!
