//! The transaction-skeleton accumulator: ordered inputs, outputs, witnesses
//! and a deduplicated set of cell dependencies, with deterministic
//! signing-message derivation and a single validating seal step.

use vstd::prelude::*;
use crate::Error;
use crate::bytes::clone_bytes;
use crate::codec::{append_len_prefixed, append_u64, spec_encode_bytes, spec_encode_u64};
use crate::types::{
    CellDep, CellOutput, OutPoint, Script, SpecCellDep, SpecCellOutput, SpecOutPoint, SpecScript,
    SpecWitnessArgs, WitnessArgs, cell_dep_eq, clone_cell_dep, clone_cell_output, clone_out_point,
    clone_witness, spec_empty_witness,
};

verus! {

/// An input being accumulated: the out-point it spends, and the lock hash
/// that must sign for it, when one must.
pub struct InputCell {
    pub out_point: OutPoint,
    pub lock_hash: Option<Vec<u8>>,
}

#[verifier::ext_equal]
pub ghost struct SpecInputCell {
    pub out_point: SpecOutPoint,
    pub lock_hash: Option<Seq<u8>>,
}

impl View for InputCell {
    type V = SpecInputCell;

    open spec fn view(&self) -> SpecInputCell {
        SpecInputCell {
            out_point: self.out_point@,
            lock_hash: crate::types::spec_opt_bytes(self.lock_hash),
        }
    }
}

/// An output cell paired with its data payload.
#[verifier::ext_equal]
pub ghost struct SpecOutput {
    pub cell: SpecCellOutput,
    pub data: Seq<u8>,
}

/// The abstract state of a skeleton under construction.
#[verifier::ext_equal]
pub ghost struct SpecSkeleton {
    pub inputs: Seq<SpecInputCell>,
    pub outputs: Seq<SpecOutput>,
    pub cell_deps: Seq<SpecCellDep>,
    pub witnesses: Seq<SpecWitnessArgs>,
}

/// The sealed, immutable transaction.
pub struct Transaction {
    pub inputs: Vec<OutPoint>,
    pub outputs: Vec<(CellOutput, Vec<u8>)>,
    pub cell_deps: Vec<CellDep>,
    pub witnesses: Vec<WitnessArgs>,
}

#[verifier::ext_equal]
pub ghost struct SpecTransaction {
    pub inputs: Seq<SpecOutPoint>,
    pub outputs: Seq<SpecOutput>,
    pub cell_deps: Seq<SpecCellDep>,
    pub witnesses: Seq<SpecWitnessArgs>,
}

impl View for Transaction {
    type V = SpecTransaction;

    open spec fn view(&self) -> SpecTransaction {
        SpecTransaction {
            inputs: self.inputs@.map_values(|o: OutPoint| o@),
            outputs: self.outputs@.map_values(
                |p: (CellOutput, Vec<u8>)| SpecOutput { cell: p.0@, data: p.1@ },
            ),
            cell_deps: self.cell_deps@.map_values(|d: CellDep| d@),
            witnesses: self.witnesses@.map_values(|w: WitnessArgs| w@),
        }
    }
}

/// No dependency occurs twice.
pub open spec fn spec_nodup_deps(deps: Seq<SpecCellDep>) -> bool {
    forall|i: int, j: int| 0 <= i < j < deps.len() ==> deps[i] != deps[j]
}

/// The mutable accumulator of base-chain transaction parts.
pub struct TransactionSkeleton {
    inputs: Vec<InputCell>,
    outputs: Vec<(CellOutput, Vec<u8>)>,
    cell_deps: Vec<CellDep>,
    witnesses: Vec<WitnessArgs>,
}

impl View for TransactionSkeleton {
    type V = SpecSkeleton;

    closed spec fn view(&self) -> SpecSkeleton {
        SpecSkeleton {
            inputs: self.inputs@.map_values(|ic: InputCell| ic@),
            outputs: self.outputs@.map_values(
                |p: (CellOutput, Vec<u8>)| SpecOutput { cell: p.0@, data: p.1@ },
            ),
            cell_deps: self.cell_deps@.map_values(|d: CellDep| d@),
            witnesses: self.witnesses@.map_values(|w: WitnessArgs| w@),
        }
    }
}

/// True exactly when `deps` already holds `d`.
fn contains_dep(deps: &Vec<CellDep>, d: &CellDep) -> (r: bool)
    ensures
        r == deps@.map_values(|x: CellDep| x@).contains(d@),
{
    let ghost dv = deps@.map_values(|x: CellDep| x@);
    let mut i: usize = 0;
    while i < deps.len()
        invariant
            i <= deps.len(),
            dv == deps@.map_values(|x: CellDep| x@),
            forall|j: int| 0 <= j < i ==> dv[j] != d@,
        decreases deps.len() - i,
    {
        if cell_dep_eq(&deps[i], d) {
            proof {
                assert(dv[i as int] == d@);
            }
            return true;
        }
        i += 1;
    }
    proof {
        assert(!dv.contains(d@));
    }
    false
}

impl Default for TransactionSkeleton {
    /// An empty skeleton.
    fn default() -> (r: TransactionSkeleton)
        ensures
            r@.inputs.len() == 0,
            r@.outputs.len() == 0,
            r@.cell_deps.len() == 0,
            r@.witnesses.len() == 0,
    {
        let r = TransactionSkeleton {
            inputs: Vec::new(),
            outputs: Vec::new(),
            cell_deps: Vec::new(),
            witnesses: Vec::new(),
        };
        proof {
            assert(r@.inputs =~= Seq::<SpecInputCell>::empty());
        }
        r
    }
}

impl TransactionSkeleton {
    /// The skeleton holds no duplicate cell dependency.
    pub open spec fn wf(&self) -> bool {
        spec_nodup_deps(self@.cell_deps)
    }

    /// Appends an input; every other part is untouched.
    pub fn add_input(&mut self, input: InputCell)
        ensures
            final(self)@ == (SpecSkeleton {
                inputs: old(self)@.inputs.push(input@),
                ..old(self)@
            }),
            final(self).wf() == old(self).wf(),
    {
        let ghost pre = self@;
        self.inputs.push(input);
        proof {
            assert(self@ =~= (SpecSkeleton { inputs: pre.inputs.push(input@), ..pre }));
        }
    }

    /// Appends an output cell and its data; every other part is untouched.
    pub fn add_output(&mut self, output: CellOutput, data: Vec<u8>)
        ensures
            final(self)@ == (SpecSkeleton {
                outputs: old(self)@.outputs.push(SpecOutput { cell: output@, data: data@ }),
                ..old(self)@
            }),
            final(self).wf() == old(self).wf(),
    {
        let ghost pre = self@;
        self.outputs.push((output, data));
        proof {
            assert(self@ =~= (SpecSkeleton {
                outputs: pre.outputs.push(SpecOutput { cell: output@, data: data@ }),
                ..pre
            }));
        }
    }

    /// Adds a cell dependency unless the same dependency is already present:
    /// the base chain rejects duplicate dependencies, so the accumulated
    /// dependencies behave as a set.
    pub fn add_cell_dep(&mut self, dep: CellDep)
        ensures
            final(self)@ == (SpecSkeleton {
                cell_deps: spec_add_dep(old(self)@.cell_deps, dep@),
                ..old(self)@
            }),
            old(self).wf() ==> final(self).wf(),
            final(self)@.cell_deps.contains(dep@),
    {
        let ghost pre = self@;
        if !contains_dep(&self.cell_deps, &dep) {
            self.cell_deps.push(dep);
            proof {
                assert(self@ =~= (SpecSkeleton {
                    cell_deps: pre.cell_deps.push(self.cell_deps@.last()@),
                    ..pre
                }));
                assert(self@.cell_deps.last() == self@.cell_deps[self@.cell_deps.len() - 1]);
                assert(self@.cell_deps.contains(self@.cell_deps.last()));
            }
        } else {
            proof {
                assert(self@ =~= pre);
            }
        }
    }

    /// Appends a witness slot; every other part is untouched.
    pub fn add_witness(&mut self, witness: WitnessArgs)
        ensures
            final(self)@ == (SpecSkeleton {
                witnesses: old(self)@.witnesses.push(witness@),
                ..old(self)@
            }),
            final(self).wf() == old(self).wf(),
    {
        let ghost pre = self@;
        self.witnesses.push(witness);
        proof {
            assert(self@ =~= (SpecSkeleton { witnesses: pre.witnesses.push(witness@), ..pre }));
        }
    }

    /// How many inputs have been accumulated.
    pub fn inputs_len(&self) -> (r: usize)
        ensures
            r == self@.inputs.len(),
    {
        self.inputs.len()
    }

    /// How many witness slots have been accumulated.
    pub fn witnesses_len(&self) -> (r: usize)
        ensures
            r == self@.witnesses.len(),
    {
        self.witnesses.len()
    }
}

/// Set-style addition of a dependency: a no-op when it is already present.
pub open spec fn spec_add_dep(deps: Seq<SpecCellDep>, d: SpecCellDep) -> Seq<SpecCellDep> {
    if deps.contains(d) {
        deps
    } else {
        deps.push(d)
    }
}

/// The views of a sequence of byte vectors.
pub open spec fn spec_views(v: Seq<Vec<u8>>) -> Seq<Seq<u8>> {
    v.map_values(|x: Vec<u8>| x@)
}

/// Encoding of an out-point.
pub open spec fn spec_enc_out_point(o: SpecOutPoint) -> Seq<u8> {
    spec_encode_bytes(o.tx_hash) + spec_encode_u64(o.index as u64)
}

/// Encoding of a script.
pub open spec fn spec_enc_script(s: SpecScript) -> Seq<u8> {
    spec_encode_bytes(s.code_hash) + seq![s.hash_type] + spec_encode_bytes(s.args)
}

/// Encoding of an optional byte string: a presence byte, then the bytes.
pub open spec fn spec_enc_opt_bytes(b: Option<Seq<u8>>) -> Seq<u8> {
    match b {
        None => seq![0u8],
        Some(v) => seq![1u8] + spec_encode_bytes(v),
    }
}

/// Encoding of an optional script: a presence byte, then the script.
pub open spec fn spec_enc_opt_script(s: Option<SpecScript>) -> Seq<u8> {
    match s {
        None => seq![0u8],
        Some(sc) => seq![1u8] + spec_enc_script(sc),
    }
}

/// Encoding of a cell dependency.
pub open spec fn spec_enc_dep(d: SpecCellDep) -> Seq<u8> {
    spec_encode_bytes(d.tx_hash) + spec_encode_u64(d.index as u64) + seq![d.dep_type]
}

/// Encoding of an output cell and its data.
pub open spec fn spec_enc_output(o: SpecOutput) -> Seq<u8> {
    spec_encode_u64(o.cell.capacity) + spec_enc_script(o.cell.lock) + spec_enc_opt_script(
        o.cell.type_script,
    ) + spec_encode_bytes(o.data)
}

/// Encoding of a witness slot.
pub open spec fn spec_enc_witness(w: SpecWitnessArgs) -> Seq<u8> {
    spec_enc_opt_bytes(w.lock) + spec_enc_opt_bytes(w.input_type) + spec_enc_opt_bytes(
        w.output_type,
    )
}

/// Encoding of an accumulated input: the out-point it spends.
pub open spec fn spec_enc_input(ic: SpecInputCell) -> Seq<u8> {
    spec_enc_out_point(ic.out_point)
}

/// The concatenation of an element encoder over a sequence.
pub open spec fn spec_concat_map<T>(s: Seq<T>, f: spec_fn(T) -> Seq<u8>) -> Seq<u8>
    decreases s.len(),
{
    if s.len() == 0 {
        Seq::empty()
    } else {
        spec_concat_map(s.drop_last(), f) + f(s.last())
    }
}

/// The canonical bytes of the unsigned transaction held by a skeleton: each
/// part as a counted list, in a fixed order.
pub open spec fn spec_unsigned_bytes(s: SpecSkeleton) -> Seq<u8> {
    spec_encode_u64(s.inputs.len() as u64) + spec_concat_map(
        s.inputs,
        |ic: SpecInputCell| spec_enc_input(ic),
    ) + spec_encode_u64(s.outputs.len() as u64) + spec_concat_map(
        s.outputs,
        |o: SpecOutput| spec_enc_output(o),
    ) + spec_encode_u64(s.cell_deps.len() as u64) + spec_concat_map(
        s.cell_deps,
        |d: SpecCellDep| spec_enc_dep(d),
    ) + spec_encode_u64(s.witnesses.len() as u64) + spec_concat_map(
        s.witnesses,
        |w: SpecWitnessArgs| spec_enc_witness(w),
    )
}

/// Appends the encoding of an out-point.
fn append_out_point(dst: &mut Vec<u8>, o: &OutPoint)
    ensures
        final(dst)@ == old(dst)@ + spec_enc_out_point(o@),
{
    append_len_prefixed(dst, &o.tx_hash);
    append_u64(dst, o.index as u64);
    proof {
        assert(dst@ =~= old(dst)@ + spec_enc_out_point(o@));
    }
}

/// Appends the encoding of a script.
fn append_script(dst: &mut Vec<u8>, s: &Script)
    ensures
        final(dst)@ == old(dst)@ + spec_enc_script(s@),
{
    append_len_prefixed(dst, &s.code_hash);
    dst.push(s.hash_type);
    append_len_prefixed(dst, &s.args);
    proof {
        assert(dst@ =~= old(dst)@ + spec_enc_script(s@));
    }
}

/// Appends the encoding of an optional byte string.
fn append_opt_bytes(dst: &mut Vec<u8>, b: &Option<Vec<u8>>)
    ensures
        final(dst)@ == old(dst)@ + spec_enc_opt_bytes(crate::types::spec_opt_bytes(*b)),
{
    match b {
        None => {
            dst.push(0u8);
            proof {
                assert(dst@ =~= old(dst)@ + seq![0u8]);
            }
        },
        Some(v) => {
            dst.push(1u8);
            append_len_prefixed(dst, v);
            proof {
                assert(dst@ =~= old(dst)@ + (seq![1u8] + spec_encode_bytes(v@)));
            }
        },
    }
}

/// Appends the encoding of an optional script.
fn append_opt_script(dst: &mut Vec<u8>, s: &Option<Script>)
    ensures
        final(dst)@ == old(dst)@ + spec_enc_opt_script(crate::types::spec_opt_script(*s)),
{
    match s {
        None => {
            dst.push(0u8);
            proof {
                assert(dst@ =~= old(dst)@ + seq![0u8]);
            }
        },
        Some(sc) => {
            dst.push(1u8);
            append_script(dst, sc);
            proof {
                assert(dst@ =~= old(dst)@ + (seq![1u8] + spec_enc_script(sc@)));
            }
        },
    }
}

/// Appends the encoding of a cell dependency.
fn append_dep(dst: &mut Vec<u8>, d: &CellDep)
    ensures
        final(dst)@ == old(dst)@ + spec_enc_dep(d@),
{
    append_len_prefixed(dst, &d.tx_hash);
    append_u64(dst, d.index as u64);
    dst.push(d.dep_type);
    proof {
        assert(dst@ =~= old(dst)@ + spec_enc_dep(d@));
    }
}

/// Appends the encoding of an output cell and its data.
fn append_output(dst: &mut Vec<u8>, o: &CellOutput, data: &Vec<u8>)
    ensures
        final(dst)@ == old(dst)@ + spec_enc_output(SpecOutput { cell: o@, data: data@ }),
{
    append_u64(dst, o.capacity);
    append_script(dst, &o.lock);
    append_opt_script(dst, &o.type_script);
    append_len_prefixed(dst, data);
    proof {
        assert(dst@ =~= old(dst)@ + spec_enc_output(SpecOutput { cell: o@, data: data@ }));
    }
}

/// Appends the encoding of a witness slot.
fn append_witness(dst: &mut Vec<u8>, w: &WitnessArgs)
    ensures
        final(dst)@ == old(dst)@ + spec_enc_witness(w@),
{
    append_opt_bytes(dst, &w.lock);
    append_opt_bytes(dst, &w.input_type);
    append_opt_bytes(dst, &w.output_type);
    proof {
        assert(dst@ =~= old(dst)@ + spec_enc_witness(w@));
    }
}

/// How many of the first `n` inputs must be signed for.
pub open spec fn spec_signing_count(inputs: Seq<SpecInputCell>, n: int) -> int
    decreases n,
{
    if n <= 0 {
        0
    } else {
        spec_signing_count(inputs, n - 1) + (match inputs[n - 1].lock_hash {
            Some(_) => 1int,
            None => 0int,
        })
    }
}

/// The signing count over a prefix never exceeds the prefix length.
pub proof fn lemma_signing_count_bound(inputs: Seq<SpecInputCell>, n: int)
    requires
        0 <= n,
    ensures
        0 <= spec_signing_count(inputs, n) <= n,
    decreases n,
{
    if n > 0 {
        lemma_signing_count_bound(inputs, n - 1);
    }
}

/// The signing message of input `i`: the unsigned transaction bytes with the
/// input position appended.
pub open spec fn spec_message(s: SpecSkeleton, i: int) -> Seq<u8> {
    spec_unsigned_bytes(s) + spec_encode_u64(i as u64)
}

/// The signing messages of the first `n` inputs that must be signed for, in
/// input order.
pub open spec fn spec_messages(s: SpecSkeleton, n: int) -> Seq<Seq<u8>>
    decreases n,
{
    if n <= 0 {
        Seq::empty()
    } else {
        let r = spec_messages(s, n - 1);
        match s.inputs[n - 1].lock_hash {
            Some(_) => r.push(spec_message(s, n - 1)),
            None => r,
        }
    }
}

/// The witness that seals input `i`: the accumulated slot (or an empty pad),
/// with the matching signature attached when the input must be signed for.
pub open spec fn spec_sealed_witness(s: SpecSkeleton, sigs: Seq<Seq<u8>>, i: int) -> SpecWitnessArgs {
    let base = if i < s.witnesses.len() {
        s.witnesses[i]
    } else {
        spec_empty_witness()
    };
    match s.inputs[i].lock_hash {
        Some(_) => SpecWitnessArgs { lock: Some(sigs[spec_signing_count(s.inputs, i)]), ..base },
        None => base,
    }
}

/// Sealing a skeleton: fails when witness slots outnumber inputs or when the
/// signature count does not match the signature-requiring inputs; otherwise
/// yields the transaction with one positionally aligned witness per input.
pub open spec fn spec_seal(s: SpecSkeleton, sigs: Seq<Seq<u8>>) -> Option<SpecTransaction> {
    if s.witnesses.len() > s.inputs.len() || sigs.len() != spec_signing_count(
        s.inputs,
        s.inputs.len() as int,
    ) {
        None
    } else {
        Some(
            SpecTransaction {
                inputs: s.inputs.map_values(|ic: SpecInputCell| ic.out_point),
                outputs: s.outputs,
                cell_deps: s.cell_deps,
                witnesses: Seq::new(s.inputs.len(), |i: int| spec_sealed_witness(s, sigs, i)),
            },
        )
    }
}

impl TransactionSkeleton {
    /// The canonical bytes of the unsigned transaction accumulated so far.
    /// Two skeletons with the same parts yield the same bytes.
    pub fn unsigned_bytes(&self) -> (r: Vec<u8>)
        ensures
            r@ == spec_unsigned_bytes(self@),
    {
        let ghost s = self@;
        let mut buf: Vec<u8> = Vec::new();
        append_u64(&mut buf, self.inputs.len() as u64);
        let ghost seg1 = spec_encode_u64(s.inputs.len() as u64);
        let mut i: usize = 0;
        while i < self.inputs.len()
            invariant
                i <= self.inputs.len(),
                s == self@,
                buf@ == seg1 + spec_concat_map(
                    s.inputs.subrange(0, i as int),
                    |ic: SpecInputCell| spec_enc_input(ic),
                ),
            decreases self.inputs.len() - i,
        {
            append_out_point(&mut buf, &self.inputs[i].out_point);
            i += 1;
            proof {
                let p = s.inputs.subrange(0, i as int);
                assert(p.drop_last() =~= s.inputs.subrange(0, i - 1));
                assert(buf@ =~= seg1 + spec_concat_map(
                    p,
                    |ic: SpecInputCell| spec_enc_input(ic),
                ));
            }
        }
        proof {
            assert(s.inputs.subrange(0, s.inputs.len() as int) =~= s.inputs);
        }
        append_u64(&mut buf, self.outputs.len() as u64);
        let ghost seg2 = buf@;
        let mut i: usize = 0;
        while i < self.outputs.len()
            invariant
                i <= self.outputs.len(),
                s == self@,
                buf@ == seg2 + spec_concat_map(
                    s.outputs.subrange(0, i as int),
                    |o: SpecOutput| spec_enc_output(o),
                ),
            decreases self.outputs.len() - i,
        {
            append_output(&mut buf, &self.outputs[i].0, &self.outputs[i].1);
            i += 1;
            proof {
                let p = s.outputs.subrange(0, i as int);
                assert(p.drop_last() =~= s.outputs.subrange(0, i - 1));
                assert(buf@ =~= seg2 + spec_concat_map(p, |o: SpecOutput| spec_enc_output(o)));
            }
        }
        proof {
            assert(s.outputs.subrange(0, s.outputs.len() as int) =~= s.outputs);
        }
        append_u64(&mut buf, self.cell_deps.len() as u64);
        let ghost seg3 = buf@;
        let mut i: usize = 0;
        while i < self.cell_deps.len()
            invariant
                i <= self.cell_deps.len(),
                s == self@,
                buf@ == seg3 + spec_concat_map(
                    s.cell_deps.subrange(0, i as int),
                    |d: SpecCellDep| spec_enc_dep(d),
                ),
            decreases self.cell_deps.len() - i,
        {
            append_dep(&mut buf, &self.cell_deps[i]);
            i += 1;
            proof {
                let p = s.cell_deps.subrange(0, i as int);
                assert(p.drop_last() =~= s.cell_deps.subrange(0, i - 1));
                assert(buf@ =~= seg3 + spec_concat_map(p, |d: SpecCellDep| spec_enc_dep(d)));
            }
        }
        proof {
            assert(s.cell_deps.subrange(0, s.cell_deps.len() as int) =~= s.cell_deps);
        }
        append_u64(&mut buf, self.witnesses.len() as u64);
        let ghost seg4 = buf@;
        let mut i: usize = 0;
        while i < self.witnesses.len()
            invariant
                i <= self.witnesses.len(),
                s == self@,
                buf@ == seg4 + spec_concat_map(
                    s.witnesses.subrange(0, i as int),
                    |w: SpecWitnessArgs| spec_enc_witness(w),
                ),
            decreases self.witnesses.len() - i,
        {
            append_witness(&mut buf, &self.witnesses[i]);
            i += 1;
            proof {
                let p = s.witnesses.subrange(0, i as int);
                assert(p.drop_last() =~= s.witnesses.subrange(0, i - 1));
                assert(buf@ =~= seg4 + spec_concat_map(
                    p,
                    |w: SpecWitnessArgs| spec_enc_witness(w),
                ));
            }
        }
        proof {
            assert(s.witnesses.subrange(0, s.witnesses.len() as int) =~= s.witnesses);
            assert(buf@ =~= spec_unsigned_bytes(s));
        }
        buf
    }

    /// One signing message per signature-requiring input, in input order.
    pub fn signature_messages(&self) -> (r: Vec<Vec<u8>>)
        ensures
            spec_views(r@) == spec_messages(self@, self@.inputs.len() as int),
    {
        let ghost s = self@;
        let ub = self.unsigned_bytes();
        let mut r: Vec<Vec<u8>> = Vec::new();
        let mut i: usize = 0;
        while i < self.inputs.len()
            invariant
                i <= self.inputs.len(),
                s == self@,
                ub@ == spec_unsigned_bytes(s),
                spec_views(r@) == spec_messages(s, i as int),
            decreases self.inputs.len() - i,
        {
            if self.inputs[i].lock_hash.is_some() {
                let mut m = clone_bytes(&ub);
                append_u64(&mut m, i as u64);
                r.push(m);
            }
            i += 1;
            proof {
                assert(spec_views(r@) =~= spec_messages(s, i as int));
            }
        }
        r
    }

    /// Seals the skeleton: validates the signature count against the
    /// signature-requiring inputs, pads missing witnesses with empty slots,
    /// and attaches each signature to its input's witness.
    pub fn seal(&self, signatures: &Vec<Vec<u8>>) -> (r: Result<Transaction, Error>)
        ensures
            match r {
                Ok(t) => spec_seal(self@, spec_views(signatures@)) == Some(t@),
                Err(e) => e == Error::IncompleteTransaction && spec_seal(
                    self@,
                    spec_views(signatures@),
                ) is None,
            },
    {
        let ghost s = self@;
        let ghost sigsv = spec_views(signatures@);
        let mut count: usize = 0;
        let mut i: usize = 0;
        while i < self.inputs.len()
            invariant
                i <= self.inputs.len(),
                s == self@,
                count == spec_signing_count(s.inputs, i as int),
            decreases self.inputs.len() - i,
        {
            proof {
                lemma_signing_count_bound(s.inputs, i as int);
            }
            if self.inputs[i].lock_hash.is_some() {
                count += 1;
            }
            i += 1;
        }
        if self.witnesses.len() > self.inputs.len() || signatures.len() != count {
            return Err(Error::IncompleteTransaction);
        }
        let mut inputs_out: Vec<OutPoint> = Vec::new();
        let mut i: usize = 0;
        while i < self.inputs.len()
            invariant
                i <= self.inputs.len(),
                s == self@,
                inputs_out@.len() == i,
                forall|k: int| 0 <= k < i ==> #[trigger] inputs_out@[k]@ == s.inputs[k].out_point,
            decreases self.inputs.len() - i,
        {
            inputs_out.push(clone_out_point(&self.inputs[i].out_point));
            i += 1;
        }
        let mut outputs_out: Vec<(CellOutput, Vec<u8>)> = Vec::new();
        let mut i: usize = 0;
        while i < self.outputs.len()
            invariant
                i <= self.outputs.len(),
                s == self@,
                outputs_out@.len() == i,
                forall|k: int| 0 <= k < i ==> (SpecOutput {
                    cell: (#[trigger] outputs_out@[k]).0@,
                    data: outputs_out@[k].1@,
                }) == s.outputs[k],
            decreases self.outputs.len() - i,
        {
            let cell = clone_cell_output(&self.outputs[i].0);
            let data = clone_bytes(&self.outputs[i].1);
            outputs_out.push((cell, data));
            i += 1;
            proof {
                assert(SpecOutput {
                    cell: outputs_out@[i - 1].0@,
                    data: outputs_out@[i - 1].1@,
                } =~= s.outputs[i - 1]);
            }
        }
        let mut deps_out: Vec<CellDep> = Vec::new();
        let mut i: usize = 0;
        while i < self.cell_deps.len()
            invariant
                i <= self.cell_deps.len(),
                s == self@,
                deps_out@.len() == i,
                forall|k: int| 0 <= k < i ==> #[trigger] deps_out@[k]@ == s.cell_deps[k],
            decreases self.cell_deps.len() - i,
        {
            deps_out.push(clone_cell_dep(&self.cell_deps[i]));
            i += 1;
        }
        let mut wits_out: Vec<WitnessArgs> = Vec::new();
        let mut i: usize = 0;
        let mut j: usize = 0;
        while i < self.inputs.len()
            invariant
                i <= self.inputs.len(),
                s == self@,
                sigsv == spec_views(signatures@),
                signatures@.len() == spec_signing_count(s.inputs, s.inputs.len() as int),
                s.witnesses.len() <= s.inputs.len(),
                j == spec_signing_count(s.inputs, i as int),
                wits_out@.len() == i,
                forall|k: int| 0 <= k < i ==> #[trigger] wits_out@[k]@ == spec_sealed_witness(
                    s,
                    sigsv,
                    k,
                ),
            decreases self.inputs.len() - i,
        {
            proof {
                lemma_signing_count_bound(s.inputs, i as int);
                lemma_signing_count_monotone(s.inputs, i as int + 1, s.inputs.len() as int);
                assert(spec_signing_count(s.inputs, i as int + 1) == spec_signing_count(
                    s.inputs,
                    i as int,
                ) + (match s.inputs[i as int].lock_hash {
                    Some(_) => 1int,
                    None => 0int,
                }));
            }
            let mut base = if i < self.witnesses.len() {
                clone_witness(&self.witnesses[i])
            } else {
                WitnessArgs::empty()
            };
            if self.inputs[i].lock_hash.is_some() {
                proof {
                    assert(sigsv[j as int] == signatures@[j as int]@);
                }
                base.lock = Some(clone_bytes(&signatures[j]));
                j += 1;
            }
            wits_out.push(base);
            i += 1;
            proof {
                assert(wits_out@[i - 1]@ =~= spec_sealed_witness(s, sigsv, i - 1));
            }
        }
        let t = Transaction {
            inputs: inputs_out,
            outputs: outputs_out,
            cell_deps: deps_out,
            witnesses: wits_out,
        };
        proof {
            assert(t@.inputs =~= s.inputs.map_values(|ic: SpecInputCell| ic.out_point));
            assert(t@.outputs =~= s.outputs);
            assert(t@.cell_deps =~= s.cell_deps);
            assert(t@.witnesses =~= Seq::new(
                s.inputs.len(),
                |k: int| spec_sealed_witness(s, sigsv, k),
            ));
            assert(t@ =~= spec_seal(s, sigsv).unwrap());
        }
        Ok(t)
    }
}

/// The signing count grows monotonically along the inputs.
pub proof fn lemma_signing_count_monotone(inputs: Seq<SpecInputCell>, m: int, n: int)
    requires
        0 <= m <= n,
    ensures
        spec_signing_count(inputs, m) <= spec_signing_count(inputs, n),
        spec_signing_count(inputs, n) - spec_signing_count(inputs, m) <= n - m,
    decreases n - m,
{
    if m < n {
        lemma_signing_count_monotone(inputs, m, n - 1);
    }
}

/// Witness alignment after seal: there is exactly one witness per input, and
/// the witness at each position is the one derived for the input at that
/// position.
pub proof fn lemma_witness_alignment(s: SpecSkeleton, sigs: Seq<Seq<u8>>, t: SpecTransaction)
    requires
        spec_seal(s, sigs) == Some(t),
    ensures
        t.witnesses.len() == t.inputs.len(),
        forall|i: int| 0 <= i < t.inputs.len() ==> #[trigger] t.witnesses[i]
            == spec_sealed_witness(s, sigs, i) && t.inputs[i] == s.inputs[i].out_point,
{
}

} // verus!

