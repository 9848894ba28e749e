//! Deterministic byte encodings: little-endian integers, length-prefixed
//! byte strings, the custodian lock-argument layout, and the finalized-block
//! record that the mem pool reads back at tip notification.

use vstd::prelude::*;
use crate::bytes::append_bytes;

verus! {

/// Little-endian bytes of a 64-bit integer.
pub open spec fn spec_encode_u64(n: u64) -> Seq<u8> {
    seq![
        (n & 0xff) as u8,
        ((n >> 8) & 0xff) as u8,
        ((n >> 16) & 0xff) as u8,
        ((n >> 24) & 0xff) as u8,
        ((n >> 32) & 0xff) as u8,
        ((n >> 40) & 0xff) as u8,
        ((n >> 48) & 0xff) as u8,
        ((n >> 56) & 0xff) as u8,
    ]
}

/// The 64-bit integer held by eight little-endian bytes.
pub open spec fn spec_decode_u64(s: Seq<u8>) -> u64
    recommends
        s.len() == 8,
{
    ((s[0] as u64) | ((s[1] as u64) << 8) | ((s[2] as u64) << 16) | ((s[3] as u64) << 24) | ((
    s[4] as u64) << 32) | ((s[5] as u64) << 40) | ((s[6] as u64) << 48) | ((s[7] as u64) << 56))
}

/// Decoding undoes encoding for 64-bit integers.
pub proof fn lemma_u64_round_trip(n: u64)
    ensures
        spec_decode_u64(spec_encode_u64(n)) == n,
{
    let s = spec_encode_u64(n);
    assert(((n & 0xff) as u8 as u64) | (((n >> 8) & 0xff) as u8 as u64) << 8 | (((n >> 16)
        & 0xff) as u8 as u64) << 16 | (((n >> 24) & 0xff) as u8 as u64) << 24 | (((n >> 32)
        & 0xff) as u8 as u64) << 32 | (((n >> 40) & 0xff) as u8 as u64) << 40 | (((n >> 48)
        & 0xff) as u8 as u64) << 48 | (((n >> 56) & 0xff) as u8 as u64) << 56 == n)
        by (bit_vector);
}

/// Appends the little-endian bytes of `n` to `dst`.
pub fn append_u64(dst: &mut Vec<u8>, n: u64)
    ensures
        final(dst)@ == old(dst)@ + spec_encode_u64(n),
{
    dst.push((n & 0xff) as u8);
    dst.push(((n >> 8) & 0xff) as u8);
    dst.push(((n >> 16) & 0xff) as u8);
    dst.push(((n >> 24) & 0xff) as u8);
    dst.push(((n >> 32) & 0xff) as u8);
    dst.push(((n >> 40) & 0xff) as u8);
    dst.push(((n >> 48) & 0xff) as u8);
    dst.push(((n >> 56) & 0xff) as u8);
    proof {
        assert(dst@ =~= old(dst)@ + spec_encode_u64(n));
    }
}

/// The little-endian bytes of `n` as a fresh vector.
pub fn encode_u64(n: u64) -> (r: Vec<u8>)
    ensures
        r@ == spec_encode_u64(n),
{
    let mut r: Vec<u8> = Vec::new();
    append_u64(&mut r, n);
    proof {
        assert(r@ =~= spec_encode_u64(n));
    }
    r
}

/// Reads the 64-bit integer at `off`.
pub fn decode_u64_at(v: &Vec<u8>, off: usize) -> (r: u64)
    requires
        off + 8 <= v@.len(),
    ensures
        r == spec_decode_u64(v@.subrange(off as int, off as int + 8)),
{
    let n = v.len();
    proof {
        assert(off + 8 <= n);
    }
    let b0 = v[off];
    let b1 = v[off + 1];
    let b2 = v[off + 2];
    let b3 = v[off + 3];
    let b4 = v[off + 4];
    let b5 = v[off + 5];
    let b6 = v[off + 6];
    let b7 = v[off + 7];
    let r = (b0 as u64) | ((b1 as u64) << 8) | ((b2 as u64) << 16) | ((b3 as u64) << 24) | ((
    b4 as u64) << 32) | ((b5 as u64) << 40) | ((b6 as u64) << 48) | ((b7 as u64) << 56);
    proof {
        let s = v@.subrange(off as int, off as int + 8);
        assert(s[0] == b0 && s[1] == b1 && s[2] == b2 && s[3] == b3 && s[4] == b4 && s[5] == b5
            && s[6] == b6 && s[7] == b7);
    }
    r
}

/// A byte string carried with its length: eight length bytes, then the bytes.
pub open spec fn spec_encode_bytes(s: Seq<u8>) -> Seq<u8> {
    spec_encode_u64(s.len() as u64) + s
}

/// Appends `src` to `dst` under a length prefix.
pub fn append_len_prefixed(dst: &mut Vec<u8>, src: &Vec<u8>)
    ensures
        final(dst)@ == old(dst)@ + spec_encode_bytes(src@),
{
    append_u64(dst, src.len() as u64);
    append_bytes(dst, src);
    proof {
        assert(dst@ =~= old(dst)@ + spec_encode_bytes(src@));
    }
}

/// Custodian lock arguments: the 32-byte block hash, the block number, then
/// the original deposit lock arguments.
pub open spec fn spec_custodian_args(block_hash: Seq<u8>, number: u64, lock_args: Seq<u8>) -> Seq<
    u8,
> {
    block_hash + spec_encode_u64(number) + lock_args
}

/// Encodes custodian lock arguments.
pub fn encode_custodian_args(block_hash: &Vec<u8>, number: u64, lock_args: &Vec<u8>) -> (r: Vec<
    u8,
>)
    requires
        block_hash@.len() == 32,
    ensures
        r@ == spec_custodian_args(block_hash@, number, lock_args@),
{
    let mut r: Vec<u8> = Vec::new();
    append_bytes(&mut r, block_hash);
    append_u64(&mut r, number);
    append_bytes(&mut r, lock_args);
    proof {
        assert(r@ =~= spec_custodian_args(block_hash@, number, lock_args@));
    }
    r
}

/// Splits encoded custodian lock arguments back into the block hash, the
/// block number and the deposit lock arguments. Fails on inputs shorter than
/// the fixed 40-byte header.
pub fn decode_custodian_args(raw: &Vec<u8>) -> (r: Option<(Vec<u8>, u64, Vec<u8>)>)
    ensures
        match r {
            Some(t) => raw@.len() >= 40 && t.0@ == raw@.subrange(0, 32) && t.1 == spec_decode_u64(
                raw@.subrange(32, 40),
            ) && t.2@ == raw@.subrange(40, raw@.len() as int),
            None => raw@.len() < 40,
        },
{
    if raw.len() < 40 {
        return None;
    }
    let mut hash: Vec<u8> = Vec::new();
    let mut i: usize = 0;
    while i < 32
        invariant
            i <= 32,
            raw@.len() >= 40,
            hash@ == raw@.subrange(0, i as int),
        decreases 32 - i,
    {
        hash.push(raw[i]);
        i += 1;
        proof {
            assert(hash@ =~= raw@.subrange(0, i as int));
        }
    }
    let number = decode_u64_at(raw, 32);
    let mut args: Vec<u8> = Vec::new();
    let mut j: usize = 40;
    while j < raw.len()
        invariant
            40 <= j <= raw@.len(),
            args@ == raw@.subrange(40, j as int),
        decreases raw.len() - j,
    {
        args.push(raw[j]);
        j += 1;
        proof {
            assert(args@ =~= raw@.subrange(40, j as int));
        }
    }
    Some((hash, number, args))
}

/// Decoding undoes encoding for custodian lock arguments.
pub proof fn lemma_custodian_args_round_trip(h: Seq<u8>, n: u64, a: Seq<u8>)
    requires
        h.len() == 32,
    ensures
        spec_custodian_args(h, n, a).len() == 40 + a.len(),
        spec_custodian_args(h, n, a).subrange(0, 32) == h,
        spec_decode_u64(spec_custodian_args(h, n, a).subrange(32, 40)) == n,
        spec_custodian_args(h, n, a).subrange(40, spec_custodian_args(h, n, a).len() as int) == a,
{
    let c = spec_custodian_args(h, n, a);
    assert(c.subrange(0, 32) =~= h);
    assert(c.subrange(32, 40) =~= spec_encode_u64(n));
    lemma_u64_round_trip(n);
    assert(c.subrange(40, c.len() as int) =~= a);
}

/// Concatenated little-endian encodings of a list of 64-bit integers.
pub open spec fn spec_encode_u64_list(ids: Seq<u64>) -> Seq<u8>
    decreases ids.len(),
{
    if ids.len() == 0 {
        Seq::empty()
    } else {
        spec_encode_u64_list(ids.drop_last()) + spec_encode_u64(ids.last())
    }
}

/// The encoding of a list of integers is eight bytes per element.
pub proof fn lemma_u64_list_len(ids: Seq<u64>)
    ensures
        spec_encode_u64_list(ids).len() == 8 * ids.len(),
    decreases ids.len(),
{
    if ids.len() > 0 {
        lemma_u64_list_len(ids.drop_last());
    }
}

/// Each element of an encoded integer list sits at its own eight-byte slot.
pub proof fn lemma_u64_list_index(ids: Seq<u64>, k: int)
    requires
        0 <= k < ids.len(),
    ensures
        spec_encode_u64_list(ids).subrange(8 * k, 8 * k + 8) == spec_encode_u64(ids[k]),
    decreases ids.len(),
{
    lemma_u64_list_len(ids);
    lemma_u64_list_len(ids.drop_last());
    if k == ids.len() - 1 {
        assert(spec_encode_u64_list(ids).subrange(8 * k, 8 * k + 8) =~= spec_encode_u64(
            ids.last(),
        ));
    } else {
        lemma_u64_list_index(ids.drop_last(), k);
        assert(spec_encode_u64_list(ids).subrange(8 * k, 8 * k + 8) =~= spec_encode_u64_list(
            ids.drop_last(),
        ).subrange(8 * k, 8 * k + 8));
    }
}

/// The record kept for a finalized block: its number, then the identifiers of
/// the pending entries it included.
pub open spec fn spec_block_record(number: u64, ids: Seq<u64>) -> Seq<u8> {
    spec_encode_u64(number) + spec_encode_u64_list(ids)
}

/// Whether a byte string has the shape of a finalized-block record.
pub open spec fn spec_block_record_wf(raw: Seq<u8>) -> bool {
    raw.len() >= 8 && (raw.len() - 8) % 8 == 0
}

/// The block number held by a finalized-block record.
pub open spec fn spec_block_record_number(raw: Seq<u8>) -> u64 {
    spec_decode_u64(raw.subrange(0, 8))
}

/// The included entry identifiers held by a finalized-block record.
pub open spec fn spec_block_record_ids(raw: Seq<u8>) -> Seq<u64> {
    Seq::new(((raw.len() - 8) / 8) as nat, |k: int| spec_decode_u64(raw.subrange(8 + 8 * k, 16 + 8 * k)))
}

/// Encodes a finalized-block record.
pub fn encode_block_record(number: u64, ids: &Vec<u64>) -> (r: Vec<u8>)
    ensures
        r@ == spec_block_record(number, ids@),
{
    let mut r: Vec<u8> = Vec::new();
    append_u64(&mut r, number);
    let mut i: usize = 0;
    while i < ids.len()
        invariant
            i <= ids.len(),
            r@ == spec_encode_u64(number) + spec_encode_u64_list(ids@.subrange(0, i as int)),
        decreases ids.len() - i,
    {
        append_u64(&mut r, ids[i]);
        i += 1;
        proof {
            let p = ids@.subrange(0, i as int);
            assert(p.drop_last() =~= ids@.subrange(0, i - 1));
            assert(r@ =~= spec_encode_u64(number) + spec_encode_u64_list(p));
        }
    }
    proof {
        assert(ids@.subrange(0, ids@.len() as int) =~= ids@);
    }
    r
}

/// Splits a finalized-block record into the block number and the included
/// entry identifiers. Fails on byte strings of the wrong shape.
pub fn decode_block_record(raw: &Vec<u8>) -> (r: Option<(u64, Vec<u64>)>)
    ensures
        match r {
            Some(t) => spec_block_record_wf(raw@) && t.0 == spec_block_record_number(raw@) && t.1@
                == spec_block_record_ids(raw@),
            None => !spec_block_record_wf(raw@),
        },
{
    if raw.len() < 8 || (raw.len() - 8) % 8 != 0 {
        return None;
    }
    let number = decode_u64_at(raw, 0);
    let n = raw.len();
    let count = (n - 8) / 8;
    proof {
        assert(8 * ((n - 8) / 8) <= n - 8) by (nonlinear_arith)
            requires
                n >= 8,
        ;
    }
    let mut ids: Vec<u64> = Vec::new();
    let mut k: usize = 0;
    while k < count
        invariant
            k <= count,
            n == raw@.len(),
            n >= 8,
            count == (raw@.len() - 8) / 8,
            8 * count + 8 <= n,
            ids@.len() == k,
            forall|j: int| 0 <= j < k ==> ids@[j] == spec_decode_u64(
                raw@.subrange(8 + 8 * j, 16 + 8 * j),
            ),
        decreases count - k,
    {
        let v = decode_u64_at(raw, 8 + 8 * k);
        ids.push(v);
        k += 1;
    }
    proof {
        assert(ids@ =~= spec_block_record_ids(raw@));
    }
    Some((number, ids))
}

/// A finalized-block record decodes back to the number and identifiers it
/// was built from: what the pool persists for a finalized block is exactly
/// what tip notification later reads, so notifying with a recorded block
/// evicts precisely the entries the record names.
pub proof fn lemma_block_record_round_trip(number: u64, ids: Seq<u64>)
    ensures
        spec_block_record_wf(spec_block_record(number, ids)),
        spec_block_record_number(spec_block_record(number, ids)) == number,
        spec_block_record_ids(spec_block_record(number, ids)) == ids,
{
    let raw = spec_block_record(number, ids);
    lemma_u64_list_len(ids);
    assert(raw.subrange(0, 8) =~= spec_encode_u64(number));
    lemma_u64_round_trip(number);
    assert forall|k: int| 0 <= k < ids.len() implies spec_decode_u64(
        raw.subrange(8 + 8 * k, 16 + 8 * k),
    ) == ids[k] by {
        lemma_u64_list_index(ids, k);
        assert(raw.subrange(8 + 8 * k, 16 + 8 * k) =~= spec_encode_u64_list(ids).subrange(
            8 * k,
            8 * k + 8,
        ));
        lemma_u64_round_trip(ids[k]);
    }
    assert(spec_block_record_ids(raw) =~= ids);
}

} // verus!
