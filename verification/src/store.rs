//! Column-keyed byte-string storage: the `KVStore` contract, a verified
//! in-memory implementation, and a read-only wrapper whose writes fail.

use vstd::prelude::*;
use crate::Error;
use crate::bytes::clone_bytes;

verus! {

/// Where an iteration starts: at the first entry or at the last.
#[derive(Clone, Copy, Debug, PartialEq, Eq, Structural)]
pub enum IteratorMode {
    Start,
    End,
}

/// Column-keyed byte-string store with point lookups, iteration and
/// fallible writes. A failed write leaves the store as it was.
pub trait KVStore: Sized {
    /// The store's contents as a map from (column, key) to value.
    spec fn sview(&self) -> Map<(u8, Seq<u8>), Seq<u8>>;

    /// Point lookup.
    fn get(&self, col: u8, key: &[u8]) -> (r: Option<Vec<u8>>)
        ensures
            match r {
                Some(v) => self.sview().contains_key((col, key@)) && v@ == self.sview()[
                    (col, key@)
                ],
                None => !self.sview().contains_key((col, key@)),
            },
    ;

    /// Every entry of one column, each key exactly once; `mode` picks the
    /// direction of the walk.
    fn get_iter(&self, col: u8, mode: IteratorMode) -> (r: Vec<(Vec<u8>, Vec<u8>)>)
        ensures
            forall|i: int| 0 <= i < r@.len() ==> self.sview().contains_key(
                (col, (#[trigger] r@[i]).0@),
            ) && r@[i].1@ == self.sview()[(col, r@[i].0@)],
            forall|k: Seq<u8>| self.sview().contains_key((col, k)) ==> exists|i: int|
                0 <= i < r@.len() && (#[trigger] r@[i]).0@ == k,
    ;

    /// Inserts or replaces one entry; on failure nothing changes.
    fn insert_raw(&mut self, col: u8, key: &[u8], value: &[u8]) -> (r: Result<(), Error>)
        ensures
            match r {
                Ok(()) => final(self).sview() == old(self).sview().insert((col, key@), value@),
                Err(e) => e == Error::StorageFailure && final(self).sview() == old(self).sview(),
            },
    ;

    /// Removes one entry; on failure nothing changes.
    fn delete(&mut self, col: u8, key: &[u8]) -> (r: Result<(), Error>)
        ensures
            match r {
                Ok(()) => final(self).sview() == old(self).sview().remove((col, key@)),
                Err(e) => e == Error::StorageFailure && final(self).sview() == old(self).sview(),
            },
    ;
}

/// One stored entry.
pub struct StoreEntry {
    pub col: u8,
    pub key: Vec<u8>,
    pub value: Vec<u8>,
}

/// The map held by a sequence of entries; later entries override earlier.
pub open spec fn spec_entries_map(s: Seq<StoreEntry>) -> Map<(u8, Seq<u8>), Seq<u8>>
    decreases s.len(),
{
    if s.len() == 0 {
        Map::empty()
    } else {
        spec_entries_map(s.drop_last()).insert((s.last().col, s.last().key@), s.last().value@)
    }
}

/// Whether entry `i` stores column `c`, key `k`.
pub open spec fn spec_entry_matches(s: Seq<StoreEntry>, i: int, c: u8, k: Seq<u8>) -> bool {
    s[i].col == c && s[i].key@ == k
}

/// No two entries share a (column, key) pair.
pub open spec fn spec_entries_unique(s: Seq<StoreEntry>) -> bool {
    forall|i: int, j: int| 0 <= i < j < s.len() ==> !(s[i].col == s[j].col && s[i].key@
        == s[j].key@)
}

/// A key is in the entries' map exactly when some entry stores it.
proof fn lemma_entries_map_contains(s: Seq<StoreEntry>, c: u8, k: Seq<u8>)
    ensures
        spec_entries_map(s).contains_key((c, k)) == exists|i: int|
            0 <= i < s.len() && spec_entry_matches(s, i, c, k),
    decreases s.len(),
{
    if s.len() > 0 {
        let t = s.drop_last();
        lemma_entries_map_contains(t, c, k);
        if s.last().col == c && s.last().key@ == k {
            assert(spec_entry_matches(s, s.len() - 1, c, k));
        } else {
            if exists|i: int| 0 <= i < t.len() && spec_entry_matches(t, i, c, k) {
                let i = choose|i: int| 0 <= i < t.len() && spec_entry_matches(t, i, c, k);
                assert(spec_entry_matches(s, i, c, k));
            }
            if exists|i: int| 0 <= i < s.len() && spec_entry_matches(s, i, c, k) {
                let i = choose|i: int| 0 <= i < s.len() && spec_entry_matches(s, i, c, k);
                assert(i < s.len() - 1);
                assert(spec_entry_matches(t, i, c, k));
            }
        }
    }
}

/// In a store with unique keys, the entry that stores a key gives its value.
proof fn lemma_entries_map_value(s: Seq<StoreEntry>, i: int)
    requires
        spec_entries_unique(s),
        0 <= i < s.len(),
    ensures
        spec_entries_map(s).contains_key((s[i].col, s[i].key@)),
        spec_entries_map(s)[(s[i].col, s[i].key@)] == s[i].value@,
    decreases s.len(),
{
    let t = s.drop_last();
    if i == s.len() - 1 {
    } else {
        assert(spec_entries_unique(t));
        lemma_entries_map_value(t, i);
        assert(!(s.last().col == s[i].col && s.last().key@ == s[i].key@));
    }
}

/// Removing an entry keeps the keys unique.
proof fn lemma_unique_remove(s: Seq<StoreEntry>, i: int)
    requires
        spec_entries_unique(s),
        0 <= i < s.len(),
    ensures
        spec_entries_unique(s.remove(i)),
{
    s.remove_ensures(i);
    let r = s.remove(i);
    assert forall|a: int, b: int| 0 <= a < b < r.len() implies !(r[a].col == r[b].col && r[a].key@
        == r[b].key@) by {
        let a2 = if a < i {
            a
        } else {
            a + 1
        };
        let b2 = if b < i {
            b
        } else {
            b + 1
        };
        assert(r[a] == s[a2] && r[b] == s[b2]);
    }
}

/// Removing the entry that stores a key removes exactly that key from the map.
proof fn lemma_entries_map_remove(s: Seq<StoreEntry>, i: int)
    requires
        spec_entries_unique(s),
        0 <= i < s.len(),
    ensures
        spec_entries_map(s.remove(i)) == spec_entries_map(s).remove((s[i].col, s[i].key@)),
    decreases s.len(),
{
    s.remove_ensures(i);
    let t = s.drop_last();
    let m = spec_entries_map(t);
    let key = (s[i].col, s[i].key@);
    let lastkey = (s.last().col, s.last().key@);
    let lastval = s.last().value@;
    if i == s.len() - 1 {
        assert(s.remove(i) =~= t);
        lemma_entries_map_contains(t, s[i].col, s[i].key@);
        assert forall|j: int| 0 <= j < t.len() implies !spec_entry_matches(t, j, s[i].col, s[i].key@) by {
            assert(t[j] == s[j]);
        }
        assert(!m.contains_key(key));
        assert(spec_entries_map(t) =~= m.insert(key, lastval).remove(key));
    } else {
        let r = s.remove(i);
        assert(r.last() == s.last());
        assert(r.drop_last() =~= t.remove(i));
        assert(spec_entries_unique(t));
        assert(t[i] == s[i]);
        lemma_entries_map_remove(t, i);
        assert(key != lastkey);
        assert(spec_entries_map(r) == spec_entries_map(t.remove(i)).insert(lastkey, lastval));
        assert(m.remove(key).insert(lastkey, lastval) =~= m.insert(lastkey, lastval).remove(key));
        assert(spec_entries_map(s) == m.insert(lastkey, lastval));
    }
}

/// Appending an entry whose key is absent keeps the keys unique.
proof fn lemma_unique_after_fresh_push(s1: Seq<StoreEntry>, s2: Seq<StoreEntry>, c: u8, k: Seq<u8>)
    requires
        spec_entries_unique(s1),
        forall|j: int| 0 <= j < s1.len() ==> !spec_entry_matches(s1, j, c, k),
        s2.len() == s1.len() + 1,
        forall|j: int| 0 <= j < s1.len() ==> s2[j] == s1[j],
        s2.last().col == c && s2.last().key@ == k,
    ensures
        spec_entries_unique(s2),
{
    assert forall|a: int, b: int| 0 <= a < b < s2.len() implies !(s2[a].col == s2[b].col
        && s2[a].key@ == s2[b].key@) by {
        if b < s2.len() - 1 {
            assert(s2[a] == s1[a] && s2[b] == s1[b]);
        } else {
            assert(s2[a] == s1[a]);
            assert(!spec_entry_matches(s1, a, c, k));
        }
    }
}

/// A fresh vector holding the slice's bytes.
pub fn slice_to_vec(s: &[u8]) -> (r: Vec<u8>)
    ensures
        r@ == s@,
{
    let mut r: Vec<u8> = Vec::new();
    let n = s.len();
    let mut i: usize = 0;
    while i < n
        invariant
            i <= n,
            n == s@.len(),
            r@ == s@.subrange(0, i as int),
        decreases n - i,
    {
        r.push(s[i]);
        i += 1;
        proof {
            assert(r@ =~= s@.subrange(0, i as int));
        }
    }
    proof {
        assert(r@ =~= s@);
    }
    r
}

/// True exactly when the slice and the vector hold the same bytes.
fn slice_eq_vec(a: &[u8], b: &Vec<u8>) -> (r: bool)
    ensures
        r == (a@ == b@),
{
    let n = a.len();
    if n != b.len() {
        return false;
    }
    let mut i: usize = 0;
    while i < n
        invariant
            i <= n,
            n == a@.len(),
            n == b@.len(),
            forall|j: int| 0 <= j < i ==> a@[j] == b@[j],
        decreases n - i,
    {
        if a[i] != b[i] {
            return false;
        }
        i += 1;
    }
    proof {
        assert(a@ =~= b@);
    }
    true
}

/// A verified in-memory `KVStore`: a vector of entries with unique keys.
pub struct MemStore {
    entries: Vec<StoreEntry>,
}

impl MemStore {
    #[verifier::type_invariant]
    spec fn inv(&self) -> bool {
        spec_entries_unique(self.entries@)
    }

    /// An empty store.
    pub fn new() -> (r: MemStore)
        ensures
            r.sview() == Map::<(u8, Seq<u8>), Seq<u8>>::empty(),
    {
        let r = MemStore { entries: Vec::new() };
        r
    }

    /// The index of the entry storing (col, key), if any.
    fn find(&self, col: u8, key: &[u8]) -> (r: Option<usize>)
        ensures
            match r {
                Some(i) => i < self.entries@.len() && spec_entry_matches(
                    self.entries@,
                    i as int,
                    col,
                    key@,
                ),
                None => forall|j: int| 0 <= j < self.entries@.len() ==> !spec_entry_matches(
                    self.entries@,
                    j,
                    col,
                    key@,
                ),
            },
    {
        let mut i: usize = 0;
        while i < self.entries.len()
            invariant
                i <= self.entries@.len(),
                forall|j: int| 0 <= j < i ==> !spec_entry_matches(self.entries@, j, col, key@),
            decreases self.entries@.len() - i,
        {
            let e = &self.entries[i];
            if e.col == col && slice_eq_vec(key, &e.key) {
                return Some(i);
            }
            i += 1;
        }
        None
    }
}

impl KVStore for MemStore {
    closed spec fn sview(&self) -> Map<(u8, Seq<u8>), Seq<u8>> {
        spec_entries_map(self.entries@)
    }

    fn get(&self, col: u8, key: &[u8]) -> (r: Option<Vec<u8>>) {
        proof {
            use_type_invariant(&*self);
            lemma_entries_map_contains(self.entries@, col, key@);
        }
        match self.find(col, key) {
            Some(i) => {
                proof {
                    lemma_entries_map_value(self.entries@, i as int);
                }
                Some(clone_bytes(&self.entries[i].value))
            },
            None => None,
        }
    }

    fn get_iter(&self, col: u8, mode: IteratorMode) -> (r: Vec<(Vec<u8>, Vec<u8>)>) {
        proof {
            use_type_invariant(&*self);
        }
        let ghost s = self.entries@;
        let mut r: Vec<(Vec<u8>, Vec<u8>)> = Vec::new();
        match mode {
            IteratorMode::Start => {
                let mut i: usize = 0;
                while i < self.entries.len()
                    invariant
                        i <= s.len(),
                        s == self.entries@,
                        spec_entries_unique(s),
                        forall|m: int| 0 <= m < r@.len() ==> spec_entries_map(s).contains_key(
                            (col, (#[trigger] r@[m]).0@),
                        ) && r@[m].1@ == spec_entries_map(s)[(col, r@[m].0@)],
                        forall|j: int| 0 <= j < i && s[j].col == col ==> exists|m: int|
                            0 <= m < r@.len() && (#[trigger] r@[m]).0@ == s[j].key@,
                    decreases s.len() - i,
                {
                    let ghost r0 = r@;
                    if self.entries[i].col == col {
                        proof {
                            lemma_entries_map_value(s, i as int);
                        }
                        let k = clone_bytes(&self.entries[i].key);
                        let v = clone_bytes(&self.entries[i].value);
                        r.push((k, v));
                        proof {
                            assert(r@[r@.len() - 1].0@ == s[i as int].key@);
                        }
                    }
                    i += 1;
                    proof {
                        assert forall|j: int| 0 <= j < i && s[j].col == col implies exists|m: int|
                            0 <= m < r@.len() && (#[trigger] r@[m]).0@ == s[j].key@ by {
                            if j < i - 1 {
                                let m = choose|m: int|
                                    0 <= m < r0.len() && (#[trigger] r0[m]).0@ == s[j].key@;
                                assert(r@[m] == r0[m]);
                                assert(r@[m].0@ == s[j].key@);
                            } else {
                                assert(r@[r@.len() - 1].0@ == s[j].key@);
                            }
                        }
                    }
                }
            },
            IteratorMode::End => {
                let mut i: usize = self.entries.len();
                while i > 0
                    invariant
                        i <= s.len(),
                        s == self.entries@,
                        spec_entries_unique(s),
                        forall|m: int| 0 <= m < r@.len() ==> spec_entries_map(s).contains_key(
                            (col, (#[trigger] r@[m]).0@),
                        ) && r@[m].1@ == spec_entries_map(s)[(col, r@[m].0@)],
                        forall|j: int| i <= j < s.len() && s[j].col == col ==> exists|m: int|
                            0 <= m < r@.len() && (#[trigger] r@[m]).0@ == s[j].key@,
                    decreases i,
                {
                    i -= 1;
                    let ghost r0 = r@;
                    if self.entries[i].col == col {
                        proof {
                            lemma_entries_map_value(s, i as int);
                        }
                        let k = clone_bytes(&self.entries[i].key);
                        let v = clone_bytes(&self.entries[i].value);
                        r.push((k, v));
                        proof {
                            assert(r@[r@.len() - 1].0@ == s[i as int].key@);
                        }
                    }
                    proof {
                        assert forall|j: int| i <= j < s.len() && s[j].col == col implies exists|
                            m: int,
                        | 0 <= m < r@.len() && (#[trigger] r@[m]).0@ == s[j].key@ by {
                            if j > i {
                                let m = choose|m: int|
                                    0 <= m < r0.len() && (#[trigger] r0[m]).0@ == s[j].key@;
                                assert(r@[m] == r0[m]);
                                assert(r@[m].0@ == s[j].key@);
                            } else {
                                assert(r@[r@.len() - 1].0@ == s[j].key@);
                            }
                        }
                    }
                }
            },
        }
        proof {
            assert forall|k: Seq<u8>| spec_entries_map(s).contains_key((col, k)) implies exists|
                m: int,
            | 0 <= m < r@.len() && (#[trigger] r@[m]).0@ == k by {
                lemma_entries_map_contains(s, col, k);
                let j = choose|j: int| 0 <= j < s.len() && spec_entry_matches(s, j, col, k);
                assert(s[j].col == col && s[j].key@ == k);
            }
        }
        r
    }

    fn insert_raw(&mut self, col: u8, key: &[u8], value: &[u8]) -> (r: Result<(), Error>) {
        proof {
            use_type_invariant(&*self);
        }
        let ghost s0 = self.entries@;
        let entry = StoreEntry { col, key: slice_to_vec(key), value: slice_to_vec(value) };
        let found = self.find(col, key);
        let mut entries: Vec<StoreEntry> = Vec::new();
        core::mem::swap(&mut entries, &mut self.entries);
        match found {
            Some(i) => {
                proof {
                    lemma_unique_remove(s0, i as int);
                    lemma_entries_map_remove(s0, i as int);
                    s0.remove_ensures(i as int);
                }
                entries.remove(i);
                proof {
                    assert forall|j: int| 0 <= j < entries@.len() implies !spec_entry_matches(
                        entries@,
                        j,
                        col,
                        key@,
                    ) by {
                        let j2 = if j < i {
                            j
                        } else {
                            j + 1
                        };
                        assert(entries@[j] == s0[j2]);
                        if j2 != i && spec_entry_matches(s0, j2, col, key@) {
                            assert(spec_entry_matches(s0, i as int, col, key@));
                        }
                    }
                }
                let ghost s1 = entries@;
                entries.push(entry);
                proof {
                    assert(entries@.drop_last() =~= s1);
                    assert(spec_entries_map(entries@) =~= spec_entries_map(s0).insert(
                        (col, key@),
                        value@,
                    ));
                    lemma_unique_after_fresh_push(s1, entries@, col, key@);
                }
            },
            None => {
                let ghost s1 = entries@;
                entries.push(entry);
                proof {
                    assert(entries@.drop_last() =~= s1);
                    assert(spec_entries_map(entries@) =~= spec_entries_map(s0).insert(
                        (col, key@),
                        value@,
                    ));
                    lemma_unique_after_fresh_push(s1, entries@, col, key@);
                }
            },
        }
        self.entries = entries;
        Ok(())
    }

    fn delete(&mut self, col: u8, key: &[u8]) -> (r: Result<(), Error>) {
        proof {
            use_type_invariant(&*self);
        }
        let ghost s0 = self.entries@;
        let found = self.find(col, key);
        match found {
            Some(i) => {
                let mut entries: Vec<StoreEntry> = Vec::new();
                core::mem::swap(&mut entries, &mut self.entries);
                proof {
                    lemma_unique_remove(s0, i as int);
                    lemma_entries_map_remove(s0, i as int);
                }
                entries.remove(i);
                self.entries = entries;
                Ok(())
            },
            None => {
                proof {
                    lemma_entries_map_contains(s0, col, key@);
                    assert(spec_entries_map(s0) =~= spec_entries_map(s0).remove((col, key@)));
                }
                Ok(())
            },
        }
    }
}

/// A store opened read-only: lookups and iteration answer from the wrapped
/// contents, writes fail with `StorageFailure` and change nothing.
pub struct ReadOnlyStore {
    inner: MemStore,
}

impl ReadOnlyStore {
    /// Freezes a store.
    pub fn new(inner: MemStore) -> (r: ReadOnlyStore)
        ensures
            r.sview() == inner.sview(),
    {
        ReadOnlyStore { inner }
    }
}

impl KVStore for ReadOnlyStore {
    closed spec fn sview(&self) -> Map<(u8, Seq<u8>), Seq<u8>> {
        self.inner.sview()
    }

    fn get(&self, col: u8, key: &[u8]) -> (r: Option<Vec<u8>>) {
        self.inner.get(col, key)
    }

    fn get_iter(&self, col: u8, mode: IteratorMode) -> (r: Vec<(Vec<u8>, Vec<u8>)>) {
        self.inner.get_iter(col, mode)
    }

    fn insert_raw(&mut self, col: u8, key: &[u8], value: &[u8]) -> (r: Result<(), Error>) {
        Err(Error::StorageFailure)
    }

    fn delete(&mut self, col: u8, key: &[u8]) -> (r: Result<(), Error>) {
        Err(Error::StorageFailure)
    }
}

} // verus!
