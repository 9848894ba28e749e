use block_producer::Error;
use block_producer::store::{IteratorMode, KVStore, MemStore, ReadOnlyStore};

#[test]
fn insert_then_get() {
    let mut s = MemStore::new();
    s.insert_raw(0, &[1, 2], &[3, 4]).unwrap();
    assert_eq!(s.get(0, &[1, 2]), Some(vec![3, 4]));
    assert_eq!(s.get(1, &[1, 2]), None);
    assert_eq!(s.get(0, &[1]), None);
}

#[test]
fn insert_overwrites() {
    let mut s = MemStore::new();
    s.insert_raw(0, &[1], &[3]).unwrap();
    s.insert_raw(0, &[1], &[4]).unwrap();
    assert_eq!(s.get(0, &[1]), Some(vec![4]));
}

#[test]
fn delete_removes() {
    let mut s = MemStore::new();
    s.insert_raw(0, &[1], &[3]).unwrap();
    s.delete(0, &[1]).unwrap();
    assert_eq!(s.get(0, &[1]), None);
    // deleting an absent key succeeds and changes nothing
    s.delete(0, &[9]).unwrap();
}

#[test]
fn iteration_walks_one_column_in_both_directions() {
    let mut s = MemStore::new();
    s.insert_raw(0, &[1], &[10]).unwrap();
    s.insert_raw(0, &[2], &[20]).unwrap();
    s.insert_raw(1, &[3], &[30]).unwrap();
    let fwd = s.get_iter(0, IteratorMode::Start);
    assert_eq!(fwd.len(), 2);
    assert_eq!(fwd[0], (vec![1], vec![10]));
    assert_eq!(fwd[1], (vec![2], vec![20]));
    let bwd = s.get_iter(0, IteratorMode::End);
    assert_eq!(bwd.len(), 2);
    assert_eq!(bwd[0], (vec![2], vec![20]));
    assert_eq!(bwd[1], (vec![1], vec![10]));
}

#[test]
fn read_only_store_serves_reads_and_refuses_writes() {
    let mut inner = MemStore::new();
    inner.insert_raw(0, &[1], &[3]).unwrap();
    let mut frozen = ReadOnlyStore::new(inner);
    assert_eq!(frozen.get(0, &[1]), Some(vec![3]));
    assert_eq!(frozen.insert_raw(0, &[2], &[4]), Err(Error::StorageFailure));
    assert_eq!(frozen.delete(0, &[1]), Err(Error::StorageFailure));
    assert_eq!(frozen.get(0, &[1]), Some(vec![3]));
    assert_eq!(frozen.get(0, &[2]), None);
}
