use block_producer::codec::{
    decode_block_record, decode_custodian_args, decode_u64_at, encode_block_record,
    encode_custodian_args, encode_u64,
};

#[test]
fn u64_encoding_is_little_endian() {
    let b = encode_u64(0x0102030405060708);
    assert_eq!(b, vec![8, 7, 6, 5, 4, 3, 2, 1]);
}

#[test]
fn u64_round_trip() {
    let b = encode_u64(u64::MAX - 5);
    assert_eq!(decode_u64_at(&b, 0), u64::MAX - 5);
}

#[test]
fn custodian_args_round_trip() {
    let hash = vec![0xab; 32];
    let args = vec![1, 2, 3, 4, 5];
    let enc = encode_custodian_args(&hash, 42, &args);
    assert_eq!(enc.len(), 40 + args.len());
    let (h, n, a) = decode_custodian_args(&enc).unwrap();
    assert_eq!(h, hash);
    assert_eq!(n, 42);
    assert_eq!(a, args);
}

#[test]
fn custodian_args_too_short() {
    let raw = vec![0u8; 39];
    assert!(decode_custodian_args(&raw).is_none());
}

#[test]
fn block_record_round_trip() {
    let ids = vec![7, 9, 11];
    let rec = encode_block_record(13, &ids);
    let (n, got) = decode_block_record(&rec).unwrap();
    assert_eq!(n, 13);
    assert_eq!(got, ids);
}

#[test]
fn block_record_rejects_malformed() {
    let raw = vec![0u8; 13];
    assert!(decode_block_record(&raw).is_none());
    let raw2 = vec![0u8; 7];
    assert!(decode_block_record(&raw2).is_none());
}
