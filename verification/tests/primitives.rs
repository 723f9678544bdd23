//! Hashes, numbers, encodings, compression and tries.

use snapshot::codec::{
    data_at, encode_hash, hash_at, is_list, items_of, list_at, list_of, number_at, number_of,
    raw_at, string_of, uint_at, uint_of,
};
use snapshot::compress::{compress, decompress};
use snapshot::error::DecodeError;
use snapshot::hash::{keccak, sha3_empty, sha3_null_rlp, H256};
use snapshot::trie::compute_root;
use snapshot::uint::U256;

fn hex(h: &H256) -> String {
    h.to_vec().iter().map(|b| format!("{:02x}", b)).collect()
}

#[test]
fn keccak_of_known_inputs() {
    assert_eq!(hex(&keccak(b"")), "c5d2460186f7233c927e7db2dcc703c0e500b653ca82273b7bfad8045d85a470");
    assert_eq!(keccak(b""), sha3_empty());
    assert_eq!(keccak(&[0x80]), sha3_null_rlp());
    assert_eq!(hex(&keccak(b"abc")), "4e03657aea45a94fc7d47ba826c8d667c0d1e6e33a64a036ec44f58fa12d6c45");
}

#[test]
fn hash_bytes_round_trip_and_order() {
    let bytes: Vec<u8> = (0u8..32).collect();
    let h = H256::from_slice(&bytes);
    assert_eq!(h.to_vec(), bytes);
    assert_eq!(h.w0, 0x0001020304050607);
    assert_eq!(H256::try_from_slice(&bytes[..31]), None);
    assert_eq!(H256::try_from_slice(&bytes), Some(h));
    let mut bigger = bytes.clone();
    bigger[31] += 1;
    assert!(h.lt(&H256::from_slice(&bigger)));
    assert!(!H256::from_slice(&bigger).lt(&h));
    assert!(!h.lt(&h));
    assert_eq!(H256::zero().to_vec(), vec![0u8; 32]);
}

#[test]
fn u256_addition_carries_and_wraps() {
    let max = U256 { w0: u64::MAX, w1: u64::MAX, w2: u64::MAX, w3: u64::MAX };
    assert_eq!(max.overflowing_add(&U256::from_u64(1)), (U256::zero(), true));
    let a = U256 { w0: 0, w1: 0, w2: 0, w3: u64::MAX };
    assert_eq!(a.overflowing_add(&U256::from_u64(1)), (U256 { w0: 0, w1: 0, w2: 1, w3: 0 }, false));
    assert_eq!(U256::from_u64(2).overflowing_add(&U256::from_u64(3)), (U256::from_u64(5), false));
}

#[test]
fn numbers_are_encoded_without_leading_zeros() {
    assert_eq!(number_of(0), vec![0x80]);
    assert_eq!(number_of(15), vec![0x0f]);
    assert_eq!(number_of(1024), vec![0x82, 0x04, 0x00]);
    assert_eq!(uint_of(&U256::zero()), vec![0x80]);
    assert_eq!(uint_of(&U256::from_u64(1024)), vec![0x82, 0x04, 0x00]);
    let big = U256 { w0: 1, w1: 0, w2: 0, w3: 0 };
    let mut expected = vec![0x80 + 25, 1];
    expected.extend_from_slice(&[0u8; 24]);
    assert_eq!(uint_of(&big), expected);
}

#[test]
fn strings_and_lists_are_encoded() {
    assert_eq!(string_of(b"dog"), vec![0x83, b'd', b'o', b'g']);
    assert_eq!(string_of(b""), vec![0x80]);
    assert_eq!(string_of(&[0x7f]), vec![0x7f]);
    assert_eq!(list_of(&vec![]), vec![0xc0]);
    assert_eq!(
        list_of(&vec![string_of(b"cat"), string_of(b"dog")]),
        vec![0xc8, 0x83, b'c', b'a', b't', 0x83, b'd', b'o', b'g']
    );
    let h = keccak(b"x");
    let mut expected = vec![0xa0];
    expected.extend_from_slice(&h.to_vec());
    assert_eq!(encode_hash(&h), expected);
}

#[test]
fn items_are_read_back() {
    let h = keccak(b"y");
    let inner = list_of(&vec![number_of(7)]);
    let list = list_of(&vec![
        number_of(1024),
        encode_hash(&h),
        uint_of(&U256::from_u64(99)),
        string_of(b"bytes"),
        inner.clone(),
    ]);
    assert!(is_list(&list));
    assert!(!is_list(&number_of(3)));
    assert!(!is_list(&[]));
    assert_eq!(number_at(&list, 0), Ok(1024));
    assert_eq!(hash_at(&list, 1), Ok(h));
    assert_eq!(uint_at(&list, 2), Ok(U256::from_u64(99)));
    assert_eq!(data_at(&list, 3), Ok(b"bytes".to_vec()));
    assert_eq!(raw_at(&list, 3), Ok(string_of(b"bytes")));
    assert_eq!(list_at(&list, 4), Ok(inner));
    assert_eq!(list_at(&list, 3), Err(DecodeError::RlpExpectedToBeList));
    assert_eq!(items_of(&list).len(), 5);
    assert_eq!(items_of(&list)[0], number_of(1024));
    assert_eq!(items_of(&number_of(3)).len(), 0);
}

#[test]
fn decoding_errors_are_told_apart() {
    let list = list_of(&vec![string_of(b"short"), list_of(&vec![]), vec![0x82, 0x00, 0x01]]);
    assert_eq!(hash_at(&list, 0), Err(DecodeError::RlpIsTooShort));
    assert_eq!(hash_at(&list_of(&vec![string_of(&[1u8; 33])]), 0), Err(DecodeError::RlpIsTooBig));
    assert_eq!(number_at(&list, 1), Err(DecodeError::RlpExpectedToBeData));
    assert_eq!(number_at(&list, 2), Err(DecodeError::RlpInvalidIndirection));
    assert_eq!(number_at(&list, 7), Err(DecodeError::RlpIsTooShort));
    assert_eq!(number_at(&string_of(b"no list"), 0), Err(DecodeError::RlpExpectedToBeList));
    assert_eq!(number_at(&list_of(&vec![string_of(&[1u8; 9])]), 0), Err(DecodeError::RlpIsTooBig));
    assert_eq!(data_at(&[0xc2, 0xb8, 0x00], 0), Err(DecodeError::RlpDataLenWithZeroPrefix));
}

#[test]
fn compression_round_trips_and_shrinks() {
    let data = vec![7u8; 10_000];
    let compressed = compress(&data).unwrap();
    assert!(compressed.len() < 1000);
    assert_ne!(compressed, data);
    assert_eq!(decompress(&compressed), Some(data));
    assert_eq!(compress(b""), Some(vec![0]));
    assert_eq!(decompress(b"\xff\xff\xff\xff\xff\xff"), None);
}

#[test]
fn trie_roots_of_known_tries() {
    assert_eq!(compute_root(&Vec::new()), sha3_null_rlp());
    let one = vec![(keccak(&[0x01u8, 0x23]), vec![0x01u8, 0x23])];
    assert_ne!(compute_root(&one), sha3_null_rlp());
    // the trie of three entries under the hashes of their names
    let three = vec![
        (keccak(b"doe"), b"reindeer".to_vec()),
        (keccak(b"dog"), b"puppy".to_vec()),
        (keccak(b"dogglesworth"), b"cat".to_vec()),
    ];
    assert_eq!(hex(&compute_root(&three)), "d4cd937e4a4368d7931a9cf51686b7e10abb3dce38a39000fd7902a092b64585");
    // the order of the entries does not matter, their values do
    let turned: Vec<_> = three.iter().rev().cloned().collect();
    assert_eq!(compute_root(&turned), compute_root(&three));
    let mut other = three.clone();
    other[1].1 = b"kitten".to_vec();
    assert_ne!(compute_root(&other), compute_root(&three));
}
