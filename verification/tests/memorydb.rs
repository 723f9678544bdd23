//! The memory database and the database on top of it.

use snapshot::dummydb::DummyDB;
use snapshot::hash::{keccak, sha3_null_rlp, H256};
use snapshot::memorydb::MemoryDB;

#[test]
fn memorydb_denote() {
    let mut m = MemoryDB::new();
    let hello_bytes = b"Hello world!";
    let hash = m.insert(hello_bytes);
    assert_eq!(m.get(&hash).unwrap(), b"Hello world!");

    for _ in 0..1000 {
        let r = H256::from_slice(&rand::random::<[u8; 32]>());
        let k = keccak(&r.to_vec());
        let (v, rc) = m.denote(&k, r.to_vec());
        assert_eq!(v, r.to_vec());
        assert_eq!(rc, 0);
    }

    assert_eq!(m.get(&hash).unwrap(), b"Hello world!");
}

#[test]
fn memorydb_remove_and_purge() {
    let hello_bytes = b"Hello world!";
    let hello_key = keccak(hello_bytes);

    let mut m = MemoryDB::new();
    m.remove(&hello_key);
    assert_eq!(m.raw(&hello_key).unwrap().1, -1);
    m.purge();
    assert_eq!(m.raw(&hello_key).unwrap().1, -1);
    m.insert(hello_bytes);
    assert_eq!(m.raw(&hello_key).unwrap().1, 0);
    m.purge();
    assert_eq!(m.raw(&hello_key), None);

    let mut m = MemoryDB::new();
    m.remove_and_purge(&hello_key);
    assert_eq!(m.raw(&hello_key).unwrap().1, -1);
    m.insert(hello_bytes);
    m.insert(hello_bytes);
    assert_eq!(m.raw(&hello_key).unwrap().1, 1);
    m.remove_and_purge(&hello_key);
    assert_eq!(m.raw(&hello_key), None);
}

#[test]
fn memorydb_counts_what_is_put_in_and_taken_out() {
    let mut m = MemoryDB::new();
    let d = b"Hello world!";
    let k = m.insert(d);
    assert!(m.contains(&k));
    assert_eq!(m.get(&k).unwrap(), d);
    m.insert(d);
    assert!(m.contains(&k));
    m.remove(&k);
    assert!(m.contains(&k));
    m.remove(&k);
    assert!(!m.contains(&k));
    m.remove(&k);
    assert!(!m.contains(&k));
    m.insert(d);
    assert!(!m.contains(&k));
    m.insert(d);
    assert!(m.contains(&k));
    assert_eq!(m.get(&k).unwrap(), d);
    m.remove(&k);
    assert!(!m.contains(&k));
    assert_eq!(m.keys(), vec![]);
    m.remove(&k);
    assert_eq!(m.keys(), vec![(k, -1)]);
    m.clear();
    assert_eq!(m.raw(&k), None);
}

#[test]
fn memorydb_knows_the_empty_trie() {
    let mut m = MemoryDB::new();
    assert_eq!(m.insert(&[0x80]), sha3_null_rlp());
    assert_eq!(m.raw(&sha3_null_rlp()), Some((vec![0x80], 1)));
    assert_eq!(m.get(&sha3_null_rlp()), Some(vec![0x80]));
    assert!(m.contains(&sha3_null_rlp()));
    m.remove(&sha3_null_rlp());
    m.remove_and_purge(&sha3_null_rlp());
    assert!(m.contains(&sha3_null_rlp()));
    assert!(m.keys().is_empty());
    assert_eq!(m.drain().len(), 0);
}

#[test]
fn memorydb_emplace_trusts_the_key() {
    let mut m = MemoryDB::new();
    let key = keccak(b"some key");
    m.emplace(key, b"another value".to_vec());
    assert_eq!(m.get(&key), Some(b"another value".to_vec()));
    m.emplace(key, vec![0x80]);
    assert_eq!(m.raw(&key).unwrap().1, 1);
    let drained = m.drain();
    assert_eq!(drained.len(), 1);
    assert_eq!(drained.key_at(0), key);
    assert_eq!(m.get(&key), None);
}

#[test]
fn memorydb_auxiliary_values() {
    let mut m = MemoryDB::new();
    assert_eq!(m.get_aux(b"a"), None);
    m.insert_aux(b"a".to_vec(), b"1".to_vec());
    m.insert_aux(b"b".to_vec(), b"2".to_vec());
    m.insert_aux(b"a".to_vec(), b"3".to_vec());
    assert_eq!(m.get_aux(b"a"), Some(b"3".to_vec()));
    assert_eq!(m.get_aux(b"b"), Some(b"2".to_vec()));
    m.remove_aux(b"a");
    assert_eq!(m.get_aux(b"a"), None);
    assert_eq!(m.drain_aux(), vec![(b"b".to_vec(), b"2".to_vec())]);
    assert_eq!(m.get_aux(b"b"), None);
}

#[test]
fn memorydb_merkle_proof_is_sorted_and_without_repeats() {
    let mut m = MemoryDB::new();
    m.remove(&keccak(b"x"));
    m.remove(&keccak(b"y"));
    m.denote(&keccak(b"b"), b"b".to_vec());
    m.denote(&keccak(b"ab"), b"ab".to_vec());
    m.denote(&keccak(b"a"), b"a".to_vec());
    m.denote(&keccak(b"b again"), b"b".to_vec());
    m.insert(b"not part of the proof");
    assert_eq!(m.merkle_proof(), vec![b"".to_vec(), b"a".to_vec(), b"ab".to_vec(), b"b".to_vec()]);
}

#[test]
fn dummydb_reads_through_and_notes_what_it_read() {
    let items = vec![b"one".to_vec(), b"two".to_vec(), b"one".to_vec()];
    let mut db = DummyDB::new(&items);
    let one = keccak(b"one");
    assert!(db.contains(&one));
    assert_eq!(db.get(&one), Some(b"one".to_vec()));
    assert_eq!(db.get(&keccak(b"three")), None);
    assert_eq!(db.merkle_proof(), vec![b"one".to_vec()]);
    let three = db.insert(b"three");
    assert_eq!(db.get(&three), Some(b"three".to_vec()));
    db.remove(&three);
    assert_eq!(db.get(&three), None);
    assert!(!db.is_empty());
    assert_eq!(db.latest_era(), None);
    assert_eq!(db.state(&one), None);
}

#[test]
fn try_insert_puts_a_value_in_where_its_count_can_go_up() {
    let mut db = DummyDB::new(&Vec::new());
    let key = db.try_insert(b"four").unwrap();
    assert_eq!(key, keccak(b"four"));
    assert_eq!(db.get(&key), Some(b"four".to_vec()));
    assert_eq!(db.try_insert(&[0x80]), Some(snapshot::hash::sha3_null_rlp()));
    let mut plain = MemoryDB::new();
    assert!(!plain.is_full(&key));
    assert_eq!(plain.try_insert(b"four"), Some(key));
    assert_eq!(plain.raw(&key), Some((b"four".to_vec(), 1)));
    assert!(!plain.is_full(&key));
}
