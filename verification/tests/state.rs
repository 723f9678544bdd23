//! State chunker and rebuilder tests.

use snapshot::account::{Account, Code, FatAccount};
use snapshot::compress::decompress;
use snapshot::error::Error;
use snapshot::hash::{keccak, sha3_empty, sha3_null_rlp, H256};
use snapshot::io::{MemoryArchive, Recorded};
use snapshot::progress::Progress;
use snapshot::state::{StateDb, StoredAccount};
use snapshot::state_chunker::chunk_state;
use snapshot::state_rebuilder::StateRebuilder;
use snapshot::uint::U256;

fn key(n: u64) -> H256 {
    keccak(&n.to_be_bytes())
}

fn sample_state(accounts: u64) -> StateDb {
    let mut state = StateDb::new();
    for n in 0..accounts {
        let mut entries = Vec::new();
        for slot in 0..(n % 4) {
            entries.push((key(1000 * n + slot), vec![(slot + 1) as u8; (n % 7 + 1) as usize]));
        }
        let code = match n % 3 {
            0 => None,
            1 => Some(vec![0x60, 0x00, (n % 5) as u8]),
            _ => Some(b"shared code".to_vec()),
        };
        let account = StoredAccount::new(U256::from_u64(n), U256::from_u64(1_000_000 + n), &entries, code);
        state.insert(key(n), account);
    }
    state
}

fn snapshot_of(state: &StateDb) -> (MemoryArchive, Vec<H256>) {
    let mut writer = Recorded::new(MemoryArchive::new());
    let mut progress = Progress::new();
    let root = state.root();
    let hashes = chunk_state(state, &root, &mut writer, &mut progress).unwrap();
    assert_eq!(progress.accounts(), state.len());
    (writer.into_inner(), hashes)
}

#[test]
fn state_round_trip() {
    let state = sample_state(200);
    let root = state.root();
    let (writer, hashes) = snapshot_of(&state);
    assert!(!hashes.is_empty());
    let mut rebuilder = StateRebuilder::new();
    assert_eq!(rebuilder.state_root(), sha3_null_rlp());
    for hash in &hashes {
        let compressed = writer.state_chunk(hash).unwrap();
        assert_eq!(keccak(&compressed), *hash);
        let chunk = decompress(&compressed).unwrap();
        rebuilder.feed(&chunk).unwrap();
    }
    assert_eq!(rebuilder.state_root(), root);
    let restored = rebuilder.check_missing().unwrap();
    assert_eq!(restored.len(), state.len());
    assert_eq!(restored.root(), root);
    for n in 0..200u64 {
        let a = state.get(&key(n)).unwrap();
        let b = restored.get(&key(n)).unwrap();
        assert_eq!(a.account, b.account);
        assert_eq!(a.code, b.code);
    }
}

#[test]
fn empty_state_has_the_empty_root_and_no_chunks() {
    let state = StateDb::new();
    assert_eq!(state.root(), sha3_null_rlp());
    let (_, hashes) = snapshot_of(&state);
    assert!(hashes.is_empty());
}

#[test]
fn wrong_root_is_refused() {
    let state = sample_state(3);
    let mut writer = Recorded::new(MemoryArchive::new());
    let mut progress = Progress::new();
    let wrong = H256::zero();
    match chunk_state(&state, &wrong, &mut writer, &mut progress) {
        Err(Error::InvalidStateRoot(h)) => assert_eq!(h, wrong),
        other => panic!("unexpected: {:?}", other),
    }
}

fn chunk_of(entries: Vec<(H256, FatAccount)>) -> Vec<u8> {
    let mut items = Vec::new();
    for (address, fat) in entries {
        let compressed = snapshot::compress::compress(&fat.rlp_bytes()).unwrap();
        let pair = snapshot::codec::list_of(&vec![
            snapshot::codec::encode_hash(&address),
            snapshot::codec::string_of(&compressed),
        ]);
        items.push(pair);
    }
    snapshot::codec::list_of(&items)
}

fn plain(code: Code) -> FatAccount {
    FatAccount { nonce: U256::from_u64(1), balance: U256::from_u64(2), code, storage: Vec::new() }
}

#[test]
fn missing_code_is_reported() {
    let h = keccak(b"code that never comes");
    let mut rebuilder = StateRebuilder::new();
    rebuilder.feed(&chunk_of(vec![(key(1), plain(Code::Hash(h))), (key(2), plain(Code::Empty))])).unwrap();
    rebuilder.feed(&chunk_of(vec![(key(3), plain(Code::Inline(b"other".to_vec())))])).unwrap();
    match rebuilder.check_missing() {
        Err(Error::MissingCode(missing)) => assert_eq!(missing, vec![h]),
        other => panic!("unexpected: {:?}", other.map(|s| s.len())),
    }
}

#[test]
fn code_that_comes_later_is_handed_out() {
    let code = b"late code".to_vec();
    let h = keccak(&code);
    let mut rebuilder = StateRebuilder::new();
    rebuilder.feed(&chunk_of(vec![(key(1), plain(Code::Hash(h)))])).unwrap();
    rebuilder.feed(&chunk_of(vec![(key(2), plain(Code::Inline(code.clone())))])).unwrap();
    let state = rebuilder.check_missing().unwrap();
    assert_eq!(state.get(&key(1)).unwrap().code, Some(code.clone()));
    assert_eq!(state.get(&key(2)).unwrap().code, Some(code));
    assert_eq!(state.get(&key(1)).unwrap().account.code_hash, h);
}

#[test]
fn code_that_came_before_is_at_hand() {
    let code = b"early code".to_vec();
    let h = keccak(&code);
    let mut rebuilder = StateRebuilder::new();
    rebuilder.feed(&chunk_of(vec![(key(2), plain(Code::Inline(code.clone())))])).unwrap();
    rebuilder.feed(&chunk_of(vec![(key(1), plain(Code::Hash(h)))])).unwrap();
    let state = rebuilder.check_missing().unwrap();
    assert_eq!(state.get(&key(1)).unwrap().code, Some(code));
}

#[test]
fn malformed_state_chunk_changes_nothing() {
    let mut rebuilder = StateRebuilder::new();
    rebuilder.feed(&chunk_of(vec![(key(1), plain(Code::Empty))])).unwrap();
    let root = rebuilder.state_root();
    assert!(matches!(rebuilder.feed(&[0x83, 1, 2, 3]), Err(Error::Decoder(_))));
    let broken = snapshot::codec::list_of(&vec![snapshot::codec::list_of(&vec![
        snapshot::codec::encode_hash(&key(9)),
        snapshot::codec::string_of(b"not snappy at all, surely"),
    ])]);
    assert_eq!(rebuilder.feed(&broken), Err(Error::Corrupted));
    let fat = plain(Code::Empty).rlp_bytes();
    let mut odd = snapshot::codec::items_of(&fat);
    odd[2] = snapshot::codec::number_of(3);
    let odd_marker = snapshot::codec::list_of(&vec![snapshot::codec::list_of(&vec![
        snapshot::codec::encode_hash(&key(9)),
        snapshot::codec::string_of(&snapshot::compress::compress(&snapshot::codec::list_of(&odd)).unwrap()),
    ])]);
    assert_eq!(rebuilder.feed(&odd_marker), Err(Error::UnrecognizedCodeState(3)));
    assert_eq!(rebuilder.state_root(), root);
}

#[test]
fn storage_entries_with_empty_values_take_their_keys_out() {
    let entries = vec![
        (key(1), vec![1u8]),
        (key(2), vec![2u8]),
        (key(1), Vec::new()),
        (key(3), vec![3u8]),
        (key(3), vec![4u8]),
    ];
    let account = StoredAccount::new(U256::zero(), U256::zero(), &entries, None);
    assert_eq!(account.storage.len(), 2);
    assert_eq!(account.storage.get(&key(1)), None);
    assert_eq!(account.storage.get(&key(3)), Some(&vec![4u8]));
    let same = StoredAccount::new(U256::zero(), U256::zero(), &vec![(key(3), vec![4u8]), (key(2), vec![2u8])], None);
    assert_eq!(account.account.storage_root, same.account.storage_root);
}

#[test]
fn account_without_code_has_the_empty_code_hash() {
    let account = StoredAccount::new(U256::zero(), U256::zero(), &Vec::new(), None);
    assert_eq!(account.account.code_hash, sha3_empty());
    assert_eq!(account.account.storage_root, sha3_null_rlp());
    let thin = account.account.to_thin_rlp();
    assert_eq!(Account::from_thin_rlp(&thin).unwrap(), account.account);
}
