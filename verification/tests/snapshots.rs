//! Whole snapshots: state and blocks, taken and restored.

use snapshot::block::{Block, Header};
use snapshot::chain::BlockChain;
use snapshot::codec::items_of;
use snapshot::compress::decompress;
use snapshot::engine::{Judged, NullEngine};
use snapshot::error::Error;
use snapshot::hash::{keccak, sha3_null_rlp, H256};
use snapshot::io::{MemoryArchive, Recorded};
use snapshot::progress::Progress;
use snapshot::rebuilder::BlockRebuilder;
use snapshot::state::{StateDb, StoredAccount};
use snapshot::state_chunker::chunk_state;
use snapshot::state_rebuilder::StateRebuilder;
use snapshot::take_snapshot;
use snapshot::uint::U256;

fn empty_list() -> Vec<u8> {
    vec![0xc0]
}

fn block(parent_hash: H256, number: u64, state_root: H256) -> Block {
    Block {
        header: Header {
            parent_hash,
            uncles_hash: keccak(&empty_list()),
            author: vec![9u8; 20],
            state_root,
            transactions_root: sha3_null_rlp(),
            receipts_root: sha3_null_rlp(),
            log_bloom: vec![0u8; 256],
            difficulty: U256::from_u64(131_072),
            number,
            gas_limit: U256::from_u64(3_141_592),
            gas_used: U256::zero(),
            timestamp: 1_000 + number,
            extra_data: Vec::new(),
            seal: Vec::new(),
        },
        transactions: empty_list(),
        uncles: empty_list(),
    }
}

fn noise(seed: u64, len: usize) -> Vec<u8> {
    let mut out = Vec::with_capacity(len + 32);
    let mut h = keccak(&seed.to_be_bytes());
    while out.len() < len {
        out.extend_from_slice(&h.to_vec());
        h = keccak(&h.to_vec());
    }
    out.truncate(len);
    out
}

fn state_of(accounts: u64, code_len: usize) -> StateDb {
    let mut state = StateDb::new();
    for n in 0..accounts {
        let entries = vec![(keccak(&[n as u8]), vec![1 + (n % 200) as u8])];
        let account = StoredAccount::new(
            U256::from_u64(n),
            U256::from_u64(n * n),
            &entries,
            Some(noise(n, code_len)),
        );
        state.insert(keccak(&n.to_le_bytes()), account);
    }
    state
}

#[test]
fn snapshot_round_trip() {
    let state = state_of(40, 100);
    let root = state.root();
    let genesis = block(H256::zero(), 0, sha3_null_rlp());
    let mut chain = BlockChain::new(genesis.duplicate(), empty_list());
    for number in 1..=60 {
        let next = block(chain.best_block_hash(), number, root);
        chain.insert_unordered_block(next, empty_list(), None, true);
    }
    let best = chain.best_block_hash();

    let mut writer = Recorded::new(MemoryArchive::new());
    let mut progress = Progress::new();
    take_snapshot(&chain, best, &state, &mut writer, &mut progress).unwrap();
    assert!(progress.done());
    assert_eq!(progress.accounts(), 40);
    assert_eq!(progress.blocks(), 60);
    let archive = writer.into_inner();
    let manifest = archive.manifest().unwrap();
    assert_eq!(manifest.block_hash, best);
    assert_eq!(manifest.block_number, 60);
    assert_eq!(manifest.state_root, root);
    let written: usize = manifest
        .state_hashes
        .iter()
        .chain(manifest.block_hashes.iter())
        .map(|h| archive.chunk(h).unwrap().len())
        .sum();
    assert_eq!(progress.size(), written);

    let mut states = StateRebuilder::new();
    for hash in manifest.state_hashes.iter().rev() {
        let compressed = archive.chunk(hash).unwrap();
        assert_eq!(keccak(&compressed), *hash);
        states.feed(&decompress(&compressed).unwrap()).unwrap();
    }
    assert_eq!(states.state_root(), root);
    let restored_state = states.check_missing().unwrap();
    assert_eq!(restored_state.root(), root);

    let mut blocks = BlockRebuilder::new(BlockChain::new(genesis, empty_list()), manifest.block_number).unwrap();
    let mut engine = Judged::new(NullEngine);
    for hash in manifest.block_hashes.iter() {
        let compressed = archive.chunk(hash).unwrap();
        assert_eq!(keccak(&compressed), *hash);
        blocks.feed(&decompress(&compressed).unwrap(), &mut engine).unwrap();
    }
    let restored_chain = blocks.glue_chunks();
    assert_eq!(restored_chain.best_block_hash(), best);
    assert_eq!(restored_chain.len(), chain.len());
}

#[test]
fn snapshot_of_an_unknown_block_or_a_wrong_state_fails() {
    let state = state_of(3, 10);
    let chain = BlockChain::new(block(H256::zero(), 0, sha3_null_rlp()), empty_list());
    let mut writer = Recorded::new(MemoryArchive::new());
    let mut progress = Progress::new();
    let unknown = keccak(b"nowhere");
    match take_snapshot(&chain, unknown, &state, &mut writer, &mut progress) {
        Err(Error::InvalidStartingBlock(h)) => assert_eq!(h, unknown),
        other => panic!("unexpected: {:?}", other),
    }
    match take_snapshot(&chain, chain.best_block_hash(), &state, &mut writer, &mut progress) {
        Err(Error::InvalidStateRoot(h)) => assert_eq!(h, sha3_null_rlp()),
        other => panic!("unexpected: {:?}", other),
    }
    assert!(!progress.done());
    assert!(writer.into_inner().manifest().is_none());
}

#[test]
fn state_chunks_keep_to_the_preferred_size() {
    let state = state_of(120, 60_000);
    let root = state.root();
    let mut writer = Recorded::new(MemoryArchive::new());
    let mut progress = Progress::new();
    let hashes = chunk_state(&state, &root, &mut writer, &mut progress).unwrap();
    assert!(hashes.len() >= 2, "chunks: {}", hashes.len());
    let archive = writer.into_inner();
    let mut accounts = 0;
    let mut rebuilder = StateRebuilder::new();
    for hash in &hashes {
        let chunk = decompress(&archive.state_chunk(hash).unwrap()).unwrap();
        let entries = items_of(&chunk);
        let total: usize = entries.iter().map(|e| e.len()).sum();
        assert!(total <= snapshot::chunker::PREFERRED_CHUNK_SIZE);
        accounts += entries.len();
        rebuilder.feed(&chunk).unwrap();
    }
    assert_eq!(accounts, 120);
    assert_eq!(rebuilder.state_root(), root);
    assert_eq!(rebuilder.check_missing().unwrap().len(), 120);
}
