//! Feeding block chunks: verification, order, failures.

use std::cell::Cell;

use snapshot::block::{AbridgedBlock, Block, Header};
use snapshot::chain::BlockChain;
use snapshot::chunker::{chunk_blocks, PREFERRED_CHUNK_SIZE, SNAPSHOT_BLOCKS};
use snapshot::codec::{encode_hash, list_of, number_of, string_of, uint_of};
use snapshot::compress::decompress;
use snapshot::engine::{Engine, Judged, NullEngine};
use snapshot::error::Error;
use snapshot::hash::{keccak, sha3_null_rlp, H256};
use snapshot::io::{MemoryArchive, Recorded};
use snapshot::progress::Progress;
use snapshot::rebuilder::{check_seal, BlockRebuilder, POW_VERIFY_THRESHOLD};
use snapshot::uint::U256;

fn empty_list() -> Vec<u8> {
    vec![0xc0]
}

fn block(parent_hash: H256, number: u64, extra: usize) -> Block {
    Block {
        header: Header {
            parent_hash,
            uncles_hash: keccak(&empty_list()),
            author: vec![1u8; 20],
            state_root: sha3_null_rlp(),
            transactions_root: sha3_null_rlp(),
            receipts_root: sha3_null_rlp(),
            log_bloom: vec![0u8; 256],
            difficulty: U256::from_u64(10),
            number,
            gas_limit: U256::from_u64(5000),
            gas_used: U256::zero(),
            timestamp: number,
            extra_data: vec![0xee; extra],
            seal: vec![number_of(number)],
        },
        transactions: empty_list(),
        uncles: empty_list(),
    }
}

fn chain_of(amount: u64, extra: usize) -> BlockChain {
    let mut bc = BlockChain::new(block(H256::zero(), 0, 0), empty_list());
    for number in 1..=amount {
        let b = block(bc.best_block_hash(), number, extra);
        bc.insert_unordered_block(b, empty_list(), None, true);
    }
    bc
}

fn chunks_of(bc: &BlockChain, amount: u64) -> Vec<Vec<u8>> {
    let mut writer = Recorded::new(MemoryArchive::new());
    let mut progress = Progress::new();
    let hashes = chunk_blocks(bc, (amount, bc.best_block_hash()), &mut writer, &mut progress).unwrap();
    assert_eq!(progress.blocks() as u64, amount.min(SNAPSHOT_BLOCKS));
    let writer = writer.into_inner();
    hashes
        .iter()
        .map(|h| {
            let compressed = writer.block_chunk(h).unwrap();
            assert_eq!(keccak(&compressed), *h);
            decompress(&compressed).unwrap()
        })
        .collect()
}

struct Counting {
    basic: Cell<u64>,
    seal: Cell<u64>,
    reject_number: Option<u64>,
}

impl Engine for Counting {
    fn verify_block_basic(&self, header: &Header, _block: &[u8]) -> Result<(), String> {
        self.basic.set(self.basic.get() + 1);
        if Some(header.number) == self.reject_number {
            Err("bad structure".to_owned())
        } else {
            Ok(())
        }
    }

    fn verify_block_seal(&self, _header: &Header) -> Result<(), String> {
        self.seal.set(self.seal.get() + 1);
        Ok(())
    }
}

#[test]
fn abridged_block_round_trip() {
    let b = block(keccak(b"parent"), 77, 5);
    let abridged = AbridgedBlock::from_block(&b);
    let restored = abridged.to_block(b.header.parent_hash, 77).unwrap();
    assert_eq!(restored.header.hash(), b.header.hash());
    assert_eq!(restored.rlp_bytes(), b.rlp_bytes());
    let other = abridged.to_block(b.header.parent_hash, 78).unwrap();
    assert_ne!(other.header.hash(), b.header.hash());
    assert!(AbridgedBlock::from_raw(vec![0xc1, 0x80]).to_block(H256::zero(), 1).is_err());
}

#[test]
fn every_block_is_checked_and_about_one_in_fifty_has_its_seal_checked() {
    let amount = 12_000;
    let bc = chain_of(amount, 0);
    let mut engine = Judged::new(Counting { basic: Cell::new(0), seal: Cell::new(0), reject_number: None });
    let mut rebuilder =
        BlockRebuilder::new(BlockChain::new(block(H256::zero(), 0, 0), empty_list()), amount).unwrap();
    let mut fed = 0;
    for chunk in chunks_of(&bc, amount) {
        fed += rebuilder.feed(&chunk, &mut engine).unwrap();
    }
    let engine = engine.into_inner();
    assert_eq!(fed, amount);
    assert_eq!(engine.basic.get(), amount);
    let share = engine.seal.get() as u64 * 1000 / amount;
    assert!(share >= 10 && share <= 30, "seal checks: {}", engine.seal.get());
}

#[test]
fn seal_check_threshold_is_two_percent() {
    assert!(check_seal(0));
    assert!(check_seal(POW_VERIFY_THRESHOLD));
    assert!(!check_seal(POW_VERIFY_THRESHOLD + 1));
    assert!(!check_seal(u32::MAX));
    let step = u32::MAX / 10_000;
    let checked = (1..=10_000u32).filter(|k| check_seal(k * step)).count();
    assert_eq!(checked, 200);
}

#[test]
fn a_block_of_bad_structure_is_always_rejected() {
    let amount = 20;
    let bc = chain_of(amount, 0);
    let mut engine = Judged::new(Counting { basic: Cell::new(0), seal: Cell::new(0), reject_number: Some(7) });
    let genesis = BlockChain::new(block(H256::zero(), 0, 0), empty_list());
    let mut rebuilder = BlockRebuilder::new(genesis, amount).unwrap();
    let chunks = chunks_of(&bc, amount);
    assert_eq!(chunks.len(), 1);
    match rebuilder.feed(&chunks[0], &mut engine) {
        Err(Error::Verification(reason)) => assert_eq!(reason, "bad structure"),
        other => panic!("unexpected: {:?}", other),
    }
    assert_eq!(engine.get_ref().basic.get(), 7);
    let chain = rebuilder.glue_chunks();
    assert_eq!(chain.len(), 7);
    assert!(chain.block_hash(6).is_some());
    assert!(chain.block_hash(7).is_none());
}

#[test]
fn order_of_chunks_does_not_matter() {
    let amount = 9_000;
    let bc = chain_of(amount, 600);
    let chunks = chunks_of(&bc, amount);
    assert!(chunks.len() >= 2, "chunks: {}", chunks.len());
    let mut engine = Judged::new(NullEngine);
    let genesis = || BlockChain::new(block(H256::zero(), 0, 0), empty_list());

    let mut forward = BlockRebuilder::new(genesis(), amount).unwrap();
    for chunk in chunks.iter() {
        forward.feed(chunk, &mut engine).unwrap();
    }
    let forward = forward.glue_chunks();

    let mut backward = BlockRebuilder::new(genesis(), amount).unwrap();
    for chunk in chunks.iter().rev() {
        backward.feed(chunk, &mut engine).unwrap();
    }
    let backward = backward.glue_chunks();

    assert_eq!(forward.best_block_hash(), bc.best_block_hash());
    assert_eq!(backward.best_block_hash(), bc.best_block_hash());
    assert_eq!(forward.len(), backward.len());
    for number in [1u64, 2, 4_000, amount] {
        let hash = bc.block_hash(number).unwrap();
        assert_eq!(forward.block_hash(number), Some(hash));
        assert_eq!(backward.block_hash(number), Some(hash));
        let a = forward.block_details(&hash).unwrap();
        let b = backward.block_details(&hash).unwrap();
        let c = bc.block_details(&hash).unwrap();
        assert_eq!(a.total_difficulty, c.total_difficulty);
        assert_eq!(b.total_difficulty, c.total_difficulty);
        assert_eq!(a.parent, c.parent);
        if number < amount {
            assert_eq!(a.children, c.children);
            assert_eq!(b.children, c.children);
        }
    }
}

#[test]
fn chunks_keep_to_the_preferred_size() {
    let amount = 9_000;
    let bc = chain_of(amount, 600);
    let chunks = chunks_of(&bc, amount);
    let mut total = 0;
    for chunk in &chunks {
        let items = snapshot::codec::items_of(chunk);
        let entries: usize = items[3..].iter().map(|p| p.len()).sum();
        assert!(entries <= PREFERRED_CHUNK_SIZE);
        total += items.len() - 3;
    }
    assert_eq!(total as u64, amount);
    let first = snapshot::codec::items_of(&chunks[0]);
    let last = snapshot::codec::items_of(chunks.last().unwrap());
    assert_eq!(snapshot::codec::number_at(chunks.last().unwrap(), 0), Ok(0));
    assert_eq!(snapshot::codec::hash_at(chunks.last().unwrap(), 1), Ok(bc.genesis_hash()));
    assert!(first.len() > 3 && last.len() > 3);
}

#[test]
fn malformed_block_chunks_are_refused() {
    let mut engine = Judged::new(NullEngine);
    let genesis = BlockChain::new(block(H256::zero(), 0, 0), empty_list());
    let best = genesis.best_block_hash();
    let mut rebuilder = BlockRebuilder::new(genesis, 5).unwrap();
    assert!(matches!(rebuilder.feed(b"junk", &mut engine), Err(Error::Decoder(_))));
    let header_only = list_of(&vec![number_of(0), encode_hash(&best), uint_of(&U256::from_u64(10))]);
    assert_eq!(rebuilder.feed(&header_only, &mut engine).unwrap(), 0);
    let bad_entry = list_of(&vec![
        number_of(0),
        encode_hash(&best),
        uint_of(&U256::from_u64(10)),
        string_of(b"no entry"),
    ]);
    assert!(matches!(rebuilder.feed(&bad_entry, &mut engine), Err(Error::Decoder(_))));
    let overflow = list_of(&vec![
        number_of(u64::MAX),
        encode_hash(&best),
        uint_of(&U256::from_u64(10)),
        list_of(&vec![AbridgedBlock::from_block(&block(best, 1, 0)).into_inner(), empty_list()]),
    ]);
    assert!(matches!(rebuilder.feed(&overflow, &mut engine), Err(Error::Decoder(_))));
    assert_eq!(rebuilder.glue_chunks().len(), 1);
}

#[test]
fn missing_blocks_and_short_chains_are_reported() {
    let bc = chain_of(10, 0);
    let mut writer = Recorded::new(MemoryArchive::new());
    let mut progress = Progress::new();
    let unknown = keccak(b"unknown block");
    match chunk_blocks(&bc, (10, unknown), &mut writer, &mut progress) {
        Err(Error::BlockNotFound(h)) => assert_eq!(h, unknown),
        other => panic!("unexpected: {:?}", other),
    }
    match chunk_blocks(&bc, (SNAPSHOT_BLOCKS + 11, bc.best_block_hash()), &mut writer, &mut progress) {
        Err(Error::IncompleteChain) => {}
        other => panic!("unexpected: {:?}", other),
    }
    assert_eq!(progress.blocks(), 0);
    assert_eq!(progress.size(), 0);
}

struct SealRejecting;

impl Engine for SealRejecting {
    fn verify_block_basic(&self, _header: &Header, _block: &[u8]) -> Result<(), String> {
        Ok(())
    }

    fn verify_block_seal(&self, _header: &Header) -> Result<(), String> {
        Err("bad seal".to_owned())
    }
}

#[test]
fn the_seal_is_checked_where_the_sample_says_so() {
    let genesis = BlockChain::new(block(H256::zero(), 0, 0), empty_list());
    let parent = genesis.best_block_hash();
    let entry = list_of(&vec![AbridgedBlock::from_block(&block(parent, 1, 0)).into_inner(), empty_list()]);
    let mut rebuilder = BlockRebuilder::new(genesis, 1).unwrap();
    let mut engine = Judged::new(SealRejecting);
    match rebuilder.feed_block(&entry, parent, 1, U256::from_u64(10), true, &mut engine, 0) {
        Err(Error::Verification(reason)) => assert_eq!(reason, "bad seal"),
        other => panic!("unexpected: {:?}", other),
    }
    assert!(!rebuilder.chain().is_known(&block(parent, 1, 0).header.hash()));
    let hash = rebuilder
        .feed_block(&entry, parent, 1, U256::from_u64(10), true, &mut engine, POW_VERIFY_THRESHOLD + 1)
        .unwrap();
    assert_eq!(hash, block(parent, 1, 0).header.hash());
    assert!(rebuilder.chain().is_known(&hash));
    assert_eq!(rebuilder.chain().best_block_hash(), hash);
    assert_eq!(rebuilder.chain().block_number(&hash), Some(1));
    assert_eq!(rebuilder.chain().block_details(&parent).unwrap().children, vec![hash]);
    assert_eq!(
        rebuilder.chain().block_details(&hash).unwrap().total_difficulty,
        U256::from_u64(20)
    );
    assert!(matches!(
        rebuilder.feed_block(b"\xc0", hash, 2, U256::from_u64(10), false, &mut engine, u32::MAX),
        Err(Error::Decoder(_))
    ));
}

#[test]
fn a_first_block_without_its_parent_is_glued_on_later() {
    let bc = chain_of(3, 0);
    let b1 = bc.block_hash(1).unwrap();
    let b2 = bc.block_hash(2).unwrap();
    let b3 = bc.block_hash(3).unwrap();
    let td = |h: &H256| bc.block_details(h).unwrap().total_difficulty;
    let entry = |h: &H256| {
        list_of(&vec![AbridgedBlock::from_block(bc.block(h).unwrap()).into_inner(), empty_list()])
    };
    let newer = list_of(&vec![number_of(2), encode_hash(&b2), uint_of(&td(&b2)), entry(&b3)]);
    let older = list_of(&vec![number_of(0), encode_hash(&bc.genesis_hash()), uint_of(&td(&bc.genesis_hash())), entry(&b1), entry(&b2)]);
    let mut engine = Judged::new(NullEngine);
    let mut rebuilder = BlockRebuilder::new(BlockChain::new(block(H256::zero(), 0, 0), empty_list()), 3).unwrap();
    assert_eq!(rebuilder.feed(&newer, &mut engine).unwrap(), 1);
    assert_eq!(rebuilder.chain().block_details(&b3).unwrap().total_difficulty, td(&b3));
    assert_eq!(rebuilder.feed(&older, &mut engine).unwrap(), 2);
    assert!(rebuilder.chain().block_details(&b2).unwrap().children.is_empty());
    let chain = rebuilder.glue_chunks();
    assert_eq!(chain.block_details(&b2).unwrap().children, vec![b3]);
    assert_eq!(chain.block_details(&b1).unwrap().children, vec![b2]);
    assert_eq!(chain.best_block_hash(), b3);
    assert_eq!(chain.block_hash(3), Some(b3));
}

struct Refusing {
    taken: usize,
    limit: usize,
}

impl snapshot::io::SnapshotWriter for Refusing {
    fn write_state_chunk(&mut self, _hash: H256, _chunk: &[u8]) -> Result<(), snapshot::error::IoFailure> {
        Err(snapshot::error::IoFailure { reason: "no state".to_owned() })
    }

    fn write_block_chunk(&mut self, _hash: H256, _chunk: &[u8]) -> Result<(), snapshot::error::IoFailure> {
        if self.taken < self.limit {
            self.taken += 1;
            Ok(())
        } else {
            Err(snapshot::error::IoFailure { reason: "disk full".to_owned() })
        }
    }

    fn finish(&mut self, _manifest: snapshot::manifest::ManifestData) -> Result<(), snapshot::error::IoFailure> {
        Ok(())
    }
}

#[test]
fn a_sink_that_refuses_a_chunk_ends_the_chunking() {
    let amount = 9_000;
    let bc = chain_of(amount, 600);
    let mut writer = Recorded::new(Refusing { taken: 0, limit: 1 });
    let mut progress = Progress::new();
    match chunk_blocks(&bc, (amount, bc.best_block_hash()), &mut writer, &mut progress) {
        Err(Error::Io(failure)) => assert_eq!(failure.reason, "disk full"),
        other => panic!("unexpected: {:?}", other),
    }
    assert_eq!(writer.get_ref().taken, 1);
    assert!(progress.blocks() > 0 && (progress.blocks() as u64) < amount);
}
