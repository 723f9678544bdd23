//! Block chunker and rebuilder tests.

use snapshot::block::{Block, Header};
use snapshot::chain::BlockChain;
use snapshot::chunker::chunk_blocks;
use snapshot::compress::decompress;
use snapshot::engine::{Judged, NullEngine};
use snapshot::hash::H256;
use snapshot::io::{MemoryArchive, Recorded};
use snapshot::manifest::ManifestData;
use snapshot::progress::Progress;
use snapshot::rebuilder::BlockRebuilder;
use snapshot::uint::U256;

fn empty_list() -> Vec<u8> {
    vec![0xc0]
}

fn make_block(parent_hash: H256, number: u64) -> Block {
    Block {
        header: Header {
            parent_hash,
            uncles_hash: snapshot::hash::keccak(&empty_list()),
            author: vec![0u8; 20],
            state_root: snapshot::hash::sha3_null_rlp(),
            transactions_root: snapshot::hash::sha3_null_rlp(),
            receipts_root: snapshot::hash::sha3_null_rlp(),
            log_bloom: vec![0u8; 256],
            difficulty: U256::from_u64(1000 + number),
            number,
            gas_limit: U256::from_u64(4_712_388),
            gas_used: U256::zero(),
            timestamp: 1_400_000_000 + 14 * number,
            extra_data: b"generated".to_vec(),
            seal: vec![vec![0xa0; 1].into_iter().chain(vec![0u8; 32]).collect(), vec![0x88, 0, 0, 0, 0, 0, 0, 0, 42]],
        },
        transactions: empty_list(),
        uncles: empty_list(),
    }
}

fn chunk_and_restore(amount: u64) {
    let genesis = make_block(H256::zero(), 0);
    let mut bc = BlockChain::new(genesis.duplicate(), empty_list());

    // build the blockchain.
    for number in 1..=amount {
        let block = make_block(bc.best_block_hash(), number);
        bc.insert_unordered_block(block, empty_list(), None, true);
    }

    let best_hash = bc.best_block_hash();

    // snapshot it.
    let mut writer = Recorded::new(MemoryArchive::new());
    let mut progress = Progress::default();
    let block_hashes = chunk_blocks(&bc, (amount, best_hash), &mut writer, &mut progress).unwrap();
    writer
        .finish(ManifestData {
            state_hashes: Vec::new(),
            block_hashes,
            state_root: H256::zero(),
            block_number: amount,
            block_hash: best_hash,
        })
        .unwrap();

    // restore it.
    let reader = writer.into_inner();
    let new_chain = BlockChain::new(genesis, empty_list());
    let mut rebuilder = BlockRebuilder::new(new_chain, amount).unwrap();
    let mut engine = Judged::new(NullEngine);
    for chunk_hash in &reader.manifest().unwrap().block_hashes {
        let compressed = reader.chunk(chunk_hash).unwrap();
        let chunk = decompress(&compressed).unwrap();
        rebuilder.feed(&chunk, &mut engine).unwrap();
    }

    let new_chain = rebuilder.glue_chunks();

    // and test it.
    assert_eq!(new_chain.best_block_hash(), best_hash);
}

#[test]
fn chunk_and_restore_500() {
    chunk_and_restore(500)
}

#[test]
fn chunk_and_restore_40k() {
    chunk_and_restore(40000)
}
