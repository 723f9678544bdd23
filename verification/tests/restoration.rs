//! Restoring whole snapshots from a source of chunks.

use snapshot::block::{Block, Header};
use snapshot::chain::BlockChain;
use snapshot::codec::{items_of, list_items, list_of, number_of};
use snapshot::engine::{Judged, NullEngine};
use snapshot::error::{Error, IoFailure};
use snapshot::hash::{keccak, sha3_null_rlp, H256};
use snapshot::io::{Fetched, MemoryArchive, MemorySnapshot, Recorded, SnapshotReader, SnapshotWriter};
use snapshot::manifest::ManifestData;
use snapshot::progress::Progress;
use snapshot::restoration::{restore_using, Restoration};
use snapshot::state::{StateDb, StoredAccount};
use snapshot::state_rebuilder::rebuild_accounts;
use snapshot::take_snapshot;
use snapshot::uint::U256;

fn no_receipts() -> Vec<u8> {
    vec![0xc0]
}

fn plain_block(parent_hash: H256, number: u64, state_root: H256) -> Block {
    Block {
        header: Header {
            parent_hash,
            uncles_hash: keccak(&no_receipts()),
            author: vec![7u8; 20],
            state_root,
            transactions_root: sha3_null_rlp(),
            receipts_root: sha3_null_rlp(),
            log_bloom: vec![0u8; 256],
            difficulty: U256::from_u64(131_072),
            number,
            gas_limit: U256::from_u64(3_141_592),
            gas_used: U256::zero(),
            timestamp: 2_000 + number,
            extra_data: Vec::new(),
            seal: Vec::new(),
        },
        transactions: no_receipts(),
        uncles: no_receipts(),
    }
}

fn some_state(accounts: u64) -> StateDb {
    let mut state = StateDb::new();
    for n in 0..accounts {
        let entries = vec![(keccak(&[n as u8, 1]), vec![1 + (n % 100) as u8])];
        let code = if n % 3 == 0 { None } else { Some(vec![n as u8; 40 + (n % 5) as usize]) };
        let account = StoredAccount::new(U256::from_u64(n), U256::from_u64(7 * n), &entries, code);
        state.insert(keccak(&n.to_be_bytes()), account);
    }
    state
}

fn genesis() -> Block {
    plain_block(H256::zero(), 0, sha3_null_rlp())
}

/// A chain of `blocks` blocks over the genesis block, a state, and the snapshot of both.
fn snapshot_of(blocks: u64, accounts: u64) -> (BlockChain, StateDb, MemorySnapshot) {
    let state = some_state(accounts);
    let root = state.root();
    let mut chain = BlockChain::new(genesis(), no_receipts());
    for number in 1..=blocks {
        let next = plain_block(chain.best_block_hash(), number, root);
        chain.insert_unordered_block(next, no_receipts(), None, true);
    }
    let mut writer = Recorded::new(MemoryArchive::new());
    let mut progress = Progress::new();
    take_snapshot(&chain, chain.best_block_hash(), &state, &mut writer, &mut progress).unwrap();
    let taken = writer.into_inner().into_snapshot().unwrap();
    (chain, state, taken)
}

fn copy_of(m: &ManifestData) -> ManifestData {
    m.duplicate()
}

#[test]
fn restore_yields_the_best_block_and_the_state_root() {
    let (chain, state, taken) = snapshot_of(50, 30);
    let mut reader = Fetched::new(taken);
    let mut engine = Judged::new(NullEngine);
    let (restored_chain, restored_state) =
        restore_using(&mut reader, BlockChain::new(genesis(), no_receipts()), &mut engine).unwrap();
    assert_eq!(restored_chain.best_block_hash(), chain.best_block_hash());
    assert_eq!(restored_chain.len(), chain.len());
    assert_eq!(restored_state.root(), state.root());
    assert_eq!(restored_state.len(), state.len());
    for number in 0..=50 {
        assert_eq!(restored_chain.block_hash(number), chain.block_hash(number));
    }
}

#[test]
fn unfinished_archive_is_no_snapshot() {
    assert!(MemoryArchive::new().into_snapshot().is_none());
}

#[test]
fn memory_snapshot_gives_its_chunks_and_fails_on_others() {
    let (_, _, taken) = snapshot_of(5, 5);
    let manifest = copy_of(taken.manifest());
    assert!(!manifest.state_hashes.is_empty());
    assert!(!manifest.block_hashes.is_empty());
    for hash in manifest.state_hashes.iter().chain(manifest.block_hashes.iter()) {
        assert_eq!(keccak(&taken.chunk(*hash).unwrap()), *hash);
    }
    assert!(taken.chunk(keccak(b"no chunk")).is_err());
}

#[test]
fn chunks_are_fed_once_and_in_any_order() {
    let (chain, state, taken) = snapshot_of(40, 20);
    let manifest = copy_of(taken.manifest());
    let mut restoration = Restoration::new(copy_of(&manifest), BlockChain::new(genesis(), no_receipts()));
    let mut engine = Judged::new(NullEngine);
    assert!(!restoration.is_done());
    // blocks first, newest chunk last; each chunk twice
    for hash in manifest.block_hashes.iter().rev() {
        let chunk = taken.chunk(*hash).unwrap();
        restoration.feed_blocks(*hash, &chunk, &mut engine).unwrap();
        restoration.feed_blocks(*hash, &chunk, &mut engine).unwrap();
    }
    for hash in manifest.state_hashes.iter().rev() {
        let chunk = taken.chunk(*hash).unwrap();
        restoration.feed_state(*hash, &chunk).unwrap();
        restoration.feed_state(*hash, &chunk).unwrap();
    }
    assert!(restoration.is_done());
    let (restored_chain, restored_state) = restoration.finalize().unwrap();
    assert_eq!(restored_chain.best_block_hash(), chain.best_block_hash());
    assert_eq!(restored_chain.len(), chain.len());
    assert_eq!(restored_state.root(), state.root());
}

#[test]
fn chunk_that_is_not_what_its_hash_names_is_refused() {
    let (_, _, taken) = snapshot_of(10, 10);
    let manifest = copy_of(taken.manifest());
    let mut restoration = Restoration::new(copy_of(&manifest), BlockChain::new(genesis(), no_receipts()));
    let mut engine = Judged::new(NullEngine);
    let state_hash = manifest.state_hashes[0];
    let block_hash = manifest.block_hashes[0];
    let mut chunk = taken.chunk(state_hash).unwrap();
    chunk[0] ^= 1;
    assert_eq!(restoration.feed_state(state_hash, &chunk), Err(Error::Corrupted));
    // a state chunk under the hash of a block chunk
    assert_eq!(
        restoration.feed_blocks(block_hash, &taken.chunk(state_hash).unwrap(), &mut engine),
        Err(Error::Corrupted)
    );
    // the right chunks are still taken
    restoration.feed_state(state_hash, &taken.chunk(state_hash).unwrap()).unwrap();
    restoration.feed_blocks(block_hash, &taken.chunk(block_hash).unwrap(), &mut engine).unwrap();
}

#[test]
fn chunk_that_the_manifest_does_not_name_is_passed_over() {
    let (_, _, taken) = snapshot_of(10, 10);
    let manifest = copy_of(taken.manifest());
    let mut restoration = Restoration::new(copy_of(&manifest), BlockChain::new(genesis(), no_receipts()));
    let mut engine = Judged::new(NullEngine);
    let stray = b"not a chunk".to_vec();
    assert_eq!(restoration.feed_state(keccak(&stray), &stray), Ok(()));
    assert_eq!(restoration.feed_blocks(keccak(&stray), &stray, &mut engine), Ok(()));
    assert_eq!(restoration.open_state(keccak(&stray), &stray), Ok(None));
    // a state chunk is no block chunk
    let state_hash = manifest.state_hashes[0];
    assert_eq!(restoration.feed_blocks(state_hash, &taken.chunk(state_hash).unwrap(), &mut engine), Ok(()));
    assert!(!restoration.is_done());
}

#[test]
fn valid_stream_that_is_no_chunk_fails_to_decode() {
    let garbage = snapshot::compress::compress(b"certainly no list of accounts").unwrap();
    let hash = keccak(&garbage);
    let manifest = ManifestData {
        state_hashes: vec![hash],
        block_hashes: vec![hash],
        state_root: sha3_null_rlp(),
        block_number: 0,
        block_hash: H256::zero(),
    };
    let mut restoration = Restoration::new(manifest, BlockChain::new(genesis(), no_receipts()));
    let mut engine = Judged::new(NullEngine);
    assert!(matches!(restoration.feed_state(hash, &garbage), Err(Error::Decoder(_))));
    assert!(matches!(restoration.feed_blocks(hash, &garbage, &mut engine), Err(Error::Decoder(_))));
    // bytes that are no compressed stream at all
    let noise = vec![0xffu8; 9];
    let manifest = ManifestData {
        state_hashes: vec![keccak(&noise)],
        block_hashes: Vec::new(),
        state_root: sha3_null_rlp(),
        block_number: 0,
        block_hash: H256::zero(),
    };
    let mut restoration = Restoration::new(manifest, BlockChain::new(genesis(), no_receipts()));
    assert_eq!(restoration.feed_state(keccak(&noise), &noise), Err(Error::Corrupted));
}

#[test]
fn ending_early_reports_missing_chunks() {
    let (_, _, taken) = snapshot_of(10, 10);
    let manifest = copy_of(taken.manifest());
    let mut restoration = Restoration::new(copy_of(&manifest), BlockChain::new(genesis(), no_receipts()));
    for hash in manifest.state_hashes.iter() {
        restoration.feed_state(*hash, &taken.chunk(*hash).unwrap()).unwrap();
    }
    assert!(matches!(restoration.finalize(), Err(Error::MissingChunks)));
}

#[test]
fn wrong_state_root_or_block_in_the_manifest_is_found() {
    let (_, _, taken) = snapshot_of(10, 10);
    let good = copy_of(taken.manifest());
    let feed_all = |manifest: ManifestData| {
        let mut restoration = Restoration::new(manifest, BlockChain::new(genesis(), no_receipts()));
        let mut engine = Judged::new(NullEngine);
        for hash in good.state_hashes.iter() {
            restoration.feed_state(*hash, &taken.chunk(*hash).unwrap()).unwrap();
        }
        for hash in good.block_hashes.iter() {
            restoration.feed_blocks(*hash, &taken.chunk(*hash).unwrap(), &mut engine).unwrap();
        }
        restoration.finalize().map(|_| ())
    };
    let mut wrong_root = copy_of(&good);
    wrong_root.state_root = keccak(b"another root");
    assert_eq!(feed_all(wrong_root), Err(Error::InvalidStateRoot(keccak(b"another root"))));
    let mut wrong_block = copy_of(&good);
    wrong_block.block_hash = keccak(b"another block");
    assert_eq!(feed_all(wrong_block), Err(Error::BlockNotFound(keccak(b"another block"))));
    assert_eq!(feed_all(copy_of(&good)), Ok(()));
}

#[test]
fn empty_snapshot_restores_to_the_chain_as_it_is() {
    let chain = BlockChain::new(genesis(), no_receipts());
    let best = chain.best_block_hash();
    let mut writer = Recorded::new(MemoryArchive::new());
    let mut progress = Progress::new();
    take_snapshot(&chain, best, &StateDb::new(), &mut writer, &mut progress).unwrap();
    let taken = writer.into_inner().into_snapshot().unwrap();
    assert!(taken.manifest().state_hashes.is_empty());
    assert!(taken.manifest().block_hashes.is_empty());
    let mut reader = Fetched::new(taken);
    let mut engine = Judged::new(NullEngine);
    let (restored_chain, restored_state) =
        restore_using(&mut reader, BlockChain::new(genesis(), no_receipts()), &mut engine).unwrap();
    assert_eq!(restored_chain.best_block_hash(), best);
    assert_eq!(restored_chain.len(), 1);
    assert_eq!(restored_state.len(), 0);
    assert_eq!(restored_state.root(), sha3_null_rlp());
}

/// A source that has the manifest and, of the chunks, only the first `limit` that are asked for.
struct Failing {
    inner: MemorySnapshot,
    limit: usize,
    asked: std::cell::Cell<usize>,
}

impl SnapshotReader for Failing {
    fn manifest(&self) -> &ManifestData {
        self.inner.manifest()
    }

    fn chunk(&self, hash: H256) -> Result<Vec<u8>, IoFailure> {
        let n = self.asked.get();
        self.asked.set(n + 1);
        if n < self.limit {
            self.inner.chunk(hash)
        } else {
            Err(IoFailure { reason: "the source is gone".to_owned() })
        }
    }
}

#[test]
fn restore_stops_at_the_first_chunk_that_cannot_be_read() {
    let (_, _, taken) = snapshot_of(10, 10);
    let source = Failing { inner: taken, limit: 1, asked: std::cell::Cell::new(0) };
    let mut reader = Fetched::new(source);
    let mut engine = Judged::new(NullEngine);
    match restore_using(&mut reader, BlockChain::new(genesis(), no_receipts()), &mut engine) {
        Err(Error::Io(failure)) => assert_eq!(failure.reason, "the source is gone"),
        other => panic!("unexpected: {:?}", other.map(|_| ())),
    }
    assert_eq!(reader.into_inner().asked.get(), 2);
}

#[test]
fn accounts_rebuilt_in_shares_give_the_same_state() {
    let (_, state, taken) = snapshot_of(3, 25);
    let manifest = copy_of(taken.manifest());
    let mut restoration = Restoration::new(copy_of(&manifest), BlockChain::new(genesis(), no_receipts()));
    let mut engine = Judged::new(NullEngine);
    for hash in manifest.state_hashes.iter() {
        let bytes = restoration.open_state(*hash, &taken.chunk(*hash).unwrap()).unwrap().unwrap();
        let entries = items_of(&bytes);
        let share = snapshot::state_rebuilder::shard_size(entries.len(), 4);
        let mut outs = Vec::new();
        for part in entries.chunks(share) {
            outs.extend(rebuild_accounts(part, restoration.code_map()).unwrap());
        }
        restoration.absorb_state(outs);
    }
    for hash in manifest.block_hashes.iter() {
        restoration.feed_blocks(*hash, &taken.chunk(*hash).unwrap(), &mut engine).unwrap();
    }
    let (_, restored_state) = restoration.finalize().unwrap();
    assert_eq!(restored_state.root(), state.root());
    assert_eq!(restored_state.len(), 25);
}

#[test]
fn missing_code_is_reported_at_the_end() {
    // two accounts with the same code: the second refers to it by hash; the
    // chunk is cut down to the second entry alone.
    let mut state = StateDb::new();
    let code = vec![0x60u8; 64];
    for n in 0..2u64 {
        let account = StoredAccount::new(U256::from_u64(n), U256::zero(), &Vec::new(), Some(code.clone()));
        state.insert(keccak(&[n as u8]), account);
    }
    let root = state.root();
    let mut writer = Recorded::new(MemoryArchive::new());
    let mut progress = Progress::new();
    let hashes = snapshot::chunk_state(&state, &root, &mut writer, &mut progress).unwrap();
    assert_eq!(hashes.len(), 1);
    let archive = writer.into_inner();
    let whole = snapshot::compress::decompress(&archive.state_chunk(&hashes[0]).unwrap()).unwrap();
    let entries = items_of(&whole);
    assert_eq!(entries.len(), 2);
    let cut = snapshot::codec::list_of(&entries[1..].to_vec());
    let packed = snapshot::compress::compress(&cut).unwrap();
    let hash = keccak(&packed);
    // the root of the state with the second account alone is not known
    // beforehand: take it from a first run.
    let mut first = snapshot::StateRebuilder::new();
    first.feed(&cut).unwrap();
    let manifest = ManifestData {
        state_hashes: vec![hash],
        block_hashes: Vec::new(),
        state_root: first.state_root(),
        block_number: 0,
        block_hash: genesis().header.hash(),
    };
    let mut restoration = Restoration::new(manifest, BlockChain::new(genesis(), no_receipts()));
    restoration.feed_state(hash, &packed).unwrap();
    assert_eq!(restoration.finalize().map(|_| ()), Err(Error::MissingCode(vec![keccak(&code)])));
}

#[test]
fn chunk_with_bytes_after_the_list_or_cut_short_is_refused() {
    let (_, _, taken) = snapshot_of(6, 6);
    let manifest = copy_of(taken.manifest());
    let state_chunk = snapshot::compress::decompress(&taken.chunk(manifest.state_hashes[0]).unwrap()).unwrap();
    let block_chunk = snapshot::compress::decompress(&taken.chunk(manifest.block_hashes[0]).unwrap()).unwrap();

    let mut longer = state_chunk.clone();
    longer.push(0x01);
    let mut states = snapshot::StateRebuilder::new();
    assert_eq!(
        states.feed(&longer),
        Err(Error::Decoder(snapshot::error::DecodeError::RlpInconsistentLengthAndData))
    );
    let shorter = &state_chunk[..state_chunk.len() - 1];
    assert_eq!(
        states.feed(shorter),
        Err(Error::Decoder(snapshot::error::DecodeError::RlpInconsistentLengthAndData))
    );
    assert_eq!(states.feed(&[0x80]), Err(Error::Decoder(snapshot::error::DecodeError::RlpExpectedToBeList)));
    assert_eq!(states.state_root(), sha3_null_rlp());
    states.feed(&state_chunk).unwrap();

    let mut engine = Judged::new(NullEngine);
    let mut longer = block_chunk.clone();
    longer.push(0x01);
    let mut blocks =
        snapshot::BlockRebuilder::new(BlockChain::new(genesis(), no_receipts()), manifest.block_number).unwrap();
    assert!(matches!(blocks.feed(&longer, &mut engine), Err(Error::Decoder(_))));
    let shorter = &block_chunk[..block_chunk.len() - 1];
    assert!(matches!(blocks.feed(shorter, &mut engine), Err(Error::Decoder(_))));
    assert_eq!(blocks.feed(&block_chunk, &mut engine), Ok(6));
}

#[test]
fn strict_lists_are_told_from_loose_ones() {
    let list = list_of(&vec![number_of(1), number_of(1024), list_of(&Vec::new())]);
    assert_eq!(list_items(&list).unwrap().len(), 3);
    assert_eq!(list_items(&[0xc0]).unwrap().len(), 0);
    let mut longer = list.clone();
    longer.push(0x00);
    assert_eq!(list_items(&longer), Err(snapshot::error::DecodeError::RlpInconsistentLengthAndData));
    assert_eq!(
        list_items(&list[..list.len() - 1]),
        Err(snapshot::error::DecodeError::RlpInconsistentLengthAndData)
    );
    // the head promises three bytes, the one item in it promises more than are left
    assert_eq!(
        list_items(&[0xc3, 0x85, 0x01, 0x02]),
        Err(snapshot::error::DecodeError::RlpInconsistentLengthAndData)
    );
    assert_eq!(list_items(&number_of(3)), Err(snapshot::error::DecodeError::RlpExpectedToBeList));
    assert_eq!(list_items(&[]), Err(snapshot::error::DecodeError::RlpExpectedToBeList));
}

/// A sink that takes so many chunks and then refuses whatever comes.
struct Refusing {
    inner: MemoryArchive,
    left: usize,
}
impl SnapshotWriter for Refusing {
    fn write_state_chunk(&mut self, hash: H256, chunk: &[u8]) -> Result<(), IoFailure> {
        if self.left == 0 {
            return Err(IoFailure { reason: "full".to_owned() });
        }
        self.left -= 1;
        self.inner.write_state_chunk(hash, chunk)
    }
    fn write_block_chunk(&mut self, hash: H256, chunk: &[u8]) -> Result<(), IoFailure> {
        if self.left == 0 {
            return Err(IoFailure { reason: "full".to_owned() });
        }
        self.left -= 1;
        self.inner.write_block_chunk(hash, chunk)
    }
    fn finish(&mut self, manifest: ManifestData) -> Result<(), IoFailure> {
        if self.left == 0 {
            return Err(IoFailure { reason: "full".to_owned() });
        }
        self.inner.finish(manifest)
    }
}

#[test]
fn snapshot_stops_at_the_first_refusal() {
    let state = some_state(10);
    let root = state.root();
    let mut chain = BlockChain::new(genesis(), no_receipts());
    for number in 1..=10 {
        let next = plain_block(chain.best_block_hash(), number, root);
        chain.insert_unordered_block(next, no_receipts(), None, true);
    }
    // the state chunk is refused: no block chunk is written after it
    let mut writer = Recorded::new(Refusing { inner: MemoryArchive::new(), left: 0 });
    let mut progress = Progress::new();
    let r = take_snapshot(&chain, chain.best_block_hash(), &state, &mut writer, &mut progress);
    assert_eq!(r, Err(Error::Io(IoFailure { reason: "full".to_owned() })));
    assert!(!progress.done());
    assert_eq!(progress.blocks(), 0);
    assert_eq!(progress.accounts(), 0);
    let sink = writer.into_inner();
    assert!(sink.inner.manifest().is_none());
    // the state chunk is taken, the block chunk refused
    let mut writer = Recorded::new(Refusing { inner: MemoryArchive::new(), left: 1 });
    let mut progress = Progress::new();
    let r = take_snapshot(&chain, chain.best_block_hash(), &state, &mut writer, &mut progress);
    assert!(matches!(r, Err(Error::Io(_))));
    assert_eq!(progress.accounts(), 10);
    assert_eq!(progress.blocks(), 0);
    assert!(!progress.done());
    // both chunks are taken, the manifest refused
    let mut writer = Recorded::new(Refusing { inner: MemoryArchive::new(), left: 2 });
    let mut progress = Progress::new();
    let r = take_snapshot(&chain, chain.best_block_hash(), &state, &mut writer, &mut progress);
    assert!(matches!(r, Err(Error::Io(_))));
    assert_eq!(progress.accounts(), 10);
    assert_eq!(progress.blocks(), 10);
    assert!(!progress.done());
    assert!(writer.into_inner().inner.manifest().is_none());
}

#[test]
fn entry_with_an_item_too_many_is_refused() {
    let (_, _, taken) = snapshot_of(3, 4);
    let manifest = copy_of(taken.manifest());
    let state_chunk = snapshot::compress::decompress(&taken.chunk(manifest.state_hashes[0]).unwrap()).unwrap();
    let mut entries = items_of(&state_chunk);
    let mut parts = items_of(&entries[0]);
    assert_eq!(parts.len(), 2);
    parts.push(number_of(1));
    entries[0] = list_of(&parts);
    let mut states = snapshot::StateRebuilder::new();
    assert_eq!(
        states.feed(&list_of(&entries)),
        Err(Error::Decoder(snapshot::error::DecodeError::RlpIncorrectListLen))
    );
    assert_eq!(states.state_root(), sha3_null_rlp());

    let block_chunk = snapshot::compress::decompress(&taken.chunk(manifest.block_hashes[0]).unwrap()).unwrap();
    let mut items = items_of(&block_chunk);
    let mut parts = items_of(&items[3]);
    assert_eq!(parts.len(), 2);
    parts.push(number_of(1));
    items[3] = list_of(&parts);
    let mut engine = Judged::new(NullEngine);
    let mut blocks =
        snapshot::BlockRebuilder::new(BlockChain::new(genesis(), no_receipts()), manifest.block_number).unwrap();
    assert_eq!(
        blocks.feed(&list_of(&items), &mut engine),
        Err(Error::Decoder(snapshot::error::DecodeError::RlpIncorrectListLen))
    );
}
