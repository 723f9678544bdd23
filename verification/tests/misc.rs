//! Progress, archives, the packed index, and the small types.

use snapshot::builtins::{produce_builtins, BuiltinImpl, Flat, LenXor, Pricer};
use snapshot::cli::{decimal, join_commas};
use snapshot::command::Kind;
use snapshot::hash::{keccak, H256};
use snapshot::hypervisor::BootArgs;
use snapshot::index::HashIndex;
use snapshot::io::{MemoryArchive, Recorded, SnapshotWriter};
use snapshot::manifest::ManifestData;
use snapshot::packed::{
    chunk_lies_before, index_range, offset_bytes, place_chunk, read_offset, ChunkInfo, PackedIndex,
};
use snapshot::progress::{wrapping_sum, Progress};
use snapshot::sorted_map::SortedMap;
use snapshot::state_rebuilder::{reversed, shard_size};
use snapshot::sync::{NetworkConfiguration, ServiceConfiguration, SyncConfig};
use snapshot::uint::U256;

#[test]
fn progress_counts_and_resets() {
    let mut p = Progress::default();
    assert_eq!((p.accounts(), p.blocks(), p.size(), p.done()), (0, 0, 0, false));
    p.note_blocks(3, 100);
    p.note_accounts(5, 20);
    p.finish();
    assert_eq!((p.accounts(), p.blocks(), p.size(), p.done()), (5, 3, 120, true));
    p.note_blocks(usize::MAX, 1);
    assert_eq!(p.blocks(), 2);
    p.reset();
    assert_eq!((p.accounts(), p.blocks(), p.size(), p.done()), (0, 0, 0, false));
    assert_eq!(wrapping_sum(usize::MAX, 1), 0);
    assert_eq!(wrapping_sum(usize::MAX, usize::MAX), usize::MAX - 1);
    assert_eq!(wrapping_sum(2, 3), 5);
}

#[test]
fn archive_gives_back_what_was_written_last() {
    let mut archive = MemoryArchive::new();
    let a = keccak(b"a");
    let b = keccak(b"b");
    assert_eq!(archive.chunk(&a), None);
    archive.write_state_chunk(a, b"state a").unwrap();
    archive.write_block_chunk(b, b"block b").unwrap();
    archive.write_state_chunk(a, b"state a again").unwrap();
    assert_eq!(archive.state_chunk(&a), Some(b"state a again".to_vec()));
    assert_eq!(archive.block_chunk(&a), None);
    assert_eq!(archive.chunk(&a), Some(b"state a again".to_vec()));
    assert_eq!(archive.chunk(&b), Some(b"block b".to_vec()));
    assert!(archive.manifest().is_none());
    let mut recorded = Recorded::new(archive);
    recorded
        .finish(ManifestData {
            state_hashes: vec![a],
            block_hashes: vec![b],
            state_root: a,
            block_number: 7,
            block_hash: b,
        })
        .unwrap();
    let archive = recorded.into_inner();
    assert_eq!(archive.manifest().unwrap().block_number, 7);
}

#[test]
fn manifest_encoding_round_trips() {
    let manifest = ManifestData {
        state_hashes: vec![keccak(b"1"), keccak(b"2")],
        block_hashes: vec![keccak(b"3")],
        state_root: keccak(b"root"),
        block_number: 1_000_000,
        block_hash: keccak(b"block"),
    };
    let encoded = manifest.into_rlp();
    let decoded = ManifestData::from_rlp(&encoded).unwrap();
    assert_eq!(decoded.state_hashes, manifest.state_hashes);
    assert_eq!(decoded.block_hashes, manifest.block_hashes);
    assert_eq!(decoded.state_root, manifest.state_root);
    assert_eq!(decoded.block_number, 1_000_000);
    assert_eq!(decoded.block_hash, manifest.block_hash);
    assert!(ManifestData::from_rlp(&encoded[..encoded.len() - 1]).is_err());
    assert!(ManifestData::from_rlp(b"").is_err());
}

#[test]
fn packed_index_places_and_finds_chunks() {
    let (first, next) = place_chunk(keccak(b"a"), 10, 0).unwrap();
    assert_eq!(first, ChunkInfo { hash: keccak(b"a"), len: 10, offset: 0 });
    let (second, end) = place_chunk(keccak(b"b"), 5, next).unwrap();
    assert_eq!((second.offset, end), (10, 15));
    assert_eq!(place_chunk(keccak(b"c"), 2, u64::MAX - 1), None);
    let index = PackedIndex {
        state: vec![first],
        blocks: vec![second],
        state_root: keccak(b"root"),
        block_number: 3,
        block_hash: keccak(b"block"),
    };
    let encoded = index.into_rlp();
    let decoded = PackedIndex::from_rlp(&encoded).unwrap();
    assert_eq!(decoded.state, vec![first]);
    assert_eq!(decoded.blocks, vec![second]);
    assert_eq!(decoded.find(&keccak(b"a")), Some(first));
    assert_eq!(decoded.find(&keccak(b"b")), Some(second));
    assert_eq!(decoded.find(&keccak(b"c")), None);
    assert_eq!(decoded.manifest().state_hashes, vec![keccak(b"a")]);
    assert_eq!(decoded.manifest().block_hashes, vec![keccak(b"b")]);
    assert!(chunk_lies_before(&second, 15));
    assert!(!chunk_lies_before(&second, 14));
    assert!(!chunk_lies_before(&ChunkInfo { hash: keccak(b"x"), len: u64::MAX, offset: 2 }, 15));
    assert!(PackedIndex::from_rlp(&[0xc0]).is_err());
}

#[test]
fn packed_tail_says_where_the_index_is() {
    assert_eq!(offset_bytes(0x0102030405060708), vec![8, 7, 6, 5, 4, 3, 2, 1]);
    assert_eq!(read_offset(&[8, 7, 6, 5, 4, 3, 2, 1]), 0x0102030405060708);
    assert_eq!(read_offset(&offset_bytes(u64::MAX)), u64::MAX);
    assert_eq!(index_range(100, 40), Some((40, 52)));
    assert_eq!(index_range(100, 92), Some((92, 0)));
    assert_eq!(index_range(100, 93), None);
    assert_eq!(index_range(7, 0), None);
    assert_eq!(index_range(u64::MAX, u64::MAX), None);
}

#[test]
fn sorted_map_keeps_the_order_of_keys() {
    let mut map: SortedMap<u32> = SortedMap::new();
    let keys: Vec<H256> = (0u8..50).map(|n| keccak(&[n])).collect();
    for (n, key) in keys.iter().enumerate() {
        map.insert(*key, n as u32);
    }
    map.insert(keys[7], 700);
    assert_eq!(map.len(), 50);
    assert_eq!(map.get(&keys[7]), Some(&700));
    assert_eq!(map.get(&keccak(b"absent")), None);
    for i in 1..map.len() {
        assert!(map.key_at(i - 1).lt(&map.key_at(i)));
    }
    assert_eq!(map.remove(&keys[7]), Some(700));
    assert_eq!(map.remove(&keys[7]), None);
    assert!(!map.contains_key(&keys[7]));
    let (found, at) = map.find(&keys[8]);
    assert!(found);
    assert_eq!(map.remove_at(at), (keys[8], 8));
    map.set_at(0, 1234);
    assert_eq!(map.value_at(0), &1234);
    assert_eq!(map.len(), 48);
}

#[test]
fn hash_index_finds_by_hash() {
    let mut index: HashIndex<usize> = HashIndex::new();
    for n in 0..1000usize {
        index.insert(keccak(&n.to_be_bytes()), n);
    }
    index.insert(keccak(&5usize.to_be_bytes()), 55);
    assert_eq!(index.get(&keccak(&5usize.to_be_bytes())), Some(&55));
    assert_eq!(index.get(&keccak(&999usize.to_be_bytes())), Some(&999));
    assert_eq!(index.get(&keccak(b"absent")), None);
    assert!(index.contains_key(&keccak(&0usize.to_be_bytes())));
    let same_bucket = H256 { w0: 1, w1: 2, w2: 3, w3: 0 };
    let other = H256 { w0: 0, w1: 9, w2: 9, w3: 1 };
    index.insert(same_bucket, 1);
    index.insert(other, 2);
    assert_eq!(index.get(&same_bucket), Some(&1));
    assert_eq!(index.get(&other), Some(&2));
}

#[test]
fn shares_cover_all_entries() {
    assert_eq!(shard_size(10, 4), 3);
    assert_eq!(shard_size(0, 8), 1);
    assert_eq!(shard_size(8, 8), 1);
    assert_eq!(shard_size(9, 8), 2);
    assert_eq!(shard_size(usize::MAX, 1), usize::MAX);
    assert_eq!(reversed(vec![1, 2, 3]), vec![3, 2, 1]);
    assert_eq!(reversed(Vec::<u8>::new()), Vec::<u8>::new());
}

#[test]
fn texts_are_read_as_numbers_and_joined() {
    assert_eq!(decimal("30303"), Some(30303));
    assert_eq!(decimal("18446744073709551615"), Some(u64::MAX));
    assert_eq!(decimal("18446744073709551616"), None);
    assert_eq!(decimal("-1"), None);
    assert_eq!(decimal(""), None);
    assert_eq!(join_commas(&vec!["a".to_owned(), "b".to_owned()]), "a,b");
    assert_eq!(join_commas(&vec!["alone".to_owned()]), "alone");
    assert_eq!(join_commas(&Vec::new()), "");
}

#[test]
fn boot_args_are_set_one_by_one() {
    let args = BootArgs::new();
    assert_eq!(args.args(), None);
    assert_eq!(args.input(), None);
    let args = args.cli(vec!["sync".to_owned(), "--port".to_owned()]).stdin(vec![1, 2, 3]);
    assert_eq!(args.args(), Some(&vec!["sync".to_owned(), "--port".to_owned()]));
    assert_eq!(args.input(), Some(&vec![1, 2, 3]));
}

#[test]
fn len_xor_combines_bytes_with_their_places() {
    let input: Vec<u8> = vec![0xff; 300];
    let mut output = vec![0u8; 258];
    LenXor.execute(&input, &mut output);
    assert_eq!(output[0], 0xff);
    assert_eq!(output[1], 0xfe);
    assert_eq!(output[255], 0x00);
    assert_eq!(output[256], 0xff);
    assert_eq!(output[257], 0xfe);
    let mut longer = vec![7u8; 4];
    LenXor.execute(&[1, 1], &mut longer);
    assert_eq!(longer, vec![1, 0, 7, 7]);
    assert_eq!(Flat(U256::from_u64(100_000)).cost(12345), U256::from_u64(100_000));
    assert!(produce_builtins().is_empty());
}

#[test]
fn network_settings_have_their_defaults() {
    let config = NetworkConfiguration::new();
    assert_eq!(config.listen_address, None);
    assert_eq!((config.min_peers, config.max_peers), (25, 50));
    assert!(config.nat_enabled && config.discovery_enabled && config.allow_non_reserved);
    assert!(config.boot_nodes.is_empty() && config.reserved_nodes.is_empty());
    let local = NetworkConfiguration::new_local();
    assert_eq!(local.listen_address, Some("127.0.0.1:0".to_owned()));
    assert_eq!(local.max_peers, 50);
    let sync = SyncConfig::default();
    assert_eq!(sync.max_download_ahead_blocks, 20000);
    assert_eq!(sync.network_id, U256::from_u64(1));
    assert_eq!(sync.fork_block, None);
    assert!(sync.warp_sync);
    let service = ServiceConfiguration { sync, net: local, io_path: "/tmp/io".to_owned() };
    assert_eq!(service.io_path, "/tmp/io");
    assert_ne!(Kind::Take, Kind::Restore);
}
