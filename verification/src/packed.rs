use vstd::prelude::*;
use crate::codec::{
    framed, is_framed,
    encode_hash, hash_at, items_of, lemma_views, lemma_views_push, list_at, list_of, number_at,
    number_of, rlp_hash, rlp_hash_at, rlp_item_seq, rlp_list, rlp_list_at, rlp_u64, rlp_u64_at,
    views,
};
use crate::error::DecodeError;
use crate::hash::{lemma_byte_range, H256};
use crate::manifest::ManifestData;

verus! {

/// The number of bytes at the end of a packed snapshot that say where its
/// index starts.
pub const TAIL_LEN: u64 = 8;

/// The eight bytes of a word, least significant first.
pub open spec fn le_bytes(w: u64) -> Seq<u8> {
    seq![
        (w & 0xff) as u8,
        ((w >> 8) & 0xff) as u8,
        ((w >> 16) & 0xff) as u8,
        ((w >> 24) & 0xff) as u8,
        ((w >> 32) & 0xff) as u8,
        ((w >> 40) & 0xff) as u8,
        ((w >> 48) & 0xff) as u8,
        ((w >> 56) & 0xff) as u8,
    ]
}

/// The word whose bytes, least significant first, are the first eight of `b`.
pub open spec fn le_word(b: Seq<u8>) -> u64 {
    (b[0] as u64) | ((b[1] as u64) << 8) | ((b[2] as u64) << 16) | ((b[3] as u64) << 24) | ((
    b[4] as u64) << 32) | ((b[5] as u64) << 40) | ((b[6] as u64) << 48) | ((b[7] as u64) << 56)
}

/// Splitting a word into bytes and joining them again gives the word back.
pub proof fn lemma_le_word_of_bytes(w: u64)
    ensures
        le_word(le_bytes(w)) == w,
{
    let b0 = (w & 0xff) as u8;
    let b1 = ((w >> 8) & 0xff) as u8;
    let b2 = ((w >> 16) & 0xff) as u8;
    let b3 = ((w >> 24) & 0xff) as u8;
    let b4 = ((w >> 32) & 0xff) as u8;
    let b5 = ((w >> 40) & 0xff) as u8;
    let b6 = ((w >> 48) & 0xff) as u8;
    let b7 = ((w >> 56) & 0xff) as u8;
    assert((b0 as u64) | ((b1 as u64) << 8) | ((b2 as u64) << 16) | ((b3 as u64) << 24) | ((
    b4 as u64) << 32) | ((b5 as u64) << 40) | ((b6 as u64) << 48) | ((b7 as u64) << 56) == w)
        by (bit_vector)
        requires
            b0 == (w & 0xff) as u8,
            b1 == ((w >> 8) & 0xff) as u8,
            b2 == ((w >> 16) & 0xff) as u8,
            b3 == ((w >> 24) & 0xff) as u8,
            b4 == ((w >> 32) & 0xff) as u8,
            b5 == ((w >> 40) & 0xff) as u8,
            b6 == ((w >> 48) & 0xff) as u8,
            b7 == ((w >> 56) & 0xff) as u8,
    ;
}

/// The eight bytes that end a packed snapshot whose index starts at `offset`.
pub fn offset_bytes(offset: u64) -> (r: Vec<u8>)
    ensures
        r@ == le_bytes(offset),
        r@.len() == 8,
        le_word(r@) == offset,
{
    proof {
        lemma_byte_range(offset);
        lemma_le_word_of_bytes(offset);
    }
    let mut out: Vec<u8> = Vec::new();
    out.push((offset & 0xff) as u8);
    out.push(((offset >> 8) & 0xff) as u8);
    out.push(((offset >> 16) & 0xff) as u8);
    out.push(((offset >> 24) & 0xff) as u8);
    out.push(((offset >> 32) & 0xff) as u8);
    out.push(((offset >> 40) & 0xff) as u8);
    out.push(((offset >> 48) & 0xff) as u8);
    out.push(((offset >> 56) & 0xff) as u8);
    assert(out@ =~= le_bytes(offset));
    out
}

/// Reads where the index starts from the eight bytes that end a packed snapshot.
pub fn read_offset(tail: &[u8]) -> (r: u64)
    requires
        tail@.len() == 8,
    ensures
        r == le_word(tail@),
{
    (tail[0] as u64) | ((tail[1] as u64) << 8) | ((tail[2] as u64) << 16) | ((tail[3] as u64)
        << 24) | ((tail[4] as u64) << 32) | ((tail[5] as u64) << 40) | ((tail[6] as u64) << 48) | ((
    tail[7] as u64) << 56)
}

/// Where the index of a packed snapshot of `file_len` bytes lies if it
/// starts at `offset`: its start and its length. It lies between the chunks
/// and the eight bytes at the end, so there is none where the file is too short.
pub open spec fn index_range_spec(file_len: u64, offset: u64) -> Option<(u64, u64)> {
    if offset + TAIL_LEN <= file_len {
        Some((offset, (file_len - TAIL_LEN - offset) as u64))
    } else {
        None
    }
}

/// Where the index of a packed snapshot lies: see `index_range_spec`.
pub fn index_range(file_len: u64, offset: u64) -> (r: Option<(u64, u64)>)
    ensures
        r == index_range_spec(file_len, offset),
{
    if file_len >= TAIL_LEN && offset <= file_len - TAIL_LEN {
        Some((offset, file_len - TAIL_LEN - offset))
    } else {
        None
    }
}

/// Where a chunk lies in a packed snapshot: under its hash, its length and
/// its offset from the start.
#[derive(Clone, Copy, Debug, PartialEq, Eq, Structural)]
pub struct ChunkInfo {
    pub hash: H256,
    pub len: u64,
    pub offset: u64,
}

/// The encoding of the place of a chunk: hash, length, offset.
pub open spec fn info_rlp(i: ChunkInfo) -> Seq<u8> {
    rlp_list(seq![rlp_hash(i.hash), rlp_u64(i.len), rlp_u64(i.offset)])
}

/// Whether the place of a chunk can be read.
pub open spec fn info_readable(item: Seq<u8>) -> bool {
    rlp_hash_at(item, 0).is_some() && rlp_u64_at(item, 1).is_some() && rlp_u64_at(
        item,
        2,
    ).is_some()
}

/// The place of a chunk that an item holds.
pub open spec fn info_of(item: Seq<u8>) -> ChunkInfo {
    ChunkInfo {
        hash: rlp_hash_at(item, 0).unwrap(),
        len: rlp_u64_at(item, 1).unwrap(),
        offset: rlp_u64_at(item, 2).unwrap(),
    }
}

/// The encodings of the places of chunks.
pub open spec fn info_items(infos: Seq<ChunkInfo>) -> Seq<Seq<u8>> {
    infos.map_values(|i: ChunkInfo| info_rlp(i))
}

/// Whether every item of an encoded list of places can be read.
pub open spec fn infos_readable(list: Seq<u8>) -> bool {
    forall|i: int|
        0 <= i < rlp_item_seq(list).len() ==> info_readable(#[trigger] rlp_item_seq(list)[i])
}

/// The places that an encoded list holds.
pub open spec fn infos_of(list: Seq<u8>) -> Seq<ChunkInfo> {
    rlp_item_seq(list).map_values(|item: Seq<u8>| info_of(item))
}

/// Encodes the places of chunks.
pub fn encode_infos(infos: &Vec<ChunkInfo>) -> (r: Vec<u8>)
    ensures
        r@ == rlp_list(info_items(infos@)),
{
    let mut items: Vec<Vec<u8>> = Vec::new();
    let mut i: usize = 0;
    while i < infos.len()
        invariant
            i <= infos@.len(),
            views(items@) == info_items(infos@).subrange(0, i as int),
        decreases infos@.len() - i,
    {
        let mut fields: Vec<Vec<u8>> = Vec::new();
        fields.push(encode_hash(&infos[i].hash));
        fields.push(number_of(infos[i].len));
        fields.push(number_of(infos[i].offset));
        proof {
            lemma_views(fields@);
            assert(views(fields@) =~= seq![
                rlp_hash(infos@[i as int].hash),
                rlp_u64(infos@[i as int].len),
                rlp_u64(infos@[i as int].offset),
            ]);
        }
        let item = list_of(&fields);
        proof {
            lemma_views_push(items@, item);
        }
        items.push(item);
        i = i + 1;
        assert(views(items@) =~= info_items(infos@).subrange(0, i as int));
    }
    assert(info_items(infos@).subrange(0, infos@.len() as int) =~= info_items(infos@));
    list_of(&items)
}

/// Reads the places of chunks: fails if and only if one cannot be read.
pub fn decode_infos(list: &[u8]) -> (r: Result<Vec<ChunkInfo>, DecodeError>)
    ensures
        r.is_ok() == infos_readable(list@),
        r.is_ok() ==> r.unwrap()@ == infos_of(list@),
{
    let items = items_of(list);
    let mut infos: Vec<ChunkInfo> = Vec::new();
    let mut i: usize = 0;
    proof {
        lemma_views(items@);
    }
    while i < items.len()
        invariant
            i <= items@.len(),
            views(items@) == rlp_item_seq(list@),
            infos@.len() == i,
            forall|j: int| 0 <= j < i ==> info_readable(#[trigger] rlp_item_seq(list@)[j]),
            forall|j: int| 0 <= j < i ==> #[trigger] infos@[j] == info_of(rlp_item_seq(list@)[j]),
        decreases items@.len() - i,
    {
        proof {
            lemma_views(items@);
        }
        let item = items[i].as_slice();
        let hash = match hash_at(item, 0) {
            Ok(v) => v,
            Err(e) => {
                assert(!info_readable(rlp_item_seq(list@)[i as int]));
                return Err(e);
            },
        };
        let len = match number_at(item, 1) {
            Ok(v) => v,
            Err(e) => {
                assert(!info_readable(rlp_item_seq(list@)[i as int]));
                return Err(e);
            },
        };
        let offset = match number_at(item, 2) {
            Ok(v) => v,
            Err(e) => {
                assert(!info_readable(rlp_item_seq(list@)[i as int]));
                return Err(e);
            },
        };
        infos.push(ChunkInfo { hash, len, offset });
        i = i + 1;
    }
    assert(infos@ =~= infos_of(list@));
    Ok(infos)
}

/// The index of a packed snapshot: where each chunk lies, and the state
/// root, number and hash of the block that the snapshot was taken at.
#[derive(Debug)]
pub struct PackedIndex {
    pub state: Vec<ChunkInfo>,
    pub blocks: Vec<ChunkInfo>,
    pub state_root: H256,
    pub block_number: u64,
    pub block_hash: H256,
}

/// An index, as plain values.
pub struct IndexSpec {
    pub state: Seq<ChunkInfo>,
    pub blocks: Seq<ChunkInfo>,
    pub state_root: H256,
    pub block_number: u64,
    pub block_hash: H256,
}

impl View for PackedIndex {
    type V = IndexSpec;

    open spec fn view(&self) -> IndexSpec {
        IndexSpec {
            state: self.state@,
            blocks: self.blocks@,
            state_root: self.state_root,
            block_number: self.block_number,
            block_hash: self.block_hash,
        }
    }
}

/// The encoding of an index.
pub open spec fn index_rlp(i: IndexSpec) -> Seq<u8> {
    rlp_list(
        seq![
            rlp_list(info_items(i.state)),
            rlp_list(info_items(i.blocks)),
            rlp_hash(i.state_root),
            rlp_u64(i.block_number),
            rlp_hash(i.block_hash),
        ],
    )
}

/// Whether an encoded index can be read: it is a list of five items, and
/// each of them can be read.
pub open spec fn index_readable(data: Seq<u8>) -> bool {
    &&& framed(data, 5)
    &&& rlp_list_at(data, 0).is_some()
    &&& infos_readable(rlp_list_at(data, 0).unwrap())
    &&& rlp_list_at(data, 1).is_some()
    &&& infos_readable(rlp_list_at(data, 1).unwrap())
    &&& rlp_hash_at(data, 2).is_some()
    &&& rlp_u64_at(data, 3).is_some()
    &&& rlp_hash_at(data, 4).is_some()
}

/// The index that an encoding holds.
pub open spec fn index_of(data: Seq<u8>) -> IndexSpec {
    IndexSpec {
        state: infos_of(rlp_list_at(data, 0).unwrap()),
        blocks: infos_of(rlp_list_at(data, 1).unwrap()),
        state_root: rlp_hash_at(data, 2).unwrap(),
        block_number: rlp_u64_at(data, 3).unwrap(),
        block_hash: rlp_hash_at(data, 4).unwrap(),
    }
}

/// The hashes of the chunks whose places are given.
pub open spec fn info_hashes(infos: Seq<ChunkInfo>) -> Seq<H256> {
    infos.map_values(|i: ChunkInfo| i.hash)
}

/// The place of the last chunk with this hash among `infos`, or -1.
pub open spec fn info_place(infos: Seq<ChunkInfo>, hash: H256) -> int
    decreases infos.len(),
{
    if infos.len() == 0 {
        -1
    } else if infos.last().hash == hash {
        infos.len() - 1
    } else {
        info_place(infos.drop_last(), hash)
    }
}

/// Looks for the last chunk with this hash.
pub fn find_info(infos: &Vec<ChunkInfo>, hash: &H256) -> (r: Option<ChunkInfo>)
    ensures
        match r {
            Some(i) => info_place(infos@, *hash) >= 0 && i == infos@[info_place(infos@, *hash)],
            None => info_place(infos@, *hash) == -1,
        },
{
    let mut n: usize = infos.len();
    assert(infos@.subrange(0, n as int) =~= infos@);
    while n > 0
        invariant
            n <= infos@.len(),
            info_place(infos@, *hash) == info_place(infos@.subrange(0, n as int), *hash),
        decreases n,
    {
        let ghost part = infos@.subrange(0, n as int);
        n = n - 1;
        if infos[n].hash == *hash {
            assert(part.last() == infos@[n as int]);
            return Some(infos[n]);
        }
        assert(part.drop_last() =~= infos@.subrange(0, n as int));
    }
    None
}

impl PackedIndex {
    /// The encoding of the index.
    pub fn into_rlp(&self) -> (r: Vec<u8>)
        ensures
            r@ == index_rlp(self@),
    {
        let mut items: Vec<Vec<u8>> = Vec::new();
        items.push(encode_infos(&self.state));
        items.push(encode_infos(&self.blocks));
        items.push(encode_hash(&self.state_root));
        items.push(number_of(self.block_number));
        items.push(encode_hash(&self.block_hash));
        proof {
            lemma_views(items@);
            assert(views(items@) =~= seq![
                rlp_list(info_items(self@.state)),
                rlp_list(info_items(self@.blocks)),
                rlp_hash(self@.state_root),
                rlp_u64(self@.block_number),
                rlp_hash(self@.block_hash),
            ]);
        }
        list_of(&items)
    }

    /// Reads an index: fails if and only if one of its fields cannot be read.
    pub fn from_rlp(data: &[u8]) -> (r: Result<PackedIndex, DecodeError>)
        ensures
            r.is_ok() == index_readable(data@),
            r.is_ok() ==> r.unwrap()@ == index_of(data@),
    {
        if !is_framed(data, 5) {
            return Err(DecodeError::RlpIncorrectListLen);
        }
        let state_list = list_at(data, 0)?;
        let state = decode_infos(state_list.as_slice())?;
        let block_list = list_at(data, 1)?;
        let blocks = decode_infos(block_list.as_slice())?;
        let state_root = hash_at(data, 2)?;
        let block_number = number_at(data, 3)?;
        let block_hash = hash_at(data, 4)?;
        Ok(PackedIndex { state, blocks, state_root, block_number, block_hash })
    }

    /// The manifest of the snapshot: the hashes of the chunks in the order of
    /// the index, and state root, number and hash of the block.
    pub fn manifest(&self) -> (r: ManifestData)
        ensures
            r@.state_hashes == info_hashes(self@.state),
            r@.block_hashes == info_hashes(self@.blocks),
            r@.state_root == self.state_root,
            r@.block_number == self.block_number,
            r@.block_hash == self.block_hash,
    {
        ManifestData {
            state_hashes: hashes_of(&self.state),
            block_hashes: hashes_of(&self.blocks),
            state_root: self.state_root,
            block_number: self.block_number,
            block_hash: self.block_hash,
        }
    }

    /// Where the chunk with this hash lies: a block chunk where there is
    /// one, else a state chunk; the last one where several have the hash.
    pub fn find(&self, hash: &H256) -> (r: Option<ChunkInfo>)
        ensures
            match r {
                Some(i) => if info_place(self@.blocks, *hash) >= 0 {
                    i == self@.blocks[info_place(self@.blocks, *hash)]
                } else {
                    info_place(self@.state, *hash) >= 0 && i == self@.state[info_place(
                        self@.state,
                        *hash,
                    )]
                },
                None => info_place(self@.blocks, *hash) == -1 && info_place(self@.state, *hash)
                    == -1,
            },
    {
        match find_info(&self.blocks, hash) {
            Some(i) => Some(i),
            None => find_info(&self.state, hash),
        }
    }
}

/// The hashes of the chunks whose places are given.
pub fn hashes_of(infos: &Vec<ChunkInfo>) -> (r: Vec<H256>)
    ensures
        r@ == info_hashes(infos@),
{
    let mut hashes: Vec<H256> = Vec::new();
    let mut i: usize = 0;
    while i < infos.len()
        invariant
            i <= infos@.len(),
            hashes@ == info_hashes(infos@).subrange(0, i as int),
        decreases infos@.len() - i,
    {
        hashes.push(infos[i].hash);
        i = i + 1;
        assert(hashes@ =~= info_hashes(infos@).subrange(0, i as int));
    }
    assert(info_hashes(infos@).subrange(0, infos@.len() as int) =~= info_hashes(infos@));
    hashes
}

/// Whether a chunk lies before the place `end` as a whole.
pub open spec fn lies_before(info: ChunkInfo, end: u64) -> bool {
    info.offset + info.len <= end
}

/// Whether a chunk lies before the place `end` as a whole.
pub fn chunk_lies_before(info: &ChunkInfo, end: u64) -> (r: bool)
    ensures
        r == lies_before(*info, end),
{
    info.offset <= end && info.len <= end - info.offset
}

/// Where the next chunk of `len` bytes goes in a packed snapshot that holds
/// `cur_len` bytes of chunks, and how many it holds then; nothing where that
/// number does not fit.
pub fn place_chunk(hash: H256, len: u64, cur_len: u64) -> (r: Option<(ChunkInfo, u64)>)
    ensures
        match r {
            Some(p) => cur_len + len <= u64::MAX && p.0 == (ChunkInfo {
                hash: hash,
                len: len,
                offset: cur_len,
            }) && p.1 == cur_len + len,
            None => cur_len + len > u64::MAX,
        },
{
    if len <= u64::MAX - cur_len {
        Some((ChunkInfo { hash: hash, len: len, offset: cur_len }, cur_len + len))
    } else {
        None
    }
}

} // verus!
