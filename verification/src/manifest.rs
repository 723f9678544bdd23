use vstd::prelude::*;
use crate::codec::{
    encode_hash, framed, hash_at, is_framed, items_of, lemma_views, lemma_views_push, list_at, list_of, number_at,
    number_of, rlp_hash, rlp_hash_at, rlp_item_seq, rlp_list, rlp_list_at, rlp_u64, rlp_u64_at,
    views,
};
use crate::error::DecodeError;
use crate::hash::H256;

verus! {

/// The table of contents of a snapshot.
#[derive(Debug)]
pub struct ManifestData {
    /// The hashes of the state chunks, in the order in which they were made.
    pub state_hashes: Vec<H256>,
    /// The hashes of the block chunks, in the order in which they were made.
    pub block_hashes: Vec<H256>,
    /// The root of the state that the snapshot holds.
    pub state_root: H256,
    /// The number of the block that the snapshot was taken at.
    pub block_number: u64,
    /// The hash of the block that the snapshot was taken at.
    pub block_hash: H256,
}

/// A manifest, as plain values.
pub struct ManifestSpec {
    pub state_hashes: Seq<H256>,
    pub block_hashes: Seq<H256>,
    pub state_root: H256,
    pub block_number: u64,
    pub block_hash: H256,
}

impl View for ManifestData {
    type V = ManifestSpec;

    open spec fn view(&self) -> ManifestSpec {
        ManifestSpec {
            state_hashes: self.state_hashes@,
            block_hashes: self.block_hashes@,
            state_root: self.state_root,
            block_number: self.block_number,
            block_hash: self.block_hash,
        }
    }
}

/// Copies a vector of hashes.
pub fn copy_hashes(v: &Vec<H256>) -> (r: Vec<H256>)
    ensures
        r@ == v@,
{
    let mut r: Vec<H256> = Vec::new();
    let mut i: usize = 0;
    while i < v.len()
        invariant
            i <= v@.len(),
            r@ == v@.subrange(0, i as int),
        decreases v@.len() - i,
    {
        r.push(v[i]);
        i = i + 1;
        assert(r@ =~= v@.subrange(0, i as int));
    }
    assert(v@.subrange(0, v@.len() as int) =~= v@);
    r
}

/// The encodings of a sequence of hashes.
pub open spec fn hash_items(hashes: Seq<H256>) -> Seq<Seq<u8>> {
    hashes.map_values(|h: H256| rlp_hash(h))
}

/// The encoding of a manifest: the list of the hashes of the state chunks,
/// the list of the hashes of the block chunks, the state root, the number
/// and the hash of the block.
pub open spec fn manifest_rlp(m: ManifestSpec) -> Seq<u8> {
    rlp_list(
        seq![
            rlp_list(hash_items(m.state_hashes)),
            rlp_list(hash_items(m.block_hashes)),
            rlp_hash(m.state_root),
            rlp_u64(m.block_number),
            rlp_hash(m.block_hash),
        ],
    )
}

/// Whether every item of an encoded list of hashes can be read as a hash.
pub open spec fn hashes_readable(list: Seq<u8>) -> bool {
    forall|i: int|
        0 <= i < rlp_item_seq(list).len() ==> #[trigger] rlp_hash_at(list, i).is_some()
}

/// The hashes of an encoded list of hashes.
pub open spec fn hashes_of_list(list: Seq<u8>) -> Seq<H256> {
    Seq::new(rlp_item_seq(list).len(), |i: int| rlp_hash_at(list, i).unwrap())
}

/// Whether an encoded manifest can be read: it is a list of five items, and
/// each of them can be read.
pub open spec fn manifest_readable(data: Seq<u8>) -> bool {
    &&& framed(data, 5)
    &&& rlp_list_at(data, 0).is_some()
    &&& hashes_readable(rlp_list_at(data, 0).unwrap())
    &&& rlp_list_at(data, 1).is_some()
    &&& hashes_readable(rlp_list_at(data, 1).unwrap())
    &&& rlp_hash_at(data, 2).is_some()
    &&& rlp_u64_at(data, 3).is_some()
    &&& rlp_hash_at(data, 4).is_some()
}

/// The manifest that an encoding holds.
pub open spec fn manifest_of(data: Seq<u8>) -> ManifestSpec {
    ManifestSpec {
        state_hashes: hashes_of_list(rlp_list_at(data, 0).unwrap()),
        block_hashes: hashes_of_list(rlp_list_at(data, 1).unwrap()),
        state_root: rlp_hash_at(data, 2).unwrap(),
        block_number: rlp_u64_at(data, 3).unwrap(),
        block_hash: rlp_hash_at(data, 4).unwrap(),
    }
}

/// Encodes a list of hashes.
pub fn encode_hashes(hashes: &Vec<H256>) -> (r: Vec<u8>)
    ensures
        r@ == rlp_list(hash_items(hashes@)),
{
    let mut items: Vec<Vec<u8>> = Vec::new();
    let mut i: usize = 0;
    while i < hashes.len()
        invariant
            i <= hashes@.len(),
            views(items@) == hash_items(hashes@).subrange(0, i as int),
        decreases hashes@.len() - i,
    {
        let item = encode_hash(&hashes[i]);
        proof {
            lemma_views_push(items@, item);
        }
        items.push(item);
        i = i + 1;
        assert(views(items@) =~= hash_items(hashes@).subrange(0, i as int));
    }
    assert(hash_items(hashes@).subrange(0, hashes@.len() as int) =~= hash_items(hashes@));
    list_of(&items)
}

/// Reads an encoded list of hashes: fails if and only if an item is no hash.
pub fn decode_hashes(list: &[u8]) -> (r: Result<Vec<H256>, DecodeError>)
    ensures
        r.is_ok() == hashes_readable(list@),
        r.is_ok() ==> r.unwrap()@ == hashes_of_list(list@),
{
    let items = items_of(list);
    let count = items.len();
    let mut hashes: Vec<H256> = Vec::new();
    let mut i: usize = 0;
    proof {
        lemma_views(items@);
    }
    while i < count
        invariant
            i <= count,
            count == rlp_item_seq(list@).len(),
            hashes@.len() == i,
            forall|j: int| 0 <= j < i ==> #[trigger] rlp_hash_at(list@, j) == Some(hashes@[j]),
        decreases count - i,
    {
        let h = hash_at(list, i)?;
        hashes.push(h);
        i = i + 1;
    }
    assert(hashes@ =~= hashes_of_list(list@));
    Ok(hashes)
}

impl ManifestData {
    /// A copy of the manifest.
    pub fn duplicate(&self) -> (r: ManifestData)
        ensures
            r@ == self@,
    {
        ManifestData {
            state_hashes: copy_hashes(&self.state_hashes),
            block_hashes: copy_hashes(&self.block_hashes),
            state_root: self.state_root,
            block_number: self.block_number,
            block_hash: self.block_hash,
        }
    }

    /// The encoding of the manifest.
    pub fn into_rlp(&self) -> (r: Vec<u8>)
        ensures
            r@ == manifest_rlp(self@),
    {
        let mut items: Vec<Vec<u8>> = Vec::new();
        items.push(encode_hashes(&self.state_hashes));
        items.push(encode_hashes(&self.block_hashes));
        items.push(encode_hash(&self.state_root));
        items.push(number_of(self.block_number));
        items.push(encode_hash(&self.block_hash));
        proof {
            lemma_views(items@);
            assert(views(items@) =~= seq![
                rlp_list(hash_items(self@.state_hashes)),
                rlp_list(hash_items(self@.block_hashes)),
                rlp_hash(self@.state_root),
                rlp_u64(self@.block_number),
                rlp_hash(self@.block_hash),
            ]);
        }
        list_of(&items)
    }

    /// Reads a manifest: fails if and only if one of its fields cannot be read.
    pub fn from_rlp(data: &[u8]) -> (r: Result<ManifestData, DecodeError>)
        ensures
            r.is_ok() == manifest_readable(data@),
            r.is_ok() ==> r.unwrap()@ == manifest_of(data@),
    {
        if !is_framed(data, 5) {
            return Err(DecodeError::RlpIncorrectListLen);
        }
        let state_list = list_at(data, 0)?;
        let state_hashes = decode_hashes(state_list.as_slice())?;
        let block_list = list_at(data, 1)?;
        let block_hashes = decode_hashes(block_list.as_slice())?;
        let state_root = hash_at(data, 2)?;
        let block_number = number_at(data, 3)?;
        let block_hash = hash_at(data, 4)?;
        Ok(ManifestData { state_hashes, block_hashes, state_root, block_number, block_hash })
    }
}

} // verus!
