use vstd::prelude::*;
use crate::hash::{sha3_null_rlp, H256};

verus! {

/// The root hash that `triehash::trie_root` gives for the entries `entries`,
/// each a key and a value.
pub uninterp spec fn trie_root(entries: Seq<(Seq<u8>, Seq<u8>)>) -> Seq<u8>;

/// The keys and values of a vector of entries, as byte strings: each key is
/// the 32 bytes of a hash.
pub open spec fn entry_views(entries: Seq<(H256, Vec<u8>)>) -> Seq<(Seq<u8>, Seq<u8>)> {
    entries.map_values(|e: (H256, Vec<u8>)| (e.0@, e.1@))
}

/// `triehash::trie_root` with the Keccak-256 hasher of `keccak_hasher`, over
/// the entries in the order given, each key as its 32 bytes.
#[verifier::external_body]
fn trie_root_digest(entries: &Vec<(H256, Vec<u8>)>) -> (r: [u8; 32])
    ensures
        r@ == trie_root(entry_views(entries@)),
{
    triehash::trie_root::<keccak_hasher::KeccakHasher, _, _, _>(
        entries.iter().map(|e| (e.0.to_vec(), &e.1)),
    )
}

/// The root of the trie that holds `entries`; that of the empty trie where
/// there are none.
pub open spec fn root_of(entries: Seq<(Seq<u8>, Seq<u8>)>) -> H256 {
    if entries.len() == 0 {
        sha3_null_rlp()
    } else {
        H256::from_seq(trie_root(entries))
    }
}

/// Computes the root of the trie that holds `entries`, each under a hash as
/// its key.
pub fn compute_root(entries: &Vec<(H256, Vec<u8>)>) -> (r: H256)
    ensures
        r == root_of(entry_views(entries@)),
{
    if entries.len() == 0 {
        sha3_null_rlp()
    } else {
        let digest = trie_root_digest(entries);
        H256::from_slice(digest.as_slice())
    }
}

} // verus!
