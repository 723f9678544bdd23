use vstd::prelude::*;
use crate::hash::{keccak, keccak_hash, sha3_null_rlp, H256};
use crate::memorydb::{
    aux_spec, byte_views, bytes_ascending, is_null_rlp, null_rlp, proof_item, put, raw_spec, taken,
    ItemSpec, MemoryDB, MemorySpec,
};

verus! {

/// Two memory databases, one over the other: the lower one holds the state
/// that was there at the start, the upper one what has changed since.
#[derive(Debug)]
pub struct DummyDB {
    overlay: MemoryDB,
    backing: MemoryDB,
}

/// The two databases, as plain values.
pub struct DummySpec {
    pub overlay: MemorySpec,
    pub backing: MemorySpec,
}

impl View for DummyDB {
    type V = DummySpec;

    closed spec fn view(&self) -> DummySpec {
        DummySpec { overlay: self.overlay@, backing: self.backing@ }
    }
}

/// The value that a database shows for reading under `key`: the one whose
/// count is above zero.
pub open spec fn readable(data: Map<H256, ItemSpec>, key: H256) -> Option<Seq<u8>> {
    match raw_spec(data, key) {
        Some(found) => if found.1 > 0 {
            Some(found.0)
        } else {
            None
        },
        None => None,
    }
}

/// The lower database after the first `k` of the values were put in.
pub open spec fn backed(items: Seq<Seq<u8>>, k: int) -> Map<H256, ItemSpec>
    decreases k,
{
    if k <= 0 {
        Map::empty()
    } else if items[k - 1] == null_rlp() {
        backed(items, k - 1)
    } else {
        put(backed(items, k - 1), keccak_hash(items[k - 1]), items[k - 1])
    }
}

/// No count in the lower database exceeds the number of values put in.
pub proof fn lemma_backed_counts(items: Seq<Seq<u8>>, k: int)
    requires
        0 <= k < i32::MAX,
    ensures
        forall|h: H256| #[trigger]
            backed(items, k).contains_key(h) ==> 0 < backed(items, k)[h].rc <= k,
    decreases k,
{
    if k > 0 {
        lemma_backed_counts(items, k - 1);
        let before = backed(items, k - 1);
        let key = keccak_hash(items[k - 1]);
        assert forall|h: H256| #[trigger] backed(items, k).contains_key(h) implies 0 < backed(
            items,
            k,
        )[h].rc <= k by {
            if items[k - 1] != null_rlp() && h == key {
                if before.contains_key(key) {
                    assert(0 < before[key].rc <= k - 1);
                }
            } else {
                assert(before.contains_key(h));
            }
        }
    }
}

impl DummyDB {
    /// Both databases are in order.
    pub closed spec fn wf(&self) -> bool {
        self.overlay.wf() && self.backing.wf()
    }

    /// A database whose lower part holds the given values and whose upper
    /// part is empty.
    pub fn new(items: &[Vec<u8>]) -> (r: DummyDB)
        requires
            items@.len() < i32::MAX,
        ensures
            r.wf(),
            r@.overlay.data == Map::<H256, ItemSpec>::empty(),
            r@.backing.data == backed(byte_views(items@), items@.len() as int),
    {
        let mut backing = MemoryDB::new();
        let ghost values = byte_views(items@);
        let mut i: usize = 0;
        while i < items.len()
            invariant
                backing.wf(),
                i <= items@.len(),
                items@.len() < i32::MAX,
                values == byte_views(items@),
                backing@.data == backed(values, i as int),
            decreases items@.len() - i,
        {
            proof {
                lemma_backed_counts(values, i as int);
                assert(values[i as int] == items@[i as int]@);
            }
            let _ = backing.insert(items[i].as_slice());
            i = i + 1;
        }
        DummyDB { overlay: MemoryDB::new(), backing: backing }
    }

    /// The value under `key`: that of the upper database where it shows one,
    /// else that of the lower one, which the upper database notes then.
    pub fn get(&mut self, key: &H256) -> (r: Option<Vec<u8>>)
        requires
            old(self).wf(),
        ensures
            final(self).wf(),
            final(self)@.backing == old(self)@.backing,
            final(self)@.overlay.aux == old(self)@.overlay.aux,
            match readable(old(self)@.overlay.data, *key) {
                Some(v) => r.is_some() && r.unwrap()@ == v && final(self)@.overlay.data == old(self)@.overlay.data,
                None => match readable(old(self)@.backing.data, *key) {
                    Some(v) => {
                        &&& r.is_some()
                        &&& raw_spec(final(self)@.overlay.data, *key) == Some((r.unwrap()@, raw_spec(
                            final(self)@.overlay.data,
                            *key,
                        ).unwrap().1))
                        &&& final(self)@.overlay.data == (if raw_spec(
                            old(self)@.overlay.data,
                            *key,
                        ).is_none() {
                            old(self)@.overlay.data.insert(
                                *key,
                                ItemSpec { value: v, rc: 0, denoted: true },
                            )
                        } else {
                            old(self)@.overlay.data
                        })
                    },
                    None => r.is_none() && final(self)@.overlay.data == old(self)@.overlay.data,
                },
            },
    {
        match self.overlay.get(key) {
            Some(v) => Some(v),
            None => match self.backing.get(key) {
                Some(v) => Some(self.overlay.denote(key, v).0),
                None => None,
            },
        }
    }

    /// Whether `get` finds a value under `key`.
    pub fn contains(&mut self, key: &H256) -> (r: bool)
        requires
            old(self).wf(),
        ensures
            final(self).wf(),
            final(self)@.backing == old(self)@.backing,
            r == (readable(old(self)@.overlay.data, *key).is_some() || readable(
                old(self)@.backing.data,
                *key,
            ).is_some()),
    {
        self.get(key).is_some()
    }

    /// Puts a value into the upper database, under its hash.
    pub fn insert(&mut self, value: &[u8]) -> (r: H256)
        requires
            old(self).wf(),
            old(self)@.overlay.data.contains_key(keccak_hash(value@)) ==> old(self)@.overlay.data[keccak_hash(value@)].rc < i32::MAX,
        ensures
            final(self).wf(),
            final(self)@.backing == old(self)@.backing,
            final(self)@.overlay.aux == old(self)@.overlay.aux,
            value@ == null_rlp() ==> r == sha3_null_rlp() && final(self)@.overlay.data == old(self)@.overlay.data,
            value@ != null_rlp() ==> r == keccak_hash(value@) && final(self)@.overlay.data == put(
                old(self)@.overlay.data,
                r,
                value@,
            ),
    {
        self.overlay.insert(value)
    }

    /// Puts a value into the upper database as `insert` does, unless the
    /// count under its hash cannot go up any more: then nothing changes and
    /// nothing is returned.
    pub fn try_insert(&mut self, value: &[u8]) -> (r: Option<H256>)
        requires
            old(self).wf(),
        ensures
            final(self).wf(),
            final(self)@.backing == old(self)@.backing,
            final(self)@.overlay.aux == old(self)@.overlay.aux,
            ({
                let key = keccak_hash(value@);
                let data = old(self)@.overlay.data;
                let full = value@ != null_rlp() && data.contains_key(key) && data[key].rc
                    == i32::MAX;
                &&& r.is_none() == full
                &&& full ==> final(self)@.overlay.data == data
                &&& !full && value@ == null_rlp() ==> r == Some(sha3_null_rlp())
                    && final(self)@.overlay.data == data
                &&& !full && value@ != null_rlp() ==> r == Some(key) && final(self)@.overlay.data
                    == put(data, key, value@)
            }),
    {
        if is_null_rlp(value) {
            return Some(sha3_null_rlp());
        }
        let key = keccak(value);
        if self.overlay.is_full(&key) {
            None
        } else {
            Some(self.insert(value))
        }
    }

    /// Puts a value into the upper database, under the given hash.
    pub fn emplace(&mut self, key: H256, value: Vec<u8>)
        requires
            old(self).wf(),
            old(self)@.overlay.data.contains_key(key) ==> old(self)@.overlay.data[key].rc
                < i32::MAX,
        ensures
            final(self).wf(),
            final(self)@.backing == old(self)@.backing,
            final(self)@.overlay.aux == old(self)@.overlay.aux,
            final(self)@.overlay.data == (if value@ == null_rlp() {
                old(self)@.overlay.data
            } else {
                put(old(self)@.overlay.data, key, value@)
            }),
    {
        self.overlay.emplace(key, value)
    }

    /// Takes what stands under `key` out of the upper database, once.
    pub fn remove(&mut self, key: &H256)
        requires
            old(self).wf(),
            old(self)@.overlay.data.contains_key(*key) ==> old(self)@.overlay.data[*key].rc
                > i32::MIN,
        ensures
            final(self).wf(),
            final(self)@.backing == old(self)@.backing,
            final(self)@.overlay.aux == old(self)@.overlay.aux,
            final(self)@.overlay.data == (if *key == sha3_null_rlp() {
                old(self)@.overlay.data
            } else {
                taken(old(self)@.overlay.data, *key)
            }),
    {
        self.overlay.remove(key)
    }

    /// Puts an auxiliary value into the upper database.
    pub fn insert_aux(&mut self, hash: Vec<u8>, value: Vec<u8>)
        requires
            old(self).wf(),
        ensures
            final(self).wf(),
            final(self)@.backing == old(self)@.backing,
            final(self)@.overlay.data == old(self)@.overlay.data,
            final(self)@.overlay.aux == old(self)@.overlay.aux.push((hash@, value@)),
    {
        self.overlay.insert_aux(hash, value)
    }

    /// The auxiliary value under `hash` in the upper database.
    pub fn get_aux(&self, hash: &[u8]) -> (r: Option<Vec<u8>>)
        ensures
            match r {
                Some(v) => aux_spec(self@.overlay.aux, hash@) == Some(v@),
                None => aux_spec(self@.overlay.aux, hash@).is_none(),
            },
    {
        self.overlay.get_aux(hash)
    }

    /// Takes the auxiliary values under `hash` out of the upper database.
    pub fn remove_aux(&mut self, hash: &[u8])
        requires
            old(self).wf(),
        ensures
            final(self).wf(),
            final(self)@.backing == old(self)@.backing,
            final(self)@.overlay.data == old(self)@.overlay.data,
            aux_spec(final(self)@.overlay.aux, hash@).is_none(),
            forall|other: Seq<u8>|
                other != hash@ ==> #[trigger] aux_spec(final(self)@.overlay.aux, other)
                    == aux_spec(old(self)@.overlay.aux, other),
    {
        self.overlay.remove_aux(hash)
    }

    /// Whether the database holds nothing: never.
    pub fn is_empty(&self) -> (r: bool)
        ensures
            !r,
    {
        false
    }

    /// The latest era that was committed: none ever is.
    pub fn latest_era(&self) -> (r: Option<u64>)
        ensures
            r.is_none(),
    {
        None
    }

    /// The state of a node by its hash, without counting: none is kept.
    pub fn state(&self, _id: &H256) -> (r: Option<Vec<u8>>)
        ensures
            r.is_none(),
    {
        None
    }

    /// The values that a proof of what the upper database did has to hold.
    pub fn merkle_proof(&self) -> (r: Vec<Vec<u8>>)
        requires
            self.wf(),
        ensures
            bytes_ascending(byte_views(r@)),
            forall|x: Seq<u8>|
                byte_views(r@).contains(x) <==> exists|k: H256|
                    self@.overlay.data.contains_key(k) && proof_item(
                        #[trigger] self@.overlay.data[k],
                    ) && self@.overlay.data[k].value == x,
    {
        let r = self.overlay.merkle_proof();
        proof {
            let data = self.overlay@.data;
            assert forall|x: Seq<u8>| byte_views(r@).contains(x) <==> exists|k: H256|
                self@.overlay.data.contains_key(k) && proof_item(#[trigger] self@.overlay.data[k])
                    && self@.overlay.data[k].value == x by {
                if byte_views(r@).contains(x) {
                    let k = choose|k: H256|
                        data.contains_key(k) && proof_item(#[trigger] data[k]) && data[k].value
                            == x;
                    assert(proof_item(self@.overlay.data[k]));
                }
                if exists|k: H256|
                    self@.overlay.data.contains_key(k) && proof_item(
                        #[trigger] self@.overlay.data[k],
                    ) && self@.overlay.data[k].value == x {
                    let k = choose|k: H256|
                        self@.overlay.data.contains_key(k) && proof_item(
                            #[trigger] self@.overlay.data[k],
                        ) && self@.overlay.data[k].value == x;
                    assert(proof_item(data[k]));
                }
            }
        }
        r
    }
}

} // verus!
