use vstd::prelude::*;
use crate::block::copy_bytes;
use crate::hash::{keccak, keccak_hash, sha3_null_rlp, H256};
use crate::sorted_map::{lemma_over, over, place_of, SortedMap};

verus! {

/// The encoding of empty data: what the trie holds under the root of the
/// empty trie.
pub open spec fn null_rlp() -> Seq<u8> {
    seq![0x80u8]
}

/// Whether `value` is the encoding of empty data.
pub fn is_null_rlp(value: &[u8]) -> (r: bool)
    ensures
        r == (value@ == null_rlp()),
{
    if value.len() == 1 && value[0] == 0x80 {
        assert(value@ =~= null_rlp());
        true
    } else {
        proof {
            if value@.len() == 1 {
                assert(value@[0] != null_rlp()[0]);
            }
        }
        false
    }
}

/// An entry of a memory database.
#[derive(Debug)]
pub struct Item {
    /// The value.
    pub value: Vec<u8>,
    /// How many more times the value was put in than taken out.
    pub rc: i32,
    /// Whether the value was read from a backing database.
    pub denoted: bool,
}

/// An entry of a memory database, as plain values.
pub struct ItemSpec {
    pub value: Seq<u8>,
    pub rc: i32,
    pub denoted: bool,
}

impl View for Item {
    type V = ItemSpec;

    open spec fn view(&self) -> ItemSpec {
        ItemSpec { value: self.value@, rc: self.rc, denoted: self.denoted }
    }
}

/// The plain values of an entry, as a function.
pub open spec fn item_view() -> spec_fn(Item) -> ItemSpec {
    |i: Item| i@
}

/// Whether an entry may be purged: nothing refers to it and it was not read
/// from a backing database.
pub open spec fn purgeable(i: ItemSpec) -> bool {
    i.rc == 0 && !i.denoted
}

/// The entries that stay when a database is purged.
pub open spec fn purged(data: Map<H256, ItemSpec>) -> Map<H256, ItemSpec> {
    Map::new(|k: H256| data.contains_key(k) && !purgeable(data[k]), |k: H256| data[k])
}

/// The database after `value` was put in under `key`: the count goes up, and
/// the value is taken where the count was not above zero.
pub open spec fn put(data: Map<H256, ItemSpec>, key: H256, value: Seq<u8>) -> Map<H256, ItemSpec> {
    if data.contains_key(key) {
        let item = data[key];
        data.insert(
            key,
            ItemSpec {
                value: if item.rc <= 0 {
                    value
                } else {
                    item.value
                },
                rc: (item.rc + 1) as i32,
                denoted: item.denoted,
            },
        )
    } else {
        data.insert(key, ItemSpec { value: value, rc: 1, denoted: false })
    }
}

/// The database after what stands under `key` was taken out once: the count
/// goes down, and starts below zero where nothing stood there.
pub open spec fn taken(data: Map<H256, ItemSpec>, key: H256) -> Map<H256, ItemSpec> {
    if data.contains_key(key) {
        data.insert(key, ItemSpec { rc: (data[key].rc - 1) as i32, ..data[key] })
    } else {
        data.insert(key, ItemSpec { value: Seq::empty(), rc: -1i32, denoted: false })
    }
}

/// The value and count that a database shows for `key`: the encoding of
/// empty data, once, for the root of the empty trie, whatever the entries.
pub open spec fn raw_spec(data: Map<H256, ItemSpec>, key: H256) -> Option<(Seq<u8>, i32)> {
    if key == sha3_null_rlp() {
        Some((null_rlp(), 1i32))
    } else if data.contains_key(key) {
        Some((data[key].value, data[key].rc))
    } else {
        None
    }
}

/// The auxiliary value that stands under `key`, if one does: the one put in last.
pub open spec fn aux_spec(aux: Seq<(Seq<u8>, Seq<u8>)>, key: Seq<u8>) -> Option<Seq<u8>>
    decreases aux.len(),
{
    if aux.len() == 0 {
        None
    } else if aux.last().0 == key {
        Some(aux.last().1)
    } else {
        aux_spec(aux.drop_last(), key)
    }
}

/// The auxiliary values as plain values.
pub open spec fn aux_views(aux: Seq<(Vec<u8>, Vec<u8>)>) -> Seq<(Seq<u8>, Seq<u8>)> {
    aux.map_values(|e: (Vec<u8>, Vec<u8>)| (e.0@, e.1@))
}

/// Whether two byte slices hold the same bytes.
pub fn same_bytes(a: &[u8], b: &[u8]) -> (r: bool)
    ensures
        r == (a@ == b@),
{
    if a.len() != b.len() {
        return false;
    }
    let mut i: usize = 0;
    while i < a.len()
        invariant
            i <= a@.len(),
            a@.len() == b@.len(),
            forall|j: int| 0 <= j < i ==> a@[j] == b@[j],
        decreases a@.len() - i,
    {
        if a[i] != b[i] {
            return false;
        }
        i = i + 1;
    }
    assert(a@ =~= b@);
    true
}

/// The order of byte strings: that of the first byte in which they differ;
/// a string comes before every string that it begins.
pub open spec fn bytes_less(a: Seq<u8>, b: Seq<u8>) -> bool
    decreases a.len(),
{
    if b.len() == 0 {
        false
    } else if a.len() == 0 {
        true
    } else if a[0] != b[0] {
        a[0] < b[0]
    } else {
        bytes_less(a.subrange(1, a.len() as int), b.subrange(1, b.len() as int))
    }
}

/// No byte string comes before itself; of two different ones, one comes
/// before the other.
pub proof fn lemma_bytes_order(a: Seq<u8>, b: Seq<u8>)
    ensures
        !bytes_less(a, a),
        a != b ==> bytes_less(a, b) || bytes_less(b, a),
        !(bytes_less(a, b) && bytes_less(b, a)),
    decreases a.len(),
{
    if a.len() > 0 {
        lemma_bytes_order(a.subrange(1, a.len() as int), a.subrange(1, a.len() as int));
    }
    if a.len() > 0 && b.len() > 0 {
        let x = a.subrange(1, a.len() as int);
        let y = b.subrange(1, b.len() as int);
        lemma_bytes_order(x, y);
        if a[0] == b[0] && x == y {
            assert(a =~= seq![a[0]] + x);
            assert(b =~= seq![b[0]] + y);
        }
    } else if a.len() == 0 && b.len() == 0 {
        assert(a =~= b);
    }
}

/// What comes before something that comes before a third comes before the third.
pub proof fn lemma_bytes_transitive(a: Seq<u8>, b: Seq<u8>, c: Seq<u8>)
    requires
        bytes_less(a, b),
        bytes_less(b, c),
    ensures
        bytes_less(a, c),
    decreases a.len(),
{
    if a.len() > 0 && b.len() > 0 && c.len() > 0 {
        if a[0] == b[0] && b[0] == c[0] {
            lemma_bytes_transitive(
                a.subrange(1, a.len() as int),
                b.subrange(1, b.len() as int),
                c.subrange(1, c.len() as int),
            );
        }
    }
}

/// Whether `a` comes before `b` in the order of byte strings.
pub fn less_bytes(a: &[u8], b: &[u8]) -> (r: bool)
    ensures
        r == bytes_less(a@, b@),
{
    let mut i: usize = 0;
    assert(a@.subrange(0, a@.len() as int) =~= a@);
    assert(b@.subrange(0, b@.len() as int) =~= b@);
    while i < a.len() && i < b.len()
        invariant
            i <= a@.len(),
            i <= b@.len(),
            bytes_less(a@, b@) == bytes_less(
                a@.subrange(i as int, a@.len() as int),
                b@.subrange(i as int, b@.len() as int),
            ),
        decreases a@.len() - i,
    {
        let ghost x = a@.subrange(i as int, a@.len() as int);
        let ghost y = b@.subrange(i as int, b@.len() as int);
        assert(x[0] == a@[i as int] && y[0] == b@[i as int]);
        if a[i] != b[i] {
            return a[i] < b[i];
        }
        assert(x.subrange(1, x.len() as int) =~= a@.subrange(i + 1, a@.len() as int));
        assert(y.subrange(1, y.len() as int) =~= b@.subrange(i + 1, b@.len() as int));
        i = i + 1;
    }
    i < b.len()
}

/// Whether byte strings ascend strictly.
pub open spec fn bytes_ascending(v: Seq<Seq<u8>>) -> bool {
    forall|i: int, j: int| 0 <= i < j < v.len() ==> bytes_less(#[trigger] v[i], #[trigger] v[j])
}

/// Whether an entry is one that a proof has to hold: one that was taken out
/// more often than put in, or read from a backing database.
pub open spec fn proof_item(i: ItemSpec) -> bool {
    i.rc < 0 || i.denoted
}

/// The byte strings of byte vectors.
pub open spec fn byte_views(v: Seq<Vec<u8>>) -> Seq<Seq<u8>> {
    v.map_values(|b: Vec<u8>| b@)
}

/// Puts a value into ascending values at its place, unless it is among them.
pub fn insert_sorted(values: &mut Vec<Vec<u8>>, value: &Vec<u8>)
    requires
        bytes_ascending(byte_views(old(values)@)),
    ensures
        bytes_ascending(byte_views(final(values)@)),
        forall|x: Seq<u8>|
            byte_views(final(values)@).contains(x) <==> (byte_views(old(values)@).contains(x) || x
                == value@),
{
    let ghost before = byte_views(values@);
    let mut at: usize = 0;
    while at < values.len() && less_bytes(values[at].as_slice(), value.as_slice())
        invariant
            at <= values@.len(),
            values@ == old(values)@,
            before == byte_views(values@),
            before.len() == values@.len(),
            forall|j: int| 0 <= j < at ==> bytes_less(#[trigger] before[j], value@),
        decreases values@.len() - at,
    {
        assert(before[at as int] == values@[at as int]@);
        at = at + 1;
    }
    if at < values.len() && same_bytes(values[at].as_slice(), value.as_slice()) {
        assert(before[at as int] == value@);
        return ;
    }
    values.insert(at, copy_bytes(value));
    proof {
        let after = byte_views(values@);
        assert(after =~= before.insert(at as int, value@));
        assert forall|i: int, j: int| 0 <= i < j < after.len() implies bytes_less(
            #[trigger] after[i],
            #[trigger] after[j],
        ) by {
            if j < at {
                assert(after[i] == before[i] && after[j] == before[j]);
            } else if j == at {
                assert(after[i] == before[i]);
            } else {
                assert(after[j] == before[j - 1]);
                if i < at {
                    assert(after[i] == before[i]);
                } else if i == at {
                    assert(before[at as int] == old(values)@[at as int]@);
                    lemma_bytes_order(before[at as int], value@);
                    if j - 1 > at {
                        assert(bytes_less(before[at as int], before[j - 1]));
                        lemma_bytes_transitive(value@, before[at as int], before[j - 1]);
                    }
                } else {
                    assert(after[i] == before[i - 1]);
                }
            }
        }
        assert forall|x: Seq<u8>| after.contains(x) <==> (before.contains(x) || x == value@) by {
            if after.contains(x) {
                let i = choose|i: int| 0 <= i < after.len() && after[i] == x;
                if i < at {
                    assert(before[i] == x);
                } else if i > at {
                    assert(before[i - 1] == x);
                }
            }
            if before.contains(x) {
                let i = choose|i: int| 0 <= i < before.len() && before[i] == x;
                if i < at {
                    assert(after[i] == x);
                } else {
                    assert(after[i + 1] == x);
                }
            }
            if x == value@ {
                assert(after[at as int] == x);
            }
        }
    }
}

/// A database in memory that counts how often each value was put in and
/// taken out. Values stand under their hashes.
#[derive(Debug)]
pub struct MemoryDB {
    data: SortedMap<Item>,
    aux: Vec<(Vec<u8>, Vec<u8>)>,
}

/// A memory database, as plain values.
pub struct MemorySpec {
    pub data: Map<H256, ItemSpec>,
    pub aux: Seq<(Seq<u8>, Seq<u8>)>,
}

impl View for MemoryDB {
    type V = MemorySpec;

    closed spec fn view(&self) -> MemorySpec {
        MemorySpec { data: over(self.data@, item_view()), aux: aux_views(self.aux@) }
    }
}

impl MemoryDB {
    /// The entries are in order.
    pub closed spec fn wf(&self) -> bool {
        self.data.wf()
    }

    /// A database without entries.
    pub fn new() -> (r: MemoryDB)
        ensures
            r.wf(),
            r@.data == Map::<H256, ItemSpec>::empty(),
            r@.aux == Seq::<(Seq<u8>, Seq<u8>)>::empty(),
    {
        let r = MemoryDB { data: SortedMap::new(), aux: Vec::new() };
        proof {
            lemma_over(
                Map::<H256, Item>::empty(),
                item_view(),
                H256 { w0: 0, w1: 0, w2: 0, w3: 0 },
                arbitrary(),
            );
            assert(aux_views(r.aux@) =~= Seq::<(Seq<u8>, Seq<u8>)>::empty());
        }
        r
    }

    /// Takes every entry out. The auxiliary values stay.
    pub fn clear(&mut self)
        requires
            old(self).wf(),
        ensures
            final(self).wf(),
            final(self)@.data == Map::<H256, ItemSpec>::empty(),
            final(self)@.aux == old(self)@.aux,
    {
        self.data = SortedMap::new();
        proof {
            lemma_over(
                Map::<H256, Item>::empty(),
                item_view(),
                H256 { w0: 0, w1: 0, w2: 0, w3: 0 },
                arbitrary(),
            );
        }
    }

    /// Takes out every entry that nothing refers to and that was not read
    /// from a backing database.
    pub fn purge(&mut self)
        requires
            old(self).wf(),
        ensures
            final(self).wf(),
            final(self)@.data == purged(old(self)@.data),
            final(self)@.aux == old(self)@.aux,
    {
        let ghost start = self@.data;
        let mut i: usize = 0;
        proof {
            self.data.lemma_seq();
        }
        while i < self.data.len()
            invariant
                self.wf(),
                self.aux == old(self).aux,
                start == old(self)@.data,
                i <= self.data.seq().len(),
                forall|k: H256| #[trigger]
                    self@.data.contains_key(k) ==> start.contains_key(k) && self@.data[k]
                        == start[k],
                forall|k: H256|
                    start.contains_key(k) && !purgeable(start[k]) ==> #[trigger] self@.data.contains_key(
                        k,
                    ),
                forall|j: int| 0 <= j < i ==> !purgeable((#[trigger] self.data.seq()[j]).1@),
            decreases self.data.seq().len() - i,
        {
            proof {
                self.data.lemma_seq();
            }
            let item = self.data.value_at(i);
            if item.rc == 0 && !item.denoted {
                let ghost before = self.data@;
                let ghost shown = self@.data;
                let ghost key = self.data.seq()[i as int].0;
                let ghost entries = self.data.seq();
                proof {
                    lemma_over(before, item_view(), key, arbitrary());
                    assert(shown.contains_key(key) && shown[key] == entries[i as int].1@);
                }
                let _ = self.data.remove_at(i);
                proof {
                    assert(self@.data == shown.remove(key));
                    assert(purgeable(start[key]));
                    assert forall|k: H256| #[trigger] self@.data.contains_key(k) implies start.contains_key(
                        k,
                    ) && self@.data[k] == start[k] by {
                        assert(shown.contains_key(k));
                    }
                    assert forall|k: H256|
                        start.contains_key(k) && !purgeable(
                            start[k],
                        ) implies #[trigger] self@.data.contains_key(k) by {
                        assert(shown.contains_key(k));
                    }
                    assert forall|j: int| 0 <= j < i implies !purgeable(
                        (#[trigger] self.data.seq()[j]).1@,
                    ) by {
                        assert(self.data.seq()[j] == entries[j]);
                    }
                }
            } else {
                i = i + 1;
            }
        }
        proof {
            self.data.lemma_seq();
            assert forall|k: H256| self@.data.contains_key(k) implies !purgeable(self@.data[k]) by {
                let j = place_of(self.data.seq(), k);
                assert(self.data.seq()[j].1@ == self@.data[k]);
            }
            assert(self@.data =~= purged(start));
        }
    }

    /// Takes every entry out and hands the entries over, in the order of their keys.
    pub fn drain(&mut self) -> (r: SortedMap<Item>)
        requires
            old(self).wf(),
        ensures
            final(self).wf(),
            r.wf(),
            over(r@, item_view()) == old(self)@.data,
            final(self)@.data == Map::<H256, ItemSpec>::empty(),
            final(self)@.aux == old(self)@.aux,
    {
        let mut data: SortedMap<Item> = SortedMap::new();
        core::mem::swap(&mut self.data, &mut data);
        proof {
            lemma_over(
                Map::<H256, Item>::empty(),
                item_view(),
                H256 { w0: 0, w1: 0, w2: 0, w3: 0 },
                arbitrary(),
            );
        }
        data
    }

    /// Takes every auxiliary value out and hands them over, in the order in
    /// which they were put in.
    pub fn drain_aux(&mut self) -> (r: Vec<(Vec<u8>, Vec<u8>)>)
        ensures
            aux_views(r@) == old(self)@.aux,
            final(self)@.aux == Seq::<(Seq<u8>, Seq<u8>)>::empty(),
            final(self)@.data == old(self)@.data,
            old(self).wf() ==> final(self).wf(),
    {
        let mut aux: Vec<(Vec<u8>, Vec<u8>)> = Vec::new();
        core::mem::swap(&mut self.aux, &mut aux);
        assert(aux_views(self.aux@) =~= Seq::<(Seq<u8>, Seq<u8>)>::empty());
        aux
    }

    /// The value and the count that stand under `key`, if an entry does. The
    /// value is of use only where the count is above zero.
    pub fn raw(&self, key: &H256) -> (r: Option<(Vec<u8>, i32)>)
        requires
            self.wf(),
        ensures
            match r {
                Some(found) => raw_spec(self@.data, *key) == Some((found.0@, found.1)),
                None => raw_spec(self@.data, *key).is_none(),
            },
    {
        if *key == sha3_null_rlp() {
            let mut null: Vec<u8> = Vec::new();
            null.push(0x80);
            assert(null@ =~= null_rlp());
            return Some((null, 1));
        }
        match self.data.get(key) {
            Some(item) => Some((copy_bytes(&item.value), item.rc)),
            None => None,
        }
    }

    /// Notes that `value` stands under `key` in a backing database, unless an
    /// entry stands under `key` already: for a key that is taken out without
    /// having been put in. Shows value and count under `key` afterwards.
    pub fn denote(&mut self, key: &H256, value: Vec<u8>) -> (r: (Vec<u8>, i32))
        requires
            old(self).wf(),
        ensures
            final(self).wf(),
            final(self)@.aux == old(self)@.aux,
            final(self)@.data == (if raw_spec(old(self)@.data, *key).is_none() {
                old(self)@.data.insert(*key, ItemSpec { value: value@, rc: 0, denoted: true })
            } else {
                old(self)@.data
            }),
            raw_spec(final(self)@.data, *key) == Some((r.0@, r.1)),
    {
        let known = *key == sha3_null_rlp() || self.data.contains_key(key);
        if !known {
            let item = Item { value: value, rc: 0, denoted: true };
            proof {
                lemma_over(self.data@, item_view(), *key, item);
            }
            self.data.insert(*key, item);
        }
        match self.raw(key) {
            Some(found) => found,
            None => (Vec::new(), 0),
        }
    }

    /// Takes what stands under `key` out once, and the entry with it where
    /// the count comes to zero and the value was not read from a backing database.
    pub fn remove_and_purge(&mut self, key: &H256)
        requires
            old(self).wf(),
            old(self)@.data.contains_key(*key) ==> old(self)@.data[*key].rc > i32::MIN,
        ensures
            final(self).wf(),
            final(self)@.aux == old(self)@.aux,
            final(self)@.data == (if *key == sha3_null_rlp() {
                old(self)@.data
            } else if old(self)@.data.contains_key(*key) && old(self)@.data[*key].rc == 1
                && !old(self)@.data[*key].denoted {
                old(self)@.data.remove(*key)
            } else {
                taken(old(self)@.data, *key)
            }),
    {
        if *key == sha3_null_rlp() {
            return ;
        }
        let ghost before = self.data@;
        match self.data.remove(key) {
            Some(item) => {
                proof {
                    lemma_over(before, item_view(), *key, item);
                }
                if item.rc == 1 && !item.denoted {
                } else {
                    let lowered = Item {
                        value: item.value,
                        rc: item.rc - 1,
                        denoted: item.denoted,
                    };
                    proof {
                        lemma_over(before.remove(*key), item_view(), *key, lowered);
                        assert(before.remove(*key).insert(*key, lowered) =~= before.insert(
                            *key,
                            lowered,
                        ));
                    }
                    self.data.insert(*key, lowered);
                }
            },
            None => {
                let item = Item { value: Vec::new(), rc: -1, denoted: false };
                proof {
                    lemma_over(before, item_view(), *key, item);
                    assert(before.remove(*key) =~= before);
                }
                self.data.insert(*key, item);
            },
        }
    }

    /// The value under `key`, where the count is above zero; the encoding of
    /// empty data for the root of the empty trie.
    pub fn get(&self, key: &H256) -> (r: Option<Vec<u8>>)
        requires
            self.wf(),
        ensures
            match r {
                Some(v) => raw_spec(self@.data, *key).is_some() && raw_spec(
                    self@.data,
                    *key,
                ).unwrap().1 > 0 && v@ == raw_spec(self@.data, *key).unwrap().0,
                None => raw_spec(self@.data, *key).is_none() || raw_spec(
                    self@.data,
                    *key,
                ).unwrap().1 <= 0,
            },
    {
        match self.raw(key) {
            Some(found) => {
                if found.1 > 0 {
                    Some(found.0)
                } else {
                    None
                }
            },
            None => None,
        }
    }

    /// Whether a value stands under `key` with a count above zero.
    pub fn contains(&self, key: &H256) -> (r: bool)
        requires
            self.wf(),
        ensures
            r == (raw_spec(self@.data, *key).is_some() && raw_spec(self@.data, *key).unwrap().1
                > 0),
    {
        match self.raw(key) {
            Some(found) => found.1 > 0,
            None => false,
        }
    }

    /// The keys whose count is not zero, each with its count, in the order of
    /// the keys.
    pub fn keys(&self) -> (r: Vec<(H256, i32)>)
        requires
            self.wf(),
        ensures
            forall|i: int|
                0 <= i < r@.len() ==> self@.data.contains_key((#[trigger] r@[i]).0)
                    && self@.data[r@[i].0].rc == r@[i].1 && r@[i].1 != 0,
            forall|k: H256|
                self@.data.contains_key(k) && self@.data[k].rc != 0 ==> exists|i: int|
                    0 <= i < r@.len() && #[trigger] r@[i] == (k, self@.data[k].rc),
            forall|i: int, j: int| 0 <= i < j < r@.len() ==> (#[trigger] r@[i]).0.less(
                (#[trigger] r@[j]).0,
            ),
    {
        let mut out: Vec<(H256, i32)> = Vec::new();
        let mut i: usize = 0;
        proof {
            self.data.lemma_seq();
        }
        while i < self.data.len()
            invariant
                self.wf(),
                i <= self.data.seq().len(),
                forall|a: int|
                    0 <= a < out@.len() ==> exists|j: int|
                        0 <= j < i && #[trigger] self.data.seq()[j].0 == (#[trigger] out@[a]).0
                            && self.data.seq()[j].1.rc == out@[a].1 && out@[a].1 != 0,
                forall|j: int|
                    0 <= j < i && (#[trigger] self.data.seq()[j]).1.rc != 0 ==> exists|a: int|
                        0 <= a < out@.len() && #[trigger] out@[a] == (
                            self.data.seq()[j].0,
                            self.data.seq()[j].1.rc,
                        ),
                forall|a: int, b: int| 0 <= a < b < out@.len() ==> (#[trigger] out@[a]).0.less(
                    (#[trigger] out@[b]).0,
                ),
                forall|a: int|
                    0 <= a < out@.len() && i < self.data.seq().len() ==> (#[trigger] out@[a]).0.less(
                        self.data.seq()[i as int].0,
                    ),
            decreases self.data.seq().len() - i,
        {
            proof {
                self.data.lemma_seq();
            }
            let key = self.data.key_at(i);
            let rc = self.data.value_at(i).rc;
            let ghost before = out@;
            if rc != 0 {
                out.push((key, rc));
            }
            proof {
                let s = self.data.seq();
                assert forall|a: int| 0 <= a < out@.len() implies exists|j: int|
                    0 <= j < i + 1 && #[trigger] s[j].0 == (#[trigger] out@[a]).0 && s[j].1.rc
                        == out@[a].1 && out@[a].1 != 0 by {
                    if a < before.len() {
                        let j = choose|j: int|
                            0 <= j < i && #[trigger] s[j].0 == before[a].0 && s[j].1.rc
                                == before[a].1 && before[a].1 != 0;
                        assert(s[j].0 == out@[a].0);
                    } else {
                        assert(s[i as int].0 == out@[a].0);
                    }
                }
                assert forall|j: int| 0 <= j < i + 1 && (#[trigger] s[j]).1.rc != 0 implies exists|
                    a: int,
                | 0 <= a < out@.len() && #[trigger] out@[a] == (s[j].0, s[j].1.rc) by {
                    if j < i {
                        let a = choose|a: int|
                            0 <= a < before.len() && #[trigger] before[a] == (s[j].0, s[j].1.rc);
                        assert(out@[a] == before[a]);
                    } else {
                        assert(out@[before.len() as int] == (s[j].0, s[j].1.rc));
                    }
                }
                assert forall|a: int|
                    0 <= a < out@.len() && i + 1 < s.len() implies (#[trigger] out@[a]).0.less(
                    s[i + 1].0,
                ) by {
                    assert(s[i as int].0.less(s[i + 1].0));
                    if a < before.len() {
                        assert(before[a].0.less(s[i as int].0));
                    }
                }
            }
            i = i + 1;
        }
        proof {
            self.data.lemma_seq();
            let s = self.data.seq();
            assert forall|a: int| 0 <= a < out@.len() implies self@.data.contains_key(
                (#[trigger] out@[a]).0,
            ) && self@.data[out@[a].0].rc == out@[a].1 && out@[a].1 != 0 by {
                let j = choose|j: int|
                    0 <= j < s.len() && #[trigger] s[j].0 == out@[a].0 && s[j].1.rc == out@[a].1
                        && out@[a].1 != 0;
                assert(self.data@.contains_key(s[j].0));
            }
            assert forall|k: H256|
                self@.data.contains_key(k) && self@.data[k].rc != 0 implies exists|a: int|
                0 <= a < out@.len() && #[trigger] out@[a] == (k, self@.data[k].rc) by {
                let j = place_of(s, k);
                assert(s[j].1.rc != 0);
            }
        }
        out
    }

    /// The values that a proof of what the database did has to hold: those of
    /// the entries that were taken out more often than put in or read from a
    /// backing database, each once, in the order of byte strings.
    pub fn merkle_proof(&self) -> (r: Vec<Vec<u8>>)
        requires
            self.wf(),
        ensures
            bytes_ascending(byte_views(r@)),
            forall|x: Seq<u8>|
                byte_views(r@).contains(x) <==> exists|k: H256|
                    self@.data.contains_key(k) && proof_item(#[trigger] self@.data[k])
                        && self@.data[k].value == x,
    {
        let mut v: Vec<Vec<u8>> = Vec::new();
        let mut i: usize = 0;
        proof {
            self.data.lemma_seq();
            assert(byte_views(v@) =~= Seq::<Seq<u8>>::empty());
        }
        while i < self.data.len()
            invariant
                self.wf(),
                i <= self.data.seq().len(),
                bytes_ascending(byte_views(v@)),
                forall|x: Seq<u8>|
                    byte_views(v@).contains(x) <==> exists|j: int|
                        0 <= j < i && proof_item((#[trigger] self.data.seq()[j]).1@)
                            && self.data.seq()[j].1@.value == x,
            decreases self.data.seq().len() - i,
        {
            let item = self.data.value_at(i);
            let ghost before = byte_views(v@);
            if item.rc < 0 || item.denoted {
                insert_sorted(&mut v, &item.value);
            }
            proof {
                let s = self.data.seq();
                let after = byte_views(v@);
                assert forall|x: Seq<u8>| after.contains(x) <==> exists|j: int|
                    0 <= j < i + 1 && proof_item((#[trigger] s[j]).1@) && s[j].1@.value == x by {
                    if before.contains(x) {
                        let j = choose|j: int|
                            0 <= j < i && proof_item((#[trigger] s[j]).1@) && s[j].1@.value == x;
                        assert(proof_item(s[j].1@));
                    }
                    if exists|j: int|
                        0 <= j < i + 1 && proof_item((#[trigger] s[j]).1@) && s[j].1@.value == x {
                        let j = choose|j: int|
                            0 <= j < i + 1 && proof_item((#[trigger] s[j]).1@) && s[j].1@.value
                                == x;
                        if j < i {
                            assert(before.contains(x));
                        }
                    }
                    if after.contains(x) && !before.contains(x) {
                        assert(proof_item(s[i as int].1@) && s[i as int].1@.value == x);
                    }
                }
            }
            i = i + 1;
        }
        proof {
            self.data.lemma_seq();
            let s = self.data.seq();
            assert forall|x: Seq<u8>| byte_views(v@).contains(x) <==> exists|k: H256|
                self@.data.contains_key(k) && proof_item(#[trigger] self@.data[k])
                    && self@.data[k].value == x by {
                if byte_views(v@).contains(x) {
                    let j = choose|j: int|
                        0 <= j < s.len() && proof_item((#[trigger] s[j]).1@) && s[j].1@.value == x;
                    assert(self.data@.contains_key(s[j].0));
                    assert(self@.data[s[j].0] == s[j].1@);
                }
                if exists|k: H256|
                    self@.data.contains_key(k) && proof_item(#[trigger] self@.data[k])
                        && self@.data[k].value == x {
                    let k = choose|k: H256|
                        self@.data.contains_key(k) && proof_item(#[trigger] self@.data[k])
                            && self@.data[k].value == x;
                    let j = place_of(s, k);
                    assert(proof_item(s[j].1@));
                }
            }
        }
        v
    }

    /// Puts `value` in under its hash and returns the hash: see `put`. The
    /// encoding of empty data is not kept: its hash is the root of the empty trie.
    pub fn insert(&mut self, value: &[u8]) -> (r: H256)
        requires
            old(self).wf(),
            old(self)@.data.contains_key(keccak_hash(value@)) ==> old(self)@.data[keccak_hash(
                value@,
            )].rc < i32::MAX,
        ensures
            final(self).wf(),
            final(self)@.aux == old(self)@.aux,
            value@ == null_rlp() ==> r == sha3_null_rlp() && final(self)@.data == old(self)@.data,
            value@ != null_rlp() ==> r == keccak_hash(value@) && final(self)@.data == put(
                old(self)@.data,
                r,
                value@,
            ),
    {
        if is_null_rlp(value) {
            return sha3_null_rlp();
        }
        let key = keccak(value);
        self.put_in(key, vstd::slice::slice_to_vec(value));
        key
    }

    /// Whether the count under `key` cannot go up any more.
    pub fn is_full(&self, key: &H256) -> (r: bool)
        requires
            self.wf(),
        ensures
            r == (self@.data.contains_key(*key) && self@.data[*key].rc == i32::MAX),
    {
        match self.data.get(key) {
            Some(item) => item.rc == i32::MAX,
            None => false,
        }
    }

    /// Puts `value` in as `insert` does, unless the count under its hash
    /// cannot go up any more: then nothing changes and nothing is returned.
    pub fn try_insert(&mut self, value: &[u8]) -> (r: Option<H256>)
        requires
            old(self).wf(),
        ensures
            final(self).wf(),
            final(self)@.aux == old(self)@.aux,
            ({
                let key = keccak_hash(value@);
                let full = value@ != null_rlp() && old(self)@.data.contains_key(key) && old(self)@.data[key].rc == i32::MAX;
                &&& r.is_none() == full
                &&& full ==> final(self)@.data == old(self)@.data
                &&& !full && value@ == null_rlp() ==> r == Some(sha3_null_rlp()) && final(self)@.data == old(self)@.data
                &&& !full && value@ != null_rlp() ==> r == Some(key) && final(self)@.data == put(
                    old(self)@.data,
                    key,
                    value@,
                )
            }),
    {
        if is_null_rlp(value) {
            return Some(sha3_null_rlp());
        }
        let key = keccak(value);
        if self.is_full(&key) {
            None
        } else {
            Some(self.insert(value))
        }
    }

    /// Puts `value` in under the hash `key`, which is taken on trust: see
    /// `put`. The encoding of empty data is not kept.
    pub fn emplace(&mut self, key: H256, value: Vec<u8>)
        requires
            old(self).wf(),
            old(self)@.data.contains_key(key) ==> old(self)@.data[key].rc < i32::MAX,
        ensures
            final(self).wf(),
            final(self)@.aux == old(self)@.aux,
            final(self)@.data == (if value@ == null_rlp() {
                old(self)@.data
            } else {
                put(old(self)@.data, key, value@)
            }),
    {
        if is_null_rlp(value.as_slice()) {
            return ;
        }
        self.put_in(key, value);
    }

    /// Puts a value in under a key: see `put`.
    fn put_in(&mut self, key: H256, value: Vec<u8>)
        requires
            old(self).wf(),
            old(self)@.data.contains_key(key) ==> old(self)@.data[key].rc < i32::MAX,
        ensures
            final(self).wf(),
            final(self)@.aux == old(self)@.aux,
            final(self)@.data == put(old(self)@.data, key, value@),
    {
        let ghost before = self.data@;
        match self.data.remove(&key) {
            Some(item) => {
                let raised = if item.rc <= 0 {
                    Item { value: value, rc: item.rc + 1, denoted: item.denoted }
                } else {
                    Item { value: item.value, rc: item.rc + 1, denoted: item.denoted }
                };
                proof {
                    lemma_over(before, item_view(), key, item);
                    lemma_over(before.remove(key), item_view(), key, raised);
                    assert(before.remove(key).insert(key, raised) =~= before.insert(key, raised));
                    lemma_over(before, item_view(), key, raised);
                }
                self.data.insert(key, raised);
            },
            None => {
                let item = Item { value: value, rc: 1, denoted: false };
                proof {
                    lemma_over(before, item_view(), key, item);
                    assert(before.remove(key) =~= before);
                }
                self.data.insert(key, item);
            },
        }
    }

    /// Takes what stands under `key` out once: see `taken`. Nothing is taken
    /// out under the root of the empty trie.
    pub fn remove(&mut self, key: &H256)
        requires
            old(self).wf(),
            old(self)@.data.contains_key(*key) ==> old(self)@.data[*key].rc > i32::MIN,
        ensures
            final(self).wf(),
            final(self)@.aux == old(self)@.aux,
            final(self)@.data == (if *key == sha3_null_rlp() {
                old(self)@.data
            } else {
                taken(old(self)@.data, *key)
            }),
    {
        if *key == sha3_null_rlp() {
            return ;
        }
        let ghost before = self.data@;
        match self.data.remove(key) {
            Some(item) => {
                let lowered = Item { value: item.value, rc: item.rc - 1, denoted: item.denoted };
                proof {
                    lemma_over(before, item_view(), *key, item);
                    lemma_over(before.remove(*key), item_view(), *key, lowered);
                    assert(before.remove(*key).insert(*key, lowered) =~= before.insert(
                        *key,
                        lowered,
                    ));
                    lemma_over(before, item_view(), *key, lowered);
                }
                self.data.insert(*key, lowered);
            },
            None => {
                let item = Item { value: Vec::new(), rc: -1, denoted: false };
                proof {
                    lemma_over(before, item_view(), *key, item);
                    assert(before.remove(*key) =~= before);
                }
                self.data.insert(*key, item);
            },
        }
    }

    /// Puts an auxiliary value in under `hash`, in place of what stood there.
    pub fn insert_aux(&mut self, hash: Vec<u8>, value: Vec<u8>)
        ensures
            final(self)@.data == old(self)@.data,
            final(self)@.aux == old(self)@.aux.push((hash@, value@)),
            aux_spec(final(self)@.aux, hash@) == Some(value@),
            old(self).wf() ==> final(self).wf(),
    {
        self.aux.push((hash, value));
        proof {
            assert(aux_views(self.aux@) =~= aux_views(old(self).aux@).push((hash@, value@)));
        }
    }

    /// The auxiliary value under `hash`, if one stands there.
    pub fn get_aux(&self, hash: &[u8]) -> (r: Option<Vec<u8>>)
        ensures
            match r {
                Some(v) => aux_spec(self@.aux, hash@) == Some(v@),
                None => aux_spec(self@.aux, hash@).is_none(),
            },
    {
        let ghost all = aux_views(self.aux@);
        let mut n: usize = self.aux.len();
        assert(all.subrange(0, n as int) =~= all);
        while n > 0
            invariant
                n <= self.aux@.len(),
                all == aux_views(self.aux@),
                aux_spec(all, hash@) == aux_spec(all.subrange(0, n as int), hash@),
            decreases n,
        {
            let ghost part = all.subrange(0, n as int);
            n = n - 1;
            assert(part.last() == (self.aux@[n as int].0@, self.aux@[n as int].1@));
            if same_bytes(self.aux[n].0.as_slice(), hash) {
                return Some(copy_bytes(&self.aux[n].1));
            }
            assert(part.drop_last() =~= all.subrange(0, n as int));
        }
        None
    }

    /// Takes the auxiliary values under `hash` out; those under other keys stay.
    pub fn remove_aux(&mut self, hash: &[u8])
        ensures
            final(self)@.data == old(self)@.data,
            old(self).wf() ==> final(self).wf(),
            aux_spec(final(self)@.aux, hash@).is_none(),
            forall|other: Seq<u8>|
                other != hash@ ==> #[trigger] aux_spec(final(self)@.aux, other) == aux_spec(
                    old(self)@.aux,
                    other,
                ),
    {
        let mut kept: Vec<(Vec<u8>, Vec<u8>)> = Vec::new();
        let mut source: Vec<(Vec<u8>, Vec<u8>)> = Vec::new();
        core::mem::swap(&mut self.aux, &mut source);
        let ghost all = aux_views(source@);
        let mut i: usize = 0;
        assert(aux_views(kept@) =~= Seq::<(Seq<u8>, Seq<u8>)>::empty());
        assert(all.subrange(0, 0) =~= Seq::<(Seq<u8>, Seq<u8>)>::empty());
        while i < source.len()
            invariant
                i <= source@.len(),
                all == aux_views(source@),
                aux_spec(aux_views(kept@), hash@).is_none(),
                forall|other: Seq<u8>|
                    other != hash@ ==> #[trigger] aux_spec(aux_views(kept@), other) == aux_spec(
                        all.subrange(0, i as int),
                        other,
                    ),
            decreases source@.len() - i,
        {
            let ghost before = aux_views(kept@);
            let ghost part = all.subrange(0, i + 1);
            proof {
                assert(part.drop_last() =~= all.subrange(0, i as int));
                assert(part.last() == (source@[i as int].0@, source@[i as int].1@));
            }
            if !same_bytes(source[i].0.as_slice(), hash) {
                kept.push((copy_bytes(&source[i].0), copy_bytes(&source[i].1)));
                proof {
                    let after = aux_views(kept@);
                    assert(after.drop_last() =~= before);
                    assert(after.last() == part.last());
                    assert forall|other: Seq<u8>| other != hash@ implies #[trigger] aux_spec(
                        after,
                        other,
                    ) == aux_spec(part, other) by {
                        assert(aux_spec(before, other) == aux_spec(part.drop_last(), other));
                    }
                    assert(aux_spec(after, hash@).is_none());
                }
            } else {
                proof {
                    assert forall|other: Seq<u8>| other != hash@ implies #[trigger] aux_spec(
                        before,
                        other,
                    ) == aux_spec(part, other) by {
                        assert(aux_spec(before, other) == aux_spec(part.drop_last(), other));
                    }
                }
            }
            i = i + 1;
        }
        proof {
            assert(all.subrange(0, source@.len() as int) =~= all);
        }
        self.aux = kept;
    }
}

} // verus!
