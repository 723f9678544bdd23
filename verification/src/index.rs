use vstd::prelude::*;
use crate::hash::H256;
use crate::sorted_map::{as_map, has_key, place_of};

verus! {

/// The number of buckets of an index.
pub const BUCKETS: usize = 65536;

/// The bucket that a key belongs to.
pub open spec fn slot(key: H256) -> int {
    ((key.w0 ^ key.w3) % 65536) as int
}

/// Whether no key occurs twice in `s`.
pub open spec fn distinct<V>(s: Seq<(H256, V)>) -> bool {
    forall|i: int, j: int| 0 <= i < j < s.len() ==> (#[trigger] s[i]).0 != (#[trigger] s[j]).0
}

/// Whether every key of `s` belongs to the bucket `b`.
pub open spec fn slotted<V>(s: Seq<(H256, V)>, b: int) -> bool {
    forall|i: int| 0 <= i < s.len() ==> slot((#[trigger] s[i]).0) == b
}

/// Without repeated keys each entry is the one found under its key.
pub proof fn lemma_distinct_entry<V>(s: Seq<(H256, V)>, i: int)
    requires
        distinct(s),
        0 <= i < s.len(),
    ensures
        has_key(s, s[i].0),
        place_of(s, s[i].0) == i,
        as_map(s).contains_key(s[i].0),
        as_map(s)[s[i].0] == s[i].1,
{
    let k = s[i].0;
    assert(has_key(s, k));
    let j = place_of(s, k);
    if j < i {
        assert(s[j].0 != s[i].0);
    } else if i < j {
        assert(s[i].0 != s[j].0);
    }
}

/// Adding an entry under a new key adds it to the map.
pub proof fn lemma_distinct_push<V>(s: Seq<(H256, V)>, key: H256, value: V)
    requires
        distinct(s),
        !has_key(s, key),
    ensures
        distinct(s.push((key, value))),
        as_map(s.push((key, value))) == as_map(s).insert(key, value),
{
    let t = s.push((key, value));
    assert(distinct(t)) by {
        assert forall|i: int, j: int| 0 <= i < j < t.len() implies (#[trigger] t[i]).0 != (
        #[trigger] t[j]).0 by {
            if j == s.len() {
                assert(t[i] == s[i]);
                assert(s[i].0 != key);
            } else {
                assert(t[i] == s[i] && t[j] == s[j]);
            }
        }
    }
    assert forall|k: H256| as_map(t).contains_key(k) <==> as_map(s).insert(
        key,
        value,
    ).contains_key(k) by {
        if has_key(t, k) {
            let i = place_of(t, k);
            if i < s.len() {
                assert(t[i] == s[i]);
            }
        }
        if has_key(s, k) {
            let i = place_of(s, k);
            assert(t[i] == s[i]);
        }
        if k == key {
            assert(t[s.len() as int].0 == key);
        }
    }
    assert forall|k: H256| as_map(t).contains_key(k) implies as_map(t)[k] == as_map(s).insert(
        key,
        value,
    )[k] by {
        let i = place_of(t, k);
        lemma_distinct_entry(t, i);
        if i < s.len() {
            assert(t[i] == s[i]);
            lemma_distinct_entry(s, i);
        }
    }
    assert(as_map(t) =~= as_map(s).insert(key, value));
}

/// Replacing the value of an entry changes the map under that key alone.
pub proof fn lemma_distinct_update<V>(s: Seq<(H256, V)>, at: int, value: V)
    requires
        distinct(s),
        0 <= at < s.len(),
    ensures
        distinct(s.update(at, (s[at].0, value))),
        as_map(s.update(at, (s[at].0, value))) == as_map(s).insert(s[at].0, value),
{
    let key = s[at].0;
    let t = s.update(at, (key, value));
    assert(distinct(t)) by {
        assert forall|i: int, j: int| 0 <= i < j < t.len() implies (#[trigger] t[i]).0 != (
        #[trigger] t[j]).0 by {
            assert(t[i].0 == s[i].0 && t[j].0 == s[j].0);
        }
    }
    assert forall|k: H256| as_map(t).contains_key(k) <==> as_map(s).insert(
        key,
        value,
    ).contains_key(k) by {
        if has_key(t, k) {
            let i = place_of(t, k);
            assert(t[i].0 == s[i].0);
        }
        if has_key(s, k) {
            let i = place_of(s, k);
            assert(t[i].0 == s[i].0);
        }
        if k == key {
            assert(t[at].0 == key);
        }
    }
    assert forall|k: H256| as_map(t).contains_key(k) implies as_map(t)[k] == as_map(s).insert(
        key,
        value,
    )[k] by {
        let i = place_of(t, k);
        lemma_distinct_entry(t, i);
        lemma_distinct_entry(s, i);
    }
    assert(as_map(t) =~= as_map(s).insert(key, value));
}

/// A table from hashes to values, for finding a value by its hash fast.
#[derive(Debug)]
pub struct HashIndex<V> {
    buckets: Vec<Vec<(H256, V)>>,
}

impl<V> View for HashIndex<V> {
    type V = Map<H256, V>;

    closed spec fn view(&self) -> Map<H256, V> {
        Map::new(
            |k: H256| as_map(self.buckets@[slot(k)]@).contains_key(k),
            |k: H256| as_map(self.buckets@[slot(k)]@)[k],
        )
    }
}

impl<V> HashIndex<V> {
    /// Every bucket holds its own keys, each once.
    pub closed spec fn wf(&self) -> bool {
        &&& self.buckets@.len() == BUCKETS
        &&& forall|b: int|
            0 <= b < BUCKETS ==> slotted((#[trigger] self.buckets@[b])@, b) && distinct(
                self.buckets@[b]@,
            )
    }

    /// The bucket of a key, computed.
    fn slot_of(key: &H256) -> (r: usize)
        ensures
            r == slot(*key),
            r < BUCKETS,
    {
        ((key.w0 ^ key.w3) % 65536) as usize
    }

    /// A table without entries.
    pub fn new() -> (r: HashIndex<V>)
        ensures
            r.wf(),
            r@ == Map::<H256, V>::empty(),
    {
        let mut buckets: Vec<Vec<(H256, V)>> = Vec::new();
        let mut i: usize = 0;
        while i < BUCKETS
            invariant
                i <= BUCKETS,
                buckets@.len() == i,
                forall|b: int| 0 <= b < i ==> (#[trigger] buckets@[b])@.len() == 0,
            decreases BUCKETS - i,
        {
            buckets.push(Vec::new());
            i = i + 1;
        }
        let r = HashIndex { buckets };
        assert(r@ =~= Map::<H256, V>::empty());
        r
    }

    /// Looks for `key` in its bucket: the place where it stands, if it does.
    fn place(&self, key: &H256) -> (r: Option<usize>)
        requires
            self.wf(),
        ensures
            match r {
                Some(i) => i < self.buckets@[slot(*key)]@.len() && self.buckets@[slot(
                    *key,
                )]@[i as int].0 == *key && self@.contains_key(*key) && self@[*key]
                    == self.buckets@[slot(*key)]@[i as int].1,
                None => !self@.contains_key(*key) && !has_key(self.buckets@[slot(*key)]@, *key),
            },
    {
        let b = Self::slot_of(key);
        let mut i: usize = 0;
        while i < self.buckets[b].len()
            invariant
                self.wf(),
                b == slot(*key),
                i <= self.buckets@[b as int]@.len(),
                forall|j: int| 0 <= j < i ==> (#[trigger] self.buckets@[b as int]@[j]).0 != *key,
            decreases self.buckets@[b as int]@.len() - i,
        {
            if self.buckets[b][i].0 == *key {
                proof {
                    lemma_distinct_entry(self.buckets@[b as int]@, i as int);
                }
                return Some(i);
            }
            i = i + 1;
        }
        None
    }

    /// The value under `key`, if there is one.
    pub fn get(&self, key: &H256) -> (r: Option<&V>)
        requires
            self.wf(),
        ensures
            match r {
                Some(v) => self@.contains_key(*key) && *v == self@[*key],
                None => !self@.contains_key(*key),
            },
    {
        match self.place(key) {
            Some(i) => Some(&self.buckets[Self::slot_of(key)][i].1),
            None => None,
        }
    }

    /// Whether there is a value under `key`.
    pub fn contains_key(&self, key: &H256) -> (r: bool)
        requires
            self.wf(),
        ensures
            r == self@.contains_key(*key),
    {
        self.place(key).is_some()
    }

    /// Puts `value` under `key`, in place of what stood there.
    pub fn insert(&mut self, key: H256, value: V)
        requires
            old(self).wf(),
        ensures
            final(self).wf(),
            final(self)@ == old(self)@.insert(key, value),
    {
        let b = Self::slot_of(&key);
        let ghost before = self.buckets@[b as int]@;
        match self.place(&key) {
            Some(i) => {
                proof {
                    lemma_distinct_update(before, i as int, value);
                }
                self.buckets[b][i] = (key, value);
            },
            None => {
                proof {
                    lemma_distinct_push(before, key, value);
                }
                self.buckets[b].push((key, value));
            },
        }
        proof {
            let ghost after = self.buckets@[b as int]@;
            assert(as_map(after) == as_map(before).insert(key, value));
            assert(slotted(after, b as int));
            assert(final(self)@ =~= old(self)@.insert(key, value));
        }
    }
}

} // verus!
