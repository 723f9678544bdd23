use vstd::prelude::*;
use crate::hash::H256;

verus! {

/// Whether the keys of `s` ascend strictly.
pub open spec fn ascending<V>(s: Seq<(H256, V)>) -> bool {
    forall|i: int, j: int| 0 <= i < j < s.len() ==> (#[trigger] s[i]).0.less((#[trigger] s[j]).0)
}

/// Whether `s` holds an entry under `key`.
pub open spec fn has_key<V>(s: Seq<(H256, V)>, key: H256) -> bool {
    exists|i: int| 0 <= i < s.len() && (#[trigger] s[i]).0 == key
}

/// The place of an entry of `s` under `key`.
pub open spec fn place_of<V>(s: Seq<(H256, V)>, key: H256) -> int {
    choose|i: int| 0 <= i < s.len() && (#[trigger] s[i]).0 == key
}

/// The map from each key of `s` to the value that stands with it.
pub open spec fn as_map<V>(s: Seq<(H256, V)>) -> Map<H256, V> {
    Map::new(|k: H256| has_key(s, k), |k: H256| s[place_of(s, k)].1)
}

/// With ascending keys each entry is the one the map holds under its key.
pub proof fn lemma_entry<V>(s: Seq<(H256, V)>, i: int)
    requires
        ascending(s),
        0 <= i < s.len(),
    ensures
        has_key(s, s[i].0),
        place_of(s, s[i].0) == i,
        as_map(s).contains_key(s[i].0),
        as_map(s)[s[i].0] == s[i].1,
{
    let k = s[i].0;
    assert(has_key(s, k));
    let j = place_of(s, k);
    if j < i {
        assert(s[j].0.less(s[i].0));
    } else if i < j {
        assert(s[i].0.less(s[j].0));
    }
}

/// Putting an entry at the place where its key belongs adds it to the map.
pub proof fn lemma_insert<V>(s: Seq<(H256, V)>, at: int, key: H256, value: V)
    requires
        ascending(s),
        0 <= at <= s.len(),
        forall|i: int| 0 <= i < at ==> (#[trigger] s[i]).0.less(key),
        forall|i: int| at <= i < s.len() ==> key.less((#[trigger] s[i]).0),
    ensures
        ascending(s.insert(at, (key, value))),
        as_map(s.insert(at, (key, value))) == as_map(s).insert(key, value),
{
    let t = s.insert(at, (key, value));
    assert(ascending(t)) by {
        assert forall|i: int, j: int| 0 <= i < j < t.len() implies (#[trigger] t[i]).0.less(
            (#[trigger] t[j]).0,
        ) by {
            if j < at {
                assert(t[i] == s[i] && t[j] == s[j]);
            } else if j == at {
                assert(t[i] == s[i]);
            } else if i < at {
                assert(t[i] == s[i] && t[j] == s[j - 1]);
            } else if i == at {
                assert(t[j] == s[j - 1]);
            } else {
                assert(t[i] == s[i - 1] && t[j] == s[j - 1]);
            }
        }
    }
    assert forall|k: H256| as_map(t).contains_key(k) <==> as_map(s).insert(
        key,
        value,
    ).contains_key(k) by {
        if has_key(t, k) {
            let i = place_of(t, k);
            if i < at {
                assert(t[i] == s[i]);
            } else if i > at {
                assert(t[i] == s[i - 1]);
            }
        }
        if has_key(s, k) {
            let i = place_of(s, k);
            if i < at {
                assert(t[i] == s[i]);
            } else {
                assert(t[i + 1] == s[i]);
            }
        }
        if k == key {
            assert(t[at].0 == key);
        }
    }
    assert forall|k: H256| as_map(t).contains_key(k) implies as_map(t)[k] == as_map(s).insert(
        key,
        value,
    )[k] by {
        let i = place_of(t, k);
        lemma_entry(t, i);
        if i < at {
            assert(t[i] == s[i]);
            lemma_entry(s, i);
        } else if i > at {
            assert(t[i] == s[i - 1]);
            lemma_entry(s, i - 1);
        }
    }
    assert(as_map(t) =~= as_map(s).insert(key, value));
}

/// Replacing the value of an entry changes the map under that key alone.
pub proof fn lemma_update<V>(s: Seq<(H256, V)>, at: int, value: V)
    requires
        ascending(s),
        0 <= at < s.len(),
    ensures
        ascending(s.update(at, (s[at].0, value))),
        as_map(s.update(at, (s[at].0, value))) == as_map(s).insert(s[at].0, value),
{
    let key = s[at].0;
    let t = s.update(at, (key, value));
    assert(ascending(t)) by {
        assert forall|i: int, j: int| 0 <= i < j < t.len() implies (#[trigger] t[i]).0.less(
            (#[trigger] t[j]).0,
        ) by {
            assert(t[i].0 == s[i].0 && t[j].0 == s[j].0);
        }
    }
    assert forall|k: H256| as_map(t).contains_key(k) <==> as_map(s).insert(
        key,
        value,
    ).contains_key(k) by {
        if has_key(t, k) {
            let i = place_of(t, k);
            assert(t[i].0 == s[i].0);
        }
        if has_key(s, k) {
            let i = place_of(s, k);
            assert(t[i].0 == s[i].0);
        }
        if k == key {
            assert(t[at].0 == key);
        }
    }
    assert forall|k: H256| as_map(t).contains_key(k) implies as_map(t)[k] == as_map(s).insert(
        key,
        value,
    )[k] by {
        let i = place_of(t, k);
        lemma_entry(t, i);
        lemma_entry(s, i);
    }
    assert(as_map(t) =~= as_map(s).insert(key, value));
}

/// Taking an entry out takes its key out of the map.
pub proof fn lemma_remove<V>(s: Seq<(H256, V)>, at: int)
    requires
        ascending(s),
        0 <= at < s.len(),
    ensures
        ascending(s.remove(at)),
        as_map(s.remove(at)) == as_map(s).remove(s[at].0),
{
    let key = s[at].0;
    let t = s.remove(at);
    assert(ascending(t)) by {
        assert forall|i: int, j: int| 0 <= i < j < t.len() implies (#[trigger] t[i]).0.less(
            (#[trigger] t[j]).0,
        ) by {
            let si = if i < at { i } else { i + 1 };
            let sj = if j < at { j } else { j + 1 };
            assert(t[i] == s[si] && t[j] == s[sj]);
        }
    }
    assert forall|k: H256| as_map(t).contains_key(k) <==> as_map(s).remove(key).contains_key(
        k,
    ) by {
        if has_key(t, k) {
            let i = place_of(t, k);
            let si = if i < at { i } else { i + 1 };
            assert(t[i] == s[si]);
            if k == key {
                lemma_entry(s, si);
                lemma_entry(s, at);
            }
        }
        if has_key(s, k) && k != key {
            let i = place_of(s, k);
            if i < at {
                assert(t[i] == s[i]);
            } else {
                assert(t[i - 1] == s[i]);
            }
        }
    }
    assert forall|k: H256| as_map(t).contains_key(k) implies as_map(t)[k] == as_map(s).remove(
        key,
    )[k] by {
        let i = place_of(t, k);
        lemma_entry(t, i);
        let si = if i < at { i } else { i + 1 };
        assert(t[i] == s[si]);
        lemma_entry(s, si);
    }
    assert(as_map(t) =~= as_map(s).remove(key));
}

/// Where the keys ascend and `key` lies between two neighbours, no entry has it.
pub proof fn lemma_absent<V>(s: Seq<(H256, V)>, at: int, key: H256)
    requires
        ascending(s),
        0 <= at <= s.len(),
        forall|i: int| 0 <= i < at ==> (#[trigger] s[i]).0.less(key),
        forall|i: int| at <= i < s.len() ==> key.less((#[trigger] s[i]).0),
    ensures
        !has_key(s, key),
        !as_map(s).contains_key(key),
{
    if has_key(s, key) {
        let i = place_of(s, key);
        if i < at {
            assert(s[i].0.less(key));
        } else {
            assert(key.less(s[i].0));
        }
    }
}

/// Two ascending sequences that stand for the same map are the same.
pub proof fn lemma_ascending_unique<V>(s: Seq<(H256, V)>, t: Seq<(H256, V)>)
    requires
        ascending(s),
        ascending(t),
        as_map(s) == as_map(t),
    ensures
        s == t,
    decreases s.len(),
{
    if s.len() == 0 {
        if t.len() > 0 {
            lemma_entry(t, 0);
            assert(as_map(s).contains_key(t[0].0));
        }
        assert(s =~= t);
    } else {
        lemma_entry(s, 0);
        assert(as_map(t).contains_key(s[0].0));
        let j = place_of(t, s[0].0);
        lemma_entry(t, j);
        if j > 0 {
            lemma_entry(t, 0);
            assert(as_map(s).contains_key(t[0].0));
            let i = place_of(s, t[0].0);
            lemma_entry(s, i);
            assert(t[0].0.less(t[j].0));
            if i > 0 {
                assert(s[0].0.less(s[i].0));
            }
        }
        assert(s[0] == t[0]);
        lemma_remove(s, 0);
        lemma_remove(t, 0);
        lemma_ascending_unique(s.remove(0), t.remove(0));
        assert(s =~= seq![s[0]] + s.remove(0));
        assert(t =~= seq![t[0]] + t.remove(0));
    }
}

/// The entries of a map in the order of their keys.
pub open spec fn canonical<V>(m: Map<H256, V>) -> Seq<(H256, V)> {
    choose|s: Seq<(H256, V)>| ascending(s) && as_map(s) == m
}

/// An ascending sequence is the canonical one of its map.
pub proof fn lemma_canonical<V>(s: Seq<(H256, V)>)
    requires
        ascending(s),
    ensures
        canonical(as_map(s)) == s,
{
    let c = canonical(as_map(s));
    lemma_ascending_unique(c, s);
}

/// The entries of `s` with `f` applied to each value.
pub open spec fn mapped<V, W>(s: Seq<(H256, V)>, f: spec_fn(V) -> W) -> Seq<(H256, W)> {
    Seq::new(s.len(), |i: int| (s[i].0, f(s[i].1)))
}

/// The map `m` with `f` applied to each value.
pub open spec fn over<V, W>(m: Map<H256, V>, f: spec_fn(V) -> W) -> Map<H256, W> {
    Map::new(|k: H256| m.contains_key(k), |k: H256| f(m[k]))
}

/// Applying a function to the values keeps the order, and commutes with
/// reading the entries as a map.
pub proof fn lemma_mapped<V, W>(s: Seq<(H256, V)>, f: spec_fn(V) -> W)
    requires
        ascending(s),
    ensures
        ascending(mapped(s, f)),
        as_map(mapped(s, f)) == over(as_map(s), f),
        canonical(over(as_map(s), f)) == mapped(s, f),
{
    let t = mapped(s, f);
    assert(ascending(t)) by {
        assert forall|i: int, j: int| 0 <= i < j < t.len() implies (#[trigger] t[i]).0.less(
            (#[trigger] t[j]).0,
        ) by {
            assert(s[i].0.less(s[j].0));
        }
    }
    assert forall|k: H256| as_map(t).contains_key(k) <==> over(as_map(s), f).contains_key(k) by {
        if has_key(t, k) {
            let i = place_of(t, k);
            assert(s[i].0 == k);
        }
        if has_key(s, k) {
            let i = place_of(s, k);
            assert(t[i].0 == k);
        }
    }
    assert forall|k: H256| as_map(t).contains_key(k) implies as_map(t)[k] == over(as_map(s), f)[k] by {
        let i = place_of(t, k);
        lemma_entry(t, i);
        assert(s[i].0 == k);
        lemma_entry(s, i);
    }
    assert(as_map(t) =~= over(as_map(s), f));
    lemma_canonical(t);
}

/// Putting, replacing and taking out commute with applying a function to
/// the values.
pub proof fn lemma_over<V, W>(m: Map<H256, V>, f: spec_fn(V) -> W, key: H256, value: V)
    ensures
        over(m.insert(key, value), f) == over(m, f).insert(key, f(value)),
        over(m.remove(key), f) == over(m, f).remove(key),
        over(Map::<H256, V>::empty(), f) == Map::<H256, W>::empty(),
{
    assert(over(m.insert(key, value), f) =~= over(m, f).insert(key, f(value)));
    assert(over(m.remove(key), f) =~= over(m, f).remove(key));
    assert(over(Map::<H256, V>::empty(), f) =~= Map::<H256, W>::empty());
}

/// A map keyed by hashes that keeps its entries in the order of their keys.
#[derive(Debug)]
pub struct SortedMap<V> {
    entries: Vec<(H256, V)>,
}

impl<V> View for SortedMap<V> {
    type V = Map<H256, V>;

    closed spec fn view(&self) -> Map<H256, V> {
        as_map(self.entries@)
    }
}

impl<V> SortedMap<V> {
    /// The entries in the order of their keys.
    pub closed spec fn seq(&self) -> Seq<(H256, V)> {
        self.entries@
    }

    /// The keys ascend strictly, so none occurs twice.
    pub closed spec fn wf(&self) -> bool {
        ascending(self.entries@)
    }

    /// What the view and the entries have to do with each other.
    pub proof fn lemma_seq(&self)
        requires
            self.wf(),
        ensures
            ascending(self.seq()),
            self@ == as_map(self.seq()),
            self.seq() == canonical(self@),
            forall|i: int|
                0 <= i < self.seq().len() ==> self@.contains_key((#[trigger] self.seq()[i]).0)
                    && self@[self.seq()[i].0] == self.seq()[i].1,
            forall|k: H256| #[trigger]
                self@.contains_key(k) ==> 0 <= place_of(self.seq(), k) < self.seq().len()
                    && self.seq()[place_of(self.seq(), k)] == (k, self@[k]),
    {
        assert forall|i: int| 0 <= i < self.seq().len() implies self@.contains_key(
            (#[trigger] self.seq()[i]).0,
        ) && self@[self.seq()[i].0] == self.seq()[i].1 by {
            lemma_entry(self.seq(), i);
        }
        lemma_canonical(self.seq());
    }

    /// A map without entries.
    pub fn new() -> (r: SortedMap<V>)
        ensures
            r.wf(),
            r@ == Map::<H256, V>::empty(),
            r.seq().len() == 0,
    {
        let r = SortedMap { entries: Vec::new() };
        assert(r@ =~= Map::<H256, V>::empty());
        r
    }

    /// The number of entries.
    pub fn len(&self) -> (r: usize)
        ensures
            r == self.seq().len(),
    {
        self.entries.len()
    }

    /// The key of the entry at place `i`.
    pub fn key_at(&self, i: usize) -> (r: H256)
        requires
            i < self.seq().len(),
        ensures
            r == self.seq()[i as int].0,
    {
        self.entries[i].0
    }

    /// The value of the entry at place `i`.
    pub fn value_at(&self, i: usize) -> (r: &V)
        requires
            i < self.seq().len(),
        ensures
            *r == self.seq()[i as int].1,
    {
        &self.entries[i].1
    }

    /// Looks for `key`: whether an entry has it, and the place where it stands
    /// or would have to stand.
    pub fn find(&self, key: &H256) -> (r: (bool, usize))
        requires
            self.wf(),
        ensures
            r.1 <= self.seq().len(),
            r.0 == self@.contains_key(*key),
            r.0 ==> r.1 < self.seq().len() && self.seq()[r.1 as int] == (*key, self@[*key]),
            forall|i: int| 0 <= i < r.1 ==> (#[trigger] self.seq()[i]).0.less(*key),
            forall|i: int|
                r.1 + (if r.0 { 1int } else { 0int }) <= i < self.seq().len() ==> key.less(
                    (#[trigger] self.seq()[i]).0,
                ),
    {
        let mut lo: usize = 0;
        let mut hi: usize = self.entries.len();
        while lo < hi
            invariant
                self.wf(),
                lo <= hi <= self.entries@.len(),
                forall|i: int| 0 <= i < lo ==> (#[trigger] self.entries@[i]).0.less(*key),
                forall|i: int|
                    hi <= i < self.entries@.len() ==> key.less((#[trigger] self.entries@[i]).0),
            decreases hi - lo,
        {
            let mid: usize = lo + (hi - lo) / 2;
            let probe = self.entries[mid].0;
            if probe == *key {
                proof {
                    lemma_entry(self.entries@, mid as int);
                    assert forall|i: int| 0 <= i < mid implies (#[trigger] self.entries@[i]).0.less(
                        *key,
                    ) by {
                        assert(self.entries@[i].0.less(self.entries@[mid as int].0));
                    }
                    assert forall|i: int| mid + 1 <= i < self.entries@.len() implies key.less(
                        (#[trigger] self.entries@[i]).0,
                    ) by {
                        assert(self.entries@[mid as int].0.less(self.entries@[i].0));
                    }
                }
                return (true, mid);
            } else if probe.lt(key) {
                proof {
                    assert forall|i: int| 0 <= i < mid + 1 implies (
                    #[trigger] self.entries@[i]).0.less(*key) by {
                        if i < mid {
                            assert(self.entries@[i].0.less(self.entries@[mid as int].0));
                        }
                    }
                }
                lo = mid + 1;
            } else {
                proof {
                    assert forall|i: int| mid <= i < self.entries@.len() implies key.less(
                        (#[trigger] self.entries@[i]).0,
                    ) by {
                        if mid < i {
                            assert(self.entries@[mid as int].0.less(self.entries@[i].0));
                        }
                    }
                }
                hi = mid;
            }
        }
        proof {
            lemma_absent(self.entries@, lo as int, *key);
        }
        (false, lo)
    }

    /// Whether an entry has `key`.
    pub fn contains_key(&self, key: &H256) -> (r: bool)
        requires
            self.wf(),
        ensures
            r == self@.contains_key(*key),
    {
        self.find(key).0
    }

    /// The value under `key`, if there is one.
    pub fn get(&self, key: &H256) -> (r: Option<&V>)
        requires
            self.wf(),
        ensures
            match r {
                Some(v) => self@.contains_key(*key) && *v == self@[*key],
                None => !self@.contains_key(*key),
            },
    {
        let (found, at) = self.find(key);
        if found {
            Some(&self.entries[at].1)
        } else {
            None
        }
    }

    /// Puts `value` under `key`, in place of what stood there.
    pub fn insert(&mut self, key: H256, value: V)
        requires
            old(self).wf(),
        ensures
            final(self).wf(),
            final(self)@ == old(self)@.insert(key, value),
            old(self)@.contains_key(key) ==> final(self).seq().len() == old(self).seq().len(),
            !old(self)@.contains_key(key) ==> final(self).seq().len() == old(self).seq().len()
                + 1,
    {
        let (found, at) = self.find(&key);
        if found {
            proof {
                lemma_update(self.entries@, at as int, value);
            }
            self.entries[at] = (key, value);
        } else {
            proof {
                lemma_insert(self.entries@, at as int, key, value);
            }
            self.entries.insert(at, (key, value));
        }
    }

    /// Takes the entry at place `i` out and hands it over.
    pub fn remove_at(&mut self, i: usize) -> (r: (H256, V))
        requires
            old(self).wf(),
            i < old(self).seq().len(),
        ensures
            final(self).wf(),
            r == old(self).seq()[i as int],
            final(self).seq() == old(self).seq().remove(i as int),
            final(self)@ == old(self)@.remove(r.0),
    {
        proof {
            lemma_remove(self.entries@, i as int);
        }
        self.entries.remove(i)
    }

    /// Puts `value` in place of the value at place `i`.
    pub fn set_at(&mut self, i: usize, value: V)
        requires
            old(self).wf(),
            i < old(self).seq().len(),
        ensures
            final(self).wf(),
            final(self).seq() == old(self).seq().update(i as int, (old(self).seq()[i as int].0, value)),
            final(self)@ == old(self)@.insert(old(self).seq()[i as int].0, value),
    {
        proof {
            lemma_update(self.entries@, i as int, value);
        }
        let key = self.entries[i].0;
        self.entries[i] = (key, value);
    }

    /// Takes the entry under `key` out and hands its value over, if there is one.
    pub fn remove(&mut self, key: &H256) -> (r: Option<V>)
        requires
            old(self).wf(),
        ensures
            final(self).wf(),
            final(self)@ == old(self)@.remove(*key),
            match r {
                Some(v) => old(self)@.contains_key(*key) && v == old(self)@[*key],
                None => !old(self)@.contains_key(*key),
            },
    {
        let (found, at) = self.find(key);
        if found {
            proof {
                lemma_remove(self.entries@, at as int);
            }
            let entry = self.entries.remove(at);
            Some(entry.1)
        } else {
            assert(self@.remove(*key) =~= self@);
            None
        }
    }
}

} // verus!
