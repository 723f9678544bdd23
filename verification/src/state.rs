use vstd::prelude::*;
use crate::account::{storage_views, thin_rlp, Account};
use crate::hash::{keccak, keccak_hash, sha3_empty};
use crate::uint::U256;
use crate::block::copy_bytes;
use crate::hash::H256;
use crate::sorted_map::{
    as_map, ascending, canonical, lemma_mapped, lemma_over, mapped, over, SortedMap,
};
use crate::trie::{compute_root, entry_views, root_of};

verus! {

/// The bytes of a byte vector, as a function.
pub open spec fn bytes_of() -> spec_fn(Vec<u8>) -> Seq<u8> {
    |v: Vec<u8>| v@
}

/// The bytes of a byte vector that may be missing.
pub open spec fn opt_bytes(o: Option<Vec<u8>>) -> Option<Seq<u8>> {
    match o {
        Some(v) => Some(v@),
        None => None,
    }
}

/// The entries of a storage as the trie takes them: key bytes and value.
pub open spec fn storage_entries(s: Seq<(H256, Seq<u8>)>) -> Seq<(Seq<u8>, Seq<u8>)> {
    s.map_values(|e: (H256, Seq<u8>)| (e.0@, e.1))
}

/// The root of the trie of a storage.
pub open spec fn storage_root_of(m: Map<H256, Seq<u8>>) -> H256 {
    root_of(storage_entries(canonical(m)))
}

/// Computes the root of the trie of a storage.
pub fn compute_storage_root(storage: &SortedMap<Vec<u8>>) -> (r: H256)
    requires
        storage.wf(),
    ensures
        r == storage_root_of(over(storage@, bytes_of())),
{
    let mut entries: Vec<(H256, Vec<u8>)> = Vec::new();
    let ghost goal = storage_entries(mapped(storage.seq(), bytes_of()));
    let mut i: usize = 0;
    while i < storage.len()
        invariant
            i <= storage.seq().len(),
            entries@.len() == i,
            goal == storage_entries(mapped(storage.seq(), bytes_of())),
            forall|j: int| 0 <= j < i ==> #[trigger] entry_views(entries@)[j] == goal[j],
        decreases storage.seq().len() - i,
    {
        let key = storage.key_at(i);
        let value = copy_bytes(storage.value_at(i));
        let ghost before = entry_views(entries@);
        entries.push((key, value));
        proof {
            let after = entry_views(entries@);
            assert forall|j: int| 0 <= j < i + 1 implies #[trigger] after[j] == goal[j] by {
                if j < i {
                    assert(after[j] == before[j]);
                }
            }
        }
        i = i + 1;
    }
    proof {
        storage.lemma_seq();
        lemma_mapped(storage.seq(), bytes_of());
        assert(entry_views(entries@) =~= goal);
    }
    compute_root(&entries)
}

/// The storage after the first `k` entries of a fat account were put in, one
/// after the other: an entry with an empty value takes its key out.
pub open spec fn storage_after(pairs: Seq<(H256, Seq<u8>)>, k: int) -> Map<H256, Seq<u8>>
    decreases k,
{
    if k <= 0 {
        Map::empty()
    } else {
        let m = storage_after(pairs, k - 1);
        if pairs[k - 1].1.len() == 0 {
            m.remove(pairs[k - 1].0)
        } else {
            m.insert(pairs[k - 1].0, pairs[k - 1].1)
        }
    }
}

/// Builds the storage of a fat account: its entries put in one after the other.
pub fn build_storage(entries: &Vec<(H256, Vec<u8>)>) -> (r: SortedMap<Vec<u8>>)
    ensures
        r.wf(),
        over(r@, bytes_of()) == storage_after(storage_views(entries@), entries@.len() as int),
{
    let mut storage: SortedMap<Vec<u8>> = SortedMap::new();
    let ghost pairs = storage_views(entries@);
    let mut i: usize = 0;
    proof {
        lemma_over(
            Map::<H256, Vec<u8>>::empty(),
            bytes_of(),
            H256 { w0: 0, w1: 0, w2: 0, w3: 0 },
            arbitrary(),
        );
    }
    while i < entries.len()
        invariant
            storage.wf(),
            i <= entries@.len(),
            pairs == storage_views(entries@),
            over(storage@, bytes_of()) == storage_after(pairs, i as int),
        decreases entries@.len() - i,
    {
        let key = entries[i].0;
        let value = copy_bytes(&entries[i].1);
        proof {
            assert(pairs[i as int] == (entries@[i as int].0, entries@[i as int].1@));
            lemma_over(storage@, bytes_of(), key, value);
        }
        if value.len() == 0 {
            let _ = storage.remove(&key);
        } else {
            storage.insert(key, value);
        }
        i = i + 1;
    }
    storage
}

/// An account as the state holds it: with its storage and its code.
#[derive(Debug)]
pub struct StoredAccount {
    pub account: Account,
    pub storage: SortedMap<Vec<u8>>,
    pub code: Option<Vec<u8>>,
}

/// An account of the state, as plain values.
pub struct AccountSpec {
    pub account: Account,
    pub storage: Map<H256, Seq<u8>>,
    pub code: Option<Seq<u8>>,
}

impl View for StoredAccount {
    type V = AccountSpec;

    open spec fn view(&self) -> AccountSpec {
        AccountSpec {
            account: self.account,
            storage: over(self.storage@, bytes_of()),
            code: opt_bytes(self.code),
        }
    }
}

impl StoredAccount {
    /// An account with the given nonce and balance, with the storage that the
    /// entries give, put in one after the other, and with the given code or
    /// none. Its storage root and code hash are computed.
    pub fn new(
        nonce: U256,
        balance: U256,
        entries: &Vec<(H256, Vec<u8>)>,
        code: Option<Vec<u8>>,
    ) -> (r: StoredAccount)
        ensures
            r.storage.wf(),
            r@ == (AccountSpec {
                account: Account {
                    nonce: nonce,
                    balance: balance,
                    storage_root: storage_root_of(
                        storage_after(storage_views(entries@), entries@.len() as int),
                    ),
                    code_hash: match code {
                        Some(c) => keccak_hash(c@),
                        None => sha3_empty(),
                    },
                },
                storage: storage_after(storage_views(entries@), entries@.len() as int),
                code: opt_bytes(code),
            }),
    {
        let storage = build_storage(entries);
        let storage_root = compute_storage_root(&storage);
        let code_hash = match &code {
            Some(c) => keccak(c.as_slice()),
            None => sha3_empty(),
        };
        StoredAccount {
            account: Account { nonce, balance, storage_root, code_hash },
            storage,
            code,
        }
    }
}

/// The plain values of a stored account, as a function.
pub open spec fn plain() -> spec_fn(StoredAccount) -> AccountSpec {
    |s: StoredAccount| s@
}

/// The entries of a state as the trie takes them: key bytes and thin account.
pub open spec fn state_entries(s: Seq<(H256, AccountSpec)>) -> Seq<(Seq<u8>, Seq<u8>)> {
    s.map_values(|e: (H256, AccountSpec)| (e.0@, thin_rlp(e.1.account)))
}

/// The root of the trie of a state.
pub open spec fn state_root_of(m: Map<H256, AccountSpec>) -> H256 {
    root_of(state_entries(canonical(m)))
}

/// The accounts of a state, each with its storage and code, in the order of
/// the hashes of their addresses.
#[derive(Debug)]
pub struct StateDb {
    accounts: SortedMap<StoredAccount>,
}

impl View for StateDb {
    type V = Map<H256, AccountSpec>;

    closed spec fn view(&self) -> Map<H256, AccountSpec> {
        over(self.accounts@, plain())
    }
}

impl StateDb {
    /// The accounts and the storage of each are in order.
    pub closed spec fn wf(&self) -> bool {
        &&& self.accounts.wf()
        &&& forall|i: int|
            0 <= i < self.accounts.seq().len() ==> (#[trigger] self.accounts.seq()[i]).1.storage.wf()
    }

    /// The accounts in the order of their keys.
    pub closed spec fn seq(&self) -> Seq<(H256, StoredAccount)> {
        self.accounts.seq()
    }

    /// The accounts in order are those of the view in order.
    pub proof fn lemma_seq(&self)
        requires
            self.wf(),
        ensures
            ascending(self.seq()),
            mapped(self.seq(), plain()) == canonical(self@),
            forall|i: int| 0 <= i < self.seq().len() ==> (#[trigger] self.seq()[i]).1.storage.wf(),
    {
        self.accounts.lemma_seq();
        lemma_mapped(self.accounts.seq(), plain());
    }

    /// A state without accounts.
    pub fn new() -> (r: StateDb)
        ensures
            r.wf(),
            r@ == Map::<H256, AccountSpec>::empty(),
    {
        let r = StateDb { accounts: SortedMap::new() };
        proof {
            lemma_over(
                Map::<H256, StoredAccount>::empty(),
                plain(),
                H256 { w0: 0, w1: 0, w2: 0, w3: 0 },
                arbitrary(),
            );
        }
        r
    }

    /// The number of accounts.
    pub fn len(&self) -> (r: usize)
        ensures
            r == self.seq().len(),
    {
        self.accounts.len()
    }

    /// The key of the account at place `i`.
    pub fn key_at(&self, i: usize) -> (r: H256)
        requires
            i < self.seq().len(),
        ensures
            r == self.seq()[i as int].0,
    {
        self.accounts.key_at(i)
    }

    /// The account at place `i`.
    pub fn account_at(&self, i: usize) -> (r: &StoredAccount)
        requires
            i < self.seq().len(),
        ensures
            *r == self.seq()[i as int].1,
    {
        self.accounts.value_at(i)
    }

    /// Whether the state holds an account under `key`.
    pub fn contains(&self, key: &H256) -> (r: bool)
        requires
            self.wf(),
        ensures
            r == self@.contains_key(*key),
    {
        self.accounts.contains_key(key)
    }

    /// The account under `key`, if the state holds one.
    pub fn get(&self, key: &H256) -> (r: Option<&StoredAccount>)
        requires
            self.wf(),
        ensures
            match r {
                Some(a) => self@.contains_key(*key) && a@ == self@[*key] && a.storage.wf(),
                None => !self@.contains_key(*key),
            },
    {
        let r = self.accounts.get(key);
        proof {
            self.accounts.lemma_seq();
        }
        r
    }

    /// Puts an account under `key`, in place of what stood there.
    pub fn insert(&mut self, key: H256, account: StoredAccount)
        requires
            old(self).wf(),
            account.storage.wf(),
        ensures
            final(self).wf(),
            final(self)@ == old(self)@.insert(key, account@),
    {
        proof {
            lemma_over(self.accounts@, plain(), key, account);
            old(self).accounts.lemma_seq();
        }
        self.accounts.insert(key, account);
        proof {
            self.accounts.lemma_seq();
            assert forall|i: int| 0 <= i < self.accounts.seq().len() implies (
            #[trigger] self.accounts.seq()[i]).1.storage.wf() by {
                let k = self.accounts.seq()[i].0;
                if k != key {
                    assert(old(self).accounts@.contains_key(k));
                    let j = crate::sorted_map::place_of(old(self).accounts.seq(), k);
                    assert(old(self).accounts.seq()[j].1.storage.wf());
                }
            }
        }
    }

    /// Gives the account under `key` this code, if the state holds the account.
    pub fn set_code(&mut self, key: &H256, code: Vec<u8>)
        requires
            old(self).wf(),
        ensures
            final(self).wf(),
            final(self)@ == (if old(self)@.contains_key(*key) {
                old(self)@.insert(
                    *key,
                    AccountSpec { code: Some(code@), ..old(self)@[*key] },
                )
            } else {
                old(self)@
            }),
    {
        proof {
            old(self).accounts.lemma_seq();
        }
        match self.accounts.remove(key) {
            Some(account) => {
                let ghost without = *self;
                proof {
                    lemma_over(old(self).accounts@, plain(), *key, account);
                    self.accounts.lemma_seq();
                    assert forall|i: int| 0 <= i < self.accounts.seq().len() implies (
                    #[trigger] self.accounts.seq()[i]).1.storage.wf() by {
                        let k = self.accounts.seq()[i].0;
                        assert(old(self).accounts@.contains_key(k));
                        let j = crate::sorted_map::place_of(old(self).accounts.seq(), k);
                        assert(old(self).accounts.seq()[j].1.storage.wf());
                    }
                    let j = crate::sorted_map::place_of(old(self).accounts.seq(), *key);
                    assert(old(self).accounts.seq()[j].1.storage.wf());
                }
                let patched = StoredAccount {
                    account: account.account,
                    storage: account.storage,
                    code: Some(code),
                };
                self.insert(*key, patched);
                proof {
                    assert(final(self)@ =~= old(self)@.insert(
                        *key,
                        AccountSpec { code: Some(code@), ..old(self)@[*key] },
                    ));
                }
            },
            None => {
                proof {
                    assert(self.accounts@ =~= old(self).accounts@);
                    assert(self.accounts.seq() == canonical(self.accounts@)) by {
                        self.accounts.lemma_seq();
                    }
                    assert(old(self).accounts.seq() == canonical(old(self).accounts@));
                }
            },
        }
    }

    /// The root of the trie of the state.
    pub fn root(&self) -> (r: H256)
        requires
            self.wf(),
        ensures
            r == state_root_of(self@),
    {
        let mut entries: Vec<(H256, Vec<u8>)> = Vec::new();
        let ghost goal = state_entries(mapped(self.accounts.seq(), plain()));
        let mut i: usize = 0;
        while i < self.accounts.len()
            invariant
                i <= self.accounts.seq().len(),
                entries@.len() == i,
                goal == state_entries(mapped(self.accounts.seq(), plain())),
                forall|j: int| 0 <= j < i ==> #[trigger] entry_views(entries@)[j] == goal[j],
            decreases self.accounts.seq().len() - i,
        {
            let key = self.accounts.key_at(i);
            let value = self.accounts.value_at(i).account.to_thin_rlp();
            let ghost before = entry_views(entries@);
            entries.push((key, value));
            proof {
                let after = entry_views(entries@);
                assert forall|j: int| 0 <= j < i + 1 implies #[trigger] after[j] == goal[j] by {
                    if j < i {
                        assert(after[j] == before[j]);
                    }
                }
            }
            i = i + 1;
        }
        proof {
            self.lemma_seq();
            assert(entry_views(entries@) =~= goal);
        }
        compute_root(&entries)
    }
}

} // verus!
