use vstd::prelude::*;
use crate::block::copy_bytes;
use crate::codec::{
    data_at, encode_hash, framed, hash_at, is_framed, items_of, lemma_views, lemma_views_push,
    list_at, list_of,
    number_at, number_of, rlp_bytes_at, rlp_hash, rlp_hash_at, rlp_item_seq, rlp_list,
    rlp_list_at, rlp_str, rlp_u64, rlp_u64_at, rlp_uint, rlp_uint_at, string_of, uint_at,
    uint_of, views,
};
use crate::error::{DecodeError, Error};
use crate::hash::H256;
use crate::uint::U256;

verus! {

/// An account as the state trie holds it: storage and code by their hashes.
#[derive(Clone, Copy, Debug, PartialEq, Eq, Structural)]
pub struct Account {
    pub nonce: U256,
    pub balance: U256,
    pub storage_root: H256,
    pub code_hash: H256,
}

/// The thin encoding of an account: its four fields.
pub open spec fn thin_rlp(a: Account) -> Seq<u8> {
    rlp_list(
        seq![
            rlp_uint(a.nonce),
            rlp_uint(a.balance),
            rlp_hash(a.storage_root),
            rlp_hash(a.code_hash),
        ],
    )
}

/// Whether the four fields of a thin account can be read.
pub open spec fn thin_readable(data: Seq<u8>) -> bool {
    &&& rlp_uint_at(data, 0).is_some()
    &&& rlp_uint_at(data, 1).is_some()
    &&& rlp_hash_at(data, 2).is_some()
    &&& rlp_hash_at(data, 3).is_some()
}

/// The account that a thin encoding holds.
pub open spec fn thin_account(data: Seq<u8>) -> Account {
    Account {
        nonce: rlp_uint_at(data, 0).unwrap(),
        balance: rlp_uint_at(data, 1).unwrap(),
        storage_root: rlp_hash_at(data, 2).unwrap(),
        code_hash: rlp_hash_at(data, 3).unwrap(),
    }
}

impl Account {
    /// The thin encoding of the account.
    pub fn to_thin_rlp(&self) -> (r: Vec<u8>)
        ensures
            r@ == thin_rlp(*self),
    {
        let mut items: Vec<Vec<u8>> = Vec::new();
        items.push(uint_of(&self.nonce));
        items.push(uint_of(&self.balance));
        items.push(encode_hash(&self.storage_root));
        items.push(encode_hash(&self.code_hash));
        proof {
            lemma_views(items@);
            assert(views(items@) =~= seq![
                rlp_uint(self.nonce),
                rlp_uint(self.balance),
                rlp_hash(self.storage_root),
                rlp_hash(self.code_hash),
            ]);
        }
        list_of(&items)
    }

    /// Reads an account from its thin encoding: fails if and only if one of
    /// the four fields cannot be read.
    pub fn from_thin_rlp(data: &[u8]) -> (r: Result<Account, DecodeError>)
        ensures
            r.is_ok() == thin_readable(data@),
            r.is_ok() ==> r.unwrap() == thin_account(data@),
    {
        let nonce = uint_at(data, 0)?;
        let balance = uint_at(data, 1)?;
        let storage_root = hash_at(data, 2)?;
        let code_hash = hash_at(data, 3)?;
        Ok(Account { nonce, balance, storage_root, code_hash })
    }
}

/// How a fat account carries its code.
#[derive(Debug)]
pub enum Code {
    /// The account has no code.
    Empty,
    /// The code itself.
    Inline(Vec<u8>),
    /// The hash of the code, which another account carries.
    Hash(H256),
}

/// How a fat account carries its code, as plain values.
pub enum CodeSpec {
    Empty,
    Inline(Seq<u8>),
    Hash(H256),
}

impl View for Code {
    type V = CodeSpec;

    open spec fn view(&self) -> CodeSpec {
        match self {
            Code::Empty => CodeSpec::Empty,
            Code::Inline(c) => CodeSpec::Inline(c@),
            Code::Hash(h) => CodeSpec::Hash(*h),
        }
    }
}

/// The marker of an account without code.
pub const CODE_EMPTY: u64 = 0;

/// The marker of an account that carries its code.
pub const CODE_INLINE: u64 = 1;

/// The marker of an account that carries the hash of its code.
pub const CODE_HASH: u64 = 2;

/// An account in the encoding that state chunks carry: with the entries of
/// its storage, in the order of their keys, and with its code or the hash of it.
#[derive(Debug)]
pub struct FatAccount {
    pub nonce: U256,
    pub balance: U256,
    pub code: Code,
    pub storage: Vec<(H256, Vec<u8>)>,
}

/// A fat account, as plain values.
pub struct FatSpec {
    pub nonce: U256,
    pub balance: U256,
    pub code: CodeSpec,
    pub storage: Seq<(H256, Seq<u8>)>,
}

/// The storage entries of a fat account, as plain values.
pub open spec fn storage_views(s: Seq<(H256, Vec<u8>)>) -> Seq<(H256, Seq<u8>)> {
    s.map_values(|e: (H256, Vec<u8>)| (e.0, e.1@))
}

impl View for FatAccount {
    type V = FatSpec;

    open spec fn view(&self) -> FatSpec {
        FatSpec {
            nonce: self.nonce,
            balance: self.balance,
            code: self.code@,
            storage: storage_views(self.storage@),
        }
    }
}

/// The two items that say how a fat account carries its code.
pub open spec fn code_items(c: CodeSpec) -> Seq<Seq<u8>> {
    match c {
        CodeSpec::Empty => seq![rlp_u64(CODE_EMPTY), rlp_str(Seq::empty())],
        CodeSpec::Inline(code) => seq![rlp_u64(CODE_INLINE), rlp_str(code)],
        CodeSpec::Hash(h) => seq![rlp_u64(CODE_HASH), rlp_hash(h)],
    }
}

/// The encoding of one storage entry: key and value.
pub open spec fn storage_item(e: (H256, Seq<u8>)) -> Seq<u8> {
    rlp_list(seq![rlp_hash(e.0), rlp_str(e.1)])
}

/// The encodings of the storage entries.
pub open spec fn storage_items(s: Seq<(H256, Seq<u8>)>) -> Seq<Seq<u8>> {
    s.map_values(|e: (H256, Seq<u8>)| storage_item(e))
}

/// The fat encoding of an account: nonce, balance, the two code items, and
/// the list of storage entries.
pub open spec fn fat_rlp(f: FatSpec) -> Seq<u8> {
    rlp_list(
        seq![rlp_uint(f.nonce), rlp_uint(f.balance)] + code_items(f.code) + seq![
            rlp_list(storage_items(f.storage)),
        ],
    )
}

/// How the code is carried, as the third and fourth item of a fat account
/// say, where they can be read and the marker is known.
pub open spec fn fat_code(fat: Seq<u8>) -> Option<CodeSpec> {
    match rlp_u64_at(fat, 2) {
        Some(state) => if state == CODE_EMPTY {
            Some(CodeSpec::Empty)
        } else if state == CODE_INLINE {
            match rlp_bytes_at(fat, 3) {
                Some(code) => Some(CodeSpec::Inline(code)),
                None => None,
            }
        } else if state == CODE_HASH {
            match rlp_hash_at(fat, 3) {
                Some(h) => Some(CodeSpec::Hash(h)),
                None => None,
            }
        } else {
            None
        },
        None => None,
    }
}

/// Whether a storage entry can be read: a list of two items, a key of 32
/// bytes and a value.
pub open spec fn entry_readable(item: Seq<u8>) -> bool {
    framed(item, 2) && rlp_hash_at(item, 0).is_some() && rlp_bytes_at(item, 1).is_some()
}

/// The storage entry that an item holds.
pub open spec fn entry_of(item: Seq<u8>) -> (H256, Seq<u8>) {
    (rlp_hash_at(item, 0).unwrap(), rlp_bytes_at(item, 1).unwrap())
}

/// The items of the storage list of a fat account.
pub open spec fn fat_storage_items(fat: Seq<u8>) -> Seq<Seq<u8>> {
    rlp_item_seq(rlp_list_at(fat, 4).unwrap())
}

/// Whether a fat account can be read: a list of five items with nonce,
/// balance, the code as its marker says, and every storage entry.
pub open spec fn fat_readable(fat: Seq<u8>) -> bool {
    &&& rlp_uint_at(fat, 0).is_some()
    &&& rlp_uint_at(fat, 1).is_some()
    &&& fat_code(fat).is_some()
    &&& framed(fat, 5)
    &&& rlp_list_at(fat, 4).is_some()
    &&& forall|i: int|
        0 <= i < fat_storage_items(fat).len() ==> entry_readable(
            #[trigger] fat_storage_items(fat)[i],
        )
}

/// The account that a fat encoding holds.
pub open spec fn fat_of(fat: Seq<u8>) -> FatSpec {
    FatSpec {
        nonce: rlp_uint_at(fat, 0).unwrap(),
        balance: rlp_uint_at(fat, 1).unwrap(),
        code: fat_code(fat).unwrap(),
        storage: fat_storage_items(fat).map_values(|item: Seq<u8>| entry_of(item)),
    }
}

/// Whether the marker of a fat account can be read but is none of the known ones.
pub open spec fn code_state_unknown(fat: Seq<u8>) -> bool {
    rlp_u64_at(fat, 2).is_some() && rlp_u64_at(fat, 2).unwrap() > CODE_HASH
}

impl FatAccount {
    /// The fat encoding of the account.
    pub fn rlp_bytes(&self) -> (r: Vec<u8>)
        ensures
            r@ == fat_rlp(self@),
    {
        let mut entries: Vec<Vec<u8>> = Vec::new();
        let ghost storage = storage_views(self.storage@);
        let mut i: usize = 0;
        while i < self.storage.len()
            invariant
                i <= self.storage@.len(),
                storage == storage_views(self.storage@),
                views(entries@) == storage_items(storage).subrange(0, i as int),
            decreases self.storage@.len() - i,
        {
            let mut pair: Vec<Vec<u8>> = Vec::new();
            pair.push(encode_hash(&self.storage[i].0));
            pair.push(string_of(self.storage[i].1.as_slice()));
            proof {
                lemma_views(pair@);
                assert(views(pair@) =~= seq![
                    rlp_hash(storage[i as int].0),
                    rlp_str(storage[i as int].1),
                ]);
            }
            let item = list_of(&pair);
            proof {
                lemma_views_push(entries@, item);
            }
            entries.push(item);
            i = i + 1;
            assert(views(entries@) =~= storage_items(storage).subrange(0, i as int));
        }
        assert(storage_items(storage).subrange(0, self.storage@.len() as int) =~= storage_items(
            storage,
        ));
        let mut items: Vec<Vec<u8>> = Vec::new();
        items.push(uint_of(&self.nonce));
        items.push(uint_of(&self.balance));
        match &self.code {
            Code::Empty => {
                items.push(number_of(CODE_EMPTY));
                let nothing: Vec<u8> = Vec::new();
                items.push(string_of(nothing.as_slice()));
            },
            Code::Inline(code) => {
                items.push(number_of(CODE_INLINE));
                items.push(string_of(code.as_slice()));
            },
            Code::Hash(h) => {
                items.push(number_of(CODE_HASH));
                items.push(encode_hash(h));
            },
        }
        items.push(list_of(&entries));
        proof {
            lemma_views(items@);
            assert(views(items@) =~= seq![rlp_uint(self.nonce), rlp_uint(self.balance)]
                + code_items(self.code@) + seq![rlp_list(storage_items(storage))]);
        }
        list_of(&items)
    }

    /// Reads a fat account: fails if and only if it cannot be read, with the
    /// marker where that is unknown, else with the reason from the decoder.
    pub fn from_rlp(fat: &[u8]) -> (r: Result<FatAccount, Error>)
        ensures
            r.is_ok() == fat_readable(fat@),
            match r {
                Ok(f) => f@ == fat_of(fat@),
                Err(Error::UnrecognizedCodeState(state)) => rlp_uint_at(fat@, 0).is_some()
                    && rlp_uint_at(fat@, 1).is_some() && rlp_u64_at(fat@, 2) == Some(state)
                    && state > CODE_HASH,
                Err(Error::Decoder(_)) => !(rlp_uint_at(fat@, 0).is_some() && rlp_uint_at(
                    fat@,
                    1,
                ).is_some() && code_state_unknown(fat@)),
                Err(_) => false,
            },
    {
        let nonce = match uint_at(fat, 0) {
            Ok(v) => v,
            Err(e) => {
                return Err(Error::Decoder(e));
            },
        };
        let balance = match uint_at(fat, 1) {
            Ok(v) => v,
            Err(e) => {
                return Err(Error::Decoder(e));
            },
        };
        let state = match number_at(fat, 2) {
            Ok(v) => v,
            Err(e) => {
                return Err(Error::Decoder(e));
            },
        };
        let code = if state == CODE_EMPTY {
            Code::Empty
        } else if state == CODE_INLINE {
            match data_at(fat, 3) {
                Ok(c) => Code::Inline(c),
                Err(e) => {
                    return Err(Error::Decoder(e));
                },
            }
        } else if state == CODE_HASH {
            match hash_at(fat, 3) {
                Ok(h) => Code::Hash(h),
                Err(e) => {
                    return Err(Error::Decoder(e));
                },
            }
        } else {
            return Err(Error::UnrecognizedCodeState(state));
        };
        if !is_framed(fat, 5) {
            return Err(Error::Decoder(DecodeError::RlpIncorrectListLen));
        }
        let pairs = match list_at(fat, 4) {
            Ok(v) => v,
            Err(e) => {
                return Err(Error::Decoder(e));
            },
        };
        let items = items_of(pairs.as_slice());
        let ghost all = fat_storage_items(fat@);
        let mut storage: Vec<(H256, Vec<u8>)> = Vec::new();
        let mut i: usize = 0;
        proof {
            lemma_views(items@);
        }
        while i < items.len()
            invariant
                i <= items@.len(),
                views(items@) == all,
                all == fat_storage_items(fat@),
                !code_state_unknown(fat@),
                storage@.len() == i,
                forall|j: int| 0 <= j < i ==> entry_readable(#[trigger] all[j]),
                storage_views(storage@) == all.subrange(0, i as int).map_values(
                    |item: Seq<u8>| entry_of(item),
                ),
            decreases items@.len() - i,
        {
            proof {
                lemma_views(items@);
            }
            if !is_framed(items[i].as_slice(), 2) {
                assert(!entry_readable(all[i as int]));
                return Err(Error::Decoder(DecodeError::RlpIncorrectListLen));
            }
            let key = match hash_at(items[i].as_slice(), 0) {
                Ok(k) => k,
                Err(e) => {
                    assert(!entry_readable(all[i as int]));
                    return Err(Error::Decoder(e));
                },
            };
            let value = match data_at(items[i].as_slice(), 1) {
                Ok(v) => v,
                Err(e) => {
                    assert(!entry_readable(all[i as int]));
                    return Err(Error::Decoder(e));
                },
            };
            let ghost before = storage_views(storage@);
            storage.push((key, value));
            i = i + 1;
            proof {
                let after = storage_views(storage@);
                let goal = all.subrange(0, i as int).map_values(|item: Seq<u8>| entry_of(item));
                assert(after.len() == goal.len());
                assert forall|j: int| 0 <= j < after.len() implies after[j] == goal[j] by {
                    if j < i - 1 {
                        assert(after[j] == before[j]);
                        assert(before[j] == all.subrange(0, i - 1).map_values(
                            |item: Seq<u8>| entry_of(item),
                        )[j]);
                    } else {
                        assert(all[j] == items@[j]@);
                    }
                }
                assert(after =~= goal);
            }
        }
        assert(all.subrange(0, items@.len() as int) =~= all);
        Ok(FatAccount { nonce, balance, code, storage })
    }
}

} // verus!
