use vstd::prelude::*;
use crate::account::{
    fat_of, fat_readable, Account, Code, CodeSpec, FatAccount, FatSpec, storage_views,
};
use crate::block::copy_bytes;
use crate::codec::{
    covered, data_at, framed, hash_at, is_framed, is_list_spec, lemma_views, list_items,
    rlp_bytes_at, rlp_hash_at, rlp_item_seq, rlp_u64_at, views,
};
use crate::compress::{decompress, snappy_decompressed};
use crate::error::{DecodeError, Error};
use crate::hash::{keccak, keccak_hash, sha3_empty, sha3_null_rlp, H256};
use crate::sorted_map::{lemma_over, over, SortedMap};
use crate::state::{
    build_storage, bytes_of, compute_storage_root, opt_bytes, state_root_of, storage_after,
    storage_root_of, AccountSpec, StateDb, StoredAccount,
};

verus! {

/// The storage that a fat account gives.
pub open spec fn storage_of(fat: FatSpec) -> Map<H256, Seq<u8>> {
    storage_after(fat.storage, fat.storage.len() as int)
}

/// The hash of the code of a fat account.
pub open spec fn code_hash_of(fat: FatSpec) -> H256 {
    match fat.code {
        CodeSpec::Empty => sha3_empty(),
        CodeSpec::Inline(code) => keccak_hash(code),
        CodeSpec::Hash(h) => h,
    }
}

/// The account that a fat account gives, where the codes in `code_map` are
/// at hand: it has its code where it carries it or where the code is at hand.
pub open spec fn account_of(fat: FatSpec, code_map: Map<H256, Seq<u8>>) -> AccountSpec {
    AccountSpec {
        account: Account {
            nonce: fat.nonce,
            balance: fat.balance,
            storage_root: storage_root_of(storage_of(fat)),
            code_hash: code_hash_of(fat),
        },
        storage: storage_of(fat),
        code: match fat.code {
            CodeSpec::Empty => None,
            CodeSpec::Inline(code) => Some(code),
            CodeSpec::Hash(h) => if code_map.contains_key(h) {
                Some(code_map[h])
            } else {
                None
            },
        },
    }
}

/// The code that a fat account brings along, with its hash.
pub open spec fn new_code_of(fat: FatSpec) -> Option<(H256, Seq<u8>)> {
    match fat.code {
        CodeSpec::Inline(code) => Some((keccak_hash(code), code)),
        _ => None,
    }
}

/// The hash of the code that a fat account refers to and that is not at hand.
pub open spec fn missing_of(fat: FatSpec, code_map: Map<H256, Seq<u8>>) -> Option<H256> {
    match fat.code {
        CodeSpec::Hash(h) => if h != sha3_empty() && !code_map.contains_key(h) {
            Some(h)
        } else {
            None
        },
        _ => None,
    }
}

/// Whether an entry of a state chunk can be rebuilt: it is a list of two
/// items, the hash of the address and the compressed account can be read,
/// and the account can be decompressed and read.
pub open spec fn pair_rebuildable(pair: Seq<u8>) -> bool {
    &&& framed(pair, 2)
    &&& rlp_hash_at(pair, 0).is_some()
    &&& rlp_bytes_at(pair, 1).is_some()
    &&& snappy_decompressed(rlp_bytes_at(pair, 1).unwrap()).is_some()
    &&& fat_readable(snappy_decompressed(rlp_bytes_at(pair, 1).unwrap()).unwrap())
}

/// Whether the account of an entry can be found but not decompressed.
pub open spec fn pair_corrupted(pair: Seq<u8>) -> bool {
    &&& framed(pair, 2)
    &&& rlp_hash_at(pair, 0).is_some()
    &&& rlp_bytes_at(pair, 1).is_some()
    &&& snappy_decompressed(rlp_bytes_at(pair, 1).unwrap()).is_none()
}

/// Whether the account of an entry can be decompressed and has a nonce, a
/// balance and a marker for its code that is none of the known ones.
pub open spec fn pair_marker_unknown(pair: Seq<u8>) -> bool {
    &&& framed(pair, 2)
    &&& rlp_hash_at(pair, 0).is_some()
    &&& rlp_bytes_at(pair, 1).is_some()
    &&& snappy_decompressed(rlp_bytes_at(pair, 1).unwrap()).is_some()
    &&& crate::codec::rlp_uint_at(
        snappy_decompressed(rlp_bytes_at(pair, 1).unwrap()).unwrap(),
        0,
    ).is_some()
    &&& crate::codec::rlp_uint_at(
        snappy_decompressed(rlp_bytes_at(pair, 1).unwrap()).unwrap(),
        1,
    ).is_some()
    &&& crate::account::code_state_unknown(
        snappy_decompressed(rlp_bytes_at(pair, 1).unwrap()).unwrap(),
    )
}

/// The hash of the address in an entry.
pub open spec fn pair_key(pair: Seq<u8>) -> H256 {
    rlp_hash_at(pair, 0).unwrap()
}

/// The fat account in an entry.
pub open spec fn pair_fat(pair: Seq<u8>) -> FatSpec {
    fat_of(snappy_decompressed(rlp_bytes_at(pair, 1).unwrap()).unwrap())
}

/// An account that was rebuilt from an entry of a state chunk.
#[derive(Debug)]
pub struct Rebuilt {
    /// The hash of the address.
    pub key: H256,
    /// The account with its storage, and with its code where that is known.
    pub stored: StoredAccount,
    /// The code that the entry brought along.
    pub new_code: Option<Vec<u8>>,
    /// The hash of the code that the entry refers to and that is not at hand.
    pub missing: Option<H256>,
}

/// A rebuilt account, as plain values.
pub struct RebuiltSpec {
    pub key: H256,
    pub account: AccountSpec,
    pub new_code: Option<(H256, Seq<u8>)>,
    pub missing: Option<H256>,
}

impl View for Rebuilt {
    type V = RebuiltSpec;

    open spec fn view(&self) -> RebuiltSpec {
        RebuiltSpec {
            key: self.key,
            account: self.stored@,
            new_code: match self.new_code {
                Some(code) => Some((self.stored.account.code_hash, code@)),
                None => None,
            },
            missing: self.missing,
        }
    }
}

/// What an entry gives where the codes in `code_map` are at hand.
pub open spec fn rebuilt(pair: Seq<u8>, code_map: Map<H256, Seq<u8>>) -> RebuiltSpec {
    RebuiltSpec {
        key: pair_key(pair),
        account: account_of(pair_fat(pair), code_map),
        new_code: new_code_of(pair_fat(pair)),
        missing: missing_of(pair_fat(pair), code_map),
    }
}

/// The plain values of rebuilt accounts.
pub open spec fn rebuilt_views(v: Seq<Rebuilt>) -> Seq<RebuiltSpec> {
    v.map_values(|r: Rebuilt| r@)
}

/// Rebuilds one account from an entry of a state chunk, where the codes in
/// `code_map` are at hand. Fails if and only if the entry cannot be rebuilt.
pub fn rebuild_account(pair: &[u8], code_map: &SortedMap<Vec<u8>>) -> (r: Result<Rebuilt, Error>)
    requires
        code_map.wf(),
    ensures
        r.is_ok() == pair_rebuildable(pair@),
        match r {
            Ok(out) => out@ == rebuilt(pair@, over(code_map@, bytes_of())) && out.stored.storage.wf(),
            Err(Error::Decoder(_)) => !pair_corrupted(pair@) && !pair_marker_unknown(pair@),
            Err(Error::Corrupted) => pair_corrupted(pair@),
            Err(Error::UnrecognizedCodeState(state)) => pair_marker_unknown(pair@) && rlp_u64_at(
                snappy_decompressed(rlp_bytes_at(pair@, 1).unwrap()).unwrap(),
                2,
            ) == Some(state),
            Err(_) => false,
        },
{
    if !is_framed(pair, 2) {
        return Err(Error::Decoder(DecodeError::RlpIncorrectListLen));
    }
    let hash = match hash_at(pair, 0) {
        Ok(v) => v,
        Err(e) => {
            return Err(Error::Decoder(e));
        },
    };
    let compressed = match data_at(pair, 1) {
        Ok(v) => v,
        Err(e) => {
            return Err(Error::Decoder(e));
        },
    };
    let decompressed = match decompress(compressed.as_slice()) {
        Some(v) => v,
        None => {
            return Err(Error::Corrupted);
        },
    };
    let fat = match FatAccount::from_rlp(decompressed.as_slice()) {
        Ok(f) => f,
        Err(e) => {
            return Err(e);
        },
    };
    let storage = build_storage(&fat.storage);
    let storage_root = compute_storage_root(&storage);
    let ghost codes = over(code_map@, bytes_of());
    let (code_hash, code, new_code, missing) = match fat.code {
        Code::Empty => (sha3_empty(), None, None, None),
        Code::Inline(code) => {
            let code_hash = keccak(code.as_slice());
            (code_hash, Some(copy_bytes(&code)), Some(code), None)
        },
        Code::Hash(h) => {
            match code_map.get(&h) {
                Some(code) => (h, Some(copy_bytes(code)), None, None),
                None => {
                    if h != sha3_empty() {
                        (h, None, None, Some(h))
                    } else {
                        (h, None, None, None)
                    }
                },
            }
        },
    };
    let account = Account {
        nonce: fat.nonce,
        balance: fat.balance,
        storage_root: storage_root,
        code_hash: code_hash,
    };
    Ok(Rebuilt { key: hash, stored: StoredAccount { account, storage, code }, new_code, missing })
}

/// Whether each of the first `k` entries can be rebuilt.
pub open spec fn rebuildable_upto(pairs: Seq<Seq<u8>>, k: int) -> bool
    decreases k,
{
    if k <= 0 {
        true
    } else {
        rebuildable_upto(pairs, k - 1) && pair_rebuildable(pairs[k - 1])
    }
}

/// What the entries give, one by one, where the codes in `code_map` are at hand.
pub open spec fn rebuilt_all(pairs: Seq<Seq<u8>>, code_map: Map<H256, Seq<u8>>) -> Seq<RebuiltSpec> {
    pairs.map_values(|p: Seq<u8>| rebuilt(p, code_map))
}

/// Rebuilds the accounts of entries of a state chunk, each on its own, where
/// the codes in `code_map` are at hand. Fails if and only if one of the
/// entries cannot be rebuilt.
pub fn rebuild_accounts(account_chunk: &[Vec<u8>], code_map: &SortedMap<Vec<u8>>) -> (r: Result<
    Vec<Rebuilt>,
    Error,
>)
    requires
        code_map.wf(),
    ensures
        r.is_ok() == rebuildable_upto(views(account_chunk@), account_chunk@.len() as int),
        match r {
            Ok(outs) => rebuilt_views(outs@) == rebuilt_all(
                views(account_chunk@),
                over(code_map@, bytes_of()),
            ) && forall|i: int| 0 <= i < outs@.len() ==> (#[trigger] outs@[i]).stored.storage.wf(),
            Err(Error::Decoder(_)) => true,
            Err(Error::Corrupted) => true,
            Err(Error::UnrecognizedCodeState(_)) => true,
            Err(_) => false,
        },
{
    let mut outs: Vec<Rebuilt> = Vec::new();
    let ghost pairs = views(account_chunk@);
    let ghost codes = over(code_map@, bytes_of());
    let mut i: usize = 0;
    proof {
        lemma_views(account_chunk@);
    }
    while i < account_chunk.len()
        invariant
            code_map.wf(),
            i <= account_chunk@.len(),
            pairs == views(account_chunk@),
            codes == over(code_map@, bytes_of()),
            outs@.len() == i,
            rebuildable_upto(pairs, i as int),
            forall|j: int| 0 <= j < i ==> (#[trigger] outs@[j])@ == rebuilt(pairs[j], codes),
            forall|j: int| 0 <= j < i ==> (#[trigger] outs@[j]).stored.storage.wf(),
        decreases account_chunk@.len() - i,
    {
        proof {
            lemma_views(account_chunk@);
        }
        let out = match rebuild_account(account_chunk[i].as_slice(), code_map) {
            Ok(out) => out,
            Err(e) => {
                proof {
                    lemma_not_rebuildable(pairs, i as int, account_chunk@.len() as int);
                }
                return Err(e);
            },
        };
        outs.push(out);
        i = i + 1;
    }
    proof {
        assert(rebuilt_views(outs@) =~= rebuilt_all(pairs, codes));
    }
    Ok(outs)
}

/// The number of entries that each worker gets where `len` entries are
/// shared out among `workers` workers: the share rounded up, and at least one.
pub open spec fn shard_size_spec(len: usize, workers: usize) -> int {
    if len == 0 {
        1
    } else if len as int % workers as int == 0 {
        len as int / workers as int
    } else {
        len as int / workers as int + 1
    }
}

/// The number of entries that each worker gets: see `shard_size_spec`. With
/// shares of this size no more workers are needed than there are, and no
/// smaller share would do.
pub fn shard_size(len: usize, workers: usize) -> (r: usize)
    requires
        workers > 0,
    ensures
        r == shard_size_spec(len, workers),
        r > 0,
        r * workers >= len,
        len > 0 ==> (r - 1) * workers < len,
{
    let whole = len / workers;
    let rest = len % workers;
    proof {
        assert(whole * workers + rest == len) by (nonlinear_arith)
            requires
                whole == len / workers,
                rest == len % workers,
                workers > 0,
        ;
        assert((whole + 1) * workers == whole * workers + workers) by (nonlinear_arith);
        assert((whole - 1) * workers == whole * workers - workers) by (nonlinear_arith);
        if len > 0 && rest == 0 {
            assert(whole > 0) by (nonlinear_arith)
                requires
                    whole * workers == len,
                    len > 0,
                    workers > 0,
                    whole >= 0,
            ;
        }
        assert(whole < usize::MAX || rest == 0) by (nonlinear_arith)
            requires
                whole * workers + rest == len,
                len <= usize::MAX,
                workers > 0,
                rest >= 0,
                whole >= 0,
                rest < workers,
        ;
    }
    if len == 0 {
        1
    } else if rest == 0 {
        whole
    } else {
        whole + 1
    }
}

/// Entries can be rebuilt in shares: what two runs of entries give, each on
/// its own, is what the two runs give together.
pub proof fn lemma_rebuilt_in_shares(
    first: Seq<Seq<u8>>,
    second: Seq<Seq<u8>>,
    code_map: Map<H256, Seq<u8>>,
)
    ensures
        rebuilt_all(first + second, code_map) == rebuilt_all(first, code_map) + rebuilt_all(
            second,
            code_map,
        ),
        rebuildable_upto(first + second, (first + second).len() as int) == (rebuildable_upto(
            first,
            first.len() as int,
        ) && rebuildable_upto(second, second.len() as int)),
{
    assert(rebuilt_all(first + second, code_map) =~= rebuilt_all(first, code_map) + rebuilt_all(
        second,
        code_map,
    ));
    lemma_rebuildable_in_shares(first, second, second.len() as int);
    assert((first + second).subrange(0, (first + second).len() as int) =~= first + second);
}

/// The induction behind `lemma_rebuilt_in_shares`, over the second run.
pub proof fn lemma_rebuildable_in_shares(first: Seq<Seq<u8>>, second: Seq<Seq<u8>>, k: int)
    requires
        0 <= k <= second.len(),
    ensures
        rebuildable_upto(first + second, first.len() + k) == (rebuildable_upto(
            first,
            first.len() as int,
        ) && rebuildable_upto(second, k)),
    decreases k,
{
    if k > 0 {
        lemma_rebuildable_in_shares(first, second, k - 1);
        assert((first + second)[first.len() + k - 1] == second[k - 1]);
    } else {
        lemma_rebuildable_same(first + second, first, first.len() as int);
    }
}

/// Whether entries can be rebuilt depends on the entries alone.
pub proof fn lemma_rebuildable_same(a: Seq<Seq<u8>>, b: Seq<Seq<u8>>, k: int)
    requires
        0 <= k <= a.len(),
        k <= b.len(),
        forall|i: int| 0 <= i < k ==> a[i] == b[i],
    ensures
        rebuildable_upto(a, k) == rebuildable_upto(b, k),
    decreases k,
{
    if k > 0 {
        lemma_rebuildable_same(a, b, k - 1);
    }
}

/// Where one entry cannot be rebuilt, the entries up to any later one cannot.
pub proof fn lemma_not_rebuildable(pairs: Seq<Seq<u8>>, i: int, n: int)
    requires
        0 <= i < n,
        !pair_rebuildable(pairs[i]),
    ensures
        !rebuildable_upto(pairs, n),
    decreases n - i,
{
    if i + 1 < n {
        lemma_not_rebuildable(pairs, i, n - 1);
    }
}

/// What a state rebuilder holds, as plain values: the accounts, the root of
/// their trie, the codes at hand by their hashes, and for each hash of a
/// code that is not at hand the accounts that wait for it.
pub struct Restored {
    pub accounts: Map<H256, AccountSpec>,
    pub root: H256,
    pub code_map: Map<H256, Seq<u8>>,
    pub missing: Map<H256, Seq<H256>>,
}

/// The accounts that wait for the code with this hash.
pub open spec fn waiting_on(missing: Map<H256, Seq<H256>>, code_hash: H256) -> Seq<H256> {
    if missing.contains_key(code_hash) {
        missing[code_hash]
    } else {
        Seq::empty()
    }
}

/// The account `a` with the code `code`.
pub open spec fn with_code(a: AccountSpec, code: Seq<u8>) -> AccountSpec {
    AccountSpec { code: Some(code), ..a }
}

/// The accounts after the first `j` of the waiting ones got the code.
pub open spec fn patched(
    accounts: Map<H256, AccountSpec>,
    waiting: Seq<H256>,
    code: Seq<u8>,
    j: int,
) -> Map<H256, AccountSpec>
    decreases j,
{
    if j <= 0 {
        accounts
    } else {
        let a = patched(accounts, waiting, code, j - 1);
        if a.contains_key(waiting[j - 1]) {
            a.insert(waiting[j - 1], with_code(a[waiting[j - 1]], code))
        } else {
            a
        }
    }
}

/// After the first `k` rebuilt accounts were put in and those among them
/// that miss their code were noted as waiting.
pub open spec fn placed(v: Restored, outs: Seq<RebuiltSpec>, k: int) -> Restored
    decreases k,
{
    if k <= 0 {
        v
    } else {
        let p = placed(v, outs, k - 1);
        let out = outs[k - 1];
        Restored {
            accounts: p.accounts.insert(out.key, out.account),
            missing: match out.missing {
                Some(h) => p.missing.insert(h, waiting_on(p.missing, h).push(out.key)),
                None => p.missing,
            },
            ..p
        }
    }
}

/// After the codes that the first `k` rebuilt accounts brought along were
/// handed out: each goes to the accounts that wait for it, which wait no
/// longer, and is at hand from then on.
pub open spec fn reconciled(v: Restored, outs: Seq<RebuiltSpec>, k: int) -> Restored
    decreases k,
{
    if k <= 0 {
        v
    } else {
        let p = reconciled(v, outs, k - 1);
        match outs[k - 1].new_code {
            Some(code) => {
                let waiting = waiting_on(p.missing, code.0);
                Restored {
                    accounts: patched(p.accounts, waiting, code.1, waiting.len() as int),
                    code_map: p.code_map.insert(code.0, code.1),
                    missing: p.missing.remove(code.0),
                    ..p
                }
            },
            None => p,
        }
    }
}

/// After a whole chunk was taken in: its accounts are put in and noted as
/// waiting where they miss their code, then the codes that came along are
/// handed out, then the root is that of the accounts.
pub open spec fn absorbed(v: Restored, outs: Seq<RebuiltSpec>) -> Restored {
    let r = reconciled(placed(v, outs, outs.len() as int), outs, outs.len() as int);
    Restored { root: state_root_of(r.accounts), ..r }
}

/// The accounts of a list of hashes, as a function.
pub open spec fn hashes_of() -> spec_fn(Vec<H256>) -> Seq<H256> {
    |v: Vec<H256>| v@
}

/// The vector turned round.
pub fn reversed<T>(v: Vec<T>) -> (r: Vec<T>)
    ensures
        r@ == v@.reverse(),
{
    let mut source = v;
    let mut r: Vec<T> = Vec::new();
    while source.len() > 0
        invariant
            source@.len() <= v@.len(),
            source@ == v@.subrange(0, source@.len() as int),
            r@ == v@.subrange(source@.len() as int, v@.len() as int).reverse(),
        decreases source@.len(),
    {
        let ghost n = source@.len();
        let item = source.pop().unwrap();
        r.push(item);
        assert(source@ =~= v@.subrange(0, n - 1));
        assert(r@ =~= v@.subrange(n - 1, v@.len() as int).reverse());
    }
    assert(v@.subrange(0, v@.len() as int) =~= v@);
    r
}

/// Rebuilds a state from state chunks, which may come in any order.
#[derive(Debug)]
pub struct StateRebuilder {
    db: StateDb,
    state_root: H256,
    code_map: SortedMap<Vec<u8>>,
    missing_code: SortedMap<Vec<H256>>,
}

impl View for StateRebuilder {
    type V = Restored;

    closed spec fn view(&self) -> Restored {
        Restored {
            accounts: self.db@,
            root: self.state_root,
            code_map: over(self.code_map@, bytes_of()),
            missing: over(self.missing_code@, hashes_of()),
        }
    }
}

/// Whether a decompressed state chunk can be fed: it is a list that its head
/// and its entries cover, and each of its entries can be rebuilt.
pub open spec fn feedable(chunk: Seq<u8>) -> bool {
    covered(chunk) && rebuildable_upto(
        rlp_item_seq(chunk),
        rlp_item_seq(chunk).len() as int,
    )
}

/// What holds once the decompressed state chunk `chunk` was fed with the
/// result `r`: success if and only if the chunk can be fed, and then its
/// accounts are taken in; else nothing has changed.
pub open spec fn chunk_absorbed(before: Restored, after: Restored, chunk: Seq<u8>, r: Result<(), Error>) -> bool {
    &&& r.is_ok() == feedable(chunk)
    &&& match r {
        Ok(_) => after == absorbed(before, rebuilt_all(rlp_item_seq(chunk), before.code_map)),
        Err(e) => after == before && (e is Decoder || e is Corrupted || e is UnrecognizedCodeState)
            && (!is_list_spec(chunk) ==> e == Error::Decoder(DecodeError::RlpExpectedToBeList))
            && (is_list_spec(chunk) && !covered(chunk) ==> e == Error::Decoder(
            DecodeError::RlpInconsistentLengthAndData,
        )),
    }
}

impl StateRebuilder {
    /// The state and the two tables are in order.
    pub closed spec fn wf(&self) -> bool {
        &&& self.db.wf()
        &&& self.code_map.wf()
        &&& self.missing_code.wf()
    }

    /// A rebuilder with no accounts: the root is that of the empty trie.
    pub fn new() -> (r: StateRebuilder)
        ensures
            r.wf(),
            r@ == (Restored {
                accounts: Map::empty(),
                root: sha3_null_rlp(),
                code_map: Map::empty(),
                missing: Map::empty(),
            }),
    {
        let r = StateRebuilder {
            db: StateDb::new(),
            state_root: sha3_null_rlp(),
            code_map: SortedMap::new(),
            missing_code: SortedMap::new(),
        };
        proof {
            lemma_over(
                Map::<H256, Vec<u8>>::empty(),
                bytes_of(),
                H256 { w0: 0, w1: 0, w2: 0, w3: 0 },
                arbitrary(),
            );
            lemma_over(
                Map::<H256, Vec<H256>>::empty(),
                hashes_of(),
                H256 { w0: 0, w1: 0, w2: 0, w3: 0 },
                arbitrary(),
            );
        }
        r
    }

    /// Puts one rebuilt account in, and notes it as waiting where it misses
    /// its code. Hands the code that came along on.
    fn place(&mut self, out: Rebuilt) -> (r: Option<(H256, Vec<u8>)>)
        requires
            old(self).wf(),
            out.stored.storage.wf(),
        ensures
            final(self).wf(),
            final(self)@ == (Restored {
                accounts: old(self)@.accounts.insert(out@.key, out@.account),
                missing: match out@.missing {
                    Some(h) => old(self)@.missing.insert(
                        h,
                        waiting_on(old(self)@.missing, h).push(out@.key),
                    ),
                    None => old(self)@.missing,
                },
                ..old(self)@
            }),
            match r {
                Some(code) => out@.new_code == Some((code.0, code.1@)),
                None => out@.new_code.is_none(),
            },
    {
        let key = out.key;
        let code_hash = out.stored.account.code_hash;
        self.db.insert(key, out.stored);
        match out.missing {
            Some(h) => {
                let ghost before = self.missing_code@;
                let mut waiting = match self.missing_code.remove(&h) {
                    Some(list) => list,
                    None => Vec::new(),
                };
                waiting.push(key);
                proof {
                    lemma_over(before, hashes_of(), h, waiting);
                    lemma_over(before.remove(h), hashes_of(), h, waiting);
                    assert(over(before.remove(h).insert(h, waiting), hashes_of()) =~= over(
                        before,
                        hashes_of(),
                    ).insert(h, waiting@));
                }
                self.missing_code.insert(h, waiting);
            },
            None => {},
        }
        match out.new_code {
            Some(code) => Some((code_hash, code)),
            None => None,
        }
    }

    /// Hands a code out: to the accounts that wait for it, which wait no
    /// longer; and it is at hand from then on.
    fn hand_out(&mut self, code_hash: H256, code: Vec<u8>)
        requires
            old(self).wf(),
        ensures
            final(self).wf(),
            final(self)@ == ({
                let waiting = waiting_on(old(self)@.missing, code_hash);
                Restored {
                    accounts: patched(old(self)@.accounts, waiting, code@, waiting.len() as int),
                    code_map: old(self)@.code_map.insert(code_hash, code@),
                    missing: old(self)@.missing.remove(code_hash),
                    ..old(self)@
                }
            }),
    {
        let ghost before = *self;
        let ghost waiting_spec = waiting_on(self@.missing, code_hash);
        proof {
            lemma_over(self.missing_code@, hashes_of(), code_hash, arbitrary());
            lemma_over(self.code_map@, bytes_of(), code_hash, code);
        }
        match self.missing_code.remove(&code_hash) {
            Some(waiting) => {
                let mut j: usize = 0;
                while j < waiting.len()
                    invariant
                        self.wf(),
                        j <= waiting@.len(),
                        waiting@ == waiting_spec,
                        self.code_map == before.code_map,
                        self.missing_code@ == before.missing_code@.remove(code_hash),
                        self.state_root == before.state_root,
                        self.db@ == patched(before.db@, waiting_spec, code@, j as int),
                    decreases waiting@.len() - j,
                {
                    let address = waiting[j];
                    self.db.set_code(&address, copy_bytes(&code));
                    j = j + 1;
                }
            },
            None => {},
        }
        self.code_map.insert(code_hash, code);
    }

    /// Takes the rebuilt accounts of a chunk in: see `absorbed`.
    pub fn absorb(&mut self, outs: Vec<Rebuilt>)
        requires
            old(self).wf(),
            forall|i: int| 0 <= i < outs@.len() ==> (#[trigger] outs@[i]).stored.storage.wf(),
        ensures
            final(self).wf(),
            final(self)@ == absorbed(old(self)@, rebuilt_views(outs@)),
    {
        let ghost specs = rebuilt_views(outs@);
        let ghost start = self@;
        let count = outs.len();
        let mut rest = reversed(outs);
        let mut codes: Vec<(H256, Vec<u8>)> = Vec::new();
        let mut k: usize = 0;
        while k < count
            invariant
                self.wf(),
                k <= count,
                count == specs.len(),
                rest@.len() == count - k,
                forall|i: int| 0 <= i < rest@.len() ==> (#[trigger] rest@[i]).stored.storage.wf(),
                forall|i: int|
                    0 <= i < rest@.len() ==> (#[trigger] rest@[i])@ == specs[count - 1 - i],
                self@ == placed(start, specs, k as int),
                codes@.len() <= k,
                handed(specs, k as int, code_views(codes@)),
            decreases count - k,
        {
            let out = rest.pop().unwrap();
            let ghost before_codes = code_views(codes@);
            match self.place(out) {
                Some(code) => {
                    codes.push(code);
                    proof {
                        assert(code_views(codes@) =~= before_codes.push(
                            specs[k as int].new_code.unwrap(),
                        ));
                        assert(code_views(codes@).drop_last() =~= before_codes);
                    }
                },
                None => {},
            }
            k = k + 1;
        }
        let ghost placed_all = self@;
        let total = codes.len();
        let ghost code_specs = code_views(codes@);
        let mut rest_codes = reversed(codes);
        proof {
            assert(code_views(rest_codes@) =~= code_specs.reverse());
        }
        let mut c: usize = 0;
        while c < total
            invariant
                self.wf(),
                c <= total,
                total == code_specs.len(),
                rest_codes@.len() == total - c,
                forall|i: int|
                    0 <= i < rest_codes@.len() ==> #[trigger] code_views(rest_codes@)[i]
                        == code_specs[total - 1 - i],
                self@ == handed_out(placed_all, code_specs, c as int),
            decreases total - c,
        {
            let ghost view_before = code_views(rest_codes@);
            let (code_hash, code) = rest_codes.pop().unwrap();
            proof {
                assert(view_before[total - c - 1] == (code_hash, code@));
                assert forall|i: int| 0 <= i < rest_codes@.len() implies #[trigger] code_views(
                    rest_codes@,
                )[i] == code_specs[total - 1 - (c + 1) - i + (c + 1)] by {
                    assert(code_views(rest_codes@)[i] == view_before[i]);
                }
            }
            self.hand_out(code_hash, code);
            c = c + 1;
        }
        proof {
            lemma_handed(placed_all, specs, specs.len() as int, code_specs);
        }
        self.state_root = self.db.root();
    }

    /// Feeds a chunk: rebuilds its accounts, each on its own, and takes them
    /// in. Fails, and changes nothing, if and only if the chunk is no list or
    /// one of its entries cannot be rebuilt.
    pub fn feed(&mut self, chunk: &[u8]) -> (r: Result<(), Error>)
        requires
            old(self).wf(),
        ensures
            final(self).wf(),
            chunk_absorbed(old(self)@, final(self)@, chunk@, r),
    {
        let account_fat_rlps = match list_items(chunk) {
            Ok(items) => items,
            Err(e) => {
                return Err(Error::Decoder(e));
            },
        };
        proof {
            lemma_views(account_fat_rlps@);
        }
        let outs = match rebuild_accounts(account_fat_rlps.as_slice(), &self.code_map) {
            Ok(outs) => outs,
            Err(e) => {
                return Err(e);
            },
        };
        self.absorb(outs);
        Ok(())
    }

    /// Checks for accounts that still wait for their code: once all chunks
    /// are fed there should be none. Hands the state over if there is none;
    /// else fails with the hashes of the codes that are missing, in the order
    /// of the hashes.
    pub fn check_missing(self) -> (r: Result<StateDb, Error>)
        requires
            self.wf(),
        ensures
            match r {
                Ok(db) => self@.missing.dom() == Set::<H256>::empty() && db@ == self@.accounts
                    && db.wf(),
                Err(Error::MissingCode(missing)) => missing@.len() > 0 && missing@.to_set()
                    == self@.missing.dom() && forall|i: int, j: int|
                    0 <= i < j < missing@.len() ==> (#[trigger] missing@[i]).less(
                        #[trigger] missing@[j],
                    ),
                Err(_) => false,
            },
    {
        let mut missing: Vec<H256> = Vec::new();
        let mut i: usize = 0;
        proof {
            self.missing_code.lemma_seq();
        }
        while i < self.missing_code.len()
            invariant
                self.wf(),
                i <= self.missing_code.seq().len(),
                missing@.len() == i,
                forall|j: int| 0 <= j < i ==> #[trigger] missing@[j] == self.missing_code.seq()[j].0,
            decreases self.missing_code.seq().len() - i,
        {
            missing.push(self.missing_code.key_at(i));
            i = i + 1;
        }
        proof {
            self.missing_code.lemma_seq();
            let s = self.missing_code.seq();
            assert forall|h: H256| missing@.to_set().contains(h) <==> self@.missing.dom().contains(
                h,
            ) by {
                if missing@.to_set().contains(h) {
                    let j = choose|j: int| 0 <= j < missing@.len() && missing@[j] == h;
                    assert(s[j].0 == h);
                    assert(self.missing_code@.contains_key(s[j].0));
                }
                if self.missing_code@.contains_key(h) {
                    let j = crate::sorted_map::place_of(s, h);
                    assert(missing@[j] == h);
                }
            }
            assert(missing@.to_set() =~= self@.missing.dom());
            assert forall|i: int, j: int| 0 <= i < j < missing@.len() implies (
            #[trigger] missing@[i]).less(#[trigger] missing@[j]) by {
                assert(s[i].0.less(s[j].0));
            }
            if missing@.len() == 0 {
                assert(self@.missing.dom() =~= Set::<H256>::empty());
            }
        }
        if missing.len() == 0 {
            Ok(self.db)
        } else {
            Err(Error::MissingCode(missing))
        }
    }

    /// The codes at hand, by their hashes.
    pub fn code_map(&self) -> (r: &SortedMap<Vec<u8>>)
        ensures
            over(r@, bytes_of()) == self@.code_map,
            self.wf() ==> r.wf(),
    {
        &self.code_map
    }

    /// The root of the state as far as it is rebuilt.
    pub fn state_root(&self) -> (r: H256)
        ensures
            r == self@.root,
    {
        self.state_root
    }
}

/// The codes of a list, as plain values.
pub open spec fn code_views(v: Seq<(H256, Vec<u8>)>) -> Seq<(H256, Seq<u8>)> {
    v.map_values(|e: (H256, Vec<u8>)| (e.0, e.1@))
}

/// Whether `codes` are the codes that the first `k` rebuilt accounts brought
/// along, in their order.
pub open spec fn handed(outs: Seq<RebuiltSpec>, k: int, codes: Seq<(H256, Seq<u8>)>) -> bool
    decreases k,
{
    if k <= 0 {
        codes.len() == 0
    } else {
        match outs[k - 1].new_code {
            Some(code) => codes.len() > 0 && codes.last() == code && handed(
                outs,
                k - 1,
                codes.drop_last(),
            ),
            None => handed(outs, k - 1, codes),
        }
    }
}

/// After the first `c` of the codes were handed out.
pub open spec fn handed_out(v: Restored, codes: Seq<(H256, Seq<u8>)>, c: int) -> Restored
    decreases c,
{
    if c <= 0 {
        v
    } else {
        let p = handed_out(v, codes, c - 1);
        let waiting = waiting_on(p.missing, codes[c - 1].0);
        Restored {
            accounts: patched(p.accounts, waiting, codes[c - 1].1, waiting.len() as int),
            code_map: p.code_map.insert(codes[c - 1].0, codes[c - 1].1),
            missing: p.missing.remove(codes[c - 1].0),
            ..p
        }
    }
}

/// Handing out the codes that the rebuilt accounts brought along, one code
/// after the other, is what `reconciled` says account by account.
pub proof fn lemma_handed(v: Restored, outs: Seq<RebuiltSpec>, k: int, codes: Seq<(H256, Seq<u8>)>)
    requires
        0 <= k <= outs.len(),
        handed(outs, k, codes),
    ensures
        reconciled(v, outs, k) == handed_out(v, codes, codes.len() as int),
    decreases k,
{
    if k > 0 {
        match outs[k - 1].new_code {
            Some(code) => {
                lemma_handed(v, outs, k - 1, codes.drop_last());
                lemma_handed_out_prefix(v, codes, codes.len() - 1);
            },
            None => {
                lemma_handed(v, outs, k - 1, codes);
            },
        }
    }
}

/// Handing out the first codes of a list does not depend on the later ones.
pub proof fn lemma_handed_out_prefix(v: Restored, codes: Seq<(H256, Seq<u8>)>, c: int)
    requires
        0 <= c <= codes.len(),
    ensures
        handed_out(v, codes, c) == handed_out(v, codes.subrange(0, c), c),
        c < codes.len() ==> handed_out(v, codes.drop_last(), c) == handed_out(v, codes, c),
    decreases c,
{
    if c > 0 {
        lemma_handed_out_prefix(v, codes, c - 1);
        lemma_handed_out_prefix(v, codes.subrange(0, c), c - 1);
        assert(codes.subrange(0, c).subrange(0, c - 1) =~= codes.subrange(0, c - 1));
        assert(codes.subrange(0, c)[c - 1] == codes[c - 1]);
        if c < codes.len() {
            lemma_handed_out_prefix(v, codes.drop_last(), c - 1);
            assert(codes.drop_last()[c - 1] == codes[c - 1]);
        }
    } else {
    }
}

} // verus!

verus! {

/// Whether an entry among `pairs` refers to the code with this hash without
/// carrying it.
pub open spec fn refers(pairs: Seq<Seq<u8>>, code_hash: H256) -> bool {
    exists|i: int|
        0 <= i < pairs.len() && (#[trigger] pair_fat(pairs[i])).code == CodeSpec::Hash(code_hash)
            && code_hash != sha3_empty()
}

/// Whether an entry among `pairs` carries the code with this hash.
pub open spec fn embeds(pairs: Seq<Seq<u8>>, code_hash: H256) -> bool {
    exists|i: int|
        0 <= i < pairs.len() && new_code_of(#[trigger] pair_fat(pairs[i])).is_some()
            && new_code_of(pair_fat(pairs[i])).unwrap().0 == code_hash
}

/// Whether one of the first `k` rebuilt accounts misses the code with this hash.
pub open spec fn misses(outs: Seq<RebuiltSpec>, k: int, code_hash: H256) -> bool {
    exists|i: int| 0 <= i < k && (#[trigger] outs[i]).missing == Some(code_hash)
}

/// Whether one of the first `k` rebuilt accounts brings the code with this hash.
pub open spec fn brings(outs: Seq<RebuiltSpec>, k: int, code_hash: H256) -> bool {
    exists|i: int|
        0 <= i < k && (#[trigger] outs[i]).new_code.is_some() && outs[i].new_code.unwrap().0
            == code_hash
}

/// Placing accounts adds the codes they miss to those waited for; the codes
/// at hand stay as they are.
pub proof fn lemma_placed(v: Restored, outs: Seq<RebuiltSpec>, k: int, code_hash: H256)
    requires
        0 <= k <= outs.len(),
    ensures
        placed(v, outs, k).code_map == v.code_map,
        placed(v, outs, k).missing.contains_key(code_hash) <==> (v.missing.contains_key(code_hash)
            || misses(outs, k, code_hash)),
        forall|a: H256|
            v.accounts.contains_key(a) ==> #[trigger] placed(v, outs, k).accounts.contains_key(a),
        forall|a: H256|
            waiting_on(v.missing, code_hash).contains(a) ==> #[trigger] waiting_on(
                placed(v, outs, k).missing,
                code_hash,
            ).contains(a),
    decreases k,
{
    if k > 0 {
        lemma_placed(v, outs, k - 1, code_hash);
        let p = placed(v, outs, k - 1);
        let out = outs[k - 1];
        if misses(outs, k - 1, code_hash) {
            let i = choose|i: int| 0 <= i < k - 1 && (#[trigger] outs[i]).missing == Some(code_hash);
            assert(outs[i].missing == Some(code_hash));
        }
        if out.missing == Some(code_hash) {
            assert(misses(outs, k, code_hash));
        }
        if misses(outs, k, code_hash) {
            let i = choose|i: int| 0 <= i < k && (#[trigger] outs[i]).missing == Some(code_hash);
            if i < k - 1 {
                assert(misses(outs, k - 1, code_hash));
            }
        }
        assert forall|a: H256| waiting_on(v.missing, code_hash).contains(a) implies #[trigger] waiting_on(
            placed(v, outs, k).missing,
            code_hash,
        ).contains(a) by {
            let w = waiting_on(p.missing, code_hash);
            assert(w.contains(a));
            if out.missing == Some(code_hash) {
                let j = choose|j: int| 0 <= j < w.len() && w[j] == a;
                assert(w.push(out.key)[j] == a);
            }
        }
    }
}

/// Handing codes out takes them from those waited for and puts them among
/// those at hand.
pub proof fn lemma_reconciled(v: Restored, outs: Seq<RebuiltSpec>, k: int, code_hash: H256)
    requires
        0 <= k <= outs.len(),
    ensures
        reconciled(v, outs, k).missing.contains_key(code_hash) <==> (v.missing.contains_key(
            code_hash,
        ) && !brings(outs, k, code_hash)),
        reconciled(v, outs, k).code_map.contains_key(code_hash) <==> (v.code_map.contains_key(
            code_hash,
        ) || brings(outs, k, code_hash)),
    decreases k,
{
    if k > 0 {
        lemma_reconciled(v, outs, k - 1, code_hash);
        let out = outs[k - 1];
        if brings(outs, k - 1, code_hash) {
            let i = choose|i: int|
                0 <= i < k - 1 && (#[trigger] outs[i]).new_code.is_some()
                    && outs[i].new_code.unwrap().0 == code_hash;
            assert(outs[i].new_code.is_some());
        }
        if out.new_code.is_some() && out.new_code.unwrap().0 == code_hash {
            assert(brings(outs, k, code_hash));
        }
        if brings(outs, k, code_hash) {
            let i = choose|i: int|
                0 <= i < k && (#[trigger] outs[i]).new_code.is_some() && outs[i].new_code.unwrap().0
                    == code_hash;
            if i < k - 1 {
                assert(brings(outs, k - 1, code_hash));
            }
        }
    }
}

/// What taking a chunk in does to the codes waited for and to those at hand:
/// a code is waited for afterwards if and only if it was waited for before,
/// or an entry refers to it while it was not at hand, and no entry carries
/// it; it is at hand afterwards if and only if it was before or an entry
/// carries it.
pub proof fn lemma_absorbed_codes(v: Restored, pairs: Seq<Seq<u8>>, code_hash: H256)
    ensures
        absorbed(v, rebuilt_all(pairs, v.code_map)).missing.contains_key(code_hash) <==> ((
        v.missing.contains_key(code_hash) || (refers(pairs, code_hash)
            && !v.code_map.contains_key(code_hash))) && !embeds(pairs, code_hash)),
        absorbed(v, rebuilt_all(pairs, v.code_map)).code_map.contains_key(code_hash) <==> (
        v.code_map.contains_key(code_hash) || embeds(pairs, code_hash)),
{
    let outs = rebuilt_all(pairs, v.code_map);
    let n = outs.len() as int;
    lemma_placed(v, outs, n, code_hash);
    lemma_reconciled(placed(v, outs, n), outs, n, code_hash);
    if misses(outs, n, code_hash) {
        let i = choose|i: int| 0 <= i < n && (#[trigger] outs[i]).missing == Some(code_hash);
        assert(pair_fat(pairs[i]).code == CodeSpec::Hash(code_hash));
    }
    if refers(pairs, code_hash) && !v.code_map.contains_key(code_hash) {
        let i = choose|i: int|
            0 <= i < pairs.len() && (#[trigger] pair_fat(pairs[i])).code == CodeSpec::Hash(
                code_hash,
            ) && code_hash != sha3_empty();
        assert(outs[i].missing == Some(code_hash));
    }
    if brings(outs, n, code_hash) {
        let i = choose|i: int|
            0 <= i < n && (#[trigger] outs[i]).new_code.is_some() && outs[i].new_code.unwrap().0
                == code_hash;
        assert(new_code_of(pair_fat(pairs[i])).is_some());
    }
    if embeds(pairs, code_hash) {
        let i = choose|i: int|
            0 <= i < pairs.len() && new_code_of(#[trigger] pair_fat(pairs[i])).is_some()
                && new_code_of(pair_fat(pairs[i])).unwrap().0 == code_hash;
        assert(outs[i].new_code.is_some());
    }
}

/// A rebuilder that has taken nothing in.
pub open spec fn nothing_restored() -> Restored {
    Restored {
        accounts: Map::empty(),
        root: sha3_null_rlp(),
        code_map: Map::empty(),
        missing: Map::empty(),
    }
}

/// The rebuilder after the first `k` chunks were fed, each given by its entries.
pub open spec fn fed_chunks(v: Restored, chunks: Seq<Seq<Seq<u8>>>, k: int) -> Restored
    decreases k,
{
    if k <= 0 {
        v
    } else {
        let p = fed_chunks(v, chunks, k - 1);
        absorbed(p, rebuilt_all(chunks[k - 1], p.code_map))
    }
}

/// Whether an entry of one of the first `k` chunks refers to the code.
pub open spec fn referred(chunks: Seq<Seq<Seq<u8>>>, k: int, code_hash: H256) -> bool {
    exists|c: int| 0 <= c < k && refers(#[trigger] chunks[c], code_hash)
}

/// Whether an entry of one of the first `k` chunks carries the code.
pub open spec fn embedded(chunks: Seq<Seq<Seq<u8>>>, k: int, code_hash: H256) -> bool {
    exists|c: int| 0 <= c < k && embeds(#[trigger] chunks[c], code_hash)
}

/// Missing code is found out, and nothing else is reported: after chunks
/// were fed into a rebuilder that had taken nothing in, in whatever order, a
/// code is waited for if and only if an entry of a chunk refers to it and no
/// entry of any chunk carries it; and it is at hand if and only if an entry
/// carries it.
pub proof fn lemma_missing_exactly(chunks: Seq<Seq<Seq<u8>>>, k: int, code_hash: H256)
    requires
        0 <= k <= chunks.len(),
    ensures
        fed_chunks(nothing_restored(), chunks, k).missing.contains_key(code_hash) <==> (referred(
            chunks,
            k,
            code_hash,
        ) && !embedded(chunks, k, code_hash)),
        fed_chunks(nothing_restored(), chunks, k).code_map.contains_key(code_hash) <==> embedded(
            chunks,
            k,
            code_hash,
        ),
    decreases k,
{
    if k > 0 {
        lemma_missing_exactly(chunks, k - 1, code_hash);
        let p = fed_chunks(nothing_restored(), chunks, k - 1);
        lemma_absorbed_codes(p, chunks[k - 1], code_hash);
        if referred(chunks, k - 1, code_hash) {
            let c = choose|c: int| 0 <= c < k - 1 && refers(#[trigger] chunks[c], code_hash);
            assert(refers(chunks[c], code_hash));
        }
        if embedded(chunks, k - 1, code_hash) {
            let c = choose|c: int| 0 <= c < k - 1 && embeds(#[trigger] chunks[c], code_hash);
            assert(embeds(chunks[c], code_hash));
        }
        if refers(chunks[k - 1], code_hash) {
            assert(referred(chunks, k, code_hash));
        }
        if embeds(chunks[k - 1], code_hash) {
            assert(embedded(chunks, k, code_hash));
        }
        if referred(chunks, k, code_hash) {
            let c = choose|c: int| 0 <= c < k && refers(#[trigger] chunks[c], code_hash);
            if c < k - 1 {
                assert(referred(chunks, k - 1, code_hash));
            }
        }
        if embedded(chunks, k, code_hash) {
            let c = choose|c: int| 0 <= c < k && embeds(#[trigger] chunks[c], code_hash);
            if c < k - 1 {
                assert(embedded(chunks, k - 1, code_hash));
            }
        }
    }
}

/// Handing a code to the accounts that wait for it gives it to each of them
/// that is there, and leaves the others as they are.
pub proof fn lemma_patched(
    accounts: Map<H256, AccountSpec>,
    waiting: Seq<H256>,
    code: Seq<u8>,
    j: int,
    a: H256,
)
    requires
        0 <= j <= waiting.len(),
    ensures
        patched(accounts, waiting, code, j).contains_key(a) <==> accounts.contains_key(a),
        accounts.contains_key(a) ==> patched(accounts, waiting, code, j)[a] == (if waiting.subrange(
            0,
            j,
        ).contains(a) {
            with_code(accounts[a], code)
        } else {
            accounts[a]
        }),
    decreases j,
{
    if j > 0 {
        lemma_patched(accounts, waiting, code, j - 1, a);
        lemma_patched(accounts, waiting, code, j - 1, waiting[j - 1]);
        let before = waiting.subrange(0, j - 1);
        let now = waiting.subrange(0, j);
        assert(now[j - 1] == waiting[j - 1]);
        if before.contains(a) {
            let i = choose|i: int| 0 <= i < before.len() && before[i] == a;
            assert(now[i] == a);
        }
        if now.contains(a) && waiting[j - 1] != a {
            let i = choose|i: int| 0 <= i < now.len() && now[i] == a;
            assert(before[i] == a);
        }
    } else {
        assert(waiting.subrange(0, 0) =~= Seq::<H256>::empty());
    }
}

/// Code that comes after the account that refers to it reaches the account:
/// where the account `a` is there and waits for the code with the hash
/// `code_hash`, and a chunk brings that code along and no other, then once
/// the chunk is taken in the account has the code, the code is at hand, and
/// nobody waits for it any more.
pub proof fn lemma_code_arrives(
    v: Restored,
    outs: Seq<RebuiltSpec>,
    a: H256,
    code_hash: H256,
    code: Seq<u8>,
)
    requires
        v.accounts.contains_key(a),
        waiting_on(v.missing, code_hash).contains(a),
        brings(outs, outs.len() as int, code_hash),
        forall|i: int|
            0 <= i < outs.len() && (#[trigger] outs[i]).new_code.is_some() ==> outs[i].new_code
                == Some((code_hash, code)),
    ensures
        absorbed(v, outs).accounts.contains_key(a),
        absorbed(v, outs).accounts[a].code == Some(code),
        absorbed(v, outs).code_map.contains_key(code_hash),
        absorbed(v, outs).code_map[code_hash] == code,
        !absorbed(v, outs).missing.contains_key(code_hash),
{
    let n = outs.len() as int;
    let p = placed(v, outs, n);
    lemma_placed(v, outs, n, code_hash);
    lemma_reconciled(p, outs, n, code_hash);
    lemma_arrives(p, outs, n, a, code_hash, code);
}

/// The induction behind `lemma_code_arrives`, over the accounts of the chunk.
pub proof fn lemma_arrives(
    p: Restored,
    outs: Seq<RebuiltSpec>,
    k: int,
    a: H256,
    code_hash: H256,
    code: Seq<u8>,
)
    requires
        0 <= k <= outs.len(),
        p.accounts.contains_key(a),
        forall|i: int|
            0 <= i < outs.len() && (#[trigger] outs[i]).new_code.is_some() ==> outs[i].new_code
                == Some((code_hash, code)),
    ensures
        reconciled(p, outs, k).accounts.contains_key(a),
        brings(outs, k, code_hash) ==> reconciled(p, outs, k).code_map.contains_key(code_hash)
            && reconciled(p, outs, k).code_map[code_hash] == code,
        brings(outs, k, code_hash) && waiting_on(p.missing, code_hash).contains(a) ==> reconciled(
            p,
            outs,
            k,
        ).accounts[a].code == Some(code),
        !brings(outs, k, code_hash) ==> reconciled(p, outs, k) == p,
    decreases k,
{
    if k > 0 {
        lemma_arrives(p, outs, k - 1, a, code_hash, code);
        lemma_reconciled(p, outs, k - 1, code_hash);
        let q = reconciled(p, outs, k - 1);
        let out = outs[k - 1];
        if brings(outs, k - 1, code_hash) {
            let i = choose|i: int|
                0 <= i < k - 1 && (#[trigger] outs[i]).new_code.is_some()
                    && outs[i].new_code.unwrap().0 == code_hash;
            assert(outs[i].new_code.is_some());
            assert(brings(outs, k, code_hash));
        }
        if out.new_code.is_some() {
            assert(brings(outs, k, code_hash));
            let waiting = waiting_on(q.missing, code_hash);
            lemma_patched(q.accounts, waiting, code, waiting.len() as int, a);
            assert(waiting.subrange(0, waiting.len() as int) =~= waiting);
            if !brings(outs, k - 1, code_hash) {
                assert(q == p);
            } else {
                assert(!q.missing.contains_key(code_hash));
                assert(waiting =~= Seq::<H256>::empty());
            }
        } else {
            if brings(outs, k, code_hash) {
                let i = choose|i: int|
                    0 <= i < k && (#[trigger] outs[i]).new_code.is_some()
                        && outs[i].new_code.unwrap().0 == code_hash;
                assert(i < k - 1);
                assert(brings(outs, k - 1, code_hash));
            }
        }
    }
}

/// Whether the account `a` waits for no code but the one with this hash.
pub open spec fn waits_for_this_alone(missing: Map<H256, Seq<H256>>, a: H256, code_hash: H256) -> bool {
    forall|h: H256| h != code_hash ==> !(#[trigger] waiting_on(missing, h)).contains(a)
}

/// Placing accounts other than `a` leaves `a` waiting for what it waited for.
pub proof fn lemma_placed_others(v: Restored, outs: Seq<RebuiltSpec>, k: int, a: H256, code_hash: H256)
    requires
        0 <= k <= outs.len(),
        v.accounts.contains_key(a),
        waits_for_this_alone(v.missing, a, code_hash),
        forall|i: int| 0 <= i < outs.len() ==> (#[trigger] outs[i]).key != a,
    ensures
        placed(v, outs, k).accounts.contains_key(a),
        waits_for_this_alone(placed(v, outs, k).missing, a, code_hash),
    decreases k,
{
    if k > 0 {
        lemma_placed_others(v, outs, k - 1, a, code_hash);
        let p = placed(v, outs, k - 1);
        let out = outs[k - 1];
        let q = placed(v, outs, k);
        assert forall|h: H256| h != code_hash implies !(#[trigger] waiting_on(q.missing, h)).contains(
            a,
        ) by {
            assert(!waiting_on(p.missing, h).contains(a));
            if out.missing == Some(h) {
                let list = waiting_on(p.missing, h).push(out.key);
                assert(waiting_on(q.missing, h) == list);
                if list.contains(a) {
                    let j = choose|j: int| 0 <= j < list.len() && list[j] == a;
                    if j < list.len() - 1 {
                        assert(waiting_on(p.missing, h)[j] == a);
                    }
                }
            } else {
                assert(waiting_on(q.missing, h) == waiting_on(p.missing, h));
            }
        }
    }
}

/// The induction behind `lemma_code_arrives_among_others`, over the accounts
/// of the chunk.
pub proof fn lemma_arrives_among_others(
    p: Restored,
    outs: Seq<RebuiltSpec>,
    k: int,
    a: H256,
    code_hash: H256,
    code: Seq<u8>,
)
    requires
        0 <= k <= outs.len(),
        p.accounts.contains_key(a),
        waiting_on(p.missing, code_hash).contains(a),
        waits_for_this_alone(p.missing, a, code_hash),
        forall|i: int|
            0 <= i < outs.len() && (#[trigger] outs[i]).new_code.is_some()
                && outs[i].new_code.unwrap().0 == code_hash ==> outs[i].new_code.unwrap().1
                == code,
    ensures
        reconciled(p, outs, k).accounts.contains_key(a),
        waits_for_this_alone(reconciled(p, outs, k).missing, a, code_hash),
        brings(outs, k, code_hash) ==> {
            &&& reconciled(p, outs, k).accounts[a].code == Some(code)
            &&& reconciled(p, outs, k).code_map.contains_key(code_hash)
            &&& reconciled(p, outs, k).code_map[code_hash] == code
            &&& !reconciled(p, outs, k).missing.contains_key(code_hash)
        },
        !brings(outs, k, code_hash) ==> waiting_on(reconciled(p, outs, k).missing, code_hash).contains(
            a,
        ),
    decreases k,
{
    if k > 0 {
        lemma_arrives_among_others(p, outs, k - 1, a, code_hash, code);
        let q = reconciled(p, outs, k - 1);
        let r = reconciled(p, outs, k);
        let out = outs[k - 1];
        if brings(outs, k - 1, code_hash) {
            let i = choose|i: int|
                0 <= i < k - 1 && (#[trigger] outs[i]).new_code.is_some()
                    && outs[i].new_code.unwrap().0 == code_hash;
            assert(outs[i].new_code.is_some());
            assert(brings(outs, k, code_hash));
        }
        match out.new_code {
            Some(brought) => {
                let waiting = waiting_on(q.missing, brought.0);
                lemma_patched(q.accounts, waiting, brought.1, waiting.len() as int, a);
                assert(waiting.subrange(0, waiting.len() as int) =~= waiting);
                assert forall|h: H256| h != code_hash implies !(#[trigger] waiting_on(
                    r.missing,
                    h,
                )).contains(a) by {
                    assert(!waiting_on(q.missing, h).contains(a));
                    if h == brought.0 {
                        assert(waiting_on(r.missing, h) =~= Seq::<H256>::empty());
                    } else {
                        assert(waiting_on(r.missing, h) == waiting_on(q.missing, h));
                    }
                }
                if brought.0 == code_hash {
                    assert(out.new_code.is_some());
                    assert(brings(outs, k, code_hash));
                    assert(brought.1 == code);
                    if brings(outs, k - 1, code_hash) {
                        assert(waiting =~= Seq::<H256>::empty());
                    }
                } else {
                    assert(!waiting.contains(a));
                    assert(waiting_on(r.missing, code_hash) == waiting_on(q.missing, code_hash));
                    if brings(outs, k, code_hash) {
                        let i = choose|i: int|
                            0 <= i < k && (#[trigger] outs[i]).new_code.is_some()
                                && outs[i].new_code.unwrap().0 == code_hash;
                        assert(i < k - 1);
                        assert(brings(outs, k - 1, code_hash));
                    }
                }
            },
            None => {
                if brings(outs, k, code_hash) {
                    let i = choose|i: int|
                        0 <= i < k && (#[trigger] outs[i]).new_code.is_some()
                            && outs[i].new_code.unwrap().0 == code_hash;
                    assert(i < k - 1);
                    assert(brings(outs, k - 1, code_hash));
                }
            },
        }
    }
}

/// Code that comes after the account that refers to it reaches the account,
/// whatever else the chunk brings: where the account `a` is there and waits
/// for the code with the hash `code_hash` and for no other, and a chunk that
/// does not hold `a` itself brings that code along, among other accounts and
/// other codes, then once the chunk is taken in the account has the code, the
/// code is at hand, and nobody waits for it any more. `code` is what the
/// chunk brings under `code_hash`, wherever it brings it.
pub proof fn lemma_code_arrives_among_others(
    v: Restored,
    outs: Seq<RebuiltSpec>,
    a: H256,
    code_hash: H256,
    code: Seq<u8>,
)
    requires
        v.accounts.contains_key(a),
        waiting_on(v.missing, code_hash).contains(a),
        waits_for_this_alone(v.missing, a, code_hash),
        forall|i: int| 0 <= i < outs.len() ==> (#[trigger] outs[i]).key != a,
        brings(outs, outs.len() as int, code_hash),
        forall|i: int|
            0 <= i < outs.len() && (#[trigger] outs[i]).new_code.is_some()
                && outs[i].new_code.unwrap().0 == code_hash ==> outs[i].new_code.unwrap().1
                == code,
    ensures
        absorbed(v, outs).accounts.contains_key(a),
        absorbed(v, outs).accounts[a].code == Some(code),
        absorbed(v, outs).code_map.contains_key(code_hash),
        absorbed(v, outs).code_map[code_hash] == code,
        !absorbed(v, outs).missing.contains_key(code_hash),
{
    let n = outs.len() as int;
    let p = placed(v, outs, n);
    lemma_placed(v, outs, n, code_hash);
    lemma_placed_others(v, outs, n, a, code_hash);
    lemma_arrives_among_others(p, outs, n, a, code_hash, code);
}

} // verus!
