use vstd::prelude::*;
use crate::account::{fat_rlp, Code, CodeSpec, FatAccount, FatSpec, storage_views};
use crate::block::copy_bytes;
use crate::chunker::{
    content_addressed, keys, sealed, total_len, PREFERRED_CHUNK_SIZE,
};
use crate::codec::{
    encode_hash, lemma_views, lemma_views_push, list_of, rlp_hash, rlp_list, rlp_str, string_of,
    views,
};
use crate::compress::{compress, compressible, snappy_compressed};
use crate::error::Error;
use crate::hash::{keccak, sha3_empty, H256};
use crate::io::{Recorded, SnapshotWriter};
use crate::progress::{accounts_noted, Progress, ProgressSpec};
use crate::sorted_map::{canonical, lemma_mapped, mapped, SortedMap};
use crate::state::{bytes_of, plain, state_root_of, AccountSpec, StateDb, StoredAccount};

verus! {

/// The encoding of a state chunk: the list of its entries.
pub open spec fn state_chunk_rlp(pairs: Seq<Seq<u8>>) -> Seq<u8> {
    rlp_list(pairs)
}

/// The stored form of each state chunk.
pub open spec fn seal_states(chunks: Seq<Seq<Seq<u8>>>) -> Seq<(H256, Seq<u8>)> {
    chunks.map_values(|c: Seq<Seq<u8>>| sealed(state_chunk_rlp(c)))
}

/// The progress indicator after the state chunks were written, one after the other.
pub open spec fn noted_states(p: ProgressSpec, chunks: Seq<Seq<Seq<u8>>>) -> ProgressSpec
    decreases chunks.len(),
{
    if chunks.len() == 0 {
        p
    } else {
        accounts_noted(
            noted_states(p, chunks.drop_last()),
            chunks.last().len() as usize,
            sealed(state_chunk_rlp(chunks.last())).1.len() as usize,
        )
    }
}

/// How an account carries its code in a snapshot where the codes with the
/// hashes `used` were carried before: not at all without code, by its hash
/// where the code was carried before or is not at hand, else in full.
pub open spec fn code_for(a: AccountSpec, used: Set<H256>) -> CodeSpec {
    if a.account.code_hash == sha3_empty() {
        CodeSpec::Empty
    } else if used.contains(a.account.code_hash) {
        CodeSpec::Hash(a.account.code_hash)
    } else {
        match a.code {
            Some(code) => CodeSpec::Inline(code),
            None => CodeSpec::Hash(a.account.code_hash),
        }
    }
}

/// The hashes of the codes carried once the account `a` was written.
pub open spec fn used_with(a: AccountSpec, used: Set<H256>) -> Set<H256> {
    if code_for(a, used) is Inline {
        used.insert(a.account.code_hash)
    } else {
        used
    }
}

/// The fat account that a snapshot carries for `a`.
pub open spec fn fat_for(a: AccountSpec, used: Set<H256>) -> FatSpec {
    FatSpec {
        nonce: a.account.nonce,
        balance: a.account.balance,
        code: code_for(a, used),
        storage: canonical(a.storage),
    }
}

/// The entry of a state chunk for one account: the hash of its address and
/// its fat encoding, compressed.
pub open spec fn account_pair(key: H256, compressed: Seq<u8>) -> Seq<u8> {
    rlp_list(seq![rlp_hash(key), rlp_str(compressed)])
}

/// The entries gathered for the next state chunk and their size, the chunks
/// made so far, and the hashes of the codes carried so far.
pub struct Gather {
    pub pending: Seq<Seq<u8>>,
    pub size: int,
    pub chunks: Seq<Seq<Seq<u8>>>,
    pub used: Set<H256>,
}

/// Nothing gathered, nothing made, no code carried.
pub open spec fn gather_start() -> Gather {
    Gather { pending: Seq::empty(), size: 0, chunks: Seq::empty(), used: Set::empty() }
}

/// What was gathered became a chunk.
pub open spec fn gather_flushed(g: Gather) -> Gather {
    Gather { pending: Seq::empty(), size: 0, chunks: g.chunks.push(g.pending), used: g.used }
}

/// One more entry: where it would bring what was gathered over the
/// preferred size, that becomes a chunk first.
pub open spec fn pushed(g: Gather, pair: Seq<u8>) -> Gather {
    let base = if g.size + pair.len() > PREFERRED_CHUNK_SIZE && g.pending.len() > 0 {
        gather_flushed(g)
    } else {
        g
    };
    Gather {
        pending: base.pending.push(pair),
        size: base.size + pair.len(),
        chunks: base.chunks,
        used: base.used,
    }
}

/// One more account.
pub open spec fn took(g: Gather, key: H256, a: AccountSpec) -> Gather {
    let pair = account_pair(key, snappy_compressed(fat_rlp(fat_for(a, g.used))));
    Gather { used: used_with(a, g.used), ..pushed(g, pair) }
}

/// What is gathered and made after the first `k` accounts.
pub open spec fn gathered(accounts: Seq<(H256, AccountSpec)>, k: int) -> Gather
    decreases k,
{
    if k <= 0 {
        gather_start()
    } else {
        took(gathered(accounts, k - 1), accounts[k - 1].0, accounts[k - 1].1)
    }
}

/// At the end what is left becomes the last chunk.
pub open spec fn closed(g: Gather) -> Gather {
    if g.pending.len() > 0 {
        gather_flushed(g)
    } else {
        g
    }
}

/// The state chunks of a state: its accounts in the order of their keys,
/// gathered into chunks.
pub open spec fn state_plan(state: Map<H256, AccountSpec>) -> Seq<Seq<Seq<u8>>> {
    closed(gathered(canonical(state), canonical(state).len() as int)).chunks
}

/// Whether the fat encoding of account `k` is too large to be compressed.
pub open spec fn account_too_big(accounts: Seq<(H256, AccountSpec)>, k: int) -> bool {
    !compressible(fat_rlp(fat_for(accounts[k].1, gathered(accounts, k).used)).len())
}

/// Whether a state chunk keeps to the size: its entries together do not
/// exceed the preferred size, or it has a single entry.
pub open spec fn state_within_size(pairs: Seq<Seq<u8>>) -> bool {
    total_len(pairs) <= PREFERRED_CHUNK_SIZE || pairs.len() == 1
}

/// Whether every chunk made keeps to the size, and what is gathered could
/// become one that does.
pub open spec fn gather_within_size(g: Gather) -> bool {
    &&& g.size == total_len(g.pending)
    &&& g.pending.len() > 0 ==> state_within_size(g.pending)
    &&& forall|i: int| 0 <= i < g.chunks.len() ==> state_within_size(#[trigger] g.chunks[i])
}

/// One more entry keeps everything within the size.
pub proof fn lemma_pushed_within_size(g: Gather, pair: Seq<u8>)
    requires
        gather_within_size(g),
    ensures
        gather_within_size(pushed(g, pair)),
        g.chunks.len() <= pushed(g, pair).chunks.len(),
        pushed(g, pair).chunks.subrange(0, g.chunks.len() as int) == g.chunks,
{
    let flush = g.size + pair.len() > PREFERRED_CHUNK_SIZE && g.pending.len() > 0;
    let base = if flush {
        gather_flushed(g)
    } else {
        g
    };
    let next = pushed(g, pair);
    assert(next.pending.drop_last() =~= base.pending);
    assert(total_len(next.pending) == total_len(base.pending) + pair.len());
    assert forall|i: int| 0 <= i < next.chunks.len() implies state_within_size(
        #[trigger] next.chunks[i],
    ) by {
        if i < g.chunks.len() {
            assert(next.chunks[i] == g.chunks[i]);
        }
    }
    assert(next.chunks.subrange(0, g.chunks.len() as int) =~= g.chunks);
}

/// Every state chunk keeps to the size: no chunk's entries exceed the
/// preferred size together, unless the chunk has a single entry. And the
/// chunks made stay as more accounts are taken.
pub proof fn lemma_state_size_bound(accounts: Seq<(H256, AccountSpec)>, k: int)
    ensures
        gather_within_size(gathered(accounts, k)),
        gather_within_size(closed(gathered(accounts, k))),
        k > 0 ==> gathered(accounts, k - 1).chunks.len() <= gathered(accounts, k).chunks.len()
            && gathered(accounts, k).chunks.subrange(
            0,
            gathered(accounts, k - 1).chunks.len() as int,
        ) == gathered(accounts, k - 1).chunks,
        gathered(accounts, k).chunks.len() <= closed(gathered(accounts, k)).chunks.len(),
        closed(gathered(accounts, k)).chunks.subrange(
            0,
            gathered(accounts, k).chunks.len() as int,
        ) == gathered(accounts, k).chunks,
    decreases k,
{
    let g = gathered(accounts, k);
    if k > 0 {
        lemma_state_size_bound(accounts, k - 1);
        let before = gathered(accounts, k - 1);
        let pair = account_pair(
            accounts[k - 1].0,
            snappy_compressed(fat_rlp(fat_for(accounts[k - 1].1, before.used))),
        );
        lemma_pushed_within_size(before, pair);
    } else {
        assert(total_len(Seq::<Seq<u8>>::empty()) == 0);
    }
    let c = closed(g);
    assert forall|i: int| 0 <= i < c.chunks.len() implies state_within_size(
        #[trigger] c.chunks[i],
    ) by {
        if i < g.chunks.len() {
            assert(c.chunks[i] == g.chunks[i]);
        }
    }
    assert(total_len(Seq::<Seq<u8>>::empty()) == 0);
    assert(c.chunks.subrange(0, g.chunks.len() as int) =~= g.chunks);
}

/// The chunks made after some accounts are among those made at the end.
pub proof fn lemma_gathered_prefix(accounts: Seq<(H256, AccountSpec)>, k: int, n: int)
    requires
        0 <= k <= n,
    ensures
        gathered(accounts, k).chunks.len() <= closed(gathered(accounts, n)).chunks.len(),
        closed(gathered(accounts, n)).chunks.subrange(
            0,
            gathered(accounts, k).chunks.len() as int,
        ) == gathered(accounts, k).chunks,
    decreases n - k,
{
    lemma_state_size_bound(accounts, n);
    if k < n {
        lemma_gathered_prefix(accounts, k + 1, n);
        lemma_state_size_bound(accounts, k + 1);
        let a = gathered(accounts, k).chunks;
        let b = gathered(accounts, k + 1).chunks;
        let c = closed(gathered(accounts, n)).chunks;
        assert(c.subrange(0, a.len() as int) =~= c.subrange(0, b.len() as int).subrange(
            0,
            a.len() as int,
        ));
    }
}

/// Sealing one more state chunk adds its stored form and its hash at the end.
pub proof fn lemma_seal_state_push(chunks: Seq<Seq<Seq<u8>>>, chunk: Seq<Seq<u8>>)
    ensures
        seal_states(chunks.push(chunk)) == seal_states(chunks).push(
            sealed(state_chunk_rlp(chunk)),
        ),
        keys(seal_states(chunks.push(chunk))) == keys(seal_states(chunks)).push(
            sealed(state_chunk_rlp(chunk)).0,
        ),
        forall|p: ProgressSpec|
            #![trigger noted_states(p, chunks.push(chunk))]
            noted_states(p, chunks.push(chunk)) == accounts_noted(
                noted_states(p, chunks),
                chunk.len() as usize,
                sealed(state_chunk_rlp(chunk)).1.len() as usize,
            ),
{
    assert(seal_states(chunks.push(chunk)) =~= seal_states(chunks).push(
        sealed(state_chunk_rlp(chunk)),
    ));
    assert(keys(seal_states(chunks.push(chunk))) =~= keys(seal_states(chunks)).push(
        sealed(state_chunk_rlp(chunk)).0,
    ));
    assert(chunks.push(chunk).drop_last() =~= chunks);
}

/// Gathers the entries of state chunks while the accounts are walked.
pub struct StateChunker {
    hashes: Vec<H256>,
    rlps: Vec<Vec<u8>>,
    cur_size: usize,
    used_code: SortedMap<bool>,
    chunks: Ghost<Seq<Seq<Seq<u8>>>>,
}

impl StateChunker {
    /// What is gathered and made.
    pub closed spec fn gather(&self) -> Gather {
        Gather {
            pending: views(self.rlps@),
            size: self.cur_size as int,
            chunks: self.chunks@,
            used: self.used_code@.dom(),
        }
    }

    /// The hashes of the chunks made so far.
    pub closed spec fn made(&self) -> Seq<H256> {
        self.hashes@
    }

    /// Nothing gathered means no size counted.
    pub closed spec fn wf(&self) -> bool {
        &&& self.used_code.wf()
        &&& self.rlps@.len() == 0 ==> self.cur_size == 0
    }

    /// A chunker with nothing gathered and nothing made.
    pub fn new() -> (r: StateChunker)
        ensures
            r.wf(),
            r.gather() == gather_start(),
            r.made() == Seq::<H256>::empty(),
    {
        let r = StateChunker {
            hashes: Vec::new(),
            rlps: Vec::new(),
            cur_size: 0,
            used_code: SortedMap::new(),
            chunks: Ghost(Seq::empty()),
        };
        proof {
            assert(views(r.rlps@) =~= Seq::<Seq<u8>>::empty());
            assert(r.used_code@.dom() =~= Set::<H256>::empty());
        }
        r
    }

    /// Hands over the hashes of the chunks made.
    pub fn into_hashes(self) -> (r: Vec<H256>)
        ensures
            r@ == self.made(),
    {
        self.hashes
    }

    /// The fat account that the snapshot carries for `stored`: its code is
    /// carried in full the first time, and noted as carried.
    pub fn fat_account(&mut self, stored: &StoredAccount) -> (r: FatAccount)
        requires
            old(self).wf(),
            stored.storage.wf(),
        ensures
            final(self).wf(),
            r@ == fat_for(stored@, old(self).gather().used),
            final(self).gather() == (Gather {
                used: used_with(stored@, old(self).gather().used),
                ..old(self).gather()
            }),
            final(self).made() == old(self).made(),
    {
        let mut storage: Vec<(H256, Vec<u8>)> = Vec::new();
        let ghost goal = mapped(stored.storage.seq(), bytes_of());
        let mut i: usize = 0;
        while i < stored.storage.len()
            invariant
                i <= stored.storage.seq().len(),
                storage@.len() == i,
                goal == mapped(stored.storage.seq(), bytes_of()),
                forall|j: int| 0 <= j < i ==> #[trigger] storage_views(storage@)[j] == goal[j],
            decreases stored.storage.seq().len() - i,
        {
            let key = stored.storage.key_at(i);
            let value = copy_bytes(stored.storage.value_at(i));
            let ghost before = storage_views(storage@);
            storage.push((key, value));
            proof {
                let after = storage_views(storage@);
                assert forall|j: int| 0 <= j < i + 1 implies #[trigger] after[j] == goal[j] by {
                    if j < i {
                        assert(after[j] == before[j]);
                    }
                }
            }
            i = i + 1;
        }
        proof {
            stored.storage.lemma_seq();
            lemma_mapped(stored.storage.seq(), bytes_of());
            assert(storage_views(storage@) =~= goal);
        }
        let code_hash = stored.account.code_hash;
        let code = if code_hash == sha3_empty() {
            Code::Empty
        } else if self.used_code.contains_key(&code_hash) {
            Code::Hash(code_hash)
        } else {
            match &stored.code {
                Some(c) => {
                    self.used_code.insert(code_hash, true);
                    Code::Inline(copy_bytes(c))
                },
                None => Code::Hash(code_hash),
            }
        };
        proof {
            assert(self.used_code@.dom() =~= used_with(stored@, old(self).gather().used));
        }
        FatAccount { nonce: stored.account.nonce, balance: stored.account.balance, code, storage }
    }

    /// Makes a chunk of what was gathered and writes it out. Fails, and
    /// changes nothing, where the chunk is too large to compress or the sink
    /// refuses it.
    pub fn write_chunk<W: SnapshotWriter>(&mut self, writer: &mut Recorded<W>, progress: &mut Progress) -> (r:
        Result<(), Error>)
        requires
            old(self).wf(),
        ensures
            final(self).wf(),
            final(writer).block_chunks() == old(writer).block_chunks(),
            final(writer).finished() == old(writer).finished(),
            final(writer).refusals() == old(writer).refusals() + (if r is Err
                && r->Err_0 is Io {
                1nat
            } else {
                0nat
            }),
            match r {
                Ok(_) => {
                    let chunk = old(self).gather().pending;
                    &&& compressible(state_chunk_rlp(chunk).len())
                    &&& final(self).gather() == gather_flushed(old(self).gather())
                    &&& final(self).made() == old(self).made().push(
                        sealed(state_chunk_rlp(chunk)).0,
                    )
                    &&& final(writer).state_chunks() == old(writer).state_chunks().push(
                        sealed(state_chunk_rlp(chunk)),
                    )
                    &&& final(progress)@ == accounts_noted(
                        old(progress)@,
                        chunk.len() as usize,
                        sealed(state_chunk_rlp(chunk)).1.len() as usize,
                    )
                },
                Err(e) => {
                    let chunk = old(self).gather().pending;
                    &&& final(self).gather() == old(self).gather()
                    &&& final(self).made() == old(self).made()
                    &&& final(writer).state_chunks() == old(writer).state_chunks()
                    &&& final(progress)@ == old(progress)@
                    &&& match e {
                        Error::TooBig => !compressible(state_chunk_rlp(chunk).len()),
                        Error::Io(_) => compressible(state_chunk_rlp(chunk).len()),
                        _ => false,
                    }
                },
            },
    {
        let num_entries = self.rlps.len();
        let raw_data = list_of(&self.rlps);
        let compressed = match compress(raw_data.as_slice()) {
            Some(c) => c,
            None => {
                return Err(Error::TooBig);
            },
        };
        let hash = keccak(compressed.as_slice());
        match writer.write_state_chunk(hash, compressed.as_slice()) {
            Ok(_) => {},
            Err(e) => {
                return Err(Error::Io(e));
            },
        }
        progress.note_accounts(num_entries, compressed.len());
        let ghost chunk = views(self.rlps@);
        proof {
            lemma_views(self.rlps@);
        }
        self.hashes.push(hash);
        self.rlps = Vec::new();
        self.cur_size = 0;
        self.chunks = Ghost(self.chunks@.push(chunk));
        proof {
            assert(views(self.rlps@) =~= Seq::<Seq<u8>>::empty());
        }
        Ok(())
    }

    /// Takes the entry for one account: the hash of its address and its fat
    /// encoding, compressed. Where the entry would bring what is gathered
    /// over the preferred size, that is written out as a chunk first.
    /// Fails, and changes nothing, where that chunk cannot be written.
    pub fn push<W: SnapshotWriter>(
        &mut self,
        account_hash: H256,
        data: Vec<u8>,
        writer: &mut Recorded<W>,
        progress: &mut Progress,
    ) -> (r: Result<(), Error>)
        requires
            old(self).wf(),
        ensures
            final(self).wf(),
            final(writer).block_chunks() == old(writer).block_chunks(),
            final(writer).finished() == old(writer).finished(),
            final(writer).refusals() == old(writer).refusals() + (if r is Err
                && r->Err_0 is Io {
                1nat
            } else {
                0nat
            }),
            ({
                let pair = account_pair(account_hash, data@);
                let g = old(self).gather();
                let flush = g.size + pair.len() > PREFERRED_CHUNK_SIZE && g.pending.len() > 0;
                match r {
                    Ok(_) => {
                        &&& final(self).gather() == pushed(g, pair)
                        &&& flush ==> {
                            &&& final(writer).state_chunks() == old(writer).state_chunks().push(
                                sealed(state_chunk_rlp(g.pending)),
                            )
                            &&& final(self).made() == old(self).made().push(
                                sealed(state_chunk_rlp(g.pending)).0,
                            )
                            &&& final(progress)@ == accounts_noted(
                                old(progress)@,
                                g.pending.len() as usize,
                                sealed(state_chunk_rlp(g.pending)).1.len() as usize,
                            )
                        }
                        &&& !flush ==> {
                            &&& final(writer).state_chunks() == old(writer).state_chunks()
                            &&& final(self).made() == old(self).made()
                            &&& final(progress)@ == old(progress)@
                        }
                    },
                    Err(e) => {
                        &&& flush
                        &&& final(self).gather() == g
                        &&& final(self).made() == old(self).made()
                        &&& final(writer).state_chunks() == old(writer).state_chunks()
                        &&& final(progress)@ == old(progress)@
                        &&& match e {
                            Error::TooBig => !compressible(state_chunk_rlp(g.pending).len()),
                            Error::Io(_) => true,
                            _ => false,
                        }
                    },
                }
            }),
    {
        let mut items: Vec<Vec<u8>> = Vec::new();
        items.push(encode_hash(&account_hash));
        items.push(string_of(data.as_slice()));
        proof {
            lemma_views(items@);
            assert(views(items@) =~= seq![rlp_hash(account_hash), rlp_str(data@)]);
        }
        let pair = list_of(&items);
        let fits = pair.len() <= PREFERRED_CHUNK_SIZE && self.cur_size <= PREFERRED_CHUNK_SIZE
            - pair.len();
        if !fits && self.rlps.len() > 0 {
            match self.write_chunk(writer, progress) {
                Ok(_) => {},
                Err(e) => {
                    return Err(e);
                },
            }
        }
        proof {
            lemma_views_push(self.rlps@, pair);
        }
        self.cur_size = self.cur_size + pair.len();
        self.rlps.push(pair);
        Ok(())
    }
}

/// Walks the accounts of a state in the order of their keys and writes them
/// out as state chunks; returns the hashes of the chunks, in the order in
/// which they were made. Fails at once where `root` is not the root of the
/// state. The chunks are those that `state_plan` gives, as far as they could
/// be written: all of them on success, fewer where an account or a chunk was
/// too large to compress or the sink failed. Each is written under the hash
/// of its compressed bytes, and no chunk's entries exceed the preferred size
/// together unless it has a single entry.
pub fn chunk_state<W: SnapshotWriter>(
    state: &StateDb,
    root: &H256,
    writer: &mut Recorded<W>,
    progress: &mut Progress,
) -> (r: Result<Vec<H256>, Error>)
    requires
        state.wf(),
    ensures
        final(writer).block_chunks() == old(writer).block_chunks(),
        final(writer).finished() == old(writer).finished(),
        final(writer).refusals() == old(writer).refusals() + (if r is Err && r->Err_0 is Io {
            1nat
        } else {
            0nat
        }),
        *root != state_root_of(state@) ==> {
            &&& r matches Err(Error::InvalidStateRoot(h)) && h == *root
            &&& final(writer).state_chunks() == old(writer).state_chunks()
            &&& final(progress)@ == old(progress)@
        },
        *root == state_root_of(state@) ==> ({
            let plan = state_plan(state@);
            let n = final(writer).state_chunks().len() - old(writer).state_chunks().len();
            &&& 0 <= n <= plan.len()
            &&& final(writer).state_chunks() == old(writer).state_chunks() + seal_states(
                plan.subrange(0, n),
            )
            &&& content_addressed(seal_states(plan.subrange(0, n)))
            &&& forall|i: int| 0 <= i < plan.len() ==> state_within_size(#[trigger] plan[i])
            &&& final(progress)@ == noted_states(old(progress)@, plan.subrange(0, n))
            &&& match r {
                Ok(hashes) => n == plan.len() && hashes@ == keys(seal_states(plan)),
                Err(Error::TooBig) => (n < plan.len() && !compressible(
                    state_chunk_rlp(plan[n]).len(),
                )) || exists|k: int|
                    0 <= k < canonical(state@).len() && #[trigger] account_too_big(
                        canonical(state@),
                        k,
                    ),
                Err(Error::Io(_)) => n < plan.len(),
                Err(_) => false,
            }
        }),
{
    if state.root() != *root {
        return Err(Error::InvalidStateRoot(*root));
    }
    let mut chunker = StateChunker::new();
    let ghost accounts = canonical(state@);
    let ghost log0 = writer.state_chunks();
    let ghost progress0 = progress@;
    let count = state.len();
    proof {
        state.lemma_seq();
        assert(accounts.len() == count);
        assert(seal_states(chunker.chunks@) =~= Seq::<(H256, Seq<u8>)>::empty());
        assert(log0 + seal_states(chunker.chunks@) =~= log0);
        assert(keys(seal_states(chunker.chunks@)) =~= Seq::<H256>::empty());
        lemma_gathered_prefix(accounts, 0, count as int);
        lemma_state_size_bound(accounts, count as int);
    }
    let mut i: usize = 0;
    let mut failure: Option<Error> = None;
    while i < count && failure.is_none()
        invariant
            state.wf(),
            chunker.wf(),
            i <= count,
            count == state.seq().len(),
            accounts == canonical(state@),
            accounts.len() == count,
            failure.is_none() ==> chunker.gather() == gathered(accounts, i as int),
            failure.is_some() ==> i < count && chunker.gather().chunks == gathered(
                accounts,
                i as int,
            ).chunks && (failure.unwrap() is TooBig || failure.unwrap() is Io),
            failure.is_some() && failure.unwrap() is Io ==> chunker.gather().chunks.len()
                < state_plan(state@).len(),
            failure.is_some() && failure.unwrap() is TooBig ==> account_too_big(
                accounts,
                i as int,
            ) || (chunker.gather().chunks.len() < state_plan(state@).len() && !compressible(
                state_chunk_rlp(state_plan(state@)[chunker.gather().chunks.len() as int]).len(),
            )),
            writer.block_chunks() == old(writer).block_chunks(),
            writer.finished() == old(writer).finished(),
            writer.refusals() == old(writer).refusals() + (if failure.is_some()
                && failure.unwrap() is Io {
                1nat
            } else {
                0nat
            }),
            log0 == old(writer).state_chunks(),
            progress0 == old(progress)@,
            writer.state_chunks() == log0 + seal_states(chunker.gather().chunks),
            chunker.made() == keys(seal_states(chunker.gather().chunks)),
            progress@ == noted_states(progress0, chunker.gather().chunks),
        decreases count - i, (if failure.is_none() { 1int } else { 0int }),
    {
        proof {
            state.lemma_seq();
            assert(accounts[i as int] == (state.seq()[i as int].0, state.seq()[i as int].1@));
        }
        let key = state.key_at(i);
        let stored = state.account_at(i);
        let ghost before = chunker.gather();
        let fat = chunker.fat_account(stored);
        let fat_bytes = fat.rlp_bytes();
        match compress(fat_bytes.as_slice()) {
            None => {
                failure = Some(Error::TooBig);
            },
            Some(compressed) => {
                let ghost middle = chunker.gather();
                let ghost pair = account_pair(key, compressed@);
                match chunker.push(key, compressed, writer, progress) {
                    Ok(_) => {
                        proof {
                            assert(chunker.gather() == took(before, key, stored@));
                            if middle.size + pair.len() > PREFERRED_CHUNK_SIZE
                                && middle.pending.len() > 0 {
                                lemma_seal_state_push(middle.chunks, middle.pending);
                            }
                        }
                        i = i + 1;
                    },
                    Err(e) => {
                        proof {
                            let next = gathered(accounts, i + 1);
                            assert(next == took(before, key, stored@));
                            assert(next.chunks.len() == before.chunks.len() + 1);
                            lemma_gathered_prefix(accounts, i + 1, count as int);
                            let plan = state_plan(state@);
                            assert(plan.subrange(0, next.chunks.len() as int)[before.chunks.len() as int]
                                == plan[before.chunks.len() as int]);
                            assert(next.chunks[before.chunks.len() as int] == middle.pending);
                        }
                        failure = Some(e);
                    },
                }
            },
        }
    }
    proof {
        lemma_gathered_prefix(accounts, i as int, count as int);
    }
    match failure {
        Some(e) => {
            return Err(e);
        },
        None => {},
    }
    if chunker.rlps.len() > 0 {
        let ghost before = chunker.gather();
        match chunker.write_chunk(writer, progress) {
            Ok(_) => {},
            Err(e) => {
                proof {
                    let plan = state_plan(state@);
                    assert(plan[before.chunks.len() as int] == before.pending);
                }
                return Err(e);
            },
        }
        proof {
            lemma_seal_state_push(before.chunks, before.pending);
        }
    }
    proof {
        let plan = state_plan(state@);
        assert(plan.subrange(0, plan.len() as int) =~= plan);
    }
    Ok(chunker.into_hashes())
}

} // verus!
