use vstd::prelude::*;
use crate::chain::{BlockChain, ChainSpec};
use crate::compress::{decompress, snappy_decompressed};
use crate::engine::{Engine, Judged};
use crate::error::Error;
use crate::hash::{keccak, keccak_hash, sha3_null_rlp, H256};
use crate::io::{Fetched, SnapshotReader};
use crate::manifest::{ManifestData, ManifestSpec};
use crate::rebuilder::{
    chunk_header, chunk_pairs, fed_outcome, glued, header_readable, outcome_of, reasons_after,
    BlockRebuilder, RebuilderSpec, Record,
};
use crate::sorted_map::{as_map, lemma_canonical, over, SortedMap};
use crate::state::{bytes_of, state_entries, state_root_of, AccountSpec, StateDb};
use crate::state_rebuilder::{
    absorbed, chunk_absorbed, nothing_restored, rebuilt_views, Rebuilt, Restored, StateRebuilder,
};

verus! {

/// A restoration under way, as plain values: the manifest of the snapshot,
/// the state and the chain as far as they are rebuilt, and the hashes of the
/// chunks that are still to come.
pub struct RestorationSpec {
    pub manifest: ManifestSpec,
    pub state: Restored,
    pub blocks: RebuilderSpec,
    pub state_left: Set<H256>,
    pub blocks_left: Set<H256>,
}

/// Whether every chunk that the manifest names was fed.
pub open spec fn all_fed(v: RestorationSpec) -> bool {
    v.state_left == Set::<H256>::empty() && v.blocks_left == Set::<H256>::empty()
}

/// The chain that a restoration ends with: the noted first blocks of chunks
/// are glued to their parents.
pub open spec fn restored_chain(v: RestorationSpec) -> ChainSpec {
    glued(v.blocks.chain, v.blocks.disconnected, v.blocks.disconnected.len() as int)
}

/// Whether a compressed chunk is the one that `hash` names.
pub open spec fn names(hash: H256, chunk: Seq<u8>) -> bool {
    keccak_hash(chunk) == hash
}

/// What holds once the compressed state chunk `chunk` was fed under `hash`
/// with the result `r`. A chunk that is not, or no longer, to come is passed
/// over. One that is not what its hash names is refused, and nothing
/// changes. Else the chunk counts as come; where it cannot be decompressed
/// the state stays as it was, else it is fed to the state as `chunk_absorbed`
/// says.
#[verifier::opaque]
pub open spec fn state_fed(
    before: RestorationSpec,
    after: RestorationSpec,
    hash: H256,
    chunk: Seq<u8>,
    r: Result<(), Error>,
) -> bool {
    &&& after.manifest == before.manifest
    &&& after.blocks == before.blocks
    &&& after.blocks_left == before.blocks_left
    &&& if !before.state_left.contains(hash) {
        r.is_ok() && after == before
    } else if !names(hash, chunk) {
        (r matches Err(Error::Corrupted)) && after == before
    } else {
        &&& after.state_left == before.state_left.remove(hash)
        &&& match snappy_decompressed(chunk) {
            None => (r matches Err(Error::Corrupted)) && after.state == before.state,
            Some(bytes) => chunk_absorbed(before.state, after.state, bytes, r),
        }
    }
}

/// What holds once the compressed block chunk `chunk` was fed under `hash`
/// with the result `r`, where `start` and `end` are what was recorded before
/// and after. A chunk that is not, or no longer, to come is passed over. One
/// that is not what its hash names is refused, and nothing changes. Else the
/// chunk counts as come; where it cannot be decompressed the chain stays as
/// it was, else it is fed to the chain as `chunk_fed` says.
#[verifier::opaque]
pub open spec fn blocks_fed(
    before: RestorationSpec,
    after: RestorationSpec,
    hash: H256,
    chunk: Seq<u8>,
    r: Result<(), Error>,
    start: Record,
    end: Record,
) -> bool {
    &&& after.manifest == before.manifest
    &&& after.state == before.state
    &&& after.state_left == before.state_left
    &&& r.is_err() ==> r.unwrap_err() is Corrupted || r.unwrap_err() is Decoder
        || r.unwrap_err() is Verification || r.unwrap_err() is Random
    &&& if !before.blocks_left.contains(hash) {
        r.is_ok() && after == before && end == start
    } else if !names(hash, chunk) {
        (r matches Err(Error::Corrupted)) && after == before && end == start
    } else {
        &&& after.blocks_left == before.blocks_left.remove(hash)
        &&& match snappy_decompressed(chunk) {
            None => (r matches Err(Error::Corrupted)) && after.blocks == before.blocks && end
                == start,
            Some(bytes) => chunk_fed(
                before.blocks,
                after.blocks,
                bytes,
                outcome_of(r),
                start,
                end,
            ),
        }
    }
}

/// What holds once a restoration ended with the result `r`: it fails if a
/// chunk is still to come; else if the root of the state is not the one that
/// the manifest names; else if an account still waits for its code, with the
/// hashes of the codes that are missing in their order; else if the best
/// block of the glued chain is not the one that the manifest names. Else it
/// hands over the glued chain and the state.
#[verifier::opaque]
pub open spec fn ended(v: RestorationSpec, r: Result<(BlockChain, StateDb), Error>) -> bool {
    if !all_fed(v) {
        r matches Err(Error::MissingChunks)
    } else if v.state.root != v.manifest.state_root {
        r matches Err(Error::InvalidStateRoot(h)) && h == v.manifest.state_root
    } else if v.state.missing.dom() != Set::<H256>::empty() {
        r matches Err(Error::MissingCode(m)) && m@.to_set() == v.state.missing.dom() && forall|
            i: int,
            j: int,
        | 0 <= i < j < m@.len() ==> (#[trigger] m@[i]).less(#[trigger] m@[j])
    } else if restored_chain(v).best != v.manifest.block_hash {
        r matches Err(Error::BlockNotFound(h)) && h == v.manifest.block_hash
    } else {
        r matches Ok((chain, state)) && chain.wf() && state.wf() && chain@ == restored_chain(v)
            && state@ == v.state.accounts
    }
}

/// The state without accounts has the root of the empty trie.
pub proof fn lemma_empty_state_root()
    ensures
        state_root_of(Map::<H256, AccountSpec>::empty()) == sha3_null_rlp(),
{
    let s = Seq::<(H256, AccountSpec)>::empty();
    lemma_canonical(s);
    assert(as_map(s) =~= Map::<H256, AccountSpec>::empty());
    assert(state_entries(s).len() == 0);
}

/// Puts hashes into a table of what is still to come.
fn table_of(hashes: &Vec<H256>) -> (r: SortedMap<bool>)
    ensures
        r.wf(),
        r@.dom() == hashes@.to_set(),
{
    let mut r: SortedMap<bool> = SortedMap::new();
    let mut i: usize = 0;
    assert(r@.dom() =~= hashes@.take(0).to_set());
    while i < hashes.len()
        invariant
            i <= hashes@.len(),
            r.wf(),
            r@.dom() == hashes@.take(i as int).to_set(),
        decreases hashes@.len() - i,
    {
        r.insert(hashes[i], true);
        proof {
            let before = hashes@.take(i as int);
            let after = hashes@.take(i + 1);
            assert(after =~= before.push(hashes@[i as int]));
            assert forall|h: H256| after.to_set().contains(h) <==> before.to_set().insert(
                hashes@[i as int],
            ).contains(h) by {
                if after.contains(h) {
                    let j = choose|j: int| 0 <= j < after.len() && after[j] == h;
                    if j < i {
                        assert(before[j] == h);
                    }
                }
                if before.contains(h) {
                    let j = choose|j: int| 0 <= j < before.len() && before[j] == h;
                    assert(after[j] == h);
                }
                assert(after[i as int] == hashes@[i as int]);
            }
            assert(r@.dom() =~= after.to_set());
        }
        i = i + 1;
    }
    assert(hashes@.take(hashes@.len() as int) =~= hashes@);
    r
}

/// What holds once the decompressed block chunk `bytes` was fed with the
/// outcome `outcome`. Where the chunk has no readable head nothing changes
/// and nothing is asked. Else its entries are fed as the block rebuilder
/// feeds them, up to the first that fails.
#[verifier::opaque]
pub open spec fn chunk_fed(
    before: RebuilderSpec,
    after: RebuilderSpec,
    bytes: Seq<u8>,
    outcome: crate::rebuilder::Outcome,
    start: Record,
    end: Record,
) -> bool {
    if header_readable(bytes) {
        exists|k: int| #[trigger]
            fed_outcome(before, after, chunk_pairs(bytes), chunk_header(bytes), k, outcome, start, end)
    } else {
        &&& outcome is Unreadable
        &&& after == before
        &&& end == start
    }
}

/// Feeds a decompressed block chunk: as the block rebuilder does, without
/// the number of blocks that were fed.
fn feed_bytes<E: Engine>(blocks: &mut BlockRebuilder, bytes: &[u8], engine: &mut Judged<E>) -> (r:
    Result<(), Error>)
    requires
        old(blocks).wf(),
    ensures
        final(blocks).wf(),
        final(blocks)@.best_number == old(blocks)@.best_number,
        final(engine).refusals() == reasons_after(old(engine).refusals(), r),
        r.is_err() ==> r.unwrap_err() is Decoder || r.unwrap_err() is Verification
            || r.unwrap_err() is Random,
        chunk_fed(
            old(blocks)@,
            final(blocks)@,
            bytes@,
            outcome_of(r),
            old(blocks).record(old(engine)),
            final(blocks).record(final(engine)),
        ),
{
    let fed = blocks.feed(bytes, engine);
    proof {
        reveal(chunk_fed);
        if header_readable(bytes@) {
            let k = choose|k: int| #[trigger]
                fed_outcome(
                    old(blocks)@,
                    blocks@,
                    chunk_pairs(bytes@),
                    chunk_header(bytes@),
                    k,
                    outcome_of(fed),
                    old(blocks).record(old(engine)),
                    blocks.record(engine),
                );
            lemma_outcome(
                old(blocks)@,
                blocks@,
                chunk_pairs(bytes@),
                chunk_header(bytes@),
                k,
                outcome_of(fed),
                old(blocks).record(old(engine)),
                blocks.record(engine),
            );
        }
    }
    match fed {
        Ok(_) => Ok(()),
        Err(e) => Err(e),
    }
}

/// A feeding ends in one of the four ways that are told apart, and leaves
/// the number of the block that is to become the best block as it was.
proof fn lemma_outcome(
    before: RebuilderSpec,
    after: RebuilderSpec,
    pairs: Seq<Seq<u8>>,
    h: crate::rebuilder::ChunkHeader,
    k: int,
    outcome: crate::rebuilder::Outcome,
    start: Record,
    end: Record,
)
    requires
        fed_outcome(before, after, pairs, h, k, outcome, start, end),
    ensures
        !(outcome is Other),
        after.best_number == before.best_number,
{
    let samples = choose|samples: Seq<u32>| #[trigger]
        crate::rebuilder::fed_with(before, after, pairs, h, k, outcome, start, end, samples);
    lemma_fed_best_number(before, pairs, h, k);
}

/// Feeding blocks leaves the number of the block that is to become the best
/// block as it was.
proof fn lemma_fed_best_number(
    before: RebuilderSpec,
    pairs: Seq<Seq<u8>>,
    h: crate::rebuilder::ChunkHeader,
    k: int,
)
    requires
        0 <= k <= pairs.len(),
    ensures
        crate::rebuilder::fed(before, pairs, h, k).best_number == before.best_number,
    decreases k,
{
    reveal(crate::rebuilder::fed);
    if k > 0 {
        lemma_fed_best_number(before, pairs, h, k - 1);
        reveal(crate::rebuilder::block_fed);
    }
}

/// The restoration of one snapshot: takes the compressed chunks that the
/// manifest names, each once and in any order, and in the end hands over the
/// chain and the state.
pub struct Restoration {
    manifest: ManifestData,
    state: StateRebuilder,
    blocks: BlockRebuilder,
    state_left: SortedMap<bool>,
    blocks_left: SortedMap<bool>,
}

impl View for Restoration {
    type V = RestorationSpec;

    closed spec fn view(&self) -> RestorationSpec {
        RestorationSpec {
            manifest: self.manifest@,
            state: self.state@,
            blocks: self.blocks@,
            state_left: self.state_left@.dom(),
            blocks_left: self.blocks_left@.dom(),
        }
    }
}

impl Restoration {
    /// The parts are in order, the root is that of the accounts, and the
    /// block that is to become the best block is the one of the manifest.
    pub closed spec fn wf(&self) -> bool {
        &&& self.state.wf()
        &&& self.blocks.wf()
        &&& self.state_left.wf()
        &&& self.blocks_left.wf()
        &&& self.state@.root == state_root_of(self.state@.accounts)
        &&& self.blocks@.best_number == self.manifest@.block_number
    }

    /// What holds of every restoration that is in order.
    pub proof fn lemma_wf(&self)
        requires
            self.wf(),
        ensures
            self@.state.root == state_root_of(self@.state.accounts),
            self@.blocks.best_number == self@.manifest.block_number,
    {
    }

    /// The samples drawn so far for deciding which seals to check.
    pub closed spec fn drawn(&self) -> Seq<Option<u32>> {
        self.blocks.drawn()
    }

    /// What was recorded so far: by the engine, and of the samples drawn.
    pub open spec fn record<E: Engine>(&self, engine: &Judged<E>) -> Record {
        Record {
            basic: engine.basic_verdicts(),
            seal: engine.seal_verdicts(),
            draws: self.drawn(),
        }
    }

    /// Begins the restoration of the snapshot with this manifest into
    /// `chain`: no account yet, no block fed, every chunk still to come.
    pub fn new(manifest: ManifestData, chain: BlockChain) -> (r: Restoration)
        requires
            chain.wf(),
        ensures
            r.wf(),
            r@ == (RestorationSpec {
                manifest: manifest@,
                state: nothing_restored(),
                blocks: RebuilderSpec {
                    chain: chain@,
                    disconnected: Seq::empty(),
                    best_number: manifest.block_number,
                },
                state_left: manifest@.state_hashes.to_set(),
                blocks_left: manifest@.block_hashes.to_set(),
            }),
            r.drawn() == Seq::<Option<u32>>::empty(),
    {
        let state_left = table_of(&manifest.state_hashes);
        let blocks_left = table_of(&manifest.block_hashes);
        let blocks = BlockRebuilder::new(chain, manifest.block_number).unwrap();
        proof {
            lemma_empty_state_root();
        }
        Restoration {
            manifest: manifest,
            state: StateRebuilder::new(),
            blocks: blocks,
            state_left: state_left,
            blocks_left: blocks_left,
        }
    }

    /// The manifest of the snapshot.
    pub fn manifest(&self) -> (r: &ManifestData)
        ensures
            r@ == self@.manifest,
    {
        &self.manifest
    }

    /// Whether every chunk that the manifest names was fed.
    pub fn is_done(&self) -> (r: bool)
        requires
            self.wf(),
        ensures
            r == all_fed(self@),
    {
        proof {
            self.state_left.lemma_seq();
            self.blocks_left.lemma_seq();
            if self.state_left.seq().len() == 0 {
                assert(self@.state_left =~= Set::<H256>::empty());
            } else {
                assert(self@.state_left.contains(self.state_left.seq()[0].0));
            }
            if self.blocks_left.seq().len() == 0 {
                assert(self@.blocks_left =~= Set::<H256>::empty());
            } else {
                assert(self@.blocks_left.contains(self.blocks_left.seq()[0].0));
            }
        }
        self.state_left.len() == 0 && self.blocks_left.len() == 0
    }

    /// Opens the compressed state chunk that `hash` names, for a caller that
    /// rebuilds the accounts itself, in shares, and hands them to
    /// `absorb_state`. Nothing comes back for a chunk that is not, or no
    /// longer, to come. One that is not what its hash names is refused, and
    /// nothing changes. Else the chunk counts as come, and is decompressed.
    pub fn open_state(&mut self, hash: H256, chunk: &[u8]) -> (r: Result<Option<Vec<u8>>, Error>)
        requires
            old(self).wf(),
        ensures
            final(self).wf(),
            final(self)@.manifest == old(self)@.manifest,
            final(self)@.state == old(self)@.state,
            final(self)@.blocks == old(self)@.blocks,
            final(self)@.blocks_left == old(self)@.blocks_left,
            final(self).drawn() == old(self).drawn(),
            !old(self)@.state_left.contains(hash) ==> (r matches Ok(None)) && final(self)@ == old(self)@,
            old(self)@.state_left.contains(hash) && !names(hash, chunk@) ==> (r matches Err(
                Error::Corrupted,
            )) && final(self)@ == old(self)@,
            old(self)@.state_left.contains(hash) && names(hash, chunk@) ==> {
                &&& final(self)@.state_left == old(self)@.state_left.remove(hash)
                &&& match snappy_decompressed(chunk@) {
                    None => r matches Err(Error::Corrupted),
                    Some(bytes) => r matches Ok(Some(v)) && v@ == bytes,
                }
            },
    {
        if !self.state_left.contains_key(&hash) {
            return Ok(None);
        }
        if keccak(chunk) != hash {
            return Err(Error::Corrupted);
        }
        self.state_left.remove(&hash);
        match decompress(chunk) {
            Some(v) => Ok(Some(v)),
            None => Err(Error::Corrupted),
        }
    }

    /// The codes at hand, by their hashes.
    pub fn code_map(&self) -> (r: &SortedMap<Vec<u8>>)
        requires
            self.wf(),
        ensures
            r.wf(),
            over(r@, bytes_of()) == self@.state.code_map,
    {
        self.state.code_map()
    }

    /// Takes the rebuilt accounts of a state chunk in: see `absorbed`.
    pub fn absorb_state(&mut self, outs: Vec<Rebuilt>)
        requires
            old(self).wf(),
            forall|i: int| 0 <= i < outs@.len() ==> (#[trigger] outs@[i]).stored.storage.wf(),
        ensures
            final(self).wf(),
            final(self)@ == (RestorationSpec {
                state: absorbed(old(self)@.state, rebuilt_views(outs@)),
                ..old(self)@
            }),
            final(self).drawn() == old(self).drawn(),
    {
        self.state.absorb(outs);
    }

    /// Feeds the compressed state chunk that `hash` names. A chunk that is
    /// not, or no longer, to come is passed over. One that is not what its
    /// hash names is refused, and nothing changes. Else the chunk counts as
    /// come; it is decompressed, and its accounts are taken in: where that
    /// fails the state stays as it was.
    pub fn feed_state(&mut self, hash: H256, chunk: &[u8]) -> (r: Result<(), Error>)
        requires
            old(self).wf(),
        ensures
            final(self).wf(),
            final(self)@.manifest == old(self)@.manifest,
            final(self)@.blocks == old(self)@.blocks,
            final(self)@.blocks_left == old(self)@.blocks_left,
            final(self).drawn() == old(self).drawn(),
            r.is_err() ==> r.unwrap_err() is Corrupted || r.unwrap_err() is Decoder
                || r.unwrap_err() is UnrecognizedCodeState,
            state_fed(old(self)@, final(self)@, hash, chunk@, r),
    {
        proof {
            reveal(state_fed);
        }
        match self.open_state(hash, chunk) {
            Ok(Some(bytes)) => self.state.feed(bytes.as_slice()),
            Ok(None) => Ok(()),
            Err(e) => Err(e),
        }
    }

    /// Feeds the compressed block chunk that `hash` names. A chunk that is
    /// not, or no longer, to come is passed over. One that is not what its
    /// hash names is refused, and nothing changes. Else the chunk counts as
    /// come; it is decompressed, and its blocks are fed to the chain as the
    /// block rebuilder feeds them, with the engine asked about each.
    pub fn feed_blocks<E: Engine>(&mut self, hash: H256, chunk: &[u8], engine: &mut Judged<E>) -> (r:
        Result<(), Error>)
        requires
            old(self).wf(),
        ensures
            final(self).wf(),
            final(self)@.manifest == old(self)@.manifest,
            final(self)@.state == old(self)@.state,
            final(self)@.state_left == old(self)@.state_left,
            final(engine).refusals() == reasons_after(old(engine).refusals(), r),
            r.is_err() ==> r.unwrap_err() is Corrupted || r.unwrap_err() is Decoder
                || r.unwrap_err() is Verification || r.unwrap_err() is Random,
            blocks_fed(
                old(self)@,
                final(self)@,
                hash,
                chunk@,
                r,
                old(self).record(old(engine)),
                final(self).record(final(engine)),
            ),
    {
        proof {
            reveal(blocks_fed);
        }
        if !self.blocks_left.contains_key(&hash) {
            return Ok(());
        }
        if keccak(chunk) != hash {
            return Err(Error::Corrupted);
        }
        self.blocks_left.remove(&hash);
        let bytes = match decompress(chunk) {
            Some(v) => v,
            None => {
                return Err(Error::Corrupted);
            },
        };
        feed_bytes(&mut self.blocks, bytes.as_slice(), engine)
    }

    /// Ends the restoration. Fails if a chunk is still to come; else if the
    /// root of the state is not the one that the manifest names; else if an
    /// account still waits for its code, with the hashes of the codes that
    /// are missing in their order; else, once the chunks are glued, if the
    /// best block is not the one that the manifest names. Else hands over
    /// the chain and the state.
    pub fn finalize(self) -> (r: Result<(BlockChain, StateDb), Error>)
        requires
            self.wf(),
        ensures
            ended(self@, r),
            r is Err ==> r->Err_0 is MissingChunks || r->Err_0 is InvalidStateRoot
                || r->Err_0 is MissingCode || r->Err_0 is BlockNotFound,
            (r matches Ok((chain, state)) ==> chain.wf() && state.wf() && chain@.best == self@.manifest.block_hash
                && state_root_of(state@) == self@.manifest.state_root),
    {
        proof {
            reveal(ended);
        }
        if !self.is_done() {
            return Err(Error::MissingChunks);
        }
        if self.state.state_root() != self.manifest.state_root {
            return Err(Error::InvalidStateRoot(self.manifest.state_root));
        }
        let wanted = self.manifest.block_hash;
        let state = match self.state.check_missing() {
            Ok(db) => db,
            Err(e) => {
                proof {
                    if e is MissingCode {
                        let m = e->MissingCode_0;
                        assert(m@.to_set().contains(m@[0]));
                    }
                }
                return Err(e);
            },
        };
        let chain = self.blocks.glue_chunks();
        if chain.best_block_hash() != wanted {
            return Err(Error::BlockNotFound(wanted));
        }
        Ok((chain, state))
    }
}

/// The hashes of all chunks that a manifest names: those of the state
/// chunks, then those of the block chunks.
pub open spec fn wanted_chunks(m: ManifestSpec) -> Seq<H256> {
    m.state_hashes + m.block_hashes
}

/// A restoration that has just begun: no account yet, no block fed, every
/// chunk of the manifest still to come.
pub open spec fn begun(m: ManifestSpec, chain: ChainSpec) -> RestorationSpec {
    RestorationSpec {
        manifest: m,
        state: nothing_restored(),
        blocks: RebuilderSpec {
            chain: chain,
            disconnected: Seq::empty(),
            best_number: m.block_number,
        },
        state_left: m.state_hashes.to_set(),
        blocks_left: m.block_hashes.to_set(),
    }
}

/// What holds once chunk `i` of those that the manifest names was fed: a
/// state chunk where `i` counts among the state chunks, a block chunk else.
pub open spec fn fed_one(
    m: ManifestSpec,
    before: RestorationSpec,
    after: RestorationSpec,
    i: int,
    chunk: Seq<u8>,
    r: Result<(), Error>,
    start: Record,
    end: Record,
) -> bool {
    if i < m.state_hashes.len() {
        state_fed(before, after, wanted_chunks(m)[i], chunk, r) && end == start
    } else {
        blocks_fed(before, after, wanted_chunks(m)[i], chunk, r, start, end)
    }
}

/// Whether `trace` and `records` tell how `chunks` were fed one after the
/// other, each under the hash that the manifest has at its place: the
/// restoration, and what was recorded, before the first chunk and after
/// each. Every chunk but the last was fed with success, the last with the
/// result `last`.
#[verifier::opaque]
pub open spec fn fed_through(
    m: ManifestSpec,
    trace: Seq<RestorationSpec>,
    records: Seq<Record>,
    chunks: Seq<Seq<u8>>,
    last: Result<(), Error>,
) -> bool {
    &&& chunks.len() <= wanted_chunks(m).len()
    &&& trace.len() == chunks.len() + 1
    &&& records.len() == chunks.len() + 1
    &&& chunks.len() == 0 ==> last.is_ok()
    &&& forall|i: int|
        0 <= i < chunks.len() ==> fed_one(
            m,
            trace[i],
            trace[i + 1],
            i,
            #[trigger] chunks[i],
            if i + 1 < chunks.len() {
                Ok(())
            } else {
                last
            },
            records[i],
            records[i + 1],
        )
}

/// The chunks that a source gave, where it gave one each time.
pub open spec fn chunks_given(answers: Seq<Option<Seq<u8>>>) -> Seq<Seq<u8>> {
    Seq::new(
        answers.len(),
        |i: int|
            match answers[i] {
                Some(bytes) => bytes,
                None => Seq::empty(),
            },
    )
}

/// What holds of a restoration from a source, told by `trace`, `records`
/// and `last`: see `restored`.
pub open spec fn restored_by(
    m: ManifestSpec,
    chain: ChainSpec,
    answers: Seq<Option<Seq<u8>>>,
    start: Record,
    end: Record,
    r: Result<(BlockChain, StateDb), Error>,
    trace: Seq<RestorationSpec>,
    records: Seq<Record>,
    last: Result<(), Error>,
) -> bool {
    let failed = answers.len() > 0 && answers.last().is_none();
    let given = if failed {
        answers.drop_last()
    } else {
        answers
    };
    &&& forall|i: int| 0 <= i < given.len() ==> (#[trigger] given[i]).is_some()
    &&& fed_through(m, trace, records, chunks_given(given), last)
    &&& trace[0] == begun(m, chain)
    &&& records[0] == start
    &&& records.last().basic == end.basic
    &&& records.last().seal == end.seal
    &&& if failed {
        last.is_ok() && r matches Err(Error::Io(_))
    } else if last.is_err() {
        r is Err && r->Err_0 == last->Err_0 && !(r->Err_0 is Io)
    } else {
        given.len() == wanted_chunks(m).len() && ended(trace.last(), r)
    }
}

/// What holds once a snapshot with the manifest `m` was restored into
/// `chain` with the result `r`, where `answers` is what the source gave for
/// the chunks that it was asked for, in order, and `start` and `end` are
/// what the engine had recorded before and after.
///
/// The restoration begins as `begun` says. Each chunk that the source gave
/// was fed under the hash that the manifest has at its place, as `state_fed`
/// and `blocks_fed` say, the next only after the last was fed with success.
/// Where the source failed to give a chunk, the result is that failure.
/// Where a chunk could not be fed, the result is the error of that feeding,
/// and no further chunk was asked for. Else every chunk was fed, and the
/// result is what ending the restoration gives: see `ended`.
pub open spec fn restored(
    m: ManifestSpec,
    chain: ChainSpec,
    answers: Seq<Option<Seq<u8>>>,
    start: Record,
    end: Record,
    r: Result<(BlockChain, StateDb), Error>,
) -> bool {
    exists|trace: Seq<RestorationSpec>, records: Seq<Record>, last: Result<(), Error>| #[trigger]
        restored_by(m, chain, answers, start, end, r, trace, records, last)
}

/// What an engine has recorded, without the samples.
pub open spec fn end_of<E: Engine>(engine: &Judged<E>) -> Record {
    Record { basic: engine.basic_verdicts(), seal: engine.seal_verdicts(), draws: Seq::empty() }
}

/// Before the first chunk nothing is to tell.
proof fn lemma_fed_begin(m: ManifestSpec, v: RestorationSpec, start: Record)
    ensures
        fed_through(m, seq![v], seq![start], Seq::empty(), Ok(())),
{
    reveal(fed_through);
}

/// One more chunk fed carries the tale on.
proof fn lemma_fed_push(
    m: ManifestSpec,
    trace: Seq<RestorationSpec>,
    records: Seq<Record>,
    chunks: Seq<Seq<u8>>,
    after: RestorationSpec,
    end: Record,
    chunk: Seq<u8>,
    r: Result<(), Error>,
)
    requires
        fed_through(m, trace, records, chunks, Ok(())),
        chunks.len() < wanted_chunks(m).len(),
        fed_one(m, trace.last(), after, chunks.len() as int, chunk, r, records.last(), end),
    ensures
        fed_through(m, trace.push(after), records.push(end), chunks.push(chunk), r),
        r.is_ok() ==> fed_through(
            m,
            trace.push(after),
            records.push(end),
            chunks.push(chunk),
            Ok(()),
        ),
        trace.len() == chunks.len() + 1,
        records.len() == chunks.len() + 1,
{
    reveal(fed_through);
    if r.is_ok() {
        reveal(state_fed);
        reveal(blocks_fed);
        reveal(chunk_fed);
        assert(fed_one(
            m,
            trace.last(),
            after,
            chunks.len() as int,
            chunk,
            Ok(()),
            records.last(),
            end,
        ));
    }
    let trace2 = trace.push(after);
    let records2 = records.push(end);
    let chunks2 = chunks.push(chunk);
    assert forall|i: int| 0 <= i < chunks2.len() implies fed_one(
        m,
        trace2[i],
        trace2[i + 1],
        i,
        #[trigger] chunks2[i],
        if i + 1 < chunks2.len() {
            Ok(())
        } else {
            r
        },
        records2[i],
        records2[i + 1],
    ) by {
        if i < chunks.len() {
            assert(chunks2[i] == chunks[i]);
            assert(trace2[i] == trace[i] && trace2[i + 1] == trace[i + 1]);
            assert(records2[i] == records[i] && records2[i + 1] == records[i + 1]);
        }
    }
}

/// The answers of a source that gave these chunks, one for each question.
pub open spec fn all_given(chunks: Seq<Seq<u8>>) -> Seq<Option<Seq<u8>>> {
    chunks.map_values(|c: Seq<u8>| Some(c))
}

/// The tale of a restoration that ended because the source failed.
proof fn lemma_source_failed(
    m: ManifestSpec,
    chain: ChainSpec,
    chunks: Seq<Seq<u8>>,
    start: Record,
    end: Record,
    r: Result<(BlockChain, StateDb), Error>,
    trace: Seq<RestorationSpec>,
    records: Seq<Record>,
)
    requires
        fed_through(m, trace, records, chunks, Ok(())),
        trace.len() == chunks.len() + 1,
        records.len() == chunks.len() + 1,
        trace[0] == begun(m, chain),
        records[0] == start,
        records.last().basic == end.basic,
        records.last().seal == end.seal,
        r matches Err(Error::Io(_)),
    ensures
        restored(m, chain, all_given(chunks).push(None), start, end, r),
{
    let answers = all_given(chunks).push(None);
    assert(answers.drop_last() =~= all_given(chunks));
    assert(chunks_given(all_given(chunks)) =~= chunks);
    assert(restored_by(m, chain, answers, start, end, r, trace, records, Ok(())));
}

/// The tale of a restoration that ended because a chunk could not be fed.
proof fn lemma_feed_failed(
    m: ManifestSpec,
    chain: ChainSpec,
    chunks: Seq<Seq<u8>>,
    start: Record,
    end: Record,
    r: Result<(BlockChain, StateDb), Error>,
    trace: Seq<RestorationSpec>,
    records: Seq<Record>,
    last: Result<(), Error>,
)
    requires
        fed_through(m, trace, records, chunks, last),
        chunks.len() > 0,
        trace.len() == chunks.len() + 1,
        records.len() == chunks.len() + 1,
        trace[0] == begun(m, chain),
        records[0] == start,
        records.last().basic == end.basic,
        records.last().seal == end.seal,
        last is Err,
        r is Err,
        r->Err_0 == last->Err_0,
        !(r->Err_0 is Io),
    ensures
        restored(m, chain, all_given(chunks), start, end, r),
{
    let answers = all_given(chunks);
    assert(answers.last().is_some());
    assert(chunks_given(answers) =~= chunks);
    assert(restored_by(m, chain, answers, start, end, r, trace, records, last));
}

/// The tale of a restoration that was ended once every chunk was fed.
proof fn lemma_all_fed(
    m: ManifestSpec,
    chain: ChainSpec,
    chunks: Seq<Seq<u8>>,
    start: Record,
    end: Record,
    r: Result<(BlockChain, StateDb), Error>,
    trace: Seq<RestorationSpec>,
    records: Seq<Record>,
)
    requires
        fed_through(m, trace, records, chunks, Ok(())),
        chunks.len() == wanted_chunks(m).len(),
        trace.len() == chunks.len() + 1,
        records.len() == chunks.len() + 1,
        trace[0] == begun(m, chain),
        records[0] == start,
        records.last().basic == end.basic,
        records.last().seal == end.seal,
        ended(trace.last(), r),
    ensures
        restored(m, chain, all_given(chunks), start, end, r),
{
    let answers = all_given(chunks);
    if chunks.len() > 0 {
        assert(answers.last().is_some());
    }
    assert(chunks_given(answers) =~= chunks);
    assert(restored_by(m, chain, answers, start, end, r, trace, records, Ok(())));
}

/// Restores the snapshot of a source into `chain`: asks the source for its
/// manifest, then for each chunk that the manifest names, the state chunks
/// first, and feeds each as it comes; then ends the restoration. Stops at
/// the first chunk that the source cannot give or that cannot be fed: the
/// error is `Io` if and only if the source failed, else it is the error of
/// the feeding. What the restoration has made of the chunks that the source
/// gave, and what the result is where all were fed, `restored` says. On
/// success every chunk was asked for, the best block of the chain is the
/// block that the manifest names, and the root of the state is the root that
/// it names.
pub fn restore_using<R: SnapshotReader, E: Engine>(
    reader: &mut Fetched<R>,
    chain: BlockChain,
    engine: &mut Judged<E>,
) -> (r: Result<(BlockChain, StateDb), Error>)
    requires
        chain.wf(),
    ensures
        final(reader).manifests().len() == old(reader).manifests().len() + 1,
        final(reader).manifests() == old(reader).manifests().push(
            final(reader).manifests().last(),
        ),
        ({
            let m = final(reader).manifests().last();
            let all = wanted_chunks(m);
            let n = final(reader).asked().len() - old(reader).asked().len();
            &&& 0 <= n <= all.len()
            &&& final(reader).asked() == old(reader).asked() + all.take(n)
            &&& final(reader).answers().len() == old(reader).answers().len() + n
            &&& r.is_ok() ==> n == all.len()
            &&& final(reader).failures() == old(reader).failures() + (if r matches Err(
                Error::Io(_),
            ) {
                1nat
            } else {
                0nat
            })
            &&& restored(
                m,
                chain@,
                final(reader).answers().skip(old(reader).answers().len() as int),
                Record {
                    basic: old(engine).basic_verdicts(),
                    seal: old(engine).seal_verdicts(),
                    draws: Seq::empty(),
                },
                end_of(final(engine)),
                r,
            )
            &&& (r matches Ok((c, s)) ==> c.wf() && s.wf() && c@.best == m.block_hash
                && state_root_of(s@) == m.state_root)
        }),
{
    let manifest = reader.manifest();
    let ghost m = manifest@;
    let ghost all = wanted_chunks(m);
    let ghost asked0 = reader.asked();
    let ghost answers0 = reader.answers();
    let ghost failed0 = reader.failures();
    let ghost told = reader.manifests();
    let ghost start = Record {
        basic: engine.basic_verdicts(),
        seal: engine.seal_verdicts(),
        draws: Seq::empty(),
    };
    let states = manifest.state_hashes.len();
    let mut hashes = crate::manifest::copy_hashes(&manifest.state_hashes);
    let mut k: usize = 0;
    while k < manifest.block_hashes.len()
        invariant
            k <= manifest.block_hashes@.len(),
            hashes@ == manifest.state_hashes@ + manifest.block_hashes@.take(k as int),
        decreases manifest.block_hashes@.len() - k,
    {
        hashes.push(manifest.block_hashes[k]);
        k = k + 1;
        assert(hashes@ =~= manifest.state_hashes@ + manifest.block_hashes@.take(k as int));
    }
    assert(hashes@ =~= all) by {
        assert(manifest.block_hashes@.take(manifest.block_hashes@.len() as int)
            =~= manifest.block_hashes@);
    }
    let mut restoration = Restoration::new(manifest, chain);
    let ghost mut trace: Seq<RestorationSpec> = seq![restoration@];
    let ghost mut records: Seq<Record> = seq![start];
    let ghost mut chunks: Seq<Seq<u8>> = Seq::empty();
    let mut i: usize = 0;
    proof {
        assert(told == old(reader).manifests().push(m));
        assert(told.last() == m);
        assert(asked0 + all.take(0) =~= asked0);
        assert(answers0 + all_given(chunks) =~= answers0);
        lemma_fed_begin(m, restoration@, start);
    }
    while i < hashes.len()
        invariant
            i <= hashes@.len(),
            hashes@ == all,
            all == wanted_chunks(m),
            states == m.state_hashes.len(),
            restoration.wf(),
            restoration@.manifest == m,
            reader.manifests() == told,
            told == old(reader).manifests().push(m),
            asked0 == old(reader).asked(),
            answers0 == old(reader).answers(),
            failed0 == old(reader).failures(),
            reader.failures() == failed0,
            reader.asked() == asked0 + all.take(i as int),
            reader.answers() == answers0 + all_given(chunks),
            chunks.len() == i,
            fed_through(m, trace, records, chunks, Ok(())),
            trace.len() == i + 1,
            records.len() == i + 1,
            trace[0] == begun(m, chain@),
            trace.last() == restoration@,
            records[0] == start,
            start == (Record {
                basic: old(engine).basic_verdicts(),
                seal: old(engine).seal_verdicts(),
                draws: Seq::empty(),
            }),
            records.last() == restoration.record(engine),
        decreases hashes@.len() - i,
    {
        let hash = hashes[i];
        proof {
            assert(all.take(i + 1) =~= all.take(i as int).push(hash));
            assert(asked0 + all.take(i + 1) =~= (asked0 + all.take(i as int)).push(hash));
        }
        let chunk = match reader.chunk(hash) {
            Ok(v) => v,
            Err(e) => {
                proof {
                    let got = all_given(chunks).push(None);
                    assert(reader.answers() =~= answers0 + got);
                    assert(reader.answers().skip(answers0.len() as int) =~= got);
                    lemma_source_failed(
                        m,
                        chain@,
                        chunks,
                        start,
                        end_of(engine),
                        Err(Error::Io(e)),
                        trace,
                        records,
                    );
                }
                return Err(Error::Io(e));
            },
        };
        let fed = if i < states {
            restoration.feed_state(hash, chunk.as_slice())
        } else {
            restoration.feed_blocks(hash, chunk.as_slice(), engine)
        };
        proof {
            lemma_fed_push(
                m,
                trace,
                records,
                chunks,
                restoration@,
                restoration.record(engine),
                chunk@,
                fed,
            );
            assert(all_given(chunks.push(chunk@)) =~= all_given(chunks).push(Some(chunk@)));
            trace = trace.push(restoration@);
            records = records.push(restoration.record(engine));
            chunks = chunks.push(chunk@);
            assert(reader.answers() =~= answers0 + all_given(chunks));
        }
        match fed {
            Ok(_) => {},
            Err(e) => {
                proof {
                    assert(reader.answers().skip(answers0.len() as int) =~= all_given(chunks));
                    lemma_feed_failed(
                        m,
                        chain@,
                        chunks,
                        start,
                        end_of(engine),
                        Err(e),
                        trace,
                        records,
                        fed,
                    );
                }
                return Err(e);
            },
        }
        i = i + 1;
    }
    proof {
        assert(all.take(all.len() as int) =~= all);
        restoration.lemma_wf();
    }
    let ghost end = end_of(engine);
    let r = restoration.finalize();
    proof {
        assert(reader.answers().skip(answers0.len() as int) =~= all_given(chunks));
        lemma_all_fed(m, chain@, chunks, start, end, r, trace, records);
    }
    r
}

/// A snapshot that is restored with success comes back as it was taken:
/// where the manifest names the block `block_at` and the root of the state
/// `state`, as the manifest of a snapshot taken at that block of that state
/// does, and a restoration with this manifest ends with success, the best
/// block of the chain that it hands over is `block_at`, and the root of the
/// state that it hands over is the root of `state`. Whether a restoration
/// ends with success is not said here.
pub proof fn lemma_restored_as_taken(
    block_at: H256,
    state: Map<H256, AccountSpec>,
    v: RestorationSpec,
    r: Result<(BlockChain, StateDb), Error>,
)
    requires
        v.manifest.block_hash == block_at,
        v.manifest.state_root == state_root_of(state),
        v.state.root == state_root_of(v.state.accounts),
        ended(v, r),
        r is Ok,
    ensures
        r->Ok_0.0@.best == block_at,
        state_root_of(r->Ok_0.1@) == state_root_of(state),
{
    reveal(ended);
}

} // verus!
