use vstd::prelude::*;
use crate::block::{
    block_rlp, expandable, expanded, header_hash, lemma_expanded_link, AbridgedBlock, Block,
    BlockSpec,
};
use crate::chain::{
    add_child_spec, cut_off, insert_spec, lemma_insert_keeps, BlockChain, ChainSpec,
};
use crate::codec::{
    covered, framed, hash_at, is_framed, lemma_views, list_at, list_items, number_at, raw_at, rlp_hash_at,
    rlp_item_seq, rlp_list_at, rlp_raw_at, rlp_u64_at, rlp_uint_at, uint_at, views,
};
use crate::engine::{BasicVerdict, Engine, Judged, SealVerdict};
use crate::error::{DecodeError, Error};
use crate::hash::H256;
use crate::uint::U256;

verus! {

/// The largest sample for which the seal of a block is checked: about one
/// sample in fifty is at most this.
pub const POW_VERIFY_THRESHOLD: u32 = 85899345;

/// Whether a block with this sample has its seal checked.
pub open spec fn seal_checked(sample: u32) -> bool {
    sample <= POW_VERIFY_THRESHOLD
}

/// Decides from a sample whether a block has its seal checked.
pub fn check_seal(sample: u32) -> (r: bool)
    ensures
        r == seal_checked(sample),
{
    sample <= POW_VERIFY_THRESHOLD
}

/// `OsRng::try_fill_bytes` of the `rand` crate for four bytes, which are
/// read as one number; nothing where the operating system gives none.
#[verifier::external_body]
fn os_random() -> (r: Option<u32>) {
    let mut bytes = [0u8; 4];
    match rand::RngCore::try_fill_bytes(&mut rand::rngs::OsRng, &mut bytes) {
        Ok(_) => Some(u32::from_le_bytes(bytes)),
        Err(_) => None,
    }
}

/// What a block chunk says of the parent of its first block.
pub struct ChunkHeader {
    pub parent_number: u64,
    pub parent_hash: H256,
    pub parent_total_difficulty: U256,
}

/// Whether the three leading items of a block chunk can be read, and the
/// chunk is a list that its head and its items cover.
pub open spec fn header_readable(chunk: Seq<u8>) -> bool {
    rlp_u64_at(chunk, 0).is_some() && rlp_hash_at(chunk, 1).is_some() && rlp_uint_at(
        chunk,
        2,
    ).is_some() && covered(chunk)
}

/// The three leading items of a block chunk.
pub open spec fn chunk_header(chunk: Seq<u8>) -> ChunkHeader {
    ChunkHeader {
        parent_number: rlp_u64_at(chunk, 0).unwrap(),
        parent_hash: rlp_hash_at(chunk, 1).unwrap(),
        parent_total_difficulty: rlp_uint_at(chunk, 2).unwrap(),
    }
}

/// The entries of a block chunk: its items from the fourth on.
pub open spec fn chunk_pairs(chunk: Seq<u8>) -> Seq<Seq<u8>> {
    let items = rlp_item_seq(chunk);
    if items.len() >= 3 {
        items.subrange(3, items.len() as int)
    } else {
        Seq::empty()
    }
}

/// Whether an entry can be read: it is a list of two items, an abridged
/// block whose fields can be read, and a list of receipts.
#[verifier::opaque]
pub open spec fn pair_readable(pair: Seq<u8>) -> bool {
    &&& framed(pair, 2)
    &&& rlp_raw_at(pair, 0).is_some()
    &&& rlp_list_at(pair, 1).is_some()
    &&& expandable(rlp_raw_at(pair, 0).unwrap())
}

/// The block of an entry under the given parent hash and number.
#[verifier::opaque]
pub open spec fn pair_block(pair: Seq<u8>, parent_hash: H256, number: u64) -> BlockSpec {
    expanded(rlp_raw_at(pair, 0).unwrap(), parent_hash, number)
}

/// The receipts of an entry.
#[verifier::opaque]
pub open spec fn pair_receipts(pair: Seq<u8>) -> Seq<u8> {
    rlp_list_at(pair, 1).unwrap()
}

/// The parent hash of the block of entry `k`: for the first entry what the
/// chunk says, for every other the hash of the block before.
#[verifier::opaque]
pub open spec fn parent_at(pairs: Seq<Seq<u8>>, h: ChunkHeader, k: int) -> H256
    decreases k,
{
    if k <= 0 {
        h.parent_hash
    } else {
        header_hash(
            pair_block(
                pairs[k - 1],
                parent_at(pairs, h, k - 1),
                (h.parent_number + k) as u64,
            ).header,
        )
    }
}

/// The block of entry `k`: its number follows from the number that the chunk
/// gives for the parent of the first block.
pub open spec fn block_at(pairs: Seq<Seq<u8>>, h: ChunkHeader, k: int) -> BlockSpec {
    pair_block(pairs[k], parent_at(pairs, h, k), (h.parent_number + 1 + k) as u64)
}

/// Whether entry `k` can be read and its block's number is a `u64`.
pub open spec fn readable_at(pairs: Seq<Seq<u8>>, h: ChunkHeader, k: int) -> bool {
    pair_readable(pairs[k]) && h.parent_number + 1 + k <= u64::MAX
}

/// Reads an entry of a block chunk: the block under the given parent hash and
/// number, and the receipts. Fails if and only if the entry cannot be read.
pub fn read_entry(pair: &[u8], parent_hash: H256, number: u64) -> (r: Result<
    (Block, Vec<u8>),
    DecodeError,
>)
    ensures
        r.is_ok() == pair_readable(pair@),
        r.is_ok() ==> r.unwrap().0@ == pair_block(pair@, parent_hash, number) && r.unwrap().1@
            == pair_receipts(pair@),
{
    proof {
        reveal(pair_readable);
        reveal(pair_block);
        reveal(pair_receipts);
    }
    if !is_framed(pair, 2) {
        return Err(DecodeError::RlpIncorrectListLen);
    }
    let abridged_rlp = raw_at(pair, 0)?;
    let receipts = list_at(pair, 1)?;
    let abridged_block = AbridgedBlock::from_raw(abridged_rlp);
    let block = abridged_block.to_block(parent_hash, number)?;
    Ok((block, receipts))
}

/// What a block rebuilder holds, as plain values: the chain, the first
/// blocks of chunks that were cut off when they came, each with its number,
/// and the number of the block that is to become the best block.
pub struct RebuilderSpec {
    pub chain: ChainSpec,
    pub disconnected: Seq<(u64, H256)>,
    pub best_number: u64,
}

/// The rebuilder after one block was fed. The first block of a chunk comes
/// with the total difficulty of its parent, and is noted where it is cut off.
/// The block becomes the best block where its number says so.
#[verifier::opaque]
pub open spec fn block_fed(
    r: RebuilderSpec,
    block: BlockSpec,
    receipts: Seq<u8>,
    parent_td: U256,
    first: bool,
) -> RebuilderSpec {
    RebuilderSpec {
        chain: insert_spec(
            r.chain,
            block,
            receipts,
            if first {
                Some(parent_td)
            } else {
                None
            },
            block.header.number == r.best_number,
        ),
        disconnected: if first && cut_off(r.chain, block) {
            r.disconnected.push((block.header.number, header_hash(block.header)))
        } else {
            r.disconnected
        },
        best_number: r.best_number,
    }
}

/// The rebuilder after the first `k` entries of a chunk were fed.
#[verifier::opaque]
pub open spec fn fed(r: RebuilderSpec, pairs: Seq<Seq<u8>>, h: ChunkHeader, k: int) -> RebuilderSpec
    decreases k,
{
    if k <= 0 {
        r
    } else {
        block_fed(
            fed(r, pairs, h, k - 1),
            block_at(pairs, h, k - 1),
            pair_receipts(pairs[k - 1]),
            h.parent_total_difficulty,
            k == 1,
        )
    }
}

/// Whether each of the first `k` entries can be read, with a number that is a `u64`.
pub open spec fn readable_upto(pairs: Seq<Seq<u8>>, h: ChunkHeader, k: int) -> bool
    decreases k,
{
    if k <= 0 {
        true
    } else {
        readable_upto(pairs, h, k - 1) && readable_at(pairs, h, k - 1)
    }
}

/// The question about the structure of a block, with its answer.
pub open spec fn asked_basic(block: BlockSpec, accepted: bool) -> BasicVerdict {
    BasicVerdict { header: block.header, block: block_rlp(block), accepted: accepted }
}

/// The question about the seal of a block, with its answer.
pub open spec fn asked_seal(block: BlockSpec, accepted: bool) -> SealVerdict {
    SealVerdict { header: block.header, accepted: accepted }
}

/// The questions about the structure of the blocks of the first `k`
/// entries, one for each block and in their order, each answered with yes.
pub open spec fn accepted_verdicts(pairs: Seq<Seq<u8>>, h: ChunkHeader, k: int) -> Seq<BasicVerdict>
    decreases k,
{
    if k <= 0 {
        Seq::empty()
    } else {
        accepted_verdicts(pairs, h, k - 1).push(asked_basic(block_at(pairs, h, k - 1), true))
    }
}

/// The samples as they were drawn: each one was to be had.
pub open spec fn drawn_all(samples: Seq<u32>) -> Seq<Option<u32>> {
    samples.map_values(|s: u32| Some(s))
}

/// The questions about the seals of the blocks of the first `k` entries: one
/// for each block whose sample says that its seal is checked, in their
/// order, each answered with yes.
pub open spec fn seal_verdicts(
    pairs: Seq<Seq<u8>>,
    h: ChunkHeader,
    samples: Seq<u32>,
    k: int,
) -> Seq<SealVerdict>
    decreases k,
{
    if k <= 0 {
        Seq::empty()
    } else if seal_checked(samples[k - 1]) {
        seal_verdicts(pairs, h, samples, k - 1).push(asked_seal(block_at(pairs, h, k - 1), true))
    } else {
        seal_verdicts(pairs, h, samples, k - 1)
    }
}

/// The questions about the seals of the first blocks do not depend on the
/// samples of later ones.
pub proof fn lemma_seal_verdicts_prefix(
    pairs: Seq<Seq<u8>>,
    h: ChunkHeader,
    samples: Seq<u32>,
    more: Seq<u32>,
    k: int,
)
    requires
        0 <= k <= samples.len(),
        k <= more.len(),
        forall|i: int| 0 <= i < k ==> samples[i] == more[i],
    ensures
        seal_verdicts(pairs, h, samples, k) == seal_verdicts(pairs, h, more, k),
    decreases k,
{
    if k > 0 {
        lemma_seal_verdicts_prefix(pairs, h, samples, more, k - 1);
    }
}

/// The block of an entry has the parent hash and the number that were given.
pub proof fn lemma_pair_block_link(pair: Seq<u8>, parent_hash: H256, number: u64)
    ensures
        pair_block(pair, parent_hash, number).header.parent_hash == parent_hash,
        pair_block(pair, parent_hash, number).header.number == number,
{
    reveal(pair_block);
    lemma_expanded_link(rlp_raw_at(pair, 0).unwrap(), parent_hash, number);
}

/// Feeding one entry more: what `fed` and `parent_at` say of it.
pub proof fn lemma_fed_step(r: RebuilderSpec, pairs: Seq<Seq<u8>>, h: ChunkHeader, k: int)
    requires
        k >= 0,
    ensures
        fed(r, pairs, h, k + 1) == block_fed(
            fed(r, pairs, h, k),
            block_at(pairs, h, k),
            pair_receipts(pairs[k]),
            h.parent_total_difficulty,
            k == 0,
        ),
        parent_at(pairs, h, k + 1) == header_hash(block_at(pairs, h, k).header),
        fed(r, pairs, h, 0) == r,
        parent_at(pairs, h, 0) == h.parent_hash,
{
    reveal(fed);
    reveal(parent_at);
}

/// What `block_fed` says, spelled out.
pub proof fn lemma_block_fed(
    r: RebuilderSpec,
    block: BlockSpec,
    receipts: Seq<u8>,
    parent_td: U256,
    first: bool,
)
    ensures
        block_fed(r, block, receipts, parent_td, first).chain == insert_spec(
            r.chain,
            block,
            receipts,
            if first {
                Some(parent_td)
            } else {
                None
            },
            block.header.number == r.best_number,
        ),
        block_fed(r, block, receipts, parent_td, first).disconnected == (if first && cut_off(
            r.chain,
            block,
        ) {
            r.disconnected.push((block.header.number, header_hash(block.header)))
        } else {
            r.disconnected
        }),
        block_fed(r, block, receipts, parent_td, first).best_number == r.best_number,
{
    reveal(block_fed);
}


/// How the feeding of a chunk ended.
pub enum Outcome {
    /// Every entry was fed.
    Done,
    /// An entry could not be read.
    Unreadable,
    /// The engine rejected a block.
    Rejected,
    /// No random number was to be had.
    NoSample,
    /// Anything else.
    Other,
}

/// How a feeding ended, read off its result.
pub open spec fn outcome_of<T>(r: Result<T, Error>) -> Outcome {
    match r {
        Ok(_) => Outcome::Done,
        Err(Error::Decoder(_)) => Outcome::Unreadable,
        Err(Error::Verification(_)) => Outcome::Rejected,
        Err(Error::Random) => Outcome::NoSample,
        Err(_) => Outcome::Other,
    }
}

/// The reasons of the engine's refusals once a feeding has ended with `r`:
/// where the engine refused a block, the reason that it gave is the one that
/// the error carries, and it is the last of them.
pub open spec fn reasons_after<T>(before: Seq<Seq<char>>, r: Result<T, Error>) -> Seq<Seq<char>> {
    match r {
        Err(Error::Verification(reason)) => before.push(reason@),
        _ => before,
    }
}

/// The record of a feeding: what the engine was asked about structure and
/// seals, and the samples that were drawn.
pub struct Record {
    pub basic: Seq<BasicVerdict>,
    pub seal: Seq<SealVerdict>,
    pub draws: Seq<Option<u32>>,
}

/// What holds once the entries `pairs` were fed with the outcome `outcome`,
/// the first `k` of them with success, where `samples` are the samples that
/// were drawn. The rebuilder is as after these `k` blocks; each of them could
/// be read. A sample was drawn for each of them; the engine was asked about
/// the structure of each, in their order, and said yes; about the seal it
/// was asked for those whose sample says so, in their order, and said yes.
/// On success all entries were fed. Else entry `k` is the one that failed:
/// its number is no `u64`, and there is no sample for it; or there was no
/// sample to be had; or there is a sample but the entry cannot be read; or
/// the engine was asked about the structure of its block and said no; or it
/// said yes to that, and no to the seal, which the sample said to check.
pub open spec fn fed_with(
    before: RebuilderSpec,
    after: RebuilderSpec,
    pairs: Seq<Seq<u8>>,
    h: ChunkHeader,
    k: int,
    outcome: Outcome,
    start: Record,
    end: Record,
    samples: Seq<u32>,
) -> bool {
    let basic = start.basic + accepted_verdicts(pairs, h, k);
    let seal = start.seal + seal_verdicts(pairs, h, samples, k);
    let draws = start.draws + drawn_all(samples);
    &&& 0 <= k <= pairs.len()
    &&& after == fed(before, pairs, h, k)
    &&& readable_upto(pairs, h, k)
    &&& k <= samples.len() <= k + 1
    &&& match outcome {
        Outcome::Done => {
            &&& k == pairs.len()
            &&& samples.len() == k
            &&& end == (Record { basic: basic, seal: seal, draws: draws })
        },
        Outcome::Unreadable => {
            &&& k < pairs.len()
            &&& !readable_at(pairs, h, k)
            &&& samples.len() == k <==> h.parent_number + 1 + k > u64::MAX
            &&& end == (Record { basic: basic, seal: seal, draws: draws })
        },
        Outcome::NoSample => {
            &&& k < pairs.len()
            &&& samples.len() == k
            &&& end == (Record { basic: basic, seal: seal, draws: draws.push(None) })
        },
        Outcome::Rejected => {
            &&& k < pairs.len()
            &&& readable_at(pairs, h, k)
            &&& samples.len() == k + 1
            &&& end == (Record {
                basic: basic.push(asked_basic(block_at(pairs, h, k), false)),
                seal: seal,
                draws: draws,
            }) || (seal_checked(samples[k]) && end == (Record {
                basic: basic.push(asked_basic(block_at(pairs, h, k), true)),
                seal: seal.push(asked_seal(block_at(pairs, h, k), false)),
                draws: draws,
            }))
        },
        Outcome::Other => false,
    }
}

/// What holds once entries were fed: see `fed_with`, for the samples that
/// were drawn, whatever they were.
pub open spec fn fed_outcome(
    before: RebuilderSpec,
    after: RebuilderSpec,
    pairs: Seq<Seq<u8>>,
    h: ChunkHeader,
    k: int,
    outcome: Outcome,
    start: Record,
    end: Record,
) -> bool {
    exists|samples: Seq<u32>| #[trigger]
        fed_with(before, after, pairs, h, k, outcome, start, end, samples)
}

/// The chain after the first `k` of the noted blocks were glued on: each
/// becomes a child of the block that stands for the number before its own,
/// where a block stands for it.
pub open spec fn glued(c: ChainSpec, heads: Seq<(u64, H256)>, k: int) -> ChainSpec
    decreases k,
{
    if k <= 0 {
        c
    } else {
        let before = glued(c, heads, k - 1);
        let head = heads[k - 1];
        if head.0 >= 1 && before.canon.contains_key((head.0 - 1) as u64) {
            add_child_spec(before, before.canon[(head.0 - 1) as u64], head.1)
        } else {
            before
        }
    }
}

/// Rebuilds a chain from block chunks, which may come in any order.
pub struct BlockRebuilder {
    chain: BlockChain,
    disconnected: Vec<(u64, H256)>,
    best_number: u64,
    draws: Ghost<Seq<Option<u32>>>,
}

impl View for BlockRebuilder {
    type V = RebuilderSpec;

    closed spec fn view(&self) -> RebuilderSpec {
        RebuilderSpec {
            chain: self.chain@,
            disconnected: self.disconnected@,
            best_number: self.best_number,
        }
    }
}

impl BlockRebuilder {
    /// The chain is in order.
    pub closed spec fn wf(&self) -> bool {
        self.chain.wf()
    }

    /// The samples drawn so far for deciding which seals to check, each as
    /// it came: a number, or nothing where none was to be had.
    pub closed spec fn drawn(&self) -> Seq<Option<u32>> {
        self.draws@
    }

    /// What was recorded so far: by the engine, and of the samples.
    pub open spec fn record<E: Engine>(&self, engine: &Judged<E>) -> Record {
        Record {
            basic: engine.basic_verdicts(),
            seal: engine.seal_verdicts(),
            draws: self.drawn(),
        }
    }

    /// Draws a sample from the random numbers of the operating system.
    fn draw(&mut self) -> (r: Option<u32>)
        ensures
            final(self)@ == old(self)@,
            final(self).wf() == old(self).wf(),
            final(self).drawn() == old(self).drawn().push(r),
    {
        let r = os_random();
        self.draws = Ghost(self.draws@.push(r));
        r
    }

    /// A rebuilder that feeds into `chain` and makes the block with the
    /// number `best_number` the best block.
    pub fn new(chain: BlockChain, best_number: u64) -> (r: Result<BlockRebuilder, Error>)
        requires
            chain.wf(),
        ensures
            r.is_ok(),
            r.unwrap().wf(),
            r.unwrap()@ == (RebuilderSpec {
                chain: chain@,
                disconnected: Seq::empty(),
                best_number: best_number,
            }),
            r.unwrap().drawn() == Seq::<Option<u32>>::empty(),
    {
        Ok(
            BlockRebuilder {
                chain: chain,
                disconnected: Vec::new(),
                best_number: best_number,
                draws: Ghost(Seq::empty()),
            },
        )
    }

    /// The chain as it stands.
    pub fn chain(&self) -> (r: &BlockChain)
        ensures
            r@ == self@.chain,
            self.wf() ==> r.wf(),
    {
        &self.chain
    }

    /// Feeds one entry of a chunk: reads the block under the given parent
    /// hash and number, asks the engine about its structure, and about its
    /// seal where `sample` says so, and puts it into the chain. Succeeds if
    /// and only if the entry can be read and the engine accepts what it is
    /// asked; on failure the chain stays as it is. Returns the hash of the block.
    pub fn feed_block<E: Engine>(
        &mut self,
        pair: &[u8],
        parent_hash: H256,
        number: u64,
        parent_td: U256,
        first: bool,
        engine: &mut Judged<E>,
        sample: u32,
    ) -> (r: Result<H256, Error>)
        requires
            old(self).wf(),
            first || old(self)@.chain.blocks.contains_key(parent_hash),
        ensures
            final(engine).refusals() == reasons_after(old(engine).refusals(), r),
            final(self).wf(),
            final(self).drawn() == old(self).drawn(),
            ({
                let block = pair_block(pair@, parent_hash, number);
                let basic = old(engine).basic_verdicts();
                let seal = old(engine).seal_verdicts();
                match r {
                    Ok(hash) => {
                        &&& pair_readable(pair@)
                        &&& hash == header_hash(block.header)
                        &&& final(self)@ == block_fed(
                            old(self)@,
                            block,
                            pair_receipts(pair@),
                            parent_td,
                            first,
                        )
                        &&& final(self)@.chain.blocks.contains_key(hash)
                        &&& final(engine).basic_verdicts() == basic.push(asked_basic(block, true))
                        &&& final(engine).seal_verdicts() == (if seal_checked(sample) {
                            seal.push(asked_seal(block, true))
                        } else {
                            seal
                        })
                    },
                    Err(Error::Decoder(_)) => {
                        &&& !pair_readable(pair@)
                        &&& final(self)@ == old(self)@
                        &&& final(engine).basic_verdicts() == basic
                        &&& final(engine).seal_verdicts() == seal
                    },
                    Err(Error::Verification(_)) => {
                        &&& pair_readable(pair@)
                        &&& final(self)@ == old(self)@
                        &&& (final(engine).basic_verdicts() == basic.push(asked_basic(block, false))
                            && final(engine).seal_verdicts() == seal) || (seal_checked(sample)
                            && final(engine).basic_verdicts() == basic.push(
                            asked_basic(block, true),
                        ) && final(engine).seal_verdicts() == seal.push(asked_seal(block, false)))
                    },
                    Err(_) => false,
                }
            }),
    {
        proof {
            lemma_block_fed(
                self@,
                pair_block(pair@, parent_hash, number),
                pair_receipts(pair@),
                parent_td,
                first,
            );
            lemma_pair_block_link(pair@, parent_hash, number);
        }
        let (block, receipts) = match read_entry(pair, parent_hash, number) {
            Ok(entry) => entry,
            Err(e) => {
                return Err(Error::Decoder(e));
            },
        };
        let header_bytes = block.header.rlp_bytes();
        let hash = block.header.hash_encoded(&header_bytes);
        let block_bytes = block.rlp_bytes_round(header_bytes);
        match engine.verify_block_basic(&block.header, block_bytes.as_slice()) {
            Ok(_) => {},
            Err(reason) => {
                return Err(Error::Verification(reason));
            },
        }
        if check_seal(sample) {
            match engine.verify_block_seal(&block.header) {
                Ok(_) => {},
                Err(reason) => {
                    return Err(Error::Verification(reason));
                },
            }
        }
        let is_best = number == self.best_number;
        let ghost spec_block = block@;
        let ghost spec_receipts = receipts@;
        let td = if first {
            Some(parent_td)
        } else {
            None
        };
        proof {
            lemma_insert_keeps(self.chain@, spec_block, spec_receipts, td, is_best);
        }
        let cut = self.chain.insert_hashed(hash, block, receipts, td, is_best);
        if first && cut {
            self.disconnected.push((number, hash));
        }
        Ok(hash)
    }

    /// Feeds the entries of a chunk, which stand in `items` from the fourth
    /// place on, until one fails: returns how many were fed, and the failure.
    fn feed_entries<E: Engine>(
        &mut self,
        items: &Vec<Vec<u8>>,
        parent_number: u64,
        first_parent: H256,
        parent_total_difficulty: U256,
        engine: &mut Judged<E>,
    ) -> (r: (usize, Result<(), Error>))
        requires
            old(self).wf(),
            items@.len() >= 3,
        ensures
            final(engine).refusals() == reasons_after(old(engine).refusals(), r.1),
            final(self).wf(),
            ({
                let h = ChunkHeader {
                    parent_number: parent_number,
                    parent_hash: first_parent,
                    parent_total_difficulty: parent_total_difficulty,
                };
                let pairs = views(items@).subrange(3, items@.len() as int);
                fed_outcome(
                    old(self)@,
                    final(self)@,
                    pairs,
                    h,
                    r.0 as int,
                    outcome_of(r.1),
                    old(self).record(old(engine)),
                    final(self).record(final(engine)),
                )
            }),
    {
        let ghost h = ChunkHeader {
            parent_number: parent_number,
            parent_hash: first_parent,
            parent_total_difficulty: parent_total_difficulty,
        };
        let ghost pairs = views(items@).subrange(3, items@.len() as int);
        let ghost start = self@;
        let ghost rec0 = self.record(engine);
        let ghost samples: Seq<u32> = Seq::empty();
        let count: usize = items.len() - 3;
        let mut parent_hash = first_parent;
        let mut k: usize = 0;
        proof {
            lemma_fed_step(start, pairs, h, 0);
            assert(rec0.basic + accepted_verdicts(pairs, h, 0) =~= rec0.basic);
            assert(rec0.seal + seal_verdicts(pairs, h, samples, 0) =~= rec0.seal);
            assert(rec0.draws + drawn_all(samples) =~= rec0.draws);
        }
        while k < count
            invariant
                self.wf(),
                k <= count,
                count == pairs.len(),
                items@.len() == count + 3,
                pairs == views(items@).subrange(3, items@.len() as int),
                h == (ChunkHeader {
                    parent_number: parent_number,
                    parent_hash: first_parent,
                    parent_total_difficulty: parent_total_difficulty,
                }),
                start == old(self)@,
                rec0 == old(self).record(old(engine)),
                engine.refusals() == old(engine).refusals(),
                count + 3 <= usize::MAX,
                self@ == fed(start, pairs, h, k as int),
                parent_hash == parent_at(pairs, h, k as int),
                k > 0 ==> self@.chain.blocks.contains_key(parent_hash),
                readable_upto(pairs, h, k as int),
                samples.len() == k,
                engine.basic_verdicts() == rec0.basic + accepted_verdicts(pairs, h, k as int),
                engine.seal_verdicts() == rec0.seal + seal_verdicts(pairs, h, samples, k as int),
                self.drawn() == rec0.draws + drawn_all(samples),
            decreases count - k,
        {
            proof {
                lemma_views(items@);
                assert(pairs[k as int] == items@[k + 3]@);
            }
            if parent_number as u128 + 1 + k as u128 > u64::MAX as u128 {
                proof {
                    assert(fed_with(
                        start,
                        self@,
                        pairs,
                        h,
                        k as int,
                        Outcome::Unreadable,
                        rec0,
                        self.record(engine),
                        samples,
                    ));
                }
                return (k, Err(Error::Decoder(DecodeError::RlpIsTooBig)));
            }
            let number: u64 = (parent_number as u128 + 1 + k as u128) as u64;
            let sample = match self.draw() {
                Some(s) => s,
                None => {
                    proof {
                        assert(self.drawn() =~= (rec0.draws + drawn_all(samples)).push(None));
                        assert(fed_with(
                            start,
                            self@,
                            pairs,
                            h,
                            k as int,
                            Outcome::NoSample,
                            rec0,
                            self.record(engine),
                            samples,
                        ));
                    }
                    return (k, Err(Error::Random));
                },
            };
            let ghost more = samples.push(sample);
            proof {
                assert(drawn_all(more) =~= drawn_all(samples).push(Some(sample)));
                assert(self.drawn() =~= rec0.draws + drawn_all(more));
                lemma_seal_verdicts_prefix(pairs, h, samples, more, k as int);
            }
            match self.feed_block(
                items[k + 3].as_slice(),
                parent_hash,
                number,
                parent_total_difficulty,
                k == 0,
                engine,
                sample,
            ) {
                Ok(hash) => {
                    proof {
                        lemma_pair_block_link(pairs[k as int], parent_hash, number);
                        lemma_fed_step(start, pairs, h, k as int);
                        assert(engine.basic_verdicts() =~= rec0.basic + accepted_verdicts(
                            pairs,
                            h,
                            k + 1,
                        ));
                        assert(engine.seal_verdicts() =~= rec0.seal + seal_verdicts(
                            pairs,
                            h,
                            more,
                            k + 1,
                        ));
                        samples = more;
                    }
                    parent_hash = hash;
                },
                Err(e) => {
                    proof {
                        let block = block_at(pairs, h, k as int);
                        let basic = rec0.basic + accepted_verdicts(pairs, h, k as int);
                        let seal = rec0.seal + seal_verdicts(pairs, h, more, k as int);
                        if e is Verification {
                            assert(fed_with(
                                start,
                                self@,
                                pairs,
                                h,
                                k as int,
                                Outcome::Rejected,
                                rec0,
                                self.record(engine),
                                more,
                            ));
                        } else {
                            assert(fed_with(
                                start,
                                self@,
                                pairs,
                                h,
                                k as int,
                                Outcome::Unreadable,
                                rec0,
                                self.record(engine),
                                more,
                            ));
                        }
                    }
                    return (k, Err(e));
                },
            }
            k = k + 1;
        }
        proof {
            assert(fed_with(
                start,
                self@,
                pairs,
                h,
                k as int,
                Outcome::Done,
                rec0,
                self.record(engine),
                samples,
            ));
        }
        (k, Ok(()))
    }

    /// Feeds a chunk: its entries one after the other, each block under the
    /// hash of the one before and the number after its number. For each
    /// block a sample is drawn; the engine is asked about the structure of
    /// every block, and about its seal where the sample says so. Returns the
    /// number of blocks fed. At the first entry that cannot be read or that
    /// the engine rejects the feeding ends with an error; the blocks before
    /// it stay in the chain.
    pub fn feed<E: Engine>(&mut self, chunk: &[u8], engine: &mut Judged<E>) -> (r: Result<
        u64,
        Error,
    >)
        requires
            old(self).wf(),
        ensures
            final(engine).refusals() == reasons_after(old(engine).refusals(), r),
            final(self).wf(),
            !header_readable(chunk@) ==> {
                &&& final(self)@ == old(self)@
                &&& r matches Err(Error::Decoder(_))
                &&& final(self).record(final(engine)) == old(self).record(old(engine))
            },
            header_readable(chunk@) ==> ({
                let h = chunk_header(chunk@);
                let pairs = chunk_pairs(chunk@);
                let before = old(self)@;
                let after = final(self)@;
                let start = old(self).record(old(engine));
                let end = final(self).record(final(engine));
                &&& r.is_ok() ==> r.unwrap() == pairs.len()
                &&& exists|k: int| #[trigger]
                    fed_outcome(before, after, pairs, h, k, outcome_of(r), start, end)
            }),
    {
        let parent_number = match number_at(chunk, 0) {
            Ok(v) => v,
            Err(e) => {
                return Err(Error::Decoder(e));
            },
        };
        let first_parent = match hash_at(chunk, 1) {
            Ok(v) => v,
            Err(e) => {
                return Err(Error::Decoder(e));
            },
        };
        let parent_total_difficulty = match uint_at(chunk, 2) {
            Ok(v) => v,
            Err(e) => {
                return Err(Error::Decoder(e));
            },
        };
        let items = match list_items(chunk) {
            Ok(items) => items,
            Err(e) => {
                return Err(Error::Decoder(e));
            },
        };
        let ghost h = chunk_header(chunk@);
        let ghost pairs = chunk_pairs(chunk@);
        proof {
            lemma_views(items@);
        }
        if items.len() < 3 {
            proof {
                lemma_fed_step(old(self)@, pairs, h, 0);
                assert(pairs.len() == 0);
                let rec0 = self.record(engine);
                let none = Seq::<u32>::empty();
                assert(rec0.basic + accepted_verdicts(pairs, h, 0) =~= rec0.basic);
                assert(rec0.seal + seal_verdicts(pairs, h, none, 0) =~= rec0.seal);
                assert(rec0.draws + drawn_all(none) =~= rec0.draws);
                assert(fed_with(old(self)@, self@, pairs, h, 0, Outcome::Done, rec0, rec0, none));
                assert(fed_outcome(old(self)@, self@, pairs, h, 0, Outcome::Done, rec0, rec0));
            }
            return Ok(0);
        }
        let (fed_count, outcome) = self.feed_entries(
            &items,
            parent_number,
            first_parent,
            parent_total_difficulty,
            engine,
        );
        match outcome {
            Ok(_) => Ok(fed_count as u64),
            Err(e) => Err(e),
        }
    }

    /// Glues the noted first blocks of chunks to their parents, as far as a
    /// block stands for the number before theirs, and hands the chain over.
    /// To be called once all chunks are fed. A block whose parent never came
    /// stays as it is: its parent is older than what the snapshot holds.
    pub fn glue_chunks(self) -> (r: BlockChain)
        requires
            self.wf(),
        ensures
            r.wf(),
            r@ == glued(self@.chain, self@.disconnected, self@.disconnected.len() as int),
            r@.best == self@.chain.best,
    {
        let mut chain = self.chain;
        let heads = self.disconnected;
        let ghost start = chain@;
        let mut k: usize = 0;
        while k < heads.len()
            invariant
                chain.wf(),
                k <= heads@.len(),
                chain@ == glued(start, heads@, k as int),
                chain@.best == start.best,
            decreases heads@.len() - k,
        {
            let (first_num, first_hash) = heads[k];
            if first_num >= 1 {
                match chain.block_hash(first_num - 1) {
                    Some(parent_hash) => {
                        proof {
                            chain.lemma_wf();
                        }
                        chain.add_child(parent_hash, first_hash);
                    },
                    None => {},
                }
            }
            k = k + 1;
        }
        chain
    }
}

} // verus!

verus! {

/// The hash of the block of entry `j` of a chunk.
pub open spec fn entry_hash(pairs: Seq<Seq<u8>>, h: ChunkHeader, j: int) -> H256 {
    header_hash(block_at(pairs, h, j).header)
}

/// The number of the block of entry `j` of a chunk.
pub open spec fn entry_number(pairs: Seq<Seq<u8>>, h: ChunkHeader, j: int) -> u64 {
    block_at(pairs, h, j).header.number
}

/// What feeding one block does to the best block and to the blocks known.
pub proof fn lemma_block_fed_chain(
    r: RebuilderSpec,
    block: BlockSpec,
    receipts: Seq<u8>,
    parent_td: U256,
    first: bool,
)
    ensures
        block_fed(r, block, receipts, parent_td, first).best_number == r.best_number,
        block_fed(r, block, receipts, parent_td, first).chain.best == (if block.header.number
            == r.best_number && !r.chain.blocks.contains_key(header_hash(block.header)) {
            header_hash(block.header)
        } else {
            r.chain.best
        }),
        forall|x: H256|
            #![trigger block_fed(r, block, receipts, parent_td, first).chain.blocks.contains_key(x)]
            block_fed(r, block, receipts, parent_td, first).chain.blocks.contains_key(x) <==> (
            r.chain.blocks.contains_key(x) || x == header_hash(block.header)),
{
    lemma_block_fed(r, block, receipts, parent_td, first);
    let td = if first {
        Some(parent_td)
    } else {
        None
    };
    lemma_insert_keeps(r.chain, block, receipts, td, block.header.number == r.best_number);
}

/// After the first `k` entries of a chunk were fed, the blocks known are
/// those known before and the blocks of these entries.
pub proof fn lemma_fed_known(r: RebuilderSpec, pairs: Seq<Seq<u8>>, h: ChunkHeader, k: int)
    requires
        k >= 0,
    ensures
        fed(r, pairs, h, k).best_number == r.best_number,
        forall|x: H256|
            #![trigger fed(r, pairs, h, k).chain.blocks.contains_key(x)]
            fed(r, pairs, h, k).chain.blocks.contains_key(x) <==> (r.chain.blocks.contains_key(x)
                || exists|j: int| 0 <= j < k && #[trigger] entry_hash(pairs, h, j) == x),
    decreases k,
{
    if k == 0 {
        lemma_fed_step(r, pairs, h, 0);
    } else {
        lemma_fed_known(r, pairs, h, k - 1);
        lemma_fed_step(r, pairs, h, k - 1);
        let before = fed(r, pairs, h, k - 1);
        let block = block_at(pairs, h, k - 1);
        lemma_block_fed_chain(
            before,
            block,
            pair_receipts(pairs[k - 1]),
            h.parent_total_difficulty,
            k - 1 == 0,
        );
        assert forall|x: H256|
            #![trigger fed(r, pairs, h, k).chain.blocks.contains_key(x)]
            fed(r, pairs, h, k).chain.blocks.contains_key(x) <==> (r.chain.blocks.contains_key(x)
                || exists|j: int| 0 <= j < k && #[trigger] entry_hash(pairs, h, j) == x) by {
            if before.chain.blocks.contains_key(x) && !r.chain.blocks.contains_key(x) {
                let j = choose|j: int| 0 <= j < k - 1 && #[trigger] entry_hash(pairs, h, j) == x;
                assert(entry_hash(pairs, h, j) == x);
            }
            if x == header_hash(block.header) {
                assert(entry_hash(pairs, h, k - 1) == x);
            }
            if exists|j: int| 0 <= j < k && #[trigger] entry_hash(pairs, h, j) == x {
                let j = choose|j: int| 0 <= j < k && #[trigger] entry_hash(pairs, h, j) == x;
                if j < k - 1 {
                    assert(before.chain.blocks.contains_key(x));
                }
            }
        }
    }
}

/// Feeding entries whose blocks do not have the number of the block that is
/// to become the best block leaves the best block as it is.
pub proof fn lemma_fed_best_unchanged(r: RebuilderSpec, pairs: Seq<Seq<u8>>, h: ChunkHeader, k: int)
    requires
        k >= 0,
        forall|j: int| 0 <= j < k ==> #[trigger] entry_number(pairs, h, j) != r.best_number,
    ensures
        fed(r, pairs, h, k).chain.best == r.chain.best,
    decreases k,
{
    lemma_fed_step(r, pairs, h, 0);
    if k > 0 {
        lemma_fed_best_unchanged(r, pairs, h, k - 1);
        lemma_fed_known(r, pairs, h, k - 1);
        lemma_fed_step(r, pairs, h, k - 1);
        assert(entry_number(pairs, h, k - 1) != r.best_number);
        lemma_block_fed_chain(
            fed(r, pairs, h, k - 1),
            block_at(pairs, h, k - 1),
            pair_receipts(pairs[k - 1]),
            h.parent_total_difficulty,
            k - 1 == 0,
        );
    }
}

/// Feeding the same entries into two rebuilders with the same best block
/// gives the same best block again, as long as the two agree on whether they
/// know each block among the entries that has the number of the block that
/// is to become the best block.
pub proof fn lemma_fed_best_agrees(
    r1: RebuilderSpec,
    r2: RebuilderSpec,
    pairs: Seq<Seq<u8>>,
    h: ChunkHeader,
    k: int,
)
    requires
        k >= 0,
        r1.best_number == r2.best_number,
        r1.chain.best == r2.chain.best,
        forall|j: int|
            0 <= j < k && #[trigger] entry_number(pairs, h, j) == r1.best_number ==> (
            r1.chain.blocks.contains_key(entry_hash(pairs, h, j))
                <==> r2.chain.blocks.contains_key(entry_hash(pairs, h, j))),
    ensures
        fed(r1, pairs, h, k).chain.best == fed(r2, pairs, h, k).chain.best,
    decreases k,
{
    lemma_fed_step(r1, pairs, h, 0);
    lemma_fed_step(r2, pairs, h, 0);
    if k > 0 {
        lemma_fed_best_agrees(r1, r2, pairs, h, k - 1);
        lemma_fed_known(r1, pairs, h, k - 1);
        lemma_fed_known(r2, pairs, h, k - 1);
        lemma_fed_step(r1, pairs, h, k - 1);
        lemma_fed_step(r2, pairs, h, k - 1);
        let block = block_at(pairs, h, k - 1);
        let x = header_hash(block.header);
        lemma_block_fed_chain(
            fed(r1, pairs, h, k - 1),
            block,
            pair_receipts(pairs[k - 1]),
            h.parent_total_difficulty,
            k - 1 == 0,
        );
        lemma_block_fed_chain(
            fed(r2, pairs, h, k - 1),
            block,
            pair_receipts(pairs[k - 1]),
            h.parent_total_difficulty,
            k - 1 == 0,
        );
        if block.header.number == r1.best_number {
            assert(entry_number(pairs, h, k - 1) == r1.best_number);
            assert(entry_hash(pairs, h, k - 1) == x);
        }
    }
}

/// The order in which two chunks are fed does not matter for the best block:
/// where the second chunk holds no block with the number of the block that
/// is to become the best block, and none with the hash of a block of the
/// first chunk that has that number, feeding the first and then the second
/// gives the same best block as feeding the second and then the first.
/// Gluing does not change the best block.
pub proof fn lemma_feed_order(
    r: RebuilderSpec,
    first: Seq<Seq<u8>>,
    first_header: ChunkHeader,
    second: Seq<Seq<u8>>,
    second_header: ChunkHeader,
)
    requires
        forall|j: int|
            0 <= j < second.len() ==> #[trigger] entry_number(second, second_header, j)
                != r.best_number,
        forall|i: int, j: int|
            0 <= i < first.len() && 0 <= j < second.len() && entry_number(first, first_header, i)
                == r.best_number ==> #[trigger] entry_hash(first, first_header, i)
                != #[trigger] entry_hash(second, second_header, j),
    ensures
        fed(
            fed(r, first, first_header, first.len() as int),
            second,
            second_header,
            second.len() as int,
        ).chain.best == fed(
            fed(r, second, second_header, second.len() as int),
            first,
            first_header,
            first.len() as int,
        ).chain.best,
{
    let a = fed(r, first, first_header, first.len() as int);
    let b = fed(r, second, second_header, second.len() as int);
    lemma_fed_known(r, first, first_header, first.len() as int);
    lemma_fed_known(r, second, second_header, second.len() as int);
    lemma_fed_best_unchanged(a, second, second_header, second.len() as int);
    lemma_fed_best_unchanged(r, second, second_header, second.len() as int);
    assert forall|i: int|
        0 <= i < first.len() && #[trigger] entry_number(first, first_header, i)
            == r.best_number implies (r.chain.blocks.contains_key(
        entry_hash(first, first_header, i),
    ) <==> b.chain.blocks.contains_key(entry_hash(first, first_header, i))) by {
        let x = entry_hash(first, first_header, i);
        if b.chain.blocks.contains_key(x) && !r.chain.blocks.contains_key(x) {
            let j = choose|j: int|
                0 <= j < second.len() && #[trigger] entry_hash(second, second_header, j) == x;
            assert(entry_hash(first, first_header, i) != entry_hash(second, second_header, j));
        }
    }
    lemma_fed_best_agrees(r, b, first, first_header, first.len() as int);
}

/// A block chunk as it is fed: its entries and its three leading items.
pub struct FedChunk {
    pub pairs: Seq<Seq<u8>>,
    pub head: ChunkHeader,
}

/// The rebuilder after the first `n` of the chunks were fed, one after the
/// other, each with all its entries.
pub open spec fn fed_all(r: RebuilderSpec, chunks: Seq<FedChunk>, n: int) -> RebuilderSpec
    decreases n,
{
    if n <= 0 {
        r
    } else {
        fed(
            fed_all(r, chunks, n - 1),
            chunks[n - 1].pairs,
            chunks[n - 1].head,
            chunks[n - 1].pairs.len() as int,
        )
    }
}

/// Whether chunk `b` is the only one of the chunks that can set the best
/// block: no other chunk holds a block with the number `best_number`, and
/// none holds a block with the hash of a block of chunk `b` that has it.
pub open spec fn sets_best_alone(chunks: Seq<FedChunk>, b: int, best_number: u64) -> bool {
    &&& 0 <= b < chunks.len()
    &&& forall|c: int, j: int|
        0 <= c < chunks.len() && c != b && 0 <= j < chunks[c].pairs.len() ==> #[trigger] entry_number(
            chunks[c].pairs,
            chunks[c].head,
            j,
        ) != best_number
    &&& forall|c: int, i: int, j: int|
        0 <= c < chunks.len() && c != b && 0 <= i < chunks[b].pairs.len() && 0 <= j
            < chunks[c].pairs.len() && entry_number(chunks[b].pairs, chunks[b].head, i)
            == best_number ==> #[trigger] entry_hash(chunks[b].pairs, chunks[b].head, i)
            != #[trigger] entry_hash(chunks[c].pairs, chunks[c].head, j)
}

/// Whether a block with this hash stands among the first `n` chunks.
pub open spec fn among(chunks: Seq<FedChunk>, n: int, x: H256) -> bool {
    exists|c: int, j: int|
        0 <= c < n && 0 <= j < chunks[c].pairs.len() && #[trigger] entry_hash(
            chunks[c].pairs,
            chunks[c].head,
            j,
        ) == x
}

/// The induction behind `lemma_best_of_many`, over the chunks fed.
pub proof fn lemma_fed_all_best(r: RebuilderSpec, chunks: Seq<FedChunk>, b: int, n: int)
    requires
        0 <= n <= chunks.len(),
        sets_best_alone(chunks, b, r.best_number),
    ensures
        fed_all(r, chunks, n).best_number == r.best_number,
        n <= b ==> fed_all(r, chunks, n).chain.best == r.chain.best,
        n <= b ==> forall|x: H256|
            #![trigger fed_all(r, chunks, n).chain.blocks.contains_key(x)]
            fed_all(r, chunks, n).chain.blocks.contains_key(x) <==> (r.chain.blocks.contains_key(x)
                || among(chunks, n, x)),
        n > b ==> fed_all(r, chunks, n).chain.best == fed(
            r,
            chunks[b].pairs,
            chunks[b].head,
            chunks[b].pairs.len() as int,
        ).chain.best,
    decreases n,
{
    if n > 0 {
        lemma_fed_all_best(r, chunks, b, n - 1);
        let before = fed_all(r, chunks, n - 1);
        let chunk = chunks[n - 1];
        let len = chunk.pairs.len() as int;
        lemma_fed_known(before, chunk.pairs, chunk.head, len);
        if n - 1 != b {
            assert forall|j: int| 0 <= j < len implies #[trigger] entry_number(
                chunk.pairs,
                chunk.head,
                j,
            ) != before.best_number by {
                assert(entry_number(chunks[n - 1].pairs, chunks[n - 1].head, j) != r.best_number);
            }
            lemma_fed_best_unchanged(before, chunk.pairs, chunk.head, len);
            if n <= b {
                assert forall|x: H256|
                    #![trigger fed_all(r, chunks, n).chain.blocks.contains_key(x)]
                    fed_all(r, chunks, n).chain.blocks.contains_key(x) <==> (
                    r.chain.blocks.contains_key(x) || among(chunks, n, x)) by {
                    if among(chunks, n - 1, x) {
                        let (c, j) = choose|c: int, j: int|
                            0 <= c < n - 1 && 0 <= j < chunks[c].pairs.len() && #[trigger] entry_hash(
                                chunks[c].pairs,
                                chunks[c].head,
                                j,
                            ) == x;
                        assert(entry_hash(chunks[c].pairs, chunks[c].head, j) == x);
                        assert(among(chunks, n, x));
                    }
                    if exists|j: int| 0 <= j < len && #[trigger] entry_hash(chunk.pairs, chunk.head, j)
                        == x {
                        let j = choose|j: int|
                            0 <= j < len && #[trigger] entry_hash(chunk.pairs, chunk.head, j) == x;
                        assert(entry_hash(chunks[n - 1].pairs, chunks[n - 1].head, j) == x);
                        assert(among(chunks, n, x));
                    }
                    if among(chunks, n, x) && !among(chunks, n - 1, x) {
                        let (c, j) = choose|c: int, j: int|
                            0 <= c < n && 0 <= j < chunks[c].pairs.len() && #[trigger] entry_hash(
                                chunks[c].pairs,
                                chunks[c].head,
                                j,
                            ) == x;
                        if c < n - 1 {
                            assert(entry_hash(chunks[c].pairs, chunks[c].head, j) == x);
                            assert(among(chunks, n - 1, x));
                        }
                        assert(entry_hash(chunk.pairs, chunk.head, j) == x);
                    }
                }
            }
        } else {
            assert forall|j: int|
                0 <= j < len && #[trigger] entry_number(chunk.pairs, chunk.head, j)
                    == before.best_number implies (before.chain.blocks.contains_key(
                entry_hash(chunk.pairs, chunk.head, j),
            ) <==> r.chain.blocks.contains_key(entry_hash(chunk.pairs, chunk.head, j))) by {
                let x = entry_hash(chunk.pairs, chunk.head, j);
                if among(chunks, n - 1, x) {
                    let (c, i) = choose|c: int, i: int|
                        0 <= c < n - 1 && 0 <= i < chunks[c].pairs.len() && #[trigger] entry_hash(
                            chunks[c].pairs,
                            chunks[c].head,
                            i,
                        ) == x;
                    assert(entry_hash(chunks[b].pairs, chunks[b].head, j) != entry_hash(
                        chunks[c].pairs,
                        chunks[c].head,
                        i,
                    ));
                }
            }
            lemma_fed_best_agrees(before, r, chunk.pairs, chunk.head, len);
        }
    } else {
        assert forall|x: H256|
            #![trigger fed_all(r, chunks, n).chain.blocks.contains_key(x)]
            fed_all(r, chunks, n).chain.blocks.contains_key(x) <==> (r.chain.blocks.contains_key(x)
                || among(chunks, n, x)) by {}
    }
}

/// Where one chunk alone can set the best block, the best block once all
/// chunks are fed is the one that this chunk alone would set: it does not
/// depend on the other chunks, nor on the place of any chunk among them.
pub proof fn lemma_best_of_many(r: RebuilderSpec, chunks: Seq<FedChunk>, b: int)
    requires
        sets_best_alone(chunks, b, r.best_number),
    ensures
        fed_all(r, chunks, chunks.len() as int).chain.best == fed(
            r,
            chunks[b].pairs,
            chunks[b].head,
            chunks[b].pairs.len() as int,
        ).chain.best,
{
    lemma_fed_all_best(r, chunks, b, chunks.len() as int);
}

/// The order in which chunks are fed does not matter for the best block:
/// where the same chunk stands at the place `b1` among the chunks `one` and
/// at the place `b2` among the chunks `other`, and there and here it alone
/// can set the best block, feeding all of `one` and feeding all of `other`
/// give the same best block. Gluing does not change the best block.
pub proof fn lemma_feed_order_of_many(
    r: RebuilderSpec,
    one: Seq<FedChunk>,
    b1: int,
    other: Seq<FedChunk>,
    b2: int,
)
    requires
        sets_best_alone(one, b1, r.best_number),
        sets_best_alone(other, b2, r.best_number),
        one[b1] == other[b2],
    ensures
        fed_all(r, one, one.len() as int).chain.best == fed_all(
            r,
            other,
            other.len() as int,
        ).chain.best,
{
    lemma_best_of_many(r, one, b1);
    lemma_best_of_many(r, other, b2);
}

} // verus!
