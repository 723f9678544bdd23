use vstd::prelude::*;
use crate::block::{abridged_rlp, copy_bytes, AbridgedBlock, BlockSpec};
use crate::chain::{BlockChain, ChainSpec};
use crate::codec::{
    encode_hash, lemma_views, lemma_views_push, list_of, number_of, rlp_hash, rlp_list, rlp_u64,
    rlp_uint, uint_of, views,
};
use crate::compress::{compress, compressible, snappy_compressed};
use crate::error::Error;
use crate::hash::{keccak, keccak_hash, H256};
use crate::io::{Recorded, SnapshotWriter};
use crate::progress::{blocks_noted, Progress, ProgressSpec};
use crate::uint::U256;

verus! {

/// The size, before compression, that the entries of a chunk should not exceed.
pub const PREFERRED_CHUNK_SIZE: usize = 4194304;

/// How many blocks a snapshot holds, counted back from the block it is taken at.
pub const SNAPSHOT_BLOCKS: u64 = 30000;

/// A block chunk before it is encoded: what is known of the parent of its
/// first block, and the entries, oldest first.
pub struct BlockChunk {
    pub parent_number: u64,
    pub parent_hash: H256,
    pub parent_total_difficulty: U256,
    pub pairs: Seq<Seq<u8>>,
}

/// The encoding of a block chunk: number, hash and total difficulty of the
/// parent of the first block, then the entries.
pub open spec fn block_chunk_rlp(c: BlockChunk) -> Seq<u8> {
    rlp_list(
        seq![
            rlp_u64(c.parent_number),
            rlp_hash(c.parent_hash),
            rlp_uint(c.parent_total_difficulty),
        ] + c.pairs,
    )
}

/// A chunk as it is stored: the compressed bytes under their own hash.
pub open spec fn sealed(raw: Seq<u8>) -> (H256, Seq<u8>) {
    (keccak_hash(snappy_compressed(raw)), snappy_compressed(raw))
}

/// The entry of a chunk for one block: the abridged block and its receipts.
pub open spec fn pair_rlp(block: BlockSpec, receipts: Seq<u8>) -> Seq<u8> {
    rlp_list(seq![abridged_rlp(block), receipts])
}

/// The number of bytes of all `items` together.
pub open spec fn total_len(items: Seq<Seq<u8>>) -> int
    decreases items.len(),
{
    if items.len() == 0 {
        0
    } else {
        total_len(items.drop_last()) + items.last().len()
    }
}

/// Whether a chunk keeps to the size: its entries together do not exceed it,
/// or it has a single entry.
pub open spec fn within_size(pairs: Seq<Seq<u8>>) -> bool {
    total_len(pairs) <= PREFERRED_CHUNK_SIZE || pairs.len() == 1
}

/// A walk back through the chain, part way: the entries gathered for the
/// next chunk, newest last, and their size; the block to visit next; the
/// chunks made so far.
pub struct Walk {
    pub pending: Seq<Seq<u8>>,
    pub loaded: int,
    pub current: H256,
    pub chunks: Seq<BlockChunk>,
}

/// The walk after what was gathered became a chunk. Its first block's parent
/// is the block to visit next.
pub open spec fn flushed(c: ChainSpec, w: Walk) -> Walk {
    Walk {
        pending: Seq::empty(),
        loaded: 0,
        current: w.current,
        chunks: w.chunks.push(
            BlockChunk {
                parent_number: c.blocks[w.current].number,
                parent_hash: w.current,
                parent_total_difficulty: c.blocks[w.current].total_difficulty,
                pairs: w.pending.reverse(),
            },
        ),
    }
}

/// The walk after one block was visited: where its entry would bring what was
/// gathered over the size, that becomes a chunk first.
pub open spec fn stepped(c: ChainSpec, w: Walk) -> Walk {
    let s = c.blocks[w.current];
    let pair = pair_rlp(s.block, s.receipts);
    let base = if w.loaded + pair.len() > PREFERRED_CHUNK_SIZE && w.pending.len() > 0 {
        flushed(c, w)
    } else {
        w
    };
    Walk {
        pending: base.pending.push(pair),
        loaded: base.loaded + pair.len(),
        current: s.parent,
        chunks: base.chunks,
    }
}

/// The walk from `w` back to the block `first`, which is not visited, over
/// at most `fuel` blocks: where it ends, and the hash of the block that was
/// missing, if one was. What is left at `first` becomes the last chunk.
pub open spec fn walked(c: ChainSpec, w: Walk, first: H256, fuel: nat) -> (Walk, Option<H256>)
    decreases fuel,
{
    if w.current == first {
        if w.pending.len() > 0 {
            if c.blocks.contains_key(first) {
                (flushed(c, w), None)
            } else {
                (w, Some(first))
            }
        } else {
            (w, None)
        }
    } else if fuel == 0 || !c.blocks.contains_key(w.current) {
        (w, Some(w.current))
    } else {
        walked(c, stepped(c, w), first, (fuel - 1) as nat)
    }
}

/// The stored form of each chunk.
pub open spec fn seal_all(chunks: Seq<BlockChunk>) -> Seq<(H256, Seq<u8>)> {
    chunks.map_values(|c: BlockChunk| sealed(block_chunk_rlp(c)))
}

/// The hashes of stored chunks.
pub open spec fn keys(log: Seq<(H256, Seq<u8>)>) -> Seq<H256> {
    log.map_values(|e: (H256, Seq<u8>)| e.0)
}

/// The progress indicator after the chunks were written, one after the other.
pub open spec fn noted_all(p: ProgressSpec, chunks: Seq<BlockChunk>) -> ProgressSpec
    decreases chunks.len(),
{
    if chunks.len() == 0 {
        p
    } else {
        blocks_noted(
            noted_all(p, chunks.drop_last()),
            chunks.last().pairs.len() as usize,
            sealed(block_chunk_rlp(chunks.last())).1.len() as usize,
        )
    }
}

/// Whether every chunk of a walk keeps to the size, and what is gathered
/// could become one that does.
pub open spec fn walk_within_size(w: Walk) -> bool {
    &&& w.loaded == total_len(w.pending)
    &&& w.pending.len() > 0 ==> within_size(w.pending)
    &&& forall|i: int| 0 <= i < w.chunks.len() ==> within_size((#[trigger] w.chunks[i]).pairs)
}

/// Turning a sequence round does not change the number of its bytes.
pub proof fn lemma_total_len_reverse(items: Seq<Seq<u8>>)
    ensures
        total_len(items.reverse()) == total_len(items),
    decreases items.len(),
{
    if items.len() > 0 {
        let r = items.reverse();
        lemma_total_len_front(r);
        assert(r.first() == items.last());
        assert(r.subrange(1, r.len() as int) =~= items.drop_last().reverse());
        lemma_total_len_reverse(items.drop_last());
    } else {
        assert(items.reverse() =~= items);
    }
}

/// The number of bytes, counted from the front.
pub proof fn lemma_total_len_front(items: Seq<Seq<u8>>)
    requires
        items.len() > 0,
    ensures
        total_len(items) == items.first().len() + total_len(items.subrange(1, items.len() as int)),
    decreases items.len(),
{
    let rest = items.subrange(1, items.len() as int);
    if items.len() == 1 {
        assert(items.drop_last() =~= rest);
        assert(total_len(items.drop_last()) == 0);
    } else {
        lemma_total_len_front(items.drop_last());
        assert(items.drop_last().subrange(1, items.len() - 1) =~= rest.drop_last());
        assert(rest.last() == items.last());
        assert(items.drop_last().first() == items.first());
    }
}

/// Every chunk that a walk makes keeps to the size, if the walk was within
/// the size when it began: no chunk's entries exceed the preferred size
/// together, unless the chunk has a single entry.
pub proof fn lemma_size_bound(c: ChainSpec, w: Walk, first: H256, fuel: nat)
    requires
        walk_within_size(w),
    ensures
        walk_within_size(walked(c, w, first, fuel).0),
    decreases fuel,
{
    if w.current == first {
        if w.pending.len() > 0 && c.blocks.contains_key(first) {
            lemma_flushed_within_size(c, w);
        }
    } else if fuel == 0 || !c.blocks.contains_key(w.current) {
    } else {
        let s = c.blocks[w.current];
        let pair = pair_rlp(s.block, s.receipts);
        let flush = w.loaded + pair.len() > PREFERRED_CHUNK_SIZE && w.pending.len() > 0;
        let base = if flush {
            flushed(c, w)
        } else {
            w
        };
        if flush {
            lemma_flushed_within_size(c, w);
        }
        let next = stepped(c, w);
        assert(next.pending.drop_last() =~= base.pending);
        assert(next.pending.last() == pair);
        assert(total_len(next.pending) == total_len(base.pending) + pair.len());
        if base.pending.len() == 0 {
            assert(next.pending.len() == 1);
        }
        lemma_size_bound(c, next, first, (fuel - 1) as nat);
    }
}

/// A chunk made of what a walk within the size has gathered keeps to the size.
pub proof fn lemma_flushed_within_size(c: ChainSpec, w: Walk)
    requires
        walk_within_size(w),
        w.pending.len() > 0,
    ensures
        walk_within_size(flushed(c, w)),
{
    let f = flushed(c, w);
    lemma_total_len_reverse(w.pending);
    assert forall|i: int| 0 <= i < f.chunks.len() implies within_size(
        (#[trigger] f.chunks[i]).pairs,
    ) by {
        if i < w.chunks.len() {
            assert(f.chunks[i] == w.chunks[i]);
        }
    }
}

/// The chunks that a walk has made stay as the walk goes on.
pub proof fn lemma_walk_extends(c: ChainSpec, w: Walk, first: H256, fuel: nat)
    ensures
        w.chunks.len() <= walked(c, w, first, fuel).0.chunks.len(),
        walked(c, w, first, fuel).0.chunks.subrange(0, w.chunks.len() as int) == w.chunks,
    decreases fuel,
{
    let end = walked(c, w, first, fuel).0;
    if w.current == first {
        assert(end.chunks.subrange(0, w.chunks.len() as int) =~= w.chunks);
    } else if fuel == 0 || !c.blocks.contains_key(w.current) {
        assert(end.chunks.subrange(0, w.chunks.len() as int) =~= w.chunks);
    } else {
        let next = stepped(c, w);
        lemma_walk_extends(c, next, first, (fuel - 1) as nat);
        assert(next.chunks.subrange(0, w.chunks.len() as int) =~= w.chunks);
        assert(end.chunks.subrange(0, w.chunks.len() as int) =~= end.chunks.subrange(
            0,
            next.chunks.len() as int,
        ).subrange(0, w.chunks.len() as int));
    }
}

/// Gathers the entries of block chunks while the chain is walked backwards.
pub struct BlockChunker {
    rlps: Vec<Vec<u8>>,
    loaded_size: usize,
    current_hash: H256,
    hashes: Vec<H256>,
    chunks: Ghost<Seq<BlockChunk>>,
}

impl BlockChunker {
    /// How far the walk has come.
    pub closed spec fn walk(&self) -> Walk {
        Walk {
            pending: views(self.rlps@),
            loaded: self.loaded_size as int,
            current: self.current_hash,
            chunks: self.chunks@,
        }
    }

    /// The hashes of the chunks made so far.
    pub closed spec fn made(&self) -> Seq<H256> {
        self.hashes@
    }

    /// Nothing gathered means no size counted.
    pub closed spec fn wf(&self) -> bool {
        self.rlps@.len() == 0 ==> self.loaded_size == 0
    }

    /// A chunker that starts at `start` with nothing gathered and nothing made.
    pub fn new(start: H256) -> (r: BlockChunker)
        ensures
            r.wf(),
            r.walk() == (Walk {
                pending: Seq::empty(),
                loaded: 0,
                current: start,
                chunks: Seq::empty(),
            }),
            r.made() == Seq::<H256>::empty(),
    {
        let r = BlockChunker {
            rlps: Vec::new(),
            loaded_size: 0,
            current_hash: start,
            hashes: Vec::new(),
            chunks: Ghost(Seq::empty()),
        };
        assert(views(r.rlps@) =~= Seq::<Seq<u8>>::empty());
        r
    }

    /// Hands over the hashes of the chunks made.
    pub fn into_hashes(self) -> (r: Vec<H256>)
        ensures
            r@ == self.made(),
    {
        self.hashes
    }

    /// Makes a chunk of what was gathered and writes it out. The chunk starts
    /// with number, hash and total difficulty of the block to visit next: that
    /// is the parent of the oldest block gathered. Fails, and changes nothing,
    /// where that block is missing, the chunk too large to compress, or the
    /// sink refuses it.
    pub fn write_chunk<W: SnapshotWriter>(
        &mut self,
        chain: &BlockChain,
        writer: &mut Recorded<W>,
        progress: &mut Progress,
    ) -> (r: Result<(), Error>)
        requires
            chain.wf(),
            old(self).wf(),
        ensures
            final(self).wf(),
            final(writer).state_chunks() == old(writer).state_chunks(),
            final(writer).finished() == old(writer).finished(),
            final(writer).refusals() == old(writer).refusals() + (if r is Err
                && r->Err_0 is Io {
                1nat
            } else {
                0nat
            }),
            match r {
                Ok(_) => {
                    let chunk = flushed(chain@, old(self).walk()).chunks.last();
                    &&& chain@.blocks.contains_key(old(self).walk().current)
                    &&& compressible(block_chunk_rlp(chunk).len())
                    &&& final(self).walk() == flushed(chain@, old(self).walk())
                    &&& final(self).made() == old(self).made().push(
                        sealed(block_chunk_rlp(chunk)).0,
                    )
                    &&& final(writer).block_chunks() == old(writer).block_chunks().push(
                        sealed(block_chunk_rlp(chunk)),
                    )
                    &&& final(progress)@ == blocks_noted(
                        old(progress)@,
                        chunk.pairs.len() as usize,
                        sealed(block_chunk_rlp(chunk)).1.len() as usize,
                    )
                },
                Err(e) => {
                    let chunk = flushed(chain@, old(self).walk()).chunks.last();
                    &&& final(self).walk() == old(self).walk()
                    &&& final(self).made() == old(self).made()
                    &&& final(writer).block_chunks() == old(writer).block_chunks()
                    &&& final(progress)@ == old(progress)@
                    &&& match e {
                        Error::BlockNotFound(h) => h == old(self).walk().current
                            && !chain@.blocks.contains_key(h),
                        Error::TooBig => chain@.blocks.contains_key(old(self).walk().current)
                            && !compressible(block_chunk_rlp(chunk).len()),
                        Error::Io(_) => chain@.blocks.contains_key(old(self).walk().current)
                            && compressible(block_chunk_rlp(chunk).len()),
                        _ => false,
                    }
                },
            },
    {
        let parent_hash = self.current_hash;
        let (parent_number, parent_total_difficulty) = match chain.block_details(&parent_hash) {
            Some(details) => (details.number, details.total_difficulty),
            None => {
                return Err(Error::BlockNotFound(parent_hash));
            },
        };
        let num_entries = self.rlps.len();
        let mut items: Vec<Vec<u8>> = Vec::new();
        items.push(number_of(parent_number));
        items.push(encode_hash(&parent_hash));
        items.push(uint_of(&parent_total_difficulty));
        let ghost head = views(items@);
        let ghost pending = views(self.rlps@);
        proof {
            lemma_views(items@);
            lemma_views(self.rlps@);
        }
        let mut i: usize = num_entries;
        while i > 0
            invariant
                i <= num_entries,
                num_entries == self.rlps@.len(),
                pending == views(self.rlps@),
                head.len() == 3,
                views(items@) == head + pending.reverse().subrange(0, num_entries - i),
            decreases i,
        {
            i = i - 1;
            let pair = copy_bytes(&self.rlps[i]);
            proof {
                lemma_views_push(items@, pair);
                lemma_views(self.rlps@);
                assert(pending.reverse()[num_entries - i - 1] == pending[i as int]);
            }
            items.push(pair);
            assert(views(items@) =~= head + pending.reverse().subrange(0, num_entries - i));
        }
        let ghost chunk = flushed(chain@, self.walk()).chunks.last();
        proof {
            assert(pending.reverse().subrange(0, num_entries as int) =~= pending.reverse());
            assert(views(items@) =~= seq![
                rlp_u64(chunk.parent_number),
                rlp_hash(chunk.parent_hash),
                rlp_uint(chunk.parent_total_difficulty),
            ] + chunk.pairs);
        }
        let raw_data = list_of(&items);
        let compressed = match compress(raw_data.as_slice()) {
            Some(c) => c,
            None => {
                return Err(Error::TooBig);
            },
        };
        let hash = keccak(compressed.as_slice());
        match writer.write_block_chunk(hash, compressed.as_slice()) {
            Ok(_) => {},
            Err(e) => {
                return Err(Error::Io(e));
            },
        }
        progress.note_blocks(num_entries, compressed.len());
        self.hashes.push(hash);
        self.rlps = Vec::new();
        self.loaded_size = 0;
        self.chunks = Ghost(self.chunks@.push(chunk));
        proof {
            assert(views(self.rlps@) =~= Seq::<Seq<u8>>::empty());
        }
        Ok(())
    }

    /// Walks from the block to visit next back to `first_hash`, which is not
    /// visited, gathers an entry for each block on the way and writes a chunk
    /// whenever the next entry would bring what is gathered over the preferred
    /// size; what is left at the end becomes the last chunk. The walk ends
    /// with an error at a block that the chain does not hold, or after as many
    /// blocks as the chain holds. Whatever the outcome, the chunks written are
    /// the first ones that `walked` gives.
    pub fn chunk_all<W: SnapshotWriter>(
        &mut self,
        chain: &BlockChain,
        first_hash: H256,
        writer: &mut Recorded<W>,
        progress: &mut Progress,
    ) -> (r: Result<(), Error>)
        requires
            chain.wf(),
            old(self).wf(),
        ensures
            final(self).wf(),
            final(writer).state_chunks() == old(writer).state_chunks(),
            final(writer).finished() == old(writer).finished(),
            old(self).walk().chunks.len() <= final(self).walk().chunks.len(),
            final(writer).block_chunks() == old(writer).block_chunks() + seal_all(
                final(self).walk().chunks.skip(old(self).walk().chunks.len() as int),
            ),
            final(self).made() == old(self).made() + keys(
                seal_all(final(self).walk().chunks.skip(old(self).walk().chunks.len() as int)),
            ),
            final(progress)@ == noted_all(
                old(progress)@,
                final(self).walk().chunks.skip(old(self).walk().chunks.len() as int),
            ),
            final(writer).refusals() == old(writer).refusals() + (if r is Err
                && r->Err_0 is Io {
                1nat
            } else {
                0nat
            }),
            ({
                let plan = walked(chain@, old(self).walk(), first_hash, chain.count());
                &&& final(self).walk().chunks.len() <= plan.0.chunks.len()
                &&& final(self).walk().chunks == plan.0.chunks.subrange(
                    0,
                    final(self).walk().chunks.len() as int,
                )
                &&& match r {
                    Ok(_) => plan.1.is_none() && final(self).walk() == plan.0,
                    Err(Error::BlockNotFound(h)) => plan.1 == Some(h) && final(self).walk()
                        == plan.0,
                    Err(Error::TooBig) => final(self).walk().chunks.len() < plan.0.chunks.len()
                        && !compressible(
                        block_chunk_rlp(
                            plan.0.chunks[final(self).walk().chunks.len() as int],
                        ).len(),
                    ),
                    Err(Error::Io(_)) => final(self).walk().chunks.len() < plan.0.chunks.len(),
                    Err(_) => false,
                }
            }),
    {
        let ghost start = self.walk();
        let ghost plan = walked(chain@, start, first_hash, chain.count());
        let ghost log0 = writer.block_chunks();
        let ghost progress0 = progress@;
        let ghost n0 = self.chunks@.len() as int;
        let ghost made0 = self.hashes@;
        let mut fuel: usize = chain.len();
        proof {
            assert(self.chunks@.skip(n0) =~= Seq::<BlockChunk>::empty());
            assert(seal_all(self.chunks@.skip(n0)) =~= Seq::<(H256, Seq<u8>)>::empty());
            assert(log0 + seal_all(self.chunks@.skip(n0)) =~= log0);
            assert(keys(seal_all(self.chunks@.skip(n0))) =~= Seq::<H256>::empty());
            assert(made0 + keys(seal_all(self.chunks@.skip(n0))) =~= made0);
        }
        while self.current_hash != first_hash
            invariant
                chain.wf(),
                self.wf(),
                walked(chain@, self.walk(), first_hash, fuel as nat) == plan,
                plan == walked(chain@, old(self).walk(), first_hash, chain.count()),
                log0 == old(writer).block_chunks(),
                progress0 == old(progress)@,
                writer.state_chunks() == old(writer).state_chunks(),
                writer.finished() == old(writer).finished(),
                writer.refusals() == old(writer).refusals(),
                n0 == old(self).walk().chunks.len(),
                made0 == old(self).made(),
                n0 <= self.walk().chunks.len(),
                writer.block_chunks() == log0 + seal_all(self.walk().chunks.skip(n0)),
                self.made() == made0 + keys(seal_all(self.walk().chunks.skip(n0))),
                progress@ == noted_all(progress0, self.walk().chunks.skip(n0)),
            decreases fuel,
        {
            let ghost before = self.walk();
            proof {
                lemma_walk_extends(chain@, before, first_hash, fuel as nat);
            }
            if fuel == 0 {
                return Err(Error::BlockNotFound(self.current_hash));
            }
            let stored = match chain.stored(&self.current_hash) {
                Some(s) => s,
                None => {
                    return Err(Error::BlockNotFound(self.current_hash));
                },
            };
            let abridged_rlp = AbridgedBlock::from_block(&stored.block).into_inner();
            let mut pair_items: Vec<Vec<u8>> = Vec::new();
            pair_items.push(abridged_rlp);
            pair_items.push(copy_bytes(&stored.receipts));
            proof {
                lemma_views(pair_items@);
                assert(views(pair_items@) =~= seq![
                    crate::block::abridged_rlp(stored@.block),
                    stored@.receipts,
                ]);
            }
            let pair = list_of(&pair_items);
            let fits = pair.len() <= PREFERRED_CHUNK_SIZE && self.loaded_size
                <= PREFERRED_CHUNK_SIZE - pair.len();
            if !fits && self.rlps.len() > 0 {
                proof {
                    lemma_walk_extends(chain@, stepped(chain@, before), first_hash, (fuel - 1) as nat);
                }
                match self.write_chunk(chain, writer, progress) {
                    Ok(_) => {},
                    Err(e) => {
                        proof {
                            let next = stepped(chain@, before);
                            assert(next.chunks.len() == before.chunks.len() + 1);
                            assert(plan.0.chunks[before.chunks.len() as int] == next.chunks[before.chunks.len() as int]);
                        }
                        return Err(e);
                    },
                }
                proof {
                    lemma_seal_push(before.chunks.skip(n0), self.chunks@.last());
                    assert(self.chunks@.drop_last() =~= before.chunks);
                    assert(self.chunks@.skip(n0) =~= before.chunks.skip(n0).push(
                        self.chunks@.last(),
                    ));
                    assert(made0 + keys(seal_all(before.chunks.skip(n0))).push(
                        sealed(block_chunk_rlp(self.chunks@.last())).0,
                    ) =~= (made0 + keys(seal_all(before.chunks.skip(n0)))).push(
                        sealed(block_chunk_rlp(self.chunks@.last())).0,
                    ));
                    assert(log0 + seal_all(before.chunks.skip(n0)).push(
                        sealed(block_chunk_rlp(self.chunks@.last())),
                    ) =~= (log0 + seal_all(before.chunks.skip(n0))).push(
                        sealed(block_chunk_rlp(self.chunks@.last())),
                    ));
                }
            }
            proof {
                lemma_views_push(self.rlps@, pair);
                chain.lemma_wf();
            }
            self.loaded_size = self.loaded_size + pair.len();
            self.rlps.push(pair);
            self.current_hash = stored.details.parent;
            fuel = fuel - 1;
            assert(self.walk() == stepped(chain@, before));
        }
        proof {
            lemma_walk_extends(chain@, self.walk(), first_hash, fuel as nat);
        }
        if self.rlps.len() > 0 {
            let ghost before = self.walk();
            match self.write_chunk(chain, writer, progress) {
                Ok(_) => {},
                Err(e) => {
                    proof {
                        if chain@.blocks.contains_key(first_hash) {
                            assert(plan.0.chunks.len() == before.chunks.len() + 1);
                        }
                    }
                    return Err(e);
                },
            }
            proof {
                lemma_seal_push(before.chunks.skip(n0), self.chunks@.last());
                assert(self.chunks@.drop_last() =~= before.chunks);
                assert(self.chunks@.skip(n0) =~= before.chunks.skip(n0).push(self.chunks@.last()));
                assert(made0 + keys(seal_all(before.chunks.skip(n0))).push(
                    sealed(block_chunk_rlp(self.chunks@.last())).0,
                ) =~= (made0 + keys(seal_all(before.chunks.skip(n0)))).push(
                    sealed(block_chunk_rlp(self.chunks@.last())).0,
                ));
                assert(log0 + seal_all(before.chunks.skip(n0)).push(
                    sealed(block_chunk_rlp(self.chunks@.last())),
                ) =~= (log0 + seal_all(before.chunks.skip(n0))).push(
                    sealed(block_chunk_rlp(self.chunks@.last())),
                ));
            }
        }
        proof {
            assert(plan.0.chunks.subrange(0, plan.0.chunks.len() as int) =~= plan.0.chunks);
        }
        Ok(())
    }
}

/// Sealing one more chunk adds its stored form and its hash at the end.
pub proof fn lemma_seal_push(chunks: Seq<BlockChunk>, chunk: BlockChunk)
    ensures
        seal_all(chunks.push(chunk)) == seal_all(chunks).push(sealed(block_chunk_rlp(chunk))),
        keys(seal_all(chunks.push(chunk))) == keys(seal_all(chunks)).push(
            sealed(block_chunk_rlp(chunk)).0,
        ),
        forall|p: ProgressSpec|
            #![trigger noted_all(p, chunks.push(chunk))]
            noted_all(p, chunks.push(chunk)) == blocks_noted(
                noted_all(p, chunks),
                chunk.pairs.len() as usize,
                sealed(block_chunk_rlp(chunk)).1.len() as usize,
            ),
{
    assert(seal_all(chunks.push(chunk)) =~= seal_all(chunks).push(sealed(block_chunk_rlp(chunk))));
    assert(keys(seal_all(chunks.push(chunk))) =~= keys(seal_all(chunks)).push(
        sealed(block_chunk_rlp(chunk)).0,
    ));
    assert(chunks.push(chunk).drop_last() =~= chunks);
}

} // verus!

verus! {

/// Where the walk of a snapshot taken at a block with the number
/// `start_number` ends: at the genesis block where fewer blocks than a
/// snapshot holds came before, else at the block that stands for the number
/// that many before; nowhere where no block stands for it.
pub open spec fn first_hash_of(c: ChainSpec, start_number: u64) -> Option<H256> {
    if start_number < SNAPSHOT_BLOCKS {
        Some(c.genesis)
    } else if c.canon.contains_key((start_number - SNAPSHOT_BLOCKS) as u64) {
        Some(c.canon[(start_number - SNAPSHOT_BLOCKS) as u64])
    } else {
        None
    }
}

/// A walk that is about to start at the block `start`.
pub open spec fn walk_from(start: H256) -> Walk {
    Walk { pending: Seq::empty(), loaded: 0, current: start, chunks: Seq::empty() }
}

/// Whether each entry of a log stands under the hash of its own bytes.
pub open spec fn content_addressed(log: Seq<(H256, Seq<u8>)>) -> bool {
    forall|i: int| 0 <= i < log.len() ==> (#[trigger] log[i]).0 == keccak_hash(log[i].1)
}

/// Every sealed chunk stands under the hash of its own bytes.
pub proof fn lemma_sealed_content_addressed(chunks: Seq<BlockChunk>)
    ensures
        content_addressed(seal_all(chunks)),
{
}

/// Makes the block chunks of a snapshot taken at the block with the given
/// number and hash, writes them out and returns their hashes, the chunk with
/// the newest blocks first. The walk goes back from that block to the one
/// that `first_hash_of` gives. The chunks are those that `walked` gives, as
/// far as they could be written: all of them on success and where a block was
/// missing, fewer where one was too large to compress or the sink failed.
/// Each is written under the hash of its compressed bytes, and no chunk's
/// entries exceed the preferred size together unless it has a single entry.
pub fn chunk_blocks<W: SnapshotWriter>(
    chain: &BlockChain,
    start_block_info: (u64, H256),
    writer: &mut Recorded<W>,
    progress: &mut Progress,
) -> (r: Result<Vec<H256>, Error>)
    requires
        chain.wf(),
    ensures
        final(writer).state_chunks() == old(writer).state_chunks(),
        final(writer).finished() == old(writer).finished(),
        final(writer).refusals() == old(writer).refusals() + (if r is Err && r->Err_0 is Io {
            1nat
        } else {
            0nat
        }),
        match first_hash_of(chain@, start_block_info.0) {
            None => {
                &&& r matches Err(Error::IncompleteChain)
                &&& final(writer).block_chunks() == old(writer).block_chunks()
                &&& final(progress)@ == old(progress)@
            },
            Some(first) => {
                let plan = walked(chain@, walk_from(start_block_info.1), first, chain.count());
                let n = final(writer).block_chunks().len() - old(writer).block_chunks().len();
                &&& 0 <= n <= plan.0.chunks.len()
                &&& final(writer).block_chunks() == old(writer).block_chunks() + seal_all(
                    plan.0.chunks.subrange(0, n),
                )
                &&& content_addressed(seal_all(plan.0.chunks.subrange(0, n)))
                &&& forall|i: int|
                    0 <= i < plan.0.chunks.len() ==> within_size((#[trigger] plan.0.chunks[i]).pairs)
                &&& final(progress)@ == noted_all(old(progress)@, plan.0.chunks.subrange(0, n))
                &&& match r {
                    Ok(hashes) => n == plan.0.chunks.len() && plan.1.is_none() && hashes@ == keys(
                        seal_all(plan.0.chunks),
                    ),
                    Err(Error::BlockNotFound(h)) => n == plan.0.chunks.len() && plan.1 == Some(h),
                    Err(Error::TooBig) => n < plan.0.chunks.len() && !compressible(
                        block_chunk_rlp(plan.0.chunks[n]).len(),
                    ),
                    Err(Error::Io(_)) => n < plan.0.chunks.len(),
                    Err(_) => false,
                }
            },
        },
{
    let (start_number, start_hash) = start_block_info;
    let first_hash = if start_number < SNAPSHOT_BLOCKS {
        chain.genesis_hash()
    } else {
        match chain.block_hash(start_number - SNAPSHOT_BLOCKS) {
            Some(h) => h,
            None => {
                return Err(Error::IncompleteChain);
            },
        }
    };
    let mut chunker = BlockChunker::new(start_hash);
    let ghost plan = walked(chain@, walk_from(start_hash), first_hash, chain.count());
    proof {
        lemma_size_bound(chain@, walk_from(start_hash), first_hash, chain.count());
        assert(total_len(Seq::<Seq<u8>>::empty()) == 0);
    }
    let outcome = chunker.chunk_all(chain, first_hash, writer, progress);
    proof {
        let made = chunker.walk().chunks;
        assert(made.skip(0) =~= made);
        assert(Seq::<H256>::empty() + keys(seal_all(made)) =~= keys(seal_all(made)));
        assert(plan.0.chunks.subrange(0, made.len() as int) == made);
        assert(seal_all(made).len() == made.len());
        lemma_sealed_content_addressed(made);
        if made.len() == plan.0.chunks.len() {
            assert(plan.0.chunks.subrange(0, made.len() as int) =~= plan.0.chunks);
        }
    }
    match outcome {
        Ok(_) => Ok(chunker.into_hashes()),
        Err(e) => Err(e),
    }
}

} // verus!
