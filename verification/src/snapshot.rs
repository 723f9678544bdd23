use vstd::prelude::*;
use crate::chain::{BlockChain, ChainSpec};
use crate::chunker::{
    block_chunk_rlp, chunk_blocks, first_hash_of, keys, noted_all, seal_all, walk_from, walked,
    BlockChunk,
};
use crate::compress::compressible;
use crate::sorted_map::canonical;
use crate::error::Error;
use crate::hash::H256;
use crate::io::{Recorded, SnapshotWriter};
use crate::manifest::{ManifestData, ManifestSpec};
use crate::progress::{Progress, ProgressSpec};
use crate::state::{state_root_of, StateDb};
use crate::state_chunker::{
    account_too_big, chunk_state, noted_states, seal_states, state_chunk_rlp, state_plan,
};

verus! {

/// The block chunks that a snapshot at the block with this number and hash
/// is to hold, and the hash of the block at which the walk broke off, if it
/// did. No chunks where the chain does not go back far enough.
pub open spec fn planned_blocks(chain: ChainSpec, fuel: nat, number: u64, block_at: H256) -> (
    Seq<BlockChunk>,
    Option<H256>,
) {
    match first_hash_of(chain, number) {
        Some(first) => {
            let plan = walked(chain, walk_from(block_at), first, fuel);
            (plan.0.chunks, plan.1)
        },
        None => (Seq::empty(), None),
    }
}

/// Takes a snapshot of the chain at the block `block_at` and of the state,
/// whose root has to be the state root of that block: writes the state
/// chunks, then the block chunks, then the manifest, and marks the progress
/// as done. Stops at the first failure, with its error: what was written
/// till then stays written, no manifest is written, and the progress is not
/// marked as done.
///
/// The state chunks are those of `state_plan`, the block chunks those of
/// `planned_blocks`; whatever the outcome, the sink has taken the first so
/// many of them, in order, and the progress has noted these. An error is
/// `TooBig` only where the next chunk, or an account, is too large to
/// compress, and `Io` only where the sink refused the next chunk or the
/// manifest.
pub fn take_snapshot<W: SnapshotWriter>(
    chain: &BlockChain,
    block_at: H256,
    state: &StateDb,
    writer: &mut Recorded<W>,
    p: &mut Progress,
) -> (r: Result<(), Error>)
    requires
        chain.wf(),
        state.wf(),
    ensures
        final(writer).refusals() == old(writer).refusals() + (if r is Err && r->Err_0 is Io {
            1nat
        } else {
            0nat
        }),
        !chain@.blocks.contains_key(block_at) ==> {
            &&& r matches Err(Error::InvalidStartingBlock(h)) && h == block_at
            &&& final(writer).state_chunks() == old(writer).state_chunks()
            &&& final(writer).block_chunks() == old(writer).block_chunks()
            &&& final(writer).finished() == old(writer).finished()
            &&& final(p)@ == old(p)@
        },
        chain@.blocks.contains_key(block_at) && chain@.blocks[block_at].block.header.state_root
            != state_root_of(state@) ==> {
            &&& r matches Err(Error::InvalidStateRoot(h)) && h
                == chain@.blocks[block_at].block.header.state_root
            &&& final(writer).state_chunks() == old(writer).state_chunks()
            &&& final(writer).block_chunks() == old(writer).block_chunks()
            &&& final(writer).finished() == old(writer).finished()
            &&& final(p)@ == old(p)@
        },
        chain@.blocks.contains_key(block_at) && chain@.blocks[block_at].block.header.state_root
            == state_root_of(state@) ==> ({
            let header = chain@.blocks[block_at].block.header;
            let states = state_plan(state@);
            let first = first_hash_of(chain@, header.number);
            let blocks = planned_blocks(chain@, chain.count(), header.number, block_at);
            let ns = final(writer).state_chunks().len() - old(writer).state_chunks().len();
            let nb = final(writer).block_chunks().len() - old(writer).block_chunks().len();
            &&& 0 <= ns <= states.len()
            &&& 0 <= nb <= blocks.0.len()
            &&& nb > 0 ==> ns == states.len()
            &&& final(writer).state_chunks() == old(writer).state_chunks() + seal_states(
                states.subrange(0, ns),
            )
            &&& final(writer).block_chunks() == old(writer).block_chunks() + seal_all(
                blocks.0.subrange(0, nb),
            )
            &&& final(p)@ == (ProgressSpec {
                done: r.is_ok() || old(p)@.done,
                ..noted_all(noted_states(old(p)@, states.subrange(0, ns)), blocks.0.subrange(0, nb))
            })
            &&& final(writer).finished() == (if r.is_ok() {
                Some(
                    ManifestSpec {
                        state_hashes: keys(seal_states(states)),
                        block_hashes: keys(seal_all(blocks.0)),
                        state_root: header.state_root,
                        block_number: header.number,
                        block_hash: block_at,
                    },
                )
            } else {
                old(writer).finished()
            })
            &&& match r {
                Ok(_) => ns == states.len() && first.is_some() && nb == blocks.0.len()
                    && blocks.1.is_none(),
                Err(Error::TooBig) => (nb == 0 && ((ns < states.len() && !compressible(
                    state_chunk_rlp(states[ns]).len(),
                )) || exists|k: int|
                    0 <= k < canonical(state@).len() && #[trigger] account_too_big(
                        canonical(state@),
                        k,
                    ))) || (ns == states.len() && nb < blocks.0.len() && !compressible(
                    block_chunk_rlp(blocks.0[nb]).len(),
                )),
                Err(Error::Io(_)) => (ns < states.len() && nb == 0) || (ns == states.len()
                    && first.is_some() && nb < blocks.0.len()) || (ns == states.len()
                    && first.is_some() && nb == blocks.0.len() && blocks.1.is_none()),
                Err(Error::IncompleteChain) => ns == states.len() && first.is_none(),
                Err(Error::BlockNotFound(h)) => ns == states.len() && first.is_some() && nb
                    == blocks.0.len() && blocks.1 == Some(h),
                Err(_) => false,
            }
        }),
{
    let (state_root, number) = match chain.block(&block_at) {
        Some(block) => (block.header.state_root, block.header.number),
        None => {
            return Err(Error::InvalidStartingBlock(block_at));
        },
    };
    let ghost at_start = p@;
    let ghost state_log = writer.state_chunks();
    let ghost block_log = writer.block_chunks();
    let ghost states = state_plan(state@);
    let ghost blocks = planned_blocks(chain@, chain.count(), number, block_at);
    let state_res = chunk_state(state, &state_root, writer, p);
    let ghost ns = writer.state_chunks().len() - state_log.len();
    let ghost after_state = p@;
    proof {
        if state_root == state_root_of(state@) {
            lemma_noted_keeps_done(at_start, states, ns);
            assert(blocks.0.subrange(0, 0) =~= Seq::<BlockChunk>::empty());
            assert(seal_all(blocks.0.subrange(0, 0)) =~= Seq::<(H256, Seq<u8>)>::empty());
            assert(block_log + seal_all(blocks.0.subrange(0, 0)) =~= block_log);
            if ns == states.len() {
                assert(states.subrange(0, ns) =~= states);
            }
        }
    }
    let state_hashes = match state_res {
        Ok(hashes) => hashes,
        Err(e) => {
            return Err(e);
        },
    };
    let block_res = chunk_blocks(chain, (number, block_at), writer, p);
    let ghost nb = writer.block_chunks().len() - block_log.len();
    proof {
        lemma_noted_blocks_keep_done(after_state, blocks.0, nb);
        if nb == blocks.0.len() {
            assert(blocks.0.subrange(0, nb) =~= blocks.0);
        }
    }
    let block_hashes = match block_res {
        Ok(hashes) => hashes,
        Err(e) => {
            return Err(e);
        },
    };
    let manifest_data = ManifestData {
        state_hashes: state_hashes,
        block_hashes: block_hashes,
        state_root: state_root,
        block_number: number,
        block_hash: block_at,
    };
    match writer.finish(manifest_data) {
        Ok(_) => {},
        Err(e) => {
            return Err(Error::Io(e));
        },
    }
    p.finish();
    Ok(())
}

/// Writing state chunks does not mark the progress as done.
pub proof fn lemma_noted_keeps_done(p: ProgressSpec, chunks: Seq<Seq<Seq<u8>>>, n: int)
    requires
        0 <= n <= chunks.len(),
    ensures
        noted_states(p, chunks.subrange(0, n)).done == p.done,
    decreases n,
{
    if n > 0 {
        lemma_noted_keeps_done(p, chunks, n - 1);
        assert(chunks.subrange(0, n).drop_last() =~= chunks.subrange(0, n - 1));
    }
}

/// Writing block chunks does not mark the progress as done.
pub proof fn lemma_noted_blocks_keep_done(
    p: ProgressSpec,
    chunks: Seq<BlockChunk>,
    n: int,
)
    requires
        0 <= n <= chunks.len(),
    ensures
        noted_all(p, chunks.subrange(0, n)).done == p.done,
    decreases n,
{
    if n > 0 {
        lemma_noted_blocks_keep_done(p, chunks, n - 1);
        assert(chunks.subrange(0, n).drop_last() =~= chunks.subrange(0, n - 1));
    }
}

} // verus!
