use vstd::prelude::*;
use crate::block::{header_hash, Block, BlockSpec};
use crate::hash::H256;
use crate::index::HashIndex;
use crate::uint::U256;

verus! {

/// What the chain keeps about a block besides the block itself.
#[derive(Debug)]
pub struct BlockDetails {
    pub number: u64,
    pub total_difficulty: U256,
    pub parent: H256,
    pub children: Vec<H256>,
}

/// A block as the chain holds it.
#[derive(Debug)]
pub struct StoredBlock {
    pub hash: H256,
    pub block: Block,
    pub receipts: Vec<u8>,
    pub details: BlockDetails,
}

/// A stored block, as plain values.
pub struct StoredSpec {
    pub block: BlockSpec,
    pub receipts: Seq<u8>,
    pub number: u64,
    pub total_difficulty: U256,
    pub parent: H256,
    pub children: Seq<H256>,
}

impl View for StoredBlock {
    type V = StoredSpec;

    open spec fn view(&self) -> StoredSpec {
        StoredSpec {
            block: self.block@,
            receipts: self.receipts@,
            number: self.details.number,
            total_difficulty: self.details.total_difficulty,
            parent: self.details.parent,
            children: self.details.children@,
        }
    }
}

/// A chain, as plain values: the blocks by hash, the hash that stands for
/// each number, the best block and the genesis block.
pub struct ChainSpec {
    pub blocks: Map<H256, StoredSpec>,
    pub canon: Map<u64, H256>,
    pub best: H256,
    pub genesis: H256,
}

/// The stored block `s` with one more child.
pub open spec fn with_child(s: StoredSpec, child: H256) -> StoredSpec {
    StoredSpec { children: s.children.push(child), ..s }
}

/// Whether a block with the given parent is cut off from the chain `c`:
/// neither the block nor its parent is in it.
pub open spec fn cut_off(c: ChainSpec, b: BlockSpec) -> bool {
    !c.blocks.contains_key(header_hash(b.header)) && !c.blocks.contains_key(b.header.parent_hash)
}

/// The chain `c` after the block `b` was put in without regard to order.
/// A block that is already there changes nothing. The total difficulty builds
/// on that of the parent where the parent is there, else on `parent_td`; a
/// parent that is there gets the block as a child. The block stands for its
/// number from then on, and is the best block where `is_best` says so.
pub open spec fn insert_spec(
    c: ChainSpec,
    b: BlockSpec,
    receipts: Seq<u8>,
    parent_td: Option<U256>,
    is_best: bool,
) -> ChainSpec {
    let hash = header_hash(b.header);
    let parent = b.header.parent_hash;
    if c.blocks.contains_key(hash) {
        c
    } else {
        let known = c.blocks.contains_key(parent);
        let base = if known {
            c.blocks[parent].total_difficulty
        } else {
            parent_td.unwrap()
        };
        let stored = StoredSpec {
            block: b,
            receipts: receipts,
            number: b.header.number,
            total_difficulty: base.wrapping_sum(b.header.difficulty),
            parent: parent,
            children: Seq::empty(),
        };
        let blocks = if known {
            c.blocks.insert(parent, with_child(c.blocks[parent], hash))
        } else {
            c.blocks
        };
        ChainSpec {
            blocks: blocks.insert(hash, stored),
            canon: c.canon.insert(b.header.number, hash),
            best: if is_best {
                hash
            } else {
                c.best
            },
            genesis: c.genesis,
        }
    }
}

/// A block that was put in is in the chain, and what was there stays.
pub proof fn lemma_insert_keeps(
    c: ChainSpec,
    b: BlockSpec,
    receipts: Seq<u8>,
    parent_td: Option<U256>,
    is_best: bool,
)
    ensures
        insert_spec(c, b, receipts, parent_td, is_best).blocks.contains_key(
            header_hash(b.header),
        ),
        forall|h: H256|
            c.blocks.contains_key(h) ==> #[trigger] insert_spec(
                c,
                b,
                receipts,
                parent_td,
                is_best,
            ).blocks.contains_key(h),
        insert_spec(c, b, receipts, parent_td, is_best).genesis == c.genesis,
        insert_spec(c, b, receipts, parent_td, is_best).best == (if is_best && !c.blocks.contains_key(
            header_hash(b.header),
        ) {
            header_hash(b.header)
        } else {
            c.best
        }),
{
}

/// The chain `c` after `child` was added to the children of `parent`.
pub open spec fn add_child_spec(c: ChainSpec, parent: H256, child: H256) -> ChainSpec {
    ChainSpec { blocks: c.blocks.insert(parent, with_child(c.blocks[parent], child)), ..c }
}

/// The key under which the index of numbers holds a number.
pub open spec fn number_key(n: u64) -> H256 {
    H256 { w0: 0, w1: 0, w2: 0, w3: n }
}

/// How a chain is laid out: the blocks in the order in which they came, each
/// with its hash; where each hash stands in that order; the hash for each
/// number, under the number's key; the best block and the genesis block.
pub struct Layout {
    pub entries: Seq<(H256, StoredSpec)>,
    pub index: Map<H256, usize>,
    pub canon: Map<H256, H256>,
    pub best: H256,
    pub genesis: H256,
}

/// The index leads to each block, and to nothing else; each block is kept
/// under the hash of its header; what stands for a number, the best block
/// and the genesis block are blocks of the chain.
pub open spec fn layout_wf(l: Layout) -> bool {
    &&& forall|h: H256| #[trigger]
        l.index.contains_key(h) ==> l.index[h] < l.entries.len() && l.entries[l.index[h] as int].0
            == h
    &&& forall|i: int|
        0 <= i < l.entries.len() ==> l.index.contains_key((#[trigger] l.entries[i]).0)
            && l.index[l.entries[i].0] == i
    &&& forall|i: int|
        0 <= i < l.entries.len() ==> (#[trigger] l.entries[i]).0 == header_hash(
            l.entries[i].1.block.header,
        ) && l.entries[i].1.number == l.entries[i].1.block.header.number && l.entries[i].1.parent
            == l.entries[i].1.block.header.parent_hash
    &&& forall|k: H256| #[trigger] l.canon.contains_key(k) ==> l.index.contains_key(l.canon[k])
    &&& l.index.contains_key(l.best)
    &&& l.index.contains_key(l.genesis)
}

/// The chain that a layout stands for.
pub open spec fn layout_view(l: Layout) -> ChainSpec {
    ChainSpec {
        blocks: Map::new(|h: H256| l.index.contains_key(h), |h: H256| l.entries[l.index[h] as int].1),
        canon: Map::new(
            |n: u64| l.canon.contains_key(number_key(n)),
            |n: u64| l.canon[number_key(n)],
        ),
        best: l.best,
        genesis: l.genesis,
    }
}

/// The layout after `child` was added to the children of the block at `at`.
pub open spec fn layout_child(l: Layout, at: int, child: H256) -> Layout {
    Layout { entries: l.entries.update(at, (l.entries[at].0, with_child(l.entries[at].1, child))), ..l }
}

/// The layout after a new block was appended under `hash`.
pub open spec fn layout_push(l: Layout, hash: H256, stored: StoredSpec, is_best: bool) -> Layout {
    Layout {
        entries: l.entries.push((hash, stored)),
        index: l.index.insert(hash, l.entries.len() as usize),
        canon: l.canon.insert(number_key(stored.number), hash),
        best: if is_best {
            hash
        } else {
            l.best
        },
        genesis: l.genesis,
    }
}

/// Adding a child keeps a layout in order and changes the chain as
/// `add_child_spec` says.
pub proof fn lemma_layout_child(l: Layout, at: int, child: H256)
    requires
        layout_wf(l),
        0 <= at < l.entries.len(),
    ensures
        layout_wf(layout_child(l, at, child)),
        layout_view(layout_child(l, at, child)) == add_child_spec(
            layout_view(l),
            l.entries[at].0,
            child,
        ),
{
    let m = layout_child(l, at, child);
    let parent = l.entries[at].0;
    assert forall|i: int| 0 <= i < m.entries.len() implies m.index.contains_key(
        (#[trigger] m.entries[i]).0,
    ) && m.index[m.entries[i].0] == i by {
        assert(m.entries[i].0 == l.entries[i].0);
    }
    assert forall|i: int| 0 <= i < m.entries.len() implies (#[trigger] m.entries[i]).0
        == header_hash(m.entries[i].1.block.header) && m.entries[i].1.number
        == m.entries[i].1.block.header.number && m.entries[i].1.parent
        == m.entries[i].1.block.header.parent_hash by {
        assert(l.entries[i].0 == header_hash(l.entries[i].1.block.header));
    }
    assert forall|h: H256| #[trigger] m.index.contains_key(h) implies m.index[h] < m.entries.len()
        && m.entries[m.index[h] as int].0 == h by {
        assert(l.entries[l.index[h] as int].0 == h);
    }
    let goal = add_child_spec(layout_view(l), parent, child);
    assert(l.index[parent] == at);
    assert forall|h: H256| layout_view(m).blocks.contains_key(h) implies layout_view(m).blocks[h]
        == goal.blocks[h] by {
        if h != parent {
            assert(l.entries[l.index[h] as int].0 == h);
        }
    }
    assert(layout_view(m).blocks =~= goal.blocks);
    assert(layout_view(m).canon =~= goal.canon);
}

/// Appending a new block keeps a layout in order and adds the block to the chain.
pub proof fn lemma_layout_push(l: Layout, hash: H256, stored: StoredSpec, is_best: bool)
    requires
        layout_wf(l),
        !l.index.contains_key(hash),
        l.entries.len() <= usize::MAX,
        hash == header_hash(stored.block.header),
        stored.number == stored.block.header.number,
        stored.parent == stored.block.header.parent_hash,
    ensures
        layout_wf(layout_push(l, hash, stored, is_best)),
        layout_view(layout_push(l, hash, stored, is_best)).blocks == layout_view(l).blocks.insert(
            hash,
            stored,
        ),
        layout_view(layout_push(l, hash, stored, is_best)).canon == layout_view(l).canon.insert(
            stored.number,
            hash,
        ),
{
    let m = layout_push(l, hash, stored, is_best);
    let n = l.entries.len() as int;
    assert forall|i: int| 0 <= i < m.entries.len() implies m.index.contains_key(
        (#[trigger] m.entries[i]).0,
    ) && m.index[m.entries[i].0] == i by {
        if i < n {
            assert(m.entries[i] == l.entries[i]);
            assert(l.index.contains_key(l.entries[i].0));
        }
    }
    assert forall|i: int| 0 <= i < m.entries.len() implies (#[trigger] m.entries[i]).0
        == header_hash(m.entries[i].1.block.header) && m.entries[i].1.number
        == m.entries[i].1.block.header.number && m.entries[i].1.parent
        == m.entries[i].1.block.header.parent_hash by {
        if i < n {
            assert(m.entries[i] == l.entries[i]);
        }
    }
    assert forall|h: H256| #[trigger] m.index.contains_key(h) implies m.index[h] < m.entries.len()
        && m.entries[m.index[h] as int].0 == h by {
        if h != hash {
            assert(l.index.contains_key(h));
            assert(m.entries[l.index[h] as int] == l.entries[l.index[h] as int]);
        }
    }
    assert forall|k: H256| #[trigger] m.canon.contains_key(k) implies m.index.contains_key(
        m.canon[k],
    ) by {
        if k != number_key(stored.number) {
            assert(l.canon.contains_key(k));
        }
    }
    let goal = layout_view(l).blocks.insert(hash, stored);
    assert forall|h: H256| layout_view(m).blocks.contains_key(h) implies layout_view(m).blocks[h]
        == goal[h] by {
        if h != hash {
            assert(l.index.contains_key(h));
            assert(m.entries[l.index[h] as int] == l.entries[l.index[h] as int]);
        }
    }
    assert(layout_view(m).blocks =~= goal);
    let canon_goal = layout_view(l).canon.insert(stored.number, hash);
    assert forall|k: u64| layout_view(m).canon.contains_key(k) <==> canon_goal.contains_key(k) by {
        if number_key(k) == number_key(stored.number) {
            assert(number_key(k).w3 == number_key(stored.number).w3);
        }
    }
    assert(layout_view(m).canon =~= canon_goal);
}

/// Blocks in memory, found by hash and by number.
pub struct BlockChain {
    blocks: Vec<StoredBlock>,
    index: HashIndex<usize>,
    canon: HashIndex<H256>,
    best_hash: H256,
    genesis_hash: H256,
}

impl View for BlockChain {
    type V = ChainSpec;

    closed spec fn view(&self) -> ChainSpec {
        layout_view(self.layout())
    }
}

impl BlockChain {
    /// How the chain is laid out.
    pub closed spec fn layout(&self) -> Layout {
        Layout {
            entries: Seq::new(
                self.blocks@.len(),
                |i: int| (self.blocks@[i].hash, self.blocks@[i]@),
            ),
            index: self.index@,
            canon: self.canon@,
            best: self.best_hash,
            genesis: self.genesis_hash,
        }
    }

    /// The tables are in order, and so is the layout.
    pub closed spec fn wf(&self) -> bool {
        &&& self.index.wf()
        &&& self.canon.wf()
        &&& layout_wf(self.layout())
    }

    /// What holds of every chain.
    pub proof fn lemma_wf(&self)
        requires
            self.wf(),
        ensures
            self@.blocks.contains_key(self@.best),
            self@.blocks.contains_key(self@.genesis),
            forall|n: u64| #[trigger]
                self@.canon.contains_key(n) ==> self@.blocks.contains_key(self@.canon[n]),
            forall|h: H256| #[trigger]
                self@.blocks.contains_key(h) ==> header_hash(self@.blocks[h].block.header) == h
                    && self@.blocks[h].number == self@.blocks[h].block.header.number
                    && self@.blocks[h].parent == self@.blocks[h].block.header.parent_hash,
    {
        let l = self.layout();
        assert forall|n: u64| #[trigger] self@.canon.contains_key(n) implies self@.blocks.contains_key(
            self@.canon[n],
        ) by {
            assert(l.canon.contains_key(number_key(n)));
        }
        assert forall|h: H256| #[trigger] self@.blocks.contains_key(h) implies header_hash(
            self@.blocks[h].block.header,
        ) == h && self@.blocks[h].number == self@.blocks[h].block.header.number
            && self@.blocks[h].parent == self@.blocks[h].block.header.parent_hash by {
            assert(l.index.contains_key(h));
            let i = l.index[h] as int;
            assert(l.entries[i].0 == h);
        }
    }

    /// The number of blocks in the chain.
    pub closed spec fn count(&self) -> nat {
        self.blocks@.len()
    }

    /// A chain that holds the genesis block alone. Its total difficulty is
    /// its own difficulty.
    pub fn new(genesis: Block, receipts: Vec<u8>) -> (r: BlockChain)
        ensures
            r.wf(),
            r@.genesis == header_hash(genesis@.header),
            r@.best == r@.genesis,
            r@.canon == Map::<u64, H256>::empty().insert(genesis@.header.number, r@.genesis),
            r@.blocks == Map::<H256, StoredSpec>::empty().insert(
                r@.genesis,
                StoredSpec {
                    block: genesis@,
                    receipts: receipts@,
                    number: genesis@.header.number,
                    total_difficulty: genesis@.header.difficulty,
                    parent: genesis@.header.parent_hash,
                    children: Seq::empty(),
                },
            ),
    {
        let hash = genesis.header.hash();
        let number = genesis.header.number;
        let details = BlockDetails {
            number: number,
            total_difficulty: genesis.header.difficulty,
            parent: genesis.header.parent_hash,
            children: Vec::new(),
        };
        let mut blocks: Vec<StoredBlock> = Vec::new();
        blocks.push(StoredBlock { hash, block: genesis, receipts, details });
        let mut index: HashIndex<usize> = HashIndex::new();
        index.insert(hash, 0);
        let mut canon: HashIndex<H256> = HashIndex::new();
        canon.insert(H256 { w0: 0, w1: 0, w2: 0, w3: number }, hash);
        let r = BlockChain { blocks, index, canon, best_hash: hash, genesis_hash: hash };
        proof {
            let l = r.layout();
            assert(l.entries.len() == 1);
            assert(l.entries[0] == (hash, r.blocks@[0]@));
            assert(r@.blocks =~= Map::<H256, StoredSpec>::empty().insert(hash, r.blocks@[0]@));
            assert forall|n: u64| r@.canon.contains_key(n) <==> n == number by {
                if number_key(n) == number_key(number) {
                    assert(number_key(n).w3 == number_key(number).w3);
                }
            }
            assert(r@.canon =~= Map::<u64, H256>::empty().insert(number, hash));
        }
        r
    }

    /// The hash of the genesis block.
    pub fn genesis_hash(&self) -> (r: H256)
        ensures
            r == self@.genesis,
    {
        self.genesis_hash
    }

    /// The hash of the best block.
    pub fn best_block_hash(&self) -> (r: H256)
        ensures
            r == self@.best,
    {
        self.best_hash
    }

    /// The number of blocks in the chain.
    pub fn len(&self) -> (r: usize)
        ensures
            r == self.count(),
    {
        self.blocks.len()
    }

    /// Whether the chain holds a block with this hash.
    pub fn is_known(&self, hash: &H256) -> (r: bool)
        requires
            self.wf(),
        ensures
            r == self@.blocks.contains_key(*hash),
    {
        self.index.contains_key(hash)
    }

    /// The stored block with this hash, if the chain holds one.
    pub fn stored(&self, hash: &H256) -> (r: Option<&StoredBlock>)
        requires
            self.wf(),
        ensures
            match r {
                Some(s) => self@.blocks.contains_key(*hash) && s@ == self@.blocks[*hash] && s.hash
                    == *hash,
                None => !self@.blocks.contains_key(*hash),
            },
    {
        match self.index.get(hash) {
            Some(i) => {
                assert(self.layout().entries[*i as int] == (
                    self.blocks@[*i as int].hash,
                    self.blocks@[*i as int]@,
                ));
                Some(&self.blocks[*i])
            },
            None => None,
        }
    }

    /// The block with this hash, if the chain holds it.
    pub fn block(&self, hash: &H256) -> (r: Option<&Block>)
        requires
            self.wf(),
        ensures
            match r {
                Some(b) => self@.blocks.contains_key(*hash) && b@ == self@.blocks[*hash].block,
                None => !self@.blocks.contains_key(*hash),
            },
    {
        match self.stored(hash) {
            Some(s) => Some(&s.block),
            None => None,
        }
    }

    /// The receipts of the block with this hash, if the chain holds it.
    pub fn block_receipts(&self, hash: &H256) -> (r: Option<&Vec<u8>>)
        requires
            self.wf(),
        ensures
            match r {
                Some(b) => self@.blocks.contains_key(*hash) && b@ == self@.blocks[*hash].receipts,
                None => !self@.blocks.contains_key(*hash),
            },
    {
        match self.stored(hash) {
            Some(s) => Some(&s.receipts),
            None => None,
        }
    }

    /// The number of the block with this hash, if the chain holds it.
    pub fn block_number(&self, hash: &H256) -> (r: Option<u64>)
        requires
            self.wf(),
        ensures
            match r {
                Some(n) => self@.blocks.contains_key(*hash) && n == self@.blocks[*hash].number,
                None => !self@.blocks.contains_key(*hash),
            },
    {
        match self.stored(hash) {
            Some(s) => Some(s.details.number),
            None => None,
        }
    }

    /// The details of the block with this hash, if the chain holds it.
    pub fn block_details(&self, hash: &H256) -> (r: Option<&BlockDetails>)
        requires
            self.wf(),
        ensures
            match r {
                Some(d) => self@.blocks.contains_key(*hash) && d.number
                    == self@.blocks[*hash].number && d.total_difficulty
                    == self@.blocks[*hash].total_difficulty && d.parent
                    == self@.blocks[*hash].parent && d.children@ == self@.blocks[*hash].children,
                None => !self@.blocks.contains_key(*hash),
            },
    {
        match self.stored(hash) {
            Some(s) => Some(&s.details),
            None => None,
        }
    }

    /// The hash of the block that stands for `number`, if one does.
    pub fn block_hash(&self, number: u64) -> (r: Option<H256>)
        requires
            self.wf(),
        ensures
            match r {
                Some(h) => self@.canon.contains_key(number) && h == self@.canon[number],
                None => !self@.canon.contains_key(number),
            },
    {
        match self.canon.get(&H256 { w0: 0, w1: 0, w2: 0, w3: number }) {
            Some(h) => Some(*h),
            None => None,
        }
    }

    /// Adds `child` to the children of the block at place `at`.
    fn push_child(&mut self, at: usize, child: H256)
        requires
            old(self).wf(),
            at < old(self).layout().entries.len(),
        ensures
            final(self).wf(),
            final(self).layout() == layout_child(old(self).layout(), at as int, child),
            final(self)@ == add_child_spec(
                old(self)@,
                old(self).layout().entries[at as int].0,
                child,
            ),
            final(self).count() == old(self).count(),
    {
        self.blocks[at].details.children.push(child);
        proof {
            assert(self.layout().entries =~= layout_child(
                old(self).layout(),
                at as int,
                child,
            ).entries);
            lemma_layout_child(old(self).layout(), at as int, child);
        }
    }

    /// Appends a block that the chain does not hold yet.
    fn push_block(&mut self, stored: StoredBlock, is_best: bool)
        requires
            old(self).wf(),
            !old(self).layout().index.contains_key(stored.hash),
            stored.hash == header_hash(stored@.block.header),
            stored@.number == stored@.block.header.number,
            stored@.parent == stored@.block.header.parent_hash,
        ensures
            final(self).wf(),
            final(self).layout() == layout_push(old(self).layout(), stored.hash, stored@, is_best),
            final(self)@.blocks == old(self)@.blocks.insert(stored.hash, stored@),
            final(self)@.canon == old(self)@.canon.insert(stored@.number, stored.hash),
            final(self)@.best == if is_best {
                stored.hash
            } else {
                old(self)@.best
            },
            final(self)@.genesis == old(self)@.genesis,
            final(self).count() == old(self).count() + 1,
    {
        let hash = stored.hash;
        let number = stored.details.number;
        let at = self.blocks.len();
        let ghost spec_stored = stored@;
        self.blocks.push(stored);
        self.index.insert(hash, at);
        self.canon.insert(H256 { w0: 0, w1: 0, w2: 0, w3: number }, hash);
        if is_best {
            self.best_hash = hash;
        }
        proof {
            assert(self.layout().entries =~= layout_push(
                old(self).layout(),
                hash,
                spec_stored,
                is_best,
            ).entries);
            lemma_layout_push(old(self).layout(), hash, spec_stored, is_best);
        }
    }

    /// Puts a block of the canonical chain in, whether or not its parent is
    /// there yet: see `insert_spec`. Returns whether the block was cut off,
    /// that is new and without its parent in the chain.
    pub fn insert_unordered_block(
        &mut self,
        block: Block,
        receipts: Vec<u8>,
        parent_td: Option<U256>,
        is_best: bool,
    ) -> (r: bool)
        requires
            old(self).wf(),
            parent_td.is_some() || old(self)@.blocks.contains_key(block@.header.parent_hash),
        ensures
            final(self).wf(),
            final(self)@ == insert_spec(old(self)@, block@, receipts@, parent_td, is_best),
            r == cut_off(old(self)@, block@),
            final(self).count() <= old(self).count() + 1,
    {
        let hash = block.header.hash();
        self.insert_hashed(hash, block, receipts, parent_td, is_best)
    }

    /// As `insert_unordered_block`, for a block whose hash is at hand.
    pub fn insert_hashed(
        &mut self,
        hash: H256,
        block: Block,
        receipts: Vec<u8>,
        parent_td: Option<U256>,
        is_best: bool,
    ) -> (r: bool)
        requires
            old(self).wf(),
            hash == header_hash(block@.header),
            parent_td.is_some() || old(self)@.blocks.contains_key(block@.header.parent_hash),
        ensures
            final(self).wf(),
            final(self)@ == insert_spec(old(self)@, block@, receipts@, parent_td, is_best),
            r == cut_off(old(self)@, block@),
            final(self).count() <= old(self).count() + 1,
    {
        if self.index.contains_key(&hash) {
            return false;
        }
        let parent = block.header.parent_hash;
        let number = block.header.number;
        let difficulty = block.header.difficulty;
        let place = match self.index.get(&parent) {
            Some(i) => Some(*i),
            None => None,
        };
        let ghost l0 = self.layout();
        let base = match place {
            Some(i) => {
                let base = self.blocks[i].details.total_difficulty;
                assert(l0.entries[i as int] == (self.blocks@[i as int].hash, self.blocks@[i as int]@));
                self.push_child(i, hash);
                base
            },
            None => parent_td.unwrap(),
        };
        let ghost l1 = self.layout();
        let details = BlockDetails {
            number: number,
            total_difficulty: base.overflowing_add(&difficulty).0,
            parent: parent,
            children: Vec::new(),
        };
        let stored = StoredBlock { hash, block, receipts, details };
        let ghost spec_stored = stored@;
        self.push_block(stored, is_best);
        proof {
            let goal = insert_spec(layout_view(l0), block@, receipts@, parent_td, is_best);
            if place.is_some() {
                assert(l0.entries[place.unwrap() as int].0 == parent);
            }
            assert(self@.blocks =~= goal.blocks);
            assert(self@.canon =~= goal.canon);
        }
        place.is_none()
    }

    /// Adds `child` to the children of the block `parent`.
    pub fn add_child(&mut self, parent: H256, child: H256)
        requires
            old(self).wf(),
            old(self)@.blocks.contains_key(parent),
        ensures
            final(self).wf(),
            final(self)@ == add_child_spec(old(self)@, parent, child),
            final(self).count() == old(self).count(),
    {
        let place = match self.index.get(&parent) {
            Some(i) => *i,
            None => 0,
        };
        assert(old(self).layout().entries[place as int].0 == parent);
        self.push_child(place, child);
    }
}

} // verus!
