use vstd::prelude::*;
use crate::codec::{
    covered, data_at, encode_hash, fixed_at, framed, hash_at, is_framed, list_at, list_items,
    list_of, number_at, number_of,
    rlp_bytes_at, rlp_fixed_at, rlp_hash, rlp_hash_at, rlp_item_seq, rlp_list, rlp_list_at,
    lemma_views, lemma_views_push, rlp_str, rlp_u64, rlp_u64_at, rlp_uint, rlp_uint_at,
    string_of, uint_at, uint_of, views,
};
use crate::error::DecodeError;
use crate::hash::{keccak, keccak_hash, H256};
use crate::uint::U256;

verus! {

/// Copies a byte vector.
pub fn copy_bytes(v: &Vec<u8>) -> (r: Vec<u8>)
    ensures
        r@ == v@,
{
    let mut r: Vec<u8> = Vec::new();
    let mut i: usize = 0;
    while i < v.len()
        invariant
            i <= v@.len(),
            r@ == v@.subrange(0, i as int),
        decreases v@.len() - i,
    {
        r.push(v[i]);
        i = i + 1;
        assert(r@ =~= v@.subrange(0, i as int));
    }
    assert(v@.subrange(0, v@.len() as int) =~= v@);
    r
}

/// Copies a vector of byte vectors.
pub fn copy_items(v: &Vec<Vec<u8>>) -> (r: Vec<Vec<u8>>)
    ensures
        views(r@) == views(v@),
{
    let mut r: Vec<Vec<u8>> = Vec::new();
    let mut i: usize = 0;
    while i < v.len()
        invariant
            i <= v@.len(),
            views(r@) == views(v@).subrange(0, i as int),
        decreases v@.len() - i,
    {
        let item = copy_bytes(&v[i]);
        proof {
            lemma_views_push(r@, item);
            lemma_views(v@);
        }
        r.push(item);
        i = i + 1;
        assert(views(r@) =~= views(v@).subrange(0, i as int));
    }
    assert(views(v@).subrange(0, v@.len() as int) =~= views(v@));
    r
}

/// The number of bytes of an author's address.
pub const ADDRESS_LEN: usize = 20;

/// The number of bytes of a log bloom.
pub const BLOOM_LEN: usize = 256;

/// The number of header fields that an abridged block carries.
pub const HEADER_FIELDS: usize = 10;

/// The number of body fields that an abridged block carries.
pub const BLOCK_FIELDS: usize = 2;

/// A block header. The seal fields are kept as they are encoded.
#[derive(Debug)]
pub struct Header {
    pub parent_hash: H256,
    pub uncles_hash: H256,
    pub author: Vec<u8>,
    pub state_root: H256,
    pub transactions_root: H256,
    pub receipts_root: H256,
    pub log_bloom: Vec<u8>,
    pub difficulty: U256,
    pub number: u64,
    pub gas_limit: U256,
    pub gas_used: U256,
    pub timestamp: u64,
    pub extra_data: Vec<u8>,
    pub seal: Vec<Vec<u8>>,
}

/// What a header holds, as plain values.
pub struct HeaderSpec {
    pub parent_hash: H256,
    pub uncles_hash: H256,
    pub author: Seq<u8>,
    pub state_root: H256,
    pub transactions_root: H256,
    pub receipts_root: H256,
    pub log_bloom: Seq<u8>,
    pub difficulty: U256,
    pub number: u64,
    pub gas_limit: U256,
    pub gas_used: U256,
    pub timestamp: u64,
    pub extra_data: Seq<u8>,
    pub seal: Seq<Seq<u8>>,
}

impl View for Header {
    type V = HeaderSpec;

    open spec fn view(&self) -> HeaderSpec {
        HeaderSpec {
            parent_hash: self.parent_hash,
            uncles_hash: self.uncles_hash,
            author: self.author@,
            state_root: self.state_root,
            transactions_root: self.transactions_root,
            receipts_root: self.receipts_root,
            log_bloom: self.log_bloom@,
            difficulty: self.difficulty,
            number: self.number,
            gas_limit: self.gas_limit,
            gas_used: self.gas_used,
            timestamp: self.timestamp,
            extra_data: self.extra_data@,
            seal: views(self.seal@),
        }
    }
}

/// The encoded fields of a header, in the order of the full encoding.
pub open spec fn header_items(h: HeaderSpec) -> Seq<Seq<u8>> {
    seq![
        rlp_hash(h.parent_hash),
        rlp_hash(h.uncles_hash),
        rlp_str(h.author),
        rlp_hash(h.state_root),
        rlp_hash(h.transactions_root),
        rlp_hash(h.receipts_root),
        rlp_str(h.log_bloom),
        rlp_uint(h.difficulty),
        rlp_u64(h.number),
        rlp_uint(h.gas_limit),
        rlp_uint(h.gas_used),
        rlp_u64(h.timestamp),
        rlp_str(h.extra_data),
    ] + h.seal
}

/// The full encoding of a header.
pub open spec fn header_rlp(h: HeaderSpec) -> Seq<u8> {
    rlp_list(header_items(h))
}

/// The hash of a header: that of its full encoding.
#[verifier::opaque]
pub open spec fn header_hash(h: HeaderSpec) -> H256 {
    keccak_hash(header_rlp(h))
}

impl Header {
    /// The full encoding of the header, seal included.
    pub fn rlp_bytes(&self) -> (r: Vec<u8>)
        ensures
            r@ == header_rlp(self@),
    {
        let mut items: Vec<Vec<u8>> = Vec::new();
        items.push(encode_hash(&self.parent_hash));
        items.push(encode_hash(&self.uncles_hash));
        items.push(string_of(self.author.as_slice()));
        items.push(encode_hash(&self.state_root));
        items.push(encode_hash(&self.transactions_root));
        items.push(encode_hash(&self.receipts_root));
        items.push(string_of(self.log_bloom.as_slice()));
        items.push(uint_of(&self.difficulty));
        items.push(number_of(self.number));
        items.push(uint_of(&self.gas_limit));
        items.push(uint_of(&self.gas_used));
        items.push(number_of(self.timestamp));
        items.push(string_of(self.extra_data.as_slice()));
        let ghost fixed = views(items@);
        assert(fixed =~= header_items(self@).subrange(0, 13));
        let mut i: usize = 0;
        while i < self.seal.len()
            invariant
                i <= self.seal@.len(),
                views(items@) == fixed + views(self.seal@).subrange(0, i as int),
            decreases self.seal@.len() - i,
        {
            let field = copy_bytes(&self.seal[i]);
            proof {
                lemma_views_push(items@, field);
                lemma_views(self.seal@);
            }
            items.push(field);
            i = i + 1;
            assert(views(items@) =~= fixed + views(self.seal@).subrange(0, i as int));
        }
        assert(views(items@) =~= header_items(self@));
        list_of(&items)
    }

    /// The hash of the header, computed from its full encoding.
    pub fn hash_encoded(&self, encoded: &Vec<u8>) -> (r: H256)
        requires
            encoded@ == header_rlp(self@),
        ensures
            r == header_hash(self@),
    {
        proof {
            reveal(header_hash);
        }
        keccak(encoded.as_slice())
    }

    /// The hash of the header.
    pub fn hash(&self) -> (r: H256)
        ensures
            r == header_hash(self@),
    {
        let bytes = self.rlp_bytes();
        proof {
            reveal(header_hash);
        }
        keccak(bytes.as_slice())
    }

    /// A copy of the header.
    pub fn duplicate(&self) -> (r: Header)
        ensures
            r@ == self@,
    {
        Header {
            parent_hash: self.parent_hash,
            uncles_hash: self.uncles_hash,
            author: copy_bytes(&self.author),
            state_root: self.state_root,
            transactions_root: self.transactions_root,
            receipts_root: self.receipts_root,
            log_bloom: copy_bytes(&self.log_bloom),
            difficulty: self.difficulty,
            number: self.number,
            gas_limit: self.gas_limit,
            gas_used: self.gas_used,
            timestamp: self.timestamp,
            extra_data: copy_bytes(&self.extra_data),
            seal: copy_items(&self.seal),
        }
    }
}

/// A block: its header, and its transactions and uncles as encoded lists.
#[derive(Debug)]
pub struct Block {
    pub header: Header,
    pub transactions: Vec<u8>,
    pub uncles: Vec<u8>,
}

/// What a block holds, as plain values.
pub struct BlockSpec {
    pub header: HeaderSpec,
    pub transactions: Seq<u8>,
    pub uncles: Seq<u8>,
}

impl View for Block {
    type V = BlockSpec;

    open spec fn view(&self) -> BlockSpec {
        BlockSpec {
            header: self.header@,
            transactions: self.transactions@,
            uncles: self.uncles@,
        }
    }
}

/// The full encoding of a block.
pub open spec fn block_rlp(b: BlockSpec) -> Seq<u8> {
    rlp_list(seq![header_rlp(b.header), b.transactions, b.uncles])
}

/// The items of the abridged encoding of a block: the header without parent
/// hash, uncles hash and number, then transactions and uncles, then the seal.
pub open spec fn abridged_items(b: BlockSpec) -> Seq<Seq<u8>> {
    seq![
        rlp_str(b.header.author),
        rlp_hash(b.header.state_root),
        rlp_hash(b.header.transactions_root),
        rlp_hash(b.header.receipts_root),
        rlp_str(b.header.log_bloom),
        rlp_uint(b.header.difficulty),
        rlp_uint(b.header.gas_limit),
        rlp_uint(b.header.gas_used),
        rlp_u64(b.header.timestamp),
        rlp_str(b.header.extra_data),
        b.transactions,
        b.uncles,
    ] + b.header.seal
}

/// The abridged encoding of a block.
pub open spec fn abridged_rlp(b: BlockSpec) -> Seq<u8> {
    rlp_list(abridged_items(b))
}

/// The seal fields of an abridged block: its items from the thirteenth on.
pub open spec fn abridged_seal(a: Seq<u8>) -> Seq<Seq<u8>> {
    let items = rlp_item_seq(a);
    if items.len() >= HEADER_FIELDS + BLOCK_FIELDS {
        items.subrange((HEADER_FIELDS + BLOCK_FIELDS) as int, items.len() as int)
    } else {
        Seq::empty()
    }
}

/// Whether every field of the abridged block `a` can be read, and `a` is a
/// list that its head and its items cover.
#[verifier::opaque]
pub open spec fn expandable(a: Seq<u8>) -> bool {
    &&& covered(a)
    &&& rlp_fixed_at(a, 0, ADDRESS_LEN as nat).is_some()
    &&& rlp_hash_at(a, 1).is_some()
    &&& rlp_hash_at(a, 2).is_some()
    &&& rlp_hash_at(a, 3).is_some()
    &&& rlp_fixed_at(a, 4, BLOOM_LEN as nat).is_some()
    &&& rlp_uint_at(a, 5).is_some()
    &&& rlp_uint_at(a, 6).is_some()
    &&& rlp_uint_at(a, 7).is_some()
    &&& rlp_u64_at(a, 8).is_some()
    &&& rlp_bytes_at(a, 9).is_some()
    &&& rlp_list_at(a, 10).is_some()
    &&& rlp_list_at(a, 11).is_some()
}

/// The block that the abridged block `a` stands for under the given parent
/// hash and number. The uncles hash is that of the encoded uncles.
#[verifier::opaque]
pub open spec fn expanded(a: Seq<u8>, parent_hash: H256, number: u64) -> BlockSpec {
    BlockSpec {
        header: HeaderSpec {
            parent_hash: parent_hash,
            uncles_hash: keccak_hash(rlp_list_at(a, 11).unwrap()),
            author: rlp_fixed_at(a, 0, ADDRESS_LEN as nat).unwrap(),
            state_root: rlp_hash_at(a, 1).unwrap(),
            transactions_root: rlp_hash_at(a, 2).unwrap(),
            receipts_root: rlp_hash_at(a, 3).unwrap(),
            log_bloom: rlp_fixed_at(a, 4, BLOOM_LEN as nat).unwrap(),
            difficulty: rlp_uint_at(a, 5).unwrap(),
            number: number,
            gas_limit: rlp_uint_at(a, 6).unwrap(),
            gas_used: rlp_uint_at(a, 7).unwrap(),
            timestamp: rlp_u64_at(a, 8).unwrap(),
            extra_data: rlp_bytes_at(a, 9).unwrap(),
            seal: abridged_seal(a),
        },
        transactions: rlp_list_at(a, 10).unwrap(),
        uncles: rlp_list_at(a, 11).unwrap(),
    }
}

/// A restored block has the parent hash and the number that were given.
pub proof fn lemma_expanded_link(a: Seq<u8>, parent_hash: H256, number: u64)
    ensures
        expanded(a, parent_hash, number).header.parent_hash == parent_hash,
        expanded(a, parent_hash, number).header.number == number,
{
    reveal(expanded);
}

impl Block {
    /// The full encoding of the block, built round the full encoding of its header.
    pub fn rlp_bytes_round(&self, header: Vec<u8>) -> (r: Vec<u8>)
        requires
            header@ == header_rlp(self@.header),
        ensures
            r@ == block_rlp(self@),
    {
        let mut items: Vec<Vec<u8>> = Vec::new();
        items.push(header);
        items.push(copy_bytes(&self.transactions));
        items.push(copy_bytes(&self.uncles));
        assert(views(items@) =~= seq![header_rlp(self@.header), self@.transactions, self@.uncles]);
        list_of(&items)
    }

    /// The full encoding of the block.
    pub fn rlp_bytes(&self) -> (r: Vec<u8>)
        ensures
            r@ == block_rlp(self@),
    {
        let mut items: Vec<Vec<u8>> = Vec::new();
        items.push(self.header.rlp_bytes());
        items.push(copy_bytes(&self.transactions));
        items.push(copy_bytes(&self.uncles));
        assert(views(items@) =~= seq![header_rlp(self@.header), self@.transactions, self@.uncles]);
        list_of(&items)
    }

    /// A copy of the block.
    pub fn duplicate(&self) -> (r: Block)
        ensures
            r@ == self@,
    {
        Block {
            header: self.header.duplicate(),
            transactions: copy_bytes(&self.transactions),
            uncles: copy_bytes(&self.uncles),
        }
    }
}

/// The number of fields of a header before its seal.
pub const FULL_HEADER_FIELDS: usize = 13;

/// The seal fields of an encoded header: its items from the fourteenth on.
pub open spec fn full_seal(data: Seq<u8>) -> Seq<Seq<u8>> {
    let items = rlp_item_seq(data);
    if items.len() >= FULL_HEADER_FIELDS {
        items.subrange(FULL_HEADER_FIELDS as int, items.len() as int)
    } else {
        Seq::empty()
    }
}

/// Whether the thirteen fields of an encoded header can be read, and the
/// encoding is a list that its head and its items cover.
#[verifier::opaque]
pub open spec fn header_readable(data: Seq<u8>) -> bool {
    &&& covered(data)
    &&& rlp_hash_at(data, 0).is_some()
    &&& rlp_hash_at(data, 1).is_some()
    &&& rlp_fixed_at(data, 2, ADDRESS_LEN as nat).is_some()
    &&& rlp_hash_at(data, 3).is_some()
    &&& rlp_hash_at(data, 4).is_some()
    &&& rlp_hash_at(data, 5).is_some()
    &&& rlp_fixed_at(data, 6, BLOOM_LEN as nat).is_some()
    &&& rlp_uint_at(data, 7).is_some()
    &&& rlp_u64_at(data, 8).is_some()
    &&& rlp_uint_at(data, 9).is_some()
    &&& rlp_uint_at(data, 10).is_some()
    &&& rlp_u64_at(data, 11).is_some()
    &&& rlp_bytes_at(data, 12).is_some()
}

/// The header that an encoding holds.
#[verifier::opaque]
pub open spec fn header_of(data: Seq<u8>) -> HeaderSpec {
    HeaderSpec {
        parent_hash: rlp_hash_at(data, 0).unwrap(),
        uncles_hash: rlp_hash_at(data, 1).unwrap(),
        author: rlp_fixed_at(data, 2, ADDRESS_LEN as nat).unwrap(),
        state_root: rlp_hash_at(data, 3).unwrap(),
        transactions_root: rlp_hash_at(data, 4).unwrap(),
        receipts_root: rlp_hash_at(data, 5).unwrap(),
        log_bloom: rlp_fixed_at(data, 6, BLOOM_LEN as nat).unwrap(),
        difficulty: rlp_uint_at(data, 7).unwrap(),
        number: rlp_u64_at(data, 8).unwrap(),
        gas_limit: rlp_uint_at(data, 9).unwrap(),
        gas_used: rlp_uint_at(data, 10).unwrap(),
        timestamp: rlp_u64_at(data, 11).unwrap(),
        extra_data: rlp_bytes_at(data, 12).unwrap(),
        seal: full_seal(data),
    }
}

/// Whether an encoded block can be read: it is a list of three items, and
/// each of them can be read.
pub open spec fn block_readable(data: Seq<u8>) -> bool {
    &&& framed(data, 3)
    &&& rlp_list_at(data, 0).is_some()
    &&& header_readable(rlp_list_at(data, 0).unwrap())
    &&& rlp_list_at(data, 1).is_some()
    &&& rlp_list_at(data, 2).is_some()
}

/// The block that an encoding holds.
pub open spec fn block_of(data: Seq<u8>) -> BlockSpec {
    BlockSpec {
        header: header_of(rlp_list_at(data, 0).unwrap()),
        transactions: rlp_list_at(data, 1).unwrap(),
        uncles: rlp_list_at(data, 2).unwrap(),
    }
}

impl Header {
    /// Reads a header from its full encoding: fails if and only if one of
    /// the thirteen fields cannot be read.
    pub fn from_rlp(data: &[u8]) -> (r: Result<Header, DecodeError>)
        ensures
            r.is_ok() == header_readable(data@),
            r.is_ok() ==> r.unwrap()@ == header_of(data@),
    {
        proof {
            reveal(header_readable);
            reveal(header_of);
        }
        let parent_hash = hash_at(data, 0)?;
        let uncles_hash = hash_at(data, 1)?;
        let author = fixed_at(data, 2, ADDRESS_LEN)?;
        let state_root = hash_at(data, 3)?;
        let transactions_root = hash_at(data, 4)?;
        let receipts_root = hash_at(data, 5)?;
        let log_bloom = fixed_at(data, 6, BLOOM_LEN)?;
        let difficulty = uint_at(data, 7)?;
        let number = number_at(data, 8)?;
        let gas_limit = uint_at(data, 9)?;
        let gas_used = uint_at(data, 10)?;
        let timestamp = number_at(data, 11)?;
        let extra_data = data_at(data, 12)?;
        let items = list_items(data)?;
        let mut seal: Vec<Vec<u8>> = Vec::new();
        let mut i: usize = FULL_HEADER_FIELDS;
        while i < items.len()
            invariant
                FULL_HEADER_FIELDS <= i,
                views(items@) == rlp_item_seq(data@),
                i <= items@.len() ==> views(seal@) == views(items@).subrange(
                    FULL_HEADER_FIELDS as int,
                    i as int,
                ),
                i > items@.len() ==> seal@.len() == 0 && items@.len() < FULL_HEADER_FIELDS,
            decreases items@.len() - i,
        {
            let field = copy_bytes(&items[i]);
            proof {
                lemma_views_push(seal@, field);
                lemma_views(items@);
            }
            seal.push(field);
            i = i + 1;
            assert(views(seal@) =~= views(items@).subrange(FULL_HEADER_FIELDS as int, i as int));
        }
        proof {
            lemma_views(items@);
            lemma_views(seal@);
        }
        assert(views(seal@) =~= full_seal(data@));
        Ok(
            Header {
                parent_hash,
                uncles_hash,
                author,
                state_root,
                transactions_root,
                receipts_root,
                log_bloom,
                difficulty,
                number,
                gas_limit,
                gas_used,
                timestamp,
                extra_data,
                seal,
            },
        )
    }
}

impl Block {
    /// Reads a block from its full encoding: fails if and only if the header
    /// cannot be read or transactions or uncles are no lists.
    pub fn from_rlp(data: &[u8]) -> (r: Result<Block, DecodeError>)
        ensures
            r.is_ok() == block_readable(data@),
            r.is_ok() ==> r.unwrap()@ == block_of(data@),
    {
        if !is_framed(data, 3) {
            return Err(DecodeError::RlpIncorrectListLen);
        }
        let header_rlp = list_at(data, 0)?;
        let header = Header::from_rlp(header_rlp.as_slice())?;
        let transactions = list_at(data, 1)?;
        let uncles = list_at(data, 2)?;
        Ok(Block { header, transactions, uncles })
    }
}

/// A block in the encoding that chunks carry: without what the place in the
/// chain gives.
#[derive(Debug)]
pub struct AbridgedBlock {
    rlp: Vec<u8>,
}

impl View for AbridgedBlock {
    type V = Seq<u8>;

    closed spec fn view(&self) -> Seq<u8> {
        self.rlp@
    }
}

impl AbridgedBlock {
    /// Takes bytes as an abridged block, unread.
    pub fn from_raw(compact: Vec<u8>) -> (r: AbridgedBlock)
        ensures
            r@ == compact@,
    {
        AbridgedBlock { rlp: compact }
    }

    /// The bytes of the abridged block.
    pub fn into_inner(self) -> (r: Vec<u8>)
        ensures
            r@ == self@,
    {
        self.rlp
    }

    /// Abridges a block.
    pub fn from_block(block: &Block) -> (r: AbridgedBlock)
        ensures
            r@ == abridged_rlp(block@),
    {
        let header = &block.header;
        let mut items: Vec<Vec<u8>> = Vec::new();
        items.push(string_of(header.author.as_slice()));
        items.push(encode_hash(&header.state_root));
        items.push(encode_hash(&header.transactions_root));
        items.push(encode_hash(&header.receipts_root));
        items.push(string_of(header.log_bloom.as_slice()));
        items.push(uint_of(&header.difficulty));
        items.push(uint_of(&header.gas_limit));
        items.push(uint_of(&header.gas_used));
        items.push(number_of(header.timestamp));
        items.push(string_of(header.extra_data.as_slice()));
        items.push(copy_bytes(&block.transactions));
        items.push(copy_bytes(&block.uncles));
        let ghost fixed = views(items@);
        assert(fixed =~= abridged_items(block@).subrange(0, 12));
        let mut i: usize = 0;
        while i < header.seal.len()
            invariant
                i <= header.seal@.len(),
                views(items@) == fixed + views(header.seal@).subrange(0, i as int),
            decreases header.seal@.len() - i,
        {
            let field = copy_bytes(&header.seal[i]);
            proof {
                lemma_views_push(items@, field);
                lemma_views(header.seal@);
            }
            items.push(field);
            i = i + 1;
            assert(views(items@) =~= fixed + views(header.seal@).subrange(0, i as int));
        }
        assert(views(items@) =~= abridged_items(block@));
        AbridgedBlock { rlp: list_of(&items) }
    }

    /// Restores the block under the given parent hash and number: fails if
    /// and only if one of the twelve fields cannot be read.
    pub fn to_block(&self, parent_hash: H256, number: u64) -> (r: Result<Block, DecodeError>)
        ensures
            r.is_ok() == expandable(self@),
            r.is_ok() ==> r.unwrap()@ == expanded(self@, parent_hash, number),
    {
        proof {
            reveal(expandable);
            reveal(expanded);
        }
        let a = self.rlp.as_slice();
        let author = fixed_at(a, 0, ADDRESS_LEN)?;
        let state_root = hash_at(a, 1)?;
        let transactions_root = hash_at(a, 2)?;
        let receipts_root = hash_at(a, 3)?;
        let log_bloom = fixed_at(a, 4, BLOOM_LEN)?;
        let difficulty = uint_at(a, 5)?;
        let gas_limit = uint_at(a, 6)?;
        let gas_used = uint_at(a, 7)?;
        let timestamp = number_at(a, 8)?;
        let extra_data = data_at(a, 9)?;
        let transactions = list_at(a, 10)?;
        let uncles = list_at(a, 11)?;
        let uncles_hash = keccak(uncles.as_slice());
        let items = list_items(a)?;
        let mut seal: Vec<Vec<u8>> = Vec::new();
        let mut i: usize = HEADER_FIELDS + BLOCK_FIELDS;
        while i < items.len()
            invariant
                HEADER_FIELDS + BLOCK_FIELDS <= i,
                views(items@) == rlp_item_seq(self@),
                i <= items@.len() ==> views(seal@) == views(items@).subrange(
                    (HEADER_FIELDS + BLOCK_FIELDS) as int,
                    i as int,
                ),
                i > items@.len() ==> seal@.len() == 0 && items@.len() < HEADER_FIELDS
                    + BLOCK_FIELDS,
            decreases items@.len() - i,
        {
            let field = copy_bytes(&items[i]);
            proof {
                lemma_views_push(seal@, field);
                lemma_views(items@);
            }
            seal.push(field);
            i = i + 1;
            assert(views(seal@) =~= views(items@).subrange(
                (HEADER_FIELDS + BLOCK_FIELDS) as int,
                i as int,
            ));
        }
        proof {
            lemma_views(items@);
            lemma_views(seal@);
        }
        assert(views(seal@) =~= abridged_seal(self@));
        Ok(
            Block {
                header: Header {
                    parent_hash,
                    uncles_hash,
                    author,
                    state_root,
                    transactions_root,
                    receipts_root,
                    log_bloom,
                    difficulty,
                    number,
                    gas_limit,
                    gas_used,
                    timestamp,
                    extra_data,
                    seal,
                },
                transactions,
                uncles,
            },
        )
    }
}

} // verus!
