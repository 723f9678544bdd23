use vstd::prelude::*;

verus! {

/// The eight bytes of a word, most significant first.
pub open spec fn word_bytes(w: u64) -> Seq<u8> {
    seq![
        ((w >> 56) & 0xff) as u8,
        ((w >> 48) & 0xff) as u8,
        ((w >> 40) & 0xff) as u8,
        ((w >> 32) & 0xff) as u8,
        ((w >> 24) & 0xff) as u8,
        ((w >> 16) & 0xff) as u8,
        ((w >> 8) & 0xff) as u8,
        (w & 0xff) as u8,
    ]
}

/// The word whose bytes, most significant first, are the first eight of `b`.
pub open spec fn word_of(b: Seq<u8>) -> u64 {
    ((b[0] as u64) << 56) | ((b[1] as u64) << 48) | ((b[2] as u64) << 40) | ((b[3] as u64) << 32)
        | ((b[4] as u64) << 24) | ((b[5] as u64) << 16) | ((b[6] as u64) << 8) | (b[7] as u64)
}

/// Splitting a word into bytes and joining them again gives the word back.
pub proof fn lemma_word_of_bytes(w: u64)
    ensures
        word_of(word_bytes(w)) == w,
        word_bytes(w).len() == 8,
{
    let b0 = ((w >> 56) & 0xff) as u8;
    let b1 = ((w >> 48) & 0xff) as u8;
    let b2 = ((w >> 40) & 0xff) as u8;
    let b3 = ((w >> 32) & 0xff) as u8;
    let b4 = ((w >> 24) & 0xff) as u8;
    let b5 = ((w >> 16) & 0xff) as u8;
    let b6 = ((w >> 8) & 0xff) as u8;
    let b7 = (w & 0xff) as u8;
    assert(((b0 as u64) << 56) | ((b1 as u64) << 48) | ((b2 as u64) << 40) | ((b3 as u64) << 32)
        | ((b4 as u64) << 24) | ((b5 as u64) << 16) | ((b6 as u64) << 8) | (b7 as u64) == w)
        by (bit_vector)
        requires
            b0 == ((w >> 56) & 0xff) as u8,
            b1 == ((w >> 48) & 0xff) as u8,
            b2 == ((w >> 40) & 0xff) as u8,
            b3 == ((w >> 32) & 0xff) as u8,
            b4 == ((w >> 24) & 0xff) as u8,
            b5 == ((w >> 16) & 0xff) as u8,
            b6 == ((w >> 8) & 0xff) as u8,
            b7 == (w & 0xff) as u8,
    ;
}

/// Joining eight bytes into a word and splitting it again gives the bytes back.
pub proof fn lemma_bytes_of_word(b: Seq<u8>)
    requires
        b.len() == 8,
    ensures
        word_bytes(word_of(b)) == b,
{
    let b0 = b[0];
    let b1 = b[1];
    let b2 = b[2];
    let b3 = b[3];
    let b4 = b[4];
    let b5 = b[5];
    let b6 = b[6];
    let b7 = b[7];
    let w = word_of(b);
    assert(((w >> 56) & 0xff) as u8 == b0 && ((w >> 48) & 0xff) as u8 == b1 && ((w >> 40) & 0xff) as u8
        == b2 && ((w >> 32) & 0xff) as u8 == b3 && ((w >> 24) & 0xff) as u8 == b4 && ((w >> 16)
        & 0xff) as u8 == b5 && ((w >> 8) & 0xff) as u8 == b6 && (w & 0xff) as u8 == b7)
        by (bit_vector)
        requires
            w == ((b0 as u64) << 56) | ((b1 as u64) << 48) | ((b2 as u64) << 40) | ((b3 as u64)
                << 32) | ((b4 as u64) << 24) | ((b5 as u64) << 16) | ((b6 as u64) << 8) | (
            b7 as u64),
    ;
    assert(word_bytes(w) =~= b);
}

/// Each byte taken out of a word by shifting and masking fits in a byte.
pub proof fn lemma_byte_range(w: u64)
    ensures
        (w >> 56) & 0xff < 256,
        (w >> 48) & 0xff < 256,
        (w >> 40) & 0xff < 256,
        (w >> 32) & 0xff < 256,
        (w >> 24) & 0xff < 256,
        (w >> 16) & 0xff < 256,
        (w >> 8) & 0xff < 256,
        w & 0xff < 256,
{
    assert((w >> 56) & 0xff < 256 && (w >> 48) & 0xff < 256 && (w >> 40) & 0xff < 256 && (w >> 32)
        & 0xff < 256 && (w >> 24) & 0xff < 256 && (w >> 16) & 0xff < 256 && (w >> 8) & 0xff < 256
        && w & 0xff < 256) by (bit_vector);
}

/// Appends the eight bytes of `w` to `out`, most significant first.
pub fn push_word(out: &mut Vec<u8>, w: u64)
    ensures
        final(out)@ == old(out)@ + word_bytes(w),
{
    proof {
        lemma_byte_range(w);
    }
    out.push(((w >> 56) & 0xff) as u8);
    out.push(((w >> 48) & 0xff) as u8);
    out.push(((w >> 40) & 0xff) as u8);
    out.push(((w >> 32) & 0xff) as u8);
    out.push(((w >> 24) & 0xff) as u8);
    out.push(((w >> 16) & 0xff) as u8);
    out.push(((w >> 8) & 0xff) as u8);
    out.push((w & 0xff) as u8);
    assert(out@ =~= old(out)@ + word_bytes(w));
}

/// Reads the word whose eight bytes start at `at` in `b`, most significant first.
pub fn read_word(b: &[u8], at: usize) -> (w: u64)
    requires
        at + 8 <= b@.len(),
    ensures
        w == word_of(b@.subrange(at as int, at + 8)),
        word_bytes(w) == b@.subrange(at as int, at + 8),
{
    let w = ((b[at] as u64) << 56) | ((b[at + 1] as u64) << 48) | ((b[at + 2] as u64) << 40) | ((b[at
        + 3] as u64) << 32) | ((b[at + 4] as u64) << 24) | ((b[at + 5] as u64) << 16) | ((b[at
        + 6] as u64) << 8) | (b[at + 7] as u64);
    proof {
        lemma_bytes_of_word(b@.subrange(at as int, at + 8));
    }
    w
}

/// A 256-bit hash, held as four words: `w0` holds the first eight bytes.
#[derive(Clone, Copy, Debug, PartialEq, Eq, Structural, Hash)]
pub struct H256 {
    pub w0: u64,
    pub w1: u64,
    pub w2: u64,
    pub w3: u64,
}

impl View for H256 {
    type V = Seq<u8>;

    /// The 32 bytes of the hash.
    open spec fn view(&self) -> Seq<u8> {
        word_bytes(self.w0) + word_bytes(self.w1) + word_bytes(self.w2) + word_bytes(self.w3)
    }
}

/// The hash of the RLP encoding of empty data: the root of an empty trie.
pub open spec fn sha3_null_rlp_spec() -> H256 {
    H256 {
        w0: 0x56e81f171bcc55a6,
        w1: 0xff8345e692c0f86e,
        w2: 0x5b48e01b996cadc0,
        w3: 0x01622fb5e363b421,
    }
}

/// The hash of the empty byte string: the code hash of an account without code.
pub open spec fn sha3_empty_spec() -> H256 {
    H256 {
        w0: 0xc5d2460186f7233c,
        w1: 0x927e7db2dcc703c0,
        w2: 0xe500b653ca82273b,
        w3: 0x7bfad8045d85a470,
    }
}

/// The hash of the RLP encoding of empty data: the root of an empty trie.
#[verifier::when_used_as_spec(sha3_null_rlp_spec)]
pub fn sha3_null_rlp() -> (r: H256)
    ensures
        r == sha3_null_rlp_spec(),
{
    H256 {
        w0: 0x56e81f171bcc55a6,
        w1: 0xff8345e692c0f86e,
        w2: 0x5b48e01b996cadc0,
        w3: 0x01622fb5e363b421,
    }
}

/// The hash of the empty byte string: the code hash of an account without code.
#[verifier::when_used_as_spec(sha3_empty_spec)]
pub fn sha3_empty() -> (r: H256)
    ensures
        r == sha3_empty_spec(),
{
    H256 {
        w0: 0xc5d2460186f7233c,
        w1: 0x927e7db2dcc703c0,
        w2: 0xe500b653ca82273b,
        w3: 0x7bfad8045d85a470,
    }
}

impl H256 {
    /// The hash made of the first 32 bytes of `s`.
    pub open spec fn from_seq(s: Seq<u8>) -> H256 {
        H256 {
            w0: word_of(s.subrange(0, 8)),
            w1: word_of(s.subrange(8, 16)),
            w2: word_of(s.subrange(16, 24)),
            w3: word_of(s.subrange(24, 32)),
        }
    }

    /// Order of hashes: that of their bytes, read left to right.
    pub open spec fn less(self, other: H256) -> bool {
        self.w0 < other.w0 || (self.w0 == other.w0 && (self.w1 < other.w1 || (self.w1 == other.w1
            && (self.w2 < other.w2 || (self.w2 == other.w2 && self.w3 < other.w3)))))
    }

    /// A hash has 32 bytes, and they determine it.
    pub proof fn lemma_view(self)
        ensures
            self@.len() == 32,
            H256::from_seq(self@) == self,
    {
        lemma_word_of_bytes(self.w0);
        lemma_word_of_bytes(self.w1);
        lemma_word_of_bytes(self.w2);
        lemma_word_of_bytes(self.w3);
        assert(self@.subrange(0, 8) =~= word_bytes(self.w0));
        assert(self@.subrange(8, 16) =~= word_bytes(self.w1));
        assert(self@.subrange(16, 24) =~= word_bytes(self.w2));
        assert(self@.subrange(24, 32) =~= word_bytes(self.w3));
    }

    /// The hash whose bytes are all zero.
    pub fn zero() -> (r: H256)
        ensures
            r == (H256 { w0: 0, w1: 0, w2: 0, w3: 0 }),
    {
        H256 { w0: 0, w1: 0, w2: 0, w3: 0 }
    }

    /// Reads a hash from exactly 32 bytes.
    pub fn from_slice(b: &[u8]) -> (r: H256)
        requires
            b@.len() == 32,
        ensures
            r@ == b@,
            r == H256::from_seq(b@),
    {
        let r = H256 {
            w0: read_word(b, 0),
            w1: read_word(b, 8),
            w2: read_word(b, 16),
            w3: read_word(b, 24),
        };
        assert(r@ =~= b@);
        r
    }

    /// Reads a hash from a byte string, if it has exactly 32 bytes.
    pub fn try_from_slice(b: &[u8]) -> (r: Option<H256>)
        ensures
            b@.len() == 32 ==> r == Some(H256::from_seq(b@)),
            b@.len() != 32 ==> r.is_none(),
    {
        if b.len() == 32 {
            Some(H256::from_slice(b))
        } else {
            None
        }
    }

    /// The 32 bytes of the hash.
    pub fn to_vec(&self) -> (r: Vec<u8>)
        ensures
            r@ == self@,
    {
        let mut out: Vec<u8> = Vec::new();
        push_word(&mut out, self.w0);
        push_word(&mut out, self.w1);
        push_word(&mut out, self.w2);
        push_word(&mut out, self.w3);
        assert(out@ =~= self@);
        out
    }

    /// Whether `self` comes before `other` in the order of hashes.
    pub fn lt(&self, other: &H256) -> (r: bool)
        ensures
            r == self.less(*other),
    {
        if self.w0 != other.w0 {
            self.w0 < other.w0
        } else if self.w1 != other.w1 {
            self.w1 < other.w1
        } else if self.w2 != other.w2 {
            self.w2 < other.w2
        } else {
            self.w3 < other.w3
        }
    }
}

/// What Keccak-256 gives for `data`: 32 bytes.
pub uninterp spec fn keccak256(data: Seq<u8>) -> Seq<u8>;

/// The Keccak-256 hash of `data`, as a hash value.
#[verifier::opaque]
pub open spec fn keccak_hash(data: Seq<u8>) -> H256 {
    H256::from_seq(keccak256(data))
}

/// Runs `tiny_keccak::Keccak` (the 256-bit variant) over `data`: `update` once,
/// then `finalize`. The digest depends on `data` alone; the contract gives it
/// its name.
#[verifier::external_body]
fn keccak_digest(data: &[u8]) -> (r: [u8; 32])
    ensures
        r@ == keccak256(data@),
{
    let mut out = [0u8; 32];
    let mut hasher = tiny_keccak::Keccak::v256();
    tiny_keccak::Hasher::update(&mut hasher, data);
    tiny_keccak::Hasher::finalize(hasher, &mut out);
    out
}

/// The Keccak-256 hash of `data`.
pub fn keccak(data: &[u8]) -> (r: H256)
    ensures
        r == keccak_hash(data@),
        r@ == keccak256(data@),
{
    let digest = keccak_digest(data);
    let r = H256::from_slice(digest.as_slice());
    proof {
        reveal(keccak_hash);
    }
    r
}

} // verus!
