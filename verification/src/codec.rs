use vstd::prelude::*;
use crate::error::DecodeError;
use crate::hash::H256;
use crate::uint::U256;

verus! {

/// The error type of the `rlp` crate's decoder.
#[verifier::external_type_specification]
#[verifier::external_body]
pub struct ExDecoderError(rlp::DecoderError);

/// The raw items that `UntrustedRlp::iter` yields for `data`, in order.
pub uninterp spec fn rlp_item_seq(data: Seq<u8>) -> Seq<Seq<u8>>;

/// The raw item that `UntrustedRlp::at` finds at `index` in `data`, if it finds one.
pub uninterp spec fn rlp_raw_at(data: Seq<u8>, index: int) -> Option<Seq<u8>>;

/// The byte string that `UntrustedRlp::val_at` reads at `index` in `data`, if it reads one.
pub uninterp spec fn rlp_bytes_at(data: Seq<u8>, index: int) -> Option<Seq<u8>>;

/// The `u64` that `UntrustedRlp::val_at` reads at `index` in `data`, if it reads one.
pub uninterp spec fn rlp_u64_at(data: Seq<u8>, index: int) -> Option<u64>;

/// The 256-bit number that `UntrustedRlp::val_at` reads at `index` in `data`,
/// if it reads one: its four words, most significant first.
pub uninterp spec fn rlp_u256_at(data: Seq<u8>, index: int) -> Option<(u64, u64, u64, u64)>;

/// The encoding of the list whose items, already encoded, are `items`.
pub uninterp spec fn rlp_list(items: Seq<Seq<u8>>) -> Seq<u8>;

/// The encoding of the byte string `data`.
pub uninterp spec fn rlp_str(data: Seq<u8>) -> Seq<u8>;

/// The encoding of the number `v`.
pub uninterp spec fn rlp_u64(v: u64) -> Seq<u8>;

/// The encoding of the 256-bit number with the words `w0` to `w3`, most significant first.
pub uninterp spec fn rlp_u256(w0: u64, w1: u64, w2: u64, w3: u64) -> Seq<u8>;

/// The byte strings of a vector of byte vectors.
pub open spec fn views(items: Seq<Vec<u8>>) -> Seq<Seq<u8>> {
    items.map_values(|v: Vec<u8>| v@)
}

/// The byte strings of a vector stand where its items stand.
pub proof fn lemma_views(items: Seq<Vec<u8>>)
    ensures
        views(items).len() == items.len(),
        forall|i: int| 0 <= i < items.len() ==> (#[trigger] views(items)[i]) == items[i]@,
{
}

/// Adding an item to a vector adds its byte string to the byte strings.
pub proof fn lemma_views_push(items: Seq<Vec<u8>>, item: Vec<u8>)
    ensures
        views(items.push(item)) == views(items).push(item@),
{
    lemma_views(items);
    lemma_views(items.push(item));
    assert(views(items.push(item)) =~= views(items).push(item@));
}

/// Tells the variants of `rlp::DecoderError` apart.
#[verifier::external_body]
pub(crate) fn decode_error_of(e: rlp::DecoderError) -> (r: DecodeError) {
    match e {
        rlp::DecoderError::RlpIsTooBig => DecodeError::RlpIsTooBig,
        rlp::DecoderError::RlpIsTooShort => DecodeError::RlpIsTooShort,
        rlp::DecoderError::RlpExpectedToBeList => DecodeError::RlpExpectedToBeList,
        rlp::DecoderError::RlpExpectedToBeData => DecodeError::RlpExpectedToBeData,
        rlp::DecoderError::RlpIncorrectListLen => DecodeError::RlpIncorrectListLen,
        rlp::DecoderError::RlpDataLenWithZeroPrefix => DecodeError::RlpDataLenWithZeroPrefix,
        rlp::DecoderError::RlpListLenWithZeroPrefix => DecodeError::RlpListLenWithZeroPrefix,
        rlp::DecoderError::RlpInvalidIndirection => DecodeError::RlpInvalidIndirection,
        rlp::DecoderError::RlpInconsistentLengthAndData => DecodeError::RlpInconsistentLengthAndData,
        rlp::DecoderError::Custom(_) => DecodeError::Custom,
    }
}

/// `UntrustedRlp::iter` over `data`, each item taken by `as_raw`: the items of
/// the list as far as they are well framed, none where `data` is no list.
#[verifier::external_body]
pub(crate) fn split_list(data: &[u8]) -> (r: Vec<Vec<u8>>)
    ensures
        views(r@) == rlp_item_seq(data@),
{
    rlp::UntrustedRlp::new(data).iter().map(|item| item.as_raw().to_vec()).collect()
}

/// `UntrustedRlp::at`, the item taken by `as_raw`.
#[verifier::external_body]
pub(crate) fn item_at(data: &[u8], index: usize) -> (r: Result<Vec<u8>, rlp::DecoderError>)
    ensures
        match r {
            Ok(v) => rlp_raw_at(data@, index as int) == Some(v@),
            Err(_) => rlp_raw_at(data@, index as int).is_none(),
        },
{
    rlp::UntrustedRlp::new(data).at(index).map(|item| item.as_raw().to_vec())
}

/// `UntrustedRlp::val_at` for a byte string.
#[verifier::external_body]
pub(crate) fn bytes_at(data: &[u8], index: usize) -> (r: Result<Vec<u8>, rlp::DecoderError>)
    ensures
        match r {
            Ok(v) => rlp_bytes_at(data@, index as int) == Some(v@),
            Err(_) => rlp_bytes_at(data@, index as int).is_none(),
        },
{
    rlp::UntrustedRlp::new(data).val_at::<Vec<u8>>(index)
}

/// `UntrustedRlp::val_at` for a `u64`.
#[verifier::external_body]
pub(crate) fn u64_at(data: &[u8], index: usize) -> (r: Result<u64, rlp::DecoderError>)
    ensures
        match r {
            Ok(v) => rlp_u64_at(data@, index as int) == Some(v),
            Err(_) => rlp_u64_at(data@, index as int).is_none(),
        },
{
    rlp::UntrustedRlp::new(data).val_at::<u64>(index)
}

/// `UntrustedRlp::val_at` for a 256-bit number, whose words are handed over
/// most significant first.
#[verifier::external_body]
pub(crate) fn u256_at(data: &[u8], index: usize) -> (r: Result<U256, rlp::DecoderError>)
    ensures
        match r {
            Ok(v) => rlp_u256_at(data@, index as int) == Some((v.w0, v.w1, v.w2, v.w3)),
            Err(_) => rlp_u256_at(data@, index as int).is_none(),
        },
{
    rlp::UntrustedRlp::new(data).val_at::<ethcore_bigint::prelude::U256>(index).map(
        |v| U256 { w0: v.0[3], w1: v.0[2], w2: v.0[1], w3: v.0[0] },
    )
}

/// `RlpStream::new_list` for as many items as `items` holds, `append_raw` for
/// each of them as one item, then `out`.
#[verifier::external_body]
pub(crate) fn encode_list(items: &Vec<Vec<u8>>) -> (r: Vec<u8>)
    ensures
        r@ == rlp_list(views(items@)),
{
    let mut stream = rlp::RlpStream::new_list(items.len());
    for item in items.iter() {
        stream.append_raw(item, 1);
    }
    stream.out()
}

/// `rlp::encode` of a byte string.
#[verifier::external_body]
pub(crate) fn encode_bytes(data: &[u8]) -> (r: Vec<u8>)
    ensures
        r@ == rlp_str(data@),
{
    rlp::encode(&data).to_vec()
}

/// `rlp::encode` of a `u64`.
#[verifier::external_body]
pub(crate) fn encode_u64(v: u64) -> (r: Vec<u8>)
    ensures
        r@ == rlp_u64(v),
{
    rlp::encode(&v).to_vec()
}

/// `rlp::encode` of a 256-bit number, whose words are handed over least
/// significant first, as the outside type holds them.
#[verifier::external_body]
pub(crate) fn encode_u256(v: U256) -> (r: Vec<u8>)
    ensures
        r@ == rlp_u256(v.w0, v.w1, v.w2, v.w3),
{
    rlp::encode(&ethcore_bigint::prelude::U256([v.w3, v.w2, v.w1, v.w0])).to_vec()
}

/// Whether the first byte of `data` marks a list.
pub open spec fn is_list_spec(data: Seq<u8>) -> bool {
    data.len() > 0 && data[0] >= 0xc0
}

/// Whether the first byte of `data` marks a list.
pub fn is_list(data: &[u8]) -> (r: bool)
    ensures
        r == is_list_spec(data@),
{
    data.len() > 0 && data[0] >= 0xc0
}

/// The encoding of a hash: that of its 32 bytes.
pub open spec fn rlp_hash(h: H256) -> Seq<u8> {
    rlp_str(h@)
}

/// Encodes a hash as the byte string of its 32 bytes.
pub fn encode_hash(h: &H256) -> (r: Vec<u8>)
    ensures
        r@ == rlp_hash(*h),
{
    let bytes = h.to_vec();
    encode_bytes(bytes.as_slice())
}

/// The byte string of exactly `len` bytes at `index` in `data`, if there is one.
pub open spec fn rlp_fixed_at(data: Seq<u8>, index: int, len: nat) -> Option<Seq<u8>> {
    match rlp_bytes_at(data, index) {
        Some(b) => if b.len() == len {
            Some(b)
        } else {
            None
        },
        None => None,
    }
}

/// The hash at `index` in `data`, if a byte string of 32 bytes stands there.
pub open spec fn rlp_hash_at(data: Seq<u8>, index: int) -> Option<H256> {
    match rlp_fixed_at(data, index, 32) {
        Some(b) => Some(H256::from_seq(b)),
        None => None,
    }
}

/// Reads the byte string at `index` in the list `data` and checks that it has
/// exactly `len` bytes.
pub fn fixed_at(data: &[u8], index: usize, len: usize) -> (r: Result<Vec<u8>, DecodeError>)
    ensures
        match r {
            Ok(v) => rlp_fixed_at(data@, index as int, len as nat) == Some(v@),
            Err(_) => rlp_fixed_at(data@, index as int, len as nat).is_none(),
        },
{
    match bytes_at(data, index) {
        Ok(v) => {
            if v.len() < len {
                Err(DecodeError::RlpIsTooShort)
            } else if v.len() > len {
                Err(DecodeError::RlpIsTooBig)
            } else {
                Ok(v)
            }
        },
        Err(e) => Err(decode_error_of(e)),
    }
}

/// Reads the hash at `index` in the list `data`.
pub fn hash_at(data: &[u8], index: usize) -> (r: Result<H256, DecodeError>)
    ensures
        match r {
            Ok(h) => rlp_hash_at(data@, index as int) == Some(h),
            Err(_) => rlp_hash_at(data@, index as int).is_none(),
        },
{
    match fixed_at(data, index, 32) {
        Ok(v) => Ok(H256::from_slice(v.as_slice())),
        Err(e) => Err(e),
    }
}

/// The 256-bit number at `index` in `data`, if one stands there.
pub open spec fn rlp_uint_at(data: Seq<u8>, index: int) -> Option<U256> {
    match rlp_u256_at(data, index) {
        Some(w) => Some(U256 { w0: w.0, w1: w.1, w2: w.2, w3: w.3 }),
        None => None,
    }
}

/// Reads the 256-bit number at `index` in the list `data`.
pub fn uint_at(data: &[u8], index: usize) -> (r: Result<U256, DecodeError>)
    ensures
        match r {
            Ok(v) => rlp_uint_at(data@, index as int) == Some(v),
            Err(_) => rlp_uint_at(data@, index as int).is_none(),
        },
{
    match u256_at(data, index) {
        Ok(v) => Ok(v),
        Err(e) => Err(decode_error_of(e)),
    }
}

/// Reads the number at `index` in the list `data`.
pub fn number_at(data: &[u8], index: usize) -> (r: Result<u64, DecodeError>)
    ensures
        match r {
            Ok(v) => rlp_u64_at(data@, index as int) == Some(v),
            Err(_) => rlp_u64_at(data@, index as int).is_none(),
        },
{
    match u64_at(data, index) {
        Ok(v) => Ok(v),
        Err(e) => Err(decode_error_of(e)),
    }
}

/// Reads the byte string at `index` in the list `data`.
pub fn data_at(data: &[u8], index: usize) -> (r: Result<Vec<u8>, DecodeError>)
    ensures
        match r {
            Ok(v) => rlp_bytes_at(data@, index as int) == Some(v@),
            Err(_) => rlp_bytes_at(data@, index as int).is_none(),
        },
{
    match bytes_at(data, index) {
        Ok(v) => Ok(v),
        Err(e) => Err(decode_error_of(e)),
    }
}

/// The raw list at `index` in `data`, if an item stands there and is a list
/// that its head and its items cover.
pub open spec fn rlp_list_at(data: Seq<u8>, index: int) -> Option<Seq<u8>> {
    match rlp_raw_at(data, index) {
        Some(b) => if covered(b) {
            Some(b)
        } else {
            None
        },
        None => None,
    }
}

/// Reads the raw item at `index` in the list `data`.
pub fn raw_at(data: &[u8], index: usize) -> (r: Result<Vec<u8>, DecodeError>)
    ensures
        match r {
            Ok(v) => rlp_raw_at(data@, index as int) == Some(v@),
            Err(_) => rlp_raw_at(data@, index as int).is_none(),
        },
{
    match item_at(data, index) {
        Ok(v) => Ok(v),
        Err(e) => Err(decode_error_of(e)),
    }
}

/// Reads the raw item at `index` in the list `data` and checks that it is a
/// list that its head and its items cover.
pub fn list_at(data: &[u8], index: usize) -> (r: Result<Vec<u8>, DecodeError>)
    ensures
        match r {
            Ok(v) => rlp_list_at(data@, index as int) == Some(v@),
            Err(_) => rlp_list_at(data@, index as int).is_none(),
        },
{
    match item_at(data, index) {
        Ok(v) => match list_items(v.as_slice()) {
            Ok(_) => Ok(v),
            Err(e) => Err(e),
        },
        Err(e) => Err(decode_error_of(e)),
    }
}

/// The lengths of the head and of the payload of the first item that `data`
/// holds, where `data` holds as many bytes.
pub uninterp spec fn rlp_payload(data: Seq<u8>) -> Option<(nat, nat)>;

/// `UntrustedRlp::payload_info`: the lengths of head and payload of the first
/// item, which together are no more than the bytes at hand; nothing where
/// the head cannot be read or promises more bytes than there are.
#[verifier::external_body]
pub(crate) fn payload_of(data: &[u8]) -> (r: Option<(usize, usize)>)
    ensures
        match r {
            Some(p) => rlp_payload(data@) == Some((p.0 as nat, p.1 as nat)) && p.0 + p.1
                <= data@.len(),
            None => rlp_payload(data@).is_none(),
        },
{
    rlp::UntrustedRlp::new(data).payload_info().ok().map(|p| (p.header_len, p.value_len))
}

/// The number of bytes of all `items` together.
pub open spec fn items_len(items: Seq<Seq<u8>>) -> int
    decreases items.len(),
{
    if items.len() == 0 {
        0
    } else {
        items_len(items.drop_last()) + items.last().len()
    }
}

/// Whether `data` is a list that its head and its well framed items cover:
/// no byte comes after the payload that the head promises, and the items
/// fill the payload.
pub open spec fn covered(data: Seq<u8>) -> bool {
    is_list_spec(data) && match rlp_payload(data) {
        Some(p) => p.0 + p.1 == data.len() && items_len(rlp_item_seq(data)) == p.1,
        None => false,
    }
}

/// The raw items of the list `data`. Fails where `data` is no list, with
/// `RlpExpectedToBeList`, and where head and items do not cover it, because
/// it is cut short, an item is ill framed or bytes follow the list, with
/// `RlpInconsistentLengthAndData`.
pub fn list_items(data: &[u8]) -> (r: Result<Vec<Vec<u8>>, DecodeError>)
    ensures
        r.is_ok() == covered(data@),
        match r {
            Ok(items) => views(items@) == rlp_item_seq(data@),
            Err(e) => e == (if is_list_spec(data@) {
                DecodeError::RlpInconsistentLengthAndData
            } else {
                DecodeError::RlpExpectedToBeList
            }),
        },
{
    if !is_list(data) {
        return Err(DecodeError::RlpExpectedToBeList);
    }
    let (head, payload) = match payload_of(data) {
        Some(p) => p,
        None => {
            return Err(DecodeError::RlpInconsistentLengthAndData);
        },
    };
    if head > data.len() || payload != data.len() - head {
        return Err(DecodeError::RlpInconsistentLengthAndData);
    }
    let items = split_list(data);
    let ghost all = views(items@);
    let mut sum: usize = 0;
    let mut i: usize = 0;
    proof {
        lemma_views(items@);
        assert(all.take(0) =~= Seq::<Seq<u8>>::empty());
    }
    while i < items.len()
        invariant
            i <= items@.len(),
            all == views(items@),
            all == rlp_item_seq(data@),
            is_list_spec(data@),
            rlp_payload(data@) == Some((head as nat, payload as nat)),
            head + payload == data@.len(),
            all.len() == items@.len(),
            sum == items_len(all.take(i as int)),
            sum <= payload,
        decreases items@.len() - i,
    {
        let n = items[i].len();
        proof {
            lemma_views(items@);
            assert(all.take(i + 1).drop_last() =~= all.take(i as int));
            assert(all.take(i + 1).last() == items@[i as int]@);
            lemma_items_len_grows(all, i + 1);
        }
        if n > payload - sum {
            return Err(DecodeError::RlpInconsistentLengthAndData);
        }
        sum = sum + n;
        i = i + 1;
    }
    proof {
        assert(all.take(all.len() as int) =~= all);
    }
    if sum != payload {
        return Err(DecodeError::RlpInconsistentLengthAndData);
    }
    Ok(items)
}

/// Whether `data` is a list of `count` items that its head and its items cover.
pub open spec fn framed(data: Seq<u8>, count: nat) -> bool {
    covered(data) && rlp_item_seq(data).len() == count
}

/// Whether `data` is a list of `count` items that its head and its items cover.
pub fn is_framed(data: &[u8], count: usize) -> (r: bool)
    ensures
        r == framed(data@, count as nat),
{
    match list_items(data) {
        Ok(items) => {
            proof {
                lemma_views(items@);
            }
            items.len() == count
        },
        Err(_) => false,
    }
}

/// The first items of a list take no more bytes than all of them.
pub proof fn lemma_items_len_grows(items: Seq<Seq<u8>>, i: int)
    requires
        0 <= i <= items.len(),
    ensures
        0 <= items_len(items.take(i)) <= items_len(items),
    decreases items.len() - i,
{
    if i < items.len() {
        lemma_items_len_grows(items, i + 1);
        assert(items.take(i + 1).drop_last() =~= items.take(i));
    } else {
        assert(items.take(i) =~= items);
        lemma_items_len_nonneg(items);
    }
    lemma_items_len_nonneg(items.take(i));
}

/// Items take no less than no bytes.
pub proof fn lemma_items_len_nonneg(items: Seq<Seq<u8>>)
    ensures
        items_len(items) >= 0,
    decreases items.len(),
{
    if items.len() > 0 {
        lemma_items_len_nonneg(items.drop_last());
    }
}

/// The raw items of `data`, as far as they are well framed.
pub fn items_of(data: &[u8]) -> (r: Vec<Vec<u8>>)
    ensures
        views(r@) == rlp_item_seq(data@),
{
    split_list(data)
}

/// Encodes the list whose items, already encoded, are `items`.
pub fn list_of(items: &Vec<Vec<u8>>) -> (r: Vec<u8>)
    ensures
        r@ == rlp_list(views(items@)),
{
    encode_list(items)
}

/// Encodes a byte string.
pub fn string_of(data: &[u8]) -> (r: Vec<u8>)
    ensures
        r@ == rlp_str(data@),
{
    encode_bytes(data)
}

/// Encodes a number.
pub fn number_of(v: u64) -> (r: Vec<u8>)
    ensures
        r@ == rlp_u64(v),
{
    encode_u64(v)
}

/// The encoding of a 256-bit number.
pub open spec fn rlp_uint(v: U256) -> Seq<u8> {
    rlp_u256(v.w0, v.w1, v.w2, v.w3)
}

/// Encodes a 256-bit number.
pub fn uint_of(v: &U256) -> (r: Vec<u8>)
    ensures
        r@ == rlp_uint(*v),
{
    encode_u256(*v)
}

} // verus!
