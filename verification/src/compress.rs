use vstd::prelude::*;

verus! {

/// What the Snappy encoder gives for `data`, where it takes `data`.
pub uninterp spec fn snappy_compressed(data: Seq<u8>) -> Seq<u8>;

/// What the Snappy decoder gives for `data`, where `data` is a valid stream.
pub uninterp spec fn snappy_decompressed(data: Seq<u8>) -> Option<Seq<u8>>;

/// Whether the Snappy encoder takes an input of `len` bytes: the largest
/// output it may need has to fit in 32 bits.
pub open spec fn compressible(len: nat) -> bool {
    32 + len + len / 6 <= 0xffff_ffff
}

/// `snap::raw::Encoder::compress_vec`, which fails only on an input whose
/// `max_compress_len` is zero, that is one that is too large.
#[verifier::external_body]
fn snappy_encode(data: &[u8]) -> (r: Option<Vec<u8>>)
    ensures
        r.is_some() == compressible(data@.len()),
        r.is_some() ==> r.unwrap()@ == snappy_compressed(data@),
{
    snap::raw::Encoder::new().compress_vec(data).ok()
}

/// `snap::raw::Decoder::decompress_vec`.
#[verifier::external_body]
fn snappy_decode(data: &[u8]) -> (r: Option<Vec<u8>>)
    ensures
        match r {
            Some(v) => snappy_decompressed(data@) == Some(v@),
            None => snappy_decompressed(data@).is_none(),
        },
{
    snap::raw::Decoder::new().decompress_vec(data).ok()
}

/// Compresses `data`, unless it is too large for the encoder.
pub fn compress(data: &[u8]) -> (r: Option<Vec<u8>>)
    ensures
        r.is_some() == compressible(data@.len()),
        r.is_some() ==> r.unwrap()@ == snappy_compressed(data@),
{
    snappy_encode(data)
}

/// Decompresses `data`, if it is a valid compressed stream.
pub fn decompress(data: &[u8]) -> (r: Option<Vec<u8>>)
    ensures
        match r {
            Some(v) => snappy_decompressed(data@) == Some(v@),
            None => snappy_decompressed(data@).is_none(),
        },
{
    snappy_decode(data)
}

} // verus!
