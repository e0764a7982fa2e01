use vstd::prelude::*;
use crate::errors::StoreError;

verus! {

/// What the zlib encoder produces at the default level: a byte sequence
/// determined by the input alone.
pub uninterp spec fn deflate_of(data: Seq<u8>) -> Seq<u8>;

/// What zlib inflation yields: `Some` of the decompressed bytes where the
/// input begins with a valid zlib stream (bytes after the stream's end are
/// ignored), `None` where it is malformed or truncated. A pure function of
/// the input.
pub uninterp spec fn inflate_of(data: Seq<u8>) -> Option<Seq<u8>>;

/// Relies on `flate2::read::ZlibEncoder` at the default level: compression
/// is a pure function of the input bytes, never fails on in-memory input,
/// and is lossless — inflating its output returns the input.
#[verifier::external_body]
fn zlib_deflate(data: &[u8]) -> (r: Vec<u8>)
    ensures
        r@ == deflate_of(data@),
        inflate_of(r@) == Some(data@),
{
    let mut encoder = flate2::read::ZlibEncoder::new(data, flate2::Compression::default());
    let mut out = Vec::new();
    std::io::Read::read_to_end(&mut encoder, &mut out).expect("in-memory compression cannot fail");
    out
}

/// Relies on `flate2::read::ZlibDecoder`: inflation is a pure function of
/// the input bytes; it returns the decompressed bytes of a valid stream and
/// reports malformed or truncated streams as errors.
#[verifier::external_body]
fn zlib_inflate(data: &[u8]) -> (r: Result<Vec<u8>, StoreError>)
    ensures
        r matches Ok(d) ==> inflate_of(data@) == Some(d@),
        r matches Err(e) ==> inflate_of(data@) is None && e == StoreError::CorruptStream,
{
    let mut decoder = flate2::read::ZlibDecoder::new(data);
    let mut out = Vec::new();
    match std::io::Read::read_to_end(&mut decoder, &mut out) {
        Ok(_) => Ok(out),
        Err(_) => Err(StoreError::CorruptStream),
    }
}

/// Compresses bytes for persistence. The result both equals `deflate_of` of
/// the input and inflates back to the input: the round trip
/// `decompress(compress(x)) == x` holds for every `x`, the empty sequence
/// included.
pub fn compress(raw: &Vec<u8>) -> (r: Vec<u8>)
    ensures
        r@ == deflate_of(raw@),
        inflate_of(r@) == Some(raw@),
{
    zlib_deflate(raw.as_slice())
}

/// Inflates zlib-compressed bytes; fails with `CorruptStream` exactly on
/// input that does not begin with a valid compressed stream.
pub fn decompress(compressed: &Vec<u8>) -> (r: Result<Vec<u8>, StoreError>)
    ensures
        r matches Ok(d) ==> inflate_of(compressed@) == Some(d@),
        r matches Err(e) ==> inflate_of(compressed@) is None && e == StoreError::CorruptStream,
{
    zlib_inflate(compressed.as_slice())
}

} // verus!
