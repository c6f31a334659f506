//! Inflating a payload that is stored as a zlib stream.

use vstd::prelude::*;

verus! {

/// What comes out when `data` is read to the end through the zlib decoder
/// of `flate2`: the inflated bytes, or `None` where the decoder reports an
/// error. The zlib format itself is not written down here.
pub uninterp spec fn zlib_inflated(data: Seq<u8>) -> Option<Seq<u8>>;

/// Reads `data` to the end through `flate2::read::ZlibDecoder`. Trusted:
/// the result is `zlib_inflated(data)`, the bytes that the decoder gave
/// out, or `None` where it reported an error; the same bytes give the same
/// result.
#[verifier::external_body]
pub(crate) fn inflate(data: &[u8]) -> (out: Option<Vec<u8>>)
    ensures
        out is Some <==> zlib_inflated(data@) is Some,
        out matches Some(bytes) ==> zlib_inflated(data@) == Some(bytes@),
{
    let mut bytes: Vec<u8> = Vec::new();
    match std::io::Read::read_to_end(&mut flate2::read::ZlibDecoder::new(data), &mut bytes) {
        Ok(_) => Some(bytes),
        Err(_) => None,
    }
}

} // verus!
