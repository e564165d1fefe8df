//! Inflating the zlib stream that the image-data chunks carry.

use std::io::Read;
use vstd::prelude::*;

verus! {

/// `std::io::Error`, the error of the decoder; nothing is said of what it
/// holds.
#[verifier::external_type_specification]
#[verifier::external_body]
pub struct ExIoError(std::io::Error);

/// What `flate2`'s zlib decoder makes of a byte stream: the inflated
/// bytes, or `None` where it reports an error.
pub uninterp spec fn zlib_inflated(stream: Seq<u8>) -> Option<Seq<u8>>;

/// Reads a `flate2::read::ZlibDecoder` over `stream` to its end. Nothing
/// is claimed of what the decoder produces but that it depends on the
/// bytes of the stream alone: the outcome is `zlib_inflated` of them.
#[verifier::external_body]
fn zlib_decode(stream: &[u8]) -> (r: Result<Vec<u8>, std::io::Error>)
    ensures
        match r {
            Ok(bytes) => zlib_inflated(stream@) == Some(bytes@),
            Err(_) => zlib_inflated(stream@) is None,
        },
{
    let mut bytes = Vec::new();
    flate2::read::ZlibDecoder::new(stream).read_to_end(&mut bytes)?;
    Ok(bytes)
}

/// Inflates the reassembled payload of the image-data chunks. Returns
/// `None` where the payload is not a zlib stream that the decoder accepts.
pub fn decompress(payload: &[u8]) -> (r: Option<Vec<u8>>)
    ensures
        match r {
            Some(bytes) => zlib_inflated(payload@) == Some(bytes@),
            None => zlib_inflated(payload@) is None,
        },
{
    match zlib_decode(payload) {
        Ok(bytes) => Some(bytes),
        Err(_) => None,
    }
}

} // verus!
