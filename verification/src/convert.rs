//! The whole conversion, stage by stage.

use crate::defilter::{defilter, defiltered, lemma_defiltered_ok, stride_of};
use crate::encode::{encode_jpg, encoded, jpeg_encoding};
use crate::error::{ConvertError, DefilterError, ParseError};
use crate::inflate::{decompress, zlib_inflated};
use crate::parse::{parse, parsed, ImageMetadata};
use vstd::prelude::*;

verus! {

/// The outcome of converting a PNG file: the error of the first stage
/// that fails, or the encoder's output for the reconstructed raster.
pub open spec fn converted(png_data: Seq<u8>) -> Result<Seq<u8>, ConvertError> {
    match parsed(png_data) {
        Err(e) => Err(ConvertError::Parse(e)),
        Ok((metadata, payload)) => match zlib_inflated(payload) {
            None => Err(ConvertError::DecompressionFailure),
            Some(scanlines) => match defiltered(scanlines, metadata.width, metadata.height) {
                Err(e) => Err(ConvertError::Defilter(e)),
                Ok(pixels) => encoded(metadata.width, metadata.height, pixels),
            },
        },
    }
}

/// A conversion succeeds as a whole or fails in one stage that its error
/// names. On success every stage succeeded, the raster holds three bytes
/// for each pixel of the image, and the output is the encoder's output for
/// that raster. An error of a stage means that the stages before it
/// succeeded and that this one failed. After a successful defiltering the
/// raster is never too short for the dimensions, unless three times the
/// width does not fit in `usize`.
pub proof fn lemma_conversion_stages(png_data: Seq<u8>)
    ensures
        match converted(png_data) {
            Ok(jpg) => parsed(png_data) matches Ok((metadata, payload)) && zlib_inflated(payload)
                matches Some(scanlines) && defiltered(scanlines, metadata.width, metadata.height)
                matches Ok(pixels) && pixels.len() == 3 * metadata.width * metadata.height
                && jpeg_encoding(metadata.width, metadata.height, pixels) == Some(jpg),
            Err(ConvertError::Parse(e)) => parsed(png_data) == Err::<
                (ImageMetadata, Seq<u8>),
                ParseError,
            >(e),
            Err(ConvertError::DecompressionFailure) => parsed(png_data) matches Ok(
                (metadata, payload),
            ) && zlib_inflated(payload) is None,
            Err(ConvertError::Defilter(e)) => parsed(png_data) matches Ok((metadata, payload))
                && zlib_inflated(payload) matches Some(scanlines) && defiltered(
                scanlines,
                metadata.width,
                metadata.height,
            ) == Err::<Seq<u8>, DefilterError>(e),
            Err(ConvertError::BufferConstructionFailure) => parsed(png_data) matches Ok(
                (metadata, payload),
            ) && 3 * metadata.width > usize::MAX,
            Err(ConvertError::EncodingFailure) => parsed(png_data) matches Ok((metadata, payload))
                && zlib_inflated(payload) matches Some(scanlines) && defiltered(
                scanlines,
                metadata.width,
                metadata.height,
            ) matches Ok(pixels) && jpeg_encoding(metadata.width, metadata.height, pixels) is None,
        },
{
    if let Ok((metadata, payload)) = parsed(png_data) {
        if let Some(scanlines) = zlib_inflated(payload) {
            lemma_defiltered_ok(scanlines, metadata.width, metadata.height);
            let w = metadata.width as int;
            let h = metadata.height as int;
            assert(h * (w * 3) == 3 * w * h) by (nonlinear_arith);
            assert(stride_of(metadata.width) == w * 3);
        }
    }
}

/// Converts a PNG file held in memory to JPEG. The stages run in order:
/// parsing the chunk stream, inflating the payload, reversing the
/// scanline filters, encoding the raster. The first failure ends the
/// conversion with the error of its stage; there is no partial output.
pub fn convert_png_to_jpg(png_data: &[u8]) -> (r: Result<Vec<u8>, ConvertError>)
    ensures
        match r {
            Ok(jpg) => converted(png_data@) == Ok::<Seq<u8>, ConvertError>(jpg@),
            Err(e) => converted(png_data@) == Err::<Seq<u8>, ConvertError>(e),
        },
{
    let (metadata, payload) = match parse(png_data) {
        Ok(found) => found,
        Err(e) => {
            return Err(ConvertError::Parse(e));
        },
    };
    let scanlines = match decompress(payload.as_slice()) {
        Some(scanlines) => scanlines,
        None => {
            return Err(ConvertError::DecompressionFailure);
        },
    };
    let pixels = match defilter(scanlines.as_slice(), metadata.width, metadata.height) {
        Ok(pixels) => pixels,
        Err(e) => {
            return Err(ConvertError::Defilter(e));
        },
    };
    encode_jpg(metadata.width, metadata.height, pixels)
}

} // verus!
