//! Encoding of a finished raster as JPEG, by the `image` crate.

use crate::error::ConvertError;
use vstd::prelude::*;

verus! {

/// An 8-bit RGB image as the `image` crate holds it: an
/// `image::RgbImage`, which is `ImageBuffer<Rgb<u8>, Vec<u8>>`. It is
/// kept behind a private field because `ImageBuffer` itself cannot be
/// declared to Verus: its pixel parameter is bound by a trait of the
/// `image` crate. What the contracts say of an image, they say through
/// `image_dimensions` and `image_samples`.
#[verifier::external_body]
pub struct RgbImage {
    inner: image::RgbImage,
}

/// `image::ImageError`, the error of the encoder; nothing is said of what
/// it holds.
#[verifier::external_type_specification]
#[verifier::external_body]
pub struct ExImageError(image::ImageError);

/// Width and height of an image, in pixels.
pub uninterp spec fn image_dimensions(img: RgbImage) -> (u32, u32);

/// The samples that an image holds: the bytes of its buffer, row by row,
/// three per pixel.
pub uninterp spec fn image_samples(img: RgbImage) -> Seq<u8>;

/// What the `image` crate's JPEG encoder, at its default quality, writes
/// for an RGB image of the given dimensions and samples; `None` where it
/// reports an error.
pub uninterp spec fn jpeg_encoding(width: u32, height: u32, samples: Seq<u8>) -> Option<Seq<u8>>;

/// Calls `image::ImageBuffer::from_raw`, which accepts a buffer exactly if
/// three times the width times the height, computed without overflow in
/// `usize`, is at most the buffer's length, and then keeps the dimensions
/// and the buffer as they are.
#[verifier::external_body]
fn image_from_raw(width: u32, height: u32, samples: Vec<u8>) -> (r: Option<RgbImage>)
    ensures
        r.is_some() == (3 * width <= usize::MAX && 3 * width * height <= samples@.len()),
        r matches Some(img) ==> image_dimensions(img) == (width, height) && image_samples(img)
            == samples@,
{
    match image::ImageBuffer::from_raw(width, height, samples) {
        Some(inner) => Some(RgbImage { inner }),
        None => None,
    }
}

/// Runs `image::codecs::jpeg::JpegEncoder::encode_image` on an encoder
/// made by `JpegEncoder::new` over an empty vector, and hands out what it
/// wrote. Nothing is claimed of the bytes but that they depend on the
/// image's dimensions and samples alone: the outcome is `jpeg_encoding`
/// of them.
#[verifier::external_body]
fn jpeg_encode(img: &RgbImage) -> (r: Result<Vec<u8>, image::ImageError>)
    ensures
        match r {
            Ok(bytes) => jpeg_encoding(
                image_dimensions(*img).0,
                image_dimensions(*img).1,
                image_samples(*img),
            ) == Some(bytes@),
            Err(_) => jpeg_encoding(
                image_dimensions(*img).0,
                image_dimensions(*img).1,
                image_samples(*img),
            ) is None,
        },
{
    let mut bytes = Vec::new();
    image::codecs::jpeg::JpegEncoder::new(&mut bytes).encode_image(&img.inner)?;
    Ok(bytes)
}

/// Whether a raster holds the samples of a `width` by `height` RGB image.
pub open spec fn raster_fits(width: u32, height: u32, len: nat) -> bool {
    3 * width <= usize::MAX && 3 * width * height <= len
}

/// The outcome of encoding a raster: `BufferConstructionFailure` where the
/// raster is too short for the dimensions, `EncodingFailure` where the
/// encoder refuses the image, else the encoder's output.
pub open spec fn encoded(width: u32, height: u32, pixels: Seq<u8>) -> Result<
    Seq<u8>,
    ConvertError,
> {
    if !raster_fits(width, height, pixels.len()) {
        Err(ConvertError::BufferConstructionFailure)
    } else {
        match jpeg_encoding(width, height, pixels) {
            Some(bytes) => Ok(bytes),
            None => Err(ConvertError::EncodingFailure),
        }
    }
}

/// Encodes a row-major RGB raster, three bytes per pixel, as JPEG.
pub fn encode_jpg(width: u32, height: u32, pixels: Vec<u8>) -> (r: Result<Vec<u8>, ConvertError>)
    ensures
        match r {
            Ok(bytes) => encoded(width, height, pixels@) == Ok::<Seq<u8>, ConvertError>(bytes@),
            Err(e) => encoded(width, height, pixels@) == Err::<Seq<u8>, ConvertError>(e),
        },
{
    match image_from_raw(width, height, pixels) {
        None => Err(ConvertError::BufferConstructionFailure),
        Some(img) => match jpeg_encode(&img) {
            Ok(bytes) => Ok(bytes),
            Err(_) => Err(ConvertError::EncodingFailure),
        },
    }
}

} // verus!
