//! The failures that each stage of the conversion can report.

use vstd::prelude::*;
use vstd::string::StringExecFns;

verus! {

/// A field of the image header chunk.
#[derive(Clone, Copy, Debug, PartialEq, Eq, Structural)]
pub enum HeaderField {
    Width,
    Height,
    BitDepth,
    ColorModel,
    CompressionMethod,
    FilterMethod,
    InterlaceFlag,
}

/// What is wrong with a chunk that cannot be read in full.
#[derive(Clone, Copy, Debug, PartialEq, Eq, Structural)]
pub enum ChunkFault {
    /// The stream ends inside the four bytes of the length.
    TruncatedLength,
    /// The stream ends inside the four bytes of the type tag.
    TruncatedTypeTag,
    /// The four bytes of the type tag are not text.
    InvalidTypeTag,
    /// The stream holds fewer data bytes than the chunk's length announces.
    TruncatedData,
    /// The stream ends inside the trailing integrity code.
    TruncatedIntegrityCode,
    /// The data of a header chunk ends before or inside this field.
    TruncatedHeader(HeaderField),
}

/// A structural variant of the format that the decoder does not handle.
#[derive(Clone, Copy, Debug, PartialEq, Eq, Structural)]
pub enum Variant {
    /// The scanlines are interlaced.
    Interlaced,
    /// The image is not 8-bit RGB.
    ColorModelOrBitDepth,
}

/// Why a byte buffer could not be parsed as a chunk stream.
#[derive(Clone, Copy, Debug, PartialEq, Eq, Structural)]
pub enum ParseError {
    /// The buffer does not begin with the eight signature bytes.
    InvalidSignature,
    /// A chunk is cut short or carries a malformed field.
    MalformedChunkStream(ChunkFault),
    /// The image uses a variant of the format that is not supported.
    UnsupportedVariant(Variant),
}

/// Why the scanlines of an inflated stream could not be reconstructed.
#[derive(Clone, Copy, Debug, PartialEq, Eq, Structural)]
pub enum DefilterError {
    /// A scanline begins with a filter-type byte other than 0 to 4.
    UnsupportedFilterType(u8),
    /// The stream ends before the last scanline that the dimensions call for.
    TruncatedData,
}

/// Why a conversion failed, by the stage that failed.
#[derive(Clone, Copy, Debug, PartialEq, Eq, Structural)]
pub enum ConvertError {
    /// The chunk stream could not be parsed.
    Parse(ParseError),
    /// The payload of the image-data chunks could not be inflated.
    DecompressionFailure,
    /// The scanlines could not be reconstructed.
    Defilter(DefilterError),
    /// The raster is too short for the dimensions of the image.
    BufferConstructionFailure,
    /// The encoder rejected the raster.
    EncodingFailure,
}

impl HeaderField {
    /// The name of the field.
    pub open spec fn name(self) -> Seq<char> {
        match self {
            HeaderField::Width => "width"@,
            HeaderField::Height => "height"@,
            HeaderField::BitDepth => "bit depth"@,
            HeaderField::ColorModel => "color model"@,
            HeaderField::CompressionMethod => "compression method"@,
            HeaderField::FilterMethod => "filter method"@,
            HeaderField::InterlaceFlag => "interlace flag"@,
        }
    }

    /// Gives the name of the field.
    pub fn describe(&self) -> (text: &'static str)
        ensures
            text@ == self.name(),
    {
        match self {
            HeaderField::Width => "width",
            HeaderField::Height => "height",
            HeaderField::BitDepth => "bit depth",
            HeaderField::ColorModel => "color model",
            HeaderField::CompressionMethod => "compression method",
            HeaderField::FilterMethod => "filter method",
            HeaderField::InterlaceFlag => "interlace flag",
        }
    }
}

impl ChunkFault {
    /// What the fault is, in words.
    pub open spec fn text(self) -> Seq<char> {
        match self {
            ChunkFault::TruncatedLength => "chunk length is cut short"@,
            ChunkFault::TruncatedTypeTag => "chunk type tag is cut short"@,
            ChunkFault::InvalidTypeTag => "chunk type tag is not text"@,
            ChunkFault::TruncatedData => "chunk data is cut short"@,
            ChunkFault::TruncatedIntegrityCode => "chunk integrity code is cut short"@,
            ChunkFault::TruncatedHeader(field) => "header chunk ends before the end of its "@
                + field.name(),
        }
    }

    /// Says in words what the fault is, naming the field where one is known.
    pub fn message(&self) -> (text: String)
        ensures
            text@ == self.text(),
    {
        match self {
            ChunkFault::TruncatedLength => "chunk length is cut short".to_owned(),
            ChunkFault::TruncatedTypeTag => "chunk type tag is cut short".to_owned(),
            ChunkFault::InvalidTypeTag => "chunk type tag is not text".to_owned(),
            ChunkFault::TruncatedData => "chunk data is cut short".to_owned(),
            ChunkFault::TruncatedIntegrityCode => "chunk integrity code is cut short".to_owned(),
            ChunkFault::TruncatedHeader(field) => {
                let start = "header chunk ends before the end of its ".to_owned();
                start.concat(field.describe())
            },
        }
    }
}

impl Variant {
    /// What is not supported, in words.
    pub open spec fn text(self) -> Seq<char> {
        match self {
            Variant::Interlaced => "Interlaced PNGs are not supported"@,
            Variant::ColorModelOrBitDepth => "Only RGB 8-bit PNG supported"@,
        }
    }

    /// Says in words what is not supported.
    pub fn message(&self) -> (text: String)
        ensures
            text@ == self.text(),
    {
        match self {
            Variant::Interlaced => "Interlaced PNGs are not supported".to_owned(),
            Variant::ColorModelOrBitDepth => "Only RGB 8-bit PNG supported".to_owned(),
        }
    }
}

impl ParseError {
    /// The error in words.
    pub open spec fn text(self) -> Seq<char> {
        match self {
            ParseError::InvalidSignature => "Not a valid PNG, currently only support PNG"@,
            ParseError::MalformedChunkStream(fault) => "Malformed chunk stream: "@ + fault.text(),
            ParseError::UnsupportedVariant(variant) => variant.text(),
        }
    }

    /// Describes the error in words.
    pub fn message(&self) -> (text: String)
        ensures
            text@ == self.text(),
    {
        match self {
            ParseError::InvalidSignature => {
                "Not a valid PNG, currently only support PNG".to_owned()
            },
            ParseError::MalformedChunkStream(fault) => {
                let detail = fault.message();
                "Malformed chunk stream: ".to_owned().concat(detail.as_str())
            },
            ParseError::UnsupportedVariant(variant) => variant.message(),
        }
    }
}

/// The decimal digit `d`, for `d` from 0 to 9.
pub open spec fn digit_text(d: u8) -> Seq<char> {
    if d == 0 {
        "0"@
    } else if d == 1 {
        "1"@
    } else if d == 2 {
        "2"@
    } else if d == 3 {
        "3"@
    } else if d == 4 {
        "4"@
    } else if d == 5 {
        "5"@
    } else if d == 6 {
        "6"@
    } else if d == 7 {
        "7"@
    } else if d == 8 {
        "8"@
    } else {
        "9"@
    }
}

/// A byte in decimal, without leading zeros.
pub open spec fn decimal_text(value: u8) -> Seq<char> {
    if value < 10 {
        digit_text(value)
    } else if value < 100 {
        digit_text(value / 10) + digit_text(value % 10)
    } else {
        digit_text(value / 100) + digit_text((value / 10) % 10) + digit_text(value % 10)
    }
}

fn digit(d: u8) -> (text: &'static str)
    requires
        d < 10,
    ensures
        text@ == digit_text(d),
{
    match d {
        0 => "0",
        1 => "1",
        2 => "2",
        3 => "3",
        4 => "4",
        5 => "5",
        6 => "6",
        7 => "7",
        8 => "8",
        _ => "9",
    }
}

/// Writes a byte in decimal.
pub fn decimal(value: u8) -> (text: String)
    ensures
        text@ == decimal_text(value),
{
    if value < 10 {
        digit(value).to_owned()
    } else if value < 100 {
        digit(value / 10).to_owned().concat(digit(value % 10))
    } else {
        digit(value / 100).to_owned().concat(digit((value / 10) % 10)).concat(digit(value % 10))
    }
}

impl DefilterError {
    /// The error in words.
    pub open spec fn text(self) -> Seq<char> {
        match self {
            DefilterError::UnsupportedFilterType(byte) => "Unsupported filter type: "@
                + decimal_text(byte),
            DefilterError::TruncatedData => "Image data ends before the last scanline"@,
        }
    }

    /// Describes the error in words, with the filter-type byte that was
    /// refused.
    pub fn message(&self) -> (text: String)
        ensures
            text@ == self.text(),
    {
        match self {
            DefilterError::UnsupportedFilterType(byte) => {
                let number = decimal(*byte);
                "Unsupported filter type: ".to_owned().concat(number.as_str())
            },
            DefilterError::TruncatedData => "Image data ends before the last scanline".to_owned(),
        }
    }
}

impl ConvertError {
    /// The error in words.
    pub open spec fn text(self) -> Seq<char> {
        match self {
            ConvertError::Parse(e) => e.text(),
            ConvertError::DecompressionFailure => "Failed to decompress the image data"@,
            ConvertError::Defilter(e) => e.text(),
            ConvertError::BufferConstructionFailure => "failed to create image buffer"@,
            ConvertError::EncodingFailure => "Failed to encode the image"@,
        }
    }

    /// Describes the error in words: the message of the stage that failed.
    pub fn message(&self) -> (text: String)
        ensures
            text@ == self.text(),
    {
        match self {
            ConvertError::Parse(e) => e.message(),
            ConvertError::DecompressionFailure => "Failed to decompress the image data".to_owned(),
            ConvertError::Defilter(e) => e.message(),
            ConvertError::BufferConstructionFailure => "failed to create image buffer".to_owned(),
            ConvertError::EncodingFailure => "Failed to encode the image".to_owned(),
        }
    }
}

} // verus!
