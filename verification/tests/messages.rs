use png_to_jpg::error::{
    decimal, ChunkFault, ConvertError, DefilterError, HeaderField, ParseError, Variant,
};

#[test]
fn decimal_of_every_byte() {
    for value in 0..=255u8 {
        assert_eq!(decimal(value), format!("{}", value));
    }
    assert_eq!(decimal(0), "0");
    assert_eq!(decimal(9), "9");
    assert_eq!(decimal(10), "10");
    assert_eq!(decimal(99), "99");
    assert_eq!(decimal(100), "100");
    assert_eq!(decimal(105), "105");
    assert_eq!(decimal(255), "255");
}

#[test]
fn header_field_names() {
    assert_eq!(HeaderField::Width.describe(), "width");
    assert_eq!(HeaderField::Height.describe(), "height");
    assert_eq!(HeaderField::BitDepth.describe(), "bit depth");
    assert_eq!(HeaderField::ColorModel.describe(), "color model");
    assert_eq!(HeaderField::CompressionMethod.describe(), "compression method");
    assert_eq!(HeaderField::FilterMethod.describe(), "filter method");
    assert_eq!(HeaderField::InterlaceFlag.describe(), "interlace flag");
}

#[test]
fn parse_error_messages() {
    assert_eq!(
        ParseError::InvalidSignature.message(),
        "Not a valid PNG, currently only support PNG"
    );
    assert_eq!(
        ParseError::UnsupportedVariant(Variant::Interlaced).message(),
        "Interlaced PNGs are not supported"
    );
    assert_eq!(
        ParseError::UnsupportedVariant(Variant::ColorModelOrBitDepth).message(),
        "Only RGB 8-bit PNG supported"
    );
    assert_eq!(
        ParseError::MalformedChunkStream(ChunkFault::TruncatedLength).message(),
        "Malformed chunk stream: chunk length is cut short"
    );
    assert_eq!(
        ParseError::MalformedChunkStream(ChunkFault::TruncatedTypeTag).message(),
        "Malformed chunk stream: chunk type tag is cut short"
    );
    assert_eq!(
        ParseError::MalformedChunkStream(ChunkFault::InvalidTypeTag).message(),
        "Malformed chunk stream: chunk type tag is not text"
    );
    assert_eq!(
        ParseError::MalformedChunkStream(ChunkFault::TruncatedData).message(),
        "Malformed chunk stream: chunk data is cut short"
    );
    assert_eq!(
        ParseError::MalformedChunkStream(ChunkFault::TruncatedIntegrityCode).message(),
        "Malformed chunk stream: chunk integrity code is cut short"
    );
    assert_eq!(
        ParseError::MalformedChunkStream(ChunkFault::TruncatedHeader(HeaderField::BitDepth))
            .message(),
        "Malformed chunk stream: header chunk ends before the end of its bit depth"
    );
}

#[test]
fn chunk_fault_messages_name_the_field() {
    assert_eq!(
        ChunkFault::TruncatedHeader(HeaderField::Width).message(),
        "header chunk ends before the end of its width"
    );
    assert_eq!(
        ChunkFault::TruncatedHeader(HeaderField::InterlaceFlag).message(),
        "header chunk ends before the end of its interlace flag"
    );
    assert_eq!(ChunkFault::TruncatedData.message(), "chunk data is cut short");
}

#[test]
fn defilter_error_messages() {
    assert_eq!(
        DefilterError::UnsupportedFilterType(5).message(),
        "Unsupported filter type: 5"
    );
    assert_eq!(
        DefilterError::UnsupportedFilterType(42).message(),
        "Unsupported filter type: 42"
    );
    assert_eq!(
        DefilterError::UnsupportedFilterType(200).message(),
        "Unsupported filter type: 200"
    );
    assert_eq!(
        DefilterError::TruncatedData.message(),
        "Image data ends before the last scanline"
    );
}

#[test]
fn convert_error_messages() {
    assert_eq!(
        ConvertError::Parse(ParseError::InvalidSignature).message(),
        "Not a valid PNG, currently only support PNG"
    );
    assert_eq!(
        ConvertError::Defilter(DefilterError::UnsupportedFilterType(7)).message(),
        "Unsupported filter type: 7"
    );
    assert_eq!(
        ConvertError::DecompressionFailure.message(),
        "Failed to decompress the image data"
    );
    assert_eq!(
        ConvertError::BufferConstructionFailure.message(),
        "failed to create image buffer"
    );
    assert_eq!(ConvertError::EncodingFailure.message(), "Failed to encode the image");
}
