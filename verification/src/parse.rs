//! The chunk stream parser: checks the signature, walks the chunks, takes
//! the image header and reassembles the compressed payload.

use crate::chunk::{frame_at, kind_of, Chunk, ChunkKind, ChunkReader, Frame};
use crate::error::{ChunkFault, HeaderField, ParseError, Variant};
use crate::wire::{big_endian_u32, read_be_u32};
use vstd::prelude::*;

verus! {

/// Number of bytes of the file signature.
pub const SIGNATURE_LEN: usize = 8;

/// Number of data bytes of a header chunk.
pub const HEADER_LEN: usize = 13;

/// The colour model of the one supported kind of image: RGB.
pub const COLOR_MODEL_RGB: u8 = 2;

/// The bit depth of the one supported kind of image.
pub const BIT_DEPTH_8: u8 = 8;

/// The eight bytes that every PNG file begins with.
pub open spec fn signature() -> Seq<u8> {
    seq![0x89u8, 0x50u8, 0x4eu8, 0x47u8, 0x0du8, 0x0au8, 0x1au8, 0x0au8]
}

/// Whether a buffer begins with the signature.
pub open spec fn has_signature(input: Seq<u8>) -> bool {
    input.len() >= SIGNATURE_LEN && input.take(SIGNATURE_LEN as int) == signature()
}

/// What the header chunk says of the image.
#[derive(Clone, Copy, Debug, PartialEq, Eq, Structural)]
pub struct ImageMetadata {
    /// Width in pixels.
    pub width: u32,
    /// Height in pixels.
    pub height: u32,
    /// Bits per colour sample.
    pub bit_depth: u8,
    /// The colour model; 2 is RGB.
    pub color_model: u8,
    /// Zero where the scanlines come in order.
    pub interlace_flag: u8,
}

/// The first field of a header chunk that `len` data bytes do not hold in
/// full, if there is one.
pub open spec fn missing_header_field(len: nat) -> Option<HeaderField> {
    if len < 4 {
        Some(HeaderField::Width)
    } else if len < 8 {
        Some(HeaderField::Height)
    } else if len < 9 {
        Some(HeaderField::BitDepth)
    } else if len < 10 {
        Some(HeaderField::ColorModel)
    } else if len < 11 {
        Some(HeaderField::CompressionMethod)
    } else if len < 12 {
        Some(HeaderField::FilterMethod)
    } else if len < 13 {
        Some(HeaderField::InterlaceFlag)
    } else {
        None
    }
}

/// The fields of a header chunk: width and height as big-endian integers
/// in bytes 0 to 7, then one byte each for bit depth, colour model,
/// compression method, filter method and interlace flag. Compression and
/// filter method are not looked at. A nonzero interlace flag is refused.
pub open spec fn header_fields(data: Seq<u8>) -> Result<ImageMetadata, ParseError> {
    match missing_header_field(data.len()) {
        Some(field) => Err(ParseError::MalformedChunkStream(ChunkFault::TruncatedHeader(field))),
        None => if data[12] != 0 {
            Err(ParseError::UnsupportedVariant(Variant::Interlaced))
        } else {
            Ok(
                ImageMetadata {
                    width: big_endian_u32(data.subrange(0, 4)),
                    height: big_endian_u32(data.subrange(4, 8)),
                    bit_depth: data[8],
                    color_model: data[9],
                    interlace_flag: data[12],
                },
            )
        },
    }
}

/// Reads the fields of a header chunk from its data.
pub fn parse_header(data: &[u8]) -> (r: Result<ImageMetadata, ParseError>)
    ensures
        r == header_fields(data@),
{
    let len = data.len();
    if len < HEADER_LEN {
        let field = if len < 4 {
            HeaderField::Width
        } else if len < 8 {
            HeaderField::Height
        } else if len < 9 {
            HeaderField::BitDepth
        } else if len < 10 {
            HeaderField::ColorModel
        } else if len < 11 {
            HeaderField::CompressionMethod
        } else if len < 12 {
            HeaderField::FilterMethod
        } else {
            HeaderField::InterlaceFlag
        };
        return Err(ParseError::MalformedChunkStream(ChunkFault::TruncatedHeader(field)));
    }
    let width = read_be_u32(&data[0..4]);
    let height = read_be_u32(&data[4..8]);
    let interlace_flag = data[12];
    if interlace_flag != 0 {
        return Err(ParseError::UnsupportedVariant(Variant::Interlaced));
    }
    Ok(ImageMetadata { width, height, bit_depth: data[8], color_model: data[9], interlace_flag })
}

/// What the parser has gathered so far, as a mathematical value.
pub struct Progress {
    /// The fields of the first header chunk, once one was read.
    pub metadata: Option<ImageMetadata>,
    /// The data of the image-data chunks read so far, in stream order.
    pub payload: Seq<u8>,
}

/// The progress before any chunk was read.
pub open spec fn no_progress() -> Progress {
    Progress { metadata: None, payload: Seq::empty() }
}

/// The progress after one more chunk. A header chunk is read and checked,
/// and its fields are kept unless an earlier header chunk was read; the
/// data of an image-data chunk is appended to the payload; any other chunk
/// changes nothing.
pub open spec fn absorbed(progress: Progress, tag: Seq<u8>, data: Seq<u8>) -> Result<
    Progress,
    ParseError,
> {
    match kind_of(tag) {
        ChunkKind::Header => match header_fields(data) {
            Err(e) => Err(e),
            Ok(metadata) => Ok(
                Progress {
                    metadata: if progress.metadata is Some {
                        progress.metadata
                    } else {
                        Some(metadata)
                    },
                    payload: progress.payload,
                },
            ),
        },
        ChunkKind::ImageData => Ok(
            Progress { metadata: progress.metadata, payload: progress.payload + data },
        ),
        _ => Ok(progress),
    }
}

/// The progress at the end of the stream, reading chunks from `pos` on:
/// up to the terminator chunk, or to the end of the buffer where that
/// comes first and falls between two chunks. A chunk that the buffer does
/// not hold in full is an error.
pub open spec fn scanned(input: Seq<u8>, pos: int, progress: Progress) -> Result<
    Progress,
    ParseError,
>
    decreases input.len() - pos,
{
    match frame_at(input, pos) {
        Frame::End => Ok(progress),
        Frame::Fault(fault) => Err(ParseError::MalformedChunkStream(fault)),
        Frame::Chunk { length, tag, data, next } => if kind_of(tag) == ChunkKind::Terminator {
            Ok(progress)
        } else {
            match absorbed(progress, tag, data) {
                Err(e) => Err(e),
                Ok(after) => scanned(input, next, after),
            }
        },
    }
}

/// The result of a finished scan: the header's fields and the payload,
/// provided that a header was read and the image is 8-bit RGB.
pub open spec fn finished(progress: Progress) -> Result<(ImageMetadata, Seq<u8>), ParseError> {
    match progress.metadata {
        Some(metadata) => if metadata.color_model == COLOR_MODEL_RGB && metadata.bit_depth
            == BIT_DEPTH_8 {
            Ok((metadata, progress.payload))
        } else {
            Err(ParseError::UnsupportedVariant(Variant::ColorModelOrBitDepth))
        },
        None => Err(ParseError::UnsupportedVariant(Variant::ColorModelOrBitDepth)),
    }
}

/// The outcome of parsing a whole buffer.
pub open spec fn parsed(input: Seq<u8>) -> Result<(ImageMetadata, Seq<u8>), ParseError> {
    if !has_signature(input) {
        Err(ParseError::InvalidSignature)
    } else {
        match scanned(input, SIGNATURE_LEN as int, no_progress()) {
            Err(e) => Err(e),
            Ok(progress) => finished(progress),
        }
    }
}

/// Whether the header fields that the parser holds, if any, are those of
/// an image that is not interlaced.
pub open spec fn sequential(progress: Progress) -> bool {
    progress.metadata matches Some(metadata) ==> metadata.interlace_flag == 0
}

/// A scan never reports an invalid signature, and the header fields that
/// it ends with are those of an image that is not interlaced.
pub proof fn lemma_scanned_outcome(input: Seq<u8>, pos: int, progress: Progress)
    requires
        sequential(progress),
    ensures
        scanned(input, pos, progress) != Err::<Progress, ParseError>(ParseError::InvalidSignature),
        scanned(input, pos, progress) matches Ok(end) ==> sequential(end),
    decreases input.len() - pos,
{
    match frame_at(input, pos) {
        Frame::Chunk { length, tag, data, next } => {
            if kind_of(tag) != ChunkKind::Terminator {
                match absorbed(progress, tag, data) {
                    Ok(after) => {
                        lemma_scanned_outcome(input, next, after);
                    },
                    Err(_) => {},
                }
            }
        },
        _ => {},
    }
}

/// A buffer whose first eight bytes are not the signature is refused with
/// `InvalidSignature`, whatever follows them, and no other buffer is.
pub proof fn lemma_signature_decides(input: Seq<u8>)
    ensures
        parsed(input) == Err::<(ImageMetadata, Seq<u8>), ParseError>(ParseError::InvalidSignature)
            <==> !has_signature(input),
        (input.len() < 8 || exists|i: int| 0 <= i < 8 && input[i] != signature()[i]) ==> parsed(
            input,
        ) == Err::<(ImageMetadata, Seq<u8>), ParseError>(ParseError::InvalidSignature),
{
    lemma_scanned_outcome(input, SIGNATURE_LEN as int, no_progress());
    if input.len() >= 8 && has_signature(input) {
        assert forall|i: int| 0 <= i < 8 implies input[i] == signature()[i] by {
            assert(input.take(SIGNATURE_LEN as int)[i] == input[i]);
        }
    }
}

/// A successful parse gives the fields of an 8-bit RGB image that is not
/// interlaced.
pub proof fn lemma_parsed_image_supported(input: Seq<u8>)
    ensures
        parsed(input) matches Ok((metadata, payload)) ==> metadata.color_model == COLOR_MODEL_RGB
            && metadata.bit_depth == BIT_DEPTH_8 && metadata.interlace_flag == 0,
{
    lemma_scanned_outcome(input, SIGNATURE_LEN as int, no_progress());
}

/// A header chunk with a nonzero interlace flag ends the scan with
/// `UnsupportedVariant`, whatever its other fields hold, wherever in the
/// stream it stands and whatever was read before it.
pub proof fn lemma_interlaced_header_rejected(input: Seq<u8>, pos: int, progress: Progress)
    requires
        frame_at(input, pos) matches Frame::Chunk { tag, data, .. } && kind_of(tag)
            == ChunkKind::Header && data.len() >= HEADER_LEN && data[12] != 0,
    ensures
        scanned(input, pos, progress) == Err::<Progress, ParseError>(
            ParseError::UnsupportedVariant(Variant::Interlaced),
        ),
{
}

/// A file whose first chunk is a header chunk with a nonzero interlace
/// flag is refused with `UnsupportedVariant`, whatever the other fields of
/// the header and the rest of the file hold.
pub proof fn lemma_interlaced_image_rejected(input: Seq<u8>)
    requires
        has_signature(input),
        frame_at(input, SIGNATURE_LEN as int) matches Frame::Chunk { tag, data, .. } && kind_of(tag)
            == ChunkKind::Header && data.len() >= HEADER_LEN && data[12] != 0,
    ensures
        parsed(input) == Err::<(ImageMetadata, Seq<u8>), ParseError>(
            ParseError::UnsupportedVariant(Variant::Interlaced),
        ),
{
    lemma_interlaced_header_rejected(input, SIGNATURE_LEN as int, no_progress());
}

/// Where the bytes run out inside a chunk, in its length, its type tag,
/// its data or its integrity code, the scan fails with
/// `MalformedChunkStream`; where they run out between two chunks, it ends
/// without an error.
pub proof fn lemma_cut_chunk_rejected(input: Seq<u8>, pos: int, progress: Progress)
    requires
        0 <= pos <= input.len(),
    ensures
        pos == input.len() ==> scanned(input, pos, progress) == Ok::<Progress, ParseError>(
            progress,
        ),
        pos < input.len() && input.len() - pos < 4 ==> scanned(input, pos, progress) == Err::<
            Progress,
            ParseError,
        >(ParseError::MalformedChunkStream(ChunkFault::TruncatedLength)),
        pos < input.len() && (input.len() - pos < 12 || input.len() - pos < 12 + big_endian_u32(
            input.subrange(pos, pos + 4),
        )) ==> scanned(input, pos, progress) matches Err(ParseError::MalformedChunkStream(_)),
{
}

/// A file that ends inside its first chunk is refused with
/// `MalformedChunkStream`.
pub proof fn lemma_cut_file_rejected(input: Seq<u8>)
    requires
        has_signature(input),
        input.len() > SIGNATURE_LEN,
        input.len() < SIGNATURE_LEN + 12 || input.len() < SIGNATURE_LEN + 12 + big_endian_u32(
            input.subrange(SIGNATURE_LEN as int, SIGNATURE_LEN + 4),
        ),
    ensures
        parsed(input) matches Err(ParseError::MalformedChunkStream(_)),
{
    lemma_cut_chunk_rejected(input, SIGNATURE_LEN as int, no_progress());
}

/// The data of an image-data chunk goes to the end of the payload, so
/// that the payload holds the data of all such chunks in stream order.
pub proof fn lemma_image_data_appended(input: Seq<u8>, pos: int, progress: Progress)
    requires
        frame_at(input, pos) matches Frame::Chunk { tag, .. } && kind_of(tag)
            == ChunkKind::ImageData,
    ensures
        frame_at(input, pos) matches Frame::Chunk { data, next, .. } && scanned(
            input,
            pos,
            progress,
        ) == scanned(
            input,
            next,
            Progress { metadata: progress.metadata, payload: progress.payload + data },
        ),
{
}

/// A chunk of no known type is passed over.
pub proof fn lemma_ancillary_skipped(input: Seq<u8>, pos: int, progress: Progress)
    requires
        frame_at(input, pos) matches Frame::Chunk { tag, .. } && kind_of(tag)
            == ChunkKind::Ancillary,
    ensures
        frame_at(input, pos) matches Frame::Chunk { next, .. } && scanned(input, pos, progress)
            == scanned(input, next, progress),
{
}

/// Nothing behind the terminator chunk is read.
pub proof fn lemma_terminator_ends(input: Seq<u8>, pos: int, progress: Progress)
    requires
        frame_at(input, pos) matches Frame::Chunk { tag, .. } && kind_of(tag)
            == ChunkKind::Terminator,
    ensures
        scanned(input, pos, progress) == Ok::<Progress, ParseError>(progress),
{
}

/// The state that the parser threads through the chunks of a stream.
pub struct ParserState {
    metadata: Option<ImageMetadata>,
    payload: Vec<u8>,
}

impl ParserState {
    /// What the state holds.
    pub closed spec fn view(&self) -> Progress {
        Progress { metadata: self.metadata, payload: self.payload@ }
    }

    /// The state before any chunk was read.
    pub fn new() -> (state: Self)
        ensures
            state@ == no_progress(),
    {
        ParserState { metadata: None, payload: Vec::new() }
    }

    /// Takes in one chunk. On an error the state is left as it was.
    pub fn absorb(&mut self, chunk: &Chunk<'_>) -> (r: Result<(), ParseError>)
        ensures
            match absorbed(old(self)@, chunk.header.type_tag@, chunk.data@) {
                Ok(after) => r is Ok && final(self)@ == after,
                Err(e) => r == Err::<(), ParseError>(e) && final(self)@ == old(self)@,
            },
    {
        match chunk.header.kind() {
            ChunkKind::Header => {
                let metadata = parse_header(chunk.data)?;
                if self.metadata.is_none() {
                    self.metadata = Some(metadata);
                }
            },
            ChunkKind::ImageData => {
                self.payload.extend_from_slice(chunk.data);
                assert(self.payload@ =~= old(self).payload@ + chunk.data@);
            },
            _ => {},
        }
        Ok(())
    }

    /// Ends the scan: hands out the header's fields and the payload.
    pub fn finish(self) -> (r: Result<(ImageMetadata, Vec<u8>), ParseError>)
        ensures
            match r {
                Ok((metadata, payload)) => finished(self@) == Ok::<
                    (ImageMetadata, Seq<u8>),
                    ParseError,
                >((metadata, payload@)),
                Err(e) => finished(self@) == Err::<(ImageMetadata, Seq<u8>), ParseError>(e),
            },
    {
        match self.metadata {
            Some(metadata) => {
                if metadata.color_model == COLOR_MODEL_RGB && metadata.bit_depth == BIT_DEPTH_8 {
                    Ok((metadata, self.payload))
                } else {
                    Err(ParseError::UnsupportedVariant(Variant::ColorModelOrBitDepth))
                }
            },
            None => Err(ParseError::UnsupportedVariant(Variant::ColorModelOrBitDepth)),
        }
    }
}

/// Tells whether a buffer begins with the eight signature bytes.
pub fn check_signature(input: &[u8]) -> (ok: bool)
    ensures
        ok == has_signature(input@),
{
    if input.len() < SIGNATURE_LEN {
        return false;
    }
    let ok = input[0] == 0x89 && input[1] == 0x50 && input[2] == 0x4e && input[3] == 0x47
        && input[4] == 0x0d && input[5] == 0x0a && input[6] == 0x1a && input[7] == 0x0a;
    proof {
        let head = input@.take(SIGNATURE_LEN as int);
        if ok {
            assert(head =~= signature());
        } else {
            assert(head[0] == input@[0] && head[1] == input@[1] && head[2] == input@[2]
                && head[3] == input@[3] && head[4] == input@[4] && head[5] == input@[5]
                && head[6] == input@[6] && head[7] == input@[7]);
        }
    }
    ok
}

/// Parses a PNG file held in memory: checks the signature, then reads
/// chunks up to the terminator chunk, or to the end of the buffer where
/// it falls between two chunks, and returns the header's fields with the
/// concatenated data of the image-data chunks. A buffer that ends inside
/// a chunk is refused with `MalformedChunkStream`.
pub fn parse(input: &[u8]) -> (r: Result<(ImageMetadata, Vec<u8>), ParseError>)
    ensures
        match r {
            Ok((metadata, payload)) => parsed(input@) == Ok::<(ImageMetadata, Seq<u8>), ParseError>(
                (metadata, payload@),
            ),
            Err(e) => parsed(input@) == Err::<(ImageMetadata, Seq<u8>), ParseError>(e),
        },
{
    if !check_signature(input) {
        return Err(ParseError::InvalidSignature);
    }
    let mut reader = ChunkReader::new(input, SIGNATURE_LEN);
    let mut state = ParserState::new();
    loop
        invariant_except_break
            reader.wf(),
            reader.input() == input@,
            0 <= reader.position(),
            scanned(input@, reader.position(), state@) == scanned(
                input@,
                SIGNATURE_LEN as int,
                no_progress(),
            ),
        invariant
            has_signature(input@),
        ensures
            scanned(input@, SIGNATURE_LEN as int, no_progress()) == Ok::<Progress, ParseError>(
                state@,
            ),
        decreases input@.len() - reader.position(),
    {
        match reader.next_chunk()? {
            None => {
                break ;
            },
            Some(chunk) => {
                if let ChunkKind::Terminator = chunk.header.kind() {
                    break ;
                }
                state.absorb(&chunk)?;
            },
        }
    }
    state.finish()
}

} // verus!
