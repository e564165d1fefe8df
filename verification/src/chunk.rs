//! Framing of the chunk stream: one chunk at a time from a cursor over the
//! byte buffer.

use crate::error::{ChunkFault, ParseError};
use crate::wire::{big_endian_u32, lemma_ascii_is_text, read_be_u32, text_of};
use vstd::prelude::*;
use vstd::utf8::valid_utf8;

verus! {

/// What a chunk's type tag says the chunk is.
#[derive(Clone, Copy, Debug, PartialEq, Eq, Structural)]
pub enum ChunkKind {
    /// `IHDR`: the image header.
    Header,
    /// `IDAT`: a fragment of the compressed image data.
    ImageData,
    /// `IEND`: the end of the image.
    Terminator,
    /// Any other chunk; its data is ignored.
    Ancillary,
}

/// Whether `tag` is the four given bytes.
pub open spec fn tag_is(tag: Seq<u8>, a: u8, b: u8, c: u8, d: u8) -> bool {
    tag.len() == 4 && tag[0] == a && tag[1] == b && tag[2] == c && tag[3] == d
}

/// The kind of chunk that a type tag announces.
pub open spec fn kind_of(tag: Seq<u8>) -> ChunkKind {
    if tag_is(tag, 0x49, 0x48, 0x44, 0x52) {
        ChunkKind::Header
    } else if tag_is(tag, 0x49, 0x44, 0x41, 0x54) {
        ChunkKind::ImageData
    } else if tag_is(tag, 0x49, 0x45, 0x4e, 0x44) {
        ChunkKind::Terminator
    } else {
        ChunkKind::Ancillary
    }
}

/// The leading fields of a chunk.
#[derive(Clone, Copy, Debug, PartialEq, Eq)]
pub struct ChunkHeader {
    /// Number of data bytes.
    pub length: u32,
    /// The four bytes that name the chunk's type.
    pub type_tag: [u8; 4],
}

impl ChunkHeader {
    /// Classifies the chunk by its type tag.
    pub fn kind(&self) -> (kind: ChunkKind)
        ensures
            kind == kind_of(self.type_tag@),
    {
        let t = &self.type_tag;
        if t[0] == 0x49 && t[1] == 0x48 && t[2] == 0x44 && t[3] == 0x52 {
            ChunkKind::Header
        } else if t[0] == 0x49 && t[1] == 0x44 && t[2] == 0x41 && t[3] == 0x54 {
            ChunkKind::ImageData
        } else if t[0] == 0x49 && t[1] == 0x45 && t[2] == 0x4e && t[3] == 0x44 {
            ChunkKind::Terminator
        } else {
            ChunkKind::Ancillary
        }
    }
}

/// One chunk of the stream: its header and its data, borrowed from the
/// input buffer.
#[derive(Clone, Copy, Debug)]
pub struct Chunk<'a> {
    pub header: ChunkHeader,
    pub data: &'a [u8],
}

/// What stands at a position of a chunk stream.
pub enum Frame {
    /// No byte is left: the stream ends here, between two chunks.
    End,
    /// A chunk begins here but cannot be read in full.
    Fault(ChunkFault),
    /// A whole chunk, and the position just behind its integrity code.
    Chunk { length: u32, tag: Seq<u8>, data: Seq<u8>, next: int },
}

/// Reads the stream at `pos`: a four-byte big-endian length, a four-byte
/// type tag that must be text, as many data bytes as the length says, and
/// a four-byte integrity code, which is not checked. Where no byte is left
/// the stream ends; where the bytes run out inside any of the four fields,
/// the chunk is faulty.
pub open spec fn frame_at(input: Seq<u8>, pos: int) -> Frame {
    let rest = input.len() - pos;
    let length = big_endian_u32(input.subrange(pos, pos + 4));
    let tag = input.subrange(pos + 4, pos + 8);
    if rest <= 0 {
        Frame::End
    } else if rest < 4 {
        Frame::Fault(ChunkFault::TruncatedLength)
    } else if rest < 8 {
        Frame::Fault(ChunkFault::TruncatedTypeTag)
    } else if !valid_utf8(tag) {
        Frame::Fault(ChunkFault::InvalidTypeTag)
    } else if rest - 8 < length {
        Frame::Fault(ChunkFault::TruncatedData)
    } else if rest - 8 - length < 4 {
        Frame::Fault(ChunkFault::TruncatedIntegrityCode)
    } else {
        Frame::Chunk {
            length,
            tag,
            data: input.subrange(pos + 8, pos + 8 + length),
            next: pos + 12 + length,
        }
    }
}

/// A chunk that the stream holds in full, with a type tag of ASCII bytes,
/// is read as it stands.
pub proof fn lemma_frame_of_whole_chunk(input: Seq<u8>, pos: int)
    requires
        0 <= pos,
        pos + 12 + big_endian_u32(input.subrange(pos, pos + 4)) <= input.len(),
        forall|i: int| pos + 4 <= i < pos + 8 ==> input[i] < 0x80,
    ensures
        frame_at(input, pos) == (Frame::Chunk {
            length: big_endian_u32(input.subrange(pos, pos + 4)),
            tag: input.subrange(pos + 4, pos + 8),
            data: input.subrange(
                pos + 8,
                pos + 8 + big_endian_u32(input.subrange(pos, pos + 4)),
            ),
            next: pos + 12 + big_endian_u32(input.subrange(pos, pos + 4)),
        }),
{
    lemma_ascii_is_text(input.subrange(pos + 4, pos + 8));
}

/// A cursor over a byte buffer that hands out the chunks of the stream one
/// by one.
pub struct ChunkReader<'a> {
    input: &'a [u8],
    position: usize,
}

impl<'a> ChunkReader<'a> {
    /// The bytes of the buffer.
    pub closed spec fn input(&self) -> Seq<u8> {
        self.input@
    }

    /// Where the next chunk is expected to begin.
    pub closed spec fn position(&self) -> int {
        self.position as int
    }

    /// The cursor lies within the buffer.
    pub closed spec fn wf(&self) -> bool {
        self.position <= self.input@.len()
    }

    /// A reader over `input` that starts at byte `position`, or at the end
    /// of the buffer where `position` lies beyond it.
    pub fn new(input: &'a [u8], position: usize) -> (reader: Self)
        ensures
            reader.wf(),
            reader.input() == input@,
            reader.position() == if position <= input@.len() {
                position as int
            } else {
                input@.len() as int
            },
    {
        let position = if position <= input.len() {
            position
        } else {
            input.len()
        };
        ChunkReader { input, position }
    }

    /// Reads the chunk at the cursor and moves the cursor behind it.
    /// Returns `None` where the cursor stands at the end of the buffer.
    /// A chunk that the buffer does not hold in full is an error, also
    /// where only a part of its length is left. On an error the cursor
    /// stays where it was.
    pub fn next_chunk(&mut self) -> (r: Result<Option<Chunk<'a>>, ParseError>)
        requires
            old(self).wf(),
        ensures
            final(self).wf(),
            final(self).input() == old(self).input(),
            match frame_at(old(self).input(), old(self).position()) {
                Frame::End => r matches Ok(None) && final(self).position() == old(self).position(),
                Frame::Fault(fault) => r == Err::<Option<Chunk<'a>>, ParseError>(
                    ParseError::MalformedChunkStream(fault),
                ) && final(self).position() == old(self).position(),
                Frame::Chunk { length, tag, data, next } => r matches Ok(Some(chunk))
                    && chunk.header.length == length && chunk.header.type_tag@ == tag
                    && chunk.data@ == data && final(self).position() == next,
            },
    {
        let input = self.input;
        let pos = self.position;
        let rest = input.len() - pos;
        if rest == 0 {
            return Ok(None);
        }
        if rest < 4 {
            return Err(ParseError::MalformedChunkStream(ChunkFault::TruncatedLength));
        }
        let length = read_be_u32(&input[pos..pos + 4]);
        if rest < 8 {
            return Err(ParseError::MalformedChunkStream(ChunkFault::TruncatedTypeTag));
        }
        let tag = &input[pos + 4..pos + 8];
        if text_of(tag).is_err() {
            return Err(ParseError::MalformedChunkStream(ChunkFault::InvalidTypeTag));
        }
        let type_tag: [u8; 4] = [tag[0], tag[1], tag[2], tag[3]];
        assert(type_tag@ =~= tag@);
        let available = rest - 8;
        if (available as u64) < length as u64 {
            return Err(ParseError::MalformedChunkStream(ChunkFault::TruncatedData));
        }
        let data_len = length as usize;
        if available - data_len < 4 {
            return Err(ParseError::MalformedChunkStream(ChunkFault::TruncatedIntegrityCode));
        }
        let data = &input[pos + 8..pos + 8 + data_len];
        self.position = pos + 12 + data_len;
        Ok(Some(Chunk { header: ChunkHeader { length, type_tag }, data }))
    }
}

} // verus!
