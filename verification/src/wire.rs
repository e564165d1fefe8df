//! Reading of the two primitive encodings in a chunk stream: big-endian
//! 32-bit integers and the text of a type tag.

use byteorder::ByteOrder;
use vstd::prelude::*;
use vstd::string::StringSliceAdditionalSpecFns;
use vstd::utf8::{is_leading_byte_width_1, partial_valid_utf8, valid_utf8};

verus! {

/// The unsigned 32-bit integer that the first four bytes of `bytes` encode,
/// most significant byte first. The sum is below 2^32 for any four bytes.
pub open spec fn big_endian_u32(bytes: Seq<u8>) -> u32
    recommends
        bytes.len() >= 4,
{
    (bytes[0] as int * 0x100_0000 + bytes[1] as int * 0x1_0000 + bytes[2] as int * 0x100
        + bytes[3] as int) as u32
}

/// The big-endian value of four bytes is the sum of the bytes, each
/// weighted by its place.
pub proof fn lemma_big_endian_u32_value(bytes: Seq<u8>)
    ensures
        big_endian_u32(bytes) as int == bytes[0] as int * 0x100_0000 + bytes[1] as int * 0x1_0000
            + bytes[2] as int * 0x100 + bytes[3] as int,
{
}

/// Calls `byteorder::BigEndian::read_u32`, which converts the first four
/// bytes of the slice with `u32::from_be_bytes` and panics on a slice of
/// fewer than four bytes. The contract claims that the result is the
/// big-endian value of those four bytes.
#[verifier::external_body]
pub(crate) fn read_be_u32(bytes: &[u8]) -> (value: u32)
    requires
        bytes@.len() >= 4,
    ensures
        value == big_endian_u32(bytes@),
{
    byteorder::BigEndian::read_u32(bytes)
}

/// `std::str::Utf8Error`, the error of `std::str::from_utf8`; nothing is
/// said of what it holds.
#[verifier::external_type_specification]
#[verifier::external_body]
pub struct ExUtf8Error(std::str::Utf8Error);

/// Calls `std::str::from_utf8`. The contract claims that it accepts
/// exactly the well-formed UTF-8 sequences, as `vstd::utf8::valid_utf8`
/// defines them, and that the text it hands out has the bytes it was
/// given.
#[verifier::external_body]
pub(crate) fn text_of(bytes: &[u8]) -> (r: Result<&str, std::str::Utf8Error>)
    ensures
        r.is_ok() == valid_utf8(bytes@),
        r matches Ok(text) ==> text.spec_bytes() == bytes@,
{
    std::str::from_utf8(bytes)
}

/// Bytes below 128 are text: each is the encoding of one ASCII character.
pub proof fn lemma_ascii_is_text(bytes: Seq<u8>)
    requires
        forall|i: int| 0 <= i < bytes.len() ==> bytes[i] < 0x80,
    ensures
        valid_utf8(bytes),
{
    assert(bytes.subrange(0, 0) =~= Seq::<u8>::empty());
    assert(partial_valid_utf8(bytes, 0));
    assert forall|i: int|
        0 <= 0 <= i < bytes.len() <= bytes.len() implies #[trigger] is_leading_byte_width_1(
        bytes[i],
    ) by {}
    vstd::utf8::partial_valid_utf8_extend_ascii_block(bytes, 0, bytes.len() as int);
    assert(bytes.subrange(0, bytes.len() as int) =~= bytes);
}

} // verus!
