//! Byte order, and integers as sequences of bytes.
//!
//! The spec functions say what number a sequence of bytes stands for under a
//! byte order. The executable decoders of this module hand the work to the
//! `endianness` crate and prove that its answer cannot be an error on a
//! buffer of the right size.

use vstd::pervasive::unreached;
use vstd::prelude::*;

verus! {

/// The order of the bytes of every 16-bit and 32-bit integer of one file.
#[derive(Clone, Copy, Debug, PartialEq, Eq, Structural)]
pub enum ByteOrder {
    /// The most significant byte comes first: the marker "MM".
    BigEndian,
    /// The least significant byte comes first: the marker "II".
    LittleEndian,
}

impl ByteOrder {
    /// The byte order that the two marker bytes of a header announce.
    pub open spec fn spec_from_marker(first: u8, second: u8) -> Option<ByteOrder> {
        if first == 0x49 && second == 0x49 {
            Some(ByteOrder::LittleEndian)
        } else if first == 0x4D && second == 0x4D {
            Some(ByteOrder::BigEndian)
        } else {
            None
        }
    }

    /// Tells the byte order from the two marker bytes of a header: "II" is
    /// little-endian, "MM" is big-endian, and nothing else is a marker.
    pub fn from_marker(first: u8, second: u8) -> (r: Option<ByteOrder>)
        ensures
            r == ByteOrder::spec_from_marker(first, second),
    {
        if first == 0x49 && second == 0x49 {
            Some(ByteOrder::LittleEndian)
        } else if first == 0x4D && second == 0x4D {
            Some(ByteOrder::BigEndian)
        } else {
            None
        }
    }
}

/// The unsigned 16-bit integer that the first two bytes of `bytes` stand for.
pub open spec fn spec_u16(order: ByteOrder, bytes: Seq<u8>) -> u16
    recommends
        bytes.len() >= 2,
{
    match order {
        ByteOrder::BigEndian => (bytes[0] * 0x100 + bytes[1]) as u16,
        ByteOrder::LittleEndian => (bytes[1] * 0x100 + bytes[0]) as u16,
    }
}

/// The signed 16-bit integer that the first two bytes of `bytes` stand for,
/// in two's complement.
pub open spec fn spec_i16(order: ByteOrder, bytes: Seq<u8>) -> i16
    recommends
        bytes.len() >= 2,
{
    let unsigned = spec_u16(order, bytes);
    if unsigned >= 0x8000 {
        (unsigned - 0x1_0000) as i16
    } else {
        unsigned as i16
    }
}

/// The unsigned 32-bit integer that the first four bytes of `bytes` stand for.
pub open spec fn spec_u32(order: ByteOrder, bytes: Seq<u8>) -> u32
    recommends
        bytes.len() >= 4,
{
    match order {
        ByteOrder::BigEndian => (bytes[0] * 0x100_0000 + bytes[1] * 0x1_0000 + bytes[2] * 0x100
            + bytes[3]) as u32,
        ByteOrder::LittleEndian => (bytes[3] * 0x100_0000 + bytes[2] * 0x1_0000 + bytes[1] * 0x100
            + bytes[0]) as u32,
    }
}

/// The two bytes that stand for `value`.
pub open spec fn spec_u16_bytes(order: ByteOrder, value: u16) -> Seq<u8> {
    match order {
        ByteOrder::BigEndian => seq![(value / 0x100) as u8, (value % 0x100) as u8],
        ByteOrder::LittleEndian => seq![(value % 0x100) as u8, (value / 0x100) as u8],
    }
}

/// The four bytes that stand for `value`.
pub open spec fn spec_u32_bytes(order: ByteOrder, value: u32) -> Seq<u8> {
    match order {
        ByteOrder::BigEndian => seq![
            (value / 0x100_0000) as u8,
            (value / 0x1_0000 % 0x100) as u8,
            (value / 0x100 % 0x100) as u8,
            (value % 0x100) as u8,
        ],
        ByteOrder::LittleEndian => seq![
            (value % 0x100) as u8,
            (value / 0x100 % 0x100) as u8,
            (value / 0x1_0000 % 0x100) as u8,
            (value / 0x100_0000) as u8,
        ],
    }
}

/// Decoding the bytes of a 16-bit integer gives the integer back.
pub proof fn lemma_u16_roundtrip(order: ByteOrder, value: u16)
    ensures
        spec_u16_bytes(order, value).len() == 2,
        spec_u16(order, spec_u16_bytes(order, value)) == value,
{
}

/// Decoding the bytes of a 32-bit integer gives the integer back.
pub proof fn lemma_u32_roundtrip(order: ByteOrder, value: u32)
    ensures
        spec_u32_bytes(order, value).len() == 4,
        spec_u32(order, spec_u32_bytes(order, value)) == value,
{
}

/// The error of the `endianness` crate: a slice was too short for the
/// integer asked for.
#[verifier::external_type_specification]
#[verifier::external_body]
pub struct ExEndiannessError(endianness::EndiannessError);

/// `endianness::read_u16`: an error exactly on a slice of fewer than two
/// bytes, and otherwise the first two bytes composed in the given order.
#[verifier::external_body]
fn decode_u16(data: &[u8], order: ByteOrder) -> (r: Result<u16, endianness::EndiannessError>)
    ensures
        r is Ok <==> data@.len() >= 2,
        r matches Ok(value) ==> value == spec_u16(order, data@),
{
    let order = match order {
        ByteOrder::BigEndian => endianness::ByteOrder::BigEndian,
        ByteOrder::LittleEndian => endianness::ByteOrder::LittleEndian,
    };
    endianness::read_u16(data, order)
}

/// `endianness::read_i16`: an error exactly on a slice of fewer than two
/// bytes, and otherwise the first two bytes composed in the given order and
/// read as a two's complement number.
#[verifier::external_body]
fn decode_i16(data: &[u8], order: ByteOrder) -> (r: Result<i16, endianness::EndiannessError>)
    ensures
        r is Ok <==> data@.len() >= 2,
        r matches Ok(value) ==> value == spec_i16(order, data@),
{
    let order = match order {
        ByteOrder::BigEndian => endianness::ByteOrder::BigEndian,
        ByteOrder::LittleEndian => endianness::ByteOrder::LittleEndian,
    };
    endianness::read_i16(data, order)
}

/// `endianness::read_u32`: an error exactly on a slice of fewer than four
/// bytes, and otherwise the first four bytes composed in the given order.
#[verifier::external_body]
fn decode_u32(data: &[u8], order: ByteOrder) -> (r: Result<u32, endianness::EndiannessError>)
    ensures
        r is Ok <==> data@.len() >= 4,
        r matches Ok(value) ==> value == spec_u32(order, data@),
{
    let order = match order {
        ByteOrder::BigEndian => endianness::ByteOrder::BigEndian,
        ByteOrder::LittleEndian => endianness::ByteOrder::LittleEndian,
    };
    endianness::read_u32(data, order)
}

/// Decodes a signed 16-bit integer from a buffer of two bytes.
pub fn read_i16(buffer: &[u8; 2], byte_order: ByteOrder) -> (r: i16)
    ensures
        r == spec_i16(byte_order, buffer@),
{
    match decode_i16(buffer.as_slice(), byte_order) {
        Ok(value) => value,
        Err(_) => unreached(),
    }
}

/// Decodes an unsigned 16-bit integer from a buffer of two bytes.
pub fn read_u16(buffer: &[u8; 2], byte_order: ByteOrder) -> (r: u16)
    ensures
        r == spec_u16(byte_order, buffer@),
{
    match decode_u16(buffer.as_slice(), byte_order) {
        Ok(value) => value,
        Err(_) => unreached(),
    }
}

/// Decodes an unsigned 32-bit integer from a buffer of four bytes.
pub fn read_u32(buffer: &[u8; 4], byte_order: ByteOrder) -> (r: u32)
    ensures
        r == spec_u32(byte_order, buffer@),
{
    match decode_u32(buffer.as_slice(), byte_order) {
        Ok(value) => value,
        Err(_) => unreached(),
    }
}

} // verus!
