//! A directory entry as its twelve bytes give it, before its value is
//! fetched.

use crate::byte_order::{read_u16, read_u32, spec_u16, spec_u32, ByteOrder};
use crate::error::{Error, Offset};
use crate::field_type::Type;
use vstd::prelude::*;

verus! {

/// The four parts of the encoded form of an entry: the numeric tag, the
/// type, the number of values, and the last four bytes read as an offset.
#[derive(Clone, Copy, Debug)]
pub struct IfdEntry {
    pub tag: u16,
    pub type_: Type,
    pub count: u32,
    pub offset: Offset,
}

impl IfdEntry {
    /// The type of the values of the entry.
    pub open spec fn spec_type(&self) -> Type {
        self.type_
    }

    /// The number of bytes that the values of the entry take.
    pub open spec fn spec_size(&self) -> int {
        self.count * self.spec_type().spec_size()
    }

    /// The entry that the twelve bytes `bytes` encode.
    pub open spec fn spec_decodes(&self, order: ByteOrder, bytes: Seq<u8>) -> bool {
        &&& self.tag == spec_u16(order, bytes.subrange(0, 2))
        &&& self.spec_type() == Type::spec_new(spec_u16(order, bytes.subrange(2, 4)))
        &&& self.count == spec_u32(order, bytes.subrange(4, 8))
        &&& self.offset == spec_u32(order, bytes.subrange(8, 12))
    }

    /// An entry that says nothing yet: tag 0, the reserved type, no value.
    pub fn new() -> (r: IfdEntry)
        ensures
            r.tag == 0,
            r.spec_type() == Type::Unknown,
            r.count == 0,
            r.offset == 0,
    {
        IfdEntry { tag: 0, type_: Type::Unknown, count: 0, offset: 0 }
    }

    /// The type of the values of the entry.
    #[verifier::when_used_as_spec(spec_type)]
    pub fn type_(&self) -> (r: Type)
        ensures
            r == self.spec_type(),
    {
        self.type_
    }

    /// Decodes the twelve bytes of an entry: two for the tag, two for the
    /// type code, four for the count and four for the value or its offset.
    pub fn decode(buffer: &[u8; 12], byte_order: ByteOrder) -> (r: IfdEntry)
        ensures
            r.spec_decodes(byte_order, buffer@),
    {
        let tag = [buffer[0], buffer[1]];
        let code = [buffer[2], buffer[3]];
        let count = [buffer[4], buffer[5], buffer[6], buffer[7]];
        let offset = [buffer[8], buffer[9], buffer[10], buffer[11]];
        proof {
            assert(tag@ =~= buffer@.subrange(0, 2));
            assert(code@ =~= buffer@.subrange(2, 4));
            assert(count@ =~= buffer@.subrange(4, 8));
            assert(offset@ =~= buffer@.subrange(8, 12));
        }
        IfdEntry {
            tag: read_u16(&tag, byte_order),
            type_: Type::new(read_u16(&code, byte_order)),
            count: read_u32(&count, byte_order),
            offset: read_u32(&offset, byte_order) as Offset,
        }
    }

    /// The number of bytes that the values of the entry take: the count
    /// times the width that the format fixes for the type.
    pub fn size(&self) -> (r: u64)
        ensures
            r == self.spec_size(),
    {
        let count = self.count as u64;
        let width = self.type_.size() as u64;
        assert(count * width <= 0xffff_ffff * 8) by (nonlinear_arith)
            requires
                count <= 0xffff_ffff,
                width <= 8,
        ;
        count * width
    }

    /// Where the value of the entry stands, by the value-or-offset rule.
    pub open spec fn spec_value_offset(&self) -> Result<Option<Offset>, Error> {
        if self.spec_size() <= 4 {
            Ok(None)
        } else if self.offset % 2 == 1 {
            Err(Error::OddOffset { offset: self.offset })
        } else {
            Ok(Some(self.offset))
        }
    }

    /// Where the value of the entry stands. A value of up to four bytes
    /// stands in the entry itself, and there is no offset to follow. A longer
    /// one stands at the offset that the entry holds, which must be even.
    pub fn value_offset(&self) -> (r: Result<Option<Offset>, Error>)
        ensures
            r == self.spec_value_offset(),
    {
        if self.size() < 5 {
            Ok(None)
        } else if self.offset % 2 == 1 {
            Err(Error::OddOffset { offset: self.offset })
        } else {
            Ok(Some(self.offset))
        }
    }
}

} // verus!
