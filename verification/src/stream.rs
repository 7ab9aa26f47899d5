//! A seekable stream over the bytes of a file.

use vstd::prelude::*;
use vstd::slice::{slice_subrange, slice_to_vec};

verus! {

/// How many bytes of `data` lie at and after `position`.
pub open spec fn spec_available(data: Seq<u8>, position: int) -> int {
    if 0 <= position <= data.len() {
        data.len() - position
    } else {
        0
    }
}

/// What a read of `count` bytes at `position` hands out: the bytes from
/// `position` on, as many as were asked for or as are left.
pub open spec fn spec_read(data: Seq<u8>, position: int, count: int) -> Seq<u8> {
    let available = spec_available(data, position);
    if count <= 0 || available == 0 {
        Seq::empty()
    } else if count <= available {
        data.subrange(position, position + count)
    } else {
        data.subrange(position, data.len() as int)
    }
}

/// The bytes of a file and a cursor into them.
///
/// The cursor may stand anywhere, also behind the last byte: a read there
/// hands out nothing.
pub struct ByteStream {
    data: Vec<u8>,
    position: u64,
}

impl ByteStream {
    /// The bytes of the file. No operation changes them.
    pub closed spec fn bytes(&self) -> Seq<u8> {
        self.data@
    }

    /// Where the next read starts.
    pub closed spec fn position(&self) -> u64 {
        self.position
    }

    /// The bytes of a file are no more than the machine can address.
    pub proof fn lemma_length_fits(&self)
        ensures
            self.bytes().len() <= usize::MAX,
    {
        assert(self.data.len() == self.data@.len());
    }

    /// A stream over `data`, with the cursor at the first byte.
    pub fn new(data: Vec<u8>) -> (r: ByteStream)
        ensures
            r.bytes() == data@,
            r.position() == 0,
    {
        ByteStream { data, position: 0 }
    }

    /// The number of bytes of the file.
    pub fn len(&self) -> (r: usize)
        ensures
            r == self.bytes().len(),
    {
        self.data.len()
    }

    /// Moves the cursor to `position`.
    pub fn seek(&mut self, position: u64)
        ensures
            final(self).bytes() == old(self).bytes(),
            final(self).position() == position,
    {
        self.position = position;
    }

    /// Where the cursor stands.
    pub fn stream_position(&self) -> (r: u64)
        ensures
            r == self.position(),
    {
        self.position
    }

    /// Reads up to `count` bytes at the cursor and moves the cursor behind
    /// them. Fewer than `count` bytes come back exactly where fewer are left.
    pub fn read(&mut self, count: u64) -> (r: Vec<u8>)
        ensures
            final(self).bytes() == old(self).bytes(),
            r@ == spec_read(old(self).bytes(), old(self).position() as int, count as int),
            final(self).position() == old(self).position() + r@.len(),
            r@.len() <= count,
    {
        let len = self.data.len();
        if count == 0 || self.position >= len as u64 {
            return Vec::new();
        }
        let start = self.position as usize;
        let available = len - start;
        let end = if count <= available as u64 {
            start + count as usize
        } else {
            len
        };
        let r = slice_to_vec(slice_subrange(self.data.as_slice(), start, end));
        self.position = end as u64;
        r
    }
}

} // verus!
