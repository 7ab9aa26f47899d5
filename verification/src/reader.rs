//! The reader: header, entries, directories and the chain of directories.

use crate::byte_order::{spec_u16, ByteOrder};
use crate::error::{Error, Offset};
use crate::field_type::Type;
use crate::format::{
    lemma_ifd_wf, lemma_unvisited_shrinks, spec_chain, spec_dng, spec_entries, spec_entry,
    spec_exact, spec_fetches, spec_header, spec_i16_at, spec_ifd, spec_ifd_end, spec_is_chain,
    spec_marker, spec_offset_at, spec_sub_ifd, spec_tiff, spec_u16_at, spec_u32_at,
    spec_unvisited, spec_value, DngModel,
};
use crate::ifd::{Field, FieldMap, FieldModel, Ifd, IfdModel};
use crate::laws::{lemma_tiff_is_chain, lemma_tiff_wf};
use crate::stream::{spec_read, ByteStream};
use crate::tag::Tag;
use vstd::prelude::*;

verus! {

/// A read session over the bytes of one file.
///
/// The session owns the stream and its cursor, and the byte order that the
/// header of the file announced.
pub struct TiffReader {
    reader: ByteStream,
    endianness: ByteOrder,
}

/// The outcome of a read of raw bytes, as a mathematical value.
pub open spec fn spec_bytes_result(r: Result<Vec<u8>, Error>) -> Result<Seq<u8>, Error> {
    match r {
        Ok(bytes) => Ok(bytes@),
        Err(error) => Err(error),
    }
}

/// The outcome of a read into a buffer of fixed size, as a mathematical
/// value.
pub open spec fn spec_array_result<const SIZE: usize>(r: Result<[u8; SIZE], Error>) -> Result<
    Seq<u8>,
    Error,
> {
    match r {
        Ok(bytes) => Ok(bytes@),
        Err(error) => Err(error),
    }
}

/// The first directory of a DNG file and the directory of the image in full
/// resolution, where the first directory points to one.
#[derive(Debug)]
pub struct Dng {
    pub ifd0: Ifd,
    pub hires_ifd: Option<Ifd>,
}

impl View for Dng {
    type V = DngModel;

    open spec fn view(&self) -> DngModel {
        DngModel {
            ifd0: self.ifd0@,
            hires_ifd: match self.hires_ifd {
                Some(ifd) => Some(ifd@),
                None => None,
            },
        }
    }
}

/// The outcome of decoding one entry, as a mathematical value.
pub open spec fn spec_entry_result(r: Result<Option<(Tag, Field)>, Error>) -> Result<
    Option<(Tag, FieldModel)>,
    Error,
> {
    match r {
        Ok(Some((tag, field))) => Ok(Some((tag, field@))),
        Ok(None) => Ok(None),
        Err(error) => Err(error),
    }
}

/// The outcome of reading one directory, as a mathematical value.
pub open spec fn spec_ifd_result(r: Result<Ifd, Error>) -> Result<IfdModel, Error> {
    match r {
        Ok(ifd) => Ok(ifd@),
        Err(error) => Err(error),
    }
}

/// Directories as mathematical values, in their order.
pub open spec fn spec_ifds(ifds: Seq<Ifd>) -> Seq<IfdModel> {
    ifds.map_values(|ifd: Ifd| ifd@)
}

/// The outcome of reading the chain of directories, as a mathematical value.
pub open spec fn spec_ifds_result(r: Result<Vec<Ifd>, Error>) -> Result<Seq<IfdModel>, Error> {
    match r {
        Ok(ifds) => Ok(spec_ifds(ifds@)),
        Err(error) => Err(error),
    }
}

/// The outcome of reading a DNG file, as a mathematical value.
pub open spec fn spec_dng_result(r: Result<Dng, Error>) -> Result<DngModel, Error> {
    match r {
        Ok(dng) => Ok(dng@),
        Err(error) => Err(error),
    }
}

impl TiffReader {
    /// The bytes of the file. No read changes them.
    pub closed spec fn bytes(&self) -> Seq<u8> {
        self.reader.bytes()
    }

    /// Where the cursor of the session stands.
    pub closed spec fn position(&self) -> Offset {
        self.reader.position()
    }

    /// The byte order in which the session decodes integers.
    pub closed spec fn spec_byte_order(&self) -> ByteOrder {
        self.endianness
    }

    /// Opens a session on a stream. The cursor stays where the stream has it.
    /// The byte order is big-endian until a header has been read.
    pub fn new(reader: ByteStream) -> (r: Result<TiffReader, Error>)
        ensures
            r matches Ok(session) && session.bytes() == reader.bytes() && session.position()
                == reader.position() && session.spec_byte_order() == ByteOrder::BigEndian,
    {
        Ok(TiffReader { reader, endianness: ByteOrder::BigEndian })
    }

    /// The byte order in which the session decodes integers: that of the
    /// last header read.
    #[verifier::when_used_as_spec(spec_byte_order)]
    pub fn byte_order(&self) -> (r: ByteOrder)
        ensures
            r == self.spec_byte_order(),
    {
        self.endianness
    }

    /// Reads the chain of directories of the file, from the header on.
    ///
    /// The outcome is a function of the bytes of the file alone: neither the
    /// cursor nor the byte order of an earlier read has a part in it. The
    /// read succeeds with all directories of the chain or fails as a whole.
    /// A chain that comes back to a directory that it has passed through
    /// has no end, and is refused.
    pub fn read(&mut self) -> (r: Result<Vec<Ifd>, Error>)
        ensures
            final(self).bytes() == old(self).bytes(),
            spec_ifds_result(r) == spec_tiff(old(self).bytes()),
            final(self).spec_byte_order() == match spec_marker(old(self).bytes()) {
                Some(order) => order,
                None => old(self).spec_byte_order(),
            },
            r matches Ok(ifds) ==> forall|i: int|
                0 <= i < ifds@.len() ==> (#[trigger] ifds@[i])@.wf(),
            r matches Ok(ifds) ==> spec_header(old(self).bytes()) matches Ok(header)
                && spec_is_chain(
                old(self).bytes(),
                header.byte_order,
                header.first_ifd,
                spec_ifds(ifds@),
            ),
    {
        let ghost data = self.bytes();
        let mut offset: Offset = self.process_header()?;
        let mut ifds: Vec<Ifd> = Vec::<Ifd>::new();
        let mut visited: Vec<Offset> = Vec::new();
        let ghost order = self.spec_byte_order();
        assert(spec_ifds(ifds@) =~= Seq::<IfdModel>::empty());
        loop
            invariant_except_break
                spec_tiff(data) == spec_chain(data, order, offset, visited@, spec_ifds(ifds@)),
            invariant
                data == old(self).bytes(),
                self.bytes() == data,
                self.spec_byte_order() == order,
                spec_header(data) matches Ok(header) && header.byte_order == order,
                spec_marker(data) == Some(order),
            ensures
                spec_tiff(data) == Ok::<Seq<IfdModel>, Error>(spec_ifds(ifds@)),
            decreases spec_unvisited(visited@).len(),
        {
            if contains(&visited, offset) {
                return Err(Error::CyclicChain { offset });
            }
            let ifd = self.process_ifd(offset)?;
            proof {
                lemma_unvisited_shrinks(visited@, offset);
                assert(spec_ifds(ifds@.push(ifd)) =~= spec_ifds(ifds@).push(ifd@));
            }
            visited.push(offset);
            offset = ifd.offset;
            ifds.push(ifd);
            if offset == 0 {
                break ;
            }
        }
        proof {
            lemma_tiff_wf(data);
            lemma_tiff_is_chain(data, spec_ifds(ifds@));
            let models = spec_tiff(data)->Ok_0;
            assert(models == spec_ifds(ifds@));
            assert forall|i: int| 0 <= i < ifds@.len() implies (#[trigger] ifds@[i])@.wf() by {
                assert(models[i].wf());
            }
        }
        Ok(ifds)
    }

    /// Reads the first directory of the file and the directory that its
    /// field `SubIFDs` points to. Of several values of that field the first
    /// is followed.
    pub fn read_dng(&mut self) -> (r: Result<Dng, Error>)
        ensures
            final(self).bytes() == old(self).bytes(),
            spec_dng_result(r) == spec_dng(old(self).bytes()),
            final(self).spec_byte_order() == match spec_marker(old(self).bytes()) {
                Some(order) => order,
                None => old(self).spec_byte_order(),
            },
            r matches Ok(dng) ==> dng.ifd0@.wf() && (dng.hires_ifd matches Some(ifd) ==> ifd@.wf()),
    {
        let offset: Offset = self.process_header()?;
        let ifd0 = self.process_ifd(offset)?;
        let hires_ifd = match self.sub_ifd_offset(&ifd0)? {
            Some(offset) => Some(self.process_ifd(offset)?),
            None => None,
        };
        Ok(Dng { ifd0, hires_ifd })
    }

    /// The offset of the directory of the image in full resolution, where
    /// `ifd` points to one: the first value of its field `SubIFDs`.
    pub fn sub_ifd_offset(&self, ifd: &Ifd) -> (r: Result<Option<Offset>, Error>)
        ensures
            r == spec_sub_ifd(self.spec_byte_order(), ifd@),
    {
        match ifd.fields.get(&Tag::SubIFDs) {
            None => Ok(None),
            Some(field) => {
                if field.raw_data.len() < 4 {
                    return Err(Error::InvalidSubIfd { length: field.raw_data.len() as u64 });
                }
                let raw = &field.raw_data;
                Ok(
                    Some(
                        match self.endianness {
                            ByteOrder::LittleEndian => compose_u32(raw[3], raw[2], raw[1], raw[0]),
                            ByteOrder::BigEndian => compose_u32(raw[0], raw[1], raw[2], raw[3]),
                        } as Offset,
                    ),
                )
            },
        }
    }

    /// Reads the header at the start of the file, takes the byte order that
    /// it announces, and hands out the offset of the first directory.
    pub fn process_header(&mut self) -> (r: Result<Offset, Error>)
        ensures
            final(self).bytes() == old(self).bytes(),
            match spec_header(old(self).bytes()) {
                Ok(header) => r == Ok::<Offset, Error>(header.first_ifd)
                    && final(self).spec_byte_order() == header.byte_order,
                Err(error) => r == Err::<Offset, Error>(error),
            },
            final(self).spec_byte_order() == match spec_marker(old(self).bytes()) {
                Some(order) => order,
                None => old(self).spec_byte_order(),
            },
            r is Ok ==> final(self).position() == 8,
    {
        self.reader.seek(0);
        let buffer: [u8; 2] = self.read_to_stack()?;
        match ByteOrder::from_marker(buffer[0], buffer[1]) {
            Some(order) => {
                self.endianness = order;
            },
            None => {
                return Err(Error::InvalidByteOrder { first: buffer[0], second: buffer[1] });
            },
        }
        let version: i16 = self.read_i16()?;
        if version != 42 {
            return Err(Error::InvalidVersion { found: version });
        }
        let offset: Offset = self.read_u32()? as Offset;
        if offset < 8 {
            return Err(Error::FirstIfdOffsetTooSmall { offset });
        }
        if offset % 2 == 1 {
            return Err(Error::OddOffset { offset });
        }
        Ok(offset)
    }

    /// Reads the directory at `offset`: the number of its entries, the
    /// entries up to the first of unexpected type, and the offset of the next
    /// directory, which stands behind the last entry that the directory
    /// announces.
    pub fn process_ifd(&mut self, offset: Offset) -> (r: Result<Ifd, Error>)
        ensures
            final(self).bytes() == old(self).bytes(),
            final(self).spec_byte_order() == old(self).spec_byte_order(),
            spec_ifd_result(r) == spec_ifd(
                old(self).bytes(),
                old(self).spec_byte_order(),
                offset as int,
            ),
            r matches Ok(ifd) ==> ifd@.wf() && ifd.offset % 2 == 0 && ifd.offset <= u32::MAX,
            r is Ok ==> final(self).position() == spec_ifd_end(
                old(self).bytes(),
                old(self).spec_byte_order(),
                offset as int,
            ),
    {
        proof {
            lemma_ifd_wf(self.bytes(), self.spec_byte_order(), offset as int);
        }
        let ghost data = self.bytes();
        let ghost order = self.spec_byte_order();
        self.reader.seek(offset);
        let number_of_fields: u16 = self.read_u16()?;
        let first_entry: Offset = self.reader.stream_position();
        let mut fields: FieldMap = FieldMap::new();
        let mut i: u16 = 0;
        let mut stopped = false;
        while i < number_of_fields && !stopped
            invariant
                i <= number_of_fields,
                data == old(self).bytes(),
                order == old(self).spec_byte_order(),
                self.bytes() == data,
                self.spec_byte_order() == order,
                first_entry == offset + 2,
                spec_u16_at(data, order, offset as int) == Ok::<u16, Error>(number_of_fields),
                !stopped ==> self.position() == first_entry + 12 * i,
                !stopped ==> spec_entries(
                    data,
                    order,
                    first_entry as int,
                    number_of_fields as nat,
                    Map::empty(),
                ) == spec_entries(
                    data,
                    order,
                    first_entry + 12 * i,
                    (number_of_fields - i) as nat,
                    fields@,
                ),
                stopped ==> spec_entries(
                    data,
                    order,
                    first_entry as int,
                    number_of_fields as nat,
                    Map::empty(),
                ) == Ok::<Map<Tag, FieldModel>, Error>(fields@),
            decreases number_of_fields - i + if stopped { 0int } else { 1int },
        {
            match self.process_entry()? {
                Some((tag, field)) => {
                    fields.insert(tag, field);
                    i += 1;
                },
                None => {
                    stopped = true;
                },
            }
        }
        if stopped {
            match first_entry.checked_add(12 * (number_of_fields as u64)) {
                Some(next) => {
                    self.reader.seek(next);
                },
                None => {
                    proof {
                        self.reader.lemma_length_fits();
                    }
                    return Err(Error::UnexpectedEof { requested: 4, available: 0 });
                },
            }
        }
        Ok(Ifd { fields, offset: self.read_offset()? })
    }

    /// Decodes the entry of twelve bytes at the cursor and leaves the cursor
    /// behind it, wherever the value of the entry stands. An entry of
    /// unexpected type gives nothing: the directory ends with the entry
    /// before it.
    pub fn process_entry(&mut self) -> (r: Result<Option<(Tag, Field)>, Error>)
        ensures
            final(self).bytes() == old(self).bytes(),
            final(self).spec_byte_order() == old(self).spec_byte_order(),
            spec_entry_result(r) == spec_entry(
                old(self).bytes(),
                old(self).spec_byte_order(),
                old(self).position() as int,
            ),
            r matches Ok(Some(_)) ==> final(self).position() == old(self).position() + 12,
            r matches Ok(None) ==> final(self).position() == old(self).position() + 4,
            spec_fetches(
                old(self).bytes(),
                old(self).spec_byte_order(),
                old(self).position() as int,
            ) ==> final(self).position() == old(self).position() + 12,
            r matches Ok(Some((_, field))) ==> field@.wf(),
    {
        let tag: Tag = self.read_tag()?;
        let type_: Type = self.read_type()?;
        if type_ == Type::Unexpected {
            return Ok(None);
        }
        if type_ == Type::Unknown {
            return Err(Error::InvalidFieldType);
        }
        let count: u32 = self.read_u32()?;
        if count < 1 {
            return Err(Error::EmptyField);
        }
        assert(count * type_.spec_size() <= 0xffff_ffff * 8) by (nonlinear_arith)
            requires
                count <= 0xffff_ffff,
                type_.spec_size() <= 8,
        ;
        let size: u64 = (count as u64) * (type_.size() as u64);
        let raw_data: Vec<u8> = self.read_value(size)?;
        let field: Field = Field { type_, count, raw_data };
        Ok(Some((tag, field)))
    }

    /// Reads the value of `size` bytes of the entry whose last four bytes
    /// stand at the cursor, and leaves the cursor behind those four bytes. A
    /// value of up to four bytes is taken from them; a longer one is fetched
    /// from the even offset that they hold.
    pub fn read_value(&mut self, size: u64) -> (r: Result<Vec<u8>, Error>)
        ensures
            final(self).bytes() == old(self).bytes(),
            final(self).spec_byte_order() == old(self).spec_byte_order(),
            spec_bytes_result(r) == spec_value(
                old(self).bytes(),
                old(self).spec_byte_order(),
                old(self).position() as int,
                size as int,
            ),
            r is Ok ==> final(self).position() == old(self).position() + 4,
            size > 4 && spec_offset_at(
                old(self).bytes(),
                old(self).spec_byte_order(),
                old(self).position() as int,
            ) is Ok ==> final(self).position() == old(self).position() + 4,
    {
        if size > 4 {
            let offset: Offset = self.read_offset()?;
            let current_offset: Offset = self.reader.stream_position();
            self.reader.seek(offset);
            let raw_data = self.read_to_heap(size);
            self.reader.seek(current_offset);
            raw_data
        } else {
            let buffer: [u8; 4] = self.read_to_stack()?;
            let mut raw_data: Vec<u8> = Vec::new();
            let mut i: usize = 0;
            while i < size as usize
                invariant
                    size <= 4,
                    i <= size,
                    raw_data@ == buffer@.take(i as int),
                decreases size - i,
            {
                raw_data.push(buffer[i]);
                assert(buffer@.take(i as int + 1) == buffer@.take(i as int).push(
                    buffer@[i as int],
                ));
                i += 1;
            }
            Ok(raw_data)
        }
    }

    /// Reads exactly `size` bytes at the cursor. Where the file ends before,
    /// the read fails and says how many bytes it found.
    pub fn read_to(&mut self, size: u64) -> (r: Result<Vec<u8>, Error>)
        ensures
            final(self).bytes() == old(self).bytes(),
            final(self).spec_byte_order() == old(self).spec_byte_order(),
            spec_bytes_result(r) == spec_exact(
                old(self).bytes(),
                old(self).position() as int,
                size as int,
            ),
            final(self).position() == old(self).position() + spec_read(
                old(self).bytes(),
                old(self).position() as int,
                size as int,
            ).len(),
    {
        let buffer = self.reader.read(size);
        let bytes_read = buffer.len() as u64;
        if bytes_read != size {
            return Err(Error::UnexpectedEof { requested: size, available: bytes_read });
        }
        Ok(buffer)
    }

    /// Reads exactly `SIZE` bytes at the cursor into a buffer of that size.
    pub fn read_to_stack<const SIZE: usize>(&mut self) -> (r: Result<[u8; SIZE], Error>)
        ensures
            final(self).bytes() == old(self).bytes(),
            final(self).spec_byte_order() == old(self).spec_byte_order(),
            spec_array_result(r) == spec_exact(
                old(self).bytes(),
                old(self).position() as int,
                SIZE as int,
            ),
            final(self).position() == old(self).position() + spec_read(
                old(self).bytes(),
                old(self).position() as int,
                SIZE as int,
            ).len(),
    {
        let bytes = self.read_to(SIZE as u64)?;
        let mut buffer: [u8; SIZE] = [0u8; SIZE];
        let mut i: usize = 0;
        while i < SIZE
            invariant
                i <= SIZE,
                bytes@.len() == SIZE,
                forall|j: int| 0 <= j < i ==> buffer@[j] == bytes@[j],
            decreases SIZE - i,
        {
            buffer[i] = bytes[i];
            i += 1;
        }
        assert(buffer@ =~= bytes@);
        Ok(buffer)
    }

    /// Reads exactly `size` bytes at the cursor into a buffer on the heap.
    pub fn read_to_heap(&mut self, size: u64) -> (r: Result<Vec<u8>, Error>)
        ensures
            final(self).bytes() == old(self).bytes(),
            final(self).spec_byte_order() == old(self).spec_byte_order(),
            spec_bytes_result(r) == spec_exact(
                old(self).bytes(),
                old(self).position() as int,
                size as int,
            ),
            final(self).position() == old(self).position() + spec_read(
                old(self).bytes(),
                old(self).position() as int,
                size as int,
            ).len(),
    {
        self.read_to(size)
    }

    /// Reads a signed 16-bit integer at the cursor, in the byte order of the
    /// session.
    pub fn read_i16(&mut self) -> (r: Result<i16, Error>)
        ensures
            final(self).bytes() == old(self).bytes(),
            final(self).spec_byte_order() == old(self).spec_byte_order(),
            r == spec_i16_at(
                old(self).bytes(),
                old(self).spec_byte_order(),
                old(self).position() as int,
            ),
            final(self).position() == old(self).position() + spec_read(
                old(self).bytes(),
                old(self).position() as int,
                2,
            ).len(),
    {
        let buffer: [u8; 2] = self.read_to_stack()?;
        let unsigned: u16 = match self.endianness {
            ByteOrder::LittleEndian => compose_u16(buffer[1], buffer[0]),
            ByteOrder::BigEndian => compose_u16(buffer[0], buffer[1]),
        };
        assert(unsigned == spec_u16(self.endianness, buffer@));
        let value = unsigned as i16;
        assert(unsigned >= 0x8000 ==> value == unsigned - 0x1_0000) by (bit_vector)
            requires
                value == unsigned as i16,
        ;
        assert(unsigned < 0x8000 ==> value == unsigned) by (bit_vector)
            requires
                value == unsigned as i16,
        ;
        Ok(value)
    }

    /// Reads an unsigned 16-bit integer at the cursor, in the byte order of
    /// the session.
    pub fn read_u16(&mut self) -> (r: Result<u16, Error>)
        ensures
            final(self).bytes() == old(self).bytes(),
            final(self).spec_byte_order() == old(self).spec_byte_order(),
            r == spec_u16_at(
                old(self).bytes(),
                old(self).spec_byte_order(),
                old(self).position() as int,
            ),
            final(self).position() == old(self).position() + spec_read(
                old(self).bytes(),
                old(self).position() as int,
                2,
            ).len(),
    {
        let buffer: [u8; 2] = self.read_to_stack()?;
        Ok(
            match self.endianness {
                ByteOrder::LittleEndian => compose_u16(buffer[1], buffer[0]),
                ByteOrder::BigEndian => compose_u16(buffer[0], buffer[1]),
            },
        )
    }

    /// Reads an unsigned 32-bit integer at the cursor, in the byte order of
    /// the session.
    pub fn read_u32(&mut self) -> (r: Result<u32, Error>)
        ensures
            final(self).bytes() == old(self).bytes(),
            final(self).spec_byte_order() == old(self).spec_byte_order(),
            r == spec_u32_at(
                old(self).bytes(),
                old(self).spec_byte_order(),
                old(self).position() as int,
            ),
            final(self).position() == old(self).position() + spec_read(
                old(self).bytes(),
                old(self).position() as int,
                4,
            ).len(),
    {
        let buffer: [u8; 4] = self.read_to_stack()?;
        Ok(
            match self.endianness {
                ByteOrder::LittleEndian => compose_u32(
                    buffer[3],
                    buffer[2],
                    buffer[1],
                    buffer[0],
                ),
                ByteOrder::BigEndian => compose_u32(buffer[0], buffer[1], buffer[2], buffer[3]),
            },
        )
    }

    /// Reads an offset at the cursor: a 32-bit integer that lies on a word
    /// boundary. An odd one is refused.
    pub fn read_offset(&mut self) -> (r: Result<Offset, Error>)
        ensures
            final(self).bytes() == old(self).bytes(),
            final(self).spec_byte_order() == old(self).spec_byte_order(),
            r == spec_offset_at(
                old(self).bytes(),
                old(self).spec_byte_order(),
                old(self).position() as int,
            ),
            final(self).position() == old(self).position() + spec_read(
                old(self).bytes(),
                old(self).position() as int,
                4,
            ).len(),
    {
        let offset: Offset = self.read_u32()? as Offset;
        if offset % 2 == 1 {
            return Err(Error::OddOffset { offset });
        }
        Ok(offset)
    }

    /// Reads the numeric tag of an entry at the cursor and looks it up.
    pub fn read_tag(&mut self) -> (r: Result<Tag, Error>)
        ensures
            final(self).bytes() == old(self).bytes(),
            final(self).spec_byte_order() == old(self).spec_byte_order(),
            match spec_u16_at(
                old(self).bytes(),
                old(self).spec_byte_order(),
                old(self).position() as int,
            ) {
                Ok(tag) => r == Ok::<Tag, Error>(Tag::spec_new(tag)),
                Err(error) => r == Err::<Tag, Error>(error),
            },
            final(self).position() == old(self).position() + spec_read(
                old(self).bytes(),
                old(self).position() as int,
                2,
            ).len(),
    {
        Ok(Tag::new(self.read_u16()?))
    }

    /// Reads the type code of an entry at the cursor and looks it up.
    pub fn read_type(&mut self) -> (r: Result<Type, Error>)
        ensures
            final(self).bytes() == old(self).bytes(),
            final(self).spec_byte_order() == old(self).spec_byte_order(),
            match spec_u16_at(
                old(self).bytes(),
                old(self).spec_byte_order(),
                old(self).position() as int,
            ) {
                Ok(type_) => r == Ok::<Type, Error>(Type::spec_new(type_)),
                Err(error) => r == Err::<Type, Error>(error),
            },
            final(self).position() == old(self).position() + spec_read(
                old(self).bytes(),
                old(self).position() as int,
                2,
            ).len(),
    {
        Ok(Type::new(self.read_u16()?))
    }
}

/// Whether `offset` is among `visited`.
fn contains(visited: &Vec<Offset>, offset: Offset) -> (r: bool)
    ensures
        r == visited@.contains(offset),
{
    let mut i: usize = 0;
    while i < visited.len()
        invariant
            i <= visited@.len(),
            forall|j: int| 0 <= j < i ==> visited@[j] != offset,
        decreases visited@.len() - i,
    {
        if visited[i] == offset {
            return true;
        }
        i += 1;
    }
    false
}

/// Two bytes as one 16-bit integer, the high byte first.
fn compose_u16(high: u8, low: u8) -> (r: u16)
    ensures
        r == high * 0x100 + low,
{
    let high = high as u16;
    let low = low as u16;
    assert(high << 8 == high * 0x100) by (bit_vector)
        requires
            high < 0x100,
    ;
    (high << 8) + low
}

/// Four bytes as one 32-bit integer, the highest byte first.
fn compose_u32(highest: u8, higher: u8, lower: u8, lowest: u8) -> (r: u32)
    ensures
        r == highest * 0x100_0000 + higher * 0x1_0000 + lower * 0x100 + lowest,
{
    let highest = highest as u32;
    let higher = higher as u32;
    let lower = lower as u32;
    let lowest = lowest as u32;
    assert(highest << 24 == highest * 0x100_0000 && higher << 16 == higher * 0x1_0000 && lower << 8
        == lower * 0x100) by (bit_vector)
        requires
            highest < 0x100,
            higher < 0x100,
            lower < 0x100,
    ;
    (highest << 24) + (higher << 16) + (lower << 8) + lowest
}

} // verus!
