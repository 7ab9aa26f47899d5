//! The layout of a file, as functions of its bytes.
//!
//! Nothing here runs. These functions say, for every sequence of bytes, what
//! the header announces, what each entry and each directory holds, and where
//! the chain of directories leads. The contracts of the reader are stated
//! over them.

use crate::byte_order::{spec_i16, spec_u16, spec_u32, ByteOrder};
use crate::error::{Error, Offset};
use crate::field_type::Type;
use crate::ifd::{FieldModel, IfdModel};
use crate::stream::spec_read;
use crate::tag::Tag;
use vstd::prelude::*;

verus! {

/// What the eight bytes of a header announce: the byte order of the file and
/// the offset of its first directory.
pub struct Header {
    pub byte_order: ByteOrder,
    pub first_ifd: Offset,
}

/// The first directory of a DNG file and the directory of the image in full
/// resolution, where the first directory points to one.
pub struct DngModel {
    pub ifd0: IfdModel,
    pub hires_ifd: Option<IfdModel>,
}

/// The `count` bytes at `position`, or the failure of a read that finds
/// fewer.
pub open spec fn spec_exact(data: Seq<u8>, position: int, count: int) -> Result<Seq<u8>, Error> {
    let found = spec_read(data, position, count);
    if found.len() == count {
        Ok(found)
    } else {
        Err(Error::UnexpectedEof { requested: count as u64, available: found.len() as u64 })
    }
}

/// The unsigned 16-bit integer at `position`.
pub open spec fn spec_u16_at(data: Seq<u8>, order: ByteOrder, position: int) -> Result<u16, Error> {
    match spec_exact(data, position, 2) {
        Ok(bytes) => Ok(spec_u16(order, bytes)),
        Err(error) => Err(error),
    }
}

/// The signed 16-bit integer at `position`.
pub open spec fn spec_i16_at(data: Seq<u8>, order: ByteOrder, position: int) -> Result<i16, Error> {
    match spec_exact(data, position, 2) {
        Ok(bytes) => Ok(spec_i16(order, bytes)),
        Err(error) => Err(error),
    }
}

/// The unsigned 32-bit integer at `position`.
pub open spec fn spec_u32_at(data: Seq<u8>, order: ByteOrder, position: int) -> Result<u32, Error> {
    match spec_exact(data, position, 4) {
        Ok(bytes) => Ok(spec_u32(order, bytes)),
        Err(error) => Err(error),
    }
}

/// The offset stored at `position`: a 32-bit integer that must be even.
pub open spec fn spec_offset_at(data: Seq<u8>, order: ByteOrder, position: int) -> Result<
    Offset,
    Error,
> {
    match spec_u32_at(data, order, position) {
        Ok(offset) => if offset % 2 == 1 {
            Err(Error::OddOffset { offset: offset as Offset })
        } else {
            Ok(offset as Offset)
        },
        Err(error) => Err(error),
    }
}

/// The header of the file: two marker bytes, the number 42 in the byte order
/// that they announce, and the offset of the first directory, which lies
/// behind the header and on a word boundary.
pub open spec fn spec_header(data: Seq<u8>) -> Result<Header, Error> {
    match spec_exact(data, 0, 2) {
        Err(error) => Err(error),
        Ok(marker) => match ByteOrder::spec_from_marker(marker[0], marker[1]) {
            None => Err(Error::InvalidByteOrder { first: marker[0], second: marker[1] }),
            Some(order) => match spec_i16_at(data, order, 2) {
                Err(error) => Err(error),
                Ok(version) => if version != 42 {
                    Err(Error::InvalidVersion { found: version })
                } else {
                    match spec_u32_at(data, order, 4) {
                        Err(error) => Err(error),
                        Ok(offset) => if offset < 8 {
                            Err(Error::FirstIfdOffsetTooSmall { offset: offset as Offset })
                        } else if offset % 2 == 1 {
                            Err(Error::OddOffset { offset: offset as Offset })
                        } else {
                            Ok(Header { byte_order: order, first_ifd: offset as Offset })
                        },
                    }
                },
            },
        },
    }
}

/// The bytes of a value of `size` bytes whose entry keeps its last four bytes
/// at `position`. A value of up to four bytes stands there itself, flush
/// left; a longer one stands at the even offset that is stored there.
pub open spec fn spec_value(data: Seq<u8>, order: ByteOrder, position: int, size: int) -> Result<
    Seq<u8>,
    Error,
> {
    if size > 4 {
        match spec_offset_at(data, order, position) {
            Err(error) => Err(error),
            Ok(offset) => spec_exact(data, offset as int, size),
        }
    } else {
        match spec_exact(data, position, 4) {
            Err(error) => Err(error),
            Ok(bytes) => Ok(bytes.take(size)),
        }
    }
}

/// The entry of twelve bytes at `position`: its tag and its field, or
/// nothing where its type code is above 12, which ends the directory early.
pub open spec fn spec_entry(data: Seq<u8>, order: ByteOrder, position: int) -> Result<
    Option<(Tag, FieldModel)>,
    Error,
> {
    match spec_u16_at(data, order, position) {
        Err(error) => Err(error),
        Ok(tag) => match spec_u16_at(data, order, position + 2) {
            Err(error) => Err(error),
            Ok(code) => {
                let type_ = Type::spec_new(code);
                if type_ == Type::Unexpected {
                    Ok(None)
                } else if type_ == Type::Unknown {
                    Err(Error::InvalidFieldType)
                } else {
                    match spec_u32_at(data, order, position + 4) {
                        Err(error) => Err(error),
                        Ok(count) => if count == 0 {
                            Err(Error::EmptyField)
                        } else {
                            match spec_value(
                                data,
                                order,
                                position + 8,
                                count * type_.spec_size(),
                            ) {
                                Err(error) => Err(error),
                                Ok(raw_data) => {
                                    let field = FieldModel { type_, count, raw_data };
                                    Ok(Some((Tag::spec_new(tag), field)))
                                },
                            }
                        },
                    }
                }
            },
        },
    }
}

/// Whether the reader leaves the entry at `position` to fetch its value: the
/// entry has one of the twelve types and a count that is not 0, its value
/// takes more than four bytes, and its last four bytes hold an even offset.
pub open spec fn spec_fetches(data: Seq<u8>, order: ByteOrder, position: int) -> bool {
    &&& spec_u16_at(data, order, position) is Ok
    &&& spec_u16_at(data, order, position + 2) matches Ok(code)
    &&& Type::spec_new(code) != Type::Unexpected
    &&& Type::spec_new(code) != Type::Unknown
    &&& spec_u32_at(data, order, position + 4) matches Ok(count)
    &&& count != 0
    &&& count * Type::spec_new(code).spec_size() > 4
    &&& spec_offset_at(data, order, position + 8) is Ok
}

/// The byte order that the first two bytes of the file announce, if they
/// are there and are a marker.
pub open spec fn spec_marker(data: Seq<u8>) -> Option<ByteOrder> {
    if data.len() >= 2 {
        ByteOrder::spec_from_marker(data[0], data[1])
    } else {
        None
    }
}

/// The fields of a directory whose next `remaining` entries start at
/// `position`, added to `fields`. A later entry replaces an earlier one with
/// the same tag, and an entry of unexpected type ends the directory.
pub open spec fn spec_entries(
    data: Seq<u8>,
    order: ByteOrder,
    position: int,
    remaining: nat,
    fields: Map<Tag, FieldModel>,
) -> Result<Map<Tag, FieldModel>, Error>
    decreases remaining,
{
    if remaining == 0 {
        Ok(fields)
    } else {
        match spec_entry(data, order, position) {
            Err(error) => Err(error),
            Ok(None) => Ok(fields),
            Ok(Some((tag, field))) => spec_entries(
                data,
                order,
                position + 12,
                (remaining - 1) as nat,
                fields.insert(tag, field),
            ),
        }
    }
}

/// How many of the `remaining` entries from `position` on a directory gives:
/// all of them, or those before the first entry of unexpected type.
pub open spec fn spec_decoded(
    data: Seq<u8>,
    order: ByteOrder,
    position: int,
    remaining: nat,
) -> nat
    decreases remaining,
{
    if remaining == 0 {
        0
    } else {
        match spec_entry(data, order, position) {
            Ok(Some(_)) => 1 + spec_decoded(data, order, position + 12, (remaining - 1) as nat),
            _ => 0,
        }
    }
}

/// The directory at `offset`: the number of its entries, the entries, and
/// behind the last entry that it announces the even offset of the next
/// directory.
pub open spec fn spec_ifd(data: Seq<u8>, order: ByteOrder, offset: int) -> Result<IfdModel, Error> {
    match spec_u16_at(data, order, offset) {
        Err(error) => Err(error),
        Ok(count) => match spec_entries(data, order, offset + 2, count as nat, Map::empty()) {
            Err(error) => Err(error),
            Ok(fields) => match spec_offset_at(data, order, offset + 2 + 12 * count) {
                Err(error) => Err(error),
                Ok(next) => Ok(IfdModel { fields, offset: next }),
            },
        },
    }
}

/// Where the directory at `offset` ends: behind the offset of the next
/// directory, which follows the last entry that the directory announces.
pub open spec fn spec_ifd_end(data: Seq<u8>, order: ByteOrder, offset: int) -> int {
    match spec_u16_at(data, order, offset) {
        Ok(count) => offset + 2 + 12 * count + 4,
        Err(_) => offset,
    }
}

/// The offsets that the chain has not passed through.
pub open spec fn spec_unvisited(visited: Seq<Offset>) -> Set<Offset> {
    Set::new(|offset: Offset| !visited.contains(offset))
}

/// The directories of the chain that goes on at `offset`, behind the
/// directories `found` that were read at the offsets `visited`. The chain
/// ends at a directory whose next offset is 0. It fails where a directory
/// does, and where it comes back to an offset that it has passed through.
pub open spec fn spec_chain(
    data: Seq<u8>,
    order: ByteOrder,
    offset: Offset,
    visited: Seq<Offset>,
    found: Seq<IfdModel>,
) -> Result<Seq<IfdModel>, Error>
    decreases spec_unvisited(visited).len(),
    via spec_chain_ends
{
    if visited.contains(offset) {
        Err(Error::CyclicChain { offset })
    } else {
        match spec_ifd(data, order, offset as int) {
            Err(error) => Err(error),
            Ok(ifd) => if ifd.offset == 0 {
                Ok(found.push(ifd))
            } else {
                spec_chain(data, order, ifd.offset, visited.push(offset), found.push(ifd))
            },
        }
    }
}

/// An offset that the chain passes through for the first time leaves fewer
/// offsets that it has not passed through.
pub proof fn lemma_unvisited_shrinks(visited: Seq<Offset>, offset: Offset)
    requires
        !visited.contains(offset),
    ensures
        spec_unvisited(visited).finite(),
        spec_unvisited(visited.push(offset)).len() < spec_unvisited(visited).len(),
{
    broadcast use vstd::set::group_set_axioms;

    let before = spec_unvisited(visited);
    let after = spec_unvisited(visited.push(offset));
    <Offset as vstd::set_lib::FiniteFull>::full_properties();
    vstd::set_lib::lemma_len_subset(before, Set::<Offset>::full());
    assert(before.contains(offset));
    assert forall|other: Offset| after.contains(other) == before.remove(offset).contains(
        other,
    ) by {
        if other != offset && !visited.contains(other) {
            assert forall|i: int| 0 <= i < visited.push(offset).len() implies visited.push(
                offset,
            )[i] != other by {
                if i < visited.len() {
                    assert(visited[i] == visited.push(offset)[i]);
                }
            }
        }
        if visited.contains(other) {
            let i = choose|i: int| 0 <= i < visited.len() && visited[i] == other;
            assert(visited.push(offset)[i] == other);
        }
        if other == offset {
            assert(visited.push(offset)[visited.len() as int] == offset);
        }
    }
    assert(after =~= before.remove(offset));
}

#[via_fn]
proof fn spec_chain_ends(
    data: Seq<u8>,
    order: ByteOrder,
    offset: Offset,
    visited: Seq<Offset>,
    found: Seq<IfdModel>,
) {
    if !visited.contains(offset) {
        lemma_unvisited_shrinks(visited, offset);
    }
}

/// The directories of the file: the chain that starts at the offset that the
/// header gives, in the order of the chain.
pub open spec fn spec_tiff(data: Seq<u8>) -> Result<Seq<IfdModel>, Error> {
    match spec_header(data) {
        Err(error) => Err(error),
        Ok(header) => spec_chain(
            data,
            header.byte_order,
            header.first_ifd,
            Seq::empty(),
            Seq::empty(),
        ),
    }
}

/// The offset at which the directory `i` of a chain stands: the first at
/// `first`, and each other one where the directory before it points.
pub open spec fn spec_offset_of(first: Offset, ifds: Seq<IfdModel>, i: int) -> Offset {
    if i == 0 {
        first
    } else {
        ifds[i - 1].offset
    }
}

/// The offsets that a chain passes through, one for each of its directories.
pub open spec fn spec_offsets(first: Offset, ifds: Seq<IfdModel>) -> Seq<Offset> {
    Seq::new(ifds.len(), |i: int| spec_offset_of(first, ifds, i))
}

/// Whether the directory `i` of `ifds` is the one that the file holds at the
/// offset of that place in the chain.
pub open spec fn spec_stands(
    data: Seq<u8>,
    order: ByteOrder,
    first: Offset,
    ifds: Seq<IfdModel>,
    i: int,
) -> bool {
    spec_ifd(data, order, spec_offset_of(first, ifds, i) as int) == Ok::<IfdModel, Error>(ifds[i])
}

/// Whether `ifds` is the chain of directories that starts at `first`: each
/// directory stands where the one before it points, only the last one points
/// to 0, and no offset is passed through twice.
pub open spec fn spec_is_chain(
    data: Seq<u8>,
    order: ByteOrder,
    first: Offset,
    ifds: Seq<IfdModel>,
) -> bool {
    &&& ifds.len() >= 1
    &&& forall|i: int| 0 <= i < ifds.len() ==> #[trigger] spec_stands(data, order, first, ifds, i)
    &&& forall|i: int| 0 <= i < ifds.len() - 1 ==> (#[trigger] ifds[i]).offset != 0
    &&& ifds.last().offset == 0
    &&& spec_offsets(first, ifds).no_duplicates()
}

/// The offset of the directory of the image in full resolution: the first
/// four bytes of the field `SubIFDs` of `ifd`, where the directory has that
/// field.
pub open spec fn spec_sub_ifd(order: ByteOrder, ifd: IfdModel) -> Result<Option<Offset>, Error> {
    if !ifd.fields.contains_key(Tag::SubIFDs) {
        Ok(None)
    } else {
        let raw_data = ifd.fields[Tag::SubIFDs].raw_data;
        if raw_data.len() < 4 {
            Err(Error::InvalidSubIfd { length: raw_data.len() as u64 })
        } else {
            Ok(Some(spec_u32(order, raw_data) as Offset))
        }
    }
}

/// The first directory of the file and the directory that its field
/// `SubIFDs` points to.
pub open spec fn spec_dng(data: Seq<u8>) -> Result<DngModel, Error> {
    match spec_header(data) {
        Err(error) => Err(error),
        Ok(header) => match spec_ifd(data, header.byte_order, header.first_ifd as int) {
            Err(error) => Err(error),
            Ok(ifd0) => match spec_sub_ifd(header.byte_order, ifd0) {
                Err(error) => Err(error),
                Ok(None) => Ok(DngModel { ifd0, hires_ifd: None }),
                Ok(Some(offset)) => match spec_ifd(data, header.byte_order, offset as int) {
                    Err(error) => Err(error),
                    Ok(hires_ifd) => Ok(DngModel { ifd0, hires_ifd: Some(hires_ifd) }),
                },
            },
        },
    }
}

/// Every field that an entry gives has one of the twelve types of the
/// format, at least one value, and as many bytes as its values take.
pub proof fn lemma_entry_wf(data: Seq<u8>, order: ByteOrder, position: int)
    ensures
        spec_entry(data, order, position) matches Ok(Some((_, field))) ==> field.wf(),
{
}

/// Fields that are well formed stay so as entries are added to them.
pub proof fn lemma_entries_wf(
    data: Seq<u8>,
    order: ByteOrder,
    position: int,
    remaining: nat,
    fields: Map<Tag, FieldModel>,
)
    requires
        forall|tag: Tag| #[trigger] fields.contains_key(tag) ==> fields[tag].wf(),
    ensures
        spec_entries(data, order, position, remaining, fields) matches Ok(all) ==> forall|tag: Tag|
            #[trigger] all.contains_key(tag) ==> all[tag].wf(),
    decreases remaining,
{
    if remaining > 0 {
        lemma_entry_wf(data, order, position);
        if let Ok(Some((tag, field))) = spec_entry(data, order, position) {
            lemma_entries_wf(
                data,
                order,
                position + 12,
                (remaining - 1) as nat,
                fields.insert(tag, field),
            );
        }
    }
}

/// Every field of every directory is well formed, and the offset of the
/// next directory is even and fits in 32 bits.
pub proof fn lemma_ifd_wf(data: Seq<u8>, order: ByteOrder, offset: int)
    ensures
        spec_ifd(data, order, offset) matches Ok(ifd) ==> ifd.wf() && ifd.offset % 2 == 0
            && ifd.offset <= u32::MAX,
{
    if let Ok(count) = spec_u16_at(data, order, offset) {
        lemma_entries_wf(data, order, offset + 2, count as nat, Map::empty());
    }
}

} // verus!
