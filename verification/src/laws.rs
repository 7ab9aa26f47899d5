//! What holds of every file: laws of the format, proved over the functions
//! in which the contracts of the reader are stated.

use crate::byte_order::{
    lemma_u16_roundtrip, lemma_u32_roundtrip, spec_i16, spec_u16_bytes, spec_u32, spec_u32_bytes,
    ByteOrder,
};
use crate::entry::IfdEntry;
use crate::error::{Error, ErrorKind, Offset};
use crate::field_type::Type;
use crate::format::{
    lemma_ifd_wf, lemma_unvisited_shrinks, spec_chain, spec_decoded, spec_dng, spec_entries,
    spec_entry, spec_exact, spec_header, spec_ifd, spec_is_chain, spec_marker, spec_offset_of, spec_offsets,
    spec_stands, spec_sub_ifd, spec_tiff, spec_u16_at, spec_u32_at, spec_unvisited, DngModel,
    Header,
};
use crate::ifd::{FieldModel, Ifd, IfdModel};
use crate::reader::{spec_ifds_result, TiffReader};
use crate::tag::Tag;
use vstd::prelude::*;

verus! {

/// The marker decides the byte order. A header that is accepted gives the
/// byte order that its two marker bytes announce, little-endian for "II" and
/// big-endian for "MM"; a file that starts with any other two bytes is
/// refused as invalid data, whatever follows.
pub proof fn lemma_marker_decides_byte_order(data: Seq<u8>)
    requires
        data.len() >= 2,
    ensures
        spec_header(data) matches Ok(header) ==> spec_marker(data) == Some(header.byte_order),
        spec_header(data) matches Ok(header) ==> (header.byte_order == ByteOrder::LittleEndian
            <==> data[0] == 0x49 && data[1] == 0x49),
        spec_header(data) matches Ok(header) ==> (header.byte_order == ByteOrder::BigEndian
            <==> data[0] == 0x4D && data[1] == 0x4D),
        spec_marker(data) is None ==> {
            let error = Error::InvalidByteOrder { first: data[0], second: data[1] };
            &&& spec_header(data) == Err::<Header, Error>(error)
            &&& spec_tiff(data) == Err::<Seq<IfdModel>, Error>(error)
            &&& spec_dng(data) == Err::<DngModel, Error>(error)
            &&& error.spec_kind() == ErrorKind::InvalidData
        },
{
}

/// The first directory lies behind the header. With a marker and the number
/// 42 in place, an offset of the first directory below 8 is refused, an odd
/// one from 8 on is refused as well, and an even one from 8 on is where the
/// chain starts: the read succeeds exactly if the chain from there does.
pub proof fn lemma_first_offset_boundary(data: Seq<u8>)
    requires
        data.len() >= 8,
        ByteOrder::spec_from_marker(data[0], data[1]) is Some,
        spec_i16(ByteOrder::spec_from_marker(data[0], data[1])->Some_0, data.subrange(2, 4)) == 42,
    ensures
        ({
            let order = ByteOrder::spec_from_marker(data[0], data[1])->Some_0;
            let offset = spec_u32(order, data.subrange(4, 8));
            &&& offset < 8 ==> spec_tiff(data) == Err::<Seq<IfdModel>, Error>(
                Error::FirstIfdOffsetTooSmall { offset: offset as Offset },
            )
            &&& offset >= 8 && offset % 2 == 1 ==> spec_tiff(data) == Err::<Seq<IfdModel>, Error>(
                Error::OddOffset { offset: offset as Offset },
            )
            &&& offset >= 8 && offset % 2 == 0 ==> spec_tiff(data) == spec_chain(
                data,
                order,
                offset as Offset,
                Seq::empty(),
                Seq::empty(),
            )
            &&& offset >= 8 && offset % 2 == 0 ==> (spec_ifd(data, order, offset as int) matches Ok(
                ifd,
            ) ==> ifd.offset == 0 ==> spec_tiff(data) == Ok::<Seq<IfdModel>, Error>(seq![ifd]))
        }),
{
    let order = ByteOrder::spec_from_marker(data[0], data[1])->Some_0;
    let offset = spec_u32(order, data.subrange(4, 8));
    assert(spec_exact(data, 0, 2) == Ok::<Seq<u8>, Error>(data.subrange(0, 2)));
    assert(spec_exact(data, 2, 2) == Ok::<Seq<u8>, Error>(data.subrange(2, 4)));
    assert(spec_exact(data, 4, 4) == Ok::<Seq<u8>, Error>(data.subrange(4, 8)));
    if offset >= 8 && offset % 2 == 0 {
        assert(!Seq::<Offset>::empty().contains(offset as Offset));
        if let Ok(ifd) = spec_ifd(data, order, offset as int) {
            if ifd.offset == 0 {
                assert(Seq::<IfdModel>::empty().push(ifd) =~= seq![ifd]);
            }
        }
    }
}

/// The twelve bytes of an entry: tag, type code and count in the byte order
/// of the file, and the four bytes `last` that hold the value or its offset.
pub open spec fn spec_entry_bytes(
    order: ByteOrder,
    tag: u16,
    type_: u16,
    count: u32,
    last: Seq<u8>,
) -> Seq<u8> {
    spec_u16_bytes(order, tag) + spec_u16_bytes(order, type_) + spec_u32_bytes(order, count) + last
}

/// The head of an entry reads back: tag, type code and count of the twelve
/// bytes at `position` are those that were written there.
proof fn lemma_entry_head(
    data: Seq<u8>,
    order: ByteOrder,
    position: int,
    tag: u16,
    type_: u16,
    count: u32,
    last: Seq<u8>,
)
    requires
        0 <= position,
        position + 12 <= data.len(),
        last.len() == 4,
        data.subrange(position, position + 12) == spec_entry_bytes(order, tag, type_, count, last),
    ensures
        spec_u16_at(data, order, position) == Ok::<u16, Error>(tag),
        spec_u16_at(data, order, position + 2) == Ok::<u16, Error>(type_),
        spec_u32_at(data, order, position + 4) == Ok::<u32, Error>(count),
        spec_exact(data, position + 8, 4) == Ok::<Seq<u8>, Error>(last),
{
    let entry = data.subrange(position, position + 12);
    lemma_u16_roundtrip(order, tag);
    lemma_u16_roundtrip(order, type_);
    lemma_u32_roundtrip(order, count);
    assert(data.subrange(position, position + 2) =~= entry.subrange(0, 2));
    assert(data.subrange(position + 2, position + 4) =~= entry.subrange(2, 4));
    assert(data.subrange(position + 4, position + 8) =~= entry.subrange(4, 8));
    assert(data.subrange(position + 8, position + 12) =~= entry.subrange(8, 12));
    assert(entry.subrange(0, 2) =~= spec_u16_bytes(order, tag));
    assert(entry.subrange(2, 4) =~= spec_u16_bytes(order, type_));
    assert(entry.subrange(4, 8) =~= spec_u32_bytes(order, count));
    assert(entry.subrange(8, 12) =~= last);
}

/// A value of up to four bytes stands in its entry. Written flush left into
/// the last four bytes of the entry and padded to four, it is read back
/// without the padding, whatever the padding holds.
pub proof fn lemma_inline_value(
    data: Seq<u8>,
    order: ByteOrder,
    position: int,
    tag: u16,
    type_: u16,
    count: u32,
    value: Seq<u8>,
    padding: Seq<u8>,
)
    requires
        0 <= position,
        position + 12 <= data.len(),
        1 <= type_ <= 12,
        count >= 1,
        count * Type::width(type_) <= 4,
        value.len() == count * Type::width(type_),
        value.len() + padding.len() == 4,
        data.subrange(position, position + 12) == spec_entry_bytes(
            order,
            tag,
            type_,
            count,
            value + padding,
        ),
    ensures
        spec_entry(data, order, position) == Ok::<Option<(Tag, FieldModel)>, Error>(
            Some(
                (
                    Tag::spec_new(tag),
                    FieldModel { type_: Type::spec_new(type_), count, raw_data: value },
                ),
            ),
        ),
{
    lemma_entry_head(data, order, position, tag, type_, count, value + padding);
    assert((value + padding).take(value.len() as int) =~= value);
}

/// A value of more than four bytes stands elsewhere. Where the last four
/// bytes of the entry hold an even offset and the file has the bytes of the
/// value there, the entry gives exactly those bytes.
pub proof fn lemma_offset_value(
    data: Seq<u8>,
    order: ByteOrder,
    position: int,
    tag: u16,
    type_: u16,
    count: u32,
    offset: u32,
)
    requires
        0 <= position,
        position + 12 <= data.len(),
        1 <= type_ <= 12,
        count * Type::width(type_) > 4,
        offset % 2 == 0,
        offset + count * Type::width(type_) <= data.len(),
        data.subrange(position, position + 12) == spec_entry_bytes(
            order,
            tag,
            type_,
            count,
            spec_u32_bytes(order, offset),
        ),
    ensures
        spec_entry(data, order, position) == Ok::<Option<(Tag, FieldModel)>, Error>(
            Some(
                (
                    Tag::spec_new(tag),
                    FieldModel {
                        type_: Type::spec_new(type_),
                        count,
                        raw_data: data.subrange(
                            offset as int,
                            offset + count * Type::width(type_),
                        ),
                    },
                ),
            ),
        ),
{
    lemma_u32_roundtrip(order, offset);
    lemma_entry_head(data, order, position, tag, type_, count, spec_u32_bytes(order, offset));
    assert(count >= 1) by (nonlinear_arith)
        requires
            count * Type::width(type_) > 4,
    ;
}

/// The record of an entry and the reader agree. Where `entry` is what the
/// twelve bytes at `position` encode, the reader gives a field exactly for an
/// entry whose type is one of the twelve, whose count is not 0 and whose
/// value can be had; the field has the tag, the type and the count of the
/// record, and its bytes are those at the place that the record names.
pub proof fn lemma_entry_matches_record(
    data: Seq<u8>,
    order: ByteOrder,
    position: int,
    entry: IfdEntry,
)
    requires
        0 <= position,
        position + 12 <= data.len(),
        entry.spec_decodes(order, data.subrange(position, position + 12)),
    ensures
        spec_entry(data, order, position) == Ok::<Option<(Tag, FieldModel)>, Error>(None)
            <==> entry.type_ == Type::Unexpected,
        entry.type_ == Type::Unknown ==> spec_entry(data, order, position) == Err::<
            Option<(Tag, FieldModel)>,
            Error,
        >(Error::InvalidFieldType),
        entry.type_ != Type::Unexpected && entry.type_ != Type::Unknown && entry.count == 0
            ==> spec_entry(data, order, position) == Err::<Option<(Tag, FieldModel)>, Error>(
            Error::EmptyField,
        ),
        entry.type_ != Type::Unexpected && entry.type_ != Type::Unknown && entry.count != 0
            ==> match entry.spec_value_offset() {
            Err(error) => spec_entry(data, order, position) == Err::<
                Option<(Tag, FieldModel)>,
                Error,
            >(error),
            Ok(None) => spec_entry(data, order, position) == Ok::<
                Option<(Tag, FieldModel)>,
                Error,
            >(
                Some(
                    (
                        Tag::spec_new(entry.tag),
                        FieldModel {
                            type_: entry.type_,
                            count: entry.count,
                            raw_data: data.subrange(position + 8, position + 8 + entry.spec_size()),
                        },
                    ),
                ),
            ),
            Ok(Some(offset)) => match spec_exact(data, offset as int, entry.spec_size()) {
                Err(error) => spec_entry(data, order, position) == Err::<
                    Option<(Tag, FieldModel)>,
                    Error,
                >(error),
                Ok(raw_data) => spec_entry(data, order, position) == Ok::<
                    Option<(Tag, FieldModel)>,
                    Error,
                >(
                    Some(
                        (
                            Tag::spec_new(entry.tag),
                            FieldModel { type_: entry.type_, count: entry.count, raw_data },
                        ),
                    ),
                ),
            },
        },
{
    let bytes = data.subrange(position, position + 12);
    assert(data.subrange(position, position + 2) =~= bytes.subrange(0, 2));
    assert(data.subrange(position + 2, position + 4) =~= bytes.subrange(2, 4));
    assert(data.subrange(position + 4, position + 8) =~= bytes.subrange(4, 8));
    assert(data.subrange(position + 8, position + 12) =~= bytes.subrange(8, 12));
    if entry.type_ != Type::Unexpected && entry.type_ != Type::Unknown && entry.count != 0 {
        let size = entry.spec_size();
        assert(size >= 1) by (nonlinear_arith)
            requires
                size == entry.count * entry.type_.spec_size(),
                entry.count >= 1,
                entry.type_.spec_size() >= 1,
        ;
        if size <= 4 {
            assert(data.subrange(position + 8, position + 12).take(size) =~= data.subrange(
                position + 8,
                position + 8 + size,
            ));
        }
    }
}

/// The entry behind a decoded entry is decoded twelve bytes further on,
/// whether the value of the first stood in the entry or elsewhere in the
/// file.
pub proof fn lemma_next_entry(
    data: Seq<u8>,
    order: ByteOrder,
    position: int,
    remaining: nat,
    fields: Map<Tag, FieldModel>,
)
    requires
        remaining >= 1,
        spec_entry(data, order, position) matches Ok(Some(_)),
    ensures
        ({
            let (tag, field) = spec_entry(data, order, position)->Ok_0->Some_0;
            spec_entries(data, order, position, remaining, fields) == spec_entries(
                data,
                order,
                position + 12,
                (remaining - 1) as nat,
                fields.insert(tag, field),
            )
        }),
{
}

/// The tag of the entry `k` of the entries that start at `position`.
pub open spec fn spec_tag_of_entry(data: Seq<u8>, order: ByteOrder, position: int, k: int) -> Tag {
    spec_entry(data, order, position + 12 * k)->Ok_0->Some_0.0
}

/// The field of the entry `k` of the entries that start at `position`.
pub open spec fn spec_field_of_entry(
    data: Seq<u8>,
    order: ByteOrder,
    position: int,
    k: int,
) -> FieldModel {
    spec_entry(data, order, position + 12 * k)->Ok_0->Some_0.1
}

/// The last entry wins. Of the entries that a directory gives, the one that
/// no later entry with the same tag follows is the one whose field stands
/// under that tag.
pub proof fn lemma_last_entry_wins(
    data: Seq<u8>,
    order: ByteOrder,
    position: int,
    remaining: nat,
    fields: Map<Tag, FieldModel>,
    k: int,
)
    requires
        spec_entries(data, order, position, remaining, fields) is Ok,
        0 <= k < spec_decoded(data, order, position, remaining),
        forall|j: int|
            k < j < spec_decoded(data, order, position, remaining) ==> #[trigger] spec_tag_of_entry(
                data,
                order,
                position,
                j,
            ) != spec_tag_of_entry(data, order, position, k),
    ensures
        spec_entry(data, order, position + 12 * k) matches Ok(Some(_)),
        ({
            let all = spec_entries(data, order, position, remaining, fields)->Ok_0;
            let tag = spec_tag_of_entry(data, order, position, k);
            all.contains_key(tag) && all[tag] == spec_field_of_entry(data, order, position, k)
        }),
    decreases remaining,
{
    let (tag, field) = spec_entry(data, order, position)->Ok_0->Some_0;
    let decoded = spec_decoded(data, order, position, remaining);
    let behind = spec_decoded(data, order, position + 12, (remaining - 1) as nat);
    assert(decoded == 1 + behind);
    assert forall|j: int| 0 <= j < behind implies #[trigger] spec_tag_of_entry(
        data,
        order,
        position + 12,
        j,
    ) == spec_tag_of_entry(data, order, position, j + 1) by {
        assert(position + 12 + 12 * j == position + 12 * (j + 1));
    }
    if k == 0 {
        assert forall|j: int| 0 <= j < behind implies #[trigger] spec_tag_of_entry(
            data,
            order,
            position + 12,
            j,
        ) != tag by {
            assert(spec_tag_of_entry(data, order, position, j + 1) != spec_tag_of_entry(
                data,
                order,
                position,
                k,
            ));
        }
        lemma_other_tags_stay(
            data,
            order,
            position + 12,
            (remaining - 1) as nat,
            fields.insert(tag, field),
            tag,
        );
    } else {
        assert(position + 12 + 12 * (k - 1) == position + 12 * k);
        assert forall|j: int| k - 1 < j < behind implies #[trigger] spec_tag_of_entry(
            data,
            order,
            position + 12,
            j,
        ) != spec_tag_of_entry(data, order, position + 12, k - 1) by {
            assert(spec_tag_of_entry(data, order, position, j + 1) != spec_tag_of_entry(
                data,
                order,
                position,
                k,
            ));
        }
        lemma_last_entry_wins(
            data,
            order,
            position + 12,
            (remaining - 1) as nat,
            fields.insert(tag, field),
            k - 1,
        );
    }
}

/// What no entry names stays as it was. A tag that none of the entries that
/// a directory gives carries has the field that it had before them, or none.
pub proof fn lemma_other_tags_stay(
    data: Seq<u8>,
    order: ByteOrder,
    position: int,
    remaining: nat,
    fields: Map<Tag, FieldModel>,
    tag: Tag,
)
    requires
        spec_entries(data, order, position, remaining, fields) is Ok,
        forall|j: int|
            0 <= j < spec_decoded(data, order, position, remaining) ==> #[trigger] spec_tag_of_entry(
                data,
                order,
                position,
                j,
            ) != tag,
    ensures
        ({
            let all = spec_entries(data, order, position, remaining, fields)->Ok_0;
            &&& all.contains_key(tag) == fields.contains_key(tag)
            &&& all.contains_key(tag) ==> all[tag] == fields[tag]
        }),
    decreases remaining,
{
    if remaining > 0 {
        if let Ok(Some((first, field))) = spec_entry(data, order, position) {
            let behind = spec_decoded(data, order, position + 12, (remaining - 1) as nat);
            assert(spec_tag_of_entry(data, order, position, 0) == first);
            assert forall|j: int| 0 <= j < behind implies #[trigger] spec_tag_of_entry(
                data,
                order,
                position + 12,
                j,
            ) != tag by {
                assert(position + 12 + 12 * j == position + 12 * (j + 1));
                assert(spec_tag_of_entry(data, order, position, j + 1) != tag);
            }
            lemma_other_tags_stay(
                data,
                order,
                position + 12,
                (remaining - 1) as nat,
                fields.insert(first, field),
                tag,
            );
        }
    }
}

/// Whether the chain `ifds` that starts at `first` keeps clear of the
/// offsets `visited`.
pub open spec fn spec_keeps_clear(
    first: Offset,
    ifds: Seq<IfdModel>,
    visited: Seq<Offset>,
) -> bool {
    forall|i: int|
        0 <= i < ifds.len() ==> !visited.contains(#[trigger] spec_offset_of(first, ifds, i))
}

/// A chain with one more directory in front. Where `behind` is the chain
/// that starts where `ifd` points, and `ifd` stands at an `offset` that this
/// chain does not pass through, `ifd` and `behind` are the chain that starts
/// at `offset`.
proof fn lemma_chain_extends(
    data: Seq<u8>,
    order: ByteOrder,
    offset: Offset,
    ifd: IfdModel,
    behind: Seq<IfdModel>,
    visited: Seq<Offset>,
)
    requires
        spec_ifd(data, order, offset as int) == Ok::<IfdModel, Error>(ifd),
        ifd.offset != 0,
        !visited.contains(offset),
        spec_is_chain(data, order, ifd.offset, behind),
        spec_keeps_clear(ifd.offset, behind, visited.push(offset)),
    ensures
        spec_is_chain(data, order, offset, seq![ifd] + behind),
        spec_keeps_clear(offset, seq![ifd] + behind, visited),
{
    let rest = seq![ifd] + behind;
    let passed = visited.push(offset);
    assert forall|i: int| 1 <= i < rest.len() implies rest[i] == behind[i - 1] && spec_offset_of(
        offset,
        rest,
        i,
    ) == spec_offset_of(ifd.offset, behind, i - 1) by {
        if i > 1 {
            assert(rest[i - 1] == behind[i - 2]);
        }
    }
    assert forall|i: int| 0 <= i < rest.len() implies #[trigger] spec_stands(
        data,
        order,
        offset,
        rest,
        i,
    ) by {
        if i > 0 {
            assert(spec_stands(data, order, ifd.offset, behind, i - 1));
        }
    }
    assert forall|i: int| 0 <= i < rest.len() - 1 implies (#[trigger] rest[i]).offset != 0 by {
        if i > 0 {
            assert(rest[i] == behind[i - 1]);
        }
    }
    assert(rest.last() == behind.last());
    assert forall|i: int| 1 <= i < rest.len() implies spec_offset_of(offset, rest, i) != offset
        && !visited.contains(spec_offset_of(offset, rest, i)) by {
        let other = spec_offset_of(ifd.offset, behind, i - 1);
        assert(!passed.contains(other));
        assert(passed[visited.len() as int] == offset);
        if visited.contains(other) {
            let j = choose|j: int| 0 <= j < visited.len() && visited[j] == other;
            assert(passed[j] == other);
        }
    }
    let offsets = spec_offsets(offset, rest);
    let offsets_behind = spec_offsets(ifd.offset, behind);
    assert forall|i: int, j: int| 0 <= i < j < offsets.len() implies offsets[i] != offsets[j] by {
        assert(offsets[j] == offsets_behind[j - 1]);
        if i > 0 {
            assert(offsets[i] == offsets_behind[i - 1]);
        }
    }
    assert forall|i: int| 0 <= i < rest.len() implies !visited.contains(
        #[trigger] spec_offset_of(offset, rest, i),
    ) by {}
}

/// A chain without its first directory. Where `rest` is a chain of more
/// than one directory that starts at `offset`, what lies behind its first
/// directory is the chain that starts where that directory points, and it
/// does not come back to `offset`.
proof fn lemma_chain_shortens(
    data: Seq<u8>,
    order: ByteOrder,
    offset: Offset,
    rest: Seq<IfdModel>,
    visited: Seq<Offset>,
)
    requires
        rest.len() > 1,
        spec_is_chain(data, order, offset, rest),
        spec_keeps_clear(offset, rest, visited),
    ensures
        spec_is_chain(data, order, rest[0].offset, rest.skip(1)),
        spec_keeps_clear(rest[0].offset, rest.skip(1), visited.push(offset)),
{
    let ifd = rest[0];
    let behind = rest.skip(1);
    let passed = visited.push(offset);
    let offsets = spec_offsets(offset, rest);
    let offsets_behind = spec_offsets(ifd.offset, behind);
    assert forall|i: int| 0 <= i < behind.len() implies behind[i] == rest[i + 1] && spec_offset_of(
        ifd.offset,
        behind,
        i,
    ) == spec_offset_of(offset, rest, i + 1) by {
        if i > 0 {
            assert(behind[i - 1] == rest[i]);
        }
    }
    assert forall|i: int| 0 <= i < behind.len() implies #[trigger] spec_stands(
        data,
        order,
        ifd.offset,
        behind,
        i,
    ) by {
        assert(spec_stands(data, order, offset, rest, i + 1));
    }
    assert forall|i: int| 0 <= i < behind.len() - 1 implies (#[trigger] behind[i]).offset != 0 by {
        assert(behind[i] == rest[i + 1]);
    }
    assert(behind.last() == rest.last());
    assert forall|i: int, j: int| 0 <= i < j < offsets_behind.len() implies offsets_behind[i]
        != offsets_behind[j] by {
        assert(offsets_behind[i] == offsets[i + 1]);
        assert(offsets_behind[j] == offsets[j + 1]);
    }
    assert forall|i: int| 0 <= i < behind.len() implies !passed.contains(
        #[trigger] spec_offset_of(ifd.offset, behind, i),
    ) by {
        let other = spec_offset_of(ifd.offset, behind, i);
        assert(other == spec_offset_of(offset, rest, i + 1));
        assert(!visited.contains(spec_offset_of(offset, rest, i + 1)));
        assert(offsets[i + 1] == other);
        assert(offsets[0] == offset);
        if passed.contains(other) {
            let j = choose|j: int| 0 <= j < passed.len() && passed[j] == other;
            if j < visited.len() {
                assert(visited[j] == passed[j]);
            }
        }
    }
}

/// What a walk hands out is a chain: the directories found so far, and
/// behind them the chain that starts at `offset` and keeps clear of the
/// offsets passed through before.
proof fn lemma_walk_gives_chain(
    data: Seq<u8>,
    order: ByteOrder,
    offset: Offset,
    visited: Seq<Offset>,
    found: Seq<IfdModel>,
)
    requires
        spec_chain(data, order, offset, visited, found) is Ok,
    ensures
        ({
            let all = spec_chain(data, order, offset, visited, found)->Ok_0;
            let rest = all.skip(found.len() as int);
            &&& all.len() > found.len()
            &&& all == found + rest
            &&& spec_is_chain(data, order, offset, rest)
            &&& spec_keeps_clear(offset, rest, visited)
        }),
    decreases spec_unvisited(visited).len(),
{
    let all = spec_chain(data, order, offset, visited, found)->Ok_0;
    let rest = all.skip(found.len() as int);
    let ifd = spec_ifd(data, order, offset as int)->Ok_0;
    if ifd.offset == 0 {
        assert(all == found.push(ifd));
        assert(rest =~= seq![ifd]);
        assert(all =~= found + rest);
        assert(spec_stands(data, order, offset, rest, 0));
        assert(spec_offsets(offset, rest) =~= seq![offset]);
    } else {
        lemma_unvisited_shrinks(visited, offset);
        lemma_walk_gives_chain(data, order, ifd.offset, visited.push(offset), found.push(ifd));
        let behind = all.skip(found.len() as int + 1);
        assert(all == found.push(ifd) + behind);
        assert(rest =~= seq![ifd] + behind);
        assert(all =~= found + rest);
        lemma_chain_extends(data, order, offset, ifd, behind, visited);
    }
}

/// A chain is what a walk hands out: where the chain `rest` starts at
/// `offset` and keeps clear of the offsets passed through before, the walk
/// gives the directories found so far and `rest` behind them.
proof fn lemma_chain_is_walked(
    data: Seq<u8>,
    order: ByteOrder,
    offset: Offset,
    visited: Seq<Offset>,
    found: Seq<IfdModel>,
    rest: Seq<IfdModel>,
)
    requires
        spec_is_chain(data, order, offset, rest),
        spec_keeps_clear(offset, rest, visited),
    ensures
        spec_chain(data, order, offset, visited, found) == Ok::<Seq<IfdModel>, Error>(found + rest),
    decreases rest.len(),
{
    let ifd = rest[0];
    assert(spec_stands(data, order, offset, rest, 0));
    assert(!visited.contains(spec_offset_of(offset, rest, 0)));
    if rest.len() == 1 {
        assert(found.push(ifd) =~= found + rest);
    } else {
        assert(ifd.offset != 0);
        lemma_chain_shortens(data, order, offset, rest, visited);
        lemma_chain_is_walked(
            data,
            order,
            ifd.offset,
            visited.push(offset),
            found.push(ifd),
            rest.skip(1),
        );
        assert(found.push(ifd) + rest.skip(1) =~= found + rest);
    }
}

/// A read ends at the directory that points to 0. The directories that a
/// file gives are exactly its chain: one directory for each offset passed
/// through, from the offset in the header to the directory whose next offset
/// is 0, and never the same offset twice.
pub proof fn lemma_tiff_is_chain(data: Seq<u8>, ifds: Seq<IfdModel>)
    ensures
        spec_tiff(data) == Ok::<Seq<IfdModel>, Error>(ifds) <==> (spec_header(data) matches Ok(
            header,
        ) && spec_is_chain(data, header.byte_order, header.first_ifd, ifds)),
        spec_tiff(data) == Ok::<Seq<IfdModel>, Error>(ifds) ==> ifds.len() == spec_offsets(
            spec_header(data)->Ok_0.first_ifd,
            ifds,
        ).len(),
{
    if let Ok(header) = spec_header(data) {
        let empty = Seq::<IfdModel>::empty();
        if spec_tiff(data) == Ok::<Seq<IfdModel>, Error>(ifds) {
            lemma_walk_gives_chain(data, header.byte_order, header.first_ifd, Seq::empty(), empty);
            assert(ifds.skip(0) =~= ifds);
            assert(empty + ifds =~= ifds);
        }
        if spec_is_chain(data, header.byte_order, header.first_ifd, ifds) {
            lemma_chain_is_walked(
                data,
                header.byte_order,
                header.first_ifd,
                Seq::empty(),
                empty,
                ifds,
            );
            assert(empty + ifds =~= ifds);
        }
    }
}

/// Every directory that a file gives is well formed, and so is every field
/// of it: the field holds as many bytes as its count and its type ask for.
pub proof fn lemma_tiff_wf(data: Seq<u8>)
    ensures
        spec_tiff(data) matches Ok(ifds) ==> forall|i: int|
            0 <= i < ifds.len() ==> (#[trigger] ifds[i]).wf(),
{
    if let Ok(ifds) = spec_tiff(data) {
        let header = spec_header(data)->Ok_0;
        lemma_tiff_is_chain(data, ifds);
        assert forall|i: int| 0 <= i < ifds.len() implies (#[trigger] ifds[i]).wf() by {
            assert(spec_stands(data, header.byte_order, header.first_ifd, ifds, i));
            lemma_ifd_wf(
                data,
                header.byte_order,
                spec_offset_of(header.first_ifd, ifds, i) as int,
            );
        }
    }
}

/// Both directories of a DNG file are well formed.
pub proof fn lemma_dng_wf(data: Seq<u8>)
    ensures
        spec_dng(data) matches Ok(dng) ==> dng.ifd0.wf() && (dng.hires_ifd matches Some(ifd)
            ==> ifd.wf()),
{
    if let Ok(header) = spec_header(data) {
        lemma_ifd_wf(data, header.byte_order, header.first_ifd as int);
        if let Ok(ifd0) = spec_ifd(data, header.byte_order, header.first_ifd as int) {
            if let Ok(Some(offset)) = spec_sub_ifd(header.byte_order, ifd0) {
                lemma_ifd_wf(data, header.byte_order, offset as int);
            }
        }
    }
}

/// Reading is repeatable. A second read in the same session gives the
/// directories that the first one gave, because the first one leaves the
/// bytes of the file as they were and the outcome of a read hangs on nothing
/// else.
pub proof fn lemma_read_twice(
    start: TiffReader,
    middle: TiffReader,
    first: Result<Vec<Ifd>, Error>,
    second: Result<Vec<Ifd>, Error>,
)
    requires
        middle.bytes() == start.bytes(),
        spec_ifds_result(first) == spec_tiff(start.bytes()),
        spec_ifds_result(second) == spec_tiff(middle.bytes()),
    ensures
        spec_ifds_result(first) == spec_ifds_result(second),
{
}

} // verus!
