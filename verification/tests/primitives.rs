use tiff_reader::byte_order;
use tiff_reader::{ByteOrder, ByteStream, Error, Tag, TiffReader, Type};

fn little(bytes: &[u8]) -> TiffReader {
    let mut file = vec![0x49, 0x49, 0x2A, 0x00, 0x08, 0x00, 0x00, 0x00];
    file.extend_from_slice(bytes);
    let mut reader = TiffReader::new(ByteStream::new(file)).unwrap();
    assert_eq!(reader.process_header(), Ok(8));
    reader
}

fn big(bytes: &[u8]) -> TiffReader {
    let mut file = vec![0x4D, 0x4D, 0x00, 0x2A, 0x00, 0x00, 0x00, 0x08];
    file.extend_from_slice(bytes);
    let mut reader = TiffReader::new(ByteStream::new(file)).unwrap();
    assert_eq!(reader.process_header(), Ok(8));
    reader
}

#[test]
fn a_new_session_reads_big_endian_until_a_header_is_read() {
    let mut reader = TiffReader::new(ByteStream::new(vec![0x12, 0x34])).unwrap();
    assert_eq!(reader.byte_order(), ByteOrder::BigEndian);
    assert_eq!(reader.read_u16(), Ok(0x1234));
}

#[test]
fn header_gives_the_offset_of_the_first_directory() {
    let mut reader =
        TiffReader::new(ByteStream::new(vec![0x4D, 0x4D, 0x00, 0x2A, 0x00, 0x01, 0x02, 0x04]))
            .unwrap();
    assert_eq!(reader.process_header(), Ok(0x0001_0204));
    assert_eq!(reader.byte_order(), ByteOrder::BigEndian);
    let mut reader =
        TiffReader::new(ByteStream::new(vec![0x49, 0x49, 0x2A, 0x00, 0x00, 0x01, 0x02, 0x04]))
            .unwrap();
    assert_eq!(reader.process_header(), Ok(0x0402_0100));
    assert_eq!(reader.byte_order(), ByteOrder::LittleEndian);
}

#[test]
fn header_with_42_in_the_wrong_byte_order_is_refused() {
    let mut reader =
        TiffReader::new(ByteStream::new(vec![0x4D, 0x4D, 0x2A, 0x00, 0x00, 0x00, 0x00, 0x08]))
            .unwrap();
    assert_eq!(reader.process_header(), Err(Error::InvalidVersion { found: 0x2A00 }));
    assert_eq!(reader.byte_order(), ByteOrder::BigEndian);
}

#[test]
fn negative_version_is_reported_as_it_is() {
    let mut reader =
        TiffReader::new(ByteStream::new(vec![0x49, 0x49, 0xFF, 0xFF, 0x08, 0x00, 0x00, 0x00]))
            .unwrap();
    assert_eq!(reader.process_header(), Err(Error::InvalidVersion { found: -1 }));
    assert_eq!(reader.byte_order(), ByteOrder::LittleEndian);
}

#[test]
fn a_refused_marker_leaves_the_byte_order_as_it_was() {
    let mut reader = TiffReader::new(ByteStream::new(vec![0x49, 0x4D, 0x2A, 0x00])).unwrap();
    assert_eq!(
        reader.process_header(),
        Err(Error::InvalidByteOrder { first: 0x49, second: 0x4D })
    );
    assert_eq!(reader.byte_order(), ByteOrder::BigEndian);
}

#[test]
fn integers_are_read_in_the_byte_order_of_the_file() {
    let bytes = [0x12, 0x34, 0xFE, 0xFF, 0x01, 0x02, 0x03, 0x04];
    let mut reader = little(&bytes);
    assert_eq!(reader.read_u16(), Ok(0x3412));
    assert_eq!(reader.read_i16(), Ok(-2));
    assert_eq!(reader.read_u32(), Ok(0x0403_0201));
    let mut reader = big(&bytes);
    assert_eq!(reader.read_u16(), Ok(0x1234));
    assert_eq!(reader.read_i16(), Ok(-257));
    assert_eq!(reader.read_u32(), Ok(0x0102_0304));
}

#[test]
fn signed_reads_cover_the_whole_range() {
    let mut reader = little(&[0x00, 0x80, 0xFF, 0x7F, 0xFF, 0xFF, 0x00, 0x00]);
    assert_eq!(reader.read_i16(), Ok(i16::MIN));
    assert_eq!(reader.read_i16(), Ok(i16::MAX));
    assert_eq!(reader.read_i16(), Ok(-1));
    assert_eq!(reader.read_i16(), Ok(0));
}

#[test]
fn the_session_and_the_codec_decode_alike() {
    for first in [0u8, 1, 0x7F, 0x80, 0xFF] {
        for second in [0u8, 1, 0x7F, 0x80, 0xFF] {
            let bytes = [first, second, second, first];
            for (order, mut reader) in
                [(ByteOrder::LittleEndian, little(&bytes)), (ByteOrder::BigEndian, big(&bytes))]
            {
                assert_eq!(reader.read_u16(), Ok(byte_order::read_u16(&[first, second], order)));
                let mut reader = match order {
                    ByteOrder::LittleEndian => little(&bytes),
                    ByteOrder::BigEndian => big(&bytes),
                };
                assert_eq!(reader.read_i16(), Ok(byte_order::read_i16(&[first, second], order)));
                let mut reader = match order {
                    ByteOrder::LittleEndian => little(&bytes),
                    ByteOrder::BigEndian => big(&bytes),
                };
                assert_eq!(reader.read_u32(), Ok(byte_order::read_u32(&bytes, order)));
            }
        }
    }
}

#[test]
fn offsets_must_be_even() {
    let mut reader = little(&[0x10, 0x00, 0x00, 0x00, 0x11, 0x00, 0x00, 0x00]);
    assert_eq!(reader.read_offset(), Ok(16));
    assert_eq!(reader.read_offset(), Err(Error::OddOffset { offset: 17 }));
    let mut reader = big(&[0xFF, 0xFF, 0xFF, 0xFE, 0xFF, 0xFF, 0xFF, 0xFF]);
    assert_eq!(reader.read_offset(), Ok(0xFFFF_FFFE));
    assert_eq!(reader.read_offset(), Err(Error::OddOffset { offset: 0xFFFF_FFFF }));
}

#[test]
fn tags_and_types_are_read_and_looked_up() {
    let mut reader = little(&[0x4A, 0x01, 0x05, 0x00, 0x39, 0x30, 0x0D, 0x00]);
    assert_eq!(reader.read_tag(), Ok(Tag::SubIFDs));
    assert_eq!(reader.read_type(), Ok(Type::Rational(8)));
    assert_eq!(reader.read_tag(), Ok(Tag::Unknown));
    assert_eq!(reader.read_type(), Ok(Type::Unexpected));
    assert_eq!(reader.read_tag(), Err(Error::UnexpectedEof { requested: 2, available: 0 }));
}

#[test]
fn exact_reads_fail_where_the_file_ends() {
    let mut reader = little(&[1, 2, 3, 4, 5]);
    assert_eq!(reader.read_to(3), Ok(vec![1, 2, 3]));
    assert_eq!(reader.read_to(3), Err(Error::UnexpectedEof { requested: 3, available: 2 }));
    let mut reader = little(&[1, 2, 3, 4, 5]);
    assert_eq!(reader.read_to_heap(5), Ok(vec![1, 2, 3, 4, 5]));
    assert_eq!(reader.read_to_heap(1), Err(Error::UnexpectedEof { requested: 1, available: 0 }));
    let mut reader = little(&[1, 2, 3, 4, 5]);
    assert_eq!(reader.read_to_stack::<4>(), Ok([1, 2, 3, 4]));
    assert_eq!(
        reader.read_to_stack::<2>(),
        Err(Error::UnexpectedEof { requested: 2, available: 1 })
    );
    let mut reader = little(&[1, 2, 3, 4, 5]);
    assert_eq!(reader.read_to(0), Ok(Vec::new()));
    assert_eq!(reader.read_to_stack::<0>(), Ok([]));
}

#[test]
fn a_value_of_five_bytes_is_fetched_and_one_of_four_is_not() {
    let mut reader = little(&[0x0C, 0x00, 0x00, 0x00, 0xA1, 0xA2, 0xA3, 0xA4, 0xA5, 0xA6]);
    assert_eq!(reader.read_value(5), Ok(vec![0xA1, 0xA2, 0xA3, 0xA4, 0xA5]));
    assert_eq!(reader.read_value(4), Ok(vec![0xA1, 0xA2, 0xA3, 0xA4]));
    let mut reader = little(&[0x0C, 0x00, 0x00, 0x00, 0xA1, 0xA2, 0xA3, 0xA4, 0xA5, 0xA6]);
    assert_eq!(reader.read_value(4), Ok(vec![0x0C, 0x00, 0x00, 0x00]));
    assert_eq!(reader.read_value(1), Ok(vec![0xA1]));
}

#[test]
fn a_failed_fetch_leaves_the_cursor_behind_the_entry() {
    let mut reader = little(&[0x10, 0x00, 0x00, 0x00, 0x07, 0x00, 0x01, 0x02, 0x03, 0x04]);
    assert_eq!(reader.read_value(8), Err(Error::UnexpectedEof { requested: 8, available: 2 }));
    assert_eq!(reader.read_u16(), Ok(7));
}

#[test]
fn a_directory_is_read_at_any_offset() {
    let mut reader = little(&[
        0xEE, 0xEE, // not part of the directory
        0x01, 0x00, // one entry
        0x00, 0x01, 0x04, 0x00, 0x01, 0x00, 0x00, 0x00, 0x80, 0x02, 0x00, 0x00, // ImageWidth
        0x00, 0x00, 0x00, 0x00, // no next directory
        0x00, 0x00, 0x10, 0x00, 0x00, 0x00, // an empty directory that points to 16
    ]);
    let ifd = reader.process_ifd(10).unwrap();
    assert_eq!(ifd.offset, 0);
    assert_eq!(ifd.fields.keys(), vec![Tag::ImageWidth]);
    assert_eq!(ifd.fields.get(&Tag::ImageWidth).unwrap().raw_data, vec![0x80, 0x02, 0, 0]);
    let ifd = reader.process_ifd(28).unwrap();
    assert_eq!(ifd.offset, 16);
    assert_eq!(ifd.fields.len(), 0);
    assert_eq!(
        reader.process_ifd(1000).unwrap_err(),
        Error::UnexpectedEof { requested: 2, available: 0 }
    );
}

#[test]
fn sub_directory_offset_is_the_first_value_of_the_field() {
    let mut reader = little(&[
        0x01, 0x00, // one entry
        0x4A, 0x01, 0x04, 0x00, 0x01, 0x00, 0x00, 0x00, 0x34, 0x12, 0x00, 0x00, // SubIFDs
        0x00, 0x00, 0x00, 0x00,
    ]);
    let ifd = reader.process_ifd(8).unwrap();
    assert_eq!(reader.sub_ifd_offset(&ifd), Ok(Some(0x1234)));
    let mut reader = little(&[0x00, 0x00, 0x00, 0x00, 0x00, 0x00]);
    let ifd = reader.process_ifd(8).unwrap();
    assert_eq!(reader.sub_ifd_offset(&ifd), Ok(None));
}
