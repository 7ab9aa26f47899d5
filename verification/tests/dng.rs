use tiff_reader::{ByteStream, Dng, Error, ErrorKind, Field, Tag, TiffReader, Type};

fn read_raw(bytes: Vec<u8>) -> Result<Dng, Error> {
    TiffReader::new(ByteStream::new(bytes)).unwrap().read_dng()
}

fn raw_header(first: u32) -> Vec<u8> {
    let mut bytes = vec![0x49, 0x49, 0x2A, 0x00];
    bytes.extend_from_slice(&first.to_le_bytes());
    bytes
}

fn raw_entry(tag: u16, type_: u16, count: u32, last: [u8; 4]) -> Vec<u8> {
    let mut bytes = Vec::new();
    bytes.extend_from_slice(&tag.to_le_bytes());
    bytes.extend_from_slice(&type_.to_le_bytes());
    bytes.extend_from_slice(&count.to_le_bytes());
    bytes.extend_from_slice(&last);
    bytes
}

fn raw_ifd(entries: &[Vec<u8>], next: u32) -> Vec<u8> {
    let mut bytes = Vec::new();
    bytes.extend_from_slice(&(entries.len() as u16).to_le_bytes());
    for entry in entries {
        bytes.extend_from_slice(entry);
    }
    bytes.extend_from_slice(&next.to_le_bytes());
    bytes
}

fn glue(parts: &[Vec<u8>]) -> Vec<u8> {
    let mut bytes = Vec::new();
    for part in parts {
        bytes.extend_from_slice(part);
    }
    bytes
}

#[test]
fn sub_directory_is_read_where_the_first_directory_points() {
    let sub = 8 + 2 + 2 * 12 + 4;
    let bytes = glue(&[
        raw_header(8),
        raw_ifd(
            &[
                raw_entry(256, 3, 1, [0x40, 0, 0, 0]),
                raw_entry(330, 4, 1, (sub as u32).to_le_bytes()),
            ],
            0,
        ),
        raw_ifd(&[raw_entry(256, 4, 1, [0x00, 0x10, 0, 0])], 0),
    ]);
    let dng = read_raw(bytes).unwrap();
    assert_eq!(dng.ifd0.fields.len(), 2);
    assert_eq!(
        dng.ifd0.fields.get(&Tag::ImageWidth),
        Some(&Field { type_: Type::Short(2), count: 1, raw_data: vec![0x40, 0] })
    );
    let hires = dng.hires_ifd.unwrap();
    assert_eq!(
        hires.fields.get(&Tag::ImageWidth),
        Some(&Field { type_: Type::Long(4), count: 1, raw_data: vec![0x00, 0x10, 0, 0] })
    );
    assert_eq!(hires.offset, 0);
}

#[test]
fn file_without_sub_directory_gives_the_first_directory_alone() {
    let bytes = glue(&[raw_header(8), raw_ifd(&[raw_entry(256, 3, 1, [0x40, 0, 0, 0])], 0)]);
    let dng = read_raw(bytes).unwrap();
    assert_eq!(dng.ifd0.fields.len(), 1);
    assert!(dng.hires_ifd.is_none());
}

#[test]
fn only_the_first_directory_of_the_chain_is_read() {
    let bytes = glue(&[
        raw_header(8),
        raw_ifd(&[raw_entry(256, 3, 1, [0x40, 0, 0, 0])], 26),
        raw_ifd(&[raw_entry(257, 0, 0, [0, 0, 0, 0])], 0),
    ]);
    let dng = read_raw(bytes).unwrap();
    assert_eq!(dng.ifd0.offset, 26);
    assert!(dng.hires_ifd.is_none());
}

#[test]
fn of_several_sub_directories_the_first_is_followed() {
    let offsets = 8 + 2 + 12 + 4;
    let sub = offsets + 8;
    let other = sub + 2 + 12 + 4;
    let bytes = glue(&[
        raw_header(8),
        raw_ifd(&[raw_entry(330, 4, 2, (offsets as u32).to_le_bytes())], 0),
        (sub as u32).to_le_bytes().to_vec(),
        (other as u32).to_le_bytes().to_vec(),
        raw_ifd(&[raw_entry(257, 3, 1, [0x01, 0, 0, 0])], 0),
        raw_ifd(&[raw_entry(258, 3, 1, [0x02, 0, 0, 0])], 0),
    ]);
    let dng = read_raw(bytes).unwrap();
    let hires = dng.hires_ifd.unwrap();
    assert_eq!(hires.fields.keys(), vec![Tag::ImageLength]);
}

#[test]
fn sub_directory_offset_is_read_in_the_byte_order_of_the_file() {
    let mut bytes = vec![0x4D, 0x4D, 0x00, 0x2A, 0, 0, 0, 8];
    bytes.extend_from_slice(&[0, 1]);
    bytes.extend_from_slice(&[0x01, 0x4A, 0x00, 0x04, 0, 0, 0, 1, 0, 0, 0, 26]);
    bytes.extend_from_slice(&[0, 0, 0, 0]);
    bytes.extend_from_slice(&[0, 1]);
    bytes.extend_from_slice(&[0x01, 0x00, 0x00, 0x03, 0, 0, 0, 1, 0x12, 0x34, 0, 0]);
    bytes.extend_from_slice(&[0, 0, 0, 0]);
    let dng = read_raw(bytes).unwrap();
    assert_eq!(
        dng.hires_ifd.unwrap().fields.get(&Tag::ImageWidth),
        Some(&Field { type_: Type::Short(2), count: 1, raw_data: vec![0x12, 0x34] })
    );
}

#[test]
fn sub_directory_field_shorter_than_an_offset_is_refused() {
    let bytes = glue(&[raw_header(8), raw_ifd(&[raw_entry(330, 3, 1, [26, 0, 0, 0])], 0)]);
    let error = read_raw(bytes).unwrap_err();
    assert_eq!(error, Error::InvalidSubIfd { length: 2 });
    assert_eq!(error.kind(), ErrorKind::InvalidData);
}

#[test]
fn failure_in_the_sub_directory_fails_the_read() {
    let bytes = glue(&[raw_header(8), raw_ifd(&[raw_entry(330, 4, 1, [200, 0, 0, 0])], 0)]);
    let error = read_raw(bytes).unwrap_err();
    assert_eq!(error, Error::UnexpectedEof { requested: 2, available: 0 });
    assert_eq!(error.kind(), ErrorKind::UnexpectedEof);
}

#[test]
fn failure_in_the_header_fails_the_read() {
    assert_eq!(
        read_raw(vec![0x49, 0x49, 0x2B, 0x00, 8, 0, 0, 0]).unwrap_err(),
        Error::InvalidVersion { found: 43 }
    );
    assert_eq!(
        read_raw(raw_header(6)).unwrap_err(),
        Error::FirstIfdOffsetTooSmall { offset: 6 }
    );
}
