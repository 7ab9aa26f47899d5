use tiff_reader::{Tag, Type};

#[test]
fn type_codes_one_to_twelve_denote_the_twelve_types() {
    assert_eq!(Type::new(1), Type::Byte(1));
    assert_eq!(Type::new(2), Type::Ascii(1));
    assert_eq!(Type::new(3), Type::Short(2));
    assert_eq!(Type::new(4), Type::Long(4));
    assert_eq!(Type::new(5), Type::Rational(8));
    assert_eq!(Type::new(6), Type::Sbyte(1));
    assert_eq!(Type::new(7), Type::Undefined(1));
    assert_eq!(Type::new(8), Type::Sshort(2));
    assert_eq!(Type::new(9), Type::Slong(4));
    assert_eq!(Type::new(10), Type::Srational(8));
    assert_eq!(Type::new(11), Type::Float(4));
    assert_eq!(Type::new(12), Type::Double(8));
}

#[test]
fn type_code_zero_is_unknown() {
    assert_eq!(Type::new(0), Type::Unknown);
    assert_ne!(Type::new(0), Type::Unexpected);
}

#[test]
fn type_codes_above_twelve_are_unexpected() {
    assert_eq!(Type::new(13), Type::Unexpected);
    assert_eq!(Type::new(200), Type::Unexpected);
    assert_eq!(Type::new(u16::MAX), Type::Unexpected);
    for code in 13..=u16::MAX {
        assert_eq!(Type::new(code), Type::Unexpected);
    }
}

#[test]
fn type_widths_are_those_of_the_format() {
    let widths: [u32; 14] = [0, 1, 1, 2, 4, 8, 1, 1, 2, 4, 8, 4, 8, 0];
    for code in 0..14u16 {
        assert_eq!(Type::new(code).size(), widths[code as usize]);
    }
    assert_eq!(Type::Unknown.size(), 0);
    assert_eq!(Type::Unexpected.size(), 0);
}

#[test]
fn type_size_is_the_width_of_the_variant() {
    assert_eq!(Type::Short(2).size(), 2);
    assert_eq!(Type::Double(8).size(), 8);
    assert_eq!(Type::Byte(1).size(), 1);
}

#[test]
fn type_size_does_not_hang_on_the_number_that_the_value_carries() {
    for carried in [0u32, 1, 2, 3, 4, 7, 8, 9, 1000, u32::MAX] {
        assert_eq!(Type::Byte(carried).size(), 1);
        assert_eq!(Type::Ascii(carried).size(), 1);
        assert_eq!(Type::Sbyte(carried).size(), 1);
        assert_eq!(Type::Undefined(carried).size(), 1);
        assert_eq!(Type::Short(carried).size(), 2);
        assert_eq!(Type::Sshort(carried).size(), 2);
        assert_eq!(Type::Long(carried).size(), 4);
        assert_eq!(Type::Slong(carried).size(), 4);
        assert_eq!(Type::Float(carried).size(), 4);
        assert_eq!(Type::Rational(carried).size(), 8);
        assert_eq!(Type::Srational(carried).size(), 8);
        assert_eq!(Type::Double(carried).size(), 8);
    }
}

#[test]
fn known_tags_are_looked_up_by_number() {
    assert_eq!(Tag::new(254), Tag::NewSubFileType);
    assert_eq!(Tag::new(256), Tag::ImageWidth);
    assert_eq!(Tag::new(257), Tag::ImageLength);
    assert_eq!(Tag::new(258), Tag::BitsPerSample);
    assert_eq!(Tag::new(259), Tag::Compression);
    assert_eq!(Tag::new(262), Tag::PhotometricInterpretation);
    assert_eq!(Tag::new(273), Tag::StripOffsets);
    assert_eq!(Tag::new(279), Tag::StripByteCounts);
    assert_eq!(Tag::new(330), Tag::SubIFDs);
    assert_eq!(Tag::new(700), Tag::XMP);
    assert_eq!(Tag::new(33432), Tag::Copyright);
    assert_eq!(Tag::new(34665), Tag::ExifIFD);
    assert_eq!(Tag::new(50706), Tag::DNGVersion);
    assert_eq!(Tag::new(50721), Tag::ColorMatrix1);
    assert_eq!(Tag::new(51041), Tag::NoiseProfile);
}

#[test]
fn every_number_of_the_registry_denotes_its_tag() {
    let table: [(u16, Tag); 59] = [
        (254, Tag::NewSubFileType),
        (256, Tag::ImageWidth),
        (257, Tag::ImageLength),
        (258, Tag::BitsPerSample),
        (259, Tag::Compression),
        (262, Tag::PhotometricInterpretation),
        (271, Tag::Make),
        (272, Tag::Model),
        (273, Tag::StripOffsets),
        (274, Tag::Orientation),
        (277, Tag::SamplesPerPixel),
        (278, Tag::RowsPerStrip),
        (279, Tag::StripByteCounts),
        (284, Tag::PlanarConfiguration),
        (305, Tag::Software),
        (306, Tag::DateTime),
        (315, Tag::Artist),
        (330, Tag::SubIFDs),
        (700, Tag::XMP),
        (33432, Tag::Copyright),
        (34665, Tag::ExifIFD),
        (37393, Tag::ImageNumber),
        (50706, Tag::DNGVersion),
        (50707, Tag::DNGBackwardVersion),
        (50708, Tag::UniqueCameraModel),
        (50709, Tag::LocalizedCameraModel),
        (50721, Tag::ColorMatrix1),
        (50722, Tag::ColorMatrix2),
        (50723, Tag::CameraCalibration1),
        (50724, Tag::CameraCalibration2),
        (50727, Tag::AnalogBalance),
        (50728, Tag::AsShotNeutral),
        (50730, Tag::BaselineExposure),
        (50731, Tag::BaselineNoise),
        (50732, Tag::BaselineSharpness),
        (50733, Tag::BayerGreenSplit),
        (50734, Tag::LinearResponseLimit),
        (50735, Tag::CameraSerialNumber),
        (50736, Tag::LensInfo),
        (50739, Tag::ShadowScale),
        (50740, Tag::DNGPrivateData),
        (50778, Tag::CalibrationIlluminant1),
        (50779, Tag::CalibrationIlluminant2),
        (50781, Tag::RawDataUniqueID),
        (50827, Tag::OriginalRawFileName),
        (50931, Tag::CameraCalibrationSignature),
        (50932, Tag::ProfileCalibrationSignature),
        (50936, Tag::ProfileName),
        (50941, Tag::ProfileEmbedPolicy),
        (50942, Tag::ProfileCopyright),
        (50964, Tag::ForwardMatrix1),
        (50965, Tag::ForwardMatrix2),
        (50966, Tag::PreviewApplicationName),
        (50967, Tag::PreviewApplicationVersion),
        (50969, Tag::PreviewSettingsDigest),
        (50970, Tag::PreviewColorSpace),
        (50971, Tag::PreviewDateTime),
        (50972, Tag::RawImageDigest),
        (51041, Tag::NoiseProfile),
    ];
    for (number, tag) in table {
        assert_eq!(Tag::new(number), tag);
        assert_eq!(tag.code(), Some(number));
    }
}

#[test]
fn numbers_outside_the_registry_are_unknown_tags() {
    assert_eq!(Tag::new(0), Tag::Unknown);
    assert_eq!(Tag::new(255), Tag::Unknown);
    assert_eq!(Tag::new(12345), Tag::Unknown);
    assert_eq!(Tag::new(u16::MAX), Tag::Unknown);
    assert_eq!(Tag::Unknown.code(), None);
}

#[test]
fn a_tag_with_a_number_is_found_under_that_number() {
    let mut known = 0;
    for number in 0..=u16::MAX {
        let tag = Tag::new(number);
        if tag == Tag::Unknown {
            assert_eq!(tag.code(), None);
        } else {
            assert_eq!(tag.code(), Some(number));
            known += 1;
        }
    }
    assert_eq!(known, 59);
}
