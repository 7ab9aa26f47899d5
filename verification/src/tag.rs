//! The tags that name the fields of a directory.

use vstd::prelude::*;

verus! {

/// The meaning of a directory entry, as its numeric tag gives it.
///
/// The tags are those of baseline TIFF 6.0, TIFF/EP and DNG 1.4.0.0 that a
/// raw photograph carries. `Unknown` stands for every other number: such an
/// entry is legal and is kept.
#[derive(Clone, Copy, Debug, PartialEq, Eq, Hash, Structural)]
pub enum Tag {
    Unknown,
    NewSubFileType,
    ImageWidth,
    ImageLength,
    BitsPerSample,
    Compression,
    PhotometricInterpretation,
    Make,
    Model,
    StripOffsets,
    Orientation,
    SamplesPerPixel,
    RowsPerStrip,
    StripByteCounts,
    PlanarConfiguration,
    Software,
    DateTime,
    Artist,
    SubIFDs,
    XMP,
    Copyright,
    ExifIFD,
    ImageNumber,
    DNGVersion,
    DNGBackwardVersion,
    UniqueCameraModel,
    LocalizedCameraModel,
    ColorMatrix1,
    ColorMatrix2,
    CameraCalibration1,
    CameraCalibration2,
    AnalogBalance,
    AsShotNeutral,
    BaselineExposure,
    BaselineNoise,
    BaselineSharpness,
    BayerGreenSplit,
    LinearResponseLimit,
    CameraSerialNumber,
    LensInfo,
    ShadowScale,
    DNGPrivateData,
    CalibrationIlluminant1,
    CalibrationIlluminant2,
    RawDataUniqueID,
    OriginalRawFileName,
    CameraCalibrationSignature,
    ProfileCalibrationSignature,
    ProfileName,
    ProfileEmbedPolicy,
    ProfileCopyright,
    ForwardMatrix1,
    ForwardMatrix2,
    PreviewApplicationName,
    PreviewApplicationVersion,
    PreviewSettingsDigest,
    PreviewColorSpace,
    PreviewDateTime,
    RawImageDigest,
    NoiseProfile,
}

impl Tag {
    /// The number under which the format knows this tag: none for `Unknown`.
    pub open spec fn spec_code(&self) -> Option<u16> {
        match self {
            Tag::Unknown => None,
            Tag::NewSubFileType => Some(254),
            Tag::ImageWidth => Some(256),
            Tag::ImageLength => Some(257),
            Tag::BitsPerSample => Some(258),
            Tag::Compression => Some(259),
            Tag::PhotometricInterpretation => Some(262),
            Tag::Make => Some(271),
            Tag::Model => Some(272),
            Tag::StripOffsets => Some(273),
            Tag::Orientation => Some(274),
            Tag::SamplesPerPixel => Some(277),
            Tag::RowsPerStrip => Some(278),
            Tag::StripByteCounts => Some(279),
            Tag::PlanarConfiguration => Some(284),
            Tag::Software => Some(305),
            Tag::DateTime => Some(306),
            Tag::Artist => Some(315),
            Tag::SubIFDs => Some(330),
            Tag::XMP => Some(700),
            Tag::Copyright => Some(33432),
            Tag::ExifIFD => Some(34665),
            Tag::ImageNumber => Some(37393),
            Tag::DNGVersion => Some(50706),
            Tag::DNGBackwardVersion => Some(50707),
            Tag::UniqueCameraModel => Some(50708),
            Tag::LocalizedCameraModel => Some(50709),
            Tag::ColorMatrix1 => Some(50721),
            Tag::ColorMatrix2 => Some(50722),
            Tag::CameraCalibration1 => Some(50723),
            Tag::CameraCalibration2 => Some(50724),
            Tag::AnalogBalance => Some(50727),
            Tag::AsShotNeutral => Some(50728),
            Tag::BaselineExposure => Some(50730),
            Tag::BaselineNoise => Some(50731),
            Tag::BaselineSharpness => Some(50732),
            Tag::BayerGreenSplit => Some(50733),
            Tag::LinearResponseLimit => Some(50734),
            Tag::CameraSerialNumber => Some(50735),
            Tag::LensInfo => Some(50736),
            Tag::ShadowScale => Some(50739),
            Tag::DNGPrivateData => Some(50740),
            Tag::CalibrationIlluminant1 => Some(50778),
            Tag::CalibrationIlluminant2 => Some(50779),
            Tag::RawDataUniqueID => Some(50781),
            Tag::OriginalRawFileName => Some(50827),
            Tag::CameraCalibrationSignature => Some(50931),
            Tag::ProfileCalibrationSignature => Some(50932),
            Tag::ProfileName => Some(50936),
            Tag::ProfileEmbedPolicy => Some(50941),
            Tag::ProfileCopyright => Some(50942),
            Tag::ForwardMatrix1 => Some(50964),
            Tag::ForwardMatrix2 => Some(50965),
            Tag::PreviewApplicationName => Some(50966),
            Tag::PreviewApplicationVersion => Some(50967),
            Tag::PreviewSettingsDigest => Some(50969),
            Tag::PreviewColorSpace => Some(50970),
            Tag::PreviewDateTime => Some(50971),
            Tag::RawImageDigest => Some(50972),
            Tag::NoiseProfile => Some(51041),
        }
    }

    /// The tag that the number `tag` denotes.
    pub open spec fn spec_new(tag: u16) -> Tag {
        match tag {
            254 => Tag::NewSubFileType,
            256 => Tag::ImageWidth,
            257 => Tag::ImageLength,
            258 => Tag::BitsPerSample,
            259 => Tag::Compression,
            262 => Tag::PhotometricInterpretation,
            271 => Tag::Make,
            272 => Tag::Model,
            273 => Tag::StripOffsets,
            274 => Tag::Orientation,
            277 => Tag::SamplesPerPixel,
            278 => Tag::RowsPerStrip,
            279 => Tag::StripByteCounts,
            284 => Tag::PlanarConfiguration,
            305 => Tag::Software,
            306 => Tag::DateTime,
            315 => Tag::Artist,
            330 => Tag::SubIFDs,
            700 => Tag::XMP,
            33432 => Tag::Copyright,
            34665 => Tag::ExifIFD,
            37393 => Tag::ImageNumber,
            50706 => Tag::DNGVersion,
            50707 => Tag::DNGBackwardVersion,
            50708 => Tag::UniqueCameraModel,
            50709 => Tag::LocalizedCameraModel,
            50721 => Tag::ColorMatrix1,
            50722 => Tag::ColorMatrix2,
            50723 => Tag::CameraCalibration1,
            50724 => Tag::CameraCalibration2,
            50727 => Tag::AnalogBalance,
            50728 => Tag::AsShotNeutral,
            50730 => Tag::BaselineExposure,
            50731 => Tag::BaselineNoise,
            50732 => Tag::BaselineSharpness,
            50733 => Tag::BayerGreenSplit,
            50734 => Tag::LinearResponseLimit,
            50735 => Tag::CameraSerialNumber,
            50736 => Tag::LensInfo,
            50739 => Tag::ShadowScale,
            50740 => Tag::DNGPrivateData,
            50778 => Tag::CalibrationIlluminant1,
            50779 => Tag::CalibrationIlluminant2,
            50781 => Tag::RawDataUniqueID,
            50827 => Tag::OriginalRawFileName,
            50931 => Tag::CameraCalibrationSignature,
            50932 => Tag::ProfileCalibrationSignature,
            50936 => Tag::ProfileName,
            50941 => Tag::ProfileEmbedPolicy,
            50942 => Tag::ProfileCopyright,
            50964 => Tag::ForwardMatrix1,
            50965 => Tag::ForwardMatrix2,
            50966 => Tag::PreviewApplicationName,
            50967 => Tag::PreviewApplicationVersion,
            50969 => Tag::PreviewSettingsDigest,
            50970 => Tag::PreviewColorSpace,
            50971 => Tag::PreviewDateTime,
            50972 => Tag::RawImageDigest,
            51041 => Tag::NoiseProfile,
            _ => Tag::Unknown,
        }
    }

    /// Looks a numeric tag up: the tag that has this number, and `Unknown`
    /// where none has it.
    #[must_use]
    pub fn new(tag: u16) -> (r: Tag)
        ensures
            r == Tag::spec_new(tag),
            r != Tag::Unknown ==> r.spec_code() == Some(tag),
            r == Tag::Unknown ==> forall|t: Tag| #[trigger] t.spec_code() != Some(tag),
    {
        match tag {
            254 => Tag::NewSubFileType,
            256 => Tag::ImageWidth,
            257 => Tag::ImageLength,
            258 => Tag::BitsPerSample,
            259 => Tag::Compression,
            262 => Tag::PhotometricInterpretation,
            271 => Tag::Make,
            272 => Tag::Model,
            273 => Tag::StripOffsets,
            274 => Tag::Orientation,
            277 => Tag::SamplesPerPixel,
            278 => Tag::RowsPerStrip,
            279 => Tag::StripByteCounts,
            284 => Tag::PlanarConfiguration,
            305 => Tag::Software,
            306 => Tag::DateTime,
            315 => Tag::Artist,
            330 => Tag::SubIFDs,
            700 => Tag::XMP,
            33432 => Tag::Copyright,
            34665 => Tag::ExifIFD,
            37393 => Tag::ImageNumber,
            50706 => Tag::DNGVersion,
            50707 => Tag::DNGBackwardVersion,
            50708 => Tag::UniqueCameraModel,
            50709 => Tag::LocalizedCameraModel,
            50721 => Tag::ColorMatrix1,
            50722 => Tag::ColorMatrix2,
            50723 => Tag::CameraCalibration1,
            50724 => Tag::CameraCalibration2,
            50727 => Tag::AnalogBalance,
            50728 => Tag::AsShotNeutral,
            50730 => Tag::BaselineExposure,
            50731 => Tag::BaselineNoise,
            50732 => Tag::BaselineSharpness,
            50733 => Tag::BayerGreenSplit,
            50734 => Tag::LinearResponseLimit,
            50735 => Tag::CameraSerialNumber,
            50736 => Tag::LensInfo,
            50739 => Tag::ShadowScale,
            50740 => Tag::DNGPrivateData,
            50778 => Tag::CalibrationIlluminant1,
            50779 => Tag::CalibrationIlluminant2,
            50781 => Tag::RawDataUniqueID,
            50827 => Tag::OriginalRawFileName,
            50931 => Tag::CameraCalibrationSignature,
            50932 => Tag::ProfileCalibrationSignature,
            50936 => Tag::ProfileName,
            50941 => Tag::ProfileEmbedPolicy,
            50942 => Tag::ProfileCopyright,
            50964 => Tag::ForwardMatrix1,
            50965 => Tag::ForwardMatrix2,
            50966 => Tag::PreviewApplicationName,
            50967 => Tag::PreviewApplicationVersion,
            50969 => Tag::PreviewSettingsDigest,
            50970 => Tag::PreviewColorSpace,
            50971 => Tag::PreviewDateTime,
            50972 => Tag::RawImageDigest,
            51041 => Tag::NoiseProfile,
            _ => Tag::Unknown,
        }
    }

    /// The number of this tag, if it has one.
    #[must_use]
    #[verifier::when_used_as_spec(spec_code)]
    pub fn code(&self) -> (r: Option<u16>)
        ensures
            r == self.spec_code(),
    {
        match self {
            Tag::Unknown => None,
            Tag::NewSubFileType => Some(254),
            Tag::ImageWidth => Some(256),
            Tag::ImageLength => Some(257),
            Tag::BitsPerSample => Some(258),
            Tag::Compression => Some(259),
            Tag::PhotometricInterpretation => Some(262),
            Tag::Make => Some(271),
            Tag::Model => Some(272),
            Tag::StripOffsets => Some(273),
            Tag::Orientation => Some(274),
            Tag::SamplesPerPixel => Some(277),
            Tag::RowsPerStrip => Some(278),
            Tag::StripByteCounts => Some(279),
            Tag::PlanarConfiguration => Some(284),
            Tag::Software => Some(305),
            Tag::DateTime => Some(306),
            Tag::Artist => Some(315),
            Tag::SubIFDs => Some(330),
            Tag::XMP => Some(700),
            Tag::Copyright => Some(33432),
            Tag::ExifIFD => Some(34665),
            Tag::ImageNumber => Some(37393),
            Tag::DNGVersion => Some(50706),
            Tag::DNGBackwardVersion => Some(50707),
            Tag::UniqueCameraModel => Some(50708),
            Tag::LocalizedCameraModel => Some(50709),
            Tag::ColorMatrix1 => Some(50721),
            Tag::ColorMatrix2 => Some(50722),
            Tag::CameraCalibration1 => Some(50723),
            Tag::CameraCalibration2 => Some(50724),
            Tag::AnalogBalance => Some(50727),
            Tag::AsShotNeutral => Some(50728),
            Tag::BaselineExposure => Some(50730),
            Tag::BaselineNoise => Some(50731),
            Tag::BaselineSharpness => Some(50732),
            Tag::BayerGreenSplit => Some(50733),
            Tag::LinearResponseLimit => Some(50734),
            Tag::CameraSerialNumber => Some(50735),
            Tag::LensInfo => Some(50736),
            Tag::ShadowScale => Some(50739),
            Tag::DNGPrivateData => Some(50740),
            Tag::CalibrationIlluminant1 => Some(50778),
            Tag::CalibrationIlluminant2 => Some(50779),
            Tag::RawDataUniqueID => Some(50781),
            Tag::OriginalRawFileName => Some(50827),
            Tag::CameraCalibrationSignature => Some(50931),
            Tag::ProfileCalibrationSignature => Some(50932),
            Tag::ProfileName => Some(50936),
            Tag::ProfileEmbedPolicy => Some(50941),
            Tag::ProfileCopyright => Some(50942),
            Tag::ForwardMatrix1 => Some(50964),
            Tag::ForwardMatrix2 => Some(50965),
            Tag::PreviewApplicationName => Some(50966),
            Tag::PreviewApplicationVersion => Some(50967),
            Tag::PreviewSettingsDigest => Some(50969),
            Tag::PreviewColorSpace => Some(50970),
            Tag::PreviewDateTime => Some(50971),
            Tag::RawImageDigest => Some(50972),
            Tag::NoiseProfile => Some(51041),
        }
    }
}

/// A tag with a number is the one that its number denotes.
pub proof fn lemma_tag_of_code(tag: Tag)
    ensures
        tag.spec_code() matches Some(code) ==> Tag::spec_new(code) == tag,
{
}

} // verus!
