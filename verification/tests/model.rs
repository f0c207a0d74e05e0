//! Tests of the error taxonomy, depths, formats and buffers.

use rustavif::{AvifError, BitDepth, PixelFormat, RgbFormat, RwData};

#[test]
fn error_code_mapping() {
    assert_eq!(AvifError::from_code(1), AvifError::UnknownError);
    assert_eq!(AvifError::from_code(5), AvifError::ReformatFailed);
    assert_eq!(AvifError::from_code(6), AvifError::UnsupportedDepth);
    assert_eq!(AvifError::from_code(13), AvifError::ColorAlphaSizeMismatch);
    assert_eq!(AvifError::from_code(15), AvifError::NoCodecAvailable);
    assert_eq!(AvifError::from_code(16), AvifError::NoImagesRemaining);
    assert_eq!(AvifError::from_code(18), AvifError::InvalidImageGrid);
    assert_eq!(AvifError::from_code(20), AvifError::TruncatedData);
    assert_eq!(AvifError::from_code(23), AvifError::WaitingOnIo);
    assert_eq!(AvifError::from_code(24), AvifError::InvalidArgument);
    assert_eq!(AvifError::from_code(26), AvifError::OutOfMemory);
    assert_eq!(AvifError::from_code(28), AvifError::IncompatibleImage);
    assert_eq!(AvifError::from_code(31), AvifError::InvalidToneMappedImage);
    // Codes outside the named set fall into the catch-all variant.
    assert_eq!(AvifError::from_code(27), AvifError::UnknownType(27));
    assert_eq!(AvifError::from_code(999), AvifError::UnknownType(999));
}

#[test]
fn error_messages_are_stable() {
    assert_eq!(AvifError::UnknownError.message(), "Unknown error");
    assert_eq!(AvifError::ReformatFailed.message(), "Reformat failed");
    assert_eq!(AvifError::NoCodecAvailable.message(), "No codec available");
    assert_eq!(AvifError::NoImagesRemaining.message(), "No images remaining");
    assert_eq!(AvifError::InvalidImageGrid.message(), "Invalid image grid");
    assert_eq!(AvifError::InvalidArgument.message(), "Invalid argument");
    assert_eq!(AvifError::UnknownType(42).message(), "Unknown error type: 42");
    assert_eq!(AvifError::UnknownType(0).message(), "Unknown error type: 0");
    assert_eq!(
        AvifError::UnknownType(4294967295).message(),
        "Unknown error type: 4294967295"
    );
}

#[test]
fn bit_depth_conversions() {
    assert_eq!(u32::from(BitDepth::Eight), 8);
    assert_eq!(u32::from(BitDepth::Ten), 10);
    assert_eq!(u32::from(BitDepth::Twelve), 12);
    assert_eq!(BitDepth::try_from_bits(8), Ok(BitDepth::Eight));
    assert_eq!(BitDepth::try_from_bits(10), Ok(BitDepth::Ten));
    assert_eq!(BitDepth::try_from_bits(12), Ok(BitDepth::Twelve));
    assert_eq!(BitDepth::try_from_bits(9), Err(AvifError::InvalidArgument));
    assert_eq!(BitDepth::Eight.max_sample(), 255);
    assert_eq!(BitDepth::Ten.max_sample(), 1023);
    assert_eq!(BitDepth::Twelve.max_sample(), 4095);
}

#[test]
fn pixel_format_codes() {
    assert_eq!(PixelFormat::from(1u32), PixelFormat::Yuv444);
    assert_eq!(PixelFormat::from(2u32), PixelFormat::Yuv422);
    assert_eq!(PixelFormat::from(3u32), PixelFormat::Yuv420);
    assert_eq!(PixelFormat::from(4u32), PixelFormat::Yuv400);
    assert_eq!(PixelFormat::from(0u32), PixelFormat::NoFormat);
    assert_eq!(PixelFormat::from(77u32), PixelFormat::NoFormat);
    assert_eq!(PixelFormat::Yuv420.code(), 3);
    assert!(PixelFormat::Yuv444.has_chroma_planes());
    assert!(!PixelFormat::Yuv400.has_chroma_planes());
}

#[test]
fn rgb_format_codes() {
    assert_eq!(RgbFormat::from(0u32), RgbFormat::Rgb);
    assert_eq!(RgbFormat::from(1u32), RgbFormat::Rgba);
    assert_eq!(RgbFormat::from(2u32), RgbFormat::Argb);
    assert_eq!(RgbFormat::from(3u32), RgbFormat::Bgr);
    assert_eq!(RgbFormat::from(4u32), RgbFormat::Bgra);
    assert_eq!(RgbFormat::from(5u32), RgbFormat::Abgr);
    assert_eq!(RgbFormat::from(6u32), RgbFormat::Rgb565);
    assert_eq!(RgbFormat::from(7u32), RgbFormat::Gray);
    assert_eq!(RgbFormat::from(8u32), RgbFormat::GrayA);
    assert_eq!(RgbFormat::from(9u32), RgbFormat::AGray);
    assert_eq!(RgbFormat::from(1000u32), RgbFormat::Rgb);
    assert_eq!(RgbFormat::Bgra.code(), 4);
}

#[test]
fn rwdata_starts_empty() {
    let d = RwData::new();
    assert_eq!(d.as_slice().len(), 0);
    let d2 = RwData::default();
    assert_eq!(d2.as_slice(), &[] as &[u8]);
}
