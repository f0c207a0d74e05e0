//! Tests of the encoding session protocol and its output stream.

use rustavif::encoder::{AddImageFlags, EncoderCodecChoice};
use rustavif::{AvifError, BitDepth, Encoder, Image, PixelFormat};

fn gray_image(w: u32, h: u32, value: u16) -> Image {
    let mut img = Image::new(w, h, BitDepth::Eight, PixelFormat::Yuv420).unwrap();
    img.allocate_planes().unwrap();
    let planes = img.planes.as_mut().unwrap();
    for s in planes.y.iter_mut() {
        *s = value;
    }
    for s in planes.u.iter_mut() {
        *s = 128;
    }
    for s in planes.v.iter_mut() {
        *s = 128;
    }
    // Drop the alpha plane: these tests feed opaque color-only frames.
    planes.a = None;
    img
}

fn u32_at(bytes: &[u8], off: usize) -> u32 {
    u32::from_le_bytes([bytes[off], bytes[off + 1], bytes[off + 2], bytes[off + 3]])
}

fn u64_at(bytes: &[u8], off: usize) -> u64 {
    let mut b = [0u8; 8];
    b.copy_from_slice(&bytes[off..off + 8]);
    u64::from_le_bytes(b)
}

fn fast_encoder() -> Encoder {
    let mut enc = Encoder::new().unwrap();
    enc.set_speed(10);
    enc
}

#[test]
fn grid_2x2_succeeds_and_3_cells_fail() {
    let a = gray_image(64, 64, 100);
    let b = gray_image(64, 64, 120);
    let c = gray_image(64, 64, 140);
    let d = gray_image(64, 64, 160);
    let mut enc = fast_encoder();
    let cells: Vec<&Image> = vec![&a, &b, &c, &d];
    enc.add_image_grid(2, 2, &cells, AddImageFlags::none())
        .unwrap();
    let out = enc.finish().unwrap();
    let bytes = out.as_slice();
    assert_eq!(&bytes[0..4], b"AV01");
    // Composed geometry: 128 x 128, one frame, a 2 x 2 grid.
    assert_eq!(u32_at(bytes, 7), 128);
    assert_eq!(u32_at(bytes, 11), 128);
    assert_eq!(u32_at(bytes, 35), 1);

    let mut enc3 = fast_encoder();
    let three: Vec<&Image> = vec![&a, &b, &c];
    assert!(matches!(
        enc3.add_image_grid(2, 2, &three, AddImageFlags::none()),
        Err(AvifError::InvalidImageGrid)
    ));
}

#[test]
fn grid_rejects_mismatched_cells() {
    let a = gray_image(64, 64, 100);
    let small = gray_image(32, 64, 100);
    let mut enc = fast_encoder();
    // The first column may not be narrower than the first cell says;
    // a short middle cell breaks the uniform-size rule.
    let cells: Vec<&Image> = vec![&small, &a, &a, &a];
    assert!(matches!(
        enc.add_image_grid(2, 2, &cells, AddImageFlags::none()),
        Err(AvifError::InvalidImageGrid)
    ));
}

#[test]
fn finish_without_images_is_rejected_and_twice_too() {
    let mut enc = fast_encoder();
    assert!(matches!(enc.finish(), Err(AvifError::NoImagesRemaining)));

    let img = gray_image(16, 16, 90);
    let mut enc2 = fast_encoder();
    enc2.add_image(&img, 1, AddImageFlags::none()).unwrap();
    let first = enc2.finish().unwrap();
    assert!(first.as_slice().len() > 39);
    // The session is terminal: a second finish is rejected.
    assert!(matches!(enc2.finish(), Err(AvifError::NoImagesRemaining)));
}

#[test]
fn repetition_count_storage_and_marker() {
    // A count of 5 stores 4 extra repeats.
    let mut enc = fast_encoder();
    enc.set_repetition_count(5);
    assert_eq!(enc.repetition_stored, 4);
    let img = gray_image(16, 16, 60);
    enc.add_image(&img, 1, AddImageFlags::none()).unwrap();
    let out = enc.finish().unwrap();
    assert_eq!(u64_at(out.as_slice(), 23), 4);

    // A count of 0 stores the infinite-loop marker.
    let mut inf = fast_encoder();
    inf.set_repetition_count(0);
    assert_eq!(inf.repetition_stored, -1);
    let img2 = gray_image(16, 16, 60);
    inf.add_image(&img2, 1, AddImageFlags::none()).unwrap();
    let out2 = inf.finish().unwrap();
    assert_eq!(u64_at(out2.as_slice(), 23), u64::MAX);
}

#[test]
fn animation_records_durations_and_count() {
    let img = gray_image(16, 16, 50);
    let img2 = gray_image(16, 16, 200);
    let mut enc = fast_encoder();
    enc.set_timescale(1000);
    enc.add_image(&img, 33, AddImageFlags::force_keyframe())
        .unwrap();
    enc.add_image(&img2, 66, AddImageFlags::none()).unwrap();
    let out = enc.finish().unwrap();
    let bytes = out.as_slice();
    assert_eq!(u64_at(bytes, 15), 1000); // timescale
    assert_eq!(u32_at(bytes, 35), 2); // frame count
    // First frame header starts right after the stream header.
    assert_eq!(u64_at(bytes, 39), 33); // duration
    assert_eq!(u32_at(bytes, 47), 1); // force-keyframe flag bits
}

#[test]
fn write_encodes_a_single_image() {
    let img = gray_image(16, 16, 128);
    let mut enc = fast_encoder();
    let out = enc.write(&img).unwrap();
    let bytes = out.as_slice();
    assert_eq!(&bytes[0..4], b"AV01");
    assert_eq!(u32_at(bytes, 35), 1);
    // The one frame carries the single flag.
    assert_eq!(u32_at(bytes, 47) & 2, 2);
    // And the session is spent.
    let img2 = gray_image(16, 16, 10);
    assert!(enc.add_image(&img2, 1, AddImageFlags::none()).is_err());
}

#[test]
fn session_protocol_violations() {
    let img = gray_image(16, 16, 128);

    // Adding after a single-flagged image is rejected.
    let mut enc = fast_encoder();
    enc.add_image(&img, 1, AddImageFlags::single()).unwrap();
    assert!(matches!(
        enc.add_image(&img, 1, AddImageFlags::none()),
        Err(AvifError::InvalidArgument)
    ));

    // A second frame must match the first frame's geometry.
    let mut enc2 = fast_encoder();
    enc2.add_image(&img, 1, AddImageFlags::none()).unwrap();
    let other = gray_image(32, 16, 128);
    assert!(matches!(
        enc2.add_image(&other, 1, AddImageFlags::none()),
        Err(AvifError::IncompatibleImage)
    ));

    // Unlinked backends are reported, not crashed on.
    let mut enc3 = fast_encoder();
    enc3.set_codec_choice(EncoderCodecChoice::Svt);
    assert!(matches!(
        enc3.add_image(&img, 1, AddImageFlags::none()),
        Err(AvifError::NoCodecAvailable)
    ));

    // An image without allocated planes has no content to encode.
    let empty = Image::new(16, 16, BitDepth::Eight, PixelFormat::Yuv420).unwrap();
    let mut enc4 = fast_encoder();
    assert!(matches!(
        enc4.add_image(&empty, 1, AddImageFlags::none()),
        Err(AvifError::NoContent)
    ));

    // A grid may only come first.
    let mut enc5 = fast_encoder();
    enc5.add_image(&img, 1, AddImageFlags::none()).unwrap();
    let cells: Vec<&Image> = vec![&img];
    assert!(matches!(
        enc5.add_image_grid(1, 1, &cells, AddImageFlags::none()),
        Err(AvifError::InvalidArgument)
    ));
}

#[test]
fn configuration_setters_clamp() {
    let mut enc = Encoder::new().unwrap();
    enc.set_speed(99);
    assert_eq!(enc.speed, 10);
    enc.set_max_threads(5000);
    assert_eq!(enc.max_threads, 1024);
    enc.set_quality(255);
    assert_eq!(enc.quality, 100);
    enc.set_quality_alpha(101);
    assert_eq!(enc.quality_alpha, 100);
    enc.set_quantizer_range(200, 201);
    assert_eq!((enc.min_quantizer, enc.max_quantizer), (100, 100));
    enc.set_quantizer_alpha_range(7, 200);
    assert_eq!((enc.min_quantizer_alpha, enc.max_quantizer_alpha), (7, 100));
    enc.set_tiling(9, 3);
    assert_eq!((enc.tile_rows_log2, enc.tile_cols_log2), (6, 3));
    enc.set_auto_tiling(true);
    assert!(enc.auto_tiling);
    enc.set_keyframe_interval(30);
    assert_eq!(enc.keyframe_interval, 30);
    assert_eq!(enc.get_gain_map_size_bytes(), 0);
}

#[test]
fn codec_options_reject_embedded_nul() {
    let mut enc = Encoder::new().unwrap();
    enc.set_codec_specific_option("tune", "psnr").unwrap();
    assert_eq!(enc.codec_options.len(), 1);
    assert!(matches!(
        enc.set_codec_specific_option("bad\0key", "v"),
        Err(AvifError::InvalidArgument)
    ));
    assert!(matches!(
        enc.set_codec_specific_option("k", "bad\0value"),
        Err(AvifError::InvalidArgument)
    ));
    assert_eq!(enc.codec_options.len(), 1);
}

#[test]
fn add_image_flags_combine() {
    let f = AddImageFlags::force_keyframe().or(AddImageFlags::single());
    assert_eq!(f.bits(), 3);
    assert_eq!(AddImageFlags::default().bits(), 0);
}

#[test]
fn alpha_plane_payload_is_recorded() {
    // A frame with an alpha plane carries a second payload per cell:
    // the cell's alpha length field is nonzero.
    let mut img = gray_image(16, 16, 128);
    let n = 16 * 16;
    img.planes.as_mut().unwrap().a = Some(vec![255u16; n]);
    let mut enc = fast_encoder();
    enc.add_image(&img, 1, AddImageFlags::none()).unwrap();
    let out = enc.finish().unwrap();
    let bytes = out.as_slice();
    // Walk to the first cell: header 39, frame metadata 16.
    let color_len = u64_at(bytes, 55) as usize;
    assert!(color_len > 0);
    let alpha_len = u64_at(bytes, 63 + color_len) as usize;
    assert!(alpha_len > 0);
    assert_eq!(bytes.len(), 63 + color_len + 8 + alpha_len);
}
