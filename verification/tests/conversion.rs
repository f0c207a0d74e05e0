//! Tests of the color conversion engine.

use rustavif::convert::{rgb_to_yuv_into, yuv_to_rgb_into};
use rustavif::{AvifError, BitDepth, ChromaUpsampling, Image, PixelFormat, RgbFormat, RgbImage};

#[test]
fn short_buffer_fails_invalid_argument() {
    // 10 x 10 RGB at depth 8 needs 300 bytes; one byte short must fail,
    // and nothing is ever allocated for the planar side.
    let buf = vec![0u8; 299];
    let r = RgbImage::from_pixels(10, 10, BitDepth::Eight, RgbFormat::Rgb, buf);
    assert!(matches!(r, Err(AvifError::InvalidArgument)));
    let ok = RgbImage::from_pixels(10, 10, BitDepth::Eight, RgbFormat::Rgb, vec![0u8; 300]);
    assert!(ok.is_ok());
}

#[test]
fn identity_round_trip_is_exact() {
    // 4:4:4, full range, identity matrix: every sample comes back bit
    // for bit.
    let w = 8u32;
    let h = 8u32;
    let mut pixels = Vec::new();
    for i in 0..(w * h) {
        pixels.push((i * 3 % 256) as u8);
        pixels.push((i * 7 % 256) as u8);
        pixels.push((i * 11 % 256) as u8);
    }
    let original = pixels.clone();
    let rgb = RgbImage::from_pixels(w, h, BitDepth::Eight, RgbFormat::Rgb, pixels).unwrap();
    let mut img = Image::new(w, h, BitDepth::Eight, PixelFormat::Yuv444).unwrap();
    img.set_matrix_coefficients(0);
    rgb_to_yuv_into(&rgb, &mut img).unwrap();
    let back = RgbImage::from_yuv(&img, RgbFormat::Rgb, ChromaUpsampling::Automatic).unwrap();
    assert_eq!(back.pixels(), original.as_slice());
}

#[test]
fn bt601_round_trip_within_one_step() {
    // 4:4:4, depth 8, full range, the default (BT.601) matrix: a sweep
    // of RGB triples must come back within one quantization step.
    let mut samples: Vec<(u8, u8, u8)> = Vec::new();
    for r in (0..=255u32).step_by(17) {
        for g in (0..=255u32).step_by(17) {
            for b in (0..=255u32).step_by(17) {
                samples.push((r as u8, g as u8, b as u8));
            }
        }
    }
    // 16 x 16 x 16 = 4096 samples as a 64 x 64 image.
    let w = 64u32;
    let h = 64u32;
    let mut pixels = Vec::new();
    for &(r, g, b) in &samples {
        pixels.push(r);
        pixels.push(g);
        pixels.push(b);
    }
    let original = pixels.clone();
    let rgb = RgbImage::from_pixels(w, h, BitDepth::Eight, RgbFormat::Rgb, pixels).unwrap();
    let img = rgb.to_yuv_image(PixelFormat::Yuv444).unwrap();
    let back = RgbImage::from_yuv(&img, RgbFormat::Rgb, ChromaUpsampling::Automatic).unwrap();
    let out = back.pixels();
    for i in 0..original.len() {
        let a = original[i] as i32;
        let b = out[i] as i32;
        assert!(
            (a - b).abs() <= 1,
            "sample {} drifted: {} -> {}",
            i,
            a,
            b
        );
    }
}

#[test]
fn mid_gray_yuv420_converts_to_flat_gray_rgb() {
    // Scenario: an 8-bit 4:2:0 64 x 64 planar image filled with the
    // mid-gray YUV triple converts to RGB where every pixel is the
    // expected gray value.
    let mut img = Image::new(64, 64, BitDepth::Eight, PixelFormat::Yuv420).unwrap();
    img.allocate_planes().unwrap();
    {
        let planes = img.planes.as_mut().unwrap();
        for s in planes.y.iter_mut() {
            *s = 128;
        }
        for s in planes.u.iter_mut() {
            *s = 128;
        }
        for s in planes.v.iter_mut() {
            *s = 128;
        }
        for s in planes.a.as_mut().unwrap().iter_mut() {
            *s = 255;
        }
    }
    let rgb = RgbImage::from_yuv(&img, RgbFormat::Rgb, ChromaUpsampling::Automatic).unwrap();
    let out = rgb.pixels();
    assert_eq!(out.len(), 64 * 64 * 3);
    for (i, &v) in out.iter().enumerate() {
        assert!(
            (v as i32 - 128).abs() <= 1,
            "byte {} is {}, expected mid gray",
            i,
            v
        );
    }
}

#[test]
fn conversion_refusals() {
    let rgb = RgbImage::from_pixels(4, 4, BitDepth::Eight, RgbFormat::Rgb, vec![0u8; 48]).unwrap();
    // No YUV format selected.
    let mut none = Image::new(4, 4, BitDepth::Eight, PixelFormat::NoFormat).unwrap();
    assert!(matches!(
        rgb_to_yuv_into(&rgb, &mut none),
        Err(AvifError::NoYuvFormatSelected)
    ));
    // Dimension mismatch.
    let mut other = Image::new(5, 4, BitDepth::Eight, PixelFormat::Yuv444).unwrap();
    assert!(matches!(
        rgb_to_yuv_into(&rgb, &mut other),
        Err(AvifError::ReformatFailed)
    ));
    // Depth mismatch.
    let mut deep = Image::new(4, 4, BitDepth::Ten, PixelFormat::Yuv444).unwrap();
    assert!(matches!(
        rgb_to_yuv_into(&rgb, &mut deep),
        Err(AvifError::ReformatFailed)
    ));
    // Identity matrix demands 4:4:4.
    let mut sub = Image::new(4, 4, BitDepth::Eight, PixelFormat::Yuv420).unwrap();
    sub.set_matrix_coefficients(0);
    assert!(matches!(
        rgb_to_yuv_into(&rgb, &mut sub),
        Err(AvifError::ReformatFailed)
    ));
    // The packed 565 layout is not a conversion source: an unsupported
    // format combination.
    let packed =
        RgbImage::from_pixels(4, 4, BitDepth::Eight, RgbFormat::Rgb565, vec![0u8; 32]).unwrap();
    let mut tgt = Image::new(4, 4, BitDepth::Eight, PixelFormat::Yuv444).unwrap();
    assert!(matches!(
        rgb_to_yuv_into(&packed, &mut tgt),
        Err(AvifError::ReformatFailed)
    ));
    // Converting out of an image without planes reports missing content.
    let empty = Image::new(4, 4, BitDepth::Eight, PixelFormat::Yuv444).unwrap();
    let mut out = RgbImage::from_pixels(4, 4, BitDepth::Eight, RgbFormat::Rgb, vec![0u8; 48]).unwrap();
    assert!(matches!(
        yuv_to_rgb_into(&empty, &mut out),
        Err(AvifError::NoContent)
    ));
}

#[test]
fn packed_565_output() {
    // A flat color converts into the packed layout with the expected
    // bit arrangement.
    let mut img = Image::new(2, 2, BitDepth::Eight, PixelFormat::Yuv444).unwrap();
    img.set_matrix_coefficients(0);
    img.allocate_planes().unwrap();
    {
        let planes = img.planes.as_mut().unwrap();
        // Identity: Y carries green, U blue, V red.
        for s in planes.y.iter_mut() {
            *s = 0x40; // green 64
        }
        for s in planes.u.iter_mut() {
            *s = 0x80; // blue 128
        }
        for s in planes.v.iter_mut() {
            *s = 0xFF; // red 255
        }
    }
    let rgb = RgbImage::from_yuv(&img, RgbFormat::Rgb565, ChromaUpsampling::Automatic).unwrap();
    let out = rgb.pixels();
    assert_eq!(out.len(), 2 * 2 * 2);
    // r5 = 255 >> 3 = 31, g6 = 64 >> 2 = 16, b5 = 128 >> 3 = 16:
    // packed = 31 << 11 | 16 << 5 | 16 = 0xFA10, little endian.
    assert_eq!(&out[0..2], &[0x10, 0xFA]);
}

#[test]
fn premultiply_and_unpremultiply() {
    let pixels = vec![200u8, 100, 50, 128];
    let mut rgb = RgbImage::from_pixels(1, 1, BitDepth::Eight, RgbFormat::Rgba, pixels).unwrap();
    rgb.premultiply_alpha().unwrap();
    assert!(rgb.alpha_premultiplied);
    let p = rgb.pixels().to_vec();
    // round(c * 128 / 255) with half-up rounding.
    assert_eq!(p, vec![100, 50, 25, 128]);
    rgb.unpremultiply_alpha().unwrap();
    assert!(!rgb.alpha_premultiplied);
    let q = rgb.pixels().to_vec();
    // round(c * 255 / 128): quantization loses up to one step.
    assert_eq!(q, vec![199, 100, 50, 128]);
    // Layouts without alpha are rejected.
    let mut plain = RgbImage::from_pixels(1, 1, BitDepth::Eight, RgbFormat::Rgb, vec![0u8; 3]).unwrap();
    assert!(matches!(
        plain.premultiply_alpha(),
        Err(AvifError::InvalidArgument)
    ));
}

#[test]
fn grayscale_output_takes_luma() {
    let mut img = Image::new(3, 3, BitDepth::Eight, PixelFormat::Yuv400).unwrap();
    img.allocate_planes().unwrap();
    for s in img.planes.as_mut().unwrap().y.iter_mut() {
        *s = 77;
    }
    let rgb = RgbImage::from_yuv(&img, RgbFormat::Gray, ChromaUpsampling::Automatic).unwrap();
    assert_eq!(rgb.pixels(), &[77u8; 9]);
}

#[test]
fn float_buffers_are_not_converted() {
    let mut rgb =
        RgbImage::from_pixels(4, 4, BitDepth::Eight, RgbFormat::Rgb, vec![0u8; 48]).unwrap();
    rgb.set_is_float(true);
    let mut img = Image::new(4, 4, BitDepth::Eight, PixelFormat::Yuv444).unwrap();
    assert!(matches!(
        rgb_to_yuv_into(&rgb, &mut img),
        Err(AvifError::ReformatFailed)
    ));
    assert!(matches!(
        rgb.premultiply_alpha(),
        Err(AvifError::ReformatFailed)
    ));
}

#[test]
fn replace_pixels_swaps_buffers() {
    let mut rgb =
        RgbImage::from_pixels(2, 2, BitDepth::Eight, RgbFormat::Rgb, vec![7u8; 12]).unwrap();
    // Take the buffer, edit it, put it back.
    let mut buf = rgb.replace_pixels(vec![0u8; 12]).unwrap();
    assert_eq!(buf, vec![7u8; 12]);
    buf[0] = 99;
    let zeros = rgb.replace_pixels(buf).unwrap();
    assert_eq!(zeros, vec![0u8; 12]);
    assert_eq!(rgb.pixels()[0], 99);
    // An undersized replacement is refused and the image keeps its rows.
    assert!(matches!(
        rgb.replace_pixels(vec![0u8; 11]),
        Err(AvifError::InvalidArgument)
    ));
    assert_eq!(rgb.pixels()[0], 99);
}
