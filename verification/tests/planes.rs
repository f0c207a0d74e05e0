//! Tests of the planar image model: allocation cycles, copies, stealing
//! and scaling.

use rustavif::{BitDepth, Image, PixelFormat, YuvRange};

fn expected_chroma(f: PixelFormat, n: u32) -> u32 {
    match f {
        PixelFormat::Yuv444 => n,
        PixelFormat::Yuv422 | PixelFormat::Yuv420 => (n + 1) / 2,
        _ => 0,
    }
}

#[test]
fn allocate_free_cycles_preserve_invariants() {
    let depths = [BitDepth::Eight, BitDepth::Ten, BitDepth::Twelve];
    let formats = [
        PixelFormat::Yuv444,
        PixelFormat::Yuv422,
        PixelFormat::Yuv420,
        PixelFormat::Yuv400,
    ];
    for &depth in &depths {
        for &format in &formats {
            let mut img = Image::new(17, 9, depth, format).unwrap();
            for _ in 0..3 {
                img.allocate_planes().unwrap();
                // A second allocate is an idempotent no-op.
                img.allocate_planes().unwrap();
                let planes = img.planes.as_ref().unwrap();
                assert_eq!(planes.y.len(), 17 * 9);
                let cw = expected_chroma(format, 17);
                let ch = match format {
                    PixelFormat::Yuv420 => 5,
                    PixelFormat::Yuv400 | PixelFormat::NoFormat => 0,
                    _ => 9,
                };
                assert_eq!(planes.u.len(), (cw * ch) as usize);
                assert_eq!(planes.v.len(), (cw * ch) as usize);
                assert_eq!(planes.a.as_ref().unwrap().len(), 17 * 9);
                img.free_planes();
                assert!(img.planes.is_none());
                // Free is idempotent too.
                img.free_planes();
                assert!(img.planes.is_none());
                // Dimension invariants never move.
                assert_eq!(img.width(), 17);
                assert_eq!(img.height(), 9);
                assert_eq!(img.depth(), depth);
                assert_eq!(img.yuv_format(), format);
                assert_eq!(img.yuv_range(), YuvRange::Full);
            }
        }
    }
}

#[test]
fn new_rejects_zero_dimensions() {
    assert!(Image::new(0, 4, BitDepth::Eight, PixelFormat::Yuv420).is_err());
    assert!(Image::new(4, 0, BitDepth::Eight, PixelFormat::Yuv420).is_err());
    assert!(Image::new(4, 4, BitDepth::Eight, PixelFormat::Yuv420).is_ok());
}

#[test]
fn allocate_without_format_is_invalid() {
    let mut img = Image::new(4, 4, BitDepth::Eight, PixelFormat::NoFormat).unwrap();
    assert!(img.allocate_planes().is_err());
    assert!(img.planes.is_none());
}

#[test]
fn copy_is_deep() {
    let mut img = Image::new(4, 4, BitDepth::Eight, PixelFormat::Yuv444).unwrap();
    img.allocate_planes().unwrap();
    img.planes.as_mut().unwrap().y[0] = 200;
    let mut dup = img.copy().unwrap();
    assert_eq!(dup.width(), 4);
    assert_eq!(dup.planes.as_ref().unwrap().y[0], 200);
    dup.planes.as_mut().unwrap().y[0] = 7;
    assert_eq!(img.planes.as_ref().unwrap().y[0], 200);
}

#[test]
fn steal_planes_moves_ownership() {
    let mut src = Image::new(6, 6, BitDepth::Ten, PixelFormat::Yuv420).unwrap();
    src.allocate_planes().unwrap();
    src.planes.as_mut().unwrap().y[5] = 321;
    let mut dst = Image::new(6, 6, BitDepth::Ten, PixelFormat::Yuv420).unwrap();
    src.steal_planes(&mut dst);
    assert!(src.planes.is_none());
    assert_eq!(dst.planes.as_ref().unwrap().y[5], 321);
}

#[test]
fn scale_nearest_neighbor() {
    let mut img = Image::new(4, 2, BitDepth::Eight, PixelFormat::Yuv444).unwrap();
    img.allocate_planes().unwrap();
    {
        let y = &mut img.planes.as_mut().unwrap().y;
        for (i, s) in y.iter_mut().enumerate() {
            *s = i as u16;
        }
    }
    img.scale(2, 1).unwrap();
    assert_eq!(img.width(), 2);
    assert_eq!(img.height(), 1);
    let y = &img.planes.as_ref().unwrap().y;
    // Nearest-neighbor picks source samples at x*4/2 = 0 and 2, y 0.
    assert_eq!(y.as_slice(), &[0, 2]);
}

#[test]
fn scale_zero_target_is_invalid() {
    let mut img = Image::new(4, 4, BitDepth::Eight, PixelFormat::Yuv420).unwrap();
    assert!(img.scale(0, 2).is_err());
    assert_eq!(img.width(), 4);
}

#[test]
fn opacity_and_wide_samples() {
    let mut img = Image::new(3, 3, BitDepth::Eight, PixelFormat::Yuv400).unwrap();
    assert!(img.is_opaque());
    img.allocate_planes().unwrap();
    // Freshly allocated alpha is zero: transparent.
    assert!(!img.is_opaque());
    for s in img.planes.as_mut().unwrap().a.as_mut().unwrap().iter_mut() {
        *s = 255;
    }
    assert!(img.is_opaque());
    assert!(!img.uses_u16());
    let wide = Image::new(3, 3, BitDepth::Ten, PixelFormat::Yuv400).unwrap();
    assert!(wide.uses_u16());
}

#[test]
fn scale_past_allocation_cap_is_out_of_memory() {
    let mut img = Image::new(4, 4, BitDepth::Eight, PixelFormat::Yuv420).unwrap();
    img.allocate_planes().unwrap();
    assert!(matches!(
        img.scale(100_000, 100_000),
        Err(rustavif::AvifError::OutOfMemory)
    ));
    assert_eq!(img.width(), 4);
}
