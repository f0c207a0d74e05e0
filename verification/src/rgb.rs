//! The interleaved RGB image model.
//!
//! An [`RgbImage`] is a rectangular buffer of interleaved RGB samples in
//! one of ten fixed channel layouts, together with the conversion options
//! used when moving between RGB and planar YUV. Samples are one byte per
//! channel at depth 8 and two little-endian bytes per channel at higher
//! depths; the packed 5-6-5 layout always uses two bytes per pixel.

use vstd::prelude::*;

use crate::error::AvifError;
use crate::image::BitDepth;

verus! {

/// RGB pixel channel layouts.
///
/// These layouts define the order and arrangement of color channels in
/// interleaved RGB pixel data.
#[derive(Debug, Clone, Copy, PartialEq, Eq, Structural)]
pub enum RgbFormat {
    /// 3-channel RGB (red, green, blue)
    Rgb,
    /// 4-channel RGBA (red, green, blue, alpha)
    Rgba,
    /// 4-channel ARGB (alpha, red, green, blue)
    Argb,
    /// 3-channel BGR (blue, green, red)
    Bgr,
    /// 4-channel BGRA (blue, green, red, alpha)
    Bgra,
    /// 4-channel ABGR (alpha, blue, green, red)
    Abgr,
    /// Packed 16-bit RGB 565 (5-bit red, 6-bit green, 5-bit blue)
    Rgb565,
    /// Single-channel grayscale
    Gray,
    /// 2-channel grayscale then alpha
    GrayA,
    /// 2-channel alpha then grayscale
    AGray,
}

/// The number of channels of a layout (565 counts its three packed
/// color components).
pub open spec fn channel_count_of(f: RgbFormat) -> nat {
    match f {
        RgbFormat::Rgb | RgbFormat::Bgr | RgbFormat::Rgb565 => 3,
        RgbFormat::Rgba | RgbFormat::Argb | RgbFormat::Bgra | RgbFormat::Abgr => 4,
        RgbFormat::Gray => 1,
        RgbFormat::GrayA | RgbFormat::AGray => 2,
    }
}

/// Whether the layout carries an alpha channel.
pub open spec fn has_alpha_of(f: RgbFormat) -> bool {
    match f {
        RgbFormat::Rgba | RgbFormat::Argb | RgbFormat::Bgra | RgbFormat::Abgr | RgbFormat::GrayA
            | RgbFormat::AGray => true,
        _ => false,
    }
}

/// Whether the layout is grayscale.
pub open spec fn is_gray_of(f: RgbFormat) -> bool {
    match f {
        RgbFormat::Gray | RgbFormat::GrayA | RgbFormat::AGray => true,
        _ => false,
    }
}

/// The number of bytes of one pixel in a layout at a depth: one byte per
/// channel at depth 8, two above, and always two for the packed 565
/// layout.
pub open spec fn bytes_per_pixel(f: RgbFormat, d: BitDepth) -> nat {
    if f is Rgb565 {
        2
    } else if d is Eight {
        channel_count_of(f)
    } else {
        2 * channel_count_of(f)
    }
}

/// The channel index holding red (the gray channel for grayscale
/// layouts; unspecified for the packed 565 layout).
pub open spec fn offset_r(f: RgbFormat) -> nat {
    match f {
        RgbFormat::Rgb | RgbFormat::Rgba => 0,
        RgbFormat::Argb => 1,
        RgbFormat::Bgr | RgbFormat::Bgra => 2,
        RgbFormat::Abgr => 3,
        RgbFormat::Gray | RgbFormat::GrayA => 0,
        RgbFormat::AGray => 1,
        RgbFormat::Rgb565 => 0,
    }
}

/// The channel index holding green (the gray channel for grayscale
/// layouts; unspecified for the packed 565 layout).
pub open spec fn offset_g(f: RgbFormat) -> nat {
    match f {
        RgbFormat::Rgb | RgbFormat::Rgba | RgbFormat::Bgr | RgbFormat::Bgra => 1,
        RgbFormat::Argb | RgbFormat::Abgr => 2,
        RgbFormat::Gray | RgbFormat::GrayA => 0,
        RgbFormat::AGray => 1,
        RgbFormat::Rgb565 => 0,
    }
}

/// The channel index holding blue (the gray channel for grayscale
/// layouts; unspecified for the packed 565 layout).
pub open spec fn offset_b(f: RgbFormat) -> nat {
    match f {
        RgbFormat::Rgb | RgbFormat::Rgba => 2,
        RgbFormat::Argb => 3,
        RgbFormat::Bgr | RgbFormat::Bgra => 0,
        RgbFormat::Abgr => 1,
        RgbFormat::Gray | RgbFormat::GrayA => 0,
        RgbFormat::AGray => 1,
        RgbFormat::Rgb565 => 0,
    }
}

/// The channel index holding alpha, for layouts that have one.
pub open spec fn offset_a(f: RgbFormat) -> nat {
    match f {
        RgbFormat::Rgba | RgbFormat::Bgra => 3,
        RgbFormat::Argb | RgbFormat::Abgr => 0,
        RgbFormat::GrayA => 1,
        RgbFormat::AGray => 0,
        _ => 0,
    }
}

/// The numeric code of each layout in the AVIF code space.
pub open spec fn rgb_format_code(f: RgbFormat) -> u32 {
    match f {
        RgbFormat::Rgb => 0,
        RgbFormat::Rgba => 1,
        RgbFormat::Argb => 2,
        RgbFormat::Bgr => 3,
        RgbFormat::Bgra => 4,
        RgbFormat::Abgr => 5,
        RgbFormat::Rgb565 => 6,
        RgbFormat::Gray => 7,
        RgbFormat::GrayA => 8,
        RgbFormat::AGray => 9,
    }
}

impl RgbFormat {
    /// The numeric code of this layout in the AVIF code space.
    pub fn code(self) -> (c: u32)
        ensures
            c == rgb_format_code(self),
    {
        match self {
            RgbFormat::Rgb => 0,
            RgbFormat::Rgba => 1,
            RgbFormat::Argb => 2,
            RgbFormat::Bgr => 3,
            RgbFormat::Bgra => 4,
            RgbFormat::Abgr => 5,
            RgbFormat::Rgb565 => 6,
            RgbFormat::Gray => 7,
            RgbFormat::GrayA => 8,
            RgbFormat::AGray => 9,
        }
    }
}

impl From<u32> for RgbFormat {
    /// The layout that has the given numeric code; unknown codes map to
    /// [`RgbFormat::Rgb`].
    fn from(code: u32) -> (f: RgbFormat)
        ensures
            f == rgb_format_of_code(code),
    {
        match code {
            0u32 => RgbFormat::Rgb,
            1u32 => RgbFormat::Rgba,
            2u32 => RgbFormat::Argb,
            3u32 => RgbFormat::Bgr,
            4u32 => RgbFormat::Bgra,
            5u32 => RgbFormat::Abgr,
            6u32 => RgbFormat::Rgb565,
            7u32 => RgbFormat::Gray,
            8u32 => RgbFormat::GrayA,
            9u32 => RgbFormat::AGray,
            _ => RgbFormat::Rgb,
        }
    }
}

/// The layout of each numeric code; unknown codes map to plain RGB.
pub open spec fn rgb_format_of_code(code: u32) -> RgbFormat {
    if code == 0 {
        RgbFormat::Rgb
    } else if code == 1 {
        RgbFormat::Rgba
    } else if code == 2 {
        RgbFormat::Argb
    } else if code == 3 {
        RgbFormat::Bgr
    } else if code == 4 {
        RgbFormat::Bgra
    } else if code == 5 {
        RgbFormat::Abgr
    } else if code == 6 {
        RgbFormat::Rgb565
    } else if code == 7 {
        RgbFormat::Gray
    } else if code == 8 {
        RgbFormat::GrayA
    } else if code == 9 {
        RgbFormat::AGray
    } else {
        RgbFormat::Rgb
    }
}

impl vstd::std_specs::convert::FromSpecImpl<u32> for RgbFormat {
    open spec fn obeys_from_spec() -> bool {
        true
    }

    open spec fn from_spec(code: u32) -> RgbFormat {
        rgb_format_of_code(code)
    }
}

/// Chroma upsampling methods for converting YUV to RGB.
///
/// When converting from subsampled YUV formats to RGB, chroma channels
/// need to be upsampled to match the luma resolution.
#[derive(Debug, Clone, Copy, PartialEq, Eq, Structural)]
pub enum ChromaUpsampling {
    /// Automatically choose the best method
    Automatic,
    /// Fastest upsampling (lower quality)
    Fastest,
    /// Best quality upsampling (slower)
    BestQuality,
    /// Nearest neighbor interpolation
    Nearest,
    /// Bilinear interpolation
    Bilinear,
}

/// Chroma downsampling methods for converting RGB to YUV.
///
/// When converting from RGB to subsampled YUV formats, chroma channels
/// need to be downsampled to reduce resolution.
#[derive(Debug, Clone, Copy, PartialEq, Eq, Structural)]
pub enum ChromaDownsampling {
    /// Automatically choose the best method
    Automatic,
    /// Fastest downsampling (lower quality)
    Fastest,
    /// Best quality downsampling (slower)
    BestQuality,
    /// Simple averaging
    Average,
    /// Sharp YUV downsampling; this engine has no edge-aware filter and
    /// uses the averaging box filter for this choice
    SharpYuv,
}

} // verus!

verus! {

/// An interleaved RGB image owning its pixel buffer.
///
/// The buffer is handed in at construction and holds rows of
/// `row_bytes` bytes, each row containing `width` pixels of
/// `bytes_per_pixel` bytes. Multi-byte samples are little-endian.
pub struct RgbImage {
    /// Image width in pixels.
    pub width: u32,
    /// Image height in pixels.
    pub height: u32,
    /// Bit depth of each channel sample.
    pub depth: BitDepth,
    /// Channel layout of the buffer.
    pub format: RgbFormat,
    /// Chroma upsampling method used when converting from YUV.
    pub chroma_upsampling: ChromaUpsampling,
    /// Chroma downsampling method used when converting to YUV.
    pub chroma_downsampling: ChromaDownsampling,
    /// Compatibility flag for choosing a conversion backend; this engine
    /// has a single code path, so the flag is recorded and nothing more.
    pub avoid_libyuv: bool,
    /// Whether to ignore the alpha channel during conversion.
    pub ignore_alpha: bool,
    /// Whether color samples are premultiplied by alpha.
    pub alpha_premultiplied: bool,
    /// Whether the buffer holds floating-point samples; such buffers are
    /// carried but not converted.
    pub is_float: bool,
    /// Thread-count hint for conversions, at most 1024. The engine is
    /// deterministic: its output never depends on this hint.
    pub max_threads: u32,
    /// Bytes per row of the buffer.
    pub row_bytes: u32,
    /// The pixel bytes, at least `row_bytes * height` of them.
    pub pixels: Vec<u8>,
}

impl RgbImage {
    /// Well-formedness: the row stride matches the layout and the buffer
    /// is large enough for all rows.
    pub open spec fn wf(self) -> bool {
        &&& self.row_bytes == self.width * bytes_per_pixel(self.format, self.depth)
        &&& self.pixels@.len() >= self.row_bytes * self.height
        &&& self.max_threads <= 1024
    }

    /// Creates an RGB image over the given pixel bytes.
    ///
    /// The buffer must hold at least `width * height` pixels of
    /// `bytes_per_pixel(format, depth)` bytes each, stored in tightly
    /// packed rows; otherwise the call fails with `InvalidArgument` (and
    /// the undersized buffer is released). Conversion options start as
    /// automatic; flags start cleared; the thread hint starts at 1.
    pub fn from_pixels(
        width: u32,
        height: u32,
        depth: BitDepth,
        format: RgbFormat,
        pixels: Vec<u8>,
    ) -> (r: Result<RgbImage, AvifError>)
        ensures
            width * bytes_per_pixel(format, depth) > u32::MAX || pixels@.len() < width
                * bytes_per_pixel(format, depth) * height ==> r == Result::<
                RgbImage,
                AvifError,
            >::Err(AvifError::InvalidArgument),
            width * bytes_per_pixel(format, depth) <= u32::MAX && pixels@.len() >= width
                * bytes_per_pixel(format, depth) * height ==> (r matches Result::Ok(img)
                && img.wf() && img.width == width && img.height == height && img.depth == depth
                && img.format == format && img.chroma_upsampling == ChromaUpsampling::Automatic
                && img.chroma_downsampling == ChromaDownsampling::Automatic && img.avoid_libyuv
                == false && img.ignore_alpha == false && img.alpha_premultiplied == false
                && img.is_float == false && img.max_threads == 1 && img.row_bytes == width
                * bytes_per_pixel(format, depth) && img.pixels@ == pixels@),
    {
        let bpp: u32 = bytes_per_pixel_exec(format, depth);
        proof {
            crate::image::lemma_mul_le(width as nat, bpp as nat, 0xFFFF_FFFF as nat, 8);
        }
        let row64: u64 = (width as u64) * (bpp as u64);
        if row64 > u32::MAX as u64 {
            return Err(AvifError::InvalidArgument);
        }
        proof {
            crate::image::lemma_mul_le(
                row64 as nat,
                height as nat,
                0xFFFF_FFFF as nat,
                0xFFFF_FFFF as nat,
            );
        }
        let need: u64 = row64 * (height as u64);
        if (pixels.len() as u64) < need {
            return Err(AvifError::InvalidArgument);
        }
        Ok(
            RgbImage {
                width,
                height,
                depth,
                format,
                chroma_upsampling: ChromaUpsampling::Automatic,
                chroma_downsampling: ChromaDownsampling::Automatic,
                avoid_libyuv: false,
                ignore_alpha: false,
                alpha_premultiplied: false,
                is_float: false,
                max_threads: 1,
                row_bytes: row64 as u32,
                pixels,
            },
        )
    }

    /// Returns the image width in pixels.
    pub fn width(&self) -> (w: u32)
        ensures
            w == self.width,
    {
        self.width
    }

    /// Returns the image height in pixels.
    pub fn height(&self) -> (h: u32)
        ensures
            h == self.height,
    {
        self.height
    }

    /// Returns the bit depth of the image.
    pub fn depth(&self) -> (d: BitDepth)
        ensures
            d == self.depth,
    {
        self.depth
    }

    /// Returns the RGB channel layout.
    pub fn format(&self) -> (f: RgbFormat)
        ensures
            f == self.format,
    {
        self.format
    }

    /// Sets the RGB channel layout.
    ///
    /// Only a layout with the same pixel size may replace the current
    /// one, so the buffer keeps its meaning as a channel swizzle.
    pub fn set_format(&mut self, format: RgbFormat)
        requires
            bytes_per_pixel(format, old(self).depth) == bytes_per_pixel(
                old(self).format,
                old(self).depth,
            ),
        ensures
            *final(self) == (RgbImage { format, ..*old(self) }),
    {
        self.format = format;
    }

    /// Sets the chroma upsampling method.
    pub fn set_chroma_upsampling(&mut self, upsampling: ChromaUpsampling)
        ensures
            *final(self) == (RgbImage { chroma_upsampling: upsampling, ..*old(self) }),
    {
        self.chroma_upsampling = upsampling;
    }

    /// Sets the chroma downsampling method.
    pub fn set_chroma_downsampling(&mut self, downsampling: ChromaDownsampling)
        ensures
            *final(self) == (RgbImage { chroma_downsampling: downsampling, ..*old(self) }),
    {
        self.chroma_downsampling = downsampling;
    }

    /// Sets the backend-compatibility flag; conversion output never
    /// depends on it.
    pub fn set_avoid_libyuv(&mut self, avoid: bool)
        ensures
            *final(self) == (RgbImage { avoid_libyuv: avoid, ..*old(self) }),
    {
        self.avoid_libyuv = avoid;
    }

    /// Sets whether to ignore the alpha channel.
    pub fn set_ignore_alpha(&mut self, ignore: bool)
        ensures
            *final(self) == (RgbImage { ignore_alpha: ignore, ..*old(self) }),
    {
        self.ignore_alpha = ignore;
    }

    /// Sets whether alpha is premultiplied.
    pub fn set_alpha_premultiplied(&mut self, premultiplied: bool)
        ensures
            *final(self) == (RgbImage { alpha_premultiplied: premultiplied, ..*old(self) }),
    {
        self.alpha_premultiplied = premultiplied;
    }

    /// Sets whether the pixel data is floating point.
    pub fn set_is_float(&mut self, is_float: bool)
        ensures
            *final(self) == (RgbImage { is_float, ..*old(self) }),
    {
        self.is_float = is_float;
    }

    /// Sets the thread-count hint for conversion, clamped to 1024.
    pub fn set_max_threads(&mut self, threads: u32)
        ensures
            *final(self) == (RgbImage {
                max_threads: if threads <= 1024 {
                    threads
                } else {
                    1024
                },
                ..*old(self)
            }),
    {
        self.max_threads = if threads <= 1024 {
            threads
        } else {
            1024
        };
    }

    /// Returns the size of a single pixel in bytes.
    pub fn pixel_size(&self) -> (s: u32)
        ensures
            s == bytes_per_pixel(self.format, self.depth),
    {
        bytes_per_pixel_exec(self.format, self.depth)
    }

    /// Returns the number of channels per pixel.
    pub fn channel_count(&self) -> (c: u32)
        ensures
            c == channel_count_of(self.format),
    {
        match self.format {
            RgbFormat::Rgb | RgbFormat::Bgr | RgbFormat::Rgb565 => 3,
            RgbFormat::Rgba | RgbFormat::Argb | RgbFormat::Bgra | RgbFormat::Abgr => 4,
            RgbFormat::Gray => 1,
            RgbFormat::GrayA | RgbFormat::AGray => 2,
        }
    }

    /// Returns true if the layout includes an alpha channel.
    pub fn has_alpha(&self) -> (b: bool)
        ensures
            b == has_alpha_of(self.format),
    {
        match self.format {
            RgbFormat::Rgba | RgbFormat::Argb | RgbFormat::Bgra | RgbFormat::Abgr
                | RgbFormat::GrayA | RgbFormat::AGray => true,
            _ => false,
        }
    }

    /// Returns true if the layout is grayscale.
    pub fn is_gray(&self) -> (b: bool)
        ensures
            b == is_gray_of(self.format),
    {
        match self.format {
            RgbFormat::Gray | RgbFormat::GrayA | RgbFormat::AGray => true,
            _ => false,
        }
    }

    /// Returns the pixel data as a byte slice.
    pub fn pixels(&self) -> (s: &[u8])
        ensures
            s@ == self.pixels@,
    {
        self.pixels.as_slice()
    }

    /// Swaps in a replacement pixel buffer and hands the old one back:
    /// the in-place mutation path (take the buffer, edit it, put it
    /// back). The replacement must be large enough for the image's rows,
    /// else the call fails with `InvalidArgument`, the image keeps its
    /// buffer, and the undersized replacement is released.
    pub fn replace_pixels(&mut self, pixels: Vec<u8>) -> (r: Result<Vec<u8>, AvifError>)
        requires
            old(self).wf(),
        ensures
            final(self).wf(),
            pixels@.len() >= old(self).row_bytes * old(self).height ==> (r matches Result::Ok(
                previous,
            ) && previous@ == old(self).pixels@ && final(self).pixels@ == pixels@ && *final(self)
                == (RgbImage { pixels: final(self).pixels, ..*old(self) })),
            pixels@.len() < old(self).row_bytes * old(self).height ==> r == Result::<
                Vec<u8>,
                AvifError,
            >::Err(AvifError::InvalidArgument) && *final(self) == *old(self),
    {
        proof {
            crate::image::lemma_mul_le(
                self.row_bytes as nat,
                self.height as nat,
                0xFFFF_FFFF as nat,
                0xFFFF_FFFF as nat,
            );
        }
        let need: u64 = (self.row_bytes as u64) * (self.height as u64);
        if (pixels.len() as u64) < need {
            return Err(AvifError::InvalidArgument);
        }
        let mut incoming = pixels;
        core::mem::swap(&mut self.pixels, &mut incoming);
        Ok(incoming)
    }

    /// Consumes the image and hands the pixel buffer back to the caller.
    pub fn into_pixels(self) -> (p: Vec<u8>)
        ensures
            p@ == self.pixels@,
    {
        self.pixels
    }

    /// Returns the number of bytes per row.
    pub fn row_bytes(&self) -> (r: u32)
        ensures
            r == self.row_bytes,
    {
        self.row_bytes
    }
}

/// Computes the pixel size in bytes of a layout at a depth.
fn bytes_per_pixel_exec(f: RgbFormat, d: BitDepth) -> (r: u32)
    ensures
        r == bytes_per_pixel(f, d),
{
    match f {
        RgbFormat::Rgb565 => 2,
        _ => {
            let channels: u32 = match f {
                RgbFormat::Rgb | RgbFormat::Bgr | RgbFormat::Rgb565 => 3,
                RgbFormat::Rgba | RgbFormat::Argb | RgbFormat::Bgra | RgbFormat::Abgr => 4,
                RgbFormat::Gray => 1,
                RgbFormat::GrayA | RgbFormat::AGray => 2,
            };
            match d {
                BitDepth::Eight => channels,
                _ => 2 * channels,
            }
        },
    }
}

} // verus!
