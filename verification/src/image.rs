//! The planar YUV image model.
//!
//! A [`Image`] owns up to four sample planes (Y, U, V and optionally
//! alpha) together with the color metadata that describes how the samples
//! are to be interpreted. Chroma plane dimensions derive deterministically
//! from the luma dimensions and the chroma subsampling format.

use vstd::prelude::*;

use crate::error::AvifError;
use vstd::arithmetic::div_mod::{
    lemma_div_pos_is_pos,
    lemma_mod_division_less_than_divisor,
    lemma_multiply_divide_lt,
};
use vstd::arithmetic::mul::{lemma_mul_inequality, lemma_mul_strict_inequality};

verus! {

/// Supported bit depths for AVIF images.
///
/// Different bit depths allow for varying levels of color precision:
/// - 8-bit: standard precision, widely supported
/// - 10-bit: higher precision, better for HDR content
/// - 12-bit: maximum precision, professional use
#[derive(Debug, Clone, Copy, PartialEq, Eq, Structural)]
pub enum BitDepth {
    /// 8-bit depth (standard precision)
    Eight,
    /// 10-bit depth (higher precision)
    Ten,
    /// 12-bit depth (maximum precision)
    Twelve,
}

/// The number of bits per sample of a depth.
pub open spec fn depth_bits(d: BitDepth) -> nat {
    match d {
        BitDepth::Eight => 8,
        BitDepth::Ten => 10,
        BitDepth::Twelve => 12,
    }
}

/// The largest representable sample value of a depth.
pub open spec fn depth_max(d: BitDepth) -> nat {
    match d {
        BitDepth::Eight => 255,
        BitDepth::Ten => 1023,
        BitDepth::Twelve => 4095,
    }
}

impl BitDepth {
    /// The number of bits per sample.
    pub fn bits(self) -> (b: u32)
        ensures
            b == depth_bits(self),
    {
        match self {
            BitDepth::Eight => 8,
            BitDepth::Ten => 10,
            BitDepth::Twelve => 12,
        }
    }

    /// The largest representable sample value at this depth.
    pub fn max_sample(self) -> (m: u16)
        ensures
            m == depth_max(self),
    {
        match self {
            BitDepth::Eight => 255,
            BitDepth::Ten => 1023,
            BitDepth::Twelve => 4095,
        }
    }

    /// Selects the depth that has the given number of bits per sample.
    ///
    /// Exactly the values 8, 10 and 12 are accepted; anything else is an
    /// invalid argument.
    pub fn try_from_bits(value: u32) -> (r: Result<BitDepth, AvifError>)
        ensures
            value == 8 ==> r == Result::<BitDepth, AvifError>::Ok(BitDepth::Eight),
            value == 10 ==> r == Result::<BitDepth, AvifError>::Ok(BitDepth::Ten),
            value == 12 ==> r == Result::<BitDepth, AvifError>::Ok(BitDepth::Twelve),
            value != 8 && value != 10 && value != 12 ==> r == Result::<
                BitDepth,
                AvifError,
            >::Err(AvifError::InvalidArgument),
    {
        match value {
            8u32 => Ok(BitDepth::Eight),
            10u32 => Ok(BitDepth::Ten),
            12u32 => Ok(BitDepth::Twelve),
            _ => Err(AvifError::InvalidArgument),
        }
    }
}

impl From<BitDepth> for u32 {
    /// The number of bits per sample of the depth.
    fn from(depth: BitDepth) -> (b: u32)
        ensures
            b == depth_bits(depth),
    {
        depth.bits()
    }
}

impl vstd::std_specs::convert::FromSpecImpl<BitDepth> for u32 {
    open spec fn obeys_from_spec() -> bool {
        true
    }

    open spec fn from_spec(depth: BitDepth) -> u32 {
        depth_bits(depth) as u32
    }
}

/// YUV pixel format (chroma subsampling) for AVIF images.
///
/// - 4:4:4 keeps full chroma resolution,
/// - 4:2:2 halves the chroma width,
/// - 4:2:0 halves the chroma width and height (most common),
/// - 4:0:0 is grayscale: no chroma planes at all.
#[derive(Debug, Clone, Copy, PartialEq, Eq, Structural)]
pub enum PixelFormat {
    /// No format specified
    NoFormat,
    /// Full chroma resolution (4:4:4)
    Yuv444,
    /// Half chroma width (4:2:2)
    Yuv422,
    /// Half chroma width and height (4:2:0) - most common
    Yuv420,
    /// Grayscale (4:0:0)
    Yuv400,
}

/// Whether the format halves the chroma width.
pub open spec fn subsampled_x(f: PixelFormat) -> bool {
    f is Yuv422 || f is Yuv420
}

/// Whether the format halves the chroma height.
pub open spec fn subsampled_y(f: PixelFormat) -> bool {
    f is Yuv420
}

/// Whether the format carries chroma planes at all.
pub open spec fn has_chroma(f: PixelFormat) -> bool {
    f is Yuv444 || f is Yuv422 || f is Yuv420
}

/// The chroma plane width derived from the luma width (halving rounds up).
pub open spec fn chroma_width(f: PixelFormat, w: nat) -> nat {
    if subsampled_x(f) {
        (w + 1) / 2
    } else {
        w
    }
}

/// The chroma plane height derived from the luma height (halving rounds up).
pub open spec fn chroma_height(f: PixelFormat, h: nat) -> nat {
    if subsampled_y(f) {
        (h + 1) / 2
    } else {
        h
    }
}

/// The numeric code of each pixel format in the AVIF code space.
pub open spec fn format_code(f: PixelFormat) -> u32 {
    match f {
        PixelFormat::NoFormat => 0,
        PixelFormat::Yuv444 => 1,
        PixelFormat::Yuv422 => 2,
        PixelFormat::Yuv420 => 3,
        PixelFormat::Yuv400 => 4,
    }
}

impl PixelFormat {
    /// The numeric code of this format in the AVIF code space.
    pub fn code(self) -> (c: u32)
        ensures
            c == format_code(self),
    {
        match self {
            PixelFormat::NoFormat => 0,
            PixelFormat::Yuv444 => 1,
            PixelFormat::Yuv422 => 2,
            PixelFormat::Yuv420 => 3,
            PixelFormat::Yuv400 => 4,
        }
    }

    /// Whether this format carries chroma planes.
    pub fn has_chroma_planes(self) -> (b: bool)
        ensures
            b == has_chroma(self),
    {
        match self {
            PixelFormat::Yuv444 | PixelFormat::Yuv422 | PixelFormat::Yuv420 => true,
            _ => false,
        }
    }
}

impl From<u32> for PixelFormat {
    /// The pixel format that has the given numeric code; unknown codes map
    /// to [`PixelFormat::NoFormat`].
    fn from(code: u32) -> (f: PixelFormat)
        ensures
            code == 1 ==> f == PixelFormat::Yuv444,
            code == 2 ==> f == PixelFormat::Yuv422,
            code == 3 ==> f == PixelFormat::Yuv420,
            code == 4 ==> f == PixelFormat::Yuv400,
            code == 0 || code > 4 ==> f == PixelFormat::NoFormat,
    {
        match code {
            1u32 => PixelFormat::Yuv444,
            2u32 => PixelFormat::Yuv422,
            3u32 => PixelFormat::Yuv420,
            4u32 => PixelFormat::Yuv400,
            _ => PixelFormat::NoFormat,
        }
    }
}

impl vstd::std_specs::convert::FromSpecImpl<u32> for PixelFormat {
    open spec fn obeys_from_spec() -> bool {
        true
    }

    open spec fn from_spec(code: u32) -> PixelFormat {
        if code == 1 {
            PixelFormat::Yuv444
        } else if code == 2 {
            PixelFormat::Yuv422
        } else if code == 3 {
            PixelFormat::Yuv420
        } else if code == 4 {
            PixelFormat::Yuv400
        } else {
            PixelFormat::NoFormat
        }
    }
}

/// The YUV sample range.
///
/// Full range uses the whole `[0, 2^depth - 1]` interval; limited range
/// keeps the standard head- and footroom offsets of video signals.
#[derive(Debug, Clone, Copy, PartialEq, Eq, Structural)]
pub enum YuvRange {
    /// Limited ("video") range: luma in `[16, 235]` and chroma in
    /// `[16, 240]` at depth 8, scaled up at higher depths.
    Limited,
    /// Full ("PC") range: the entire representable interval.
    Full,
}

} // verus!

verus! {

/// The largest number of samples a single plane may hold; allocating more
/// is reported as an out-of-memory condition.
pub const MAX_PLANE_SAMPLES: u64 = 0x1000_0000;

/// The exclusively-owned sample planes of a planar image.
///
/// Samples are stored one `u16` per sample whatever the bit depth; a
/// well-formed image keeps every sample within its depth's range.
pub struct Planes {
    /// Luma samples, row-major, `width * height` entries.
    pub y: Vec<u16>,
    /// First chroma plane, row-major; empty when the format has no chroma.
    pub u: Vec<u16>,
    /// Second chroma plane, row-major; empty when the format has no chroma.
    pub v: Vec<u16>,
    /// Alpha samples at luma resolution, if the image carries alpha.
    pub a: Option<Vec<u16>>,
}

/// Every sample of the sequence fits the depth.
pub open spec fn samples_ok(s: Seq<u16>, d: BitDepth) -> bool {
    forall|i: int| 0 <= i < s.len() ==> s[i] <= depth_max(d)
}

/// A planar YUV image with color metadata.
///
/// The image owns its plane buffers exclusively; they exist between
/// [`Image::allocate_planes`] and [`Image::free_planes`] (or a steal), and
/// their dimensions derive from the luma dimensions and the subsampling
/// format.
pub struct Image {
    /// Image width in pixels; positive in a well-formed image.
    pub width: u32,
    /// Image height in pixels; positive in a well-formed image.
    pub height: u32,
    /// Bit depth of every plane.
    pub depth: BitDepth,
    /// Chroma subsampling format of the YUV planes.
    pub yuv_format: PixelFormat,
    /// Sample range of the YUV planes.
    pub yuv_range: YuvRange,
    /// Color primaries code (CICP).
    pub color_primaries: u16,
    /// Transfer characteristics code (CICP).
    pub transfer_characteristics: u16,
    /// Matrix coefficients code (CICP); selects the RGB<->YUV transform.
    pub matrix_coefficients: u16,
    /// Whether color samples are premultiplied by alpha.
    pub alpha_premultiplied: bool,
    /// The owned plane buffers, present only while allocated.
    pub planes: Option<Planes>,
}

/// The two images agree on every metadata field (everything but the
/// plane buffers).
pub open spec fn same_meta(a: Image, b: Image) -> bool {
    &&& a.width == b.width
    &&& a.height == b.height
    &&& a.depth == b.depth
    &&& a.yuv_format == b.yuv_format
    &&& a.yuv_range == b.yuv_range
    &&& a.color_primaries == b.color_primaries
    &&& a.transfer_characteristics == b.transfer_characteristics
    &&& a.matrix_coefficients == b.matrix_coefficients
    &&& a.alpha_premultiplied == b.alpha_premultiplied
}

/// The two plane sets are identical: both absent, or both present with
/// equal samples in every plane.
pub open spec fn planes_eq(a: Option<Planes>, b: Option<Planes>) -> bool {
    match (a, b) {
        (Option::Some(p), Option::Some(q)) => {
            &&& p.y@ == q.y@
            &&& p.u@ == q.u@
            &&& p.v@ == q.v@
            &&& match (p.a, q.a) {
                (Option::Some(x), Option::Some(y)) => x@ == y@,
                (Option::None, Option::None) => true,
                _ => false,
            }
        },
        (Option::None, Option::None) => true,
        _ => false,
    }
}

/// The two images hold identical plane buffers (both planeless, or both
/// allocated with equal samples).
pub open spec fn same_planes(a: Image, b: Image) -> bool {
    planes_eq(a.planes, b.planes)
}

impl Image {
    /// The number of luma (and alpha) samples.
    pub open spec fn luma_count(self) -> nat {
        (self.width * self.height) as nat
    }

    /// The chroma plane width of this image (zero without chroma).
    pub open spec fn chroma_w(self) -> nat {
        if has_chroma(self.yuv_format) {
            chroma_width(self.yuv_format, self.width as nat)
        } else {
            0
        }
    }

    /// The chroma plane height of this image (zero without chroma).
    pub open spec fn chroma_h(self) -> nat {
        if has_chroma(self.yuv_format) {
            chroma_height(self.yuv_format, self.height as nat)
        } else {
            0
        }
    }

    /// The number of samples of each chroma plane.
    pub open spec fn chroma_count(self) -> nat {
        self.chroma_w() * self.chroma_h()
    }

    /// Well-formedness: positive dimensions, and plane buffers (when
    /// present) of exactly the derived sizes with all samples within the
    /// depth's range.
    pub open spec fn wf(self) -> bool {
        &&& 0 < self.width
        &&& 0 < self.height
        &&& match self.planes {
            Option::Some(p) => {
                &&& self.luma_count() <= MAX_PLANE_SAMPLES
                &&& p.y@.len() == self.luma_count()
                &&& p.u@.len() == self.chroma_count()
                &&& p.v@.len() == self.chroma_count()
                &&& samples_ok(p.y@, self.depth)
                &&& samples_ok(p.u@, self.depth)
                &&& samples_ok(p.v@, self.depth)
                &&& match p.a {
                    Option::Some(a) => a@.len() == self.luma_count() && samples_ok(
                        a@,
                        self.depth,
                    ),
                    Option::None => true,
                }
            },
            Option::None => true,
        }
    }

    /// Creates a new planar image with the given dimensions and format.
    ///
    /// No plane memory is allocated yet; call [`Image::allocate_planes`].
    /// Color metadata starts as full range with unspecified (code 2)
    /// primaries, transfer characteristics and matrix coefficients.
    pub fn new(width: u32, height: u32, depth: BitDepth, yuv_format: PixelFormat) -> (r: Result<
        Image,
        AvifError,
    >)
        ensures
            width == 0 || height == 0 ==> (r matches Result::Err(e) && e
                == AvifError::InvalidArgument),
            width > 0 && height > 0 ==> (r matches Result::Ok(img) && img.wf() && img.width == width
                && img.height == height && img.depth == depth && img.yuv_format == yuv_format
                && img.yuv_range == YuvRange::Full && img.color_primaries == 2
                && img.transfer_characteristics == 2 && img.matrix_coefficients == 2
                && img.alpha_premultiplied == false && img.planes is None),
    {
        if width == 0 || height == 0 {
            return Err(AvifError::InvalidArgument);
        }
        Ok(
            Image {
                width,
                height,
                depth,
                yuv_format,
                yuv_range: YuvRange::Full,
                color_primaries: 2,
                transfer_characteristics: 2,
                matrix_coefficients: 2,
                alpha_premultiplied: false,
                planes: Option::None,
            },
        )
    }

    /// Returns the image width in pixels.
    pub fn width(&self) -> (w: u32)
        ensures
            w == self.width,
    {
        self.width
    }

    /// Returns the image height in pixels.
    pub fn height(&self) -> (h: u32)
        ensures
            h == self.height,
    {
        self.height
    }

    /// Returns the bit depth of the image.
    pub fn depth(&self) -> (d: BitDepth)
        ensures
            d == self.depth,
    {
        self.depth
    }

    /// Returns the YUV pixel format.
    pub fn yuv_format(&self) -> (f: PixelFormat)
        ensures
            f == self.yuv_format,
    {
        self.yuv_format
    }

    /// Sets the YUV pixel format.
    ///
    /// While planes are allocated, only a format with the same derived
    /// chroma geometry may replace the current one.
    pub fn set_yuv_format(&mut self, format: PixelFormat)
        requires
            old(self).planes is Some ==> {
                let changed = Image { yuv_format: format, ..*old(self) };
                changed.chroma_count() == old(self).chroma_count()
            },
        ensures
            *final(self) == (Image { yuv_format: format, ..*old(self) }),
    {
        self.yuv_format = format;
    }

    /// Returns whether alpha is premultiplied.
    pub fn alpha_premultiplied(&self) -> (b: bool)
        ensures
            b == self.alpha_premultiplied,
    {
        self.alpha_premultiplied
    }

    /// Sets whether alpha is premultiplied.
    pub fn set_alpha_premultiplied(&mut self, premultiplied: bool)
        ensures
            *final(self) == (Image { alpha_premultiplied: premultiplied, ..*old(self) }),
    {
        self.alpha_premultiplied = premultiplied;
    }

    /// Returns the YUV range (full or limited).
    pub fn yuv_range(&self) -> (r: YuvRange)
        ensures
            r == self.yuv_range,
    {
        self.yuv_range
    }

    /// Sets the YUV range (full or limited).
    pub fn set_yuv_range(&mut self, range: YuvRange)
        ensures
            *final(self) == (Image { yuv_range: range, ..*old(self) }),
    {
        self.yuv_range = range;
    }

    /// Returns the color primaries code.
    pub fn color_primaries(&self) -> (c: u16)
        ensures
            c == self.color_primaries,
    {
        self.color_primaries
    }

    /// Sets the color primaries code.
    pub fn set_color_primaries(&mut self, primaries: u16)
        ensures
            *final(self) == (Image { color_primaries: primaries, ..*old(self) }),
    {
        self.color_primaries = primaries;
    }

    /// Returns the transfer characteristics code.
    pub fn transfer_characteristics(&self) -> (c: u16)
        ensures
            c == self.transfer_characteristics,
    {
        self.transfer_characteristics
    }

    /// Sets the transfer characteristics code.
    pub fn set_transfer_characteristics(&mut self, tc: u16)
        ensures
            *final(self) == (Image { transfer_characteristics: tc, ..*old(self) }),
    {
        self.transfer_characteristics = tc;
    }

    /// Returns the matrix coefficients code.
    pub fn matrix_coefficients(&self) -> (c: u16)
        ensures
            c == self.matrix_coefficients,
    {
        self.matrix_coefficients
    }

    /// Sets the matrix coefficients code.
    pub fn set_matrix_coefficients(&mut self, mc: u16)
        ensures
            *final(self) == (Image { matrix_coefficients: mc, ..*old(self) }),
    {
        self.matrix_coefficients = mc;
    }

    /// Returns true if the image stores samples wider than one byte,
    /// which is the case exactly above depth 8.
    pub fn uses_u16(&self) -> (b: bool)
        ensures
            b == (self.depth != BitDepth::Eight),
    {
        match self.depth {
            BitDepth::Eight => false,
            _ => true,
        }
    }
}

} // verus!

verus! {

/// Builds a plane of `n` samples, all zero.
fn zero_samples(n: usize) -> (r: Vec<u16>)
    ensures
        r@ == Seq::new(n as nat, |i: int| 0u16),
{
    let mut v: Vec<u16> = Vec::new();
    let mut i: usize = 0;
    while i < n
        invariant
            i <= n,
            v@ == Seq::new(i as nat, |j: int| 0u16),
        decreases n - i,
    {
        v.push(0);
        i = i + 1;
        proof {
            assert(v@ =~= Seq::new(i as nat, |j: int| 0u16));
        }
    }
    v
}

/// Builds a fresh plane holding the same samples as `src`.
fn copy_samples(src: &Vec<u16>) -> (r: Vec<u16>)
    ensures
        r@ == src@,
{
    let mut v: Vec<u16> = Vec::new();
    let mut i: usize = 0;
    while i < src.len()
        invariant
            i <= src.len(),
            v@ == src@.subrange(0, i as int),
        decreases src.len() - i,
    {
        v.push(src[i]);
        i = i + 1;
        proof {
            assert(v@ =~= src@.subrange(0, i as int));
        }
    }
    proof {
        assert(v@ =~= src@);
    }
    v
}

/// The plane set is present, every plane freshly allocated at the given
/// sizes with all samples zero, alpha included.
pub open spec fn zeroed_planes(p: Option<Planes>, luma: nat, chroma: nat) -> bool {
    match p {
        Option::Some(q) => {
            &&& q.y@ == Seq::new(luma, |i: int| 0u16)
            &&& q.u@ == Seq::new(chroma, |i: int| 0u16)
            &&& q.v@ == Seq::new(chroma, |i: int| 0u16)
            &&& match q.a {
                Option::Some(a) => a@ == Seq::new(luma, |i: int| 0u16),
                Option::None => false,
            }
        },
        Option::None => false,
    }
}

/// The product of two pairwise-bounded factors is bounded by the product
/// of the bounds.
pub(crate) proof fn lemma_mul_le(a: nat, b: nat, c: nat, d: nat)
    by (nonlinear_arith)
    requires
        a <= c,
        b <= d,
    ensures
        a * b <= c * d,
{
}

impl Image {
    /// All alpha samples are at the depth's maximum, or there is no alpha
    /// plane at all.
    pub open spec fn spec_is_opaque(self) -> bool {
        match self.planes {
            Option::Some(p) => match p.a {
                Option::Some(a) => forall|i: int|
                    0 <= i < a@.len() ==> a@[i] == depth_max(self.depth),
                Option::None => true,
            },
            Option::None => true,
        }
    }

    /// Allocates zero-filled planes for the image (Y, U, V and alpha).
    ///
    /// The call is idempotent: with planes already present it changes
    /// nothing. It fails with `InvalidArgument` when no YUV format is set,
    /// and with `OutOfMemory` when a plane would exceed the allocation cap.
    pub fn allocate_planes(&mut self) -> (r: Result<(), AvifError>)
        requires
            old(self).wf(),
        ensures
            final(self).wf(),
            same_meta(*final(self), *old(self)),
            old(self).planes is Some ==> r == Result::<(), AvifError>::Ok(()) && *final(self)
                == *old(self),
            old(self).planes is None && old(self).yuv_format == PixelFormat::NoFormat ==> r
                == Result::<(), AvifError>::Err(AvifError::InvalidArgument) && *final(self)
                == *old(self),
            old(self).planes is None && old(self).yuv_format != PixelFormat::NoFormat && old(
                self,
            ).luma_count() > MAX_PLANE_SAMPLES ==> r == Result::<(), AvifError>::Err(
                AvifError::OutOfMemory,
            ) && *final(self) == *old(self),
            old(self).planes is None && old(self).yuv_format != PixelFormat::NoFormat && old(
                self,
            ).luma_count() <= MAX_PLANE_SAMPLES ==> r == Result::<(), AvifError>::Ok(())
                && zeroed_planes(
                final(self).planes,
                old(self).luma_count(),
                old(self).chroma_count(),
            ),
    {
        if self.planes.is_some() {
            return Ok(());
        }
        match self.yuv_format {
            PixelFormat::NoFormat => {
                return Err(AvifError::InvalidArgument);
            },
            _ => {},
        }
        let w64: u64 = self.width as u64;
        let h64: u64 = self.height as u64;
        proof {
            lemma_mul_le(w64 as nat, h64 as nat, 0xFFFF_FFFF as nat, 0xFFFF_FFFF as nat);
        }
        let luma: u64 = w64 * h64;
        if luma > MAX_PLANE_SAMPLES {
            return Err(AvifError::OutOfMemory);
        }
        let cw: u64;
        let ch: u64;
        match self.yuv_format {
            PixelFormat::Yuv444 => {
                cw = w64;
                ch = h64;
            },
            PixelFormat::Yuv422 => {
                cw = (w64 + 1) / 2;
                ch = h64;
            },
            PixelFormat::Yuv420 => {
                cw = (w64 + 1) / 2;
                ch = (h64 + 1) / 2;
            },
            _ => {
                cw = 0;
                ch = 0;
            },
        }
        proof {
            lemma_mul_le(cw as nat, ch as nat, w64 as nat, h64 as nat);
            assert(cw as nat * ch as nat == self.chroma_count());
        }
        let chroma: u64 = cw * ch;
        let y = zero_samples(luma as usize);
        let u = zero_samples(chroma as usize);
        let v = zero_samples(chroma as usize);
        let a = zero_samples(luma as usize);
        self.planes = Option::Some(Planes { y, u, v, a: Option::Some(a) });
        Ok(())
    }

    /// Frees the plane buffers; a planeless image stays planeless.
    ///
    /// Dimensions and color metadata are untouched.
    pub fn free_planes(&mut self)
        requires
            old(self).wf(),
        ensures
            final(self).wf(),
            same_meta(*final(self), *old(self)),
            final(self).planes is None,
    {
        self.planes = Option::None;
    }

    /// Moves this image's planes into `to_image`, leaving this image
    /// planeless. Whatever planes `to_image` held are released.
    ///
    /// Both images must agree on the geometry the planes derive from
    /// (dimensions, depth and format).
    pub fn steal_planes(&mut self, to_image: &mut Image)
        requires
            old(self).wf(),
            old(to_image).wf(),
            old(to_image).width == old(self).width,
            old(to_image).height == old(self).height,
            old(to_image).depth == old(self).depth,
            old(to_image).yuv_format == old(self).yuv_format,
        ensures
            final(self).wf(),
            final(to_image).wf(),
            same_meta(*final(self), *old(self)),
            same_meta(*final(to_image), *old(to_image)),
            final(self).planes is None,
            planes_eq(final(to_image).planes, old(self).planes),
    {
        to_image.planes = Option::None;
        core::mem::swap(&mut self.planes, &mut to_image.planes);
    }

    /// Creates a deep copy of this image: same dimensions, same metadata,
    /// same pixels.
    pub fn copy(&self) -> (r: Result<Image, AvifError>)
        requires
            self.wf(),
        ensures
            r matches Result::Ok(img) && img.wf() && same_meta(img, *self) && same_planes(
                img,
                *self,
            ),
    {
        let planes = match &self.planes {
            Option::None => Option::None,
            Option::Some(p) => {
                let a = match &p.a {
                    Option::None => Option::None,
                    Option::Some(av) => Option::Some(copy_samples(av)),
                };
                Option::Some(
                    Planes { y: copy_samples(&p.y), u: copy_samples(&p.u), v: copy_samples(&p.v), a },
                )
            },
        };
        Ok(
            Image {
                width: self.width,
                height: self.height,
                depth: self.depth,
                yuv_format: self.yuv_format,
                yuv_range: self.yuv_range,
                color_primaries: self.color_primaries,
                transfer_characteristics: self.transfer_characteristics,
                matrix_coefficients: self.matrix_coefficients,
                alpha_premultiplied: self.alpha_premultiplied,
                planes,
            },
        )
    }

    /// Returns true if the image has no alpha plane or every alpha sample
    /// is the maximum representable value.
    pub fn is_opaque(&self) -> (b: bool)
        requires
            self.wf(),
        ensures
            b == self.spec_is_opaque(),
    {
        match &self.planes {
            Option::None => true,
            Option::Some(p) => match &p.a {
                Option::None => true,
                Option::Some(a) => {
                    let max = self.depth.max_sample();
                    let mut i: usize = 0;
                    while i < a.len()
                        invariant
                            i <= a.len(),
                            max == depth_max(self.depth),
                            self.planes matches Option::Some(q) && q.a matches Option::Some(b) && b@
                                == a@,
                            forall|j: int| 0 <= j < i ==> a@[j] == depth_max(self.depth),
                        decreases a.len() - i,
                    {
                        if a[i] != max {
                            return false;
                        }
                        i = i + 1;
                    }
                    true
                },
            },
        }
    }
}

} // verus!

verus! {

/// The nearest-neighbor resample of a row-major `ow` x `oh` plane to the
/// size `nw` x `nh`: output pixel `(x, y)` takes the source sample at
/// `(x * ow / nw, y * oh / nh)`.
pub open spec fn scaled_plane(src: Seq<u16>, ow: nat, oh: nat, nw: nat, nh: nat) -> Seq<u16> {
    Seq::new(
        nw * nh,
        |i: int|
            {
                let x = i % (nw as int);
                let y = i / (nw as int);
                let sx = x * ow / (nw as int);
                let sy = y * oh / (nh as int);
                src[sy * ow + sx]
            },
    )
}

/// The source index picked by nearest-neighbor scaling stays inside the
/// source plane.
proof fn lemma_scale_index_bounds(i: int, ow: int, oh: int, nw: int, nh: int)
    requires
        0 < ow,
        0 < oh,
        0 < nw,
        0 < nh,
        0 <= i < nw * nh,
    ensures
        0 <= i % nw < nw,
        0 <= i / nw < nh,
        0 <= (i % nw) * ow / nw < ow,
        0 <= (i / nw) * oh / nh < oh,
        ((i / nw) * oh / nh) * ow + (i % nw) * ow / nw < ow * oh,
{
    let x = i % nw;
    let y = i / nw;
    lemma_mod_division_less_than_divisor(i, nw);
    lemma_div_pos_is_pos(i, nw);
    lemma_multiply_divide_lt(i, nw, nh);
    let sx = x * ow / nw;
    let sy = y * oh / nh;
    assert(x * ow >= 0) by (nonlinear_arith)
        requires
            x >= 0,
            ow > 0,
    ;
    assert(y * oh >= 0) by (nonlinear_arith)
        requires
            y >= 0,
            oh > 0,
    ;
    lemma_div_pos_is_pos(x * ow, nw);
    lemma_div_pos_is_pos(y * oh, nh);
    lemma_mul_strict_inequality(x, nw, ow);
    assert(x * ow == ow * x) by (nonlinear_arith);
    assert(nw * ow == ow * nw) by (nonlinear_arith);
    lemma_multiply_divide_lt(x * ow, nw, ow);
    lemma_mul_strict_inequality(y, nh, oh);
    assert(y * oh == oh * y) by (nonlinear_arith);
    assert(nh * oh == oh * nh) by (nonlinear_arith);
    lemma_multiply_divide_lt(y * oh, nh, oh);
    lemma_mul_inequality(sy, oh - 1, ow);
    assert(sy * ow + sx < ow * oh) by (nonlinear_arith)
        requires
            sy * ow <= (oh - 1) * ow,
            sx < ow,
    ;
}

/// Nearest-neighbor resample of one plane; see [`scaled_plane`].
fn scale_plane(src: &Vec<u16>, ow: usize, oh: usize, nw: usize, nh: usize) -> (r: Vec<u16>)
    requires
        src@.len() == ow * oh,
        0 < ow,
        0 < oh,
        0 < nw,
        0 < nh,
        ow * oh <= MAX_PLANE_SAMPLES,
        nw * nh <= MAX_PLANE_SAMPLES,
    ensures
        r@ == scaled_plane(src@, ow as nat, oh as nat, nw as nat, nh as nat),
{
    proof {
        assert(nw <= MAX_PLANE_SAMPLES && nh <= MAX_PLANE_SAMPLES) by (nonlinear_arith)
            requires
                0 < nw,
                0 < nh,
                nw * nh <= MAX_PLANE_SAMPLES,
        ;
        assert(ow <= MAX_PLANE_SAMPLES && oh <= MAX_PLANE_SAMPLES) by (nonlinear_arith)
            requires
                0 < ow,
                0 < oh,
                ow * oh <= MAX_PLANE_SAMPLES,
        ;
    }
    let total: usize = nw * nh;
    let ghost g = scaled_plane(src@, ow as nat, oh as nat, nw as nat, nh as nat);
    let mut out: Vec<u16> = Vec::new();
    let mut i: usize = 0;
    while i < total
        invariant
            i <= total,
            total == nw * nh,
            src@.len() == ow * oh,
            0 < ow,
            0 < oh,
            0 < nw,
            0 < nh,
            ow * oh <= MAX_PLANE_SAMPLES,
            nw * nh <= MAX_PLANE_SAMPLES,
            ow <= MAX_PLANE_SAMPLES,
            oh <= MAX_PLANE_SAMPLES,
            nw <= MAX_PLANE_SAMPLES,
            nh <= MAX_PLANE_SAMPLES,
            g == scaled_plane(src@, ow as nat, oh as nat, nw as nat, nh as nat),
            out@.len() == i,
            forall|k: int| 0 <= k < i ==> out@[k] == g[k],
        decreases total - i,
    {
        proof {
            lemma_scale_index_bounds(i as int, ow as int, oh as int, nw as int, nh as int);
        }
        let x: usize = i % nw;
        let y: usize = i / nw;
        proof {
            lemma_mul_le(x as nat, ow as nat, MAX_PLANE_SAMPLES as nat, MAX_PLANE_SAMPLES as nat);
            lemma_mul_le(y as nat, oh as nat, MAX_PLANE_SAMPLES as nat, MAX_PLANE_SAMPLES as nat);
        }
        let sx: usize = (((x as u64) * (ow as u64)) / (nw as u64)) as usize;
        let sy: usize = (((y as u64) * (oh as u64)) / (nh as u64)) as usize;
        let idx: usize = sy * ow + sx;
        out.push(src[idx]);
        i = i + 1;
    }
    proof {
        assert(out@ =~= g);
    }
    out
}

/// Scaling never produces a sample that was not in the source, so sample
/// bounds carry over.
proof fn lemma_scaled_plane_samples_ok(src: Seq<u16>, ow: nat, oh: nat, nw: nat, nh: nat, d: BitDepth)
    requires
        src.len() == ow * oh,
        samples_ok(src, d),
        0 < ow,
        0 < oh,
        0 < nw,
        0 < nh,
    ensures
        samples_ok(scaled_plane(src, ow, oh, nw, nh), d),
{
    let s = scaled_plane(src, ow, oh, nw, nh);
    assert forall|i: int| 0 <= i < s.len() implies s[i] <= depth_max(d) by {
        lemma_scale_index_bounds(i, ow as int, oh as int, nw as int, nh as int);
    }
}

impl Image {
    /// Resamples all planes in place to the new dimensions with the
    /// nearest-neighbor filter, preserving the subsampling ratio; chroma
    /// and alpha planes are resampled at their own derived sizes.
    ///
    /// Fails with `InvalidArgument` on a zero target dimension and with
    /// `OutOfMemory` when the target exceeds the allocation cap; the image
    /// is unchanged on failure. A planeless image just takes the new
    /// dimensions.
    pub fn scale(&mut self, new_width: u32, new_height: u32) -> (r: Result<(), AvifError>)
        requires
            old(self).wf(),
        ensures
            final(self).wf(),
            final(self).depth == old(self).depth,
            final(self).yuv_format == old(self).yuv_format,
            final(self).yuv_range == old(self).yuv_range,
            final(self).color_primaries == old(self).color_primaries,
            final(self).transfer_characteristics == old(self).transfer_characteristics,
            final(self).matrix_coefficients == old(self).matrix_coefficients,
            final(self).alpha_premultiplied == old(self).alpha_premultiplied,
            new_width == 0 || new_height == 0 ==> r == Result::<(), AvifError>::Err(
                AvifError::InvalidArgument,
            ) && *final(self) == *old(self),
            new_width > 0 && new_height > 0 && new_width * new_height > MAX_PLANE_SAMPLES ==> r
                == Result::<(), AvifError>::Err(AvifError::OutOfMemory) && *final(self)
                == *old(self),
            new_width > 0 && new_height > 0 && new_width * new_height <= MAX_PLANE_SAMPLES ==> r
                == Result::<(), AvifError>::Ok(()) && final(self).width == new_width
                && final(self).height == new_height && scale_result_ok(*old(self), *final(self)),
    {
        if new_width == 0 || new_height == 0 {
            return Err(AvifError::InvalidArgument);
        }
        proof {
            lemma_mul_le(new_width as nat, new_height as nat, 0xFFFF_FFFF as nat, 0xFFFF_FFFF as nat);
        }
        let new_luma: u64 = (new_width as u64) * (new_height as u64);
        if new_luma > MAX_PLANE_SAMPLES {
            return Err(AvifError::OutOfMemory);
        }
        let old_width = self.width;
        let old_height = self.height;
        match &self.planes {
            Option::None => {
                self.width = new_width;
                self.height = new_height;
                Ok(())
            },
            Option::Some(p) => {
                let ow: usize = old_width as usize;
                let oh: usize = old_height as usize;
                let nw: usize = new_width as usize;
                let nh: usize = new_height as usize;
                let y = scale_plane(&p.y, ow, oh, nw, nh);
                proof {
                    lemma_scaled_plane_samples_ok(
                        p.y@,
                        ow as nat,
                        oh as nat,
                        nw as nat,
                        nh as nat,
                        self.depth,
                    );
                }
                let a = match &p.a {
                    Option::None => Option::None,
                    Option::Some(av) => {
                        let sa = scale_plane(av, ow, oh, nw, nh);
                        proof {
                            lemma_scaled_plane_samples_ok(
                                av@,
                                ow as nat,
                                oh as nat,
                                nw as nat,
                                nh as nat,
                                self.depth,
                            );
                        }
                        Option::Some(sa)
                    },
                };
                let u: Vec<u16>;
                let v: Vec<u16>;
                if self.yuv_format.has_chroma_planes() {
                    let ocw: usize = chroma_w_exec(self.yuv_format, old_width) as usize;
                    let och: usize = chroma_h_exec(self.yuv_format, old_height) as usize;
                    let ncw: usize = chroma_w_exec(self.yuv_format, new_width) as usize;
                    let nch: usize = chroma_h_exec(self.yuv_format, new_height) as usize;
                    proof {
                        lemma_mul_le(ocw as nat, och as nat, ow as nat, oh as nat);
                        lemma_mul_le(ncw as nat, nch as nat, nw as nat, nh as nat);
                    }
                    let su = scale_plane(&p.u, ocw, och, ncw, nch);
                    let sv = scale_plane(&p.v, ocw, och, ncw, nch);
                    proof {
                        lemma_scaled_plane_samples_ok(
                            p.u@,
                            ocw as nat,
                            och as nat,
                            ncw as nat,
                            nch as nat,
                            self.depth,
                        );
                        lemma_scaled_plane_samples_ok(
                            p.v@,
                            ocw as nat,
                            och as nat,
                            ncw as nat,
                            nch as nat,
                            self.depth,
                        );
                    }
                    u = su;
                    v = sv;
                } else {
                    u = Vec::new();
                    v = Vec::new();
                }
                self.planes = Option::Some(Planes { y, u, v, a });
                self.width = new_width;
                self.height = new_height;
                Ok(())
            },
        }
    }
}

/// Relates the planes of a scaled image to the planes of the original:
/// every plane present before is present after, resampled at its own
/// derived dimensions.
pub open spec fn scale_result_ok(before: Image, after: Image) -> bool {
    match (before.planes, after.planes) {
        (Option::None, Option::None) => true,
        (Option::Some(p), Option::Some(q)) => {
            &&& q.y@ == scaled_plane(
                p.y@,
                before.width as nat,
                before.height as nat,
                after.width as nat,
                after.height as nat,
            )
            &&& has_chroma(before.yuv_format) ==> q.u@ == scaled_plane(
                p.u@,
                before.chroma_w(),
                before.chroma_h(),
                after.chroma_w(),
                after.chroma_h(),
            ) && q.v@ == scaled_plane(
                p.v@,
                before.chroma_w(),
                before.chroma_h(),
                after.chroma_w(),
                after.chroma_h(),
            )
            &&& !has_chroma(before.yuv_format) ==> q.u@ == Seq::<u16>::empty() && q.v@
                == Seq::<u16>::empty()
            &&& match (p.a, q.a) {
                (Option::Some(x), Option::Some(z)) => z@ == scaled_plane(
                    x@,
                    before.width as nat,
                    before.height as nat,
                    after.width as nat,
                    after.height as nat,
                ),
                (Option::None, Option::None) => true,
                _ => false,
            }
        },
        _ => false,
    }
}

/// Computes the chroma plane width for a format and luma width.
pub(crate) fn chroma_w_exec(f: PixelFormat, w: u32) -> (r: u32)
    requires
        has_chroma(f),
    ensures
        r == chroma_width(f, w as nat),
{
    match f {
        PixelFormat::Yuv422 | PixelFormat::Yuv420 => w / 2 + w % 2,
        _ => w,
    }
}

/// Computes the chroma plane height for a format and luma height.
pub(crate) fn chroma_h_exec(f: PixelFormat, h: u32) -> (r: u32)
    requires
        has_chroma(f),
    ensures
        r == chroma_height(f, h as nat),
{
    match f {
        PixelFormat::Yuv420 => h / 2 + h % 2,
        _ => h,
    }
}

} // verus!
