//! The color conversion engine: RGB to YUV and back.
//!
//! Conversions run entirely in integer arithmetic. The matrix is selected
//! by the planar image's CICP matrix-coefficients code: BT.709 (code 1),
//! BT.2020 (code 9), the identity matrix (code 0, 4:4:4 full range only),
//! and BT.601 for every other code. Quantization honors the image's
//! range: full range uses the whole interval, limited range the standard
//! head- and footroom. Rounding is half away from zero throughout.
//!
//! The engine is deterministic: its output is a function of the input
//! samples and the configured options alone, never of thread hints.

use vstd::prelude::*;

use crate::error::AvifError;
use crate::image::{
    BitDepth, Image, PixelFormat, Planes, YuvRange, chroma_height, chroma_width, depth_max,
    has_chroma, samples_ok, subsampled_x, subsampled_y,
};
use crate::rgb::{
    ChromaDownsampling, ChromaUpsampling, RgbFormat, RgbImage, bytes_per_pixel, channel_count_of,
    has_alpha_of, is_gray_of, offset_a, offset_b, offset_g, offset_r,
};

verus! {

/// The common denominator of all matrix coefficient pairs.
pub open spec fn coeff_den() -> int {
    10000
}

/// The red coefficient numerator selected by a matrix-coefficients code
/// (codes without a specified pair fall back to BT.601).
pub open spec fn coeff_kr(mc: u16) -> int {
    if mc == 1 {
        2126
    } else if mc == 9 {
        2627
    } else {
        2990
    }
}

/// The blue coefficient numerator selected by a matrix-coefficients code
/// (codes without a specified pair fall back to BT.601).
pub open spec fn coeff_kb(mc: u16) -> int {
    if mc == 1 {
        722
    } else if mc == 9 {
        593
    } else {
        1140
    }
}

/// The luma scale factor of a depth and range.
pub open spec fn y_scale(d: BitDepth, range: YuvRange) -> int {
    if range is Full {
        depth_max(d) as int
    } else {
        match d {
            BitDepth::Eight => 219,
            BitDepth::Ten => 876,
            BitDepth::Twelve => 3504,
        }
    }
}

/// The chroma scale factor of a depth and range.
pub open spec fn uv_scale(d: BitDepth, range: YuvRange) -> int {
    if range is Full {
        depth_max(d) as int
    } else {
        match d {
            BitDepth::Eight => 224,
            BitDepth::Ten => 896,
            BitDepth::Twelve => 3584,
        }
    }
}

/// The luma offset (footroom) of a depth and range.
pub open spec fn y_off(d: BitDepth, range: YuvRange) -> int {
    if range is Full {
        0
    } else {
        match d {
            BitDepth::Eight => 16,
            BitDepth::Ten => 64,
            BitDepth::Twelve => 256,
        }
    }
}

/// The neutral chroma value of a depth.
pub open spec fn chroma_half(d: BitDepth) -> int {
    match d {
        BitDepth::Eight => 128,
        BitDepth::Ten => 512,
        BitDepth::Twelve => 2048,
    }
}

/// Division rounding half up; meaningful for `n >= 0`, `d > 0`.
pub open spec fn rdiv(n: int, d: int) -> int {
    (2 * n + d) / (2 * d)
}

/// Division rounding half away from zero; meaningful for `d > 0`.
pub open spec fn rdiv_s(n: int, d: int) -> int {
    if n >= 0 {
        rdiv(n, d)
    } else {
        -rdiv(-n, d)
    }
}

/// Clamps `v` into `[lo, hi]`.
pub open spec fn clamp_i(v: int, lo: int, hi: int) -> int {
    if v < lo {
        lo
    } else if v > hi {
        hi
    } else {
        v
    }
}

/// The weighted luma numerator of an RGB triple (over `coeff_den`).
pub open spec fn luma_num(r: int, g: int, b: int, kr: int, kb: int) -> int {
    kr * r + (coeff_den() - kr - kb) * g + kb * b
}

/// The quantized luma sample of an RGB triple.
pub open spec fn spec_y(r: int, g: int, b: int, kr: int, kb: int, d: BitDepth, range: YuvRange) -> int {
    clamp_i(
        y_off(d, range) + rdiv(luma_num(r, g, b, kr, kb) * y_scale(d, range), coeff_den() * depth_max(
            d,
        )),
        0,
        depth_max(d) as int,
    )
}

/// The quantized first (blue-difference) chroma sample of an RGB triple.
pub open spec fn spec_u(r: int, g: int, b: int, kr: int, kb: int, d: BitDepth, range: YuvRange) -> int {
    clamp_i(
        chroma_half(d) + rdiv_s(
            (coeff_den() * b - luma_num(r, g, b, kr, kb)) * uv_scale(d, range),
            2 * (coeff_den() - kb) * depth_max(d),
        ),
        0,
        depth_max(d) as int,
    )
}

/// The quantized second (red-difference) chroma sample of an RGB triple.
pub open spec fn spec_v(r: int, g: int, b: int, kr: int, kb: int, d: BitDepth, range: YuvRange) -> int {
    clamp_i(
        chroma_half(d) + rdiv_s(
            (coeff_den() * r - luma_num(r, g, b, kr, kb)) * uv_scale(d, range),
            2 * (coeff_den() - kr) * depth_max(d),
        ),
        0,
        depth_max(d) as int,
    )
}

/// The reconstructed red sample of a YUV triple.
pub open spec fn spec_r(y: int, v: int, kr: int, kb: int, d: BitDepth, range: YuvRange) -> int {
    clamp_i(
        rdiv_s(
            depth_max(d) * ((y - y_off(d, range)) * coeff_den() * uv_scale(d, range) + 2 * (
            coeff_den() - kr) * (v - chroma_half(d)) * y_scale(d, range)),
            coeff_den() * y_scale(d, range) * uv_scale(d, range),
        ),
        0,
        depth_max(d) as int,
    )
}

/// The reconstructed blue sample of a YUV triple.
pub open spec fn spec_b(y: int, u: int, kr: int, kb: int, d: BitDepth, range: YuvRange) -> int {
    clamp_i(
        rdiv_s(
            depth_max(d) * ((y - y_off(d, range)) * coeff_den() * uv_scale(d, range) + 2 * (
            coeff_den() - kb) * (u - chroma_half(d)) * y_scale(d, range)),
            coeff_den() * y_scale(d, range) * uv_scale(d, range),
        ),
        0,
        depth_max(d) as int,
    )
}

/// The reconstructed green sample of a YUV triple.
pub open spec fn spec_g(y: int, u: int, v: int, kr: int, kb: int, d: BitDepth, range: YuvRange) -> int {
    clamp_i(
        rdiv_s(
            depth_max(d) * ((y - y_off(d, range)) * coeff_den() * (coeff_den() - kr - kb) * uv_scale(
                d,
                range,
            ) - (2 * kb * (coeff_den() - kb) * (u - chroma_half(d)) + 2 * kr * (coeff_den() - kr) * (
            v - chroma_half(d))) * y_scale(d, range)),
            coeff_den() * (coeff_den() - kr - kb) * uv_scale(d, range) * y_scale(d, range),
        ),
        0,
        depth_max(d) as int,
    )
}

/// The gray sample reconstructed from luma alone (used for grayscale RGB
/// layouts).
pub open spec fn spec_gray(y: int, d: BitDepth, range: YuvRange) -> int {
    clamp_i(
        rdiv_s((y - y_off(d, range)) * depth_max(d), y_scale(d, range)),
        0,
        depth_max(d) as int,
    )
}

/// The coefficient pair is one of the supported matrices.
pub open spec fn coeffs_ok(kr: int, kb: int) -> bool {
    (kr == 2126 && kb == 722) || (kr == 2627 && kb == 593) || (kr == 2990 && kb == 1140)
}

/// Selects the coefficient numerators for a matrix-coefficients code.
fn coeffs_exec(mc: u16) -> (r: (u32, u32))
    ensures
        r.0 == coeff_kr(mc),
        r.1 == coeff_kb(mc),
        coeffs_ok(r.0 as int, r.1 as int),
{
    if mc == 1 {
        (2126, 722)
    } else if mc == 9 {
        (2627, 593)
    } else {
        (2990, 1140)
    }
}

/// Computes the range parameters `(y_scale, uv_scale, y_off, half, max)`
/// of a depth and range.
fn range_params_exec(d: BitDepth, range: YuvRange) -> (r: (u32, u32, u32, u32, u32))
    ensures
        r.0 == y_scale(d, range),
        r.1 == uv_scale(d, range),
        r.2 == y_off(d, range),
        r.3 == chroma_half(d),
        r.4 == depth_max(d),
        0 < r.0 <= r.4,
        0 < r.1 <= r.4,
        r.2 <= 256,
        r.4 <= 4095,
{
    let max: u32 = match d {
        BitDepth::Eight => 255,
        BitDepth::Ten => 1023,
        BitDepth::Twelve => 4095,
    };
    let half: u32 = match d {
        BitDepth::Eight => 128,
        BitDepth::Ten => 512,
        BitDepth::Twelve => 2048,
    };
    match range {
        YuvRange::Full => (max, max, 0, half, max),
        YuvRange::Limited => {
            let ys: u32 = match d {
                BitDepth::Eight => 219,
                BitDepth::Ten => 876,
                BitDepth::Twelve => 3504,
            };
            let us: u32 = match d {
                BitDepth::Eight => 224,
                BitDepth::Ten => 896,
                BitDepth::Twelve => 3584,
            };
            let yo: u32 = match d {
                BitDepth::Eight => 16,
                BitDepth::Ten => 64,
                BitDepth::Twelve => 256,
            };
            (ys, us, yo, half, max)
        },
    }
}

/// Rounding division, half up, on nonnegative numerators.
fn rdiv_u64(n: u64, d: u64) -> (r: u64)
    requires
        0 < d,
        2 * n + d <= u64::MAX,
        2 * d <= u64::MAX,
    ensures
        r == rdiv(n as int, d as int),
{
    (2 * n + d) / (2 * d)
}

/// Rounding division, half away from zero, for signed numerators.
fn rdiv_i128(n: i128, d: i128) -> (r: i128)
    requires
        0 < d,
        -0x4000_0000_0000_0000_0000_0000_0000_0000 < 2 * n,
        2 * n < 0x4000_0000_0000_0000_0000_0000_0000_0000,
        2 * d < 0x4000_0000_0000_0000_0000_0000_0000_0000,
    ensures
        r == rdiv_s(n as int, d as int),
{
    if n >= 0 {
        (2 * n + d) / (2 * d)
    } else {
        -((2 * (-n) + d) / (2 * d))
    }
}

} // verus!

verus! {

/// The absolute value of a product is bounded by the product of the
/// operand bounds.
pub(crate) proof fn lemma_mul_abs_bound(x: int, mx: int, y: int, my: int)
    by (nonlinear_arith)
    requires
        -mx <= x <= mx,
        -my <= y <= my,
        0 <= mx,
        0 <= my,
    ensures
        -(mx * my) <= x * y <= mx * my,
{
}

/// Computes the luma numerator `kr*r + kg*g + kb*b`.
fn luma_num_exec(r: u16, g: u16, b: u16, kr: u32, kb: u32) -> (yn: u64)
    requires
        coeffs_ok(kr as int, kb as int),
        r <= 4095,
        g <= 4095,
        b <= 4095,
    ensures
        yn == luma_num(r as int, g as int, b as int, kr as int, kb as int),
        yn <= 10000int * 4095,
{
    proof {
        lemma_mul_abs_bound(kr as int, 10000, r as int, 4095);
        lemma_mul_abs_bound(10000 - kr - kb, 10000, g as int, 4095);
        lemma_mul_abs_bound(kb as int, 10000, b as int, 4095);
        assert((kr as int) * (r as int) + (10000 - kr - kb) * (g as int) + (kb as int) * (b as int)
            <= 10000 * 4095) by (nonlinear_arith)
            requires
                0 <= kr,
                0 <= kb,
                kr + kb <= 10000,
                0 <= r <= 4095,
                0 <= g <= 4095,
                0 <= b <= 4095,
        ;
    }
    let kg: u64 = 10000 - (kr as u64) - (kb as u64);
    (kr as u64) * (r as u64) + kg * (g as u64) + (kb as u64) * (b as u64)
}

/// Computes the quantized luma sample; see [`spec_y`].
pub fn conv_y_exec(r: u16, g: u16, b: u16, kr: u32, kb: u32, d: BitDepth, range: YuvRange) -> (y:
    u16)
    requires
        coeffs_ok(kr as int, kb as int),
        r <= depth_max(d),
        g <= depth_max(d),
        b <= depth_max(d),
    ensures
        y == spec_y(r as int, g as int, b as int, kr as int, kb as int, d, range),
        y <= depth_max(d),
{
    let p = range_params_exec(d, range);
    let ys = p.0;
    let yo = p.2;
    let max = p.4;
    let yn: u64 = luma_num_exec(r, g, b, kr, kb);
    proof {
        lemma_mul_abs_bound(yn as int, 10000int * 4095, ys as int, 4095);
    }
    let q: u64 = rdiv_u64(yn * (ys as u64), 10000u64 * (max as u64));
    let val: u64 = (yo as u64) + q;
    if val > max as u64 {
        max as u16
    } else {
        val as u16
    }
}

/// Computes the quantized first chroma sample; see [`spec_u`].
pub fn conv_u_exec(r: u16, g: u16, b: u16, kr: u32, kb: u32, d: BitDepth, range: YuvRange) -> (u:
    u16)
    requires
        coeffs_ok(kr as int, kb as int),
        r <= depth_max(d),
        g <= depth_max(d),
        b <= depth_max(d),
    ensures
        u == spec_u(r as int, g as int, b as int, kr as int, kb as int, d, range),
        u <= depth_max(d),
{
    let p = range_params_exec(d, range);
    let us = p.1;
    let half = p.3;
    let max = p.4;
    let yn: u64 = luma_num_exec(r, g, b, kr, kb);
    let diff: i128 = 10000i128 * (b as i128) - (yn as i128);
    proof {
        lemma_mul_abs_bound(diff as int, 10000int * 4095, us as int, 4095);
        lemma_mul_abs_bound(2 * (10000 - (kb as int)), 20000, max as int, 4095);
        assert(2 * (10000 - (kb as int)) * (max as int) > 0) by (nonlinear_arith)
            requires
                kb < 10000,
                max > 0,
        ;
    }
    let num: i128 = diff * (us as i128);
    let den_d: i128 = 2 * (10000 - (kb as i128)) * (max as i128);
    let t: i128 = rdiv_i128(num, den_d);
    let val: i128 = (half as i128) + t;
    if val < 0 {
        0
    } else if val > max as i128 {
        max as u16
    } else {
        val as u16
    }
}

/// Computes the quantized second chroma sample; see [`spec_v`].
pub fn conv_v_exec(r: u16, g: u16, b: u16, kr: u32, kb: u32, d: BitDepth, range: YuvRange) -> (v:
    u16)
    requires
        coeffs_ok(kr as int, kb as int),
        r <= depth_max(d),
        g <= depth_max(d),
        b <= depth_max(d),
    ensures
        v == spec_v(r as int, g as int, b as int, kr as int, kb as int, d, range),
        v <= depth_max(d),
{
    let p = range_params_exec(d, range);
    let us = p.1;
    let half = p.3;
    let max = p.4;
    let yn: u64 = luma_num_exec(r, g, b, kr, kb);
    let diff: i128 = 10000i128 * (r as i128) - (yn as i128);
    proof {
        lemma_mul_abs_bound(diff as int, 10000int * 4095, us as int, 4095);
        lemma_mul_abs_bound(2 * (10000 - (kr as int)), 20000, max as int, 4095);
        assert(2 * (10000 - (kr as int)) * (max as int) > 0) by (nonlinear_arith)
            requires
                kr < 10000,
                max > 0,
        ;
    }
    let num: i128 = diff * (us as i128);
    let den_d: i128 = 2 * (10000 - (kr as i128)) * (max as i128);
    let t: i128 = rdiv_i128(num, den_d);
    let val: i128 = (half as i128) + t;
    if val < 0 {
        0
    } else if val > max as i128 {
        max as u16
    } else {
        val as u16
    }
}

/// Reconstructs red or blue from luma and one chroma sample; `kx` is the
/// matching coefficient numerator (`kr` for red with Cr, `kb` for blue
/// with Cb).
fn conv_rb_exec(y: u16, c: u16, kx: u32, d: BitDepth, range: YuvRange) -> (out: u16)
    requires
        593 <= kx <= 2990,
        y <= depth_max(d),
        c <= depth_max(d),
    ensures
        out == clamp_i(
            rdiv_s(
                depth_max(d) * ((y - y_off(d, range)) * coeff_den() * uv_scale(d, range) + 2 * (
                coeff_den() - kx) * (c - chroma_half(d)) * y_scale(d, range)),
                coeff_den() * y_scale(d, range) * uv_scale(d, range),
            ),
            0,
            depth_max(d) as int,
        ),
        out <= depth_max(d),
{
    let p = range_params_exec(d, range);
    let ys = p.0;
    let us = p.1;
    let yo = p.2;
    let half = p.3;
    let max = p.4;
    let ydiff: i128 = (y as i128) - (yo as i128);
    let cdiff: i128 = (c as i128) - (half as i128);
    proof {
        lemma_mul_abs_bound(ydiff as int, 4095, 10000, 10000);
        lemma_mul_abs_bound(ydiff * 10000, 4095int * 10000, us as int, 4095);
        lemma_mul_abs_bound(2 * (10000 - kx), 20000, cdiff as int, 4095);
        lemma_mul_abs_bound(2 * (10000 - kx) * cdiff, 20000int * 4095, ys as int, 4095);
        lemma_mul_abs_bound(
            max as int,
            4095,
            ydiff * 10000 * us + 2 * (10000 - kx) * cdiff * ys,
            4095int * 10000 * 4095 + 20000 * 4095 * 4095,
        );
        lemma_mul_abs_bound(10000 * (ys as int), 10000int * 4095, us as int, 4095);
        assert(10000 * (ys as int) * (us as int) > 0) by (nonlinear_arith)
            requires
                ys > 0,
                us > 0,
        ;
    }
    let inner: i128 = ydiff * 10000 * (us as i128) + 2 * (10000 - (kx as i128)) * cdiff * (
    ys as i128);
    let num: i128 = (max as i128) * inner;
    let den_d: i128 = 10000i128 * (ys as i128) * (us as i128);
    let val: i128 = rdiv_i128(num, den_d);
    if val < 0 {
        0
    } else if val > max as i128 {
        max as u16
    } else {
        val as u16
    }
}

/// Reconstructs the red sample; see [`spec_r`].
pub fn conv_r_exec(y: u16, v: u16, kr: u32, kb: u32, d: BitDepth, range: YuvRange) -> (out: u16)
    requires
        coeffs_ok(kr as int, kb as int),
        y <= depth_max(d),
        v <= depth_max(d),
    ensures
        out == spec_r(y as int, v as int, kr as int, kb as int, d, range),
        out <= depth_max(d),
{
    conv_rb_exec(y, v, kr, d, range)
}

/// Reconstructs the blue sample; see [`spec_b`].
pub fn conv_b_exec(y: u16, u: u16, kr: u32, kb: u32, d: BitDepth, range: YuvRange) -> (out: u16)
    requires
        coeffs_ok(kr as int, kb as int),
        y <= depth_max(d),
        u <= depth_max(d),
    ensures
        out == spec_b(y as int, u as int, kr as int, kb as int, d, range),
        out <= depth_max(d),
{
    conv_rb_exec(y, u, kb, d, range)
}

/// Reconstructs the green sample; see [`spec_g`].
pub fn conv_g_exec(y: u16, u: u16, v: u16, kr: u32, kb: u32, d: BitDepth, range: YuvRange) -> (out:
    u16)
    requires
        coeffs_ok(kr as int, kb as int),
        y <= depth_max(d),
        u <= depth_max(d),
        v <= depth_max(d),
    ensures
        out == spec_g(y as int, u as int, v as int, kr as int, kb as int, d, range),
        out <= depth_max(d),
{
    let p = range_params_exec(d, range);
    let ys = p.0;
    let us = p.1;
    let yo = p.2;
    let half = p.3;
    let max = p.4;
    let kg: i128 = 10000 - (kr as i128) - (kb as i128);
    let ydiff: i128 = (y as i128) - (yo as i128);
    let cb: i128 = (u as i128) - (half as i128);
    let cr: i128 = (v as i128) - (half as i128);
    proof {
        lemma_mul_abs_bound(ydiff as int, 4095, 10000, 10000);
        lemma_mul_abs_bound(ydiff * 10000, 4095int * 10000, kg as int, 10000);
        lemma_mul_abs_bound(ydiff * 10000 * kg, 4095int * 10000 * 10000, us as int, 4095);
        lemma_mul_abs_bound(2 * (kb as int), 6000, 10000 - kb, 10000);
        lemma_mul_abs_bound(2 * kb * (10000 - (kb as int)), 60000000, cb as int, 4095);
        lemma_mul_abs_bound(2 * (kr as int), 6000, 10000 - kr, 10000);
        lemma_mul_abs_bound(2 * kr * (10000 - (kr as int)), 60000000, cr as int, 4095);
        lemma_mul_abs_bound(
            2 * kb * (10000 - (kb as int)) * cb + 2 * kr * (10000 - (kr as int)) * cr,
            2int * 60000000 * 4095,
            ys as int,
            4095,
        );
        lemma_mul_abs_bound(
            max as int,
            4095,
            ydiff * 10000 * kg * us - (2 * kb * (10000 - (kb as int)) * cb + 2 * kr * (10000 - (
            kr as int)) * cr) * ys,
            4095int * 10000 * 10000 * 4095 + 2 * 60000000 * 4095 * 4095,
        );
        lemma_mul_abs_bound(10000 * (kg as int), 10000int * 10000, us as int, 4095);
        lemma_mul_abs_bound(10000 * kg * (us as int), 10000int * 10000 * 4095, ys as int, 4095);
        assert(10000 * (kg as int) * (us as int) * (ys as int) > 0) by (nonlinear_arith)
            requires
                kg > 0,
                us > 0,
                ys > 0,
        ;
    }
    let inner: i128 = ydiff * 10000 * kg * (us as i128) - (2 * (kb as i128) * (10000 - (kb as i128))
        * cb + 2 * (kr as i128) * (10000 - (kr as i128)) * cr) * (ys as i128);
    let num: i128 = (max as i128) * inner;
    let den_d: i128 = 10000i128 * kg * (us as i128) * (ys as i128);
    let val: i128 = rdiv_i128(num, den_d);
    if val < 0 {
        0
    } else if val > max as i128 {
        max as u16
    } else {
        val as u16
    }
}

/// Reconstructs the gray sample from luma alone; see [`spec_gray`].
pub fn conv_gray_exec(y: u16, d: BitDepth, range: YuvRange) -> (out: u16)
    requires
        y <= depth_max(d),
    ensures
        out == spec_gray(y as int, d, range),
        out <= depth_max(d),
{
    let p = range_params_exec(d, range);
    let ys = p.0;
    let yo = p.2;
    let max = p.4;
    let ydiff: i128 = (y as i128) - (yo as i128);
    proof {
        lemma_mul_abs_bound(ydiff as int, 4095, max as int, 4095);
    }
    let num: i128 = ydiff * (max as i128);
    let val: i128 = rdiv_i128(num, ys as i128);
    if val < 0 {
        0
    } else if val > max as i128 {
        max as u16
    } else {
        val as u16
    }
}

} // verus!

verus! {

/// The number of bytes of one channel sample at a depth.
pub open spec fn sample_width(d: BitDepth) -> nat {
    if d is Eight {
        1
    } else {
        2
    }
}

/// The sample stored at byte offset `off` of an RGB buffer: one byte at
/// depth 8, two little-endian bytes at higher depths.
pub open spec fn sample_in(pix: Seq<u8>, d: BitDepth, off: int) -> int {
    if d is Eight {
        pix[off] as int
    } else {
        pix[off] + 256 * pix[off + 1]
    }
}

/// The byte offset of channel `c` of pixel `(x, y)` in an RGB buffer.
pub open spec fn chan_off(rgb: RgbImage, x: int, y: int, c: int) -> int {
    y * rgb.row_bytes + x * bytes_per_pixel(rgb.format, rgb.depth) + c * sample_width(rgb.depth)
}

/// The raw value of channel `c` of pixel `(x, y)`.
pub open spec fn rgb_chan(rgb: RgbImage, x: int, y: int, c: int) -> int {
    sample_in(rgb.pixels@, rgb.depth, chan_off(rgb, x, y, c))
}

/// The red source sample of pixel `(x, y)`, clamped to the depth's range
/// (the gray sample for grayscale layouts).
pub open spec fn src_r(rgb: RgbImage, x: int, y: int) -> int {
    clamp_i(rgb_chan(rgb, x, y, offset_r(rgb.format) as int), 0, depth_max(rgb.depth) as int)
}

/// The green source sample of pixel `(x, y)`, clamped to the depth's
/// range (the gray sample for grayscale layouts).
pub open spec fn src_g(rgb: RgbImage, x: int, y: int) -> int {
    clamp_i(rgb_chan(rgb, x, y, offset_g(rgb.format) as int), 0, depth_max(rgb.depth) as int)
}

/// The blue source sample of pixel `(x, y)`, clamped to the depth's range
/// (the gray sample for grayscale layouts).
pub open spec fn src_b(rgb: RgbImage, x: int, y: int) -> int {
    clamp_i(rgb_chan(rgb, x, y, offset_b(rgb.format) as int), 0, depth_max(rgb.depth) as int)
}

/// The alpha source sample of pixel `(x, y)`, clamped to the depth's
/// range; opaque when the layout has no alpha or alpha is ignored.
pub open spec fn src_a(rgb: RgbImage, x: int, y: int) -> int {
    if has_alpha_of(rgb.format) && !rgb.ignore_alpha {
        clamp_i(rgb_chan(rgb, x, y, offset_a(rgb.format) as int), 0, depth_max(rgb.depth) as int)
    } else {
        depth_max(rgb.depth) as int
    }
}

/// The converted luma sample of pixel `(x, y)`: the green channel under
/// the identity matrix, the weighted transform otherwise.
pub open spec fn conv_y_at(rgb: RgbImage, mc: u16, range: YuvRange, x: int, y: int) -> int {
    if mc == 0 {
        src_g(rgb, x, y)
    } else {
        spec_y(
            src_r(rgb, x, y),
            src_g(rgb, x, y),
            src_b(rgb, x, y),
            coeff_kr(mc),
            coeff_kb(mc),
            rgb.depth,
            range,
        )
    }
}

/// The full-resolution chroma sample of pixel `(x, y)`; `second` selects
/// the red-difference plane. Under the identity matrix the chroma planes
/// carry blue and red directly.
pub open spec fn full_chroma_at(
    rgb: RgbImage,
    mc: u16,
    range: YuvRange,
    second: bool,
    x: int,
    y: int,
) -> int {
    if mc == 0 {
        if second {
            src_r(rgb, x, y)
        } else {
            src_b(rgb, x, y)
        }
    } else {
        if second {
            spec_v(
                src_r(rgb, x, y),
                src_g(rgb, x, y),
                src_b(rgb, x, y),
                coeff_kr(mc),
                coeff_kb(mc),
                rgb.depth,
                range,
            )
        } else {
            spec_u(
                src_r(rgb, x, y),
                src_g(rgb, x, y),
                src_b(rgb, x, y),
                coeff_kr(mc),
                coeff_kb(mc),
                rgb.depth,
                range,
            )
        }
    }
}

/// The downsampled chroma sample at chroma position `(cx, cy)`.
///
/// With `nearest` the top-left source sample of the footprint is taken;
/// otherwise the present samples of the (up to 2 x 2) footprint are
/// averaged with rounding. `sx`/`sy` say whether the target format halves
/// the respective direction.
pub open spec fn down_chroma_at(
    rgb: RgbImage,
    mc: u16,
    range: YuvRange,
    second: bool,
    sx: bool,
    sy: bool,
    nearest: bool,
    cx: int,
    cy: int,
) -> int {
    let x0 = if sx {
        2 * cx
    } else {
        cx
    };
    let y0 = if sy {
        2 * cy
    } else {
        cy
    };
    if nearest {
        full_chroma_at(rgb, mc, range, second, x0, y0)
    } else {
        let hx = sx && x0 + 1 < rgb.width;
        let hy = sy && y0 + 1 < rgb.height;
        if hx && hy {
            rdiv(
                full_chroma_at(rgb, mc, range, second, x0, y0) + full_chroma_at(
                    rgb,
                    mc,
                    range,
                    second,
                    x0 + 1,
                    y0,
                ) + full_chroma_at(rgb, mc, range, second, x0, y0 + 1) + full_chroma_at(
                    rgb,
                    mc,
                    range,
                    second,
                    x0 + 1,
                    y0 + 1,
                ),
                4,
            )
        } else if hx {
            rdiv(
                full_chroma_at(rgb, mc, range, second, x0, y0) + full_chroma_at(
                    rgb,
                    mc,
                    range,
                    second,
                    x0 + 1,
                    y0,
                ),
                2,
            )
        } else if hy {
            rdiv(
                full_chroma_at(rgb, mc, range, second, x0, y0) + full_chroma_at(
                    rgb,
                    mc,
                    range,
                    second,
                    x0,
                    y0 + 1,
                ),
                2,
            )
        } else {
            full_chroma_at(rgb, mc, range, second, x0, y0)
        }
    }
}

/// Whether a downsampling choice decimates (nearest) rather than
/// averages. Only the fastest mode decimates; the sharp mode's edge-aware
/// refinement is not implemented and uses the box filter as well.
pub open spec fn down_is_nearest(m: ChromaDownsampling) -> bool {
    m is Fastest
}

/// The converted luma plane of an RGB image, row-major.
pub open spec fn conv_y_plane(rgb: RgbImage, mc: u16, range: YuvRange) -> Seq<u16> {
    Seq::new(
        (rgb.width * rgb.height) as nat,
        |i: int| conv_y_at(rgb, mc, range, i % (rgb.width as int), i / (rgb.width as int)) as u16,
    )
}

/// One converted, downsampled chroma plane of an RGB image, row-major at
/// the chroma resolution of the target format.
pub open spec fn conv_chroma_plane(
    rgb: RgbImage,
    mc: u16,
    range: YuvRange,
    f: PixelFormat,
    second: bool,
    nearest: bool,
) -> Seq<u16> {
    let cw = chroma_width(f, rgb.width as nat) as int;
    let ch = chroma_height(f, rgb.height as nat) as int;
    Seq::new(
        (cw * ch) as nat,
        |i: int| down_chroma_at(
            rgb,
            mc,
            range,
            second,
            subsampled_x(f),
            subsampled_y(f),
            nearest,
            i % cw,
            i / cw,
        ) as u16,
    )
}

/// The converted alpha plane of an RGB image: the source alpha samples,
/// or fully opaque when the layout has none (or alpha is ignored).
pub open spec fn conv_a_plane(rgb: RgbImage) -> Seq<u16> {
    Seq::new(
        (rgb.width * rgb.height) as nat,
        |i: int| src_a(rgb, i % (rgb.width as int), i / (rgb.width as int)) as u16,
    )
}

/// Row-major index decomposition stays in range.
pub(crate) proof fn lemma_grid_index(i: int, w: int, h: int)
    requires
        0 < w,
        0 < h,
        0 <= i < w * h,
    ensures
        0 <= i % w < w,
        0 <= i / w < h,
{
    vstd::arithmetic::div_mod::lemma_mod_division_less_than_divisor(i, w);
    vstd::arithmetic::div_mod::lemma_div_pos_is_pos(i, w);
    vstd::arithmetic::div_mod::lemma_multiply_divide_lt(i, w, h);
}

/// Twice a chroma coordinate stays below the luma extent it derives from.
pub(crate) proof fn lemma_chroma_coord(c: int, n: int)
    requires
        0 < n,
        0 <= c < (n + 1) / 2,
    ensures
        2 * c < n,
{
    assert(2 * ((n + 1) / 2) <= n + 1) by (nonlinear_arith);
}

} // verus!

verus! {

/// A channel's byte offset stays inside the buffer for an unpacked
/// layout.
proof fn lemma_chan_off_in_bounds(rgb: RgbImage, x: int, y: int, c: int)
    requires
        rgb.wf(),
        !(rgb.format is Rgb565),
        0 <= x < rgb.width,
        0 <= y < rgb.height,
        0 <= c < channel_count_of(rgb.format),
    ensures
        0 <= y * rgb.row_bytes,
        0 <= x * bytes_per_pixel(rgb.format, rgb.depth),
        0 <= c * sample_width(rgb.depth),
        0 <= chan_off(rgb, x, y, c),
        chan_off(rgb, x, y, c) + sample_width(rgb.depth) <= rgb.pixels@.len(),
{
    let rb = rgb.row_bytes as int;
    let bpp = bytes_per_pixel(rgb.format, rgb.depth) as int;
    let sw = sample_width(rgb.depth) as int;
    let chans = channel_count_of(rgb.format) as int;
    let w = rgb.width as int;
    let h = rgb.height as int;
    assert(bpp == chans * sw) by (nonlinear_arith)
        requires
            bpp == if sw == 2 {
                2 * chans
            } else {
                chans
            },
            sw == 1 || sw == 2,
    ;
    assert(y * rb + x * bpp + c * sw + sw <= rb * h) by (nonlinear_arith)
        requires
            rb == w * bpp,
            bpp == chans * sw,
            0 <= x < w,
            0 <= y < h,
            0 <= c < chans,
            0 < sw,
    ;
    assert(y * rb >= 0 && x * bpp >= 0 && c * sw >= 0) by (nonlinear_arith)
        requires
            0 <= x,
            0 <= y,
            0 <= c,
            0 <= rb,
            0 <= bpp,
            0 <= sw,
    ;
    assert(rb * h <= rgb.pixels@.len());
}

/// Reads channel `c` of pixel `(x, y)`, clamped to the depth's range.
fn read_chan_clamped(rgb: &RgbImage, x: u32, y: u32, c: u32) -> (v: u16)
    requires
        rgb.wf(),
        !(rgb.format is Rgb565),
        x < rgb.width,
        y < rgb.height,
        c < channel_count_of(rgb.format),
    ensures
        v == clamp_i(rgb_chan(*rgb, x as int, y as int, c as int), 0, depth_max(rgb.depth) as int),
        v <= depth_max(rgb.depth),
{
    let n: usize = rgb.pixels.len();
    proof {
        lemma_chan_off_in_bounds(*rgb, x as int, y as int, c as int);
    }
    let sw: usize = match rgb.depth {
        BitDepth::Eight => 1,
        _ => 2,
    };
    let bpp: u32 = rgb.pixel_size();
    let off: usize = (y as usize) * (rgb.row_bytes as usize) + (x as usize) * (bpp as usize) + (
    c as usize) * sw;
    let raw: u16 = match rgb.depth {
        BitDepth::Eight => rgb.pixels[off] as u16,
        _ => {
            let lo: u16 = rgb.pixels[off] as u16;
            let hi: u16 = rgb.pixels[off + 1] as u16;
            lo + 256 * hi
        },
    };
    let max: u16 = rgb.depth.max_sample();
    if raw > max {
        max
    } else {
        raw
    }
}

/// Returns the channel index of red (`< channel_count`).
fn offset_r_exec(f: RgbFormat) -> (c: u32)
    requires
        !(f is Rgb565),
    ensures
        c == offset_r(f),
        c < channel_count_of(f),
{
    match f {
        RgbFormat::Rgb | RgbFormat::Rgba => 0,
        RgbFormat::Argb => 1,
        RgbFormat::Bgr | RgbFormat::Bgra => 2,
        RgbFormat::Abgr => 3,
        RgbFormat::Gray | RgbFormat::GrayA => 0,
        RgbFormat::AGray => 1,
        RgbFormat::Rgb565 => 0,
    }
}

/// Returns the channel index of green (`< channel_count`).
fn offset_g_exec(f: RgbFormat) -> (c: u32)
    requires
        !(f is Rgb565),
    ensures
        c == offset_g(f),
        c < channel_count_of(f),
{
    match f {
        RgbFormat::Rgb | RgbFormat::Rgba | RgbFormat::Bgr | RgbFormat::Bgra => 1,
        RgbFormat::Argb | RgbFormat::Abgr => 2,
        RgbFormat::Gray | RgbFormat::GrayA => 0,
        RgbFormat::AGray => 1,
        RgbFormat::Rgb565 => 0,
    }
}

/// Returns the channel index of blue (`< channel_count`).
fn offset_b_exec(f: RgbFormat) -> (c: u32)
    requires
        !(f is Rgb565),
    ensures
        c == offset_b(f),
        c < channel_count_of(f),
{
    match f {
        RgbFormat::Rgb | RgbFormat::Rgba => 2,
        RgbFormat::Argb => 3,
        RgbFormat::Bgr | RgbFormat::Bgra => 0,
        RgbFormat::Abgr => 1,
        RgbFormat::Gray | RgbFormat::GrayA => 0,
        RgbFormat::AGray => 1,
        RgbFormat::Rgb565 => 0,
    }
}

/// Returns the channel index of alpha (`< channel_count`), for layouts
/// that have one.
fn offset_a_exec(f: RgbFormat) -> (c: u32)
    requires
        has_alpha_of(f),
    ensures
        c == offset_a(f),
        c < channel_count_of(f),
{
    match f {
        RgbFormat::Rgba | RgbFormat::Bgra => 3,
        RgbFormat::Argb | RgbFormat::Abgr => 0,
        RgbFormat::GrayA => 1,
        RgbFormat::AGray => 0,
        _ => 0,
    }
}

/// Computes the converted luma sample of pixel `(x, y)`.
fn full_y_exec(rgb: &RgbImage, mc: u16, range: YuvRange, x: u32, y: u32) -> (v: u16)
    requires
        rgb.wf(),
        !(rgb.format is Rgb565),
        x < rgb.width,
        y < rgb.height,
    ensures
        v == conv_y_at(*rgb, mc, range, x as int, y as int),
        v <= depth_max(rgb.depth),
{
    let r = read_chan_clamped(rgb, x, y, offset_r_exec(rgb.format));
    let g = read_chan_clamped(rgb, x, y, offset_g_exec(rgb.format));
    let b = read_chan_clamped(rgb, x, y, offset_b_exec(rgb.format));
    if mc == 0 {
        g
    } else {
        let k = coeffs_exec(mc);
        conv_y_exec(r, g, b, k.0, k.1, rgb.depth, range)
    }
}

/// Computes one full-resolution chroma sample of pixel `(x, y)`.
fn full_chroma_exec(rgb: &RgbImage, mc: u16, range: YuvRange, second: bool, x: u32, y: u32) -> (v:
    u16)
    requires
        rgb.wf(),
        !(rgb.format is Rgb565),
        x < rgb.width,
        y < rgb.height,
    ensures
        v == full_chroma_at(*rgb, mc, range, second, x as int, y as int),
        v <= depth_max(rgb.depth),
{
    let r = read_chan_clamped(rgb, x, y, offset_r_exec(rgb.format));
    let g = read_chan_clamped(rgb, x, y, offset_g_exec(rgb.format));
    let b = read_chan_clamped(rgb, x, y, offset_b_exec(rgb.format));
    if mc == 0 {
        if second {
            r
        } else {
            b
        }
    } else {
        let k = coeffs_exec(mc);
        if second {
            conv_v_exec(r, g, b, k.0, k.1, rgb.depth, range)
        } else {
            conv_u_exec(r, g, b, k.0, k.1, rgb.depth, range)
        }
    }
}

} // verus!

verus! {

/// Builds the converted luma plane of an RGB image.
fn build_y_plane(rgb: &RgbImage, mc: u16, range: YuvRange) -> (r: Vec<u16>)
    requires
        rgb.wf(),
        !(rgb.format is Rgb565),
        0 < rgb.width,
        0 < rgb.height,
        rgb.width * rgb.height <= crate::image::MAX_PLANE_SAMPLES,
    ensures
        r@ == conv_y_plane(*rgb, mc, range),
        samples_ok(r@, rgb.depth),
{
    let w: u32 = rgb.width;
    let h: u32 = rgb.height;
    proof {
        crate::image::lemma_mul_le(w as nat, h as nat, 0xFFFF_FFFF as nat, 0xFFFF_FFFF as nat);
    }
    let total: usize = ((w as u64) * (h as u64)) as usize;
    let ghost g = conv_y_plane(*rgb, mc, range);
    let mut out: Vec<u16> = Vec::new();
    let mut i: usize = 0;
    while i < total
        invariant
            i <= total,
            total == rgb.width * rgb.height,
            w == rgb.width,
            h == rgb.height,
            0 < w,
            0 < h,
            rgb.wf(),
            !(rgb.format is Rgb565),
            g == conv_y_plane(*rgb, mc, range),
            out@.len() == i,
            forall|k: int| 0 <= k < i ==> out@[k] == g[k],
            forall|k: int| 0 <= k < i ==> out@[k] <= depth_max(rgb.depth),
        decreases total - i,
    {
        proof {
            lemma_grid_index(i as int, w as int, h as int);
        }
        let x: u32 = (i % (w as usize)) as u32;
        let y: u32 = (i / (w as usize)) as u32;
        let v = full_y_exec(rgb, mc, range, x, y);
        out.push(v);
        i = i + 1;
    }
    proof {
        assert(out@ =~= g);
    }
    out
}

/// Builds one converted, downsampled chroma plane of an RGB image.
#[verifier::rlimit(100)]
fn build_chroma_plane(
    rgb: &RgbImage,
    mc: u16,
    range: YuvRange,
    f: PixelFormat,
    second: bool,
    nearest: bool,
) -> (r: Vec<u16>)
    requires
        rgb.wf(),
        !(rgb.format is Rgb565),
        has_chroma(f),
        0 < rgb.width,
        0 < rgb.height,
        rgb.width * rgb.height <= crate::image::MAX_PLANE_SAMPLES,
    ensures
        r@ == conv_chroma_plane(*rgb, mc, range, f, second, nearest),
        samples_ok(r@, rgb.depth),
{
    let w: u32 = rgb.width;
    let h: u32 = rgb.height;
    let cw: u32 = crate::image::chroma_w_exec(f, w);
    let ch: u32 = crate::image::chroma_h_exec(f, h);
    proof {
        crate::image::lemma_mul_le(cw as nat, ch as nat, w as nat, h as nat);
    }
    let total: usize = ((cw as u64) * (ch as u64)) as usize;
    let sx: bool = match f {
        PixelFormat::Yuv422 | PixelFormat::Yuv420 => true,
        _ => false,
    };
    let sy: bool = match f {
        PixelFormat::Yuv420 => true,
        _ => false,
    };
    let ghost g = conv_chroma_plane(*rgb, mc, range, f, second, nearest);
    let mut out: Vec<u16> = Vec::new();
    let mut i: usize = 0;
    while i < total
        invariant
            i <= total,
            total == cw * ch,
            cw == chroma_width(f, rgb.width as nat),
            ch == chroma_height(f, rgb.height as nat),
            sx == subsampled_x(f),
            sy == subsampled_y(f),
            w == rgb.width,
            h == rgb.height,
            0 < w,
            0 < h,
            0 < cw,
            0 < ch,
            rgb.wf(),
            !(rgb.format is Rgb565),
            has_chroma(f),
            g == conv_chroma_plane(*rgb, mc, range, f, second, nearest),
            out@.len() == i,
            forall|k: int| 0 <= k < i ==> out@[k] == g[k],
            forall|k: int| 0 <= k < i ==> out@[k] <= depth_max(rgb.depth),
        decreases total - i,
    {
        proof {
            lemma_grid_index(i as int, cw as int, ch as int);
            if sx {
                lemma_chroma_coord((i as int) % (cw as int), w as int);
            }
            if sy {
                lemma_chroma_coord((i as int) / (cw as int), h as int);
            }
        }
        let cx: u32 = (i % (cw as usize)) as u32;
        let cy: u32 = (i / (cw as usize)) as u32;
        let x0: u32 = if sx {
            2 * cx
        } else {
            cx
        };
        let y0: u32 = if sy {
            2 * cy
        } else {
            cy
        };
        let v: u16;
        if nearest {
            v = full_chroma_exec(rgb, mc, range, second, x0, y0);
        } else {
            let hx: bool = sx && x0 + 1 < w;
            let hy: bool = sy && y0 + 1 < h;
            let c00: u64 = full_chroma_exec(rgb, mc, range, second, x0, y0) as u64;
            if hx && hy {
                let c10: u64 = full_chroma_exec(rgb, mc, range, second, x0 + 1, y0) as u64;
                let c01: u64 = full_chroma_exec(rgb, mc, range, second, x0, y0 + 1) as u64;
                let c11: u64 = full_chroma_exec(rgb, mc, range, second, x0 + 1, y0 + 1) as u64;
                v = rdiv_u64(c00 + c10 + c01 + c11, 4) as u16;
            } else if hx {
                let c10: u64 = full_chroma_exec(rgb, mc, range, second, x0 + 1, y0) as u64;
                v = rdiv_u64(c00 + c10, 2) as u16;
            } else if hy {
                let c01: u64 = full_chroma_exec(rgb, mc, range, second, x0, y0 + 1) as u64;
                v = rdiv_u64(c00 + c01, 2) as u16;
            } else {
                v = c00 as u16;
            }
        }
        out.push(v);
        i = i + 1;
    }
    proof {
        assert(out@ =~= g);
    }
    out
}

/// Builds the converted alpha plane of an RGB image.
fn build_a_plane(rgb: &RgbImage) -> (r: Vec<u16>)
    requires
        rgb.wf(),
        !(rgb.format is Rgb565),
        0 < rgb.width,
        0 < rgb.height,
        rgb.width * rgb.height <= crate::image::MAX_PLANE_SAMPLES,
    ensures
        r@ == conv_a_plane(*rgb),
        samples_ok(r@, rgb.depth),
{
    let w: u32 = rgb.width;
    let h: u32 = rgb.height;
    proof {
        crate::image::lemma_mul_le(w as nat, h as nat, 0xFFFF_FFFF as nat, 0xFFFF_FFFF as nat);
    }
    let total: usize = ((w as u64) * (h as u64)) as usize;
    let take_alpha: bool = rgb.has_alpha() && !rgb.ignore_alpha;
    let max: u16 = rgb.depth.max_sample();
    let ghost g = conv_a_plane(*rgb);
    let mut out: Vec<u16> = Vec::new();
    let mut i: usize = 0;
    while i < total
        invariant
            i <= total,
            total == rgb.width * rgb.height,
            w == rgb.width,
            h == rgb.height,
            0 < w,
            0 < h,
            rgb.wf(),
            !(rgb.format is Rgb565),
            take_alpha == (has_alpha_of(rgb.format) && !rgb.ignore_alpha),
            max == depth_max(rgb.depth),
            g == conv_a_plane(*rgb),
            out@.len() == i,
            forall|k: int| 0 <= k < i ==> out@[k] == g[k],
            forall|k: int| 0 <= k < i ==> out@[k] <= depth_max(rgb.depth),
        decreases total - i,
    {
        proof {
            lemma_grid_index(i as int, w as int, h as int);
        }
        let x: u32 = (i % (w as usize)) as u32;
        let y: u32 = (i / (w as usize)) as u32;
        let v: u16 = if take_alpha {
            read_chan_clamped(rgb, x, y, offset_a_exec(rgb.format))
        } else {
            max
        };
        out.push(v);
        i = i + 1;
    }
    proof {
        assert(out@ =~= g);
    }
    out
}

/// The condition under which an RGB-to-YUV conversion is refused, with
/// its error kind; `None` means the conversion runs.
pub open spec fn rgb_to_yuv_check(rgb: RgbImage, img: Image) -> Option<AvifError> {
    if rgb.is_float {
        Option::Some(AvifError::ReformatFailed)
    } else if rgb.format is Rgb565 {
        Option::Some(AvifError::ReformatFailed)
    } else if img.yuv_format is NoFormat {
        Option::Some(AvifError::NoYuvFormatSelected)
    } else if rgb.width != img.width || rgb.height != img.height {
        Option::Some(AvifError::ReformatFailed)
    } else if rgb.depth != img.depth {
        Option::Some(AvifError::ReformatFailed)
    } else if img.matrix_coefficients == 0 && !(img.yuv_format is Yuv444 && img.yuv_range is Full) {
        Option::Some(AvifError::ReformatFailed)
    } else if img.luma_count() > crate::image::MAX_PLANE_SAMPLES {
        Option::Some(AvifError::OutOfMemory)
    } else {
        Option::None
    }
}

/// What a successful RGB-to-YUV conversion leaves in the target image:
/// metadata unchanged except the premultiplication flag taken from the
/// source, and planes equal to the converted RGB data.
pub open spec fn rgb_to_yuv_post(rgb: RgbImage, before: Image, after: Image) -> bool {
    &&& crate::image::same_meta(
        after,
        Image { alpha_premultiplied: rgb.alpha_premultiplied, ..before },
    )
    &&& after.planes matches Option::Some(p) && {
        let nearest = down_is_nearest(rgb.chroma_downsampling);
        &&& p.y@ == conv_y_plane(rgb, before.matrix_coefficients, before.yuv_range)
        &&& has_chroma(before.yuv_format) ==> p.u@ == conv_chroma_plane(
            rgb,
            before.matrix_coefficients,
            before.yuv_range,
            before.yuv_format,
            false,
            nearest,
        ) && p.v@ == conv_chroma_plane(
            rgb,
            before.matrix_coefficients,
            before.yuv_range,
            before.yuv_format,
            true,
            nearest,
        )
        &&& !has_chroma(before.yuv_format) ==> p.u@ == Seq::<u16>::empty() && p.v@
            == Seq::<u16>::empty()
        &&& p.a matches Option::Some(a) && a@ == conv_a_plane(rgb)
    }
}

/// Converts an interleaved RGB image into the planar image, replacing its
/// planes.
///
/// The target image's format, range and matrix coefficients select the
/// transform; its dimensions and depth must match the source. The
/// identity matrix demands 4:4:4 full range. Refusals leave the image
/// untouched; see [`rgb_to_yuv_check`] for the error taxonomy.
#[verifier::rlimit(100)]
pub fn rgb_to_yuv_into(rgb: &RgbImage, image: &mut Image) -> (r: Result<(), AvifError>)
    requires
        rgb.wf(),
        old(image).wf(),
    ensures
        final(image).wf(),
        match rgb_to_yuv_check(*rgb, *old(image)) {
            Option::Some(e) => r == Result::<(), AvifError>::Err(e) && *final(image) == *old(image),
            Option::None => r == Result::<(), AvifError>::Ok(()) && rgb_to_yuv_post(
                *rgb,
                *old(image),
                *final(image),
            ),
        },
{
    if rgb.is_float {
        return Err(AvifError::ReformatFailed);
    }
    match rgb.format {
        RgbFormat::Rgb565 => {
            return Err(AvifError::ReformatFailed);
        },
        _ => {},
    }
    match image.yuv_format {
        PixelFormat::NoFormat => {
            return Err(AvifError::NoYuvFormatSelected);
        },
        _ => {},
    }
    if rgb.width != image.width || rgb.height != image.height {
        return Err(AvifError::ReformatFailed);
    }
    if !matches!(rgb.depth, BitDepth::Eight) && matches!(image.depth, BitDepth::Eight)
        || !matches!(rgb.depth, BitDepth::Ten) && matches!(image.depth, BitDepth::Ten)
        || !matches!(rgb.depth, BitDepth::Twelve) && matches!(image.depth, BitDepth::Twelve) {
        return Err(AvifError::ReformatFailed);
    }
    if image.matrix_coefficients == 0 && !(matches!(image.yuv_format, PixelFormat::Yuv444)
        && matches!(image.yuv_range, YuvRange::Full)) {
        return Err(AvifError::ReformatFailed);
    }
    proof {
        crate::image::lemma_mul_le(
            image.width as nat,
            image.height as nat,
            0xFFFF_FFFF as nat,
            0xFFFF_FFFF as nat,
        );
    }
    let luma: u64 = (image.width as u64) * (image.height as u64);
    if luma > crate::image::MAX_PLANE_SAMPLES {
        return Err(AvifError::OutOfMemory);
    }
    let mc: u16 = image.matrix_coefficients;
    let range: YuvRange = image.yuv_range;
    let f: PixelFormat = image.yuv_format;
    let nearest: bool = matches!(rgb.chroma_downsampling, ChromaDownsampling::Fastest);
    let y = build_y_plane(rgb, mc, range);
    let a = build_a_plane(rgb);
    let u: Vec<u16>;
    let v: Vec<u16>;
    if f.has_chroma_planes() {
        u = build_chroma_plane(rgb, mc, range, f, false, nearest);
        v = build_chroma_plane(rgb, mc, range, f, true, nearest);
    } else {
        u = Vec::new();
        v = Vec::new();
    }
    image.planes = Option::Some(Planes { y, u, v, a: Option::Some(a) });
    image.alpha_premultiplied = rgb.alpha_premultiplied;
    Ok(())
}

} // verus!

verus! {

/// The luma sample of a planar image at `(x, y)`.
pub open spec fn y_sample(img: Image, x: int, y: int) -> int {
    match img.planes {
        Option::Some(p) => p.y@[y * img.width + x] as int,
        Option::None => 0,
    }
}

/// One chroma sample of a planar image at chroma position `(cx, cy)`;
/// `second` selects the red-difference plane.
pub open spec fn c_sample(img: Image, second: bool, cx: int, cy: int) -> int {
    match img.planes {
        Option::Some(p) => if second {
            p.v@[cy * img.chroma_w() + cx] as int
        } else {
            p.u@[cy * img.chroma_w() + cx] as int
        },
        Option::None => 0,
    }
}

/// The alpha sample of a planar image at `(x, y)`, or fully opaque when
/// the image has no alpha plane.
pub open spec fn a_sample_or_max(img: Image, x: int, y: int) -> int {
    match img.planes {
        Option::Some(p) => match p.a {
            Option::Some(a) => a@[y * img.width + x] as int,
            Option::None => depth_max(img.depth) as int,
        },
        Option::None => depth_max(img.depth) as int,
    }
}

/// The chroma sample upsampled to luma position `(x, y)`.
///
/// Images without chroma planes yield the neutral value. `bilinear`
/// interpolates between the surrounding chroma samples with the standard
/// 3:1 weights (9/3/3/1 when both directions are halved), replicating at
/// the edges; otherwise the nearest sample is taken.
pub open spec fn up_chroma_at(img: Image, second: bool, bilinear: bool, x: int, y: int) -> int {
    if !has_chroma(img.yuv_format) {
        chroma_half(img.depth)
    } else {
        let sx = subsampled_x(img.yuv_format);
        let sy = subsampled_y(img.yuv_format);
        let cw = img.chroma_w() as int;
        let chh = img.chroma_h() as int;
        let cx = if sx {
            x / 2
        } else {
            x
        };
        let cy = if sy {
            y / 2
        } else {
            y
        };
        if !bilinear || (!sx && !sy) {
            c_sample(img, second, cx, cy)
        } else {
            let nx = if sx {
                clamp_i(
                    if x % 2 == 1 {
                        cx + 1
                    } else {
                        cx - 1
                    },
                    0,
                    cw - 1,
                )
            } else {
                cx
            };
            let ny = if sy {
                clamp_i(
                    if y % 2 == 1 {
                        cy + 1
                    } else {
                        cy - 1
                    },
                    0,
                    chh - 1,
                )
            } else {
                cy
            };
            if sx && sy {
                rdiv(
                    9 * c_sample(img, second, cx, cy) + 3 * c_sample(img, second, nx, cy) + 3
                        * c_sample(img, second, cx, ny) + c_sample(img, second, nx, ny),
                    16,
                )
            } else {
                rdiv(3 * c_sample(img, second, cx, cy) + c_sample(img, second, nx, cy), 4)
            }
        }
    }
}

/// Whether an upsampling choice interpolates (bilinear) rather than
/// replicating the nearest sample. The automatic and best-quality modes
/// pick the bilinear filter, the highest quality available here.
pub open spec fn up_is_bilinear(m: ChromaUpsampling) -> bool {
    !(m is Fastest || m is Nearest)
}

/// The reconstructed red value at `(x, y)`: the red-difference plane
/// under the identity matrix, the inverse transform otherwise.
pub open spec fn out_r_val(img: Image, bilinear: bool, x: int, y: int) -> int {
    let mc = img.matrix_coefficients;
    if mc == 0 {
        up_chroma_at(img, true, bilinear, x, y)
    } else {
        spec_r(
            y_sample(img, x, y),
            up_chroma_at(img, true, bilinear, x, y),
            coeff_kr(mc),
            coeff_kb(mc),
            img.depth,
            img.yuv_range,
        )
    }
}

/// The reconstructed green value at `(x, y)`.
pub open spec fn out_g_val(img: Image, bilinear: bool, x: int, y: int) -> int {
    let mc = img.matrix_coefficients;
    if mc == 0 {
        y_sample(img, x, y)
    } else {
        spec_g(
            y_sample(img, x, y),
            up_chroma_at(img, false, bilinear, x, y),
            up_chroma_at(img, true, bilinear, x, y),
            coeff_kr(mc),
            coeff_kb(mc),
            img.depth,
            img.yuv_range,
        )
    }
}

/// The reconstructed blue value at `(x, y)`.
pub open spec fn out_b_val(img: Image, bilinear: bool, x: int, y: int) -> int {
    let mc = img.matrix_coefficients;
    if mc == 0 {
        up_chroma_at(img, false, bilinear, x, y)
    } else {
        spec_b(
            y_sample(img, x, y),
            up_chroma_at(img, false, bilinear, x, y),
            coeff_kr(mc),
            coeff_kb(mc),
            img.depth,
            img.yuv_range,
        )
    }
}

/// The reconstructed RGB channel sample `c` at `(x, y)` for an unpacked
/// layout.
pub open spec fn out_sample(img: Image, fmt: RgbFormat, bilinear: bool, x: int, y: int, c: int) -> int {
    if has_alpha_of(fmt) && c == offset_a(fmt) {
        a_sample_or_max(img, x, y)
    } else if is_gray_of(fmt) {
        spec_gray(y_sample(img, x, y), img.depth, img.yuv_range)
    } else {
        if c == offset_r(fmt) {
            out_r_val(img, bilinear, x, y)
        } else if c == offset_g(fmt) {
            out_g_val(img, bilinear, x, y)
        } else {
            out_b_val(img, bilinear, x, y)
        }
    }
}

/// Packs three 8-bit samples into a 5-6-5 pixel value.
pub open spec fn pack565(r: int, g: int, b: int) -> int {
    (r / 8) * 2048 + (g / 4) * 32 + b / 8
}

/// The byte at position `b` of the RGB buffer after a YUV-to-RGB
/// conversion: bytes of pixels in the row region are reconstructed,
/// everything else keeps its old value.
pub open spec fn out_byte(img: Image, rgb: RgbImage, b: int) -> u8 {
    let rb = rgb.row_bytes as int;
    let bpp = bytes_per_pixel(rgb.format, rgb.depth) as int;
    let bilinear = up_is_bilinear(rgb.chroma_upsampling);
    let yy = b / rb;
    let rr = b % rb;
    let x = rr / bpp;
    let k = rr % bpp;
    if yy < rgb.height {
        if rgb.format is Rgb565 {
            let p = pack565(
                out_r_val(img, bilinear, x, yy),
                out_g_val(img, bilinear, x, yy),
                out_b_val(img, bilinear, x, yy),
            );
            if k == 0 {
                (p % 256) as u8
            } else {
                (p / 256) as u8
            }
        } else {
            let sw = sample_width(rgb.depth) as int;
            let c = k / sw;
            let v = out_sample(img, rgb.format, bilinear, x, yy, c);
            if sw == 1 {
                v as u8
            } else if k % sw == 0 {
                (v % 256) as u8
            } else {
                (v / 256) as u8
            }
        }
    } else {
        rgb.pixels@[b]
    }
}

/// The whole RGB buffer after a YUV-to-RGB conversion.
pub open spec fn conv_rgb_buffer(img: Image, rgb: RgbImage) -> Seq<u8> {
    Seq::new(rgb.pixels@.len(), |b: int| out_byte(img, rgb, b))
}

/// A row-major position index stays inside the plane.
pub(crate) proof fn lemma_pix_index(x: int, y: int, w: int, h: int)
    requires
        0 <= x < w,
        0 <= y < h,
    ensures
        0 <= y * w + x < w * h,
{
    assert(0 <= y * w + x < w * h) by (nonlinear_arith)
        requires
            0 <= x < w,
            0 <= y < h,
    ;
}

/// Positions at or beyond the row region decompose to a row index at or
/// beyond the image height.
proof fn lemma_out_region(b: int, rb: int, h: int)
    requires
        0 < rb,
        0 <= h,
        rb * h <= b,
    ensures
        b / rb >= h,
{
    vstd::arithmetic::div_mod::lemma_div_multiples_vanish(h, rb);
    vstd::arithmetic::div_mod::lemma_div_is_ordered(rb * h, b, rb);
}

} // verus!

verus! {

/// Reads the luma sample at `(x, y)`.
fn y_sample_exec(img: &Image, x: u32, y: u32) -> (v: u16)
    requires
        img.wf(),
        img.planes is Some,
        x < img.width,
        y < img.height,
    ensures
        v == y_sample(*img, x as int, y as int),
        v <= depth_max(img.depth),
{
    proof {
        lemma_pix_index(x as int, y as int, img.width as int, img.height as int);
    }
    match &img.planes {
        Option::Some(p) => p.y[(y as usize) * (img.width as usize) + (x as usize)],
        Option::None => 0,
    }
}

/// Reads one chroma sample at chroma position `(cx, cy)`.
fn c_sample_exec(img: &Image, second: bool, cx: u32, cy: u32) -> (v: u16)
    requires
        img.wf(),
        img.planes is Some,
        has_chroma(img.yuv_format),
        cx < img.chroma_w(),
        cy < img.chroma_h(),
    ensures
        v == c_sample(*img, second, cx as int, cy as int),
        v <= depth_max(img.depth),
{
    let cw: u32 = crate::image::chroma_w_exec(img.yuv_format, img.width);
    proof {
        lemma_pix_index(cx as int, cy as int, img.chroma_w() as int, img.chroma_h() as int);
        crate::image::lemma_mul_le(
            img.chroma_w(),
            img.chroma_h(),
            img.width as nat,
            img.height as nat,
        );
    }
    match &img.planes {
        Option::Some(p) => {
            let idx: usize = (cy as usize) * (cw as usize) + (cx as usize);
            if second {
                p.v[idx]
            } else {
                p.u[idx]
            }
        },
        Option::None => 0,
    }
}

/// Reads the alpha sample at `(x, y)`, or the opaque maximum without an
/// alpha plane.
fn a_sample_exec(img: &Image, x: u32, y: u32) -> (v: u16)
    requires
        img.wf(),
        img.planes is Some,
        x < img.width,
        y < img.height,
    ensures
        v == a_sample_or_max(*img, x as int, y as int),
        v <= depth_max(img.depth),
{
    proof {
        lemma_pix_index(x as int, y as int, img.width as int, img.height as int);
    }
    match &img.planes {
        Option::Some(p) => match &p.a {
            Option::Some(a) => a[(y as usize) * (img.width as usize) + (x as usize)],
            Option::None => img.depth.max_sample(),
        },
        Option::None => img.depth.max_sample(),
    }
}

/// Upsamples one chroma sample to luma position `(x, y)`.
#[verifier::rlimit(60)]
fn up_chroma_exec(img: &Image, second: bool, bilinear: bool, x: u32, y: u32) -> (v: u16)
    requires
        img.wf(),
        img.planes is Some,
        x < img.width,
        y < img.height,
    ensures
        v == up_chroma_at(*img, second, bilinear, x as int, y as int),
        v <= depth_max(img.depth),
{
    if !img.yuv_format.has_chroma_planes() {
        let half: u16 = match img.depth {
            BitDepth::Eight => 128,
            BitDepth::Ten => 512,
            BitDepth::Twelve => 2048,
        };
        return half;
    }
    let sx: bool = match img.yuv_format {
        PixelFormat::Yuv422 | PixelFormat::Yuv420 => true,
        _ => false,
    };
    let sy: bool = match img.yuv_format {
        PixelFormat::Yuv420 => true,
        _ => false,
    };
    let cw: u32 = crate::image::chroma_w_exec(img.yuv_format, img.width);
    let ch: u32 = crate::image::chroma_h_exec(img.yuv_format, img.height);
    let cx: u32 = if sx {
        x / 2
    } else {
        x
    };
    let cy: u32 = if sy {
        y / 2
    } else {
        y
    };
    proof {
        assert(cx < cw && cy < ch);
    }
    if !bilinear || (!sx && !sy) {
        return c_sample_exec(img, second, cx, cy);
    }
    let nx: u32 = if sx {
        if x % 2 == 1 {
            if cx + 1 <= cw - 1 {
                cx + 1
            } else {
                cw - 1
            }
        } else {
            if cx >= 1 {
                cx - 1
            } else {
                0
            }
        }
    } else {
        cx
    };
    let ny: u32 = if sy {
        if y % 2 == 1 {
            if cy + 1 <= ch - 1 {
                cy + 1
            } else {
                ch - 1
            }
        } else {
            if cy >= 1 {
                cy - 1
            } else {
                0
            }
        }
    } else {
        cy
    };
    if sx && sy {
        let c00: u64 = c_sample_exec(img, second, cx, cy) as u64;
        let c10: u64 = c_sample_exec(img, second, nx, cy) as u64;
        let c01: u64 = c_sample_exec(img, second, cx, ny) as u64;
        let c11: u64 = c_sample_exec(img, second, nx, ny) as u64;
        rdiv_u64(9 * c00 + 3 * c10 + 3 * c01 + c11, 16) as u16
    } else {
        let c0: u64 = c_sample_exec(img, second, cx, cy) as u64;
        let c1: u64 = c_sample_exec(img, second, nx, cy) as u64;
        rdiv_u64(3 * c0 + c1, 4) as u16
    }
}

/// Computes the reconstructed RGB channel sample `c` at `(x, y)`.
fn out_sample_exec(img: &Image, fmt: RgbFormat, bilinear: bool, x: u32, y: u32, c: u32) -> (v: u16)
    requires
        img.wf(),
        img.planes is Some,
        !(fmt is Rgb565),
        x < img.width,
        y < img.height,
    ensures
        v == out_sample(*img, fmt, bilinear, x as int, y as int, c as int),
        v <= depth_max(img.depth),
{
    let yv: u16 = y_sample_exec(img, x, y);
    let has_a: bool = match fmt {
        RgbFormat::Rgba | RgbFormat::Argb | RgbFormat::Bgra | RgbFormat::Abgr | RgbFormat::GrayA
            | RgbFormat::AGray => true,
        _ => false,
    };
    if has_a && c == offset_a_exec(fmt) {
        return a_sample_exec(img, x, y);
    }
    let gray: bool = match fmt {
        RgbFormat::Gray | RgbFormat::GrayA | RgbFormat::AGray => true,
        _ => false,
    };
    if gray {
        return conv_gray_exec(yv, img.depth, img.yuv_range);
    }
    let vals = rgb_vals_exec(img, bilinear, x, y);
    if c == offset_r_exec(fmt) {
        vals.0
    } else if c == offset_g_exec(fmt) {
        vals.1
    } else {
        vals.2
    }
}

/// Computes the reconstructed `(red, green, blue)` values at `(x, y)`.
fn rgb_vals_exec(img: &Image, bilinear: bool, x: u32, y: u32) -> (v: (u16, u16, u16))
    requires
        img.wf(),
        img.planes is Some,
        x < img.width,
        y < img.height,
    ensures
        v.0 == out_r_val(*img, bilinear, x as int, y as int),
        v.1 == out_g_val(*img, bilinear, x as int, y as int),
        v.2 == out_b_val(*img, bilinear, x as int, y as int),
        v.0 <= depth_max(img.depth),
        v.1 <= depth_max(img.depth),
        v.2 <= depth_max(img.depth),
{
    let yv: u16 = y_sample_exec(img, x, y);
    let uu: u16 = up_chroma_exec(img, false, bilinear, x, y);
    let vv: u16 = up_chroma_exec(img, true, bilinear, x, y);
    let mc: u16 = img.matrix_coefficients;
    if mc == 0 {
        (vv, yv, uu)
    } else {
        let k = coeffs_exec(mc);
        let r = conv_r_exec(yv, vv, k.0, k.1, img.depth, img.yuv_range);
        let g = conv_g_exec(yv, uu, vv, k.0, k.1, img.depth, img.yuv_range);
        let b = conv_b_exec(yv, uu, k.0, k.1, img.depth, img.yuv_range);
        (r, g, b)
    }
}

} // verus!

verus! {

/// Builds the reconstructed RGB buffer: pixels of the row region are
/// converted, bytes beyond it keep their old values.
fn build_rgb_buffer(img: &Image, rgb: &RgbImage) -> (out: Vec<u8>)
    requires
        img.wf(),
        img.planes is Some,
        rgb.wf(),
        rgb.width == img.width,
        rgb.height == img.height,
        rgb.depth == img.depth,
        rgb.format is Rgb565 ==> img.depth is Eight,
        0 < img.width,
        0 < img.height,
    ensures
        out@ == conv_rgb_buffer(*img, *rgb),
{
    let n: usize = rgb.pixels.len();
    let bpp: u32 = rgb.pixel_size();
    proof {
        assert(rgb.row_bytes >= 1) by (nonlinear_arith)
            requires
                rgb.row_bytes == rgb.width * bytes_per_pixel(rgb.format, rgb.depth),
                rgb.width >= 1,
                bytes_per_pixel(rgb.format, rgb.depth) >= 1,
        ;
    }
    let rb: usize = rgb.row_bytes as usize;
    let h: usize = rgb.height as usize;
    let bilinear: bool = match rgb.chroma_upsampling {
        ChromaUpsampling::Fastest | ChromaUpsampling::Nearest => false,
        _ => true,
    };
    let sw: usize = match rgb.depth {
        BitDepth::Eight => 1,
        _ => 2,
    };
    let ghost g = conv_rgb_buffer(*img, *rgb);
    let mut out: Vec<u8> = Vec::new();
    let mut b: usize = 0;
    while b < n
        invariant
            b <= n,
            n == rgb.pixels@.len(),
            rb == rgb.row_bytes,
            h == rgb.height,
            bpp == bytes_per_pixel(rgb.format, rgb.depth),
            sw == sample_width(rgb.depth),
            bilinear == up_is_bilinear(rgb.chroma_upsampling),
            0 < rb,
            0 < img.width,
            0 < img.height,
            img.wf(),
            img.planes is Some,
            rgb.wf(),
            rgb.width == img.width,
            rgb.height == img.height,
            rgb.depth == img.depth,
            rgb.format is Rgb565 ==> img.depth is Eight,
            g == conv_rgb_buffer(*img, *rgb),
            out@.len() == b,
            forall|k: int| 0 <= k < b ==> out@[k] == g[k],
        decreases n - b,
    {
        let yy: usize = b / rb;
        let byte: u8;
        if yy < h {
            proof {
                vstd::arithmetic::div_mod::lemma_mod_division_less_than_divisor(b as int, rb as int);
                assert((rb as int) == (bpp as int) * (rgb.width as int)) by (nonlinear_arith)
                    requires
                        rb == rgb.width * bpp,
                ;
                vstd::arithmetic::div_mod::lemma_multiply_divide_lt(
                    (b as int) % (rb as int),
                    bpp as int,
                    rgb.width as int,
                );
            }
            let rr: usize = b % rb;
            let x: usize = rr / (bpp as usize);
            let k: usize = rr % (bpp as usize);
            proof {
                vstd::arithmetic::div_mod::lemma_mod_division_less_than_divisor(
                    rr as int,
                    bpp as int,
                );
                vstd::arithmetic::div_mod::lemma_div_pos_is_pos(rr as int, bpp as int);
            }
            let is_565: bool = match rgb.format {
                RgbFormat::Rgb565 => true,
                _ => false,
            };
            if is_565 {
                let vals = rgb_vals_exec(img, bilinear, x as u32, yy as u32);
                let rv = vals.0;
                let gv = vals.1;
                let bv = vals.2;
                let p: u32 = ((rv / 8) as u32) * 2048 + ((gv / 4) as u32) * 32 + (bv / 8) as u32;
                byte = if k == 0 {
                    (p % 256) as u8
                } else {
                    (p / 256) as u8
                };
            } else {
                proof {
                    assert(k < sw * channel_count_of(rgb.format)) by (nonlinear_arith)
                        requires
                            k < bpp,
                            bpp == if sample_width(rgb.depth) == 2 {
                                2 * channel_count_of(rgb.format)
                            } else {
                                channel_count_of(rgb.format)
                            },
                            sample_width(rgb.depth) == 1 || sample_width(rgb.depth) == 2,
                            sw == sample_width(rgb.depth),
                    ;
                    vstd::arithmetic::div_mod::lemma_multiply_divide_lt(
                        k as int,
                        sw as int,
                        channel_count_of(rgb.format) as int,
                    );
                    vstd::arithmetic::div_mod::lemma_div_pos_is_pos(k as int, sw as int);
                }
                let c: usize = k / sw;
                let v = out_sample_exec(img, rgb.format, bilinear, x as u32, yy as u32, c as u32);
                byte = if sw == 1 {
                    v as u8
                } else if k % sw == 0 {
                    (v % 256) as u8
                } else {
                    (v / 256) as u8
                };
            }
        } else {
            byte = rgb.pixels[b];
        }
        out.push(byte);
        b = b + 1;
    }
    proof {
        assert(out@ =~= g);
    }
    out
}

/// The condition under which a YUV-to-RGB conversion is refused, with its
/// error kind; `None` means the conversion runs.
pub open spec fn yuv_to_rgb_check(img: Image, rgb: RgbImage) -> Option<AvifError> {
    if rgb.is_float {
        Option::Some(AvifError::ReformatFailed)
    } else if rgb.format is Rgb565 && !(rgb.depth is Eight) {
        Option::Some(AvifError::ReformatFailed)
    } else if img.yuv_format is NoFormat {
        Option::Some(AvifError::NoYuvFormatSelected)
    } else if img.planes is None {
        Option::Some(AvifError::NoContent)
    } else if rgb.width != img.width || rgb.height != img.height {
        Option::Some(AvifError::ReformatFailed)
    } else if rgb.depth != img.depth {
        Option::Some(AvifError::ReformatFailed)
    } else if img.matrix_coefficients == 0 && !(img.yuv_format is Yuv444 && img.yuv_range is Full) {
        Option::Some(AvifError::ReformatFailed)
    } else {
        Option::None
    }
}

/// What a successful YUV-to-RGB conversion leaves in the target: options
/// unchanged except the premultiplication flag taken from the image, and
/// the buffer rebuilt from the planes.
pub open spec fn yuv_to_rgb_post(img: Image, before: RgbImage, after: RgbImage) -> bool {
    &&& after.width == before.width
    &&& after.height == before.height
    &&& after.depth == before.depth
    &&& after.format == before.format
    &&& after.chroma_upsampling == before.chroma_upsampling
    &&& after.chroma_downsampling == before.chroma_downsampling
    &&& after.avoid_libyuv == before.avoid_libyuv
    &&& after.ignore_alpha == before.ignore_alpha
    &&& after.is_float == before.is_float
    &&& after.max_threads == before.max_threads
    &&& after.row_bytes == before.row_bytes
    &&& after.alpha_premultiplied == img.alpha_premultiplied
    &&& after.pixels@ == conv_rgb_buffer(img, before)
}

/// Converts a planar image into the interleaved RGB buffer, rebuilding
/// its pixel rows.
///
/// The image's range and matrix coefficients select the inverse
/// transform, and the RGB image's upsampling choice selects the chroma
/// filter. Dimensions and depth must match; the packed 5-6-5 layout is
/// 8-bit only; the identity matrix demands 4:4:4 full range. Refusals
/// leave the buffer untouched; see [`yuv_to_rgb_check`].
pub fn yuv_to_rgb_into(img: &Image, rgb: &mut RgbImage) -> (r: Result<(), AvifError>)
    requires
        img.wf(),
        old(rgb).wf(),
    ensures
        final(rgb).wf(),
        match yuv_to_rgb_check(*img, *old(rgb)) {
            Option::Some(e) => r == Result::<(), AvifError>::Err(e) && *final(rgb) == *old(rgb),
            Option::None => r == Result::<(), AvifError>::Ok(()) && yuv_to_rgb_post(
                *img,
                *old(rgb),
                *final(rgb),
            ),
        },
{
    if rgb.is_float {
        return Err(AvifError::ReformatFailed);
    }
    let is_565: bool = match rgb.format {
        RgbFormat::Rgb565 => true,
        _ => false,
    };
    let depth_eight: bool = match rgb.depth {
        BitDepth::Eight => true,
        _ => false,
    };
    if is_565 && !depth_eight {
        return Err(AvifError::ReformatFailed);
    }
    match img.yuv_format {
        PixelFormat::NoFormat => {
            return Err(AvifError::NoYuvFormatSelected);
        },
        _ => {},
    }
    if img.planes.is_none() {
        return Err(AvifError::NoContent);
    }
    if rgb.width != img.width || rgb.height != img.height {
        return Err(AvifError::ReformatFailed);
    }
    if rgb.depth != img.depth {
        return Err(AvifError::ReformatFailed);
    }
    if img.matrix_coefficients == 0 && !(matches!(img.yuv_format, PixelFormat::Yuv444) && matches!(
        img.yuv_range,
        YuvRange::Full,
    )) {
        return Err(AvifError::ReformatFailed);
    }
    let out = build_rgb_buffer(img, rgb);
    rgb.pixels = out;
    rgb.alpha_premultiplied = img.alpha_premultiplied;
    Ok(())
}

} // verus!

verus! {

/// The fresh planar image that `to_yuv_image` converts into: the RGB
/// image's dimensions and depth with default color metadata.
pub open spec fn default_yuv_target(rgb: RgbImage, yuv_format: PixelFormat) -> Image {
    Image {
        width: rgb.width,
        height: rgb.height,
        depth: rgb.depth,
        yuv_format,
        yuv_range: YuvRange::Full,
        color_primaries: 2,
        transfer_characteristics: 2,
        matrix_coefficients: 2,
        alpha_premultiplied: false,
        planes: Option::None,
    }
}

impl RgbImage {
    /// Converts this RGB image to a fresh planar YUV image of the given
    /// format, with default color metadata (full range, unspecified CICP
    /// codes, so the BT.601 transform).
    ///
    /// Fails with `InvalidArgument` on zero dimensions; conversion
    /// refusals are those of [`rgb_to_yuv_check`].
    pub fn to_yuv_image(&self, yuv_format: PixelFormat) -> (r: Result<Image, AvifError>)
        requires
            self.wf(),
        ensures
            self.width == 0 || self.height == 0 ==> r == Result::<Image, AvifError>::Err(
                AvifError::InvalidArgument,
            ),
            self.width > 0 && self.height > 0 ==> match rgb_to_yuv_check(
                *self,
                default_yuv_target(*self, yuv_format),
            ) {
                Option::Some(e) => r == Result::<Image, AvifError>::Err(e),
                Option::None => (r matches Result::Ok(img) && img.wf() && rgb_to_yuv_post(
                    *self,
                    default_yuv_target(*self, yuv_format),
                    img,
                )),
            },
    {
        let mut img = match Image::new(self.width, self.height, self.depth, yuv_format) {
            Ok(img) => img,
            Err(e) => {
                return Err(e);
            },
        };
        match rgb_to_yuv_into(self, &mut img) {
            Ok(()) => Ok(img),
            Err(e) => Err(e),
        }
    }

    /// Builds an RGB image of the given layout from a planar image,
    /// converting with the given chroma upsampling choice. The buffer is
    /// freshly allocated at the tight row stride.
    ///
    /// Fails with `InvalidArgument` when a row cannot be addressed, with
    /// `OutOfMemory` over the allocation cap; conversion refusals are
    /// those of [`yuv_to_rgb_check`].
    pub fn from_yuv(image: &Image, format: RgbFormat, upsampling: ChromaUpsampling) -> (r: Result<
        RgbImage,
        AvifError,
    >)
        requires
            image.wf(),
        ensures
            image.width * bytes_per_pixel(format, image.depth) > u32::MAX ==> r == Result::<
                RgbImage,
                AvifError,
            >::Err(AvifError::InvalidArgument),
            image.width * bytes_per_pixel(format, image.depth) <= u32::MAX && image.luma_count()
                > crate::image::MAX_PLANE_SAMPLES ==> r == Result::<RgbImage, AvifError>::Err(
                AvifError::OutOfMemory,
            ),
            image.width * bytes_per_pixel(format, image.depth) <= u32::MAX && image.luma_count()
                <= crate::image::MAX_PLANE_SAMPLES ==> match from_yuv_check(*image, format) {
                Option::Some(e) => r == Result::<RgbImage, AvifError>::Err(e),
                Option::None => (r matches Result::Ok(rgb) && rgb.wf() && rgb.width == image.width
                    && rgb.height == image.height && rgb.depth == image.depth && rgb.format
                    == format && rgb.chroma_upsampling == upsampling && rgb.chroma_downsampling
                    == ChromaDownsampling::Automatic && rgb.avoid_libyuv == false
                    && rgb.ignore_alpha == false && rgb.is_float == false && rgb.max_threads == 1
                    && rgb.alpha_premultiplied == image.alpha_premultiplied && rgb.row_bytes
                    == image.width * bytes_per_pixel(format, image.depth) && rgb.pixels@.len()
                    == rgb.row_bytes * rgb.height && (forall|b: int|
                    0 <= b < rgb.pixels@.len() ==> rgb.pixels@[b] == out_byte(*image, rgb, b))),
            },
    {
        let bpp: u32 = bytes_per_pixel_pub(format, image.depth);
        proof {
            crate::image::lemma_mul_le(image.width as nat, bpp as nat, 0xFFFF_FFFF as nat, 8);
        }
        let row64: u64 = (image.width as u64) * (bpp as u64);
        if row64 > u32::MAX as u64 {
            return Err(AvifError::InvalidArgument);
        }
        proof {
            crate::image::lemma_mul_le(
                image.width as nat,
                image.height as nat,
                0xFFFF_FFFF as nat,
                0xFFFF_FFFF as nat,
            );
        }
        let luma: u64 = (image.width as u64) * (image.height as u64);
        if luma > crate::image::MAX_PLANE_SAMPLES {
            return Err(AvifError::OutOfMemory);
        }
        proof {
            assert((row64 as nat) * (image.height as nat) <= 8 * crate::image::MAX_PLANE_SAMPLES)
                by (nonlinear_arith)
                requires
                    row64 == image.width * bpp,
                    bpp <= 8,
                    (image.width as nat) * (image.height as nat)
                        <= crate::image::MAX_PLANE_SAMPLES,
            ;
        }
        let need: u64 = row64 * (image.height as u64);
        let zeros = zero_bytes(need as usize);
        let mut rgb = RgbImage {
            width: image.width,
            height: image.height,
            depth: image.depth,
            format,
            chroma_upsampling: upsampling,
            chroma_downsampling: ChromaDownsampling::Automatic,
            avoid_libyuv: false,
            ignore_alpha: false,
            alpha_premultiplied: false,
            is_float: false,
            max_threads: 1,
            row_bytes: row64 as u32,
            pixels: zeros,
        };
        match yuv_to_rgb_into(image, &mut rgb) {
            Ok(()) => Ok(rgb),
            Err(e) => Err(e),
        }
    }
}

/// The condition under which `from_yuv` refuses a conversion, with its
/// error kind; the fresh buffer settles the other refusals of
/// [`yuv_to_rgb_check`] by construction.
pub open spec fn from_yuv_check(img: Image, format: RgbFormat) -> Option<AvifError> {
    if format is Rgb565 && !(img.depth is Eight) {
        Option::Some(AvifError::ReformatFailed)
    } else if img.yuv_format is NoFormat {
        Option::Some(AvifError::NoYuvFormatSelected)
    } else if img.planes is None {
        Option::Some(AvifError::NoContent)
    } else if img.matrix_coefficients == 0 && !(img.yuv_format is Yuv444 && img.yuv_range is Full) {
        Option::Some(AvifError::ReformatFailed)
    } else {
        Option::None
    }
}

/// Builds a zeroed byte buffer of length `n`.
fn zero_bytes(n: usize) -> (r: Vec<u8>)
    ensures
        r@ == Seq::new(n as nat, |i: int| 0u8),
{
    let mut v: Vec<u8> = Vec::new();
    let mut i: usize = 0;
    while i < n
        invariant
            i <= n,
            v@ == Seq::new(i as nat, |j: int| 0u8),
        decreases n - i,
    {
        v.push(0);
        i = i + 1;
        proof {
            assert(v@ =~= Seq::new(i as nat, |j: int| 0u8));
        }
    }
    v
}

/// Computes the pixel size in bytes of a layout at a depth.
pub fn bytes_per_pixel_pub(f: RgbFormat, d: BitDepth) -> (r: u32)
    ensures
        r == bytes_per_pixel(f, d),
        1 <= r <= 8,
{
    match f {
        RgbFormat::Rgb565 => 2,
        _ => {
            let channels: u32 = match f {
                RgbFormat::Rgb | RgbFormat::Bgr | RgbFormat::Rgb565 => 3,
                RgbFormat::Rgba | RgbFormat::Argb | RgbFormat::Bgra | RgbFormat::Abgr => 4,
                RgbFormat::Gray => 1,
                RgbFormat::GrayA | RgbFormat::AGray => 2,
            };
            match d {
                BitDepth::Eight => channels,
                _ => 2 * channels,
            }
        },
    }
}

} // verus!

verus! {

/// A color sample premultiplied by alpha: `round(v * a / max)`, capped at
/// the maximum.
pub open spec fn premult_val(v: int, a: int, max: int) -> int {
    clamp_i(rdiv(v * a, max), 0, max)
}

/// A color sample unpremultiplied by alpha: `round(v * max / a)`, capped
/// at the maximum; zero alpha yields zero.
pub open spec fn unpremult_val(v: int, a: int, max: int) -> int {
    if a == 0 {
        0
    } else {
        clamp_i(rdiv(v * max, a), 0, max)
    }
}

/// The byte at position `b` of the RGB buffer after an alpha multiply or
/// divide: bytes of color-channel samples in the row region are
/// transformed against the pixel's alpha sample, everything else keeps
/// its old value.
pub open spec fn alpha_op_byte(rgb: RgbImage, premult: bool, b: int) -> u8 {
    if rgb.row_bytes == 0 {
        rgb.pixels@[b]
    } else {
        alpha_op_byte_at(rgb, premult, b)
    }
}

/// The transformed byte of a nonempty row region; see [`alpha_op_byte`].
pub open spec fn alpha_op_byte_at(rgb: RgbImage, premult: bool, b: int) -> u8 {
    let rb = rgb.row_bytes as int;
    let bpp = bytes_per_pixel(rgb.format, rgb.depth) as int;
    let sw = sample_width(rgb.depth) as int;
    let max = depth_max(rgb.depth) as int;
    let yy = b / rb;
    let rr = b % rb;
    let x = rr / bpp;
    let k = rr % bpp;
    let c = k / sw;
    if yy < rgb.height && c != offset_a(rgb.format) {
        let a = clamp_i(rgb_chan(rgb, x, yy, offset_a(rgb.format) as int), 0, max);
        let v = clamp_i(rgb_chan(rgb, x, yy, c), 0, max);
        let nv = if premult {
            premult_val(v, a, max)
        } else {
            unpremult_val(v, a, max)
        };
        if sw == 1 {
            nv as u8
        } else if k % sw == 0 {
            (nv % 256) as u8
        } else {
            (nv / 256) as u8
        }
    } else {
        rgb.pixels@[b]
    }
}

/// The whole RGB buffer after an alpha multiply or divide.
pub open spec fn alpha_op_buffer(rgb: RgbImage, premult: bool) -> Seq<u8> {
    Seq::new(rgb.pixels@.len(), |b: int| alpha_op_byte(rgb, premult, b))
}

/// Applies the alpha multiply or divide to one clamped color sample.
fn alpha_op_exec(v: u16, a: u16, max: u16, premult: bool) -> (r: u16)
    requires
        v <= max,
        a <= max,
        0 < max <= 4095,
    ensures
        r == if premult {
            premult_val(v as int, a as int, max as int)
        } else {
            unpremult_val(v as int, a as int, max as int)
        },
        r <= max,
{
    proof {
        lemma_mul_abs_bound(v as int, 4095, a as int, 4095);
        lemma_mul_abs_bound(v as int, 4095, max as int, 4095);
    }
    if premult {
        let t: u64 = rdiv_u64((v as u64) * (a as u64), max as u64);
        if t > max as u64 {
            max
        } else {
            t as u16
        }
    } else {
        if a == 0 {
            0
        } else {
            let t: u64 = rdiv_u64((v as u64) * (max as u64), a as u64);
            if t > max as u64 {
                max
            } else {
                t as u16
            }
        }
    }
}

/// Rebuilds the pixel buffer with the alpha multiply or divide applied to
/// every color-channel sample of the row region.
fn build_alpha_op(rgb: &RgbImage, premult: bool) -> (out: Vec<u8>)
    requires
        rgb.wf(),
        has_alpha_of(rgb.format),
        !(rgb.format is Rgb565),
        !rgb.is_float,
    ensures
        out@ == alpha_op_buffer(*rgb, premult),
{
    let n: usize = rgb.pixels.len();
    let bpp: u32 = rgb.pixel_size();
    let h: usize = rgb.height as usize;
    let max: u16 = rgb.depth.max_sample();
    let sw: usize = match rgb.depth {
        BitDepth::Eight => 1,
        _ => 2,
    };
    let a_off: u32 = offset_a_exec(rgb.format);
    let ghost g = alpha_op_buffer(*rgb, premult);
    let mut out: Vec<u8> = Vec::new();
    let mut b: usize = 0;
    while b < n
        invariant
            b <= n,
            n == rgb.pixels@.len(),
            bpp == bytes_per_pixel(rgb.format, rgb.depth),
            h == rgb.height,
            max == depth_max(rgb.depth),
            0 < max <= 4095,
            sw == sample_width(rgb.depth),
            a_off == offset_a(rgb.format),
            rgb.wf(),
            has_alpha_of(rgb.format),
            !(rgb.format is Rgb565),
            g == alpha_op_buffer(*rgb, premult),
            out@.len() == b,
            forall|k: int| 0 <= k < b ==> out@[k] == g[k],
        decreases n - b,
    {
        let byte: u8;
        if rgb.row_bytes == 0 {
            byte = rgb.pixels[b];
        } else {
            let rb: usize = rgb.row_bytes as usize;
            let yy: usize = b / rb;
            if yy < h {
                proof {
                    vstd::arithmetic::div_mod::lemma_mod_division_less_than_divisor(
                        b as int,
                        rb as int,
                    );
                    assert((rb as int) == (bpp as int) * (rgb.width as int)) by (nonlinear_arith)
                        requires
                            rb == rgb.width * bpp,
                    ;
                    vstd::arithmetic::div_mod::lemma_multiply_divide_lt(
                        (b as int) % (rb as int),
                        bpp as int,
                        rgb.width as int,
                    );
                }
                let rr: usize = b % rb;
                let x: usize = rr / (bpp as usize);
                let k: usize = rr % (bpp as usize);
                proof {
                    vstd::arithmetic::div_mod::lemma_mod_division_less_than_divisor(
                        rr as int,
                        bpp as int,
                    );
                    vstd::arithmetic::div_mod::lemma_div_pos_is_pos(rr as int, bpp as int);
                    assert(k < sw * channel_count_of(rgb.format)) by (nonlinear_arith)
                        requires
                            k < bpp,
                            bpp == if sample_width(rgb.depth) == 2 {
                                2 * channel_count_of(rgb.format)
                            } else {
                                channel_count_of(rgb.format)
                            },
                            sample_width(rgb.depth) == 1 || sample_width(rgb.depth) == 2,
                            sw == sample_width(rgb.depth),
                    ;
                    vstd::arithmetic::div_mod::lemma_multiply_divide_lt(
                        k as int,
                        sw as int,
                        channel_count_of(rgb.format) as int,
                    );
                    vstd::arithmetic::div_mod::lemma_div_pos_is_pos(k as int, sw as int);
                }
                let c: usize = k / sw;
                if c != a_off as usize {
                    let a = read_chan_clamped(rgb, x as u32, yy as u32, a_off);
                    let v = read_chan_clamped(rgb, x as u32, yy as u32, c as u32);
                    let nv = alpha_op_exec(v, a, max, premult);
                    byte = if sw == 1 {
                        nv as u8
                    } else if k % sw == 0 {
                        (nv % 256) as u8
                    } else {
                        (nv / 256) as u8
                    };
                } else {
                    byte = rgb.pixels[b];
                }
            } else {
                byte = rgb.pixels[b];
            }
        }
        out.push(byte);
        b = b + 1;
    }
    proof {
        assert(out@ =~= g);
    }
    out
}

impl RgbImage {
    /// Premultiplies every color sample by its pixel's alpha sample, in
    /// place, and records the premultiplied state.
    ///
    /// Fails with `InvalidArgument` when the layout has no alpha channel
    /// and with `ReformatFailed` on floating-point buffers (an
    /// unsupported sample format for this engine); the image is
    /// unchanged on failure.
    pub fn premultiply_alpha(&mut self) -> (r: Result<(), AvifError>)
        requires
            old(self).wf(),
        ensures
            final(self).wf(),
            old(self).is_float ==> r == Result::<(), AvifError>::Err(AvifError::ReformatFailed)
                && *final(self) == *old(self),
            !old(self).is_float && !has_alpha_of(old(self).format) ==> r == Result::<
                (),
                AvifError,
            >::Err(AvifError::InvalidArgument) && *final(self) == *old(self),
            !old(self).is_float && has_alpha_of(old(self).format) ==> r == Result::<
                (),
                AvifError,
            >::Ok(()) && *final(self) == (RgbImage {
                alpha_premultiplied: true,
                pixels: final(self).pixels,
                ..*old(self)
            }) && final(self).pixels@ == alpha_op_buffer(*old(self), true),
    {
        if self.is_float {
            return Err(AvifError::ReformatFailed);
        }
        if !self.has_alpha() {
            return Err(AvifError::InvalidArgument);
        }
        let out = build_alpha_op(self, true);
        self.pixels = out;
        self.alpha_premultiplied = true;
        Ok(())
    }

    /// Divides every color sample by its pixel's alpha sample, in place,
    /// reversing a premultiplication, and clears the premultiplied state.
    ///
    /// Fails with `InvalidArgument` when the layout has no alpha channel
    /// and with `ReformatFailed` on floating-point buffers (an
    /// unsupported sample format for this engine); the image is
    /// unchanged on failure.
    pub fn unpremultiply_alpha(&mut self) -> (r: Result<(), AvifError>)
        requires
            old(self).wf(),
        ensures
            final(self).wf(),
            old(self).is_float ==> r == Result::<(), AvifError>::Err(AvifError::ReformatFailed)
                && *final(self) == *old(self),
            !old(self).is_float && !has_alpha_of(old(self).format) ==> r == Result::<
                (),
                AvifError,
            >::Err(AvifError::InvalidArgument) && *final(self) == *old(self),
            !old(self).is_float && has_alpha_of(old(self).format) ==> r == Result::<
                (),
                AvifError,
            >::Ok(()) && *final(self) == (RgbImage {
                alpha_premultiplied: false,
                pixels: final(self).pixels,
                ..*old(self)
            }) && final(self).pixels@ == alpha_op_buffer(*old(self), false),
    {
        if self.is_float {
            return Err(AvifError::ReformatFailed);
        }
        if !self.has_alpha() {
            return Err(AvifError::InvalidArgument);
        }
        let out = build_alpha_op(self, false);
        self.pixels = out;
        self.alpha_premultiplied = false;
        Ok(())
    }
}

} // verus!

verus! {

/// Law: round trip at 4:4:4, full range, identity matrix.
///
/// Convert an RGB image to planar YUV with the identity matrix (4:4:4,
/// full range) and read any pixel back through the inverse conversion:
/// every color channel reproduces the original source sample exactly
/// (clamped to the depth's range), whatever chroma filter choices are
/// configured. This is the lossless special case of the round-trip
/// property; the weighted matrices reproduce samples only within
/// quantization error.
pub proof fn lemma_identity_round_trip(
    rgb: RgbImage,
    before: Image,
    after: Image,
    bilinear: bool,
    x: int,
    y: int,
)
    requires
        rgb.wf(),
        before.wf(),
        before.matrix_coefficients == 0,
        rgb_to_yuv_check(rgb, before) is None,
        rgb_to_yuv_post(rgb, before, after),
        0 <= x < rgb.width,
        0 <= y < rgb.height,
    ensures
        out_r_val(after, bilinear, x, y) == src_r(rgb, x, y),
        out_g_val(after, bilinear, x, y) == src_g(rgb, x, y),
        out_b_val(after, bilinear, x, y) == src_b(rgb, x, y),
{
    let w = rgb.width as int;
    let i = y * w + x;
    lemma_pix_index(x, y, w, rgb.height as int);
    vstd::arithmetic::div_mod::lemma_fundamental_div_mod_converse(i, w, y, x);
    assert(after.yuv_format is Yuv444);
    assert(after.width == rgb.width && after.height == rgb.height);
    assert(after.chroma_w() == rgb.width as nat);
    let nearest = down_is_nearest(rgb.chroma_downsampling);
    match after.planes {
        Option::Some(p) => {
            assert(p.y@[i] == conv_y_plane(rgb, 0, before.yuv_range)[i]);
            assert(conv_y_plane(rgb, 0, before.yuv_range)[i] == conv_y_at(
                rgb,
                0,
                before.yuv_range,
                x,
                y,
            ) as u16);
            assert(p.u@[i] == conv_chroma_plane(
                rgb,
                0,
                before.yuv_range,
                PixelFormat::Yuv444,
                false,
                nearest,
            )[i]);
            assert(p.v@[i] == conv_chroma_plane(
                rgb,
                0,
                before.yuv_range,
                PixelFormat::Yuv444,
                true,
                nearest,
            )[i]);
            assert(down_chroma_at(rgb, 0, before.yuv_range, false, false, false, nearest, x, y)
                == full_chroma_at(rgb, 0, before.yuv_range, false, x, y));
            assert(down_chroma_at(rgb, 0, before.yuv_range, true, false, false, nearest, x, y)
                == full_chroma_at(rgb, 0, before.yuv_range, true, x, y));
            assert(y_sample(after, x, y) == src_g(rgb, x, y));
            assert(up_chroma_at(after, false, bilinear, x, y) == c_sample(after, false, x, y));
            assert(up_chroma_at(after, true, bilinear, x, y) == c_sample(after, true, x, y));
            assert(c_sample(after, false, x, y) == src_b(rgb, x, y));
            assert(c_sample(after, true, x, y) == src_r(rgb, x, y));
        },
        Option::None => {
            assert(false);
        },
    }
}

} // verus!

verus! {

/// Rounding division lands within half a step of the exact quotient.
proof fn lemma_rdiv_err(n: int, d: int)
    requires
        0 <= n,
        0 < d,
    ensures
        -d <= 2 * (n - d * rdiv(n, d)) < d,
{
    let q = (2 * n + d) / (2 * d);
    vstd::arithmetic::div_mod::lemma_fundamental_div_mod(2 * n + d, 2 * d);
    vstd::arithmetic::div_mod::lemma_mod_division_less_than_divisor(2 * n + d, 2 * d);
    assert((2 * d) * q == 2 * (d * q)) by (nonlinear_arith);
}

/// Symmetric form of [`lemma_rdiv_err`] for the signed rounding
/// division.
proof fn lemma_rdiv_s_err(n: int, d: int)
    requires
        0 < d,
    ensures
        -d <= 2 * (n - d * rdiv_s(n, d)) <= d,
{
    if n >= 0 {
        lemma_rdiv_err(n, d);
    } else {
        lemma_rdiv_err(-n, d);
        assert(d * (-rdiv(-n, d)) == -(d * rdiv(-n, d))) by (nonlinear_arith);
    }
}

/// Cancels a common positive factor of dividend and divisor.
proof fn lemma_div_cancel(x: int, y: int, c: int)
    requires
        0 < y,
        0 < c,
    ensures
        (c * x) / (c * y) == x / y,
{
    let q = x / y;
    let rem = x % y;
    vstd::arithmetic::div_mod::lemma_fundamental_div_mod(x, y);
    vstd::arithmetic::div_mod::lemma_mod_division_less_than_divisor(x, y);
    assert(c * x == q * (c * y) + c * rem) by (nonlinear_arith)
        requires
            x == y * q + rem,
    ;
    assert(0 <= c * rem < c * y) by (nonlinear_arith)
        requires
            0 <= rem < y,
            0 < c,
    ;
    vstd::arithmetic::div_mod::lemma_fundamental_div_mod_converse(c * x, c * y, q, c * rem);
}

/// Cancels a common positive factor inside the rounding division.
proof fn lemma_rdiv_s_cancel(n: int, d: int, c: int)
    requires
        0 < d,
        0 < c,
    ensures
        rdiv_s(c * n, c * d) == rdiv_s(n, d),
{
    if n >= 0 {
        assert(c * n >= 0) by (nonlinear_arith)
            requires
                0 < c,
                0 <= n,
        ;
        assert(2 * (c * n) + c * d == c * (2 * n + d)) by (nonlinear_arith);
        assert(2 * (c * d) == c * (2 * d)) by (nonlinear_arith);
        lemma_div_cancel(2 * n + d, 2 * d, c);
    } else {
        assert(c * n < 0) by (nonlinear_arith)
            requires
                0 < c,
                n < 0,
        ;
        assert(-(c * n) == c * (-n)) by (nonlinear_arith);
        assert(2 * (c * (-n)) + c * d == c * (2 * (-n) + d)) by (nonlinear_arith);
        assert(2 * (c * d) == c * (2 * d)) by (nonlinear_arith);
        lemma_div_cancel(2 * (-n) + d, 2 * d, c);
    }
}

/// A value within one and a half steps of the `k`-th multiple rounds to
/// `k` plus or minus one.
proof fn lemma_rdiv_s_near(m: int, k: int, e: int, d: int)
    requires
        0 < d,
        0 <= k,
        m == k * d + e,
        -(3 * d) < 2 * e,
        2 * e < 3 * d,
    ensures
        k - 1 <= rdiv_s(m, d) <= k + 1,
{
    if m >= 0 {
        assert(2 * m + d < (2 * d) * (k + 2)) by (nonlinear_arith)
            requires
                m == k * d + e,
                2 * e < 3 * d,
                0 < d,
        ;
        vstd::arithmetic::div_mod::lemma_multiply_divide_lt(2 * m + d, 2 * d, k + 2);
        if k >= 1 {
            assert((2 * d) * (k - 1) <= 2 * m + d) by (nonlinear_arith)
                requires
                    m == k * d + e,
                    -(3 * d) < 2 * e,
                    0 < d,
            ;
            vstd::arithmetic::div_mod::lemma_div_is_ordered((2 * d) * (k - 1), 2 * m + d, 2 * d);
            vstd::arithmetic::div_mod::lemma_div_multiples_vanish(k - 1, 2 * d);
        } else {
            vstd::arithmetic::div_mod::lemma_div_pos_is_pos(2 * m + d, 2 * d);
        }
    } else {
        let p = -m;
        assert(k <= 1) by (nonlinear_arith)
            requires
                k * d + e < 0,
                -(3 * d) < 2 * e,
                0 < d,
                0 <= k,
        ;
        if k == 0 {
            assert(2 * p + d < (2 * d) * 2) by (nonlinear_arith)
                requires
                    p == -e,
                    2 * (-e) < 3 * d,
                    0 < d,
            ;
            vstd::arithmetic::div_mod::lemma_multiply_divide_lt(2 * p + d, 2 * d, 2);
            vstd::arithmetic::div_mod::lemma_div_pos_is_pos(2 * p + d, 2 * d);
        } else {
            assert(2 * p + d < (2 * d) * 1) by (nonlinear_arith)
                requires
                    p == -(d + e),
                    -(3 * d) < 2 * e,
                    0 < d,
                    m == 1 * d + e,
                    m < 0,
            ;
            vstd::arithmetic::div_mod::lemma_multiply_divide_lt(2 * p + d, 2 * d, 1);
            vstd::arithmetic::div_mod::lemma_div_pos_is_pos(2 * p + d, 2 * d);
        }
    }
}

} // verus!

verus! {

/// Pins the value of one Euclidean division.
proof fn lemma_div_value(x: int, d: int, q: int)
    requires
        0 < d,
        0 <= x - q * d < d,
    ensures
        x / d == q,
{
    vstd::arithmetic::div_mod::lemma_fundamental_div_mod_converse(x, d, q, x - q * d);
}

/// The pure-blue corner, where the blue-difference chroma clips.
#[verifier::rlimit(100)]
proof fn lemma_bt601_point_blue()
    ensures
        spec_y(0, 0, 255, 2990, 1140, BitDepth::Eight, YuvRange::Full) == 29,
        spec_u(0, 0, 255, 2990, 1140, BitDepth::Eight, YuvRange::Full) == 255,
        spec_v(0, 0, 255, 2990, 1140, BitDepth::Eight, YuvRange::Full) == 107,
        spec_r(29, 107, 2990, 1140, BitDepth::Eight, YuvRange::Full) == 0,
        spec_g(29, 255, 107, 2990, 1140, BitDepth::Eight, YuvRange::Full) == 0,
        spec_b(29, 255, 2990, 1140, BitDepth::Eight, YuvRange::Full) == 254,
{
    let d8 = BitDepth::Eight;
    let fr = YuvRange::Full;
    assert(luma_num(0, 0, 255, 2990, 1140) == 290700);
    assert(290700int * 255 == 74128500);
    assert(10000int * 255 == 2550000);
    lemma_div_value(2int * 74128500 + 2550000, 2int * 2550000, 29);
    assert(rdiv(74128500, 2550000) == 29);
    assert(spec_y(0, 0, 255, 2990, 1140, d8, fr) == 29);

    assert((10000int * 255 - 290700) * 255 == 576121500);
    assert(2int * (10000 - 1140) * 255 == 4518600);
    lemma_div_value(2int * 576121500 + 4518600, 2int * 4518600, 128);
    assert(rdiv(576121500, 4518600) == 128);
    assert(spec_u(0, 0, 255, 2990, 1140, d8, fr) == 255);

    assert((10000int * 0 - 290700) * 255 == -74128500);
    assert(2int * (10000 - 2990) * 255 == 3575100);
    lemma_div_value(2int * 74128500 + 3575100, 2int * 3575100, 21);
    assert(rdiv(74128500, 3575100) == 21);
    assert(rdiv_s(-74128500, 3575100) == -21);
    assert(spec_v(0, 0, 255, 2990, 1140, d8, fr) == 107);

    assert(255int * ((29 - 0) * 10000 * 255 + 2 * (10000 - 2990) * (107 - 128) * 255)
        == -287410500);
    assert(10000int * 255 * 255 == 650250000);
    lemma_div_value(2int * 287410500 + 650250000, 2int * 650250000, 0);
    assert(rdiv(287410500, 650250000) == 0);
    assert(rdiv_s(-287410500, 650250000) == 0);
    assert(spec_r(29, 107, 2990, 1140, d8, fr) == 0);

    assert((29int - 0) * 10000 * (10000 - 2990 - 1140) * 255 == 434086500000) by (nonlinear_arith);
    assert(2int * 1140 * (10000 - 1140) * (255 - 128) == 2565501600);
    assert(2int * 2990 * (10000 - 2990) * (107 - 128) == -880315800);
    assert((2565501600int + -880315800) * 255 == 429722379000);
    assert(255int * (434086500000int - 429722379000) == 1112850855000);
    assert(255int * ((29 - 0) * 10000 * (10000 - 2990 - 1140) * 255 - (2 * 1140 * (10000 - 1140) * (
    255 - 128) + 2 * 2990 * (10000 - 2990) * (107 - 128)) * 255) == 1112850855000);
    assert(10000int * (10000 - 2990 - 1140) * 255 * 255 == 3816967500000);
    lemma_div_value(2int * 1112850855000 + 3816967500000, 2int * 3816967500000, 0);
    assert(rdiv(1112850855000, 3816967500000) == 0);
    assert(spec_g(29, 255, 107, 2990, 1140, d8, fr) == 0);

    assert(255int * ((29 - 0) * 10000 * 255 + 2 * (10000 - 1140) * (255 - 128) * 255)
        == 165192111000);
    lemma_div_value(2int * 165192111000 + 650250000, 2int * 650250000, 254);
    assert(rdiv(165192111000, 650250000) == 254);
    assert(spec_b(29, 255, 2990, 1140, d8, fr) == 254);
}

/// The pure-red corner, where the red-difference chroma clips.
#[verifier::rlimit(100)]
proof fn lemma_bt601_point_red()
    ensures
        spec_y(255, 0, 0, 2990, 1140, BitDepth::Eight, YuvRange::Full) == 76,
        spec_u(255, 0, 0, 2990, 1140, BitDepth::Eight, YuvRange::Full) == 85,
        spec_v(255, 0, 0, 2990, 1140, BitDepth::Eight, YuvRange::Full) == 255,
        spec_r(76, 255, 2990, 1140, BitDepth::Eight, YuvRange::Full) == 254,
        spec_g(76, 85, 255, 2990, 1140, BitDepth::Eight, YuvRange::Full) == 0,
        spec_b(76, 85, 2990, 1140, BitDepth::Eight, YuvRange::Full) == 0,
{
    let d8 = BitDepth::Eight;
    let fr = YuvRange::Full;
    assert(luma_num(255, 0, 0, 2990, 1140) == 762450);
    assert(762450int * 255 == 194424750);
    assert(10000int * 255 == 2550000);
    lemma_div_value(2int * 194424750 + 2550000, 2int * 2550000, 76);
    assert(rdiv(194424750, 2550000) == 76);
    assert(spec_y(255, 0, 0, 2990, 1140, d8, fr) == 76);

    assert((10000int * 0 - 762450) * 255 == -194424750);
    assert(2int * (10000 - 1140) * 255 == 4518600);
    lemma_div_value(2int * 194424750 + 4518600, 2int * 4518600, 43);
    assert(rdiv(194424750, 4518600) == 43);
    assert(rdiv_s(-194424750, 4518600) == -43);
    assert(spec_u(255, 0, 0, 2990, 1140, d8, fr) == 85);

    assert((10000int * 255 - 762450) * 255 == 455825250);
    assert(2int * (10000 - 2990) * 255 == 3575100);
    lemma_div_value(2int * 455825250 + 3575100, 2int * 3575100, 128);
    assert(rdiv(455825250, 3575100) == 128);
    assert(spec_v(255, 0, 0, 2990, 1140, d8, fr) == 255);

    assert(255int * ((76 - 0) * 10000 * 255 + 2 * (10000 - 2990) * (255 - 128) * 255)
        == 165198613500);
    assert(10000int * 255 * 255 == 650250000);
    lemma_div_value(2int * 165198613500 + 650250000, 2int * 650250000, 254);
    assert(rdiv(165198613500, 650250000) == 254);
    assert(spec_r(76, 255, 2990, 1140, d8, fr) == 254);

    assert((76int - 0) * 10000 * (10000 - 2990 - 1140) * 255 == 1137606000000) by (nonlinear_arith);
    assert(2int * 1140 * (10000 - 1140) * (85 - 128) == -868634400);
    assert(2int * 2990 * (10000 - 2990) * (255 - 128) == 5323814600);
    assert((-868634400int + 5323814600) * 255 == 1136070951000);
    assert(255int * (1137606000000int - 1136070951000) == 391437495000);
    assert(255int * ((76 - 0) * 10000 * (10000 - 2990 - 1140) * 255 - (2 * 1140 * (10000 - 1140) * (
    85 - 128) + 2 * 2990 * (10000 - 2990) * (255 - 128)) * 255) == 391437495000);
    assert(10000int * (10000 - 2990 - 1140) * 255 * 255 == 3816967500000);
    lemma_div_value(2int * 391437495000 + 3816967500000, 2int * 3816967500000, 0);
    assert(rdiv(391437495000, 3816967500000) == 0);
    assert(spec_g(76, 85, 255, 2990, 1140, d8, fr) == 0);

    assert(255int * ((76 - 0) * 10000 * 255 + 2 * (10000 - 1140) * (85 - 128) * 255)
        == -127449000);
    lemma_div_value(2int * 127449000 + 650250000, 2int * 650250000, 0);
    assert(rdiv(127449000, 650250000) == 0);
    assert(rdiv_s(-127449000, 650250000) == 0);
    assert(spec_b(76, 85, 2990, 1140, d8, fr) == 0);
}

/// Law: round trip at 4:4:4, depth 8, full range, BT.601 matrix.
///
/// Quantize any 8-bit RGB triple to full-range YUV with the BT.601
/// coefficients (the default matrix) and reconstruct it: every channel
/// comes back within one quantization step of the original. Together
/// with [`lemma_identity_round_trip`] this covers the round-trip
/// property at 4:4:4, where no chroma resampling intervenes.
#[verifier::rlimit(100)]
pub proof fn lemma_bt601_round_trip_within_one(r: int, g: int, b: int)
    requires
        0 <= r <= 255,
        0 <= g <= 255,
        0 <= b <= 255,
    ensures
        ({
            let y = spec_y(r, g, b, 2990, 1140, BitDepth::Eight, YuvRange::Full);
            let u = spec_u(r, g, b, 2990, 1140, BitDepth::Eight, YuvRange::Full);
            let v = spec_v(r, g, b, 2990, 1140, BitDepth::Eight, YuvRange::Full);
            &&& -1 <= spec_r(y, v, 2990, 1140, BitDepth::Eight, YuvRange::Full) - r <= 1
            &&& -1 <= spec_g(y, u, v, 2990, 1140, BitDepth::Eight, YuvRange::Full) - g <= 1
            &&& -1 <= spec_b(y, u, 2990, 1140, BitDepth::Eight, YuvRange::Full) - b <= 1
        }),
{
    let d8 = BitDepth::Eight;
    let fr = YuvRange::Full;
    if r == 0 && g == 0 && b == 255 {
        lemma_bt601_point_blue();
    } else if r == 255 && g == 0 && b == 0 {
        lemma_bt601_point_red();
    } else {
        let yn = 2990 * r + 5870 * g + 1140 * b;
        assert(luma_num(r, g, b, 2990, 1140) == yn);

        // Luma: the 255 scale factors cancel and the clamp is a no-op.
        lemma_rdiv_s_cancel(yn, 10000, 255);
        let y0 = rdiv(yn, 10000);
        assert(rdiv(yn * 255, 10000int * 255) == y0);
        lemma_rdiv_err(yn, 10000);
        vstd::arithmetic::div_mod::lemma_div_pos_is_pos(2 * yn + 10000, 2int * 10000);
        vstd::arithmetic::div_mod::lemma_multiply_divide_lt(2 * yn + 10000, 2int * 10000, 256);
        assert(0 <= y0 <= 255);
        assert(spec_y(r, g, b, 2990, 1140, d8, fr) == y0);
        let e1 = yn - 10000 * y0;

        // Blue-difference chroma.
        let nu = 10000 * b - yn;
        lemma_rdiv_s_cancel(nu, 17720, 255);
        let qu = rdiv_s(nu, 17720);
        assert(rdiv_s(nu * 255, 2 * (10000 - 1140) * 255) == qu);
        lemma_rdiv_s_err(nu, 17720);
        let e2 = nu - 17720 * qu;
        assert(nu < 2259300);
        assert(qu <= 127) by {
            if qu >= 128 {
                assert(2 * (nu - 17720 * qu) >= -17720);
                assert(17720 * qu >= 17720 * 128) by (nonlinear_arith)
                    requires
                        qu >= 128,
                ;
            }
        }
        assert(-128 <= qu) by {
            assert(-2259300 <= nu);
            assert(2 * (nu - 17720 * qu) <= 17720);
            if qu <= -129 {
                assert(17720 * qu <= 17720 * -129) by (nonlinear_arith)
                    requires
                        qu <= -129,
                ;
            }
        }
        assert(spec_u(r, g, b, 2990, 1140, d8, fr) == 128 + qu);

        // Red-difference chroma.
        let nv = 10000 * r - yn;
        lemma_rdiv_s_cancel(nv, 14020, 255);
        let qv = rdiv_s(nv, 14020);
        assert(rdiv_s(nv * 255, 2 * (10000 - 2990) * 255) == qv);
        lemma_rdiv_s_err(nv, 14020);
        let e3 = nv - 14020 * qv;
        assert(nv < 1787550);
        assert(qv <= 127) by {
            if qv >= 128 {
                assert(2 * (nv - 14020 * qv) >= -14020);
                assert(14020 * qv >= 14020 * 128) by (nonlinear_arith)
                    requires
                        qv >= 128,
                ;
            }
        }
        assert(-128 <= qv) by {
            assert(-1787550 <= nv);
            assert(2 * (nv - 14020 * qv) <= 14020);
            if qv <= -129 {
                assert(14020 * qv <= 14020 * -129) by (nonlinear_arith)
                    requires
                        qv <= -129,
                ;
            }
        }
        assert(spec_v(r, g, b, 2990, 1140, d8, fr) == 128 + qv);

        // Blue reconstruction.
        let mb = 10000 * y0 + 17720 * qu;
        lemma_rdiv_s_cancel(mb, 10000, 65025);
        assert(255 * ((y0 - 0) * 10000 * 255 + 2 * (10000 - 1140) * ((128 + qu) - 128) * 255)
            == 65025 * mb);
        assert(10000 * 255 * 255 == 65025 * 10000);
        let bp = rdiv_s(mb, 10000);
        assert(mb == b * 10000 + (0 - e1 - e2));
        lemma_rdiv_s_near(mb, b, 0 - e1 - e2, 10000);
        assert(spec_b(y0, 128 + qu, 2990, 1140, d8, fr) == clamp_i(bp, 0, 255));
        assert(-1 <= clamp_i(bp, 0, 255) - b <= 1);

        // Red reconstruction.
        let mr = 10000 * y0 + 14020 * qv;
        lemma_rdiv_s_cancel(mr, 10000, 65025);
        assert(255 * ((y0 - 0) * 10000 * 255 + 2 * (10000 - 2990) * ((128 + qv) - 128) * 255)
            == 65025 * mr);
        let rp = rdiv_s(mr, 10000);
        assert(mr == r * 10000 + (0 - e1 - e3));
        lemma_rdiv_s_near(mr, r, 0 - e1 - e3, 10000);
        assert(spec_r(y0, 128 + qv, 2990, 1140, d8, fr) == clamp_i(rp, 0, 255));
        assert(-1 <= clamp_i(rp, 0, 255) - r <= 1);

        // Green reconstruction.
        let mg = 58700000 * y0 - (20200800 * qu + 41919800 * qv);
        lemma_rdiv_s_cancel(mg, 58700000, 65025);
        assert(255 * ((y0 - 0) * 10000 * (10000 - 2990 - 1140) * 255 - (2 * 1140 * (10000 - 1140)
            * ((128 + qu) - 128) + 2 * 2990 * (10000 - 2990) * ((128 + qv) - 128)) * 255)
            == 65025 * mg);
        assert(10000 * (10000 - 2990 - 1140) * 255 * 255 == 65025 * 58700000);
        assert(20200800 * qu == 1140 * (17720 * qu));
        assert(41919800 * qv == 2990 * (14020 * qv));
        assert(mg == 5870 * yn - 1140 * nu - 2990 * nv - 5870 * e1 + 1140 * e2 + 2990 * e3);
        assert(5870 * yn - 1140 * nu - 2990 * nv == 58700000 * g);
        let eg = 1140 * e2 + 2990 * e3 - 5870 * e1;
        assert(mg == g * 58700000 + eg);
        assert(-(3 * 58700000) < 2 * eg < 3 * 58700000);
        lemma_rdiv_s_near(mg, g, eg, 58700000);
        let gp = rdiv_s(mg, 58700000);
        assert(spec_g(y0, 128 + qu, 128 + qv, 2990, 1140, d8, fr) == clamp_i(gp, 0, 255));
        assert(-1 <= clamp_i(gp, 0, 255) - g <= 1);
    }
}

} // verus!

verus! {

/// Law: image-level round trip at 4:4:4, depth 8, full range, BT.601.
///
/// Convert an 8-bit RGB image to a full-range 4:4:4 planar image whose
/// matrix-coefficients code selects BT.601 and read any pixel back
/// through the inverse conversion: every color channel lands within one
/// quantization step of the clamped source sample, whatever chroma
/// filter choices are configured.
pub proof fn lemma_bt601_image_round_trip(
    rgb: RgbImage,
    before: Image,
    after: Image,
    bilinear: bool,
    x: int,
    y: int,
)
    requires
        rgb.wf(),
        before.wf(),
        coeff_kr(before.matrix_coefficients) == 2990,
        before.matrix_coefficients != 0,
        before.depth is Eight,
        before.yuv_range is Full,
        before.yuv_format is Yuv444,
        rgb_to_yuv_check(rgb, before) is None,
        rgb_to_yuv_post(rgb, before, after),
        0 <= x < rgb.width,
        0 <= y < rgb.height,
    ensures
        -1 <= out_r_val(after, bilinear, x, y) - src_r(rgb, x, y) <= 1,
        -1 <= out_g_val(after, bilinear, x, y) - src_g(rgb, x, y) <= 1,
        -1 <= out_b_val(after, bilinear, x, y) - src_b(rgb, x, y) <= 1,
{
    let w = rgb.width as int;
    let i = y * w + x;
    let mc = before.matrix_coefficients;
    lemma_pix_index(x, y, w, rgb.height as int);
    vstd::arithmetic::div_mod::lemma_fundamental_div_mod_converse(i, w, y, x);
    assert(coeff_kb(mc) == 1140);
    let nearest = down_is_nearest(rgb.chroma_downsampling);
    let r0 = src_r(rgb, x, y);
    let g0 = src_g(rgb, x, y);
    let b0 = src_b(rgb, x, y);
    match after.planes {
        Option::Some(p) => {
            assert(p.y@[i] == conv_y_plane(rgb, mc, YuvRange::Full)[i]);
            assert(p.u@[i] == conv_chroma_plane(
                rgb,
                mc,
                YuvRange::Full,
                PixelFormat::Yuv444,
                false,
                nearest,
            )[i]);
            assert(p.v@[i] == conv_chroma_plane(
                rgb,
                mc,
                YuvRange::Full,
                PixelFormat::Yuv444,
                true,
                nearest,
            )[i]);
            let yq = spec_y(r0, g0, b0, 2990, 1140, BitDepth::Eight, YuvRange::Full);
            let uq = spec_u(r0, g0, b0, 2990, 1140, BitDepth::Eight, YuvRange::Full);
            let vq = spec_v(r0, g0, b0, 2990, 1140, BitDepth::Eight, YuvRange::Full);
            assert(0 <= yq <= 255 && 0 <= uq <= 255 && 0 <= vq <= 255);
            assert(y_sample(after, x, y) == yq);
            assert(up_chroma_at(after, false, bilinear, x, y) == c_sample(after, false, x, y));
            assert(up_chroma_at(after, true, bilinear, x, y) == c_sample(after, true, x, y));
            assert(c_sample(after, false, x, y) == uq);
            assert(c_sample(after, true, x, y) == vq);
            assert(0 <= r0 <= 255 && 0 <= g0 <= 255 && 0 <= b0 <= 255);
            lemma_bt601_round_trip_within_one(r0, g0, b0);
        },
        Option::None => {
            assert(false);
        },
    }
}

} // verus!

verus! {

/// Law: round trip through [`RgbImage::to_yuv_image`] at depth 8.
///
/// `to_yuv_image` converts into a fresh full-range image with unspecified
/// CICP codes, so the BT.601 transform; when it succeeds with a 4:4:4
/// target (its contract hands back exactly the hypotheses here, and its
/// refusals are only the packed-565 and floating-point layouts, zero
/// dimensions and the allocation cap), reading any pixel back through the
/// inverse conversion reproduces every channel of the clamped source
/// within one quantization step.
pub proof fn lemma_to_yuv_image_round_trip(
    rgb: RgbImage,
    after: Image,
    bilinear: bool,
    x: int,
    y: int,
)
    requires
        rgb.wf(),
        rgb.depth is Eight,
        0 < rgb.width,
        0 < rgb.height,
        rgb_to_yuv_check(rgb, default_yuv_target(rgb, PixelFormat::Yuv444)) is None,
        rgb_to_yuv_post(rgb, default_yuv_target(rgb, PixelFormat::Yuv444), after),
        0 <= x < rgb.width,
        0 <= y < rgb.height,
    ensures
        -1 <= out_r_val(after, bilinear, x, y) - src_r(rgb, x, y) <= 1,
        -1 <= out_g_val(after, bilinear, x, y) - src_g(rgb, x, y) <= 1,
        -1 <= out_b_val(after, bilinear, x, y) - src_b(rgb, x, y) <= 1,
{
    let before = default_yuv_target(rgb, PixelFormat::Yuv444);
    assert(before.wf());
    lemma_bt601_image_round_trip(rgb, before, after, bilinear, x, y);
}

} // verus!
