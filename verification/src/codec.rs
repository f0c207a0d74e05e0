//! The AV1 codec backend.
//!
//! Per-frame payload production is delegated to the rav1e encoder. Every
//! frame is encoded as an independently decodable still picture: a fresh
//! encoder context is configured for the frame's geometry, the plane data
//! is handed over, and the emitted packet data is collected as the
//! frame's payload. The payload bytes are whatever the codec produced;
//! the session records them verbatim, and nothing in this crate depends
//! on their content.
//!
//! The codec's context and frame values are opaque; each travels inside a
//! struct that carries, as ghost state, the geometry and subsampling it
//! was created for. The trusted wrappers state their preconditions over
//! that ghost geometry, which ties a frame to the context that shaped it:
//! plane and padding arithmetic inside rav1e and v_frame is driven by the
//! configured geometry, so a mismatched frame would be stepped out of
//! bounds.

use vstd::prelude::*;

use crate::image::{BitDepth, PixelFormat, has_chroma};

verus! {

/// Holds a rav1e encoder context; opaque to this crate (the context
/// type's own generic bound keeps it from being declared directly).
#[verifier::external_body]
struct ContextHandle {
    inner: rav1e::Context<u16>,
}

/// Holds a rav1e frame with the planes to encode; opaque to this crate.
#[verifier::external_body]
struct FrameHandle {
    inner: rav1e::Frame<u16>,
}

/// The geometry a codec value was created for: width, height and the
/// chroma subsampling format.
pub struct CodecGeometry {
    /// Configured frame width in pixels.
    pub width: u32,
    /// Configured frame height in pixels.
    pub height: u32,
    /// Configured chroma subsampling.
    pub format: PixelFormat,
}

/// A codec context together with the geometry it was configured for.
struct CodecContext {
    handle: ContextHandle,
    geom: Ghost<CodecGeometry>,
}

/// A codec frame together with the geometry of the context that
/// allocated it.
struct CodecFrame {
    handle: FrameHandle,
    geom: Ghost<CodecGeometry>,
}

/// One observation of the codec's output queue.
pub enum CodecPoll {
    /// A packet of encoded bytes came out.
    Packet(Vec<u8>),
    /// Nothing yet; poll again.
    Again,
    /// The encode is complete; no more packets will come.
    Done,
    /// The codec reported a failure.
    Failed,
}

/// Relies on rav1e's `Config::new_context`: builds a single-picture
/// encoder context for the given geometry, or `None` when rav1e rejects
/// the configuration. The depth must be one rav1e's 16-bit pixel type
/// carries: context creation asserts the depth fits the pixel width
/// before any validation runs, and depth-dependent shift amounts inside
/// the encoder assume a supported value. The thread bound keeps the pool
/// request within the range every session setter allows.
#[verifier::external_body]
fn context_new_raw(
    width: u32,
    height: u32,
    bit_depth: u32,
    format: PixelFormat,
    speed: u8,
    quantizer: u8,
    threads: u32,
) -> Option<ContextHandle>
    requires
        bit_depth == 8 || bit_depth == 10 || bit_depth == 12,
        threads <= 1024,
{
    let mut ec = rav1e::EncoderConfig::with_speed_preset(speed);
    ec.width = width as usize;
    ec.height = height as usize;
    ec.bit_depth = bit_depth as usize;
    ec.chroma_sampling = match format {
        PixelFormat::Yuv444 => rav1e::color::ChromaSampling::Cs444,
        PixelFormat::Yuv422 => rav1e::color::ChromaSampling::Cs422,
        PixelFormat::Yuv420 => rav1e::color::ChromaSampling::Cs420,
        _ => rav1e::color::ChromaSampling::Cs400,
    };
    ec.still_picture = true;
    ec.low_latency = true;
    ec.quantizer = quantizer as usize;
    let cfg = rav1e::Config::new().with_encoder_config(ec).with_threads(threads as usize);
    cfg.new_context().ok().map(|inner| ContextHandle { inner })
}

/// Relies on rav1e's `Context::new_frame`: allocates a frame whose planes
/// match the context's configured geometry.
#[verifier::external_body]
fn frame_new_raw(ctx: &CodecContext) -> FrameHandle {
    FrameHandle { inner: ctx.handle.inner.new_frame() }
}

/// Relies on `Plane::copy_from_raw_u8` of the v_frame crate: copies
/// little-endian 16-bit rows of `stride` bytes into plane `idx` of the
/// frame. A chroma plane exists (with a nonzero row stride) only when the
/// frame's format carries chroma, so filling one demands it; the luma
/// plane demands a positive width. The ghost geometry is bookkeeping the
/// call never touches.
#[verifier::external_body]
fn codec_fill_plane(frame: &mut CodecFrame, idx: usize, bytes: &Vec<u8>, stride: usize)
    requires
        idx < 3,
        0 < stride,
        0 < old(frame).geom@.width,
        1 <= idx ==> has_chroma(old(frame).geom@.format),
    ensures
        final(frame).geom == old(frame).geom,
{
    frame.handle.inner.planes[idx].copy_from_raw_u8(bytes.as_slice(), stride, 2);
}

/// Relies on rav1e's `Context::send_frame`: queues the frame, reporting
/// whether the codec accepted it. The frame must come from a context of
/// the same geometry: rav1e pads the frame's planes to the receiving
/// context's configured dimensions.
#[verifier::external_body]
fn codec_send_frame(ctx: &mut CodecContext, frame: CodecFrame) -> (accepted: bool)
    requires
        frame.geom@ == old(ctx).geom@,
    ensures
        final(ctx).geom == old(ctx).geom,
{
    ctx.handle.inner.send_frame(frame.handle.inner).is_ok()
}

/// Relies on rav1e's `Context::flush`: signals that no further frames
/// will be sent.
#[verifier::external_body]
fn codec_flush(ctx: &mut CodecContext)
    ensures
        final(ctx).geom == old(ctx).geom,
{
    ctx.handle.inner.flush();
}

/// Relies on rav1e's `Context::receive_packet`, mapping its status onto
/// [`CodecPoll`], one variant per outcome.
#[verifier::external_body]
fn codec_receive(ctx: &mut CodecContext) -> (poll: CodecPoll)
    ensures
        final(ctx).geom == old(ctx).geom,
{
    match ctx.handle.inner.receive_packet() {
        Ok(packet) => CodecPoll::Packet(packet.data),
        Err(rav1e::EncoderStatus::Encoded) => CodecPoll::Again,
        Err(rav1e::EncoderStatus::NeedMoreData) => CodecPoll::Again,
        Err(rav1e::EncoderStatus::LimitReached) => CodecPoll::Done,
        Err(_) => CodecPoll::Failed,
    }
}

/// The most polls of the codec's output queue one frame is given before
/// the encode is abandoned as failed.
pub const MAX_CODEC_POLLS: u32 = 4096;

/// Serializes samples as little-endian byte pairs.
fn samples_to_le_bytes(src: &Vec<u16>) -> (r: Vec<u8>)
    ensures
        r@.len() == 2 * src@.len(),
        forall|i: int|
            0 <= i < src@.len() ==> r@[2 * i] == (src@[i] % 256) as u8 && r@[2 * i + 1] == (src@[i]
                / 256) as u8,
{
    let mut out: Vec<u8> = Vec::new();
    let mut i: usize = 0;
    while i < src.len()
        invariant
            i <= src@.len(),
            out@.len() == 2 * i,
            forall|k: int|
                0 <= k < i ==> out@[2 * k] == (src@[k] % 256) as u8 && out@[2 * k + 1] == (src@[k]
                    / 256) as u8,
        decreases src@.len() - i,
    {
        let s: u16 = src[i];
        out.push((s % 256) as u8);
        out.push((s / 256) as u8);
        i = i + 1;
    }
    out
}

/// Encodes one planar frame through the codec backend and returns its
/// payload bytes.
///
/// The result is whatever packet data the codec emitted, in order; a
/// successful encode always carries at least one byte. `None` reports
/// that the codec rejected the configuration, refused the frame, or
/// produced nothing.
pub(crate) fn encode_frame_payload(
    width: u32,
    height: u32,
    depth: BitDepth,
    format: PixelFormat,
    speed: u8,
    quantizer: u8,
    threads: u32,
    y: &Vec<u16>,
    u: &Vec<u16>,
    v: &Vec<u16>,
) -> (r: Option<Vec<u8>>)
    requires
        0 < width,
        0 < height,
        width <= crate::image::MAX_PLANE_SAMPLES,
        threads <= 1024,
        !(format is NoFormat),
    ensures
        r matches Option::Some(d) ==> d@.len() > 0,
{
    let handle_opt = context_new_raw(
        width,
        height,
        depth.bits(),
        format,
        speed,
        quantizer,
        threads,
    );
    let handle = match handle_opt {
        Option::Some(h) => h,
        Option::None => {
            return Option::None;
        },
    };
    let mut ctx = CodecContext { handle, geom: Ghost(CodecGeometry { width, height, format }) };
    let mut frame = CodecFrame { handle: frame_new_raw(&ctx), geom: ctx.geom };
    let y_bytes = samples_to_le_bytes(y);
    proof {
        crate::image::lemma_mul_le(width as nat, 2, 0xFFFF_FFFF as nat, 2);
    }
    codec_fill_plane(&mut frame, 0, &y_bytes, 2 * (width as usize));
    if format.has_chroma_planes() {
        let cw: u32 = crate::image::chroma_w_exec(format, width);
        let u_bytes = samples_to_le_bytes(u);
        let v_bytes = samples_to_le_bytes(v);
        codec_fill_plane(&mut frame, 1, &u_bytes, 2 * (cw as usize));
        codec_fill_plane(&mut frame, 2, &v_bytes, 2 * (cw as usize));
    }
    if !codec_send_frame(&mut ctx, frame) {
        return Option::None;
    }
    codec_flush(&mut ctx);
    let mut out: Vec<u8> = Vec::new();
    let mut polls: u32 = 0;
    let mut done: bool = false;
    while polls < MAX_CODEC_POLLS && !done
        invariant
            polls <= MAX_CODEC_POLLS,
        decreases MAX_CODEC_POLLS - polls,
    {
        match codec_receive(&mut ctx) {
            CodecPoll::Packet(mut data) => {
                out.append(&mut data);
            },
            CodecPoll::Again => {},
            CodecPoll::Done => {
                done = true;
            },
            CodecPoll::Failed => {
                return Option::None;
            },
        }
        polls = polls + 1;
    }
    if !done || out.len() == 0 {
        return Option::None;
    }
    Option::Some(out)
}

} // verus!
