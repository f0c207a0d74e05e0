//! The encoding session.
//!
//! An [`Encoder`] accumulates planar images — one still, an animation
//! sequence, or a grid of tiles — and produces one encoded byte stream.
//! The session walks three states: `Configuring` (setters accepted),
//! `Accumulating` (after the first add), and `Finished` (terminal).
//! Per-frame payload production is delegated to the codec backend; the
//! session records the payloads verbatim and serializes them, with the
//! configuration and per-frame metadata, into the output buffer.

use vstd::prelude::*;

use crate::RwData;
use crate::codec::encode_frame_payload;
use crate::error::AvifError;
use crate::image::{BitDepth, Image, PixelFormat, depth_bits, format_code};
use vstd::string::StringSliceAdditionalSpecFns;

verus! {

/// Available codec choices for encoding.
///
/// Only the rav1e backend is linked into this crate; selecting another
/// backend reports `NoCodecAvailable` at the first encode.
#[derive(Debug, Clone, Copy, PartialEq, Eq, Structural)]
pub enum EncoderCodecChoice {
    /// Automatically select the best available codec
    Auto,
    /// The AOM reference encoder (not linked)
    Aom,
    /// The rav1e encoder (the backend of this crate)
    Rav1e,
    /// The SVT-AV1 encoder (not linked)
    Svt,
}

/// Whether a codec choice names a backend that is actually linked.
pub open spec fn codec_available(c: EncoderCodecChoice) -> bool {
    c is Auto || c is Rav1e
}

/// Flags controlling how images are added to the encoder; combine them
/// with [`AddImageFlags::or`].
#[derive(Debug, Clone, Copy, PartialEq, Eq, Structural)]
pub struct AddImageFlags(pub u32);

/// The bit marking a forced keyframe.
pub const FLAG_FORCE_KEYFRAME: u32 = 1;

/// The bit marking a single (only-ever) image.
pub const FLAG_SINGLE: u32 = 2;

impl AddImageFlags {
    /// No special flags.
    pub fn none() -> (r: AddImageFlags)
        ensures
            r.0 == 0,
    {
        AddImageFlags(0)
    }

    /// Force this image to be a keyframe.
    pub fn force_keyframe() -> (r: AddImageFlags)
        ensures
            r.0 == FLAG_FORCE_KEYFRAME,
    {
        AddImageFlags(FLAG_FORCE_KEYFRAME)
    }

    /// This is the only image (single-image stream).
    pub fn single() -> (r: AddImageFlags)
        ensures
            r.0 == FLAG_SINGLE,
    {
        AddImageFlags(FLAG_SINGLE)
    }

    /// Returns the raw flag bits.
    pub fn bits(&self) -> (b: u32)
        ensures
            b == self.0,
    {
        self.0
    }

    /// Combines two flag sets.
    pub fn or(self, other: AddImageFlags) -> (r: AddImageFlags)
        ensures
            r.0 == self.0 | other.0,
    {
        AddImageFlags(self.0 | other.0)
    }
}

impl Default for AddImageFlags {
    /// No special flags.
    fn default() -> (r: AddImageFlags)
        ensures
            r.0 == 0,
    {
        AddImageFlags(0)
    }
}

/// The single flag is set.
pub open spec fn is_single(flags: u32) -> bool {
    flags & FLAG_SINGLE != 0
}

/// The lifecycle state of an encoding session.
#[derive(Debug, Clone, Copy, PartialEq, Eq, Structural)]
pub enum SessionState {
    /// Created; configuration setters are accepted.
    Configuring,
    /// At least one image added; configuration is frozen.
    Accumulating,
    /// Finished; the session takes no further calls.
    Finished,
}

/// One encoded grid cell: the color payload and the alpha payload, if the
/// cell carried alpha.
pub struct EncodedCell {
    /// The codec payload of the YUV planes.
    pub color: Vec<u8>,
    /// The codec payload of the alpha plane, when one exists.
    pub alpha: Option<Vec<u8>>,
}

/// One accumulated frame: its animation metadata and the payloads of its
/// grid cells (a plain image is a 1 x 1 grid).
pub struct EncodedFrame {
    /// Display duration in timescale units.
    pub duration: u64,
    /// The add-image flag bits the frame was added with.
    pub flags: u32,
    /// Grid columns.
    pub cols: u16,
    /// Grid rows.
    pub rows: u16,
    /// The encoded cells, row-major.
    pub cells: Vec<EncodedCell>,
}

/// A frame holds exactly one cell per grid position.
pub open spec fn frame_wf(fr: EncodedFrame) -> bool {
    &&& 1 <= fr.cols
    &&& 1 <= fr.rows
    &&& fr.cells@.len() == fr.cols * fr.rows
}

/// A stateful encoding session.
pub struct Encoder {
    /// The codec backend to use.
    pub codec_choice: EncoderCodecChoice,
    /// Thread-count hint handed to the codec, at most 1024.
    pub max_threads: u32,
    /// Speed/quality tradeoff, 0 (slowest) to 10 (fastest).
    pub speed: u8,
    /// Frames between forced keyframes (0 leaves it to the codec);
    /// recorded configuration — every frame of this session is encoded
    /// independently decodable.
    pub keyframe_interval: u32,
    /// Time units per second for animation durations.
    pub timescale: u64,
    /// The repetition count as stored: the requested count minus one,
    /// where -1 stands for an infinite loop.
    pub repetition_stored: i64,
    /// Color quality, 0 to 100.
    pub quality: u8,
    /// Alpha quality, 0 to 100.
    pub quality_alpha: u8,
    /// Minimum color quantizer, 0 to 100.
    pub min_quantizer: u8,
    /// Maximum color quantizer, 0 to 100.
    pub max_quantizer: u8,
    /// Minimum alpha quantizer, 0 to 100.
    pub min_quantizer_alpha: u8,
    /// Maximum alpha quantizer, 0 to 100.
    pub max_quantizer_alpha: u8,
    /// Log2 of the number of tile rows, 0 to 6 (recorded configuration).
    pub tile_rows_log2: u8,
    /// Log2 of the number of tile columns, 0 to 6 (recorded
    /// configuration).
    pub tile_cols_log2: u8,
    /// Whether the codec may pick the tiling itself (recorded
    /// configuration).
    pub auto_tiling: bool,
    /// Codec-specific key/value options, free of embedded nul bytes.
    /// Recorded configuration: the linked rav1e backend exposes no
    /// string-option interface, so nothing consumes them.
    pub codec_options: Vec<(String, String)>,
    /// Where the session stands in its lifecycle.
    pub state: SessionState,
    /// A single-image add has been committed; nothing more may follow.
    pub single_committed: bool,
    /// A grid has been committed; nothing more may follow.
    pub grid_committed: bool,
    /// Width of the (composed) image, set by the first add.
    pub frame_width: u32,
    /// Height of the (composed) image, set by the first add.
    pub frame_height: u32,
    /// Bit depth of the accumulated frames, set by the first add.
    pub frame_depth: BitDepth,
    /// YUV format of the accumulated frames, set by the first add.
    pub frame_format: PixelFormat,
    /// The accumulated frames, in order of addition.
    pub frames: Vec<EncodedFrame>,
}

impl Encoder {
    /// Well-formedness: clamped configuration values and a consistent
    /// lifecycle state.
    pub open spec fn wf(self) -> bool {
        &&& self.speed <= 10
        &&& self.max_threads <= 1024
        &&& self.quality <= 100
        &&& self.quality_alpha <= 100
        &&& self.min_quantizer <= 100
        &&& self.max_quantizer <= 100
        &&& self.min_quantizer_alpha <= 100
        &&& self.max_quantizer_alpha <= 100
        &&& self.tile_rows_log2 <= 6
        &&& self.tile_cols_log2 <= 6
        &&& -1 <= self.repetition_stored < 0x1_0000_0000i64
        &&& self.state is Configuring ==> self.frames@.len() == 0 && !self.single_committed
            && !self.grid_committed
        &&& self.state is Finished ==> self.frames@.len() == 0
        &&& self.frames@.len() > 0 ==> self.state is Accumulating
        &&& self.frames@.len() <= 0xFFFF_FFFF
        &&& forall|i: int| 0 <= i < self.frames@.len() ==> frame_wf(#[trigger] self.frames@[i])
    }

    /// The session's configuration fields (everything the setters touch,
    /// plus the first frame's geometry) agree between two values.
    pub open spec fn same_config(a: Encoder, b: Encoder) -> bool {
        &&& a.codec_choice == b.codec_choice
        &&& a.max_threads == b.max_threads
        &&& a.speed == b.speed
        &&& a.keyframe_interval == b.keyframe_interval
        &&& a.timescale == b.timescale
        &&& a.repetition_stored == b.repetition_stored
        &&& a.quality == b.quality
        &&& a.quality_alpha == b.quality_alpha
        &&& a.min_quantizer == b.min_quantizer
        &&& a.max_quantizer == b.max_quantizer
        &&& a.min_quantizer_alpha == b.min_quantizer_alpha
        &&& a.max_quantizer_alpha == b.max_quantizer_alpha
        &&& a.tile_rows_log2 == b.tile_rows_log2
        &&& a.tile_cols_log2 == b.tile_cols_log2
        &&& a.auto_tiling == b.auto_tiling
        &&& a.codec_options@ == b.codec_options@
    }

    /// Creates a new encoding session with default configuration:
    /// automatic codec choice, one thread, speed 6, quality 60 (alpha
    /// 100), quantizers 0 to 63, no tiling, timescale 1, infinite
    /// repetition.
    pub fn new() -> (r: Result<Encoder, AvifError>)
        ensures
            r matches Result::Ok(e) && e.wf() && e.state is Configuring && e.frames@.len() == 0
                && e.codec_choice is Auto && e.max_threads == 1 && e.speed == 6
                && e.keyframe_interval == 0 && e.timescale == 1 && e.repetition_stored == -1
                && e.quality == 60 && e.quality_alpha == 100 && e.min_quantizer == 0
                && e.max_quantizer == 63 && e.min_quantizer_alpha == 0 && e.max_quantizer_alpha
                == 63 && e.tile_rows_log2 == 0 && e.tile_cols_log2 == 0 && e.auto_tiling == false
                && e.codec_options@.len() == 0,
    {
        Ok(
            Encoder {
                codec_choice: EncoderCodecChoice::Auto,
                max_threads: 1,
                speed: 6,
                keyframe_interval: 0,
                timescale: 1,
                repetition_stored: -1,
                quality: 60,
                quality_alpha: 100,
                min_quantizer: 0,
                max_quantizer: 63,
                min_quantizer_alpha: 0,
                max_quantizer_alpha: 63,
                tile_rows_log2: 0,
                tile_cols_log2: 0,
                auto_tiling: false,
                codec_options: Vec::new(),
                state: SessionState::Configuring,
                single_committed: false,
                grid_committed: false,
                frame_width: 0,
                frame_height: 0,
                frame_depth: BitDepth::Eight,
                frame_format: PixelFormat::NoFormat,
                frames: Vec::new(),
            },
        )
    }

    /// Sets the codec choice for encoding; accepted while configuring.
    pub fn set_codec_choice(&mut self, choice: EncoderCodecChoice)
        requires
            old(self).state is Configuring,
        ensures
            *final(self) == (Encoder { codec_choice: choice, ..*old(self) }),
    {
        self.codec_choice = choice;
    }

    /// Sets the thread-count hint, clamped to 1024; accepted while
    /// configuring.
    pub fn set_max_threads(&mut self, threads: u32)
        requires
            old(self).state is Configuring,
        ensures
            *final(self) == (Encoder {
                max_threads: if threads <= 1024 {
                    threads
                } else {
                    1024
                },
                ..*old(self)
            }),
    {
        self.max_threads = if threads <= 1024 {
            threads
        } else {
            1024
        };
    }

    /// Sets the speed/quality tradeoff, clamped to 10; accepted while
    /// configuring.
    pub fn set_speed(&mut self, speed: u8)
        requires
            old(self).state is Configuring,
        ensures
            *final(self) == (Encoder {
                speed: if speed <= 10 {
                    speed
                } else {
                    10
                },
                ..*old(self)
            }),
    {
        self.speed = if speed <= 10 {
            speed
        } else {
            10
        };
    }

    /// Sets the keyframe interval; accepted while configuring.
    pub fn set_keyframe_interval(&mut self, interval: u32)
        requires
            old(self).state is Configuring,
        ensures
            *final(self) == (Encoder { keyframe_interval: interval, ..*old(self) }),
    {
        self.keyframe_interval = interval;
    }

    /// Sets the timescale (time units per second); accepted while
    /// configuring.
    pub fn set_timescale(&mut self, timescale: u64)
        requires
            old(self).state is Configuring,
        ensures
            *final(self) == (Encoder { timescale, ..*old(self) }),
    {
        self.timescale = timescale;
    }

    /// Sets the repetition count: 0 means loop forever, a positive count
    /// N plays the animation N times. The value is stored as N - 1 extra
    /// repeats, so 0 stores the infinite marker -1.
    pub fn set_repetition_count(&mut self, count: u32)
        requires
            old(self).state is Configuring,
        ensures
            *final(self) == (Encoder {
                repetition_stored: final(self).repetition_stored,
                ..*old(self)
            }),
            final(self).repetition_stored == count - 1,
    {
        self.repetition_stored = (count as i64) - 1;
    }

    /// Sets the color quality, clamped to 100; accepted while
    /// configuring.
    pub fn set_quality(&mut self, quality: u8)
        requires
            old(self).state is Configuring,
        ensures
            *final(self) == (Encoder {
                quality: if quality <= 100 {
                    quality
                } else {
                    100
                },
                ..*old(self)
            }),
    {
        self.quality = if quality <= 100 {
            quality
        } else {
            100
        };
    }

    /// Sets the alpha quality, clamped to 100; accepted while
    /// configuring.
    pub fn set_quality_alpha(&mut self, quality: u8)
        requires
            old(self).state is Configuring,
        ensures
            *final(self) == (Encoder {
                quality_alpha: if quality <= 100 {
                    quality
                } else {
                    100
                },
                ..*old(self)
            }),
    {
        self.quality_alpha = if quality <= 100 {
            quality
        } else {
            100
        };
    }

    /// Sets the color quantizer range, each bound clamped to 100;
    /// accepted while configuring.
    pub fn set_quantizer_range(&mut self, min: u8, max: u8)
        requires
            old(self).state is Configuring,
        ensures
            *final(self) == (Encoder {
                min_quantizer: if min <= 100 {
                    min
                } else {
                    100
                },
                max_quantizer: if max <= 100 {
                    max
                } else {
                    100
                },
                ..*old(self)
            }),
    {
        self.min_quantizer = if min <= 100 {
            min
        } else {
            100
        };
        self.max_quantizer = if max <= 100 {
            max
        } else {
            100
        };
    }

    /// Sets the alpha quantizer range, each bound clamped to 100;
    /// accepted while configuring.
    pub fn set_quantizer_alpha_range(&mut self, min: u8, max: u8)
        requires
            old(self).state is Configuring,
        ensures
            *final(self) == (Encoder {
                min_quantizer_alpha: if min <= 100 {
                    min
                } else {
                    100
                },
                max_quantizer_alpha: if max <= 100 {
                    max
                } else {
                    100
                },
                ..*old(self)
            }),
    {
        self.min_quantizer_alpha = if min <= 100 {
            min
        } else {
            100
        };
        self.max_quantizer_alpha = if max <= 100 {
            max
        } else {
            100
        };
    }

    /// Sets the tiling configuration, each log2 clamped to 6; accepted
    /// while configuring.
    pub fn set_tiling(&mut self, tile_rows_log2: u8, tile_cols_log2: u8)
        requires
            old(self).state is Configuring,
        ensures
            *final(self) == (Encoder {
                tile_rows_log2: if tile_rows_log2 <= 6 {
                    tile_rows_log2
                } else {
                    6
                },
                tile_cols_log2: if tile_cols_log2 <= 6 {
                    tile_cols_log2
                } else {
                    6
                },
                ..*old(self)
            }),
    {
        self.tile_rows_log2 = if tile_rows_log2 <= 6 {
            tile_rows_log2
        } else {
            6
        };
        self.tile_cols_log2 = if tile_cols_log2 <= 6 {
            tile_cols_log2
        } else {
            6
        };
    }

    /// Enables or disables automatic tiling; accepted while configuring.
    pub fn set_auto_tiling(&mut self, enabled: bool)
        requires
            old(self).state is Configuring,
        ensures
            *final(self) == (Encoder { auto_tiling: enabled, ..*old(self) }),
    {
        self.auto_tiling = enabled;
    }

    /// Records a codec-specific key/value option; accepted while
    /// configuring.
    ///
    /// Keys and values must be free of embedded nul bytes, else the call
    /// fails with `InvalidArgument` and records nothing. The options are
    /// validated and kept as configuration only: the linked rav1e
    /// backend has no string-option interface to hand them to.
    pub fn set_codec_specific_option(&mut self, key: &str, value: &str) -> (r: Result<
        (),
        AvifError,
    >)
        requires
            old(self).state is Configuring,
        ensures
            has_nul_byte(key.spec_bytes()) || has_nul_byte(value.spec_bytes()) ==> r == Result::<
                (),
                AvifError,
            >::Err(AvifError::InvalidArgument) && *final(self) == *old(self),
            !has_nul_byte(key.spec_bytes()) && !has_nul_byte(value.spec_bytes()) ==> r == Result::<
                (),
                AvifError,
            >::Ok(()) && final(self).codec_options@.len() == old(self).codec_options@.len() + 1 && (
            forall|i: int|
                0 <= i < old(self).codec_options@.len() ==> final(self).codec_options@[i]
                    == old(self).codec_options@[i]) && final(self).codec_options@.last().0@ == key@
                && final(self).codec_options@.last().1@ == value@ && (*final(self) == (Encoder {
                codec_options: final(self).codec_options,
                ..*old(self)
            })),
    {
        if contains_nul(key) || contains_nul(value) {
            return Err(AvifError::InvalidArgument);
        }
        self.codec_options.push((key.to_owned(), value.to_owned()));
        Ok(())
    }

    /// Returns the size of the gain map in bytes; this encoder does not
    /// produce gain maps, so the size is always zero.
    pub fn get_gain_map_size_bytes(&self) -> (r: usize)
        ensures
            r == 0,
    {
        0
    }
}

impl Default for Encoder {
    /// A session with the default configuration of [`Encoder::new`].
    fn default() -> (r: Encoder)
        ensures
            r.wf() && r.state is Configuring && r.frames@.len() == 0,
    {
        match Encoder::new() {
            Ok(e) => e,
            Err(_) => Encoder {
                codec_choice: EncoderCodecChoice::Auto,
                max_threads: 1,
                speed: 6,
                keyframe_interval: 0,
                timescale: 1,
                repetition_stored: -1,
                quality: 60,
                quality_alpha: 100,
                min_quantizer: 0,
                max_quantizer: 63,
                min_quantizer_alpha: 0,
                max_quantizer_alpha: 63,
                tile_rows_log2: 0,
                tile_cols_log2: 0,
                auto_tiling: false,
                codec_options: Vec::new(),
                state: SessionState::Configuring,
                single_committed: false,
                grid_committed: false,
                frame_width: 0,
                frame_height: 0,
                frame_depth: BitDepth::Eight,
                frame_format: PixelFormat::NoFormat,
                frames: Vec::new(),
            },
        }
    }
}

/// The byte sequence holds an embedded nul.
pub open spec fn has_nul_byte(s: Seq<u8>) -> bool {
    exists|i: int| 0 <= i < s.len() && s[i] == 0
}

/// Scans a string's bytes for an embedded nul.
fn contains_nul(s: &str) -> (r: bool)
    ensures
        r == has_nul_byte(s.spec_bytes()),
{
    let bytes: &[u8] = s.as_bytes();
    let mut i: usize = 0;
    while i < bytes.len()
        invariant
            i <= bytes@.len(),
            bytes@ == s.spec_bytes(),
            forall|k: int| 0 <= k < i ==> bytes@[k] != 0,
        decreases bytes@.len() - i,
    {
        if bytes[i] == 0 {
            return true;
        }
        i = i + 1;
    }
    false
}

} // verus!

verus! {

/// The two little-endian bytes of a 16-bit value.
pub open spec fn le16(v: u16) -> Seq<u8> {
    seq![(v % 256) as u8, (v / 256) as u8]
}

/// The four little-endian bytes of a 32-bit value.
pub open spec fn le32(v: u32) -> Seq<u8> {
    seq![
        (v % 256) as u8,
        ((v / 256) % 256) as u8,
        ((v / 65536) % 256) as u8,
        ((v / 16777216) % 256) as u8,
    ]
}

/// The eight little-endian bytes of a 64-bit value.
pub open spec fn le64(v: u64) -> Seq<u8> {
    seq![
        (v % 256) as u8,
        ((v / 256) % 256) as u8,
        ((v / 65536) % 256) as u8,
        ((v / 16777216) % 256) as u8,
        ((v / 4294967296) % 256) as u8,
        ((v / 1099511627776) % 256) as u8,
        ((v / 281474976710656) % 256) as u8,
        ((v / 72057594037927936) % 256) as u8,
    ]
}

/// Appends the two little-endian bytes of a 16-bit value.
fn push_le16(out: &mut Vec<u8>, v: u16)
    ensures
        final(out)@ == old(out)@ + le16(v),
{
    out.push((v % 256) as u8);
    out.push((v / 256) as u8);
    proof {
        assert(final(out)@ =~= old(out)@ + le16(v));
    }
}

/// Appends the four little-endian bytes of a 32-bit value.
fn push_le32(out: &mut Vec<u8>, v: u32)
    ensures
        final(out)@ == old(out)@ + le32(v),
{
    out.push((v % 256) as u8);
    out.push(((v / 256) % 256) as u8);
    out.push(((v / 65536) % 256) as u8);
    out.push(((v / 16777216) % 256) as u8);
    proof {
        assert(final(out)@ =~= old(out)@ + le32(v));
    }
}

/// Appends the eight little-endian bytes of a 64-bit value.
fn push_le64(out: &mut Vec<u8>, v: u64)
    ensures
        final(out)@ == old(out)@ + le64(v),
{
    out.push((v % 256) as u8);
    out.push(((v / 256) % 256) as u8);
    out.push(((v / 65536) % 256) as u8);
    out.push(((v / 16777216) % 256) as u8);
    out.push(((v / 4294967296) % 256) as u8);
    out.push(((v / 1099511627776) % 256) as u8);
    out.push(((v / 281474976710656) % 256) as u8);
    out.push(((v / 72057594037927936) % 256) as u8);
    proof {
        assert(final(out)@ =~= old(out)@ + le64(v));
    }
}

/// Appends all bytes of `src`.
fn push_bytes(out: &mut Vec<u8>, src: &Vec<u8>)
    ensures
        final(out)@ == old(out)@ + src@,
{
    let mut i: usize = 0;
    while i < src.len()
        invariant
            i <= src@.len(),
            out@ == old(out)@ + src@.subrange(0, i as int),
        decreases src@.len() - i,
    {
        out.push(src[i]);
        i = i + 1;
        proof {
            assert(out@ =~= old(out)@ + src@.subrange(0, i as int));
        }
    }
    proof {
        assert(out@ =~= old(out)@ + src@);
    }
}

/// The repetition header field: the stored extra-repeat count, with the
/// all-ones marker standing for an infinite loop.
pub open spec fn repetition_field(stored: i64) -> u64 {
    if stored < 0 {
        u64::MAX
    } else {
        stored as u64
    }
}

/// The output stream's header: a four-byte tag, a version byte, the frame
/// geometry, the animation timing, the repetition field and the frame
/// count.
pub open spec fn serialize_header(e: Encoder) -> Seq<u8> {
    seq![0x41u8, 0x56u8, 0x30u8, 0x31u8, 1u8, depth_bits(e.frame_depth) as u8, format_code(
        e.frame_format,
    ) as u8] + le32(e.frame_width) + le32(e.frame_height) + le64(e.timescale) + le64(
        repetition_field(e.repetition_stored),
    ) + le32(e.keyframe_interval) + le32(e.frames@.len() as u32)
}

/// One serialized cell: the color payload, length-prefixed, then the
/// alpha payload, length-prefixed (length zero when there is none).
pub open spec fn serialize_cell(c: EncodedCell) -> Seq<u8> {
    le64(c.color@.len() as u64) + c.color@ + (match c.alpha {
        Option::Some(a) => le64(a@.len() as u64) + a@,
        Option::None => le64(0),
    })
}

/// The first `n` cells, serialized in order.
pub open spec fn serialize_cells(cells: Seq<EncodedCell>, n: int) -> Seq<u8>
    decreases n,
{
    if n <= 0 {
        Seq::empty()
    } else {
        serialize_cells(cells, n - 1) + serialize_cell(cells[n - 1])
    }
}

/// One serialized frame: duration, flags, grid shape, then the cells.
pub open spec fn serialize_frame(fr: EncodedFrame) -> Seq<u8> {
    le64(fr.duration) + le32(fr.flags) + le16(fr.cols) + le16(fr.rows) + serialize_cells(
        fr.cells@,
        fr.cells@.len() as int,
    )
}

/// The first `n` frames, serialized in order.
pub open spec fn serialize_frames(frames: Seq<EncodedFrame>, n: int) -> Seq<u8>
    decreases n,
{
    if n <= 0 {
        Seq::empty()
    } else {
        serialize_frames(frames, n - 1) + serialize_frame(frames[n - 1])
    }
}

/// The whole output stream of a session: header, then every accumulated
/// frame in order of addition.
pub open spec fn serialize_session(e: Encoder) -> Seq<u8> {
    serialize_header(e) + serialize_frames(e.frames@, e.frames@.len() as int)
}

/// Serializes the session's accumulated state into the output bytes.
fn serialize_session_exec(e: &Encoder) -> (out: Vec<u8>)
    requires
        e.wf(),
    ensures
        out@ == serialize_session(*e),
{
    let mut out: Vec<u8> = Vec::new();
    out.push(0x41);
    out.push(0x56);
    out.push(0x30);
    out.push(0x31);
    out.push(1);
    out.push(e.frame_depth.bits() as u8);
    out.push(e.frame_format.code() as u8);
    push_le32(&mut out, e.frame_width);
    push_le32(&mut out, e.frame_height);
    push_le64(&mut out, e.timescale);
    let rep: u64 = if e.repetition_stored < 0 {
        u64::MAX
    } else {
        e.repetition_stored as u64
    };
    push_le64(&mut out, rep);
    push_le32(&mut out, e.keyframe_interval);
    push_le32(&mut out, e.frames.len() as u32);
    proof {
        assert(out@ =~= serialize_header(*e));
    }
    let mut i: usize = 0;
    while i < e.frames.len()
        invariant
            i <= e.frames@.len(),
            e.wf(),
            out@ == serialize_header(*e) + serialize_frames(e.frames@, i as int),
        decreases e.frames@.len() - i,
    {
        let fr = &e.frames[i];
        push_le64(&mut out, fr.duration);
        push_le32(&mut out, fr.flags);
        push_le16(&mut out, fr.cols);
        push_le16(&mut out, fr.rows);
        let ghost frame_prefix = out@;
        let mut j: usize = 0;
        while j < fr.cells.len()
            invariant
                j <= fr.cells@.len(),
                out@ == frame_prefix + serialize_cells(fr.cells@, j as int),
            decreases fr.cells@.len() - j,
        {
            let cell = &fr.cells[j];
            push_le64(&mut out, cell.color.len() as u64);
            push_bytes(&mut out, &cell.color);
            match &cell.alpha {
                Option::Some(a) => {
                    push_le64(&mut out, a.len() as u64);
                    push_bytes(&mut out, a);
                },
                Option::None => {
                    push_le64(&mut out, 0);
                },
            }
            j = j + 1;
            proof {
                assert(out@ =~= frame_prefix + serialize_cells(fr.cells@, j as int));
            }
        }
        i = i + 1;
        proof {
            assert(out@ =~= serialize_header(*e) + serialize_frames(e.frames@, i as int));
        }
    }
    proof {
        assert(out@ =~= serialize_session(*e));
    }
    out
}

} // verus!

verus! {

/// The codec quantizer derived from a 0-100 quality: quality 100 is
/// lossless intent (quantizer 0), quality 0 the coarsest, mapped first
/// onto the 0-63 AV1 scale and then onto the codec's 0-255 scale.
pub open spec fn quantizer_of_quality(q: int) -> int {
    (((100 - q) * 63 + 50) / 100) * 4
}

/// Computes the codec quantizer of a quality setting.
fn quantizer_for(quality: u8) -> (r: u8)
    requires
        quality <= 100,
    ensures
        r == quantizer_of_quality(quality as int),
        r <= 252,
{
    let qp: u32 = ((100 - quality as u32) * 63 + 50) / 100;
    (qp * 4) as u8
}

/// The image carries an alpha plane.
pub open spec fn image_has_alpha(img: Image) -> bool {
    match img.planes {
        Option::Some(p) => p.a is Some,
        Option::None => false,
    }
}

/// Encodes one planar image into a cell: the color planes as one codec
/// payload and the alpha plane, when present, as a second monochrome
/// payload.
fn encode_cell(image: &Image, speed: u8, qcolor: u8, qalpha: u8, threads: u32) -> (r: Result<
    EncodedCell,
    AvifError,
>)
    requires
        image.wf(),
        image.planes is Some,
        !(image.yuv_format is NoFormat),
        threads <= 1024,
    ensures
        r matches Result::Ok(c) ==> c.color@.len() > 0 && (c.alpha is Some <==> image_has_alpha(
            *image,
        )) && (c.alpha matches Option::Some(a) ==> a@.len() > 0),
        r matches Result::Err(e) ==> e == AvifError::EncodeColorFailed || e
            == AvifError::EncodeAlphaFailed,
{
    proof {
        assert(image.width <= crate::image::MAX_PLANE_SAMPLES) by (nonlinear_arith)
            requires
                (image.width * image.height) as nat <= crate::image::MAX_PLANE_SAMPLES,
                image.height >= 1,
                image.width >= 0,
        ;
    }
    let color: Vec<u8>;
    let alpha: Option<Vec<u8>>;
    match &image.planes {
        Option::Some(p) => {
            match encode_frame_payload(
                image.width,
                image.height,
                image.depth,
                image.yuv_format,
                speed,
                qcolor,
                threads,
                &p.y,
                &p.u,
                &p.v,
            ) {
                Option::Some(d) => {
                    color = d;
                },
                Option::None => {
                    return Err(AvifError::EncodeColorFailed);
                },
            }
            match &p.a {
                Option::None => {
                    alpha = Option::None;
                },
                Option::Some(a) => {
                    let empty: Vec<u16> = Vec::new();
                    match encode_frame_payload(
                        image.width,
                        image.height,
                        image.depth,
                        PixelFormat::Yuv400,
                        speed,
                        qalpha,
                        threads,
                        a,
                        &empty,
                        &empty,
                    ) {
                        Option::Some(d) => {
                            alpha = Option::Some(d);
                        },
                        Option::None => {
                            return Err(AvifError::EncodeAlphaFailed);
                        },
                    }
                },
            }
        },
        Option::None => {
            return Err(AvifError::EncodeColorFailed);
        },
    }
    Ok(EncodedCell { color, alpha })
}

/// The condition under which `add_image` is refused before any codec
/// work, with its error kind; `None` lets the encode proceed.
pub open spec fn add_image_check(e: Encoder, image: Image, flags: u32) -> Option<AvifError> {
    if e.state is Finished {
        Option::Some(AvifError::InvalidArgument)
    } else if e.grid_committed || e.single_committed {
        Option::Some(AvifError::InvalidArgument)
    } else if is_single(flags) && e.frames@.len() > 0 {
        Option::Some(AvifError::InvalidArgument)
    } else if !codec_available(e.codec_choice) {
        Option::Some(AvifError::NoCodecAvailable)
    } else if image.planes is None {
        Option::Some(AvifError::NoContent)
    } else if image.yuv_format is NoFormat {
        Option::Some(AvifError::NoYuvFormatSelected)
    } else if e.frames@.len() > 0 && !(image.width == e.frame_width && image.height
        == e.frame_height && image.depth == e.frame_depth && image.yuv_format == e.frame_format) {
        Option::Some(AvifError::IncompatibleImage)
    } else if e.frames@.len() >= 0xFFFF_FFFF {
        Option::Some(AvifError::OutOfMemory)
    } else {
        Option::None
    }
}

/// What a successful `add_image` leaves behind: the configuration kept,
/// one frame appended carrying the duration, flags and alpha presence of
/// the added image, and the first frame's geometry recorded.
pub open spec fn add_image_ok(
    before: Encoder,
    after: Encoder,
    image: Image,
    duration: u64,
    flags: u32,
) -> bool {
    &&& Encoder::same_config(after, before)
    &&& after.state is Accumulating
    &&& after.single_committed == is_single(flags)
    &&& after.grid_committed == false
    &&& after.frames@.len() == before.frames@.len() + 1
    &&& forall|i: int| 0 <= i < before.frames@.len() ==> after.frames@[i] == before.frames@[i]
    &&& after.frames@.last().duration == duration
    &&& after.frames@.last().flags == flags
    &&& after.frames@.last().cols == 1
    &&& after.frames@.last().rows == 1
    &&& after.frames@.last().cells@.len() == 1
    &&& after.frames@.last().cells@[0].color@.len() > 0
    &&& (after.frames@.last().cells@[0].alpha is Some <==> image_has_alpha(image))
    &&& if before.frames@.len() == 0 {
        after.frame_width == image.width && after.frame_height == image.height
            && after.frame_depth == image.depth && after.frame_format == image.yuv_format
    } else {
        after.frame_width == before.frame_width && after.frame_height == before.frame_height
            && after.frame_depth == before.frame_depth && after.frame_format == before.frame_format
    }
}

impl Encoder {
    /// Adds an image as the next animation frame, displayed for
    /// `duration_in_timescales` time units.
    ///
    /// The image is encoded immediately through the codec backend and its
    /// payload accumulated. The first added image fixes the stream's
    /// geometry; later images must match it exactly or the call fails
    /// with `IncompatibleImage`. A `SINGLE`-flagged image must be the
    /// only one ever added. Refusals and codec failures leave the session
    /// unchanged; see [`add_image_check`].
    pub fn add_image(
        &mut self,
        image: &Image,
        duration_in_timescales: u64,
        add_image_flags: AddImageFlags,
    ) -> (r: Result<(), AvifError>)
        requires
            old(self).wf(),
            image.wf(),
        ensures
            final(self).wf(),
            match add_image_check(*old(self), *image, add_image_flags.0) {
                Option::Some(e) => r == Result::<(), AvifError>::Err(e) && *final(self)
                    == *old(self),
                Option::None => match r {
                    Result::Ok(()) => add_image_ok(
                        *old(self),
                        *final(self),
                        *image,
                        duration_in_timescales,
                        add_image_flags.0,
                    ),
                    Result::Err(e) => (e == AvifError::EncodeColorFailed || e
                        == AvifError::EncodeAlphaFailed) && *final(self) == *old(self),
                },
            },
    {
        match self.state {
            SessionState::Finished => {
                return Err(AvifError::InvalidArgument);
            },
            _ => {},
        }
        if self.grid_committed || self.single_committed {
            return Err(AvifError::InvalidArgument);
        }
        let single: bool = add_image_flags.0 & FLAG_SINGLE != 0;
        if single && self.frames.len() > 0 {
            return Err(AvifError::InvalidArgument);
        }
        match self.codec_choice {
            EncoderCodecChoice::Aom | EncoderCodecChoice::Svt => {
                return Err(AvifError::NoCodecAvailable);
            },
            _ => {},
        }
        if self.frames.len() > 0 && !(image.width == self.frame_width && image.height
            == self.frame_height && image.depth == self.frame_depth && image.yuv_format
            == self.frame_format) {
            match &image.planes {
                Option::None => {
                    return Err(AvifError::NoContent);
                },
                Option::Some(_) => {},
            }
            match image.yuv_format {
                PixelFormat::NoFormat => {
                    return Err(AvifError::NoYuvFormatSelected);
                },
                _ => {},
            }
            return Err(AvifError::IncompatibleImage);
        }
        match &image.planes {
            Option::None => {
                return Err(AvifError::NoContent);
            },
            Option::Some(_) => {},
        }
        match image.yuv_format {
            PixelFormat::NoFormat => {
                return Err(AvifError::NoYuvFormatSelected);
            },
            _ => {},
        }
        if self.frames.len() >= 0xFFFF_FFFFusize {
            return Err(AvifError::OutOfMemory);
        }
        let qcolor = quantizer_for(self.quality);
        let qalpha = quantizer_for(self.quality_alpha);
        let cell = match encode_cell(image, self.speed, qcolor, qalpha, self.max_threads) {
            Ok(c) => c,
            Err(e) => {
                return Err(e);
            },
        };
        let mut cells: Vec<EncodedCell> = Vec::new();
        cells.push(cell);
        let frame = EncodedFrame {
            duration: duration_in_timescales,
            flags: add_image_flags.0,
            cols: 1,
            rows: 1,
            cells,
        };
        if self.frames.len() == 0 {
            self.frame_width = image.width;
            self.frame_height = image.height;
            self.frame_depth = image.depth;
            self.frame_format = image.yuv_format;
        }
        self.frames.push(frame);
        self.state = SessionState::Accumulating;
        self.single_committed = single;
        Ok(())
    }

    /// Finalizes the session: serializes the accumulated frames into one
    /// output buffer, hands it to the caller, and moves to the terminal
    /// state.
    ///
    /// Fails with `NoImagesRemaining` when no image was ever added, and
    /// on a second call: a finished session holds no frames to flush.
    pub fn finish(&mut self) -> (r: Result<RwData, AvifError>)
        requires
            old(self).wf(),
        ensures
            final(self).wf(),
            old(self).state is Finished || old(self).frames@.len() == 0 ==> (r
                matches Result::Err(e) && e == AvifError::NoImagesRemaining && *final(self)
                == *old(self)),
            !(old(self).state is Finished) && old(self).frames@.len() > 0 ==> (r
                matches Result::Ok(data) && data.data@ == serialize_session(*old(self))
                && final(self).state is Finished && final(self).frames@.len() == 0
                && Encoder::same_config(
                *final(self),
                *old(self),
            ) && final(self).frame_width == old(self).frame_width && final(self).frame_height
                == old(self).frame_height && final(self).frame_depth == old(self).frame_depth
                && final(self).frame_format == old(self).frame_format),
    {
        match self.state {
            SessionState::Finished => {
                return Err(AvifError::NoImagesRemaining);
            },
            _ => {},
        }
        if self.frames.len() == 0 {
            return Err(AvifError::NoImagesRemaining);
        }
        let bytes = serialize_session_exec(self);
        self.frames = Vec::new();
        self.state = SessionState::Finished;
        Ok(RwData { data: bytes })
    }

    /// Encodes a single still image: adds it as the only (single-flagged)
    /// frame and finishes the session in one call.
    pub fn write(&mut self, image: &Image) -> (r: Result<RwData, AvifError>)
        requires
            old(self).wf(),
            image.wf(),
        ensures
            final(self).wf(),
            match add_image_check(*old(self), *image, FLAG_SINGLE) {
                Option::Some(e) => r == Result::<RwData, AvifError>::Err(e) && *final(self)
                    == *old(self),
                Option::None => match r {
                    Result::Ok(data) => final(self).state is Finished && final(self).frames@.len()
                        == 0 && exists|mid: Encoder|
                        add_image_ok(*old(self), mid, *image, 1, FLAG_SINGLE) && mid.wf()
                            && data.data@ == serialize_session(mid),
                    Result::Err(e) => (e == AvifError::EncodeColorFailed || e
                        == AvifError::EncodeAlphaFailed) && *final(self) == *old(self),
                },
            },
    {
        match self.add_image(image, 1, AddImageFlags(FLAG_SINGLE)) {
            Ok(()) => {},
            Err(e) => {
                return Err(e);
            },
        }
        let ghost mid = *self;
        match self.finish() {
            Ok(data) => {
                proof {
                    assert(add_image_ok(*old(self), mid, *image, 1, FLAG_SINGLE) && data.data@
                        == serialize_session(mid));
                }
                Ok(data)
            },
            Err(e) => {
                proof {
                    assert(false);
                }
                Err(e)
            },
        }
    }
}

} // verus!

verus! {

/// Every grid cell has allocated planes.
pub open spec fn grid_all_planes(imgs: Seq<&Image>) -> bool {
    forall|i: int| 0 <= i < imgs.len() ==> (#[trigger] imgs[i]).planes is Some
}

/// Every grid cell shares the first cell's depth, format and alpha
/// presence.
pub open spec fn grid_cells_uniform(imgs: Seq<&Image>) -> bool {
    forall|i: int|
        0 <= i < imgs.len() ==> (#[trigger] imgs[i]).depth == imgs[0].depth && imgs[i].yuv_format
            == imgs[0].yuv_format && (image_has_alpha(*imgs[i]) <==> image_has_alpha(*imgs[0]))
}

/// Every cell has the first cell's size, except that cells of the last
/// column share the last column's width and cells of the last row share
/// the last row's height (never larger than the first cell's).
pub open spec fn grid_dims_ok(imgs: Seq<&Image>, cols: int, rows: int) -> bool {
    &&& imgs[cols - 1].width <= imgs[0].width
    &&& imgs[(rows - 1) * cols].height <= imgs[0].height
    &&& forall|i: int|
        0 <= i < imgs.len() ==> (#[trigger] imgs[i]).width == (if i % cols == cols - 1 {
            imgs[cols - 1].width
        } else {
            imgs[0].width
        }) && imgs[i].height == (if i / cols == rows - 1 {
            imgs[(rows - 1) * cols].height
        } else {
            imgs[0].height
        })
}

/// The composed width of the grid.
pub open spec fn grid_total_w(imgs: Seq<&Image>, cols: int) -> int {
    (cols - 1) * imgs[0].width + imgs[cols - 1].width
}

/// The composed height of the grid.
pub open spec fn grid_total_h(imgs: Seq<&Image>, cols: int, rows: int) -> int {
    (rows - 1) * imgs[0].height + imgs[(rows - 1) * cols].height
}

/// The condition under which `add_image_grid` is refused before any
/// codec work, with its error kind; `None` lets the encode proceed.
pub open spec fn grid_check(e: Encoder, cols: u32, rows: u32, imgs: Seq<&Image>) -> Option<
    AvifError,
> {
    if !(e.state is Configuring) {
        Option::Some(AvifError::InvalidArgument)
    } else if cols == 0 || rows == 0 || cols > 256 || rows > 256 {
        Option::Some(AvifError::InvalidImageGrid)
    } else if imgs.len() != cols * rows {
        Option::Some(AvifError::InvalidImageGrid)
    } else if !grid_all_planes(imgs) {
        Option::Some(AvifError::NoContent)
    } else if imgs[0].yuv_format is NoFormat {
        Option::Some(AvifError::NoYuvFormatSelected)
    } else if !grid_cells_uniform(imgs) {
        Option::Some(AvifError::InvalidImageGrid)
    } else if !grid_dims_ok(imgs, cols as int, rows as int) {
        Option::Some(AvifError::InvalidImageGrid)
    } else if grid_total_w(imgs, cols as int) > u32::MAX || grid_total_h(
        imgs,
        cols as int,
        rows as int,
    ) > u32::MAX {
        Option::Some(AvifError::InvalidImageGrid)
    } else if !codec_available(e.codec_choice) {
        Option::Some(AvifError::NoCodecAvailable)
    } else {
        Option::None
    }
}

/// What a successful `add_image_grid` leaves behind: one single-flagged
/// frame holding one encoded cell per grid position, and the composed
/// geometry recorded.
pub open spec fn grid_ok(
    before: Encoder,
    after: Encoder,
    imgs: Seq<&Image>,
    cols: u32,
    rows: u32,
    flags: u32,
) -> bool {
    &&& Encoder::same_config(after, before)
    &&& after.state is Accumulating
    &&& after.single_committed
    &&& after.grid_committed
    &&& after.frames@.len() == 1
    &&& after.frames@[0].duration == 1
    &&& after.frames@[0].flags == (flags | FLAG_SINGLE)
    &&& after.frames@[0].cols == cols
    &&& after.frames@[0].rows == rows
    &&& after.frames@[0].cells@.len() == imgs.len()
    &&& forall|j: int|
        0 <= j < imgs.len() ==> (#[trigger] after.frames@[0].cells@[j]).color@.len() > 0 && (
        after.frames@[0].cells@[j].alpha is Some <==> image_has_alpha(*imgs[j]))
    &&& after.frame_width == grid_total_w(imgs, cols as int)
    &&& after.frame_height == grid_total_h(imgs, cols as int, rows as int)
    &&& after.frame_depth == imgs[0].depth
    &&& after.frame_format == imgs[0].yuv_format
}

impl Encoder {
    /// Adds a grid of images as a single tiled composition.
    ///
    /// The grid must be added before any other image, supply exactly
    /// `grid_cols * grid_rows` cells (each side 1 to 256), and the cells
    /// must agree in depth, format and alpha presence, with uniform
    /// dimensions except for a possibly smaller last row and column; see
    /// [`grid_check`]. Every cell is encoded immediately; the grid counts
    /// as the session's only image. Refusals and codec failures leave the
    /// session unchanged.
    #[verifier::loop_isolation(false)]
    pub fn add_image_grid(
        &mut self,
        grid_cols: u32,
        grid_rows: u32,
        images: &[&Image],
        add_image_flags: AddImageFlags,
    ) -> (r: Result<(), AvifError>)
        requires
            old(self).wf(),
            forall|i: int| 0 <= i < images@.len() ==> (#[trigger] images@[i]).wf(),
        ensures
            final(self).wf(),
            match grid_check(*old(self), grid_cols, grid_rows, images@) {
                Option::Some(e) => r == Result::<(), AvifError>::Err(e) && *final(self)
                    == *old(self),
                Option::None => match r {
                    Result::Ok(()) => grid_ok(
                        *old(self),
                        *final(self),
                        images@,
                        grid_cols,
                        grid_rows,
                        add_image_flags.0,
                    ),
                    Result::Err(e) => (e == AvifError::EncodeColorFailed || e
                        == AvifError::EncodeAlphaFailed) && *final(self) == *old(self),
                },
            },
    {
        match self.state {
            SessionState::Configuring => {},
            _ => {
                return Err(AvifError::InvalidArgument);
            },
        }
        if grid_cols == 0 || grid_rows == 0 || grid_cols > 256 || grid_rows > 256 {
            return Err(AvifError::InvalidImageGrid);
        }
        proof {
            crate::image::lemma_mul_le(grid_cols as nat, grid_rows as nat, 256, 256);
            assert((grid_cols as int) * (grid_rows as int) >= 1) by (nonlinear_arith)
                requires
                    grid_cols >= 1,
                    grid_rows >= 1,
            ;
        }
        let count: u64 = (grid_cols as u64) * (grid_rows as u64);
        if (images.len() as u64) != count {
            return Err(AvifError::InvalidImageGrid);
        }
        let n: usize = images.len();
        let mut i: usize = 0;
        while i < n
            invariant
                *self == *old(self),
                i <= n,
                n == images@.len(),
                forall|k: int| 0 <= k < i ==> (#[trigger] images@[k]).planes is Some,
            decreases n - i,
        {
            if images[i].planes.is_none() {
                return Err(AvifError::NoContent);
            }
            i = i + 1;
        }
        let first: &Image = images[0];
        match first.yuv_format {
            PixelFormat::NoFormat => {
                return Err(AvifError::NoYuvFormatSelected);
            },
            _ => {},
        }
        let first_has_alpha: bool = image_has_alpha_exec(first);
        i = 1;
        while i < n
            invariant
                *self == *old(self),
                1 <= i <= n,
                n == images@.len(),
                n >= 1,
                first == images@[0],
                first_has_alpha == image_has_alpha(*images@[0]),
                forall|k: int|
                    0 <= k < i ==> (#[trigger] images@[k]).depth == images@[0].depth
                        && images@[k].yuv_format == images@[0].yuv_format && (image_has_alpha(
                        *images@[k],
                    ) <==> image_has_alpha(*images@[0])),
            decreases n - i,
        {
            let cell: &Image = images[i];
            if cell.depth != first.depth || cell.yuv_format != first.yuv_format
                || image_has_alpha_exec(cell) != first_has_alpha {
                return Err(AvifError::InvalidImageGrid);
            }
            i = i + 1;
        }
        let cols: usize = grid_cols as usize;
        let rows: usize = grid_rows as usize;
        proof {
            assert((rows - 1) * cols + cols == n) by (nonlinear_arith)
                requires
                    n == cols * rows,
                    rows >= 1,
            ;
        }
        let last_w: u32 = images[cols - 1].width;
        let last_h: u32 = images[(rows - 1) * cols].height;
        if last_w > first.width || last_h > first.height {
            return Err(AvifError::InvalidImageGrid);
        }
        i = 0;
        while i < n
            invariant
                *self == *old(self),
                i <= n,
                n == images@.len(),
                n >= 1,
                n == cols * rows,
                1 <= cols <= 256,
                1 <= rows <= 256,
                first == images@[0],
                last_w == images@[cols - 1].width,
                last_h == images@[(rows - 1) * cols].height,
                forall|k: int|
                    0 <= k < i ==> (#[trigger] images@[k]).width == (if k % (cols as int) == cols
                        - 1 {
                        images@[cols - 1].width
                    } else {
                        images@[0].width
                    }) && images@[k].height == (if k / (cols as int) == rows - 1 {
                        images@[(rows - 1) * cols].height
                    } else {
                        images@[0].height
                    }),
            decreases n - i,
        {
            let c: usize = i % cols;
            let rr: usize = i / cols;
            let want_w: u32 = if c == cols - 1 {
                last_w
            } else {
                first.width
            };
            let want_h: u32 = if rr == rows - 1 {
                last_h
            } else {
                first.height
            };
            if images[i].width != want_w || images[i].height != want_h {
                return Err(AvifError::InvalidImageGrid);
            }
            i = i + 1;
        }
        proof {
            crate::image::lemma_mul_le((grid_cols - 1) as nat, first.width as nat, 256, 0xFFFF_FFFF as nat);
            crate::image::lemma_mul_le((grid_rows - 1) as nat, first.height as nat, 256, 0xFFFF_FFFF as nat);
        }
        let total_w: u64 = ((grid_cols - 1) as u64) * (first.width as u64) + (last_w as u64);
        let total_h: u64 = ((grid_rows - 1) as u64) * (first.height as u64) + (last_h as u64);
        if total_w > u32::MAX as u64 || total_h > u32::MAX as u64 {
            return Err(AvifError::InvalidImageGrid);
        }
        match self.codec_choice {
            EncoderCodecChoice::Aom | EncoderCodecChoice::Svt => {
                return Err(AvifError::NoCodecAvailable);
            },
            _ => {},
        }
        let qcolor = quantizer_for(self.quality);
        let qalpha = quantizer_for(self.quality_alpha);
        let mut cells: Vec<EncodedCell> = Vec::new();
        i = 0;
        while i < n
            invariant
                *self == *old(self),
                i <= n,
                n == images@.len(),
                grid_all_planes(images@),
                grid_cells_uniform(images@),
                !(images@[0].yuv_format is NoFormat),
                n >= 1,
                forall|k: int| 0 <= k < n ==> (#[trigger] images@[k]).wf(),
                self.quality <= 100,
                self.quality_alpha <= 100,
                cells@.len() == i,
                forall|j: int|
                    0 <= j < i ==> (#[trigger] cells@[j]).color@.len() > 0 && (cells@[j].alpha
                        is Some <==> image_has_alpha(*images@[j])),
            decreases n - i,
        {
            proof {
                assert(images@[i as int].yuv_format == images@[0].yuv_format);
            }
            match encode_cell(images[i], self.speed, qcolor, qalpha, self.max_threads) {
                Ok(cell) => {
                    cells.push(cell);
                },
                Err(e) => {
                    return Err(e);
                },
            }
            i = i + 1;
        }
        let frame = EncodedFrame {
            duration: 1,
            flags: add_image_flags.0 | FLAG_SINGLE,
            cols: grid_cols as u16,
            rows: grid_rows as u16,
            cells,
        };
        self.frame_width = total_w as u32;
        self.frame_height = total_h as u32;
        self.frame_depth = first.depth;
        self.frame_format = first.yuv_format;
        self.frames.push(frame);
        self.state = SessionState::Accumulating;
        self.single_committed = true;
        self.grid_committed = true;
        Ok(())
    }
}

/// Reads whether the image carries an alpha plane.
fn image_has_alpha_exec(img: &Image) -> (b: bool)
    ensures
        b == image_has_alpha(*img),
{
    match &img.planes {
        Option::Some(p) => p.a.is_some(),
        Option::None => false,
    }
}

} // verus!

verus! {

/// Law: the output stream encodes the repetition setting at a fixed
/// place. Bytes 23 to 30 of any serialized session hold the stored
/// extra-repeat count as a little-endian 64-bit field, with all ones
/// standing for an infinite loop — so a session configured with
/// repetition count 0 (stored -1) emits the infinite-loop marker, and one
/// configured with a positive count N emits N - 1.
pub proof fn lemma_output_repetition_field(e: Encoder)
    ensures
        serialize_session(e).len() >= 39,
        serialize_session(e).subrange(23, 31) =~= le64(repetition_field(e.repetition_stored)),
{
    let h = serialize_header(e);
    assert(h.len() == 39);
    assert(serialize_frames(e.frames@, e.frames@.len() as int).len() >= 0);
    assert(serialize_session(e).subrange(23, 31) =~= le64(
        repetition_field(e.repetition_stored),
    ));
}

} // verus!
