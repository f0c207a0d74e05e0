//! Core image model and encoding-session layer for the AVIF image format.
//!
//! The crate represents image data in two canonical forms (planar YUV and
//! interleaved RGB), converts between them under configurable
//! chroma-subsampling and rounding rules, and drives a stateful encoding
//! session that turns a sequence or grid of planar images into one encoded
//! byte stream. Per-frame payload production is delegated to an external
//! AV1 codec.

use vstd::prelude::*;

pub mod codec;
pub mod convert;
pub mod encoder;
pub mod error;
pub mod image;
pub mod rgb;

pub use encoder::Encoder;
pub use error::AvifError;
pub use image::{BitDepth, Image, PixelFormat, Planes, YuvRange};
pub use rgb::{ChromaDownsampling, ChromaUpsampling, RgbFormat, RgbImage};

verus! {

/// A convenience type alias for results carrying an [`AvifError`].
pub type Result<T> = std::result::Result<T, AvifError>;

/// An owned, growable byte buffer holding encoded output data.
///
/// The buffer owns its memory; ownership transfers to the caller when an
/// encoding session hands one out.
pub struct RwData {
    /// The bytes of the buffer.
    pub data: Vec<u8>,
}

impl RwData {
    /// Creates a new empty buffer.
    pub fn new() -> (r: RwData)
        ensures
            r.data@ == Seq::<u8>::empty(),
    {
        RwData { data: Vec::new() }
    }

    /// Returns the data as a byte slice, without transferring ownership.
    pub fn as_slice(&self) -> (s: &[u8])
        ensures
            s@ == self.data@,
    {
        self.data.as_slice()
    }
}

impl Default for RwData {
    /// An empty buffer.
    fn default() -> (r: RwData)
        ensures
            r.data@ == Seq::<u8>::empty(),
    {
        RwData::new()
    }
}

} // verus!
