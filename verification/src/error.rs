//! The closed error taxonomy used by every fallible operation of the crate.
//!
//! Each failure kind corresponds to one numeric result code of the AVIF
//! result-code space; codes outside the named set are carried through the
//! catch-all [`AvifError::UnknownType`] variant so that new codes remain
//! representable.

use vstd::prelude::*;

verus! {

/// Error kinds that can occur during AVIF operations.
///
/// Every fallible core operation returns exactly one of these kinds on
/// failure; success carries no error value.
#[derive(Debug, Clone, Copy, PartialEq, Eq, Structural)]
pub enum AvifError {
    /// An unknown error occurred
    UnknownError,
    /// Invalid file type (not a valid AVIF file)
    InvalidFtyp,
    /// No content found in the file
    NoContent,
    /// No YUV format was selected for the operation
    NoYuvFormatSelected,
    /// Color format conversion failed
    ReformatFailed,
    /// Bit depth is not supported
    UnsupportedDepth,
    /// Encoding of color channels failed
    EncodeColorFailed,
    /// Encoding of alpha channel failed
    EncodeAlphaFailed,
    /// Base Media File Format (BMFF) parsing failed
    BmffParseFailed,
    /// Required image item is missing from the file
    MissingImageItem,
    /// Decoding of color channels failed
    DecodeColorFailed,
    /// Decoding of alpha channel failed
    DecodeAlphaFailed,
    /// Color and alpha channel dimensions don't match
    ColorAlphaSizeMismatch,
    /// Image Spatial Extents (ISPE) size mismatch
    IspeSizeMismatch,
    /// No suitable codec is available
    NoCodecAvailable,
    /// No more images remaining in sequence
    NoImagesRemaining,
    /// EXIF metadata payload is invalid
    InvalidExifPayload,
    /// Image grid configuration is invalid
    InvalidImageGrid,
    /// Codec-specific option is invalid
    InvalidCodecSpecificOption,
    /// Input data is truncated or incomplete
    TruncatedData,
    /// IO handler is not set
    IoNotSet,
    /// IO operation failed
    IoError,
    /// Waiting for IO operation to complete
    WaitingOnIo,
    /// Invalid argument provided to function
    InvalidArgument,
    /// Feature is not implemented
    NotImplemented,
    /// Out of memory
    OutOfMemory,
    /// Image format is incompatible with operation
    IncompatibleImage,
    /// Gain map encoding failed
    EncodeGainMapFailed,
    /// Gain map decoding failed
    DecodeGainMapFailed,
    /// Tone mapped image is invalid
    InvalidToneMappedImage,
    /// Unknown error type with raw code
    UnknownType(u32),
}

/// The error kind that stands for a given nonzero AVIF result code.
pub open spec fn error_of_code(code: u32) -> AvifError {
    match code {
        1u32 => AvifError::UnknownError,
        2u32 => AvifError::InvalidFtyp,
        3u32 => AvifError::NoContent,
        4u32 => AvifError::NoYuvFormatSelected,
        5u32 => AvifError::ReformatFailed,
        6u32 => AvifError::UnsupportedDepth,
        7u32 => AvifError::EncodeColorFailed,
        8u32 => AvifError::EncodeAlphaFailed,
        9u32 => AvifError::BmffParseFailed,
        10u32 => AvifError::MissingImageItem,
        11u32 => AvifError::DecodeColorFailed,
        12u32 => AvifError::DecodeAlphaFailed,
        13u32 => AvifError::ColorAlphaSizeMismatch,
        14u32 => AvifError::IspeSizeMismatch,
        15u32 => AvifError::NoCodecAvailable,
        16u32 => AvifError::NoImagesRemaining,
        17u32 => AvifError::InvalidExifPayload,
        18u32 => AvifError::InvalidImageGrid,
        19u32 => AvifError::InvalidCodecSpecificOption,
        20u32 => AvifError::TruncatedData,
        21u32 => AvifError::IoNotSet,
        22u32 => AvifError::IoError,
        23u32 => AvifError::WaitingOnIo,
        24u32 => AvifError::InvalidArgument,
        25u32 => AvifError::NotImplemented,
        26u32 => AvifError::OutOfMemory,
        28u32 => AvifError::IncompatibleImage,
        29u32 => AvifError::EncodeGainMapFailed,
        30u32 => AvifError::DecodeGainMapFailed,
        31u32 => AvifError::InvalidToneMappedImage,
        _ => AvifError::UnknownType(code),
    }
}

impl AvifError {
    /// Maps a nonzero AVIF result code to its error kind.
    ///
    /// Code zero means success and never stands for an error.
    pub fn from_code(code: u32) -> (e: AvifError)
        requires
            code != 0,
        ensures
            e == error_of_code(code),
    {
        match code {
            1u32 => AvifError::UnknownError,
            2u32 => AvifError::InvalidFtyp,
            3u32 => AvifError::NoContent,
            4u32 => AvifError::NoYuvFormatSelected,
            5u32 => AvifError::ReformatFailed,
            6u32 => AvifError::UnsupportedDepth,
            7u32 => AvifError::EncodeColorFailed,
            8u32 => AvifError::EncodeAlphaFailed,
            9u32 => AvifError::BmffParseFailed,
            10u32 => AvifError::MissingImageItem,
            11u32 => AvifError::DecodeColorFailed,
            12u32 => AvifError::DecodeAlphaFailed,
            13u32 => AvifError::ColorAlphaSizeMismatch,
            14u32 => AvifError::IspeSizeMismatch,
            15u32 => AvifError::NoCodecAvailable,
            16u32 => AvifError::NoImagesRemaining,
            17u32 => AvifError::InvalidExifPayload,
            18u32 => AvifError::InvalidImageGrid,
            19u32 => AvifError::InvalidCodecSpecificOption,
            20u32 => AvifError::TruncatedData,
            21u32 => AvifError::IoNotSet,
            22u32 => AvifError::IoError,
            23u32 => AvifError::WaitingOnIo,
            24u32 => AvifError::InvalidArgument,
            25u32 => AvifError::NotImplemented,
            26u32 => AvifError::OutOfMemory,
            28u32 => AvifError::IncompatibleImage,
            29u32 => AvifError::EncodeGainMapFailed,
            30u32 => AvifError::DecodeGainMapFailed,
            31u32 => AvifError::InvalidToneMappedImage,
            _ => AvifError::UnknownType(code),
        }
    }

    /// The stable, human-readable message of this error kind.
    ///
    /// The catch-all variant renders its numeric code in decimal, as in
    /// "Unknown error type: 42".
    pub fn message(&self) -> (m: String)
        ensures
            m@ == message_of(*self),
    {
        let base: &'static str = match self {
            AvifError::UnknownError => "Unknown error",
            AvifError::InvalidFtyp => "Invalid file type",
            AvifError::NoContent => "No content",
            AvifError::NoYuvFormatSelected => "No YUV format selected",
            AvifError::ReformatFailed => "Reformat failed",
            AvifError::UnsupportedDepth => "Unsupported depth",
            AvifError::EncodeColorFailed => "Encode color failed",
            AvifError::EncodeAlphaFailed => "Encode alpha failed",
            AvifError::BmffParseFailed => "BMFF parse failed",
            AvifError::MissingImageItem => "Missing image item",
            AvifError::DecodeColorFailed => "Decode color failed",
            AvifError::DecodeAlphaFailed => "Decode alpha failed",
            AvifError::ColorAlphaSizeMismatch => "Color/alpha size mismatch",
            AvifError::IspeSizeMismatch => "ISPE size mismatch",
            AvifError::NoCodecAvailable => "No codec available",
            AvifError::NoImagesRemaining => "No images remaining",
            AvifError::InvalidExifPayload => "Invalid EXIF payload",
            AvifError::InvalidImageGrid => "Invalid image grid",
            AvifError::InvalidCodecSpecificOption => "Invalid codec specific option",
            AvifError::TruncatedData => "Truncated data",
            AvifError::IoNotSet => "IO not set",
            AvifError::IoError => "IO error",
            AvifError::WaitingOnIo => "Waiting on IO",
            AvifError::InvalidArgument => "Invalid argument",
            AvifError::NotImplemented => "Not implemented",
            AvifError::OutOfMemory => "Out of memory",
            AvifError::IncompatibleImage => "Incompatible image",
            AvifError::EncodeGainMapFailed => "Encode gain map failed",
            AvifError::DecodeGainMapFailed => "Decode gain map failed",
            AvifError::InvalidToneMappedImage => "Invalid tone mapped image",
            AvifError::UnknownType(_) => "Unknown error type: ",
        };
        let mut m = base.to_owned();
        match self {
            AvifError::UnknownType(code) => {
                let digits = decimal_string(*code);
                m.append(digits.as_str());
            },
            _ => {},
        }
        m
    }
}

/// The stable message rendered for each error kind.
pub open spec fn message_of(e: AvifError) -> Seq<char> {
    match e {
        AvifError::UnknownError => "Unknown error"@,
        AvifError::InvalidFtyp => "Invalid file type"@,
        AvifError::NoContent => "No content"@,
        AvifError::NoYuvFormatSelected => "No YUV format selected"@,
        AvifError::ReformatFailed => "Reformat failed"@,
        AvifError::UnsupportedDepth => "Unsupported depth"@,
        AvifError::EncodeColorFailed => "Encode color failed"@,
        AvifError::EncodeAlphaFailed => "Encode alpha failed"@,
        AvifError::BmffParseFailed => "BMFF parse failed"@,
        AvifError::MissingImageItem => "Missing image item"@,
        AvifError::DecodeColorFailed => "Decode color failed"@,
        AvifError::DecodeAlphaFailed => "Decode alpha failed"@,
        AvifError::ColorAlphaSizeMismatch => "Color/alpha size mismatch"@,
        AvifError::IspeSizeMismatch => "ISPE size mismatch"@,
        AvifError::NoCodecAvailable => "No codec available"@,
        AvifError::NoImagesRemaining => "No images remaining"@,
        AvifError::InvalidExifPayload => "Invalid EXIF payload"@,
        AvifError::InvalidImageGrid => "Invalid image grid"@,
        AvifError::InvalidCodecSpecificOption => "Invalid codec specific option"@,
        AvifError::TruncatedData => "Truncated data"@,
        AvifError::IoNotSet => "IO not set"@,
        AvifError::IoError => "IO error"@,
        AvifError::WaitingOnIo => "Waiting on IO"@,
        AvifError::InvalidArgument => "Invalid argument"@,
        AvifError::NotImplemented => "Not implemented"@,
        AvifError::OutOfMemory => "Out of memory"@,
        AvifError::IncompatibleImage => "Incompatible image"@,
        AvifError::EncodeGainMapFailed => "Encode gain map failed"@,
        AvifError::DecodeGainMapFailed => "Decode gain map failed"@,
        AvifError::InvalidToneMappedImage => "Invalid tone mapped image"@,
        AvifError::UnknownType(code) => "Unknown error type: "@ + dec_rep(code as nat),
    }
}

/// The decimal digit character of a value below ten.
pub open spec fn dec_digit(d: nat) -> Seq<char> {
    if d == 0 {
        "0"@
    } else if d == 1 {
        "1"@
    } else if d == 2 {
        "2"@
    } else if d == 3 {
        "3"@
    } else if d == 4 {
        "4"@
    } else if d == 5 {
        "5"@
    } else if d == 6 {
        "6"@
    } else if d == 7 {
        "7"@
    } else if d == 8 {
        "8"@
    } else {
        "9"@
    }
}

/// The decimal rendering of a natural number, most significant digit
/// first, with no leading zeros (zero itself renders as "0").
pub open spec fn dec_rep(n: nat) -> Seq<char>
    decreases n,
{
    if n < 10 {
        dec_digit(n)
    } else {
        dec_rep(n / 10) + dec_digit(n % 10)
    }
}

/// The character of one decimal digit.
fn digit_str(d: u32) -> (s: &'static str)
    requires
        d < 10,
    ensures
        s@ == dec_digit(d as nat),
{
    match d {
        0u32 => "0",
        1u32 => "1",
        2u32 => "2",
        3u32 => "3",
        4u32 => "4",
        5u32 => "5",
        6u32 => "6",
        7u32 => "7",
        8u32 => "8",
        _ => "9",
    }
}

/// Renders a value in decimal; see [`dec_rep`].
fn decimal_string(n: u32) -> (s: String)
    ensures
        s@ == dec_rep(n as nat),
    decreases n,
{
    if n < 10 {
        digit_str(n).to_owned()
    } else {
        let mut s = decimal_string(n / 10);
        s.append(digit_str(n % 10));
        s
    }
}

} // verus!
