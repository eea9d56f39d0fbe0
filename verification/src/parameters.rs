//! Compression settings that the orientation and TIFF logic read.
use vstd::prelude::*;

verus! {

/// The compression scheme of TIFF output.
#[derive(Clone, Copy, Debug, PartialEq, Eq, Structural)]
pub enum TiffCompression {
    Uncompressed,
    Lzw,
    Deflate,
    Packbits,
}

/// The effort spent by Deflate when it compresses TIFF output.
#[derive(Clone, Copy, Debug, PartialEq, Eq, Structural)]
pub enum TiffDeflateLevel {
    Fast,
    Balanced,
    Best,
}

/// TIFF output settings.
#[derive(Clone, Copy, Debug, PartialEq, Eq, Structural)]
pub struct TiffParameters {
    pub algorithm: TiffCompression,
    pub deflate_level: TiffDeflateLevel,
}

/// The settings of one compression run, as far as this library reads them.
#[derive(Clone, Copy, Debug, PartialEq, Eq, Structural)]
pub struct CSParameters {
    /// Keep all metadata of the input.
    pub keep_metadata: bool,
    /// Keep the EXIF orientation of the input, even where the rest of the metadata goes.
    pub keep_rotation: bool,
    /// Requested width, 0 for "derive from the height" (both 0: no resizing).
    pub width: u32,
    /// Requested height, 0 for "derive from the width" (both 0: no resizing).
    pub height: u32,
    pub tiff: TiffParameters,
}

/// The settings that [`CSParameters::new`] gives: metadata and orientation dropped, no
/// resizing, TIFF written with Deflate at the balanced level.
pub open spec fn default_parameters() -> CSParameters {
    CSParameters {
        keep_metadata: false,
        keep_rotation: false,
        width: 0,
        height: 0,
        tiff: TiffParameters {
            algorithm: TiffCompression::Deflate,
            deflate_level: TiffDeflateLevel::Balanced,
        },
    }
}

impl CSParameters {
    /// The default settings.
    pub fn new() -> (p: CSParameters)
        ensures
            p == default_parameters(),
    {
        CSParameters {
            keep_metadata: false,
            keep_rotation: false,
            width: 0,
            height: 0,
            tiff: TiffParameters {
                algorithm: TiffCompression::Deflate,
                deflate_level: TiffDeflateLevel::Balanced,
            },
        }
    }
}

} // verus!
