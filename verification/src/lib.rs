//! Image-compression helpers around EXIF orientation, file-type detection and TIFF
//! encoding settings.
pub mod buffer;
pub mod layout;
pub mod parameters;
pub mod tiff_options;
pub mod utils;

pub use buffer::bytes_contents;
pub use layout::{ENTRY_LEN, ORIENTATION_EXIF_LEN, ORIENTATION_TAG, SHORT_TYPE};
pub use tiff_options::{parse_deflate_level, tiff_compression};
pub use parameters::{CSParameters, TiffCompression, TiffDeflateLevel, TiffParameters};
pub use utils::{
    build_orientation_exif, get_filetype_from_memory, get_orientation, match_supported_filetypes,
    orientation_or_upright, rotation_exif_to_preserve, rotation_to_preserve, set_exif_orientation,
    SupportedFileTypes,
};
