# caesium (verified core)

Helpers of an image compressor around EXIF orientation, file-type detection and TIFF
encoder settings, verified with Verus.

- `src/layout.rs`: a model of a bare EXIF block (TIFF header, IFD0, its orientation
  entry), exec readers for 16/32-bit values, and the proved laws of rewriting the
  orientation (read after write, last write wins, built blocks round-trip).
- `src/utils.rs`: building a 26-byte orientation-only EXIF block, rewriting the
  orientation of an EXIF block in place, reading the orientation of an image through
  the `exif` crate, deciding which orientation to keep, and detecting file types
  through the `infer` crate.
- `src/parameters.rs`: the settings these functions read.
- `src/tiff_options.rs`: the `tiff` encoder's compression for the TIFF settings.
- `src/buffer.rs`: the `bytes::Bytes` buffer as the library sees it.
- `app/`: file I/O, TIFF decoding and re-encoding with `image`/`tiff`, and file-type
  detection of files on disk.
