//! EXIF orientation: reading it from an image, deciding whether to keep it, building
//! a minimal EXIF block that carries it and rewriting it in place.
use crate::buffer::{bytes_as_slice, bytes_contents, bytes_from_vec};
use crate::layout::{
    byte_order, entry_offset, first_orientation_entry, ifd0_offset, law_orientation_exif_round_trip,
    orientation_exif, orientation_value, orientation_value_offset, read_u16, read_u16_at, read_u32_at,
    u16_bytes, u32_le_bytes, with_orientation, ENTRY_LEN, ORIENTATION_EXIF_LEN, ORIENTATION_TAG,
    SHORT_TYPE,
};
use crate::parameters::{default_parameters, CSParameters};
use bytes::Bytes;
use vstd::prelude::*;
use vstd::slice::slice_to_vec;

verus! {

/// Appends the little-endian bytes of a 16-bit value.
fn push_u16_le(out: &mut Vec<u8>, v: u16)
    ensures
        final(out)@ == old(out)@ + u16_bytes(v, false),
{
    out.push((v % 256) as u8);
    out.push((v / 256) as u8);
    assert(final(out)@ =~= old(out)@ + u16_bytes(v, false));
}

/// Appends the little-endian bytes of a 32-bit value.
fn push_u32_le(out: &mut Vec<u8>, v: u32)
    ensures
        final(out)@ == old(out)@ + u32_le_bytes(v),
{
    out.push((v % 256) as u8);
    out.push((v / 256 % 256) as u8);
    out.push((v / 65536 % 256) as u8);
    out.push((v / 16777216) as u8);
    assert(final(out)@ =~= old(out)@ + u32_le_bytes(v));
}

/// Builds a 26-byte little-endian EXIF block whose first directory holds one entry:
/// the orientation tag with the value `orientation`.
pub fn build_orientation_exif(orientation: u16) -> (exif: Bytes)
    ensures
        bytes_contents(exif) == orientation_exif(orientation),
        bytes_contents(exif).len() == ORIENTATION_EXIF_LEN,
        orientation_value(bytes_contents(exif)) == Some(orientation),
{
    let mut exif: Vec<u8> = Vec::with_capacity(ORIENTATION_EXIF_LEN);
    // byte order mark `II` and the magic number 42
    exif.push(0x49);
    exif.push(0x49);
    exif.push(0x2A);
    exif.push(0x00);
    push_u32_le(&mut exif, 8);  // offset of IFD0
    push_u16_le(&mut exif, 1);  // number of entries
    push_u16_le(&mut exif, ORIENTATION_TAG);
    push_u16_le(&mut exif, SHORT_TYPE);
    push_u32_le(&mut exif, 1);  // count
    push_u16_le(&mut exif, orientation);  // the value, padded to four bytes
    exif.push(0);
    exif.push(0);
    push_u32_le(&mut exif, 0);  // no next IFD
    proof {
        assert(exif@ =~= orientation_exif(orientation));
        law_orientation_exif_round_trip(orientation, orientation);
    }
    bytes_from_vec(exif)
}

/// Rewrites the orientation tag of the first directory of a bare EXIF block to
/// `orientation`, in the block's own byte order. A block without a readable `II`/`MM`
/// header, without a readable entry count, or without an orientation entry (tag
/// `0x0112`, type `SHORT`, one value) among the entries that precede the first one that
/// runs past its end, is handed back as it is.
pub fn set_exif_orientation(exif: Bytes, orientation: u16) -> (r: Bytes)
    ensures
        bytes_contents(r) == with_orientation(bytes_contents(exif), orientation),
{
    let ghost s = bytes_contents(exif);
    let data = bytes_as_slice(&exif);
    let len = data.len();
    if len < 8 {
        return exif;
    }
    let big_endian = if data[0] == 0x4D && data[1] == 0x4D {
        true
    } else if data[0] == 0x49 && data[1] == 0x49 {
        false
    } else {
        return exif;
    };
    let ifd0 = read_u32_at(data, 4, big_endian) as usize;
    if ifd0 > len - 2 {
        return exif;
    }
    let entry_count = read_u16_at(data, ifd0, big_endian);
    let mut index: u16 = 0;
    let mut offset: usize = ifd0 + 2;
    while index < entry_count
        invariant
            s == data@,
            s == bytes_contents(exif),
            len == s.len(),
            byte_order(s) == Some(big_endian),
            ifd0 == ifd0_offset(s, big_endian),
            ifd0 + 2 <= len,
            entry_count == read_u16(s, ifd0 as int, big_endian),
            index <= entry_count,
            offset == entry_offset(ifd0 as int, index as int),
            offset <= len,
            first_orientation_entry(s, big_endian, ifd0 as int, entry_count as int, 0)
                == first_orientation_entry(s, big_endian, ifd0 as int, entry_count as int, index as int),
        decreases entry_count - index,
    {
        if len - offset < ENTRY_LEN {
            return exif;
        }
        if read_u16_at(data, offset, big_endian) == ORIENTATION_TAG && read_u16_at(
            data,
            offset + 2,
            big_endian,
        ) == SHORT_TYPE && read_u32_at(data, offset + 4, big_endian) == 1 {
            let value_at = offset + 8;
            let (first, second) = if big_endian {
                ((orientation / 256) as u8, (orientation % 256) as u8)
            } else {
                ((orientation % 256) as u8, (orientation / 256) as u8)
            };
            let mut patched = slice_to_vec(data);
            patched.set(value_at, first);
            patched.set(value_at + 1, second);
            proof {
                assert(orientation_value_offset(s) == Some(value_at as int));
                assert(patched@ =~= s.take(value_at as int) + u16_bytes(orientation, big_endian)
                    + s.skip(value_at + 2));
            }
            return bytes_from_vec(patched);
        }
        index = index + 1;
        offset = offset + ENTRY_LEN;
    }
    exif
}


/// The image formats that the compressor handles, and `Unkn` for everything else.
#[derive(Clone, Copy, Debug, PartialEq, Eq, Structural)]
pub enum SupportedFileTypes {
    Jpeg,
    Png,
    Gif,
    WebP,
    Tiff,
    Unkn,
}

/// The MIME type that `infer` reports for a buffer, `None` when no matcher of `infer`
/// recognises it.
pub uninterp spec fn infer_mime_type(buf: Seq<u8>) -> Option<Seq<char>>;

/// Calls `infer::get` on the buffer and takes the `mime_type` of the kind it finds.
/// Claimed: the result is a function of the buffer's bytes alone (`infer::get` runs a
/// fixed list of byte matchers over it), named [`infer_mime_type`].
/// Assumed, not shown: that the call returns on every buffer. The byte matchers check
/// lengths before they index; a buffer that starts with the OLE2 signature
/// `D0 CF 11 E0 A1 B1 1A E1` is further handed to `cfb::CompoundFile::open`, whose
/// freedom from panics on malformed input is taken on trust here.
#[verifier::external_body]
fn detect_mime_type(buf: &[u8]) -> (mime: Option<&'static str>)
    ensures
        match mime {
            Some(m) => infer_mime_type(buf@) == Some(m@),
            None => infer_mime_type(buf@) is None,
        },
{
    match infer::get(buf) {
        Some(kind) => Some(kind.mime_type()),
        None => None,
    }
}

/// The file type that a MIME type names.
pub open spec fn filetype_of_mime(mime: Seq<char>) -> SupportedFileTypes {
    if mime == "image/jpeg"@ {
        SupportedFileTypes::Jpeg
    } else if mime == "image/png"@ {
        SupportedFileTypes::Png
    } else if mime == "image/gif"@ {
        SupportedFileTypes::Gif
    } else if mime == "image/webp"@ {
        SupportedFileTypes::WebP
    } else if mime == "image/tiff"@ {
        SupportedFileTypes::Tiff
    } else {
        SupportedFileTypes::Unkn
    }
}

/// The file type of a buffer, as `infer` detects it.
pub open spec fn filetype_of_buffer(buf: Seq<u8>) -> SupportedFileTypes {
    match infer_mime_type(buf) {
        Some(mime) => filetype_of_mime(mime),
        None => SupportedFileTypes::Unkn,
    }
}

/// Compares two strings character by character.
fn str_equals(a: &str, b: &str) -> (same: bool)
    ensures
        same == (a@ == b@),
{
    let n = a.unicode_len();
    if n != b.unicode_len() {
        return false;
    }
    let mut i: usize = 0;
    while i < n
        invariant
            n == a@.len(),
            n == b@.len(),
            i <= n,
            forall|j: int| 0 <= j < i ==> a@[j] == b@[j],
        decreases n - i,
    {
        if a.get_char(i) != b.get_char(i) {
            return false;
        }
        i = i + 1;
    }
    assert(a@ =~= b@);
    true
}

/// Maps a MIME type to the file type it names.
pub fn match_supported_filetypes(mime: &str) -> (ft: SupportedFileTypes)
    ensures
        ft == filetype_of_mime(mime@),
{
    if str_equals(mime, "image/jpeg") {
        SupportedFileTypes::Jpeg
    } else if str_equals(mime, "image/png") {
        SupportedFileTypes::Png
    } else if str_equals(mime, "image/gif") {
        SupportedFileTypes::Gif
    } else if str_equals(mime, "image/webp") {
        SupportedFileTypes::WebP
    } else if str_equals(mime, "image/tiff") {
        SupportedFileTypes::Tiff
    } else {
        SupportedFileTypes::Unkn
    }
}

/// Detects the file type of an in-memory image from its leading bytes.
pub fn get_filetype_from_memory(buf: &[u8]) -> (ft: SupportedFileTypes)
    ensures
        ft == filetype_of_buffer(buf@),
{
    match detect_mime_type(buf) {
        None => SupportedFileTypes::Unkn,
        Some(mime) => match_supported_filetypes(mime),
    }
}

/// The orientation of the primary image that the `exif` crate reads from an image
/// container (TIFF, JPEG, PNG, HEIF or WebP), `None` when it finds no container, no
/// EXIF data, no orientation field, or a field without an unsigned first value.
pub uninterp spec fn exif_primary_orientation(data: Seq<u8>) -> Option<u32>;

/// A JPEG stream whose first segment after the start-of-image marker is an APP1 segment
/// carrying the EXIF block `e` (after the identifier `Exif\0\0`), followed by `rest`.
pub open spec fn jpeg_with_exif(e: Seq<u8>, rest: Seq<u8>) -> Seq<u8> {
    seq![0xFFu8, 0xD8, 0xFF, 0xE1, ((e.len() + 8) / 256) as u8, ((e.len() + 8) % 256) as u8]
        + seq![0x45u8, 0x78, 0x69, 0x66, 0x00, 0x00] + e + rest
}

/// The block starts with a TIFF header mark: `II*\0` or `MM\0*`.
pub open spec fn has_tiff_signature(e: Seq<u8>) -> bool {
    &&& e.len() >= 4
    &&& {
        ||| e[0] == 0x49 && e[1] == 0x49 && e[2] == 0x2A && e[3] == 0x00
        ||| e[0] == 0x4D && e[1] == 0x4D && e[2] == 0x00 && e[3] == 0x2A
    }
}

/// Calls `exif::Reader::read_from_container` on the bytes, then `Exif::get_field` for
/// `Tag::Orientation` in `In::PRIMARY`, then `Value::get_uint(0)` on its value; every
/// failure on the way becomes `None`. Claimed: the result is a function of the bytes
/// alone (the reader works on an in-memory cursor), named [`exif_primary_orientation`];
/// and two facts of the reader's source:
/// - a bare block built by [`orientation_exif`] is read as TIFF (`tiff::is_tiff`, then
///   `read_raw` of the whole buffer), its single IFD0 entry is the orientation `SHORT`
///   with value `v`, so `v` is read;
/// - a JPEG stream that opens with an APP1 `Exif\0\0` segment holding a block `e` with
///   a TIFF header mark is read through `jpeg::get_exif_attr`, which returns `e`, and
///   `read_raw(e)` is what a bare `e` is read with, so both give the same orientation;
///   in particular such a stream holding the block built for `v` is read as `v`.
#[verifier::external_body]
fn read_primary_orientation(data: &[u8]) -> (orientation: Option<u32>)
    ensures
        orientation == exif_primary_orientation(data@),
        forall|v: u16| #[trigger] orientation_exif(v) == data@ ==> orientation == Some(v as u32),
        forall|e: Seq<u8>, rest: Seq<u8>|
            #[trigger] jpeg_with_exif(e, rest) == data@ && has_tiff_signature(e) && e.len() + 8
                <= 0xFFFF ==> orientation == exif_primary_orientation(e),
        forall|v: u16, rest: Seq<u8>|
            #[trigger] jpeg_with_exif(orientation_exif(v), rest) == data@ ==> orientation == Some(
                v as u32,
            ),
{
    let mut cursor = std::io::Cursor::new(data);
    let exif = exif::Reader::new().read_from_container(&mut cursor).ok()?;
    exif.get_field(exif::Tag::Orientation, exif::In::PRIMARY)?.value.get_uint(0)
}

/// An orientation as read, or 1 (upright) when none was read.
pub open spec fn read_or_upright(read: Option<u32>) -> u32 {
    match read {
        Some(v) => v,
        None => 1,
    }
}

/// Falls back to 1 (upright) when no orientation was read.
pub fn orientation_or_upright(read: Option<u32>) -> (orientation: u32)
    ensures
        orientation == read_or_upright(read),
{
    match read {
        Some(v) => v,
        None => 1,
    }
}

/// Reads the EXIF orientation of an image, 1 (upright) when it has none.
pub fn get_orientation(data: &[u8]) -> (orientation: u32)
    ensures
        orientation == read_or_upright(exif_primary_orientation(data@)),
        forall|v: u16| data@ == #[trigger] orientation_exif(v) ==> orientation == v,
        forall|e: Seq<u8>, rest: Seq<u8>|
            data@ == #[trigger] jpeg_with_exif(e, rest) && has_tiff_signature(e) && e.len() + 8
                <= 0xFFFF ==> orientation == read_or_upright(exif_primary_orientation(e)),
        forall|v: u16, rest: Seq<u8>|
            data@ == #[trigger] jpeg_with_exif(orientation_exif(v), rest) ==> orientation == v,
{
    orientation_or_upright(read_primary_orientation(data))
}


/// The orientation to carry over to the output: none unless `keep_rotation`; otherwise
/// the given source orientation, or the one read from the input (cut to 16 bits), and
/// none when that is 0 or 1 (unset or upright).
pub open spec fn preserved_rotation(keep_rotation: bool, in_file: Seq<u8>, source: Option<u16>) -> Option<u16> {
    if !keep_rotation {
        None
    } else {
        let orientation: u16 = match source {
            Some(v) => v,
            None => read_or_upright(exif_primary_orientation(in_file)) as u16,
        };
        if orientation == 0 || orientation == 1 {
            None
        } else {
            Some(orientation)
        }
    }
}

/// The orientation to keep in the output, if `keep_rotation` asks for one and the input
/// (or `source`, when given, in its place) is not upright.
pub fn rotation_to_preserve(in_file: &[u8], parameters: &CSParameters, source: Option<u16>) -> (kept: Option<u16>)
    ensures
        kept == preserved_rotation(parameters.keep_rotation, in_file@, source),
        kept matches Some(o) ==> o > 1,
        !parameters.keep_rotation ==> kept is None,
        parameters.keep_rotation && source is None ==> forall|v: u16, rest: Seq<u8>|
            in_file@ == #[trigger] jpeg_with_exif(orientation_exif(v), rest) ==> kept == (if v
                <= 1 {
                None
            } else {
                Some(v)
            }),
        parameters.keep_rotation && source is None ==> forall|v: u16|
            in_file@ == #[trigger] orientation_exif(v) ==> kept == (if v <= 1 {
                None
            } else {
                Some(v)
            }),
{
    if !parameters.keep_rotation {
        return None;
    }
    let orientation = match source {
        Some(v) => v,
        None => get_orientation(in_file) as u16,
    };
    if orientation == 0 || orientation == 1 {
        None
    } else {
        Some(orientation)
    }
}

/// A minimal EXIF block carrying the orientation to keep, for outputs whose metadata is
/// otherwise dropped: none when all metadata is kept anyway.
pub fn rotation_exif_to_preserve(in_file: &[u8], parameters: &CSParameters, source: Option<u16>) -> (exif: Option<Bytes>)
    ensures
        parameters.keep_metadata ==> exif is None,
        !parameters.keep_metadata ==> match preserved_rotation(parameters.keep_rotation, in_file@, source) {
            None => exif is None,
            Some(o) => exif matches Some(b) && bytes_contents(b) == orientation_exif(o),
        },
        exif matches Some(b) ==> orientation_value(bytes_contents(b)) == preserved_rotation(
            parameters.keep_rotation,
            in_file@,
            source,
        ),
{
    if parameters.keep_metadata {
        return None;
    }
    match rotation_to_preserve(in_file, parameters, source) {
        None => None,
        Some(orientation) => Some(build_orientation_exif(orientation)),
    }
}


/// With the default settings no orientation is carried over, whatever the input.
pub proof fn law_defaults_drop_rotation(in_file: Seq<u8>, source: Option<u16>)
    ensures
        preserved_rotation(default_parameters().keep_rotation, in_file, source) is None,
{
}

/// A source orientation, when given, decides alone: the input's own EXIF is not read.
pub proof fn law_source_overrides_input(
    keep_rotation: bool,
    a: Seq<u8>,
    b: Seq<u8>,
    source: u16,
)
    ensures
        preserved_rotation(keep_rotation, a, Some(source)) == preserved_rotation(
            keep_rotation,
            b,
            Some(source),
        ),
{
}


/// The detected type depends on the buffer only through the MIME type that `infer`
/// reports: two buffers with the same report get the same type.
pub proof fn law_filetype_depends_only_on_mime(a: Seq<u8>, b: Seq<u8>)
    requires
        infer_mime_type(a) == infer_mime_type(b),
    ensures
        filetype_of_buffer(a) == filetype_of_buffer(b),
{
}

/// Each of the five image MIME types that `infer` may report gives its file type; no
/// report, or any other MIME type, gives `Unkn`.
pub proof fn law_filetype_of_reported_mime(buf: Seq<u8>)
    ensures
        infer_mime_type(buf) == Some("image/jpeg"@) ==> filetype_of_buffer(buf)
            == SupportedFileTypes::Jpeg,
        infer_mime_type(buf) == Some("image/png"@) ==> filetype_of_buffer(buf)
            == SupportedFileTypes::Png,
        infer_mime_type(buf) == Some("image/gif"@) ==> filetype_of_buffer(buf)
            == SupportedFileTypes::Gif,
        infer_mime_type(buf) == Some("image/webp"@) ==> filetype_of_buffer(buf)
            == SupportedFileTypes::WebP,
        infer_mime_type(buf) == Some("image/tiff"@) ==> filetype_of_buffer(buf)
            == SupportedFileTypes::Tiff,
        infer_mime_type(buf) is None ==> filetype_of_buffer(buf) == SupportedFileTypes::Unkn,
        infer_mime_type(buf) matches Some(m) && m != "image/jpeg"@ && m != "image/png"@ && m
            != "image/gif"@ && m != "image/webp"@ && m != "image/tiff"@ ==> filetype_of_buffer(
            buf,
        ) == SupportedFileTypes::Unkn,
{
    reveal_strlit("image/jpeg");
    reveal_strlit("image/png");
    reveal_strlit("image/gif");
    reveal_strlit("image/webp");
    reveal_strlit("image/tiff");
    // the five types differ in their seventh character
    assert("image/jpeg"@[6] == 'j');
    assert("image/png"@[6] == 'p');
    assert("image/gif"@[6] == 'g');
    assert("image/webp"@[6] == 'w');
    assert("image/tiff"@[6] == 't');
}

/// With `keep_rotation` and no source orientation, reading the file is the same as being
/// given the file's orientation as the source, whatever file that is handed with.
pub proof fn law_reading_the_file_is_being_given_its_orientation(f: Seq<u8>, g: Seq<u8>)
    ensures
        preserved_rotation(true, f, None) == preserved_rotation(
            true,
            g,
            Some(read_or_upright(exif_primary_orientation(f)) as u16),
        ),
{
}

/// What is kept: nothing without `keep_rotation`; otherwise the source orientation, or
/// else the one `exif` reads from the file (cut to 16 bits), unless that is 0 or 1; a
/// file in which `exif` reads none is upright.
pub proof fn law_kept_rotation(keep_rotation: bool, f: Seq<u8>, source: Option<u16>)
    ensures
        !keep_rotation ==> preserved_rotation(keep_rotation, f, source) is None,
        keep_rotation ==> (source matches Some(o) ==> preserved_rotation(keep_rotation, f, source)
            == (if o == 0 || o == 1 {
            None
        } else {
            Some(o)
        })),
        keep_rotation && source is None ==> (exif_primary_orientation(f) matches Some(v)
            ==> preserved_rotation(keep_rotation, f, source) == (if v as u16 == 0 || v as u16
            == 1 {
            None
        } else {
            Some(v as u16)
        })),
        keep_rotation && source is None && exif_primary_orientation(f) is None
            ==> preserved_rotation(keep_rotation, f, source) is None,
{
}

} // verus!
