use bytes::Bytes;
use caesium::{
    build_orientation_exif, get_filetype_from_memory, get_orientation, match_supported_filetypes,
    orientation_or_upright, parse_deflate_level, rotation_exif_to_preserve, rotation_to_preserve,
    set_exif_orientation, tiff_compression, CSParameters, SupportedFileTypes, TiffCompression, TiffDeflateLevel,
    ORIENTATION_EXIF_LEN, ORIENTATION_TAG, SHORT_TYPE,
};
use caesium::TiffParameters;
use tiff::encoder::compression::DeflateLevel;
use tiff::encoder::Compression;

fn orientation_of(exif: &[u8]) -> u32 {
    let reader = exif::Reader::new();
    reader
        .read_raw(exif.to_vec())
        .unwrap()
        .get_field(exif::Tag::Orientation, exif::In::PRIMARY)
        .and_then(|f| f.value.get_uint(0))
        .unwrap()
}

#[test]
fn built_exif_round_trips() {
    for orientation in 1..=8u16 {
        let exif = build_orientation_exif(orientation);
        assert_eq!(exif.len(), ORIENTATION_EXIF_LEN);
        assert_eq!(orientation_of(&exif), orientation as u32);
    }
}

#[test]
fn rewrites_little_endian_orientation() {
    let exif = set_exif_orientation(build_orientation_exif(6), 1);
    assert_eq!(orientation_of(&exif), 1);
}

fn big_endian_exif(orientation: u16) -> Bytes {
    let mut exif = Vec::new();
    exif.extend_from_slice(b"MM\0*");
    exif.extend_from_slice(&8u32.to_be_bytes());
    exif.extend_from_slice(&1u16.to_be_bytes());
    exif.extend_from_slice(&ORIENTATION_TAG.to_be_bytes());
    exif.extend_from_slice(&SHORT_TYPE.to_be_bytes());
    exif.extend_from_slice(&1u32.to_be_bytes());
    exif.extend_from_slice(&orientation.to_be_bytes());
    exif.extend_from_slice(&[0, 0]);
    exif.extend_from_slice(&0u32.to_be_bytes());
    Bytes::from(exif)
}

#[test]
fn rewrites_big_endian_orientation() {
    let mut exif = Vec::new();
    exif.extend_from_slice(b"MM\0*");
    exif.extend_from_slice(&8u32.to_be_bytes());
    exif.extend_from_slice(&1u16.to_be_bytes());
    exif.extend_from_slice(&ORIENTATION_TAG.to_be_bytes());
    exif.extend_from_slice(&SHORT_TYPE.to_be_bytes());
    exif.extend_from_slice(&1u32.to_be_bytes());
    exif.extend_from_slice(&8u16.to_be_bytes());
    exif.extend_from_slice(&[0, 0]);
    exif.extend_from_slice(&0u32.to_be_bytes());

    let exif = Bytes::from(exif);
    assert_eq!(orientation_of(&exif), 8);
    assert_eq!(orientation_of(&set_exif_orientation(exif, 1)), 1);
}

#[test]
fn leaves_unrewritable_exif_alone() {
    let mut tagless = build_orientation_exif(6).to_vec();
    tagless[8..10].copy_from_slice(&0u16.to_le_bytes()); // zero entries
    for blob in [tagless, b"XX*\0garbage".to_vec(), b"II*\0".to_vec(), vec![]] {
        let original = Bytes::from(blob);
        assert_eq!(set_exif_orientation(original.clone(), 1), original);
    }
}

#[test]
fn built_exif_has_the_documented_bytes() {
    let exif = build_orientation_exif(0x0306);
    assert_eq!(
        exif.as_ref(),
        &[
            0x49, 0x49, 0x2A, 0x00, 8, 0, 0, 0, 1, 0, 0x12, 0x01, 3, 0, 1, 0, 0, 0, 0x06, 0x03, 0,
            0, 0, 0, 0, 0
        ]
    );
}

#[test]
fn rewrite_changes_only_the_value_bytes() {
    let original = big_endian_exif(8);
    let rewritten = set_exif_orientation(original.clone(), 0x0102);
    assert_eq!(rewritten.len(), original.len());
    for i in 0..original.len() {
        if i == 18 {
            assert_eq!(rewritten[i], 0x01);
        } else if i == 19 {
            assert_eq!(rewritten[i], 0x02);
        } else {
            assert_eq!(rewritten[i], original[i]);
        }
    }
}

#[test]
fn rewriting_a_built_block_gives_the_block_built_for_the_new_value() {
    for a in [0u16, 1, 6, 8, 0xFFFF] {
        for b in [0u16, 3, 8, 0x1234] {
            assert_eq!(set_exif_orientation(build_orientation_exif(a), b), build_orientation_exif(b));
        }
    }
}

#[test]
fn last_rewrite_wins() {
    let once = set_exif_orientation(set_exif_orientation(big_endian_exif(5), 2), 7);
    assert_eq!(once, set_exif_orientation(big_endian_exif(5), 7));
    assert_eq!(orientation_of(&once), 7);
}

#[test]
fn rewriting_to_the_recorded_value_changes_nothing() {
    let exif = big_endian_exif(6);
    assert_eq!(set_exif_orientation(exif.clone(), 6), exif);
}

/// Little-endian block with a first entry that is not the orientation tag and a second
/// one that is.
fn two_entry_exif(first_type: u16) -> Vec<u8> {
    let mut exif = Vec::new();
    exif.extend_from_slice(b"II*\0");
    exif.extend_from_slice(&8u32.to_le_bytes());
    exif.extend_from_slice(&2u16.to_le_bytes());
    // ImageWidth, SHORT, 1, 640
    exif.extend_from_slice(&0x0100u16.to_le_bytes());
    exif.extend_from_slice(&first_type.to_le_bytes());
    exif.extend_from_slice(&1u32.to_le_bytes());
    exif.extend_from_slice(&640u16.to_le_bytes());
    exif.extend_from_slice(&[0, 0]);
    // Orientation, SHORT, 1, 3
    exif.extend_from_slice(&ORIENTATION_TAG.to_le_bytes());
    exif.extend_from_slice(&SHORT_TYPE.to_le_bytes());
    exif.extend_from_slice(&1u32.to_le_bytes());
    exif.extend_from_slice(&3u16.to_le_bytes());
    exif.extend_from_slice(&[0, 0]);
    exif.extend_from_slice(&0u32.to_le_bytes());
    exif
}

#[test]
fn finds_the_orientation_entry_after_other_entries() {
    let exif = Bytes::from(two_entry_exif(SHORT_TYPE));
    let rewritten = set_exif_orientation(exif.clone(), 6);
    let mut expected = exif.to_vec();
    expected[30] = 6;
    expected[31] = 0;
    assert_eq!(rewritten.to_vec(), expected);
    assert_eq!(orientation_of(&rewritten), 6);
}

#[test]
fn skips_an_orientation_tag_of_the_wrong_type_or_count() {
    // the orientation tag with type LONG is not rewritten
    let mut exif = build_orientation_exif(6).to_vec();
    exif[12..14].copy_from_slice(&4u16.to_le_bytes());
    let original = Bytes::from(exif);
    assert_eq!(set_exif_orientation(original.clone(), 1), original);

    // nor with two values
    let mut exif = build_orientation_exif(6).to_vec();
    exif[14..18].copy_from_slice(&2u32.to_le_bytes());
    let original = Bytes::from(exif);
    assert_eq!(set_exif_orientation(original.clone(), 1), original);
}

#[test]
fn stops_at_an_entry_that_runs_past_the_end() {
    // two entries announced, the orientation would be second, but the block is cut
    // inside it
    let mut exif = two_entry_exif(SHORT_TYPE);
    exif.truncate(30);
    let original = Bytes::from(exif);
    assert_eq!(set_exif_orientation(original.clone(), 1), original);

    // more entries announced than the block holds, the orientation comes first
    let mut exif = build_orientation_exif(6).to_vec();
    exif[8..10].copy_from_slice(&500u16.to_le_bytes());
    let rewritten = set_exif_orientation(Bytes::from(exif.clone()), 2);
    exif[18] = 2;
    assert_eq!(rewritten.to_vec(), exif);
}

#[test]
fn leaves_blocks_with_unreachable_directory_alone() {
    let mut exif = build_orientation_exif(6).to_vec();
    exif[4..8].copy_from_slice(&25u32.to_le_bytes()); // count would need bytes 25..27
    let original = Bytes::from(exif);
    assert_eq!(set_exif_orientation(original.clone(), 1), original);

    let mut exif = build_orientation_exif(6).to_vec();
    exif[4..8].copy_from_slice(&u32::MAX.to_le_bytes());
    let original = Bytes::from(exif);
    assert_eq!(set_exif_orientation(original.clone(), 1), original);

    let seven = Bytes::from(b"II*\0\x08\0\0".to_vec());
    assert_eq!(set_exif_orientation(seven.clone(), 1), seven);
}

#[test]
fn reads_orientation_with_exif() {
    assert_eq!(get_orientation(&build_orientation_exif(8)), 8);
    assert_eq!(get_orientation(&big_endian_exif(3)), 3);
    assert_eq!(get_orientation(b"no image here"), 1);
    assert_eq!(get_orientation(&[]), 1);
}

#[test]
fn missing_orientation_reads_as_upright() {
    assert_eq!(orientation_or_upright(None), 1);
    assert_eq!(orientation_or_upright(Some(6)), 6);
    assert_eq!(orientation_or_upright(Some(0)), 0);
}

fn rotation_parameters() -> CSParameters {
    let mut pars = CSParameters::new();
    pars.keep_metadata = false;
    pars.keep_rotation = true;
    pars
}

#[test]
fn rotation_is_kept_only_when_asked() {
    let exif = build_orientation_exif(6);
    assert_eq!(rotation_to_preserve(&exif, &rotation_parameters(), None), Some(6));
    assert_eq!(rotation_to_preserve(&exif, &CSParameters::new(), None), None);
    assert_eq!(rotation_to_preserve(&exif, &CSParameters::new(), Some(6)), None);
}

#[test]
fn upright_and_unset_orientations_are_not_kept() {
    let pars = rotation_parameters();
    assert_eq!(rotation_to_preserve(&[], &pars, Some(0)), None);
    assert_eq!(rotation_to_preserve(&[], &pars, Some(1)), None);
    assert_eq!(rotation_to_preserve(&[], &pars, Some(2)), Some(2));
    assert_eq!(rotation_to_preserve(b"garbage", &pars, None), None);
    assert_eq!(rotation_to_preserve(&build_orientation_exif(1), &pars, None), None);
}

#[test]
fn source_orientation_takes_precedence_over_the_file() {
    let pars = rotation_parameters();
    let exif = build_orientation_exif(6);
    assert_eq!(rotation_to_preserve(&exif, &pars, Some(3)), Some(3));
    assert_eq!(rotation_to_preserve(&exif, &pars, Some(1)), None);
}

#[test]
fn keep_metadata_needs_no_orientation_block() {
    let mut pars = rotation_parameters();
    pars.keep_metadata = true;
    assert_eq!(rotation_exif_to_preserve(&[], &pars, Some(6)), None);
    // the plain decision is not affected by keep_metadata
    assert_eq!(rotation_to_preserve(&[], &pars, Some(6)), Some(6));
}

#[test]
fn orientation_block_carries_the_kept_rotation() {
    let pars = rotation_parameters();
    let exif = rotation_exif_to_preserve(&[], &pars, Some(6)).unwrap();
    assert_eq!(exif, build_orientation_exif(6));
    assert_eq!(orientation_of(&exif), 6);
    assert_eq!(rotation_exif_to_preserve(&[], &pars, Some(1)), None);
    assert_eq!(rotation_exif_to_preserve(&[], &CSParameters::new(), Some(6)), None);
    let from_file = rotation_exif_to_preserve(&big_endian_exif(8), &pars, None).unwrap();
    assert_eq!(orientation_of(&from_file), 8);
}

#[test]
fn defaults_drop_rotation_and_metadata() {
    let pars = CSParameters::new();
    assert!(!pars.keep_rotation, "keep_rotation must default to false");
    assert!(!pars.keep_metadata);
    assert_eq!(pars.width, 0);
    assert_eq!(pars.height, 0);
    assert_eq!(pars.tiff.algorithm, TiffCompression::Deflate);
    assert_eq!(pars.tiff.deflate_level, TiffDeflateLevel::Balanced);
    assert_eq!(rotation_to_preserve(&build_orientation_exif(6), &pars, None), None);
}

#[test]
fn mime_types_map_to_file_types() {
    assert_eq!(match_supported_filetypes("image/jpeg"), SupportedFileTypes::Jpeg);
    assert_eq!(match_supported_filetypes("image/png"), SupportedFileTypes::Png);
    assert_eq!(match_supported_filetypes("image/gif"), SupportedFileTypes::Gif);
    assert_eq!(match_supported_filetypes("image/webp"), SupportedFileTypes::WebP);
    assert_eq!(match_supported_filetypes("image/tiff"), SupportedFileTypes::Tiff);
    assert_eq!(match_supported_filetypes("image/bmp"), SupportedFileTypes::Unkn);
    assert_eq!(match_supported_filetypes("image/jpe"), SupportedFileTypes::Unkn);
    assert_eq!(match_supported_filetypes(""), SupportedFileTypes::Unkn);
}

#[test]
fn detects_file_types_from_leading_bytes() {
    assert_eq!(get_filetype_from_memory(&[0xFF, 0xD8, 0xFF, 0xE0, 0, 0]), SupportedFileTypes::Jpeg);
    assert_eq!(
        get_filetype_from_memory(&[0x89, b'P', b'N', b'G', 0x0D, 0x0A, 0x1A, 0x0A]),
        SupportedFileTypes::Png
    );
    assert_eq!(get_filetype_from_memory(b"GIF89a\x01\0\x01\0"), SupportedFileTypes::Gif);
    assert_eq!(get_filetype_from_memory(b"RIFF\x24\0\0\0WEBPVP8 "), SupportedFileTypes::WebP);
    assert_eq!(get_filetype_from_memory(&build_orientation_exif(1)), SupportedFileTypes::Tiff);
    assert_eq!(get_filetype_from_memory(b"BM\0\0\0\0\0\0"), SupportedFileTypes::Unkn);
    assert_eq!(get_filetype_from_memory(b"plain text"), SupportedFileTypes::Unkn);
    assert_eq!(get_filetype_from_memory(&[]), SupportedFileTypes::Unkn);
}

#[test]
fn deflate_levels_translate() {
    assert_eq!(parse_deflate_level(TiffDeflateLevel::Fast), DeflateLevel::Fast);
    assert_eq!(parse_deflate_level(TiffDeflateLevel::Balanced), DeflateLevel::Balanced);
    assert_eq!(parse_deflate_level(TiffDeflateLevel::Best), DeflateLevel::Best);
}

#[test]
fn tiff_compression_follows_the_settings() {
    let tiff = |algorithm, deflate_level| TiffParameters { algorithm, deflate_level };
    assert!(
        tiff_compression(&tiff(TiffCompression::Deflate, TiffDeflateLevel::Best))
            == Compression::Deflate(DeflateLevel::Best)
    );
    assert!(
        tiff_compression(&tiff(TiffCompression::Deflate, TiffDeflateLevel::Fast))
            == Compression::Deflate(DeflateLevel::Fast)
    );
    assert!(tiff_compression(&tiff(TiffCompression::Lzw, TiffDeflateLevel::Best)) == Compression::Lzw);
    assert!(
        tiff_compression(&tiff(TiffCompression::Packbits, TiffDeflateLevel::Fast)) == Compression::Packbits
    );
    assert!(
        tiff_compression(&tiff(TiffCompression::Uncompressed, TiffDeflateLevel::Balanced))
            == Compression::Uncompressed
    );
    assert!(
        tiff_compression(&CSParameters::new().tiff) == Compression::Deflate(DeflateLevel::Balanced)
    );
}
