//! TIFF encoder settings.
use crate::parameters::{TiffCompression, TiffDeflateLevel, TiffParameters};
use tiff::encoder::compression::DeflateLevel;
use tiff::encoder::Compression;
use vstd::prelude::*;

verus! {

/// The Deflate levels of the `tiff` crate: a public enum of three fieldless variants
/// (`Fast`, `Balanced`, `Best`), declared so that Verus sees those variants and the
/// contract below can name them. Its discriminants are the `tiff` crate's own.
#[verifier::external_type_specification]
pub struct ExDeflateLevel(tiff::encoder::compression::DeflateLevel);

/// The `tiff` crate's Deflate level for a configured level.
pub open spec fn deflate_level_of(level: TiffDeflateLevel) -> DeflateLevel {
    match level {
        TiffDeflateLevel::Fast => DeflateLevel::Fast,
        TiffDeflateLevel::Balanced => DeflateLevel::Balanced,
        TiffDeflateLevel::Best => DeflateLevel::Best,
    }
}

/// Translates the configured Deflate level into the `tiff` crate's.
pub fn parse_deflate_level(level: TiffDeflateLevel) -> (r: DeflateLevel)
    ensures
        r == deflate_level_of(level),
{
    match level {
        TiffDeflateLevel::Fast => DeflateLevel::Fast,
        TiffDeflateLevel::Balanced => DeflateLevel::Balanced,
        TiffDeflateLevel::Best => DeflateLevel::Best,
    }
}


/// The compression methods of the `tiff` encoder: a public enum whose variants
/// (`Uncompressed`, `Lzw`, `Deflate(DeflateLevel)`, `Packbits`) are declared so that the
/// contract below can name them.
#[verifier::external_type_specification]
pub struct ExCompression(tiff::encoder::Compression);

/// The `tiff` encoder's compression for the configured TIFF settings.
pub open spec fn compression_of(tiff: TiffParameters) -> Compression {
    match tiff.algorithm {
        TiffCompression::Deflate => Compression::Deflate(deflate_level_of(tiff.deflate_level)),
        TiffCompression::Lzw => Compression::Lzw,
        TiffCompression::Packbits => Compression::Packbits,
        TiffCompression::Uncompressed => Compression::Uncompressed,
    }
}

/// Chooses the `tiff` encoder's compression for the configured TIFF settings; the
/// Deflate level only matters for Deflate.
pub fn tiff_compression(tiff: &TiffParameters) -> (c: Compression)
    ensures
        c == compression_of(*tiff),
{
    match tiff.algorithm {
        TiffCompression::Deflate => Compression::Deflate(parse_deflate_level(tiff.deflate_level)),
        TiffCompression::Lzw => Compression::Lzw,
        TiffCompression::Packbits => Compression::Packbits,
        TiffCompression::Uncompressed => Compression::Uncompressed,
    }
}


/// The chosen compression follows the algorithm, and the Deflate level is used for
/// Deflate alone: Lzw, Packbits and Uncompressed give those methods at every level, and
/// Deflate gives Deflate at the matching level of the `tiff` crate.
pub proof fn law_compression_follows_algorithm(t: TiffParameters)
    ensures
        t.algorithm == TiffCompression::Lzw ==> compression_of(t) == Compression::Lzw,
        t.algorithm == TiffCompression::Packbits ==> compression_of(t) == Compression::Packbits,
        t.algorithm == TiffCompression::Uncompressed ==> compression_of(t)
            == Compression::Uncompressed,
        t.algorithm == TiffCompression::Deflate && t.deflate_level == TiffDeflateLevel::Fast
            ==> compression_of(t) == Compression::Deflate(DeflateLevel::Fast),
        t.algorithm == TiffCompression::Deflate && t.deflate_level == TiffDeflateLevel::Balanced
            ==> compression_of(t) == Compression::Deflate(DeflateLevel::Balanced),
        t.algorithm == TiffCompression::Deflate && t.deflate_level == TiffDeflateLevel::Best
            ==> compression_of(t) == Compression::Deflate(DeflateLevel::Best),
{
}

/// Two settings with the same algorithm other than Deflate give the same compression,
/// whatever their Deflate levels; with Deflate, different levels give different
/// compressions.
pub proof fn law_deflate_level_matters_only_for_deflate(a: TiffParameters, b: TiffParameters)
    requires
        a.algorithm == b.algorithm,
    ensures
        a.algorithm != TiffCompression::Deflate ==> compression_of(a) == compression_of(b),
        a.algorithm == TiffCompression::Deflate ==> (compression_of(a) == compression_of(b)
            <==> a.deflate_level == b.deflate_level),
{
}

} // verus!
