//! The compression codecs that the library calls.
//!
//! Each function here hands one buffer to an outside compression crate and takes one
//! buffer back. Nothing in this module is proved: the contracts give a name to what each
//! call returns and say no more of it.
use std::io::{Read, Write};
use vstd::prelude::*;

verus! {

/// The error of the standard library's I/O traits, which the codecs report through. It is
/// carried to the caller of a wrapper and never read.
#[verifier::external_type_specification]
#[verifier::external_body]
pub struct ExIoError(std::io::Error);

/// What `zstd::encode_all` returns for the data at the given level.
pub uninterp spec fn zstd_encoded(data: Seq<u8>, level: int) -> Seq<u8>;

/// What `zstd::decode_all` returns for the data.
pub uninterp spec fn zstd_decoded(data: Seq<u8>) -> Seq<u8>;

/// What `lz4::block::compress` returns for the data in high-compression mode at the
/// given level, with or without the length of the data in front.
pub uninterp spec fn lz4_encoded(data: Seq<u8>, level: int, prepend_size: bool) -> Seq<u8>;

/// What `lz4::block::decompress` returns for the data, the size of the result given or
/// read from the front of the data.
pub uninterp spec fn lz4_decoded(data: Seq<u8>, size: Option<int>) -> Seq<u8>;

/// What a `brotli::CompressorWriter` with the given buffer size, quality and window
/// writes for the data.
pub uninterp spec fn brotli_encoded(data: Seq<u8>, buffer_size: nat, quality: nat, window: nat) -> Seq<u8>;

/// What a `brotli::Decompressor` with the given buffer size reads from the data.
pub uninterp spec fn brotli_decoded(data: Seq<u8>, buffer_size: nat) -> Seq<u8>;

/// What a `flate2::write::GzEncoder` at the given level writes for the data.
pub uninterp spec fn gzip_encoded(data: Seq<u8>, level: nat) -> Seq<u8>;

/// What a `flate2::read::GzDecoder` reads from the data.
pub uninterp spec fn gzip_decoded(data: Seq<u8>) -> Seq<u8>;

/// What an `xz2::write::XzEncoder` at the given level writes for the data.
pub uninterp spec fn xz_encoded(data: Seq<u8>, level: nat) -> Seq<u8>;

/// What an `xz2::read::XzDecoder` reads from the data.
pub uninterp spec fn xz_decoded(data: Seq<u8>) -> Seq<u8>;

/// Calls `zstd::encode_all`. Where it succeeds, the result is the zstd frame of the data
/// at that level.
#[verifier::external_body]
pub(crate) fn zstd_encode_all(data: &[u8], level: i32) -> (r: Result<Vec<u8>, std::io::Error>)
    requires
        1 <= level <= 22,
    ensures
        r is Ok ==> r->Ok_0@ == zstd_encoded(data@, level as int),
{
    zstd::encode_all(data, level)
}

/// Calls `zstd::decode_all`. Where it succeeds, the result is what the frames in the data
/// decode to.
#[verifier::external_body]
pub(crate) fn zstd_decode_all(data: &[u8]) -> (r: Result<Vec<u8>, std::io::Error>)
    ensures
        r is Ok ==> r->Ok_0@ == zstd_decoded(data@),
{
    zstd::decode_all(data)
}

/// Calls `lz4::block::compress` in high-compression mode. Where it succeeds, the result
/// is the LZ4 block of the data, behind its length if that was asked for.
#[verifier::external_body]
pub(crate) fn lz4_block_compress(data: &[u8], level: i32, prepend_size: bool) -> (r: Result<Vec<u8>, std::io::Error>)
    requires
        1 <= level <= 12,
    ensures
        r is Ok ==> r->Ok_0@ == lz4_encoded(data@, level as int, prepend_size),
{
    lz4::block::compress(data, Some(lz4::block::CompressionMode::HIGHCOMPRESSION(level)), prepend_size)
}

/// The size as the specification of `lz4_block_decompress` reads it.
pub open spec fn size_hint(size: Option<i32>) -> Option<int> {
    match size {
        Some(n) => Some(n as int),
        None => None,
    }
}

/// Calls `lz4::block::decompress`. Where it succeeds, the result is what the block in the
/// data decodes to.
#[verifier::external_body]
pub(crate) fn lz4_block_decompress(data: &[u8], size: Option<i32>) -> (r: Result<Vec<u8>, std::io::Error>)
    ensures
        r is Ok ==> r->Ok_0@ == lz4_decoded(data@, size_hint(size)),
{
    lz4::block::decompress(data, size)
}

/// Writes the data through a `brotli::CompressorWriter` into a fresh buffer. Where the
/// write succeeds, the buffer holds the Brotli stream of the data.
#[verifier::external_body]
pub(crate) fn brotli_write(data: &[u8], buffer_size: usize, quality: u32, window: u32) -> (r: Result<Vec<u8>, std::io::Error>)
    requires
        buffer_size >= 1,
        quality <= 11,
        10 <= window <= 24,
    ensures
        r is Ok ==> r->Ok_0@ == brotli_encoded(
            data@,
            buffer_size as nat,
            quality as nat,
            window as nat,
        ),
{
    let mut compressed = Vec::new();
    {
        let mut encoder = brotli::CompressorWriter::new(&mut compressed, buffer_size, quality, window);
        encoder.write_all(data)?;
    }
    Ok(compressed)
}

/// Reads the data through a `brotli::Decompressor` to its end. Where the read succeeds,
/// the result is what the Brotli stream in the data decodes to.
#[verifier::external_body]
pub(crate) fn brotli_read(data: &[u8], buffer_size: usize) -> (r: Result<Vec<u8>, std::io::Error>)
    requires
        buffer_size >= 1,
    ensures
        r is Ok ==> r->Ok_0@ == brotli_decoded(data@, buffer_size as nat),
{
    let mut decompressed = Vec::new();
    let mut decoder = brotli::Decompressor::new(data, buffer_size);
    decoder.read_to_end(&mut decompressed)?;
    Ok(decompressed)
}

/// Writes the data through a `flate2::write::GzEncoder` and finishes it. Where that
/// succeeds, the result is the gzip member of the data.
#[verifier::external_body]
pub(crate) fn gzip_write(data: &[u8], level: u32) -> (r: Result<Vec<u8>, std::io::Error>)
    requires
        level <= 9,
    ensures
        r is Ok ==> r->Ok_0@ == gzip_encoded(data@, level as nat),
{
    let mut encoder = flate2::write::GzEncoder::new(Vec::new(), flate2::Compression::new(level));
    encoder.write_all(data)?;
    encoder.finish()
}

/// Reads the data through a `flate2::read::GzDecoder` to its end. Where the read
/// succeeds, the result is what the gzip member in the data decodes to.
#[verifier::external_body]
pub(crate) fn gzip_read(data: &[u8]) -> (r: Result<Vec<u8>, std::io::Error>)
    ensures
        r is Ok ==> r->Ok_0@ == gzip_decoded(data@),
{
    let mut decoder = flate2::read::GzDecoder::new(data);
    let mut decompressed = Vec::new();
    decoder.read_to_end(&mut decompressed)?;
    Ok(decompressed)
}

/// Writes the data through an `xz2::write::XzEncoder` and finishes it. Where that
/// succeeds, the result is the xz stream of the data.
#[verifier::external_body]
pub(crate) fn xz_write(data: &[u8], level: u32) -> (r: Result<Vec<u8>, std::io::Error>)
    requires
        level <= 9,
    ensures
        r is Ok ==> r->Ok_0@ == xz_encoded(data@, level as nat),
{
    let mut encoder = xz2::write::XzEncoder::new(Vec::new(), level);
    encoder.write_all(data)?;
    encoder.finish()
}

/// Reads the data through an `xz2::read::XzDecoder` to its end. Where the read succeeds,
/// the result is what the xz stream in the data decodes to.
#[verifier::external_body]
pub(crate) fn xz_read(data: &[u8]) -> (r: Result<Vec<u8>, std::io::Error>)
    ensures
        r is Ok ==> r->Ok_0@ == xz_decoded(data@),
{
    let mut decoder = xz2::read::XzDecoder::new(data);
    let mut decompressed = Vec::new();
    decoder.read_to_end(&mut decompressed)?;
    Ok(decompressed)
}

/// Calls `str::to_lowercase`.
#[verifier::external_body]
pub(crate) fn lowercase(text: &str) -> (lower: String)
    ensures
        lower@ == lowercased(text@),
{
    text.to_lowercase()
}

/// The text with every character replaced by its lower-case form, as Unicode defines it.
pub uninterp spec fn lowercased(text: Seq<char>) -> Seq<char>;

/// Two string slices are equal when they hold the same characters.
pub assume_specification[ <str as PartialEq>::eq ](a: &str, b: &str) -> (equal: bool)
    ensures
        equal == (a@ == b@),
;

} // verus!
