//! Raw deflate (no zlib or gzip framing) of payloads, through flate2.

use flate2::read::DeflateDecoder;
use flate2::write::DeflateEncoder;
use flate2::Compression;
use std::io::{Read, Write};
use vstd::prelude::*;

verus! {

#[verifier::external_type_specification]
#[verifier::external_body]
pub struct ExIoError(std::io::Error);

#[derive(Debug)]
pub enum CompressionError {
    CompressionFailed(String),
    DecompressionFailed(String),
    IoError(std::io::Error),
}

/// The raw deflate stream that flate2 produces at its default level.
pub uninterp spec fn raw_deflate(data: Seq<u8>) -> Seq<u8>;

/// What flate2's raw inflater recovers from a stream.
pub uninterp spec fn raw_inflate(data: Seq<u8>) -> Seq<u8>;

/// Relies on flate2::write::DeflateEncoder (write_all, then finish) at
/// Compression::default(), without header, writing into a Vec: writing into
/// memory does not fail, and the stream depends on the input alone.
#[verifier::external_body]
fn deflate_raw(data: &[u8]) -> (r: Result<Vec<u8>, std::io::Error>)
    ensures
        r is Ok,
        r is Ok ==> r->Ok_0@ == raw_deflate(data@),
{
    let mut encoder = DeflateEncoder::new(Vec::new(), Compression::default());
    encoder.write_all(data)?;
    encoder.finish()
}

/// Relies on flate2::read::DeflateDecoder (read_to_end): on success the
/// output depends on the stream alone, and deflate being lossless, a stream
/// that flate2's encoder made inflates back to what was compressed.
#[verifier::external_body]
fn inflate_raw(data: &[u8]) -> (r: Result<Vec<u8>, std::io::Error>)
    ensures
        r is Ok ==> r->Ok_0@ == raw_inflate(data@),
        forall|x: Seq<u8>| #[trigger] raw_deflate(x) == data@ ==> (r is Ok && r->Ok_0@ == x),
{
    let mut decoder = DeflateDecoder::new(data);
    let mut out = Vec::new();
    decoder.read_to_end(&mut out)?;
    Ok(out)
}

/// Compresses `xml_data` as a raw deflate stream.
pub fn compress_xml(xml_data: &[u8]) -> (r: Result<Vec<u8>, CompressionError>)
    ensures
        r is Ok,
        r matches Ok(c) && c@ == raw_deflate(xml_data@),
{
    match deflate_raw(xml_data) {
        Ok(c) => Ok(c),
        Err(e) => Err(CompressionError::CompressionFailed(e.to_string())),
    }
}

/// Decompresses a raw deflate stream.
pub fn decompress_xml(compressed_data: &[u8]) -> (r: Result<Vec<u8>, CompressionError>)
    ensures
        match r {
            Ok(d) => d@ == raw_inflate(compressed_data@),
            Err(e) => e is DecompressionFailed,
        },
        forall|x: Seq<u8>|
            #[trigger] raw_deflate(x) == compressed_data@ ==> (r is Ok && r->Ok_0@ == x),
{
    match inflate_raw(compressed_data) {
        Ok(d) => Ok(d),
        Err(e) => Err(CompressionError::DecompressionFailed(e.to_string())),
    }
}

/// Compresses `xml_data` and returns the stream with its length.
pub fn compress_xml_with_size(xml_data: &[u8]) -> (r: Result<(Vec<u8>, usize), CompressionError>)
    ensures
        r is Ok,
        r matches Ok((c, n)) && c@ == raw_deflate(xml_data@) && n == c@.len(),
{
    let compressed = compress_xml(xml_data)?;
    let size = compressed.len();
    Ok((compressed, size))
}

/// Upper bound for a deflate buffer: the size, plus a tenth, plus 12.
pub fn estimate_compressed_size(original_size: usize) -> (r: usize)
    requires
        original_size + original_size / 10 + 12 <= usize::MAX,
    ensures
        r == original_size + original_size / 10 + 12,
{
    original_size + (original_size / 10) + 12
}

} // verus!
