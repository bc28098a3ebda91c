//! Gzip compression of failure artifacts.
//!
//! Wraps the JSON bytes of a bundle document in gzip so long campaigns store
//! less data while artifacts stay reproducible (decompress, load, verify the
//! signature). Producing and parsing the JSON is the serialization layer's.
use flate2::read::GzDecoder;
use flate2::write::GzEncoder;
use flate2::Compression;
use std::io::{Read, Write};
use vstd::prelude::*;

use crate::bundle_persist::BundlePersistError;

verus! {

/// The gzip stream that `flate2`'s `GzEncoder` writes for `data` at the default
/// level (no file name, no time stamp).
pub uninterp spec fn spec_gzip(data: Seq<u8>) -> Seq<u8>;

/// What `flate2`'s `GzDecoder` reads from `data` to the end: the decoded
/// bytes, or nothing when reading fails.
pub uninterp spec fn spec_gunzip(data: Seq<u8>) -> Option<Seq<u8>>;

/// Gzip-compresses `data` at the default level.
///
/// Writes `data` through `flate2::write::GzEncoder` into a vector and finishes
/// the stream. Its contract claims that a stream it returns is the named value
/// `spec_gzip` of the input, which depends on the input alone (the encoder
/// writes no time stamp and a fixed OS byte), that the decoder reads that
/// stream back to the input, and that it succeeds: writing into a vector has no
/// failing path in the encoder.
#[verifier::external_body]
fn gzip_compress(data: &[u8]) -> (r: Result<Vec<u8>, std::io::Error>)
    ensures
        r is Ok,
        r matches Ok(v) ==> v@ == spec_gzip(data@) && spec_gunzip(v@) == Some(data@),
{
    let mut encoder = GzEncoder::new(Vec::new(), Compression::default());
    encoder.write_all(data)?;
    encoder.finish()
}

/// Decompresses a gzip stream.
///
/// Reads `data` through `flate2::read::GzDecoder` to the end. Its contract
/// claims that the result is the named value `spec_gunzip` of the input, which
/// depends on the input alone.
#[verifier::external_body]
fn gzip_decompress(data: &[u8]) -> (r: Result<Vec<u8>, std::io::Error>)
    ensures
        r matches Ok(v) ==> spec_gunzip(data@) == Some(v@),
        r is Err ==> spec_gunzip(data@) is None,
{
    let mut decoder = GzDecoder::new(data);
    let mut out = Vec::new();
    decoder.read_to_end(&mut out)?;
    Ok(out)
}

/// Compresses the JSON bytes of a bundle document to gzip; decompressing the
/// result gives the JSON bytes back.
pub fn compress_artifact_json(json: &[u8]) -> (r: Result<Vec<u8>, BundlePersistError>)
    ensures
        r is Ok,
        r matches Ok(v) ==> v@ == spec_gzip(json@) && spec_gunzip(v@) == Some(json@),
{
    match gzip_compress(json) {
        Ok(v) => Ok(v),
        Err(e) => Err(BundlePersistError::from(e)),
    }
}

/// Decompresses gzip bytes back to the JSON bytes of a bundle document: what
/// [`compress_artifact_json`] produced comes back unchanged.
pub fn decompress_artifact_json(compressed: &[u8]) -> (r: Result<Vec<u8>, BundlePersistError>)
    ensures
        spec_gunzip(compressed@) matches Some(x) ==> (r matches Ok(v) && v@ == x),
        spec_gunzip(compressed@) is None ==> (r matches Err(e) && e is Io),
{
    match gzip_decompress(compressed) {
        Ok(v) => Ok(v),
        Err(e) => Err(BundlePersistError::from(e)),
    }
}

} // verus!
