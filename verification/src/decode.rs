//! The decoders of the compression methods, which the crates `flate2`, `bzip2` and
//! `zstd` provide.

use vstd::prelude::*;
use std::io::Read;
use crate::codec::copy_range;
use crate::compression::{method_supported, CompressionMethod};
use crate::result::{Fault, ZipError, ZipResult};

verus! {

/// What reading a `flate2::read::DeflateDecoder` over a source that holds `input` to
/// its end gives: the bytes that were read, or nothing where a read failed.
pub uninterp spec fn inflated(input: Seq<u8>) -> Option<Seq<u8>>;

/// What reading a `bzip2::read::BzDecoder` over a source that holds `input` to its
/// end gives: the bytes that were read, or nothing where a read failed.
pub uninterp spec fn bunzipped(input: Seq<u8>) -> Option<Seq<u8>>;

/// What reading a `zstd::stream::read::Decoder` over a source that holds `input` to
/// its end gives: the bytes that were read, or nothing where the decoder could not be
/// made or a read failed.
pub uninterp spec fn unzstd(input: Seq<u8>) -> Option<Seq<u8>>;

/// Reads a `flate2::read::DeflateDecoder` over `input` to its end. The decoder reads
/// nothing but `input`, so the same input gives the same result.
#[verifier::external_body]
pub(crate) fn inflate(input: &[u8]) -> (r: Result<Vec<u8>, std::io::Error>)
    ensures
        r is Ok ==> inflated(input@) == Some(r->Ok_0@),
        r is Err ==> inflated(input@) is None,
{
    let mut out = Vec::new();
    match flate2::read::DeflateDecoder::new(input).read_to_end(&mut out) {
        Ok(_) => Ok(out),
        Err(e) => Err(e),
    }
}

/// Reads a `bzip2::read::BzDecoder` over `input` to its end. The decoder reads
/// nothing but `input`, so the same input gives the same result.
#[verifier::external_body]
pub(crate) fn bunzip(input: &[u8]) -> (r: Result<Vec<u8>, std::io::Error>)
    ensures
        r is Ok ==> bunzipped(input@) == Some(r->Ok_0@),
        r is Err ==> bunzipped(input@) is None,
{
    let mut out = Vec::new();
    match bzip2::read::BzDecoder::new(input).read_to_end(&mut out) {
        Ok(_) => Ok(out),
        Err(e) => Err(e),
    }
}

/// Makes a `zstd::stream::read::Decoder` over `input` and reads it to its end. The
/// decoder reads nothing but `input`, so the same input gives the same result.
#[verifier::external_body]
pub(crate) fn zstd_decode(input: &[u8]) -> (r: Result<Vec<u8>, std::io::Error>)
    ensures
        r is Ok ==> unzstd(input@) == Some(r->Ok_0@),
        r is Err ==> unzstd(input@) is None,
{
    let mut out = Vec::new();
    match zstd::stream::read::Decoder::new(input) {
        Ok(mut decoder) => match decoder.read_to_end(&mut out) {
            Ok(_) => Ok(out),
            Err(e) => Err(e),
        },
        Err(e) => Err(e),
    }
}

/// The bytes that a payload stands for under a compression method that this library
/// decodes; nothing where the payload is damaged.
pub open spec fn decoded(method: CompressionMethod, input: Seq<u8>) -> Option<Seq<u8>> {
    match method {
        CompressionMethod::Stored => Some(input),
        CompressionMethod::Deflated => inflated(input),
        CompressionMethod::Bzip2 => bunzipped(input),
        CompressionMethod::Zstd => unzstd(input),
        _ => None,
    }
}

/// Decodes a payload. A method that this library does not decode is refused; a
/// damaged payload gives the I/O error of the decoder.
pub fn decode(method: CompressionMethod, input: &[u8]) -> (r: ZipResult<Vec<u8>>)
    ensures
        !method_supported(method) ==> r is Err && r->Err_0@ == Fault::UnsupportedArchive(
            "Compression method not supported"@,
        ),
        method_supported(method) ==> (match decoded(method, input@) {
            Some(bytes) => r is Ok && r->Ok_0@ == bytes,
            None => r is Err && r->Err_0@ == Fault::Io,
        }),
{
    let outcome = match method {
        CompressionMethod::Stored => {
            return Ok(copy_range(input, 0, input.len()));
        },
        CompressionMethod::Deflated => inflate(input),
        CompressionMethod::Bzip2 => bunzip(input),
        CompressionMethod::Zstd => zstd_decode(input),
        _ => {
            return Err(ZipError::UnsupportedArchive("Compression method not supported"));
        },
    };
    match outcome {
        Ok(bytes) => Ok(bytes),
        Err(e) => Err(ZipError::Io(e)),
    }
}

} // verus!
