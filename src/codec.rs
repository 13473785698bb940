//! The compression codec: stored objects are zlib streams of their framed bytes.
use std::io::{Read, Write};
use vstd::prelude::*;

use crate::object::ObjectError;

verus! {

/// The zlib stream that the encoder produces for a byte string.
pub uninterp spec fn deflated(data: Seq<u8>) -> Seq<u8>;

/// What the decoder reads out of a byte string, `None` where it fails.
pub uninterp spec fn inflated(data: Seq<u8>) -> Option<Seq<u8>>;

/// Relies on flate2::write::ZlibEncoder at the default level: `write_all`
/// then `finish` give a zlib stream of `data`, which ZlibDecoder reads back
/// as `data`. The encoder writes into a `Vec`, whose writes never fail, and
/// the compressor reports errors only for bad parameters or a failing
/// output, so both steps succeed.
#[verifier::external_body]
fn zlib_compress(data: &[u8]) -> (r: Option<Vec<u8>>)
    ensures
        r is Some,
        r matches Some(v) ==> v@ == deflated(data@),
        r matches Some(v) ==> inflated(v@) == Some(data@),
{
    let mut encoder = flate2::write::ZlibEncoder::new(Vec::new(), flate2::Compression::default());
    match encoder.write_all(data) {
        Ok(()) => encoder.finish().ok(),
        Err(_) => None,
    }
}

/// Relies on flate2::read::ZlibDecoder: `read_to_end` yields the
/// decompressed bytes, or fails on bytes that are not a valid zlib stream.
#[verifier::external_body]
fn zlib_decompress(data: &[u8]) -> (r: Option<Vec<u8>>)
    ensures
        match r {
            Some(v) => inflated(data@) == Some(v@),
            None => inflated(data@) is None,
        },
{
    let mut out = Vec::new();
    match flate2::read::ZlibDecoder::new(data).read_to_end(&mut out) {
        Ok(_) => Some(out),
        Err(_) => None,
    }
}

/// Compresses raw object bytes into their stored form.
pub fn encode(raw: &[u8]) -> (r: Vec<u8>)
    ensures
        r@ == deflated(raw@),
        inflated(r@) == Some(raw@),
{
    zlib_compress(raw).unwrap()
}

/// Decompresses a stored object; fails with `CorruptObject` on anything
/// that is not a valid compressed stream.
pub fn decode(stored: &[u8]) -> (r: Result<Vec<u8>, ObjectError>)
    ensures
        match r {
            Ok(v) => inflated(stored@) == Some(v@),
            Err(e) => e == ObjectError::CorruptObject && inflated(stored@) is None,
        },
{
    match zlib_decompress(stored) {
        Some(v) => Ok(v),
        None => Err(ObjectError::CorruptObject),
    }
}

} // verus!
