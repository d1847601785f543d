//! The gzip codec the compression option names. The calls go to an outside
//! library; what they return is named, and the tests hold the names to real
//! outputs.
use vstd::prelude::*;

use std::io::Read;
use std::io::Write;

use crate::errors::ErrorKind;

verus! {

/// The bytes gzip compression produces for an input. The encoder below is
/// deterministic: it writes a fixed header (zero timestamp, unknown
/// operating system) and compresses at the default level, so the output is a
/// function of the input alone.
pub uninterp spec fn gzip_of(s: Seq<u8>) -> Seq<u8>;

/// The bytes gzip decompression recovers from an input, or nothing when the
/// input is not a well-formed gzip stream.
pub uninterp spec fn gunzip_of(s: Seq<u8>) -> Option<Seq<u8>>;

/// Relies on flate2's `GzEncoder` over a vector sink at the default level:
/// the stream it writes depends on the input bytes alone. Compression into a
/// vector cannot fail: the encoder surfaces only the sink's write errors,
/// and a vector sink has none, so the call always succeeds.
#[verifier::external_body]
pub fn compress(src: &[u8]) -> (r: Result<Vec<u8>, ErrorKind>)
    ensures
        r is Ok,
        match r {
            Ok(v) => v@ == gzip_of(src@),
            Err(_) => true,
        },
{
    let mut encoder = flate2::write::GzEncoder::new(Vec::new(), flate2::Compression::default());
    if encoder.write_all(src).is_err() {
        return Err(ErrorKind::Protocol);
    }
    match encoder.finish() {
        Ok(v) => Ok(v),
        Err(_) => Err(ErrorKind::Protocol),
    }
}

/// Relies on flate2's `GzDecoder`: whether a stream decodes, and to what, is
/// a function of its bytes alone.
#[verifier::external_body]
pub fn uncompress(src: &[u8]) -> (r: Result<Vec<u8>, ErrorKind>)
    ensures
        match r {
            Ok(v) => gunzip_of(src@) == Some(v@),
            Err(e) => gunzip_of(src@) is None && e == ErrorKind::Protocol,
        },
{
    let mut decoder = flate2::read::GzDecoder::new(src);
    let mut buffer: Vec<u8> = Vec::new();
    match decoder.read_to_end(&mut buffer) {
        Ok(_) => Ok(buffer),
        Err(_) => Err(ErrorKind::Protocol),
    }
}

} // verus!
