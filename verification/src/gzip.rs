//! Gzip streams.

use std::io::{Read, Write};
use vstd::prelude::*;

verus! {

/// The gzip stream that `flate2::write::GzEncoder` makes of bytes at its default
/// level, or the text of its error.
pub uninterp spec fn gzipped(b: Seq<u8>) -> Result<Seq<u8>, Seq<char>>;

/// The bytes that `flate2::read::GzDecoder` reads from a gzip stream, or the
/// text of its error.
pub uninterp spec fn gunzipped(b: Seq<u8>) -> Result<Seq<u8>, Seq<char>>;

/// Whether bytes begin as a gzip stream does.
pub open spec fn looks_gzipped(b: Seq<u8>) -> bool {
    b.len() >= 2 && b[0] == 0x1f && b[1] == 0x8b
}

/// `flate2::write::GzEncoder` at the default level, over a vector: bytes as a
/// gzip stream, or the text of the error. It is named after the bytes alone.
/// The stream begins with the two bytes of every gzip stream, and
/// `flate2::read::GzDecoder` reads the bytes back from it.
#[verifier::external_body]
pub(crate) fn gzip(b: &Vec<u8>) -> (r: Result<Vec<u8>, String>)
    ensures
        match r {
            Ok(z) => gzipped(b@) == Ok::<Seq<u8>, Seq<char>>(z@) && looks_gzipped(z@) && gunzipped(z@) == Ok::<
                Seq<u8>,
                Seq<char>,
            >(b@),
            Err(e) => gzipped(b@) == Err::<Seq<u8>, Seq<char>>(e@),
        },
{
    let mut enc = flate2::write::GzEncoder::new(Vec::new(), flate2::Compression::default());
    enc.write_all(b).map_err(|e| e.to_string())?;
    enc.finish().map_err(|e| e.to_string())
}

/// `flate2::read::GzDecoder`, read to its end: the bytes that a gzip stream
/// holds, or the text of the error. It is named after the stream alone.
#[verifier::external_body]
pub(crate) fn gunzip(b: &Vec<u8>) -> (r: Result<Vec<u8>, String>)
    ensures
        match r {
            Ok(z) => gunzipped(b@) == Ok::<Seq<u8>, Seq<char>>(z@),
            Err(e) => gunzipped(b@) == Err::<Seq<u8>, Seq<char>>(e@),
        },
{
    let mut out = Vec::new();
    match flate2::read::GzDecoder::new(&b[..]).read_to_end(&mut out) {
        Ok(_) => Ok(out),
        Err(e) => Err(e.to_string()),
    }
}

} // verus!
