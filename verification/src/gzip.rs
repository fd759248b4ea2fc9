//! Compression with `flate2`.

use std::io::{Read, Write};

use flate2::read::GzDecoder;
use flate2::write::GzEncoder;
use flate2::Compression;
use vstd::prelude::*;

verus! {

/// The gzip stream that `flate2` makes of `data` at its default level.
pub uninterp spec fn gzipped(data: Seq<u8>) -> Seq<u8>;

/// What `flate2` unpacks from the gzip stream `data`, or the words of its error.
pub uninterp spec fn gunzipped(data: Seq<u8>) -> Result<Seq<u8>, Seq<char>>;

/// `flate2::write::GzEncoder` over a vector, at the default level: the header
/// carries no time, no name and no operating system, so the stream depends on
/// the data alone.
///
/// Claimed beyond that: it succeeds, since its only errors are those of the writer
/// and a vector has none; the stream starts with the first byte of the gzip magic
/// number, and unpacks to the data it was made of.
#[verifier::external_body]
pub(crate) fn gzip(data: &[u8]) -> (r: Result<Vec<u8>, String>)
    ensures
        r is Ok,
        r->Ok_0@ == gzipped(data@),
        (gunzipped(r->Ok_0@) == Ok::<Seq<u8>, Seq<char>>(data@)),
        r->Ok_0@.len() > 0,
        r->Ok_0@[0] == 0x1f,
{
    let mut encoder = GzEncoder::new(Vec::new(), Compression::default());
    encoder.write_all(data).map_err(|e| e.to_string())?;
    encoder.finish().map_err(|e| e.to_string())
}

/// `flate2::read::GzDecoder` read to its end. The result depends on the data alone.
#[verifier::external_body]
pub(crate) fn gunzip(data: &[u8]) -> (r: Result<Vec<u8>, String>)
    ensures
        match r {
            Ok(bytes) => gunzipped(data@) == Ok::<Seq<u8>, Seq<char>>(bytes@),
            Err(e) => gunzipped(data@) == Err::<Seq<u8>, Seq<char>>(e@),
        },
{
    let mut decoder = GzDecoder::new(data);
    let mut bytes = Vec::new();
    decoder.read_to_end(&mut bytes).map_err(|e| e.to_string())?;
    Ok(bytes)
}

} // verus!
