//! The bytes an archive holds.

use vstd::prelude::*;
use crate::error::{ErrorKind, RotatorError};
use flate2::write::GzEncoder;
use flate2::Compression;
use std::io::Write;

verus! {

/// The gzip stream that flate2 writes for `data` at the default level.
pub uninterp spec fn gzip_of(data: Seq<u8>) -> Seq<u8>;

/// Relies on flate2's `GzEncoder` (default level, default header) writing
/// into memory: the whole gzip stream of `data`. Writes into a `Vec` do not
/// fail, and the deflate backend fails only on a bad parameter or a failed
/// output, so the encoder reports no error here.
#[verifier::external_body]
fn gzip(data: &Vec<u8>) -> (r: Option<Vec<u8>>)
    ensures
        r is Some,
        r matches Some(v) ==> v@ == gzip_of(data@),
{
    let mut e = GzEncoder::new(Vec::new(), Compression::default());
    match e.write_all(data.as_slice()) {
        Ok(()) => {},
        Err(_) => return None,
    }
    e.finish().ok()
}

/// The bytes of the archive made from the live file's contents `live`:
/// the gzip stream of them when `compress` holds, else the bytes themselves.
pub fn archive_contents(compress: bool, live: &Vec<u8>) -> (r: Result<Vec<u8>, RotatorError>)
    ensures
        !compress ==> (r matches Ok(v) && v@ == live@),
        compress ==> (r matches Ok(v) && v@ == gzip_of(live@)),
{
    if compress {
        match gzip(live) {
            Some(v) => Ok(v),
            None => Err(RotatorError::new(ErrorKind::Compression, "gzip compression failed")),
        }
    } else {
        Ok(live.clone())
    }
}

} // verus!
