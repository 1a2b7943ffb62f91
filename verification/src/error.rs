//! Error kinds raised by the archive-trailer codecs and the validating reader.

use vstd::prelude::*;

verus! {

/// The failure modes of this crate, kept apart by fault domain:
/// `InvalidArchive` reports malformed or missing structure in the bytes
/// themselves, `UnexpectedEof` reports a byte source that ended in the middle
/// of a field, and `ChecksumMismatch` reports a CRC-32 validation failure at
/// end-of-stream.
#[derive(Debug)]
pub enum ZipError {
    InvalidArchive(&'static str),
    UnexpectedEof,
    ChecksumMismatch,
}

pub type ZipResult<T> = Result<T, ZipError>;

} // verus!
