//! Structural core of a ZIP archive container: codecs for the
//! end-of-central-directory trailer records (including the zip64 extension
//! chain) and a streaming CRC-32 validating reader.

pub mod bytes;
pub mod crc32;
pub mod eocd;
pub mod error;
pub mod zip64;

pub use crc32::{ByteCursor, Crc32Reader};
pub use eocd::CentralDirectoryEnd;
pub use error::{ZipError, ZipResult};
pub use zip64::{Zip64CentralDirectoryEnd, Zip64CentralDirectoryEndLocator};
