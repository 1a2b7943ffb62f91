//! Zip64 extension-chain codecs.
//!
//! When the 32-bit fields of the end-of-central-directory record are
//! saturated, a fixed 20-byte locator just before it points at a 64-bit
//! extension record. The offset the locator records can be wrong by a constant
//! when bytes were prepended to the file (a self-extracting stub), so the
//! extension record is found by a bounded forward scan from the nominal
//! offset; the distance between where the magic is actually found and the
//! nominal offset is the archive offset correction, to be added to every other
//! absolute offset in the archive.

use vstd::prelude::*;

use crate::bytes::{le16_at, le32_at, le64_at, read_u16_at, read_u32_at, read_u64_at};
use crate::error::{ZipError, ZipResult};

verus! {

pub const ZIP64_CENTRAL_DIRECTORY_END_SIGNATURE: u32 = 0x06064b50;

pub const ZIP64_CENTRAL_DIRECTORY_END_LOCATOR_SIGNATURE: u32 = 0x07064b50;

/// The mathematical content of a zip64 locator record.
pub ghost struct Zip64LocatorFields {
    pub disk_with_central_directory: u32,
    pub end_of_central_directory_offset: u64,
    pub number_of_disks: u32,
}

/// The small fixed record that points at the zip64 end-of-central-directory
/// record. Its position is always directly before the plain
/// end-of-central-directory record, so it is parsed at a caller-computed
/// offset rather than searched for.
#[derive(Debug)]
pub struct Zip64CentralDirectoryEndLocator {
    pub disk_with_central_directory: u32,
    pub end_of_central_directory_offset: u64,
    pub number_of_disks: u32,
}

impl View for Zip64CentralDirectoryEndLocator {
    type V = Zip64LocatorFields;

    open spec fn view(&self) -> Zip64LocatorFields {
        Zip64LocatorFields {
            disk_with_central_directory: self.disk_with_central_directory,
            end_of_central_directory_offset: self.end_of_central_directory_offset,
            number_of_disks: self.number_of_disks,
        }
    }
}

/// Whether `s` starts with a complete 20-byte locator record.
pub open spec fn locator_parse_ok(s: Seq<u8>) -> bool {
    &&& s.len() >= 20
    &&& le32_at(s, 0) == ZIP64_CENTRAL_DIRECTORY_END_LOCATOR_SIGNATURE
}

/// The locator stored at the front of `s`, meaningful when
/// `locator_parse_ok(s)`.
pub open spec fn locator_decode(s: Seq<u8>) -> Zip64LocatorFields {
    Zip64LocatorFields {
        disk_with_central_directory: le32_at(s, 4),
        end_of_central_directory_offset: le64_at(s, 8),
        number_of_disks: le32_at(s, 16),
    }
}

impl Zip64CentralDirectoryEndLocator {
    /// Decodes the locator at the front of `data`. Fails with an
    /// archive-structure error when the magic does not match, and with an
    /// end-of-input error when `data` ends inside a field.
    pub fn parse(data: &[u8]) -> (r: ZipResult<Zip64CentralDirectoryEndLocator>)
        ensures
            match r {
                Ok(loc) => locator_parse_ok(data@) && loc@ == locator_decode(data@),
                Err(e) => {
                    &&& !locator_parse_ok(data@)
                    &&& if data@.len() >= 4 && le32_at(data@, 0)
                        != ZIP64_CENTRAL_DIRECTORY_END_LOCATOR_SIGNATURE {
                        e matches ZipError::InvalidArchive(_)
                    } else {
                        e == ZipError::UnexpectedEof
                    }
                },
            },
    {
        if data.len() < 4 {
            return Err(ZipError::UnexpectedEof);
        }
        let magic = read_u32_at(data, 0);
        if magic != ZIP64_CENTRAL_DIRECTORY_END_LOCATOR_SIGNATURE {
            return Err(ZipError::InvalidArchive("Invalid zip64 locator digital signature header"));
        }
        if data.len() < 20 {
            return Err(ZipError::UnexpectedEof);
        }
        let disk_with_central_directory = read_u32_at(data, 4);
        let end_of_central_directory_offset = read_u64_at(data, 8);
        let number_of_disks = read_u32_at(data, 16);
        Ok(
            Zip64CentralDirectoryEndLocator {
                disk_with_central_directory,
                end_of_central_directory_offset,
                number_of_disks,
            },
        )
    }
}

/// The mathematical content of a zip64 end-of-central-directory record.
pub ghost struct Zip64EocdFields {
    pub version_made_by: u16,
    pub version_needed_to_extract: u16,
    pub disk_number: u32,
    pub disk_with_central_directory: u32,
    pub number_of_files_on_this_disk: u64,
    pub number_of_files: u64,
    pub central_directory_size: u64,
    pub central_directory_offset: u64,
}

/// The 64-bit extension of the end-of-central-directory record. The
/// variable-length extensible data sector that may follow it in the file is
/// not modeled.
#[derive(Debug)]
pub struct Zip64CentralDirectoryEnd {
    pub version_made_by: u16,
    pub version_needed_to_extract: u16,
    pub disk_number: u32,
    pub disk_with_central_directory: u32,
    pub number_of_files_on_this_disk: u64,
    pub number_of_files: u64,
    pub central_directory_size: u64,
    pub central_directory_offset: u64,
}

impl View for Zip64CentralDirectoryEnd {
    type V = Zip64EocdFields;

    open spec fn view(&self) -> Zip64EocdFields {
        Zip64EocdFields {
            version_made_by: self.version_made_by,
            version_needed_to_extract: self.version_needed_to_extract,
            disk_number: self.disk_number,
            disk_with_central_directory: self.disk_with_central_directory,
            number_of_files_on_this_disk: self.number_of_files_on_this_disk,
            number_of_files: self.number_of_files,
            central_directory_size: self.central_directory_size,
            central_directory_offset: self.central_directory_offset,
        }
    }
}

/// The record whose 56-byte fixed part starts at offset `p` of `s`: after the
/// magic come an 8-byte record size (read but not interpreted, since the
/// extensible data sector it describes is not decoded) and the eight fixed
/// fields in declared order.
pub open spec fn zip64_fields_at(s: Seq<u8>, p: int) -> Zip64EocdFields {
    Zip64EocdFields {
        version_made_by: le16_at(s, p + 12),
        version_needed_to_extract: le16_at(s, p + 14),
        disk_number: le32_at(s, p + 16),
        disk_with_central_directory: le32_at(s, p + 20),
        number_of_files_on_this_disk: le64_at(s, p + 24),
        number_of_files: le64_at(s, p + 32),
        central_directory_size: le64_at(s, p + 40),
        central_directory_offset: le64_at(s, p + 48),
    }
}

/// What a forward scan for the zip64 magic meets first: the magic at some
/// position, the end of the data in the middle of a probe, or the search
/// bound without a match.
pub ghost enum Zip64Scan {
    Found(int),
    Truncated(int),
    Missing,
}

/// The outcome of probing each position from `pos` up to `ub` in turn.
pub open spec fn zip64_scan(s: Seq<u8>, pos: int, ub: int) -> Zip64Scan
    decreases ub - pos + 1,
{
    if pos > ub {
        Zip64Scan::Missing
    } else if pos + 4 > s.len() {
        Zip64Scan::Truncated(pos)
    } else if le32_at(s, pos) == ZIP64_CENTRAL_DIRECTORY_END_SIGNATURE {
        Zip64Scan::Found(pos)
    } else {
        zip64_scan(s, pos + 1, ub)
    }
}

impl Zip64CentralDirectoryEnd {
    /// Locates and decodes the zip64 end-of-central-directory record by a
    /// forward scan. The offset recorded in the locator is not trusted
    /// literally: the scan probes every position from `nominal_offset` up to
    /// `search_upper_bound` for the magic, and on the first match also
    /// returns the archive offset correction, the distance between the actual
    /// and the nominal position, which callers must add to every other
    /// absolute offset recorded in the archive.
    pub fn find_and_parse(data: &[u8], nominal_offset: u64, search_upper_bound: u64) -> (r:
        ZipResult<(Zip64CentralDirectoryEnd, u64)>)
        ensures
            match zip64_scan(data@, nominal_offset as int, search_upper_bound as int) {
                Zip64Scan::Found(p) => if p + 56 <= data@.len() {
                    match r {
                        Ok((rec, archive_offset)) => {
                            &&& rec@ == zip64_fields_at(data@, p)
                            &&& archive_offset == p - nominal_offset
                        },
                        Err(_) => false,
                    }
                } else {
                    r == Err::<(Zip64CentralDirectoryEnd, u64), ZipError>(ZipError::UnexpectedEof)
                },
                Zip64Scan::Truncated(_) => r == Err::<(Zip64CentralDirectoryEnd, u64), ZipError>(
                    ZipError::UnexpectedEof,
                ),
                Zip64Scan::Missing => match r {
                    Ok(_) => false,
                    Err(e) => e matches ZipError::InvalidArchive(_),
                },
            },
    {
        let dlen = data.len();
        let mut pos = nominal_offset;
        while pos <= search_upper_bound
            invariant
                nominal_offset <= pos,
                dlen == data@.len(),
                dlen <= usize::MAX,
                zip64_scan(data@, nominal_offset as int, search_upper_bound as int) == zip64_scan(
                    data@,
                    pos as int,
                    search_upper_bound as int,
                ),
            decreases search_upper_bound + 1 - pos,
        {
            if data.len() < 4 || pos > (data.len() - 4) as u64 {
                return Err(ZipError::UnexpectedEof);
            }
            let upos = pos as usize;
            if read_u32_at(data, upos) == ZIP64_CENTRAL_DIRECTORY_END_SIGNATURE {
                let archive_offset = pos - nominal_offset;
                if data.len() - upos < 56 {
                    return Err(ZipError::UnexpectedEof);
                }
                let version_made_by = read_u16_at(data, upos + 12);
                let version_needed_to_extract = read_u16_at(data, upos + 14);
                let disk_number = read_u32_at(data, upos + 16);
                let disk_with_central_directory = read_u32_at(data, upos + 20);
                let number_of_files_on_this_disk = read_u64_at(data, upos + 24);
                let number_of_files = read_u64_at(data, upos + 32);
                let central_directory_size = read_u64_at(data, upos + 40);
                let central_directory_offset = read_u64_at(data, upos + 48);
                return Ok(
                    (
                        Zip64CentralDirectoryEnd {
                            version_made_by,
                            version_needed_to_extract,
                            disk_number,
                            disk_with_central_directory,
                            number_of_files_on_this_disk,
                            number_of_files,
                            central_directory_size,
                            central_directory_offset,
                        },
                        archive_offset,
                    ),
                );
            }
            pos = pos + 1;
        }
        Err(ZipError::InvalidArchive("Could not find ZIP64 central directory end"))
    }
}

/// What the forward scan finds: the returned position carries the first
/// occurrence of the magic at or after the nominal offset, so a locator whose
/// recorded offset is short by exactly the number of prepended bytes yields
/// that number as the archive offset correction.
pub proof fn lemma_zip64_scan_characterizes(s: Seq<u8>, pos: int, ub: int)
    requires
        pos <= ub,
    ensures
        match zip64_scan(s, pos, ub) {
            Zip64Scan::Found(p) => {
                &&& pos <= p <= ub
                &&& p + 4 <= s.len()
                &&& le32_at(s, p) == ZIP64_CENTRAL_DIRECTORY_END_SIGNATURE
                &&& forall|q: int|
                    pos <= q < p ==> le32_at(s, q) != ZIP64_CENTRAL_DIRECTORY_END_SIGNATURE
            },
            Zip64Scan::Truncated(t) => {
                &&& pos <= t <= ub
                &&& t + 4 > s.len()
                &&& forall|q: int|
                    pos <= q < t ==> le32_at(s, q) != ZIP64_CENTRAL_DIRECTORY_END_SIGNATURE
            },
            Zip64Scan::Missing => forall|q: int|
                pos <= q <= ub ==> le32_at(s, q) != ZIP64_CENTRAL_DIRECTORY_END_SIGNATURE,
        },
    decreases ub - pos + 1,
{
    if pos + 4 > s.len() {
    } else if le32_at(s, pos) == ZIP64_CENTRAL_DIRECTORY_END_SIGNATURE {
    } else if pos + 1 <= ub {
        lemma_zip64_scan_characterizes(s, pos + 1, ub);
    }
}

/// Archive offset correction: when the first occurrence of the zip64 magic at
/// or after the nominal offset lies exactly `n` bytes past it — as happens
/// when `n` bytes of arbitrary data were prepended to the file — the scan
/// finds it there, and the distance reported to callers is `n`.
pub proof fn lemma_archive_offset_correction(s: Seq<u8>, nominal: int, ub: int, n: int)
    requires
        0 <= n,
        nominal + n <= ub,
        nominal + n + 4 <= s.len(),
        le32_at(s, nominal + n) == ZIP64_CENTRAL_DIRECTORY_END_SIGNATURE,
        forall|q: int|
            nominal <= q < nominal + n ==> le32_at(s, q) != ZIP64_CENTRAL_DIRECTORY_END_SIGNATURE,
    ensures
        zip64_scan(s, nominal, ub) == Zip64Scan::Found(nominal + n),
    decreases n,
{
    if n > 0 {
        lemma_archive_offset_correction(s, nominal + 1, ub, n - 1);
    }
}

} // verus!
