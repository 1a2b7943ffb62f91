//! End-of-central-directory record codec.
//!
//! The EOCD record anchors every ZIP archive: a 22-byte fixed part followed by
//! a comment of up to 65535 bytes whose length is declared in a 16-bit prefix.
//! `parse` and `write` convert between the record and its byte layout;
//! `find_and_parse` locates the record inside the bounded window at the tail
//! of an untrusted file, scanning backward and rejecting any occurrence of the
//! magic whose declared comment length is inconsistent with its distance from
//! end-of-file.

use vstd::prelude::*;

use crate::bytes::{
    le16_at, le16_bytes, le32_at, le32_bytes, lemma_le16_roundtrip, lemma_le32_roundtrip,
    push_u16_le, push_u32_le, read_u16_at, read_u32_at,
};
use crate::error::{ZipError, ZipResult};

verus! {

pub const CENTRAL_DIRECTORY_END_SIGNATURE: u32 = 0x06054b50;

/// Size of the record with a zero-length comment.
pub const EOCD_FIXED_SIZE: usize = 22;

/// Largest number of bytes a comment can hold.
pub const MAX_COMMENT_LENGTH: usize = 0xffff;

/// The mathematical content of an end-of-central-directory record.
pub ghost struct EocdFields {
    pub disk_number: u16,
    pub disk_with_central_directory: u16,
    pub number_of_files_on_this_disk: u16,
    pub number_of_files: u16,
    pub central_directory_size: u32,
    pub central_directory_offset: u32,
    pub zip_file_comment: Seq<u8>,
}

/// The end-of-central-directory record: the archive trailer summarizing where
/// the central directory lies and how many entries it has.
#[derive(Debug)]
pub struct CentralDirectoryEnd {
    pub disk_number: u16,
    pub disk_with_central_directory: u16,
    pub number_of_files_on_this_disk: u16,
    pub number_of_files: u16,
    pub central_directory_size: u32,
    pub central_directory_offset: u32,
    pub zip_file_comment: Vec<u8>,
}

impl View for CentralDirectoryEnd {
    type V = EocdFields;

    open spec fn view(&self) -> EocdFields {
        EocdFields {
            disk_number: self.disk_number,
            disk_with_central_directory: self.disk_with_central_directory,
            number_of_files_on_this_disk: self.number_of_files_on_this_disk,
            number_of_files: self.number_of_files,
            central_directory_size: self.central_directory_size,
            central_directory_offset: self.central_directory_offset,
            zip_file_comment: self.zip_file_comment@,
        }
    }
}

/// The byte layout of a record: magic, six fixed fields, the comment length
/// (the comment's actual length reduced mod 2^16, as the writer stores it),
/// then the raw comment bytes.
pub open spec fn eocd_encoding(v: EocdFields) -> Seq<u8> {
    le32_bytes(CENTRAL_DIRECTORY_END_SIGNATURE) + le16_bytes(v.disk_number) + le16_bytes(
        v.disk_with_central_directory,
    ) + le16_bytes(v.number_of_files_on_this_disk) + le16_bytes(v.number_of_files) + le32_bytes(
        v.central_directory_size,
    ) + le32_bytes(v.central_directory_offset) + le16_bytes(
        (v.zip_file_comment.len() % 0x1_0000) as u16,
    ) + v.zip_file_comment
}

/// Whether `s` starts with a complete record: the magic, the full fixed part,
/// and at least as many bytes after it as the declared comment length.
pub open spec fn eocd_parse_ok(s: Seq<u8>) -> bool {
    &&& s.len() >= 22
    &&& le32_at(s, 0) == CENTRAL_DIRECTORY_END_SIGNATURE
    &&& 22 + le16_at(s, 20) <= s.len()
}

/// The record stored at the front of `s`, meaningful when `eocd_parse_ok(s)`.
pub open spec fn eocd_decode(s: Seq<u8>) -> EocdFields {
    EocdFields {
        disk_number: le16_at(s, 4),
        disk_with_central_directory: le16_at(s, 6),
        number_of_files_on_this_disk: le16_at(s, 8),
        number_of_files: le16_at(s, 10),
        central_directory_size: le32_at(s, 12),
        central_directory_offset: le32_at(s, 16),
        zip_file_comment: s.subrange(22, 22 + le16_at(s, 20)),
    }
}

/// A verified match for the backward search: the magic lies at `pos` and the
/// declared comment length equals the number of bytes actually remaining
/// between the end of the fixed part and end-of-file. An occurrence of the
/// magic embedded inside a comment fails the second condition.
pub open spec fn eocd_candidate_ok(s: Seq<u8>, pos: int) -> bool {
    &&& le32_at(s, pos) == CENTRAL_DIRECTORY_END_SIGNATURE
    &&& pos + 22 + le16_at(s, pos + 20) == s.len()
}

/// Lowest position the backward search may visit: the window holds the fixed
/// part plus a comment of at most 65535 bytes, or the whole file if shorter.
pub open spec fn eocd_search_low(len: int) -> int {
    if len - (22 + 0xffff) > 0 {
        len - (22 + 0xffff)
    } else {
        0
    }
}

/// The position of the verified match found by scanning backward from `pos`
/// down to `lo`, if any.
pub open spec fn eocd_scan(s: Seq<u8>, pos: int, lo: int) -> Option<int>
    decreases pos - lo + 1,
{
    if pos < lo {
        None
    } else if eocd_candidate_ok(s, pos) {
        Some(pos)
    } else {
        eocd_scan(s, pos - 1, lo)
    }
}

impl CentralDirectoryEnd {
    /// Decodes the record at the front of `data`. All-or-nothing: a failure
    /// returns no partial record. Fails with an archive-structure error when
    /// the magic does not match, and with an end-of-input error when `data`
    /// ends inside a field or inside the declared comment.
    pub fn parse(data: &[u8]) -> (r: ZipResult<CentralDirectoryEnd>)
        ensures
            match r {
                Ok(cde) => eocd_parse_ok(data@) && cde@ == eocd_decode(data@),
                Err(e) => {
                    &&& !eocd_parse_ok(data@)
                    &&& if data@.len() >= 4 && le32_at(data@, 0)
                        != CENTRAL_DIRECTORY_END_SIGNATURE {
                        e matches ZipError::InvalidArchive(_)
                    } else {
                        e == ZipError::UnexpectedEof
                    }
                },
            },
    {
        if data.len() < 4 {
            return Err(ZipError::UnexpectedEof);
        }
        let magic = read_u32_at(data, 0);
        if magic != CENTRAL_DIRECTORY_END_SIGNATURE {
            return Err(ZipError::InvalidArchive("Invalid digital signature header"));
        }
        if data.len() < EOCD_FIXED_SIZE {
            return Err(ZipError::UnexpectedEof);
        }
        let comment_length = read_u16_at(data, 20) as usize;
        if data.len() - EOCD_FIXED_SIZE < comment_length {
            return Err(ZipError::UnexpectedEof);
        }
        let disk_number = read_u16_at(data, 4);
        let disk_with_central_directory = read_u16_at(data, 6);
        let number_of_files_on_this_disk = read_u16_at(data, 8);
        let number_of_files = read_u16_at(data, 10);
        let central_directory_size = read_u32_at(data, 12);
        let central_directory_offset = read_u32_at(data, 16);
        let mut zip_file_comment: Vec<u8> = Vec::new();
        let mut i: usize = 0;
        while i < comment_length
            invariant
                i <= comment_length,
                EOCD_FIXED_SIZE + comment_length <= data@.len(),
                data@.len() <= usize::MAX,
                zip_file_comment@ == data@.subrange(22, 22 + i as int),
            decreases comment_length - i,
        {
            zip_file_comment.push(data[EOCD_FIXED_SIZE + i]);
            i += 1;
            proof {
                assert(zip_file_comment@ =~= data@.subrange(22, 22 + i as int));
            }
        }
        Ok(
            CentralDirectoryEnd {
                disk_number,
                disk_with_central_directory,
                number_of_files_on_this_disk,
                number_of_files,
                central_directory_size,
                central_directory_offset,
                zip_file_comment,
            },
        )
    }

    /// Emits the record's byte layout: magic, the six fixed fields, the
    /// comment length derived from the comment's actual length, then the raw
    /// comment bytes, in that order with no padding. A comment longer than
    /// 65535 bytes has its length prefix truncated, which is the caller's
    /// responsibility to avoid.
    pub fn write(&self, writer: &mut Vec<u8>) -> (r: ZipResult<()>)
        ensures
            r is Ok,
            final(writer)@ == old(writer)@ + eocd_encoding(self@),
    {
        push_u32_le(writer, CENTRAL_DIRECTORY_END_SIGNATURE);
        push_u16_le(writer, self.disk_number);
        push_u16_le(writer, self.disk_with_central_directory);
        push_u16_le(writer, self.number_of_files_on_this_disk);
        push_u16_le(writer, self.number_of_files);
        push_u32_le(writer, self.central_directory_size);
        push_u32_le(writer, self.central_directory_offset);
        push_u16_le(writer, (self.zip_file_comment.len() % 0x1_0000) as u16);
        let mut i: usize = 0;
        let ghost base = writer@;
        while i < self.zip_file_comment.len()
            invariant
                i <= self.zip_file_comment@.len(),
                writer@ == base + self.zip_file_comment@.take(i as int),
            decreases self.zip_file_comment@.len() - i,
        {
            writer.push(self.zip_file_comment[i]);
            i += 1;
            proof {
                assert(writer@ =~= base + self.zip_file_comment@.take(i as int));
            }
        }
        proof {
            assert(self.zip_file_comment@.take(self.zip_file_comment@.len() as int)
                =~= self.zip_file_comment@);
            assert(final(writer)@ =~= old(writer)@ + eocd_encoding(self@));
        }
        Ok(())
    }

    /// Locates and decodes the record within the bounded window at the tail
    /// of `data`, scanning backward from the last position a zero-comment
    /// record could start. A match is accepted only when its declared comment
    /// length is consistent with its distance from end-of-file, so magic
    /// bytes embedded inside a comment are skipped. Returns the record and
    /// the position where it begins.
    pub fn find_and_parse(data: &[u8]) -> (r: ZipResult<(CentralDirectoryEnd, u64)>)
        ensures
            match r {
                Ok((cde, p)) => {
                    &&& data@.len() >= 22
                    &&& eocd_scan(data@, data@.len() - 22, eocd_search_low(data@.len() as int))
                        == Some(p as int)
                    &&& cde@ == eocd_decode(data@.subrange(p as int, data@.len() as int))
                },
                Err(e) => {
                    &&& e matches ZipError::InvalidArchive(_)
                    &&& data@.len() >= 22 ==> eocd_scan(
                        data@,
                        data@.len() - 22,
                        eocd_search_low(data@.len() as int),
                    ) is None
                },
            },
    {
        if data.len() < EOCD_FIXED_SIZE {
            return Err(ZipError::InvalidArchive("Invalid zip header"));
        }
        let len = data.len();
        let lo = if len - EOCD_FIXED_SIZE > MAX_COMMENT_LENGTH {
            len - EOCD_FIXED_SIZE - MAX_COMMENT_LENGTH
        } else {
            0
        };
        let mut pos = len - EOCD_FIXED_SIZE;
        loop
            invariant
                lo as int == eocd_search_low(len as int),
                lo <= pos <= len - 22,
                len == data@.len(),
                len <= usize::MAX,
                eocd_scan(data@, len - 22, lo as int) == eocd_scan(data@, pos as int, lo as int),
            decreases pos,
        {
            let magic = read_u32_at(data, pos);
            let declared = read_u16_at(data, pos + 20) as usize;
            if magic == CENTRAL_DIRECTORY_END_SIGNATURE && declared == len - pos
                - EOCD_FIXED_SIZE {
                proof {
                    assert(eocd_candidate_ok(data@, pos as int));
                    let sub = data@.subrange(pos as int, len as int);
                    assert(le32_at(sub, 0) == le32_at(data@, pos as int));
                    assert(le16_at(sub, 20) == le16_at(data@, pos as int + 20));
                    assert(eocd_parse_ok(sub));
                    assert(eocd_scan(data@, pos as int, lo as int) == Some(pos as int));
                }
                match CentralDirectoryEnd::parse(&data[pos..len]) {
                    Ok(cde) => {
                        return Ok((cde, pos as u64));
                    },
                    Err(e) => {
                        proof {
                            assert(false);
                        }
                        return Err(e);
                    },
                }
            }
            proof {
                assert(!eocd_candidate_ok(data@, pos as int));
            }
            if pos == lo {
                proof {
                    reveal_with_fuel(eocd_scan, 2);
                    assert(eocd_scan(data@, lo as int, lo as int) is None);
                }
                return Err(ZipError::InvalidArchive("Could not find central directory end"));
            }
            pos = pos - 1;
        }
    }
}

/// What the backward search finds: the returned position is the highest
/// verified match in the window, every occurrence of the magic above it fails
/// the comment-length consistency check, and when nothing is returned no
/// verified match exists anywhere in the window.
pub proof fn lemma_eocd_scan_characterizes(s: Seq<u8>, pos: int, lo: int)
    requires
        lo <= pos,
    ensures
        match eocd_scan(s, pos, lo) {
            Some(p) => {
                &&& lo <= p <= pos
                &&& eocd_candidate_ok(s, p)
                &&& forall|q: int| p < q <= pos ==> !eocd_candidate_ok(s, q)
            },
            None => forall|q: int| lo <= q <= pos ==> !eocd_candidate_ok(s, q),
        },
    decreases pos - lo + 1,
{
    if eocd_candidate_ok(s, pos) {
    } else if pos - 1 >= lo {
        lemma_eocd_scan_characterizes(s, pos - 1, lo);
    }
}

/// If the window holds a verified match, the backward search finds one.
pub proof fn lemma_eocd_scan_finds(s: Seq<u8>, pos: int, lo: int, q: int)
    requires
        lo <= q <= pos,
        eocd_candidate_ok(s, q),
    ensures
        eocd_scan(s, pos, lo) is Some,
{
    lemma_eocd_scan_characterizes(s, pos, lo);
    if eocd_scan(s, pos, lo) is None {
        assert(!eocd_candidate_ok(s, q));
    }
}

/// Writing a record and then parsing the bytes reproduces every field
/// exactly, for any comment of length at most 65535.
pub proof fn lemma_eocd_round_trip(v: EocdFields)
    requires
        v.zip_file_comment.len() <= 0xffff,
    ensures
        eocd_parse_ok(eocd_encoding(v)),
        eocd_decode(eocd_encoding(v)) == v,
{
    let enc = eocd_encoding(v);
    let clen = v.zip_file_comment.len() as u16;
    lemma_le32_roundtrip(CENTRAL_DIRECTORY_END_SIGNATURE);
    lemma_le16_roundtrip(v.disk_number);
    lemma_le16_roundtrip(v.disk_with_central_directory);
    lemma_le16_roundtrip(v.number_of_files_on_this_disk);
    lemma_le16_roundtrip(v.number_of_files);
    lemma_le32_roundtrip(v.central_directory_size);
    lemma_le32_roundtrip(v.central_directory_offset);
    lemma_le16_roundtrip(clen);
    assert(enc.len() == 22 + v.zip_file_comment.len());
    assert(le32_at(enc, 0) == CENTRAL_DIRECTORY_END_SIGNATURE) by {
        assert(enc[0] == le32_bytes(CENTRAL_DIRECTORY_END_SIGNATURE)[0]);
        assert(enc[1] == le32_bytes(CENTRAL_DIRECTORY_END_SIGNATURE)[1]);
        assert(enc[2] == le32_bytes(CENTRAL_DIRECTORY_END_SIGNATURE)[2]);
        assert(enc[3] == le32_bytes(CENTRAL_DIRECTORY_END_SIGNATURE)[3]);
    }
    assert(le16_at(enc, 4) == v.disk_number) by {
        assert(enc[4] == le16_bytes(v.disk_number)[0]);
        assert(enc[5] == le16_bytes(v.disk_number)[1]);
    }
    assert(le16_at(enc, 6) == v.disk_with_central_directory) by {
        assert(enc[6] == le16_bytes(v.disk_with_central_directory)[0]);
        assert(enc[7] == le16_bytes(v.disk_with_central_directory)[1]);
    }
    assert(le16_at(enc, 8) == v.number_of_files_on_this_disk) by {
        assert(enc[8] == le16_bytes(v.number_of_files_on_this_disk)[0]);
        assert(enc[9] == le16_bytes(v.number_of_files_on_this_disk)[1]);
    }
    assert(le16_at(enc, 10) == v.number_of_files) by {
        assert(enc[10] == le16_bytes(v.number_of_files)[0]);
        assert(enc[11] == le16_bytes(v.number_of_files)[1]);
    }
    assert(le32_at(enc, 12) == v.central_directory_size) by {
        assert(enc[12] == le32_bytes(v.central_directory_size)[0]);
        assert(enc[13] == le32_bytes(v.central_directory_size)[1]);
        assert(enc[14] == le32_bytes(v.central_directory_size)[2]);
        assert(enc[15] == le32_bytes(v.central_directory_size)[3]);
    }
    assert(le32_at(enc, 16) == v.central_directory_offset) by {
        assert(enc[16] == le32_bytes(v.central_directory_offset)[0]);
        assert(enc[17] == le32_bytes(v.central_directory_offset)[1]);
        assert(enc[18] == le32_bytes(v.central_directory_offset)[2]);
        assert(enc[19] == le32_bytes(v.central_directory_offset)[3]);
    }
    assert(le16_at(enc, 20) == clen) by {
        assert(enc[20] == le16_bytes(clen)[0]);
        assert(enc[21] == le16_bytes(clen)[1]);
    }
    assert(enc.subrange(22, 22 + le16_at(enc, 20)) =~= v.zip_file_comment);
}

/// A record written at the very end of any file is a verified match for the
/// backward search at the position where it begins.
pub proof fn lemma_eocd_encoding_is_candidate(prefix: Seq<u8>, v: EocdFields)
    requires
        v.zip_file_comment.len() <= 0xffff,
    ensures
        eocd_candidate_ok(prefix + eocd_encoding(v), prefix.len() as int),
{
    let s = prefix + eocd_encoding(v);
    let p = prefix.len() as int;
    let enc = eocd_encoding(v);
    lemma_eocd_round_trip(v);
    assert(le32_at(s, p) == le32_at(enc, 0)) by {
        assert(s[p] == enc[0]);
        assert(s[p + 1] == enc[1]);
        assert(s[p + 2] == enc[2]);
        assert(s[p + 3] == enc[3]);
    }
    assert(le16_at(s, p + 20) == le16_at(enc, 20)) by {
        assert(s[p + 20] == enc[20]);
        assert(s[p + 21] == enc[21]);
    }
}

/// Any file that ends with a well-formed record is one in which the backward
/// search succeeds, whatever bytes precede the record.
pub proof fn lemma_find_succeeds_at_tail(prefix: Seq<u8>, v: EocdFields)
    requires
        v.zip_file_comment.len() <= 0xffff,
    ensures
        ({
            let s = prefix + eocd_encoding(v);
            eocd_scan(s, s.len() - 22, eocd_search_low(s.len() as int)) is Some
        }),
{
    let s = prefix + eocd_encoding(v);
    let p = prefix.len() as int;
    lemma_eocd_encoding_is_candidate(prefix, v);
    assert(s.len() == p + 22 + v.zip_file_comment.len());
    assert(eocd_search_low(s.len() as int) <= p <= s.len() - 22);
    lemma_eocd_scan_finds(s, s.len() - 22, eocd_search_low(s.len() as int), p);
}

} // verus!
