use zipcore::{CentralDirectoryEnd, Zip64CentralDirectoryEnd, Zip64CentralDirectoryEndLocator, ZipError};

fn sample_record(comment: Vec<u8>) -> CentralDirectoryEnd {
    CentralDirectoryEnd {
        disk_number: 1,
        disk_with_central_directory: 2,
        number_of_files_on_this_disk: 3,
        number_of_files: 4,
        central_directory_size: 0x01020304,
        central_directory_offset: 0x0a0b0c0d,
        zip_file_comment: comment,
    }
}

fn encoded(record: &CentralDirectoryEnd) -> Vec<u8> {
    let mut out = Vec::new();
    record.write(&mut out).unwrap();
    out
}

fn assert_same_fields(a: &CentralDirectoryEnd, b: &CentralDirectoryEnd) {
    assert_eq!(a.disk_number, b.disk_number);
    assert_eq!(a.disk_with_central_directory, b.disk_with_central_directory);
    assert_eq!(a.number_of_files_on_this_disk, b.number_of_files_on_this_disk);
    assert_eq!(a.number_of_files, b.number_of_files);
    assert_eq!(a.central_directory_size, b.central_directory_size);
    assert_eq!(a.central_directory_offset, b.central_directory_offset);
    assert_eq!(a.zip_file_comment, b.zip_file_comment);
}

#[test]
fn eocd_write_produces_exact_layout() {
    let record = sample_record(b"hi".to_vec());
    let expected: Vec<u8> = vec![
        0x50, 0x4b, 0x05, 0x06, // magic
        0x01, 0x00, // disk_number
        0x02, 0x00, // disk_with_central_directory
        0x03, 0x00, // number_of_files_on_this_disk
        0x04, 0x00, // number_of_files
        0x04, 0x03, 0x02, 0x01, // central_directory_size
        0x0d, 0x0c, 0x0b, 0x0a, // central_directory_offset
        0x02, 0x00, // comment length
        b'h', b'i',
    ];
    assert_eq!(encoded(&record), expected);
}

#[test]
fn eocd_write_then_parse_round_trip() {
    for comment in [Vec::new(), b"a zip comment".to_vec(), vec![0x50; 300]] {
        let record = sample_record(comment);
        let bytes = encoded(&record);
        let parsed = CentralDirectoryEnd::parse(&bytes).unwrap();
        assert_same_fields(&parsed, &record);
    }
}

#[test]
fn eocd_parse_rejects_wrong_magic() {
    let mut bytes = encoded(&sample_record(Vec::new()));
    bytes[0] = 0x51;
    assert!(matches!(
        CentralDirectoryEnd::parse(&bytes).unwrap_err(),
        ZipError::InvalidArchive(_)
    ));
}

#[test]
fn eocd_parse_rejects_truncation() {
    let bytes = encoded(&sample_record(Vec::new()));
    // Ends inside the fixed fields.
    assert!(matches!(
        CentralDirectoryEnd::parse(&bytes[..20]).unwrap_err(),
        ZipError::UnexpectedEof
    ));
    // Ends inside the declared comment.
    let with_comment = encoded(&sample_record(b"comment".to_vec()));
    assert!(matches!(
        CentralDirectoryEnd::parse(&with_comment[..25]).unwrap_err(),
        ZipError::UnexpectedEof
    ));
}

#[test]
fn find_and_parse_zero_length_comment() {
    let record = sample_record(Vec::new());
    let mut file = b"some data before the trailer".to_vec();
    let start = file.len() as u64;
    record.write(&mut file).unwrap();
    let (found, pos) = CentralDirectoryEnd::find_and_parse(&file).unwrap();
    assert_eq!(pos, start);
    assert_same_fields(&found, &record);
}

#[test]
fn find_and_parse_maximum_length_comment() {
    let record = sample_record(vec![b'c'; 65535]);
    let mut file = b"prefix".to_vec();
    let start = file.len() as u64;
    record.write(&mut file).unwrap();
    let (found, pos) = CentralDirectoryEnd::find_and_parse(&file).unwrap();
    assert_eq!(pos, start);
    assert_same_fields(&found, &record);
}

#[test]
fn find_and_parse_skips_false_positive_in_comment() {
    // The comment holds a full fake record whose declared comment length (0)
    // is inconsistent with its distance from end-of-file, followed by two
    // trailing bytes.
    let fake = encoded(&CentralDirectoryEnd {
        disk_number: 9,
        disk_with_central_directory: 9,
        number_of_files_on_this_disk: 9,
        number_of_files: 9,
        central_directory_size: 9,
        central_directory_offset: 9,
        zip_file_comment: Vec::new(),
    });
    let mut comment = fake;
    comment.extend_from_slice(b"xx");
    let record = sample_record(comment);
    let file = encoded(&record);
    let (found, pos) = CentralDirectoryEnd::find_and_parse(&file).unwrap();
    assert_eq!(pos, 0);
    assert_same_fields(&found, &record);
}

#[test]
fn find_and_parse_fails_on_short_stream() {
    for n in 0..22 {
        let file = vec![0u8; n];
        assert!(matches!(
            CentralDirectoryEnd::find_and_parse(&file).unwrap_err(),
            ZipError::InvalidArchive(_)
        ));
    }
}

#[test]
fn find_and_parse_fails_without_a_verified_match() {
    let file = vec![0u8; 100];
    assert!(matches!(
        CentralDirectoryEnd::find_and_parse(&file).unwrap_err(),
        ZipError::InvalidArchive(_)
    ));
}

fn sample_zip64_record_bytes() -> Vec<u8> {
    let mut out = Vec::new();
    out.extend_from_slice(&[0x50, 0x4b, 0x06, 0x06]); // magic
    out.extend_from_slice(&44u64.to_le_bytes()); // record size, not interpreted
    out.extend_from_slice(&45u16.to_le_bytes()); // version_made_by
    out.extend_from_slice(&46u16.to_le_bytes()); // version_needed_to_extract
    out.extend_from_slice(&1u32.to_le_bytes()); // disk_number
    out.extend_from_slice(&2u32.to_le_bytes()); // disk_with_central_directory
    out.extend_from_slice(&77u64.to_le_bytes()); // number_of_files_on_this_disk
    out.extend_from_slice(&78u64.to_le_bytes()); // number_of_files
    out.extend_from_slice(&0x1_0000_0001u64.to_le_bytes()); // central_directory_size
    out.extend_from_slice(&0x2_0000_0002u64.to_le_bytes()); // central_directory_offset
    out
}

#[test]
fn zip64_find_and_parse_reports_prepended_bytes_as_archive_offset() {
    // Thirteen bytes of arbitrary prefix shift the record past the offset the
    // locator would have recorded; the scan must report that shift.
    let shift: usize = 13;
    let mut file = vec![0u8; shift];
    file.extend_from_slice(&sample_zip64_record_bytes());
    let (record, archive_offset) =
        Zip64CentralDirectoryEnd::find_and_parse(&file, 0, 40).unwrap();
    assert_eq!(archive_offset, shift as u64);
    assert_eq!(record.version_made_by, 45);
    assert_eq!(record.version_needed_to_extract, 46);
    assert_eq!(record.disk_number, 1);
    assert_eq!(record.disk_with_central_directory, 2);
    assert_eq!(record.number_of_files_on_this_disk, 77);
    assert_eq!(record.number_of_files, 78);
    assert_eq!(record.central_directory_size, 0x1_0000_0001);
    assert_eq!(record.central_directory_offset, 0x2_0000_0002);
}

#[test]
fn zip64_find_and_parse_at_exact_nominal_offset() {
    let mut file = vec![0u8; 8];
    file.extend_from_slice(&sample_zip64_record_bytes());
    let (_, archive_offset) = Zip64CentralDirectoryEnd::find_and_parse(&file, 8, 8).unwrap();
    assert_eq!(archive_offset, 0);
}

#[test]
fn zip64_find_and_parse_fails_when_magic_is_missing() {
    let file = vec![0u8; 64];
    assert!(matches!(
        Zip64CentralDirectoryEnd::find_and_parse(&file, 0, 4).unwrap_err(),
        ZipError::InvalidArchive(_)
    ));
}

#[test]
fn zip64_find_and_parse_fails_when_scan_runs_past_the_data() {
    let file = vec![0u8; 10];
    assert!(matches!(
        Zip64CentralDirectoryEnd::find_and_parse(&file, 0, 20).unwrap_err(),
        ZipError::UnexpectedEof
    ));
}

#[test]
fn zip64_locator_parse_reads_all_fields() {
    let mut bytes = Vec::new();
    bytes.extend_from_slice(&[0x50, 0x4b, 0x06, 0x07]); // magic
    bytes.extend_from_slice(&3u32.to_le_bytes()); // disk_with_central_directory
    bytes.extend_from_slice(&0x1234_5678_9abcu64.to_le_bytes()); // offset
    bytes.extend_from_slice(&5u32.to_le_bytes()); // number_of_disks
    let locator = Zip64CentralDirectoryEndLocator::parse(&bytes).unwrap();
    assert_eq!(locator.disk_with_central_directory, 3);
    assert_eq!(locator.end_of_central_directory_offset, 0x1234_5678_9abc);
    assert_eq!(locator.number_of_disks, 5);
}

#[test]
fn zip64_locator_parse_rejects_wrong_magic_and_truncation() {
    let mut bytes = vec![0x50, 0x4b, 0x06, 0x07];
    bytes.extend_from_slice(&[0u8; 16]);
    let mut wrong = bytes.clone();
    wrong[3] = 0x08;
    assert!(matches!(
        Zip64CentralDirectoryEndLocator::parse(&wrong).unwrap_err(),
        ZipError::InvalidArchive(_)
    ));
    assert!(matches!(
        Zip64CentralDirectoryEndLocator::parse(&bytes[..12]).unwrap_err(),
        ZipError::UnexpectedEof
    ));
}
