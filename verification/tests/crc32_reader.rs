use zipcore::{ByteCursor, Crc32Reader, ZipError};

fn reader_over(data: &[u8], checksum: u32) -> Crc32Reader<ByteCursor> {
    Crc32Reader::new(ByteCursor::new(data.to_vec()), checksum)
}

#[test]
fn test_empty_reader() {
    let data: &[u8] = b"";

    let mut reader = reader_over(data, 0);
    assert_eq!(reader.read(1).unwrap().len(), 0);

    let mut reader = reader_over(data, 1);
    assert!(matches!(reader.read(1).unwrap_err(), ZipError::ChecksumMismatch));
}

#[test]
fn test_byte_by_byte() {
    let data: &[u8] = b"1234";

    let mut reader = reader_over(data, 0x9be3e0a3);
    assert_eq!(reader.read(1).unwrap().len(), 1);
    assert_eq!(reader.read(1).unwrap().len(), 1);
    assert_eq!(reader.read(1).unwrap().len(), 1);
    assert_eq!(reader.read(1).unwrap().len(), 1);
    assert_eq!(reader.read(1).unwrap().len(), 0);
    // Can keep reading 0 bytes after the end
    assert_eq!(reader.read(1).unwrap().len(), 0);
}

#[test]
fn test_zero_read() {
    let data: &[u8] = b"1234";

    let mut reader = reader_over(data, 0x9be3e0a3);
    assert_eq!(reader.read(0).unwrap().len(), 0);
    assert_eq!(reader.read(5).unwrap().len(), 4);
}

#[test]
fn correct_checksum_yields_bytes_then_clean_eof() {
    let data: &[u8] = b"1234";

    let mut reader = reader_over(data, 0x9be3e0a3);
    let first = reader.read(4).unwrap();
    assert_eq!(first, b"1234".to_vec());
    assert_eq!(reader.read(4).unwrap().len(), 0);
    assert_eq!(reader.read(4).unwrap().len(), 0);
}

#[test]
fn wrong_checksum_fails_only_at_end_of_stream() {
    let data: &[u8] = b"1234";

    let mut reader = reader_over(data, 0xdead_beef);
    // The bytes themselves are produced without validation.
    assert_eq!(reader.read(4).unwrap(), b"1234".to_vec());
    // The first nonempty request past the end validates and fails.
    assert!(matches!(reader.read(1).unwrap_err(), ZipError::ChecksumMismatch));
}

#[test]
fn zero_length_requests_never_consume_or_validate() {
    let data: &[u8] = b"1234";

    // Interleave zero-length requests with nonempty ones; the content read
    // and the final outcome must be exactly as without them.
    let mut reader = reader_over(data, 0x9be3e0a3);
    assert_eq!(reader.read(0).unwrap().len(), 0);
    assert_eq!(reader.read(2).unwrap(), b"12".to_vec());
    assert_eq!(reader.read(0).unwrap().len(), 0);
    assert_eq!(reader.read(2).unwrap(), b"34".to_vec());
    // Even with the stream exhausted and a wrong running state impossible to
    // observe, a zero-length request does not trigger validation.
    let mut bad = reader_over(data, 1);
    assert_eq!(bad.read(2).unwrap(), b"12".to_vec());
    assert_eq!(bad.read(0).unwrap().len(), 0);
    assert_eq!(bad.read(2).unwrap(), b"34".to_vec());
    assert_eq!(bad.read(0).unwrap().len(), 0);
    assert!(matches!(bad.read(1).unwrap_err(), ZipError::ChecksumMismatch));
}

#[test]
fn into_inner_releases_the_source() {
    let data: &[u8] = b"abc";

    let mut reader = reader_over(data, 0);
    let _ = reader.read(2).unwrap();
    let mut inner = reader.into_inner();
    // The released source continues from where the reader left it.
    assert_eq!(inner.read_up_to(8), b"c".to_vec());
}
