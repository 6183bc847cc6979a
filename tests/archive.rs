use zipstream::archive::{ArchiveSession, EncodeError};
use zipstream::layout::{data_descriptor_bytes, end_record_bytes, local_header_bytes};

#[test]
fn local_header_layout() {
    let h = local_header_bytes(b"ab");
    assert_eq!(
        h,
        vec![
            0x50, 0x4b, 0x03, 0x04, 20, 0, 0x08, 0x08, 0, 0, 0, 0, 0x21, 0, 0, 0, 0, 0, 0, 0, 0,
            0, 0, 0, 0, 0, 2, 0, 0, 0, b'a', b'b'
        ]
    );
}

#[test]
fn data_descriptor_layout() {
    let d = data_descriptor_bytes(0x11223344, 0x0102);
    assert_eq!(d, vec![0x50, 0x4b, 0x07, 0x08, 0x44, 0x33, 0x22, 0x11, 2, 1, 0, 0, 2, 1, 0, 0]);
}

#[test]
fn end_record_layout() {
    let e = end_record_bytes(3, 0x100, 0x20304);
    assert_eq!(e, vec![0x50, 0x4b, 0x05, 0x06, 0, 0, 0, 0, 3, 0, 3, 0, 0, 1, 0, 0, 4, 3, 2, 0, 0, 0]);
}

#[test]
fn chunked_crc_equals_whole_crc() {
    let mut s = ArchiveSession::new();
    s.begin_entry(b"n").unwrap();
    s.write(b"1234").unwrap();
    s.write(b"").unwrap();
    s.write(b"56789").unwrap();
    let d = s.close_entry().unwrap();
    assert_eq!(&d[4..8], &0xCBF43926u32.to_le_bytes());
    assert_eq!(&d[8..12], &9u32.to_le_bytes());
    assert_eq!(s.entry_count(), 1);
    assert!(!s.is_entry_open());
}

#[test]
fn directory_offsets_follow_sections() {
    let mut s = ArchiveSession::new();
    let mut out = Vec::new();
    out.extend(s.begin_entry(b"a").unwrap());
    s.write(b"xyz").unwrap();
    out.extend_from_slice(b"xyz");
    out.extend(s.close_entry().unwrap());
    let second = out.len();
    out.extend(s.begin_entry(b"b").unwrap());
    out.extend(s.close_entry().unwrap());
    let dir_at = out.len();
    let tail = s.finish().unwrap();
    out.extend(tail);
    assert_eq!(second, 31 + 3 + 16);
    // second record: 46 + 1 bytes after the first one
    let rec = dir_at + 47;
    assert_eq!(&out[rec + 42..rec + 46], &(second as u32).to_le_bytes());
    let end = out.len() - 22;
    assert_eq!(&out[end + 12..end + 16], &(2u32 * 47).to_le_bytes());
    assert_eq!(&out[end + 16..end + 20], &(dir_at as u32).to_le_bytes());
}

#[test]
fn too_many_entries_is_refused() {
    let mut s = ArchiveSession::new();
    for _ in 0..65535u32 {
        s.begin_entry(b"a").unwrap();
        s.close_entry().unwrap();
    }
    assert_eq!(s.begin_entry(b"a"), Err(EncodeError::TooManyEntries));
    assert!(s.finish().is_ok());
}

#[test]
fn overlong_name_is_refused() {
    let mut s = ArchiveSession::new();
    let name = vec![b'x'; 65536];
    assert_eq!(s.begin_entry(&name), Err(EncodeError::NameTooLong));
    let name = vec![b'x'; 65535];
    assert_eq!(s.begin_entry(&name).unwrap().len(), 30 + 65535);
}
