use ingrain::grains::file::{DecodeError, Decoded, FileAccess};
use ingrain::grains::record::{PathSegment, RawFileAccess, RecordLayout};
use ingrain::grains::text::{join, terminated_len, to_string};

fn segment(ino: u64, name: &[u8]) -> PathSegment {
    PathSegment { ino, name: name.to_vec() }
}

fn padded(text: &[u8], len: usize) -> Vec<u8> {
    let mut buf = text.to_vec();
    buf.resize(len, 0);
    buf
}

#[test]
fn null_padded_buffer_decodes_to_its_text() {
    let buf = b"proc\0\0\0";
    assert_eq!(buf.len(), 7);
    assert_eq!(to_string(buf), "proc");
}

#[test]
fn unterminated_buffer_is_used_whole() {
    assert_eq!(to_string(b"abcdefg"), "abcdefg");
    assert_eq!(terminated_len(b"abcdefg"), 7);
}

#[test]
fn empty_buffer_is_empty_text() {
    assert_eq!(to_string(b""), "");
    assert_eq!(terminated_len(b""), 0);
}

#[test]
fn buffer_that_starts_with_null_is_empty_text() {
    assert_eq!(to_string(b"\0abc"), "");
    assert_eq!(terminated_len(b"\0abc"), 0);
}

#[test]
fn bytes_behind_the_first_null_are_ignored() {
    assert_eq!(to_string(b"ab\0cd\0"), "ab");
    assert_eq!(terminated_len(b"ab\0cd\0"), 2);
}

#[test]
fn terminated_len_finds_the_first_null() {
    assert_eq!(terminated_len(b"proc\0\0\0"), 4);
    assert_eq!(terminated_len(&[1, 2, 3, 0]), 3);
    assert_eq!(terminated_len(&[0]), 0);
}

#[test]
fn well_formed_utf8_is_decoded() {
    let bytes = "caf\u{e9} \u{1f600}".as_bytes();
    assert_eq!(to_string(bytes), "caf\u{e9} \u{1f600}");
}

#[test]
fn malformed_utf8_is_replaced_and_does_not_fail() {
    assert_eq!(to_string(&[0x66, 0xff, 0x6f]), "f\u{fffd}o");
    assert_eq!(to_string(&[0xff, 0xfe, 0x00, 0x41]), "\u{fffd}\u{fffd}");
    assert_eq!(to_string(&[0xc3]), "\u{fffd}");
}

#[test]
fn decoded_text_is_no_copy_of_the_buffer() {
    let text = to_string(&[0x80, 0x41, 0x00, 0x42]);
    assert_eq!(text, "\u{fffd}A");
    assert_ne!(text.as_bytes(), &[0x80, 0x41, 0x00, 0x42]);
    assert_eq!(text.len(), 4);
}

#[test]
fn join_puts_the_separator_between_parts() {
    let none: Vec<String> = vec![];
    assert_eq!(join(&none, "/"), "");
    assert_eq!(join(&vec!["a".to_string()], "/"), "a");
    assert_eq!(join(&vec!["a".to_string(), "b".to_string(), "c".to_string()], "/"), "a/b/c");
    assert_eq!(join(&vec!["".to_string(), "x".to_string()], "/"), "/x");
    assert_eq!(join(&vec!["a".to_string(), "b".to_string()], ", "), "a, b");
}

#[test]
fn path_reconstruction_is_order_correct() {
    let raw = RawFileAccess {
        comm: b"cat".to_vec(),
        id: 9,
        path: vec![segment(5, b"b.txt"), segment(3, b"dir")],
    };
    let file = FileAccess::from(raw).unwrap();
    assert_eq!(file.path, "dir/b.txt");
    assert_eq!(file.ino, 5);
}

#[test]
fn decode_carries_id_and_process_through() {
    let raw = RawFileAccess {
        comm: padded(b"proc", 7),
        id: 0xdead_beef_0000_0001,
        path: vec![segment(11, &padded(b"passwd", 16)), segment(7, &padded(b"etc", 16)), segment(2, &padded(b"", 16))],
    };
    let file = FileAccess::from(raw).unwrap();
    assert_eq!(
        file,
        FileAccess {
            id: 0xdead_beef_0000_0001,
            process: "proc".to_string(),
            path: "/etc/passwd".to_string(),
            ino: 11,
        }
    );
}

#[test]
fn single_segment_path_has_no_separator() {
    let raw = RawFileAccess { comm: vec![], id: 1, path: vec![segment(77, b"file\0junk")] };
    let file = FileAccess::from(raw).unwrap();
    assert_eq!(file.path, "file");
    assert_eq!(file.ino, 77);
    assert_eq!(file.process, "");
}

#[test]
fn record_without_segments_is_refused() {
    let raw = RawFileAccess { comm: b"sh".to_vec(), id: 3, path: vec![] };
    assert_eq!(FileAccess::from(raw), Err(DecodeError::NoPathSegments));
}

#[test]
fn record_without_segments_reads_as_an_empty_path() {
    let raw = RawFileAccess { comm: b"sh\0\0".to_vec(), id: 3, path: vec![] };
    assert_eq!(
        FileAccess::decode(&raw),
        Decoded { id: 3, process: "sh".to_string(), path: "".to_string(), ino: None }
    );
    assert_eq!(FileAccess::from(raw), Err(DecodeError::NoPathSegments));
}

#[test]
fn defensive_reading_agrees_with_the_event() {
    let raw = RawFileAccess {
        comm: padded(b"cat", 8),
        id: 9,
        path: vec![segment(5, b"b.txt"), segment(3, b"dir\0")],
    };
    let read = FileAccess::decode(&raw);
    assert_eq!(
        read,
        Decoded { id: 9, process: "cat".to_string(), path: "dir/b.txt".to_string(), ino: Some(5) }
    );
    let file = FileAccess::from(raw).unwrap();
    assert_eq!(
        (file.id, file.process, file.path, Some(file.ino)),
        (read.id, read.process, read.path, read.ino)
    );
}

#[test]
fn defensive_reading_of_malformed_bytes_does_not_fail() {
    let raw = RawFileAccess { comm: vec![0xff, 0xfe], id: 0, path: vec![segment(0, &[0x80])] };
    assert_eq!(
        FileAccess::decode(&raw),
        Decoded {
            id: 0,
            process: "\u{fffd}\u{fffd}".to_string(),
            path: "\u{fffd}".to_string(),
            ino: Some(0)
        }
    );
}

#[test]
fn malformed_names_decode_without_failing() {
    let raw = RawFileAccess {
        comm: vec![0xff, 0x00],
        id: 4,
        path: vec![segment(1, &[0x61, 0xc0, 0x00]), segment(2, &[0xe2, 0x82])],
    };
    let file = FileAccess::from(raw).unwrap();
    assert_eq!(file.process, "\u{fffd}");
    assert_eq!(file.path, "\u{fffd}/a\u{fffd}");
    assert_eq!(file.ino, 1);
}

#[test]
fn decoding_is_deterministic() {
    let raw = RawFileAccess {
        comm: vec![0x70, 0xff, 0x71, 0x00, 0x72],
        id: 12,
        path: vec![segment(5, b"b.txt\0\0"), segment(3, &[0x64, 0x80, 0x00])],
    };
    let first = FileAccess::from(raw.clone()).unwrap();
    let second = FileAccess::from(raw).unwrap();
    assert_eq!(first, second);
}

#[test]
fn identical_bytes_parse_and_decode_alike() {
    let layout = RecordLayout { comm_len: 4, name_len: 4, depth: 2 };
    let mut bytes = Vec::new();
    bytes.extend_from_slice(b"ls\0\0");
    bytes.extend_from_slice(&21u64.to_le_bytes());
    bytes.extend_from_slice(&5u64.to_le_bytes());
    bytes.extend_from_slice(b"b\0\0\0");
    bytes.extend_from_slice(&3u64.to_le_bytes());
    bytes.extend_from_slice(b"dir\0");
    let copy = bytes.clone();
    let first = FileAccess::from(RawFileAccess::parse(&bytes, &layout).unwrap()).unwrap();
    let second = FileAccess::from(RawFileAccess::parse(&copy, &layout).unwrap()).unwrap();
    assert_eq!(first, second);
    assert_eq!(
        first,
        FileAccess { id: 21, process: "ls".to_string(), path: "dir/b".to_string(), ino: 5 }
    );
}

#[test]
fn record_size_follows_the_layout() {
    assert_eq!(RecordLayout { comm_len: 16, name_len: 32, depth: 5 }.record_size(), Some(224));
    assert_eq!(RecordLayout { comm_len: 0, name_len: 0, depth: 0 }.record_size(), Some(8));
    assert_eq!(RecordLayout { comm_len: 7, name_len: 3, depth: 1 }.record_size(), Some(26));
    assert_eq!(RecordLayout { comm_len: 7, name_len: usize::MAX, depth: 0 }.record_size(), Some(15));
}

#[test]
fn record_size_that_no_usize_holds_is_none() {
    assert_eq!(RecordLayout { comm_len: 16, name_len: usize::MAX, depth: 1 }.record_size(), None);
    assert_eq!(RecordLayout { comm_len: 16, name_len: 8, depth: usize::MAX }.record_size(), None);
    assert_eq!(RecordLayout { comm_len: usize::MAX, name_len: 8, depth: 1 }.record_size(), None);
    assert_eq!(
        RecordLayout { comm_len: usize::MAX - 23, name_len: 8, depth: 1 }.record_size(),
        None
    );
    assert_eq!(
        RecordLayout { comm_len: usize::MAX - 24, name_len: 8, depth: 1 }.record_size(),
        Some(usize::MAX)
    );
}

#[test]
fn parse_reads_fields_at_their_offsets() {
    let layout = RecordLayout { comm_len: 6, name_len: 5, depth: 2 };
    let mut bytes = Vec::new();
    bytes.extend_from_slice(b"bash\0\0");
    bytes.extend_from_slice(&[0x08, 0x07, 0x06, 0x05, 0x04, 0x03, 0x02, 0x01]);
    bytes.extend_from_slice(&[0x2a, 0, 0, 0, 0, 0, 0, 0]);
    bytes.extend_from_slice(b"f.txt");
    bytes.extend_from_slice(&[0x00, 0x01, 0, 0, 0, 0, 0, 0]);
    bytes.extend_from_slice(b"d\0\0\0\0");
    assert_eq!(bytes.len(), 40);
    let raw = RawFileAccess::parse(&bytes, &layout).unwrap();
    assert_eq!(
        raw,
        RawFileAccess {
            comm: b"bash\0\0".to_vec(),
            id: 0x0102_0304_0506_0708,
            path: vec![segment(42, b"f.txt"), segment(256, b"d\0\0\0\0")],
        }
    );
}

#[test]
fn parse_refuses_a_truncated_record() {
    let layout = RecordLayout { comm_len: 6, name_len: 5, depth: 2 };
    let bytes = vec![1u8; 39];
    assert_eq!(RawFileAccess::parse(&bytes, &layout), None);
    assert_eq!(RawFileAccess::parse(&[], &layout), None);
    assert_eq!(RawFileAccess::parse(&bytes[..6], &layout), None);
}

#[test]
fn parse_ignores_what_follows_the_record() {
    let layout = RecordLayout { comm_len: 2, name_len: 1, depth: 1 };
    let mut bytes = Vec::new();
    bytes.extend_from_slice(b"ab");
    bytes.extend_from_slice(&1u64.to_le_bytes());
    bytes.extend_from_slice(&2u64.to_le_bytes());
    bytes.extend_from_slice(b"x");
    let exact = RawFileAccess::parse(&bytes, &layout).unwrap();
    bytes.extend_from_slice(&[9, 9, 9, 9, 9]);
    let longer = RawFileAccess::parse(&bytes, &layout).unwrap();
    assert_eq!(exact, longer);
    assert_eq!(exact.path, vec![segment(2, b"x")]);
}

#[test]
fn parse_of_a_layout_without_segments_gives_no_path() {
    let layout = RecordLayout { comm_len: 3, name_len: 8, depth: 0 };
    let mut bytes = b"top".to_vec();
    bytes.extend_from_slice(&u64::MAX.to_le_bytes());
    let raw = RawFileAccess::parse(&bytes, &layout).unwrap();
    assert_eq!(raw, RawFileAccess { comm: b"top".to_vec(), id: u64::MAX, path: vec![] });
    assert_eq!(FileAccess::from(raw), Err(DecodeError::NoPathSegments));
}

#[test]
fn parse_refuses_a_layout_too_large_for_any_buffer() {
    let layout = RecordLayout { comm_len: 1, name_len: usize::MAX, depth: 2 };
    assert_eq!(RawFileAccess::parse(&[0u8; 64], &layout), None);
}
