use pakfs::datastruct::{dir_magic_bytes, MetadataContainer, NodeKind, NodeMetadata};
use pakfs::err::{PakErrKind, PakReadErr};
use pakfs::metafile::RawRow;

fn error_kind<T>(r: Result<T, PakReadErr>) -> Result<T, PakErrKind> {
    r.map_err(|e| e.kind())
}

fn sample() -> MetadataContainer {
    let mut table = MetadataContainer::new();
    table.record("/".to_string(), "assets".to_string(), NodeKind::BRANCH, 0, 0);
    table.record("/a.txt".to_string(), "a.txt".to_string(), NodeKind::LEAF, 5, 0x3610a686);
    table
}

fn expected_bytes() -> Vec<u8> {
    let mut b = Vec::new();
    b.extend_from_slice(b"bevypakfsdir\0\x07\x02\x07");
    b.extend_from_slice(&21u64.to_le_bytes());
    b.extend_from_slice(&2u64.to_le_bytes());
    // "/" -> assets, BRANCH, 0, 16..16
    b.extend_from_slice(&1u64.to_le_bytes());
    b.extend_from_slice(b"/");
    b.extend_from_slice(&6u64.to_le_bytes());
    b.extend_from_slice(b"assets");
    b.extend_from_slice(&1u32.to_le_bytes());
    b.extend_from_slice(&0u32.to_le_bytes());
    b.extend_from_slice(&16u64.to_le_bytes());
    b.extend_from_slice(&16u64.to_le_bytes());
    // "/a.txt" -> a.txt, LEAF, crc, 16..21
    b.extend_from_slice(&6u64.to_le_bytes());
    b.extend_from_slice(b"/a.txt");
    b.extend_from_slice(&5u64.to_le_bytes());
    b.extend_from_slice(b"a.txt");
    b.extend_from_slice(&0u32.to_le_bytes());
    b.extend_from_slice(&0x3610a686u32.to_le_bytes());
    b.extend_from_slice(&16u64.to_le_bytes());
    b.extend_from_slice(&21u64.to_le_bytes());
    b
}

#[test]
fn to_bytes_writes_the_bincode_layout() {
    assert_eq!(sample().to_bytes().unwrap(), expected_bytes());
}

#[test]
fn to_raw_rows_lists_the_table_in_order() {
    let rows: Vec<RawRow> = sample().to_raw_rows();
    assert_eq!(
        rows,
        vec![
            ("/".to_string(), ("assets".to_string(), 1, 0, 16, 16)),
            ("/a.txt".to_string(), ("a.txt".to_string(), 0, 0x3610a686, 16, 21)),
        ]
    );
}

#[test]
fn from_bytes_reads_what_to_bytes_wrote() {
    let table = MetadataContainer::from_bytes(&expected_bytes()).unwrap();
    assert_eq!(table.magic(), dir_magic_bytes());
    assert_eq!(table.paksize(), 21);
    assert_eq!(table.len(), 2);
    let root: &NodeMetadata = table.get("/").unwrap();
    assert_eq!((root.name.as_str(), root.kind, root.hash, root.start, root.end), ("assets", NodeKind::BRANCH, 0, 16, 16));
    let a = table.get("/a.txt").unwrap();
    assert_eq!((a.name.as_str(), a.kind, a.hash, a.start, a.end), ("a.txt", NodeKind::LEAF, 0x3610a686, 16, 21));
    assert_eq!(table.to_bytes().unwrap(), expected_bytes());
}

#[test]
fn every_byte_of_the_magic_counts() {
    for k in 0..16 {
        let mut bytes = expected_bytes();
        bytes[k] ^= 0x20;
        assert_eq!(error_kind(MetadataContainer::from_bytes(&bytes)).err(), Some(PakErrKind::FormatError), "byte {}", k);
    }
}

#[test]
fn short_file_is_a_format_error() {
    assert_eq!(error_kind(MetadataContainer::from_bytes(&[])).err(), Some(PakErrKind::FormatError));
    assert_eq!(error_kind(MetadataContainer::from_bytes(b"bevypakfsdir")).err(), Some(PakErrKind::FormatError));
}

#[test]
fn truncated_table_is_a_deserialize_error() {
    let bytes = expected_bytes();
    assert_eq!(error_kind(MetadataContainer::from_bytes(&bytes[..16])).err(), Some(PakErrKind::DeserializeError));
    assert_eq!(error_kind(MetadataContainer::from_bytes(&bytes[..bytes.len() - 1])).err(), Some(PakErrKind::DeserializeError));
    assert_eq!(error_kind(MetadataContainer::from_bytes(&bytes[..40])).err(), Some(PakErrKind::DeserializeError));
}

#[test]
fn trailing_bytes_are_passed_over() {
    let mut bytes = expected_bytes();
    bytes.extend_from_slice(b"tail");
    assert_eq!(MetadataContainer::from_bytes(&bytes).unwrap().len(), 2);
}

#[test]
fn unknown_kind_tag_is_a_deserialize_error() {
    let mut bytes = expected_bytes();
    // the tag of the first line: magic, size, count, path, name
    let at = 16 + 8 + 8 + (8 + 1) + (8 + 6);
    assert_eq!(&bytes[at..at + 4], &1u32.to_le_bytes());
    bytes[at] = 2;
    assert_eq!(error_kind(MetadataContainer::from_bytes(&bytes)).err(), Some(PakErrKind::DeserializeError));
}

#[test]
fn invalid_utf8_path_is_a_deserialize_error() {
    let mut bytes = expected_bytes();
    let at = 16 + 8 + 8 + 8;
    assert_eq!(bytes[at], b'/');
    bytes[at] = 0xff;
    assert_eq!(error_kind(MetadataContainer::from_bytes(&bytes)).err(), Some(PakErrKind::DeserializeError));
}

#[test]
fn from_raw_judges_magic_then_tags() {
    let good = dir_magic_bytes();
    let mut bad = good;
    bad[0] = b'B';
    let row = |tag: u32| -> RawRow { ("/p".to_string(), ("p".to_string(), tag, 9, 16, 20)) };
    assert_eq!(error_kind(MetadataContainer::from_raw(bad, 16, vec![row(0)])).err(), Some(PakErrKind::FormatError));
    assert_eq!(error_kind(MetadataContainer::from_raw(bad, 16, vec![row(7)])).err(), Some(PakErrKind::FormatError));
    assert_eq!(error_kind(MetadataContainer::from_raw(good, 16, vec![row(0), row(2)])).err(), Some(PakErrKind::DeserializeError));
    let table = MetadataContainer::from_raw(good, 20, vec![row(1), row(0)]).unwrap();
    assert_eq!(table.len(), 1);
    assert_eq!(table.paksize(), 20);
    let p = table.get("/p").unwrap();
    assert_eq!((p.kind, p.hash, p.start, p.end), (NodeKind::LEAF, 9, 16, 20));
    let empty = MetadataContainer::from_raw(good, 16, vec![]).unwrap();
    assert_eq!(empty.len(), 0);
}
