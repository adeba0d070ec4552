use pakfs::builder::{assemble, Packer};
use pakfs::datastruct::{MetadataContainer, NodeKind, NodeMetadata};
use pakfs::err::{PakErrKind, PakReadErr};
use pakfs::reader::PakReader;
use pakfs::{build, content_size, SourceNode};

fn kind<T>(r: Result<T, PakReadErr>) -> Result<T, PakErrKind> {
    r.map_err(|e| e.kind())
}

fn node(parts: &[&str], kind: NodeKind, data: &[u8]) -> SourceNode {
    SourceNode {
        components: parts.iter().map(|p| p.to_string()).collect(),
        name: parts.last().unwrap().to_string(),
        kind,
        data: data.to_vec(),
    }
}

fn big() -> Vec<u8> {
    (0..150_000u32).map(|i| (i * 7 % 253) as u8).collect()
}

fn sample_tree() -> Vec<SourceNode> {
    vec![
        node(&[".", "assets"], NodeKind::BRANCH, b""),
        node(&[".", "assets", "a"], NodeKind::BRANCH, b""),
        node(&[".", "assets", "a", "b.txt"], NodeKind::LEAF, b"hello world"),
        node(&[".", "assets", "empty.bin"], NodeKind::LEAF, b""),
        node(&[".", "assets", "z.dat"], NodeKind::LEAF, &[7u8; 1000]),
        node(&[".", "assets", "a", "big.bin"], NodeKind::LEAF, &big()),
    ]
}

#[test]
fn build_then_read_gives_the_files_back() {
    let tree = sample_tree();
    let (meta, content) = build(&tree, 2, None).unwrap();
    assert_eq!(&meta[..16], b"bevypakfsdir\0\x07\x02\x07");
    assert_eq!(&content[..16], b"bevypakfsdat\0\x07\x02\x07");
    let pak = PakReader::bundle(&meta, content, None).unwrap();
    assert_eq!(pak.read("/a/b.txt").unwrap(), Some(b"hello world".to_vec()));
    assert_eq!(pak.read("/empty.bin").unwrap(), Some(Vec::new()));
    assert_eq!(pak.read("/z.dat").unwrap(), Some(vec![7u8; 1000]));
    assert_eq!(pak.read("/a/big.bin").unwrap(), Some(big()));
    assert_eq!(pak.read("/a").unwrap(), Some(Vec::new()));
    assert_eq!(pak.read("/missing").unwrap(), None);
    assert_eq!(pak.read("a/b.txt").unwrap(), None);
    for n in tree.iter().filter(|n| n.kind == NodeKind::LEAF) {
        let path = format!("/{}", n.components[2..].join("/"));
        assert_eq!(pak.read(&path).unwrap().as_deref(), Some(&n.data[..]));
        assert_eq!(pak.entry(&path).unwrap().hash, crc32fast::hash(&n.data));
    }
}

#[test]
fn entries_say_what_kind_they_are() {
    let (meta, content) = build(&sample_tree(), 2, None).unwrap();
    let pak = PakReader::bundle(&meta, content, None).unwrap();
    assert_eq!(pak.is_directory("/a"), Some(true));
    assert_eq!(pak.is_directory("/"), Some(true));
    assert_eq!(pak.is_directory("/a/b.txt"), Some(false));
    assert_eq!(pak.is_directory("/nope"), None);
    assert!(pak.entry("/nope").is_none());
}

#[test]
fn entries_record_ranges_and_checksums() {
    let tree = sample_tree();
    let (meta, content) = build(&tree, 2, None).unwrap();
    let pak = PakReader::bundle(&meta, content, None).unwrap();
    let table: &MetadataContainer = pak.metadata();
    assert_eq!(table.len(), 6);
    assert_eq!(table.paksize(), 16 + 11 + 1000 + 150_000);
    let root: &NodeMetadata = pak.entry("/").unwrap();
    assert_eq!((root.name.as_str(), root.kind, root.hash, root.start, root.end), ("assets", NodeKind::BRANCH, 0, 16, 16));
    let b = pak.entry("/a/b.txt").unwrap();
    assert_eq!((b.name.as_str(), b.kind, b.hash, b.start, b.end), ("b.txt", NodeKind::LEAF, 0x0d4a1185, 16, 27));
    let e = pak.entry("/empty.bin").unwrap();
    assert_eq!((e.kind, e.hash, e.start, e.end), (NodeKind::LEAF, 0, 27, 27));
    let z = pak.entry("/z.dat").unwrap();
    assert_eq!((z.hash, z.start, z.end), (crc32fast::hash(&[7u8; 1000]), 27, 1027));
    let g = pak.entry("/a/big.bin").unwrap();
    assert_eq!((g.hash, g.start, g.end), (crc32fast::hash(&big()), 1027, 151_027));
}

#[test]
fn ranges_do_not_overlap_and_fill_the_stream() {
    let (meta, _) = build(&sample_tree(), 2, None).unwrap();
    let table = MetadataContainer::from_bytes(&meta).unwrap();
    let mut total = 16u64;
    for i in 0..table.len() {
        let (_, a) = table.entry_at(i);
        assert!(16 <= a.start && a.start <= a.end && a.end <= table.paksize());
        total += a.end - a.start;
        for j in 0..table.len() {
            let (_, b) = table.entry_at(j);
            if i != j {
                assert!(a.end <= b.start || b.end <= a.start);
            }
        }
    }
    assert_eq!(total, table.paksize());
}

#[test]
fn directories_are_empty_and_hash_to_the_empty_checksum() {
    let (meta, _) = build(&sample_tree(), 2, None).unwrap();
    let table = MetadataContainer::from_bytes(&meta).unwrap();
    let mut seen = 0;
    for i in 0..table.len() {
        let (_, n) = table.entry_at(i);
        if n.kind == NodeKind::BRANCH {
            assert_eq!(n.start, n.end);
            assert_eq!(n.hash, crc32fast::Hasher::new().finalize());
            seen += 1;
        }
    }
    assert_eq!(seen, 2);
}

#[test]
fn directory_data_is_passed_over() {
    let tree = vec![
        node(&["r", "d"], NodeKind::BRANCH, b"not content"),
        node(&["r", "f"], NodeKind::LEAF, b"content"),
    ];
    let (meta, content) = build(&tree, 1, None).unwrap();
    let pak = PakReader::bundle(&meta, content, None).unwrap();
    let d = pak.entry("/d").unwrap();
    assert_eq!((d.start, d.end, d.hash), (16, 16, 0));
    let f = pak.entry("/f").unwrap();
    assert_eq!((f.start, f.end), (16, 23));
    assert_eq!(pak.metadata().paksize(), 23);
}

#[test]
fn foreign_metadata_magic_is_a_format_error() {
    let (meta, content) = build(&sample_tree(), 2, None).unwrap();
    for k in 0..16 {
        let mut bad = meta.clone();
        bad[k] = bad[k].wrapping_add(1);
        assert_eq!(kind(PakReader::bundle(&bad, content.clone(), None)).err(), Some(PakErrKind::FormatError));
    }
}

#[test]
fn foreign_content_magic_is_a_format_error() {
    let (meta, content) = build(&sample_tree(), 2, None).unwrap();
    let mut bad = content.clone();
    bad[11] = b'x';
    assert_eq!(kind(PakReader::bundle(&meta, bad, None)).err(), Some(PakErrKind::FormatError));
    assert_eq!(kind(PakReader::bundle(&meta, content[..10].to_vec(), None)).err(), Some(PakErrKind::FormatError));
}

#[test]
fn broken_table_is_judged_before_the_content() {
    let (meta, content) = build(&sample_tree(), 2, None).unwrap();
    let mut bad = content.clone();
    bad[0] = b'x';
    assert_eq!(kind(PakReader::bundle(&meta[..30], bad, None)).err(), Some(PakErrKind::DeserializeError));
}

#[test]
fn absent_and_empty_dictionary_build_the_same_archive() {
    let tree = sample_tree();
    let (meta_none, content_none) = build(&tree, 2, None).unwrap();
    let (meta_empty, content_empty) = build(&tree, 2, Some(&[])).unwrap();
    assert_eq!(content_none, content_empty);
    assert_eq!(meta_none, meta_empty);
    let pak = PakReader::bundle(&meta_none, content_empty, Some(Vec::new())).unwrap();
    assert_eq!(pak.read("/a/b.txt").unwrap(), Some(b"hello world".to_vec()));
}

#[test]
fn dictionary_is_needed_to_read_what_it_helped_to_pack() {
    let dict: Vec<u8> = b"hello world, hello archive, hello dictionary. ".repeat(20);
    let tree = sample_tree();
    let (meta, content) = build(&tree, 2, Some(&dict)).unwrap();
    let (_, plain) = build(&tree, 2, None).unwrap();
    assert_ne!(content, plain);
    let pak = PakReader::bundle(&meta, content.clone(), Some(dict)).unwrap();
    assert_eq!(pak.read("/a/b.txt").unwrap(), Some(b"hello world".to_vec()));
    assert_eq!(pak.read("/a/big.bin").unwrap(), Some(big()));
    let other = PakReader::bundle(&meta, content, None).unwrap();
    let got = other.read("/a/b.txt");
    assert!(matches!(kind(got), Err(PakErrKind::DecodeError) | Err(PakErrKind::IntegrityError)));
}

#[test]
fn corruption_is_never_read_as_good_bytes() {
    let tree = vec![
        node(&["r"], NodeKind::BRANCH, b""),
        node(&["r", "one"], NodeKind::LEAF, b"The first file of the archive, in plain words."),
        node(&["r", "two"], NodeKind::LEAF, b"And the second, which follows it in the stream."),
    ];
    let (meta, content) = build(&tree, 1, None).unwrap();
    let mut caught = 0;
    for at in 16..content.len() {
        let mut bad = content.clone();
        bad[at] ^= 0x01;
        let pak = PakReader::bundle(&meta, bad, None).unwrap();
        for n in &tree[1..] {
            let path = format!("/{}", n.name);
            match pak.read(&path) {
                Ok(Some(bytes)) => assert_eq!(bytes, n.data),
                Ok(None) => panic!("entry lost"),
                Err(e) => {
                    assert!(e.kind() == PakErrKind::DecodeError || e.kind() == PakErrKind::IntegrityError);
                    caught += 1;
                }
            }
        }
    }
    assert!(caught > 0);
}

#[test]
fn wrong_recorded_checksum_is_an_integrity_error() {
    let mut packer = Packer::new(&[]).unwrap();
    packer = packer.add("/f".to_string(), "f".to_string(), NodeKind::LEAF, b"payload").unwrap();
    let (_, content) = packer.finish().unwrap();
    let forged = MetadataContainer::from_parts(
        pakfs::datastruct::dir_magic_bytes(),
        23,
        vec![
            ("/f".to_string(), NodeMetadata { name: "f".to_string(), kind: NodeKind::LEAF, hash: 1, start: 16, end: 23 }),
            ("/part".to_string(), NodeMetadata { name: "part".to_string(), kind: NodeKind::LEAF, hash: crc32fast::hash(b"ylo"), start: 18, end: 21 }),
            ("/past".to_string(), NodeMetadata { name: "past".to_string(), kind: NodeKind::LEAF, hash: 0, start: 20, end: 24 }),
            ("/back".to_string(), NodeMetadata { name: "back".to_string(), kind: NodeKind::LEAF, hash: 0, start: 20, end: 19 }),
            ("/head".to_string(), NodeMetadata { name: "head".to_string(), kind: NodeKind::LEAF, hash: 0, start: 15, end: 16 }),
        ],
    );
    let pak = PakReader::bundle(&forged.to_bytes().unwrap(), content, None).unwrap();
    assert_eq!(kind(pak.read("/f")), Err(PakErrKind::IntegrityError));
    assert_eq!(kind(pak.read("/part")), Ok(Some(b"ylo".to_vec())));
    assert_eq!(kind(pak.read("/past")), Err(PakErrKind::DecodeError));
    assert_eq!(kind(pak.read("/back")), Err(PakErrKind::DecodeError));
    assert_eq!(kind(pak.read("/head")), Err(PakErrKind::DecodeError));
    assert_eq!(kind(pak.read("/none")), Ok(None));
}

#[test]
fn truncated_content_is_a_decode_error_for_the_entry_only() {
    let (meta, content) = build(&sample_tree(), 2, None).unwrap();
    let cut = content[..content.len() - 3].to_vec();
    let pak = PakReader::bundle(&meta, cut, None).unwrap();
    assert_eq!(kind(pak.read("/z.dat")), Err(PakErrKind::DecodeError));
    assert_eq!(kind(pak.read("/missing")), Ok(None));
    assert_eq!(pak.is_directory("/a"), Some(true));
}

#[test]
fn later_node_replaces_an_earlier_one_with_the_same_path() {
    let tree = vec![
        node(&["r", "a\\b"], NodeKind::LEAF, b"first"),
        node(&["r", "c"], NodeKind::LEAF, b"middle"),
        node(&["r", "a", "b"], NodeKind::LEAF, b"second"),
    ];
    let (meta, content) = build(&tree, 1, None).unwrap();
    let pak = PakReader::bundle(&meta, content, None).unwrap();
    assert_eq!(pak.metadata().len(), 2);
    assert_eq!(pak.metadata().paksize(), 16 + 5 + 6 + 6);
    assert_eq!(pak.read("/a/b").unwrap(), Some(b"second".to_vec()));
    let ab = pak.entry("/a/b").unwrap();
    assert_eq!((ab.start, ab.end, ab.name.as_str()), (27, 33, "b"));
    assert_eq!(pak.metadata().entry_at(0).0, "/a/b");
    assert_eq!(pak.read("/c").unwrap(), Some(b"middle".to_vec()));
}

#[test]
fn sidecar_metadata_is_the_entry_with_the_meta_suffix() {
    let tree = vec![
        node(&["r", "img.png"], NodeKind::LEAF, b"pixels"),
        node(&["r", "img.png.meta"], NodeKind::LEAF, b"(settings)"),
        node(&["r", "bare.txt"], NodeKind::LEAF, b"text"),
    ];
    let (meta, content) = build(&tree, 1, None).unwrap();
    let pak = PakReader::bundle(&meta, content, None).unwrap();
    assert_eq!(kind(pak.read_meta("/img.png")), Ok(Some(b"(settings)".to_vec())));
    assert_eq!(kind(pak.read_meta("/bare.txt")), Ok(None));
}

#[test]
fn packer_takes_nodes_one_at_a_time() {
    let mut packer = Packer::new(&[]).unwrap();
    assert_eq!(packer.meta().len(), 0);
    assert_eq!(packer.meta().paksize(), 16);
    packer = packer.add("/".to_string(), "root".to_string(), NodeKind::BRANCH, b"").unwrap();
    packer = packer.add("/x".to_string(), "x".to_string(), NodeKind::LEAF, b"abc").unwrap();
    assert_eq!(packer.meta().paksize(), 19);
    assert_eq!(packer.meta().get("/x").unwrap().hash, crc32fast::hash(b"abc"));
    let (meta, content) = packer.finish().unwrap();
    let direct = build(
        &[node(&["root"], NodeKind::BRANCH, b""), node(&["root", "x"], NodeKind::LEAF, b"abc")].into_iter().collect(),
        1,
        None,
    )
    .unwrap();
    assert_eq!((meta, content), direct);
}

#[test]
fn empty_tree_builds_an_empty_archive() {
    let (meta, content) = build(&Vec::new(), 2, None).unwrap();
    let pak = PakReader::bundle(&meta, content, None).unwrap();
    assert_eq!(pak.metadata().len(), 0);
    assert_eq!(pak.metadata().paksize(), 16);
    assert_eq!(kind(pak.read("/")), Ok(None));
}

#[test]
fn content_size_is_the_header_and_the_files() {
    assert_eq!(content_size(&Vec::new()), Some(16));
    assert_eq!(content_size(&sample_tree()), Some(16 + 11 + 1000 + 150_000));
    let tree = vec![node(&["r", "d"], NodeKind::BRANCH, b"passed over"), node(&["r", "f"], NodeKind::LEAF, b"1234")];
    assert_eq!(content_size(&tree), Some(20));
    let (meta, _) = build(&tree, 1, None).unwrap();
    assert_eq!(MetadataContainer::from_bytes(&meta).unwrap().paksize(), 20);
}

#[test]
fn compressor_failure_is_an_io_error() {
    // A dictionary that claims the trained format and does not hold it.
    let mut dict = vec![0x37u8, 0xa4, 0x30, 0xec];
    dict.extend_from_slice(&[0xffu8; 200]);
    assert_eq!(kind(build(&sample_tree(), 2, Some(&dict))).err(), Some(PakErrKind::IOError));
    let (meta, content) = build(&sample_tree(), 2, None).unwrap();
    let pak = PakReader::bundle(&meta, content, Some(dict)).unwrap();
    assert_eq!(kind(pak.read("/a/b.txt")), Err(PakErrKind::DecodeError));
}

#[test]
fn assemble_joins_header_and_stream() {
    let mut meta = b"bevypakfsdir\0\x07\x02\x07".to_vec();
    meta.extend_from_slice(b"table");
    let (m, c) = assemble(meta.clone(), Ok(b"stream".to_vec())).unwrap();
    assert_eq!(m, meta);
    assert_eq!(c, b"bevypakfsdat\0\x07\x02\x07stream".to_vec());
    let (_, c) = assemble(meta.clone(), Ok(Vec::new())).unwrap();
    assert_eq!(c, b"bevypakfsdat\0\x07\x02\x07".to_vec());
    assert_eq!(kind(assemble(meta.clone(), Err(PakReadErr::IOError(None)))), Err(PakErrKind::IOError));
}

#[test]
fn assemble_refuses_a_table_without_its_magic() {
    let frame = || Ok(b"stream".to_vec());
    assert_eq!(kind(assemble(b"bevypakfsdat\0\x07\x02\x07table".to_vec(), frame())), Err(PakErrKind::DeserializeError));
    assert_eq!(kind(assemble(b"bevypakfsdir".to_vec(), frame())), Err(PakErrKind::DeserializeError));
    assert_eq!(kind(assemble(Vec::new(), frame())), Err(PakErrKind::DeserializeError));
    assert_eq!(kind(assemble(Vec::new(), Err(PakReadErr::IOError(None)))), Err(PakErrKind::DeserializeError));
}

#[test]
fn opened_archive_has_the_built_magic_and_size() {
    let mut packer = Packer::new(&[]).unwrap();
    packer = packer.add("/".to_string(), "r".to_string(), NodeKind::BRANCH, b"").unwrap();
    packer = packer.add("/f".to_string(), "f".to_string(), NodeKind::LEAF, b"12345").unwrap();
    let built_size = packer.meta().paksize();
    let built_magic = packer.meta().magic();
    let (meta, content) = packer.finish().unwrap();
    let pak = PakReader::bundle(&meta, content, None).unwrap();
    assert_eq!(pak.metadata().magic(), built_magic);
    assert_eq!(&pak.metadata().magic(), b"bevypakfsdir\0\x07\x02\x07");
    assert_eq!(pak.metadata().paksize(), built_size);
    assert_eq!(pak.metadata().paksize(), 21);
    assert_eq!(pak.metadata().len(), 2);
    assert_eq!(pak.metadata().entry_at(0).0, "/");
    assert_eq!(pak.metadata().entry_at(1).0, "/f");
}
