//! Packs a directory tree into a two-part archive, a metadata table and one
//! compressed content stream, and serves the entries back by logical path.
//!
//! The library works on bytes in memory: the caller walks the source tree and
//! reads and writes the files.
//!
//! - `datastruct`: entry kinds, entry descriptors, and the table.
//! - `path`: the logical paths that key the table.
//! - `crc`, `pakcp`: the running CRC-32, the checksum-tracking wrappers around
//!   a sink and a source, and the chunked copy of a file into the stream.
//! - `zstream`: the compressor and the decompressor of the content stream.
//! - `metafile`: the metadata file.
//! - `builder`, and `build` below: packing.
//! - `reader`: opening an archive and reading entries.
//! - `laws`: what holds of every archive.

pub mod builder;
pub mod crc;
pub mod datastruct;
pub mod err;
pub mod laws;
pub mod metafile;
pub mod pakcp;
pub mod path;
pub mod reader;
pub mod zstream;

use vstd::prelude::*;
use crate::builder::{
    body_of, is_archive_of, is_build_error, packed_rows, packed_stream, Item, Packer,
};
use crate::datastruct::{dir_magic, NodeKind, HEADER_LEN};
use crate::metafile::metadata_bytes;
use crate::err::{PakErrKind, PakReadErr};
use crate::path::{logical_path, spec_logical_path, texts};
use crate::reader::dictionary_or_empty;

verus! {

/// One node of the source tree, as the directory walk found it.
#[derive(Debug)]
pub struct SourceNode {
    /// The components of the node's path on the host, those of the source
    /// root first.
    pub components: Vec<String>,
    /// The final path component.
    pub name: String,
    pub kind: NodeKind,
    /// The bytes of a file. A directory's are passed over.
    pub data: Vec<u8>,
}

/// What the builder makes of a node found under a root of `depth` components.
pub open spec fn item_of(node: SourceNode, depth: nat) -> Item {
    Item {
        path: spec_logical_path(texts(node.components@), depth),
        name: node.name@,
        kind: node.kind,
        data: node.data@,
    }
}

/// What the builder makes of the nodes of a walk, in walk order.
pub open spec fn items_of(nodes: Seq<SourceNode>, depth: nat) -> Seq<Item> {
    Seq::new(nodes.len(), |i: int| item_of(nodes[i], depth))
}

/// The bytes of an optional dictionary.
pub open spec fn dictionary_bytes(dictionary: Option<&[u8]>) -> Option<Seq<u8>> {
    match dictionary {
        Some(bytes) => Some(bytes@),
        None => None,
    }
}

/// What a build of `items` with `dictionary` may return: the two files of an
/// archive that holds the packed table over the packed stream, or an error.
/// The error is the compressor's, or it is a deserialisation error, which
/// comes only where the serialiser has no bytes for the packed table or has
/// bytes that do not open with the metadata magic.
pub open spec fn build_result(
    items: Seq<Item>,
    dictionary: Option<Seq<u8>>,
    r: Result<(Seq<u8>, Seq<u8>), PakReadErr>,
) -> bool {
    match r {
        Ok((meta, content)) => is_archive_of(
            meta,
            content,
            dictionary_or_empty(dictionary),
            packed_rows(items),
            packed_stream(items),
        ),
        Err(e) => e.kind() == PakErrKind::IOError || is_build_error(
            e,
            metadata_bytes(
                dir_magic(),
                (HEADER_LEN + packed_stream(items).len()) as u64,
                packed_rows(items),
            ),
        ),
    }
}

/// The bytes of a build's result.
pub open spec fn files_view(r: Result<(Vec<u8>, Vec<u8>), PakReadErr>) -> Result<
    (Seq<u8>, Seq<u8>),
    PakReadErr,
> {
    match r {
        Ok((meta, content)) => Ok((meta@, content@)),
        Err(e) => Err(e),
    }
}

/// The number of bytes that the files among `nodes` hold together.
pub open spec fn total_bytes(nodes: Seq<SourceNode>) -> nat
    decreases nodes.len(),
{
    if nodes.len() == 0 {
        0
    } else {
        total_bytes(nodes.drop_last()) + body_of(nodes.last().kind, nodes.last().data@).len()
    }
}

/// The first nodes of a list hold no more bytes than the whole list.
pub proof fn lemma_total_bytes_grows(nodes: Seq<SourceNode>, n: int)
    requires
        0 <= n <= nodes.len(),
    ensures
        total_bytes(nodes.take(n)) <= total_bytes(nodes),
    decreases nodes.len() - n,
{
    if n < nodes.len() {
        lemma_total_bytes_grows(nodes, n + 1);
        assert(nodes.take(n + 1).drop_last() =~= nodes.take(n));
    } else {
        assert(nodes.take(n) =~= nodes);
    }
}

/// The uncompressed stream of a build is as long as its files together.
pub proof fn lemma_stream_len(nodes: Seq<SourceNode>, depth: nat)
    ensures
        packed_stream(items_of(nodes, depth)).len() == total_bytes(nodes),
    decreases nodes.len(),
{
    if nodes.len() > 0 {
        lemma_stream_len(nodes.drop_last(), depth);
        assert(items_of(nodes, depth).drop_last() =~= items_of(nodes.drop_last(), depth));
    }
}

/// The size that the table of a build of `nodes` records: the header and the
/// bytes of every file. `None` where that size does not fit in a `u64`.
pub fn content_size(nodes: &Vec<SourceNode>) -> (size: Option<u64>)
    ensures
        match size {
            Some(n) => n == HEADER_LEN + total_bytes(nodes@),
            None => HEADER_LEN + total_bytes(nodes@) > u64::MAX,
        },
{
    let mut size: u64 = HEADER_LEN;
    let mut i: usize = 0;
    while i < nodes.len()
        invariant
            i <= nodes@.len(),
            size == HEADER_LEN + total_bytes(nodes@.take(i as int)),
        decreases nodes@.len() - i,
    {
        let node = &nodes[i];
        proof {
            lemma_total_bytes_grows(nodes@, i + 1);
            assert(nodes@.take(i + 1).drop_last() =~= nodes@.take(i as int));
        }
        let grown = match node.kind {
            NodeKind::LEAF => size.checked_add(node.data.len() as u64),
            NodeKind::BRANCH => Some(size),
        };
        match grown {
            Some(n) => {
                size = n;
            },
            None => {
                return None;
            },
        }
        i += 1;
    }
    assert(nodes@.take(i as int) =~= nodes@);
    Some(size)
}

/// Packs the nodes of a source tree, in walk order, into an archive, and
/// returns its metadata file and its content file.
///
/// The first `depth` components of every node's path are those of the source
/// root. An absent dictionary is the empty one. The header and the files
/// together must fit in a `u64`, the type of the table's offsets; see
/// `content_size`.
pub fn build(nodes: &Vec<SourceNode>, depth: usize, dictionary: Option<&[u8]>) -> (r: Result<
    (Vec<u8>, Vec<u8>),
    PakReadErr,
>)
    requires
        HEADER_LEN + total_bytes(nodes@) <= u64::MAX,
    ensures
        build_result(items_of(nodes@, depth as nat), dictionary_bytes(dictionary), files_view(r)),
{
    let ghost items = items_of(nodes@, depth as nat);
    let none: Vec<u8> = Vec::new();
    let primer: &[u8] = match dictionary {
        Some(bytes) => bytes,
        None => none.as_slice(),
    };
    let mut packer = Packer::new(primer)?;
    let mut i: usize = 0;
    while i < nodes.len()
        invariant
            items == items_of(nodes@, depth as nat),
            HEADER_LEN + total_bytes(nodes@) <= u64::MAX,
            i <= nodes@.len(),
            packer.dictionary() == dictionary_or_empty(dictionary_bytes(dictionary)),
            packer.rows() == packed_rows(items.take(i as int)),
            packer.stream() == packed_stream(items.take(i as int)),
        decreases nodes@.len() - i,
    {
        let node = &nodes[i];
        proof {
            lemma_total_bytes_grows(nodes@, i + 1);
            lemma_stream_len(nodes@.take(i + 1), depth as nat);
            assert(items_of(nodes@.take(i + 1), depth as nat) =~= items.take(i + 1));
            assert(items.take(i + 1).drop_last() =~= items.take(i as int));
        }
        let path = logical_path(&node.components, depth);
        packer = packer.add(path, node.name.clone(), node.kind, node.data.as_slice())?;
        i += 1;
    }
    assert(items.take(i as int) =~= items);
    packer.finish()
}

} // verus!
