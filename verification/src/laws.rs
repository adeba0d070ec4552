//! What holds of every archive that the builder makes, and of every archive
//! that the reader opens.

use vstd::prelude::*;
use crate::{build_result, items_of, SourceNode};
use crate::builder::{body_of, is_archive_of, node_at, packed_rows, packed_stream, Item};
use crate::crc::{checksum_of, EMPTY_CHECKSUM};
use crate::datastruct::{
    dir_magic, distinct_paths, has_path, index_of_path, lemma_put_row, rows_map, NodeKind,
    NodeView, Row, HEADER_LEN,
};
use crate::err::{PakErrKind, PakReadErr};
use crate::metafile::lemma_cooked_raw_table;
use crate::path::{below_root, is_normal, joined, normalized, spec_logical_path, texts};
use crate::reader::{dictionary_or_empty, opened, read_result};
use crate::zstream::zstd_decoded;

verus! {

/// The length of the stream before node `i` is added.
pub open spec fn offset_of(items: Seq<Item>, i: int) -> int {
    packed_stream(items.take(i)).len() as int
}

/// No two entries overlap: of any two, one ends where or before the other
/// starts.
pub open spec fn ranges_disjoint(rows: Seq<Row>) -> bool {
    forall|i: int, j: int|
        0 <= i < rows.len() && 0 <= j < rows.len() && i != j ==> (#[trigger] rows[i]).1.end <= (
        #[trigger] rows[j]).1.start || rows[j].1.end <= rows[i].1.start
}

/// Every entry lies between the header and `limit`.
pub open spec fn ranges_within(rows: Seq<Row>, limit: int) -> bool {
    forall|i: int|
        0 <= i < rows.len() ==> HEADER_LEN <= (#[trigger] rows[i]).1.start <= rows[i].1.end
            <= limit
}

/// Every directory has an empty range and the checksum of nothing.
pub open spec fn branches_empty(rows: Seq<Row>) -> bool {
    forall|i: int|
        0 <= i < rows.len() && (#[trigger] rows[i]).1.kind == NodeKind::BRANCH ==> rows[i].1.start
            == rows[i].1.end && rows[i].1.hash == EMPTY_CHECKSUM
}

/// The lengths of all the ranges, added up.
pub open spec fn total_span(rows: Seq<Row>) -> int
    decreases rows.len(),
{
    if rows.len() == 0 {
        0
    } else {
        total_span(rows.drop_last()) + (rows.last().1.end - rows.last().1.start)
    }
}

/// No two nodes have the same logical path.
pub open spec fn distinct_items(items: Seq<Item>) -> bool {
    forall|i: int, j: int|
        0 <= i < j < items.len() ==> (#[trigger] items[i]).path != (#[trigger] items[j]).path
}

/// The stream grows with the list of nodes.
pub proof fn lemma_offset_within(items: Seq<Item>, i: int)
    requires
        0 <= i <= items.len(),
    ensures
        offset_of(items, i) <= packed_stream(items).len(),
        i < items.len() ==> offset_of(items, i) + body_of(items[i].kind, items[i].data).len()
            <= packed_stream(items).len(),
    decreases items.len() - i,
{
    if i < items.len() {
        lemma_offset_within(items, i + 1);
        assert(items.take(i + 1).drop_last() =~= items.take(i));
    } else {
        assert(items.take(i) =~= items);
    }
}

/// The packed table has distinct paths, and each of its paths is the path of
/// a node.
pub proof fn lemma_packed_rows_paths(items: Seq<Item>)
    ensures
        distinct_paths(packed_rows(items)),
        forall|p: Seq<char>|
            has_path(packed_rows(items), p) ==> exists|j: int|
                0 <= j < items.len() && (#[trigger] items[j]).path == p,
    decreases items.len(),
{
    if items.len() > 0 {
        let front = items.drop_last();
        let last = items.last();
        let node = node_at(packed_stream(front).len(), last.name, last.kind, last.data);
        lemma_packed_rows_paths(front);
        lemma_put_row(packed_rows(front), last.path, node);
        assert forall|p: Seq<char>| has_path(packed_rows(items), p) implies exists|j: int|
            0 <= j < items.len() && (#[trigger] items[j]).path == p by {
            if p != last.path {
                assert(has_path(packed_rows(front), p));
                let j = choose|j: int| 0 <= j < front.len() && (#[trigger] front[j]).path == p;
                assert(items[j].path == p);
            }
        }
    }
}

/// **Ranges.** In the table of any build, every entry lies between the
/// header and the end of the stream, no two entries overlap, and every
/// directory has an empty range and the checksum of nothing.
pub proof fn law_ranges(items: Seq<Item>)
    requires
        HEADER_LEN + packed_stream(items).len() <= u64::MAX,
    ensures
        ranges_within(packed_rows(items), HEADER_LEN + packed_stream(items).len()),
        ranges_disjoint(packed_rows(items)),
        branches_empty(packed_rows(items)),
    decreases items.len(),
{
    if items.len() > 0 {
        let front = items.drop_last();
        let last = items.last();
        let old_rows = packed_rows(front);
        let node = node_at(packed_stream(front).len(), last.name, last.kind, last.data);
        law_ranges(front);
        lemma_packed_rows_paths(front);
        lemma_put_row(old_rows, last.path, node);
        // The new entry starts where every older one has ended, and every
        // line but the new one is as it was.
        let rows = packed_rows(items);
        let at = if has_path(old_rows, last.path) {
            index_of_path(old_rows, last.path)
        } else {
            old_rows.len() as int
        };
        assert(rows[at].1 == node);
        assert forall|i: int| 0 <= i < rows.len() && i != at implies (#[trigger] rows[i])
            == old_rows[i] by {}
    }
}

/// **The ranges fill the stream.** Where no two nodes share a logical path,
/// the lengths of all the ranges and the header add up to the size that the
/// table records.
pub proof fn law_ranges_fill_stream(items: Seq<Item>)
    requires
        HEADER_LEN + packed_stream(items).len() <= u64::MAX,
        distinct_items(items),
    ensures
        packed_rows(items).len() == items.len(),
        HEADER_LEN + total_span(packed_rows(items)) == HEADER_LEN + packed_stream(items).len(),
    decreases items.len(),
{
    if items.len() > 0 {
        let front = items.drop_last();
        let last = items.last();
        assert(distinct_items(front)) by {
            assert forall|i: int, j: int| 0 <= i < j < front.len() implies (
            #[trigger] front[i]).path != (#[trigger] front[j]).path by {
                assert(items[i].path != items[j].path);
            }
        }
        law_ranges_fill_stream(front);
        lemma_packed_rows_paths(front);
        // No earlier node has the last node's path, so its line is a new one.
        if has_path(packed_rows(front), last.path) {
            let j = choose|j: int| 0 <= j < front.len() && (#[trigger] front[j]).path == last.path;
            assert(items[j].path != items[items.len() - 1].path);
        }
        assert(packed_rows(items).drop_last() =~= packed_rows(front));
    }
}

/// The entry that the packed table holds for the path of node `i`, where no
/// later node has that path.
pub proof fn lemma_packed_entry(items: Seq<Item>, i: int)
    requires
        0 <= i < items.len(),
        forall|j: int| i < j < items.len() ==> (#[trigger] items[j]).path != items[i].path,
    ensures
        rows_map(packed_rows(items)).contains_key(items[i].path),
        rows_map(packed_rows(items))[items[i].path] == node_at(
            offset_of(items, i) as nat,
            items[i].name,
            items[i].kind,
            items[i].data,
        ),
    decreases items.len(),
{
    let front = items.drop_last();
    let last = items.last();
    let node = node_at(packed_stream(front).len(), last.name, last.kind, last.data);
    lemma_packed_rows_paths(front);
    lemma_put_row(packed_rows(front), last.path, node);
    if i < items.len() - 1 {
        assert forall|j: int| i < j < front.len() implies (#[trigger] front[j]).path
            != front[i].path by {
            assert(items[j].path != items[i].path);
        }
        lemma_packed_entry(front, i);
        assert(front.take(i) =~= items.take(i));
        assert(items[items.len() - 1].path != items[i].path);
    } else {
        assert(items.take(i) =~= front);
    }
}

/// The bytes that node `i` added lie in the stream where its entry says.
pub proof fn lemma_packed_body(items: Seq<Item>, i: int)
    requires
        0 <= i < items.len(),
    ensures
        offset_of(items, i) + body_of(items[i].kind, items[i].data).len() <= packed_stream(
            items,
        ).len(),
        packed_stream(items).subrange(
            offset_of(items, i),
            offset_of(items, i) + body_of(items[i].kind, items[i].data).len(),
        ) == body_of(items[i].kind, items[i].data),
    decreases items.len(),
{
    let front = items.drop_last();
    lemma_offset_within(items, i);
    if i < items.len() - 1 {
        lemma_packed_body(front, i);
        assert(front.take(i) =~= items.take(i));
    } else {
        assert(items.take(i) =~= front);
    }
}

/// **Round trip.** Take the two files of an archive built from `items` with
/// `dictionary`, and a node among `items` whose logical path no later node
/// has. Opening the archive succeeds and gives the packed table with its
/// content size; the entry at the node's path records
/// the checksum of the node's bytes and a range of their length; and reading
/// that path with the same dictionary gives exactly those bytes: a file's
/// bytes, and none for a directory.
pub proof fn law_round_trip(
    items: Seq<Item>,
    dictionary: Seq<u8>,
    meta: Seq<u8>,
    content: Seq<u8>,
    i: int,
)
    requires
        HEADER_LEN + packed_stream(items).len() <= u64::MAX,
        is_archive_of(meta, content, dictionary, packed_rows(items), packed_stream(items)),
        0 <= i < items.len(),
        forall|j: int| i < j < items.len() ==> (#[trigger] items[j]).path != items[i].path,
    ensures
        opened(meta, content) == Ok::<(u64, Seq<Row>), PakErrKind>(
            ((HEADER_LEN + packed_stream(items).len()) as u64, packed_rows(items)),
        ),
        rows_map(packed_rows(items)).contains_key(items[i].path),
        rows_map(packed_rows(items))[items[i].path].kind == items[i].kind,
        rows_map(packed_rows(items))[items[i].path].hash == checksum_of(
            body_of(items[i].kind, items[i].data),
        ),
        rows_map(packed_rows(items))[items[i].path].end - rows_map(
            packed_rows(items),
        )[items[i].path].start == body_of(items[i].kind, items[i].data).len(),
        read_result(
            rows_map(packed_rows(items)),
            zstd_decoded(content.skip(16), dictionary),
            items[i].path,
        ) == Ok::<Option<Seq<u8>>, PakErrKind>(Some(body_of(items[i].kind, items[i].data))),
{
    lemma_packed_rows_paths(items);
    lemma_cooked_raw_table(packed_rows(items));
    lemma_packed_entry(items, i);
    lemma_packed_body(items, i);
}

/// **Magic rejection.** A metadata file whose first sixteen bytes are not the
/// expected magic, be it in a single byte, does not open: the result is a
/// format error, whatever the rest of the file and the content file hold.
pub proof fn law_magic_rejection(meta: Seq<u8>, content: Seq<u8>, k: int)
    requires
        0 <= k < 16,
        k < meta.len() ==> meta[k] != dir_magic()[k],
    ensures
        opened(meta, content) == Err::<(u64, Seq<Row>), PakErrKind>(PakErrKind::FormatError),
{
    if meta.len() >= 16 {
    }
}

/// **Absent dictionary.** To a build, no dictionary and an empty dictionary
/// are one input: the compressor is primed with the same bytes, and the
/// build is held to the same result, so that whatever one may return, the
/// other may return. The law speaks of what a build is held to; the
/// compressed bytes themselves are the compressor's to choose.
pub proof fn law_absent_dictionary_is_empty(items: Seq<Item>, r: Result<(Seq<u8>, Seq<u8>), PakReadErr>)
    ensures
        build_result(items, None, r) == build_result(items, Some(Seq::<u8>::empty()), r),
        dictionary_or_empty(None) == dictionary_or_empty(Some(Seq::<u8>::empty())),
{
}

/// **Corruption detection.** Take the table of an archive built from `items`
/// and a node whose logical path no later node has, and let the compressed
/// stream be any bytes at all, such as the built stream with a byte flipped.
/// Reading the node's path then ends in a decode error or in an integrity
/// error, or it returns bytes that have the length and the checksum of the
/// node's bytes.
pub proof fn law_corruption_detection(items: Seq<Item>, dictionary: Seq<u8>, frame: Seq<u8>, i: int)
    requires
        HEADER_LEN + packed_stream(items).len() <= u64::MAX,
        0 <= i < items.len(),
        forall|j: int| i < j < items.len() ==> (#[trigger] items[j]).path != items[i].path,
    ensures
        match read_result(
            rows_map(packed_rows(items)),
            zstd_decoded(frame, dictionary),
            items[i].path,
        ) {
            Ok(Some(bytes)) => bytes.len() == body_of(items[i].kind, items[i].data).len()
                && checksum_of(bytes) == checksum_of(body_of(items[i].kind, items[i].data)),
            Ok(None) => false,
            Err(e) => e == PakErrKind::DecodeError || e == PakErrKind::IntegrityError,
        },
{
    lemma_packed_entry(items, i);
    lemma_offset_within(items, i);
}

/// **Integrity.** A read that returns bytes returns the bytes of the entry's
/// range in the uncompressed stream, and their checksum is the recorded one:
/// bytes with another checksum are never returned.
pub proof fn law_integrity(
    table: Map<Seq<char>, NodeView>,
    decoded: Option<Seq<u8>>,
    path: Seq<char>,
    bytes: Seq<u8>,
)
    requires
        read_result(table, decoded, path) == Ok::<Option<Seq<u8>>, PakErrKind>(Some(bytes)),
    ensures
        table.contains_key(path),
        decoded is Some,
        checksum_of(bytes) == table[path].hash,
        bytes == decoded->0.subrange(
            table[path].start - HEADER_LEN,
            table[path].end - HEADER_LEN,
        ),
{
}

/// **Keys.** Every path in the table of a build is a logical path: it starts
/// with `/` and holds no `\`.
pub proof fn law_keys_are_normal(nodes: Seq<SourceNode>, depth: nat)
    ensures
        forall|p: Seq<char>|
            rows_map(packed_rows(items_of(nodes, depth))).contains_key(p) ==> is_normal(p),
{
    let items = items_of(nodes, depth);
    lemma_packed_rows_paths(items);
    assert forall|p: Seq<char>| rows_map(packed_rows(items)).contains_key(p) implies is_normal(
        p,
    ) by {
        let j = choose|j: int| 0 <= j < items.len() && (#[trigger] items[j]).path == p;
        assert(p == spec_logical_path(texts(nodes[j].components@), depth));
    }
}

/// The separators of the components have no part in where they are joined.
proof fn lemma_normalized_joined(parts: Seq<Seq<char>>)
    ensures
        normalized(joined(parts.map_values(|p: Seq<char>| normalized(p)))) == normalized(
            joined(parts),
        ),
    decreases parts.len(),
{
    let turned = parts.map_values(|p: Seq<char>| normalized(p));
    if parts.len() > 1 {
        lemma_normalized_joined(parts.drop_last());
        assert(turned.drop_last() =~= parts.drop_last().map_values(|p: Seq<char>| normalized(p)));
        let a = joined(turned.drop_last());
        assert(normalized(a + seq!['/'] + normalized(parts.last())) =~= normalized(a) + seq!['/']
            + normalized(parts.last()));
    }
}

/// **Path normalisation.** The logical path does not depend on the
/// separator convention of the host: components written with `\` and the
/// same components written with `/` give one path, which starts with `/` and
/// holds no `\`.
pub proof fn law_path_normalization(components: Seq<Seq<char>>, depth: nat)
    ensures
        spec_logical_path(components.map_values(|p: Seq<char>| normalized(p)), depth)
            == spec_logical_path(components, depth),
        spec_logical_path(components, depth)[0] == '/',
        forall|i: int|
            0 <= i < spec_logical_path(components, depth).len() ==> spec_logical_path(
                components,
                depth,
            )[i] != '\\',
{
    let turned = components.map_values(|p: Seq<char>| normalized(p));
    lemma_normalized_joined(below_root(components, depth));
    assert(below_root(turned, depth) =~= below_root(components, depth).map_values(
        |p: Seq<char>| normalized(p),
    ));
}

} // verus!
