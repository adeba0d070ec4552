//! The metadata file: the table in the `bincode` crate's encoding.
//!
//! The file holds the magic header as sixteen bytes, the size of the content
//! stream, and one line for each entry: its path, its name, a tag for its
//! kind, its checksum, and its range.

use vstd::prelude::*;
use crate::datastruct::{
    collect_rows, dir_magic, rows_of, MetadataContainer, NodeKind, NodeMetadata, NodeView, Row,
};
use crate::err::{PakErrKind, PakReadErr};

verus! {

/// `bincode::ErrorKind`, the error of the serialiser. It is carried, never
/// looked into.
#[verifier::external_type_specification]
#[verifier::external_body]
pub struct ExBincodeErrorKind(bincode::ErrorKind);

/// One entry as the file holds it: the path, then the name, the kind's tag,
/// the checksum, and the two ends of the range.
pub type RawRow = (String, (String, u32, u32, u64, u64));

/// The mathematical value of a `RawRow`.
pub type RawLine = (Seq<char>, (Seq<char>, u32, u32, u64, u64));

/// The bytes that `bincode` writes for a magic header, a size and a list of
/// lines, or `None` where it reports an error.
pub uninterp spec fn bincode_bytes(
    magic: Seq<u8>,
    paksize: u64,
    lines: Seq<(Seq<char>, (Seq<char>, u32, u32, u64, u64))>,
) -> Option<Seq<u8>>;

/// What `bincode` reads from `bytes` as a magic header, a size and a list of
/// lines, or `None` where it reports an error.
pub uninterp spec fn bincode_value(bytes: Seq<u8>) -> Option<
    (Seq<u8>, u64, Seq<(Seq<char>, (Seq<char>, u32, u32, u64, u64))>),
>;

/// The lines that a vector of raw rows stands for.
pub open spec fn raw_lines(rows: Seq<RawRow>) -> Seq<RawLine> {
    Seq::new(
        rows.len(),
        |i: int| (rows[i].0@, (rows[i].1.0@, rows[i].1.1, rows[i].1.2, rows[i].1.3, rows[i].1.4)),
    )
}

/// `bincode::serialize` on the triple of header, size and rows: the bytes it
/// returns, or its error. `bincode::deserialize` reads from these bytes what
/// was written.
#[verifier::external_body]
fn bincode_serialize(magic: &[u8; 16], paksize: u64, rows: &Vec<RawRow>) -> (r: Result<
    Vec<u8>,
    Box<bincode::ErrorKind>,
>)
    ensures
        match r {
            Ok(bytes) => bincode_bytes(magic@, paksize, raw_lines(rows@)) == Some(bytes@)
                && bincode_value(bytes@) == Some((magic@, paksize, raw_lines(rows@))),
            Err(_) => bincode_bytes(magic@, paksize, raw_lines(rows@)) is None,
        },
{
    bincode::serialize(&(magic, paksize, rows))
}

/// `bincode::deserialize` of a triple of header, size and rows: what it
/// reads, or its error.
#[verifier::external_body]
fn bincode_deserialize(bytes: &[u8]) -> (r: Result<
    ([u8; 16], u64, Vec<RawRow>),
    Box<bincode::ErrorKind>,
>)
    ensures
        match r {
            Ok(value) => bincode_value(bytes@) == Some((value.0@, value.1, raw_lines(value.2@))),
            Err(_) => bincode_value(bytes@) is None,
        },
{
    bincode::deserialize(bytes)
}

/// The tag that the file holds for a kind.
pub open spec fn kind_tag(kind: NodeKind) -> u32 {
    match kind {
        NodeKind::LEAF => 0,
        NodeKind::BRANCH => 1,
    }
}

/// The kind that a tag stands for, if any.
pub open spec fn tag_kind(tag: u32) -> Option<NodeKind> {
    if tag == 0 {
        Some(NodeKind::LEAF)
    } else if tag == 1 {
        Some(NodeKind::BRANCH)
    } else {
        None
    }
}

/// The line that the file holds for a row of the table.
pub open spec fn raw_of(row: Row) -> RawLine {
    (row.0, (row.1.name, kind_tag(row.1.kind), row.1.hash, row.1.start, row.1.end))
}

/// The row of the table that a line of the file stands for. Only a line
/// with a known tag stands for one.
pub open spec fn row_of(line: RawLine) -> Row {
    (
        line.0,
        NodeView {
            name: line.1.0,
            kind: tag_kind(line.1.1).unwrap(),
            hash: line.1.2,
            start: line.1.3,
            end: line.1.4,
        },
    )
}

/// The lines of the file for the rows of a table, in table order.
pub open spec fn raw_table(rows: Seq<Row>) -> Seq<RawLine> {
    Seq::new(rows.len(), |i: int| raw_of(rows[i]))
}

/// The rows that the lines of a file stand for, in file order.
pub open spec fn cooked_lines(lines: Seq<RawLine>) -> Seq<Row> {
    Seq::new(lines.len(), |i: int| row_of(lines[i]))
}

/// Every line has a known tag.
pub open spec fn tags_known(lines: Seq<RawLine>) -> bool {
    forall|i: int| 0 <= i < lines.len() ==> tag_kind((#[trigger] lines[i]).1.1) is Some
}

/// What a parsed file is taken for: a foreign magic header is a format
/// error, an unknown tag a deserialisation error, and anything else a table
/// in which, of two lines for one path, the later one stays.
pub open spec fn table_of_parsed(magic: Seq<u8>, paksize: u64, lines: Seq<RawLine>) -> Result<
    (u64, Seq<Row>),
    PakErrKind,
> {
    if magic != dir_magic() {
        Err(PakErrKind::FormatError)
    } else if !tags_known(lines) {
        Err(PakErrKind::DeserializeError)
    } else {
        Ok((paksize, collect_rows(cooked_lines(lines))))
    }
}

/// The bytes open with the magic header of the metadata file.
pub open spec fn has_dir_magic(bytes: Seq<u8>) -> bool {
    bytes.len() >= 16 && bytes.take(16) == dir_magic()
}

/// The bytes of the metadata file for a table, or `None` where the
/// serialiser reports an error.
pub open spec fn metadata_bytes(magic: Seq<u8>, paksize: u64, rows: Seq<Row>) -> Option<Seq<u8>> {
    bincode_bytes(magic, paksize, raw_table(rows))
}

/// What the bytes of a metadata file are taken for. The magic header is
/// looked at first, where it lies in the file; then `bincode` reads the
/// file.
pub open spec fn table_of_bytes(bytes: Seq<u8>) -> Result<(u64, Seq<Row>), PakErrKind> {
    if !has_dir_magic(bytes) {
        Err(PakErrKind::FormatError)
    } else {
        match bincode_value(bytes) {
            None => Err(PakErrKind::DeserializeError),
            Some(parsed) => table_of_parsed(parsed.0, parsed.1, parsed.2),
        }
    }
}

/// The lines written for a table with distinct paths are read back as that
/// table.
pub proof fn lemma_cooked_raw_table(rows: Seq<Row>)
    requires
        crate::datastruct::distinct_paths(rows),
    ensures
        tags_known(raw_table(rows)),
        cooked_lines(raw_table(rows)) == rows,
        collect_rows(rows) == rows,
{
    lemma_collect_distinct(rows);
}

/// Collecting lines whose paths are distinct already changes nothing.
pub proof fn lemma_collect_distinct(rows: Seq<Row>)
    requires
        crate::datastruct::distinct_paths(rows),
    ensures
        collect_rows(rows) == rows,
    decreases rows.len(),
{
    if rows.len() > 0 {
        lemma_collect_distinct(rows.drop_last());
    }
}

/// Whether two byte strings are equal.
pub fn bytes_equal(a: &[u8], b: &[u8]) -> (same: bool)
    ensures
        same == (a@ == b@),
{
    if a.len() != b.len() {
        return false;
    }
    let mut i: usize = 0;
    while i < a.len()
        invariant
            a@.len() == b@.len(),
            i <= a@.len(),
            a@.take(i as int) == b@.take(i as int),
        decreases a@.len() - i,
    {
        if a[i] != b[i] {
            return false;
        }
        i += 1;
    }
    assert(a@.take(a@.len() as int) =~= a@);
    assert(b@.take(b@.len() as int) =~= b@);
    true
}

/// Whether `bytes` opens with the sixteen bytes of `magic`.
pub fn starts_with_magic(bytes: &[u8], magic: &[u8; 16]) -> (yes: bool)
    ensures
        yes == (bytes@.len() >= 16 && bytes@.take(16) == magic@),
        magic@ == dir_magic() ==> yes == has_dir_magic(bytes@),
{
    if bytes.len() < 16 {
        return false;
    }
    bytes_equal(vstd::slice::slice_subrange(bytes, 0, 16), magic.as_slice())
}

impl MetadataContainer {
    /// The table as the lines of the file, in table order.
    pub fn to_raw_rows(&self) -> (rows: Vec<RawRow>)
        ensures
            raw_lines(rows@) == raw_table(self.rows()),
    {
        let mut rows: Vec<RawRow> = Vec::new();
        let count = self.len();
        let mut i: usize = 0;
        while i < count
            invariant
                count == self.rows().len(),
                i <= count,
                rows@.len() == i,
                forall|j: int|
                    0 <= j < i ==> (#[trigger] raw_lines(rows@)[j]) == raw_of(self.rows()[j]),
            decreases count - i,
        {
            let (path, node) = self.entry_at(i);
            let tag: u32 = match node.kind {
                NodeKind::LEAF => 0,
                NodeKind::BRANCH => 1,
            };
            let ghost before = rows@;
            rows.push((path.clone(), (node.name.clone(), tag, node.hash, node.start, node.end)));
            assert forall|j: int| 0 <= j < i + 1 implies (#[trigger] raw_lines(rows@)[j]) == raw_of(
                self.rows()[j],
            ) by {
                if j < i {
                    assert(raw_lines(before)[j] == raw_of(self.rows()[j]));
                }
            }
            i += 1;
        }
        rows
    }

    /// The bytes of the metadata file for this table. It fails where the
    /// serialiser does, and only there.
    pub fn to_bytes(&self) -> (r: Result<Vec<u8>, PakReadErr>)
        ensures
            match r {
                Ok(bytes) => metadata_bytes(self.spec_magic(), self.spec_paksize(), self.rows())
                    == Some(bytes@) && bincode_value(bytes@) == Some(
                    (self.spec_magic(), self.spec_paksize(), raw_table(self.rows())),
                ),
                Err(e) => e.kind() == PakErrKind::DeserializeError && metadata_bytes(
                    self.spec_magic(),
                    self.spec_paksize(),
                    self.rows(),
                ) is None,
            },
    {
        let rows = self.to_raw_rows();
        let magic = self.magic();
        match bincode_serialize(&magic, self.paksize(), &rows) {
            Ok(bytes) => Ok(bytes),
            Err(cause) => Err(PakReadErr::DeserializeError(Some(cause))),
        }
    }

    /// The table that a parsed file stands for.
    pub fn from_raw(magic: [u8; 16], paksize: u64, rows: Vec<RawRow>) -> (r: Result<
        MetadataContainer,
        PakReadErr,
    >)
        ensures
            match (r, table_of_parsed(magic@, paksize, raw_lines(rows@))) {
                (Ok(meta), Ok(table)) => meta.spec_magic() == dir_magic()
                    && meta.spec_paksize() == table.0 && meta.rows() == table.1,
                (Err(e), Err(expected)) => e.kind() == expected,
                _ => false,
            },
    {
        let expected = crate::datastruct::dir_magic_bytes();
        if !bytes_equal(magic.as_slice(), expected.as_slice()) {
            return Err(PakReadErr::FormatError);
        }
        let ghost lines = raw_lines(rows@);
        let mut entries: Vec<(String, NodeMetadata)> = Vec::new();
        for row in it: rows
            invariant
                magic@ == dir_magic(),
                lines == raw_lines(it.seq()),
                entries@.len() == it.index(),
                forall|j: int| 0 <= j < it.index() ==> tag_kind((#[trigger] lines[j]).1.1) is Some,
                forall|j: int|
                    0 <= j < it.index() ==> (#[trigger] rows_of(entries@)[j]) == row_of(lines[j]),
        {
            let ghost at = it.index() as int;
            let ghost before = entries@;
            let (path, (name, tag, hash, start, end)) = row;
            let kind = if tag == 0 {
                NodeKind::LEAF
            } else if tag == 1 {
                NodeKind::BRANCH
            } else {
                assert(tag_kind(lines[at].1.1) is None);
                return Err(PakReadErr::DeserializeError(None));
            };
            entries.push((path, NodeMetadata { name, kind, hash, start, end }));
            assert forall|j: int| 0 <= j < at + 1 implies (#[trigger] rows_of(entries@)[j]) == row_of(
                lines[j],
            ) by {
                if j < at {
                    assert(rows_of(before)[j] == row_of(lines[j]));
                }
            }
        }
        assert(rows_of(entries@) =~= cooked_lines(lines));
        Ok(MetadataContainer::from_parts(magic, paksize, entries))
    }

    /// Reads a metadata file.
    pub fn from_bytes(bytes: &[u8]) -> (r: Result<MetadataContainer, PakReadErr>)
        ensures
            match (r, table_of_bytes(bytes@)) {
                (Ok(meta), Ok(table)) => meta.spec_magic() == dir_magic()
                    && meta.spec_paksize() == table.0 && meta.rows() == table.1,
                (Err(e), Err(expected)) => e.kind() == expected,
                _ => false,
            },
    {
        let expected = crate::datastruct::dir_magic_bytes();
        if !starts_with_magic(bytes, &expected) {
            return Err(PakReadErr::FormatError);
        }
        match bincode_deserialize(bytes) {
            Ok((magic, paksize, rows)) => MetadataContainer::from_raw(magic, paksize, rows),
            Err(cause) => Err(PakReadErr::DeserializeError(Some(cause))),
        }
    }
}

} // verus!
