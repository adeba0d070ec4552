//! The metadata model: entry kinds, entry descriptors, and the table that
//! maps each logical path to its descriptor.

use vstd::prelude::*;
use vstd::string::StringExecFns;

verus! {

/// Number of bytes taken by each of the two magic headers.
pub const HEADER_LEN: u64 = 16;

/// The magic header of the metadata table: twelve identifier bytes and four
/// version bytes.
pub open spec fn dir_magic() -> Seq<u8> {
    seq![98u8, 101, 118, 121, 112, 97, 107, 102, 115, 100, 105, 114, 0, 7, 2, 7]
}

/// The magic header that opens the content stream.
pub open spec fn dat_magic() -> Seq<u8> {
    seq![98u8, 101, 118, 121, 112, 97, 107, 102, 115, 100, 97, 116, 0, 7, 2, 7]
}

/// The metadata magic as an array.
pub fn dir_magic_bytes() -> (m: [u8; 16])
    ensures
        m@ == dir_magic(),
{
    let m: [u8; 16] = [98, 101, 118, 121, 112, 97, 107, 102, 115, 100, 105, 114, 0, 7, 2, 7];
    m
}

/// The content-stream magic as an array.
pub fn dat_magic_bytes() -> (m: [u8; 16])
    ensures
        m@ == dat_magic(),
{
    let m: [u8; 16] = [98, 101, 118, 121, 112, 97, 107, 102, 115, 100, 97, 116, 0, 7, 2, 7];
    m
}

/// Whether an entry is a file or a directory.
#[derive(Debug, Clone, Copy, PartialEq, Eq, Structural)]
pub enum NodeKind {
    /// A file: it has content.
    LEAF,
    /// A directory: it has none, and its range is empty.
    BRANCH,
}

impl Default for NodeKind {
    fn default() -> (kind: NodeKind)
        ensures
            kind == NodeKind::LEAF,
    {
        NodeKind::LEAF
    }
}

/// What the table records of one entry.
#[derive(Debug)]
pub struct NodeMetadata {
    /// The final path component.
    pub name: String,
    pub kind: NodeKind,
    /// CRC-32 of the entry's uncompressed bytes.
    pub hash: u32,
    /// First offset of the entry in the logical content stream.
    pub start: u64,
    /// One past the last offset of the entry in the logical content stream.
    pub end: u64,
}

/// The mathematical value of a `NodeMetadata`.
pub ghost struct NodeView {
    pub name: Seq<char>,
    pub kind: NodeKind,
    pub hash: u32,
    pub start: u64,
    pub end: u64,
}

impl View for NodeMetadata {
    type V = NodeView;

    open spec fn view(&self) -> NodeView {
        NodeView {
            name: self.name@,
            kind: self.kind,
            hash: self.hash,
            start: self.start,
            end: self.end,
        }
    }
}

impl Default for NodeMetadata {
    fn default() -> (node: NodeMetadata)
        ensures
            node@ == (NodeView {
                name: Seq::<char>::empty(),
                kind: NodeKind::LEAF,
                hash: 0,
                start: 0,
                end: 0,
            }),
    {
        NodeMetadata { name: String::new(), kind: NodeKind::LEAF, hash: 0, start: 0, end: 0 }
    }
}

impl Clone for NodeMetadata {
    fn clone(&self) -> (node: NodeMetadata)
        ensures
            node@ == self@,
    {
        NodeMetadata {
            name: self.name.clone(),
            kind: self.kind,
            hash: self.hash,
            start: self.start,
            end: self.end,
        }
    }
}

/// One line of the table: a logical path and its descriptor.
pub type Row = (Seq<char>, NodeView);

/// Some line of `rows` is for `path`.
pub open spec fn has_path(rows: Seq<Row>, path: Seq<char>) -> bool {
    exists|i: int| 0 <= i < rows.len() && (#[trigger] rows[i]).0 == path
}

/// The position of a line for `path`, where there is one.
pub open spec fn index_of_path(rows: Seq<Row>, path: Seq<char>) -> int {
    choose|i: int| 0 <= i < rows.len() && (#[trigger] rows[i]).0 == path
}

/// No path has two lines.
pub open spec fn distinct_paths(rows: Seq<Row>) -> bool {
    forall|i: int, j: int|
        0 <= i < j < rows.len() ==> (#[trigger] rows[i]).0 != (#[trigger] rows[j]).0
}

/// The mapping that lines with distinct paths stand for.
pub open spec fn rows_map(rows: Seq<Row>) -> Map<Seq<char>, NodeView> {
    Map::new(|p: Seq<char>| has_path(rows, p), |p: Seq<char>| rows[index_of_path(rows, p)].1)
}

/// `rows` after `path` has been set to `node`: the line of `path` is
/// replaced where it stands, and a new path goes to the end.
pub open spec fn put_row(rows: Seq<Row>, path: Seq<char>, node: NodeView) -> Seq<Row> {
    if has_path(rows, path) {
        rows.update(index_of_path(rows, path), (path, node))
    } else {
        rows.push((path, node))
    }
}

/// The table that a list of lines yields when they are put one after the
/// other: of two lines for one path the later one stays.
pub open spec fn collect_rows(lines: Seq<Row>) -> Seq<Row>
    decreases lines.len(),
{
    if lines.len() == 0 {
        Seq::empty()
    } else {
        put_row(collect_rows(lines.drop_last()), lines.last().0, lines.last().1)
    }
}

/// The lines that a vector of entries stands for.
pub open spec fn rows_of(entries: Seq<(String, NodeMetadata)>) -> Seq<Row> {
    Seq::new(entries.len(), |i: int| (entries[i].0@, entries[i].1@))
}

/// In a table with distinct paths, the line at `i` is what the mapping holds
/// for its path.
pub proof fn lemma_rows_map_at(rows: Seq<Row>, i: int)
    requires
        distinct_paths(rows),
        0 <= i < rows.len(),
    ensures
        has_path(rows, rows[i].0),
        index_of_path(rows, rows[i].0) == i,
        rows_map(rows).contains_key(rows[i].0),
        rows_map(rows)[rows[i].0] == rows[i].1,
{
    let j = index_of_path(rows, rows[i].0);
    assert(i <= j && j <= i);
}

/// Putting a line keeps the paths distinct and acts on the mapping as an
/// insertion.
pub proof fn lemma_put_row(rows: Seq<Row>, path: Seq<char>, node: NodeView)
    requires
        distinct_paths(rows),
    ensures
        distinct_paths(put_row(rows, path, node)),
        rows_map(put_row(rows, path, node)) == rows_map(rows).insert(path, node),
        has_path(rows, path) ==> put_row(rows, path, node).len() == rows.len(),
        !has_path(rows, path) ==> put_row(rows, path, node).len() == rows.len() + 1,
{
    let out = put_row(rows, path, node);
    let at = if has_path(rows, path) {
        index_of_path(rows, path)
    } else {
        rows.len() as int
    };
    // Every line but the one at `at` is as it was, and that one is the new line.
    assert(out[at] == (path, node));
    assert forall|i: int| 0 <= i < rows.len() && i != at implies (#[trigger] out[i]) == rows[i] by {}
    assert forall|p: Seq<char>| has_path(out, p) == (p == path || has_path(rows, p)) by {
        if has_path(rows, p) {
            assert(out[index_of_path(rows, p)].0 == p);
        }
    }
    assert forall|p: Seq<char>| has_path(out, p) implies #[trigger] rows_map(out)[p]
        == rows_map(rows).insert(path, node)[p] by {
        let i = index_of_path(out, p);
        lemma_rows_map_at(out, i);
        if p != path {
            lemma_rows_map_at(rows, i);
        } else {
            lemma_rows_map_at(out, at);
        }
    }
}

/// The archive's directory: a magic header, the size of the logical content
/// stream, and one descriptor for each logical path.
///
/// The entries are kept in the order in which their paths first came; no path
/// occurs twice.
#[derive(Debug)]
pub struct MetadataContainer {
    magic: [u8; 16],
    paksize: u64,
    table: Vec<(String, NodeMetadata)>,
}

impl View for MetadataContainer {
    type V = Map<Seq<char>, NodeView>;

    /// The mapping from logical path to descriptor.
    closed spec fn view(&self) -> Map<Seq<char>, NodeView> {
        rows_map(self.rows())
    }
}

impl MetadataContainer {
    /// No path occurs twice.
    #[verifier::type_invariant]
    pub closed spec fn wf(self) -> bool {
        distinct_paths(rows_of(self.table@))
    }

    /// The magic header.
    pub closed spec fn spec_magic(self) -> Seq<u8> {
        self.magic@
    }

    /// The size of the logical content stream, header included.
    pub closed spec fn spec_paksize(self) -> u64 {
        self.paksize
    }

    /// The entries in table order.
    pub closed spec fn rows(self) -> Seq<Row> {
        rows_of(self.table@)
    }

    /// The view is the mapping of the rows, and the rows have distinct paths.
    pub proof fn lemma_view(self)
        requires
            self.wf(),
        ensures
            self@ == rows_map(self.rows()),
            distinct_paths(self.rows()),
    {
    }

    /// An empty table with the metadata magic, whose content stream holds the
    /// header only.
    pub fn new() -> (meta: MetadataContainer)
        ensures
            meta.spec_magic() == dir_magic(),
            meta.spec_paksize() == HEADER_LEN,
            meta.rows() == Seq::<Row>::empty(),
            meta@ == Map::<Seq<char>, NodeView>::empty(),
    {
        let meta = MetadataContainer {
            magic: dir_magic_bytes(),
            paksize: HEADER_LEN,
            table: Vec::new(),
        };
        meta
    }

    /// A table with the given header fields, filled with `entries` in order:
    /// of two entries for one path the later one stays.
    pub fn from_parts(magic: [u8; 16], paksize: u64, entries: Vec<(String, NodeMetadata)>) -> (meta:
        MetadataContainer)
        ensures
            meta.spec_magic() == magic@,
            meta.spec_paksize() == paksize,
            meta.rows() == collect_rows(rows_of(entries@)),
    {
        let mut meta = MetadataContainer { magic, paksize, table: Vec::new() };
        let ghost lines = rows_of(entries@);
        for line in it: entries
            invariant
                lines == rows_of(it.seq()),
                meta.spec_magic() == magic@,
                meta.spec_paksize() == paksize,
                meta.rows() == collect_rows(lines.take(it.index() as int)),
        {
            let ghost done = it.index() as int;
            let (path, node) = line;
            meta.insert(path, node);
            assert(lines.take(done + 1).drop_last() =~= lines.take(done));
        }
        assert(lines.take(lines.len() as int) =~= lines);
        meta
    }

    /// The magic header.
    pub fn magic(&self) -> (m: [u8; 16])
        ensures
            m@ == self.spec_magic(),
    {
        self.magic
    }

    /// The size of the logical content stream, header included.
    pub fn paksize(&self) -> (n: u64)
        ensures
            n == self.spec_paksize(),
    {
        self.paksize
    }

    /// The number of entries.
    pub fn len(&self) -> (n: usize)
        ensures
            n == self.rows().len(),
    {
        self.table.len()
    }

    /// The entry at position `i` of the table: its path and its descriptor.
    pub fn entry_at(&self, i: usize) -> (line: (&String, &NodeMetadata))
        requires
            i < self.rows().len(),
        ensures
            (line.0@, line.1@) == self.rows()[i as int],
    {
        let line = &self.table[i];
        (&line.0, &line.1)
    }

    /// Where `path` stands in the table.
    fn position(&self, path: &String) -> (at: Option<usize>)
        ensures
            match at {
                Some(i) => i < self.rows().len() && self.rows()[i as int].0 == path@
                    && has_path(self.rows(), path@) && index_of_path(self.rows(), path@) == i,
                None => !has_path(self.rows(), path@),
            },
    {
        proof {
            use_type_invariant(self);
        }
        let mut i: usize = 0;
        while i < self.table.len()
            invariant
                self.wf(),
                i <= self.table.len(),
                forall|j: int| 0 <= j < i ==> (#[trigger] self.rows()[j]).0 != path@,
            decreases self.table.len() - i,
        {
            if self.table[i].0 == *path {
                proof {
                    lemma_rows_map_at(self.rows(), i as int);
                }
                return Some(i);
            }
            i += 1;
        }
        None
    }

    /// The descriptor of `path`, if the table has one.
    pub fn get(&self, path: &str) -> (found: Option<&NodeMetadata>)
        ensures
            match found {
                Some(node) => self@.contains_key(path@) && self@[path@] == node@,
                None => !self@.contains_key(path@),
            },
    {
        proof {
            use_type_invariant(self);
        }
        let key = String::from_str(path);
        match self.position(&key) {
            Some(i) => {
                proof {
                    lemma_rows_map_at(self.rows(), i as int);
                }
                Some(&self.table[i].1)
            },
            None => None,
        }
    }

    /// Whether the table has an entry for `path`.
    pub fn contains(&self, path: &str) -> (found: bool)
        ensures
            found == self@.contains_key(path@),
    {
        self.get(path).is_some()
    }

    /// Sets the descriptor of `path`. A path that the table already has keeps
    /// its place; a new one goes to the end.
    pub fn insert(&mut self, path: String, node: NodeMetadata)
        ensures
            final(self).rows() == put_row(old(self).rows(), path@, node@),
            final(self)@ == old(self)@.insert(path@, node@),
            final(self).spec_magic() == old(self).spec_magic(),
            final(self).spec_paksize() == old(self).spec_paksize(),
    {
        proof {
            use_type_invariant(&*self);
            lemma_put_row(self.rows(), path@, node@);
        }
        let ghost before = self.rows();
        let at = self.position(&path);
        // The table leaves `self` while it changes, and comes back whole.
        let mut taken = MetadataContainer {
            magic: self.magic,
            paksize: self.paksize,
            table: Vec::new(),
        };
        core::mem::swap(self, &mut taken);
        let MetadataContainer { magic, paksize, table } = taken;
        let mut table = table;
        match at {
            Some(i) => {
                table.set(i, (path, node));
            },
            None => {
                table.push((path, node));
            },
        }
        assert(rows_of(table@) =~= put_row(before, path@, node@));
        *self = MetadataContainer { magic, paksize, table };
    }

    /// Records an entry of `written` bytes at the end of the content stream:
    /// it starts where the stream ended, and the stream grows by `written`.
    pub fn record(&mut self, path: String, name: String, kind: NodeKind, written: u64, hash: u32)
        requires
            old(self).spec_paksize() + written <= u64::MAX,
        ensures
            final(self).rows() == put_row(
                old(self).rows(),
                path@,
                appended_node(old(self).spec_paksize(), name@, kind, written, hash),
            ),
            final(self)@ == old(self)@.insert(
                path@,
                appended_node(old(self).spec_paksize(), name@, kind, written, hash),
            ),
            final(self).spec_paksize() == old(self).spec_paksize() + written,
            final(self).spec_magic() == old(self).spec_magic(),
    {
        let start = self.paksize;
        let end = start + written;
        self.insert(path, NodeMetadata { name, kind, hash, start, end });
        proof {
            use_type_invariant(&*self);
        }
        self.paksize = end;
    }
}

/// The descriptor of an entry of `written` bytes appended to a content stream
/// of `paksize` bytes.
pub open spec fn appended_node(
    paksize: u64,
    name: Seq<char>,
    kind: NodeKind,
    written: u64,
    hash: u32,
) -> NodeView {
    NodeView { name, kind, hash, start: paksize, end: (paksize + written) as u64 }
}

} // verus!
