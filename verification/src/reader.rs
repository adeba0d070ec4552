//! The archive reader: it takes the archive's files as bytes and serves the
//! entries by logical path.

use vstd::prelude::*;
use vstd::string::StringExecFns;
use crate::crc::checksum_of;
use crate::datastruct::{
    dat_magic, dat_magic_bytes, dir_magic, rows_map, MetadataContainer, NodeKind, NodeMetadata,
    NodeView, Row, HEADER_LEN,
};
use crate::err::{PakErrKind, PakReadErr};
use crate::metafile::{starts_with_magic, table_of_bytes};
use crate::pakcp::{ByteSource, CringeReader, SliceReader, CHUNK_SIZE};
use crate::zstream::{decompress, zstd_decoded};

verus! {

/// The dictionary that an optional dictionary stands for: an absent one is
/// the empty one.
pub open spec fn dictionary_or_empty(dictionary: Option<Seq<u8>>) -> Seq<u8> {
    match dictionary {
        Some(bytes) => bytes,
        None => Seq::empty(),
    }
}

/// What opening an archive with these two files gives: the error, or the
/// content size that the table records and the table's rows. The metadata
/// file is judged first, then the magic header of the content file.
pub open spec fn opened(meta: Seq<u8>, content: Seq<u8>) -> Result<(u64, Seq<Row>), PakErrKind> {
    match table_of_bytes(meta) {
        Err(e) => Err(e),
        Ok(table) => if content.len() < 16 || content.take(16) != dat_magic() {
            Err(PakErrKind::FormatError)
        } else {
            Ok(table)
        },
    }
}

/// The bytes of an entry, given what decompressing the content stream gave.
/// The entry's range counts from the start of the content file's header, so
/// it lies sixteen bytes further in the uncompressed stream. A stream that
/// does not decompress, or that does not hold the whole range, is a decode
/// error; bytes whose checksum is not the recorded one are an integrity
/// error.
pub open spec fn entry_bytes(node: NodeView, decoded: Option<Seq<u8>>) -> Result<
    Seq<u8>,
    PakErrKind,
> {
    match decoded {
        None => Err(PakErrKind::DecodeError),
        Some(stream) => if !(HEADER_LEN <= node.start <= node.end <= HEADER_LEN + stream.len()) {
            Err(PakErrKind::DecodeError)
        } else {
            let bytes = stream.subrange(node.start - HEADER_LEN, node.end - HEADER_LEN);
            if checksum_of(bytes) != node.hash {
                Err(PakErrKind::IntegrityError)
            } else {
                Ok(bytes)
            }
        },
    }
}

/// What reading `path` gives: nothing where the table has no such path, and
/// else the entry's bytes or the error.
pub open spec fn read_result(
    table: Map<Seq<char>, NodeView>,
    decoded: Option<Seq<u8>>,
    path: Seq<char>,
) -> Result<Option<Seq<u8>>, PakErrKind> {
    if !table.contains_key(path) {
        Ok(None)
    } else {
        match entry_bytes(table[path], decoded) {
            Ok(bytes) => Ok(Some(bytes)),
            Err(e) => Err(e),
        }
    }
}

/// The path of the sidecar metadata of `path`.
pub open spec fn meta_path(path: Seq<char>) -> Seq<char> {
    path + ".meta"@
}

/// An open archive: the table, the content file, and the dictionary.
pub struct PakReader {
    meta: MetadataContainer,
    content: Vec<u8>,
    dictionary: Vec<u8>,
}

impl PakReader {
    /// The content file opens with its header.
    #[verifier::type_invariant]
    spec fn wf(self) -> bool {
        self.content@.len() >= 16
    }

    /// The magic header of the table.
    pub closed spec fn magic(self) -> Seq<u8> {
        self.meta.spec_magic()
    }

    /// The size of the logical content stream that the table records.
    pub closed spec fn paksize(self) -> u64 {
        self.meta.spec_paksize()
    }

    /// The rows of the table, in table order.
    pub closed spec fn rows(self) -> Seq<Row> {
        self.meta.rows()
    }

    /// The mapping from logical path to descriptor.
    pub closed spec fn table(self) -> Map<Seq<char>, NodeView> {
        self.meta@
    }

    /// The compressed stream: the content file after its header.
    pub closed spec fn frame(self) -> Seq<u8> {
        self.content@.skip(16)
    }

    /// The dictionary that primes the decompressor.
    pub closed spec fn dictionary(self) -> Seq<u8> {
        self.dictionary@
    }

    /// The uncompressed content stream, where the compressed one decodes.
    pub open spec fn decoded(self) -> Option<Seq<u8>> {
        zstd_decoded(self.frame(), self.dictionary())
    }

    /// Opens an archive from the bytes of its metadata file, the bytes of
    /// its content file, and the dictionary if there is one.
    pub fn bundle(meta: &[u8], content: Vec<u8>, dictionary: Option<Vec<u8>>) -> (r: Result<
        PakReader,
        PakReadErr,
    >)
        ensures
            match (r, opened(meta@, content@)) {
                (Ok(pak), Ok(table)) => pak.magic() == dir_magic() && pak.paksize() == table.0
                    && pak.rows() == table.1 && pak.table() == rows_map(table.1) && pak.frame()
                    == content@.skip(16) && pak.dictionary() == dictionary_or_empty(
                    match dictionary {
                        Some(d) => Some(d@),
                        None => None,
                    },
                ),
                (Err(e), Err(expected)) => e.kind() == expected,
                _ => false,
            },
    {
        let table = MetadataContainer::from_bytes(meta)?;
        let header = dat_magic_bytes();
        if !starts_with_magic(content.as_slice(), &header) {
            return Err(PakReadErr::FormatError);
        }
        let dictionary = match dictionary {
            Some(d) => d,
            None => Vec::new(),
        };
        proof {
            use_type_invariant(&table);
            table.lemma_view();
        }
        Ok(PakReader { meta: table, content, dictionary })
    }

    /// The table.
    pub fn metadata(&self) -> (meta: &MetadataContainer)
        ensures
            meta.spec_magic() == self.magic(),
            meta.spec_paksize() == self.paksize(),
            meta.rows() == self.rows(),
            meta@ == self.table(),
    {
        proof {
            use_type_invariant(self);
        }
        &self.meta
    }

    /// The descriptor of `path`, if the archive has such an entry.
    pub fn entry(&self, path: &str) -> (found: Option<&NodeMetadata>)
        ensures
            match found {
                Some(node) => self.table().contains_key(path@) && self.table()[path@] == node@,
                None => !self.table().contains_key(path@),
            },
    {
        proof {
            use_type_invariant(self);
        }
        self.meta.get(path)
    }

    /// Whether `path` is a directory, if the archive has such an entry.
    pub fn is_directory(&self, path: &str) -> (answer: Option<bool>)
        ensures
            match answer {
                Some(yes) => self.table().contains_key(path@) && yes == (self.table()[path@].kind
                    == NodeKind::BRANCH),
                None => !self.table().contains_key(path@),
            },
    {
        proof {
            use_type_invariant(self);
        }
        match self.meta.get(path) {
            Some(node) => Some(
                match node.kind {
                    NodeKind::BRANCH => true,
                    NodeKind::LEAF => false,
                },
            ),
            None => None,
        }
    }

    /// The bytes of the entry at `path`, if the archive has such an entry.
    ///
    /// The content stream is decompressed from its start, the bytes before
    /// the entry are passed over, and the entry's bytes are read through a
    /// checksum-tracking wrapper, whose checksum must be the recorded one.
    pub fn read(&self, path: &str) -> (r: Result<Option<Vec<u8>>, PakReadErr>)
        ensures
            match (r, read_result(self.table(), self.decoded(), path@)) {
                (Ok(Some(bytes)), Ok(Some(expected))) => bytes@ == expected,
                (Ok(None), Ok(None)) => true,
                (Err(e), Err(expected)) => e.kind() == expected,
                _ => false,
            },
    {
        proof {
            use_type_invariant(self);
        }
        let node = match self.meta.get(path) {
            Some(node) => node,
            None => {
                return Ok(None);
            },
        };
        let frame = vstd::slice::slice_subrange(self.content.as_slice(), 16, self.content.len());
        let stream = decompress(frame, self.dictionary.as_slice())?;
        let ghost whole = stream@;
        if node.start < HEADER_LEN || node.end < node.start {
            return Err(PakReadErr::DecodeError(None));
        }
        if node.end - HEADER_LEN > stream.len() as u64 {
            return Err(PakReadErr::DecodeError(None));
        }
        let from = (node.start - HEADER_LEN) as usize;
        let want = (node.end - node.start) as usize;
        let mut reader = CringeReader::new(SliceReader::new(stream, from));
        let mut bytes: Vec<u8> = Vec::new();
        let mut buf: Vec<u8> = vec![0u8; if want < CHUNK_SIZE { want } else { CHUNK_SIZE }];
        while bytes.len() < want
            invariant
                from + want <= whole.len(),
                bytes@.len() <= want,
                0 < buf@.len() <= CHUNK_SIZE || bytes@.len() == want,
                reader.inner().wf(),
                reader.inner().data() == whole,
                reader.inner().origin() == from,
                reader.inner().position() == from + bytes@.len(),
                reader.seen() == bytes@,
                bytes@ == whole.subrange(from as int, from + bytes@.len()),
            decreases want - bytes@.len(),
        {
            let left = want - bytes.len();
            if left < buf.len() {
                buf.truncate(left);
            }
            let n = match reader.read(buf.as_mut_slice()) {
                Ok(n) => n,
                Err(_) => {
                    return Err(PakReadErr::DecodeError(None));
                },
            };
            bytes.extend_from_slice(vstd::slice::slice_subrange(buf.as_slice(), 0, n));
        }
        if reader.checksum() != node.hash {
            return Err(PakReadErr::IntegrityError);
        }
        Ok(Some(bytes))
    }

    /// The bytes of the sidecar metadata of `path`: those of the entry whose
    /// path is `path` followed by `.meta`.
    pub fn read_meta(&self, path: &str) -> (r: Result<Option<Vec<u8>>, PakReadErr>)
        ensures
            match (r, read_result(self.table(), self.decoded(), meta_path(path@))) {
                (Ok(Some(bytes)), Ok(Some(expected))) => bytes@ == expected,
                (Ok(None), Ok(None)) => true,
                (Err(e), Err(expected)) => e.kind() == expected,
                _ => false,
            },
    {
        let mut sidecar = String::from_str(path);
        sidecar.append(".meta");
        self.read(sidecar.as_str())
    }
}

} // verus!
