//! The archive builder: it takes the nodes of a source tree one after the
//! other, sends the files' bytes into one compressed stream, and records
//! where each entry lies in that stream.

use vstd::prelude::*;
use crate::crc::{checksum_of, EMPTY_CHECKSUM};
use crate::datastruct::{
    dat_magic, dat_magic_bytes, dir_magic, dir_magic_bytes, put_row, MetadataContainer, NodeKind,
    NodeView, Row, HEADER_LEN,
};
use crate::err::{PakErrKind, PakReadErr};
use crate::metafile::{
    bincode_value, has_dir_magic, metadata_bytes, raw_table, starts_with_magic,
};
use crate::pakcp::{chunk_flushes, fscow, ByteSink};
use crate::zstream::{zstd_decoded, PakEncoder, COMPRESSION_LEVEL};

verus! {

/// One node of a source tree as the builder sees it.
pub ghost struct Item {
    /// The logical path.
    pub path: Seq<char>,
    /// The final path component.
    pub name: Seq<char>,
    pub kind: NodeKind,
    /// The bytes of a file. A directory's are passed over.
    pub data: Seq<u8>,
}

/// The bytes that a node adds to the content stream: a file's bytes, and
/// nothing for a directory.
pub open spec fn body_of(kind: NodeKind, data: Seq<u8>) -> Seq<u8> {
    match kind {
        NodeKind::LEAF => data,
        NodeKind::BRANCH => Seq::empty(),
    }
}

/// The descriptor of a node that is added when the uncompressed stream holds
/// `stream_len` bytes after its header.
pub open spec fn node_at(stream_len: nat, name: Seq<char>, kind: NodeKind, data: Seq<u8>) -> NodeView {
    NodeView {
        name,
        kind,
        hash: checksum_of(body_of(kind, data)),
        start: (HEADER_LEN + stream_len) as u64,
        end: (HEADER_LEN + stream_len + body_of(kind, data).len()) as u64,
    }
}

/// The uncompressed content stream of a list of nodes: the files' bytes one
/// after the other.
pub open spec fn packed_stream(items: Seq<Item>) -> Seq<u8>
    decreases items.len(),
{
    if items.len() == 0 {
        Seq::empty()
    } else {
        packed_stream(items.drop_last()) + body_of(items.last().kind, items.last().data)
    }
}

/// The table of a list of nodes: each node is recorded at the end that the
/// stream had before it.
pub open spec fn packed_rows(items: Seq<Item>) -> Seq<Row>
    decreases items.len(),
{
    if items.len() == 0 {
        Seq::empty()
    } else {
        let last = items.last();
        put_row(
            packed_rows(items.drop_last()),
            last.path,
            node_at(packed_stream(items.drop_last()).len(), last.name, last.kind, last.data),
        )
    }
}

/// `meta` and `content` are the two files of an archive that holds `rows`
/// over the uncompressed stream `stream`, compressed with `dictionary`.
pub open spec fn is_archive_of(
    meta: Seq<u8>,
    content: Seq<u8>,
    dictionary: Seq<u8>,
    rows: Seq<Row>,
    stream: Seq<u8>,
) -> bool {
    let paksize = (HEADER_LEN + stream.len()) as u64;
    &&& metadata_bytes(dir_magic(), paksize, rows) == Some(meta)
    &&& bincode_value(meta) == Some((dir_magic(), paksize, raw_table(rows)))
    &&& has_dir_magic(meta)
    &&& content.len() >= 16
    &&& content.take(16) == dat_magic()
    &&& zstd_decoded(content.skip(16), dictionary) == Some(stream)
}

/// The error of a step that ends a build, given the bytes that the
/// serialiser has for the table. Where the serialiser has none, or has bytes
/// that do not open with the magic header, that is a deserialisation error;
/// any other error is the compressor's.
pub open spec fn is_build_error(e: PakReadErr, meta: Option<Seq<u8>>) -> bool {
    match meta {
        None => e.kind() == PakErrKind::DeserializeError,
        Some(bytes) => if has_dir_magic(bytes) {
            e.kind() == PakErrKind::IOError
        } else {
            e.kind() == PakErrKind::DeserializeError
        },
    }
}

/// Puts the two files of an archive together from the serialised table and
/// what ending the compressed stream gave: the metadata file is the table as
/// it is, and the content file is the content magic followed by the stream.
///
/// Readers look for the metadata magic in the first bytes of the metadata
/// file, so a table that does not open with it is refused, whatever became of
/// the stream. Else the stream's error, if it has one, is the result's.
pub fn assemble(meta: Vec<u8>, frame: Result<Vec<u8>, PakReadErr>) -> (r: Result<
    (Vec<u8>, Vec<u8>),
    PakReadErr,
>)
    ensures
        match r {
            Ok((m, c)) => has_dir_magic(meta@) && m@ == meta@ && frame is Ok && c@ == dat_magic()
                + frame->Ok_0@,
            Err(e) => if has_dir_magic(meta@) {
                frame == Err::<Vec<u8>, PakReadErr>(e)
            } else {
                e.kind() == PakErrKind::DeserializeError
            },
        },
{
    let magic = dir_magic_bytes();
    if !starts_with_magic(meta.as_slice(), &magic) {
        return Err(PakReadErr::DeserializeError(None));
    }
    let frame = frame?;
    let mut content: Vec<u8> = Vec::new();
    let header = dat_magic_bytes();
    content.extend_from_slice(header.as_slice());
    content.extend_from_slice(frame.as_slice());
    assert(content@ =~= dat_magic() + frame@);
    Ok((meta, content))
}

/// An archive under construction.
pub struct Packer {
    meta: MetadataContainer,
    enc: PakEncoder,
}

impl Packer {
    /// The table so far.
    pub closed spec fn rows(self) -> Seq<Row> {
        self.meta.rows()
    }

    /// The uncompressed content stream so far, without its header.
    pub closed spec fn stream(self) -> Seq<u8> {
        self.enc.accepted()
    }

    /// The dictionary that primes the compressor.
    pub closed spec fn dictionary(self) -> Seq<u8> {
        self.enc.dictionary()
    }

    /// The level at which the compressor works.
    pub closed spec fn level(self) -> i32 {
        self.enc.level()
    }

    /// The flushes that the compressor has gone through: for each one, the
    /// length that the stream had by then.
    pub closed spec fn flushes(self) -> Seq<nat> {
        self.enc.flushes()
    }

    /// The table's size field is the length of the stream with its header.
    #[verifier::type_invariant]
    spec fn wf(self) -> bool {
        &&& self.meta.spec_magic() == dir_magic()
        &&& self.meta.spec_paksize() == HEADER_LEN + self.enc.accepted().len()
    }

    /// A builder with an empty table and an empty stream, whose compressor
    /// works at `COMPRESSION_LEVEL` and is primed with `dictionary`. An empty
    /// dictionary stands for none.
    pub fn new(dictionary: &[u8]) -> (r: Result<Packer, PakReadErr>)
        ensures
            match r {
                Ok(p) => p.rows() == Seq::<Row>::empty() && p.stream() == Seq::<u8>::empty()
                    && p.dictionary() == dictionary@ && p.level() == COMPRESSION_LEVEL
                    && p.flushes() == Seq::<nat>::empty(),
                Err(e) => e.kind() == PakErrKind::IOError,
            },
    {
        let enc = PakEncoder::with_dictionary(COMPRESSION_LEVEL, dictionary)?;
        Ok(Packer { meta: MetadataContainer::new(), enc })
    }

    /// The table so far.
    pub fn meta(&self) -> (meta: &MetadataContainer)
        ensures
            meta.rows() == self.rows(),
            meta.spec_magic() == dir_magic(),
            meta.spec_paksize() == HEADER_LEN + self.stream().len(),
    {
        proof {
            use_type_invariant(self);
        }
        &self.meta
    }

    /// Adds one node under `path`. A file's bytes go to the end of the
    /// stream, in chunks of `CHUNK_SIZE` bytes with a flush after each, and
    /// its entry says where they lie and what their CRC-32 is; a directory
    /// gets an empty range at the end of the stream and the checksum of
    /// nothing. An entry that `path` already had is replaced.
    pub fn add(self, path: String, name: String, kind: NodeKind, data: &[u8]) -> (r: Result<
        Packer,
        PakReadErr,
    >)
        requires
            HEADER_LEN + self.stream().len() + body_of(kind, data@).len() <= u64::MAX,
        ensures
            match r {
                Ok(p) => p.dictionary() == self.dictionary() && p.level() == self.level()
                    && p.stream() == self.stream() + body_of(kind, data@) && p.rows() == put_row(
                    self.rows(),
                    path@,
                    node_at(self.stream().len(), name@, kind, data@),
                ) && p.flushes() == self.flushes() + chunk_flushes(
                    self.stream().len(),
                    body_of(kind, data@).len(),
                ),
                Err(e) => e.kind() == PakErrKind::IOError && body_of(kind, data@).len() > 0,
            },
    {
        proof {
            use_type_invariant(&self);
        }
        let Packer { meta, enc } = self;
        let mut meta = meta;
        match kind {
            NodeKind::LEAF => {
                let (written, sum, enc) = fscow(data, enc)?;
                meta.record(path, name, kind, written, sum);
                Ok(Packer { meta, enc })
            },
            NodeKind::BRANCH => {
                meta.record(path, name, kind, 0, EMPTY_CHECKSUM);
                Ok(Packer { meta, enc })
            },
        }
    }

    /// Ends the compressed stream and returns the two files of the archive:
    /// the metadata file, and the content file, which is the content magic
    /// followed by the compressed stream.
    ///
    /// Where the serialiser fails, or gives bytes that do not open with the
    /// metadata magic, the error is a deserialisation error; the compressor
    /// is the only other cause of failure.
    pub fn finish(self) -> (r: Result<(Vec<u8>, Vec<u8>), PakReadErr>)
        ensures
            match r {
                Ok((meta, content)) => is_archive_of(
                    meta@,
                    content@,
                    self.dictionary(),
                    self.rows(),
                    self.stream(),
                ),
                Err(e) => is_build_error(
                    e,
                    metadata_bytes(
                        dir_magic(),
                        (HEADER_LEN + self.stream().len()) as u64,
                        self.rows(),
                    ),
                ),
            },
    {
        proof {
            use_type_invariant(&self);
        }
        let Packer { meta, enc } = self;
        let meta_bytes = meta.to_bytes()?;
        let frame = enc.finish();
        let ghost ended = frame;
        let r = assemble(meta_bytes, frame);
        proof {
            if r is Ok {
                let content = r->Ok_0.1@;
                assert(content.take(16) =~= dat_magic());
                assert(content.skip(16) =~= ended->Ok_0@);
            }
        }
        r
    }
}

} // verus!
