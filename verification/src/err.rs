//! The error type shared by packing and reading.

use vstd::prelude::*;
use vstd::string::StringExecFns;

verus! {

/// The kinds of failure.
///
/// A path that has no entry is not an error; lookups report it as `None`.
#[derive(Debug, Clone, Copy, PartialEq, Eq, Structural)]
pub enum PakErrKind {
    /// The metadata bytes are not a serialised metadata table, or the table
    /// could not be serialised.
    DeserializeError,
    /// An underlying reader or writer failed, the compressor included.
    IOError,
    /// A magic header differs from the expected constant.
    FormatError,
    /// The content stream could not be decompressed, or ends before the
    /// entry does.
    DecodeError,
    /// The entry's bytes decoded, but their checksum is not the stored one.
    IntegrityError,
}

/// Why packing or reading an archive failed. Where the serialiser or the
/// compressor is the cause, its own error comes along.
#[derive(Debug)]
pub enum PakReadErr {
    /// The serialiser's error, or none where the library itself found the
    /// table unusable.
    DeserializeError(Option<Box<bincode::ErrorKind>>),
    /// The compressor's error, or none where a sink took nothing of what it
    /// was offered.
    IOError(Option<std::io::Error>),
    FormatError,
    /// The decompressor's error, or none where the stream decoded and does
    /// not hold the entry's range.
    DecodeError(Option<std::io::Error>),
    IntegrityError,
}

impl PakReadErr {
    /// The kind of the error.
    pub open spec fn spec_kind(&self) -> PakErrKind {
        match self {
            PakReadErr::DeserializeError(_) => PakErrKind::DeserializeError,
            PakReadErr::IOError(_) => PakErrKind::IOError,
            PakReadErr::FormatError => PakErrKind::FormatError,
            PakReadErr::DecodeError(_) => PakErrKind::DecodeError,
            PakReadErr::IntegrityError => PakErrKind::IntegrityError,
        }
    }

    /// The kind of the error.
    #[verifier::when_used_as_spec(spec_kind)]
    pub fn kind(&self) -> (kind: PakErrKind)
        ensures
            kind == self.spec_kind(),
    {
        match self {
            PakReadErr::DeserializeError(_) => PakErrKind::DeserializeError,
            PakReadErr::IOError(_) => PakErrKind::IOError,
            PakReadErr::FormatError => PakErrKind::FormatError,
            PakReadErr::DecodeError(_) => PakErrKind::DecodeError,
            PakReadErr::IntegrityError => PakErrKind::IntegrityError,
        }
    }

    /// The text each kind of error is reported with.
    pub open spec fn spec_message(self) -> Seq<char> {
        match self.spec_kind() {
            PakErrKind::DeserializeError => "PAKDIR error"@,
            PakErrKind::IOError => "IO error"@,
            PakErrKind::FormatError => "PAKDIR magic mismatch"@,
            PakErrKind::DecodeError => "PAKDAT decode error"@,
            PakErrKind::IntegrityError => "PAKDAT checksum mismatch"@,
        }
    }

    /// A short human-readable description of the error.
    pub fn message(&self) -> (text: String)
        ensures
            text@ == self.spec_message(),
    {
        match self.kind() {
            PakErrKind::DeserializeError => String::from_str("PAKDIR error"),
            PakErrKind::IOError => String::from_str("IO error"),
            PakErrKind::FormatError => String::from_str("PAKDIR magic mismatch"),
            PakErrKind::DecodeError => String::from_str("PAKDAT decode error"),
            PakErrKind::IntegrityError => String::from_str("PAKDAT checksum mismatch"),
        }
    }
}

} // verus!
