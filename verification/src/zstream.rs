//! The compressed content stream: a streaming Zstandard encoder that writes
//! into memory, and the decoder of a finished stream. Both are the `zstd`
//! crate's.

use vstd::prelude::*;
use crate::err::{PakErrKind, PakReadErr};
use crate::pakcp::ByteSink;

verus! {

/// The compression level of the content stream.
pub const COMPRESSION_LEVEL: i32 = 21;

/// `std::io::Error`, the error of the compressor and the decompressor. It is
/// carried, never looked into.
#[verifier::external_type_specification]
#[verifier::external_body]
pub struct ExIoError(std::io::Error);

/// A streaming compressor whose output gathers in memory until `finish`
/// hands it over: a `zstd::stream::write::Encoder` over a `Vec<u8>`.
#[verifier::external_body]
pub struct PakEncoder {
    inner: zstd::stream::write::Encoder<'static, Vec<u8>>,
}

/// The uncompressed bytes that an encoder has taken in since it was made.
pub uninterp spec fn encoder_input(enc: PakEncoder) -> Seq<u8>;

/// The dictionary that an encoder was made with.
pub uninterp spec fn encoder_dictionary(enc: PakEncoder) -> Seq<u8>;

/// The compression level that an encoder was made with.
pub uninterp spec fn encoder_level(enc: PakEncoder) -> i32;

/// The flushes that an encoder has gone through since it was made: for each
/// flush that succeeded, how many bytes the encoder had taken in by then.
pub uninterp spec fn encoder_flushes(enc: PakEncoder) -> Seq<nat>;

/// What decompressing `frame` with `dictionary` gives: the uncompressed
/// bytes, or `None` where the decoder reports an error.
pub uninterp spec fn zstd_decoded(frame: Seq<u8>, dictionary: Seq<u8>) -> Option<Seq<u8>>;

/// `zstd::stream::write::Encoder::with_dictionary` over an empty `Vec<u8>`:
/// where it succeeds, the encoder has taken in nothing and has not been
/// flushed, and it works at `level` with `dictionary`.
#[verifier::external_body]
fn encoder_open(level: i32, dictionary: &[u8]) -> (r: Result<PakEncoder, std::io::Error>)
    ensures
        r matches Ok(enc) ==> encoder_input(enc) == Seq::<u8>::empty() && encoder_dictionary(enc)
            == dictionary@ && encoder_level(enc) == level && encoder_flushes(enc)
            == Seq::<nat>::empty(),
{
    let inner = zstd::stream::write::Encoder::with_dictionary(Vec::new(), level, dictionary)?;
    Ok(PakEncoder { inner })
}

/// `std::io::Write::write` of the encoder: where it succeeds it has taken in
/// a prefix of `buf`, whose length it returns. The encoder keeps at it until
/// it has taken something, so of a buffer that is not empty the prefix is not
/// empty either. It is no flush, and level and dictionary stay.
#[verifier::external_body]
fn encoder_write(enc: &mut PakEncoder, buf: &[u8]) -> (r: Result<usize, std::io::Error>)
    ensures
        encoder_dictionary(*final(enc)) == encoder_dictionary(*old(enc)),
        encoder_level(*final(enc)) == encoder_level(*old(enc)),
        encoder_flushes(*final(enc)) == encoder_flushes(*old(enc)),
        r matches Ok(n) ==> n <= buf@.len() && encoder_input(*final(enc)) == encoder_input(
            *old(enc),
        ) + buf@.take(n as int),
        r matches Ok(n) ==> (buf@.len() > 0 ==> n > 0),
{
    std::io::Write::write(&mut enc.inner, buf)
}

/// `std::io::Write::flush` of the encoder: it takes in nothing, whether it
/// succeeds or not, and level and dictionary stay. Where it succeeds, the
/// encoder has gone through one more flush, at the end of what it had taken
/// in.
#[verifier::external_body]
fn encoder_flush(enc: &mut PakEncoder) -> (r: Result<(), std::io::Error>)
    ensures
        encoder_dictionary(*final(enc)) == encoder_dictionary(*old(enc)),
        encoder_level(*final(enc)) == encoder_level(*old(enc)),
        encoder_input(*final(enc)) == encoder_input(*old(enc)),
        r is Ok ==> encoder_flushes(*final(enc)) == encoder_flushes(*old(enc)).push(
            encoder_input(*old(enc)).len(),
        ),
{
    std::io::Write::flush(&mut enc.inner)
}

/// `zstd::stream::write::Encoder::finish`: where it succeeds it returns the
/// compressed stream. Zstandard is lossless: decompressed with the encoder's
/// dictionary, that stream gives back what the encoder took in.
#[verifier::external_body]
fn encoder_finish(enc: PakEncoder) -> (r: Result<Vec<u8>, std::io::Error>)
    ensures
        r matches Ok(frame) ==> zstd_decoded(frame@, encoder_dictionary(enc)) == Some(
            encoder_input(enc),
        ),
{
    enc.inner.finish()
}

/// `zstd::stream::read::Decoder::with_dictionary` over `frame`, read to its
/// end: the decompressed bytes, or the decoder's error.
#[verifier::external_body]
fn decoder_read_all(frame: &[u8], dictionary: &[u8]) -> (r: Result<Vec<u8>, std::io::Error>)
    ensures
        match r {
            Ok(bytes) => zstd_decoded(frame@, dictionary@) == Some(bytes@),
            Err(_) => zstd_decoded(frame@, dictionary@) is None,
        },
{
    let mut bytes = Vec::new();
    let mut decoder = zstd::stream::read::Decoder::with_dictionary(frame, dictionary)?;
    std::io::Read::read_to_end(&mut decoder, &mut bytes)?;
    Ok(bytes)
}

impl PakEncoder {
    /// The dictionary that the encoder was made with.
    pub closed spec fn dictionary(self) -> Seq<u8> {
        encoder_dictionary(self)
    }

    /// The compression level that the encoder was made with.
    pub closed spec fn level(self) -> i32 {
        encoder_level(self)
    }

    /// The flushes that the encoder has gone through: for each one, the
    /// number of bytes accepted by then.
    pub closed spec fn flushes(self) -> Seq<nat> {
        encoder_flushes(self)
    }

    /// Level and dictionary are the same in both encoders.
    pub open spec fn same_setup(self, other: PakEncoder) -> bool {
        self.dictionary() == other.dictionary() && self.level() == other.level()
    }

    /// A new encoder at `level`, primed with `dictionary`. An empty
    /// dictionary stands for none.
    pub fn with_dictionary(level: i32, dictionary: &[u8]) -> (r: Result<PakEncoder, PakReadErr>)
        ensures
            match r {
                Ok(enc) => enc.accepted() == Seq::<u8>::empty() && enc.dictionary() == dictionary@
                    && enc.level() == level && enc.flushes() == Seq::<nat>::empty(),
                Err(e) => e.kind() == PakErrKind::IOError,
            },
    {
        match encoder_open(level, dictionary) {
            Ok(enc) => Ok(enc),
            Err(cause) => Err(PakReadErr::IOError(Some(cause))),
        }
    }

    /// Ends the stream and returns it whole. Decompressed with the encoder's
    /// dictionary it gives the bytes that the encoder accepted.
    pub fn finish(self) -> (r: Result<Vec<u8>, PakReadErr>)
        ensures
            match r {
                Ok(frame) => zstd_decoded(frame@, self.dictionary()) == Some(self.accepted()),
                Err(e) => e.kind() == PakErrKind::IOError,
            },
    {
        match encoder_finish(self) {
            Ok(frame) => Ok(frame),
            Err(cause) => Err(PakReadErr::IOError(Some(cause))),
        }
    }
}

impl ByteSink for PakEncoder {
    closed spec fn accepted(self) -> Seq<u8> {
        encoder_input(self)
    }

    /// A write is no flush, and leaves level and dictionary as they were.
    /// Where it succeeds on a buffer that is not empty, it has taken at least
    /// one byte: the caller always gets on.
    open spec fn write_post(self, after: Self, buf: Seq<u8>, r: Result<usize, PakReadErr>) -> bool {
        &&& after.same_setup(self)
        &&& after.flushes() == self.flushes()
        &&& r matches Ok(n) ==> (buf.len() > 0 ==> n > 0)
    }

    /// A flush leaves level and dictionary as they were. Where it succeeds,
    /// it is one more flush, at the end of what had been accepted.
    open spec fn flush_post(self, after: Self, r: Result<(), PakReadErr>) -> bool {
        after.same_setup(self) && (r is Ok ==> after.flushes() == self.flushes().push(
            self.accepted().len(),
        ))
    }

    fn write(&mut self, buf: &[u8]) -> (r: Result<usize, PakReadErr>) {
        match encoder_write(self, buf) {
            Ok(n) => Ok(n),
            Err(cause) => Err(PakReadErr::IOError(Some(cause))),
        }
    }

    fn flush(&mut self) -> (r: Result<(), PakReadErr>) {
        match encoder_flush(self) {
            Ok(()) => Ok(()),
            Err(cause) => Err(PakReadErr::IOError(Some(cause))),
        }
    }
}

/// Decompresses a whole stream with `dictionary`. An empty dictionary stands
/// for none.
pub fn decompress(frame: &[u8], dictionary: &[u8]) -> (r: Result<Vec<u8>, PakReadErr>)
    ensures
        match r {
            Ok(bytes) => zstd_decoded(frame@, dictionary@) == Some(bytes@),
            Err(e) => e.kind() == PakErrKind::DecodeError && zstd_decoded(frame@, dictionary@) is None,
        },
{
    match decoder_read_all(frame, dictionary) {
        Ok(bytes) => Ok(bytes),
        Err(cause) => Err(PakReadErr::DecodeError(Some(cause))),
    }
}

} // verus!
