//! Checksum-tracking stream wrappers, and the chunked copy of one file's
//! bytes into the content stream.

use vstd::prelude::*;
use crate::crc::{checksum_of, hasher_checksum, hasher_input, hasher_new, hasher_update};
use crate::err::{PakErrKind, PakReadErr};
use crate::zstream::PakEncoder;

verus! {

/// The size of the chunks in which a file goes into the content stream.
pub const CHUNK_SIZE: usize = 65536;

/// A destination for bytes.
pub trait ByteSink: Sized {
    /// Every byte that the sink has accepted so far, in order.
    spec fn accepted(self) -> Seq<u8>;

    /// What one call of `write` with `buf` may make of the sink, and return.
    spec fn write_post(self, after: Self, buf: Seq<u8>, r: Result<usize, PakReadErr>) -> bool;

    /// What one call of `flush` may make of the sink, and return.
    spec fn flush_post(self, after: Self, r: Result<(), PakReadErr>) -> bool;

    /// Offers `buf` to the sink, which takes a prefix of it and says how long
    /// that prefix is.
    fn write(&mut self, buf: &[u8]) -> (r: Result<usize, PakReadErr>)
        ensures
            match r {
                Ok(n) => n <= buf@.len() && final(self).accepted() == old(self).accepted()
                    + buf@.take(n as int),
                Err(e) => e.kind() == PakErrKind::IOError,
            },
            old(self).write_post(*final(self), buf@, r),
    ;

    /// Makes the sink pass on what it has buffered. It accepts nothing new.
    fn flush(&mut self) -> (r: Result<(), PakReadErr>)
        ensures
            final(self).accepted() == old(self).accepted(),
            r matches Err(e) ==> e.kind() == PakErrKind::IOError,
            old(self).flush_post(*final(self), r),
    ;
}

/// Wraps a sink and keeps a CRC-32 of the bytes that the sink reports as
/// accepted. The sink sees every call as it was made, and the caller every
/// result as the sink gave it.
pub struct CringeWriter<W: ByteSink> {
    writer: W,
    hashr: crc32fast::Hasher,
}

impl<W: ByteSink> CringeWriter<W> {
    /// The bytes that went through this wrapper and were accepted.
    pub closed spec fn seen(self) -> Seq<u8> {
        hasher_input(self.hashr)
    }

    /// The wrapped sink.
    pub closed spec fn inner(self) -> W {
        self.writer
    }

    /// A wrapper around `writer` that has seen nothing yet.
    pub fn new(writer: W) -> (w: CringeWriter<W>)
        ensures
            w.seen() == Seq::<u8>::empty(),
            w.inner() == writer,
    {
        CringeWriter { writer, hashr: hasher_new() }
    }

    /// Gives the sink back.
    pub fn into_inner(self) -> (writer: W)
        ensures
            writer == self.inner(),
    {
        self.writer
    }

    /// The CRC-32 of the bytes seen so far. The wrapper stays usable.
    pub fn checksum(&self) -> (sum: u32)
        ensures
            sum == checksum_of(self.seen()),
    {
        hasher_checksum(&self.hashr)
    }

    /// Forwards `buf` to the sink and takes the prefix that the sink accepted
    /// into the checksum.
    pub fn write(&mut self, buf: &[u8]) -> (r: Result<usize, PakReadErr>)
        requires
            old(self).seen().len() + buf@.len() <= u64::MAX,
        ensures
            old(self).inner().write_post(final(self).inner(), buf@, r),
            match r {
                Ok(n) => n <= buf@.len()
                    && final(self).seen() == old(self).seen() + buf@.take(n as int)
                    && final(self).inner().accepted() == old(self).inner().accepted()
                    + buf@.take(n as int),
                Err(e) => e.kind() == PakErrKind::IOError && final(self).seen() == old(self).seen(),
            },
    {
        let written = self.writer.write(buf)?;
        hasher_update(&mut self.hashr, vstd::slice::slice_subrange(buf, 0, written));
        Ok(written)
    }

    /// Forwards the flush to the sink. The checksum is left as it is.
    pub fn flush(&mut self) -> (r: Result<(), PakReadErr>)
        ensures
            old(self).inner().flush_post(final(self).inner(), r),
            final(self).seen() == old(self).seen(),
            final(self).inner().accepted() == old(self).inner().accepted(),
            r matches Err(e) ==> e.kind() == PakErrKind::IOError,
    {
        self.writer.flush()
    }
}

/// A supply of bytes.
pub trait ByteSource: Sized {
    /// Every byte that the source has handed out so far, in order.
    spec fn delivered(self) -> Seq<u8>;

    /// What one call of `read` with a buffer that held `before` may make of the
    /// source, put into the buffer, and return.
    spec fn read_post(
        self,
        after: Self,
        before: Seq<u8>,
        filled: Seq<u8>,
        r: Result<usize, PakReadErr>,
    ) -> bool;

    /// Fills a prefix of `buf` with the next bytes of the source and says how
    /// long that prefix is. The length of `buf` stays.
    fn read(&mut self, buf: &mut [u8]) -> (r: Result<usize, PakReadErr>)
        ensures
            final(buf)@.len() == old(buf)@.len(),
            match r {
                Ok(n) => n <= old(buf)@.len() && final(self).delivered() == old(self).delivered()
                    + final(buf)@.take(n as int),
                Err(e) => e.kind() == PakErrKind::IOError && final(self).delivered() == old(self).delivered(),
            },
            old(self).read_post(*final(self), old(buf)@, final(buf)@, r),
    ;
}

/// Wraps a source and keeps a CRC-32 of the bytes that the source returned.
/// The source sees every call as it was made, and the caller every result as
/// the source gave it.
pub struct CringeReader<R: ByteSource> {
    reader: R,
    hashr: crc32fast::Hasher,
}

impl<R: ByteSource> CringeReader<R> {
    /// The bytes that came through this wrapper.
    pub closed spec fn seen(self) -> Seq<u8> {
        hasher_input(self.hashr)
    }

    /// The wrapped source.
    pub closed spec fn inner(self) -> R {
        self.reader
    }

    /// A wrapper around `reader` that has seen nothing yet.
    pub fn new(reader: R) -> (w: CringeReader<R>)
        ensures
            w.seen() == Seq::<u8>::empty(),
            w.inner() == reader,
    {
        CringeReader { reader, hashr: hasher_new() }
    }

    /// Gives the source back.
    pub fn into_inner(self) -> (reader: R)
        ensures
            reader == self.inner(),
    {
        self.reader
    }

    /// The CRC-32 of the bytes seen so far. The wrapper stays usable.
    pub fn checksum(&self) -> (sum: u32)
        ensures
            sum == checksum_of(self.seen()),
    {
        hasher_checksum(&self.hashr)
    }

    /// Forwards the read to the source and takes the bytes that it returned
    /// into the checksum.
    pub fn read(&mut self, buf: &mut [u8]) -> (r: Result<usize, PakReadErr>)
        requires
            old(self).seen().len() + old(buf)@.len() <= u64::MAX,
        ensures
            final(buf)@.len() == old(buf)@.len(),
            old(self).inner().read_post(final(self).inner(), old(buf)@, final(buf)@, r),
            match r {
                Ok(n) => n <= old(buf)@.len()
                    && final(self).seen() == old(self).seen() + final(buf)@.take(n as int)
                    && final(self).inner().delivered() == old(self).inner().delivered()
                    + final(buf)@.take(n as int),
                Err(e) => e.kind() == PakErrKind::IOError && final(self).seen() == old(self).seen(),
            },
    {
        let read = self.reader.read(buf)?;
        hasher_update(&mut self.hashr, vstd::slice::slice_subrange(buf, 0, read));
        Ok(read)
    }
}

/// A source that hands out the bytes of a buffer in memory, from a starting
/// position to the buffer's end.
pub struct SliceReader {
    data: Vec<u8>,
    from: usize,
    pos: usize,
}

impl SliceReader {
    /// The whole buffer.
    pub closed spec fn data(self) -> Seq<u8> {
        self.data@
    }

    /// The position of the next byte to hand out.
    pub closed spec fn position(self) -> nat {
        self.pos as nat
    }

    /// The position at which the source started.
    pub closed spec fn origin(self) -> nat {
        self.from as nat
    }

    /// The position lies between the origin and the end of the buffer.
    #[verifier::type_invariant]
    pub closed spec fn wf(self) -> bool {
        self.from <= self.pos <= self.data@.len()
    }

    /// A source over `data` that starts at `from`: the bytes before it are
    /// passed over.
    pub fn new(data: Vec<u8>, from: usize) -> (src: SliceReader)
        requires
            from <= data@.len(),
        ensures
            src.wf(),
            src.data() == data@,
            src.origin() == from,
            src.position() == from,
            src.delivered() == Seq::<u8>::empty(),
    {
        let src = SliceReader { data, from, pos: from };
        src
    }
}

impl ByteSource for SliceReader {
    open spec fn delivered(self) -> Seq<u8> {
        self.data().subrange(self.origin() as int, self.position() as int)
    }

    /// A read hands out as many of the remaining bytes as the buffer has room
    /// for, and never fails. The rest of the buffer stays as it was.
    open spec fn read_post(
        self,
        after: Self,
        before: Seq<u8>,
        filled: Seq<u8>,
        r: Result<usize, PakReadErr>,
    ) -> bool {
        self.wf() ==> {
            let n = if before.len() <= self.data().len() - self.position() {
                before.len() as int
            } else {
                self.data().len() - self.position()
            };
            &&& after.wf()
            &&& r == Ok::<usize, PakReadErr>(n as usize)
            &&& after.data() == self.data()
            &&& after.origin() == self.origin()
            &&& after.position() == self.position() + n
            &&& filled.take(n) == self.data().subrange(
                self.position() as int,
                self.position() + n,
            )
            &&& filled.skip(n) == before.skip(n)
        }
    }

    fn read(&mut self, buf: &mut [u8]) -> (r: Result<usize, PakReadErr>) {
        proof {
            use_type_invariant(&*self);
        }
        let left = self.data.len() - self.pos;
        let n = if buf.len() <= left {
            buf.len()
        } else {
            left
        };
        let start = self.pos;
        let mut i: usize = 0;
        while i < n
            invariant
                i <= n,
                start + n <= self.data@.len() <= usize::MAX,
                n <= buf@.len(),
                buf@.len() == old(buf)@.len(),
                self.data@ == old(self).data@,
                self.pos == start,
                self.from == old(self).from,
                buf@.take(i as int) == self.data@.subrange(start as int, start + i),
                buf@.skip(i as int) == old(buf)@.skip(i as int),
            decreases n - i,
        {
            let ghost last = buf@;
            buf[i] = self.data[start + i];
            assert(buf@.skip(i + 1) =~= last.skip(i + 1));
            assert(last.skip(i + 1) =~= last.skip(i as int).skip(1));
            i += 1;
        }
        self.pos = start + n;
        Ok(n)
    }
}

/// The number of chunks in which `len` bytes go into the stream.
pub open spec fn chunk_count(len: nat) -> nat {
    ((len + CHUNK_SIZE - 1) / (CHUNK_SIZE as int)) as nat
}

/// Where the `i`-th chunk of `len` bytes ends, counted from the first byte.
pub open spec fn chunk_end(len: nat, i: int) -> nat {
    if (i + 1) * CHUNK_SIZE <= len {
        ((i + 1) * CHUNK_SIZE) as nat
    } else {
        len
    }
}

/// The flushes that sending `len` bytes adds to an encoder that had accepted
/// `base` bytes: one at the end of each chunk.
pub open spec fn chunk_flushes(base: nat, len: nat) -> Seq<nat> {
    Seq::new(chunk_count(len), |i: int| base + chunk_end(len, i))
}

/// Where the copy of a chunk stands after one write. `done` bytes of the file
/// had gone in, the chunk ends at `stop`, and `outcome` is what the write of
/// the bytes between them gave. A write that took `n` bytes moves the copy on
/// to `done + n`, from where the rest of the chunk is offered again; a write
/// that took nothing of the bytes offered ends the copy with an error, as
/// does a write that failed, with its own error.
pub fn chunk_step(done: usize, stop: usize, outcome: Result<usize, PakReadErr>) -> (next: Result<
    usize,
    PakReadErr,
>)
    requires
        done < stop,
        outcome matches Ok(n) ==> n <= stop - done,
    ensures
        match outcome {
            Ok(n) => next == (if n == 0 {
                Err::<usize, PakReadErr>(PakReadErr::IOError(None))
            } else {
                Ok::<usize, PakReadErr>((done + n) as usize)
            }),
            Err(e) => next == Err::<usize, PakReadErr>(e),
        },
{
    match outcome {
        Ok(n) => if n == 0 {
            Err(PakReadErr::IOError(None))
        } else {
            Ok(done + n)
        },
        Err(e) => Err(e),
    }
}

/// Sends `inpf` through a checksum-tracking wrapper into `encw`, in chunks of
/// `CHUNK_SIZE` bytes with a flush after each, and returns how many bytes
/// went in, their CRC-32, and the encoder.
///
/// A chunk that the encoder takes only in part is offered again from where
/// the encoder stopped.
pub fn fscow(inpf: &[u8], encw: PakEncoder) -> (r: Result<(u64, u32, PakEncoder), PakReadErr>)
    ensures
        match r {
            Ok((written, sum, enc)) => written == inpf@.len() && sum == checksum_of(inpf@)
                && enc.accepted() == encw.accepted() + inpf@ && enc.same_setup(encw)
                && enc.flushes() == encw.flushes() + chunk_flushes(
                encw.accepted().len(),
                inpf@.len(),
            ) && (inpf@.len() == 0 ==> enc == encw),
            Err(e) => e.kind() == PakErrKind::IOError && inpf@.len() > 0,
        },
{
    let ghost base = encw.accepted().len();
    let mut crcw = CringeWriter::new(encw);
    let total = inpf.len();
    let mut done: usize = 0;
    let ghost mut chunks: int = 0;
    while done < total
        invariant
            total == inpf@.len(),
            base == encw.accepted().len(),
            done <= total,
            0 <= chunks,
            done == chunks * CHUNK_SIZE || (done == total && (chunks - 1) * CHUNK_SIZE < total
                < chunks * CHUNK_SIZE),
            crcw.seen() == inpf@.take(done as int),
            crcw.inner().accepted() == encw.accepted() + inpf@.take(done as int),
            crcw.inner().same_setup(encw),
            crcw.inner().flushes() == encw.flushes() + Seq::new(
                chunks as nat,
                |i: int| base + chunk_end(total as nat, i),
            ),
            done == 0 ==> crcw.inner() == encw,
        decreases total - done,
    {
        let stop = if total - done > CHUNK_SIZE {
            done + CHUNK_SIZE
        } else {
            total
        };
        while done < stop
            invariant
                total == inpf@.len(),
                done <= stop <= total,
                crcw.seen() == inpf@.take(done as int),
                crcw.inner().accepted() == encw.accepted() + inpf@.take(done as int),
                crcw.inner().same_setup(encw),
                crcw.inner().flushes() == encw.flushes() + Seq::new(
                    chunks as nat,
                    |i: int| base + chunk_end(total as nat, i),
                ),
            decreases stop - done,
        {
            let rest = vstd::slice::slice_subrange(inpf, done, stop);
            let outcome = crcw.write(rest);
            done = chunk_step(done, stop, outcome)?;
        }
        crcw.flush()?;
        proof {
            chunks = chunks + 1;
        }
    }
    let sum = crcw.checksum();
    assert(inpf@.take(total as int) =~= inpf@);
    Ok((total as u64, sum, crcw.into_inner()))
}

} // verus!
